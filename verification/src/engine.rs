//! The reconciliation engine: the per-tick state machine and its requeue
//! policy, with the at-most-one-live-job argument over whole sequences of
//! reconciliation cycles.

use vstd::prelude::*;

use crate::ControllerError;

verus! {

/// The requeue delay while a job is in flight or was just started.
pub const SHORT_REQUEUE_SECS: u64 = 60;

/// The requeue delay after convergence or after an error.
pub const LONG_REQUEUE_SECS: u64 = 360;

/// The engine's view of the build job for a managed resource.
#[derive(Debug, Clone, Copy, PartialEq, Eq, Structural)]
pub enum JobState {
    /// No job object exists.
    Absent,
    /// A job exists and has no completion timestamp yet.
    Active,
    /// A job exists and carries a completion timestamp.
    Completed,
}

/// Projects a status query's answer onto the engine's view.
pub fn job_state_of(found: bool, completed: bool) -> (js: JobState)
    ensures
        js == (if !found {
            JobState::Absent
        } else if completed {
            JobState::Completed
        } else {
            JobState::Active
        }),
{
    if !found {
        JobState::Absent
    } else if completed {
        JobState::Completed
    } else {
        JobState::Active
    }
}

/// What one tick does next, given the observed job state.
#[derive(Debug, Clone, Copy, PartialEq, Eq, Structural)]
pub enum TickAction {
    /// A job is in flight: only requeue.
    Wait { requeue_secs: u64 },
    /// The job completed: delete it, then requeue.
    Cleanup { requeue_secs: u64 },
    /// No job exists: resolve the source references and submit a build.
    Resolve,
}

/// Decides the tick from the observed job state: an in-flight job means a
/// short requeue, a completed one is cleaned up with a long requeue, and an
/// absent one calls for resolution. The status check always precedes any
/// creation.
pub fn plan_tick(js: &JobState) -> (a: TickAction)
    ensures
        *js is Active ==> a == (TickAction::Wait { requeue_secs: SHORT_REQUEUE_SECS }),
        *js is Completed ==> a == (TickAction::Cleanup { requeue_secs: LONG_REQUEUE_SECS }),
        *js is Absent ==> (a is Resolve),
{
    match js {
        JobState::Active => TickAction::Wait { requeue_secs: SHORT_REQUEUE_SECS },
        JobState::Completed => TickAction::Cleanup { requeue_secs: LONG_REQUEUE_SECS },
        JobState::Absent => TickAction::Resolve,
    }
}

/// A build submission: the reference to build, its image tag, and the short
/// requeue that follows a fresh submission.
#[derive(Debug, Clone)]
pub struct Submission {
    pub selected_ref: String,
    pub image_tag: String,
    pub requeue_secs: u64,
}

/// Turns the selection outcome into a submission, or the no-valid-ref
/// error when no target exists yet — a recoverable condition, retried via
/// the error policy.
pub fn plan_submission(selection: Option<(String, String)>) -> (r: Result<
    Submission,
    ControllerError,
>)
    ensures
        match selection {
            Some(sel) => r matches Ok(s) && s.selected_ref@ == sel.0@ && s.image_tag@ == sel.1@
                && s.requeue_secs == SHORT_REQUEUE_SECS,
            None => r matches Err(ControllerError::ReconcileError(m)) && m@
                == "Could not find valid ref to watch!"@,
        },
{
    match selection {
        Some(sel) => Ok(
            Submission {
                selected_ref: sel.0,
                image_tag: sel.1,
                requeue_secs: SHORT_REQUEUE_SECS,
            },
        ),
        None => Err(
            ControllerError::ReconcileError("Could not find valid ref to watch!".to_owned()),
        ),
    }
}

/// The uniform error policy: every failure schedules the long requeue, so
/// the loop always makes forward progress on the next tick.
pub fn error_policy(_error: &ControllerError) -> (r: u64)
    ensures
        r == LONG_REQUEUE_SECS,
{
    LONG_REQUEUE_SECS
}

/// The job state a consistent cluster reports for a given number of job
/// objects: absent exactly when none exists.
pub open spec fn observe(jobs: nat, completed: bool) -> JobState {
    if jobs == 0 {
        JobState::Absent
    } else if completed {
        JobState::Completed
    } else {
        JobState::Active
    }
}

/// The number of job objects after one reconciliation cycle that follows
/// [`plan_tick`]: waiting changes nothing, cleanup deletes the job, and
/// resolution submits one new job exactly when a target resolved.
pub open spec fn cycle_jobs(jobs: nat, completed: bool, resolved: bool) -> nat {
    match observe(jobs, completed) {
        JobState::Active => jobs,
        JobState::Completed => 0,
        JobState::Absent => if resolved {
            jobs + 1
        } else {
            jobs
        },
    }
}

/// The number of job objects after a whole sequence of reconciliation
/// cycles, each given by its observed completion flag and whether its
/// resolution produced a target.
pub open spec fn run_jobs(jobs: nat, events: Seq<(bool, bool)>) -> nat
    decreases events.len(),
{
    if events.len() == 0 {
        jobs
    } else {
        run_jobs(cycle_jobs(jobs, events[0].0, events[0].1), events.skip(1))
    }
}

/// At most one live job: a single cycle from a cluster holding at most one
/// job leaves at most one, and a submission happens only when no job
/// exists.
pub proof fn lemma_at_most_one_live_job_step(jobs: nat, completed: bool, resolved: bool)
    requires
        jobs <= 1,
    ensures
        cycle_jobs(jobs, completed, resolved) <= 1,
        observe(jobs, completed) is Absent ==> jobs == 0,
{
}

/// At most one live job, over whole sequences: starting from a cluster
/// holding at most one job for the resource, every intermediate state of
/// every reconciliation sequence holds at most one.
pub proof fn lemma_at_most_one_live_job(jobs: nat, events: Seq<(bool, bool)>)
    requires
        jobs <= 1,
    ensures
        forall|k: int| 0 <= k <= events.len() ==> #[trigger] run_jobs(jobs, events.take(k)) <= 1,
    decreases events.len(),
{
    assert(events.take(0) =~= Seq::empty());
    if events.len() > 0 {
        let jobs1 = cycle_jobs(jobs, events[0].0, events[0].1);
        lemma_at_most_one_live_job_step(jobs, events[0].0, events[0].1);
        lemma_at_most_one_live_job(jobs1, events.skip(1));
        assert forall|k: int| 0 <= k <= events.len() implies #[trigger] run_jobs(
            jobs,
            events.take(k),
        ) <= 1 by {
            if k > 0 {
                assert(events.take(k).skip(1) =~= events.skip(1).take(k - 1));
                assert(events.take(k)[0] == events[0]);
                assert(run_jobs(jobs, events.take(k)) == run_jobs(
                    jobs1,
                    events.skip(1).take(k - 1),
                ));
                assert(run_jobs(jobs1, events.skip(1).take(k - 1)) <= 1);
            }
        }
    }
}

} // verus!
