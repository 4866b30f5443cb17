//! Gazer: a verified core for an automatic static-site deployer.
//!
//! The library holds the reconciliation logic: classifying and selecting
//! git references, planning build jobs, and deciding requeue intervals.

pub mod build_plan;
pub mod cli;
pub mod crd;
pub mod engine;
pub mod gitref;
pub mod select;
pub mod strutil;
pub mod version;

use vstd::prelude::*;

verus! {

/// The errors the reconciliation core can report.
#[derive(Debug, Clone)]
pub enum ControllerError {
    /// A failure reported by the cluster API.
    KubeError(String),
    /// A domain-level reconciliation failure.
    ReconcileError(String),
}

} // verus!
