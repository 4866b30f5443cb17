//! Git reference classification and naming.
//!
//! A reference advertised by the remote is classified from its full path
//! prefix, given a short name with the two leading path segments removed,
//! and filtered so that pull-request references never become build targets.

use vstd::prelude::*;
use vstd::string::*;

use crate::strutil::{find_char_from, seq_starts_with, str_eq_chars, str_starts_with};
use crate::ControllerError;
use crate::crd::Credentials;

verus! {

/// The kind of an advertised reference, derived from its full path prefix.
#[derive(Debug, Clone, Copy, PartialEq, Eq, Structural)]
pub enum GitRefType {
    Branch,
    Tag,
    Pull,
    HEAD,
}

/// One advertised reference: its kind, full path, revision id and short name.
#[derive(Debug, Clone)]
pub struct GitRef {
    pub ref_type: GitRefType,
    pub full_ref: String,
    pub oid: String,
    pub name: String,
}

/// The mathematical image of a [`GitRef`].
pub struct GitRefView {
    pub ref_type: GitRefType,
    pub full_ref: Seq<char>,
    pub oid: Seq<char>,
    pub name: Seq<char>,
}

impl View for GitRef {
    type V = GitRefView;

    open spec fn view(&self) -> GitRefView {
        GitRefView {
            ref_type: self.ref_type,
            full_ref: self.full_ref@,
            oid: self.oid@,
            name: self.name@,
        }
    }
}

/// What a full reference path classifies to, in priority order; `None` for
/// an unrecognized shape.
pub open spec fn spec_classify(s: Seq<char>) -> Option<GitRefType> {
    if seq_starts_with(s, "refs/heads/"@) {
        Some(GitRefType::Branch)
    } else if seq_starts_with(s, "refs/pull/"@) {
        Some(GitRefType::Pull)
    } else if seq_starts_with(s, "refs/tags/"@) {
        Some(GitRefType::Tag)
    } else if s == "HEAD"@ {
        Some(GitRefType::HEAD)
    } else {
        None
    }
}

/// Classifies a full reference path. An unrecognized shape is an explicit
/// reconciliation error, never a crash.
pub fn classify_ref_type(full_ref: &str) -> (r: Result<GitRefType, ControllerError>)
    ensures
        match r {
            Ok(t) => spec_classify(full_ref@) == Some(t),
            Err(e) => spec_classify(full_ref@) is None && (e matches
                ControllerError::ReconcileError(m) && m@ == full_ref@
                + " is an invalid git ref type!"@),
        },
{
    if str_starts_with(full_ref, "refs/heads/") {
        Ok(GitRefType::Branch)
    } else if str_starts_with(full_ref, "refs/pull/") {
        Ok(GitRefType::Pull)
    } else if str_starts_with(full_ref, "refs/tags/") {
        Ok(GitRefType::Tag)
    } else if str_eq_chars(full_ref, "HEAD") {
        Ok(GitRefType::HEAD)
    } else {
        Err(ControllerError::ReconcileError(
            full_ref.to_owned().concat(" is an invalid git ref type!"),
        ))
    }
}

/// The index of the first `/` in `s`, or `s.len()` if there is none.
pub open spec fn first_slash(s: Seq<char>) -> int
    decreases s.len(),
{
    if s.len() == 0 {
        0
    } else if s[0] == '/' {
        0
    } else {
        1 + first_slash(s.skip(1))
    }
}

/// `first_slash` agrees with any index below which no slash occurs and at
/// which one does (or which is the length).
pub proof fn lemma_first_slash_at(s: Seq<char>, k: int)
    requires
        0 <= k <= s.len(),
        forall|j: int| 0 <= j < k ==> s[j] != '/',
        k < s.len() ==> s[k] == '/',
    ensures
        first_slash(s) == k,
    decreases k,
{
    if s.len() == 0 {
    } else if s[0] == '/' {
        assert(k == 0);
    } else {
        assert(k >= 1);
        assert forall|j: int| 0 <= j < k - 1 implies s.skip(1)[j] != '/' by {
            assert(s.skip(1)[j] == s[j + 1]);
        }
        assert(k - 1 < s.skip(1).len() ==> s.skip(1)[k - 1] == s[k]);
        lemma_first_slash_at(s.skip(1), k - 1);
    }
}

/// The short name of a full reference path: the path with its first two
/// segments removed; a path with no `/` is its own short name; a path with
/// exactly one `/` leaves nothing.
pub open spec fn short_name(s: Seq<char>) -> Seq<char> {
    if first_slash(s) == s.len() {
        s
    } else {
        let rest = s.skip(first_slash(s) + 1);
        if first_slash(rest) == rest.len() {
            Seq::empty()
        } else {
            rest.skip(first_slash(rest) + 1)
        }
    }
}

impl GitRef {
    /// Derives the short name of a full reference path.
    pub fn extract_name(full_ref: String) -> (r: String)
        ensures
            r@ == short_name(full_ref@),
    {
        let s = full_ref.as_str();
        let len = s.unicode_len();
        match find_char_from(s, '/', 0) {
            None => {
                proof {
                    lemma_first_slash_at(full_ref@, full_ref@.len() as int);
                }
                full_ref
            },
            Some(i1) => {
                proof {
                    lemma_first_slash_at(full_ref@, i1 as int);
                }
                let ghost rest = full_ref@.skip(i1 + 1);
                match find_char_from(s, '/', i1 + 1) {
                    None => {
                        proof {
                            assert forall|j: int| 0 <= j < rest.len() implies rest[j] != '/' by {
                                assert(rest[j] == full_ref@[j + i1 + 1]);
                            }
                            lemma_first_slash_at(rest, rest.len() as int);
                        }
                        String::new()
                    },
                    Some(i2) => {
                        proof {
                            assert forall|j: int| 0 <= j < i2 - (i1 + 1) implies rest[j] != '/' by {
                                assert(rest[j] == full_ref@[j + i1 + 1]);
                            }
                            assert(rest[i2 - (i1 + 1)] == full_ref@[i2 as int]);
                            lemma_first_slash_at(rest, i2 - (i1 + 1));
                            assert(rest.skip(i2 - (i1 + 1) + 1) =~= full_ref@.skip(i2 + 1));
                        }
                        s.substring_char(i2 + 1, len).to_owned()
                    },
                }
            },
        }
    }
}

/// The views of a sequence of references.
pub open spec fn views_of(s: Seq<GitRef>) -> Seq<GitRefView> {
    s.map_values(|g: GitRef| g@)
}

/// The views of a sequence of strings.
pub open spec fn strings_of(s: Seq<String>) -> Seq<Seq<char>> {
    s.map_values(|x: String| x@)
}

/// The build targets among the advertised `(full path, revision id)` pairs:
/// every reference that classifies, except pull-request references, in
/// order, with its short name derived.
pub open spec fn spec_targets(heads: Seq<(String, String)>) -> Seq<GitRefView>
    decreases heads.len(),
{
    if heads.len() == 0 {
        Seq::empty()
    } else {
        let rest = spec_targets(heads.drop_last());
        let pair = heads.last();
        match spec_classify(pair.0@) {
            Some(t) => if t is Pull {
                rest
            } else {
                rest.push(
                    GitRefView {
                        ref_type: t,
                        full_ref: pair.0@,
                        oid: pair.1@,
                        name: short_name(pair.0@),
                    },
                )
            },
            None => rest,
        }
    }
}

/// The advertised full paths that do not classify, in order.
pub open spec fn spec_unclassified(heads: Seq<(String, String)>) -> Seq<Seq<char>>
    decreases heads.len(),
{
    if heads.len() == 0 {
        Seq::empty()
    } else {
        let rest = spec_unclassified(heads.drop_last());
        let pair = heads.last();
        match spec_classify(pair.0@) {
            Some(_) => rest,
            None => rest.push(pair.0@),
        }
    }
}

/// Converts the advertised `(full path, revision id)` pairs into build
/// targets. A pair whose path does not classify is set aside rather than
/// aborting the remaining references; pull-request references are filtered
/// out unconditionally.
pub fn collect_targets(heads: Vec<(String, String)>) -> (r: (Vec<GitRef>, Vec<String>))
    ensures
        views_of(r.0@) == spec_targets(heads@),
        strings_of(r.1@) == spec_unclassified(heads@),
{
    let mut refs: Vec<GitRef> = Vec::new();
    let mut invalid: Vec<String> = Vec::new();
    let n = heads.len();
    assert(views_of(refs@) =~= spec_targets(heads@.take(0)));
    assert(strings_of(invalid@) =~= spec_unclassified(heads@.take(0)));
    let mut i: usize = 0;
    while i < n
        invariant
            0 <= i <= n,
            n == heads@.len(),
            views_of(refs@) == spec_targets(heads@.take(i as int)),
            strings_of(invalid@) == spec_unclassified(heads@.take(i as int)),
        decreases n - i,
    {
        let full_ref = heads[i].0.clone();
        let oid = heads[i].1.clone();
        proof {
            assert(heads@.take(i + 1).drop_last() =~= heads@.take(i as int));
            assert(heads@.take(i + 1).last() == heads@[i as int]);
        }
        match classify_ref_type(full_ref.as_str()) {
            Ok(t) => {
                if !matches!(t, GitRefType::Pull) {
                    let name = GitRef::extract_name(full_ref.clone());
                    let g = GitRef { ref_type: t, full_ref, oid, name };
                    let ghost old_refs = refs@;
                    refs.push(g);
                    proof {
                        assert(views_of(refs@) =~= views_of(old_refs).push(g@));
                    }
                } else {
                    proof {
                        assert(t is Pull);
                    }
                }
            },
            Err(_) => {
                let ghost old_invalid = invalid@;
                invalid.push(full_ref);
                proof {
                    assert(strings_of(invalid@) =~= strings_of(old_invalid).push(
                        invalid@.last()@,
                    ));
                }
            },
        }
        i += 1;
    }
    proof {
        assert(heads@.take(n as int) =~= heads@);
    }
    (refs, invalid)
}

/// How the remote connection should authenticate.
#[derive(Debug, Clone)]
pub enum GitAuth {
    /// No credentials configured: connect anonymously.
    Anonymous,
    /// Plaintext credentials, used directly.
    Plaintext { username: String, password: String },
}

/// Picks the authentication for the source repository from the configured
/// credentials. Secret-based credentials are not resolvable by the core and
/// are an explicit error; a credential entry with neither shape is invalid.
pub fn resolve_git_auth(creds: &Option<Credentials>) -> (r: Result<GitAuth, ControllerError>)
    ensures
        match creds {
            None => r matches Ok(GitAuth::Anonymous),
            Some(c) => match c.plaintext {
                Some(ref p) => r matches Ok(GitAuth::Plaintext { username, password })
                    && username@ == p.username@ && password@ == p.password@,
                None => if c.from_secret is Some {
                    r matches Err(ControllerError::ReconcileError(m))
                        && m@ == "Credentials from a secret are not supported!"@
                } else {
                    r matches Err(ControllerError::ReconcileError(m))
                        && m@ == "Provided an invalid crential entry!"@
                },
            },
        },
{
    match creds {
        None => Ok(GitAuth::Anonymous),
        Some(c) => match &c.plaintext {
            Some(p) => Ok(
                GitAuth::Plaintext {
                    username: p.username.clone(),
                    password: p.password.clone(),
                },
            ),
            None => {
                if c.from_secret.is_some() {
                    Err(ControllerError::ReconcileError(
                        "Credentials from a secret are not supported!".to_owned(),
                    ))
                } else {
                    Err(ControllerError::ReconcileError(
                        "Provided an invalid crential entry!".to_owned(),
                    ))
                }
            },
        },
    }
}

} // verus!
