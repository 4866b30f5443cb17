//! Target selection: which advertised reference should be built.
//!
//! In semver mode the highest-precedence parseable tag wins (the earliest
//! such tag on a tie); with an explicit branch the first branch reference
//! of that short name wins; otherwise the advertised head wins, with its
//! revision id as the build tag.

use vstd::prelude::*;
use vstd::string::*;

use crate::crd::StaticSiteSpec;
use crate::gitref::{views_of, GitRef, GitRefView};
use crate::strutil::str_eq_chars;
use crate::version::{
    lemma_version_lt_irrefl, lemma_version_lt_trans, lemma_version_lt_trichotomy, parse_semver,
    semver_parse, spec_version_lt, Version, VersionView,
};

verus! {

/// A short name with an optional leading `v` removed.
pub open spec fn strip_v(s: Seq<char>) -> Seq<char> {
    if s.len() > 0 && s[0] == 'v' {
        s.skip(1)
    } else {
        s
    }
}

/// The version a reference's short name parses to, after `v`-stripping.
pub open spec fn tag_version(g: GitRefView) -> Option<VersionView> {
    semver_parse(strip_v(g.name))
}

/// A tag reference whose short name parses as a semantic version.
pub open spec fn is_semver_candidate(g: GitRefView) -> bool {
    g.ref_type is Tag && tag_version(g) is Some
}

/// `i` holds the selected semver target: a candidate that no candidate
/// exceeds, and the earliest such candidate.
pub open spec fn semver_selected_at(refs: Seq<GitRefView>, i: int) -> bool {
    &&& 0 <= i < refs.len()
    &&& is_semver_candidate(refs[i])
    &&& forall|j: int|
        0 <= j < refs.len() && #[trigger] is_semver_candidate(refs[j]) ==> !spec_version_lt(
            tag_version(refs[i])->Some_0,
            tag_version(refs[j])->Some_0,
        )
    &&& forall|j: int|
        0 <= j < i && #[trigger] is_semver_candidate(refs[j]) ==> spec_version_lt(
            tag_version(refs[j])->Some_0,
            tag_version(refs[i])->Some_0,
        )
}

/// A branch reference with the given short name.
pub open spec fn branch_match(g: GitRefView, b: Seq<char>) -> bool {
    g.ref_type is Branch && g.name == b
}

/// Whether the site selects by semantic-version tags.
pub open spec fn semver_mode(site: StaticSiteSpec) -> bool {
    site.use_semver == Some(true)
}

/// Picks the reference to build and the image tag for it, per the site's
/// selection policy. `None` means no valid target exists yet.
#[verifier::loop_isolation(false)]
pub fn determine_selected_ref(site: &StaticSiteSpec, ref_list: Vec<GitRef>) -> (r: Option<
    (String, String),
>)
    ensures
        semver_mode(*site) ==> match r {
            Some(sel) => exists|i: int|
                #[trigger] semver_selected_at(views_of(ref_list@), i) && sel.0@ == views_of(
                    ref_list@,
                )[i].full_ref && sel.1@ == views_of(ref_list@)[i].name,
            None => forall|j: int|
                0 <= j < ref_list@.len() ==> !is_semver_candidate(views_of(ref_list@)[j]),
        },
        !semver_mode(*site) ==> match site.branch {
            Some(ref b) => match r {
                Some(sel) => exists|i: int|
                    {
                        &&& 0 <= i < ref_list@.len()
                        &&& #[trigger] branch_match(views_of(ref_list@)[i], b@)
                        &&& forall|j: int|
                            0 <= j < i ==> !branch_match(views_of(ref_list@)[j], b@)
                        &&& sel.0@ == views_of(ref_list@)[i].full_ref
                        &&& sel.1@ == views_of(ref_list@)[i].name
                    },
                None => forall|j: int|
                    0 <= j < ref_list@.len() ==> !branch_match(views_of(ref_list@)[j], b@),
            },
            None => match r {
                Some(sel) => exists|i: int|
                    {
                        &&& 0 <= i < ref_list@.len()
                        &&& (#[trigger] views_of(ref_list@)[i]).ref_type is HEAD
                        &&& forall|j: int|
                            0 <= j < i ==> !(views_of(ref_list@)[j].ref_type is HEAD)
                        &&& sel.0@ == views_of(ref_list@)[i].full_ref
                        &&& sel.1@ == views_of(ref_list@)[i].oid
                    },
                None => forall|j: int|
                    0 <= j < ref_list@.len() ==> !(views_of(ref_list@)[j].ref_type is HEAD),
            },
        },
{
    let ghost refs = views_of(ref_list@);
    let n = ref_list.len();
    let semver_on = match &site.use_semver {
        Some(b) => *b,
        None => false,
    };
    if semver_on {
        let mut best: Option<(usize, Version)> = None;
        let mut i: usize = 0;
        while i < n
            invariant
                0 <= i <= n,
                n == ref_list@.len(),
                refs == views_of(ref_list@),
                match best {
                    None => forall|j: int| 0 <= j < i ==> !is_semver_candidate(refs[j]),
                    Some(b) => {
                        &&& b.0 < i
                        &&& is_semver_candidate(refs[b.0 as int])
                        &&& tag_version(refs[b.0 as int]) == Some(b.1@)
                        &&& forall|j: int|
                            0 <= j < i && #[trigger] is_semver_candidate(refs[j])
                                ==> !spec_version_lt(b.1@, tag_version(refs[j])->Some_0)
                        &&& forall|j: int|
                            0 <= j < b.0 && #[trigger] is_semver_candidate(refs[j])
                                ==> spec_version_lt(tag_version(refs[j])->Some_0, b.1@)
                    },
                },
            decreases n - i,
        {
            proof {
                assert(refs[i as int] == ref_list@[i as int]@);
            }
            let is_tag = matches!(ref_list[i].ref_type, crate::gitref::GitRefType::Tag);
            if is_tag {
                let name_s = ref_list[i].name.as_str();
                let nlen = name_s.unicode_len();
                let stripped: &str = if nlen > 0 && name_s.get_char(0) == 'v' {
                    name_s.substring_char(1, nlen)
                } else {
                    name_s
                };
                proof {
                    assert(stripped@ =~= strip_v(refs[i as int].name));
                }
                match parse_semver(stripped) {
                    Some(v) => {
                        match &best {
                            None => {
                                proof {
                                    lemma_version_lt_irrefl(v@);
                                }
                                best = Some((i, v));
                            },
                            Some(b) => {
                                let ghost bv = b.1@;
                                if b.1.precedence_lt(&v) {
                                    proof {
                                        assert forall|j: int|
                                            0 <= j < i + 1 && #[trigger] is_semver_candidate(
                                                refs[j],
                                            ) implies !spec_version_lt(
                                            v@,
                                            tag_version(refs[j])->Some_0,
                                        ) by {
                                            let vj = tag_version(refs[j])->Some_0;
                                            if j < i && spec_version_lt(v@, vj) {
                                                lemma_version_lt_trans(bv, v@, vj);
                                            }
                                            if j == i {
                                                lemma_version_lt_irrefl(v@);
                                            }
                                        }
                                        assert forall|j: int|
                                            0 <= j < i && #[trigger] is_semver_candidate(refs[j])
                                            implies spec_version_lt(
                                            tag_version(refs[j])->Some_0,
                                            v@,
                                        ) by {
                                            let vj = tag_version(refs[j])->Some_0;
                                            lemma_version_lt_trichotomy(bv, vj);
                                            if spec_version_lt(vj, bv) {
                                                lemma_version_lt_trans(vj, bv, v@);
                                            }
                                        }
                                    }
                                    best = Some((i, v));
                                } else {
                                    // the kept best still dominates the new candidate
                                }
                            },
                        }
                    },
                    None => {
                        proof {
                            assert(tag_version(refs[i as int]) is None);
                            assert(!is_semver_candidate(refs[i as int]));
                        }
                    },
                }
            } else {
                proof {
                    assert(!(refs[i as int].ref_type is Tag));
                    assert(!is_semver_candidate(refs[i as int]));
                }
            }
            i += 1;
        }
        match best {
            None => None,
            Some(b) => {
                proof {
                    assert(semver_selected_at(refs, b.0 as int));
                }
                Some((ref_list[b.0].full_ref.clone(), ref_list[b.0].name.clone()))
            },
        }
    } else {
        match &site.branch {
            Some(branch) => {
                let mut i: usize = 0;
                while i < n
                    invariant
                        0 <= i <= n,
                        n == ref_list@.len(),
                        refs == views_of(ref_list@),
                        forall|j: int| 0 <= j < i ==> !branch_match(refs[j], branch@),
                    decreases n - i,
                {
                    proof {
                        assert(refs[i as int] == ref_list@[i as int]@);
                    }
                    if matches!(ref_list[i].ref_type, crate::gitref::GitRefType::Branch)
                        && str_eq_chars(ref_list[i].name.as_str(), branch.as_str()) {
                        proof {
                            assert(branch_match(views_of(ref_list@)[i as int], branch@));
                        }
                        return Some((ref_list[i].full_ref.clone(), ref_list[i].name.clone()));
                    }
                    i += 1;
                }
                None
            },
            None => {
                let mut i: usize = 0;
                while i < n
                    invariant
                        0 <= i <= n,
                        n == ref_list@.len(),
                        refs == views_of(ref_list@),
                        forall|j: int| 0 <= j < i ==> !(refs[j].ref_type is HEAD),
                    decreases n - i,
                {
                    proof {
                        assert(refs[i as int] == ref_list@[i as int]@);
                    }
                    if matches!(ref_list[i].ref_type, crate::gitref::GitRefType::HEAD) {
                        proof {
                            assert((views_of(ref_list@)[i as int]).ref_type is HEAD);
                        }
                        return Some((ref_list[i].full_ref.clone(), ref_list[i].oid.clone()));
                    }
                    i += 1;
                }
                None
            },
        }
    }
}

} // verus!
