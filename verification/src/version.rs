//! Semantic versions and their precedence order.
//!
//! Parsing is delegated to the `semver` crate; the precedence comparison
//! (major, then minor, then patch, then pre-release precedence) is
//! implemented and verified here, against a specification that follows the
//! SemVer rules: pre-release identifiers are compared dot-segment by
//! dot-segment, numeric identifiers numerically (equal-length tie broken
//! lexically), numeric below alphanumeric, alphanumeric in ASCII order, and
//! a shorter identifier set below a longer one with an equal prefix. A
//! version without a pre-release ranks above one with it.

use vstd::prelude::*;

verus! {

/// The byte value of `.`, the pre-release identifier separator.
pub const DOT_BYTE: u8 = 46;

/// A parsed semantic version: the numeric triple and the pre-release
/// identifiers as bytes (empty means a full release). Build metadata does
/// not take part in precedence and is dropped.
#[derive(Debug, Clone)]
pub struct Version {
    pub major: u64,
    pub minor: u64,
    pub patch: u64,
    pub pre: Vec<u8>,
}

/// The mathematical image of a [`Version`].
pub struct VersionView {
    pub major: nat,
    pub minor: nat,
    pub patch: nat,
    pub pre: Seq<u8>,
}

impl View for Version {
    type V = VersionView;

    open spec fn view(&self) -> VersionView {
        VersionView {
            major: self.major as nat,
            minor: self.minor as nat,
            patch: self.patch as nat,
            pre: self.pre@,
        }
    }
}

/// Every byte of `s` is an ASCII digit.
pub open spec fn all_digits(s: Seq<u8>) -> bool {
    forall|i: int| 0 <= i < s.len() ==> 48 <= #[trigger] s[i] <= 57
}

/// Lexicographic order on byte sequences; a proper prefix ranks below.
pub open spec fn bytes_lex_lt(a: Seq<u8>, b: Seq<u8>) -> bool
    decreases a.len(),
{
    if b.len() == 0 {
        false
    } else if a.len() == 0 {
        true
    } else if a[0] != b[0] {
        a[0] < b[0]
    } else {
        bytes_lex_lt(a.skip(1), b.skip(1))
    }
}

/// Precedence of single pre-release identifiers: numeric identifiers
/// compare numerically (by length, then lexically, which agrees with the
/// numeric value in the absence of leading zeros) and rank below
/// alphanumeric ones; alphanumeric identifiers compare in ASCII order.
pub open spec fn ident_lt(a: Seq<u8>, b: Seq<u8>) -> bool {
    if all_digits(a) && all_digits(b) {
        a.len() < b.len() || (a.len() == b.len() && bytes_lex_lt(a, b))
    } else if all_digits(a) {
        true
    } else if all_digits(b) {
        false
    } else {
        bytes_lex_lt(a, b)
    }
}

/// The index of the first `.` in `s`, or `s.len()` if there is none: the
/// end of the leading identifier.
pub open spec fn ident_end(s: Seq<u8>) -> int
    decreases s.len(),
{
    if s.len() == 0 {
        0
    } else if s[0] == DOT_BYTE {
        0
    } else {
        1 + ident_end(s.skip(1))
    }
}

/// `ident_end` is a position in `s`, holds a dot unless it is the length,
/// and nothing before it is a dot.
pub proof fn lemma_ident_end_props(s: Seq<u8>)
    ensures
        0 <= ident_end(s) <= s.len(),
        ident_end(s) < s.len() ==> s[ident_end(s)] == DOT_BYTE,
        forall|j: int| 0 <= j < ident_end(s) ==> s[j] != DOT_BYTE,
    decreases s.len(),
{
    if s.len() == 0 {
    } else if s[0] == DOT_BYTE {
    } else {
        lemma_ident_end_props(s.skip(1));
        assert forall|j: int| 0 <= j < ident_end(s) implies s[j] != DOT_BYTE by {
            if j > 0 {
                assert(s.skip(1)[j - 1] == s[j]);
            }
        }
        if ident_end(s) < s.len() {
            assert(s.skip(1)[ident_end(s) - 1] == s[ident_end(s)]);
        }
    }
}

/// `ident_end` agrees with any dot-free position that ends at a dot or at
/// the length.
pub proof fn lemma_ident_end_at(s: Seq<u8>, k: int)
    requires
        0 <= k <= s.len(),
        forall|j: int| 0 <= j < k ==> s[j] != DOT_BYTE,
        k < s.len() ==> s[k] == DOT_BYTE,
    ensures
        ident_end(s) == k,
    decreases k,
{
    if s.len() == 0 {
    } else if s[0] == DOT_BYTE {
        assert(k == 0);
    } else {
        assert(k >= 1);
        assert forall|j: int| 0 <= j < k - 1 implies s.skip(1)[j] != DOT_BYTE by {
            assert(s.skip(1)[j] == s[j + 1]);
        }
        assert(k - 1 < s.skip(1).len() ==> s.skip(1)[k - 1] == s[k]);
        lemma_ident_end_at(s.skip(1), k - 1);
    }
}

/// Precedence of non-empty pre-release byte strings: the leading
/// identifiers decide; with equal leading identifiers, an exhausted string
/// ranks below, else the remainders decide.
pub open spec fn pre_lt(a: Seq<u8>, b: Seq<u8>) -> bool
    decreases a.len(),
    via pre_lt_decreases
{
    let ia = ident_end(a);
    let ib = ident_end(b);
    let a0 = a.take(ia);
    let b0 = b.take(ib);
    if ident_lt(a0, b0) {
        true
    } else if ident_lt(b0, a0) {
        false
    } else if ia == a.len() && ib == b.len() {
        false
    } else if ia == a.len() {
        true
    } else if ib == b.len() {
        false
    } else {
        pre_lt(a.skip(ia + 1), b.skip(ib + 1))
    }
}

#[via_fn]
proof fn pre_lt_decreases(a: Seq<u8>, b: Seq<u8>) {
    lemma_ident_end_props(a);
    lemma_ident_end_props(b);
}

/// Pre-release precedence with the release rule: a version with a
/// pre-release ranks below the same numeric triple without one.
pub open spec fn pre_rank_lt(a: Seq<u8>, b: Seq<u8>) -> bool {
    if b.len() == 0 {
        a.len() > 0
    } else if a.len() == 0 {
        false
    } else {
        pre_lt(a, b)
    }
}

/// SemVer precedence on parsed versions.
pub open spec fn spec_version_lt(a: VersionView, b: VersionView) -> bool {
    a.major < b.major || (a.major == b.major && (a.minor < b.minor || (a.minor == b.minor && (
    a.patch < b.patch || (a.patch == b.patch && pre_rank_lt(a.pre, b.pre))))))
}

/// Lexicographic order is insensitive to an equal prefix.
pub proof fn lemma_lex_skip(a: Seq<u8>, b: Seq<u8>, k: int)
    requires
        0 <= k <= a.len(),
        k <= b.len(),
        forall|j: int| 0 <= j < k ==> a[j] == b[j],
    ensures
        bytes_lex_lt(a, b) == bytes_lex_lt(a.skip(k), b.skip(k)),
    decreases k,
{
    if k == 0 {
        assert(a.skip(0) =~= a);
        assert(b.skip(0) =~= b);
    } else {
        assert forall|j: int| 0 <= j < k - 1 implies a.skip(1)[j] == b.skip(1)[j] by {
            assert(a.skip(1)[j] == a[j + 1]);
            assert(b.skip(1)[j] == b[j + 1]);
        }
        lemma_lex_skip(a.skip(1), b.skip(1), k - 1);
        assert(a.skip(1).skip(k - 1) =~= a.skip(k));
        assert(b.skip(1).skip(k - 1) =~= b.skip(k));
    }
}

/// Lexicographic order is transitive.
pub proof fn lemma_lex_trans(a: Seq<u8>, b: Seq<u8>, c: Seq<u8>)
    requires
        bytes_lex_lt(a, b),
        bytes_lex_lt(b, c),
    ensures
        bytes_lex_lt(a, c),
    decreases a.len(),
{
    if c.len() == 0 {
    } else if b.len() == 0 {
    } else if a.len() == 0 {
    } else {
        if a[0] == b[0] && b[0] == c[0] {
            lemma_lex_trans(a.skip(1), b.skip(1), c.skip(1));
        }
    }
}

/// Lexicographic order is total: two sequences compare one way or are equal.
pub proof fn lemma_lex_trichotomy(a: Seq<u8>, b: Seq<u8>)
    ensures
        bytes_lex_lt(a, b) || bytes_lex_lt(b, a) || a == b,
    decreases a.len(),
{
    if b.len() == 0 || a.len() == 0 {
        if a.len() == 0 && b.len() == 0 {
            assert(a =~= b);
        }
    } else if a[0] != b[0] {
    } else {
        lemma_lex_trichotomy(a.skip(1), b.skip(1));
        if !bytes_lex_lt(a, b) && !bytes_lex_lt(b, a) {
            assert(a.skip(1) == b.skip(1));
            assert forall|i: int| 0 <= i < a.len() implies a[i] == b[i] by {
                if i > 0 {
                    assert(a.skip(1)[i - 1] == a[i]);
                    assert(b.skip(1)[i - 1] == b[i]);
                }
            }
            assert(a.len() == b.len());
            assert(a =~= b);
        }
    }
}

/// Lexicographic order is irreflexive.
pub proof fn lemma_lex_irrefl(a: Seq<u8>)
    ensures
        !bytes_lex_lt(a, a),
    decreases a.len(),
{
    if a.len() > 0 {
        lemma_lex_irrefl(a.skip(1));
    }
}

/// Identifier precedence is transitive.
pub proof fn lemma_ident_trans(a: Seq<u8>, b: Seq<u8>, c: Seq<u8>)
    requires
        ident_lt(a, b),
        ident_lt(b, c),
    ensures
        ident_lt(a, c),
{
    if all_digits(a) && all_digits(b) && all_digits(c) {
        if a.len() == b.len() && b.len() == c.len() {
            lemma_lex_trans(a, b, c);
        }
    } else if !all_digits(a) && !all_digits(b) && !all_digits(c) {
        lemma_lex_trans(a, b, c);
    }
}

/// Identifier precedence is total.
pub proof fn lemma_ident_trichotomy(a: Seq<u8>, b: Seq<u8>)
    ensures
        ident_lt(a, b) || ident_lt(b, a) || a == b,
{
    if all_digits(a) && all_digits(b) {
        if a.len() == b.len() {
            lemma_lex_trichotomy(a, b);
        }
    } else if !all_digits(a) && !all_digits(b) {
        lemma_lex_trichotomy(a, b);
    }
}

/// Pre-release precedence is transitive.
pub proof fn lemma_pre_lt_trans(a: Seq<u8>, b: Seq<u8>, c: Seq<u8>)
    requires
        pre_lt(a, b),
        pre_lt(b, c),
    ensures
        pre_lt(a, c),
    decreases a.len(),
{
    lemma_ident_end_props(a);
    lemma_ident_end_props(b);
    lemma_ident_end_props(c);
    let ia = ident_end(a);
    let ib = ident_end(b);
    let ic = ident_end(c);
    let a0 = a.take(ia);
    let b0 = b.take(ib);
    let c0 = c.take(ic);
    lemma_ident_trichotomy(a0, b0);
    lemma_ident_trichotomy(b0, c0);
    lemma_ident_trichotomy(a0, c0);
    if ident_lt(a0, b0) {
        if ident_lt(b0, c0) {
            lemma_ident_trans(a0, b0, c0);
        } else {
            // pre_lt(b, c) forces b0 == c0 here
            assert(b0 == c0);
        }
        assert(ident_lt(a0, c0));
        if ident_lt(c0, a0) {
            lemma_ident_trans(c0, a0, c0);
            lemma_ident_irrefl(c0);
        }
    } else {
        // pre_lt(a, b) forces a0 == b0 here
        assert(a0 == b0);
        if ident_lt(b0, c0) {
            if ident_lt(c0, a0) {
                lemma_ident_trans(b0, c0, a0);
                lemma_ident_irrefl(a0);
            }
        } else {
            assert(b0 == c0);
            // all three leading identifiers equal, so the ends agree
            assert(a0.len() == ia && b0.len() == ib && c0.len() == ic);
            if ia == a.len() {
                // a is exhausted; b is not (else pre_lt(a, b) were false)
            } else {
                // neither a nor b exhausted, so the remainders decide
                lemma_pre_lt_trans(a.skip(ia + 1), b.skip(ib + 1), c.skip(ic + 1));
            }
        }
    }
}

/// Identifier precedence is irreflexive.
pub proof fn lemma_ident_irrefl(a: Seq<u8>)
    ensures
        !ident_lt(a, a),
{
    lemma_lex_irrefl(a);
}

/// Pre-release precedence is total.
pub proof fn lemma_pre_lt_trichotomy(a: Seq<u8>, b: Seq<u8>)
    ensures
        pre_lt(a, b) || pre_lt(b, a) || a == b,
    decreases a.len(),
{
    lemma_ident_end_props(a);
    lemma_ident_end_props(b);
    let ia = ident_end(a);
    let ib = ident_end(b);
    let a0 = a.take(ia);
    let b0 = b.take(ib);
    lemma_ident_trichotomy(a0, b0);
    if !ident_lt(a0, b0) && !ident_lt(b0, a0) {
        assert(a0 == b0);
        assert(ia == ib);
        if ia == a.len() && ib == b.len() {
            assert forall|i: int| 0 <= i < a.len() implies a[i] == b[i] by {
                assert(a0[i] == a[i]);
                assert(b0[i] == b[i]);
            }
            assert(a =~= b);
        } else if ia < a.len() && ib < b.len() {
            lemma_pre_lt_trichotomy(a.skip(ia + 1), b.skip(ib + 1));
            if !pre_lt(a, b) && !pre_lt(b, a) {
                assert(a.skip(ia + 1) == b.skip(ib + 1));
                assert forall|i: int| 0 <= i < a.len() implies a[i] == b[i] by {
                    if i < ia {
                        assert(a0[i] == a[i]);
                        assert(b0[i] == b[i]);
                    } else if i == ia {
                        assert(a[i] == DOT_BYTE);
                        assert(b[i] == DOT_BYTE);
                    } else {
                        assert(a.skip(ia + 1)[i - ia - 1] == a[i]);
                        assert(b.skip(ib + 1)[i - ib - 1] == b[i]);
                    }
                }
                assert(a.len() == b.len());
                assert(a =~= b);
            }
        }
    }
}

/// Pre-release precedence is irreflexive.
pub proof fn lemma_pre_lt_irrefl(a: Seq<u8>)
    ensures
        !pre_lt(a, a),
    decreases a.len(),
{
    lemma_ident_end_props(a);
    let ia = ident_end(a);
    lemma_ident_irrefl(a.take(ia));
    if ia < a.len() {
        lemma_pre_lt_irrefl(a.skip(ia + 1));
    }
}

/// Version precedence is irreflexive.
pub proof fn lemma_version_lt_irrefl(a: VersionView)
    ensures
        !spec_version_lt(a, a),
{
    if a.pre.len() > 0 {
        lemma_pre_lt_irrefl(a.pre);
    }
}

/// Version precedence is transitive.
pub proof fn lemma_version_lt_trans(a: VersionView, b: VersionView, c: VersionView)
    requires
        spec_version_lt(a, b),
        spec_version_lt(b, c),
    ensures
        spec_version_lt(a, c),
{
    if a.major == c.major && a.minor == c.minor && a.patch == c.patch {
        if a.pre.len() > 0 && b.pre.len() > 0 && c.pre.len() > 0 {
            lemma_pre_lt_trans(a.pre, b.pre, c.pre);
        }
    }
}

/// Version precedence is total: two versions compare one way or have equal
/// components.
pub proof fn lemma_version_lt_trichotomy(a: VersionView, b: VersionView)
    ensures
        spec_version_lt(a, b) || spec_version_lt(b, a) || (a.major == b.major && a.minor
            == b.minor && a.patch == b.patch && a.pre == b.pre),
{
    if a.major == b.major && a.minor == b.minor && a.patch == b.patch {
        if a.pre.len() > 0 && b.pre.len() > 0 {
            lemma_pre_lt_trichotomy(a.pre, b.pre);
        } else if a.pre.len() == 0 && b.pre.len() == 0 {
            assert(a.pre =~= b.pre);
        }
    }
}

/// Copies `v[from..to]` into a fresh vector.
fn subrange_vec(v: &Vec<u8>, from: usize, to: usize) -> (r: Vec<u8>)
    requires
        from <= to <= v@.len(),
    ensures
        r@ == v@.subrange(from as int, to as int),
{
    let mut r: Vec<u8> = Vec::new();
    assert(r@ =~= v@.subrange(from as int, from as int));
    let mut k: usize = from;
    while k < to
        invariant
            from <= k <= to <= v@.len(),
            r@ == v@.subrange(from as int, k as int),
        decreases to - k,
    {
        let ghost old_r = r@;
        r.push(v[k]);
        proof {
            assert(r@ =~= v@.subrange(from as int, k + 1));
        }
        k += 1;
    }
    r
}

/// Whether every byte is an ASCII digit.
fn is_all_digits(v: &Vec<u8>) -> (r: bool)
    ensures
        r == all_digits(v@),
{
    let mut k: usize = 0;
    let n = v.len();
    while k < n
        invariant
            0 <= k <= n,
            n == v@.len(),
            forall|j: int| 0 <= j < k ==> 48 <= #[trigger] v@[j] <= 57,
        decreases n - k,
    {
        let x = v[k];
        if x < 48 || x > 57 {
            return false;
        }
        k += 1;
    }
    true
}

/// Lexicographic comparison of byte vectors.
fn bytes_lex_lt_exec(a: &Vec<u8>, b: &Vec<u8>) -> (r: bool)
    ensures
        r == bytes_lex_lt(a@, b@),
{
    let alen = a.len();
    let blen = b.len();
    let mut k: usize = 0;
    while k < alen && k < blen
        invariant
            0 <= k <= alen,
            k <= blen,
            alen == a@.len(),
            blen == b@.len(),
            forall|j: int| 0 <= j < k ==> a@[j] == b@[j],
        decreases alen - k,
    {
        let x = a[k];
        let y = b[k];
        if x != y {
            proof {
                lemma_lex_skip(a@, b@, k as int);
                assert(a@.skip(k as int)[0] == a@[k as int]);
                assert(b@.skip(k as int)[0] == b@[k as int]);
            }
            return x < y;
        }
        k += 1;
    }
    proof {
        lemma_lex_skip(a@, b@, k as int);
    }
    alen < blen
}

/// Single-identifier comparison.
fn ident_lt_exec(a: &Vec<u8>, b: &Vec<u8>) -> (r: bool)
    ensures
        r == ident_lt(a@, b@),
{
    let na = is_all_digits(a);
    let nb = is_all_digits(b);
    if na && nb {
        if a.len() != b.len() {
            a.len() < b.len()
        } else {
            bytes_lex_lt_exec(a, b)
        }
    } else if na {
        true
    } else if nb {
        false
    } else {
        bytes_lex_lt_exec(a, b)
    }
}

/// The first dot at or after `from`, or the length if there is none.
fn find_dot(v: &Vec<u8>, from: usize) -> (r: usize)
    requires
        from <= v@.len(),
    ensures
        from <= r <= v@.len(),
        r < v@.len() ==> v@[r as int] == DOT_BYTE,
        forall|j: int| from <= j < r ==> v@[j] != DOT_BYTE,
{
    let n = v.len();
    let mut k: usize = from;
    while k < n
        invariant
            from <= k <= n,
            n == v@.len(),
            forall|j: int| from <= j < k ==> v@[j] != DOT_BYTE,
        decreases n - k,
    {
        if v[k] == DOT_BYTE {
            return k;
        }
        k += 1;
    }
    k
}

/// Pre-release comparison over the identifier lists.
fn pre_lt_exec(a: &Vec<u8>, b: &Vec<u8>) -> (r: bool)
    ensures
        r == pre_lt(a@, b@),
{
    let alen = a.len();
    let blen = b.len();
    let mut i: usize = 0;
    let mut j: usize = 0;
    proof {
        assert(a@.skip(0) =~= a@);
        assert(b@.skip(0) =~= b@);
    }
    loop
        invariant
            0 <= i <= alen,
            0 <= j <= blen,
            alen == a@.len(),
            blen == b@.len(),
            pre_lt(a@.skip(i as int), b@.skip(j as int)) == pre_lt(a@, b@),
        decreases alen - i,
    {
        let ghost asq = a@.skip(i as int);
        let ghost bsq = b@.skip(j as int);
        let ia = find_dot(a, i);
        let jb = find_dot(b, j);
        proof {
            assert forall|t: int| 0 <= t < ia - i implies asq[t] != DOT_BYTE by {
                assert(asq[t] == a@[t + i]);
            }
            if (ia as int) < a@.len() {
                assert(asq[ia - i] == a@[ia as int]);
            }
            lemma_ident_end_at(asq, ia - i);
            assert forall|t: int| 0 <= t < jb - j implies bsq[t] != DOT_BYTE by {
                assert(bsq[t] == b@[t + j]);
            }
            if (jb as int) < b@.len() {
                assert(bsq[jb - j] == b@[jb as int]);
            }
            lemma_ident_end_at(bsq, jb - j);
        }
        let a0 = subrange_vec(a, i, ia);
        let b0 = subrange_vec(b, j, jb);
        proof {
            assert(asq.take(ident_end(asq)) =~= a@.subrange(i as int, ia as int));
            assert(bsq.take(ident_end(bsq)) =~= b@.subrange(j as int, jb as int));
        }
        if ident_lt_exec(&a0, &b0) {
            return true;
        }
        if ident_lt_exec(&b0, &a0) {
            return false;
        }
        if ia == alen && jb == blen {
            return false;
        }
        if ia == alen {
            return true;
        }
        if jb == blen {
            return false;
        }
        proof {
            assert(asq.skip(ident_end(asq) + 1) =~= a@.skip(ia + 1));
            assert(bsq.skip(ident_end(bsq) + 1) =~= b@.skip(jb + 1));
        }
        i = ia + 1;
        j = jb + 1;
    }
}

impl Version {
    /// Whether `self` ranks strictly below `other` in SemVer precedence.
    pub fn precedence_lt(&self, other: &Version) -> (r: bool)
        ensures
            r == spec_version_lt(self@, other@),
    {
        if self.major != other.major {
            return self.major < other.major;
        }
        if self.minor != other.minor {
            return self.minor < other.minor;
        }
        if self.patch != other.patch {
            return self.patch < other.patch;
        }
        if other.pre.len() == 0 {
            self.pre.len() > 0
        } else if self.pre.len() == 0 {
            false
        } else {
            pre_lt_exec(&self.pre, &other.pre)
        }
    }
}

/// What the `semver` crate parses a version string to, if anything.
pub uninterp spec fn semver_parse(s: Seq<char>) -> Option<VersionView>;

/// Relies on semver::Version::parse: accepts exactly the SemVer grammar and
/// yields the numeric components and the pre-release identifier bytes; the
/// result depends on the characters alone. Build metadata is dropped, as it
/// takes no part in precedence.
#[verifier::external_body]
pub(crate) fn parse_semver(s: &str) -> (r: Option<Version>)
    ensures
        match r {
            Some(v) => semver_parse(s@) == Some(v@),
            None => semver_parse(s@) is None,
        },
{
    match semver::Version::parse(s) {
        Ok(v) => Some(
            Version {
                major: v.major,
                minor: v.minor,
                patch: v.patch,
                pre: v.pre.as_str().as_bytes().to_vec(),
            },
        ),
        Err(_) => None,
    }
}

} // verus!
