//! Planning a build job: the deterministic object names, the build-context
//! locator, the push destination, and the registry credential material.
//!
//! Everything here is pure string construction with exact contracts; the
//! base64 step is delegated to the `base64` crate.

use vstd::prelude::*;
use vstd::string::*;

use base64::Engine;

use crate::crd::{OciRepo, StaticSiteSpec};
use crate::strutil::{seq_starts_with, str_starts_with};

verus! {

/// The deterministic job name for a managed resource.
pub fn get_job_name(name: &str) -> (r: String)
    ensures
        r@ == "gazer-build-"@ + name@,
{
    "gazer-build-".to_owned().concat(name)
}

/// The companion credential object's name for a job.
pub fn get_worker_name(job_name: &str) -> (r: String)
    ensures
        r@ == job_name@ + "-worker"@,
{
    job_name.to_owned().concat("-worker")
}

/// A source URL with a leading `https://` or `http://` stripped.
pub open spec fn spec_normalize_git_url(s: Seq<char>) -> Seq<char> {
    if seq_starts_with(s, "https://"@) {
        s.skip("https://"@.len() as int)
    } else if seq_starts_with(s, "http://"@) {
        s.skip("http://"@.len() as int)
    } else {
        s
    }
}

/// Strips a leading `https://` or `http://` from the source URL, leaving
/// the bare host/path form.
pub fn normalize_git_url(url: &str) -> (r: String)
    ensures
        r@ == spec_normalize_git_url(url@),
{
    let len = url.unicode_len();
    if str_starts_with(url, "https://") {
        proof {
            reveal_strlit("https://");
        }
        url.substring_char(8, len).to_owned()
    } else if str_starts_with(url, "http://") {
        proof {
            reveal_strlit("http://");
        }
        url.substring_char(7, len).to_owned()
    } else {
        url.to_owned()
    }
}

/// The build-context locator handed to the build executor: the git-context
/// scheme, the normalized URL, and the resolved reference.
pub open spec fn spec_build_context(url: Seq<char>, full_ref: Seq<char>) -> Seq<char> {
    "--context=git://"@ + spec_normalize_git_url(url) + "#"@ + full_ref
}

/// Builds the context locator argument.
pub fn build_context(url: &str, full_ref: &str) -> (r: String)
    ensures
        r@ == spec_build_context(url@, full_ref@),
{
    let norm = normalize_git_url(url);
    let r = "--context=git://".to_owned().concat(norm.as_str()).concat("#").concat(full_ref);
    proof {
        assert(r@ =~= spec_build_context(url@, full_ref@));
    }
    r
}

/// The authentication endpoint the destination resolves to, if any.
pub open spec fn spec_auth_url(repo: OciRepo) -> Option<Seq<char>> {
    match repo.provider {
        Some(p) => Some(
            if p is Docker {
                "https://index.docker.io/v1/"@
            } else {
                "quay.io"@
            },
        ),
        None => match repo.custom {
            Some(c) => Some(c.auth_url@),
            None => None,
        },
    }
}

/// Resolves the destination's authentication endpoint: the provider's fixed
/// endpoint, else the custom one, else none.
pub fn get_auth_url(repo: &OciRepo) -> (r: Option<String>)
    ensures
        match spec_auth_url(*repo) {
            Some(u) => r matches Some(s) && s@ == u,
            None => r is None,
        },
{
    match &repo.provider {
        Some(p) => Some(p.get_auth_url()),
        None => match &repo.custom {
            Some(c) => Some(c.auth_url.clone()),
            None => None,
        },
    }
}

/// The push destination the build should publish to, if one is configured:
/// `<pushUrl>/<repoPath>:<buildTag>`.
pub open spec fn spec_push_url(repo: OciRepo, tag: Seq<char>) -> Option<Seq<char>> {
    match repo.provider {
        Some(p) => Some(
            (if p is Docker {
                "docker.io"@
            } else {
                "quay.io"@
            }) + "/"@ + repo.repo@ + ":"@ + tag,
        ),
        None => match repo.custom {
            Some(c) => Some(c.push_url@ + "/"@ + repo.repo@ + ":"@ + tag),
            None => None,
        },
    }
}

/// Resolves the full push destination for a build tag, if any.
pub fn get_push_url(repo: &OciRepo, tag: &str) -> (r: Option<String>)
    ensures
        match spec_push_url(*repo, tag@) {
            Some(u) => r matches Some(s) && s@ == u,
            None => r is None,
        },
{
    match &repo.provider {
        Some(p) => {
            let r = p.get_push_url().concat("/").concat(repo.repo.as_str()).concat(":").concat(
                tag,
            );
            proof {
                assert(r@ =~= spec_push_url(*repo, tag@)->Some_0);
            }
            Some(r)
        },
        None => match &repo.custom {
            Some(c) => {
                let r = c.push_url.clone().concat("/").concat(repo.repo.as_str()).concat(":")
                    .concat(tag);
                proof {
                    assert(r@ =~= spec_push_url(*repo, tag@)->Some_0);
                }
                Some(r)
            },
            None => None,
        },
    }
}

/// The destination argument: a push destination when one resolves, else the
/// explicit no-push directive — never a malformed destination.
pub open spec fn spec_destination_arg(repo: OciRepo, tag: Seq<char>) -> Seq<char> {
    match spec_push_url(repo, tag) {
        Some(u) => "--destination="@ + u,
        None => "--no-push"@,
    }
}

/// Builds the destination-or-no-push argument.
pub fn destination_arg(repo: &OciRepo, tag: &str) -> (r: String)
    ensures
        r@ == spec_destination_arg(*repo, tag@),
{
    match get_push_url(repo, tag) {
        Some(u) => "--destination=".to_owned().concat(u.as_str()),
        None => "--no-push".to_owned(),
    }
}

/// The hexadecimal digit for a value below sixteen.
pub open spec fn hex_digit_char(n: int) -> char {
    if n == 0 { '0' } else if n == 1 { '1' } else if n == 2 { '2' } else if n == 3 { '3' }
    else if n == 4 { '4' } else if n == 5 { '5' } else if n == 6 { '6' } else if n == 7 { '7' }
    else if n == 8 { '8' } else if n == 9 { '9' } else if n == 10 { 'a' } else if n == 11 { 'b' }
    else if n == 12 { 'c' } else if n == 13 { 'd' } else if n == 14 { 'e' } else { 'f' }
}

/// What one character escapes to inside a JSON string.
pub open spec fn json_escape_char(c: char) -> Seq<char> {
    if c == '"' {
        "\\\""@
    } else if c == '\\' {
        "\\\\"@
    } else if c == '\u{8}' {
        "\\b"@
    } else if c == '\t' {
        "\\t"@
    } else if c == '\n' {
        "\\n"@
    } else if c == '\u{c}' {
        "\\f"@
    } else if c == '\r' {
        "\\r"@
    } else if (c as int) < 32 {
        "\\u00"@ + seq![hex_digit_char((c as int) / 16), hex_digit_char((c as int) % 16)]
    } else {
        seq![c]
    }
}

/// A whole character sequence escaped for use inside a JSON string.
pub open spec fn json_escaped(s: Seq<char>) -> Seq<char>
    decreases s.len(),
{
    if s.len() == 0 {
        Seq::empty()
    } else {
        json_escaped(s.drop_last()) + json_escape_char(s.last())
    }
}

/// Appends the hexadecimal digit for `n`.
fn append_hex_digit(out: &mut String, n: u32)
    requires
        n < 16,
    ensures
        final(out)@ == old(out)@ + seq![hex_digit_char(n as int)],
{
    match n {
        0 => {
            out.append("0");
            proof {
                reveal_strlit("0");
                assert(final(out)@ =~= old(out)@ + seq![hex_digit_char(n as int)]);
            }
        },
        1 => {
            out.append("1");
            proof {
                reveal_strlit("1");
                assert(final(out)@ =~= old(out)@ + seq![hex_digit_char(n as int)]);
            }
        },
        2 => {
            out.append("2");
            proof {
                reveal_strlit("2");
                assert(final(out)@ =~= old(out)@ + seq![hex_digit_char(n as int)]);
            }
        },
        3 => {
            out.append("3");
            proof {
                reveal_strlit("3");
                assert(final(out)@ =~= old(out)@ + seq![hex_digit_char(n as int)]);
            }
        },
        4 => {
            out.append("4");
            proof {
                reveal_strlit("4");
                assert(final(out)@ =~= old(out)@ + seq![hex_digit_char(n as int)]);
            }
        },
        5 => {
            out.append("5");
            proof {
                reveal_strlit("5");
                assert(final(out)@ =~= old(out)@ + seq![hex_digit_char(n as int)]);
            }
        },
        6 => {
            out.append("6");
            proof {
                reveal_strlit("6");
                assert(final(out)@ =~= old(out)@ + seq![hex_digit_char(n as int)]);
            }
        },
        7 => {
            out.append("7");
            proof {
                reveal_strlit("7");
                assert(final(out)@ =~= old(out)@ + seq![hex_digit_char(n as int)]);
            }
        },
        8 => {
            out.append("8");
            proof {
                reveal_strlit("8");
                assert(final(out)@ =~= old(out)@ + seq![hex_digit_char(n as int)]);
            }
        },
        9 => {
            out.append("9");
            proof {
                reveal_strlit("9");
                assert(final(out)@ =~= old(out)@ + seq![hex_digit_char(n as int)]);
            }
        },
        10 => {
            out.append("a");
            proof {
                reveal_strlit("a");
                assert(final(out)@ =~= old(out)@ + seq![hex_digit_char(n as int)]);
            }
        },
        11 => {
            out.append("b");
            proof {
                reveal_strlit("b");
                assert(final(out)@ =~= old(out)@ + seq![hex_digit_char(n as int)]);
            }
        },
        12 => {
            out.append("c");
            proof {
                reveal_strlit("c");
                assert(final(out)@ =~= old(out)@ + seq![hex_digit_char(n as int)]);
            }
        },
        13 => {
            out.append("d");
            proof {
                reveal_strlit("d");
                assert(final(out)@ =~= old(out)@ + seq![hex_digit_char(n as int)]);
            }
        },
        14 => {
            out.append("e");
            proof {
                reveal_strlit("e");
                assert(final(out)@ =~= old(out)@ + seq![hex_digit_char(n as int)]);
            }
        },
        _ => {
            out.append("f");
            proof {
                reveal_strlit("f");
                assert(final(out)@ =~= old(out)@ + seq![hex_digit_char(n as int)]);
            }
        },
    }
}

/// Escapes a string for use inside a JSON string.
#[verifier::loop_isolation(false)]
pub fn json_escape(s: &str) -> (r: String)
    ensures
        r@ == json_escaped(s@),
{
    let len = s.unicode_len();
    let mut out = String::new();
    let mut i: usize = 0;
    while i < len
        invariant
            0 <= i <= len,
            out@ == json_escaped(s@.take(i as int)),
        decreases len - i,
    {
        let c = s.get_char(i);
        let ghost prefix = out@;
        proof {
            assert(s@.take(i + 1).drop_last() =~= s@.take(i as int));
            assert(s@.take(i + 1).last() == s@[i as int]);
        }
        if c == '"' {
            out.append("\\\"");
        } else if c == '\\' {
            out.append("\\\\");
        } else if c == '\u{8}' {
            out.append("\\b");
        } else if c == '\t' {
            out.append("\\t");
        } else if c == '\n' {
            out.append("\\n");
        } else if c == '\u{c}' {
            out.append("\\f");
        } else if c == '\r' {
            out.append("\\r");
        } else if (c as u32) < 32 {
            out.append("\\u00");
            let code = c as u32;
            append_hex_digit(&mut out, code / 16);
            append_hex_digit(&mut out, code % 16);
            proof {
                assert(out@ =~= prefix + json_escape_char(c));
            }
        } else {
            let piece = s.substring_char(i, i + 1);
            out.append(piece);
            proof {
                assert(piece@ =~= seq![c]);
            }
        }
        proof {
            assert(out@ =~= json_escaped(s@.take(i + 1)));
        }
        i += 1;
    }
    proof {
        assert(s@.take(len as int) =~= s@);
    }
    out
}

/// What the `base64` crate encodes a character sequence's bytes to.
pub uninterp spec fn b64_of(s: Seq<char>) -> Seq<char>;

/// Relies on base64's standard-alphabet, padded engine: encodes the UTF-8
/// bytes of the input; the result depends on the characters alone.
#[verifier::external_body]
pub(crate) fn base64_encode(s: &str) -> (r: String)
    ensures
        r@ == b64_of(s@),
{
    base64::engine::general_purpose::STANDARD.encode(s.as_bytes())
}

/// The registry credential document for the build: a single-entry auth map
/// keyed by the destination's authentication endpoint when plaintext
/// destination credentials and an endpoint exist, else empty. Secret-based
/// destination credentials are not resolved by the core and yield the empty
/// document.
pub open spec fn spec_config_json(site: StaticSiteSpec) -> Seq<char> {
    match site.oci_credentials {
        Some(c) => match c.plaintext {
            Some(pt) => match spec_auth_url(site.oci_repo) {
                Some(a) => "{\"auths\":{\""@ + json_escaped(a) + "\":{\"auth\":\""@ + b64_of(
                    pt.username@ + ":"@ + pt.password@,
                ) + "\"}}}"@,
                None => "{}"@,
            },
            None => "{}"@,
        },
        None => "{}"@,
    }
}

/// Builds the registry credential document.
pub fn construct_config_json(site: &StaticSiteSpec) -> (r: String)
    ensures
        r@ == spec_config_json(*site),
{
    match &site.oci_credentials {
        Some(c) => match &c.plaintext {
            Some(pt) => match get_auth_url(&site.oci_repo) {
                Some(a) => {
                    let creds = pt.username.clone().concat(":").concat(pt.password.as_str());
                    proof {
                        assert(creds@ =~= pt.username@ + ":"@ + pt.password@);
                    }
                    let b64 = base64_encode(creds.as_str());
                    let esc = json_escape(a.as_str());
                    let r = "{\"auths\":{\"".to_owned().concat(esc.as_str()).concat(
                        "\":{\"auth\":\"",
                    ).concat(b64.as_str()).concat("\"}}}");
                    proof {
                        assert(r@ =~= spec_config_json(*site));
                    }
                    r
                },
                None => "{}".to_owned(),
            },
            None => "{}".to_owned(),
        },
        None => "{}".to_owned(),
    }
}

/// Everything the cluster needs to run one build: the object names and the
/// container arguments and credential payload.
#[derive(Debug, Clone)]
pub struct BuildPlan {
    pub job_name: String,
    pub secret_name: String,
    pub context_arg: String,
    pub destination_arg: String,
    pub encoded_config: String,
}

/// Plans the build job for a resolved reference: deterministic names, the
/// context locator, the destination-or-no-push argument, and the encoded
/// credential document.
pub fn plan_build(name: &str, selected_ref: &str, site: &StaticSiteSpec, tag: &str) -> (p:
    BuildPlan)
    ensures
        p.job_name@ == "gazer-build-"@ + name@,
        p.secret_name@ == "gazer-build-"@ + name@ + "-worker"@,
        p.context_arg@ == spec_build_context(site.git@, selected_ref@),
        p.destination_arg@ == spec_destination_arg(site.oci_repo, tag@),
        p.encoded_config@ == b64_of(spec_config_json(*site)),
{
    let job_name = get_job_name(name);
    let secret_name = get_worker_name(job_name.as_str());
    proof {
        assert(secret_name@ =~= "gazer-build-"@ + name@ + "-worker"@);
    }
    let context_arg = build_context(site.git.as_str(), selected_ref);
    let dest = destination_arg(&site.oci_repo, tag);
    let config = construct_config_json(site);
    let encoded_config = base64_encode(config.as_str());
    BuildPlan { job_name, secret_name, context_arg, destination_arg: dest, encoded_config }
}

/// One operation on the job's credential object.
#[derive(Debug, Clone, Copy, PartialEq, Eq, Structural)]
pub enum SecretOp {
    Delete,
    Create,
}

/// The operations a submission performs on the credential object: an
/// existing object is deleted first, then one is created fresh — never
/// patched in place.
pub open spec fn spec_secret_ops(secret_exists: bool) -> Seq<SecretOp> {
    if secret_exists {
        seq![SecretOp::Delete, SecretOp::Create]
    } else {
        seq![SecretOp::Create]
    }
}

/// Plans the credential replacement for a submission.
pub fn plan_secret_ops(secret_exists: bool) -> (ops: Vec<SecretOp>)
    ensures
        ops@ == spec_secret_ops(secret_exists),
{
    let mut ops: Vec<SecretOp> = Vec::new();
    if secret_exists {
        ops.push(SecretOp::Delete);
    }
    ops.push(SecretOp::Create);
    proof {
        assert(ops@ =~= spec_secret_ops(secret_exists));
    }
    ops
}

/// Runs credential operations against a count of existing objects under the
/// cluster's rules: deletion empties the name, creation fails on an
/// occupied name. `None` is such a failure.
pub open spec fn apply_secret_ops(n: nat, ops: Seq<SecretOp>) -> Option<nat>
    decreases ops.len(),
{
    if ops.len() == 0 {
        Some(n)
    } else {
        match ops[0] {
            SecretOp::Delete => apply_secret_ops(0, ops.skip(1)),
            SecretOp::Create => if n == 0 {
                apply_secret_ops(1, ops.skip(1))
            } else {
                None
            },
        }
    }
}

/// Credential replacement is idempotent: from any consistent state holding
/// at most one credential object the planned operations succeed and leave
/// exactly one, and planning and applying a second submission immediately
/// after still leaves exactly one — the pre-existing object is no error.
pub proof fn lemma_credential_replacement_idempotent(n: nat)
    requires
        n <= 1,
    ensures
        apply_secret_ops(n, spec_secret_ops(n == 1)) == Some(1 as nat),
        apply_secret_ops(1, spec_secret_ops(true)) == Some(1 as nat),
{
    reveal_with_fuel(apply_secret_ops, 4);
    assert(seq![SecretOp::Delete, SecretOp::Create].skip(1) =~= seq![SecretOp::Create]);
    assert(seq![SecretOp::Create].skip(1) =~= Seq::<SecretOp>::empty());
    assert(apply_secret_ops(1, spec_secret_ops(true)) == Some(1 as nat));
    if n == 1 {
    } else {
        assert(apply_secret_ops(n, spec_secret_ops(false)) == Some(1 as nat));
    }
}

} // verus!
