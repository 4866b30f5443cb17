use gazer::crd::{Credentials, FromSecret, PlainTextCredentials};
use gazer::gitref::{classify_ref_type, collect_targets, resolve_git_auth, GitAuth, GitRef,
    GitRefType};
use gazer::ControllerError;

#[test]
fn classify_branch() {
    let r = classify_ref_type("refs/heads/main");
    assert!(matches!(r, Ok(GitRefType::Branch)));
    assert_eq!(GitRef::extract_name("refs/heads/main".to_string()).as_str(), "main");
}

#[test]
fn classify_tag() {
    let r = classify_ref_type("refs/tags/v1.0.0");
    assert!(matches!(r, Ok(GitRefType::Tag)));
    assert_eq!(GitRef::extract_name("refs/tags/v1.0.0".to_string()).as_str(), "v1.0.0");
}

#[test]
fn classify_pull() {
    let r = classify_ref_type("refs/pull/42/head");
    assert!(matches!(r, Ok(GitRefType::Pull)));
}

#[test]
fn classify_head() {
    let r = classify_ref_type("HEAD");
    assert!(matches!(r, Ok(GitRefType::HEAD)));
}

#[test]
fn classify_unknown_is_error() {
    let r = classify_ref_type("foo/bar");
    match r {
        Err(ControllerError::ReconcileError(m)) => {
            assert_eq!(m.as_str(), "foo/bar is an invalid git ref type!");
        }
        _ => panic!("expected a reconcile error"),
    }
}

#[test]
fn short_name_keeps_embedded_slashes() {
    assert_eq!(
        GitRef::extract_name("refs/heads/feature/x".to_string()).as_str(),
        "feature/x"
    );
}

#[test]
fn short_name_of_slashless_ref_is_itself() {
    assert_eq!(GitRef::extract_name("branch".to_string()).as_str(), "branch");
}

#[test]
fn short_name_of_two_segments_is_empty() {
    assert_eq!(GitRef::extract_name("refs/heads".to_string()).as_str(), "");
}

#[test]
fn collect_targets_filters_pulls_and_keeps_the_rest() {
    let heads = vec![
        ("refs/heads/main".to_string(), "oid1".to_string()),
        ("refs/pull/42/head".to_string(), "oid2".to_string()),
        ("refs/tags/v1.0.0".to_string(), "oid3".to_string()),
        ("garbage ref".to_string(), "oid4".to_string()),
        ("HEAD".to_string(), "oid5".to_string()),
    ];
    let (refs, invalid) = collect_targets(heads);
    assert_eq!(refs.len(), 3);
    assert_eq!(refs[0].ref_type, GitRefType::Branch);
    assert_eq!(refs[0].full_ref.as_str(), "refs/heads/main");
    assert_eq!(refs[0].oid.as_str(), "oid1");
    assert_eq!(refs[0].name.as_str(), "main");
    assert_eq!(refs[1].ref_type, GitRefType::Tag);
    assert_eq!(refs[1].name.as_str(), "v1.0.0");
    assert_eq!(refs[2].ref_type, GitRefType::HEAD);
    assert_eq!(refs[2].oid.as_str(), "oid5");
    assert_eq!(invalid.len(), 1);
    assert_eq!(invalid[0].as_str(), "garbage ref");
}

#[test]
fn git_auth_resolution() {
    assert!(matches!(resolve_git_auth(&None), Ok(GitAuth::Anonymous)));

    let plain = Some(Credentials {
        plaintext: Some(PlainTextCredentials {
            username: "u".to_string(),
            password: "p".to_string(),
        }),
        from_secret: None,
    });
    match resolve_git_auth(&plain) {
        Ok(GitAuth::Plaintext { username, password }) => {
            assert_eq!(username.as_str(), "u");
            assert_eq!(password.as_str(), "p");
        }
        _ => panic!("expected plaintext auth"),
    }

    let from_secret = Some(Credentials {
        plaintext: None,
        from_secret: Some(FromSecret {
            secret_name: "s".to_string(),
            username_entry: "u".to_string(),
            password_entry: "p".to_string(),
        }),
    });
    assert!(matches!(
        resolve_git_auth(&from_secret),
        Err(ControllerError::ReconcileError(_))
    ));

    let neither = Some(Credentials { plaintext: None, from_secret: None });
    match resolve_git_auth(&neither) {
        Err(ControllerError::ReconcileError(m)) => {
            assert_eq!(m.as_str(), "Provided an invalid crential entry!");
        }
        _ => panic!("expected an invalid-entry error"),
    }
}
