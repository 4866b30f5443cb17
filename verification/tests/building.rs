use gazer::build_plan::{
    build_context, construct_config_json, destination_arg, get_auth_url, get_job_name,
    get_push_url, get_worker_name, json_escape, normalize_git_url, plan_build, plan_secret_ops,
    SecretOp,
};
use gazer::crd::{
    Credentials, CustomOciDestination, OciRepo, OciRepoProvider, PlainTextCredentials,
    StaticSiteSpec,
};

fn site_for(repo: OciRepo, oci_credentials: Option<Credentials>) -> StaticSiteSpec {
    StaticSiteSpec {
        git: "https://github.com/a/b".to_string(),
        branch: None,
        use_semver: None,
        git_credentials: None,
        namespace: None,
        multi_site: None,
        oci_repo: repo,
        oci_credentials,
        ingress: None,
    }
}

#[test]
fn job_and_worker_names_are_deterministic() {
    let job = get_job_name("mysite");
    assert_eq!(job.as_str(), "gazer-build-mysite");
    assert_eq!(get_worker_name(job.as_str()).as_str(), "gazer-build-mysite-worker");
}

#[test]
fn url_normalization_strips_only_a_leading_scheme() {
    assert_eq!(normalize_git_url("https://github.com/a/b").as_str(), "github.com/a/b");
    assert_eq!(normalize_git_url("http://example.com/x").as_str(), "example.com/x");
    assert_eq!(normalize_git_url("example.com/x").as_str(), "example.com/x");
}

#[test]
fn context_locator_points_at_the_ref() {
    assert_eq!(
        build_context("https://github.com/a/b", "refs/heads/main").as_str(),
        "--context=git://github.com/a/b#refs/heads/main"
    );
}

#[test]
fn provider_urls() {
    assert_eq!(
        OciRepoProvider::Docker.get_auth_url().as_str(),
        "https://index.docker.io/v1/"
    );
    assert_eq!(OciRepoProvider::Docker.get_push_url().as_str(), "docker.io");
    assert_eq!(OciRepoProvider::Quay.get_auth_url().as_str(), "quay.io");
    assert_eq!(OciRepoProvider::Quay.get_push_url().as_str(), "quay.io");
}

#[test]
fn auth_url_resolution() {
    let provider = OciRepo {
        provider: Some(OciRepoProvider::Docker),
        custom: None,
        repo: "me/site".to_string(),
    };
    assert_eq!(
        get_auth_url(&provider).unwrap().as_str(),
        "https://index.docker.io/v1/"
    );
    let custom = OciRepo {
        provider: None,
        custom: Some(CustomOciDestination {
            auth_url: "auth.example.com".to_string(),
            push_url: "reg.example.com".to_string(),
        }),
        repo: "me/site".to_string(),
    };
    assert_eq!(get_auth_url(&custom).unwrap().as_str(), "auth.example.com");
    let bare = OciRepo { provider: None, custom: None, repo: "me/site".to_string() };
    assert!(get_auth_url(&bare).is_none());
}

#[test]
fn push_url_resolution() {
    let provider = OciRepo {
        provider: Some(OciRepoProvider::Quay),
        custom: None,
        repo: "me/site".to_string(),
    };
    assert_eq!(
        get_push_url(&provider, "v1").unwrap().as_str(),
        "quay.io/me/site:v1"
    );
    let custom = OciRepo {
        provider: None,
        custom: Some(CustomOciDestination {
            auth_url: "auth.example.com".to_string(),
            push_url: "reg.example.com".to_string(),
        }),
        repo: "me/site".to_string(),
    };
    assert_eq!(
        get_push_url(&custom, "v2").unwrap().as_str(),
        "reg.example.com/me/site:v2"
    );
}

#[test]
fn no_push_fallback_when_no_destination_is_configured() {
    let bare = OciRepo { provider: None, custom: None, repo: "me/site".to_string() };
    assert_eq!(destination_arg(&bare, "v1").as_str(), "--no-push");
}

#[test]
fn destination_argument_when_a_destination_resolves() {
    let provider = OciRepo {
        provider: Some(OciRepoProvider::Docker),
        custom: None,
        repo: "me/site".to_string(),
    };
    assert_eq!(
        destination_arg(&provider, "v1").as_str(),
        "--destination=docker.io/me/site:v1"
    );
}

#[test]
fn config_json_with_plaintext_credentials() {
    let repo = OciRepo {
        provider: Some(OciRepoProvider::Docker),
        custom: None,
        repo: "me/site".to_string(),
    };
    let creds = Some(Credentials {
        plaintext: Some(PlainTextCredentials {
            username: "user".to_string(),
            password: "pass".to_string(),
        }),
        from_secret: None,
    });
    let site = site_for(repo, creds);
    assert_eq!(
        construct_config_json(&site).as_str(),
        "{\"auths\":{\"https://index.docker.io/v1/\":{\"auth\":\"dXNlcjpwYXNz\"}}}"
    );
}

#[test]
fn config_json_is_empty_without_credentials_or_endpoint() {
    let bare = OciRepo { provider: None, custom: None, repo: "r".to_string() };
    let site = site_for(bare.clone(), None);
    assert_eq!(construct_config_json(&site).as_str(), "{}");

    let from_secret = Some(Credentials {
        plaintext: None,
        from_secret: Some(gazer::crd::FromSecret {
            secret_name: "s".to_string(),
            username_entry: "u".to_string(),
            password_entry: "p".to_string(),
        }),
    });
    let site = site_for(bare.clone(), from_secret);
    assert_eq!(construct_config_json(&site).as_str(), "{}");

    let plain = Some(Credentials {
        plaintext: Some(PlainTextCredentials {
            username: "u".to_string(),
            password: "p".to_string(),
        }),
        from_secret: None,
    });
    let site = site_for(bare, plain);
    assert_eq!(construct_config_json(&site).as_str(), "{}");
}

#[test]
fn json_escaping_in_the_auth_key() {
    assert_eq!(json_escape("plain").as_str(), "plain");
    assert_eq!(json_escape("a\"b").as_str(), "a\\\"b");
    assert_eq!(json_escape("a\\b").as_str(), "a\\\\b");
    assert_eq!(json_escape("a\nb\u{1f}").as_str(), "a\\nb\\u001f");

    let custom = OciRepo {
        provider: None,
        custom: Some(CustomOciDestination {
            auth_url: "he\"llo".to_string(),
            push_url: "reg".to_string(),
        }),
        repo: "r".to_string(),
    };
    let creds = Some(Credentials {
        plaintext: Some(PlainTextCredentials {
            username: "user".to_string(),
            password: "pass".to_string(),
        }),
        from_secret: None,
    });
    let site = site_for(custom, creds);
    assert_eq!(
        construct_config_json(&site).as_str(),
        "{\"auths\":{\"he\\\"llo\":{\"auth\":\"dXNlcjpwYXNz\"}}}"
    );
}

#[test]
fn plan_build_assembles_everything() {
    let bare = OciRepo { provider: None, custom: None, repo: "r".to_string() };
    let site = site_for(bare, None);
    let plan = plan_build("site", "refs/heads/main", &site, "main");
    assert_eq!(plan.job_name.as_str(), "gazer-build-site");
    assert_eq!(plan.secret_name.as_str(), "gazer-build-site-worker");
    assert_eq!(
        plan.context_arg.as_str(),
        "--context=git://github.com/a/b#refs/heads/main"
    );
    assert_eq!(plan.destination_arg.as_str(), "--no-push");
    // base64 of "{}"
    assert_eq!(plan.encoded_config.as_str(), "e30=");
}

#[test]
fn secret_replacement_is_planned_idempotently() {
    assert_eq!(plan_secret_ops(false), vec![SecretOp::Create]);
    assert_eq!(plan_secret_ops(true), vec![SecretOp::Delete, SecretOp::Create]);

    // Simulate the cluster's credential object across two immediate
    // submissions: creation on an occupied name would be an error.
    let mut count: u32 = 0;
    for _ in 0..2 {
        let ops = plan_secret_ops(count > 0);
        for op in ops {
            match op {
                SecretOp::Delete => count = 0,
                SecretOp::Create => {
                    assert_eq!(count, 0, "create would fail on an occupied name");
                    count = 1;
                }
            }
        }
        assert_eq!(count, 1);
    }
}
