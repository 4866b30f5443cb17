use gazer::crd::{OciRepo, StaticSiteSpec};
use gazer::gitref::collect_targets;
use gazer::select::determine_selected_ref;
use gazer::version::Version;

fn site_with(branch: Option<&str>, use_semver: Option<bool>) -> StaticSiteSpec {
    StaticSiteSpec {
        git: "https://example.com/repo".to_string(),
        branch: branch.map(|b| b.to_string()),
        use_semver,
        git_credentials: None,
        namespace: None,
        multi_site: None,
        oci_repo: OciRepo { provider: None, custom: None, repo: "r".to_string() },
        oci_credentials: None,
        ingress: None,
    }
}

fn tag_refs(names: &[&str]) -> Vec<gazer::gitref::GitRef> {
    let heads: Vec<(String, String)> = names
        .iter()
        .enumerate()
        .map(|(i, n)| (format!("refs/tags/{}", n), format!("oid{}", i)))
        .collect();
    let (refs, invalid) = collect_targets(heads);
    assert!(invalid.is_empty());
    refs
}

#[test]
fn semver_selection_orders_numerically_with_prerelease() {
    let refs = tag_refs(&["v1.2.0", "v1.10.0", "v2.0.0-rc.1", "not-a-version"]);
    let site = site_with(None, Some(true));
    let sel = determine_selected_ref(&site, refs).expect("a tag should be selected");
    assert_eq!(sel.0.as_str(), "refs/tags/v2.0.0-rc.1");
    assert_eq!(sel.1.as_str(), "v2.0.0-rc.1");
}

#[test]
fn semver_selection_is_numeric_not_lexical() {
    let refs = tag_refs(&["v1.2.0", "v1.10.0"]);
    let site = site_with(None, Some(true));
    let sel = determine_selected_ref(&site, refs).expect("a tag should be selected");
    assert_eq!(sel.1.as_str(), "v1.10.0");
}

#[test]
fn semver_release_outranks_prerelease() {
    let refs = tag_refs(&["v1.0.0-alpha", "v1.0.0"]);
    let site = site_with(None, Some(true));
    let sel = determine_selected_ref(&site, refs).expect("a tag should be selected");
    assert_eq!(sel.1.as_str(), "v1.0.0");
}

#[test]
fn semver_prerelease_rules() {
    let site = site_with(None, Some(true));
    let sel = determine_selected_ref(&site, tag_refs(&["v1.0.0-alpha", "v1.0.0-beta"]));
    assert_eq!(sel.unwrap().1.as_str(), "v1.0.0-beta");
    let sel = determine_selected_ref(&site, tag_refs(&["v1.0.0-alpha", "v1.0.0-alpha.1"]));
    assert_eq!(sel.unwrap().1.as_str(), "v1.0.0-alpha.1");
    let sel = determine_selected_ref(&site, tag_refs(&["v1.0.0-2", "v1.0.0-11"]));
    assert_eq!(sel.unwrap().1.as_str(), "v1.0.0-11");
    let sel = determine_selected_ref(&site, tag_refs(&["v1.0.0-alpha", "v1.0.0-1"]));
    assert_eq!(sel.unwrap().1.as_str(), "v1.0.0-alpha");
}

#[test]
fn semver_selection_without_parseable_tag_is_none() {
    let refs = tag_refs(&["not-a-version", "also.not"]);
    let site = site_with(None, Some(true));
    assert!(determine_selected_ref(&site, refs).is_none());
}

#[test]
fn semver_tags_without_v_prefix_also_parse() {
    let refs = tag_refs(&["1.0.0", "0.9.0"]);
    let site = site_with(None, Some(true));
    let sel = determine_selected_ref(&site, refs).expect("a tag should be selected");
    assert_eq!(sel.1.as_str(), "1.0.0");
}

#[test]
fn branch_selection_finds_the_named_branch() {
    let heads = vec![
        ("refs/heads/main".to_string(), "a".to_string()),
        ("refs/heads/dev".to_string(), "b".to_string()),
    ];
    let (refs, _) = collect_targets(heads);
    let site = site_with(Some("dev"), None);
    let sel = determine_selected_ref(&site, refs).expect("the branch should be found");
    assert_eq!(sel.0.as_str(), "refs/heads/dev");
    assert_eq!(sel.1.as_str(), "dev");
}

#[test]
fn branch_selection_ignores_tags_of_the_same_name() {
    let heads = vec![("refs/tags/dev".to_string(), "a".to_string())];
    let (refs, _) = collect_targets(heads);
    let site = site_with(Some("dev"), None);
    assert!(determine_selected_ref(&site, refs).is_none());
}

#[test]
fn branch_selection_without_match_is_none() {
    let heads = vec![("refs/heads/main".to_string(), "a".to_string())];
    let (refs, _) = collect_targets(heads);
    let site = site_with(Some("dev"), None);
    assert!(determine_selected_ref(&site, refs).is_none());
}

#[test]
fn default_selection_takes_head_with_its_revision_id() {
    let heads = vec![
        ("refs/heads/main".to_string(), "a".to_string()),
        ("HEAD".to_string(), "deadbeef".to_string()),
    ];
    let (refs, _) = collect_targets(heads);
    let site = site_with(None, None);
    let sel = determine_selected_ref(&site, refs).expect("the head should be found");
    assert_eq!(sel.0.as_str(), "HEAD");
    assert_eq!(sel.1.as_str(), "deadbeef");
}

#[test]
fn default_selection_without_head_is_none() {
    let heads = vec![("refs/heads/main".to_string(), "a".to_string())];
    let (refs, _) = collect_targets(heads);
    let site = site_with(None, None);
    assert!(determine_selected_ref(&site, refs).is_none());
}

#[test]
fn semver_false_falls_back_to_branch() {
    let heads = vec![
        ("refs/heads/dev".to_string(), "a".to_string()),
        ("refs/tags/v9.9.9".to_string(), "b".to_string()),
    ];
    let (refs, _) = collect_targets(heads);
    let site = site_with(Some("dev"), Some(false));
    let sel = determine_selected_ref(&site, refs).expect("the branch should be found");
    assert_eq!(sel.0.as_str(), "refs/heads/dev");
}

#[test]
fn precedence_compares_components() {
    let v = |major, minor, patch, pre: &str| Version {
        major,
        minor,
        patch,
        pre: pre.as_bytes().to_vec(),
    };
    assert!(v(1, 2, 0, "").precedence_lt(&v(1, 10, 0, "")));
    assert!(!v(1, 10, 0, "").precedence_lt(&v(1, 2, 0, "")));
    assert!(v(1, 10, 0, "").precedence_lt(&v(2, 0, 0, "rc.1")));
    assert!(v(2, 0, 0, "rc.1").precedence_lt(&v(2, 0, 0, "")));
    assert!(v(1, 0, 0, "alpha").precedence_lt(&v(1, 0, 0, "alpha.1")));
    assert!(v(1, 0, 0, "1").precedence_lt(&v(1, 0, 0, "alpha")));
    assert!(v(1, 0, 0, "2").precedence_lt(&v(1, 0, 0, "11")));
    assert!(!v(1, 0, 0, "beta").precedence_lt(&v(1, 0, 0, "beta")));
}
