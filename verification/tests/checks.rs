use poseidon::checks::{
    access_key, newer, parse_version, same_commit, short, AzureDevOpsAccessCheck, CachedResult,
    Lookup, TeamCheckReconciler, UpdateCheck,
};
use poseidon::config::{AzureDevOpsAuth, ProviderKind, TeamConfig};
use poseidon::doctor::{CheckResult, Severity};
use poseidon::json::{read_json, Json};
use poseidon::time::Timestamp;

fn team(name: &str) -> TeamConfig {
    TeamConfig {
        name: name.into(),
        provider: ProviderKind::AzureDevOps,
        organization: "https://dev.azure.com/acme".into(),
        project: "Platform".into(),
        tenant: None,
        area_path: None,
        area_path_strict: false,
        auth: AzureDevOpsAuth::default(),
        wiql: None,
        pipeline_ids: vec![],
        rules: None,
    }
}

fn release(text: &str) -> Lookup {
    let j: Json = read_json(text).unwrap();
    Lookup::Found(j)
}

#[test]
fn parse_version_reads_semver_and_rejects_channels() {
    assert_eq!(parse_version("v1.2.3"), Some((1, 2, 3)));
    assert_eq!(parse_version("1.2.3"), Some((1, 2, 3)));
    assert_eq!(parse_version("v2.0.0-rc1"), Some((2, 0, 0)));
    assert_eq!(parse_version("v1.4"), Some((1, 4, 0)));
    // Rolling channels + dev are NOT semver -> compared by commit instead.
    assert_eq!(parse_version("latest-main"), None);
    assert_eq!(parse_version("local"), None);
}

#[test]
fn semver_ordering_drives_stable_updates() {
    assert!(parse_version("v1.3.0") > parse_version("v1.2.9"));
    assert!(parse_version("v2.0.0") > parse_version("v1.9.9"));
    assert!(parse_version("v1.2.3") == parse_version("1.2.3"));
    assert!(newer((1, 3, 0), (1, 2, 9)));
    assert!(newer((2, 0, 0), (1, 9, 9)));
    assert!(!newer((1, 2, 3), (1, 2, 3)));
}

#[test]
fn same_commit_tolerates_short_vs_full_sha() {
    assert!(same_commit("abc123def456789", "abc123d"));
    assert!(same_commit("ABC123D", "abc123def456789"));
    assert!(same_commit("deadbeef", "deadbeef"));
    assert!(!same_commit("abc1234", "def5678"));
    assert!(!same_commit("", "abc1234")); // unknown commit never matches
}

#[test]
fn commits_are_shown_by_their_first_seven_characters() {
    assert_eq!(short("abc123def456789"), "abc123d");
    assert_eq!(short("abc"), "abc");
}

#[test]
fn a_later_release_is_offered() {
    let later = UpdateCheck::compute("v1.2.0", "abc", &release(r#"{ "tag_name": "v1.3.0" }"#));
    assert!(!later.ok);
    assert!(later.message.contains("v1.3.0"), "{}", later.message);
    let same = UpdateCheck::compute("v1.3.0", "abc", &release(r#"{ "tag_name": "v1.3.0" }"#));
    assert!(same.ok);
    let earlier = UpdateCheck::compute("v1.4.0", "abc", &release(r#"{ "tag_name": "v1.3.0" }"#));
    assert!(earlier.ok);
}

#[test]
fn a_lookup_without_an_answer_is_reported() {
    let missing = UpdateCheck::compute("v1.2.0", "abc", &Lookup::Missing);
    assert!(!missing.ok);
    assert_eq!(missing.message, "no published release found yet");
    let missing = UpdateCheck::compute("latest-main", "abc", &Lookup::Missing);
    assert_eq!(missing.message, "no latest-main release found");
    let failed = UpdateCheck::compute("v1.2.0", "abc", &Lookup::Failed("offline".into()));
    assert!(!failed.ok);
    assert_eq!(failed.message, "could not check for updates: offline");
    // A release that bears no version is not held against the running one.
    let odd = UpdateCheck::compute("v1.2.0", "abc", &release("{}"));
    assert!(odd.ok);
    assert_eq!(odd.message, "up to date (v1.2.0)");
}

#[test]
fn rolling_channels_compare_commits() {
    let url = UpdateCheck::release_url("latest-main");
    assert!(url.contains("latest-main"), "{url}");
    let doc = r#"{ "tag_name": "latest-main", "target_commitish": "abc123def456789" }"#;
    assert!(UpdateCheck::compute("latest-main", "abc123d", &release(doc)).ok);
    assert!(!UpdateCheck::compute("latest-main", "def5678", &release(doc)).ok);
}

#[test]
fn a_fresh_answer_is_used_again() {
    let now = Timestamp::new(1_000_000, 0);
    let cached = CachedResult {
        at: Timestamp::new(1_000_000 - 29 * 60, 0),
        result: CheckResult::failed("update available".into()),
    };
    let again = UpdateCheck::without_looking("v1.0.0", &Some(cached.clone()), now).unwrap();
    assert_eq!(again.message, "update available");
    let old = CachedResult { at: Timestamp::new(1_000_000 - 31 * 60, 0), ..cached };
    assert!(UpdateCheck::without_looking("v1.0.0", &Some(old), now).is_none());
    // A local build is never looked up.
    assert!(UpdateCheck::without_looking("local", &None, now).unwrap().ok);
    assert!(UpdateCheck::without_looking("v1.0.0", &None, now).is_none());
}

#[test]
fn registration_mends_what_the_check_finds() {
    let teams = vec![team("Alpha"), team("Beta")];
    let none: Vec<String> = vec![];
    assert!(!TeamCheckReconciler::run(&none, &teams).ok);
    let keys = TeamCheckReconciler::reconciled_keys(&none, &teams);
    assert!(TeamCheckReconciler::run(&keys, &teams).ok);
    assert!(keys.contains(&access_key("Alpha")));
    assert!(keys.contains(&access_key("Beta")));
    // Doing it again changes nothing.
    assert_eq!(TeamCheckReconciler::reconciled_keys(&keys, &teams), keys);
    assert!(TeamCheckReconciler::fixed(Ok(())).ok);
    assert!(!TeamCheckReconciler::fixed(Err("disk full".into())).ok);
}

#[test]
fn access_needs_a_session_or_a_token() {
    let check = AzureDevOpsAccessCheck::from_team(&team("Alpha"), "/tmp/token".into());
    assert_eq!(check.info().severity, Severity::Critical);
    let with_token = check.without_session(&Some("secret".to_string()));
    assert!(with_token.unwrap().ok);
    assert!(AzureDevOpsAccessCheck::with_session(Ok(())).ok);
    assert!(!AzureDevOpsAccessCheck::with_session(Err("expired".into())).ok);
}
