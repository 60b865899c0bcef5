use poseidon::config::{AzureDevOpsAuth, ProviderKind, TeamConfig};
use poseidon::providers::error::ProviderError;
use poseidon::providers::stub::StubProvider;
use poseidon::time::{age_in_days, Timestamp};
use poseidon::work_item::WorkItemUpdate;

fn now() -> Timestamp {
    Timestamp::new(1_785_412_800, 0)
}

fn cfg(name: &str) -> TeamConfig {
    TeamConfig {
        name: name.into(),
        provider: ProviderKind::Stub,
        organization: "https://stub.example".into(),
        project: name.into(),
        area_path: None,
        area_path_strict: false,
        tenant: None,
        auth: AzureDevOpsAuth::default(),
        wiql: None,
        pipeline_ids: vec![],
        rules: None,
    }
}

#[test]
fn stub_dataset_has_the_expected_shape() {
    let p = StubProvider::new(&cfg("Platform"), now());
    let items = p.fetch_work_items();
    assert_eq!(items.len(), 14);
    // 8 of them are closed and every closed item carries an area: and a source: tag.
    let closed: Vec<_> = items.iter().filter(|w| w.state == "Closed").collect();
    assert_eq!(closed.len(), 8);
    assert!(closed
        .iter()
        .all(|w| w.tags.iter().any(|t| t.starts_with("area:"))
            && w.tags.iter().any(|t| t.starts_with("source:"))));
    assert_eq!(p.fetch_pipelines().len(), 3);
    assert_eq!(p.fetch_runs().len(), 5);
    assert_eq!(p.fetch_pull_requests().len(), 3);
}

#[test]
fn stub_closed_items_are_recent() {
    let p = StubProvider::new(&cfg("Platform"), now());
    for w in p.fetch_work_items().iter().filter(|w| w.state == "Closed") {
        let closed = w.closed_at.expect("closed item has a closed_at");
        let age = age_in_days(closed, now());
        assert!(
            (0..=30).contains(&age),
            "closed item {} is {age} days old",
            w.id
        );
    }
}

#[test]
fn stub_output_is_deterministic_for_the_same_input() {
    let a = StubProvider::new(&cfg("Platform"), now());
    let b = StubProvider::new(&cfg("Platform"), now());
    assert_eq!(a.fetch_work_items(), a.fetch_work_items());
    assert_eq!(a.fetch_work_items(), b.fetch_work_items());
    assert_eq!(a.fetch_pipelines(), b.fetch_pipelines());
    assert_eq!(a.fetch_pull_requests(), b.fetch_pull_requests());
}

#[test]
fn stub_stamps_the_configured_team_onto_every_item() {
    let items = StubProvider::new(&cfg("Data Platform"), now()).fetch_work_items();
    assert!(items.iter().all(|w| w.team == "Data Platform"));
    assert!(items.iter().all(|w| w.provider == "stub"));
}

#[test]
fn stub_update_work_item_echoes_the_applied_change() {
    let p = StubProvider::new(&cfg("Platform"), now());
    let update = WorkItemUpdate {
        state: Some("Closed".into()),
        tags: Some(vec!["team:platform".into(), "type:bug".into()]),
    };
    let updated = p.update_work_item(1004, &update).unwrap();
    assert_eq!(updated.id, 1004);
    assert_eq!(updated.state, "Closed");
    assert_eq!(updated.tags, vec!["team:platform", "type:bug"]);
    // An unknown id is a NotFound, not a panic.
    assert!(matches!(
        p.update_work_item(999999, &update),
        Err(ProviderError::NotFound(_))
    ));
}

#[test]
fn stub_links_and_unlinks_a_pull_request() {
    let p = StubProvider::new(&cfg("Platform"), now());
    let linked = p.link_pr(1004, 77).unwrap();
    assert!(linked.linked_pr_ids.contains(&77));
    let unlinked = p.unlink_pr(1004, 77).unwrap();
    assert!(!unlinked.linked_pr_ids.contains(&77));
    assert!(p.link_pr(5, 77).is_err());
    assert!(p.unlink_pr(5, 77).is_err());
}

#[test]
fn stub_finds_its_pull_requests() {
    let p = StubProvider::new(&cfg("Platform"), now());
    for pr in p.fetch_pull_requests() {
        assert_eq!(p.fetch_pull_request(pr.id).unwrap(), pr);
    }
    assert!(matches!(
        p.fetch_pull_request(-1),
        Err(ProviderError::NotFound(_))
    ));
}
