use poseidon::config::{
    default_resolved_states, default_stale_when_resolved_tags, parse_duration, AzureDevOpsAuth, ProviderKind, RuleSet, ServerConfig, ServerEnv, StaleDays,
    StaleRule, TeamConfig, UserConfig,
};
use poseidon::config_bundle::{BundleMeta, CONFIG_BUNDLE_SCHEMA};
use poseidon::editable_field::{EditableField, FieldKind};
use poseidon::flag::{FlagCode, Severity};
use poseidon::pipeline::RunStatus;
use poseidon::pull_request::PrStatus;
use poseidon::time::{age_in_days, nanos_between, Timestamp};
use poseidon::work_item::{WorkItem, WorkItemUpdate};

fn at(iso: &str) -> Timestamp {
    let t = chrono::DateTime::parse_from_rfc3339(iso).expect("valid timestamp");
    Timestamp::new(t.timestamp(), t.timestamp_subsec_nanos())
}

fn team(name: &str, rules: Option<RuleSet>) -> TeamConfig {
    TeamConfig {
        name: name.into(),
        provider: ProviderKind::default(),
        organization: "o".into(),
        project: "A".into(),
        tenant: None,
        area_path: None,
        area_path_strict: false,
        auth: AzureDevOpsAuth::default(),
        wiql: None,
        pipeline_ids: vec![],
        rules,
    }
}

fn requiring(tags: &[&str]) -> RuleSet {
    RuleSet {
        required_tags: tags.iter().map(|t| t.to_string()).collect(),
        ..Default::default()
    }
}

fn sample() -> WorkItem {
    WorkItem {
        id: 7,
        provider: "azure-dev-ops".into(),
        team: "Platform".into(),
        title: "Fix the widget".into(),
        work_item_type: "Bug".into(),
        state: "Active".into(),
        tags: vec!["type:bug".into()],
        assigned_to: Some("Ada".into()),
        created_at: at("2026-01-01T00:00:00Z"),
        changed_at: at("2026-01-05T00:00:00Z"),
        closed_at: None,
        iteration_path: None,
        story_points: Some("3.0".into()),
        description: Some("a long body".into()),
        url: "https://example.com/7".into(),
        linked_pr_ids: vec![],
        parent_id: None,
        linked_repos: vec![],
        linked_prs: vec![],
        tag_suggestions: vec![],
    }
}

#[test]
fn parse_duration_units() {
    assert_eq!(parse_duration("45s"), Some(45));
    assert_eq!(parse_duration("15m"), Some(900));
    assert_eq!(parse_duration("1h"), Some(3600));
    assert_eq!(parse_duration("2d"), Some(172_800));
    assert_eq!(parse_duration("90"), Some(90));
}

#[test]
fn parse_duration_rejects_garbage() {
    assert_eq!(parse_duration(""), None);
    assert_eq!(parse_duration("abc"), None);
    assert_eq!(parse_duration("15x"), None);
    assert_eq!(parse_duration("m"), None);
}

#[test]
fn durations_beyond_a_machine_word_are_none() {
    assert_eq!(parse_duration("18446744073709551615"), Some(u64::MAX));
    assert_eq!(parse_duration("18446744073709551615m"), None);
    let mut s = ServerConfig::default();
    s.poll_interval = "18446744073709551615d".into();
    assert_eq!(s.poll_interval_duration(), 900);
}

#[test]
fn defaults_are_sane() {
    let s = ServerConfig::default();
    assert_eq!(s.port, 8737);
    assert_eq!(s.bind_addr, "127.0.0.1");
    // A fresh owner's config is empty.
    let empty = UserConfig::default();
    assert!(empty.teams.is_empty());
    assert!(empty.rules.required_tags.is_empty());
    assert_eq!(AzureDevOpsAuth::default().pat_env, "POSEIDEN_AZURE_PAT");
    assert_eq!(ProviderKind::default(), ProviderKind::AzureDevOps);
}

#[test]
fn server_settings_come_from_the_environment() {
    let env = ServerEnv {
        bind_addr: Some("0.0.0.0".into()),
        port: Some(" 9000 ".into()),
        poll_interval: Some("   ".into()),
    };
    let s = ServerConfig::from_env(&env);
    assert_eq!(s.bind_addr, "0.0.0.0");
    assert_eq!(s.port, 9000);
    // A blank setting counts as unset.
    assert_eq!(s.poll_interval, "15m");
    // A port that is no port falls back.
    let env = ServerEnv { bind_addr: None, port: Some("70000".into()), poll_interval: None };
    assert_eq!(ServerConfig::from_env(&env).port, 8737);
}

#[test]
fn per_team_rules_override_else_inherit_global() {
    // A team with no `rules` inherits the owner's; a team with its own overrides
    // them wholesale.
    let cfg = UserConfig {
        teams: vec![
            team("Inheritor", None),
            team("Override", Some(requiring(&["type:*"]))),
        ],
        rules: requiring(&["team:*"]),
        ..Default::default()
    };
    let inheritor = &cfg.teams[0];
    let overrider = &cfg.teams[1];
    assert!(inheritor.rules.is_none(), "no block means inherit");
    assert!(overrider.rules.is_some(), "a block means override");
    assert_eq!(cfg.rules_for(inheritor).required_tags, vec!["team:*"]);
    assert_eq!(cfg.rules_for(overrider).required_tags, vec!["type:*"]);
}

#[test]
fn per_team_empty_rules_block_replaces_not_merges() {
    // A team's own rules are a whole-ruleset override, not a field merge.
    let cfg = UserConfig {
        teams: vec![team("Loose", Some(requiring(&[])))],
        rules: requiring(&["team:*", "type:*"]),
        ..Default::default()
    };
    let loose = &cfg.teams[0];
    assert!(loose.rules.is_some());
    assert!(cfg.rules_for(loose).required_tags.is_empty());
}

#[test]
fn ruleset_seeds_resolved_and_stale_defaults() {
    let rs = RuleSet {
        resolved_states: default_resolved_states(),
        stale_when_resolved_tags: default_stale_when_resolved_tags(),
        ..Default::default()
    };
    assert_eq!(
        rs.resolved_states,
        vec!["Closed", "Done", "Resolved", "Completed", "Removed"]
    );
    assert_eq!(
        rs.stale_when_resolved_tags,
        vec!["to refine", "to do", "needs triage", "in progress", "blocked", "wip"]
    );
    // Fields without a seed are empty/false.
    assert!(rs.required_tags.is_empty());
    assert!(rs.allowed_tags.is_empty());
    assert!(rs.disallowed_tags.is_empty());
    assert!(rs.tag_keywords.is_empty());
    assert!(rs.tag_aliases.is_empty());
    assert!(!rs.untagged_is_error);
    assert!(rs.stale_rules().is_empty());
}

#[test]
fn stale_rules_pairs_from_map() {
    let mut stale_days = StaleDays::new();
    stale_days.insert("New".into(), 14);
    stale_days.insert("In Progress".into(), 5);
    let rs = RuleSet { stale_days, ..Default::default() };
    let rules = rs.stale_rules();
    assert_eq!(rules.len(), 2);
    // Sorted by state: "In Progress" < "New".
    assert_eq!(rules[0], StaleRule { state: "In Progress".into(), days: 5 });
    assert_eq!(rules[1], StaleRule { state: "New".into(), days: 14 });
}

#[test]
fn a_later_stale_limit_replaces_an_earlier_one() {
    let mut stale_days = StaleDays::new();
    stale_days.insert("New".into(), 14);
    stale_days.insert("New".into(), 3);
    let rs = RuleSet { stale_days, ..Default::default() };
    assert_eq!(rs.stale_rules(), vec![StaleRule { state: "New".into(), days: 3 }]);
}

#[test]
fn provider_kind_serde_is_kebab_case() {
    assert_eq!(ProviderKind::AzureDevOps.as_str(), "azure-dev-ops");
    assert_eq!(ProviderKind::Stub.as_str(), "stub");
    assert_eq!(ProviderKind::from_slug("stub"), Some(ProviderKind::Stub));
    assert_eq!(ProviderKind::from_slug("Stub"), None);
}

#[test]
fn provider_names_round_trip() {
    for k in [
        ProviderKind::AzureDevOps,
        ProviderKind::GitHub,
        ProviderKind::GitLab,
        ProviderKind::Stub,
    ] {
        assert_eq!(ProviderKind::from_slug(k.as_str()), Some(k));
    }
}

#[test]
fn poll_interval_duration_falls_back_on_garbage() {
    // A malformed interval must not stop the server booting - it uses 15m.
    let s = ServerConfig { poll_interval: "nonsense".to_string(), ..Default::default() };
    assert_eq!(s.poll_interval_duration(), 900);
    let s = ServerConfig { poll_interval: "30s".to_string(), ..Default::default() };
    assert_eq!(s.poll_interval_duration(), 30);
}

#[test]
fn draftable_kinds_are_the_narrative_ones() {
    assert!(FieldKind::Markdown.is_draftable());
    assert!(FieldKind::PlainText.is_draftable());
    assert!(FieldKind::Text.is_draftable());
    assert!(!FieldKind::Integer.is_draftable());
    assert!(!FieldKind::DateTime.is_draftable());
    assert!(!FieldKind::Boolean.is_draftable());
    assert!(!FieldKind::Select.is_draftable());
}

#[test]
fn ai_assist_offered_only_for_editable_narrative_fields() {
    let mut f = EditableField {
        reference: "System.Description".into(),
        label: "Description".into(),
        kind: FieldKind::Markdown,
        value: String::new(),
        options: vec![],
        read_only: false,
        required: false,
        help: None,
    };
    assert!(f.allows_ai_assist());
    f.read_only = true; // a read-only rich field gets no draft button
    assert!(!f.allows_ai_assist());
    f.read_only = false;
    f.kind = FieldKind::Select; // a pick-list isn't draftable
    assert!(!f.allows_ai_assist());
}

#[test]
fn field_kind_serialises_snake_case() {
    assert_eq!(FieldKind::PlainText.as_str(), "plain_text");
    assert_eq!(FieldKind::Markdown.as_str(), "markdown");
}

#[test]
fn field_kind_names_round_trip() {
    for k in [
        FieldKind::Text,
        FieldKind::PlainText,
        FieldKind::Markdown,
        FieldKind::Integer,
        FieldKind::Float,
        FieldKind::Boolean,
        FieldKind::DateTime,
        FieldKind::Select,
        FieldKind::Identity,
    ] {
        assert_eq!(FieldKind::from_slug(k.as_str()), Some(k));
    }
    assert_eq!(FieldKind::from_slug("Markdown"), None);
}

#[test]
fn flag_code_serializes_snake_case() {
    let cases = [
        (FlagCode::Untagged, "untagged"),
        (FlagCode::MissingRequiredTag, "missing_required_tag"),
        (FlagCode::DisallowedTag, "disallowed_tag"),
        (FlagCode::Stale, "stale"),
        (FlagCode::StaleStateTag, "stale_state_tag"),
        (FlagCode::Underspecified, "underspecified"),
        (FlagCode::Duplicate, "duplicate"),
        (FlagCode::BadTitle, "bad_title"),
        (FlagCode::AiAudit, "ai_audit"),
    ];
    for (code, slug) in cases {
        assert_eq!(code.as_str(), slug);
        // And back the other way.
        assert_eq!(FlagCode::from_slug(slug), Some(code));
    }
    assert_eq!(FlagCode::from_slug("tidy"), None);
}

#[test]
fn severity_serializes_snake_case() {
    assert_eq!(Severity::Warn.as_str(), "warn");
    assert_eq!(Severity::Error.as_str(), "error");
    assert_eq!(Severity::from_slug("warn"), Some(Severity::Warn));
}

#[test]
fn is_untagged_reflects_tag_list() {
    let mut wi = sample();
    assert!(!wi.is_untagged());
    wi.tags.clear();
    assert!(wi.is_untagged());
}

#[test]
fn days_since_change_counts_and_clamps() {
    let wi = sample(); // changed_at = 2026-01-05
    assert_eq!(wi.days_since_change(at("2026-01-14T00:00:00Z")), 9);
    // Clock skew (now before changed_at) clamps to zero, never negative.
    assert_eq!(wi.days_since_change(at("2026-01-01T00:00:00Z")), 0);
}

#[test]
fn work_item_update_is_empty() {
    assert!(WorkItemUpdate::default().is_empty());
    assert!(!WorkItemUpdate { state: Some("Resolved".into()), tags: None }.is_empty());
    // Clearing all tags (Some(empty vec)) is still a change.
    assert!(!WorkItemUpdate { state: None, tags: Some(vec![]) }.is_empty());
}

#[test]
fn only_finished_runs_are_terminal() {
    assert!(RunStatus::Succeeded.is_terminal());
    assert!(RunStatus::Failed.is_terminal());
    assert!(!RunStatus::Running.is_terminal());
}

#[test]
fn pull_request_states_round_trip() {
    for s in [PrStatus::Active, PrStatus::Completed, PrStatus::Abandoned] {
        assert_eq!(PrStatus::from_slug(s.as_str()), s);
    }
}

#[test]
fn bundles_of_another_schema_are_not_supported() {
    let mut meta = BundleMeta {
        schema: CONFIG_BUNDLE_SCHEMA,
        exported_at: "2026-01-01T00:00:00Z".into(),
        owner: None,
        app_version: "1.0.0".into(),
    };
    assert!(meta.is_supported());
    meta.schema = CONFIG_BUNDLE_SCHEMA + 1;
    assert!(!meta.is_supported());
}

#[test]
fn ages_count_whole_days_either_way() {
    let noon = at("2026-01-05T12:00:00Z");
    assert_eq!(age_in_days(noon, at("2026-01-06T11:59:59Z")), 0);
    assert_eq!(age_in_days(noon, at("2026-01-06T12:00:00Z")), 1);
    assert_eq!(
        nanos_between(noon, at("2026-01-05T12:00:01.5Z")),
        1_500_000_000
    );
    assert!(at("2026-01-05T12:00:00.5Z").at_or_after(noon));
    assert!(!noon.at_or_after(at("2026-01-05T12:00:00.5Z")));
}

#[test]
fn timestamps_are_written_out() {
    let t = at("2026-01-05T12:00:00Z");
    assert_eq!(t.to_rfc3339().as_deref(), Some("2026-01-05T12:00:00+00:00"));
    assert_eq!(t.date().as_deref(), Some("2026-01-05"));
    assert_eq!(Timestamp::new(i64::MAX, 0).to_rfc3339(), None);
    assert_eq!(Timestamp::new(i64::MAX, 0).date(), None);
    assert_eq!(Timestamp::new(-1, 0).date().as_deref(), Some("1969-12-31"));
    assert_eq!(Timestamp::new(951_782_400, 0).date().as_deref(), Some("2000-02-29"));
    assert_eq!(Timestamp::new(-62_167_219_200, 0).date().as_deref(), Some("0000-01-01"));
    assert_eq!(Timestamp::new(253_402_300_799, 0).date().as_deref(), Some("9999-12-31"));
}
