use poseidon::ai::chat::{
    chat_prompt, tokenizer_url, AiError, Generation, DEFAULT_END_TOKEN, MAX_NEW_TOKENS,
};
use poseidon::banner::{caption, centre, motds, pick, WIDTH};
use poseidon::cli::{
    announcement, assigned_ids, error_count, import_summary, lint_exit_code, lint_lines,
    plan_tagging, poll_summary, progress, report_range, run_lines, tag_summary, tagged_items,
    ticket_lines, TagPlan,
};
use poseidon::config::{AzureDevOpsAuth, ProviderKind, RuleSet, TeamConfig, UserConfig};
use poseidon::config_store::DEFAULT_OWNER;
use poseidon::doctor::FixResult;
use poseidon::flag::{Flag, FlagCode, Severity, TagSuggestion};
use poseidon::json::{read_json, Json};
use poseidon::number::{format_i64, format_u64, parse_i64, parse_nat};
use poseidon::order::comes_before;
use poseidon::report::{TagCount, TicketReport};
use poseidon::server::{
    after_poll, commit, display_version, env_script, fix_answer, identity, internal_error, is_documentation,
    is_local_build, presented_token, request_owner, run_ids, scope, team_answer, version, Failure,
    SignInState, SignInStep, SIGN_IN_SECONDS,
};
use poseidon::telemetry::{
    Environment, OtlpSettings, RuntimeInfo, TelemetryEnv, TelemetryError, TelemetrySettings,
};
use poseidon::text::{eq_ignoring_case, replace, split, trim};
use poseidon::time::Timestamp;
use poseidon::work_item::WorkItem;

fn flag(severity: Severity, id: i64) -> Flag {
    Flag {
        work_item_id: id,
        team: "Platform".into(),
        code: FlagCode::Stale,
        severity,
        message: "no activity".into(),
        tag: None,
    }
}

fn item(id: i64, assignee: Option<&str>, suggestions: usize) -> WorkItem {
    let at = Timestamp::new(0, 0);
    WorkItem {
        id,
        provider: "stub".into(),
        team: "Platform".into(),
        title: "t".into(),
        work_item_type: "Bug".into(),
        state: "New".into(),
        tags: vec![],
        assigned_to: assignee.map(str::to_string),
        created_at: at,
        changed_at: at,
        closed_at: None,
        iteration_path: None,
        story_points: None,
        description: None,
        url: String::new(),
        linked_pr_ids: vec![],
        parent_id: None,
        linked_repos: vec![],
        linked_prs: vec![],
        tag_suggestions: (0..suggestions)
            .map(|i| TagSuggestion { tag: format!("t{i}"), reasons: vec![], replaces: None })
            .collect(),
    }
}

fn team(name: &str) -> TeamConfig {
    TeamConfig {
        name: name.into(),
        provider: ProviderKind::Stub,
        organization: "o".into(),
        project: "p".into(),
        tenant: None,
        area_path: None,
        area_path_strict: false,
        auth: AzureDevOpsAuth::default(),
        wiql: None,
        pipeline_ids: vec![],
        rules: None,
    }
}

// ── Requests ──

#[test]
fn an_empty_team_means_every_team() {
    assert_eq!(scope(&None), None);
    assert_eq!(scope(&Some(String::new())), None);
    assert_eq!(scope(&Some("Platform".into())), Some("Platform"));
}

#[test]
fn requests_without_an_address_belong_to_the_default_owner() {
    let me = identity(Some("  a@b.com "));
    assert_eq!(me.owner, "a@b.com");
    assert!(me.authenticated);
    for email in [None, Some(""), Some("   ")] {
        let nobody = identity(email);
        assert_eq!(nobody.owner, DEFAULT_OWNER);
        assert!(!nobody.authenticated);
    }
}

#[test]
fn builds_are_shown_by_their_commit() {
    assert_eq!(display_version("0123456789abcdef0123", "v1.0.0"), "0123456789ab");
    assert_eq!(display_version("not-a-commit-name", "v1.0.0"), "not-a-commit-name");
    assert_eq!(display_version("unknown", "v1.0.0"), "v1.0.0");
    assert_eq!(display_version("", "latest-main"), "dev");
}

#[test]
fn the_browser_is_told_the_instance_and_the_build() {
    assert_eq!(
        env_script("http://a/\"b\"", "unknown", "v1.0.0"),
        "window.__POSEIDEN_ENV__ = {\"instanceUrl\":\"http://a/\\\"b\\\"\",\"version\":\"v1.0.0\"};\n"
    );
}

#[test]
fn run_time_stamps_win_over_build_time_stamps() {
    assert_eq!(version(None, None), "local");
    assert_eq!(version(Some(" "), Some("v1.0.0")), "v1.0.0");
    assert_eq!(version(Some("v2.0.0"), Some("v1.0.0")), "v2.0.0");
    assert!(is_local_build(None, None));
    assert!(!is_local_build(Some("v2.0.0"), None));
    assert_eq!(commit(None, None), "unknown");
    assert_eq!(commit(None, Some("abc")), "abc");
}

#[test]
fn documentation_is_markdown_and_images() {
    assert!(is_documentation("MD"));
    assert!(is_documentation("webp"));
    assert!(!is_documentation("html"));
}

// ── The command line ──

#[test]
fn captions_stand_in_the_middle() {
    assert_eq!(centre("ab"), format!("{}ab", " ".repeat(19)));
    let wide = "x".repeat(WIDTH + 1);
    assert_eq!(centre(&wide), wide);
    let lines = caption(6);
    assert_eq!(lines.len(), 2);
    assert_eq!(lines[0].trim(), "P O S E I D E N");
    assert_eq!(lines[1].trim(), "\"Stem the tide\"");
    assert_eq!(motds().len(), 5);
    assert_eq!(pick(7, 0), 0);
    assert_eq!(pick(7, 5), 2);
}

#[test]
fn tagging_can_be_narrowed_to_a_person() {
    let items = vec![
        item(1, Some("Ada LOVELACE"), 2),
        item(2, None, 1),
        item(3, Some("Grace"), 0),
    ];
    assert_eq!(assigned_ids(&items, "lovelace"), vec![1]);
    let mine = plan_tagging(&items, Some("ada"));
    assert_eq!(mine, TagPlan::Items(vec![1]));
    assert_eq!(
        announcement(&mine, Some("ada")),
        "Tagging 1 item(s) assigned to \"ada\"..."
    );
    assert_eq!(tagged_items(&items, &mine), vec![0]);
    let nobody = plan_tagging(&items, Some("zed"));
    assert_eq!(nobody, TagPlan::Nothing);
    assert_eq!(
        announcement(&nobody, Some("zed")),
        "No work items assigned to \"zed\" in this scope."
    );
    let all = plan_tagging(&items, None);
    assert_eq!(all, TagPlan::Everything);
    assert_eq!(announcement(&all, None), "Tagging the whole scope...");
    assert_eq!(tagged_items(&items, &all), vec![0, 1]);
}

#[test]
fn tagging_reports_its_progress() {
    assert_eq!(progress(1, 20, 3), "\r  1/20 items, 3 suggestions");
    assert_eq!(
        tag_summary(20, 5, 9),
        "Tagged 20 item(s): 5 got suggestions (9 total). Review + apply in the app."
    );
}

#[test]
fn only_errors_stop_a_pipeline() {
    let clean: Vec<Flag> = vec![];
    assert_eq!(lint_exit_code(&clean), 0);
    assert_eq!(lint_lines(&clean), vec!["✓ No hygiene flags - backlog is clean."]);
    let warned = vec![flag(Severity::Warn, 1)];
    assert_eq!(lint_exit_code(&warned), 0);
    let failed = vec![flag(Severity::Warn, 1), flag(Severity::Error, 2)];
    assert_eq!(lint_exit_code(&failed), 1);
    assert_eq!(error_count(&failed), 1);
    assert_eq!(
        lint_lines(&failed),
        vec![
            "2 hygiene flag(s):",
            "  [warn] #1 (Platform) - no activity",
            "  [ERROR] #2 (Platform) - no activity",
            "\n1 error(s), 1 warning(s).",
        ]
    );
}

#[test]
fn reports_cover_the_last_thirty_days() {
    // 2026-07-30T12:00:00Z
    let now = Timestamp::new(1_785_412_800, 0);
    let range = report_range(None, None, now).unwrap();
    assert_eq!(range.from, "2026-06-30");
    assert_eq!(range.to, "2026-07-30");
    assert_eq!(range.from_ts, "2026-06-30T00:00:00Z");
    assert_eq!(range.to_ts, "2026-07-30T23:59:59Z");
    let given = report_range(Some("2026-01-01".into()), Some("2026-01-31".into()), now).unwrap();
    assert_eq!(given.from, "2026-01-01");
    assert_eq!(given.to, "2026-01-31");
    assert_eq!(report_range(None, None, Timestamp::new(i64::MIN, 0)), None);
}

#[test]
fn reports_are_written_line_by_line() {
    let report = TicketReport {
        from: "a".into(),
        to: "b".into(),
        opened: 3,
        closed: 2,
        closed_by_tag: vec![TagCount { tag: "type:bug".into(), count: 2 }],
    };
    assert_eq!(
        ticket_lines(&report),
        vec![
            "\nWork items:".to_string(),
            "  opened: 3".to_string(),
            "  closed: 2".to_string(),
            "  closed by tag:".to_string(),
            format!("    {:<28} {}", "type:bug", 2),
        ]
    );
    assert_eq!(
        run_lines(4, 2, 1, 1),
        vec![
            "\nPipelines:",
            "  runs: 4",
            "  succeeded / failed / canceled: 2 / 1 / 1",
        ]
    );
    assert_eq!(
        poll_summary(1, 2, 3, 4),
        "Polled 1 team(s): 2 work items, 3 pipelines, 4 runs."
    );
    assert_eq!(import_summary(1, 2, true), "Imported 1 team(s) and 2 report(s) (replaced).");
    assert_eq!(import_summary(0, 0, false), "Imported 0 team(s) and 0 report(s) (merged).");
}

// ── Configuration ──

#[test]
fn team_names_stay_different() {
    let mut cfg = UserConfig::default();
    assert!(cfg.add_team(team("A")));
    assert!(!cfg.add_team(team("A")));
    assert!(cfg.add_team(team("B")));
    assert_eq!(cfg.teams.len(), 2);
    // Adding and removing leaves what was there.
    assert!(cfg.remove_team("B"));
    assert!(!cfg.remove_team("B"));
    assert_eq!(cfg.teams.len(), 1);
    assert_eq!(cfg.teams[0].name, "A");
    let mut renamed = team("A2");
    renamed.project = "q".into();
    assert!(cfg.update_team("A", renamed));
    assert_eq!(cfg.teams[0].name, "A2");
    assert_eq!(cfg.teams[0].project, "q");
    assert!(!cfg.update_team("A", team("A")));
}

#[test]
fn rules_can_be_set_for_all_or_for_a_team() {
    let mut cfg = UserConfig::default();
    cfg.add_team(team("A"));
    let own = RuleSet { required_tags: vec!["type:*".into()], ..Default::default() };
    assert!(cfg.set_team_rules("A", Some(own)));
    assert!(!cfg.set_team_rules("Z", None));
    assert_eq!(cfg.rules_for(&cfg.teams[0]).required_tags, vec!["type:*"]);
    cfg.set_rules(RuleSet { required_tags: vec!["team:*".into()], ..Default::default() });
    assert!(cfg.set_team_rules("A", None));
    assert_eq!(cfg.rules_for(&cfg.teams[0]).required_tags, vec!["team:*"]);
    cfg.set_poll_all_teams(true);
    assert!(cfg.poll_all_teams);
    assert!(cfg.set_registered_checks(vec!["k".into()]));
    assert!(!cfg.set_registered_checks(vec!["k".into()]));
}

#[test]
fn only_the_default_owner_starts_from_the_seed() {
    let seed = UserConfig { teams: vec![team("Seeded")], ..Default::default() };
    assert_eq!(UserConfig::seeded(DEFAULT_OWNER, seed.clone()).teams.len(), 1);
    assert!(UserConfig::seeded("a@b.com", seed).teams.is_empty());
}

// ── Telemetry ──

#[test]
fn telemetry_follows_the_environment() {
    let mut env = TelemetryEnv {
        console: None,
        console_json: Some("yes".into()),
        file: None,
        level: Some(" ".into()),
        otlp_endpoint: Some("http://otel:4318/".into()),
        otlp_enabled: None,
    };
    let s = TelemetrySettings::from_env(&env);
    assert!(s.console && s.console_json && !s.file);
    assert_eq!(s.level, None);
    assert!(s.otlp.enabled);
    assert_eq!(s.otlp.base_endpoint(), "http://otel:4318");
    env.otlp_enabled = Some("off".into());
    assert!(!TelemetrySettings::from_env(&env).otlp.enabled);
    assert!(s.directives(Environment::Dev).starts_with("debug,"));
    assert!(s.directives(Environment::Prod).starts_with("warn,"));
    assert_eq!(OtlpSettings::default().endpoint, "http://localhost:4318");
}

#[test]
fn runtime_facts_and_errors() {
    let info = RuntimeInfo::new("s".into(), "1".into(), Environment::Prod, "/logs".into());
    assert!(!info.console_stderr);
    assert!(info.with_console_stderr(true).console_stderr);
    assert_eq!(
        TelemetryError::AlreadyInitialised.message(),
        "telemetry already initialised"
    );
    assert_eq!(
        TelemetryError::Sink("disk".into()).message(),
        "telemetry sink setup failed: disk"
    );
}

// ── Models in this process ──

#[test]
fn an_answer_ends_with_the_end_token() {
    let mut g = Generation::new(10, DEFAULT_END_TOKEN);
    assert_eq!(g.accept(5), Some(10));
    assert_eq!(g.accept(6), Some(11));
    assert_eq!(g.accept(DEFAULT_END_TOKEN), None);
    assert_eq!(g.into_tokens(), vec![5, 6]);
}

#[test]
fn an_answer_has_a_longest_length() {
    let mut g = Generation::new(0, DEFAULT_END_TOKEN);
    for i in 0..MAX_NEW_TOKENS {
        assert_eq!(g.accept(1), Some(i));
    }
    assert_eq!(g.accept(1), None);
    assert_eq!(g.into_tokens().len(), MAX_NEW_TOKENS);
}

#[test]
fn prompts_mark_who_speaks() {
    let p = chat_prompt("hello");
    assert!(p.starts_with("<|im_start|>system\n"));
    assert!(p.ends_with("<|im_start|>user\nhello<|im_end|>\n<|im_start|>assistant\n"));
    assert_eq!(
        tokenizer_url("a/b"),
        "https://huggingface.co/a/b/resolve/main/tokenizer.json"
    );
    assert_eq!(AiError::Http("x".into()).message(), "AI backend request failed: x");
    assert_eq!(AiError::Unsupported("no".into()).message(), "no");
}

// ── Texts, numbers and documents ──

#[test]
fn numbers_are_read_and_written() {
    assert_eq!(format_i64(i64::MIN), "-9223372036854775808");
    assert_eq!(format_u64(u64::MAX), "18446744073709551615");
    assert_eq!(parse_i64("-42"), Some(-42));
    assert_eq!(parse_i64("+7"), Some(7));
    assert_eq!(parse_i64("9223372036854775808"), None);
    assert_eq!(parse_i64("4 2"), None);
    assert_eq!(parse_nat("65535", 65_535), Some(65_535));
    assert_eq!(parse_nat("65536", 65_535), None);
}

#[test]
fn texts_are_cut_and_compared() {
    assert_eq!(trim(" \t\u{a0}a b\n"), "a b");
    assert_eq!(split("a,,b", ','), vec!["a", "", "b"]);
    assert_eq!(replace("aaa", "aa", "b"), "ba");
    assert!(eq_ignoring_case("Ab", "aB"));
    assert!(!eq_ignoring_case("ä", "Ä")); // only ASCII letters are alike
    assert!(comes_before("In Progress", "New"));
    assert!(!comes_before("a", "Z"));
}

#[test]
fn json_documents_are_read_member_by_member() {
    let j = read_json(r#"{ "a": "xA", "b": [1, 2.50], "c": null }"#).unwrap();
    assert_eq!(j.text_of("a").as_deref(), Some("xA"));
    assert_eq!(j.text_of("b"), None);
    assert_eq!(j.member("b").as_deref(), Some("[1,2.5]"));
    assert_eq!(j.member("d"), None);
    assert!(matches!(read_json("true"), Some(Json::Bool(true))));
    assert!(read_json("{").is_none());
}

#[test]
fn the_email_header_buys_nothing_where_tokens_are_verified() {
    let owner = |verified: Option<Result<String, String>>, email: Option<&str>| {
        request_owner(verified, email)
    };
    assert_eq!(owner(None, Some("a@b.com")), Ok("a@b.com".to_string()));
    assert_eq!(owner(None, None), Ok(String::new()));
    assert_eq!(
        owner(Some(Ok("v@x.io".to_string())), Some("a@b.com")),
        Ok("v@x.io".to_string())
    );
    for email in [None, Some("a@b.com")] {
        let refused = owner(Some(Err("expired".to_string())), email).unwrap_err();
        assert_eq!(refused.status, 401);
        assert_eq!(refused.message, "token verification failed");
    }
    assert_eq!(presented_token(None), "");
    assert_eq!(presented_token(Some("t")), "t");
}

#[test]
fn failures_are_answered_by_their_reason() {
    assert_eq!(team_answer(Ok(true), "A"), Ok(()));
    assert_eq!(
        team_answer(Ok(false), "A"),
        Err(Failure { status: 404, error: "no team named 'A'".into() })
    );
    assert_eq!(team_answer(Err("disk".into()), "A"), Err(internal_error("disk".into())));
    assert_eq!(internal_error("disk".into()).status, 500);
    assert_eq!(
        fix_answer(None, "x").unwrap_err(),
        Failure { status: 404, error: "no check with id 'x'".into() }
    );
    assert!(fix_answer(Some(FixResult::ok("done".into())), "x").unwrap().ok);
    assert_eq!(run_ids(Some(vec![])), None);
    assert_eq!(run_ids(Some(vec![1])), Some(vec![1]));
}

#[test]
fn a_sign_in_ends_with_its_outcome_or_in_time() {
    assert_eq!(after_poll(&SignInState::Idle, 0), SignInStep::Wait);
    assert_eq!(after_poll(&SignInState::Pending, SIGN_IN_SECONDS), SignInStep::Wait);
    assert_eq!(after_poll(&SignInState::Pending, SIGN_IN_SECONDS + 1), SignInStep::TimedOut);
    assert_eq!(after_poll(&SignInState::Done, SIGN_IN_SECONDS + 1), SignInStep::Done);
    assert_eq!(
        after_poll(&SignInState::Failed { error: "declined".into() }, 2),
        SignInStep::Failed("sign-in did not complete: declined".into())
    );
}

#[test]
fn control_characters_are_escaped_in_the_script() {
    assert_eq!(
        env_script("\u{8}\t\n\u{c}\r\u{1}\u{1f}\\\u{7f}é", "", "v1"),
        "window.__POSEIDEN_ENV__ = {\"instanceUrl\":\"\\b\\t\\n\\f\\r\\u0001\\u001f\\\\\u{7f}é\",\"version\":\"v1\"};\n"
    );
}
