use poseidon::config::{PipelineRules, PrRules, RuleSet, StaleDays, TagAlias, TagKeywords};
use poseidon::flag::{EntityFlag, FlagCode, Severity};
use poseidon::pipeline::RunStatus;
use poseidon::pull_request::{PrStatus, PullRequest};
use poseidon::rules::{
    contains_word, evaluate, evaluate_pipeline, evaluate_pull_request, is_underspecified,
    suggest_tags, tag_matches,
};
use poseidon::time::Timestamp;
use poseidon::work_item::WorkItem;

/// Noon on 30 July 2026.
fn now() -> Timestamp {
    Timestamp::new(1785412800, 0)
}

fn days_ago(days: i64) -> Timestamp {
    Timestamp::new(now().secs - days * 86_400, 0)
}

/// Build a work item with sensible defaults; override what a test cares
/// about via the closure.
fn item(f: impl FnOnce(&mut WorkItem)) -> WorkItem {
    let mut wi = WorkItem {
        id: 1,
        provider: "azure-devops".to_string(),
        team: "Platform".to_string(),
        title: "Do the thing".to_string(),
        work_item_type: "User Story".to_string(),
        state: "Active".to_string(),
        tags: vec!["team:platform".to_string(), "type:feature".to_string()],
        assigned_to: Some("Ada".to_string()),
        created_at: days_ago(30),
        changed_at: days_ago(1),
        closed_at: None,
        iteration_path: None,
        story_points: None,
        url: "https://example/1".to_string(),
        description: None,
        linked_pr_ids: Vec::new(),
        parent_id: None,
        linked_repos: Vec::new(),
        linked_prs: Vec::new(),
        tag_suggestions: Vec::new(),
    };
    f(&mut wi);
    wi
}

#[test]
fn flags_open_work_tags_on_resolved_items() {
    let rules = RuleSet {
        resolved_states: vec!["Closed".into(), "Done".into()],
        stale_when_resolved_tags: vec!["to refine".into(), "wip".into()],
        ..Default::default()
    };
    // A Closed item still carrying "To Refine" is contradictory -> flagged
    // (case-insensitive), with the offending tag attached for a "remove" action.
    let closed = item(|w| {
        w.state = "Closed".into();
        w.tags = vec!["type:feature".into(), "To Refine".into()];
    });
    let flags = evaluate(&[closed], &rules, now());
    let f = flags
        .iter()
        .find(|f| f.code == FlagCode::StaleStateTag)
        .expect("stale-state-tag flag");
    assert_eq!(f.tag.as_deref(), Some("To Refine"));
    assert_eq!(f.severity, Severity::Warn);

    // The same tag on an ACTIVE item is perfectly fine.
    let active = item(|w| w.tags = vec!["To Refine".into()]);
    assert!(evaluate(&[active], &rules, now())
        .iter()
        .all(|f| f.code != FlagCode::StaleStateTag));

    // Runs even when the terminal state is ALSO exempted via ignore_states -
    // that's the whole point (a leftover work tag on a "done and ignored" item).
    let ignored = RuleSet {
        ignore_states: vec!["Closed".into()],
        ..rules.clone()
    };
    let closed_wip = item(|w| {
        w.state = "Closed".into();
        w.tags = vec!["wip".into()];
    });
    assert!(evaluate(&[closed_wip], &ignored, now())
        .iter()
        .any(|f| f.code == FlagCode::StaleStateTag));
}

#[test]
fn clean_item_produces_no_flags() {
    let rules = RuleSet {
        required_tags: vec!["team:*".into(), "type:*".into()],
        allowed_tags: vec!["team:*".into(), "type:*".into()],
        ..Default::default()
    };
    let flags = evaluate(&[item(|_| {})], &rules, now());
    assert!(
        flags.is_empty(),
        "clean item should not be flagged: {flags:?}"
    );
}

#[test]
fn untagged_item_is_flagged_once_not_per_required_tag() {
    let rules = RuleSet {
        required_tags: vec!["team:*".into(), "type:*".into()],
        ..Default::default()
    };
    let flags = evaluate(&[item(|i| i.tags.clear())], &rules, now());
    assert_eq!(flags.len(), 1);
    assert_eq!(flags[0].code, FlagCode::Untagged);
    assert_eq!(flags[0].severity, Severity::Warn);
}

#[test]
fn untagged_severity_follows_config() {
    let rules = RuleSet {
        untagged_is_error: true,
        ..Default::default()
    };
    let flags = evaluate(&[item(|i| i.tags.clear())], &rules, now());
    assert_eq!(flags[0].severity, Severity::Error);
}

#[test]
fn missing_required_tag_flagged_when_pattern_unmatched() {
    let rules = RuleSet {
        required_tags: vec!["team:*".into(), "priority:*".into()],
        ..Default::default()
    };
    // Item has team: + type: but no priority: tag.
    let flags = evaluate(&[item(|_| {})], &rules, now());
    assert_eq!(flags.len(), 1);
    assert_eq!(flags[0].code, FlagCode::MissingRequiredTag);
    assert_eq!(flags[0].tag.as_deref(), Some("priority:*"));
}

#[test]
fn disallowed_deny_list_tag_flagged() {
    let rules = RuleSet {
        disallowed_tags: vec!["wip".into()],
        ..Default::default()
    };
    let flags = evaluate(&[item(|i| i.tags.push("wip".into()))], &rules, now());
    let codes: Vec<_> = flags.iter().map(|f| f.code).collect();
    assert!(codes.contains(&FlagCode::DisallowedTag));
    let wip = flags
        .iter()
        .find(|f| f.code == FlagCode::DisallowedTag)
        .unwrap();
    assert_eq!(wip.tag.as_deref(), Some("wip"));
    assert!(wip.message.contains("disallowed"));
}

#[test]
fn allow_list_violation_flagged_only_when_allow_list_set() {
    // With an allow-list that doesn't cover "random", the tag is flagged.
    let with_allow = RuleSet {
        allowed_tags: vec!["team:*".into(), "type:*".into()],
        ..Default::default()
    };
    let flags = evaluate(
        &[item(|i| i.tags.push("random".into()))],
        &with_allow,
        now(),
    );
    assert!(flags.iter().any(|f| f.code == FlagCode::DisallowedTag
        && f.tag.as_deref() == Some("random")
        && f.message.contains("not on the allowed list")));

    // With NO allow-list, the same tag is fine.
    let no_allow = RuleSet::default();
    let flags = evaluate(&[item(|i| i.tags.push("random".into()))], &no_allow, now());
    assert!(flags.is_empty());
}

#[test]
fn stale_item_flagged_past_state_limit() {
    let mut stale_days = StaleDays::new();
    stale_days.insert("Active".to_string(), 5);
    let rules = RuleSet {
        stale_days,
        ..Default::default()
    };
    // Changed 9 days ago, limit 5 → stale.
    let flags = evaluate(
        &[item(|i| i.changed_at = days_ago(9))],
        &rules,
        now(),
    );
    assert_eq!(flags.len(), 1);
    assert_eq!(flags[0].code, FlagCode::Stale);
    assert!(flags[0].message.contains("9 days"));
}

#[test]
fn fresh_item_within_limit_not_stale() {
    let mut stale_days = StaleDays::new();
    stale_days.insert("Active".to_string(), 5);
    let rules = RuleSet {
        stale_days,
        ..Default::default()
    };
    // Changed 2 days ago, limit 5 → fine.
    let flags = evaluate(
        &[item(|i| i.changed_at = days_ago(2))],
        &rules,
        now(),
    );
    assert!(flags.is_empty());
}

#[test]
fn ignored_state_exempts_item_from_all_checks() {
    let rules = RuleSet {
        required_tags: vec!["nonexistent:*".into()],
        ignore_states: vec!["Closed".into()],
        ..Default::default()
    };
    // Untagged + missing required tag, but Closed → skipped entirely.
    let flags = evaluate(
        &[item(|i| {
            i.state = "Closed".into();
            i.tags.clear();
        })],
        &rules,
        now(),
    );
    assert!(flags.is_empty());
}

#[test]
fn ignored_type_exempts_item() {
    let rules = RuleSet {
        untagged_is_error: true,
        ignore_types: vec!["Task".into()],
        ..Default::default()
    };
    let flags = evaluate(
        &[item(|i| {
            i.work_item_type = "Task".into();
            i.tags.clear();
        })],
        &rules,
        now(),
    );
    assert!(flags.is_empty());
}

#[test]
fn tag_matches_wildcard_and_exact_case_insensitive() {
    assert!(tag_matches("type:*", "type:bug"));
    assert!(tag_matches("type:*", "TYPE:Bug"));
    assert!(tag_matches("team:platform", "team:Platform"));
    assert!(!tag_matches("team:platform", "team:data"));
    assert!(!tag_matches("type:*", "priority:high"));
}

/// Build an active PR with sensible defaults (linked to a work item, fresh,
/// non-draft); override what a test cares about via the closure.
fn pr(f: impl FnOnce(&mut PullRequest)) -> PullRequest {
    let mut p = PullRequest {
        id: 100,
        provider: "azure-devops".to_string(),
        team: "Platform".to_string(),
        title: "Add retry to poller".to_string(),
        status: PrStatus::Active,
        is_draft: false,
        repository: Some("platform-svc".to_string()),
        author: Some("Ada".to_string()),
        created_at: Some(days_ago(1)),
        source_branch: Some("feature/retry".to_string()),
        target_branch: Some("main".to_string()),
        reviewer_count: 1,
        url: "https://example/pr/100".to_string(),
        flags: Vec::new(),
        linked_work_items: vec![42],
    };
    f(&mut p);
    p
}

fn codes(flags: &[EntityFlag]) -> Vec<&str> {
    flags.iter().map(|f| f.code.as_str()).collect()
}

#[test]
fn pr_clean_produces_no_flags() {
    let rules = PrRules {
        require_work_item: true,
        stale_open_days: Some(14),
        ..Default::default()
    };
    assert!(evaluate_pull_request(&pr(|_| {}), &rules, now()).is_empty());
}

#[test]
fn pr_require_work_item_flags_only_when_unlinked() {
    let rules = PrRules {
        require_work_item: true,
        ..Default::default()
    };
    let missing = pr(|p| p.linked_work_items.clear());
    assert_eq!(
        codes(&evaluate_pull_request(&missing, &rules, now())),
        ["no-work-item"]
    );
    // Linked -> no flag.
    assert!(evaluate_pull_request(&pr(|_| {}), &rules, now()).is_empty());
}

#[test]
fn pr_require_work_item_off_never_flags() {
    let rules = PrRules::default();
    let missing = pr(|p| p.linked_work_items.clear());
    assert!(evaluate_pull_request(&missing, &rules, now()).is_empty());
}

#[test]
fn pr_non_active_is_exempt_from_all_checks() {
    // A completed PR with no work item + a stale age is still not flagged.
    let rules = PrRules {
        require_work_item: true,
        stale_open_days: Some(1),
        ..Default::default()
    };
    let completed = pr(|p| {
        p.status = PrStatus::Completed;
        p.linked_work_items.clear();
        p.created_at = Some(days_ago(90));
    });
    assert!(evaluate_pull_request(&completed, &rules, now()).is_empty());
}

#[test]
fn pr_stale_open_uses_open_limit_and_draft_uses_draft_limit() {
    let rules = PrRules {
        stale_open_days: Some(14),
        stale_draft_days: Some(3),
        ..Default::default()
    };
    let old_open = pr(|p| p.created_at = Some(days_ago(20)));
    assert_eq!(
        codes(&evaluate_pull_request(&old_open, &rules, now())),
        ["stale-open"]
    );
    let old_draft = pr(|p| {
        p.is_draft = true;
        p.created_at = Some(days_ago(5));
    });
    assert_eq!(
        codes(&evaluate_pull_request(&old_draft, &rules, now())),
        ["stale-draft"]
    );
    // A draft 5 days old is NOT past the 14-day open limit, proving the draft
    // path uses its own (shorter) threshold.
    let fresh_open = pr(|p| p.created_at = Some(days_ago(5)));
    assert!(evaluate_pull_request(&fresh_open, &rules, now()).is_empty());
}

#[test]
fn pipeline_never_run_and_failing_flag_when_enabled() {
    let rules = PipelineRules {
        flag_failing: true,
        flag_never_run: true,
    };
    assert_eq!(codes(&evaluate_pipeline(None, &rules)), ["never-run"]);
    assert_eq!(
        codes(&evaluate_pipeline(Some(RunStatus::Failed), &rules)),
        ["failing"]
    );
    // A healthy last run trips neither.
    assert!(evaluate_pipeline(Some(RunStatus::Succeeded), &rules).is_empty());
}

#[test]
fn pipeline_flags_off_never_fire() {
    let rules = PipelineRules::default();
    assert!(evaluate_pipeline(None, &rules).is_empty());
    assert!(evaluate_pipeline(Some(RunStatus::Failed), &rules).is_empty());
}

#[test]
fn suggest_tags_from_title_keywords() {
    let rules = RuleSet {
        tag_keywords: vec![
            TagKeywords {
                tag: "type:bug".into(),
                keywords: vec!["error".into(), "crash".into()],
            },
            TagKeywords {
                tag: "Documentation".into(),
                keywords: vec!["docs".into()],
            },
        ],
        ..Default::default()
    };
    // "Crash" matches type:bug (case-insensitive); docs is absent.
    let it = item(|w| {
        w.title = "Fix Crash on startup".into();
        w.tags = vec![];
    });
    let s = suggest_tags(&it, &rules, false);
    assert_eq!(s.len(), 1);
    assert_eq!(s[0].tag, "type:bug");
    assert_eq!(s[0].reasons, vec!["crash"]);
}

#[test]
fn suggest_tags_matches_description_only_when_opted_in() {
    let rules = RuleSet {
        tag_keywords: vec![TagKeywords {
            tag: "area:ssa".into(),
            keywords: vec!["self service".into()],
        }],
        ..Default::default()
    };
    // Keyword is in the BODY, not the title.
    let it = item(|w| {
        w.title = "Transfer ownership".into();
        w.tags = vec![];
        w.description = Some("Lets a user run a Self Service action to move ownership.".into());
    });
    // Title-only: no match. With description opted in: matches area:ssa.
    assert!(suggest_tags(&it, &rules, false).is_empty());
    let s = suggest_tags(&it, &rules, true);
    assert_eq!(s.len(), 1);
    assert_eq!(s[0].tag, "area:ssa");
}

#[test]
fn suggest_tags_skips_already_applied() {
    let rules = RuleSet {
        tag_keywords: vec![TagKeywords {
            tag: "type:bug".into(),
            keywords: vec!["crash".into()],
        }],
        ..Default::default()
    };
    let it = item(|w| {
        w.title = "Crash".into();
        w.tags = vec!["type:bug".into()];
    });
    assert!(suggest_tags(&it, &rules, false).is_empty());
}

#[test]
fn tag_alias_suggests_a_canonical_rewrite_from_a_legacy_tag() {
    let rules = RuleSet {
        tag_aliases: vec![TagAlias {
            from: "ssa".into(),
            to: "area:ssa".into(),
        }],
        ..Default::default()
    };
    // Legacy "SSA" (any case), no title/body needed -> suggest area:ssa as a REWRITE.
    let it = item(|w| {
        w.tags = vec!["SSA".into()];
    });
    let s = suggest_tags(&it, &rules, false);
    let sug = s
        .iter()
        .find(|x| x.tag == "area:ssa")
        .expect("alias suggestion");
    assert_eq!(sug.replaces.as_deref(), Some("SSA"));
    // Already migrated -> nothing to do.
    let done = item(|w| {
        w.tags = vec!["SSA".into(), "area:ssa".into()];
    });
    assert!(suggest_tags(&done, &rules, false)
        .iter()
        .all(|x| x.tag != "area:ssa"));
    // No matching legacy tag -> no rewrite.
    let clean = item(|w| {
        w.tags = vec!["area:kubernetes".into()];
    });
    assert!(suggest_tags(&clean, &rules, false).is_empty());
}

#[test]
fn contains_word_matches_whole_tokens_not_substrings() {
    assert!(contains_word("build the ado pipeline now", "ado"));
    assert!(!contains_word("versions are adopted here", "ado")); // no substring hit
    assert!(!contains_word("fix this immediately please", "imm")); // "immediately" != imm
    assert!(contains_word("deploy the imm service", "imm"));
    assert!(!contains_word("run the cascade job", "cas"));
    assert!(contains_word("azure devops build failed", "azure devops")); // multi-word
    assert!(contains_word("cluster runs k8s fine", "k8s"));
}

fn refine_rules() -> RuleSet {
    RuleSet {
        required_tags: vec!["area:*".into()],
        refine_tag: Some("to refine".into()),
        refine_min_chars: Some(40),
        ..Default::default()
    }
}

#[test]
fn is_underspecified_only_when_refine_tag_set_and_body_thin() {
    let empty = item(|w| w.description = None);
    let thin = item(|w| w.description = Some("scope TBC".into()));
    let rich = item(|w| w.description = Some("x".repeat(100)));
    assert!(is_underspecified(&empty, &refine_rules()));
    assert!(is_underspecified(&thin, &refine_rules()));
    assert!(!is_underspecified(&rich, &refine_rules()));
    // Feature off (no refine_tag) -> never underspecified, whatever the body.
    assert!(!is_underspecified(&empty, &RuleSet::default()));
}

#[test]
fn underspecified_ignores_pasted_urls_when_measuring_body() {
    // A "see the doc" stub whose only substance is a long URL is NOT substantial:
    // stripping the link leaves a handful of words, well under the threshold.
    let link_stub = item(|w| {
        w.description =
            Some("See [Project overview](https://example.com/docs/:fl:/r/verylongtoken)".into())
    });
    assert!(is_underspecified(&link_stub, &refine_rules()));
}

#[test]
fn underspecified_matches_placeholder_phrases_regardless_of_length() {
    let mut rules = refine_rules();
    rules.refine_phrases = vec!["to be clarified".into()];
    // Real sentence, over the char threshold, but semantically a placeholder - the
    // body literally says the scope is unresolved. The URL is stripped; the phrase
    // still matches (the "empty stub padded by a pasted link" case).
    let placeholder = item(|w| {
        w.description = Some(
            "Scope and project parameters are to be clarified: \
             [Project overview](https://example.com/x)"
                .into(),
        )
    });
    assert!(is_underspecified(&placeholder, &rules));
    // Without the phrase configured, the same body is long enough to pass.
    assert!(!is_underspecified(&placeholder, &refine_rules()));
}

#[test]
fn suggest_tags_flags_underspecified_item_to_refine() {
    // Empty body + a missing required area -> suggest the refine tag.
    let it = item(|w| {
        w.title = "Continuity planning epic".into();
        w.tags = vec!["enhancement".into()];
        w.description = None;
    });
    let s = suggest_tags(&it, &refine_rules(), true);
    let r = s
        .iter()
        .find(|x| x.tag == "to refine")
        .expect("refine suggestion");
    assert!(r.reasons[0].contains("underspecified"));
}

#[test]
fn refine_is_not_suggested_on_done_items() {
    // A Resolved/Closed item is DONE - nagging it to "refine" would then trip the
    // stale-when-resolved rule. So no refine there,
    // even though the body is thin and a required tag is missing.
    let mut rules = refine_rules();
    rules.resolved_states = vec!["Resolved".into(), "Closed".into()];
    let done = item(|w| {
        w.state = "Resolved".into();
        w.description = None;
        w.tags = vec!["enhancement".into()];
    });
    assert!(is_underspecified(&done, &rules)); // still thin...
    assert!(
        !suggest_tags(&done, &rules, true)
            .iter()
            .any(|x| x.tag == "to refine"),
        "a Resolved item must not be told to refine"
    );
    // The same thin item while still Active DOES get the refine nudge.
    let active = item(|w| {
        w.state = "Active".into();
        w.description = None;
        w.tags = vec!["enhancement".into()];
    });
    assert!(suggest_tags(&active, &rules, true)
        .iter()
        .any(|x| x.tag == "to refine"));
}

#[test]
fn stale_when_resolved_tags_never_suggested_on_done_items_any_source() {
    // Legacy "Refine" tag on a Closed item: the alias would rewrite it to canonical
    // "to refine", but that's a stale-when-resolved marker - the same contradiction
    // via the alias path (not the refine nudge). Dropped by the final done-item guard.
    let rules = RuleSet {
        resolved_states: vec!["Closed".into()],
        stale_when_resolved_tags: vec!["to refine".into()],
        tag_aliases: vec![TagAlias {
            from: "refine".into(),
            to: "to refine".into(),
        }],
        ..Default::default()
    };
    let done = item(|w| {
        w.state = "Closed".into();
        w.tags = vec!["Refine".into()];
    });
    assert!(
        suggest_tags(&done, &rules, false)
            .iter()
            .all(|x| x.tag != "to refine"),
        "a stale-when-resolved tag must not be suggested on a done item"
    );
    // While Active, canonicalising the legacy tag IS offered.
    let active = item(|w| {
        w.state = "Active".into();
        w.tags = vec!["Refine".into()];
    });
    assert!(suggest_tags(&active, &rules, false)
        .iter()
        .any(|x| x.tag == "to refine"));
}

#[test]
fn suggest_tags_no_refine_when_already_tagged_or_required_satisfied() {
    // Already carries the refine tag -> don't re-suggest it.
    let already = item(|w| {
        w.tags = vec!["to refine".into()];
        w.description = None;
    });
    assert!(suggest_tags(&already, &refine_rules(), true)
        .iter()
        .all(|x| x.tag != "to refine"));
    // Required area already satisfied -> nothing to refine toward.
    let tagged = item(|w| {
        w.tags = vec!["area:kubernetes".into()];
        w.description = None;
    });
    assert!(suggest_tags(&tagged, &refine_rules(), true)
        .iter()
        .all(|x| x.tag != "to refine"));
}
