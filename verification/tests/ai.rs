use poseidon::ai::presets::offline_model;
use poseidon::ai::prompts::{
    build_audit_prompt, build_field_draft_prompt, build_fields_consistency_prompt, build_prompt,
    is_acceptance_criteria, is_title, AuditInput, DraftFieldValue, DraftMode, FieldDraftContext,
    FieldsConsistencyContext, TagHints, TaggerInput, MAX_DESC_CHARS, MAX_HINTS_PER_TAG,
};
use poseidon::ai::registry::{
    recommend_model, AiConfig, LlmConfig, LlmIntegration, PlatformCaps,
};
use poseidon::ai::replies::{
    default_max_suggestions, extract_json, parse_audit_response, parse_fields_consistency,
    parse_suggestions, read_record, read_reply, strip_code_fence, AuditKind, MAX_AUDIT_ISSUES, MAX_SUGGESTIONS,
};
use poseidon::time::Timestamp;
use poseidon::work_item::WorkItem;

fn allowed() -> Vec<String> {
    vec![
        "type:bug".into(),
        "type:task".into(),
        "priority:high".into(),
    ]
}

fn draft_ctx(mode: DraftMode) -> FieldDraftContext {
    FieldDraftContext {
        work_item_type: "User Story".into(),
        title: "Self-service portal access request".into(),
        field_label: "Acceptance Criteria".into(),
        current_value: String::new(),
        other_fields: vec![
            (
                "Description".into(),
                "A user can request access via the portal.".into(),
            ),
            ("System Info".into(), "   ".into()), // blank -> skipped
        ],
        background: "Portal = our internal developer portal (Backstage).".into(),
        mode,
        acceptance_criteria_gwt: true,
    }
}

#[test]
fn draft_prompt_includes_context_and_skips_blank_fields() {
    let p = build_field_draft_prompt(&draft_ctx(DraftMode::Draft));
    assert!(p.contains("TEAM BACKGROUND"));
    assert!(p.contains("Backstage")); // background flows in
    assert!(p.contains("Type: User Story"));
    assert!(p.contains("Title: Self-service portal access request"));
    assert!(p.contains("Description: A user can request access")); // sibling field
    assert!(!p.contains("System Info")); // blank sibling skipped
    assert!(p.contains("Draft the \"Acceptance Criteria\""));
}

#[test]
fn draft_prompt_improve_mode_carries_the_current_value() {
    let mut ctx = draft_ctx(DraftMode::Improve);
    ctx.current_value = "user can log in".into();
    let p = build_field_draft_prompt(&ctx);
    assert!(p.contains("Improve the \"Acceptance Criteria\""));
    assert!(p.contains("user can log in"));
    // Improve with an EMPTY current value falls back to draft-from-scratch.
    ctx.current_value = "  ".into();
    assert!(build_field_draft_prompt(&ctx).contains("Draft the \"Acceptance Criteria\""));
}

#[test]
fn draft_prompt_adds_gwt_only_for_acceptance_criteria_when_enabled() {
    // AC field + GWT on -> the Given-When-Then instruction is appended.
    let mut ctx = draft_ctx(DraftMode::Draft); // field_label = "Acceptance Criteria"
    assert!(build_field_draft_prompt(&ctx).contains("Given-When-Then"));
    // Opted out -> no GWT instruction.
    ctx.acceptance_criteria_gwt = false;
    assert!(!build_field_draft_prompt(&ctx).contains("Given-When-Then"));
    // A different field never gets the AC instruction, even with GWT on.
    ctx.acceptance_criteria_gwt = true;
    ctx.field_label = "Repro Steps".into();
    assert!(!build_field_draft_prompt(&ctx).contains("Given-When-Then"));
}

#[test]
fn is_acceptance_criteria_matches_common_spellings() {
    assert!(is_acceptance_criteria("Acceptance Criteria"));
    assert!(is_acceptance_criteria("  acceptance criteria  "));
    assert!(is_acceptance_criteria("AC"));
    assert!(!is_acceptance_criteria("Repro Steps"));
    assert!(!is_acceptance_criteria("Description"));
}

#[test]
fn consistency_prompt_adds_gwt_when_an_ac_field_is_present() {
    let mut ctx = consistency_ctx(); // Repro Steps + Expected behaviour (no AC)
    assert!(!build_fields_consistency_prompt(&ctx).contains("Given-When-Then"));
    ctx.fields.push(DraftFieldValue {
        reference: "Microsoft.VSTS.Common.AcceptanceCriteria".into(),
        label: "Acceptance Criteria".into(),
        value: "user can log in".into(),
    });
    assert!(build_fields_consistency_prompt(&ctx).contains("Given-When-Then"));
    ctx.acceptance_criteria_gwt = false;
    assert!(!build_fields_consistency_prompt(&ctx).contains("Given-When-Then"));
}

#[test]
fn draft_prompt_adds_short_title_instruction_for_title_field() {
    let mut ctx = draft_ctx(DraftMode::Draft);
    ctx.field_label = "Title".into();
    let p = build_field_draft_prompt(&ctx);
    assert!(p.contains("SINGLE line"));
    assert!(p.contains("do NOT add a second sentence"));
    // A non-title field never gets the short-title instruction.
    ctx.field_label = "Description".into();
    assert!(!build_field_draft_prompt(&ctx).contains("SINGLE line"));
}

#[test]
fn is_title_matches_common_labels() {
    assert!(is_title("Title"));
    assert!(is_title("  title  "));
    assert!(is_title("Summary"));
    assert!(!is_title("Description"));
    assert!(!is_title("Repro Steps"));
}

#[test]
fn draft_prompt_omits_background_block_when_empty() {
    let mut ctx = draft_ctx(DraftMode::Draft);
    ctx.background = "  ".into();
    assert!(!build_field_draft_prompt(&ctx).contains("TEAM BACKGROUND"));
}


fn audit_input(title: &str, state: &str, desc: Option<&str>) -> AuditInput {
    AuditInput {
        id: 7,
        title: title.into(),
        work_item_type: "Bug".into(),
        state: state.into(),
        description: desc.map(|d| d.into()),
    }
}

#[test]
fn build_audit_prompt_carries_identity_and_marks_empty_body() {
    let p = build_audit_prompt(&audit_input("Fix login", "Active", None), "");
    assert!(p.contains("- Type: Bug"));
    assert!(p.contains("- State: Active"));
    assert!(p.contains("- Title: Fix login"));
    assert!(p.contains("- Description: (empty)"));
    // Background block omitted when blank.
    assert!(!p.contains("TEAM BACKGROUND"));
}

#[test]
fn build_audit_prompt_includes_background_and_truncates_body() {
    let body = "Q".repeat(MAX_DESC_CHARS + 200);
    let p = build_audit_prompt(
        &audit_input("t", "Active", Some(&body)),
        "Widget = our billing service.",
    );
    assert!(p.contains("TEAM BACKGROUND"));
    assert!(p.contains("Widget = our billing service."));
    assert_eq!(p.matches('Q').count(), MAX_DESC_CHARS);
}

#[test]
fn parse_audit_keeps_known_kinds_dedupes_and_drops_blanks() {
    let raw = r#"Sure:
    ```json
    {"issues":[
      {"kind":"unclear","detail":"Title says 'fix it' without saying what."},
      {"kind":"UNCLEAR","detail":"Title says 'fix it' without saying what."},
      {"kind":"bad_data","detail":"  "},
      {"kind":"made_up","detail":"not a real kind"},
      {"kind":"bad_title","detail":"Placeholder title 'asdf'."}
    ]}
    ```"#;
    let issues = parse_audit_response(raw);
    // dedup drops the case-variant duplicate; blank detail + unknown kind dropped.
    assert_eq!(issues.len(), 2);
    assert_eq!(issues[0].kind, AuditKind::Unclear);
    assert_eq!(issues[1].kind, AuditKind::BadTitle);
}

#[test]
fn parse_audit_clean_or_garbage_yields_nothing() {
    assert!(parse_audit_response(r#"{"issues":[]}"#).is_empty());
    assert!(parse_audit_response("no json at all").is_empty());
    assert!(parse_audit_response("").is_empty());
}

#[test]
fn parse_audit_caps_a_runaway_model() {
    let items = (0..MAX_AUDIT_ISSUES + 5)
        .map(|i| format!(r#"{{"kind":"unclear","detail":"concern {i}"}}"#))
        .collect::<Vec<_>>()
        .join(",");
    let raw = format!("{{\"issues\":[{items}]}}");
    assert_eq!(parse_audit_response(&raw).len(), MAX_AUDIT_ISSUES);
}

#[test]
fn audit_kind_slug_round_trips() {
    for k in [AuditKind::Unclear, AuditKind::BadTitle, AuditKind::BadData] {
        assert_eq!(AuditKind::parse(k.as_str()), Some(k));
    }
    assert_eq!(AuditKind::parse("VAGUE"), Some(AuditKind::Unclear));
    assert_eq!(AuditKind::parse("nonsense-kind"), None);
}


fn consistency_ctx() -> FieldsConsistencyContext {
    FieldsConsistencyContext {
        work_item_type: "Bug".into(),
        title: "Cost widgets zero out".into(),
        background: "Widget = our billing service.".into(),
        fields: vec![
            DraftFieldValue {
                reference: "Microsoft.VSTS.TCM.ReproSteps".into(),
                label: "Repro Steps".into(),
                value: "Charts drop to zero.".into(),
            },
            DraftFieldValue {
                reference: "Custom.Expected".into(),
                label: "Expected behaviour".into(),
                value: String::new(),
            },
        ],
        acceptance_criteria_gwt: true,
    }
}

#[test]
fn build_consistency_prompt_lists_every_field_with_its_reference() {
    let p = build_fields_consistency_prompt(&consistency_ctx());
    assert!(p.contains("TEAM BACKGROUND"));
    assert!(p.contains("Type: Bug"));
    assert!(p.contains("reference: Microsoft.VSTS.TCM.ReproSteps"));
    assert!(p.contains("Charts drop to zero."));
    assert!(p.contains("reference: Custom.Expected"));
    assert!(p.contains("(empty)")); // the blank field is still listed
}

#[test]
fn parse_consistency_keeps_known_refs_dropping_unknown_and_empty() {
    let refs = vec![
        "Microsoft.VSTS.TCM.ReproSteps".to_string(),
        "Custom.Expected".to_string(),
    ];
    let raw = r#"```json
    {"fields":[
      {"reference":"microsoft.vsts.tcm.reprosteps","value":"1. Open widget\n2. Observe zero"},
      {"reference":"Custom.Expected","value":"   "},
      {"reference":"System.Bogus","value":"not requested"}
    ]}
    ```"#;
    let out = parse_fields_consistency(raw, &refs);
    // case-insensitive ref match returns canonical spelling; empty + unknown dropped.
    assert_eq!(out.len(), 1);
    assert_eq!(out[0].0, "Microsoft.VSTS.TCM.ReproSteps");
    assert!(out[0].1.contains("Open widget"));
}

#[test]
fn strip_code_fence_unwraps_a_whole_answer_fence() {
    assert_eq!(
        strip_code_fence("```markdown\n- one\n- two\n```"),
        "- one\n- two"
    );
    assert_eq!(strip_code_fence("```\nplain\n```"), "plain");
    // Inline/partial fences are left alone (only an OUTER wrap is stripped).
    assert_eq!(strip_code_fence("text `code` more"), "text `code` more");
}

fn integ(id: &str, kind: &str) -> LlmIntegration {
    LlmIntegration {
        id: id.into(),
        name: id.into(),
        kind: kind.into(),
        ..Default::default()
    }
}

#[test]
fn caps_suggestions_even_when_the_model_over_tags() {
    // The internal backstop only bites on a runaway model dumping far more than any
    // real per-item count; the real ceiling is applied downstream from config.
    let allowed: Vec<String> = (0..MAX_SUGGESTIONS + 5).map(|i| format!("t{i}")).collect();
    let tags = (0..MAX_SUGGESTIONS + 5)
        .map(|i| format!("\"t{i}\""))
        .collect::<Vec<_>>()
        .join(",");
    let raw = format!("{{\"tags\":[{tags}],\"rationale\":\"dumped everything\"}}");
    assert_eq!(parse_suggestions(&raw, &allowed).len(), MAX_SUGGESTIONS);
}

#[test]
fn default_max_suggestions_scales_with_required_and_has_a_floor() {
    assert_eq!(default_max_suggestions(3), 10); // 3 required axes + slack
    assert_eq!(default_max_suggestions(0), 7); // no-required team
}

#[test]
fn resolve_picks_first_platform_compatible_in_priority_order() {
    let mut gpu = integ("gpu", "offline");
    gpu.device = "gpu".into();
    gpu.offline_model = Some("qwen3-0.6b".into());
    let mut cloud = integ("cloud", "online");
    cloud.provider = Some("anthropic".into());
    cloud.api_key = Some("k".into()); // a cloud preset needs a key to be configured
    let cfg = LlmConfig {
        integrations: vec![gpu, cloud],
        ..Default::default()
    };

    // Embedded but no GPU: the gpu-offline entry is incompatible -> cloud wins.
    let cpu = PlatformCaps {
        embedded: true,
        gpu: false,
        webgpu: false,
        ..Default::default()
    };
    assert_eq!(cfg.active_id(&cpu), Some("cloud"));
    // GPU present: the higher-priority gpu-offline entry wins.
    let gpu_caps = PlatformCaps {
        embedded: true,
        gpu: true,
        webgpu: false,
        ..Default::default()
    };
    assert_eq!(cfg.active_id(&gpu_caps), Some("gpu"));
    // Browser client (no in-process embedded): only the online entry works.
    let browser = PlatformCaps {
        embedded: false,
        gpu: false,
        webgpu: false,
        ..Default::default()
    };
    assert_eq!(cfg.active_id(&browser), Some("cloud"));
}

#[test]
fn seeded_catalog_grays_gpu_and_webgpu_on_a_cpu_server_and_activates_local_cpu() {
    let cfg = LlmConfig::seeded();
    // A plain CPU server: embedded yes, no CUDA, no WebGPU.
    let caps = PlatformCaps {
        embedded: true,
        gpu: false,
        webgpu: false,
        ..Default::default()
    };
    let by = |id: &str| cfg.integrations.iter().find(|i| i.id == id).unwrap();
    assert!(
        !by("local-gpu").compatible(&caps),
        "GPU entry unusable without CUDA"
    );
    assert!(
        !by("webgpu").compatible(&caps),
        "WebGPU entry unusable server-side"
    );
    assert!(by("local-cpu").compatible(&caps) && by("local-cpu").configured());
    // Local-first: the CPU embedded entry wins over the cloud/ollama entries.
    assert_eq!(cfg.active_id(&caps), Some("local-cpu"));
    // Keyless cloud presets are templates, not active backends.
    assert!(!by("anthropic").configured() && !by("openai").configured());
    // The custom Ollama endpoint needs no key, so it is configured (just lower priority).
    assert!(by("ollama").configured());
}

#[test]
fn recommend_model_scales_with_capability() {
    let none = PlatformCaps::default();
    // WebGPU with no VRAM number -> balanced default (the load ladder tunes from there).
    assert_eq!(recommend_model("webgpu", "", &none), "qwen3-1.7b");
    // WebGPU sizes by ALLOCATABLE footprint from the catalog: the AUTO ceiling is 4B
    // (8B is hand-pick only, auto:false), so a big GPU lands on 4B - the quality/speed
    // sweet spot - and a weak GPU never pulls a model it can't fit.
    let big = PlatformCaps {
        vram_mb: Some(16000),
        ..Default::default()
    };
    assert_eq!(recommend_model("webgpu", "", &big), "qwen3-4b");
    let mid = PlatformCaps {
        vram_mb: Some(8000),
        ..Default::default()
    };
    assert_eq!(recommend_model("webgpu", "", &mid), "qwen3-4b");
    let small = PlatformCaps {
        vram_mb: Some(2000),
        ..Default::default()
    };
    assert_eq!(recommend_model("webgpu", "", &small), "qwen3-1.7b");
    let tiny = PlatformCaps {
        vram_mb: Some(1000),
        ..Default::default()
    };
    assert_eq!(recommend_model("webgpu", "", &tiny), "qwen3-0.6b");
    // CPU-only scales by cores.
    let many = PlatformCaps {
        cpu_cores: Some(16),
        ..Default::default()
    };
    let few = PlatformCaps {
        cpu_cores: Some(2),
        ..Default::default()
    };
    assert_eq!(recommend_model("offline", "cpu", &many), "qwen3-1.7b");
    assert_eq!(recommend_model("offline", "cpu", &few), "qwen3-0.6b");
}

#[test]
fn seeded_for_sizes_local_models_and_marks_auto() {
    // A beefy WebGPU box: the webgpu entry gets bumped to the 4B auto ceiling; ordering
    // unchanged.
    let caps = PlatformCaps {
        webgpu: true,
        vram_mb: Some(16000),
        cpu_cores: Some(16),
        ..Default::default()
    };
    let cfg = LlmConfig::seeded_for(&caps);
    assert!(cfg.auto, "auto-configured registries are flagged");
    let by = |id: &str| cfg.integrations.iter().find(|i| i.id == id).unwrap();
    assert_eq!(by("webgpu").offline_model.as_deref(), Some("qwen3-4b"));
    assert_eq!(by("local-cpu").offline_model.as_deref(), Some("qwen3-1.7b"));
    // Same integrations, same order as the plain catalog.
    let plain = LlmConfig::seeded();
    assert_eq!(
        cfg.integrations.iter().map(|i| &i.id).collect::<Vec<_>>(),
        plain.integrations.iter().map(|i| &i.id).collect::<Vec<_>>()
    );
}

#[test]
fn normalize_models_heals_dead_ids_and_leaves_valid_ones() {
    let mut dead = integ("webgpu", "webgpu");
    dead.offline_model = Some("qwen2.5-7b".into()); // not in the catalog
    let mut keep = integ("gpu", "offline");
    keep.device = "gpu".into();
    keep.offline_model = Some("qwen3-4b".into()); // still valid - the user's real pick
    let cloud = integ("anthropic", "online");
    let mut cfg = LlmConfig {
        integrations: vec![dead, keep, cloud],
        auto: false,
    };
    let caps = PlatformCaps::server(false, Some(4));
    assert!(cfg.normalize_models(&caps), "a dead id is a change");
    let by = |id: &str| cfg.integrations.iter().find(|i| i.id == id).unwrap();
    // The dead id became a real catalog id...
    assert!(offline_model(by("webgpu").offline_model.as_deref().unwrap()).is_some());
    // ...the valid id was left exactly as the user chose it...
    assert_eq!(by("gpu").offline_model.as_deref(), Some("qwen3-4b"));
    // ...and a second pass is a no-op (healed once, stays healed).
    assert!(!cfg.normalize_models(&caps));
}

#[test]
fn webgpu_is_only_compatible_on_a_webgpu_platform() {
    let mut wg = integ("wg", "webgpu");
    wg.model = Some("qwen3-0.6b-q4f16".into());
    assert!(!wg.compatible(&PlatformCaps {
        embedded: true,
        gpu: true,
        webgpu: false,
        ..Default::default()
    }));
    assert!(wg.compatible(&PlatformCaps {
        embedded: false,
        gpu: false,
        webgpu: true,
        ..Default::default()
    }));
    // The server can't build a webgpu tagger (the browser runs it).
    assert!(wg.build().is_none());
}

#[test]
fn keeps_only_allowed_tags_and_drops_hallucinations() {
    let raw = r#"{"tags": ["type:bug", "totally-made-up"], "rationale": "crash report"}"#;
    let s = parse_suggestions(raw, &allowed());
    assert_eq!(s.len(), 1);
    assert_eq!(s[0].tag, "type:bug");
    assert_eq!(s[0].reasons, vec!["crash report".to_string()]);
}

#[test]
fn matches_case_insensitively_but_returns_canonical_spelling() {
    let raw = r#"{"tags": ["TYPE:Bug", "Priority:HIGH"]}"#;
    let s: Vec<_> = parse_suggestions(raw, &allowed())
        .into_iter()
        .map(|x| x.tag)
        .collect();
    assert_eq!(s, vec!["type:bug".to_string(), "priority:high".to_string()]);
}

#[test]
fn extracts_json_from_prose_and_code_fences() {
    let raw = "Sure! Here you go:\n```json\n{\"tags\": [\"type:task\"]}\n```\nHope that helps.";
    let s = parse_suggestions(raw, &allowed());
    assert_eq!(s.len(), 1);
    assert_eq!(s[0].tag, "type:task");
}

#[test]
fn de_duplicates_repeated_suggestions() {
    let raw = r#"{"tags": ["type:bug", "type:bug", "TYPE:BUG"]}"#;
    assert_eq!(parse_suggestions(raw, &allowed()).len(), 1);
}

#[test]
fn garbage_or_empty_yields_nothing() {
    assert!(parse_suggestions("no json here", &allowed()).is_empty());
    assert!(parse_suggestions("", &allowed()).is_empty());
    assert!(parse_suggestions(r#"{"tags": []}"#, &allowed()).is_empty());
}

#[test]
fn falls_back_to_generic_reason_when_rationale_absent() {
    let s = parse_suggestions(r#"{"tags": ["type:task"]}"#, &allowed());
    assert_eq!(s[0].reasons, vec!["AI suggestion".to_string()]);
}

#[test]
fn config_off_by_default_and_online_builds_from_preset_or_custom() {
    assert!(!AiConfig::default().enabled() && AiConfig::default().build().is_none());
    // Online custom: needs endpoint + model.
    let custom = AiConfig {
        mode: "online".into(),
        provider: Some("custom".into()),
        endpoint: Some("http://x/v1/chat/completions".into()),
        model: Some("m".into()),
        ..Default::default()
    };
    assert!(custom.enabled() && custom.build().is_some());
    // Online preset: endpoint comes from the preset, model defaults.
    let preset = AiConfig {
        mode: "online".into(),
        provider: Some("anthropic".into()),
        api_key: Some("k".into()),
        ..Default::default()
    };
    assert!(preset.enabled() && preset.build().is_some());
    // Unknown provider / bare offline (no embedded engine yet) -> off.
    assert!(!AiConfig {
        mode: "online".into(),
        provider: Some("nope".into()),
        ..Default::default()
    }
    .enabled());
}


#[test]
fn none_apply_reply_yields_no_suggestions() {
    // The system prompt tells the model to answer this exact shape when no tag
    // fits - it must parse to an empty suggestion list (the rationale is dropped
    // with the tags).
    let raw = r#"{"tags":[],"rationale":"none apply"}"#;
    assert!(parse_suggestions(raw, &allowed()).is_empty());
}

#[test]
fn whitespace_around_tags_is_trimmed_before_matching() {
    // A model that pads tags with spaces still matches the allowed set.
    let raw = r#"{"tags":["  type:bug  ","\ttype:task\n"]}"#;
    let s: Vec<_> = parse_suggestions(raw, &allowed())
        .into_iter()
        .map(|x| x.tag)
        .collect();
    assert_eq!(s, vec!["type:bug".to_string(), "type:task".to_string()]);
}


fn work_item(title: &str, ty: &str, tags: &[&str], desc: Option<&str>) -> WorkItem {
    WorkItem {
        id: 42,
        provider: "stub".into(),
        team: "Platform".into(),
        title: title.into(),
        work_item_type: ty.into(),
        state: "Active".into(),
        tags: tags.iter().map(|t| t.to_string()).collect(),
        assigned_to: None,
        created_at: Timestamp::new(0, 0),
        changed_at: Timestamp::new(0, 0),
        closed_at: None,
        iteration_path: None,
        story_points: None,
        description: desc.map(|d| d.to_string()),
        url: "https://x/42".into(),
        linked_pr_ids: Vec::new(),
        parent_id: None,
        linked_repos: Vec::new(),
        linked_prs: Vec::new(),
        tag_suggestions: Vec::new(),
    }
}

#[test]
fn tagger_input_from_work_item_maps_the_minimal_fields() {
    let wi = work_item("Fix the poller", "Bug", &["type:bug"], Some("a body"));
    let input = TaggerInput::from(&wi);
    assert_eq!(input.id, 42);
    assert_eq!(input.title, "Fix the poller");
    assert_eq!(input.work_item_type, "Bug");
    assert_eq!(input.current_tags, vec!["type:bug".to_string()]);
    assert_eq!(input.description.as_deref(), Some("a body"));
}

#[test]
fn tagger_input_carries_absent_description_through() {
    let input = TaggerInput::from(&work_item("t", "Task", &[], None));
    assert!(input.description.is_none());
    assert!(input.current_tags.is_empty());
}


#[test]
fn build_prompt_includes_title_type_and_allowed_set() {
    let input = TaggerInput::from(&work_item(
        "Wire up ingress",
        "User Story",
        &["team:platform"],
        None,
    ));
    let prompt = build_prompt(&input, &allowed(), &[], &Default::default(), "");
    assert!(prompt.contains("- Title: Wire up ingress"));
    assert!(prompt.contains("- Type: User Story"));
    assert!(prompt.contains("- Current tags: team:platform"));
    // Allowed tags are rendered one-per-line, bulleted.
    assert!(prompt.contains("- type:bug"));
    assert!(prompt.contains("- priority:high"));
}

#[test]
fn build_prompt_uses_none_placeholder_for_untagged() {
    let input = TaggerInput::from(&work_item("t", "Task", &[], None));
    assert!(
        build_prompt(&input, &allowed(), &[], &Default::default(), "")
            .contains("- Current tags: (none)")
    );
}

#[test]
fn build_prompt_omits_description_when_absent_or_blank() {
    let none = TaggerInput::from(&work_item("t", "Task", &[], None));
    assert!(
        !build_prompt(&none, &allowed(), &[], &Default::default(), "").contains("Description:")
    );
    // A whitespace-only body is treated as absent (trimmed, then filtered out).
    let blank = TaggerInput::from(&work_item("t", "Task", &[], Some("   \n\t ")));
    assert!(
        !build_prompt(&blank, &allowed(), &[], &Default::default(), "")
            .contains("Description:")
    );
}

#[test]
fn build_prompt_includes_description_when_present() {
    let input = TaggerInput::from(&work_item("t", "Task", &[], Some("crashes on retry")));
    assert!(
        build_prompt(&input, &allowed(), &[], &Default::default(), "")
            .contains("- Description: crashes on retry")
    );
}

#[test]
fn build_prompt_truncates_a_long_description_to_the_cap() {
    // A body over the cap is cut to MAX_DESC_CHARS chars. Use a marker char the
    // title/type/tags never contain so the count is unambiguous.
    let body = "Z".repeat(MAX_DESC_CHARS + 500);
    let input = TaggerInput::from(&work_item("t", "Task", &[], Some(&body)));
    let prompt = build_prompt(&input, &allowed(), &[], &Default::default(), "");
    assert_eq!(prompt.matches('Z').count(), MAX_DESC_CHARS);
}

#[test]
fn build_prompt_groups_unsatisfied_required_slots_with_their_options() {
    // area:* is already satisfied by a current tag -> not asked again.
    // source:* is unsatisfied -> a REQUIRED category listing only source values.
    let input = TaggerInput::from(&work_item(
        "Provision staging environment",
        "Feature",
        &["area:kube"],
        None,
    ));
    let allowed = vec![
        "area:kube".to_string(),
        "area:auth".to_string(),
        "source:support".to_string(),
        "source:incident".to_string(),
        "enhancement".to_string(),
    ];
    let required = vec!["area:*".to_string(), "source:*".to_string()];
    let prompt = build_prompt(&input, &allowed, &required, &Default::default(), "");

    assert!(
        prompt.contains("REQUIRED categories"),
        "has a required block"
    );
    assert!(prompt.contains("- source: (choose one): source:support, source:incident"));
    // area:* is satisfied, so it must NOT appear as a required category to fill.
    assert!(!prompt.contains("- area: (choose one)"));
    // The source values are claimed by the required block, so they are not
    // repeated in the optional list; the ungoverned tag still is.
    let optional = prompt.split("OPTIONAL tags").nth(1).unwrap_or("");
    assert!(optional.contains("- enhancement"));
    assert!(!optional.contains("source:support"));
}

#[test]
fn build_prompt_annotates_candidates_with_their_keyword_hints() {
    let input = TaggerInput::from(&work_item(
        "Regional infrastructure rollout",
        "Epic",
        &[],
        None,
    ));
    let allowed = vec![
        "area:platform-deployment".to_string(),
        "area:kubernetes".to_string(),
    ];
    let required = vec!["area:*".to_string()];
    let mut hints = TagHints::new();
    hints.insert(
        "area:platform-deployment".into(),
        vec!["platform deployment".into(), "platformdeployment".into()],
    );
    let prompt = build_prompt(&input, &allowed, &required, &hints, "");
    // The hinted tag shows its keywords; the un-hinted one is bare.
    assert!(prompt
        .contains("area:platform-deployment (e.g. platform deployment, platformdeployment)"));
    assert!(prompt.contains("area:kubernetes"));
    assert!(!prompt.contains("area:kubernetes (e.g."));
}

#[test]
fn build_prompt_caps_keyword_hints_per_tag() {
    let input = TaggerInput::from(&work_item("t", "Task", &[], None));
    let allowed = vec!["area:kubernetes".to_string()];
    let many: Vec<String> = (0..20).map(|i| format!("kw{i}")).collect();
    let mut hints = TagHints::new();
    hints.insert("area:kubernetes".into(), many);
    let prompt = build_prompt(&input, &allowed, &["area:*".to_string()], &hints, "");
    // Only MAX_HINTS_PER_TAG examples are shown.
    assert_eq!(prompt.matches("kw").count(), MAX_HINTS_PER_TAG);
}

#[test]
fn build_prompt_without_required_matches_the_plain_allowed_layout() {
    // No required patterns -> the old "ALLOWED tags:" layout, no required block.
    let input = TaggerInput::from(&work_item("t", "Task", &[], None));
    let prompt = build_prompt(&input, &allowed(), &[], &Default::default(), "");
    assert!(prompt.contains("ALLOWED tags:"));
    assert!(!prompt.contains("REQUIRED categories"));
}

#[test]
fn one_connection_makes_a_registry_of_one() {
    let mut cfg = AiConfig::default();
    assert!(LlmConfig::from_single(cfg.clone()).integrations.is_empty());
    cfg.mode = "offline".into();
    cfg.offline_model = Some("m".into());
    let made = LlmConfig::from_single(cfg);
    assert_eq!(made.integrations.len(), 1);
    assert_eq!(made.integrations[0].id, "default");
    assert_eq!(made.integrations[0].name, "Default");
    assert_eq!(made.integrations[0].kind, "offline");
    assert_eq!(made.integrations[0].device, "cpu");
    assert_eq!(made.integrations[0].offline_model.as_deref(), Some("m"));
    assert!(!made.auto);
}

#[test]
fn a_browser_speaks_for_itself_and_the_server_for_its_process() {
    let mut browser = PlatformCaps::server(true, None);
    browser.embedded = false;
    browser.webgpu = true;
    browser.vram_mb = Some(4096);
    let both = PlatformCaps::server(false, Some(8)).merged_with_browser(&browser);
    assert!(both.embedded && !both.gpu && both.webgpu);
    assert_eq!(both.vram_mb, Some(4096));
    assert_eq!(both.ram_mb, None);
    assert_eq!(both.cpu_cores, Some(8));
}

#[test]
fn the_first_object_of_an_answer_counts() {
    assert_eq!(extract_json("a {\"x\":1} b {\"y\":2} c"), "{\"x\":1}");
    assert_eq!(extract_json("{\"x\":{\"y\":\"}\\\"}\"}} {"), "{\"x\":{\"y\":\"}\\\"}\"}}");
    assert_eq!(extract_json(" no object } { "), "no object } {");
    let s = parse_suggestions(
        "first {\"tags\": [\"type:bug\"]} then {\"tags\": [\"type:task\"]}",
        &allowed(),
    );
    assert_eq!(s.len(), 1);
    assert_eq!(s[0].tag, "type:bug");
}

#[test]
fn a_repeated_field_spoils_the_answer() {
    let twice = r#"{"tags": ["type:bug"], "tags": ["type:task"]}"#;
    assert!(parse_suggestions(twice, &allowed()).is_empty());
    let escaped = r#"{"tags": ["type:bug"], "\u0074ags": ["type:task"]}"#;
    assert!(parse_suggestions(escaped, &allowed()).is_empty());
    let rationale = r#"{"tags": ["type:bug"], "rationale": "a", "rationale": "b"}"#;
    assert!(parse_suggestions(rationale, &allowed()).is_empty());

    let issues = r#"{"issues": [{"kind": "unclear", "detail": "a", "detail": "b"}]}"#;
    assert!(parse_audit_response(issues).is_empty());
    let once = r#"{"issues": [{"kind": "unclear", "detail": "a"}]}"#;
    assert_eq!(parse_audit_response(once).len(), 1);

    let refs: Vec<String> = vec!["System.Title".into()];
    let fields = r#"{"fields": [{"reference": "System.Title", "value": "a", "value": "b"}]}"#;
    assert!(parse_fields_consistency(fields, &refs).is_empty());
    let single = r#"{"fields": [{"reference": "System.Title", "value": "a"}]}"#;
    assert_eq!(parse_fields_consistency(single, &refs).len(), 1);
}

#[test]
fn what_an_answer_says_beside_its_fields_is_skipped() {
    let unknown_twice = r#"{"note": 1, "tags": ["type:bug"], "note": 2}"#;
    assert_eq!(parse_suggestions(unknown_twice, &allowed()).len(), 1);
    let inside = r#"{"note": {"tags": 1, "tags": 2}, "tags": ["type:bug"]}"#;
    assert_eq!(parse_suggestions(inside, &allowed()).len(), 1);
    let in_a_string = r#"{"note": "\"tags\": {", "tags": ["type:bug"]}"#;
    assert_eq!(parse_suggestions(in_a_string, &allowed()).len(), 1);
    let out_of_range = r#"{"score": 1e999, "tags": ["type:bug"]}"#;
    assert_eq!(parse_suggestions(out_of_range, &allowed()).len(), 1);
    let deep = format!(
        "{{\"note\": {}{}, \"tags\": [\"type:bug\"]}}",
        "[".repeat(300),
        "]".repeat(300)
    );
    assert_eq!(parse_suggestions(&deep, &allowed()).len(), 1);
}

#[test]
fn a_record_is_read_by_name_or_by_place() {
    let named = read_record(r#"{"rationale": "why", "tags": ["a", "b"]}"#);
    let reply = read_reply(&named);
    assert_eq!(reply.tags, vec!["a".to_string(), "b".to_string()]);
    assert_eq!(reply.rationale.as_deref(), Some("why"));

    let listed = read_reply(&read_record(r#"[["a"], "why"]"#));
    assert_eq!(listed.tags, vec!["a".to_string()]);
    assert_eq!(listed.rationale.as_deref(), Some("why"));

    assert!(read_reply(&read_record(r#"[["a"], "why", 1]"#)).tags.is_empty());
    assert!(read_record("3").is_none());
    assert!(read_record(r#"{"tags": []} x"#).is_none());
}
