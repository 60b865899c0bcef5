use poseidon::ai::prompts::{self, TagHints, TaggerInput, MAX_DESC_CHARS, MAX_HINTS_PER_TAG};
use poseidon::ai::registry::{
    recommend_model_in, AiConfig, Family, LlmConfig, LlmIntegration, PlatformCaps,
};
use poseidon::ai::replies::{parse_suggestions_up_to, MAX_SUGGESTIONS_SMALL};
use poseidon::flag::TagSuggestion;
use poseidon::time::Timestamp;
use poseidon::work_item::WorkItem;

fn recommend_model(kind: &str, device: &str, caps: &PlatformCaps) -> &'static str {
    recommend_model_in(Family::Qwen25, kind, device, caps)
}

fn build_prompt(
    input: &TaggerInput,
    allowed: &[String],
    required: &[String],
    hints: &TagHints,
) -> String {
    prompts::build_prompt(input, allowed, required, hints, "")
}

fn parse_suggestions(content: &str, allowed: &[String]) -> Vec<TagSuggestion> {
    parse_suggestions_up_to(content, allowed, MAX_SUGGESTIONS_SMALL)
}

fn allowed() -> Vec<String> {
    vec![
        "type:bug".into(),
        "type:task".into(),
        "priority:high".into(),
    ]
}

fn integ(id: &str, kind: &str) -> LlmIntegration {
    LlmIntegration {
        id: id.into(),
        name: id.into(),
        kind: kind.into(),
        ..Default::default()
    }
}

#[test]
fn lib_caps_suggestions_even_when_the_model_over_tags() {
    let allowed: Vec<String> = (0..6).map(|i| format!("t{i}")).collect();
    let raw = r#"{"tags":["t0","t1","t2","t3","t4","t5"],"rationale":"dumped everything"}"#;
    assert_eq!(parse_suggestions(raw, &allowed).len(), MAX_SUGGESTIONS_SMALL);
}

#[test]
fn lib_resolve_picks_first_platform_compatible_in_priority_order() {
    let mut gpu = integ("gpu", "offline");
    gpu.device = "gpu".into();
    gpu.offline_model = Some("qwen2.5-0.5b".into());
    let mut cloud = integ("cloud", "online");
    cloud.provider = Some("anthropic".into());
    cloud.api_key = Some("k".into()); // a cloud preset needs a key to be configured
    let cfg = LlmConfig {
        integrations: vec![gpu, cloud],
        ..Default::default()
    };

    // Embedded but no GPU: the gpu-offline entry is incompatible -> cloud wins.
    let cpu = PlatformCaps {
        embedded: true,
        gpu: false,
        webgpu: false,
        ..Default::default()
    };
    assert_eq!(cfg.active_id_in(Family::Qwen25, &cpu), Some("cloud"));
    // GPU present: the higher-priority gpu-offline entry wins.
    let gpu_caps = PlatformCaps {
        embedded: true,
        gpu: true,
        webgpu: false,
        ..Default::default()
    };
    assert_eq!(cfg.active_id_in(Family::Qwen25, &gpu_caps), Some("gpu"));
    // Browser client (no in-process embedded): only the online entry works.
    let browser = PlatformCaps {
        embedded: false,
        gpu: false,
        webgpu: false,
        ..Default::default()
    };
    assert_eq!(cfg.active_id_in(Family::Qwen25, &browser), Some("cloud"));
}

#[test]
fn lib_seeded_catalog_grays_gpu_and_webgpu_on_a_cpu_server_and_activates_local_cpu() {
    let cfg = LlmConfig::seeded_in(Family::Qwen25);
    // A plain CPU server: embedded yes, no CUDA, no WebGPU.
    let caps = PlatformCaps {
        embedded: true,
        gpu: false,
        webgpu: false,
        ..Default::default()
    };
    let by = |id: &str| cfg.integrations.iter().find(|i| i.id == id).unwrap();
    assert!(
        !by("local-gpu").compatible(&caps),
        "GPU entry unusable without CUDA"
    );
    assert!(
        !by("webgpu").compatible(&caps),
        "WebGPU entry unusable server-side"
    );
    assert!(by("local-cpu").compatible(&caps) && by("local-cpu").configured_in(Family::Qwen25));
    // Local-first: the CPU embedded entry wins over the cloud/ollama entries.
    assert_eq!(cfg.active_id_in(Family::Qwen25, &caps), Some("local-cpu"));
    // Keyless cloud presets are templates, not active backends.
    assert!(!by("anthropic").configured_in(Family::Qwen25) && !by("openai").configured_in(Family::Qwen25));
    // The custom Ollama endpoint needs no key, so it is configured (just lower priority).
    assert!(by("ollama").configured_in(Family::Qwen25));
}

#[test]
fn lib_recommend_model_scales_with_capability() {
    let none = PlatformCaps::default();
    // WebGPU with no VRAM number -> safe strong default (benchmark tunes higher).
    assert_eq!(recommend_model("webgpu", "", &none), "qwen2.5-3b");
    // WebGPU with a real big VRAM number -> the top tier.
    let big = PlatformCaps {
        vram_mb: Some(16000),
        ..Default::default()
    };
    assert_eq!(recommend_model("webgpu", "", &big), "qwen2.5-7b");
    // CPU-only scales by cores.
    let many = PlatformCaps {
        cpu_cores: Some(16),
        ..Default::default()
    };
    let few = PlatformCaps {
        cpu_cores: Some(2),
        ..Default::default()
    };
    assert_eq!(recommend_model("offline", "cpu", &many), "qwen2.5-1.5b");
    assert_eq!(recommend_model("offline", "cpu", &few), "qwen2.5-0.5b");
}

#[test]
fn lib_seeded_for_sizes_local_models_and_marks_auto() {
    // A beefy WebGPU box: the webgpu entry gets bumped to 7B; ordering unchanged.
    let caps = PlatformCaps {
        webgpu: true,
        vram_mb: Some(16000),
        cpu_cores: Some(16),
        ..Default::default()
    };
    let cfg = LlmConfig::seeded_for_in(Family::Qwen25, &caps);
    assert!(cfg.auto, "auto-configured registries are flagged");
    let by = |id: &str| cfg.integrations.iter().find(|i| i.id == id).unwrap();
    assert_eq!(by("webgpu").offline_model.as_deref(), Some("qwen2.5-7b"));
    assert_eq!(
        by("local-cpu").offline_model.as_deref(),
        Some("qwen2.5-1.5b")
    );
    // Same integrations, same order as the plain catalog.
    let plain = LlmConfig::seeded_in(Family::Qwen25);
    assert_eq!(
        cfg.integrations.iter().map(|i| &i.id).collect::<Vec<_>>(),
        plain.integrations.iter().map(|i| &i.id).collect::<Vec<_>>()
    );
}

#[test]
fn lib_webgpu_is_only_compatible_on_a_webgpu_platform() {
    let mut wg = integ("wg", "webgpu");
    wg.model = Some("qwen2.5-0.5b-q4f16".into());
    assert!(!wg.compatible(&PlatformCaps {
        embedded: true,
        gpu: true,
        webgpu: false,
        ..Default::default()
    }));
    assert!(wg.compatible(&PlatformCaps {
        embedded: false,
        gpu: false,
        webgpu: true,
        ..Default::default()
    }));
    // The server can't build a webgpu tagger (the browser runs it).
    assert!(wg.build_in(Family::Qwen25).is_none());
}

#[test]
fn lib_keeps_only_allowed_tags_and_drops_hallucinations() {
    let raw = r#"{"tags": ["type:bug", "totally-made-up"], "rationale": "crash report"}"#;
    let s = parse_suggestions(raw, &allowed());
    assert_eq!(s.len(), 1);
    assert_eq!(s[0].tag, "type:bug");
    assert_eq!(s[0].reasons, vec!["crash report".to_string()]);
}

#[test]
fn lib_matches_case_insensitively_but_returns_canonical_spelling() {
    let raw = r#"{"tags": ["TYPE:Bug", "Priority:HIGH"]}"#;
    let s: Vec<_> = parse_suggestions(raw, &allowed())
        .into_iter()
        .map(|x| x.tag)
        .collect();
    assert_eq!(s, vec!["type:bug".to_string(), "priority:high".to_string()]);
}

#[test]
fn lib_extracts_json_from_prose_and_code_fences() {
    let raw = "Sure! Here you go:\n```json\n{\"tags\": [\"type:task\"]}\n```\nHope that helps.";
    let s = parse_suggestions(raw, &allowed());
    assert_eq!(s.len(), 1);
    assert_eq!(s[0].tag, "type:task");
}

#[test]
fn lib_de_duplicates_repeated_suggestions() {
    let raw = r#"{"tags": ["type:bug", "type:bug", "TYPE:BUG"]}"#;
    assert_eq!(parse_suggestions(raw, &allowed()).len(), 1);
}

#[test]
fn lib_garbage_or_empty_yields_nothing() {
    assert!(parse_suggestions("no json here", &allowed()).is_empty());
    assert!(parse_suggestions("", &allowed()).is_empty());
    assert!(parse_suggestions(r#"{"tags": []}"#, &allowed()).is_empty());
}

#[test]
fn lib_falls_back_to_generic_reason_when_rationale_absent() {
    let s = parse_suggestions(r#"{"tags": ["type:task"]}"#, &allowed());
    assert_eq!(s[0].reasons, vec!["AI suggestion".to_string()]);
}

#[test]
fn lib_config_off_by_default_and_online_builds_from_preset_or_custom() {
    assert!(!AiConfig::default().enabled_in(Family::Qwen25) && AiConfig::default().build_in(Family::Qwen25).is_none());
    // Online custom: needs endpoint + model.
    let custom = AiConfig {
        mode: "online".into(),
        provider: Some("custom".into()),
        endpoint: Some("http://x/v1/chat/completions".into()),
        model: Some("m".into()),
        ..Default::default()
    };
    assert!(custom.enabled_in(Family::Qwen25) && custom.build_in(Family::Qwen25).is_some());
    // Online preset: endpoint comes from the preset, model defaults.
    let preset = AiConfig {
        mode: "online".into(),
        provider: Some("anthropic".into()),
        api_key: Some("k".into()),
        ..Default::default()
    };
    assert!(preset.enabled_in(Family::Qwen25) && preset.build_in(Family::Qwen25).is_some());
    // Unknown provider / bare offline (no embedded engine yet) -> off.
    assert!(!AiConfig {
        mode: "online".into(),
        provider: Some("nope".into()),
        ..Default::default()
    }
    .enabled_in(Family::Qwen25));
}


#[test]
fn lib_none_apply_reply_yields_no_suggestions() {
    // The system prompt tells the model to answer this exact shape when no tag
    // fits - it must parse to an empty suggestion list (the rationale is dropped
    // with the tags).
    let raw = r#"{"tags":[],"rationale":"none apply"}"#;
    assert!(parse_suggestions(raw, &allowed()).is_empty());
}

#[test]
fn lib_whitespace_around_tags_is_trimmed_before_matching() {
    // A model that pads tags with spaces still matches the allowed set.
    let raw = r#"{"tags":["  type:bug  ","\ttype:task\n"]}"#;
    let s: Vec<_> = parse_suggestions(raw, &allowed())
        .into_iter()
        .map(|x| x.tag)
        .collect();
    assert_eq!(s, vec!["type:bug".to_string(), "type:task".to_string()]);
}


fn work_item(title: &str, ty: &str, tags: &[&str], desc: Option<&str>) -> WorkItem {
    WorkItem {
        id: 42,
        provider: "stub".into(),
        team: "Platform".into(),
        title: title.into(),
        work_item_type: ty.into(),
        state: "Active".into(),
        tags: tags.iter().map(|t| t.to_string()).collect(),
        assigned_to: None,
        created_at: Timestamp::new(0, 0),
        changed_at: Timestamp::new(0, 0),
        closed_at: None,
        iteration_path: None,
        story_points: None,
        description: desc.map(|d| d.to_string()),
        url: "https://x/42".into(),
        linked_pr_ids: Vec::new(),
        parent_id: None,
        linked_repos: Vec::new(),
        linked_prs: Vec::new(),
        tag_suggestions: Vec::new(),
    }
}

#[test]
fn lib_tagger_input_from_work_item_maps_the_minimal_fields() {
    let wi = work_item("Fix the poller", "Bug", &["type:bug"], Some("a body"));
    let input = TaggerInput::from(&wi);
    assert_eq!(input.id, 42);
    assert_eq!(input.title, "Fix the poller");
    assert_eq!(input.work_item_type, "Bug");
    assert_eq!(input.current_tags, vec!["type:bug".to_string()]);
    assert_eq!(input.description.as_deref(), Some("a body"));
}

#[test]
fn lib_tagger_input_carries_absent_description_through() {
    let input = TaggerInput::from(&work_item("t", "Task", &[], None));
    assert!(input.description.is_none());
    assert!(input.current_tags.is_empty());
}


#[test]
fn lib_build_prompt_includes_title_type_and_allowed_set() {
    let input = TaggerInput::from(&work_item(
        "Wire up ingress",
        "User Story",
        &["team:platform"],
        None,
    ));
    let prompt = build_prompt(&input, &allowed(), &[], &Default::default());
    assert!(prompt.contains("- Title: Wire up ingress"));
    assert!(prompt.contains("- Type: User Story"));
    assert!(prompt.contains("- Current tags: team:platform"));
    // Allowed tags are rendered one-per-line, bulleted.
    assert!(prompt.contains("- type:bug"));
    assert!(prompt.contains("- priority:high"));
}

#[test]
fn lib_build_prompt_uses_none_placeholder_for_untagged() {
    let input = TaggerInput::from(&work_item("t", "Task", &[], None));
    assert!(build_prompt(&input, &allowed(), &[], &Default::default())
        .contains("- Current tags: (none)"));
}

#[test]
fn lib_build_prompt_omits_description_when_absent_or_blank() {
    let none = TaggerInput::from(&work_item("t", "Task", &[], None));
    assert!(!build_prompt(&none, &allowed(), &[], &Default::default()).contains("Description:"));
    // A whitespace-only body is treated as absent (trimmed, then filtered out).
    let blank = TaggerInput::from(&work_item("t", "Task", &[], Some("   \n\t ")));
    assert!(
        !build_prompt(&blank, &allowed(), &[], &Default::default()).contains("Description:")
    );
}

#[test]
fn lib_build_prompt_includes_description_when_present() {
    let input = TaggerInput::from(&work_item("t", "Task", &[], Some("crashes on retry")));
    assert!(build_prompt(&input, &allowed(), &[], &Default::default())
        .contains("- Description: crashes on retry"));
}

#[test]
fn lib_build_prompt_truncates_a_long_description_to_the_cap() {
    // A body over the cap is cut to MAX_DESC_CHARS chars. Use a marker char the
    // title/type/tags never contain so the count is unambiguous.
    let body = "Z".repeat(MAX_DESC_CHARS + 500);
    let input = TaggerInput::from(&work_item("t", "Task", &[], Some(&body)));
    let prompt = build_prompt(&input, &allowed(), &[], &Default::default());
    assert_eq!(prompt.matches('Z').count(), MAX_DESC_CHARS);
}

#[test]
fn lib_build_prompt_groups_unsatisfied_required_slots_with_their_options() {
    // area:* is already satisfied by a current tag -> not asked again.
    // source:* is unsatisfied -> a REQUIRED category listing only source values.
    let input = TaggerInput::from(&work_item(
        "Provision staging environment",
        "Feature",
        &["area:kube"],
        None,
    ));
    let allowed = vec![
        "area:kube".to_string(),
        "area:auth".to_string(),
        "source:support".to_string(),
        "source:incident".to_string(),
        "enhancement".to_string(),
    ];
    let required = vec!["area:*".to_string(), "source:*".to_string()];
    let prompt = build_prompt(&input, &allowed, &required, &Default::default());

    assert!(
        prompt.contains("REQUIRED categories"),
        "has a required block"
    );
    assert!(prompt.contains("- source: (choose one): source:support, source:incident"));
    // area:* is satisfied, so it must NOT appear as a required category to fill.
    assert!(!prompt.contains("- area: (choose one)"));
    // The source values are claimed by the required block, so they are not
    // repeated in the optional list; the ungoverned tag still is.
    let optional = prompt.split("OPTIONAL tags").nth(1).unwrap_or("");
    assert!(optional.contains("- enhancement"));
    assert!(!optional.contains("source:support"));
}

#[test]
fn lib_build_prompt_annotates_candidates_with_their_keyword_hints() {
    let input = TaggerInput::from(&work_item(
        "Regional infrastructure rollout",
        "Epic",
        &[],
        None,
    ));
    let allowed = vec![
        "area:platform-deployment".to_string(),
        "area:kubernetes".to_string(),
    ];
    let required = vec!["area:*".to_string()];
    let mut hints = TagHints::new();
    hints.insert(
        "area:platform-deployment".into(),
        vec!["platform deployment".into(), "platformdeployment".into()],
    );
    let prompt = build_prompt(&input, &allowed, &required, &hints);
    // The hinted tag shows its keywords; the un-hinted one is bare.
    assert!(prompt
        .contains("area:platform-deployment (e.g. platform deployment, platformdeployment)"));
    assert!(prompt.contains("area:kubernetes"));
    assert!(!prompt.contains("area:kubernetes (e.g."));
}

#[test]
fn lib_build_prompt_caps_keyword_hints_per_tag() {
    let input = TaggerInput::from(&work_item("t", "Task", &[], None));
    let allowed = vec!["area:kubernetes".to_string()];
    let many: Vec<String> = (0..20).map(|i| format!("kw{i}")).collect();
    let mut hints = TagHints::new();
    hints.insert("area:kubernetes".into(), many);
    let prompt = build_prompt(&input, &allowed, &["area:*".to_string()], &hints);
    // Only MAX_HINTS_PER_TAG examples are shown.
    assert_eq!(prompt.matches("kw").count(), MAX_HINTS_PER_TAG);
}

#[test]
fn lib_build_prompt_without_required_matches_the_plain_allowed_layout() {
    // No required patterns -> the old "ALLOWED tags:" layout, no required block.
    let input = TaggerInput::from(&work_item("t", "Task", &[], None));
    let prompt = build_prompt(&input, &allowed(), &[], &Default::default());
    assert!(prompt.contains("ALLOWED tags:"));
    assert!(!prompt.contains("REQUIRED categories"));
}
