use poseidon::config::{AzureDevOpsAuth, ProviderKind, TeamConfig};
use poseidon::editable_field::FieldKind;
use poseidon::json::{read_json, Json};
use poseidon::pipeline::RunStatus;
use poseidon::providers::azure::{
    map_run_status, normalise_pipeline, normalise_pull_request, normalise_run, normalise_work_item,
    pr_id_from_relation, split_tags, AdoBuild, AdoDefinition, AdoFields, AdoPullRequest,
    AdoRelation, AdoRepository, AdoWorkItem, AzureDevOpsProvider,
};
use poseidon::providers::credential::Credential;
use poseidon::providers::error::ProviderError;
use poseidon::providers::fields::{
    field_value_to_string, form_field_refs, is_noise_field, map_field_kind,
};
use poseidon::providers::queries::{build_wiql, is_result_limit, MAX_WIQL_ID};
use poseidon::providers::richtext::{html_to_md, md_to_html, strip_html};
use poseidon::providers::url::enc;
use poseidon::pull_request::PrStatus;
use poseidon::time::Timestamp;

fn at(iso: &str) -> Timestamp {
    let t = chrono::DateTime::parse_from_rfc3339(iso).unwrap();
    Timestamp::new(t.timestamp(), t.timestamp_subsec_nanos())
}

fn raw_item(id: i64, fields: AdoFields) -> AdoWorkItem {
    AdoWorkItem { id, fields, html_url: None, relations: Vec::new() }
}

fn artifact(url: &str) -> AdoRelation {
    AdoRelation { rel: "ArtifactLink".into(), url: url.into() }
}

fn raw_pr(id: i64, repository: Option<AdoRepository>) -> AdoPullRequest {
    AdoPullRequest {
        pull_request_id: id,
        title: None,
        status: None,
        is_draft: None,
        created_by: None,
        creation_date: None,
        repository,
        source_ref: None,
        target_ref: None,
        reviewers: 0,
    }
}

#[test]
fn field_kind_mapping_covers_the_common_ado_types() {
    assert_eq!(map_field_kind("html", false), Some(FieldKind::Markdown));
    assert_eq!(
        map_field_kind("plainText", false),
        Some(FieldKind::PlainText)
    );
    assert_eq!(map_field_kind("string", false), Some(FieldKind::Text));
    // A string WITH an allowed-value list becomes a Select (e.g. System.State).
    assert_eq!(map_field_kind("string", true), Some(FieldKind::Select));
    assert_eq!(map_field_kind("integer", false), Some(FieldKind::Integer));
    assert_eq!(map_field_kind("double", false), Some(FieldKind::Float));
    assert_eq!(map_field_kind("dateTime", false), Some(FieldKind::DateTime));
    assert_eq!(map_field_kind("boolean", false), Some(FieldKind::Boolean));
    assert_eq!(map_field_kind("identity", false), Some(FieldKind::Identity));
    assert_eq!(map_field_kind("treePath", false), Some(FieldKind::Text));
    // Types with nothing to edit are dropped.
    assert_eq!(map_field_kind("history", false), None);
    assert_eq!(map_field_kind("guid", false), None);
}

#[test]
fn form_field_refs_extracts_on_form_controls() {
    // A Bug form: Repro Steps + a custom field are on the form; System.Description
    // is NOT (that's the whole point). Mixed quoting + attribute order + casing.
    let xml = r#"
        <FORM><Layout>
          <Group><Control FieldName="Microsoft.VSTS.TCM.ReproSteps" Type="HtmlFieldControl" Label="Repro Steps"/></Group>
          <Group><Control Label='Expected' fieldname='Custom.ExpectedBehaviour' Type="HtmlFieldControl"/></Group>
          <Control  FieldName = "System.AreaPath" Type="WorkItemClassificationControl"/>
        </Layout></FORM>"#;
    let refs = form_field_refs(xml);
    assert!(refs.contains(&"microsoft.vsts.tcm.reprosteps".to_string()));
    assert!(refs.contains(&"custom.expectedbehaviour".to_string())); // lowercased attr name + value
    assert!(refs.contains(&"system.areapath".to_string())); // whitespace around '=' tolerated
    assert!(!refs.contains(&"system.description".to_string())); // absent from the form
                                                   // No form / junk -> empty set (callers then fall back to not filtering).
    assert!(form_field_refs("").is_empty());
    assert!(form_field_refs("<Form>no controls here</Form>").is_empty());
}

#[test]
fn noise_fields_are_filtered_but_real_ones_kept() {
    assert!(is_noise_field("System.Id"));
    assert!(is_noise_field("System.Tags")); // edited via the tag-chip control
    assert!(is_noise_field("System.State")); // edited in its own row
    assert!(is_noise_field("System.AreaLevel1"));
    assert!(is_noise_field("System.ChangedBy")); // system audit field
    assert!(is_noise_field("Microsoft.VSTS.Common.StackRank"));
    assert!(is_noise_field("WEF_ABC123_Kanban.Column"));
    assert!(!is_noise_field("System.Description"));
    assert!(!is_noise_field("Microsoft.VSTS.TCM.ReproSteps"));
    assert!(!is_noise_field("System.Title"));
}

#[test]
fn markdown_round_trips_back_to_html_on_save() {
    // The save path converts the editor's markdown to html for the ADO write.
    let html = md_to_html("**bold** and a list:\n\n- one\n- two");
    assert!(html.contains("<strong>bold</strong>"));
    assert!(html.contains("<li>one</li>"));
}

#[test]
fn split_tags_handles_joined_string_and_whitespace() {
    assert_eq!(
        split_tags(Some("team:platform; type:bug ;  priority:p1")),
        vec!["team:platform", "type:bug", "priority:p1"]
    );
    assert!(split_tags(Some("")).is_empty());
    assert!(split_tags(None).is_empty());
    assert!(split_tags(Some("  ;  ; ")).is_empty());
}

#[test]
fn wiql_id_bounds_stay_within_azure_32bit_limit() {
    // Regression for TF51601: id-range chunking once emitted i64::MAX as a
    // bound, which Azure DevOps WIQL rejects ("unsupported number value").
    // Every id literal the builder emits must fit in 32 bits.
    assert!(MAX_WIQL_ID <= i32::MAX as i64);
    let q = build_wiql(None, false, Some((4_000_000, MAX_WIQL_ID)));
    assert!(q.contains(&MAX_WIQL_ID.to_string()));
    assert!(!q.contains(&i64::MAX.to_string()));
    for tok in q.split(|c: char| !c.is_ascii_digit()) {
        if let Ok(n) = tok.parse::<i64>() {
            assert!(n <= i32::MAX as i64, "WIQL emitted out-of-range number {n}");
        }
    }
}

#[test]
fn map_run_status_covers_the_matrix() {
    assert_eq!(
        map_run_status(Some("completed"), Some("succeeded")),
        RunStatus::Succeeded
    );
    assert_eq!(
        map_run_status(Some("completed"), Some("partiallySucceeded")),
        RunStatus::Succeeded
    );
    assert_eq!(
        map_run_status(Some("completed"), Some("failed")),
        RunStatus::Failed
    );
    assert_eq!(
        map_run_status(Some("completed"), Some("canceled")),
        RunStatus::Canceled
    );
    assert_eq!(map_run_status(Some("inProgress"), None), RunStatus::Running);
    assert_eq!(map_run_status(Some("notStarted"), None), RunStatus::Running);
    assert_eq!(map_run_status(None, None), RunStatus::Unknown);
    assert_eq!(map_run_status(Some("completed"), None), RunStatus::Unknown);
}

#[test]
fn strip_html_drops_tags_decodes_entities_and_collapses_whitespace() {
    // Tags are removed, leaving only their text content.
    assert_eq!(strip_html("<p>hello <b>world</b></p>"), "hello world");
    // The handful of entities ADO emits are decoded.
    assert_eq!(strip_html("Tom &amp; Jerry"), "Tom & Jerry");
    assert_eq!(strip_html("a&nbsp;b"), "a b");
    assert_eq!(strip_html("1 &lt; 2 &gt; 0"), "1 < 2 > 0");
    assert_eq!(
        strip_html("say &quot;hi&quot; it&#39;s fine"),
        "say \"hi\" it's fine"
    );
    // Runs of whitespace (incl. newlines/tabs from block tags) collapse to one
    // space, and leading/trailing whitespace is trimmed.
    assert_eq!(strip_html("  foo   bar\n\tbaz  "), "foo bar baz");
    assert_eq!(strip_html("<div>one</div>\n<div>two</div>"), "one two");
    // Nothing but markup / nothing at all -> empty string.
    assert_eq!(strip_html("<br/>"), "");
    assert_eq!(strip_html(""), "");
    assert_eq!(strip_html("   "), "");
}

#[test]
fn pr_id_parsed_from_artifact_link_only() {
    // A PR artifact link yields its trailing id (segments are url-encoded).
    let pr_link = AdoRelation {
        rel: "ArtifactLink".to_string(),
        url: "vstfs:///Git/PullRequestId/proj%2Frepo%2F252573".to_string(),
    };
    assert_eq!(pr_id_from_relation(&pr_link), Some(252573));
    // Azure DevOps also emits the separator lower-cased (%2f) - both must
    // parse (a real captured payload mixes the two; see the fixture test).
    let lower = AdoRelation {
        rel: "ArtifactLink".to_string(),
        url: "vstfs:///Git/PullRequestId/proj%2frepo%2f248657".to_string(),
    };
    assert_eq!(pr_id_from_relation(&lower), Some(248657));
    // A non-PR artifact link (e.g. a build) is ignored.
    let build_link = AdoRelation {
        rel: "ArtifactLink".to_string(),
        url: "vstfs:///Build/Build/900".to_string(),
    };
    assert_eq!(pr_id_from_relation(&build_link), None);
    // A parent/child hierarchy relation is not an artifact link at all.
    let child = AdoRelation {
        rel: "System.LinkTypes.Hierarchy-Forward".to_string(),
        url: "https://dev.azure.com/acme/_apis/wit/workItems/55".to_string(),
    };
    assert_eq!(pr_id_from_relation(&child), None);
}

#[test]
fn credential_header_values() {
    // Bearer is verbatim; PAT is Basic base64(":<pat>").
    assert_eq!(
        Credential::Bearer("abc".into()).header_value(),
        "Bearer abc"
    );
    assert!(Credential::Pat("p".into())
        .header_value()
        .starts_with("Basic "));
}

#[test]
fn build_wiql_scopes_by_area_path_when_set() {
    // No area path → project-wide, no AreaPath clause.
    let all = build_wiql(None, false, None);
    assert!(all.contains("[System.TeamProject] = @project"));
    assert!(!all.contains("AreaPath"));

    // Area path → adds an UNDER clause (backslash preserved verbatim).
    let scoped = build_wiql(Some(r"Platform\DevOps"), false, None);
    assert!(scoped.contains(r"[System.AreaPath] UNDER 'Platform\DevOps'"));

    // Strict mode → exact match (`=`), children excluded.
    let strict = build_wiql(Some("Platform"), true, None);
    assert!(strict.contains("[System.AreaPath] = 'Platform'"));
    assert!(!strict.contains("UNDER"));

    // A single quote in the area path is escaped so it can't break the WIQL.
    let tricky = build_wiql(Some("A'B"), false, None);
    assert!(tricky.contains("UNDER 'A''B'"));

    // Empty/whitespace area path is treated as "no scope".
    assert!(!build_wiql(Some("   "), false, None).contains("AreaPath"));

    // An id range adds a half-open [lo, hi) clause and orders by id (for
    // chunking past the 20000-row cap).
    let ranged = build_wiql(None, false, Some((1, 5000)));
    assert!(ranged.contains("[System.Id] >= 1 AND [System.Id] < 5000"));
    assert!(ranged.contains("ORDER BY [System.Id] ASC"));
}

#[test]
fn result_limit_error_is_detected() {
    let cap = ProviderError::Api {
        status: 400,
        url: "u".into(),
        body: "VS402337: exceeds the size limit of 20000".into(),
    };
    assert!(is_result_limit(&cap));
    let other = ProviderError::Api {
        status: 400,
        url: "u".into(),
        body: "bad query".into(),
    };
    assert!(!is_result_limit(&other));
    assert!(!is_result_limit(&ProviderError::Config("x".into())));
}

#[test]
fn enc_percent_encodes_spaces_in_project_names() {
    assert_eq!(enc("Platform Engineering"), "Platform%20Engineering");
    // Unreserved chars pass through untouched.
    assert_eq!(enc("Data-Platform_2.0"), "Data-Platform_2.0");
}

#[test]
fn html_field_value_comes_back_as_markdown() {
    let v = Json::Text("<div>Retry <b>&amp; backoff</b></div>".into());
    let md = field_value_to_string(Some(&v), FieldKind::Markdown).unwrap();
    assert!(md.contains("Retry"));
    assert!(md.contains("backoff"));
    assert!(!md.contains("<div>")); // html stripped to markdown
}

#[test]
fn identity_field_value_is_the_display_name() {
    let v = read_json(r#"{ "displayName": "Ada Lovelace", "uniqueName": "ada@x.io" }"#).unwrap();
    assert_eq!(
        field_value_to_string(Some(&v), FieldKind::Identity).as_deref(),
        Some("Ada Lovelace")
    );
}

#[test]
fn normalise_work_item_from_sample_payload() {
    let raw = AdoWorkItem {
        id: 4321,
        fields: AdoFields {
            title: Some("Wire up ingress".into()),
            work_item_type: Some("User Story".into()),
            state: Some("Active".into()),
            tags: Some("team:platform; type:feature".into()),
            assigned_to: Some("Ada Lovelace".into()),
            created_date: Some(at("2026-07-01T09:00:00Z")),
            changed_date: Some(at("2026-07-20T15:30:00Z")),
            iteration_path: Some("Platform\\Sprint 12".into()),
            story_points: Some("5.0".into()),
            ..Default::default()
        },
        html_url: Some("https://dev.azure.com/acme/Platform/_workitems/edit/4321".into()),
        relations: Vec::new(),
    };
    // Team name (with a space) is distinct from the project segment.
    let wi = normalise_work_item(
        raw,
        "Platform Engineering",
        "https://dev.azure.com/acme",
        "Platform Engineering",
    );
    assert_eq!(wi.id, 4321);
    assert_eq!(wi.provider, "azure-devops");
    assert_eq!(wi.team, "Platform Engineering");
    assert_eq!(wi.title, "Wire up ingress");
    assert_eq!(wi.tags, vec!["team:platform", "type:feature"]);
    assert_eq!(wi.assigned_to.as_deref(), Some("Ada Lovelace"));
    assert_eq!(wi.story_points.as_deref(), Some("5.0"));
    assert_eq!(wi.iteration_path.as_deref(), Some("Platform\\Sprint 12"));
    assert!(wi.url.contains("/edit/4321"));
    assert_eq!(wi.created_at, at("2026-07-01T09:00:00Z"));
    assert_eq!(wi.changed_at, at("2026-07-20T15:30:00Z"));
}

#[test]
fn normalise_work_item_strips_html_description() {
    let raw = raw_item(
        5,
        AdoFields {
            title: Some("Has a body".into()),
            description: Some("<div>Retry <b>&amp; backoff</b></div>".into()),
            ..Default::default()
        },
    );
    let wi = normalise_work_item(raw, "Platform", "https://dev.azure.com/acme", "Platform");
    assert_eq!(wi.description.as_deref(), Some("Retry & backoff"));
}

#[test]
fn normalise_work_item_falls_back_to_repro_steps_for_bugs() {
    let raw = raw_item(
        8,
        AdoFields {
            work_item_type: Some("Bug".into()),
            title: Some("Pipeline broken".into()),
            description: Some(String::new()),
            repro_steps: Some("<div>Error: invalid <b>for_each</b> argument</div>".into()),
            ..Default::default()
        },
    );
    let wi = normalise_work_item(raw, "Platform", "https://dev.azure.com/acme", "Platform");
    assert_eq!(
        wi.description.as_deref(),
        Some("Error: invalid for_each argument")
    );
    // A real description wins over the steps when both are present.
    let both = raw_item(
        9,
        AdoFields {
            description: Some("<p>real body</p>".into()),
            repro_steps: Some("<p>steps</p>".into()),
            ..Default::default()
        },
    );
    let wi2 = normalise_work_item(both, "Platform", "https://dev.azure.com/acme", "Platform");
    assert_eq!(wi2.description.as_deref(), Some("real body"));
}

#[test]
fn normalise_work_item_maps_empty_description_to_none() {
    let markup = raw_item(
        6,
        AdoFields { description: Some("<p>  </p>".into()), ..Default::default() },
    );
    let wi = normalise_work_item(markup, "Platform", "https://dev.azure.com/acme", "Platform");
    assert!(wi.description.is_none());
    let bare = raw_item(7, AdoFields::default());
    let wi2 = normalise_work_item(bare, "Platform", "https://dev.azure.com/acme", "Platform");
    assert!(wi2.description.is_none());
}

#[test]
fn normalise_work_item_tolerates_sparse_payload() {
    let raw = raw_item(7, AdoFields::default());
    let wi = normalise_work_item(raw, "Data", "https://dev.azure.com/acme", "DataPlatform");
    assert_eq!(wi.id, 7);
    assert!(wi.title.is_empty());
    assert!(wi.tags.is_empty());
    assert!(wi.assigned_to.is_none());
    assert_eq!(
        wi.url,
        "https://dev.azure.com/acme/DataPlatform/_workitems/edit/7"
    );
}

#[test]
fn normalise_work_item_extracts_linked_pr_ids_from_relations() {
    // Two PR links + one unrelated relation -> only the PR ids survive.
    let raw = AdoWorkItem {
        id: 900,
        fields: AdoFields { title: Some("Linked".into()), ..Default::default() },
        html_url: None,
        relations: vec![
            artifact("vstfs:///Git/PullRequestId/p%2Fr%2F11"),
            AdoRelation {
                rel: "System.LinkTypes.Hierarchy-Forward".into(),
                url: "https://dev.azure.com/acme/_apis/wit/workItems/7".into(),
            },
            artifact("vstfs:///Git/PullRequestId/p%2Fr%2F22"),
        ],
    };
    let wi = normalise_work_item(raw, "Platform", "https://dev.azure.com/acme", "Platform");
    assert_eq!(wi.linked_pr_ids, vec![11, 22]);
}

#[test]
fn normalise_pipeline_treats_root_folder_as_none() {
    let raw = AdoDefinition {
        id: 12,
        name: "platform-ci".into(),
        path: Some("\\".into()),
        web_url: Some("https://dev.azure.com/acme/Platform/_build?definitionId=12".into()),
        latest_completed_build: None,
    };
    let p = normalise_pipeline(raw, "Platform", "https://dev.azure.com/acme", "Platform");
    assert_eq!(p.id, 12);
    assert_eq!(p.name, "platform-ci");
    assert!(p.folder.is_none());
}

#[test]
fn normalise_pull_request_from_sample() {
    let raw = AdoPullRequest {
        pull_request_id: 4321,
        title: Some("Add retry to poller".into()),
        status: Some("active".into()),
        is_draft: Some(true),
        created_by: Some("Ada Lovelace".into()),
        creation_date: Some(at("2026-07-28T09:00:00Z")),
        repository: Some(AdoRepository {
            name: Some("platform-svc".into()),
            id: None,
            project_id: None,
            project_name: None,
        }),
        source_ref: Some("refs/heads/feature/retry".into()),
        target_ref: Some("refs/heads/main".into()),
        reviewers: 2,
    };
    let pr = normalise_pull_request(raw, "Platform", "https://dev.azure.com/acme", "Platform");
    assert_eq!(pr.id, 4321);
    assert_eq!(pr.title, "Add retry to poller");
    assert_eq!(pr.status, PrStatus::Active);
    assert!(pr.is_draft);
    assert_eq!(pr.author.as_deref(), Some("Ada Lovelace"));
    assert_eq!(pr.repository.as_deref(), Some("platform-svc"));
    assert_eq!(pr.source_branch.as_deref(), Some("feature/retry"));
    assert_eq!(pr.target_branch.as_deref(), Some("main"));
    assert_eq!(pr.reviewer_count, 2);
    assert!(pr.url.contains("_git/platform-svc/pullrequest/4321"));
}

#[test]
fn pr_url_uses_repo_project_not_configured_project() {
    let mut raw = raw_pr(
        252573,
        Some(AdoRepository {
            name: Some("repo-c".into()),
            id: None,
            project_id: None,
            project_name: Some("Payments".into()),
        }),
    );
    raw.status = Some("completed".into());
    let pr = normalise_pull_request(
        raw,
        "Platform",
        "https://dev.azure.com/contoso",
        "Platform Engineering",
    );
    assert_eq!(
        pr.url,
        "https://dev.azure.com/contoso/Payments/_git/repo-c/pullrequest/252573"
    );
}

#[test]
fn normalise_run_from_sample_build() {
    let raw = AdoBuild {
        id: 99001,
        status: Some("completed".into()),
        result: Some("failed".into()),
        start_time: Some(at("2026-07-29T10:00:00Z")),
        finish_time: Some(at("2026-07-29T10:12:00Z")),
        source_branch: Some("refs/heads/main".into()),
        definition_id: Some(12),
        web_url: Some("https://dev.azure.com/acme/Platform/_build/results?buildId=99001".into()),
    };
    let run = normalise_run(raw, "Platform");
    assert_eq!(run.id, 99001);
    assert_eq!(run.pipeline_id, 12);
    assert_eq!(run.status, RunStatus::Failed);
    assert_eq!(run.source_branch.as_deref(), Some("refs/heads/main"));
    assert!(run.url.contains("buildId=99001"));
}

#[test]
fn provider_builds_with_either_credential_kind() {
    let cfg = TeamConfig {
        name: "Platform Engineering".into(),
        provider: ProviderKind::default(),
        organization: "https://dev.azure.com/acme".into(),
        project: "Platform Engineering".into(),
        area_path: None,
        area_path_strict: false,
        tenant: None,
        auth: AzureDevOpsAuth::default(),
        wiql: None,
        pipeline_ids: vec![],
        rules: None,
    };
    // A provider is built from the team alone; either credential makes its header.
    let provider = AzureDevOpsProvider::new(&cfg);
    assert_eq!(
        provider.project_url("wit/fields", ""),
        "https://dev.azure.com/acme/Platform%20Engineering/_apis/wit/fields?api-version=7.1"
    );
    assert!(!Credential::Pat("tok".into()).header_value().is_empty());
    assert!(!Credential::Bearer("jwt".into()).header_value().is_empty());
}

#[test]
fn a_valid_link_survives_html_md_html_round_trip() {
    let html = "<div>See <a href=\"https://dev.azure.com/x/_search?text=a%40b.com&amp;lp=custom-Collection&amp;result=DevOps/App/GBmaster//azure-pipelines/cd.yml\">the pipeline</a>.</div>";
    let back = md_to_html(&html_to_md(html).unwrap());
    assert!(
        back.contains("<a href=\"https://dev.azure.com/x/_search?text=a%40b.com"),
        "link lost in round-trip: {back}"
    );
    assert!(back.contains(">the pipeline</a>"), "link text lost: {back}");
}
