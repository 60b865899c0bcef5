use poseidon::config::{AzureDevOpsAuth, ProviderKind, TeamConfig};
use poseidon::editable_field::{FieldChange, FieldKind};
use poseidon::json::{read_json, Json};
use poseidon::providers::azure::{
    extract_repos, link_ops, origin_area, parent_id_from_relation, pr_artifact_uri,
    pr_id_from_relation, short_branch, split_tags, unlink_ops, update_field_ops, update_ops,
    AdoPullRequest, AdoRelation, AdoRepository, AzureDevOpsProvider, PatchOp,
};
use poseidon::providers::credential::Credential;
use poseidon::providers::error::{api_error, ProviderError};
use poseidon::providers::fields::{
    editable_fields, finish_fields, html_fields, json_scalar_string, plan_fields, texts_to_convert,
    work_item_type_of, AdoFieldDef, AdoTypeField,
};
use poseidon::providers::queries::{
    batches, build_wiql, is_result_limit, Answer, IdSearch, Phase, PrWalk, MAX_WIQL_ID,
};
use poseidon::providers::markup::{can_be_converted, MAX_LEVELS};
use poseidon::providers::richtext::{html_to_md, md_to_html};
use poseidon::providers::url::{enc, enc_project};
use poseidon::time::Timestamp;
use poseidon::work_item::WorkItemUpdate;

fn team(pipeline_ids: Vec<i64>, wiql: Option<&str>) -> TeamConfig {
    TeamConfig {
        name: "Platform".into(),
        provider: ProviderKind::AzureDevOps,
        organization: "https://dev.azure.com/acme/".into(),
        project: "My Project".into(),
        tenant: None,
        area_path: None,
        area_path_strict: false,
        auth: AzureDevOpsAuth::default(),
        wiql: wiql.map(str::to_string),
        pipeline_ids,
        rules: None,
    }
}

fn relation(rel: &str, url: &str) -> AdoRelation {
    AdoRelation { rel: rel.into(), url: url.into() }
}

fn pull_request(repository: Option<AdoRepository>) -> AdoPullRequest {
    AdoPullRequest {
        pull_request_id: 7,
        title: None,
        status: None,
        is_draft: None,
        created_by: None,
        creation_date: None,
        repository,
        source_ref: None,
        target_ref: None,
        reviewers: 0,
    }
}

fn type_field(reference: &str, name: &str) -> AdoTypeField {
    AdoTypeField {
        reference_name: reference.into(),
        name: name.into(),
        always_required: false,
        help_text: None,
        allowed_values: vec![],
    }
}

fn def(reference: &str, field_type: &str) -> AdoFieldDef {
    AdoFieldDef {
        reference_name: reference.into(),
        name: reference.into(),
        field_type: field_type.into(),
        read_only: false,
        is_identity: false,
    }
}

/// Answers a search over some ids, `limit` at a time.
fn run_search(ids: &[i64], limit: usize) -> (IdSearch, usize) {
    let mut search = IdSearch::start();
    let mut asked = 0;
    while let Some(range) = search.next() {
        assert!(range.lo >= 1 && range.hi <= MAX_WIQL_ID && range.lo < range.hi);
        asked += 1;
        let hit: Vec<i64> =
            ids.iter().copied().filter(|i| range.lo <= *i && *i < range.hi).collect();
        let answer = if hit.len() > limit { Answer::TooMany } else { Answer::Ids(hit) };
        search = search.take(answer);
    }
    (search, asked)
}

#[test]
fn a_search_finds_every_id_once_and_in_order() {
    let ids: Vec<i64> = (0..200).map(|i| 1 + i * 997).collect();
    let (search, asked) = run_search(&ids, 30);
    assert_eq!(search.phase, Phase::Done);
    assert_eq!(search.found, ids);
    assert!(asked > 1);
}

#[test]
fn a_search_grows_its_ceiling() {
    let ids = vec![5, 3_000_000];
    let (search, _) = run_search(&ids, 10);
    assert_eq!(search.phase, Phase::Done);
    assert!(search.ceiling > 3_000_000);
    assert_eq!(search.found, ids);
}

#[test]
fn a_search_gives_up_on_other_failures() {
    // A failure above the ceiling only raises it.
    let search = IdSearch::start().take(Answer::Failed);
    assert_eq!(search.phase, Phase::Ceiling);
    let search = search.take(Answer::Ids(vec![]));
    assert_eq!(search.phase, Phase::Collect);
    let search = search.take(Answer::Failed);
    assert_eq!(search.phase, Phase::Failed);
    assert!(search.next().is_none());
}

#[test]
fn batches_hold_all_ids_in_order() {
    let ids: Vec<i64> = (0..450).collect();
    let b = batches(&ids);
    assert_eq!(b.iter().map(|x| x.len()).collect::<Vec<_>>(), vec![200, 200, 50]);
    assert_eq!(b.concat(), ids);
    assert!(batches(&vec![]).is_empty());
}

#[test]
fn pull_requests_are_walked_page_by_page() {
    let mut walk = PrWalk::start();
    assert_eq!(
        walk.query().as_deref(),
        Some("searchCriteria.status=active&$top=100&$skip=0")
    );
    walk = walk.after_page(100);
    assert_eq!(
        walk.query().as_deref(),
        Some("searchCriteria.status=active&$top=100&$skip=100")
    );
    walk = walk.after_page(3);
    assert!(walk.query().unwrap().starts_with("searchCriteria.status=completed"));
    walk = walk.after_page(0);
    assert!(walk.query().unwrap().starts_with("searchCriteria.status=abandoned"));
    walk = walk.after_page(0);
    assert_eq!(walk.query(), None);
}

#[test]
fn addresses_escape_what_a_segment_may_not_hold() {
    assert_eq!(enc("a b/c?ü"), "a%20b%2Fc%3F%C3%BC");
    assert_eq!(enc_project("group/sub project"), "group%2Fsub%20project");
    let p = AzureDevOpsProvider::new(&team(vec![], None));
    assert_eq!(
        p.project_url("git/pullrequests", "$top=1"),
        "https://dev.azure.com/acme/My%20Project/_apis/git/pullrequests?api-version=7.1&$top=1"
    );
    assert_eq!(
        p.org_url("wit/fields"),
        "https://dev.azure.com/acme/_apis/wit/fields?api-version=7.1"
    );
}

#[test]
fn runs_are_asked_for_since_a_point_in_time() {
    let all = AzureDevOpsProvider::new(&team(vec![], None));
    assert_eq!(all.runs_query("X"), "$top=200&minTime=X");
    let some = AzureDevOpsProvider::new(&team(vec![12, 34], None));
    assert_eq!(some.runs_query("X"), "$top=200&minTime=X&definitions=12,34");
    let q = some.runs_query_since(Timestamp::new(0, 0)).unwrap();
    assert!(q.starts_with("$top=200&minTime=1970-01-01T00"), "{q}");
}

#[test]
fn long_answers_are_asked_for_in_ranges() {
    let too_many = api_error(400, "u", "VS402337: The number of work items returned exceeds");
    assert!(is_result_limit(&too_many));
    let own = AzureDevOpsProvider::new(&team(vec![], Some("SELECT [System.Id] FROM WorkItems")));
    assert!(!own.should_chunk(&too_many));
    let usual = AzureDevOpsProvider::new(&team(vec![], None));
    assert!(usual.should_chunk(&too_many));
    assert!(!usual.should_chunk(&api_error(500, "u", "oops")));
    assert_eq!(usual.range_query(1, 9), build_wiql(None, false, Some((1, 9))));
}

#[test]
fn errors_say_what_went_wrong() {
    let long = "x".repeat(500);
    let e = api_error(404, "http://a", &long);
    assert_eq!(
        e.message(),
        format!("Azure DevOps returned 404 for http://a: {}", "x".repeat(400))
    );
    assert_eq!(ProviderError::Http("t".into()).message(), "HTTP request failed: t");
    assert_eq!(ProviderError::Client("t".into()).message(), "failed to build HTTP client: t");
    assert_eq!(ProviderError::Config("t".into()).message(), "configuration error: t");
    assert_eq!(ProviderError::NotSignedIn("t".into()).message(), "not signed in: t");
    assert_eq!(ProviderError::NotFound("t".into()).message(), "not found: t");
}

#[test]
fn personal_tokens_are_sent_in_base64() {
    // ":tok" and ":to", with and without padding.
    assert_eq!(Credential::Pat("tok".into()).header_value(), "Basic OnRvaw==");
    assert_eq!(Credential::Pat("to".into()).header_value(), "Basic OnRv");
    assert_eq!(Credential::Bearer("tok".into()).header_value(), "Bearer tok");
}

#[test]
fn rich_text_is_converted_both_ways() {
    assert_eq!(html_to_md("<p>a <b>b</b></p>").as_deref(), Some("a **b**"));
    assert_eq!(html_to_md("<ul><LI>a</LI></ul>").as_deref(), Some("* a"));
    assert_eq!(md_to_html("a **b**"), "<p>a <strong>b</strong></p>\n");
}

#[test]
fn edits_become_patches() {
    let update = WorkItemUpdate {
        state: Some("Closed".into()),
        tags: Some(vec!["a".into(), "b".into()]),
    };
    assert_eq!(
        update_ops(&update).unwrap(),
        vec![
            PatchOp::Add { path: "/fields/System.State".into(), value: "Closed".into() },
            PatchOp::Replace { path: "/fields/System.Tags".into(), value: "a; b".into() },
        ]
    );
    assert_eq!(
        update_ops(&WorkItemUpdate::default()),
        Err(ProviderError::Config("no fields to update".into()))
    );
    let changes = [
        FieldChange { reference: "System.Title".into(), value: "**t**".into() },
        FieldChange { reference: "System.Description".into(), value: "**t**".into() },
    ];
    assert_eq!(
        update_field_ops(&changes, &vec!["System.Description".to_string()]).unwrap(),
        vec![
            PatchOp::Add { path: "/fields/System.Title".into(), value: "**t**".into() },
            PatchOp::Add {
                path: "/fields/System.Description".into(),
                value: "<p><strong>t</strong></p>\n".into()
            },
        ]
    );
    assert!(update_field_ops(&[], &vec![]).is_err());
}

#[test]
fn written_tags_are_read_back() {
    let tags = vec!["type:bug".to_string(), "to refine".to_string()];
    let update = WorkItemUpdate { state: None, tags: Some(tags.clone()) };
    match &update_ops(&update).unwrap()[0] {
        PatchOp::Replace { value, .. } => assert_eq!(split_tags(Some(value)), tags),
        other => panic!("unexpected {other:?}"),
    }
}

#[test]
fn a_written_link_is_read_back_and_removed() {
    let repo = AdoRepository {
        name: Some("svc".into()),
        id: Some("r-1".into()),
        project_id: Some("p-1".into()),
        project_name: None,
    };
    let uri = pr_artifact_uri(&pull_request(Some(repo)), 7).unwrap();
    assert_eq!(uri, "vstfs:///Git/PullRequestId/p-1%2Fr-1%2F7");
    let link = relation("ArtifactLink", &uri);
    assert_eq!(pr_id_from_relation(&link), Some(7));
    assert_eq!(link_ops(uri.clone()), vec![PatchOp::LinkPullRequest { artifact: uri }]);
    let relations = vec![relation("System.LinkTypes.Hierarchy-Forward", "x/9"), link];
    assert_eq!(
        unlink_ops(&relations, 1, 7).unwrap(),
        vec![PatchOp::Remove { path: "/relations/1".into() }]
    );
    assert_eq!(
        unlink_ops(&relations, 1, 8),
        Err(ProviderError::Config("work item 1 has no link to PR 8".into()))
    );
}

#[test]
fn a_link_needs_the_repository_and_its_project() {
    assert_eq!(
        pr_artifact_uri(&pull_request(None), 7),
        Err(ProviderError::Config("PR 7 has no repository".into()))
    );
    let mut repo = AdoRepository { name: None, id: None, project_id: None, project_name: None };
    assert_eq!(
        pr_artifact_uri(&pull_request(Some(repo.clone())), 7),
        Err(ProviderError::Config("PR 7 repository has no id".into()))
    );
    repo.id = Some("r".into());
    assert_eq!(
        pr_artifact_uri(&pull_request(Some(repo)), 7),
        Err(ProviderError::Config("PR 7 has no project id".into()))
    );
}

#[test]
fn parents_branches_areas_and_repositories() {
    let parent = relation("System.LinkTypes.Hierarchy-Reverse", "https://x/_apis/wit/workItems/12/");
    assert_eq!(parent_id_from_relation(&parent), Some(12));
    let child = relation("System.LinkTypes.Hierarchy-Forward", "https://x/_apis/wit/workItems/12");
    assert_eq!(parent_id_from_relation(&child), None);
    assert_eq!(short_branch(Some("refs/heads/a/b".into())).as_deref(), Some("a/b"));
    assert_eq!(short_branch(None), None);
    assert_eq!(origin_area(Some(" ".into())), None);
    assert_eq!(origin_area(Some("A\\B".into())).as_deref(), Some("A\\B"));
    assert_eq!(
        extract_repos("(https://x/P/_git/svc/pullrequest/1) https://x/P/_git/SVC, and https://x/P/_git/my%20web"),
        vec!["svc", "SVC,", "my web"]
    );
}

#[test]
fn the_editor_shows_prose_first() {
    let item: Json = read_json(
        r#"{ "fields": {
            "System.WorkItemType": "Bug",
            "System.Description": "<p>text</p>",
            "Custom.Severity": 2,
            "Custom.Steps": "<ul><li>a</li></ul>"
        } }"#,
    )
    .unwrap();
    assert_eq!(work_item_type_of(&item), "Bug");
    let mut severity = type_field("Custom.Severity", "Severity");
    severity.allowed_values = vec![Json::Number("1".into()), Json::Number("2".into())];
    let type_fields = vec![
        severity,
        type_field("System.Description", "Description"),
        type_field("Custom.Steps", "A steps"),
        type_field("System.Rev", "Rev"),
        type_field("Custom.Hidden", "Hidden"),
    ];
    let defs = vec![
        def("Custom.Severity", "integer"),
        def("System.Description", "html"),
        def("Custom.Steps", "html"),
        def("System.Rev", "integer"),
        def("Custom.Hidden", "string"),
    ];
    let mut planned = plan_fields(&item, &type_fields, &defs);
    // Rich text with list items comes back as it is, to be converted outside.
    for p in planned.iter_mut() {
        if let Some(html) = p.html.take() {
            assert_eq!(html, "<ul><li>a</li></ul>");
            p.field.value = "* a".into();
        }
    }
    let shown = finish_fields(planned, &vec!["system.description".to_string()]);
    let labels: Vec<&str> = shown.iter().map(|f| f.label.as_str()).collect();
    // The empty field that the form hides is gone, and so is the machinery.
    assert_eq!(labels, vec!["A steps", "Description", "Severity"]);
    assert_eq!(shown[1].value, "text");
    assert_eq!(shown[2].kind, FieldKind::Select);
    assert_eq!(shown[2].value, "2");
    assert_eq!(shown[2].options, vec!["1", "2"]);
    assert_eq!(html_fields(&defs), vec!["System.Description", "Custom.Steps"]);
    assert_eq!(json_scalar_string(&Json::Null), None);
}

#[test]
fn well_nested_lists_are_converted() {
    assert_eq!(
        html_to_md("<div>x<ol><li>a <b>b</b></li><li><a href=\"https://a/?b=c\">d</a></li></ol></div>")
            .as_deref(),
        Some("x\n\n1. a **b**\n2. [d](https://a/?b=c)")
    );
    assert_eq!(
        html_to_md("<b><ul><li>a<ul><li>b</li></ul></li></ul></b>").as_deref(),
        Some("**\\* a\n  * b**".replace("\\*", "*").as_str())
    );
    // Not an item.
    assert_eq!(html_to_md("<link rel=x>a").as_deref(), Some("a"));
    assert_eq!(html_to_md("a &lt;li&gt;").as_deref(), Some("a \\<li\\>"));
}

#[test]
fn unruly_markup_is_handed_back() {
    // Items in marked text without a list, or in one that was closed by something else.
    assert_eq!(html_to_md("<b> x<li>y</li></b>"), None);
    assert_eq!(html_to_md("<i><div><ul></div><li>y</i>"), None);
    assert_eq!(
        html_to_md("<b><div><ul><li><div><li>a</li></div><li>b</li></li></ul></div></b>"),
        None
    );
    assert_eq!(html_to_md("<b><h3><ul><li><h1>x</h1></li></ul></h3></b>"), None);
    // Quotes that hide a tag.
    assert_eq!(html_to_md("<a title=\"><ul>\"><li>x</li>"), None);
    assert_eq!(html_to_md("<b><ul><li ='a='>x</li></ul></b>"), None);
    assert_eq!(html_to_md("<!-- <ul> --><b><li>x</li></b>"), None);
    // Tables in tables.
    assert!(!can_be_converted("<TABLE><tr><td><table><tr><td>a</td></tr></table></td></tr></TABLE>"));
    assert_eq!(html_to_md(&"<table><tr><td>".repeat(60)), None);
}

#[test]
fn usual_markup_is_converted() {
    // Ends that may be left out, and attributes in any quotes or none.
    assert_eq!(html_to_md("<b>x</b><ul><li>a<li>b</ul>").as_deref(), Some("**x**\n\n* a\n* b"));
    assert_eq!(
        html_to_md("<a href='y' id=z>x</a><ol class='l'><li><p>a<p>b</ol>c").as_deref(),
        Some(html2md::parse_html("<a href='y' id=z>x</a><ol class='l'><li><p>a<p>b</ol>c").as_str())
    );
    // Loose items without marked text around them.
    assert_eq!(html_to_md("<div><li>a</div>").as_deref(), Some("a"));
    // Tables beside each other, with lists in them.
    let table = "<table><tbody><tr><th>h</th></tr><tr><td><b>x</b><ul><li>i</li></ul></td></tr></tbody></table>";
    let two = html_to_md(&(table.to_string() + "<p>and</p>" + table)).unwrap();
    assert_eq!(two.matches("**x**").count(), 2);
    assert_eq!(two.matches("* i").count(), 2);
}

#[test]
fn only_the_depth_of_elements_is_limited() {
    assert_eq!(html_to_md(&("<div>".repeat(MAX_LEVELS) + "x")).as_deref(), Some("x"));
    assert_eq!(html_to_md(&("<div>".repeat(MAX_LEVELS + 1) + "x")), None);
    let nested = "<ul><li>".repeat(MAX_LEVELS / 2) + "x";
    assert!(html_to_md(&nested).unwrap().ends_with('x'));
    let long = html_to_md(&"<div>x <b>y</b></div>".repeat(1000)).unwrap();
    assert_eq!(long.matches("**y**").count(), 1000);
}

#[test]
fn the_editor_takes_converted_texts_in_order() {
    let item = read_json(
        "{\"fields\": {\"System.WorkItemType\": \"Bug\", \"A\": \"<b><li>x</b>\", \"B\": \"<i>y</i>\", \"C\": \"<i><li>z</i>\"}}",
    )
    .unwrap();
    let types = vec![type_field("A", "A"), type_field("B", "B"), type_field("C", "C")];
    let defs: Vec<AdoFieldDef> = ["A", "B", "C"]
        .iter()
        .map(|r| AdoFieldDef {
            reference_name: r.to_string(),
            name: r.to_string(),
            field_type: "html".into(),
            read_only: false,
            is_identity: false,
        })
        .collect();
    let handed = texts_to_convert(&plan_fields(&item, &types, &defs));
    assert_eq!(handed, vec!["<b><li>x</b>", "<i><li>z</i>"]);
    let shown = editable_fields(&item, &types, &defs, &vec![], &vec!["one".to_string()]);
    let values: Vec<&str> = shown.iter().map(|f| f.value.as_str()).collect();
    assert_eq!(values, vec!["one", "*y*", "<i><li>z</i>"]);
    let untyped = read_json("{\"fields\": {\"A\": \"x\"}}").unwrap();
    assert!(editable_fields(&untyped, &types, &defs, &vec![], &vec![]).is_empty());
}

#[test]
fn only_choices_have_options() {
    let numbers = vec![Json::Number("1".into()), Json::Number("2".into())];
    let mut number = type_field("Custom.Effort", "Effort");
    number.allowed_values = numbers.clone();
    let mut choice = type_field("Custom.Size", "Size");
    choice.allowed_values = numbers;
    let def = |reference: &str, field_type: &str| AdoFieldDef {
        reference_name: reference.into(),
        name: reference.into(),
        field_type: field_type.into(),
        read_only: false,
        is_identity: false,
    };
    let defs = vec![def("Custom.Effort", "double"), def("Custom.Size", "string")];
    let item = read_json("{}").unwrap();
    let planned = plan_fields(&item, &vec![number, choice], &defs);
    assert_eq!(planned[0].field.kind, FieldKind::Float);
    assert!(planned[0].field.options.is_empty());
    assert_eq!(planned[1].field.kind, FieldKind::Select);
    assert_eq!(planned[1].field.options, vec!["1", "2"]);
    // The state has an editor of its own.
    assert!(plan_fields(&item, &vec![type_field("System.State", "State")], &defs).is_empty());
}
