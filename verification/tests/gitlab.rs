use poseidon::pipeline::{PipelineRun, RunStatus};
use poseidon::providers::credential::{credential_token, Credential};
use poseidon::providers::gitlab::{
    map_issue_state, map_mr_status, map_pipeline_status, normalise_issue, normalise_merge_request,
    normalise_pipeline, normalise_run, recent_runs, GlIssue, GlMergeRequest, GlPipeline, GlUser,
};
use poseidon::providers::url::enc_project;
use poseidon::pull_request::PrStatus;
use poseidon::time::Timestamp;

fn at(iso: &str) -> Timestamp {
    let t = chrono::DateTime::parse_from_rfc3339(iso).unwrap();
    Timestamp::new(t.timestamp(), t.timestamp_subsec_nanos())
}

fn user(name: &str) -> GlUser {
    GlUser { name: Some(name.into()) }
}

fn issue(iid: i64, state: &str) -> GlIssue {
    GlIssue {
        iid,
        title: None,
        description: None,
        state: Some(state.into()),
        labels: Vec::new(),
        assignee: None,
        assignees: Vec::new(),
        created_at: None,
        updated_at: None,
        closed_at: None,
        web_url: None,
    }
}

fn pipeline(id: i64, status: &str) -> GlPipeline {
    GlPipeline {
        id,
        project_id: None,
        status: Some(status.into()),
        ref_name: Some("main".into()),
        started_at: None,
        finished_at: None,
        created_at: None,
        updated_at: None,
        web_url: None,
        name: None,
    }
}

#[test]
fn enc_project_encodes_the_path_separator() {
    assert_eq!(
        enc_project("gitlab-org/gitlab-runner"),
        "gitlab-org%2Fgitlab-runner"
    );
    // Sub-groups keep every slash encoded; unreserved chars pass through.
    assert_eq!(enc_project("group/sub/proj_1.0"), "group%2Fsub%2Fproj_1.0");
}

#[test]
fn credential_token_unwraps_either_kind_and_detects_empty() {
    assert_eq!(
        credential_token(&Credential::Pat("glpat-x".into())),
        "glpat-x"
    );
    assert_eq!(
        credential_token(&Credential::Bearer("oauth".into())),
        "oauth"
    );
    assert!(credential_token(&Credential::Pat(String::new())).is_empty());
}

#[test]
fn map_issue_state_maps_open_and_closed() {
    assert_eq!(map_issue_state(Some("opened")), "Open");
    assert_eq!(map_issue_state(Some("closed")), "Closed");
    // An unmapped state is surfaced verbatim, not silently blanked.
    assert_eq!(map_issue_state(Some("reopened")), "reopened");
    assert_eq!(map_issue_state(None), "");
}

#[test]
fn map_mr_status_covers_the_states() {
    assert_eq!(map_mr_status(Some("opened")), PrStatus::Active);
    assert_eq!(map_mr_status(Some("locked")), PrStatus::Active);
    assert_eq!(map_mr_status(Some("merged")), PrStatus::Completed);
    assert_eq!(map_mr_status(Some("closed")), PrStatus::Abandoned);
    assert_eq!(map_mr_status(Some("weird")), PrStatus::Unknown);
    assert_eq!(map_mr_status(None), PrStatus::Unknown);
}

#[test]
fn map_pipeline_status_covers_the_states() {
    assert_eq!(map_pipeline_status(Some("success")), RunStatus::Succeeded);
    assert_eq!(map_pipeline_status(Some("failed")), RunStatus::Failed);
    assert_eq!(map_pipeline_status(Some("canceled")), RunStatus::Canceled);
    assert_eq!(map_pipeline_status(Some("cancelled")), RunStatus::Canceled);
    assert_eq!(map_pipeline_status(Some("running")), RunStatus::Running);
    assert_eq!(map_pipeline_status(Some("pending")), RunStatus::Running);
    // Skipped/manual aren't mapped -> honestly Unknown.
    assert_eq!(map_pipeline_status(Some("skipped")), RunStatus::Unknown);
    assert_eq!(map_pipeline_status(None), RunStatus::Unknown);
}

#[test]
fn normalise_issue_from_hand_written_open_and_closed() {
    // Open issue with a single assignee.
    let open = GlIssue {
        title: Some("Fix the flaky test".into()),
        description: Some("It flakes on CI".into()),
        labels: vec!["type::bug".into(), "backend".into()],
        assignee: Some(user("Ada Lovelace")),
        assignees: vec![user("Ada Lovelace")],
        created_at: Some(at("2026-07-01T09:00:00Z")),
        updated_at: Some(at("2026-07-20T15:30:00Z")),
        web_url: Some("https://gitlab.com/acme/app/-/issues/42".into()),
        ..issue(42, "opened")
    };
    let wi = normalise_issue(open, "Platform");
    assert_eq!(wi.id, 42);
    assert_eq!(wi.provider, "gitlab");
    assert_eq!(wi.team, "Platform");
    assert_eq!(wi.title, "Fix the flaky test");
    assert_eq!(wi.work_item_type, "Issue");
    assert_eq!(wi.state, "Open");
    assert_eq!(wi.tags, vec!["type::bug", "backend"]);
    assert_eq!(wi.assigned_to.as_deref(), Some("Ada Lovelace"));
    assert_eq!(wi.story_points, None);
    assert_eq!(wi.url, "https://gitlab.com/acme/app/-/issues/42");
    assert_eq!(wi.description.as_deref(), Some("It flakes on CI"));

    // Closed issue, unassigned, with no assignees either.
    let closed = GlIssue {
        closed_at: Some(at("2026-07-22T00:00:00Z")),
        ..issue(7, "closed")
    };
    let wi = normalise_issue(closed, "Platform");
    assert_eq!(wi.state, "Closed");
    assert!(wi.assigned_to.is_none());
    assert!(wi.tags.is_empty());
    assert!(wi.closed_at.is_some());
    // A wholly absent description is None (not an empty string).
    assert!(wi.description.is_none());
}

#[test]
fn normalise_issue_prefers_assignees_when_single_assignee_absent() {
    let raw = GlIssue {
        assignees: vec![user("Grace Hopper")],
        ..issue(9, "opened")
    };
    let wi = normalise_issue(raw, "Team");
    assert_eq!(wi.assigned_to.as_deref(), Some("Grace Hopper"));
}

#[test]
fn normalise_merge_request_from_hand_written() {
    let raw = GlMergeRequest {
        iid: 100,
        title: Some("Add retry to poller".into()),
        state: Some("opened".into()),
        draft: Some(true),
        author: Some(user("Ada Lovelace")),
        created_at: Some(at("2026-07-28T09:00:00Z")),
        source_branch: Some("feature/retry".into()),
        target_branch: Some("main".into()),
        reviewers: vec![user("A"), user("B")],
        web_url: Some("https://gitlab.com/acme/app/-/merge_requests/100".into()),
    };
    let pr = normalise_merge_request(raw, "Platform");
    assert_eq!(pr.id, 100);
    assert_eq!(pr.provider, "gitlab");
    assert_eq!(pr.title, "Add retry to poller");
    assert_eq!(pr.status, PrStatus::Active);
    assert!(pr.is_draft);
    assert_eq!(pr.author.as_deref(), Some("Ada Lovelace"));
    assert_eq!(pr.source_branch.as_deref(), Some("feature/retry"));
    assert_eq!(pr.target_branch.as_deref(), Some("main"));
    assert_eq!(pr.reviewer_count, 2);
    assert_eq!(pr.url, "https://gitlab.com/acme/app/-/merge_requests/100");
}

#[test]
fn normalise_pipeline_and_run_from_hand_written() {
    let p = normalise_pipeline(
        GlPipeline {
            updated_at: Some(at("2026-08-01T10:12:30Z")),
            web_url: Some("https://gitlab.com/acme/app/-/pipelines/555".into()),
            ..pipeline(555, "success")
        },
        "Platform",
    );
    assert_eq!(p.id, 555);
    assert_eq!(p.name, "main");
    assert_eq!(p.last_run_status, Some(RunStatus::Succeeded));
    assert!(p.last_run_at.is_some());
    assert_eq!(p.url, "https://gitlab.com/acme/app/-/pipelines/555");

    let run = normalise_run(
        GlPipeline {
            project_id: Some(250833),
            started_at: Some(at("2026-08-01T10:00:00Z")),
            finished_at: Some(at("2026-08-01T10:12:00Z")),
            created_at: Some(at("2026-08-01T09:59:00Z")),
            updated_at: Some(at("2026-08-01T10:12:30Z")),
            web_url: Some("https://gitlab.com/acme/app/-/pipelines/555".into()),
            ..pipeline(555, "success")
        },
        "Platform",
    );
    assert_eq!(run.id, 555);
    assert_eq!(run.pipeline_id, 250833);
    assert_eq!(run.status, RunStatus::Succeeded);
    assert_eq!(run.source_branch.as_deref(), Some("main"));
    assert!(run.started_at.is_some());
    assert!(run.finished_at.is_some());
}

#[test]
fn normalise_run_leaves_running_pipeline_unfinished() {
    // A still-running pipeline has no finish time even though updated_at is present.
    let raw = GlPipeline {
        created_at: Some(at("2026-08-11T12:00:00Z")),
        updated_at: Some(at("2026-08-11T12:05:00Z")),
        ..pipeline(1, "running")
    };
    let run = normalise_run(raw, "T");
    assert_eq!(run.status, RunStatus::Running);
    assert!(run.started_at.is_some());
    assert!(run.finished_at.is_none());
}

#[test]
fn fetch_runs_filters_by_since() {
    // A run created before `since` is dropped; one at/after is kept.
    let raw = vec![
        GlPipeline {
            created_at: Some(at("2026-01-01T00:00:00Z")),
            ..pipeline(1, "success")
        },
        GlPipeline {
            created_at: Some(at("2026-08-01T00:00:00Z")),
            ..pipeline(2, "success")
        },
    ];
    let kept: Vec<PipelineRun> = recent_runs(&raw, "T", at("2026-06-01T00:00:00Z"));
    assert_eq!(kept.len(), 1);
    assert_eq!(kept[0].id, 2);
}
