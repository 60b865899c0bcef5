//! GitLab: addresses, edits, and what its answers mean.
use super::azure::{first_known, known_time, text_or_empty, unwrap_text};
use super::error::{is_config_error, ProviderError};
use super::url::{enc_project, encoded_project};
use crate::config::TeamConfig;
use crate::editable_field::{EditableField, EditableFieldView, FieldChange, FieldKind};
use crate::number::{format_i64, signed_decimal};
use crate::pipeline::{Pipeline, PipelineRun, PipelineRunView, PipelineView, RunStatus};
use crate::pull_request::{PrStatus, PullRequest, PullRequestView};
use crate::text::{
    cat3, clone_all, clone_opt, group_text, has_prefix, lemma_found_stays, lemma_take_step, lower,
    opt_view, same, starts_with, strip_end, stripped_end, to_lower, views,
};
use crate::time::Timestamp;
use crate::work_item::{WorkItem, WorkItemView};
use vstd::prelude::*;

pub mod laws;

verus! {

broadcast use group_text;

pub const PROVIDER: &'static str = "gitlab";

pub const API_BASE: &'static str = "https://gitlab.com";

/// How many issues one page holds.
pub const ISSUE_PAGE: usize = 100;

/// One GitLab project.
#[derive(Debug)]
pub struct GitlabProvider {
    pub team: String,
    pub project_path: String,
    pub base_url: String,
}

impl GitlabProvider {
    /// The provider of a team. An organisation that is an address is the server, and the project
    /// is the whole path; else the organisation is the first part of the path on gitlab.com.
    pub fn new(cfg: &TeamConfig) -> (r: Self)
        ensures
            r.team == cfg.name,
            has_prefix(cfg.organization@, "http"@) ==> r.base_url@ == stripped_end(
                cfg.organization@,
                "/"@,
            ) && r.project_path@ == cfg.project@,
            !has_prefix(cfg.organization@, "http"@) ==> r.base_url@ == API_BASE@
                && r.project_path@ == cfg.organization@ + "/"@ + cfg.project@,
    {
        let (base_url, project_path): (String, String) = if starts_with(
            cfg.organization.as_str(),
            "http",
        ) {
            (strip_end(cfg.organization.as_str(), "/"), cfg.project.clone())
        } else {
            (
                API_BASE.to_owned(),
                cat3(cfg.organization.as_str(), "/", cfg.project.as_str()),
            )
        };
        GitlabProvider { team: cfg.name.clone(), project_path, base_url }
    }

    /// The address of an endpoint of the project.
    pub fn project_url(&self, tail: &str, query: &str) -> (r: String)
        ensures
            r@ == self.base_url@ + "/api/v4/projects/"@ + encoded_project(self.project_path@) + "/"@
                + tail@ + (if query@.len() == 0 {
                ""@
            } else {
                "?"@
            }) + query@,
    {
        let mut r: String = cat3(
            self.base_url.as_str(),
            "/api/v4/projects/",
            enc_project(self.project_path.as_str()).as_str(),
        );
        r.append("/");
        r.append(tail);
        r.append(
            if query.is_empty() {
                ""
            } else {
                "?"
            },
        );
        r.append(query);
        r
    }
}

/// The query for a page of issues.
pub fn issues_query(page: u32) -> (r: String)
    ensures
        r@ == "scope=all&per_page=100&page="@ + signed_decimal(page as int),
{
    crate::text::cat2("scope=all&per_page=100&page=", format_i64(page as i64).as_str())
}

/// The page of issues to ask for after a page of `len`; none after a page that is not full.
pub fn next_issue_page(page: u32, len: usize) -> (r: Option<u32>)
    requires
        page < u32::MAX,
    ensures
        r == (if len == ISSUE_PAGE {
            Some((page + 1) as u32)
        } else {
            None
        }),
{
    if len == ISSUE_PAGE {
        Some(page + 1)
    } else {
        None
    }
}

// ---------------------------------------------------------------------------------------------
// Edits
// ---------------------------------------------------------------------------------------------

/// Whether a field of an issue can be edited.
pub open spec fn editable(reference: Seq<char>) -> bool {
    reference == "title"@ || reference == "description"@
}

/// The first change of the list to a field that cannot be edited.
pub open spec fn first_refused(changes: Seq<FieldChange>) -> Option<Seq<char>>
    decreases changes.len(),
{
    if changes.len() == 0 {
        None
    } else if first_refused(changes.drop_last()) is Some {
        first_refused(changes.drop_last())
    } else if editable(changes.last().reference@) {
        None
    } else {
        Some(changes.last().reference@)
    }
}

/// The value that a list of changes leaves in a field: that of its last change.
pub open spec fn last_value(changes: Seq<FieldChange>, reference: Seq<char>) -> Option<Seq<char>>
    decreases changes.len(),
{
    if changes.len() == 0 {
        None
    } else if changes.last().reference@ == reference {
        Some(changes.last().value@)
    } else {
        last_value(changes.drop_last(), reference)
    }
}

/// The new title and description of an issue, as far as they change.
#[derive(Debug, Clone, PartialEq, Eq)]
pub struct IssuePatch {
    pub title: Option<String>,
    pub description: Option<String>,
}

/// The patch for a list of changes. An empty list is refused, and so is a change of any field but
/// title and description.
pub fn issue_patch(changes: &[FieldChange]) -> (r: Result<IssuePatch, ProviderError>)
    ensures
        match r {
            Ok(p) => {
                &&& changes@.len() > 0
                &&& first_refused(changes@) is None
                &&& opt_view(p.title) == last_value(changes@, "title"@)
                &&& opt_view(p.description) == last_value(changes@, "description"@)
            },
            Err(e) => {
                ||| changes@.len() == 0 && is_config_error(e, "no fields to update"@)
                ||| first_refused(changes@) is Some && is_config_error(
                    e,
                    "gitlab: field '"@ + first_refused(changes@)->0 + "' is not editable"@,
                )
            },
        },
{
    if changes.len() == 0 {
        return Err(ProviderError::Config("no fields to update".to_owned()));
    }
    proof {
        reveal_strlit("title");
        reveal_strlit("description");
        assert("title"@.len() != "description"@.len());
    }
    let mut patch: IssuePatch = IssuePatch { title: None, description: None };
    let mut i: usize = 0;
    while i < changes.len()
        invariant
            i <= changes@.len(),
            "title"@ != "description"@,
            first_refused(changes@.take(i as int)) is None,
            opt_view(patch.title) == last_value(changes@.take(i as int), "title"@),
            opt_view(patch.description) == last_value(changes@.take(i as int), "description"@),
        decreases changes@.len() - i,
    {
        proof {
            lemma_take_step(changes@, i as int);
        }
        let c: &FieldChange = &changes[i];
        if same(c.reference.as_str(), "title") {
            patch.title = Some(c.value.clone());
        } else if same(c.reference.as_str(), "description") {
            patch.description = Some(c.value.clone());
        } else {
            proof {
                lemma_found_stays(|l: Seq<FieldChange>| first_refused(l), changes@, i + 1);
            }
            return Err(
                ProviderError::Config(
                    cat3("gitlab: field '", c.reference.as_str(), "' is not editable"),
                ),
            );
        }
        i += 1;
    }
    assert(changes@.take(i as int) =~= changes@);
    Ok(patch)
}

/// The fields of an issue that the editor shows.
pub open spec fn issue_fields_of(issue: GlIssue) -> Seq<EditableFieldView> {
    seq![
        EditableFieldView {
            reference: "title"@,
            label: "Title"@,
            kind: FieldKind::Text,
            value: text_or_empty(issue.title),
            options: Seq::empty(),
            read_only: false,
            required: true,
            help: None,
        },
        EditableFieldView {
            reference: "description"@,
            label: "Description"@,
            kind: FieldKind::Markdown,
            value: text_or_empty(issue.description),
            options: Seq::empty(),
            read_only: false,
            required: false,
            help: None,
        },
    ]
}

/// The fields of an issue that the editor shows: its title and its description.
pub fn issue_fields(issue: &GlIssue) -> (r: Vec<EditableField>)
    ensures
        views(r@) == issue_fields_of(*issue),
{
    let r: Vec<EditableField> = vec![
        EditableField {
            reference: "title".to_owned(),
            label: "Title".to_owned(),
            kind: FieldKind::Text,
            value: unwrap_text(&issue.title),
            options: Vec::new(),
            read_only: false,
            required: true,
            help: None,
        },
        EditableField {
            reference: "description".to_owned(),
            label: "Description".to_owned(),
            kind: FieldKind::Markdown,
            value: unwrap_text(&issue.description),
            options: Vec::new(),
            read_only: false,
            required: false,
            help: None,
        },
    ];
    assert(views(r@) =~= issue_fields_of(*issue));
    r
}

/// The answer to an attempt to edit an issue's state or tags.
pub fn update_unsupported(id: i64) -> (r: ProviderError)
    ensures
        is_config_error(
            r,
            "gitlab update_work_item not yet implemented (#"@ + signed_decimal(id as int) + ")"@,
        ),
{
    ProviderError::Config(
        cat3("gitlab update_work_item not yet implemented (#", format_i64(id).as_str(), ")"),
    )
}

/// The answer to an attempt to link or unlink a merge request.
pub fn links_unsupported() -> (r: ProviderError)
    ensures
        is_config_error(r, "gitlab does not support explicit work-item<->MR links"@),
{
    ProviderError::Config("gitlab does not support explicit work-item<->MR links".to_owned())
}

// ---------------------------------------------------------------------------------------------
// What the answers hold
// ---------------------------------------------------------------------------------------------

/// A person; the name may be missing.
#[derive(Debug, Clone, PartialEq, Eq)]
pub struct GlUser {
    pub name: Option<String>,
}

/// An issue as GitLab gives it.
#[derive(Debug, Clone)]
pub struct GlIssue {
    pub iid: i64,
    pub title: Option<String>,
    pub description: Option<String>,
    pub state: Option<String>,
    pub labels: Vec<String>,
    pub assignee: Option<GlUser>,
    pub assignees: Vec<GlUser>,
    pub created_at: Option<Timestamp>,
    pub updated_at: Option<Timestamp>,
    pub closed_at: Option<Timestamp>,
    pub web_url: Option<String>,
}

/// A merge request as GitLab gives it.
#[derive(Debug, Clone)]
pub struct GlMergeRequest {
    pub iid: i64,
    pub title: Option<String>,
    pub state: Option<String>,
    pub draft: Option<bool>,
    pub author: Option<GlUser>,
    pub created_at: Option<Timestamp>,
    pub source_branch: Option<String>,
    pub target_branch: Option<String>,
    pub reviewers: Vec<GlUser>,
    pub web_url: Option<String>,
}

/// A pipeline as GitLab gives it; each is one execution.
#[derive(Debug, Clone)]
pub struct GlPipeline {
    pub id: i64,
    pub project_id: Option<i64>,
    pub status: Option<String>,
    pub ref_name: Option<String>,
    pub started_at: Option<Timestamp>,
    pub finished_at: Option<Timestamp>,
    pub created_at: Option<Timestamp>,
    pub updated_at: Option<Timestamp>,
    pub web_url: Option<String>,
    pub name: Option<String>,
}

/// The state of an issue in the library's terms; a state without a counterpart stays as it is.
pub open spec fn issue_state(state: Option<Seq<char>>) -> Seq<char> {
    match state {
        Some(s) => if s == "opened"@ {
            "Open"@
        } else if s == "closed"@ {
            "Closed"@
        } else {
            s
        },
        None => Seq::empty(),
    }
}

/// The state of an issue in the library's terms; a state without a counterpart stays as it is.
pub fn map_issue_state(state: Option<&str>) -> (r: String)
    ensures
        r@ == issue_state(
            match state {
                Some(s) => Some(s@),
                None => None,
            },
        ),
{
    match state {
        Some(s) => if same(s, "opened") {
            "Open".to_owned()
        } else if same(s, "closed") {
            "Closed".to_owned()
        } else {
            s.to_owned()
        },
        None => String::new(),
    }
}

/// The name of a person.
pub open spec fn name_of(u: Option<GlUser>) -> Option<Seq<char>> {
    match u {
        Some(user) => opt_view(user.name),
        None => None,
    }
}

/// The first name that is known among some people.
pub open spec fn first_name(users: Seq<GlUser>) -> Option<Seq<char>>
    decreases users.len(),
{
    if users.len() == 0 {
        None
    } else if first_name(users.drop_last()) is Some {
        first_name(users.drop_last())
    } else {
        opt_view(users.last().name)
    }
}

fn find_name(users: &Vec<GlUser>) -> (r: Option<String>)
    ensures
        opt_view(r) == first_name(users@),
{
    let mut i: usize = 0;
    while i < users.len()
        invariant
            i <= users@.len(),
            first_name(users@.take(i as int)) is None,
        decreases users@.len() - i,
    {
        proof {
            lemma_take_step(users@, i as int);
        }
        if users[i].name.is_some() {
            proof {
                lemma_found_stays(|l: Seq<GlUser>| first_name(l), users@, i + 1);
            }
            return clone_opt(&users[i].name);
        }
        i += 1;
    }
    None
}

fn user_name(u: &Option<GlUser>) -> (r: Option<String>)
    ensures
        opt_view(r) == name_of(*u),
{
    match u {
        Some(user) => clone_opt(&user.name),
        None => None,
    }
}

/// An issue in the library's terms.
pub open spec fn normalised_issue(raw: GlIssue, team: Seq<char>) -> WorkItemView {
    WorkItemView {
        id: raw.iid,
        provider: PROVIDER@,
        team,
        title: text_or_empty(raw.title),
        work_item_type: "Issue"@,
        state: issue_state(opt_view(raw.state)),
        tags: views(raw.labels@),
        assigned_to: match name_of(raw.assignee) {
            Some(n) => Some(n),
            None => first_name(raw.assignees@),
        },
        created_at: first_known(raw.created_at, raw.updated_at),
        changed_at: first_known(raw.updated_at, raw.created_at),
        closed_at: raw.closed_at,
        iteration_path: None,
        story_points: None,
        description: match raw.description {
            Some(d) => if d@.len() > 0 {
                Some(d@)
            } else {
                None
            },
            None => None,
        },
        url: text_or_empty(raw.web_url),
        linked_pr_ids: Seq::empty(),
        parent_id: None,
        linked_repos: Seq::empty(),
        linked_prs: Seq::empty(),
        tag_suggestions: Seq::empty(),
    }
}

/// An issue in the library's terms.
pub fn normalise_issue(raw: GlIssue, team: &str) -> (r: WorkItem)
    ensures
        r@ == normalised_issue(raw, team@),
{
    let assigned_to: Option<String> = match user_name(&raw.assignee) {
        Some(n) => Some(n),
        None => find_name(&raw.assignees),
    };
    let state: String = match &raw.state {
        Some(s) => map_issue_state(Some(s.as_str())),
        None => map_issue_state(None),
    };
    let description: Option<String> = match &raw.description {
        Some(d) => if d.as_str().is_empty() {
            None
        } else {
            Some(d.clone())
        },
        None => None,
    };
    let item: WorkItem = WorkItem {
        id: raw.iid,
        provider: PROVIDER.to_owned(),
        team: team.to_owned(),
        title: unwrap_text(&raw.title),
        work_item_type: "Issue".to_owned(),
        state,
        tags: clone_all(&raw.labels),
        assigned_to,
        created_at: known_time(raw.created_at, raw.updated_at),
        changed_at: known_time(raw.updated_at, raw.created_at),
        closed_at: raw.closed_at,
        iteration_path: None,
        story_points: None,
        description,
        url: unwrap_text(&raw.web_url),
        linked_pr_ids: Vec::new(),
        parent_id: None,
        linked_repos: Vec::new(),
        linked_prs: Vec::new(),
        tag_suggestions: Vec::new(),
    };
    assert(item@ =~= normalised_issue(raw, team@));
    item
}

/// The status of a merge request in the library's terms.
pub open spec fn mr_status(state: Option<Seq<char>>) -> PrStatus {
    match state {
        Some(s) => if s == "opened"@ || s == "locked"@ {
            PrStatus::Active
        } else if s == "merged"@ {
            PrStatus::Completed
        } else if s == "closed"@ {
            PrStatus::Abandoned
        } else {
            PrStatus::Unknown
        },
        None => PrStatus::Unknown,
    }
}

/// The status of a merge request in the library's terms.
pub fn map_mr_status(state: Option<&str>) -> (r: PrStatus)
    ensures
        r == mr_status(
            match state {
                Some(s) => Some(s@),
                None => None,
            },
        ),
{
    match state {
        Some(s) => if same(s, "opened") || same(s, "locked") {
            PrStatus::Active
        } else if same(s, "merged") {
            PrStatus::Completed
        } else if same(s, "closed") {
            PrStatus::Abandoned
        } else {
            PrStatus::Unknown
        },
        None => PrStatus::Unknown,
    }
}

/// A merge request in the library's terms.
pub open spec fn normalised_mr(raw: GlMergeRequest, team: Seq<char>) -> PullRequestView {
    PullRequestView {
        id: raw.iid,
        provider: PROVIDER@,
        team,
        title: text_or_empty(raw.title),
        status: mr_status(opt_view(raw.state)),
        is_draft: raw.draft == Some(true),
        repository: None,
        author: name_of(raw.author),
        created_at: raw.created_at,
        source_branch: opt_view(raw.source_branch),
        target_branch: opt_view(raw.target_branch),
        reviewer_count: raw.reviewers@.len() as usize as i64,
        url: text_or_empty(raw.web_url),
        flags: Seq::empty(),
        linked_work_items: Seq::empty(),
    }
}

/// A merge request in the library's terms.
pub fn normalise_merge_request(raw: GlMergeRequest, team: &str) -> (r: PullRequest)
    ensures
        r@ == normalised_mr(raw, team@),
{
    let status: PrStatus = match &raw.state {
        Some(s) => map_mr_status(Some(s.as_str())),
        None => map_mr_status(None),
    };
    let pr: PullRequest = PullRequest {
        id: raw.iid,
        provider: PROVIDER.to_owned(),
        team: team.to_owned(),
        title: unwrap_text(&raw.title),
        status,
        is_draft: match raw.draft {
            Some(d) => d,
            None => false,
        },
        repository: None,
        author: user_name(&raw.author),
        created_at: raw.created_at,
        source_branch: clone_opt(&raw.source_branch),
        target_branch: clone_opt(&raw.target_branch),
        reviewer_count: raw.reviewers.len() as i64,
        url: unwrap_text(&raw.web_url),
        flags: Vec::new(),
        linked_work_items: Vec::new(),
    };
    assert(pr@ =~= normalised_mr(raw, team@));
    pr
}

/// The status of a pipeline in the library's terms.
pub open spec fn pipeline_status(status: Option<Seq<char>>) -> RunStatus {
    match status {
        Some(s) => {
            let s = lower(s);
            if s == "success"@ {
                RunStatus::Succeeded
            } else if s == "failed"@ {
                RunStatus::Failed
            } else if s == "canceled"@ || s == "cancelled"@ {
                RunStatus::Canceled
            } else if s == "running"@ || s == "pending"@ || s == "created"@ || s == "preparing"@
                || s == "waiting_for_resource"@ || s == "scheduled"@ {
                RunStatus::Running
            } else {
                RunStatus::Unknown
            }
        },
        None => RunStatus::Unknown,
    }
}

/// The status of a pipeline in the library's terms; skipped and manual ones are unknown.
pub fn map_pipeline_status(status: Option<&str>) -> (r: RunStatus)
    ensures
        r == pipeline_status(
            match status {
                Some(s) => Some(s@),
                None => None,
            },
        ),
{
    match status {
        Some(s) => {
            let s: String = to_lower(s);
            let s: &str = s.as_str();
            if same(s, "success") {
                RunStatus::Succeeded
            } else if same(s, "failed") {
                RunStatus::Failed
            } else if same(s, "canceled") || same(s, "cancelled") {
                RunStatus::Canceled
            } else if same(s, "running") || same(s, "pending") || same(s, "created") || same(
                s,
                "preparing",
            ) || same(s, "waiting_for_resource") || same(s, "scheduled") {
                RunStatus::Running
            } else {
                RunStatus::Unknown
            }
        },
        None => RunStatus::Unknown,
    }
}

/// The first of two optional times that is given.
pub open spec fn either(a: Option<Timestamp>, b: Option<Timestamp>) -> Option<Timestamp> {
    if a is Some {
        a
    } else {
        b
    }
}

fn or_time(a: Option<Timestamp>, b: Option<Timestamp>) -> (r: Option<Timestamp>)
    ensures
        r == either(a, b),
{
    if a.is_some() {
        a
    } else {
        b
    }
}

/// A pipeline in the library's terms: called by its name, else by the branch that it ran on.
pub open spec fn normalised_pipeline(raw: GlPipeline, team: Seq<char>) -> PipelineView {
    PipelineView {
        id: raw.id,
        provider: PROVIDER@,
        team,
        name: match raw.name {
            Some(n) => if n@.len() > 0 {
                n@
            } else {
                text_or_empty(raw.ref_name)
            },
            None => text_or_empty(raw.ref_name),
        },
        folder: None,
        url: text_or_empty(raw.web_url),
        last_run_status: Some(pipeline_status(opt_view(raw.status))),
        last_run_at: either(raw.finished_at, raw.updated_at),
        last_run_url: opt_view(raw.web_url),
    }
}

fn status_of(raw: &GlPipeline) -> (r: RunStatus)
    ensures
        r == pipeline_status(opt_view(raw.status)),
{
    match &raw.status {
        Some(s) => map_pipeline_status(Some(s.as_str())),
        None => map_pipeline_status(None),
    }
}

/// A pipeline in the library's terms.
pub fn normalise_pipeline(raw: GlPipeline, team: &str) -> (r: Pipeline)
    ensures
        r@ == normalised_pipeline(raw, team@),
{
    let name: String = match &raw.name {
        Some(n) => if n.as_str().is_empty() {
            unwrap_text(&raw.ref_name)
        } else {
            n.clone()
        },
        None => unwrap_text(&raw.ref_name),
    };
    Pipeline {
        id: raw.id,
        provider: PROVIDER.to_owned(),
        team: team.to_owned(),
        name,
        folder: None,
        url: unwrap_text(&raw.web_url),
        last_run_status: Some(status_of(&raw)),
        last_run_at: or_time(raw.finished_at, raw.updated_at),
        last_run_url: clone_opt(&raw.web_url),
    }
}

/// A run in the library's terms. One that is over ended at its finish time or, where that is not
/// given, at its last update; one that still runs has no end.
pub open spec fn normalised_run(raw: GlPipeline, team: Seq<char>) -> PipelineRunView {
    let status = pipeline_status(opt_view(raw.status));
    PipelineRunView {
        id: raw.id,
        pipeline_id: match raw.project_id {
            Some(p) => p,
            None => 0,
        },
        provider: PROVIDER@,
        team,
        status,
        started_at: either(raw.started_at, raw.created_at),
        finished_at: if status != RunStatus::Running {
            either(raw.finished_at, raw.updated_at)
        } else {
            raw.finished_at
        },
        source_branch: opt_view(raw.ref_name),
        url: text_or_empty(raw.web_url),
    }
}

/// A run in the library's terms.
pub fn normalise_run(raw: GlPipeline, team: &str) -> (r: PipelineRun)
    ensures
        r@ == normalised_run(raw, team@),
{
    let status: RunStatus = status_of(&raw);
    let finished_at: Option<Timestamp> = if status.is_terminal() {
        or_time(raw.finished_at, raw.updated_at)
    } else {
        raw.finished_at
    };
    PipelineRun {
        id: raw.id,
        pipeline_id: match raw.project_id {
            Some(p) => p,
            None => 0,
        },
        provider: PROVIDER.to_owned(),
        team: team.to_owned(),
        status,
        started_at: or_time(raw.started_at, raw.created_at),
        finished_at,
        source_branch: clone_opt(&raw.ref_name),
        url: unwrap_text(&raw.web_url),
    }
}

/// Whether a run counts as recent: it started at `since` or later, or its start is not known.
pub open spec fn recent(run: PipelineRunView, since: Timestamp) -> bool {
    run.started_at matches Some(t) ==> t.total() >= since.total()
}

/// The runs of the list that are recent, in order.
pub open spec fn recent_of(runs: Seq<PipelineRunView>, since: Timestamp) -> Seq<PipelineRunView>
    decreases runs.len(),
{
    if runs.len() == 0 {
        Seq::empty()
    } else if recent(runs.last(), since) {
        recent_of(runs.drop_last(), since).push(runs.last())
    } else {
        recent_of(runs.drop_last(), since)
    }
}

/// The runs of some pipelines, in the library's terms.
pub open spec fn runs_of(raw: Seq<GlPipeline>, team: Seq<char>) -> Seq<PipelineRunView> {
    Seq::new(raw.len(), |i: int| normalised_run(raw[i], team))
}

fn clone_pipeline(p: &GlPipeline) -> (r: GlPipeline)
    ensures
        r == *p,
{
    GlPipeline {
        id: p.id,
        project_id: p.project_id,
        status: clone_opt(&p.status),
        ref_name: clone_opt(&p.ref_name),
        started_at: p.started_at,
        finished_at: p.finished_at,
        created_at: p.created_at,
        updated_at: p.updated_at,
        web_url: clone_opt(&p.web_url),
        name: clone_opt(&p.name),
    }
}

/// The recent runs among some pipelines, in the library's terms.
pub fn recent_runs(raw: &Vec<GlPipeline>, team: &str, since: Timestamp) -> (r: Vec<PipelineRun>)
    ensures
        views(r@) == recent_of(runs_of(raw@, team@), since),
{
    let ghost all = runs_of(raw@, team@);
    let mut out: Vec<PipelineRun> = Vec::new();
    let mut i: usize = 0;
    while i < raw.len()
        invariant
            i <= raw@.len(),
            all == runs_of(raw@, team@),
            views(out@) == recent_of(all.take(i as int), since),
        decreases raw@.len() - i,
    {
        proof {
            lemma_take_step(all, i as int);
        }
        let run: PipelineRun = normalise_run(clone_pipeline(&raw[i]), team);
        assert(run@ == all[i as int]);
        let keep: bool = match run.started_at {
            Some(t) => t.at_or_after(since),
            None => true,
        };
        if keep {
            out.push(run);
        }
        i += 1;
    }
    assert(all.take(i as int) =~= all);
    out
}

} // verus!
