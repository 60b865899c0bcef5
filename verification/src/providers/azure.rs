//! Azure DevOps: addresses, patches, and what its answers mean.
use super::error::{is_config_error, ProviderError};
use super::queries::{build_wiql, is_result_limit, result_limit, wiql};
use super::richtext::{md_to_html, html_of, plain_text, strip_html};
use super::url::{enc, encoded_segment};
use crate::config::TeamConfig;
use crate::editable_field::FieldChange;
use crate::number::{
    decimal, format_i64, format_usize, law_numbers_read_back, lemma_decimal_reads_back, parse_i64,
    parsed_i64, signed_decimal,
};
use crate::order::holds_id;
use crate::pipeline::{Pipeline, PipelineRun, PipelineRunView, PipelineView, RunStatus};
use crate::pull_request::{pr_status_of, PrStatus, PullRequest, PullRequestView};
use crate::text::{
    after_last, any_eq_ignoring_case, any_same, cat2, cat3, chars_of, clone_opt, contains,
    eq_ignoring_case, find_next, group_text, is_blank, join, joined, last_piece,
    lemma_after_last_found, lemma_after_last_keeps_tail, lemma_replaced_keeps_tail,
    lemma_found_stays, lemma_take_step, lower, next_at, occurs, occurs_at, opt_view, pieces,
    replace, replaced, same, same_ignoring_case, split, string_of, strip_end, strip_prefixes,
    stripped_end, to_lower, trim, trimmed, views, without_prefixes,
};
use crate::time::{Timestamp};
use crate::work_item::{WorkItem, WorkItemUpdate, WorkItemView};
use vstd::prelude::*;

pub mod laws;

verus! {

broadcast use group_text;

pub const API_VERSION: &'static str = "7.1";

pub const PROVIDER: &'static str = "azure-devops";

/// The audience that an OAuth token for Azure DevOps must name.
pub const AZURE_DEVOPS_RESOURCE: &'static str = "499b84ac-1321-427f-aa17-267ca6975798";

/// A pending sign-in: the user opens `url` and enters `code`.
#[derive(Debug, Clone, PartialEq, Eq)]
pub struct DeviceCode {
    pub url: String,
    pub code: String,
}

// ---------------------------------------------------------------------------------------------
// The provider
// ---------------------------------------------------------------------------------------------

/// One Azure DevOps project, as a team scopes it.
#[derive(Debug)]
pub struct AzureDevOpsProvider {
    pub team_name: String,
    /// The organisation's address, without trailing slashes.
    pub organization: String,
    pub ado_project: String,
    pub wiql: String,
    pub area_path: Option<String>,
    pub area_path_strict: bool,
    /// Whether `wiql` is the team's own query, which cannot be narrowed by id.
    pub wiql_is_custom: bool,
    /// The pipelines to look at; all of them where none are named.
    pub pipeline_ids: Vec<i64>,
}

/// A copy of a list of ids.
fn clone_ids(v: &Vec<i64>) -> (r: Vec<i64>)
    ensures
        r@ == v@,
{
    let mut r: Vec<i64> = Vec::new();
    let mut i: usize = 0;
    while i < v.len()
        invariant
            i <= v@.len(),
            r@ == v@.take(i as int),
        decreases v@.len() - i,
    {
        r.push(v[i]);
        assert(r@ =~= v@.take(i + 1));
        i += 1;
    }
    r
}

/// The address of an endpoint of a project.
pub open spec fn project_address(
    organization: Seq<char>,
    project: Seq<char>,
    tail: Seq<char>,
    query: Seq<char>,
) -> Seq<char> {
    organization + "/"@ + encoded_segment(project) + "/_apis/"@ + tail + "?api-version="@
        + API_VERSION@ + (if query.len() == 0 {
        ""@
    } else {
        "&"@
    }) + query
}

/// The address of an endpoint of an organisation.
pub open spec fn organization_address(organization: Seq<char>, tail: Seq<char>) -> Seq<char> {
    organization + "/_apis/"@ + tail + "?api-version="@ + API_VERSION@
}

impl AzureDevOpsProvider {
    /// The provider of a team. The team's own query is taken as it is; else the query is built
    /// from the area path.
    pub fn new(cfg: &TeamConfig) -> (r: Self)
        ensures
            r.team_name == cfg.name,
            r.organization@ == stripped_end(cfg.organization@, "/"@),
            r.ado_project == cfg.project,
            r.wiql@ == (match cfg.wiql {
                Some(q) => q@,
                None => wiql(opt_view(cfg.area_path), cfg.area_path_strict, None),
            }),
            r.area_path == cfg.area_path,
            r.area_path_strict == cfg.area_path_strict,
            r.wiql_is_custom == (cfg.wiql is Some),
            r.pipeline_ids@ == cfg.pipeline_ids@,
    {
        AzureDevOpsProvider {
            team_name: cfg.name.clone(),
            organization: strip_end(cfg.organization.as_str(), "/"),
            ado_project: cfg.project.clone(),
            wiql: match &cfg.wiql {
                Some(q) => q.clone(),
                None => {
                    let area: Option<&str> = match &cfg.area_path {
                        Some(a) => Some(a.as_str()),
                        None => None,
                    };
                    build_wiql(area, cfg.area_path_strict, None)
                },
            },
            area_path: clone_opt(&cfg.area_path),
            area_path_strict: cfg.area_path_strict,
            wiql_is_custom: cfg.wiql.is_some(),
            pipeline_ids: clone_ids(&cfg.pipeline_ids),
        }
    }

    /// The address of an endpoint of the project.
    pub fn project_url(&self, tail: &str, extra_query: &str) -> (r: String)
        ensures
            r@ == project_address(self.organization@, self.ado_project@, tail@, extra_query@),
    {
        let mut r: String = cat3(
            self.organization.as_str(),
            "/",
            enc(self.ado_project.as_str()).as_str(),
        );
        r.append("/_apis/");
        r.append(tail);
        r.append("?api-version=");
        r.append(API_VERSION);
        r.append(
            if extra_query.is_empty() {
                ""
            } else {
                "&"
            },
        );
        r.append(extra_query);
        r
    }

    /// The address of an endpoint of the organisation.
    pub fn org_url(&self, tail: &str) -> (r: String)
        ensures
            r@ == organization_address(self.organization@, tail@),
    {
        let mut r: String = cat3(self.organization.as_str(), "/_apis/", tail);
        r.append("?api-version=");
        r.append(API_VERSION);
        r
    }

    /// The query for the ids of a range.
    pub fn range_query(&self, lo: i64, hi: i64) -> (r: String)
        ensures
            r@ == wiql(opt_view(self.area_path), self.area_path_strict, Some((lo, hi))),
    {
        let area: Option<&str> = match &self.area_path {
            Some(a) => Some(a.as_str()),
            None => None,
        };
        build_wiql(area, self.area_path_strict, Some((lo, hi)))
    }

    /// Whether a failed query is to be retried range by range.
    pub fn should_chunk(&self, e: &ProviderError) -> (r: bool)
        ensures
            r == (result_limit(*e) && !self.wiql_is_custom),
    {
        is_result_limit(e) && !self.wiql_is_custom
    }

    /// Of a list of pipelines, those that the team looks at.
    pub fn wanted_pipelines(&self, all: Vec<Pipeline>) -> (r: Vec<Pipeline>)
        ensures
            r@ == wanted(self.pipeline_ids@, all@),
    {
        if self.pipeline_ids.len() == 0 {
            return all;
        }
        let ghost list = all@;
        let mut all: Vec<Pipeline> = all;
        let mut reversed: Vec<Pipeline> = Vec::new();
        while all.len() > 0
            invariant
                all@.len() <= list.len(),
                all@ == list.take(all@.len() as int),
                reversed@.len() + all@.len() == list.len(),
                forall|k: int|
                    0 <= k < reversed@.len() ==> reversed@[k] == list[list.len() - 1 - k],
            decreases all@.len(),
        {
            match all.pop() {
                Some(p) => {
                    reversed.push(p);
                },
                None => {},
            }
        }
        let mut r: Vec<Pipeline> = Vec::new();
        let ghost mut done: int = 0;
        assert(list.take(0) =~= Seq::<Pipeline>::empty());
        while reversed.len() > 0
            invariant
                self.pipeline_ids@.len() > 0,
                0 <= done,
                done + reversed@.len() == list.len(),
                forall|k: int|
                    0 <= k < reversed@.len() ==> reversed@[k] == list[list.len() - 1 - k],
                r@ == chosen(self.pipeline_ids@, list.take(done)),
            decreases reversed@.len(),
        {
            proof {
                lemma_take_step(list, done);
            }
            match reversed.pop() {
                Some(p) => {
                    assert(p == list[done]);
                    if holds_id(&self.pipeline_ids, p.id) {
                        r.push(p);
                    }
                },
                None => {},
            }
            proof {
                done = done + 1;
            }
        }
        r
    }

    /// The query for the runs since a point in time; `None` where it has no RFC 3339 form.
    pub fn runs_query_since(&self, since: Timestamp) -> (r: Option<String>)
        ensures
            opt_view(r) == (match crate::time::rfc3339_of(since.secs, since.nanos) {
                Some(text) => Some(
                    "$top=200&minTime="@ + text + (if self.pipeline_ids@.len() == 0 {
                        Seq::empty()
                    } else {
                        "&definitions="@ + joined(id_texts(self.pipeline_ids@), ","@)
                    }),
                ),
                None => None,
            }),
    {
        match since.to_rfc3339() {
            Some(text) => Some(self.runs_query(text.as_str())),
            None => None,
        }
    }

    /// The query for the runs since a time, which is given in RFC 3339 form.
    pub fn runs_query(&self, since: &str) -> (r: String)
        ensures
            r@ == "$top=200&minTime="@ + since@ + (if self.pipeline_ids@.len() == 0 {
                Seq::empty()
            } else {
                "&definitions="@ + joined(id_texts(self.pipeline_ids@), ","@)
            }),
    {
        let mut r: String = cat2("$top=200&minTime=", since);
        if self.pipeline_ids.len() > 0 {
            let mut texts: Vec<String> = Vec::new();
            let mut i: usize = 0;
            while i < self.pipeline_ids.len()
                invariant
                    i <= self.pipeline_ids@.len(),
                    views(texts@) == id_texts(self.pipeline_ids@).take(i as int),
                decreases self.pipeline_ids@.len() - i,
            {
                texts.push(format_i64(self.pipeline_ids[i]));
                assert(views(texts@) =~= id_texts(self.pipeline_ids@).take(i + 1));
                i += 1;
            }
            r.append("&definitions=");
            r.append(join(&texts, ",").as_str());
        }
        assert(r@ =~= "$top=200&minTime="@ + since@ + (if self.pipeline_ids@.len() == 0 {
            Seq::empty()
        } else {
            "&definitions="@ + joined(id_texts(self.pipeline_ids@), ","@)
        }));
        r
    }
}

/// The decimal forms of a list of ids.
pub open spec fn id_texts(ids: Seq<i64>) -> Seq<Seq<char>> {
    Seq::new(ids.len(), |i: int| signed_decimal(ids[i] as int))
}

/// The pipelines of the list whose ids are named.
pub open spec fn chosen(ids: Seq<i64>, all: Seq<Pipeline>) -> Seq<Pipeline>
    decreases all.len(),
{
    if all.len() == 0 {
        Seq::empty()
    } else if ids.contains(all.last().id) {
        chosen(ids, all.drop_last()).push(all.last())
    } else {
        chosen(ids, all.drop_last())
    }
}

/// The pipelines that a team looks at: those named, or all where none are.
pub open spec fn wanted(ids: Seq<i64>, all: Seq<Pipeline>) -> Seq<Pipeline> {
    if ids.len() == 0 {
        all
    } else {
        chosen(ids, all)
    }
}

// ---------------------------------------------------------------------------------------------
// Patches
// ---------------------------------------------------------------------------------------------

/// One step of a patch to a work item.
#[derive(Debug, Clone, PartialEq, Eq)]
pub enum PatchOp {
    Add { path: String, value: String },
    Replace { path: String, value: String },
    Remove { path: String },
    /// Adds a link to a pull request, named by its artifact address.
    LinkPullRequest { artifact: String },
}

pub enum PatchOpView {
    Add { path: Seq<char>, value: Seq<char> },
    Replace { path: Seq<char>, value: Seq<char> },
    Remove { path: Seq<char> },
    LinkPullRequest { artifact: Seq<char> },
}

impl View for PatchOp {
    type V = PatchOpView;

    open spec fn view(&self) -> PatchOpView {
        match self {
            PatchOp::Add { path, value } => PatchOpView::Add { path: path@, value: value@ },
            PatchOp::Replace { path, value } => PatchOpView::Replace { path: path@, value: value@ },
            PatchOp::Remove { path } => PatchOpView::Remove { path: path@ },
            PatchOp::LinkPullRequest { artifact } => PatchOpView::LinkPullRequest {
                artifact: artifact@,
            },
        }
    }
}

/// The patch for an edit: the state is set, the tags are replaced as a whole.
pub open spec fn update_patch(u: WorkItemUpdate) -> Seq<PatchOpView> {
    let state_ops = match u.state {
        Some(s) => seq![PatchOpView::Add { path: "/fields/System.State"@, value: s@ }],
        None => Seq::empty(),
    };
    let tag_ops = match u.tags {
        Some(t) => seq![
            PatchOpView::Replace { path: "/fields/System.Tags"@, value: joined(views(t@), "; "@) },
        ],
        None => Seq::empty(),
    };
    state_ops + tag_ops
}

/// The patch for an edit; an edit of nothing is refused.
pub fn update_ops(update: &WorkItemUpdate) -> (r: Result<Vec<PatchOp>, ProviderError>)
    ensures
        match r {
            Ok(ops) => !(update.state is None && update.tags is None) && views(ops@)
                == update_patch(*update),
            Err(e) => update.state is None && update.tags is None && is_config_error(
                e,
                "no fields to update"@,
            ),
        },
{
    if update.is_empty() {
        return Err(ProviderError::Config("no fields to update".to_owned()));
    }
    let mut ops: Vec<PatchOp> = Vec::new();
    match &update.state {
        Some(s) => {
            ops.push(
                PatchOp::Add { path: "/fields/System.State".to_owned(), value: s.clone() },
            );
        },
        None => {},
    }
    match &update.tags {
        Some(t) => {
            ops.push(
                PatchOp::Replace { path: "/fields/System.Tags".to_owned(), value: join(t, "; ") },
            );
        },
        None => {},
    }
    assert(views(ops@) =~= update_patch(*update));
    Ok(ops)
}

/// The patch that links a pull request.
pub fn link_ops(artifact: String) -> (r: Vec<PatchOp>)
    ensures
        views(r@) =~= seq![PatchOpView::LinkPullRequest { artifact: artifact@ }],
{
    vec![PatchOp::LinkPullRequest { artifact }]
}

/// The position of the first relation that links the pull request.
pub open spec fn link_position(relations: Seq<AdoRelation>, pr_id: i64) -> Option<nat>
    decreases relations.len(),
{
    if relations.len() == 0 {
        None
    } else if link_position(relations.drop_last(), pr_id) is Some {
        link_position(relations.drop_last(), pr_id)
    } else if linked_pr(relations.last()) == Some(pr_id) {
        Some((relations.len() - 1) as nat)
    } else {
        None
    }
}

/// The patch that removes the link to a pull request; refused where there is none.
pub fn unlink_ops(relations: &Vec<AdoRelation>, work_item_id: i64, pr_id: i64) -> (r: Result<
    Vec<PatchOp>,
    ProviderError,
>)
    ensures
        match r {
            Ok(ops) => link_position(relations@, pr_id) matches Some(at) && views(ops@) == seq![
                PatchOpView::Remove { path: "/relations/"@ + decimal(at) },
            ],
            Err(e) => link_position(relations@, pr_id) is None && is_config_error(
                e,
                "work item "@ + signed_decimal(work_item_id as int) + " has no link to PR "@
                    + signed_decimal(pr_id as int),
            ),
        },
{
    let mut i: usize = 0;
    while i < relations.len()
        invariant
            i <= relations@.len(),
            link_position(relations@.take(i as int), pr_id) is None,
        decreases relations@.len() - i,
    {
        proof {
            lemma_take_step(relations@, i as int);
        }
        match pr_id_from_relation(&relations[i]) {
            Some(id) => {
                if id == pr_id {
                    proof {
                        lemma_found_stays(
                            |l: Seq<AdoRelation>| link_position(l, pr_id),
                            relations@,
                            i + 1,
                        );
                    }
                    let ops: Vec<PatchOp> = vec![
                        PatchOp::Remove { path: cat2("/relations/", format_usize(i).as_str()) },
                    ];
                    assert(views(ops@) =~= seq![
                        PatchOpView::Remove { path: "/relations/"@ + decimal(i as nat) },
                    ]);
                    return Ok(ops);
                }
            },
            None => {},
        }
        i += 1;
    }
    let mut m: String = cat3(
        "work item ",
        format_i64(work_item_id).as_str(),
        " has no link to PR ",
    );
    m.append(format_i64(pr_id).as_str());
    Err(ProviderError::Config(m))
}

/// The value to write for a field: HTML for a rich field, the text as it is for another.
pub open spec fn written_value(html_fields: Seq<Seq<char>>, c: FieldChange) -> Seq<char> {
    if html_fields.contains(c.reference@) {
        html_of(c.value@)
    } else {
        c.value@
    }
}

/// The patch for a list of changed fields.
pub open spec fn fields_patch(html_fields: Seq<Seq<char>>, changes: Seq<FieldChange>) -> Seq<
    PatchOpView,
> {
    Seq::new(
        changes.len(),
        |i: int|
            PatchOpView::Add {
                path: "/fields/"@ + changes[i].reference@,
                value: written_value(html_fields, changes[i]),
            },
    )
}

/// The patch for a list of changed fields; an empty list is refused. `html_fields` names the
/// fields that hold HTML: what the editor has of those is Markdown.
pub fn update_field_ops(changes: &[FieldChange], html_fields: &Vec<String>) -> (r: Result<
    Vec<PatchOp>,
    ProviderError,
>)
    ensures
        match r {
            Ok(ops) => changes@.len() > 0 && views(ops@) == fields_patch(
                views(html_fields@),
                changes@,
            ),
            Err(e) => changes@.len() == 0 && is_config_error(e, "no fields to update"@),
        },
{
    if changes.len() == 0 {
        return Err(ProviderError::Config("no fields to update".to_owned()));
    }
    let mut ops: Vec<PatchOp> = Vec::new();
    let ghost all = fields_patch(views(html_fields@), changes@);
    let mut i: usize = 0;
    while i < changes.len()
        invariant
            i <= changes@.len(),
            all == fields_patch(views(html_fields@), changes@),
            views(ops@) == all.take(i as int),
        decreases changes@.len() - i,
    {
        let c: &FieldChange = &changes[i];
        let value: String = if crate::text::list_contains(html_fields, c.reference.as_str()) {
            md_to_html(c.value.as_str())
        } else {
            c.value.clone()
        };
        ops.push(PatchOp::Add { path: cat2("/fields/", c.reference.as_str()), value });
        assert(views(ops@) =~= all.take(i + 1));
        i += 1;
    }
    assert(all.take(i as int) =~= all);
    Ok(ops)
}

// ---------------------------------------------------------------------------------------------
// What the answers hold
// ---------------------------------------------------------------------------------------------

/// A relation of a work item.
#[derive(Debug, Clone, PartialEq, Eq)]
pub struct AdoRelation {
    pub rel: String,
    pub url: String,
}

/// The fields of a work item that are read.
#[derive(Debug, Clone)]
pub struct AdoFields {
    pub title: Option<String>,
    pub work_item_type: Option<String>,
    pub state: Option<String>,
    pub tags: Option<String>,
    /// The display name of the person that the item is assigned to.
    pub assigned_to: Option<String>,
    pub created_date: Option<Timestamp>,
    pub changed_date: Option<Timestamp>,
    pub closed_date: Option<Timestamp>,
    pub iteration_path: Option<String>,
    pub story_points: Option<String>,
    pub description: Option<String>,
    pub repro_steps: Option<String>,
}

impl Default for AdoFields {
    fn default() -> (r: Self)
        ensures
            r.title is None,
            r.work_item_type is None,
            r.state is None,
            r.tags is None,
            r.assigned_to is None,
            r.created_date is None,
            r.changed_date is None,
            r.closed_date is None,
            r.iteration_path is None,
            r.story_points is None,
            r.description is None,
            r.repro_steps is None,
    {
        AdoFields {
            title: None,
            work_item_type: None,
            state: None,
            tags: None,
            assigned_to: None,
            created_date: None,
            changed_date: None,
            closed_date: None,
            iteration_path: None,
            story_points: None,
            description: None,
            repro_steps: None,
        }
    }
}

/// A work item as Azure DevOps gives it.
#[derive(Debug, Clone)]
pub struct AdoWorkItem {
    pub id: i64,
    pub fields: AdoFields,
    /// The item's page, where the answer links it.
    pub html_url: Option<String>,
    pub relations: Vec<AdoRelation>,
}

/// A build as Azure DevOps gives it.
#[derive(Debug, Clone)]
pub struct AdoBuild {
    pub id: i64,
    pub status: Option<String>,
    pub result: Option<String>,
    pub start_time: Option<Timestamp>,
    pub finish_time: Option<Timestamp>,
    pub source_branch: Option<String>,
    pub definition_id: Option<i64>,
    pub web_url: Option<String>,
}

/// A pipeline definition as Azure DevOps gives it.
#[derive(Debug, Clone)]
pub struct AdoDefinition {
    pub id: i64,
    pub name: String,
    pub path: Option<String>,
    pub web_url: Option<String>,
    pub latest_completed_build: Option<AdoBuild>,
}

/// A repository as a pull request names it.
#[derive(Debug, Clone, PartialEq, Eq)]
pub struct AdoRepository {
    pub name: Option<String>,
    pub id: Option<String>,
    pub project_id: Option<String>,
    pub project_name: Option<String>,
}

/// A pull request as Azure DevOps gives it.
#[derive(Debug, Clone)]
pub struct AdoPullRequest {
    pub pull_request_id: i64,
    pub title: Option<String>,
    pub status: Option<String>,
    pub is_draft: Option<bool>,
    pub created_by: Option<String>,
    pub creation_date: Option<Timestamp>,
    pub repository: Option<AdoRepository>,
    pub source_ref: Option<String>,
    pub target_ref: Option<String>,
    pub reviewers: usize,
}

/// The pull request that a relation links.
pub open spec fn linked_pr(rel: AdoRelation) -> Option<i64> {
    if !same_ignoring_case(rel.rel@, "ArtifactLink"@) || !occurs(rel.url@, "PullRequestId"@) {
        None
    } else {
        let last = after_last(
            after_last(replaced(rel.url@, "%2f"@, "%2F"@), "/"@),
            "%2F"@,
        );
        match parsed_i64(last) {
            Some(n) => Some(n as i64),
            None => None,
        }
    }
}

/// The pull request that a relation links: the number at the end of an artifact address, after a
/// slash that may be percent-encoded in either case.
pub fn pr_id_from_relation(rel: &AdoRelation) -> (r: Option<i64>)
    ensures
        r == linked_pr(*rel),
{
    if !eq_ignoring_case(rel.rel.as_str(), "ArtifactLink") || !contains(
        rel.url.as_str(),
        "PullRequestId",
    ) {
        return None;
    }
    proof {
        reveal_strlit("%2f");
        reveal_strlit("%2F");
        reveal_strlit("/");
    }
    let normalised: String = replace(rel.url.as_str(), "%2f", "%2F");
    let segment: String = last_piece(normalised.as_str(), "/");
    let last: String = last_piece(segment.as_str(), "%2F");
    parse_i64(last.as_str())
}

/// The parent that a relation names.
pub open spec fn parent_of(rel: AdoRelation) -> Option<i64> {
    if !same_ignoring_case(rel.rel@, "System.LinkTypes.Hierarchy-Reverse"@) {
        None
    } else {
        match parsed_i64(after_last(stripped_end(rel.url@, "/"@), "/"@)) {
            Some(n) => Some(n as i64),
            None => None,
        }
    }
}

/// The parent that a relation names: the number at the end of its address.
pub fn parent_id_from_relation(rel: &AdoRelation) -> (r: Option<i64>)
    ensures
        r == parent_of(*rel),
{
    if !eq_ignoring_case(rel.rel.as_str(), "System.LinkTypes.Hierarchy-Reverse") {
        return None;
    }
    proof {
        reveal_strlit("/");
    }
    let url: String = strip_end(rel.url.as_str(), "/");
    let last: String = last_piece(url.as_str(), "/");
    parse_i64(last.as_str())
}

/// The pull requests that relations link, in order.
pub open spec fn linked_prs_of(relations: Seq<AdoRelation>) -> Seq<i64>
    decreases relations.len(),
{
    if relations.len() == 0 {
        Seq::empty()
    } else {
        match linked_pr(relations.last()) {
            Some(id) => linked_prs_of(relations.drop_last()).push(id),
            None => linked_prs_of(relations.drop_last()),
        }
    }
}

/// The parent that the first hierarchy relation names.
pub open spec fn first_parent(relations: Seq<AdoRelation>) -> Option<i64>
    decreases relations.len(),
{
    if relations.len() == 0 {
        None
    } else if first_parent(relations.drop_last()) is Some {
        first_parent(relations.drop_last())
    } else {
        parent_of(relations.last())
    }
}

/// The texts in which repository links are looked for: the bodies, then each hyperlink.
pub open spec fn with_hyperlinks(bodies: Seq<char>, relations: Seq<AdoRelation>) -> Seq<char>
    decreases relations.len(),
{
    if relations.len() == 0 {
        bodies
    } else {
        let head = with_hyperlinks(bodies, relations.drop_last());
        if same_ignoring_case(relations.last().rel@, "Hyperlink"@) {
            head.push(' ') + relations.last().url@
        } else {
            head
        }
    }
}

// ---------------------------------------------------------------------------------------------
// Repository links
// ---------------------------------------------------------------------------------------------

/// What stands before a repository's name in a link.
pub const GIT_MARK: &'static str = "/_git/";

/// What ends a repository's name in a link.
pub const NAME_STOPS: &'static str = "/?&#)\"'< \n\r\t";

/// The first position at or after `i` that holds a character of `stops`, or the end.
pub open spec fn name_end(s: Seq<char>, i: int, stops: Seq<char>) -> int
    decreases s.len() - i,
{
    if i < 0 || i >= s.len() || stops.contains(s[i]) {
        i
    } else {
        name_end(s, i + 1, stops)
    }
}

/// The repository name that starts at position `i`.
pub open spec fn name_at(s: Seq<char>, i: int) -> Seq<char> {
    trimmed(replaced(s.subrange(i, name_end(s, i, NAME_STOPS@)), "%20"@, " "@))
}

/// The repository names after each mark at or after `from`, in order.
pub open spec fn names_from(s: Seq<char>, from: int) -> Seq<Seq<char>>
    decreases s.len() - from,
{
    match next_at(s, GIT_MARK@, from) {
        Some(i) => if from >= 0 && i >= from && GIT_MARK@.len() > 0 && i + GIT_MARK@.len()
            <= s.len() {
            seq![name_at(s, i + GIT_MARK@.len())] + names_from(s, i + GIT_MARK@.len())
        } else {
            Seq::empty()
        },
        None => Seq::empty(),
    }
}

/// The names of a list, empty ones aside, each once but for ASCII case.
pub open spec fn distinct_names(list: Seq<Seq<char>>) -> Seq<Seq<char>>
    decreases list.len(),
{
    if list.len() == 0 {
        Seq::empty()
    } else {
        let head = distinct_names(list.drop_last());
        if list.last().len() == 0 || any_same(head, list.last()) {
            head
        } else {
            head.push(list.last())
        }
    }
}

/// The repositories that a text links, each once.
pub open spec fn repos_of(s: Seq<char>) -> Seq<Seq<char>> {
    distinct_names(names_from(s, 0))
}

/// The end of the name that starts at `from`.
fn find_name_end(cs: &Vec<char>, from: usize, stops: &Vec<char>) -> (r: usize)
    requires
        from <= cs@.len(),
    ensures
        r == name_end(cs@, from as int, stops@),
        from <= r <= cs@.len(),
{
    let mut i: usize = from;
    while i < cs.len()
        invariant
            from <= i <= cs@.len(),
            name_end(cs@, from as int, stops@) == name_end(cs@, i as int, stops@),
        decreases cs@.len() - i,
    {
        let c: char = cs[i];
        let mut k: usize = 0;
        while k < stops.len()
            invariant
                i < cs@.len(),
                c == cs@[i as int],
                k <= stops@.len(),
                from <= i,
                name_end(cs@, from as int, stops@) == name_end(cs@, i as int, stops@),
                forall|j: int| 0 <= j < k ==> stops@[j] != c,
            decreases stops@.len() - k,
        {
            if stops[k] == c {
                assert(stops@.contains(cs@[i as int]));
                return i;
            }
            k += 1;
        }
        assert(!stops@.contains(cs@[i as int]));
        i += 1;
    }
    i
}

/// The repositories that a text links, each once.
pub fn extract_repos(text: &str) -> (r: Vec<String>)
    ensures
        views(r@) == repos_of(text@),
{
    let cs: Vec<char> = chars_of(text);
    let mark: Vec<char> = chars_of(GIT_MARK);
    let stops: Vec<char> = chars_of(NAME_STOPS);
    let total: usize = cs.len();
    let mut out: Vec<String> = Vec::new();
    let mut from: usize = 0;
    let ghost mut seen: Seq<Seq<char>> = Seq::empty();
    proof {
        reveal_strlit("/_git/");
        reveal_strlit("%20");
        assert(seen + names_from(text@, 0) =~= names_from(text@, 0));
    }
    loop
        invariant
            cs@ == text@,
            mark@ == GIT_MARK@,
            stops@ == NAME_STOPS@,
            mark@.len() == 6,
            "%20"@.len() == 3,
            total == text@.len(),
            from <= text@.len(),
            names_from(text@, 0) == seen + names_from(text@, from as int),
            views(out@) == distinct_names(seen),
        decreases text@.len() - from,
    {
        match find_next(&cs, &mark, from) {
            Some(i) => {
                let start: usize = i + mark.len();
                let end: usize = find_name_end(&cs, start, &stops);
                let segment: String = string_of(&cs, start, end);
                let spaced: String = replace(segment.as_str(), "%20", " ");
                let repo: String = trim(spaced.as_str());
                proof {
                    let name = name_at(text@, start as int);
                    assert(repo@ == name);
                    let rest = names_from(text@, start as int);
                    assert(seen + (seq![name] + rest) =~= seen.push(name) + rest);
                    assert(seen.push(name).drop_last() =~= seen);
                    seen = seen.push(name);
                }
                if !repo.as_str().is_empty() && !any_eq_ignoring_case(&out, repo.as_str()) {
                    out.push(repo);
                }
                from = start;
            },
            None => {
                assert(seen + Seq::<Seq<char>>::empty() =~= seen);
                return out;
            },
        }
    }
}

// ---------------------------------------------------------------------------------------------
// From answers to items
// ---------------------------------------------------------------------------------------------

/// The texts of a list, trimmed, that are not blank.
pub open spec fn trimmed_texts(list: Seq<Seq<char>>) -> Seq<Seq<char>>
    decreases list.len(),
{
    if list.len() == 0 {
        Seq::empty()
    } else {
        let t = trimmed(list.last());
        let head = trimmed_texts(list.drop_last());
        if t.len() > 0 {
            head.push(t)
        } else {
            head
        }
    }
}

/// The tags of a joined tag text.
pub open spec fn tags_of(raw: Option<Seq<char>>) -> Seq<Seq<char>> {
    match raw {
        Some(s) => trimmed_texts(pieces(s, ';')),
        None => Seq::empty(),
    }
}

/// The tags of a text that joins them with semicolons.
pub fn split_tags(raw: Option<&str>) -> (r: Vec<String>)
    ensures
        views(r@) == tags_of(
            match raw {
                Some(s) => Some(s@),
                None => None,
            },
        ),
{
    let mut out: Vec<String> = Vec::new();
    match raw {
        Some(s) => {
            let list: Vec<String> = split(s, ';');
            let ghost all = views(list@);
            let mut i: usize = 0;
            while i < list.len()
                invariant
                    i <= list@.len(),
                    all == views(list@),
                    views(out@) == trimmed_texts(all.take(i as int)),
                decreases list@.len() - i,
            {
                proof {
                    lemma_take_step(all, i as int);
                }
                let t: String = trim(list[i].as_str());
                if !t.as_str().is_empty() {
                    out.push(t);
                }
                i += 1;
            }
            out
        },
        None => out,
    }
}

/// The first of two times that is known; the start of 1970 where neither is.
pub open spec fn first_known(a: Option<Timestamp>, b: Option<Timestamp>) -> Timestamp {
    match a {
        Some(t) => t,
        None => match b {
            Some(t) => t,
            None => Timestamp { secs: 0, nanos: 0 },
        },
    }
}

/// The first of two times that is known; the start of 1970 where neither is.
pub fn known_time(a: Option<Timestamp>, b: Option<Timestamp>) -> (r: Timestamp)
    ensures
        r == first_known(a, b),
{
    match a {
        Some(t) => t,
        None => match b {
            Some(t) => t,
            None => Timestamp { secs: 0, nanos: 0 },
        },
    }
}

/// The text of an optional string; empty where there is none.
pub open spec fn text_or_empty(o: Option<String>) -> Seq<char> {
    match o {
        Some(s) => s@,
        None => Seq::empty(),
    }
}

/// The text of an optional string; empty where there is none.
pub fn unwrap_text(o: &Option<String>) -> (r: String)
    ensures
        r@ == text_or_empty(*o),
{
    match o {
        Some(s) => s.clone(),
        None => String::new(),
    }
}

/// The plain text of an HTML body, where any is left.
pub open spec fn plain_body(html: Option<String>) -> Option<Seq<char>> {
    match html {
        Some(h) => if plain_text(h@).len() > 0 {
            Some(plain_text(h@))
        } else {
            None
        },
        None => None,
    }
}

fn body_text(html: &Option<String>) -> (r: Option<String>)
    ensures
        opt_view(r) == plain_body(*html),
{
    match html {
        Some(h) => {
            let t: String = strip_html(h.as_str());
            if t.as_str().is_empty() {
                None
            } else {
                Some(t)
            }
        },
        None => None,
    }
}

/// A work item in the library's terms.
pub open spec fn normalised_item(
    raw: AdoWorkItem,
    team: Seq<char>,
    organization: Seq<char>,
    project: Seq<char>,
) -> WorkItemView {
    let f = raw.fields;
    WorkItemView {
        id: raw.id,
        provider: PROVIDER@,
        team,
        title: text_or_empty(f.title),
        work_item_type: text_or_empty(f.work_item_type),
        state: text_or_empty(f.state),
        tags: tags_of(opt_view(f.tags)),
        assigned_to: opt_view(f.assigned_to),
        created_at: first_known(f.created_date, f.changed_date),
        changed_at: first_known(f.changed_date, f.created_date),
        closed_at: f.closed_date,
        iteration_path: opt_view(f.iteration_path),
        story_points: opt_view(f.story_points),
        description: match plain_body(f.description) {
            Some(t) => Some(t),
            None => plain_body(f.repro_steps),
        },
        url: match raw.html_url {
            Some(u) => u@,
            None => organization + "/"@ + encoded_segment(project) + "/_workitems/edit/"@
                + signed_decimal(raw.id as int),
        },
        linked_pr_ids: linked_prs_of(raw.relations@),
        parent_id: first_parent(raw.relations@),
        linked_repos: repos_of(
            with_hyperlinks(
                text_or_empty(f.description) + " "@ + text_or_empty(f.repro_steps),
                raw.relations@,
            ),
        ),
        linked_prs: Seq::empty(),
        tag_suggestions: Seq::empty(),
    }
}

fn find_parent(relations: &Vec<AdoRelation>) -> (r: Option<i64>)
    ensures
        r == first_parent(relations@),
{
    let mut i: usize = 0;
    while i < relations.len()
        invariant
            i <= relations@.len(),
            first_parent(relations@.take(i as int)) is None,
        decreases relations@.len() - i,
    {
        proof {
            lemma_take_step(relations@, i as int);
        }
        let p: Option<i64> = parent_id_from_relation(&relations[i]);
        if p.is_some() {
            proof {
                lemma_found_stays(|l: Seq<AdoRelation>| first_parent(l), relations@, i + 1);
            }
            return p;
        }
        i += 1;
    }
    None
}

fn find_linked_prs(relations: &Vec<AdoRelation>) -> (r: Vec<i64>)
    ensures
        r@ == linked_prs_of(relations@),
{
    let mut out: Vec<i64> = Vec::new();
    let mut i: usize = 0;
    while i < relations.len()
        invariant
            i <= relations@.len(),
            out@ == linked_prs_of(relations@.take(i as int)),
        decreases relations@.len() - i,
    {
        proof {
            lemma_take_step(relations@, i as int);
        }
        match pr_id_from_relation(&relations[i]) {
            Some(id) => {
                out.push(id);
            },
            None => {},
        }
        i += 1;
    }
    out
}

fn add_hyperlinks(source: &mut String, relations: &Vec<AdoRelation>)
    ensures
        final(source)@ == with_hyperlinks(old(source)@, relations@),
{
    let ghost bodies = source@;
    let mut i: usize = 0;
    while i < relations.len()
        invariant
            i <= relations@.len(),
            source@ == with_hyperlinks(bodies, relations@.take(i as int)),
        decreases relations@.len() - i,
    {
        proof {
            lemma_take_step(relations@, i as int);
        }
        if eq_ignoring_case(relations[i].rel.as_str(), "Hyperlink") {
            source.push(' ');
            source.append(relations[i].url.as_str());
        }
        i += 1;
    }
}

/// A work item in the library's terms.
pub fn normalise_work_item(
    raw: AdoWorkItem,
    team_name: &str,
    organization: &str,
    ado_project: &str,
) -> (r: WorkItem)
    ensures
        r@ == normalised_item(raw, team_name@, organization@, ado_project@),
{
    let f: &AdoFields = &raw.fields;
    let changed: Timestamp = known_time(f.changed_date, f.created_date);
    let created: Timestamp = known_time(f.created_date, f.changed_date);
    let url: String = match &raw.html_url {
        Some(u) => u.clone(),
        None => {
            let mut u: String = cat3(organization, "/", enc(ado_project).as_str());
            u.append("/_workitems/edit/");
            u.append(format_i64(raw.id).as_str());
            u
        },
    };
    let linked_pr_ids: Vec<i64> = find_linked_prs(&raw.relations);
    let parent_id: Option<i64> = find_parent(&raw.relations);
    let mut source: String = cat3(
        unwrap_text(&f.description).as_str(),
        " ",
        unwrap_text(&f.repro_steps).as_str(),
    );
    add_hyperlinks(&mut source, &raw.relations);
    let linked_repos: Vec<String> = extract_repos(source.as_str());
    let tags: Vec<String> = match &f.tags {
        Some(t) => split_tags(Some(t.as_str())),
        None => split_tags(None),
    };
    let description: Option<String> = match body_text(&f.description) {
        Some(t) => Some(t),
        None => body_text(&f.repro_steps),
    };
    let item: WorkItem = WorkItem {
        id: raw.id,
        provider: PROVIDER.to_owned(),
        team: team_name.to_owned(),
        title: unwrap_text(&f.title),
        work_item_type: unwrap_text(&f.work_item_type),
        state: unwrap_text(&f.state),
        tags,
        assigned_to: clone_opt(&f.assigned_to),
        created_at: created,
        changed_at: changed,
        closed_at: f.closed_date,
        iteration_path: clone_opt(&f.iteration_path),
        story_points: clone_opt(&f.story_points),
        description,
        url,
        linked_pr_ids,
        parent_id,
        linked_repos,
        linked_prs: Vec::new(),
        tag_suggestions: Vec::new(),
    };
    assert(item@ =~= normalised_item(raw, team_name@, organization@, ado_project@));
    item
}

// ---------------------------------------------------------------------------------------------
// Pipelines and runs
// ---------------------------------------------------------------------------------------------

/// The status of a run, from the status and the result of a build.
pub open spec fn run_status(status: Option<Seq<char>>, result: Option<Seq<char>>) -> RunStatus {
    match status {
        Some(s) => {
            let s = lower(s);
            if s == "completed"@ {
                match result {
                    Some(res) => {
                        let res = lower(res);
                        if res == "succeeded"@ || res == "partiallysucceeded"@ {
                            RunStatus::Succeeded
                        } else if res == "failed"@ {
                            RunStatus::Failed
                        } else if res == "canceled"@ || res == "cancelled"@ {
                            RunStatus::Canceled
                        } else {
                            RunStatus::Unknown
                        }
                    },
                    None => RunStatus::Unknown,
                }
            } else if s == "inprogress"@ || s == "notstarted"@ || s == "postponed"@ || s
                == "cancelling"@ {
                RunStatus::Running
            } else {
                RunStatus::Unknown
            }
        },
        None => RunStatus::Unknown,
    }
}

/// The status of a run, from the status and the result of a build.
pub fn map_run_status(status: Option<&str>, result: Option<&str>) -> (r: RunStatus)
    ensures
        r == run_status(
            match status {
                Some(s) => Some(s@),
                None => None,
            },
            match result {
                Some(s) => Some(s@),
                None => None,
            },
        ),
{
    match status {
        Some(s) => {
            let s: String = to_lower(s);
            let s: &str = s.as_str();
            if same(s, "completed") {
                match result {
                    Some(res) => {
                        let res: String = to_lower(res);
                        let res: &str = res.as_str();
                        if same(res, "succeeded") || same(res, "partiallysucceeded") {
                            RunStatus::Succeeded
                        } else if same(res, "failed") {
                            RunStatus::Failed
                        } else if same(res, "canceled") || same(res, "cancelled") {
                            RunStatus::Canceled
                        } else {
                            RunStatus::Unknown
                        }
                    },
                    None => RunStatus::Unknown,
                }
            } else if same(s, "inprogress") || same(s, "notstarted") || same(s, "postponed")
                || same(s, "cancelling") {
                RunStatus::Running
            } else {
                RunStatus::Unknown
            }
        },
        None => RunStatus::Unknown,
    }
}

/// The status of a build.
pub open spec fn build_status(b: AdoBuild) -> RunStatus {
    run_status(opt_view(b.status), opt_view(b.result))
}

fn status_of(b: &AdoBuild) -> (r: RunStatus)
    ensures
        r == build_status(*b),
{
    let status: Option<&str> = match &b.status {
        Some(s) => Some(s.as_str()),
        None => None,
    };
    let result: Option<&str> = match &b.result {
        Some(s) => Some(s.as_str()),
        None => None,
    };
    map_run_status(status, result)
}

/// A pipeline in the library's terms. The root folder counts as none.
pub open spec fn normalised_pipeline(
    raw: AdoDefinition,
    team: Seq<char>,
    organization: Seq<char>,
    project: Seq<char>,
) -> PipelineView {
    PipelineView {
        id: raw.id,
        provider: PROVIDER@,
        team,
        name: raw.name@,
        folder: match raw.path {
            Some(p) => if p@ != "\\"@ && p@.len() > 0 {
                Some(p@)
            } else {
                None
            },
            None => None,
        },
        url: match raw.web_url {
            Some(u) => u@,
            None => organization + "/"@ + encoded_segment(project) + "/_build?definitionId="@
                + signed_decimal(raw.id as int),
        },
        last_run_status: match raw.latest_completed_build {
            Some(b) => Some(build_status(b)),
            None => None,
        },
        last_run_at: match raw.latest_completed_build {
            Some(b) => b.finish_time,
            None => None,
        },
        last_run_url: match raw.latest_completed_build {
            Some(b) => opt_view(b.web_url),
            None => None,
        },
    }
}

/// A pipeline in the library's terms.
pub fn normalise_pipeline(
    raw: AdoDefinition,
    team_name: &str,
    organization: &str,
    ado_project: &str,
) -> (r: Pipeline)
    ensures
        r@ == normalised_pipeline(raw, team_name@, organization@, ado_project@),
{
    let folder: Option<String> = match &raw.path {
        Some(p) => if !same(p.as_str(), "\\") && !p.as_str().is_empty() {
            Some(p.clone())
        } else {
            None
        },
        None => None,
    };
    let url: String = match &raw.web_url {
        Some(u) => u.clone(),
        None => {
            let mut u: String = cat3(organization, "/", enc(ado_project).as_str());
            u.append("/_build?definitionId=");
            u.append(format_i64(raw.id).as_str());
            u
        },
    };
    let (last_run_status, last_run_at, last_run_url): (
        Option<RunStatus>,
        Option<Timestamp>,
        Option<String>,
    ) = match &raw.latest_completed_build {
        Some(b) => (Some(status_of(b)), b.finish_time, clone_opt(&b.web_url)),
        None => (None, None, None),
    };
    Pipeline {
        id: raw.id,
        provider: PROVIDER.to_owned(),
        team: team_name.to_owned(),
        name: raw.name,
        folder,
        url,
        last_run_status,
        last_run_at,
        last_run_url,
    }
}

/// A run in the library's terms.
pub open spec fn normalised_run(raw: AdoBuild, team: Seq<char>) -> PipelineRunView {
    PipelineRunView {
        id: raw.id,
        pipeline_id: match raw.definition_id {
            Some(d) => d,
            None => 0,
        },
        provider: PROVIDER@,
        team,
        status: build_status(raw),
        started_at: raw.start_time,
        finished_at: raw.finish_time,
        source_branch: opt_view(raw.source_branch),
        url: text_or_empty(raw.web_url),
    }
}

/// A run in the library's terms.
pub fn normalise_run(raw: AdoBuild, team_name: &str) -> (r: PipelineRun)
    ensures
        r@ == normalised_run(raw, team_name@),
{
    PipelineRun {
        id: raw.id,
        pipeline_id: match raw.definition_id {
            Some(d) => d,
            None => 0,
        },
        provider: PROVIDER.to_owned(),
        team: team_name.to_owned(),
        status: status_of(&raw),
        started_at: raw.start_time,
        finished_at: raw.finish_time,
        source_branch: clone_opt(&raw.source_branch),
        url: unwrap_text(&raw.web_url),
    }
}

// ---------------------------------------------------------------------------------------------
// Pull requests
// ---------------------------------------------------------------------------------------------

/// A branch without the prefix of branch references.
pub open spec fn short_name(refname: Option<String>) -> Option<Seq<char>> {
    match refname {
        Some(r) => Some(without_prefixes(r@, "refs/heads/"@)),
        None => None,
    }
}

/// A branch without the prefix of branch references.
pub fn short_branch(refname: Option<String>) -> (r: Option<String>)
    ensures
        opt_view(r) == short_name(refname),
{
    match refname {
        Some(name) => {
            proof {
                reveal_strlit("refs/heads/");
            }
            Some(strip_prefixes(name.as_str(), "refs/heads/"))
        },
        None => None,
    }
}

/// The project that a pull request lives in: its repository's, else the configured one.
pub open spec fn pr_project(raw: AdoPullRequest, project: Seq<char>) -> Seq<char> {
    match raw.repository {
        Some(repo) => match repo.project_name {
            Some(name) => name@,
            None => project,
        },
        None => project,
    }
}

/// The repository that a pull request names.
pub open spec fn pr_repository(raw: AdoPullRequest) -> Option<Seq<char>> {
    match raw.repository {
        Some(repo) => opt_view(repo.name),
        None => None,
    }
}

/// A pull request in the library's terms.
pub open spec fn normalised_pr(
    raw: AdoPullRequest,
    team: Seq<char>,
    organization: Seq<char>,
    project: Seq<char>,
) -> PullRequestView {
    let place = organization + "/"@ + encoded_segment(pr_project(raw, project));
    PullRequestView {
        id: raw.pull_request_id,
        provider: PROVIDER@,
        team,
        title: text_or_empty(raw.title),
        status: match raw.status {
            Some(s) => pr_status_of(s@),
            None => PrStatus::Unknown,
        },
        is_draft: raw.is_draft == Some(true),
        repository: pr_repository(raw),
        author: opt_view(raw.created_by),
        created_at: raw.creation_date,
        source_branch: short_name(raw.source_ref),
        target_branch: short_name(raw.target_ref),
        reviewer_count: raw.reviewers as i64,
        url: match pr_repository(raw) {
            Some(repo) => place + "/_git/"@ + encoded_segment(repo) + "/pullrequest/"@
                + signed_decimal(raw.pull_request_id as int),
            None => place,
        },
        flags: Seq::empty(),
        linked_work_items: Seq::empty(),
    }
}

/// A pull request in the library's terms. Its address names the repository's own project, which
/// need not be the configured one.
pub fn normalise_pull_request(
    raw: AdoPullRequest,
    team_name: &str,
    organization: &str,
    ado_project: &str,
) -> (r: PullRequest)
    ensures
        r@ == normalised_pr(raw, team_name@, organization@, ado_project@),
{
    let project: String = match &raw.repository {
        Some(repo) => match &repo.project_name {
            Some(name) => name.clone(),
            None => ado_project.to_owned(),
        },
        None => ado_project.to_owned(),
    };
    let repository: Option<String> = match &raw.repository {
        Some(repo) => clone_opt(&repo.name),
        None => None,
    };
    let mut url: String = cat3(organization, "/", enc(project.as_str()).as_str());
    match &repository {
        Some(repo) => {
            url.append("/_git/");
            url.append(enc(repo.as_str()).as_str());
            url.append("/pullrequest/");
            url.append(format_i64(raw.pull_request_id).as_str());
        },
        None => {},
    }
    let status: PrStatus = match &raw.status {
        Some(s) => PrStatus::from_slug(s.as_str()),
        None => PrStatus::Unknown,
    };
    let pr: PullRequest = PullRequest {
        id: raw.pull_request_id,
        provider: PROVIDER.to_owned(),
        team: team_name.to_owned(),
        title: unwrap_text(&raw.title),
        status,
        is_draft: match raw.is_draft {
            Some(d) => d,
            None => false,
        },
        repository,
        author: clone_opt(&raw.created_by),
        created_at: raw.creation_date,
        source_branch: short_branch(clone_opt(&raw.source_ref)),
        target_branch: short_branch(clone_opt(&raw.target_ref)),
        reviewer_count: raw.reviewers as i64,
        url,
        flags: Vec::new(),
        linked_work_items: Vec::new(),
    };
    assert(pr@ =~= normalised_pr(raw, team_name@, organization@, ado_project@));
    pr
}

/// The artifact address of a pull request, or what is missing for it.
pub open spec fn artifact_of(pr: AdoPullRequest, pr_id: i64) -> Result<Seq<char>, Seq<char>> {
    let name = "PR "@ + signed_decimal(pr_id as int);
    match pr.repository {
        None => Err(name + " has no repository"@),
        Some(repo) => match repo.id {
            None => Err(name + " repository has no id"@),
            Some(repo_id) => match repo.project_id {
                None => Err(name + " has no project id"@),
                Some(project_id) => Ok(
                    "vstfs:///Git/PullRequestId/"@ + project_id@ + "%2F"@ + repo_id@ + "%2F"@
                        + signed_decimal(pr_id as int),
                ),
            },
        },
    }
}

/// The artifact address of a pull request, by which a work item links it.
pub fn pr_artifact_uri(pr: &AdoPullRequest, pr_id: i64) -> (r: Result<String, ProviderError>)
    ensures
        match r {
            Ok(uri) => artifact_of(*pr, pr_id) == Ok::<Seq<char>, Seq<char>>(uri@),
            Err(e) => e matches ProviderError::Config(m) && artifact_of(*pr, pr_id) == Err::<
                Seq<char>,
                Seq<char>,
            >(m@),
        },
{
    let id: String = format_i64(pr_id);
    match &pr.repository {
        None => Err(ProviderError::Config(cat3("PR ", id.as_str(), " has no repository"))),
        Some(repo) => match &repo.id {
            None => Err(ProviderError::Config(cat3("PR ", id.as_str(), " repository has no id"))),
            Some(repo_id) => match &repo.project_id {
                None => Err(ProviderError::Config(cat3("PR ", id.as_str(), " has no project id"))),
                Some(project_id) => {
                    let mut uri: String = cat3(
                        "vstfs:///Git/PullRequestId/",
                        project_id.as_str(),
                        "%2F",
                    );
                    uri.append(repo_id.as_str());
                    uri.append("%2F");
                    uri.append(id.as_str());
                    Ok(uri)
                },
            },
        },
    }
}

/// The area that an item was created in, from the first revision's area path.
pub fn origin_area(first_revision: Option<String>) -> (r: Option<String>)
    ensures
        r == (match first_revision {
            Some(a) => if trimmed(a@).len() > 0 {
                Some(a)
            } else {
                None
            },
            None => None,
        }),
{
    match first_revision {
        Some(a) => if is_blank(a.as_str()) {
            None
        } else {
            Some(a)
        },
        None => None,
    }
}

// ---------------------------------------------------------------------------------------------
// Laws
// ---------------------------------------------------------------------------------------------

/// Whether a text can be a tag: it holds no semicolon, is not blank and has no white space at its
/// ends.
pub open spec fn is_tag(t: Seq<char>) -> bool {
    !t.contains(';') && t.len() > 0 && trimmed(t) == t
}

/// The tags that an edit writes are the tags that are read.
pub proof fn law_written_tags_are_read_back(tags: Seq<Seq<char>>)
    requires
        forall|i: int| 0 <= i < tags.len() ==> is_tag(#[trigger] tags[i]),
    ensures
        tags_of(Some(joined(tags, "; "@))) == tags,
    decreases tags.len(),
{
    let s = joined(tags, "; "@);
    if tags.len() == 0 {
        let none = pieces(s, ';');
        assert(none.last() =~= Seq::<char>::empty());
        assert(trimmed_texts(none.drop_last()) =~= Seq::<Seq<char>>::empty()) by {
            assert(none.drop_last() =~= Seq::<Seq<char>>::empty());
        }
        assert(tags_of(Some(s)) =~= tags);
    } else {
        let last = tags.last();
        assert(is_tag(tags[tags.len() - 1]));
        let head = tags.drop_last();
        if tags.len() == 1 {
            crate::text::lemma_one_piece(last, ';');
            let one = pieces(s, ';');
            assert(one.drop_last() =~= Seq::<Seq<char>>::empty());
            assert(trimmed_texts(one.drop_last()) =~= Seq::<Seq<char>>::empty());
            assert(tags_of(Some(s)) =~= tags);
        } else {
            assert forall|i: int| 0 <= i < head.len() implies is_tag(#[trigger] head[i]) by {
                assert(head[i] == tags[i]);
            }
            law_written_tags_are_read_back(head);
            let before = joined(head, "; "@);
            let spaced = seq![' '] + last;
            reveal_strlit("; ");
            assert("; "@ =~= seq![';', ' ']);
            assert(s =~= before.push(';') + spaced);
            assert(!spaced.contains(';')) by {
                if spaced.contains(';') {
                    let i = choose|i: int| 0 <= i < spaced.len() && spaced[i] == ';';
                    assert(last[i - 1] == ';');
                }
            }
            crate::text::lemma_one_more_piece(before, spaced, ';');
            assert(spaced.skip(1) =~= last);
            assert(trimmed(spaced) == trimmed(last));
            let all = pieces(before, ';').push(spaced);
            assert(all.drop_last() =~= pieces(before, ';'));
            assert(tags_of(Some(s)) =~= head.push(last));
            assert(head.push(last) =~= tags);
        }
    }
}

/// Writing the separators of a link in upper case leaves its last part alone, and no slash stands in
/// that part.
proof fn lemma_last_part_stays(front: Seq<char>, number: Seq<char>)
    requires
        forall|i: int| 0 <= i < number.len() ==> #[trigger] number[i] != '%' && number[i] != '/',
    ensures
        ({
            let tail = "%2F"@ + number;
            let segment = after_last(replaced(front + tail, "%2f"@, "%2F"@), "/"@);
            segment.len() >= tail.len() && segment.skip(segment.len() - tail.len()) == tail
        }),
{
    let tail = "%2F"@ + number;
    let url = front + tail;
    let k = front.len() as int;
    reveal_strlit("%2F");
    reveal_strlit("%2f");
    reveal_strlit("/");
    assert(url.skip(k) =~= tail);
    assert forall|j: int| #[trigger] occurs_at(url, "%2f"@, j) implies j + 3 <= k by {
        assert(url.subrange(j, j + 3)[0] == '%');
        assert(url.subrange(j, j + 3)[1] == '2');
        assert(url.subrange(j, j + 3)[2] == 'f');
        if j + 3 > k {
            if j >= k + 3 {
                assert(url[j] == number[j - k - 3]);
            }
        }
    }
    lemma_replaced_keeps_tail(url, "%2f"@, "%2F"@, 0, k);
    let fixed = replaced(url, "%2f"@, "%2F"@);
    let m = fixed.len() - tail.len();
    assert(fixed.skip(m) == tail);
    assert forall|j: int| #[trigger] occurs_at(fixed, "/"@, j) implies j + 1 <= m by {
        assert(fixed.subrange(j, j + 1)[0] == '/');
        if j >= m {
            assert(fixed[j] == tail[j - m]);
            if j - m >= 3 {
                assert(tail[j - m] == number[j - m - 3]);
            }
        }
    }
    lemma_after_last_keeps_tail(fixed, "/"@, m);
}

/// What follows the last separator of a segment that ends in a separator and a number is the number.
proof fn lemma_number_follows(segment: Seq<char>, number: Seq<char>)
    requires
        forall|i: int| 0 <= i < number.len() ==> #[trigger] number[i] != '%' && number[i] != '/',
        segment.len() >= number.len() + 3,
        segment.skip(segment.len() - number.len() - 3) == "%2F"@ + number,
    ensures
        occurs(segment, "%2F"@),
        after_last(segment, "%2F"@) == number,
{
    let tail = "%2F"@ + number;
    let at = segment.len() - number.len() - 3;
    reveal_strlit("%2F");
    assert(occurs_at(segment, "%2F"@, at)) by {
        assert(segment.subrange(at, at + 3) =~= tail.take(3));
        assert(tail.take(3) =~= "%2F"@);
    }
    assert forall|j: int| at < j implies !#[trigger] occurs_at(segment, "%2F"@, j) by {
        if occurs_at(segment, "%2F"@, j) {
            assert(segment.subrange(j, j + 3)[0] == '%');
            assert(segment[j] == tail[j - at]);
            if j - at >= 3 {
                assert(tail[j - at] == number[j - at - 3]);
            }
        }
    }
    lemma_after_last_found(segment, "%2F"@, at);
    assert(segment.skip(at + 3) =~= number) by {
        assert(segment.skip(at + 3) =~= tail.skip(3));
        assert(tail.skip(3) =~= number);
    }
}

/// The link that is written for a pull request is read as a link to it.
pub proof fn law_written_link_is_read_back(pr: AdoPullRequest, pr_id: i64, link: AdoRelation)
    requires
        link.rel@ == "ArtifactLink"@,
        artifact_of(pr, pr_id) == Ok::<Seq<char>, Seq<char>>(link.url@),
    ensures
        linked_pr(link) == Some(pr_id),
{
    let project = pr.repository->0.project_id->0@;
    let repo = pr.repository->0.id->0@;
    let number = signed_decimal(pr_id as int);
    let start = "vstfs:///Git/PullRequestId/"@;
    let url = link.url@;
    let front = start + project + "%2F"@ + repo;
    assert(url =~= front + ("%2F"@ + number));
    assert(occurs(url, "PullRequestId"@)) by {
        reveal_strlit("vstfs:///Git/PullRequestId/");
        reveal_strlit("PullRequestId");
        assert(url.subrange(13, 26) =~= start.subrange(13, 26));
        assert(start.subrange(13, 26) =~= "PullRequestId"@);
        assert(occurs_at(url, "PullRequestId"@, 13));
    }
    lemma_number_chars(pr_id);
    lemma_last_part_stays(front, number);
    let segment = after_last(replaced(url, "%2f"@, "%2F"@), "/"@);
    assert("%2F"@.len() == 3) by {
        reveal_strlit("%2F");
    }
    lemma_number_follows(segment, number);
    law_numbers_read_back(pr_id);
}

proof fn lemma_number_chars(n: i64)
    ensures
        forall|i: int|
            0 <= i < signed_decimal(n as int).len() ==> {
                let c = #[trigger] signed_decimal(n as int)[i];
                c != '%' && c != '/'
            },
{
    let s = signed_decimal(n as int);
    let digits = decimal(
        (if n < 0 {
            -n
        } else {
            n as int
        }) as nat,
    );
    lemma_decimal_reads_back(
        (if n < 0 {
            -n
        } else {
            n as int
        }) as nat,
    );
    assert forall|i: int| 0 <= i < s.len() implies ({
        let c = #[trigger] s[i];
        c != '%' && c != '/'
    }) by {
        if n < 0 {
            if i > 0 {
                assert(s[i] == digits[i - 1]);
            }
        } else {
            assert(s[i] == digits[i]);
        }
    }
}

} // verus!
