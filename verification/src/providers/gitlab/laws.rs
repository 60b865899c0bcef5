//! What reading GitLab's answers promises.
use super::{
    either, first_name, first_refused, issue_fields_of, issue_state, last_value, mr_status,
    normalised_issue, normalised_mr, normalised_pipeline, normalised_run, pipeline_status,
    recent_of, runs_of, GlIssue, GlMergeRequest, GlPipeline, GlUser,
};
use crate::editable_field::{FieldChange, FieldKind};
use crate::pipeline::{PipelineRunView, RunStatus};
use crate::pull_request::PrStatus;
use crate::text::{lower, opt_view, views};
use crate::time::Timestamp;
use vstd::prelude::*;

verus! {

/// An issue says what the answer says: an issue that the answer does not close is open.
pub proof fn law_issue_says_what_the_answer_says(raw: GlIssue, team: Seq<char>)
    ensures
        ({
            let item = normalised_issue(raw, team);
            &&& item.id == raw.iid
            &&& item.provider == "gitlab"@
            &&& item.team == team
            &&& raw.title is Some ==> item.title == raw.title->0@
            &&& raw.title is None ==> item.title.len() == 0
            &&& item.work_item_type == "Issue"@
            &&& item.tags == views(raw.labels@)
            &&& item.closed_at == raw.closed_at
            &&& raw.description is Some && raw.description->0@.len() > 0 ==> item.description
                == Some(raw.description->0@)
            &&& raw.description is None || raw.description->0@.len() == 0
                ==> item.description is None
            &&& raw.web_url is Some ==> item.url == raw.web_url->0@
            &&& raw.web_url is None ==> item.url.len() == 0
            &&& item.iteration_path is None
            &&& item.story_points is None
            &&& item.parent_id is None
            &&& item.linked_pr_ids.len() == 0
            &&& item.linked_repos.len() == 0
            &&& item.linked_prs.len() == 0
            &&& item.tag_suggestions.len() == 0
        }),
{
}

/// An issue was created and last changed when the answer says; where it gives only one of the two
/// times, that is both, and where it gives neither, both are the start of 1970.
pub proof fn law_issue_times(raw: GlIssue, team: Seq<char>)
    ensures
        ({
            let item = normalised_issue(raw, team);
            &&& raw.created_at is Some ==> item.created_at == raw.created_at->0
            &&& raw.updated_at is Some ==> item.changed_at == raw.updated_at->0
            &&& raw.created_at is None && raw.updated_at is Some ==> item.created_at
                == raw.updated_at->0
            &&& raw.updated_at is None && raw.created_at is Some ==> item.changed_at
                == raw.created_at->0
            &&& raw.updated_at is None && raw.created_at is None ==> item.created_at.total() == 0
                && item.changed_at.total() == 0
        }),
{
}

/// An open issue is open, a closed one is closed, and any other state stays as it is.
pub proof fn law_issue_state(state: Option<Seq<char>>)
    ensures
        state == Some("opened"@) ==> issue_state(state) == "Open"@,
        state == Some("closed"@) ==> issue_state(state) == "Closed"@,
        state is Some && state->0 != "opened"@ && state->0 != "closed"@ ==> issue_state(state)
            == state->0,
        state is None ==> issue_state(state).len() == 0,
{
    reveal_strlit("opened");
    reveal_strlit("closed");
    assert("opened"@[0] == 'o' && "closed"@[0] == 'c');
}

/// The state of an issue is that of the answer.
pub proof fn law_issue_has_its_state(raw: GlIssue, team: Seq<char>)
    ensures
        normalised_issue(raw, team).state == issue_state(opt_view(raw.state)),
{
}

/// An issue is assigned to the person that the answer names, else to the first of the others whose
/// name is given.
pub proof fn law_issue_assignee(raw: GlIssue, team: Seq<char>)
    ensures
        ({
            let who = normalised_issue(raw, team).assigned_to;
            let named = raw.assignee is Some && raw.assignee->0.name is Some;
            &&& named ==> who == Some(raw.assignee->0.name->0@)
            &&& !named ==> match who {
                Some(name) => exists|i: int|
                    0 <= i < raw.assignees@.len() && (#[trigger] raw.assignees@[i]).name is Some
                        && raw.assignees@[i].name->0@ == name && forall|j: int|
                        0 <= j < i ==> (#[trigger] raw.assignees@[j]).name is None,
                None => forall|j: int|
                    0 <= j < raw.assignees@.len() ==> (#[trigger] raw.assignees@[j]).name is None,
            }
        }),
{
    lemma_first_name(raw.assignees@);
}

proof fn lemma_first_name(users: Seq<GlUser>)
    ensures
        match first_name(users) {
            Some(name) => exists|i: int|
                0 <= i < users.len() && (#[trigger] users[i]).name is Some && users[i].name->0@
                    == name && forall|j: int| 0 <= j < i ==> (#[trigger] users[j]).name is None,
            None => forall|j: int| 0 <= j < users.len() ==> (#[trigger] users[j]).name is None,
        },
    decreases users.len(),
{
    if users.len() > 0 {
        let head = users.drop_last();
        lemma_first_name(head);
        assert forall|j: int| 0 <= j < head.len() implies #[trigger] users[j] == head[j] by {}
        match first_name(head) {
            Some(name) => {
                let i = choose|i: int|
                    0 <= i < head.len() && (#[trigger] head[i]).name is Some && head[i].name->0@
                        == name && forall|j: int|
                        0 <= j < i ==> (#[trigger] head[j]).name is None;
                assert(users[i].name is Some);
                assert forall|j: int| 0 <= j < i implies (#[trigger] users[j]).name is None by {
                    assert(head[j].name is None);
                }
            },
            None => {
                assert forall|j: int| 0 <= j < head.len() implies (
                #[trigger] users[j]).name is None by {
                    assert(head[j].name is None);
                }
                if users.last().name is Some {
                    assert(users[users.len() - 1].name is Some);
                }
            },
        }
    }
}

/// The status of a merge request: open or locked ones are active, merged ones completed, closed ones
/// abandoned, and any other is unknown.
pub proof fn law_merge_request_status(state: Option<Seq<char>>)
    ensures
        mr_status(state) == PrStatus::Active <==> state == Some("opened"@) || state == Some(
            "locked"@,
        ),
        mr_status(state) == PrStatus::Completed <==> state == Some("merged"@),
        mr_status(state) == PrStatus::Abandoned <==> state == Some("closed"@),
{
    reveal_strlit("opened");
    reveal_strlit("locked");
    reveal_strlit("merged");
    reveal_strlit("closed");
    assert("opened"@[0] == 'o' && "locked"@[0] == 'l' && "merged"@[0] == 'm' && "closed"@[0]
        == 'c');
}

/// A merge request says what the answer says; one that does not say that it is a draft is none.
pub proof fn law_merge_request_says_what_the_answer_says(raw: GlMergeRequest, team: Seq<char>)
    ensures
        ({
            let pr = normalised_mr(raw, team);
            &&& pr.id == raw.iid
            &&& pr.provider == "gitlab"@
            &&& pr.team == team
            &&& raw.title is Some ==> pr.title == raw.title->0@
            &&& raw.title is None ==> pr.title.len() == 0
            &&& pr.status == mr_status(opt_view(raw.state))
            &&& pr.is_draft <==> raw.draft == Some(true)
            &&& pr.repository is None
            &&& raw.author is Some && raw.author->0.name is Some ==> pr.author == Some(
                raw.author->0.name->0@,
            )
            &&& raw.author is None || raw.author->0.name is None ==> pr.author is None
            &&& pr.created_at == raw.created_at
            &&& raw.source_branch is Some ==> pr.source_branch == Some(raw.source_branch->0@)
            &&& raw.source_branch is None ==> pr.source_branch is None
            &&& raw.target_branch is Some ==> pr.target_branch == Some(raw.target_branch->0@)
            &&& raw.target_branch is None ==> pr.target_branch is None
            &&& raw.reviewers@.len() <= 0x7fff_ffff ==> pr.reviewer_count == raw.reviewers@.len()
            &&& raw.web_url is Some ==> pr.url == raw.web_url->0@
            &&& raw.web_url is None ==> pr.url.len() == 0
            &&& pr.flags.len() == 0
            &&& pr.linked_work_items.len() == 0
        }),
{
}

/// The status of a pipeline, whatever the case of the answer: what it came to where it is over,
/// running where it is under way, and unknown in every other case.
pub proof fn law_pipeline_status(status: Option<Seq<char>>)
    ensures
        ({
            let says = |text: Seq<char>| status is Some && lower(status->0) == text;
            let r = pipeline_status(status);
            &&& r == RunStatus::Succeeded <==> says("success"@)
            &&& r == RunStatus::Failed <==> says("failed"@)
            &&& r == RunStatus::Canceled <==> says("canceled"@) || says("cancelled"@)
            &&& r == RunStatus::Running <==> says("running"@) || says("pending"@) || says(
                "created"@,
            ) || says("preparing"@) || says("waiting_for_resource"@) || says("scheduled"@)
        }),
{
    reveal_strlit("success");
    reveal_strlit("failed");
    reveal_strlit("canceled");
    reveal_strlit("cancelled");
    reveal_strlit("running");
    reveal_strlit("pending");
    reveal_strlit("created");
    reveal_strlit("preparing");
    reveal_strlit("waiting_for_resource");
    reveal_strlit("scheduled");
    assert("success"@.len() == 7 && "success"@[0] == 's');
    assert("failed"@.len() == 6);
    assert("canceled"@.len() == 8);
    assert("cancelled"@.len() == 9 && "cancelled"@[0] == 'c');
    assert("running"@.len() == 7 && "running"@[0] == 'r');
    assert("pending"@.len() == 7 && "pending"@[0] == 'p');
    assert("created"@.len() == 7 && "created"@[0] == 'c');
    assert("preparing"@.len() == 9 && "preparing"@[0] == 'p');
    assert("scheduled"@.len() == 9 && "scheduled"@[0] == 's');
    assert("waiting_for_resource"@.len() == 20);
}

/// A pipeline says what the answer says: it is called by its name, else by the branch that it ran
/// on, and its latest run is the pipeline itself.
pub proof fn law_pipeline_says_what_the_answer_says(raw: GlPipeline, team: Seq<char>)
    ensures
        ({
            let p = normalised_pipeline(raw, team);
            let named = raw.name is Some && raw.name->0@.len() > 0;
            &&& p.id == raw.id
            &&& p.provider == "gitlab"@
            &&& p.team == team
            &&& named ==> p.name == raw.name->0@
            &&& !named && raw.ref_name is Some ==> p.name == raw.ref_name->0@
            &&& !named && raw.ref_name is None ==> p.name.len() == 0
            &&& p.folder is None
            &&& raw.web_url is Some ==> p.url == raw.web_url->0@ && p.last_run_url == Some(
                raw.web_url->0@,
            )
            &&& raw.web_url is None ==> p.url.len() == 0 && p.last_run_url is None
            &&& p.last_run_status == Some(pipeline_status(opt_view(raw.status)))
            &&& raw.finished_at is Some ==> p.last_run_at == raw.finished_at
            &&& raw.finished_at is None ==> p.last_run_at == raw.updated_at
        }),
{
}

/// A run says what the answer says: it started when it was started or, where that is not given, when
/// it was made. One that is over and whose end is not given ended at its last update; one that still
/// runs has no end but a given one.
pub proof fn law_run_says_what_the_answer_says(raw: GlPipeline, team: Seq<char>)
    ensures
        ({
            let r = normalised_run(raw, team);
            &&& r.id == raw.id
            &&& raw.project_id is Some ==> r.pipeline_id == raw.project_id->0
            &&& raw.project_id is None ==> r.pipeline_id == 0
            &&& r.provider == "gitlab"@
            &&& r.team == team
            &&& r.status == pipeline_status(opt_view(raw.status))
            &&& raw.started_at is Some ==> r.started_at == raw.started_at
            &&& raw.started_at is None ==> r.started_at == raw.created_at
            &&& raw.finished_at is Some ==> r.finished_at == raw.finished_at
            &&& raw.finished_at is None && r.status == RunStatus::Running ==> r.finished_at is None
            &&& raw.finished_at is None && r.status != RunStatus::Running ==> r.finished_at
                == raw.updated_at
            &&& raw.ref_name is Some ==> r.source_branch == Some(raw.ref_name->0@)
            &&& raw.ref_name is None ==> r.source_branch is None
            &&& raw.web_url is Some ==> r.url == raw.web_url->0@
            &&& raw.web_url is None ==> r.url.len() == 0
        }),
{
}

/// The recent runs are those that started at the time or later, or whose start is not known; each
/// once, in their order.
pub proof fn law_recent_runs(raw: Seq<GlPipeline>, team: Seq<char>, since: Timestamp)
    ensures
        recent_of(runs_of(raw, team), since) == raw.map_values(
            |p: GlPipeline| normalised_run(p, team),
        ).filter(
            |r: PipelineRunView|
                r.started_at is None || since.total() <= r.started_at->0.total(),
        ),
{
    let all = raw.map_values(|p: GlPipeline| normalised_run(p, team));
    assert(runs_of(raw, team) =~= all);
    lemma_recent(all, since);
}

proof fn lemma_recent(runs: Seq<PipelineRunView>, since: Timestamp)
    ensures
        recent_of(runs, since) == runs.filter(
            |r: PipelineRunView|
                r.started_at is None || since.total() <= r.started_at->0.total(),
        ),
    decreases runs.len(),
{
    reveal(Seq::filter);
    if runs.len() > 0 {
        lemma_recent(runs.drop_last(), since);
    } else {
        assert(recent_of(runs, since) =~= runs);
    }
}

/// The change that is refused is the first to a field other than the title and the description.
pub proof fn law_refused_change(changes: Seq<FieldChange>)
    ensures
        match first_refused(changes) {
            Some(name) => exists|i: int|
                0 <= i < changes.len() && (#[trigger] changes[i]).reference@ == name && name
                    != "title"@ && name != "description"@ && forall|j: int|
                    0 <= j < i ==> (#[trigger] changes[j]).reference@ == "title"@
                        || changes[j].reference@ == "description"@,
            None => forall|j: int|
                0 <= j < changes.len() ==> (#[trigger] changes[j]).reference@ == "title"@
                    || changes[j].reference@ == "description"@,
        },
    decreases changes.len(),
{
    if changes.len() > 0 {
        let head = changes.drop_last();
        law_refused_change(head);
        assert forall|j: int| 0 <= j < head.len() implies #[trigger] changes[j] == head[j] by {}
        match first_refused(head) {
            Some(name) => {
                let i = choose|i: int|
                    0 <= i < head.len() && (#[trigger] head[i]).reference@ == name && name
                        != "title"@ && name != "description"@ && forall|j: int|
                        0 <= j < i ==> (#[trigger] head[j]).reference@ == "title"@
                            || head[j].reference@ == "description"@;
                assert(changes[i].reference@ == name);
                assert forall|j: int| 0 <= j < i implies (#[trigger] changes[j]).reference@
                    == "title"@ || changes[j].reference@ == "description"@ by {
                    assert(head[j].reference@ == "title"@ || head[j].reference@
                        == "description"@);
                }
            },
            None => {
                assert forall|j: int| 0 <= j < head.len() implies (
                #[trigger] changes[j]).reference@ == "title"@ || changes[j].reference@
                    == "description"@ by {
                    assert(head[j].reference@ == "title"@ || head[j].reference@
                        == "description"@);
                }
                let last = changes[changes.len() - 1];
                assert(last == changes.last());
            },
        }
    }
}

/// The value that changes leave in a field is that of the last change to it.
pub proof fn law_last_change_counts(changes: Seq<FieldChange>, reference: Seq<char>)
    ensures
        match last_value(changes, reference) {
            Some(value) => exists|i: int|
                0 <= i < changes.len() && (#[trigger] changes[i]).reference@ == reference
                    && changes[i].value@ == value && forall|j: int|
                    i < j < changes.len() ==> (#[trigger] changes[j]).reference@ != reference,
            None => forall|j: int|
                0 <= j < changes.len() ==> (#[trigger] changes[j]).reference@ != reference,
        },
    decreases changes.len(),
{
    if changes.len() > 0 {
        let head = changes.drop_last();
        law_last_change_counts(head, reference);
        assert forall|j: int| 0 <= j < head.len() implies #[trigger] changes[j] == head[j] by {}
        if changes.last().reference@ == reference {
            assert(changes[changes.len() - 1].reference@ == reference);
        } else {
            match last_value(head, reference) {
                Some(value) => {
                    let i = choose|i: int|
                        0 <= i < head.len() && (#[trigger] head[i]).reference@ == reference
                            && head[i].value@ == value && forall|j: int|
                            i < j < head.len() ==> (#[trigger] head[j]).reference@ != reference;
                    assert(changes[i].reference@ == reference);
                    assert forall|j: int| i < j < changes.len() implies (
                    #[trigger] changes[j]).reference@ != reference by {
                        if j < head.len() {
                            assert(head[j].reference@ != reference);
                        }
                    }
                },
                None => {
                    assert forall|j: int| 0 <= j < changes.len() implies (
                    #[trigger] changes[j]).reference@ != reference by {
                        if j < head.len() {
                            assert(head[j].reference@ != reference);
                        }
                    }
                },
            }
        }
    }
}

/// The editor shows the title, which must be there, and the description, each with its value; both
/// can be changed.
pub proof fn law_editor_shows_title_and_description(issue: GlIssue)
    ensures
        ({
            let fields = issue_fields_of(issue);
            &&& fields.len() == 2
            &&& fields[0].reference == "title"@ && fields[0].required
            &&& fields[0].label == "Title"@ && fields[1].label == "Description"@
            &&& fields[0].kind == FieldKind::Text && fields[1].kind == FieldKind::Markdown
            &&& issue.title is Some ==> fields[0].value == issue.title->0@
            &&& issue.title is None ==> fields[0].value.len() == 0
            &&& fields[1].reference == "description"@ && !fields[1].required
            &&& issue.description is Some ==> fields[1].value == issue.description->0@
            &&& issue.description is None ==> fields[1].value.len() == 0
            &&& forall|i: int|
                0 <= i < fields.len() ==> !(#[trigger] fields[i]).read_only
                    && fields[i].options.len() == 0 && fields[i].help is None
        }),
{
}

} // verus!
