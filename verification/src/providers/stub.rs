//! A provider of demonstration data, without a server and without a credential.
//!
//! The data is a function of the team's name and of one anchor in time, so it is the same however
//! often it is asked for on one day, and it is recent on every day.
use super::error::{is_not_found, ProviderError};
use crate::config::TeamConfig;
use crate::number::{format_i64, signed_decimal};
use crate::pipeline::{Pipeline, PipelineRun, PipelineRunView, PipelineView, RunStatus};
use crate::pull_request::{PrStatus, PullRequest, PullRequestView};
use crate::order::holds_id;
use crate::text::{
    cat2, cat3, clone_all, group_text, lemma_found_stays, lemma_take_step, owned, views,
};
use crate::time::{days_between, earlier, nine_oclock, Timestamp};
use crate::work_item::{WorkItem, WorkItemUpdate, WorkItemView};
use vstd::prelude::*;

pub mod laws;

verus! {

broadcast use group_text;

pub const PROVIDER: &'static str = "stub";

/// The people that items are assigned to, in turn by id.
pub open spec fn assignee(id: int) -> Seq<char> {
    if id % 3 == 0 {
        "Alex Rivera"@
    } else if id % 3 == 1 {
        "Sam Lee"@
    } else {
        "Jordan Kim"@
    }
}

/// Whether a time is one that a calendar has, with room for the data's past.
pub open spec fn in_calendar(t: Timestamp) -> bool {
    -8_300_000_000_000 <= t.secs <= 8_200_000_000_000
}

/// One item of the data.
pub open spec fn stub_item(
    team: Seq<char>,
    anchor: Timestamp,
    id: i64,
    title: Seq<char>,
    ty: Seq<char>,
    state: Seq<char>,
    tags: Seq<Seq<char>>,
    changed_days: i64,
    closed_days: Option<i64>,
    linked: Seq<i64>,
) -> WorkItemView {
    WorkItemView {
        id,
        provider: PROVIDER@,
        team,
        title,
        work_item_type: ty,
        state,
        tags,
        assigned_to: Some(assignee(id as int)),
        created_at: earlier(anchor, 180),
        changed_at: earlier(anchor, changed_days as int),
        closed_at: match closed_days {
            Some(d) => Some(earlier(anchor, d as int)),
            None => None,
        },
        iteration_path: Some(team + "\\Sprint 12"@),
        story_points: Some("3.0"@),
        description: None,
        url: "https://stub.example/"@ + team + "/_workitems/edit/"@ + signed_decimal(id as int),
        linked_pr_ids: linked,
        parent_id: None,
        linked_repos: Seq::empty(),
        linked_prs: Seq::empty(),
        tag_suggestions: Seq::empty(),
    }
}

/// The items of the data: three open ones that break a rule, three open ones that are clean, and
/// eight closed within the last month.
pub open spec fn stub_items(team: Seq<char>, anchor: Timestamp) -> Seq<WorkItemView> {
    seq![
        stub_item(
            team,
            anchor,
            1001,
            "Investigate flaky integration test"@,
            "Task"@,
            "New"@,
            Seq::empty(),
            2,
            None,
            Seq::empty(),
        ),
        stub_item(
            team,
            anchor,
            1002,
            "Document the config import format"@,
            "Task"@,
            "In Progress"@,
            seq!["team:platform"@, "area:kubernetes"@],
            5,
            None,
            Seq::empty(),
        ),
        stub_item(
            team,
            anchor,
            1003,
            "Spike: cache provider responses"@,
            "User Story"@,
            "Active"@,
            seq!["team:platform"@, "type:story"@, "wip"@],
            4,
            None,
            Seq::empty(),
        ),
        stub_item(
            team,
            anchor,
            1004,
            "Add retry/backoff to the poller"@,
            "Bug"@,
            "Active"@,
            seq!["team:platform"@, "type:bug"@, "priority:high"@],
            1,
            None,
            seq![2001i64],
        ),
        stub_item(
            team,
            anchor,
            1005,
            "Ship the reports engine"@,
            "Feature"@,
            "New"@,
            seq!["team:platform"@, "type:feature"@, "area:frontend"@],
            3,
            None,
            Seq::empty(),
        ),
        stub_item(
            team,
            anchor,
            1006,
            "Wire up the live-reload dev loop"@,
            "Task"@,
            "In Progress"@,
            seq!["team:platform"@, "type:task"@, "area:backend"@],
            6,
            None,
            Seq::empty(),
        ),
        stub_item(
            team,
            anchor,
            1007,
            "Migrate config to the database"@,
            "User Story"@,
            "Closed"@,
            seq!["team:platform"@, "type:story"@, "area:kubernetes"@, "source:roadmap"@, "internal"@],
            3,
            Some(3),
            Seq::empty(),
        ),
        stub_item(
            team,
            anchor,
            1008,
            "Fix node-pool autoscaling"@,
            "Bug"@,
            "Closed"@,
            seq!["team:platform"@, "type:bug"@, "area:kubernetes"@, "source:incident"@, "internal"@],
            6,
            Some(6),
            Seq::empty(),
        ),
        stub_item(
            team,
            anchor,
            1009,
            "Add OpenTelemetry traces to the API"@,
            "Task"@,
            "Closed"@,
            seq!["team:platform"@, "type:task"@, "area:observability"@, "source:support"@, "external"@],
            9,
            Some(9),
            Seq::empty(),
        ),
        stub_item(
            team,
            anchor,
            1010,
            "Roll out Argo CD to staging"@,
            "User Story"@,
            "Closed"@,
            seq!["team:platform"@, "type:story"@, "area:dev-platform"@, "source:roadmap"@, "internal"@],
            12,
            Some(12),
            Seq::empty(),
        ),
        stub_item(
            team,
            anchor,
            1011,
            "Self-service portal access request"@,
            "Feature"@,
            "Closed"@,
            seq!["team:platform"@, "type:feature"@, "area:idp"@, "source:request"@, "internal"@],
            15,
            Some(15),
            Seq::empty(),
        ),
        stub_item(
            team,
            anchor,
            1012,
            "Standardise pipeline YAML templates"@,
            "Task"@,
            "Closed"@,
            seq!["team:platform"@, "type:task"@, "area:azuredevops"@, "source:support"@, "external"@],
            20,
            Some(20),
            Seq::empty(),
        ),
        stub_item(
            team,
            anchor,
            1013,
            "Investigate cluster DNS latency"@,
            "Bug"@,
            "Closed"@,
            seq!["team:platform"@, "type:bug"@, "area:kubernetes"@, "source:incident"@, "internal"@],
            25,
            Some(25),
            Seq::empty(),
        ),
        stub_item(
            team,
            anchor,
            1014,
            "Dashboards for uptime SLOs"@,
            "User Story"@,
            "Closed"@,
            seq!["team:platform"@, "type:story"@, "area:observability"@, "source:roadmap"@, "external"@],
            28,
            Some(28),
            Seq::empty(),
        ),
    ]
}

/// One pipeline of the data.
pub open spec fn stub_pipeline(
    team: Seq<char>,
    id: i64,
    name: Seq<char>,
    status: Option<RunStatus>,
    at: Option<Timestamp>,
) -> PipelineView {
    let place = "https://stub.example/"@ + team;
    PipelineView {
        id,
        provider: PROVIDER@,
        team,
        name,
        folder: Some("\\platform"@),
        url: place + "/_build?definitionId="@ + signed_decimal(id as int),
        last_run_status: status,
        last_run_at: at,
        last_run_url: match at {
            Some(t) => Some(place + "/_build/results?buildId="@ + signed_decimal(id as int)),
            None => None,
        },
    }
}

/// The pipelines of the data: one that passes, one that fails, one that never ran.
pub open spec fn stub_pipelines(team: Seq<char>, anchor: Timestamp) -> Seq<PipelineView> {
    let yesterday = earlier(anchor, 1);
    seq![
        stub_pipeline(team, 10, "platform-ci"@, Some(RunStatus::Succeeded), Some(yesterday)),
        stub_pipeline(team, 11, "platform-nightly"@, Some(RunStatus::Failed), Some(yesterday)),
        stub_pipeline(team, 12, "platform-release"@, None, None),
    ]
}

/// One run of the data.
pub open spec fn stub_run(
    team: Seq<char>,
    id: i64,
    pipeline_id: i64,
    status: RunStatus,
    at: Timestamp,
) -> PipelineRunView {
    PipelineRunView {
        id,
        pipeline_id,
        provider: PROVIDER@,
        team,
        status,
        started_at: Some(at),
        finished_at: Some(at),
        source_branch: Some("refs/heads/main"@),
        url: "https://stub.example/"@ + team + "/_build/results?buildId="@ + signed_decimal(
            id as int,
        ),
    }
}

/// The runs of the data.
pub open spec fn stub_runs(team: Seq<char>, anchor: Timestamp) -> Seq<PipelineRunView> {
    seq![
        stub_run(team, 9001, 10, RunStatus::Succeeded, earlier(anchor, 1)),
        stub_run(team, 9002, 10, RunStatus::Succeeded, earlier(anchor, 2)),
        stub_run(team, 9003, 11, RunStatus::Failed, earlier(anchor, 1)),
        stub_run(team, 9004, 11, RunStatus::Succeeded, earlier(anchor, 2)),
        stub_run(team, 9005, 10, RunStatus::Canceled, earlier(anchor, 3)),
    ]
}

/// One pull request of the data.
pub open spec fn stub_pr(
    team: Seq<char>,
    id: i64,
    title: Seq<char>,
    status: PrStatus,
    draft: bool,
    author: Seq<char>,
    created: Timestamp,
) -> PullRequestView {
    PullRequestView {
        id,
        provider: PROVIDER@,
        team,
        title,
        status,
        is_draft: draft,
        repository: Some("platform-core"@),
        author: Some(author),
        created_at: Some(created),
        source_branch: Some("refs/heads/feature/x"@),
        target_branch: Some("refs/heads/main"@),
        reviewer_count: 2,
        url: "https://stub.example/"@ + team + "/_git/platform-core/pullrequest/"@
            + signed_decimal(id as int),
        flags: Seq::empty(),
        linked_work_items: Seq::empty(),
    }
}

/// The pull requests of the data.
pub open spec fn stub_prs(team: Seq<char>, anchor: Timestamp) -> Seq<PullRequestView> {
    seq![
        stub_pr(
            team,
            2001,
            "Add retry/backoff to the poller"@,
            PrStatus::Active,
            false,
            "Alex Rivera"@,
            earlier(anchor, 1),
        ),
        stub_pr(
            team,
            2002,
            "Bump dependencies"@,
            PrStatus::Active,
            true,
            "Sam Lee"@,
            earlier(anchor, 2),
        ),
        stub_pr(
            team,
            2003,
            "Fix flaky integration test"@,
            PrStatus::Completed,
            false,
            "Sam Lee"@,
            earlier(anchor, 4),
        ),
    ]
}

/// The first item of a list with an id.
pub open spec fn item_with_id(items: Seq<WorkItemView>, id: i64) -> Option<WorkItemView>
    decreases items.len(),
{
    if items.len() == 0 {
        None
    } else if item_with_id(items.drop_last(), id) is Some {
        item_with_id(items.drop_last(), id)
    } else if items.last().id == id {
        Some(items.last())
    } else {
        None
    }
}

/// The first pull request of a list with an id.
pub open spec fn pr_with_id(prs: Seq<PullRequestView>, id: i64) -> Option<PullRequestView>
    decreases prs.len(),
{
    if prs.len() == 0 {
        None
    } else if pr_with_id(prs.drop_last(), id) is Some {
        pr_with_id(prs.drop_last(), id)
    } else if prs.last().id == id {
        Some(prs.last())
    } else {
        None
    }
}

/// An item after an edit. It changed no earlier than it was created.
pub open spec fn edited(item: WorkItemView, update: WorkItemUpdate) -> WorkItemView {
    WorkItemView {
        state: match update.state {
            Some(s) => s@,
            None => item.state,
        },
        tags: match update.tags {
            Some(t) => views(t@),
            None => item.tags,
        },
        changed_at: if item.changed_at.total() >= item.created_at.total() {
            item.changed_at
        } else {
            item.created_at
        },
        ..item
    }
}

/// An item with a pull request linked, once.
pub open spec fn linked_to(item: WorkItemView, pr_id: i64) -> WorkItemView {
    WorkItemView {
        linked_pr_ids: if item.linked_pr_ids.contains(pr_id) {
            item.linked_pr_ids
        } else {
            item.linked_pr_ids.push(pr_id)
        },
        ..item
    }
}

/// The ids of a list other than `id`.
pub open spec fn ids_without(ids: Seq<i64>, id: i64) -> Seq<i64>
    decreases ids.len(),
{
    if ids.len() == 0 {
        Seq::empty()
    } else if ids.last() == id {
        ids_without(ids.drop_last(), id)
    } else {
        ids_without(ids.drop_last(), id).push(ids.last())
    }
}

/// An item without the link to a pull request.
pub open spec fn unlinked_from(item: WorkItemView, pr_id: i64) -> WorkItemView {
    WorkItemView { linked_pr_ids: ids_without(item.linked_pr_ids, pr_id), ..item }
}

/// The demonstration provider of a team.
#[derive(Debug)]
pub struct StubProvider {
    team: String,
    anchor: Timestamp,
}

impl StubProvider {
    /// The anchor is a time that a calendar has.
    pub closed spec fn wf(&self) -> bool {
        -8_300_000_086_400 <= self.anchor.secs <= 8_200_000_086_400
    }

    pub closed spec fn team(&self) -> Seq<char> {
        self.team@
    }

    pub closed spec fn anchor(&self) -> Timestamp {
        self.anchor
    }

    /// The provider of a team, anchored at nine o'clock on the day of `now`.
    pub fn new(cfg: &TeamConfig, now: Timestamp) -> (r: Self)
        requires
            in_calendar(now),
        ensures
            r.wf(),
            r.team() == cfg.name@,
            r.anchor() == nine_oclock(now),
    {
        let days: i64 = floor_days(now.secs);
        StubProvider {
            team: cfg.name.clone(),
            anchor: Timestamp { secs: days * 86_400 + 32_400, nanos: 0 },
        }
    }

    /// The name of the provider.
    pub fn provider_name(&self) -> (r: &str)
        ensures
            r@ == PROVIDER@,
    {
        PROVIDER
    }

    /// The name of the team.
    pub fn team_name(&self) -> (r: &str)
        ensures
            r@ == self.team(),
    {
        self.team.as_str()
    }

    fn days_ago(&self, d: i64) -> (r: Timestamp)
        requires
            self.wf(),
            0 <= d <= 180,
        ensures
            r == earlier(self.anchor(), d as int),
    {
        Timestamp { secs: self.anchor.secs - d * 86_400, nanos: self.anchor.nanos }
    }

    fn place(&self, tail: &str, id: i64) -> (r: String)
        ensures
            r@ == "https://stub.example/"@ + self.team() + tail@ + signed_decimal(id as int),
    {
        let mut url: String = cat3("https://stub.example/", self.team.as_str(), tail);
        url.append(format_i64(id).as_str());
        url
    }

    fn wi(
        &self,
        id: i64,
        title: &str,
        ty: &str,
        state: &str,
        tags: Vec<&str>,
        changed_days: i64,
        closed_days: Option<i64>,
        linked: Vec<i64>,
    ) -> (r: WorkItem)
        requires
            self.wf(),
            0 <= id,
            0 <= changed_days <= 180,
            closed_days matches Some(d) ==> 0 <= d <= 180,
        ensures
            r@ == stub_item(
                self.team(),
                self.anchor(),
                id,
                title@,
                ty@,
                state@,
                views(tags@),
                changed_days,
                closed_days,
                linked@,
            ),
    {
        let mut owned_tags: Vec<String> = Vec::new();
        let mut i: usize = 0;
        while i < tags.len()
            invariant
                i <= tags@.len(),
                views(owned_tags@) == views(tags@).take(i as int),
            decreases tags@.len() - i,
        {
            owned_tags.push(owned(tags[i]));
            assert(views(owned_tags@) =~= views(tags@).take(i + 1));
            i += 1;
        }
        let person: &str = if id % 3 == 0 {
            "Alex Rivera"
        } else if id % 3 == 1 {
            "Sam Lee"
        } else {
            "Jordan Kim"
        };
        let closed_at: Option<Timestamp> = match closed_days {
            Some(d) => Some(self.days_ago(d)),
            None => None,
        };
        let item: WorkItem = WorkItem {
            id,
            provider: PROVIDER.to_owned(),
            team: self.team.clone(),
            title: title.to_owned(),
            work_item_type: ty.to_owned(),
            state: state.to_owned(),
            tags: owned_tags,
            assigned_to: Some(person.to_owned()),
            created_at: self.days_ago(180),
            changed_at: self.days_ago(changed_days),
            closed_at,
            iteration_path: Some(cat2(self.team.as_str(), "\\Sprint 12")),
            story_points: Some("3.0".to_owned()),
            description: None,
            url: self.place("/_workitems/edit/", id),
            linked_pr_ids: linked,
            parent_id: None,
            linked_repos: Vec::new(),
            linked_prs: Vec::new(),
            tag_suggestions: Vec::new(),
        };
        assert(item@ =~= stub_item(
            self.team(),
            self.anchor(),
            id,
            title@,
            ty@,
            state@,
            views(tags@),
            changed_days,
            closed_days,
            linked@,
        ));
        item
    }

    /// The work items of the team.
    pub fn fetch_work_items(&self) -> (r: Vec<WorkItem>)
        requires
            self.wf(),
        ensures
            views(r@) == stub_items(self.team(), self.anchor()),
    {
        let mut out: Vec<WorkItem> = Vec::new();
        let tags: Vec<&str> = Vec::new();
        assert(views(tags@) =~= Seq::<Seq<char>>::empty());
        let linked: Vec<i64> = Vec::new();
        assert(linked@ =~= Seq::<i64>::empty());
        out.push(
            self.wi(1001, "Investigate flaky integration test", "Task", "New", tags, 2, None, linked),
        );
        let tags: Vec<&str> = vec!["team:platform", "area:kubernetes"];
        assert(views(tags@) =~= seq!["team:platform"@, "area:kubernetes"@]);
        let linked: Vec<i64> = Vec::new();
        assert(linked@ =~= Seq::<i64>::empty());
        out.push(
            self.wi(1002, "Document the config import format", "Task", "In Progress", tags, 5, None, linked),
        );
        let tags: Vec<&str> = vec!["team:platform", "type:story", "wip"];
        assert(views(tags@) =~= seq!["team:platform"@, "type:story"@, "wip"@]);
        let linked: Vec<i64> = Vec::new();
        assert(linked@ =~= Seq::<i64>::empty());
        out.push(
            self.wi(1003, "Spike: cache provider responses", "User Story", "Active", tags, 4, None, linked),
        );
        let tags: Vec<&str> = vec!["team:platform", "type:bug", "priority:high"];
        assert(views(tags@) =~= seq!["team:platform"@, "type:bug"@, "priority:high"@]);
        let linked: Vec<i64> = vec![2001i64];
        assert(linked@ =~= seq![2001i64]);
        out.push(
            self.wi(1004, "Add retry/backoff to the poller", "Bug", "Active", tags, 1, None, linked),
        );
        let tags: Vec<&str> = vec!["team:platform", "type:feature", "area:frontend"];
        assert(views(tags@) =~= seq!["team:platform"@, "type:feature"@, "area:frontend"@]);
        let linked: Vec<i64> = Vec::new();
        assert(linked@ =~= Seq::<i64>::empty());
        out.push(
            self.wi(1005, "Ship the reports engine", "Feature", "New", tags, 3, None, linked),
        );
        let tags: Vec<&str> = vec!["team:platform", "type:task", "area:backend"];
        assert(views(tags@) =~= seq!["team:platform"@, "type:task"@, "area:backend"@]);
        let linked: Vec<i64> = Vec::new();
        assert(linked@ =~= Seq::<i64>::empty());
        out.push(
            self.wi(1006, "Wire up the live-reload dev loop", "Task", "In Progress", tags, 6, None, linked),
        );
        let tags: Vec<&str> = vec!["team:platform", "type:story", "area:kubernetes", "source:roadmap", "internal"];
        assert(views(tags@) =~= seq!["team:platform"@, "type:story"@, "area:kubernetes"@, "source:roadmap"@, "internal"@]);
        let linked: Vec<i64> = Vec::new();
        assert(linked@ =~= Seq::<i64>::empty());
        out.push(
            self.wi(1007, "Migrate config to the database", "User Story", "Closed", tags, 3, Some(3), linked),
        );
        let tags: Vec<&str> = vec!["team:platform", "type:bug", "area:kubernetes", "source:incident", "internal"];
        assert(views(tags@) =~= seq!["team:platform"@, "type:bug"@, "area:kubernetes"@, "source:incident"@, "internal"@]);
        let linked: Vec<i64> = Vec::new();
        assert(linked@ =~= Seq::<i64>::empty());
        out.push(
            self.wi(1008, "Fix node-pool autoscaling", "Bug", "Closed", tags, 6, Some(6), linked),
        );
        let tags: Vec<&str> = vec!["team:platform", "type:task", "area:observability", "source:support", "external"];
        assert(views(tags@) =~= seq!["team:platform"@, "type:task"@, "area:observability"@, "source:support"@, "external"@]);
        let linked: Vec<i64> = Vec::new();
        assert(linked@ =~= Seq::<i64>::empty());
        out.push(
            self.wi(1009, "Add OpenTelemetry traces to the API", "Task", "Closed", tags, 9, Some(9), linked),
        );
        let tags: Vec<&str> = vec!["team:platform", "type:story", "area:dev-platform", "source:roadmap", "internal"];
        assert(views(tags@) =~= seq!["team:platform"@, "type:story"@, "area:dev-platform"@, "source:roadmap"@, "internal"@]);
        let linked: Vec<i64> = Vec::new();
        assert(linked@ =~= Seq::<i64>::empty());
        out.push(
            self.wi(1010, "Roll out Argo CD to staging", "User Story", "Closed", tags, 12, Some(12), linked),
        );
        let tags: Vec<&str> = vec!["team:platform", "type:feature", "area:idp", "source:request", "internal"];
        assert(views(tags@) =~= seq!["team:platform"@, "type:feature"@, "area:idp"@, "source:request"@, "internal"@]);
        let linked: Vec<i64> = Vec::new();
        assert(linked@ =~= Seq::<i64>::empty());
        out.push(
            self.wi(1011, "Self-service portal access request", "Feature", "Closed", tags, 15, Some(15), linked),
        );
        let tags: Vec<&str> = vec!["team:platform", "type:task", "area:azuredevops", "source:support", "external"];
        assert(views(tags@) =~= seq!["team:platform"@, "type:task"@, "area:azuredevops"@, "source:support"@, "external"@]);
        let linked: Vec<i64> = Vec::new();
        assert(linked@ =~= Seq::<i64>::empty());
        out.push(
            self.wi(1012, "Standardise pipeline YAML templates", "Task", "Closed", tags, 20, Some(20), linked),
        );
        let tags: Vec<&str> = vec!["team:platform", "type:bug", "area:kubernetes", "source:incident", "internal"];
        assert(views(tags@) =~= seq!["team:platform"@, "type:bug"@, "area:kubernetes"@, "source:incident"@, "internal"@]);
        let linked: Vec<i64> = Vec::new();
        assert(linked@ =~= Seq::<i64>::empty());
        out.push(
            self.wi(1013, "Investigate cluster DNS latency", "Bug", "Closed", tags, 25, Some(25), linked),
        );
        let tags: Vec<&str> = vec!["team:platform", "type:story", "area:observability", "source:roadmap", "external"];
        assert(views(tags@) =~= seq!["team:platform"@, "type:story"@, "area:observability"@, "source:roadmap"@, "external"@]);
        let linked: Vec<i64> = Vec::new();
        assert(linked@ =~= Seq::<i64>::empty());
        out.push(
            self.wi(1014, "Dashboards for uptime SLOs", "User Story", "Closed", tags, 28, Some(28), linked),
        );
        assert(views(out@) =~= stub_items(self.team(), self.anchor()));
        out
    }

    fn pipe(
        &self,
        id: i64,
        name: &str,
        status: Option<RunStatus>,
        at: Option<Timestamp>,
    ) -> (r: Pipeline)
        ensures
            r@ == stub_pipeline(self.team(), id, name@, status, at),
    {
        Pipeline {
            id,
            provider: PROVIDER.to_owned(),
            team: self.team.clone(),
            name: name.to_owned(),
            folder: Some("\\platform".to_owned()),
            url: self.place("/_build?definitionId=", id),
            last_run_status: status,
            last_run_at: at,
            last_run_url: match at {
                Some(t) => Some(self.place("/_build/results?buildId=", id)),
                None => None,
            },
        }
    }

    /// The pipelines of the team.
    pub fn fetch_pipelines(&self) -> (r: Vec<Pipeline>)
        requires
            self.wf(),
        ensures
            views(r@) == stub_pipelines(self.team(), self.anchor()),
    {
        let yesterday: Timestamp = self.days_ago(1);
        let r: Vec<Pipeline> = vec![
            self.pipe(10, "platform-ci", Some(RunStatus::Succeeded), Some(yesterday)),
            self.pipe(11, "platform-nightly", Some(RunStatus::Failed), Some(yesterday)),
            self.pipe(12, "platform-release", None, None),
        ];
        assert(views(r@) =~= stub_pipelines(self.team(), self.anchor()));
        r
    }

    fn run(&self, id: i64, pipeline_id: i64, status: RunStatus, at: Timestamp) -> (r: PipelineRun)
        ensures
            r@ == stub_run(self.team(), id, pipeline_id, status, at),
    {
        PipelineRun {
            id,
            pipeline_id,
            provider: PROVIDER.to_owned(),
            team: self.team.clone(),
            status,
            started_at: Some(at),
            finished_at: Some(at),
            source_branch: Some("refs/heads/main".to_owned()),
            url: self.place("/_build/results?buildId=", id),
        }
    }

    /// The runs of the team, whenever they were: the reader windows them.
    pub fn fetch_runs(&self) -> (r: Vec<PipelineRun>)
        requires
            self.wf(),
        ensures
            views(r@) == stub_runs(self.team(), self.anchor()),
    {
        let r: Vec<PipelineRun> = vec![
            self.run(9001, 10, RunStatus::Succeeded, self.days_ago(1)),
            self.run(9002, 10, RunStatus::Succeeded, self.days_ago(2)),
            self.run(9003, 11, RunStatus::Failed, self.days_ago(1)),
            self.run(9004, 11, RunStatus::Succeeded, self.days_ago(2)),
            self.run(9005, 10, RunStatus::Canceled, self.days_ago(3)),
        ];
        assert(views(r@) =~= stub_runs(self.team(), self.anchor()));
        r
    }

    fn pr(
        &self,
        id: i64,
        title: &str,
        status: PrStatus,
        draft: bool,
        author: &str,
        created: Timestamp,
    ) -> (r: PullRequest)
        ensures
            r@ == stub_pr(self.team(), id, title@, status, draft, author@, created),
    {
        let pr: PullRequest = PullRequest {
            id,
            provider: PROVIDER.to_owned(),
            team: self.team.clone(),
            title: title.to_owned(),
            status,
            is_draft: draft,
            repository: Some("platform-core".to_owned()),
            author: Some(author.to_owned()),
            created_at: Some(created),
            source_branch: Some("refs/heads/feature/x".to_owned()),
            target_branch: Some("refs/heads/main".to_owned()),
            reviewer_count: 2,
            url: self.place("/_git/platform-core/pullrequest/", id),
            flags: Vec::new(),
            linked_work_items: Vec::new(),
        };
        assert(pr@ =~= stub_pr(self.team(), id, title@, status, draft, author@, created));
        pr
    }

    /// The pull requests of the team.
    pub fn fetch_pull_requests(&self) -> (r: Vec<PullRequest>)
        requires
            self.wf(),
        ensures
            views(r@) == stub_prs(self.team(), self.anchor()),
    {
        let r: Vec<PullRequest> = vec![
            self.pr(
                2001,
                "Add retry/backoff to the poller",
                PrStatus::Active,
                false,
                "Alex Rivera",
                self.days_ago(1),
            ),
            self.pr(
                2002,
                "Bump dependencies",
                PrStatus::Active,
                true,
                "Sam Lee",
                self.days_ago(2),
            ),
            self.pr(
                2003,
                "Fix flaky integration test",
                PrStatus::Completed,
                false,
                "Sam Lee",
                self.days_ago(4),
            ),
        ];
        assert(views(r@) =~= stub_prs(self.team(), self.anchor()));
        r
    }

    /// The pull request with an id.
    pub fn fetch_pull_request(&self, id: i64) -> (r: Result<PullRequest, ProviderError>)
        requires
            self.wf(),
        ensures
            ({
                let found = pr_with_id(stub_prs(self.team(), self.anchor()), id);
                match r {
                    Ok(pr) => found == Some(pr@),
                    Err(e) => found is None && is_not_found(
                        e,
                        "pull request "@ + signed_decimal(id as int),
                    ),
                }
            }),
    {
        let mut all: Vec<PullRequest> = self.fetch_pull_requests();
        let ghost vs = views(all@);
        let mut i: usize = 0;
        while i < all.len()
            invariant
                i <= all@.len(),
                vs == views(all@),
                vs == stub_prs(self.team(), self.anchor()),
                pr_with_id(vs.take(i as int), id) is None,
            decreases all@.len() - i,
        {
            proof {
                lemma_take_step(vs, i as int);
            }
            if all[i].id == id {
                proof {
                    lemma_found_stays(|l: Seq<PullRequestView>| pr_with_id(l, id), vs, i + 1);
                }
                return Ok(all.remove(i));
            }
            i += 1;
        }
        Err(ProviderError::NotFound(cat2("pull request ", format_i64(id).as_str())))
    }

    fn work_item(&self, id: i64) -> (r: Result<WorkItem, ProviderError>)
        requires
            self.wf(),
        ensures
            ({
                let found = item_with_id(stub_items(self.team(), self.anchor()), id);
                match r {
                    Ok(item) => found == Some(item@),
                    Err(e) => found is None && is_not_found(
                        e,
                        "work item "@ + signed_decimal(id as int),
                    ),
                }
            }),
    {
        let mut all: Vec<WorkItem> = self.fetch_work_items();
        let ghost vs = views(all@);
        let mut i: usize = 0;
        while i < all.len()
            invariant
                i <= all@.len(),
                vs == views(all@),
                vs == stub_items(self.team(), self.anchor()),
                item_with_id(vs.take(i as int), id) is None,
            decreases all@.len() - i,
        {
            proof {
                lemma_take_step(vs, i as int);
            }
            if all[i].id == id {
                proof {
                    lemma_found_stays(|l: Seq<WorkItemView>| item_with_id(l, id), vs, i + 1);
                }
                return Ok(all.remove(i));
            }
            i += 1;
        }
        Err(ProviderError::NotFound(cat2("work item ", format_i64(id).as_str())))
    }

    /// The item with an id as an edit leaves it. The data itself stays as it is.
    pub fn update_work_item(&self, id: i64, update: &WorkItemUpdate) -> (r: Result<
        WorkItem,
        ProviderError,
    >)
        requires
            self.wf(),
        ensures
            ({
                let found = item_with_id(stub_items(self.team(), self.anchor()), id);
                match r {
                    Ok(item) => found is Some && item@ == edited(found->0, *update),
                    Err(e) => found is None && is_not_found(
                        e,
                        "work item "@ + signed_decimal(id as int),
                    ),
                }
            }),
    {
        let mut item: WorkItem = match self.work_item(id) {
            Ok(item) => item,
            Err(e) => {
                return Err(e);
            },
        };
        let ghost base = item@;
        match &update.state {
            Some(s) => {
                item.state = s.clone();
            },
            None => {},
        }
        match &update.tags {
            Some(t) => {
                item.tags = clone_all(t);
            },
            None => {},
        }
        if !item.changed_at.at_or_after(item.created_at) {
            item.changed_at = item.created_at;
        }
        assert(item@ =~= edited(base, *update));
        Ok(item)
    }

    /// The item with a pull request linked.
    pub fn link_pr(&self, work_item_id: i64, pr_id: i64) -> (r: Result<WorkItem, ProviderError>)
        requires
            self.wf(),
        ensures
            ({
                let found = item_with_id(stub_items(self.team(), self.anchor()), work_item_id);
                match r {
                    Ok(item) => found is Some && item@ == linked_to(found->0, pr_id),
                    Err(e) => found is None && is_not_found(
                        e,
                        "work item "@ + signed_decimal(work_item_id as int),
                    ),
                }
            }),
    {
        let mut item: WorkItem = match self.work_item(work_item_id) {
            Ok(item) => item,
            Err(e) => {
                return Err(e);
            },
        };
        let ghost base = item@;
        if !holds_id(&item.linked_pr_ids, pr_id) {
            item.linked_pr_ids.push(pr_id);
        }
        assert(item@ =~= linked_to(base, pr_id));
        Ok(item)
    }

    /// The item without the link to a pull request.
    pub fn unlink_pr(&self, work_item_id: i64, pr_id: i64) -> (r: Result<WorkItem, ProviderError>)
        requires
            self.wf(),
        ensures
            ({
                let found = item_with_id(stub_items(self.team(), self.anchor()), work_item_id);
                match r {
                    Ok(item) => found is Some && item@ == unlinked_from(found->0, pr_id),
                    Err(e) => found is None && is_not_found(
                        e,
                        "work item "@ + signed_decimal(work_item_id as int),
                    ),
                }
            }),
    {
        let mut item: WorkItem = match self.work_item(work_item_id) {
            Ok(item) => item,
            Err(e) => {
                return Err(e);
            },
        };
        let ghost base = item@;
        let ids: Vec<i64> = drop_id(&item.linked_pr_ids, pr_id);
        item.linked_pr_ids = ids;
        assert(item@ =~= unlinked_from(base, pr_id));
        Ok(item)
    }
}

fn drop_id(ids: &Vec<i64>, id: i64) -> (r: Vec<i64>)
    ensures
        r@ == ids_without(ids@, id),
{
    let mut out: Vec<i64> = Vec::new();
    let mut i: usize = 0;
    while i < ids.len()
        invariant
            i <= ids@.len(),
            out@ == ids_without(ids@.take(i as int), id),
        decreases ids@.len() - i,
    {
        proof {
            lemma_take_step(ids@, i as int);
        }
        if ids[i] != id {
            out.push(ids[i]);
        }
        i += 1;
    }
    out
}

/// The whole days since the start of 1970, rounded down.
fn floor_days(secs: i64) -> (r: i64)
    requires
        -8_300_000_000_000 <= secs <= 8_200_000_000_000,
    ensures
        r == secs as int / 86_400,
{
    if secs >= 0 {
        ((secs as u64) / 86_400) as i64
    } else {
        let up: u64 = ((-(secs + 1)) as u64) / 86_400;
        -(up as i64) - 1
    }
}

// ---------------------------------------------------------------------------------------------
// Laws
// ---------------------------------------------------------------------------------------------

/// Two providers of one team that are built on one day give the same items.
pub proof fn law_same_day_same_data(team: Seq<char>, a: Timestamp, b: Timestamp)
    requires
        a.secs as int / 86_400 == b.secs as int / 86_400,
    ensures
        stub_items(team, nine_oclock(a)) == stub_items(team, nine_oclock(b)),
        stub_pipelines(team, nine_oclock(a)) == stub_pipelines(team, nine_oclock(b)),
        stub_runs(team, nine_oclock(a)) == stub_runs(team, nine_oclock(b)),
        stub_prs(team, nine_oclock(a)) == stub_prs(team, nine_oclock(b)),
{
}

/// Every item names the team and the provider.
pub proof fn law_items_name_their_team(team: Seq<char>, anchor: Timestamp, i: int)
    requires
        0 <= i < stub_items(team, anchor).len(),
    ensures
        stub_items(team, anchor)[i].team == team,
        stub_items(team, anchor)[i].provider == PROVIDER@,
{
}

/// Every closed item was closed within the last thirty days, whatever the time of day.
pub proof fn law_closed_items_are_recent(team: Seq<char>, now: Timestamp, i: int)
    requires
        in_calendar(now),
        now.nanos < 1_000_000_000,
        0 <= i < stub_items(team, nine_oclock(now)).len(),
    ensures
        stub_items(team, nine_oclock(now))[i].closed_at matches Some(t) ==> 0 <= days_between(t, now)
            <= 30,
{
    let day = now.secs as int / 86_400;
    assert(day * 86_400 <= now.secs < day * 86_400 + 86_400);
    let anchor = nine_oclock(now);
    assert(anchor.secs == day * 86_400 + 32_400);
}

/// Linking a pull request and unlinking it again leaves an item without the link.
pub proof fn law_unlink_undoes_link(item: WorkItemView, pr_id: i64)
    requires
        !item.linked_pr_ids.contains(pr_id),
    ensures
        unlinked_from(linked_to(item, pr_id), pr_id) == item,
{
    let longer = item.linked_pr_ids.push(pr_id);
    assert(longer.drop_last() =~= item.linked_pr_ids);
    lemma_ids_without_absent(item.linked_pr_ids, pr_id);
    assert(unlinked_from(linked_to(item, pr_id), pr_id) =~= item);
}

proof fn lemma_ids_without_absent(ids: Seq<i64>, id: i64)
    requires
        !ids.contains(id),
    ensures
        ids_without(ids, id) == ids,
    decreases ids.len(),
{
    if ids.len() > 0 {
        assert(ids.last() != id) by {
            assert(ids[ids.len() - 1] == ids.last());
        }
        assert forall|i: int| 0 <= i < ids.drop_last().len() implies ids.drop_last()[i] != id by {
            assert(ids[i] != id);
        }
        lemma_ids_without_absent(ids.drop_last(), id);
        assert(ids.drop_last().push(ids.last()) =~= ids);
    }
}

} // verus!
