//! What the demonstration provider promises.
use super::{
    assignee, edited, ids_without, item_with_id, linked_to, pr_with_id, stub_items, stub_pipelines,
    stub_prs, stub_runs, unlinked_from, PROVIDER,
};
use crate::number::signed_decimal;
use crate::pull_request::PullRequestView;
use crate::text::views;
use crate::time::{earlier, Timestamp};
use crate::work_item::{WorkItemUpdate, WorkItemView};
use vstd::prelude::*;

verus! {

/// An edit sets the state and the tags that it names, leaves what it does not name, and touches
/// nothing else but the time of the change.
pub proof fn law_edit_sets_what_it_names(item: WorkItemView, update: WorkItemUpdate)
    ensures
        ({
            let after = edited(item, update);
            &&& update.state is Some ==> after.state == update.state->0@
            &&& update.state is None ==> after.state == item.state
            &&& update.tags is Some ==> after.tags == views(update.tags->0@)
            &&& update.tags is None ==> after.tags == item.tags
            &&& after.changed_at.total() >= item.created_at.total()
            &&& after.changed_at.total() >= item.changed_at.total()
            &&& after.changed_at == item.changed_at || after.changed_at == item.created_at
            &&& (WorkItemView {
                state: item.state,
                tags: item.tags,
                changed_at: item.changed_at,
                ..after
            }) == item
        }),
{
}

/// Linking a pull request that is linked changes nothing; one that is not comes last.
pub proof fn law_links_are_added_once(item: WorkItemView, pr_id: i64)
    ensures
        item.linked_pr_ids.contains(pr_id) ==> linked_to(item, pr_id) == item,
        !item.linked_pr_ids.contains(pr_id) ==> linked_to(item, pr_id) == (WorkItemView {
            linked_pr_ids: item.linked_pr_ids.push(pr_id),
            ..item
        }),
{
}

/// Unlinking takes away every link to the pull request, keeps all others in order, and touches
/// nothing else.
pub proof fn law_links_are_taken_away(item: WorkItemView, pr_id: i64)
    ensures
        unlinked_from(item, pr_id) == (WorkItemView {
            linked_pr_ids: item.linked_pr_ids.filter(|k: i64| k != pr_id),
            ..item
        }),
{
    lemma_ids_without(item.linked_pr_ids, pr_id);
}

proof fn lemma_ids_without(ids: Seq<i64>, id: i64)
    ensures
        ids_without(ids, id) == ids.filter(|k: i64| k != id),
    decreases ids.len(),
{
    reveal(Seq::filter);
    if ids.len() > 0 {
        lemma_ids_without(ids.drop_last(), id);
    }
}

/// An item is found by its id exactly when one has it, and then the first of them.
pub proof fn law_first_item_is_found(items: Seq<WorkItemView>, id: i64)
    ensures
        match item_with_id(items, id) {
            Some(x) => exists|k: int|
                0 <= k < items.len() && #[trigger] items[k] == x && x.id == id && forall|j: int|
                    0 <= j < k ==> (#[trigger] items[j]).id != id,
            None => forall|j: int| 0 <= j < items.len() ==> (#[trigger] items[j]).id != id,
        },
    decreases items.len(),
{
    if items.len() > 0 {
        let head = items.drop_last();
        law_first_item_is_found(head, id);
        assert forall|j: int| 0 <= j < head.len() implies #[trigger] items[j] == head[j] by {}
        assert(items[items.len() - 1] == items.last());
        if item_with_id(head, id) is Some {
            let x = item_with_id(head, id)->0;
            let k = choose|k: int|
                0 <= k < head.len() && #[trigger] head[k] == x && x.id == id && forall|j: int|
                    0 <= j < k ==> (#[trigger] head[j]).id != id;
            assert(items[k] == x);
        }
    }
}

/// A pull request is found by its id exactly when one has it, and then the first of them.
pub proof fn law_first_pull_request_is_found(prs: Seq<PullRequestView>, id: i64)
    ensures
        match pr_with_id(prs, id) {
            Some(x) => exists|k: int|
                0 <= k < prs.len() && #[trigger] prs[k] == x && x.id == id && forall|j: int|
                    0 <= j < k ==> (#[trigger] prs[j]).id != id,
            None => forall|j: int| 0 <= j < prs.len() ==> (#[trigger] prs[j]).id != id,
        },
    decreases prs.len(),
{
    if prs.len() > 0 {
        let head = prs.drop_last();
        law_first_pull_request_is_found(head, id);
        assert forall|j: int| 0 <= j < head.len() implies #[trigger] prs[j] == head[j] by {}
        assert(prs[prs.len() - 1] == prs.last());
        if pr_with_id(head, id) is Some {
            let x = pr_with_id(head, id)->0;
            let k = choose|k: int|
                0 <= k < head.len() && #[trigger] head[k] == x && x.id == id && forall|j: int|
                    0 <= j < k ==> (#[trigger] head[j]).id != id;
            assert(prs[k] == x);
        }
    }
}

/// Every item of the data has its own address in its team, was created half a year ago, is assigned
/// in turn by its id, and has neither a parent nor a description.
pub proof fn law_items_of_the_data(team: Seq<char>, anchor: Timestamp, i: int)
    requires
        0 <= i < stub_items(team, anchor).len(),
    ensures
        ({
            let x = stub_items(team, anchor)[i];
            &&& x.provider == PROVIDER@
            &&& x.url == "https://stub.example/"@ + team + "/_workitems/edit/"@ + signed_decimal(
                x.id as int,
            )
            &&& x.created_at == earlier(anchor, 180)
            &&& x.assigned_to == Some(assignee(x.id as int))
            &&& x.parent_id is None
            &&& x.description is None
            &&& x.id == 1001 + i
        }),
{
}

/// Three people take turns, by the ids.
pub proof fn law_assignees_take_turns(id: int)
    ensures
        assignee(id) == assignee(id + 3),
        id % 3 == 0 ==> assignee(id) == "Alex Rivera"@,
        id % 3 == 1 ==> assignee(id) == "Sam Lee"@,
        id % 3 == 2 ==> assignee(id) == "Jordan Kim"@,
{
}

/// Every run of the data belongs to one of its pipelines.
pub proof fn law_runs_belong_to_pipelines(team: Seq<char>, anchor: Timestamp, i: int)
    requires
        0 <= i < stub_runs(team, anchor).len(),
    ensures
        exists|k: int|
            0 <= k < stub_pipelines(team, anchor).len() && (#[trigger] stub_pipelines(
                team,
                anchor,
            )[k]).id == stub_runs(team, anchor)[i].pipeline_id,
        stub_runs(team, anchor)[i].team == team,
        stub_runs(team, anchor)[i].provider == PROVIDER@,
{
    assert(stub_pipelines(team, anchor)[0].id == 10);
    assert(stub_pipelines(team, anchor)[1].id == 11);
}

/// Every pull request of the data has its own address in its team and brings no flag with it.
pub proof fn law_pull_requests_of_the_data(team: Seq<char>, anchor: Timestamp, i: int)
    requires
        0 <= i < stub_prs(team, anchor).len(),
    ensures
        ({
            let x = stub_prs(team, anchor)[i];
            &&& x.team == team
            &&& x.provider == PROVIDER@
            &&& x.url == "https://stub.example/"@ + team + "/_git/platform-core/pullrequest/"@
                + signed_decimal(x.id as int)
            &&& x.flags.len() == 0
            &&& x.linked_work_items.len() == 0
            &&& x.id == 2001 + i
        }),
{
}

} // verus!
