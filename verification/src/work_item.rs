//! Work items.
use crate::flag::{TagSuggestion, TagSuggestionView};
use crate::pull_request::{LinkedPr, LinkedPrView};
use crate::text::{opt_view, views};
use crate::time::{age_in_days, days_between, Timestamp};
use vstd::prelude::*;

verus! {

/// A work item, whichever provider it comes from.
#[derive(Debug, Clone, PartialEq)]
pub struct WorkItem {
    pub id: i64,
    pub provider: String,
    pub team: String,
    pub title: String,
    pub work_item_type: String,
    pub state: String,
    pub tags: Vec<String>,
    pub assigned_to: Option<String>,
    pub created_at: Timestamp,
    pub changed_at: Timestamp,
    pub closed_at: Option<Timestamp>,
    pub iteration_path: Option<String>,
    /// The estimate as the provider writes the number; nothing here computes with it.
    pub story_points: Option<String>,
    pub description: Option<String>,
    pub url: String,
    pub linked_pr_ids: Vec<i64>,
    pub parent_id: Option<i64>,
    pub linked_repos: Vec<String>,
    pub linked_prs: Vec<LinkedPr>,
    pub tag_suggestions: Vec<TagSuggestion>,
}

#[verifier::ext_equal]
pub struct WorkItemView {
    pub id: i64,
    pub provider: Seq<char>,
    pub team: Seq<char>,
    pub title: Seq<char>,
    pub work_item_type: Seq<char>,
    pub state: Seq<char>,
    pub tags: Seq<Seq<char>>,
    pub assigned_to: Option<Seq<char>>,
    pub created_at: Timestamp,
    pub changed_at: Timestamp,
    pub closed_at: Option<Timestamp>,
    pub iteration_path: Option<Seq<char>>,
    pub story_points: Option<Seq<char>>,
    pub description: Option<Seq<char>>,
    pub url: Seq<char>,
    pub linked_pr_ids: Seq<i64>,
    pub parent_id: Option<i64>,
    pub linked_repos: Seq<Seq<char>>,
    pub linked_prs: Seq<LinkedPrView>,
    pub tag_suggestions: Seq<TagSuggestionView>,
}

impl View for WorkItem {
    type V = WorkItemView;

    open spec fn view(&self) -> WorkItemView {
        WorkItemView {
            id: self.id,
            provider: self.provider@,
            team: self.team@,
            title: self.title@,
            work_item_type: self.work_item_type@,
            state: self.state@,
            tags: views(self.tags@),
            assigned_to: opt_view(self.assigned_to),
            created_at: self.created_at,
            changed_at: self.changed_at,
            closed_at: self.closed_at,
            iteration_path: opt_view(self.iteration_path),
            story_points: opt_view(self.story_points),
            description: opt_view(self.description),
            url: self.url@,
            linked_pr_ids: self.linked_pr_ids@,
            parent_id: self.parent_id,
            linked_repos: views(self.linked_repos@),
            linked_prs: views(self.linked_prs@),
            tag_suggestions: views(self.tag_suggestions@),
        }
    }
}

impl WorkItem {
    /// Whether the item has no tags.
    pub fn is_untagged(&self) -> (r: bool)
        ensures
            r == (self@.tags.len() == 0),
    {
        self.tags.len() == 0
    }

    /// Whole days since the item last changed; none where that lies after `now`.
    pub fn days_since_change(&self, now: Timestamp) -> (r: i64)
        ensures
            r == days_between(self.changed_at, now),
    {
        age_in_days(self.changed_at, now)
    }
}

/// An edit of a work item: the fields to change.
#[derive(Debug, Clone)]
pub struct WorkItemUpdate {
    pub state: Option<String>,
    pub tags: Option<Vec<String>>,
}

impl Default for WorkItemUpdate {
    fn default() -> (r: Self)
        ensures
            r.state is None,
            r.tags is None,
    {
        WorkItemUpdate { state: None, tags: None }
    }
}

impl WorkItemUpdate {
    /// Whether the edit changes nothing.
    pub fn is_empty(&self) -> (r: bool)
        ensures
            r == (self.state is None && self.tags is None),
    {
        self.state.is_none() && self.tags.is_none()
    }
}

} // verus!
