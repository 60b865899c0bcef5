//! Pull requests.
use crate::flag::{EntityFlag, EntityFlagView};
use crate::text::{opt_view, same, views};
use crate::time::Timestamp;
use vstd::prelude::*;

pub mod laws;

verus! {

/// Where a pull request stands.
#[derive(Debug, Clone, Copy, PartialEq, Eq, Structural)]
pub enum PrStatus {
    Active,
    Completed,
    Abandoned,
    Unknown,
}

/// The slug of a status.
pub open spec fn pr_status_slug(s: PrStatus) -> Seq<char> {
    match s {
        PrStatus::Active => "active"@,
        PrStatus::Completed => "completed"@,
        PrStatus::Abandoned => "abandoned"@,
        PrStatus::Unknown => "unknown"@,
    }
}

/// The status that a slug names; `Unknown` for any other text.
pub open spec fn pr_status_of(slug: Seq<char>) -> PrStatus {
    if slug == "active"@ {
        PrStatus::Active
    } else if slug == "completed"@ {
        PrStatus::Completed
    } else if slug == "abandoned"@ {
        PrStatus::Abandoned
    } else {
        PrStatus::Unknown
    }
}

impl PrStatus {
    /// The slug of the status.
    pub fn as_str(&self) -> (r: &'static str)
        ensures
            r@ == pr_status_slug(*self),
    {
        match self {
            PrStatus::Active => "active",
            PrStatus::Completed => "completed",
            PrStatus::Abandoned => "abandoned",
            PrStatus::Unknown => "unknown",
        }
    }

    /// The status that `s` names; `Unknown` for any other text.
    pub fn from_slug(s: &str) -> (r: Self)
        ensures
            r == pr_status_of(s@),
    {
        if same(s, "active") {
            PrStatus::Active
        } else if same(s, "completed") {
            PrStatus::Completed
        } else if same(s, "abandoned") {
            PrStatus::Abandoned
        } else {
            PrStatus::Unknown
        }
    }
}

/// Reading back the slug of a status gives the status.
pub proof fn law_pr_status_slug_round_trip(s: PrStatus)
    ensures
        pr_status_of(pr_status_slug(s)) == s,
{
    reveal_strlit("active");
    reveal_strlit("completed");
    reveal_strlit("abandoned");
    reveal_strlit("unknown");
    assert("completed"@.len() != "active"@.len());
    assert("abandoned"@[0] == 'a' && "completed"@[0] == 'c');
    assert("unknown"@.len() != "active"@.len());
}

/// A pull request, whichever provider it comes from.
#[derive(Debug, Clone, PartialEq)]
pub struct PullRequest {
    pub id: i64,
    pub provider: String,
    pub team: String,
    pub title: String,
    pub status: PrStatus,
    pub is_draft: bool,
    pub repository: Option<String>,
    pub author: Option<String>,
    pub created_at: Option<Timestamp>,
    pub source_branch: Option<String>,
    pub target_branch: Option<String>,
    pub reviewer_count: i64,
    pub url: String,
    pub flags: Vec<EntityFlag>,
    pub linked_work_items: Vec<i64>,
}

#[verifier::ext_equal]
pub struct PullRequestView {
    pub id: i64,
    pub provider: Seq<char>,
    pub team: Seq<char>,
    pub title: Seq<char>,
    pub status: PrStatus,
    pub is_draft: bool,
    pub repository: Option<Seq<char>>,
    pub author: Option<Seq<char>>,
    pub created_at: Option<Timestamp>,
    pub source_branch: Option<Seq<char>>,
    pub target_branch: Option<Seq<char>>,
    pub reviewer_count: i64,
    pub url: Seq<char>,
    pub flags: Seq<EntityFlagView>,
    pub linked_work_items: Seq<i64>,
}

impl View for PullRequest {
    type V = PullRequestView;

    open spec fn view(&self) -> PullRequestView {
        PullRequestView {
            id: self.id,
            provider: self.provider@,
            team: self.team@,
            title: self.title@,
            status: self.status,
            is_draft: self.is_draft,
            repository: opt_view(self.repository),
            author: opt_view(self.author),
            created_at: self.created_at,
            source_branch: opt_view(self.source_branch),
            target_branch: opt_view(self.target_branch),
            reviewer_count: self.reviewer_count,
            url: self.url@,
            flags: views(self.flags@),
            linked_work_items: self.linked_work_items@,
        }
    }
}

/// A pull request as a work item shows it.
#[derive(Debug, Clone, PartialEq)]
pub struct LinkedPr {
    pub id: i64,
    pub status: PrStatus,
    pub is_draft: bool,
    pub url: String,
}

#[verifier::ext_equal]
pub struct LinkedPrView {
    pub id: i64,
    pub status: PrStatus,
    pub is_draft: bool,
    pub url: Seq<char>,
}

impl View for LinkedPr {
    type V = LinkedPrView;

    open spec fn view(&self) -> LinkedPrView {
        LinkedPrView { id: self.id, status: self.status, is_draft: self.is_draft, url: self.url@ }
    }
}

} // verus!
