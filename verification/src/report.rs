//! What reports and the dashboard show.
use crate::flag::EntityFlag;
use crate::pipeline::RunStatus;
use vstd::prelude::*;

verus! {

/// How often a tag occurs.
#[derive(Debug, Clone, PartialEq, Eq)]
pub struct TagCount {
    pub tag: String,
    pub count: i64,
}

/// How tickets moved between two dates.
#[derive(Debug, Clone, PartialEq, Eq)]
pub struct TicketReport {
    pub from: String,
    pub to: String,
    pub opened: i64,
    pub closed: i64,
    /// The closed tickets by their tags, the most frequent first.
    pub closed_by_tag: Vec<TagCount>,
}

/// How a pipeline is.
#[derive(Debug, Clone)]
pub struct PipelineHealth {
    pub pipeline_id: i64,
    pub name: String,
    pub url: String,
    pub folder: Option<String>,
    pub team: String,
    pub last_status: Option<RunStatus>,
    pub last_failure_at: Option<String>,
    pub last_run_at: Option<String>,
    pub last_run_url: Option<String>,
    pub succeeded: i64,
    pub failed: i64,
    pub running: i64,
    pub flags: Vec<EntityFlag>,
}

/// What the dashboard shows.
#[derive(Debug, Clone)]
pub struct DashboardSummary {
    pub total_work_items: i64,
    pub flagged_items: i64,
    pub flags_by_code: Vec<TagCount>,
    pub pipelines: Vec<PipelineHealth>,
    pub open_prs: i64,
    pub draft_prs: i64,
    pub flagged_prs: i64,
    pub pr_flags_by_code: Vec<TagCount>,
    pub flagged_pipelines: i64,
    pub pipeline_flags_by_code: Vec<TagCount>,
    pub last_polled_at: Option<String>,
}

} // verus!
