//! What a report asks for.
use vstd::prelude::*;

verus! {

/// What a series of a report counts.
#[derive(Debug, Clone, Copy, PartialEq, Eq, Structural)]
pub enum DataSource {
    WorkItems,
    PullRequests,
    Pipelines,
    PipelineRuns,
}

/// How a series is divided.
#[derive(Debug, Clone, Copy, PartialEq, Eq, Structural)]
pub enum GroupBy {
    Tag,
    State,
    Status,
    Team,
    WorkItemType,
    Day,
    Week,
}

/// What a series measures.
#[derive(Debug, Clone, PartialEq, Eq)]
pub enum Metric {
    /// The number of matching rows.
    Count,
    /// The number of rows that match the numerator for each that matches the denominator.
    Ratio { numerator: Vec<Condition>, denominator: Vec<Condition> },
}

impl Default for Metric {
    fn default() -> (r: Self)
        ensures
            r == Metric::Count,
    {
        Metric::Count
    }
}

/// How a condition compares.
#[derive(Debug, Clone, Copy, PartialEq, Eq, Structural)]
pub enum Op {
    Eq,
    Ne,
    /// One of the values of a list with commas.
    In,
    Contains,
}

/// A condition on a field.
#[derive(Debug, Clone, PartialEq, Eq)]
pub struct Condition {
    pub field: String,
    pub op: Op,
    pub value: String,
}

/// One measured stream of a report.
#[derive(Debug, Clone, PartialEq, Eq)]
pub struct Series {
    pub label: Option<String>,
    pub source: DataSource,
    pub metric: Metric,
    pub group_by: Option<GroupBy>,
    pub filters: Vec<Condition>,
    /// The time that the report's range is about, where it is not the source's own.
    pub time_field: Option<String>,
}

/// How a report is drawn.
#[derive(Debug, Clone, Copy, PartialEq, Eq, Structural)]
pub enum RenderKind {
    Stat,
    Bar,
    Pie,
    Line,
    Table,
    Plaintext,
}

/// The time that a report covers.
#[derive(Debug, Clone, PartialEq, Eq)]
pub enum TimeRange {
    AllTime,
    LastDays { days: i64 },
    Between { from: String, to: String },
}

impl Default for TimeRange {
    fn default() -> (r: Self)
        ensures
            r == TimeRange::AllTime,
    {
        TimeRange::AllTime
    }
}

/// A report.
#[derive(Debug, Clone, PartialEq, Eq)]
pub struct ReportSpec {
    pub name: String,
    pub description: Option<String>,
    pub builtin: bool,
    /// The team; all teams where there is none.
    pub team: Option<String>,
    pub time_range: TimeRange,
    pub series: Vec<Series>,
    pub render: RenderKind,
}

} // verus!
