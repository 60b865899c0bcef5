//! Pipelines and their runs.
use crate::text::opt_view;
use crate::time::Timestamp;
use vstd::prelude::*;

verus! {

/// How a pipeline run stands or ended.
#[derive(Debug, Clone, Copy, PartialEq, Eq, Structural)]
pub enum RunStatus {
    Succeeded,
    Failed,
    Running,
    Canceled,
    Unknown,
}

impl RunStatus {
    /// Whether the run will change no more.
    pub fn is_terminal(&self) -> (r: bool)
        ensures
            r == (*self != RunStatus::Running),
    {
        !matches!(self, RunStatus::Running)
    }
}

/// A pipeline, with what is known of its latest run.
#[derive(Debug, Clone, PartialEq)]
pub struct Pipeline {
    pub id: i64,
    pub provider: String,
    pub team: String,
    pub name: String,
    pub folder: Option<String>,
    pub url: String,
    pub last_run_status: Option<RunStatus>,
    pub last_run_at: Option<Timestamp>,
    pub last_run_url: Option<String>,
}

#[verifier::ext_equal]
pub struct PipelineView {
    pub id: i64,
    pub provider: Seq<char>,
    pub team: Seq<char>,
    pub name: Seq<char>,
    pub folder: Option<Seq<char>>,
    pub url: Seq<char>,
    pub last_run_status: Option<RunStatus>,
    pub last_run_at: Option<Timestamp>,
    pub last_run_url: Option<Seq<char>>,
}

impl View for Pipeline {
    type V = PipelineView;

    open spec fn view(&self) -> PipelineView {
        PipelineView {
            id: self.id,
            provider: self.provider@,
            team: self.team@,
            name: self.name@,
            folder: opt_view(self.folder),
            url: self.url@,
            last_run_status: self.last_run_status,
            last_run_at: self.last_run_at,
            last_run_url: opt_view(self.last_run_url),
        }
    }
}

/// One run of a pipeline.
#[derive(Debug, Clone, PartialEq)]
pub struct PipelineRun {
    pub id: i64,
    pub pipeline_id: i64,
    pub provider: String,
    pub team: String,
    pub status: RunStatus,
    pub started_at: Option<Timestamp>,
    pub finished_at: Option<Timestamp>,
    pub source_branch: Option<String>,
    pub url: String,
}

#[verifier::ext_equal]
pub struct PipelineRunView {
    pub id: i64,
    pub pipeline_id: i64,
    pub provider: Seq<char>,
    pub team: Seq<char>,
    pub status: RunStatus,
    pub started_at: Option<Timestamp>,
    pub finished_at: Option<Timestamp>,
    pub source_branch: Option<Seq<char>>,
    pub url: Seq<char>,
}

impl View for PipelineRun {
    type V = PipelineRunView;

    open spec fn view(&self) -> PipelineRunView {
        PipelineRunView {
            id: self.id,
            pipeline_id: self.pipeline_id,
            provider: self.provider@,
            team: self.team@,
            status: self.status,
            started_at: self.started_at,
            finished_at: self.finished_at,
            source_branch: opt_view(self.source_branch),
            url: self.url@,
        }
    }
}

} // verus!
