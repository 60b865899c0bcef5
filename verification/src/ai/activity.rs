//! What is kept of the work of language models.
use vstd::prelude::*;

verus! {

/// A drafted field that awaits review.
#[derive(Debug, Clone, PartialEq, Eq)]
pub struct AiFieldDraft {
    pub reference: String,
    pub value: String,
}

/// One job of a model.
#[derive(Debug, Clone, PartialEq, Eq)]
pub struct AiActivityRecord {
    pub id: String,
    pub team: String,
    pub name: String,
    /// Where it ran: `gpu` in the browser, or `server`.
    pub where_at: String,
    /// `running`, `done`, `failed` or `cancelled`.
    pub status: String,
    pub done: i64,
    pub total: i64,
    pub outcome: String,
    /// The results, as JSON text.
    pub items: String,
    pub started_at: String,
    pub updated_at: String,
}

} // verus!
