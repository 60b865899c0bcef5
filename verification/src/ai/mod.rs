//! Tag suggestions, drafts and audits by a language model: what it is asked, what its answers
//! mean, and which model is asked.
pub mod instructions;
pub mod prompts;
pub mod replies;
pub mod presets;
pub mod registry;
pub mod chat;
pub mod activity;
