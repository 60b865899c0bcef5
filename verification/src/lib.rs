//! Backlog hygiene and flow for a product owner: what trackers hold, what the rules say of it, and
//! what a language model may be asked about it.
use vstd::prelude::*;

pub mod ai;
pub mod banner;
pub mod catalog;
pub mod checks;
pub mod cli;
pub mod config;
pub mod config_bundle;
pub mod config_store;
pub mod doctor;
pub mod editable_field;
pub mod flag;
pub mod json;
pub mod number;
pub mod order;
pub mod paths;
pub mod pipeline;
pub mod providers;
pub mod pull_request;
pub mod report;
pub mod report_spec;
pub mod rules;
pub mod server;
pub mod telemetry;
pub mod text;
pub mod text_map;
pub mod time;
pub mod token;
pub mod work_item;

verus! {

} // verus!
