//! Where work items, pipelines and pull requests come from.
pub mod azure;
pub mod credential;
pub mod error;
pub mod fields;
pub mod gitlab;
pub mod markup;
pub mod queries;
pub mod richtext;
pub mod stub;
pub mod url;
