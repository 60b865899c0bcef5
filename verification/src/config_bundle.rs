//! An owner's configuration as one document.
use crate::config::UserConfig;
use crate::report_spec::ReportSpec;
use vstd::prelude::*;

verus! {

/// The version of the document's form.
pub const CONFIG_BUNDLE_SCHEMA: u32 = 1;

/// Where a document comes from.
#[derive(Debug, Clone, PartialEq, Eq)]
pub struct BundleMeta {
    pub schema: u32,
    pub app_version: String,
    pub exported_at: String,
    /// The owner whom a trusted import is for.
    pub owner: Option<String>,
}

/// An owner's configuration as one document.
#[derive(Debug, Clone)]
pub struct ConfigBundle {
    pub poseidon: BundleMeta,
    pub config: UserConfig,
    pub reports: Vec<ReportSpec>,
}

impl BundleMeta {
    /// Whether this version reads the document's form: it does not read a later one.
    pub fn is_supported(&self) -> (r: bool)
        ensures
            r == (self.schema <= CONFIG_BUNDLE_SCHEMA),
    {
        self.schema <= CONFIG_BUNDLE_SCHEMA
    }
}

} // verus!
