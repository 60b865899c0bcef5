//! What the names of flags promise.
use super::{
    flag_code_name, flag_code_named, severity_name, severity_named, FlagCode, Severity,
};
use vstd::prelude::*;

verus! {

/// A name stands for a severity or a code only when it is its own.
pub proof fn law_no_other_names(s: Seq<char>)
    ensures
        severity_named(s) matches Some(x) ==> severity_name(x) == s,
        flag_code_named(s) matches Some(x) ==> flag_code_name(x) == s,
{
}

/// The severities and the codes that the rules raise have the names by which others know them.
pub proof fn law_names_on_the_wire()
    ensures
        severity_name(Severity::Warn) == "warn"@,
        severity_name(Severity::Error) == "error"@,
        flag_code_name(FlagCode::Untagged) == "untagged"@,
        flag_code_name(FlagCode::MissingRequiredTag) == "missing_required_tag"@,
        flag_code_name(FlagCode::DisallowedTag) == "disallowed_tag"@,
        flag_code_name(FlagCode::Stale) == "stale"@,
        flag_code_name(FlagCode::StaleStateTag) == "stale_state_tag"@,
        flag_code_name(FlagCode::Underspecified) == "underspecified"@,
        flag_code_name(FlagCode::Duplicate) == "duplicate"@,
        flag_code_name(FlagCode::BadTitle) == "bad_title"@,
        flag_code_name(FlagCode::AiAudit) == "ai_audit"@,
{
}

} // verus!
