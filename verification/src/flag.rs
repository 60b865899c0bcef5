//! What the hygiene rules report: flags on work items, pipelines and pull requests, and
//! suggested tags.
use crate::text::{clone_all, clone_opt, opt_view, same, views};
use vstd::prelude::*;

pub mod laws;

verus! {

/// How serious a flag is.
#[derive(Debug, Clone, Copy, PartialEq, Eq, Structural)]
pub enum Severity {
    Warn,
    Error,
}

/// Which check raised a flag.
#[derive(Debug, Clone, Copy, PartialEq, Eq, Structural)]
pub enum FlagCode {
    Untagged,
    MissingRequiredTag,
    DisallowedTag,
    Stale,
    StaleStateTag,
    Underspecified,
    Duplicate,
    BadTitle,
    AiAudit,
}

/// One rule violation on one work item.
#[derive(Debug, Clone, PartialEq)]
pub struct Flag {
    pub work_item_id: i64,
    pub team: String,
    pub code: FlagCode,
    pub severity: Severity,
    pub message: String,
    /// The tag or tag pattern concerned, when the flag is about one.
    pub tag: Option<String>,
}

#[verifier::ext_equal]
pub struct FlagView {
    pub work_item_id: i64,
    pub team: Seq<char>,
    pub code: FlagCode,
    pub severity: Severity,
    pub message: Seq<char>,
    pub tag: Option<Seq<char>>,
}

impl View for Flag {
    type V = FlagView;

    open spec fn view(&self) -> FlagView {
        FlagView {
            work_item_id: self.work_item_id,
            team: self.team@,
            code: self.code,
            severity: self.severity,
            message: self.message@,
            tag: opt_view(self.tag),
        }
    }
}

/// A flag on a pipeline or a pull request.
#[derive(Debug, Clone, PartialEq, Eq)]
pub struct EntityFlag {
    pub code: String,
    pub severity: Severity,
    pub message: String,
}

#[verifier::ext_equal]
pub struct EntityFlagView {
    pub code: Seq<char>,
    pub severity: Severity,
    pub message: Seq<char>,
}

impl View for EntityFlag {
    type V = EntityFlagView;

    open spec fn view(&self) -> EntityFlagView {
        EntityFlagView { code: self.code@, severity: self.severity, message: self.message@ }
    }
}

/// A tag worth adding to a work item, and why.
#[derive(Debug, PartialEq, Eq)]
pub struct TagSuggestion {
    pub tag: String,
    pub reasons: Vec<String>,
    /// The tag that this one takes the place of, when the suggestion is a rewrite.
    pub replaces: Option<String>,
}

#[verifier::ext_equal]
pub struct TagSuggestionView {
    pub tag: Seq<char>,
    pub reasons: Seq<Seq<char>>,
    pub replaces: Option<Seq<char>>,
}

impl View for TagSuggestion {
    type V = TagSuggestionView;

    open spec fn view(&self) -> TagSuggestionView {
        TagSuggestionView {
            tag: self.tag@,
            reasons: views(self.reasons@),
            replaces: opt_view(self.replaces),
        }
    }
}

impl Clone for TagSuggestion {
    fn clone(&self) -> (r: Self)
        ensures
            r@ == self@,
    {
        TagSuggestion {
            tag: self.tag.clone(),
            reasons: clone_all(&self.reasons),
            replaces: clone_opt(&self.replaces),
        }
    }
}

/// The name of a severity in documents and on the wire.
pub open spec fn severity_name(x: Severity) -> Seq<char> {
    match x {
        Severity::Warn => "warn"@,
        Severity::Error => "error"@,
    }
}

/// What a name stands for.
pub open spec fn severity_named(s: Seq<char>) -> Option<Severity> {
    if s == "warn"@ {
        Some(Severity::Warn)
    } else if s == "error"@ {
        Some(Severity::Error)
    } else {
        None
    }
}

impl Severity {
    /// The name in documents and on the wire.
    pub fn as_str(self) -> (r: &'static str)
        ensures
            r@ == severity_name(self),
    {
        match self {
            Severity::Warn => "warn",
            Severity::Error => "error",
        }
    }

    /// What a name stands for.
    pub fn from_slug(s: &str) -> (r: Option<Self>)
        ensures
            r == severity_named(s@),
    {
        if same(s, "warn") {
            Some(Severity::Warn)
        } else if same(s, "error") {
            Some(Severity::Error)
        } else {
            None
        }
    }
}

/// Reading back the name of a severity gives it back.
pub proof fn law_severity_name_round_trip(x: Severity)
    ensures
        severity_named(severity_name(x)) == Some(x),
{
    reveal_strlit("warn");
    reveal_strlit("error");
    assert("warn"@.len() == 4);
    assert("error"@.len() == 5);
}

/// The name of a code in documents and on the wire.
pub open spec fn flag_code_name(x: FlagCode) -> Seq<char> {
    match x {
        FlagCode::Untagged => "untagged"@,
        FlagCode::MissingRequiredTag => "missing_required_tag"@,
        FlagCode::DisallowedTag => "disallowed_tag"@,
        FlagCode::Stale => "stale"@,
        FlagCode::StaleStateTag => "stale_state_tag"@,
        FlagCode::Underspecified => "underspecified"@,
        FlagCode::Duplicate => "duplicate"@,
        FlagCode::BadTitle => "bad_title"@,
        FlagCode::AiAudit => "ai_audit"@,
    }
}

/// What a name stands for.
pub open spec fn flag_code_named(s: Seq<char>) -> Option<FlagCode> {
    if s == "untagged"@ {
        Some(FlagCode::Untagged)
    } else if s == "missing_required_tag"@ {
        Some(FlagCode::MissingRequiredTag)
    } else if s == "disallowed_tag"@ {
        Some(FlagCode::DisallowedTag)
    } else if s == "stale"@ {
        Some(FlagCode::Stale)
    } else if s == "stale_state_tag"@ {
        Some(FlagCode::StaleStateTag)
    } else if s == "underspecified"@ {
        Some(FlagCode::Underspecified)
    } else if s == "duplicate"@ {
        Some(FlagCode::Duplicate)
    } else if s == "bad_title"@ {
        Some(FlagCode::BadTitle)
    } else if s == "ai_audit"@ {
        Some(FlagCode::AiAudit)
    } else {
        None
    }
}

impl FlagCode {
    /// The name in documents and on the wire.
    pub fn as_str(self) -> (r: &'static str)
        ensures
            r@ == flag_code_name(self),
    {
        match self {
            FlagCode::Untagged => "untagged",
            FlagCode::MissingRequiredTag => "missing_required_tag",
            FlagCode::DisallowedTag => "disallowed_tag",
            FlagCode::Stale => "stale",
            FlagCode::StaleStateTag => "stale_state_tag",
            FlagCode::Underspecified => "underspecified",
            FlagCode::Duplicate => "duplicate",
            FlagCode::BadTitle => "bad_title",
            FlagCode::AiAudit => "ai_audit",
        }
    }

    /// What a name stands for.
    pub fn from_slug(s: &str) -> (r: Option<Self>)
        ensures
            r == flag_code_named(s@),
    {
        if same(s, "untagged") {
            Some(FlagCode::Untagged)
        } else if same(s, "missing_required_tag") {
            Some(FlagCode::MissingRequiredTag)
        } else if same(s, "disallowed_tag") {
            Some(FlagCode::DisallowedTag)
        } else if same(s, "stale") {
            Some(FlagCode::Stale)
        } else if same(s, "stale_state_tag") {
            Some(FlagCode::StaleStateTag)
        } else if same(s, "underspecified") {
            Some(FlagCode::Underspecified)
        } else if same(s, "duplicate") {
            Some(FlagCode::Duplicate)
        } else if same(s, "bad_title") {
            Some(FlagCode::BadTitle)
        } else if same(s, "ai_audit") {
            Some(FlagCode::AiAudit)
        } else {
            None
        }
    }
}

/// Reading back the name of a code gives it back.
pub proof fn law_flag_code_name_round_trip(x: FlagCode)
    ensures
        flag_code_named(flag_code_name(x)) == Some(x),
{
    reveal_strlit("untagged");
    reveal_strlit("missing_required_tag");
    reveal_strlit("disallowed_tag");
    reveal_strlit("stale");
    reveal_strlit("stale_state_tag");
    reveal_strlit("underspecified");
    reveal_strlit("duplicate");
    reveal_strlit("bad_title");
    reveal_strlit("ai_audit");
    assert("untagged"@.len() == 8);
    assert("missing_required_tag"@.len() == 20);
    assert("disallowed_tag"@.len() == 14);
    assert("stale"@.len() == 5);
    assert("stale_state_tag"@.len() == 15);
    assert("underspecified"@.len() == 14);
    assert("duplicate"@.len() == 9);
    assert("bad_title"@.len() == 9);
    assert("ai_audit"@.len() == 8);
    assert("untagged"@[0] != "ai_audit"@[0]);
    assert("disallowed_tag"@[0] != "underspecified"@[0]);
    assert("duplicate"@[0] != "bad_title"@[0]);
}

} // verus!
