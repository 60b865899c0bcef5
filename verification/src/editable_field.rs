//! Fields of a work item that a person can edit.
use crate::text::{opt_view, same, views};
use vstd::prelude::*;

pub mod laws;

verus! {

/// How a field is edited.
#[derive(Debug, Clone, Copy, PartialEq, Eq, Structural)]
pub enum FieldKind {
    Markdown,
    PlainText,
    Text,
    Integer,
    Float,
    DateTime,
    Boolean,
    Select,
    Identity,
}

/// Whether a field of this kind holds prose that can be drafted.
pub open spec fn draftable(kind: FieldKind) -> bool {
    kind == FieldKind::Markdown || kind == FieldKind::PlainText || kind == FieldKind::Text
}

impl FieldKind {
    /// Whether a field of this kind holds prose that can be drafted.
    pub fn is_draftable(self) -> (r: bool)
        ensures
            r == draftable(self),
    {
        matches!(self, FieldKind::Markdown | FieldKind::PlainText | FieldKind::Text)
    }
}

/// One field as the editor shows it.
#[derive(Debug, Clone, PartialEq)]
pub struct EditableField {
    pub reference: String,
    pub label: String,
    pub kind: FieldKind,
    pub value: String,
    pub options: Vec<String>,
    pub read_only: bool,
    pub required: bool,
    pub help: Option<String>,
}

#[verifier::ext_equal]
pub struct EditableFieldView {
    pub reference: Seq<char>,
    pub label: Seq<char>,
    pub kind: FieldKind,
    pub value: Seq<char>,
    pub options: Seq<Seq<char>>,
    pub read_only: bool,
    pub required: bool,
    pub help: Option<Seq<char>>,
}

impl View for EditableField {
    type V = EditableFieldView;

    open spec fn view(&self) -> EditableFieldView {
        EditableFieldView {
            reference: self.reference@,
            label: self.label@,
            kind: self.kind,
            value: self.value@,
            options: views(self.options@),
            read_only: self.read_only,
            required: self.required,
            help: opt_view(self.help),
        }
    }
}

impl EditableField {
    /// Whether drafting help is offered for the field.
    pub fn allows_ai_assist(&self) -> (r: bool)
        ensures
            r == (!self.read_only && draftable(self.kind)),
    {
        !self.read_only && self.kind.is_draftable()
    }
}

/// A new value for one field.
#[derive(Debug, Clone, PartialEq)]
pub struct FieldChange {
    pub reference: String,
    pub value: String,
}

#[verifier::ext_equal]
pub struct FieldChangeView {
    pub reference: Seq<char>,
    pub value: Seq<char>,
}

impl View for FieldChange {
    type V = FieldChangeView;

    open spec fn view(&self) -> FieldChangeView {
        FieldChangeView { reference: self.reference@, value: self.value@ }
    }
}

/// The name of a kind in documents and on the wire.
pub open spec fn field_kind_name(x: FieldKind) -> Seq<char> {
    match x {
        FieldKind::Markdown => "markdown"@,
        FieldKind::PlainText => "plain_text"@,
        FieldKind::Text => "text"@,
        FieldKind::Integer => "integer"@,
        FieldKind::Float => "float"@,
        FieldKind::DateTime => "date_time"@,
        FieldKind::Boolean => "boolean"@,
        FieldKind::Select => "select"@,
        FieldKind::Identity => "identity"@,
    }
}

/// What a name stands for.
pub open spec fn field_kind_named(s: Seq<char>) -> Option<FieldKind> {
    if s == "markdown"@ {
        Some(FieldKind::Markdown)
    } else if s == "plain_text"@ {
        Some(FieldKind::PlainText)
    } else if s == "text"@ {
        Some(FieldKind::Text)
    } else if s == "integer"@ {
        Some(FieldKind::Integer)
    } else if s == "float"@ {
        Some(FieldKind::Float)
    } else if s == "date_time"@ {
        Some(FieldKind::DateTime)
    } else if s == "boolean"@ {
        Some(FieldKind::Boolean)
    } else if s == "select"@ {
        Some(FieldKind::Select)
    } else if s == "identity"@ {
        Some(FieldKind::Identity)
    } else {
        None
    }
}

impl FieldKind {
    /// The name in documents and on the wire.
    pub fn as_str(self) -> (r: &'static str)
        ensures
            r@ == field_kind_name(self),
    {
        match self {
            FieldKind::Markdown => "markdown",
            FieldKind::PlainText => "plain_text",
            FieldKind::Text => "text",
            FieldKind::Integer => "integer",
            FieldKind::Float => "float",
            FieldKind::DateTime => "date_time",
            FieldKind::Boolean => "boolean",
            FieldKind::Select => "select",
            FieldKind::Identity => "identity",
        }
    }

    /// What a name stands for.
    pub fn from_slug(s: &str) -> (r: Option<Self>)
        ensures
            r == field_kind_named(s@),
    {
        if same(s, "markdown") {
            Some(FieldKind::Markdown)
        } else if same(s, "plain_text") {
            Some(FieldKind::PlainText)
        } else if same(s, "text") {
            Some(FieldKind::Text)
        } else if same(s, "integer") {
            Some(FieldKind::Integer)
        } else if same(s, "float") {
            Some(FieldKind::Float)
        } else if same(s, "date_time") {
            Some(FieldKind::DateTime)
        } else if same(s, "boolean") {
            Some(FieldKind::Boolean)
        } else if same(s, "select") {
            Some(FieldKind::Select)
        } else if same(s, "identity") {
            Some(FieldKind::Identity)
        } else {
            None
        }
    }
}

/// Reading back the name of a kind gives it back.
pub proof fn law_field_kind_name_round_trip(x: FieldKind)
    ensures
        field_kind_named(field_kind_name(x)) == Some(x),
{
    reveal_strlit("markdown");
    reveal_strlit("plain_text");
    reveal_strlit("text");
    reveal_strlit("integer");
    reveal_strlit("float");
    reveal_strlit("date_time");
    reveal_strlit("boolean");
    reveal_strlit("select");
    reveal_strlit("identity");
    assert("markdown"@.len() == 8);
    assert("plain_text"@.len() == 10);
    assert("text"@.len() == 4);
    assert("integer"@.len() == 7);
    assert("float"@.len() == 5);
    assert("date_time"@.len() == 9);
    assert("boolean"@.len() == 7);
    assert("select"@.len() == 6);
    assert("identity"@.len() == 8);
    assert("markdown"@[0] != "identity"@[0]);
    assert("integer"@[0] != "boolean"@[0]);
}

} // verus!
