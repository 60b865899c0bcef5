//! The fields of an Azure DevOps work item that a person can edit.
use super::markup::is_tame;
use super::richtext::{html_to_md, markdown_of};
use crate::editable_field::{draftable, EditableField, EditableFieldView, FieldKind};
use crate::json::{
    json_of, lookup, member_of, parse_json, text_member, Json, JsonView, Member, MemberView,
};
use crate::order::{before, comes_before};
use crate::text::{
    clone_all, clone_opt, chars_of, contains, eq_ignoring_case, find_next, group_text, has_prefix,
    is_blank, lemma_take_step, list_contains, lower, lowercase, next_at, occurs, opt_view, same,
    same_ignoring_case, starts_with, string_of, to_lower, to_lowercase, trim, trimmed, views,
};
use vstd::prelude::*;

pub mod laws;

verus! {

broadcast use group_text;

/// A field of a work item type, with what the type says of it.
#[derive(Debug, Clone)]
pub struct AdoTypeField {
    pub reference_name: String,
    pub name: String,
    pub always_required: bool,
    pub help_text: Option<String>,
    pub allowed_values: Vec<Json>,
}

/// A field of the organisation's catalogue.
#[derive(Debug, Clone)]
pub struct AdoFieldDef {
    pub reference_name: String,
    pub name: String,
    pub field_type: String,
    pub read_only: bool,
    pub is_identity: bool,
}

// ---------------------------------------------------------------------------------------------
// Kinds and values
// ---------------------------------------------------------------------------------------------

/// How a field of a data type is edited; nothing for types that are not.
pub open spec fn kind_of(ftype: Seq<char>, has_options: bool) -> Option<FieldKind> {
    if ftype == "html"@ {
        Some(FieldKind::Markdown)
    } else if ftype == "plainText"@ {
        Some(FieldKind::PlainText)
    } else if ftype == "string"@ || ftype == "picklistString"@ {
        Some(
            if has_options {
                FieldKind::Select
            } else {
                FieldKind::Text
            },
        )
    } else if ftype == "integer"@ || ftype == "picklistInteger"@ {
        Some(
            if has_options {
                FieldKind::Select
            } else {
                FieldKind::Integer
            },
        )
    } else if ftype == "double"@ || ftype == "picklistDouble"@ {
        Some(FieldKind::Float)
    } else if ftype == "dateTime"@ {
        Some(FieldKind::DateTime)
    } else if ftype == "boolean"@ {
        Some(FieldKind::Boolean)
    } else if ftype == "identity"@ {
        Some(FieldKind::Identity)
    } else if ftype == "treePath"@ {
        Some(FieldKind::Text)
    } else {
        None
    }
}

/// How a field of a data type is edited; `None` for types that are not.
pub fn map_field_kind(ftype: &str, has_options: bool) -> (r: Option<FieldKind>)
    ensures
        r == kind_of(ftype@, has_options),
{
    if same(ftype, "html") {
        Some(FieldKind::Markdown)
    } else if same(ftype, "plainText") {
        Some(FieldKind::PlainText)
    } else if same(ftype, "string") || same(ftype, "picklistString") {
        Some(
            if has_options {
                FieldKind::Select
            } else {
                FieldKind::Text
            },
        )
    } else if same(ftype, "integer") || same(ftype, "picklistInteger") {
        Some(
            if has_options {
                FieldKind::Select
            } else {
                FieldKind::Integer
            },
        )
    } else if same(ftype, "double") || same(ftype, "picklistDouble") {
        Some(FieldKind::Float)
    } else if same(ftype, "dateTime") {
        Some(FieldKind::DateTime)
    } else if same(ftype, "boolean") {
        Some(FieldKind::Boolean)
    } else if same(ftype, "identity") {
        Some(FieldKind::Identity)
    } else if same(ftype, "treePath") {
        Some(FieldKind::Text)
    } else {
        None
    }
}

/// A JSON string's text; empty for any other value.
pub open spec fn text_or_none(v: JsonView) -> Seq<char> {
    match v {
        JsonView::Text(t) => t,
        _ => Seq::empty(),
    }
}

/// What the editor shows of a field's value that is not rich text.
pub open spec fn plain_value(v: JsonView, kind: FieldKind) -> Seq<char> {
    match kind {
        FieldKind::Identity => match text_member(v, "displayName"@) {
            Some(name) => name,
            None => text_or_none(v),
        },
        FieldKind::Boolean => if v == JsonView::Bool(true) {
            "true"@
        } else {
            "false"@
        },
        _ => match v {
            JsonView::Text(t) => t,
            JsonView::Number(n) => n,
            JsonView::Bool(b) => if b {
                "true"@
            } else {
                "false"@
            },
            _ => Seq::empty(),
        },
    }
}

/// The HTML of a field, when it is rich text that the caller has to convert.
pub open spec fn unconverted(raw: Option<JsonView>, kind: FieldKind) -> Option<Seq<char>> {
    match raw {
        Some(v) => if kind == FieldKind::Markdown && !is_tame(text_or_none(v)) {
            Some(text_or_none(v))
        } else {
            None
        },
        None => None,
    }
}

/// What the editor shows of a field's value: rich text as Markdown, a person by display name, and
/// anything else as text. Empty where there is no value.
pub open spec fn shown_value(raw: Option<JsonView>, kind: FieldKind) -> Seq<char> {
    match raw {
        Some(v) => if kind == FieldKind::Markdown {
            markdown_of(text_or_none(v))
        } else {
            plain_value(v, kind)
        },
        None => Seq::empty(),
    }
}

/// What the editor shows of a field's value; `None` for rich text whose markup is not tame: its
/// conversion is left to the caller.
pub fn field_value_to_string(raw: Option<&Json>, kind: FieldKind) -> (r: Option<String>)
    ensures
        ({
            let value = match raw {
                Some(v) => Some(v@),
                None => None,
            };
            match r {
                Some(t) => unconverted(value, kind) is None && t@ == shown_value(value, kind),
                None => unconverted(value, kind) is Some,
            }
        }),
{
    let v: &Json = match raw {
        Some(v) => v,
        None => {
            return Some(String::new());
        },
    };
    match kind {
        FieldKind::Markdown => match v {
            Json::Text(t) => html_to_md(t.as_str()),
            _ => {
                let empty: String = String::new();
                html_to_md(empty.as_str())
            },
        },
        FieldKind::Identity => match v.text_of("displayName") {
            Some(name) => Some(name),
            None => match v {
                Json::Text(t) => Some(t.clone()),
                _ => Some(String::new()),
            },
        },
        FieldKind::Boolean => {
            let on: bool = match v {
                Json::Bool(b) => *b,
                _ => false,
            };
            if on {
                Some("true".to_owned())
            } else {
                Some("false".to_owned())
            }
        },
        _ => match v {
            Json::Text(t) => Some(t.clone()),
            Json::Number(n) => Some(n.clone()),
            Json::Bool(b) => if *b {
                Some("true".to_owned())
            } else {
                Some("false".to_owned())
            },
            _ => Some(String::new()),
        },
    }
}

/// A string or a number as text.
pub open spec fn scalar_text(v: JsonView) -> Option<Seq<char>> {
    match v {
        JsonView::Text(t) => Some(t),
        JsonView::Number(n) => Some(n),
        _ => None,
    }
}

/// A string or a number as text; `None` for any other value.
pub fn json_scalar_string(v: &Json) -> (r: Option<String>)
    ensures
        opt_view(r) == scalar_text(v@),
{
    match v {
        Json::Text(t) => Some(t.clone()),
        Json::Number(n) => Some(n.clone()),
        _ => None,
    }
}

/// The strings and numbers of a list as texts, in order.
pub open spec fn scalar_texts(list: Seq<JsonView>) -> Seq<Seq<char>>
    decreases list.len(),
{
    if list.len() == 0 {
        Seq::empty()
    } else {
        match scalar_text(list.last()) {
            Some(t) => scalar_texts(list.drop_last()).push(t),
            None => scalar_texts(list.drop_last()),
        }
    }
}

fn option_texts(list: &Vec<Json>) -> (r: Vec<String>)
    ensures
        views(r@) == scalar_texts(views(list@)),
{
    let ghost all = views(list@);
    let mut out: Vec<String> = Vec::new();
    let mut i: usize = 0;
    while i < list.len()
        invariant
            i <= list@.len(),
            all == views(list@),
            views(out@) == scalar_texts(all.take(i as int)),
        decreases list@.len() - i,
    {
        proof {
            lemma_take_step(all, i as int);
        }
        match json_scalar_string(&list[i]) {
            Some(t) => {
                out.push(t);
            },
            None => {},
        }
        i += 1;
    }
    out
}

/// The references of the fields of a catalogue that hold HTML, in order.
pub open spec fn html_references(defs: Seq<AdoFieldDef>) -> Seq<Seq<char>>
    decreases defs.len(),
{
    if defs.len() == 0 {
        Seq::empty()
    } else if same_ignoring_case(defs.last().field_type@, "html"@) {
        html_references(defs.drop_last()).push(defs.last().reference_name@)
    } else {
        html_references(defs.drop_last())
    }
}

/// The references of the fields of a catalogue that hold HTML.
pub fn html_fields(defs: &Vec<AdoFieldDef>) -> (r: Vec<String>)
    ensures
        views(r@) == html_references(defs@),
{
    let mut out: Vec<String> = Vec::new();
    let mut i: usize = 0;
    while i < defs.len()
        invariant
            i <= defs@.len(),
            views(out@) == html_references(defs@.take(i as int)),
        decreases defs@.len() - i,
    {
        proof {
            lemma_take_step(defs@, i as int);
        }
        if eq_ignoring_case(defs[i].field_type.as_str(), "html") {
            out.push(defs[i].reference_name.clone());
        }
        i += 1;
    }
    out
}

// ---------------------------------------------------------------------------------------------
// Fields that are noise in an editor
// ---------------------------------------------------------------------------------------------

/// Fields that hold bookkeeping, or that another control edits.
pub open spec fn noise_references() -> Seq<Seq<char>> {
    seq![
        "System.Id"@,
        "System.Rev"@,
        "System.Watermark"@,
        "System.AreaId"@,
        "System.NodeName"@,
        "System.IterationId"@,
        "System.CommentCount"@,
        "System.AuthorizedDate"@,
        "System.AuthorizedAs"@,
        "System.PersonId"@,
        "System.RelatedLinkCount"@,
        "System.ExternalLinkCount"@,
        "System.HyperLinkCount"@,
        "System.AttachedFileCount"@,
        "System.RemoteLinkCount"@,
        "System.IsDeleted"@,
        "System.TeamProject"@,
        "System.State"@,
        "System.Tags"@,
        "System.CreatedBy"@,
        "System.CreatedDate"@,
        "System.ChangedBy"@,
        "System.ChangedDate"@,
        "Microsoft.VSTS.Common.ActivatedBy"@,
        "Microsoft.VSTS.Common.ActivatedDate"@,
        "Microsoft.VSTS.Common.ClosedBy"@,
        "Microsoft.VSTS.Common.ClosedDate"@,
        "Microsoft.VSTS.Common.ResolvedBy"@,
        "Microsoft.VSTS.Common.ResolvedDate"@,
        "Microsoft.VSTS.Common.StateChangeDate"@,
        "Microsoft.VSTS.Common.StackRank"@,
    ]
}

fn noise_list() -> (r: Vec<&'static str>)
    ensures
        views(r@) =~= noise_references(),
{
    vec![
        "System.Id",
        "System.Rev",
        "System.Watermark",
        "System.AreaId",
        "System.NodeName",
        "System.IterationId",
        "System.CommentCount",
        "System.AuthorizedDate",
        "System.AuthorizedAs",
        "System.PersonId",
        "System.RelatedLinkCount",
        "System.ExternalLinkCount",
        "System.HyperLinkCount",
        "System.AttachedFileCount",
        "System.RemoteLinkCount",
        "System.IsDeleted",
        "System.TeamProject",
        "System.State",
        "System.Tags",
        "System.CreatedBy",
        "System.CreatedDate",
        "System.ChangedBy",
        "System.ChangedDate",
        "Microsoft.VSTS.Common.ActivatedBy",
        "Microsoft.VSTS.Common.ActivatedDate",
        "Microsoft.VSTS.Common.ClosedBy",
        "Microsoft.VSTS.Common.ClosedDate",
        "Microsoft.VSTS.Common.ResolvedBy",
        "Microsoft.VSTS.Common.ResolvedDate",
        "Microsoft.VSTS.Common.StateChangeDate",
        "Microsoft.VSTS.Common.StackRank",
    ]
}

/// Whether a field is noise in an editor.
pub open spec fn noise(reference: Seq<char>) -> bool {
    ||| has_prefix(reference, "WEF_"@)
    ||| occurs(reference, "Kanban"@)
    ||| occurs(reference, "Board"@)
    ||| noise_references().contains(reference)
    ||| has_prefix(reference, "System.AreaLevel"@)
    ||| has_prefix(reference, "System.IterationLevel"@)
}

/// Whether a field is noise in an editor.
pub fn is_noise_field(reference: &str) -> (r: bool)
    ensures
        r == noise(reference@),
{
    if starts_with(reference, "WEF_") || contains(reference, "Kanban") || contains(
        reference,
        "Board",
    ) {
        return true;
    }
    let list: Vec<&'static str> = noise_list();
    let mut i: usize = 0;
    while i < list.len()
        invariant
            i <= list@.len(),
            views(list@) == noise_references(),
            forall|j: int| 0 <= j < i ==> noise_references()[j] != reference@,
        decreases list@.len() - i,
    {
        assert(noise_references()[i as int] == list@[i as int]@);
        if same(list[i], reference) {
            return true;
        }
        i += 1;
    }
    starts_with(reference, "System.AreaLevel") || starts_with(reference, "System.IterationLevel")
}

// ---------------------------------------------------------------------------------------------
// The fields that a form shows
// ---------------------------------------------------------------------------------------------

/// White space in markup.
pub open spec fn is_ascii_space(c: char) -> bool {
    c == ' ' || c == '\t' || c == '\n' || c == '\r' || c == '\x0c'
}

/// The first position at or after `i` that holds no white space, or the end.
pub open spec fn skip_space(s: Seq<char>, i: int) -> int
    decreases s.len() - i,
{
    if 0 <= i < s.len() && is_ascii_space(s[i]) {
        skip_space(s, i + 1)
    } else {
        i
    }
}

/// Where the quoted value of an attribute lies: the attribute's name ends before `after`, and an
/// equals sign and a quote follow. The first position is that of the value's first character, the
/// second that of the closing quote.
pub open spec fn quoted_value(s: Seq<char>, after: int) -> Option<(int, int)> {
    let eq = skip_space(s, after);
    if eq < s.len() && s[eq] == '=' {
        let q = skip_space(s, eq + 1);
        if q < s.len() && (s[q] == '"' || s[q] == '\'') {
            match next_at(s, seq![s[q]], q + 1) {
                Some(end) => Some((q + 1, end)),
                None => None,
            }
        } else {
            None
        }
    } else {
        None
    }
}

/// The name of the attribute that names a field, in lower case.
pub const FIELD_ATTRIBUTE: &'static str = "fieldname";

/// The values of the field attributes at or after `from`, in lower case and in order.
pub open spec fn form_names(s: Seq<char>, from: int) -> Seq<Seq<char>>
    decreases s.len() - from,
{
    match next_at(lower(s), FIELD_ATTRIBUTE@, from) {
        Some(i) => {
            let after = i + FIELD_ATTRIBUTE@.len();
            if 0 <= from <= i && FIELD_ATTRIBUTE@.len() > 0 && after <= s.len() {
                match quoted_value(s, after) {
                    Some((start, end)) => if after < start <= end < s.len() {
                        let value = trimmed(s.subrange(start, end));
                        let rest = form_names(s, end + 1);
                        if value.len() > 0 {
                            seq![lower(value)] + rest
                        } else {
                            rest
                        }
                    } else {
                        Seq::empty()
                    },
                    None => form_names(s, after),
                }
            } else {
                Seq::empty()
            }
        },
        None => Seq::empty(),
    }
}

fn skip_whitespace(cs: &Vec<char>, from: usize) -> (r: usize)
    requires
        from <= cs@.len(),
    ensures
        r == skip_space(cs@, from as int),
        from <= r <= cs@.len(),
{
    let mut i: usize = from;
    while i < cs.len()
        invariant
            from <= i <= cs@.len(),
            skip_space(cs@, from as int) == skip_space(cs@, i as int),
        decreases cs@.len() - i,
    {
        let c: char = cs[i];
        if !(c == ' ' || c == '\t' || c == '\n' || c == '\r' || c == '\x0c') {
            return i;
        }
        i += 1;
    }
    i
}

fn find_quoted(cs: &Vec<char>, after: usize) -> (r: Option<(usize, usize)>)
    requires
        after <= cs@.len(),
    ensures
        match r {
            Some((start, end)) => quoted_value(cs@, after as int) == Some((start as int, end as int))
                && after < start <= end < cs@.len(),
            None => quoted_value(cs@, after as int) is None,
        },
{
    let eq: usize = skip_whitespace(cs, after);
    if eq < cs.len() && cs[eq] == '=' {
        let q: usize = skip_whitespace(cs, eq + 1);
        if q < cs.len() && (cs[q] == '"' || cs[q] == '\'') {
            let quote: Vec<char> = vec![cs[q]];
            assert(quote@ =~= seq![cs@[q as int]]);
            match find_next(cs, &quote, q + 1) {
                Some(end) => Some((q + 1, end)),
                None => None,
            }
        } else {
            None
        }
    } else {
        None
    }
}

/// The fields that a form shows, in lower case, each once: the values of its field attributes. A
/// form without any gives none, which stands for "unknown".
pub fn form_field_refs(xml_form: &str) -> (r: Vec<String>)
    ensures
        views(r@).to_set() == form_names(xml_form@, 0).to_set(),
        views(r@).no_duplicates(),
{
    let cs: Vec<char> = chars_of(xml_form);
    let low: String = to_lower(xml_form);
    let lc: Vec<char> = chars_of(low.as_str());
    let needle: Vec<char> = chars_of(FIELD_ATTRIBUTE);
    let total: usize = cs.len();
    let mut out: Vec<String> = Vec::new();
    let mut from: usize = 0;
    let ghost mut seen: Seq<Seq<char>> = Seq::empty();
    proof {
        reveal_strlit("fieldname");
        assert(seen + form_names(xml_form@, 0) =~= form_names(xml_form@, 0));
        assert(views(out@).to_set() =~= seen.to_set());
    }
    loop
        invariant
            cs@ == xml_form@,
            lc@ == lower(xml_form@),
            needle@ == FIELD_ATTRIBUTE@,
            needle@.len() == 9,
            total == xml_form@.len(),
            from <= xml_form@.len(),
            form_names(xml_form@, 0) == seen + form_names(xml_form@, from as int),
            views(out@).to_set() == seen.to_set(),
            views(out@).no_duplicates(),
        decreases xml_form@.len() - from,
    {
        match find_next(&lc, &needle, from) {
            Some(i) => {
                let after: usize = i + needle.len();
                match find_quoted(&cs, after) {
                    Some((start, end)) => {
                        let value: String = trim(string_of(&cs, start, end).as_str());
                        if !value.as_str().is_empty() {
                            let name: String = to_lower(value.as_str());
                            let ghost text = name@;
                            proof {
                                let rest = form_names(xml_form@, end + 1);
                                assert(seen + (seq![text] + rest) =~= seen.push(text) + rest);
                                lemma_push_to_set(seen, text);
                                lemma_push_to_set(views(out@), text);
                                seen = seen.push(text);
                            }
                            if !list_contains(&out, name.as_str()) {
                                out.push(name);
                            } else {
                                proof {
                                    assert(views(out@).to_set().insert(text) =~= views(
                                        out@,
                                    ).to_set());
                                }
                            }
                        }
                        from = end + 1;
                    },
                    None => {
                        from = after;
                    },
                }
            },
            None => {
                assert(seen + Seq::<Seq<char>>::empty() =~= seen);
                return out;
            },
        }
    }
}

proof fn lemma_push_to_set<T>(s: Seq<T>, x: T)
    ensures
        s.push(x).to_set() == s.to_set().insert(x),
{
    assert forall|t: T| s.push(x).to_set().contains(t) == s.to_set().insert(x).contains(t) by {
        if s.contains(t) {
            let i = choose|i: int| 0 <= i < s.len() && s[i] == t;
            assert(s.push(x)[i] == t);
        }
        if t == x {
            assert(s.push(x)[s.len() as int] == t);
        }
        if s.push(x).contains(t) {
            let i = choose|i: int| 0 <= i < s.push(x).len() && s.push(x)[i] == t;
            if i < s.len() {
                assert(s[i] == t);
            }
        }
    }
    assert(s.push(x).to_set() =~= s.to_set().insert(x));
}

// ---------------------------------------------------------------------------------------------
// Planning the editor
// ---------------------------------------------------------------------------------------------

/// A field of the editor. Where `html` is given, the field's value is still to be set to the
/// Markdown of it.
#[derive(Debug, Clone)]
pub struct PlannedField {
    pub field: EditableField,
    pub html: Option<String>,
}

#[verifier::ext_equal]
pub struct PlannedFieldView {
    pub field: EditableFieldView,
    pub html: Option<Seq<char>>,
}

impl View for PlannedField {
    type V = PlannedFieldView;

    open spec fn view(&self) -> PlannedFieldView {
        PlannedFieldView { field: self.field@, html: opt_view(self.html) }
    }
}

/// The members of the `fields` object of an item.
pub open spec fn values_of(item: JsonView) -> Seq<MemberView> {
    match member_of(item, "fields"@) {
        Some(raw) => match json_of(raw) {
            Some(JsonView::Object(members)) => members,
            _ => Seq::empty(),
        },
        None => Seq::empty(),
    }
}

/// The value of a field of an item.
pub open spec fn value_of(values: Seq<MemberView>, reference: Seq<char>) -> Option<JsonView> {
    match lookup(values, reference) {
        Some(raw) => json_of(raw),
        None => None,
    }
}

/// The catalogue's entry for a field: the last, where there are several.
pub open spec fn def_of(defs: Seq<AdoFieldDef>, reference: Seq<char>) -> Option<AdoFieldDef>
    decreases defs.len(),
{
    if defs.len() == 0 {
        None
    } else if defs.last().reference_name@ == reference {
        Some(defs.last())
    } else {
        def_of(defs.drop_last(), reference)
    }
}

/// How a field is edited, from its catalogue entry and its options.
pub open spec fn planned_kind(def: Option<AdoFieldDef>, has_options: bool) -> Option<FieldKind> {
    match def {
        Some(d) => if d.is_identity {
            Some(FieldKind::Identity)
        } else {
            kind_of(d.field_type@, has_options)
        },
        None => kind_of(""@, has_options),
    }
}

/// What a field is called: the type's name for it, else the catalogue's, else its reference.
pub open spec fn planned_label(tf: AdoTypeField, def: Option<AdoFieldDef>) -> Seq<char> {
    if trimmed(tf.name@).len() > 0 {
        tf.name@
    } else {
        match def {
            Some(d) => d.name@,
            None => tf.reference_name@,
        }
    }
}

/// The editor's field for a field of the item's type, unless it is noise, read-only or of a type
/// that is not edited.
pub open spec fn planned(
    values: Seq<MemberView>,
    tf: AdoTypeField,
    defs: Seq<AdoFieldDef>,
) -> Option<PlannedFieldView> {
    let def = def_of(defs, tf.reference_name@);
    let value = value_of(values, tf.reference_name@);
    if noise(tf.reference_name@) || (def matches Some(d) && d.read_only) {
        None
    } else {
        match planned_kind(def, tf.allowed_values@.len() > 0) {
            None => None,
            Some(kind) => Some(
                PlannedFieldView {
                    field: EditableFieldView {
                        reference: tf.reference_name@,
                        label: planned_label(tf, def),
                        kind,
                        value: if unconverted(value, kind) is Some {
                            Seq::empty()
                        } else {
                            shown_value(value, kind)
                        },
                        options: if kind == FieldKind::Select {
                            scalar_texts(views(tf.allowed_values@))
                        } else {
                            Seq::empty()
                        },
                        read_only: kind == FieldKind::Identity,
                        required: tf.always_required,
                        help: match tf.help_text {
                            Some(h) => if trimmed(h@).len() > 0 {
                                Some(h@)
                            } else {
                                None
                            },
                            None => None,
                        },
                    },
                    html: unconverted(value, kind),
                },
            ),
        }
    }
}

/// The editor's fields for the fields of a list, in order.
pub open spec fn plan(
    values: Seq<MemberView>,
    list: Seq<AdoTypeField>,
    defs: Seq<AdoFieldDef>,
) -> Seq<PlannedFieldView>
    decreases list.len(),
{
    if list.len() == 0 {
        Seq::empty()
    } else {
        match planned(values, list.last(), defs) {
            Some(p) => plan(values, list.drop_last(), defs).push(p),
            None => plan(values, list.drop_last(), defs),
        }
    }
}

fn find_def<'a>(defs: &'a Vec<AdoFieldDef>, reference: &str) -> (r: Option<&'a AdoFieldDef>)
    ensures
        match r {
            Some(d) => def_of(defs@, reference@) == Some(*d),
            None => def_of(defs@, reference@) is None,
        },
{
    let mut n: usize = defs.len();
    while n > 0
        invariant
            n <= defs@.len(),
            def_of(defs@, reference@) == def_of(defs@.take(n as int), reference@),
        decreases n,
    {
        proof {
            lemma_take_step(defs@, n - 1);
        }
        if same(defs[n - 1].reference_name.as_str(), reference) {
            return Some(&defs[n - 1]);
        }
        n -= 1;
    }
    None
}

fn field_values(item: &Json) -> (r: Vec<Member>)
    ensures
        views(r@) == values_of(item@),
{
    match item.member("fields") {
        Some(raw) => match parse_json(raw.as_str()) {
            Some(Json::Object(members)) => members,
            _ => Vec::new(),
        },
        None => Vec::new(),
    }
}

/// The type of a work item; empty where the item does not name it.
pub fn work_item_type_of(item: &Json) -> (r: String)
    ensures
        r@ == item_type(item@),
{
    let values: Vec<Member> = field_values(item);
    match crate::json::find_member(&values, "System.WorkItemType") {
        Some(raw) => match parse_json(raw.as_str()) {
            Some(Json::Text(t)) => t,
            _ => String::new(),
        },
        None => String::new(),
    }
}

fn plan_one(values: &Vec<Member>, tf: &AdoTypeField, defs: &Vec<AdoFieldDef>) -> (r: Option<
    PlannedField,
>)
    ensures
        opt_view(r) == planned(views(values@), *tf, defs@),
{
    let reference: &str = tf.reference_name.as_str();
    if is_noise_field(reference) {
        return None;
    }
    let def: Option<&AdoFieldDef> = find_def(defs, reference);
    let has_options: bool = tf.allowed_values.len() > 0;
    let kind: FieldKind = match def {
        Some(d) => {
            if d.read_only {
                return None;
            }
            if d.is_identity {
                FieldKind::Identity
            } else {
                match map_field_kind(d.field_type.as_str(), has_options) {
                    Some(k) => k,
                    None => {
                        return None;
                    },
                }
            }
        },
        None => match map_field_kind("", has_options) {
            Some(k) => k,
            None => {
                return None;
            },
        },
    };
    let label: String = if is_blank(tf.name.as_str()) {
        match def {
            Some(d) => d.name.clone(),
            None => tf.reference_name.clone(),
        }
    } else {
        tf.name.clone()
    };
    let raw: Option<Json> = match crate::json::find_member(values, reference) {
        Some(text) => parse_json(text.as_str()),
        None => None,
    };
    let shown: Option<String> = match &raw {
        Some(v) => field_value_to_string(Some(v), kind),
        None => field_value_to_string(None, kind),
    };
    let (value, html): (String, Option<String>) = match shown {
        Some(t) => (t, None),
        None => match &raw {
            Some(Json::Text(t)) => (String::new(), Some(t.clone())),
            _ => (String::new(), Some(String::new())),
        },
    };
    let help: Option<String> = match &tf.help_text {
        Some(h) => if is_blank(h.as_str()) {
            None
        } else {
            Some(h.clone())
        },
        None => None,
    };
    let options: Vec<String> = if matches!(kind, FieldKind::Select) {
        option_texts(&tf.allowed_values)
    } else {
        Vec::new()
    };
    let p: PlannedField = PlannedField {
        field: EditableField {
            reference: tf.reference_name.clone(),
            label,
            kind,
            value,
            options,
            read_only: matches!(kind, FieldKind::Identity),
            required: tf.always_required,
            help,
        },
        html,
    };
    assert(Some(p@) =~= planned(views(values@), *tf, defs@));
    Some(p)
}

/// The fields to edit of an item, from the item, the fields of its type and the catalogue.
///
/// Rich text whose markup is not tame is handed back as HTML: the caller sets those values before
/// [`finish_fields`], or hands them to [`editable_fields`].
pub fn plan_fields(
    item: &Json,
    type_fields: &Vec<AdoTypeField>,
    defs: &Vec<AdoFieldDef>,
) -> (r: Vec<PlannedField>)
    ensures
        views(r@) == plan(values_of(item@), type_fields@, defs@),
{
    let values: Vec<Member> = field_values(item);
    let mut out: Vec<PlannedField> = Vec::new();
    let mut i: usize = 0;
    while i < type_fields.len()
        invariant
            i <= type_fields@.len(),
            views(values@) == values_of(item@),
            views(out@) == plan(values_of(item@), type_fields@.take(i as int), defs@),
        decreases type_fields@.len() - i,
    {
        proof {
            lemma_take_step(type_fields@, i as int);
        }
        match plan_one(&values, &type_fields[i], defs) {
            Some(p) => {
                out.push(p);
            },
            None => {},
        }
        i += 1;
    }
    out
}

// ---------------------------------------------------------------------------------------------
// Finishing the editor
// ---------------------------------------------------------------------------------------------

/// Whether `a` is shown before `b`: prose first, and within either group by label.
pub open spec fn shown_before(a: EditableFieldView, b: EditableFieldView) -> bool {
    ||| draftable(a.kind) && !draftable(b.kind)
    ||| draftable(a.kind) == draftable(b.kind) && before(lowercase(a.label), lowercase(b.label))
}

/// A list with `x` added behind every field that is not shown after it.
pub open spec fn with_field(list: Seq<EditableFieldView>, x: EditableFieldView) -> Seq<
    EditableFieldView,
>
    decreases list.len(),
{
    if list.len() > 0 && shown_before(x, list.last()) {
        with_field(list.drop_last(), x).push(list.last())
    } else {
        list.push(x)
    }
}

/// Whether a field is kept: it has a value, or the form shows it, or the form is unknown.
pub open spec fn kept(f: EditableFieldView, form: Seq<Seq<char>>) -> bool {
    form.len() == 0 || form.contains(lower(f.reference)) || trimmed(f.value).len() > 0
}

/// The fields of the list that are kept, in the order in which they are shown; fields that are
/// shown neither before nor after each other stay in the order of the list.
pub open spec fn finished(list: Seq<EditableFieldView>, form: Seq<Seq<char>>) -> Seq<
    EditableFieldView,
>
    decreases list.len(),
{
    if list.len() == 0 {
        Seq::empty()
    } else {
        let head = finished(list.drop_last(), form);
        if kept(list.last(), form) {
            with_field(head, list.last())
        } else {
            head
        }
    }
}

/// The fields of planned fields.
pub open spec fn fields_of(list: Seq<PlannedFieldView>) -> Seq<EditableFieldView> {
    Seq::new(list.len(), |i: int| list[i].field)
}

fn is_shown_before(a: &EditableField, b: &EditableField) -> (r: bool)
    ensures
        r == shown_before(a@, b@),
{
    let da: bool = a.kind.is_draftable();
    let db: bool = b.kind.is_draftable();
    if da && !db {
        true
    } else if da == db {
        let la: String = to_lowercase(a.label.as_str());
        let lb: String = to_lowercase(b.label.as_str());
        comes_before(la.as_str(), lb.as_str())
    } else {
        false
    }
}

proof fn lemma_with_field(list: Seq<EditableFieldView>, x: EditableFieldView, at: int)
    requires
        0 <= at <= list.len(),
        forall|k: int| at <= k < list.len() ==> shown_before(x, #[trigger] list[k]),
        at > 0 ==> !shown_before(x, list[at - 1]),
    ensures
        with_field(list, x) == list.insert(at, x),
    decreases list.len(),
{
    if at < list.len() {
        assert(shown_before(x, list[list.len() - 1]));
        let head = list.drop_last();
        assert forall|k: int| at <= k < head.len() implies shown_before(x, #[trigger] head[k]) by {
            assert(head[k] == list[k]);
        }
        lemma_with_field(head, x, at);
        assert(head.insert(at, x).push(list.last()) =~= list.insert(at, x));
    } else {
        assert(list.insert(at, x) =~= list.push(x));
    }
}

fn insert_field(list: &mut Vec<EditableField>, x: EditableField)
    ensures
        views(final(list)@) == with_field(views(old(list)@), x@),
{
    let ghost all = views(list@);
    let mut at: usize = list.len();
    while at > 0 && is_shown_before(&x, &list[at - 1])
        invariant
            at <= list@.len(),
            all == views(list@),
            forall|k: int| at <= k < all.len() ==> shown_before(x@, #[trigger] all[k]),
        decreases at,
    {
        at -= 1;
    }
    proof {
        lemma_with_field(all, x@, at as int);
    }
    let ghost added = x@;
    list.insert(at, x);
    assert(views(list@) =~= all.insert(at as int, added));
}

/// The fields that the editor shows, in order: without the empty ones that the form hides, prose
/// first, then by label. `form_refs` are the fields that the form shows, in lower case; none where
/// the form is unknown.
pub fn finish_fields(planned: Vec<PlannedField>, form_refs: &Vec<String>) -> (r: Vec<EditableField>)
    ensures
        views(r@) == finished(fields_of(views(planned@)), views(form_refs@)),
{
    let ghost all = fields_of(views(planned@));
    let ghost total = planned@;
    let mut reversed: Vec<EditableField> = Vec::new();
    let mut planned: Vec<PlannedField> = planned;
    while planned.len() > 0
        invariant
            planned@.len() + reversed@.len() == total.len(),
            planned@ == total.take(planned@.len() as int),
            all == fields_of(views(total)),
            forall|k: int|
                0 <= k < reversed@.len() ==> (#[trigger] reversed@[k])@ == all[total.len() - 1 - k],
        decreases planned@.len(),
    {
        match planned.pop() {
            Some(p) => {
                reversed.push(p.field);
            },
            None => {},
        }
    }
    let mut out: Vec<EditableField> = Vec::new();
    let ghost mut done: int = 0;
    assert(all.take(0) =~= Seq::<EditableFieldView>::empty());
    while reversed.len() > 0
        invariant
            0 <= done,
            all.len() == total.len(),
            done + reversed@.len() == total.len(),
            forall|k: int|
                0 <= k < reversed@.len() ==> (#[trigger] reversed@[k])@ == all[total.len() - 1 - k],
            views(out@) == finished(all.take(done), views(form_refs@)),
        decreases reversed@.len(),
    {
        proof {
            lemma_take_step(all, done);
        }
        match reversed.pop() {
            Some(f) => {
                assert(f@ == all[done]);
                let on_form: bool = form_refs.len() == 0 || list_contains(
                    form_refs,
                    to_lower(f.reference.as_str()).as_str(),
                );
                if on_form || !is_blank(f.value.as_str()) {
                    insert_field(&mut out, f);
                }
            },
            None => {},
        }
        proof {
            done = done + 1;
        }
    }
    out
}

// ---------------------------------------------------------------------------------------------
// The whole editor
// ---------------------------------------------------------------------------------------------

/// The HTML that planned fields hand back, in order.
pub open spec fn handed_back(list: Seq<PlannedFieldView>) -> Seq<Seq<char>>
    decreases list.len(),
{
    if list.len() == 0 {
        Seq::empty()
    } else {
        match list.last().html {
            Some(html) => handed_back(list.drop_last()).push(html),
            None => handed_back(list.drop_last()),
        }
    }
}

/// The HTML that planned fields hand back, in order.
pub fn texts_to_convert(planned: &Vec<PlannedField>) -> (r: Vec<String>)
    ensures
        views(r@) == handed_back(views(planned@)),
{
    let ghost all = views(planned@);
    let mut out: Vec<String> = Vec::new();
    let mut i: usize = 0;
    while i < planned.len()
        invariant
            i <= planned@.len(),
            all == views(planned@),
            views(out@) == handed_back(all.take(i as int)),
        decreases planned@.len() - i,
    {
        proof {
            lemma_take_step(all, i as int);
            assert(all[i as int] == planned@[i as int]@);
        }
        match &planned[i].html {
            Some(html) => {
                out.push(html.clone());
            },
            None => {},
        }
        i += 1;
    }
    out
}

/// The fields of planned fields, with converted texts in place of the HTML that they hand back, in
/// order. HTML for which there is none stays as it is.
pub open spec fn filled_in(list: Seq<PlannedFieldView>, converted: Seq<Seq<char>>) -> Seq<
    EditableFieldView,
>
    decreases list.len(),
{
    if list.len() == 0 {
        Seq::empty()
    } else {
        let at = handed_back(list.drop_last()).len();
        let value = match list.last().html {
            Some(html) => if at < converted.len() {
                converted[at as int]
            } else {
                html
            },
            None => list.last().field.value,
        };
        filled_in(list.drop_last(), converted).push(EditableFieldView { value, ..list.last().field })
    }
}

/// The type of a work item; empty where the item does not name it.
pub open spec fn item_type(item: JsonView) -> Seq<char> {
    match value_of(values_of(item), "System.WorkItemType"@) {
        Some(JsonView::Text(t)) => t,
        _ => Seq::empty(),
    }
}

fn fill_in(planned: Vec<PlannedField>, converted: &Vec<String>) -> (r: Vec<PlannedField>)
    ensures
        fields_of(views(r@)) == filled_in(views(planned@), views(converted@)),
{
    let ghost all = views(planned@);
    let ghost texts = views(converted@);
    let mut list: Vec<PlannedField> = planned;
    let mut at: usize = 0;
    let mut i: usize = 0;
    while i < list.len()
        invariant
            i <= list@.len() == all.len(),
            texts == views(converted@),
            at == handed_back(all.take(i as int)).len(),
            at <= i,
            forall|j: int| i <= j < all.len() ==> (#[trigger] list@[j])@ == all[j],
            fields_of(views(list@.take(i as int))) == filled_in(all.take(i as int), texts),
        decreases list@.len() - i,
    {
        let ghost before = list@;
        proof {
            lemma_take_step(all, i as int);
            lemma_take_step(list@, i as int);
            assert(list@[i as int]@ == all[i as int]);
        }
        let p: &PlannedField = &list[i];
        let value: String = match &p.html {
            Some(html) => if at < converted.len() {
                converted[at].clone()
            } else {
                html.clone()
            },
            None => p.field.value.clone(),
        };
        if p.html.is_some() {
            at += 1;
        }
        let done: PlannedField = PlannedField {
            field: EditableField {
                reference: p.field.reference.clone(),
                label: p.field.label.clone(),
                kind: p.field.kind,
                value,
                options: clone_all(&p.field.options),
                read_only: p.field.read_only,
                required: p.field.required,
                help: clone_opt(&p.field.help),
            },
            html: None,
        };
        let ghost field = done.field@;
        list.set(i, done);
        proof {
            assert(list@.take(i + 1) =~= before.take(i as int).push(done));
            assert(fields_of(views(list@.take(i + 1))) =~= fields_of(
                views(before.take(i as int)),
            ).push(field));
            assert(field =~= filled_in(all.take(i + 1), texts).last());
        }
        i += 1;
    }
    assert(list@.take(i as int) =~= list@);
    assert(all.take(i as int) =~= all);
    list
}

/// The fields that the editor shows of an item, in order: from the item, the fields of its type, the
/// catalogue and the fields that the form shows. `converted` are the Markdown texts for what
/// [`texts_to_convert`] gives of the planned fields. There are none where the item names no type.
pub fn editable_fields(
    item: &Json,
    type_fields: &Vec<AdoTypeField>,
    defs: &Vec<AdoFieldDef>,
    form_refs: &Vec<String>,
    converted: &Vec<String>,
) -> (r: Vec<EditableField>)
    ensures
        views(r@) == (if item_type(item@).len() == 0 {
            Seq::empty()
        } else {
            finished(
                filled_in(plan(values_of(item@), type_fields@, defs@), views(converted@)),
                views(form_refs@),
            )
        }),
{
    let wit: String = work_item_type_of(item);
    if wit.as_str().is_empty() {
        return Vec::new();
    }
    finish_fields(fill_in(plan_fields(item, type_fields, defs), converted), form_refs)
}

// ---------------------------------------------------------------------------------------------
// Laws
// ---------------------------------------------------------------------------------------------

/// Only a field that is chosen from a list has options.
pub proof fn law_only_choices_have_options(
    values: Seq<MemberView>,
    list: Seq<AdoTypeField>,
    defs: Seq<AdoFieldDef>,
)
    ensures
        forall|i: int|
            0 <= i < plan(values, list, defs).len() ==> (#[trigger] plan(
                values,
                list,
                defs,
            )[i]).field.kind == FieldKind::Select || plan(values, list, defs)[i].field.options.len()
                == 0,
    decreases list.len(),
{
    if list.len() > 0 {
        law_only_choices_have_options(values, list.drop_last(), defs);
    }
}

spec fn in_order(list: Seq<EditableFieldView>) -> bool {
    forall|i: int, j: int|
        0 <= i < j < list.len() ==> !shown_before(#[trigger] list[j], #[trigger] list[i])
}

proof fn lemma_shown_before_asymmetric(a: EditableFieldView, b: EditableFieldView)
    requires
        shown_before(a, b),
    ensures
        !shown_before(b, a),
{
    let la = lowercase(a.label);
    let lb = lowercase(b.label);
    if shown_before(b, a) {
        crate::order::lemma_before_transitive(la, lb, la);
        crate::order::lemma_before_irreflexive(la);
    }
}

proof fn lemma_with_field_in_order(list: Seq<EditableFieldView>, x: EditableFieldView)
    requires
        in_order(list),
    ensures
        in_order(with_field(list, x)),
        with_field(list, x).to_multiset() == list.to_multiset().insert(x),
        with_field(list, x).len() == list.len() + 1,
        forall|k: int|
            0 <= k < with_field(list, x).len() ==> (#[trigger] with_field(list, x)[k] == x
                || list.contains(with_field(list, x)[k])),
    decreases list.len(),
{
    broadcast use vstd::seq_lib::group_to_multiset_ensures;

    let r = with_field(list, x);
    if list.len() > 0 && shown_before(x, list.last()) {
        let head = list.drop_last();
        assert(in_order(head)) by {
            assert forall|i: int, j: int| 0 <= i < j < head.len() implies !shown_before(
                #[trigger] head[j],
                #[trigger] head[i],
            ) by {
                assert(!shown_before(list[j], list[i]));
            }
        }
        lemma_with_field_in_order(head, x);
        let h = with_field(head, x);
        let last = list.last();
        assert(list =~= head.push(last));
        assert(r =~= h.push(last));
        assert forall|i: int, j: int| 0 <= i < j < r.len() implies !shown_before(
            #[trigger] r[j],
            #[trigger] r[i],
        ) by {
            if j < h.len() {
                assert(r[i] == h[i] && r[j] == h[j]);
            } else {
                assert(r[i] == h[i]);
                if h[i] == x {
                    lemma_shown_before_asymmetric(x, last);
                } else {
                    let k = choose|k: int| 0 <= k < head.len() && head[k] == h[i];
                    assert(!shown_before(list[list.len() - 1], list[k]));
                }
            }
        }
        assert forall|k: int| 0 <= k < r.len() implies (#[trigger] r[k] == x || list.contains(
            r[k],
        )) by {
            if k < h.len() {
                assert(r[k] == h[k]);
                if h[k] != x {
                    let m = choose|m: int| 0 <= m < head.len() && head[m] == h[k];
                    assert(list[m] == r[k]);
                }
            } else {
                assert(list[list.len() - 1] == r[k]);
            }
        }
        assert(r.to_multiset() =~= list.to_multiset().insert(x));
    } else {
        assert(r =~= list.push(x));
        assert forall|i: int, j: int| 0 <= i < j < r.len() implies !shown_before(
            #[trigger] r[j],
            #[trigger] r[i],
        ) by {
            if j < list.len() {
                assert(r[i] == list[i] && r[j] == list[j]);
            } else {
                assert(r[i] == list[i]);
                if i < list.len() - 1 {
                    assert(!shown_before(list[list.len() - 1], list[i]));
                    if shown_before(x, list[i]) {
                        lemma_not_before_chain(x, list[i], list[list.len() - 1]);
                    }
                }
            }
        }
        assert forall|k: int| 0 <= k < r.len() implies (#[trigger] r[k] == x || list.contains(
            r[k],
        )) by {
            if k < list.len() {
                assert(list[k] == r[k]);
            }
        }
    }
}

/// What is shown before `b` is shown before everything that is not shown before `b`.
proof fn lemma_not_before_chain(
    x: EditableFieldView,
    b: EditableFieldView,
    c: EditableFieldView,
)
    requires
        shown_before(x, b),
        !shown_before(c, b),
    ensures
        shown_before(x, c),
{
    let lx = lowercase(x.label);
    let lb = lowercase(b.label);
    let lc = lowercase(c.label);
    crate::order::lemma_before_total(lb, lc);
    if before(lb, lc) && before(lx, lb) {
        crate::order::lemma_before_transitive(lx, lb, lc);
    }
}

/// The editor shows its fields in order: none stands behind a field that is to be shown after it.
pub proof fn law_fields_are_in_order(
    list: Seq<EditableFieldView>,
    form: Seq<Seq<char>>,
    i: int,
    j: int,
)
    requires
        0 <= i < j < finished(list, form).len(),
    ensures
        !shown_before(finished(list, form)[j], finished(list, form)[i]),
{
    lemma_finished_in_order(list, form);
}

proof fn lemma_finished_in_order(list: Seq<EditableFieldView>, form: Seq<Seq<char>>)
    ensures
        in_order(finished(list, form)),
    decreases list.len(),
{
    if list.len() > 0 {
        lemma_finished_in_order(list.drop_last(), form);
        lemma_with_field_in_order(finished(list.drop_last(), form), list.last());
    }
}

/// The editor shows the kept fields and no others, each as often as it was planned.
pub proof fn law_fields_are_those_kept(list: Seq<EditableFieldView>, form: Seq<Seq<char>>)
    ensures
        finished(list, form).to_multiset() == list.filter(
            |f: EditableFieldView| kept(f, form),
        ).to_multiset(),
    decreases list.len(),
{
    broadcast use vstd::seq_lib::group_to_multiset_ensures;

    reveal(Seq::filter);
    if list.len() > 0 {
        law_fields_are_those_kept(list.drop_last(), form);
        lemma_finished_in_order(list.drop_last(), form);
        lemma_with_field_in_order(finished(list.drop_last(), form), list.last());
    } else {
        assert(finished(list, form) =~= list.filter(|f: EditableFieldView| kept(f, form)));
    }
}

/// A field with a value is never dropped, whatever the form shows.
pub proof fn law_values_are_never_lost(f: EditableFieldView, form: Seq<Seq<char>>)
    requires
        trimmed(f.value).len() > 0,
    ensures
        kept(f, form),
{
}

} // verus!
