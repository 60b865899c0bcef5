//! What the editor of a work item promises.
use super::{
    def_of, filled_in, form_names, handed_back, html_references, item_type, kept, kind_of, noise,
    plain_value, plan, planned, quoted_value, scalar_text, scalar_texts, shown_before, shown_value,
    unconverted, value_of, values_of, with_field, AdoFieldDef, AdoTypeField, PlannedFieldView,
};
use crate::editable_field::{EditableFieldView, FieldKind};
use crate::json::{json_of, lookup, member_of, text_member, JsonView, MemberView};
use crate::order::before;
use crate::providers::markup::is_tame;
use crate::providers::richtext::markdown_of;
use crate::text::{has_prefix, lower, lowercase, next_at, occurs, occurs_at, trimmed, views};
use vstd::prelude::*;

verus! {

// ---------------------------------------------------------------------------------------------
// Planning
// ---------------------------------------------------------------------------------------------

/// The editor's fields are those of the type that are planned at all, each once and in the order of
/// the type.
pub proof fn law_every_field_is_planned_in_its_place(
    values: Seq<MemberView>,
    list: Seq<AdoTypeField>,
    defs: Seq<AdoFieldDef>,
)
    ensures
        plan(values, list, defs) == list.filter(
            |tf: AdoTypeField| planned(values, tf, defs) is Some,
        ).map_values(|tf: AdoTypeField| planned(values, tf, defs)->0),
    decreases list.len(),
{
    reveal(Seq::filter);
    let keep = |tf: AdoTypeField| planned(values, tf, defs) is Some;
    let field = |tf: AdoTypeField| planned(values, tf, defs)->0;
    if list.len() > 0 {
        let head = list.drop_last();
        law_every_field_is_planned_in_its_place(values, head, defs);
        if keep(list.last()) {
            assert(head.filter(keep).push(list.last()).map_values(field) =~= head.filter(
                keep,
            ).map_values(field).push(field(list.last())));
        }
    } else {
        assert(list.filter(keep).map_values(field) =~= Seq::empty());
    }
}

/// The kind of editor that the catalogue asks for a field; a field that it does not hold is of no
/// kind.
pub open spec fn asked_kind(defs: Seq<AdoFieldDef>, tf: AdoTypeField) -> Option<FieldKind> {
    match def_of(defs, tf.reference_name@) {
        Some(d) => if d.is_identity {
            Some(FieldKind::Identity)
        } else {
            kind_of(d.field_type@, tf.allowed_values@.len() > 0)
        },
        None => None,
    }
}

/// A field is planned exactly when it is no noise, the catalogue holds it, does not make it
/// read-only, and gives it a type that is edited.
pub proof fn law_which_fields_are_planned(
    values: Seq<MemberView>,
    tf: AdoTypeField,
    defs: Seq<AdoFieldDef>,
)
    ensures
        planned(values, tf, defs) is Some <==> !noise(tf.reference_name@) && def_of(
            defs,
            tf.reference_name@,
        ) is Some && !def_of(defs, tf.reference_name@)->0.read_only && asked_kind(
            defs,
            tf,
        ) is Some,
{
    reveal_strlit("");
    reveal_strlit("html");
    reveal_strlit("plainText");
    reveal_strlit("string");
    reveal_strlit("picklistString");
    reveal_strlit("integer");
    reveal_strlit("picklistInteger");
    reveal_strlit("double");
    reveal_strlit("picklistDouble");
    reveal_strlit("dateTime");
    reveal_strlit("boolean");
    reveal_strlit("identity");
    reveal_strlit("treePath");
    assert(""@.len() == 0);
    assert(kind_of(""@, tf.allowed_values@.len() > 0) is None);
}

/// A planned field is what the type and the catalogue say of it: its label is the type's, else the
/// catalogue's; it is required where the type says so; only people are shown without being edited;
/// a choice has the type's options.
pub proof fn law_planned_field(
    values: Seq<MemberView>,
    tf: AdoTypeField,
    defs: Seq<AdoFieldDef>,
)
    requires
        planned(values, tf, defs) is Some,
    ensures
        ({
            let p = planned(values, tf, defs)->0;
            let f = p.field;
            let value = value_of(values, tf.reference_name@);
            &&& f.reference == tf.reference_name@
            &&& asked_kind(defs, tf) == Some(f.kind)
            &&& trimmed(tf.name@).len() > 0 ==> f.label == tf.name@
            &&& trimmed(tf.name@).len() == 0 ==> f.label == def_of(
                defs,
                tf.reference_name@,
            )->0.name@
            &&& f.required == tf.always_required
            &&& f.read_only <==> f.kind == FieldKind::Identity
            &&& tf.help_text is Some && trimmed(tf.help_text->0@).len() > 0 ==> f.help == Some(
                tf.help_text->0@,
            )
            &&& tf.help_text is None || trimmed(tf.help_text->0@).len() == 0 ==> f.help is None
            &&& f.kind == FieldKind::Select ==> f.options == scalar_texts(
                views(tf.allowed_values@),
            )
            &&& f.kind != FieldKind::Select ==> f.options.len() == 0
            &&& p.html == unconverted(value, f.kind)
            &&& p.html is Some ==> f.value.len() == 0
            &&& p.html is None ==> f.value == shown_value(value, f.kind)
        }),
{
    law_which_fields_are_planned(values, tf, defs);
}

/// The catalogue's entry for a field is the last that it holds.
pub proof fn law_last_entry_counts(defs: Seq<AdoFieldDef>, reference: Seq<char>)
    ensures
        match def_of(defs, reference) {
            Some(d) => exists|i: int|
                0 <= i < defs.len() && #[trigger] defs[i] == d && d.reference_name@ == reference
                    && forall|j: int|
                    i < j < defs.len() ==> (#[trigger] defs[j]).reference_name@ != reference,
            None => forall|j: int|
                0 <= j < defs.len() ==> (#[trigger] defs[j]).reference_name@ != reference,
        },
    decreases defs.len(),
{
    if defs.len() > 0 {
        let head = defs.drop_last();
        law_last_entry_counts(head, reference);
        assert forall|j: int| 0 <= j < head.len() implies #[trigger] defs[j] == head[j] by {}
        if defs.last().reference_name@ == reference {
            assert(defs[defs.len() - 1] == defs.last());
        } else {
            match def_of(head, reference) {
                Some(d) => {
                    let i = choose|i: int|
                        0 <= i < head.len() && #[trigger] head[i] == d && d.reference_name@
                            == reference && forall|j: int|
                            i < j < head.len() ==> (#[trigger] head[j]).reference_name@
                                != reference;
                    assert(defs[i] == d);
                    assert forall|j: int| i < j < defs.len() implies (
                    #[trigger] defs[j]).reference_name@ != reference by {
                        if j < head.len() {
                            assert(head[j].reference_name@ != reference);
                        }
                    }
                },
                None => {
                    assert forall|j: int| 0 <= j < defs.len() implies (
                    #[trigger] defs[j]).reference_name@ != reference by {
                        if j < head.len() {
                            assert(head[j].reference_name@ != reference);
                        }
                    }
                },
            }
        }
    }
}

/// The editor of each data type. A text or a whole number with options is a choice; with or without
/// options, nothing else is.
pub proof fn law_kinds_of_types(ftype: Seq<char>, has_options: bool)
    ensures
        ({
            let k = kind_of(ftype, has_options);
            let words = ftype == "string"@ || ftype == "picklistString"@;
            let whole = ftype == "integer"@ || ftype == "picklistInteger"@;
            &&& k == Some(FieldKind::Markdown) <==> ftype == "html"@
            &&& k == Some(FieldKind::PlainText) <==> ftype == "plainText"@
            &&& k == Some(FieldKind::Select) <==> has_options && (words || whole)
            &&& k == Some(FieldKind::Text) <==> (words && !has_options) || ftype == "treePath"@
            &&& k == Some(FieldKind::Integer) <==> whole && !has_options
            &&& k == Some(FieldKind::Float) <==> ftype == "double"@ || ftype == "picklistDouble"@
            &&& k == Some(FieldKind::DateTime) <==> ftype == "dateTime"@
            &&& k == Some(FieldKind::Boolean) <==> ftype == "boolean"@
            &&& k == Some(FieldKind::Identity) <==> ftype == "identity"@
        }),
{
    reveal_strlit("html");
    reveal_strlit("plainText");
    reveal_strlit("string");
    reveal_strlit("picklistString");
    reveal_strlit("integer");
    reveal_strlit("picklistInteger");
    reveal_strlit("double");
    reveal_strlit("picklistDouble");
    reveal_strlit("dateTime");
    reveal_strlit("boolean");
    reveal_strlit("identity");
    reveal_strlit("treePath");
    assert("html"@.len() == 4);
    assert("plainText"@.len() == 9);
    assert("string"@.len() == 6 && "string"@[0] == 's');
    assert("double"@.len() == 6 && "double"@[0] == 'd');
    assert("picklistString"@.len() == 14 && "picklistString"@[8] == 'S');
    assert("picklistDouble"@.len() == 14 && "picklistDouble"@[8] == 'D');
    assert("integer"@.len() == 7 && "integer"@[0] == 'i');
    assert("boolean"@.len() == 7 && "boolean"@[0] == 'b');
    assert("picklistInteger"@.len() == 15);
    assert("dateTime"@.len() == 8 && "dateTime"@[0] == 'd');
    assert("identity"@.len() == 8 && "identity"@[0] == 'i');
    assert("treePath"@.len() == 8 && "treePath"@[0] == 't');
}

/// What is shown of a value: rich text as Markdown, a person by name, a truth value in words, and
/// texts and numbers as they are. Without a value nothing is shown.
pub proof fn law_shown_values(v: JsonView, kind: FieldKind)
    ensures
        shown_value(None, kind).len() == 0,
        kind == FieldKind::Markdown && v is Text ==> shown_value(Some(v), kind) == markdown_of(
            v->Text_0,
        ),
        kind == FieldKind::Identity && text_member(v, "displayName"@) is Some ==> shown_value(
            Some(v),
            kind,
        ) == text_member(v, "displayName"@)->0,
        kind == FieldKind::Identity && text_member(v, "displayName"@) is None && v is Text
            ==> shown_value(Some(v), kind) == v->Text_0,
        kind == FieldKind::Boolean ==> shown_value(Some(v), kind) == (if v == JsonView::Bool(
            true,
        ) {
            "true"@
        } else {
            "false"@
        }),
        kind != FieldKind::Markdown && kind != FieldKind::Identity && kind != FieldKind::Boolean
            ==> match v {
            JsonView::Text(t) => shown_value(Some(v), kind) == t,
            JsonView::Number(n) => shown_value(Some(v), kind) == n,
            JsonView::Bool(b) => shown_value(Some(v), kind) == (if b {
                "true"@
            } else {
                "false"@
            }),
            _ => shown_value(Some(v), kind).len() == 0,
        },
{
}

/// Only rich text whose markup is not tame is handed back, and then as it is.
pub proof fn law_what_is_handed_back(v: JsonView, kind: FieldKind)
    ensures
        unconverted(None, kind) is None,
        kind != FieldKind::Markdown ==> unconverted(Some(v), kind) is None,
        kind == FieldKind::Markdown && v is Text ==> (unconverted(Some(v), kind) is Some
            <==> !is_tame(v->Text_0)),
        kind == FieldKind::Markdown && v is Text && unconverted(Some(v), kind) is Some
            ==> unconverted(Some(v), kind)->0 == v->Text_0,
{
}

/// The options of a choice are the texts and numbers that the type allows, in their order.
pub proof fn law_options(list: Seq<JsonView>)
    ensures
        scalar_texts(list) == list.filter(
            |v: JsonView| v is Text || v is Number,
        ).map_values(
            |v: JsonView|
                if v is Text {
                    v->Text_0
                } else {
                    v->Number_0
                },
        ),
    decreases list.len(),
{
    reveal(Seq::filter);
    let keep = |v: JsonView| v is Text || v is Number;
    let text = |v: JsonView|
        if v is Text {
            v->Text_0
        } else {
            v->Number_0
        };
    if list.len() > 0 {
        let head = list.drop_last();
        law_options(head);
        if keep(list.last()) {
            assert(head.filter(keep).push(list.last()).map_values(text) =~= head.filter(
                keep,
            ).map_values(text).push(text(list.last())));
        }
    } else {
        assert(list.filter(keep).map_values(text) =~= Seq::empty());
    }
}

/// The fields that hold HTML are those whose type says so, whatever its case, in their order.
pub proof fn law_html_fields(defs: Seq<AdoFieldDef>)
    ensures
        html_references(defs) == defs.filter(
            |d: AdoFieldDef| lower(d.field_type@) == lower("html"@),
        ).map_values(|d: AdoFieldDef| d.reference_name@),
    decreases defs.len(),
{
    reveal(Seq::filter);
    let keep = |d: AdoFieldDef| lower(d.field_type@) == lower("html"@);
    let name = |d: AdoFieldDef| d.reference_name@;
    if defs.len() > 0 {
        let head = defs.drop_last();
        law_html_fields(head);
        if keep(defs.last()) {
            assert(head.filter(keep).push(defs.last()).map_values(name) =~= head.filter(
                keep,
            ).map_values(name).push(name(defs.last())));
        }
    } else {
        assert(defs.filter(keep).map_values(name) =~= Seq::empty());
    }
}

/// What belongs to boards and to the levels of paths is noise, and so is what another control edits:
/// the state and the tags among it. Only those are.
pub proof fn law_noise(reference: Seq<char>)
    ensures
        has_prefix(reference, "WEF_"@) ==> noise(reference),
        occurs(reference, "Kanban"@) ==> noise(reference),
        occurs(reference, "Board"@) ==> noise(reference),
        has_prefix(reference, "System.AreaLevel"@) ==> noise(reference),
        has_prefix(reference, "System.IterationLevel"@) ==> noise(reference),
        bookkeeping(reference) ==> noise(reference),
        noise(reference) ==> has_prefix(reference, "WEF_"@) || occurs(reference, "Kanban"@)
            || occurs(reference, "Board"@) || has_prefix(reference, "System.AreaLevel"@)
            || has_prefix(reference, "System.IterationLevel"@) || bookkeeping(reference),
{
}

/// The references that hold bookkeeping or that another control edits.
pub open spec fn bookkeeping(r: Seq<char>) -> bool {
    ||| r == "System.Id"@ || r == "System.Rev"@ || r == "System.Watermark"@
    ||| r == "System.AreaId"@ || r == "System.NodeName"@ || r == "System.IterationId"@
    ||| r == "System.CommentCount"@ || r == "System.AuthorizedDate"@ || r == "System.AuthorizedAs"@
    ||| r == "System.PersonId"@ || r == "System.RelatedLinkCount"@
    ||| r == "System.ExternalLinkCount"@ || r == "System.HyperLinkCount"@
    ||| r == "System.AttachedFileCount"@ || r == "System.RemoteLinkCount"@
    ||| r == "System.IsDeleted"@ || r == "System.TeamProject"@ || r == "System.State"@
    ||| r == "System.Tags"@ || r == "System.CreatedBy"@ || r == "System.CreatedDate"@
    ||| r == "System.ChangedBy"@ || r == "System.ChangedDate"@
    ||| r == "Microsoft.VSTS.Common.ActivatedBy"@ || r == "Microsoft.VSTS.Common.ActivatedDate"@
    ||| r == "Microsoft.VSTS.Common.ClosedBy"@ || r == "Microsoft.VSTS.Common.ClosedDate"@
    ||| r == "Microsoft.VSTS.Common.ResolvedBy"@ || r == "Microsoft.VSTS.Common.ResolvedDate"@
    ||| r == "Microsoft.VSTS.Common.StateChangeDate"@ || r == "Microsoft.VSTS.Common.StackRank"@
}

// ---------------------------------------------------------------------------------------------
// Filling in and finishing
// ---------------------------------------------------------------------------------------------

/// The texts to convert are those that planned fields hand back, in their order.
pub proof fn law_texts_to_convert(list: Seq<PlannedFieldView>)
    ensures
        handed_back(list) == list.filter(|p: PlannedFieldView| p.html is Some).map_values(
            |p: PlannedFieldView| p.html->0,
        ),
    decreases list.len(),
{
    reveal(Seq::filter);
    let keep = |p: PlannedFieldView| p.html is Some;
    let text = |p: PlannedFieldView| p.html->0;
    if list.len() > 0 {
        let head = list.drop_last();
        law_texts_to_convert(head);
        if keep(list.last()) {
            assert(head.filter(keep).push(list.last()).map_values(text) =~= head.filter(
                keep,
            ).map_values(text).push(text(list.last())));
        }
    } else {
        assert(list.filter(keep).map_values(text) =~= Seq::empty());
    }
}

/// Filling in changes nothing but the values that were handed back: each gets the converted text
/// that stands where its own text stands among those to convert, and its own text where there is
/// none.
pub proof fn law_converted_texts_are_filled_in(
    list: Seq<PlannedFieldView>,
    converted: Seq<Seq<char>>,
    i: int,
)
    requires
        0 <= i < list.len(),
    ensures
        filled_in(list, converted).len() == list.len(),
        filled_in(list, converted)[i] == (EditableFieldView {
            value: filled_in(list, converted)[i].value,
            ..list[i].field
        }),
        list[i].html is None ==> filled_in(list, converted)[i].value == list[i].field.value,
        list[i].html is Some && handed_back(list.take(i)).len() < converted.len() ==> filled_in(
            list,
            converted,
        )[i].value == converted[handed_back(list.take(i)).len() as int],
        list[i].html is Some && handed_back(list.take(i)).len() >= converted.len() ==> filled_in(
            list,
            converted,
        )[i].value == list[i].html->0,
    decreases list.len(),
{
    let head = list.drop_last();
    lemma_filled_len(head, converted);
    if i < head.len() {
        law_converted_texts_are_filled_in(head, converted, i);
        assert(head.take(i) =~= list.take(i));
        assert(head[i] == list[i]);
        assert(filled_in(list, converted)[i] == filled_in(head, converted)[i]);
    } else {
        assert(list.take(i) =~= head);
    }
}

proof fn lemma_filled_len(list: Seq<PlannedFieldView>, converted: Seq<Seq<char>>)
    ensures
        filled_in(list, converted).len() == list.len(),
    decreases list.len(),
{
    if list.len() > 0 {
        lemma_filled_len(list.drop_last(), converted);
    }
}

/// A field is shown before another where it is prose and the other is not, and within either group
/// where its label comes first, case aside.
pub proof fn law_prose_first_then_by_label(a: EditableFieldView, b: EditableFieldView)
    ensures
        ({
            let prose = |f: EditableFieldView|
                f.kind == FieldKind::Markdown || f.kind == FieldKind::PlainText || f.kind
                    == FieldKind::Text;
            &&& prose(a) && !prose(b) ==> shown_before(a, b)
            &&& !prose(a) && prose(b) ==> !shown_before(a, b)
            &&& prose(a) == prose(b) ==> (shown_before(a, b) <==> before(
                lowercase(a.label),
                lowercase(b.label),
            ))
        }),
{
}

/// A field is kept exactly when it has a value, the form shows it, or the form is unknown.
pub proof fn law_which_fields_are_kept(f: EditableFieldView, form: Seq<Seq<char>>)
    ensures
        kept(f, form) <==> form.len() == 0 || trimmed(f.value).len() > 0 || exists|i: int|
            0 <= i < form.len() && #[trigger] form[i] == lower(f.reference),
{
}

/// A field is added to those before it behind the last that is not shown after it, and the others
/// stay as they are: fields that are shown neither before nor after each other keep their order.
pub proof fn law_field_finds_its_place(list: Seq<EditableFieldView>, x: EditableFieldView)
    ensures
        exists|at: int|
            0 <= at <= list.len() && with_field(list, x) == #[trigger] list.insert(at, x) && (at > 0
                ==> !shown_before(x, list[at - 1])) && forall|k: int|
                at <= k < list.len() ==> shown_before(x, #[trigger] list[k]),
    decreases list.len(),
{
    if list.len() > 0 && shown_before(x, list.last()) {
        let head = list.drop_last();
        law_field_finds_its_place(head, x);
        let at = choose|at: int|
            0 <= at <= head.len() && with_field(head, x) == #[trigger] head.insert(at, x) && (at > 0
                ==> !shown_before(x, head[at - 1])) && forall|k: int|
                at <= k < head.len() ==> shown_before(x, #[trigger] head[k]);
        assert(head.insert(at, x).push(list.last()) =~= list.insert(at, x));
        assert forall|k: int| at <= k < list.len() implies shown_before(x, #[trigger] list[k]) by {
            if k < head.len() {
                assert(shown_before(x, head[k]));
            }
        }
        if at > 0 {
            assert(list[at - 1] == head[at - 1]);
        }
    } else {
        let at = list.len() as int;
        assert(list.push(x) =~= list.insert(at, x));
    }
}

/// The values of an item are the members of its fields, where it has any; the type of an item is one
/// of them, where it is a text.
pub proof fn law_values_of_an_item(item: JsonView, members: Seq<MemberView>)
    ensures
        member_of(item, "fields"@) is Some && json_of(member_of(item, "fields"@)->0) == Some(
            JsonView::Object(members),
        ) ==> values_of(item) == members,
        member_of(item, "fields"@) is None ==> values_of(item).len() == 0,
        values_of(item) == members ==> (lookup(members, "System.WorkItemType"@) is None
            ==> item_type(item).len() == 0),
        values_of(item) == members && lookup(members, "System.WorkItemType"@) is Some ==> match json_of(
            lookup(members, "System.WorkItemType"@)->0,
        ) {
            Some(JsonView::Text(t)) => item_type(item) == t,
            _ => item_type(item).len() == 0,
        },
{
}

/// A form names the field of each field attribute, in lower case: the first one in double quotes is
/// read, and what follows it is read alike.
pub proof fn law_form_names_a_field(s: Seq<char>, from: int, i: int, end: int)
    requires
        0 <= from,
        next_at(lower(s), "fieldname"@, from) == Some(i),
        i + 11 <= end < s.len(),
        s[i + 9] == '=',
        s[i + 10] == '"',
        s[end] == '"',
        forall|k: int| i + 11 <= k < end ==> #[trigger] s[k] != '"',
    ensures
        form_names(s, from) == (if trimmed(s.subrange(i + 11, end)).len() > 0 {
            seq![lower(trimmed(s.subrange(i + 11, end)))]
        } else {
            Seq::empty()
        }) + form_names(s, end + 1),
{
    reveal_strlit("fieldname");
    crate::text::lemma_next_at_is_occurrence(lower(s), "fieldname"@, from);
    lemma_quote_at(s, i + 11, end);
    assert(quoted_value(s, i + 9) == Some((i + 11, end)));
    assert(form_names(s, from) =~= (if trimmed(s.subrange(i + 11, end)).len() > 0 {
        seq![lower(trimmed(s.subrange(i + 11, end)))]
    } else {
        Seq::empty()
    }) + form_names(s, end + 1));
}

/// Without a field attribute, a form names nothing.
pub proof fn law_form_without_fields(s: Seq<char>)
    requires
        next_at(lower(s), "fieldname"@, 0) is None,
    ensures
        form_names(s, 0).len() == 0,
{
}

proof fn lemma_quote_at(s: Seq<char>, from: int, end: int)
    requires
        0 <= from <= end < s.len(),
        s[end] == '"',
        forall|k: int| from <= k < end ==> #[trigger] s[k] != '"',
    ensures
        next_at(s, seq!['"'], from) == Some(end),
    decreases end - from,
{
    if from == end {
        assert(s.subrange(end, end + 1) =~= seq!['"']);
    } else {
        assert(s.subrange(from, from + 1)[0] == s[from]);
        lemma_quote_at(s, from + 1, end);
    }
}

} // verus!
