//! What the kinds of fields promise.
use super::{draftable, field_kind_name, field_kind_named, FieldKind};
use vstd::prelude::*;

verus! {

/// Prose can be drafted; numbers, dates, choices and people cannot.
pub proof fn law_prose_can_be_drafted(kind: FieldKind)
    ensures
        kind is Markdown || kind is PlainText || kind is Text ==> draftable(kind),
        kind is Integer || kind is Float || kind is DateTime || kind is Boolean || kind is Select
            || kind is Identity ==> !draftable(kind),
{
}

/// A name stands for a kind only when it is the kind's own.
pub proof fn law_no_other_names_of_kinds(s: Seq<char>)
    ensures
        field_kind_named(s) matches Some(k) ==> field_kind_name(k) == s,
{
}

} // verus!
