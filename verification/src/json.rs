//! JSON values, one level at a time.
//!
//! A [`Json`] value holds its scalars as plain values and the parts of an array or an object as
//! JSON text, to be read in turn.
use crate::text::{same, views};
use serde_json::value::RawValue;
use std::collections::BTreeMap;
use vstd::prelude::*;

pub mod laws;

verus! {

/// One member of an object: its key, and the JSON text of its value.
#[derive(Debug, Clone, PartialEq, Eq)]
pub struct Member {
    pub key: String,
    pub raw: String,
}

#[verifier::ext_equal]
pub struct MemberView {
    pub key: Seq<char>,
    pub raw: Seq<char>,
}

impl View for Member {
    type V = MemberView;

    open spec fn view(&self) -> MemberView {
        MemberView { key: self.key@, raw: self.raw@ }
    }
}

/// A JSON value. Numbers are kept as their text, parts as JSON text.
#[derive(Debug, Clone, PartialEq, Eq)]
pub enum Json {
    Null,
    Bool(bool),
    Number(String),
    Text(String),
    Array(Vec<String>),
    Object(Vec<Member>),
}

pub enum JsonView {
    Null,
    Bool(bool),
    Number(Seq<char>),
    Text(Seq<char>),
    Array(Seq<Seq<char>>),
    Object(Seq<MemberView>),
}

impl View for Json {
    type V = JsonView;

    open spec fn view(&self) -> JsonView {
        match self {
            Json::Null => JsonView::Null,
            Json::Bool(b) => JsonView::Bool(*b),
            Json::Number(n) => JsonView::Number(n@),
            Json::Text(t) => JsonView::Text(t@),
            Json::Array(items) => JsonView::Array(views(items@)),
            Json::Object(members) => JsonView::Object(views(members@)),
        }
    }
}

/// The JSON value that a text stands for, as `serde_json` reads it; nothing where it is no JSON.
pub uninterp spec fn json_of(text: Seq<char>) -> Option<JsonView>;

/// Calls `serde_json::from_str` for a `serde_json::Value`, and writes the parts of an array or an
/// object back as JSON text. Claimed of it: the outcome depends on the text alone.
#[verifier::external_body]
pub(crate) fn parse_json(text: &str) -> (r: Option<Json>)
    ensures
        crate::text::opt_view(r) == json_of(text@),
{
    match serde_json::from_str::<serde_json::Value>(text).ok()? {
        serde_json::Value::Null => Some(Json::Null),
        serde_json::Value::Bool(b) => Some(Json::Bool(b)),
        serde_json::Value::Number(n) => Some(Json::Number(n.to_string())),
        serde_json::Value::String(t) => Some(Json::Text(t)),
        serde_json::Value::Array(a) => Some(Json::Array(a.iter().map(|v| v.to_string()).collect())),
        serde_json::Value::Object(o) => Some(
            Json::Object(o.into_iter().map(|(key, v)| Member { key, raw: v.to_string() }).collect()),
        ),
    }
}

/// The members of the object that a text stands for, in the order of their keys, as `serde_json`
/// splits it: of members with one key the last. Nothing where it is no object.
pub uninterp spec fn object_in(text: Seq<char>) -> Option<Seq<MemberView>>;

/// Calls `serde_json::from_str` for a map of `serde_json::value::RawValue`, which takes an object
/// apart and leaves the values as they are written. Claimed of it: the outcome depends on the text
/// alone.
#[verifier::external_body]
pub(crate) fn split_object(text: &str) -> (r: Option<Vec<Member>>)
    ensures
        match r {
            Some(members) => object_in(text@) == Some(views(members@)),
            None => object_in(text@) is None,
        },
{
    let parts: BTreeMap<String, &RawValue> = serde_json::from_str(text).ok()?;
    Some(parts.into_iter().map(|(key, v)| Member { key, raw: v.get().to_string() }).collect())
}

/// The JSON texts of the values in the array that a text stands for, as `serde_json` splits it.
/// Nothing where it is no array.
pub uninterp spec fn array_in(text: Seq<char>) -> Option<Seq<Seq<char>>>;

/// Calls `serde_json::from_str` for a list of `serde_json::value::RawValue`, which takes an array
/// apart and leaves the values as they are written. Claimed of it: the outcome depends on the text
/// alone.
#[verifier::external_body]
pub(crate) fn split_array(text: &str) -> (r: Option<Vec<String>>)
    ensures
        match r {
            Some(items) => array_in(text@) == Some(views(items@)),
            None => array_in(text@) is None,
        },
{
    let parts: Vec<&RawValue> = serde_json::from_str(text).ok()?;
    Some(parts.into_iter().map(|v| v.get().to_string()).collect())
}

/// The JSON value that a text stands for; `None` where it is no JSON.
pub fn read_json(text: &str) -> (r: Option<Json>)
    ensures
        crate::text::opt_view(r) == json_of(text@),
{
    parse_json(text)
}

/// The text of the first member with a key.
pub open spec fn lookup(members: Seq<MemberView>, key: Seq<char>) -> Option<Seq<char>>
    decreases members.len(),
{
    if members.len() == 0 {
        None
    } else if lookup(members.drop_last(), key) is Some {
        lookup(members.drop_last(), key)
    } else if members.last().key == key {
        Some(members.last().raw)
    } else {
        None
    }
}

/// The JSON text of the member `key` of an object.
pub open spec fn member_of(j: JsonView, key: Seq<char>) -> Option<Seq<char>> {
    match j {
        JsonView::Object(members) => lookup(members, key),
        _ => None,
    }
}

/// The text that a JSON text stands for, when it is a string.
pub open spec fn string_of_raw(raw: Option<Seq<char>>) -> Option<Seq<char>> {
    match raw {
        Some(t) => match json_of(t) {
            Some(JsonView::Text(s)) => Some(s),
            _ => None,
        },
        None => None,
    }
}

/// The member `key` of an object, when it is a string.
pub open spec fn text_member(j: JsonView, key: Seq<char>) -> Option<Seq<char>> {
    string_of_raw(member_of(j, key))
}

/// The text of the first member with a key.
pub fn find_member(members: &Vec<Member>, key: &str) -> (r: Option<String>)
    ensures
        crate::text::opt_view(r) == lookup(views(members@), key@),
{
    let ghost all = views(members@);
    let mut i: usize = 0;
    while i < members.len()
        invariant
            i <= members@.len(),
            all == views(members@),
            lookup(all.take(i as int), key@) is None,
        decreases members@.len() - i,
    {
        proof {
            crate::text::lemma_take_step(all, i as int);
        }
        if same(members[i].key.as_str(), key) {
            proof {
                crate::text::lemma_found_stays(|l: Seq<MemberView>| lookup(l, key@), all, i + 1);
            }
            return Some(members[i].raw.clone());
        }
        i += 1;
    }
    assert(all.take(i as int) =~= all);
    None
}

impl Json {
    /// The JSON text of the member `key` of an object.
    pub fn member(&self, key: &str) -> (r: Option<String>)
        ensures
            crate::text::opt_view(r) == member_of(self@, key@),
    {
        match self {
            Json::Object(members) => find_member(members, key),
            _ => None,
        }
    }

    /// The member `key` of an object, when it is a string.
    pub fn text_of(&self, key: &str) -> (r: Option<String>)
        ensures
            crate::text::opt_view(r) == text_member(self@, key@),
    {
        match self.member(key) {
            Some(raw) => match parse_json(raw.as_str()) {
                Some(Json::Text(t)) => Some(t),
                _ => None,
            },
            None => None,
        }
    }
}

} // verus!
