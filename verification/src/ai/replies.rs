//! What the answers of a language model mean.
//!
//! An answer counts only as far as it keeps to what was asked: a tag that is not allowed, a concern
//! of no known kind and a field that was not asked for are dropped.
use super::prompts::at_most;
use crate::flag::{TagSuggestion, TagSuggestionView};
use crate::json::{
    array_in, find_member, json_of, lookup, member_of, object_in, parse_json, split_array,
    split_object, string_of_raw, Json, JsonView, Member, MemberView,
};
use crate::rules::{carries, suggests, suggests_tag};
use crate::text::{
    chars_of, find_char, first_at, group_text, has_prefix, has_suffix, lemma_failure_stays,
    lemma_first_at_is, lemma_found_stays, lemma_take_step, lower, lowercase, opt_view, same,
    string_of, strip_prefix, strip_suffix, to_lower, to_lowercase, trim, trim_end, trimmed,
    trimmed_end, views,
};
use vstd::prelude::*;

pub mod laws;

verus! {

broadcast use group_text;

/// The most suggestions that an answer can make for an item.
pub const MAX_SUGGESTIONS: usize = 20;

/// The most suggestions that the answer of a small model can make for an item.
pub const MAX_SUGGESTIONS_SMALL: usize = 3;

/// The most concerns that an answer can raise about an item.
pub const MAX_AUDIT_ISSUES: usize = 4;

/// What the suggestions may exceed the required categories by.
pub const SUGGESTION_SLACK: usize = 7;

/// The most suggestions to show for an item when the rules set no number.
pub fn default_max_suggestions(required_len: usize) -> (r: usize)
    ensures
        r == (if required_len + 7 > usize::MAX {
            usize::MAX as int
        } else {
            required_len + 7
        }),
{
    // At least the slack, which is above the floor of six.
    required_len.saturating_add(SUGGESTION_SLACK)
}

// ---------------------------------------------------------------------------------------------
// Finding the JSON
// ---------------------------------------------------------------------------------------------

/// How far into objects and strings the reading of a text has come.
pub struct Reading {
    /// The braces that are open, those inside strings aside.
    pub depth: int,
    /// Whether a string is open.
    pub quoted: bool,
    /// Whether the next character of the string is escaped.
    pub escaped: bool,
}

impl Reading {
    /// Where the reading stands one character on.
    pub open spec fn step(self, c: char) -> Reading {
        if self.quoted {
            if self.escaped {
                Reading { escaped: false, ..self }
            } else if c == '\\' {
                Reading { escaped: true, ..self }
            } else {
                Reading { quoted: c != '"', ..self }
            }
        } else if c == '"' {
            Reading { quoted: true, ..self }
        } else if c == '{' {
            Reading { depth: self.depth + 1, ..self }
        } else if c == '}' {
            Reading { depth: self.depth - 1, ..self }
        } else {
            self
        }
    }
}

/// Where the reading of a text stands after all of it.
pub open spec fn reading_of(s: Seq<char>) -> Reading
    decreases s.len(),
{
    if s.len() == 0 {
        Reading { depth: 0, quoted: false, escaped: false }
    } else {
        reading_of(s.drop_last()).step(s.last())
    }
}

struct Reader {
    depth: i128,
    quoted: bool,
    escaped: bool,
}

impl Reader {
    spec fn at(self) -> Reading {
        Reading { depth: self.depth as int, quoted: self.quoted, escaped: self.escaped }
    }

    fn step(&mut self, c: char)
        requires
            i128::MIN < old(self).depth < i128::MAX,
        ensures
            final(self).at() == old(self).at().step(c),
    {
        if self.quoted {
            if self.escaped {
                self.escaped = false;
            } else if c == '\\' {
                self.escaped = true;
            } else {
                self.quoted = c != '"';
            }
        } else if c == '"' {
            self.quoted = true;
        } else if c == '{' {
            self.depth += 1;
        } else if c == '}' {
            self.depth -= 1;
        }
    }
}

/// The length of the object at the start of a text: up to where its first brace is closed.
pub open spec fn object_len(s: Seq<char>) -> Option<int>
    decreases s.len(),
{
    if s.len() == 0 {
        None
    } else if object_len(s.drop_last()) is Some {
        object_len(s.drop_last())
    } else if reading_of(s).depth == 0 {
        Some(s.len() as int)
    } else {
        None
    }
}

/// The first object in an answer, from the first opening brace to the one that closes it; without
/// such an object, all of the answer.
pub open spec fn json_part(s: Seq<char>) -> Seq<char> {
    match first_at(s, '{') {
        Some(from) => match object_len(s.skip(from)) {
            Some(len) => s.subrange(from, from + len),
            None => trimmed(s),
        },
        None => trimmed(s),
    }
}

/// The first object in an answer that may hold words around it; without one, all of the answer.
pub fn extract_json(s: &str) -> (r: String)
    ensures
        r@ == json_part(s@),
{
    let cs: Vec<char> = chars_of(s);
    let from: usize = match find_char(&cs, '{') {
        Some(from) => from,
        None => {
            return trim(s);
        },
    };
    proof {
        lemma_first_at_is(s@, '{');
    }
    let ghost rest = s@.skip(from as int);
    let mut reader: Reader = Reader { depth: 0, quoted: false, escaped: false };
    let mut i: usize = from;
    assert(rest.take(0) =~= Seq::<char>::empty());
    while i < cs.len()
        invariant
            from <= i <= cs@.len(),
            cs@ == s@,
            rest == s@.skip(from as int),
            first_at(s@, '{') == Some(from as int),
            from < cs@.len(),
            rest[0] == '{',
            reading_of(rest.take(i - from)) == reader.at(),
            object_len(rest.take(i - from)) is None,
            from - i <= reader.depth <= i - from,
        decreases cs@.len() - i,
    {
        proof {
            lemma_take_step(rest, i - from);
        }
        let c: char = cs[i];
        assert(rest.take(i - from + 1).last() == c);
        reader.step(c);
        i += 1;
        if reader.depth == 0 {
            proof {
                lemma_found_stays(|l: Seq<char>| object_len(l), rest, i - from);
            }
            return string_of(&cs, from, i);
        }
    }
    assert(rest.take(i - from) =~= rest);
    trim(s)
}

/// The first object is pulled out of an answer, whatever stands around it.
pub proof fn law_first_object_is_pulled_out(before: Seq<char>, object: Seq<char>, after: Seq<char>)
    requires
        !before.contains('{'),
        object.len() > 0,
        object[0] == '{',
        object_len(object) == Some(object.len() as int),
    ensures
        json_part(before + object + after) == object,
{
    let s = before + object + after;
    lemma_first_at_is(s, '{');
    assert(s[before.len() as int] == '{');
    let from = first_at(s, '{')->0;
    if from < before.len() {
        assert(before[from] == '{');
    }
    assert(s.skip(from) =~= object + after);
    assert((object + after).take(object.len() as int) =~= object);
    lemma_found_stays(|l: Seq<char>| object_len(l), object + after, object.len() as int);
    assert(s.subrange(from, from + object.len()) =~= object);
}

/// The text of the string that began last, as it is written.
pub open spec fn last_string(s: Seq<char>) -> Seq<char>
    decreases s.len(),
{
    if s.len() == 0 {
        s
    } else if reading_of(s.drop_last()).quoted {
        last_string(s.drop_last()).push(s.last())
    } else if s.last() == '"' {
        seq!['"']
    } else {
        last_string(s.drop_last())
    }
}

/// The keys of an object, as they are written: the strings before its own colons.
pub open spec fn keys_in(s: Seq<char>) -> Seq<Seq<char>>
    decreases s.len(),
{
    if s.len() == 0 {
        Seq::empty()
    } else {
        let at = reading_of(s.drop_last());
        if s.last() == ':' && !at.quoted && at.depth == 1 {
            keys_in(s.drop_last()).push(last_string(s.drop_last()))
        } else {
            keys_in(s.drop_last())
        }
    }
}

fn find_keys(s: &str) -> (r: Vec<String>)
    ensures
        views(r@) == keys_in(s@),
{
    let cs: Vec<char> = chars_of(s);
    let mut keys: Vec<String> = Vec::new();
    let mut last: String = String::new();
    let mut reader: Reader = Reader { depth: 0, quoted: false, escaped: false };
    let mut i: usize = 0;
    assert(last@ =~= last_string(cs@.take(0)));
    while i < cs.len()
        invariant
            i <= cs@.len(),
            cs@ == s@,
            reading_of(s@.take(i as int)) == reader.at(),
            -i <= reader.depth <= i,
            last@ == last_string(s@.take(i as int)),
            views(keys@) == keys_in(s@.take(i as int)),
        decreases cs@.len() - i,
    {
        proof {
            lemma_take_step(s@, i as int);
        }
        let c: char = cs[i];
        assert(s@.take(i + 1).last() == c);
        if reader.quoted {
            last.push(c);
        } else if c == '"' {
            last = String::new();
            last.push(c);
            assert(last@ =~= seq!['"']);
        } else if c == ':' && reader.depth == 1 {
            keys.push(last.clone());
        }
        reader.step(c);
        i += 1;
    }
    assert(s@.take(i as int) =~= s@);
    keys
}

/// What a record is read from: the members of an object, with all its keys as they are written, or
/// the values of an array.
#[derive(Debug, Clone)]
pub enum Record {
    Named { members: Vec<Member>, keys: Vec<String> },
    Listed(Vec<String>),
}

pub enum RecordView {
    Named { members: Seq<MemberView>, keys: Seq<Seq<char>> },
    Listed(Seq<Seq<char>>),
}

impl View for Record {
    type V = RecordView;

    open spec fn view(&self) -> RecordView {
        match self {
            Record::Named { members, keys } => RecordView::Named {
                members: views(members@),
                keys: views(keys@),
            },
            Record::Listed(items) => RecordView::Listed(views(items@)),
        }
    }
}

/// What a record is read from in a JSON text; nothing where it is neither object nor array.
pub open spec fn record_of(text: Seq<char>) -> Option<RecordView> {
    match object_in(text) {
        Some(members) => Some(RecordView::Named { members, keys: keys_in(text) }),
        None => match array_in(text) {
            Some(items) => Some(RecordView::Listed(items)),
            None => None,
        },
    }
}

/// What a record is read from in a JSON text; `None` where it is neither object nor array.
pub fn read_record(text: &str) -> (r: Option<Record>)
    ensures
        opt_view(r) == record_of(text@),
{
    match split_object(text) {
        Some(members) => Some(Record::Named { members, keys: find_keys(text) }),
        None => match split_array(text) {
            Some(items) => Some(Record::Listed(items)),
            None => None,
        },
    }
}

/// How often a name is among keys as they are written.
pub open spec fn times(keys: Seq<Seq<char>>, name: Seq<char>) -> nat
    decreases keys.len(),
{
    if keys.len() == 0 {
        0
    } else {
        times(keys.drop_last(), name) + if string_of_raw(Some(keys.last())) == Some(name) {
            1nat
        } else {
            0nat
        }
    }
}

/// Whether a record can be read for fields with names, none of which is required: no name comes
/// twice, or there are no more values than names.
pub open spec fn is_record(r: RecordView, names: Seq<Seq<char>>) -> bool {
    match r {
        RecordView::Named { members: _, keys } => forall|i: int|
            0 <= i < names.len() ==> times(keys, #[trigger] names[i]) <= 1,
        RecordView::Listed(items) => items.len() <= names.len(),
    }
}

/// The JSON text of one field of a record: by its name in an object, by its place in an array.
pub open spec fn part_of(r: RecordView, name: Seq<char>, place: int) -> Option<Seq<char>> {
    match r {
        RecordView::Named { members, keys: _ } => lookup(members, name),
        RecordView::Listed(items) => if 0 <= place < items.len() {
            Some(items[place])
        } else {
            None
        },
    }
}

fn count_key(keys: &Vec<String>, name: &str) -> (r: usize)
    ensures
        r == times(views(keys@), name@),
{
    let ghost all = views(keys@);
    let mut n: usize = 0;
    let mut i: usize = 0;
    while i < keys.len()
        invariant
            i <= keys@.len(),
            all == views(keys@),
            n == times(all.take(i as int), name@),
            n <= i,
        decreases keys@.len() - i,
    {
        proof {
            lemma_take_step(all, i as int);
            assert(all[i as int] == keys@[i as int]@);
        }
        match read_string(keys[i].as_str()) {
            Some(key) => if same(key.as_str(), name) {
                n += 1;
            },
            None => {},
        }
        i += 1;
    }
    assert(all.take(i as int) =~= all);
    n
}

fn reads_as_record(r: &Record, names: &Vec<&str>) -> (ok: bool)
    ensures
        ok == is_record(r@, views(names@)),
{
    match r {
        Record::Named { members: _, keys } => {
            let mut i: usize = 0;
            while i < names.len()
                invariant
                    i <= names@.len(),
                    r@ is Named,
                    r@->keys == views(keys@),
                    forall|j: int|
                        0 <= j < i ==> times(views(keys@), #[trigger] views(names@)[j]) <= 1,
                decreases names@.len() - i,
            {
                if count_key(keys, names[i]) > 1 {
                    assert(times(views(keys@), views(names@)[i as int]) > 1);
                    return false;
                }
                i += 1;
            }
            true
        },
        Record::Listed(items) => items.len() <= names.len(),
    }
}

fn part(r: &Record, name: &str, place: usize) -> (p: Option<String>)
    ensures
        opt_view(p) == part_of(r@, name@, place as int),
{
    match r {
        Record::Named { members, keys: _ } => find_member(members, name),
        Record::Listed(items) => if place < items.len() {
            Some(items[place].clone())
        } else {
            None
        },
    }
}

/// The strings that JSON texts stand for, when each is a string.
pub open spec fn strings_of(raws: Seq<Seq<char>>) -> Option<Seq<Seq<char>>>
    decreases raws.len(),
{
    if raws.len() == 0 {
        Some(Seq::empty())
    } else {
        match (strings_of(raws.drop_last()), string_of_raw(Some(raws.last()))) {
            (Some(head), Some(s)) => Some(head.push(s)),
            _ => None,
        }
    }
}

fn read_string(raw: &str) -> (r: Option<String>)
    ensures
        opt_view(r) == string_of_raw(Some(raw@)),
{
    match parse_json(raw) {
        Some(Json::Text(t)) => Some(t),
        _ => None,
    }
}

/// The strings of a list that need not be there.
pub open spec fn optional_strings(raw: Option<Seq<char>>) -> Option<Seq<Seq<char>>> {
    match raw {
        None => Some(Seq::empty()),
        Some(t) => match array_in(t) {
            Some(items) => strings_of(items),
            None => None,
        },
    }
}

fn read_strings(raw: &Option<String>) -> (r: Option<Vec<String>>)
    ensures
        match r {
            Some(list) => optional_strings(opt_view(*raw)) == Some(views(list@)),
            None => optional_strings(opt_view(*raw)) is None,
        },
{
    let text: &String = match raw {
        Some(t) => t,
        None => {
            return Some(Vec::new());
        },
    };
    let items: Vec<String> = match split_array(text.as_str()) {
        Some(items) => items,
        None => {
            return None;
        },
    };
    let ghost all = views(items@);
    let mut out: Vec<String> = Vec::new();
    let mut i: usize = 0;
    while i < items.len()
        invariant
            i <= items@.len(),
            all == views(items@),
            array_in(text@) == Some(all),
            opt_view(*raw) == Some(text@),
            strings_of(all.take(i as int)) == Some(views(out@)),
        decreases items@.len() - i,
    {
        proof {
            lemma_take_step(all, i as int);
        }
        match read_string(items[i].as_str()) {
            Some(s) => {
                out.push(s);
            },
            None => {
                proof {
                    lemma_failure_stays(|l: Seq<Seq<char>>| strings_of(l), all, i + 1);
                }
                return None;
            },
        }
        i += 1;
    }
    assert(all.take(i as int) =~= all);
    Some(out)
}

/// A text that need not be there, and may be null.
pub open spec fn optional_text(raw: Option<Seq<char>>) -> Option<Option<Seq<char>>> {
    match raw {
        None => Some(None),
        Some(t) => match json_of(t) {
            Some(JsonView::Null) => Some(None),
            Some(JsonView::Text(s)) => Some(Some(s)),
            _ => None,
        },
    }
}

/// A text that is empty when it is not there.
pub open spec fn text_or_nothing(raw: Option<Seq<char>>) -> Option<Seq<char>> {
    match raw {
        None => Some(Seq::empty()),
        Some(t) => string_of_raw(Some(t)),
    }
}

fn read_text_or_nothing(raw: &Option<String>) -> (r: Option<String>)
    ensures
        opt_view(r) == text_or_nothing(opt_view(*raw)),
{
    match raw {
        None => {
            let r: String = String::new();
            assert(r@ =~= Seq::<char>::empty());
            Some(r)
        },
        Some(t) => read_string(t.as_str()),
    }
}

// ---------------------------------------------------------------------------------------------
// Tags
// ---------------------------------------------------------------------------------------------

/// An answer that proposes tags.
#[derive(Debug, Clone)]
pub struct ModelReply {
    pub tags: Vec<String>,
    pub rationale: Option<String>,
}

#[verifier::ext_equal]
pub struct ModelReplyView {
    pub tags: Seq<Seq<char>>,
    pub rationale: Option<Seq<char>>,
}

impl View for ModelReply {
    type V = ModelReplyView;

    open spec fn view(&self) -> ModelReplyView {
        ModelReplyView { tags: views(self.tags@), rationale: opt_view(self.rationale) }
    }
}

/// The answer that says nothing.
pub open spec fn no_reply() -> ModelReplyView {
    ModelReplyView { tags: Seq::empty(), rationale: None }
}

/// The fields of an answer that proposes tags.
pub open spec fn reply_names() -> Seq<Seq<char>> {
    seq!["tags"@, "rationale"@]
}

/// The answer in a record; one that says nothing where the record has another shape.
pub open spec fn reply_in(j: Option<RecordView>) -> ModelReplyView {
    match j {
        Some(v) => if is_record(v, reply_names()) {
            match (
                optional_strings(part_of(v, "tags"@, 0)),
                optional_text(part_of(v, "rationale"@, 1)),
            ) {
                (Some(tags), Some(rationale)) => ModelReplyView { tags, rationale },
                _ => no_reply(),
            }
        } else {
            no_reply()
        },
        None => no_reply(),
    }
}

fn empty_reply() -> (r: ModelReply)
    ensures
        r@ == no_reply(),
{
    let r: ModelReply = ModelReply { tags: Vec::new(), rationale: None };
    assert(r@ =~= no_reply());
    r
}

/// The answer in a record; one that says nothing where the record has another shape.
pub fn read_reply(j: &Option<Record>) -> (r: ModelReply)
    ensures
        r@ == reply_in(opt_view(*j)),
{
    let v: &Record = match j {
        Some(v) => v,
        None => {
            return empty_reply();
        },
    };
    let names: Vec<&str> = vec!["tags", "rationale"];
    assert(views(names@) =~= reply_names());
    if !reads_as_record(v, &names) {
        return empty_reply();
    }
    let tags: Vec<String> = match read_strings(&part(v, "tags", 0)) {
        Some(t) => t,
        None => {
            return empty_reply();
        },
    };
    let rationale: Option<String> = match part(v, "rationale", 1) {
        None => None,
        Some(raw) => match parse_json(raw.as_str()) {
            Some(Json::Null) => None,
            Some(Json::Text(t)) => Some(t),
            _ => {
                return empty_reply();
            },
        },
    };
    ModelReply { tags, rationale }
}

/// The allowed tag, in its own spelling, that a lower-case key stands for: the last that does.
pub open spec fn canonical(allowed: Seq<Seq<char>>, key: Seq<char>) -> Option<Seq<char>>
    decreases allowed.len(),
{
    if allowed.len() == 0 {
        None
    } else if lowercase(allowed.last()) == key {
        Some(allowed.last())
    } else {
        canonical(allowed.drop_last(), key)
    }
}

fn find_canonical(allowed: &[String], key: &str) -> (r: Option<String>)
    ensures
        opt_view(r) == canonical(views(allowed@), key@),
{
    let ghost all = views(allowed@);
    let mut n: usize = allowed.len();
    assert(all.take(n as int) =~= all);
    while n > 0
        invariant
            n <= allowed@.len(),
            all == views(allowed@),
            canonical(all, key@) == canonical(all.take(n as int), key@),
        decreases n,
    {
        proof {
            lemma_take_step(all, n - 1);
        }
        if same(to_lowercase(allowed[n - 1].as_str()).as_str(), key) {
            return Some(allowed[n - 1].clone());
        }
        n -= 1;
    }
    None
}

/// Why an answer's tags are suggested: its rationale, or that it is the model's suggestion.
pub open spec fn reason_of(rationale: Option<Seq<char>>) -> Seq<char> {
    match rationale {
        Some(t) => if trimmed(t).len() > 0 {
            trimmed(t)
        } else {
            "AI suggestion"@
        },
        None => "AI suggestion"@,
    }
}

/// The suggestions that proposed tags make: each that is allowed, once, in the allowed spelling.
pub open spec fn picked(
    tags: Seq<Seq<char>>,
    allowed: Seq<Seq<char>>,
    reason: Seq<char>,
) -> Seq<TagSuggestionView>
    decreases tags.len(),
{
    if tags.len() == 0 {
        Seq::empty()
    } else {
        let head = picked(tags.drop_last(), allowed, reason);
        match canonical(allowed, lowercase(trimmed(tags.last()))) {
            Some(tag) => if suggests(head, tag) {
                head
            } else {
                head.push(TagSuggestionView { tag, reasons: seq![reason], replaces: None })
            },
            None => head,
        }
    }
}

/// The suggestions of an answer, at most `limit`.
pub open spec fn suggestions_of(
    reply: ModelReplyView,
    allowed: Seq<Seq<char>>,
    limit: nat,
) -> Seq<TagSuggestionView> {
    at_most(picked(reply.tags, allowed, reason_of(reply.rationale)), limit)
}

/// The suggestions of an answer, at most `limit`.
pub fn pick_suggestions(reply: &ModelReply, allowed: &[String], limit: usize) -> (r: Vec<
    TagSuggestion,
>)
    ensures
        views(r@) == suggestions_of(reply@, views(allowed@), limit as nat),
{
    let mut reason: String = "AI suggestion".to_owned();
    match &reply.rationale {
        Some(t) => {
            let t: String = trim(t.as_str());
            if !t.as_str().is_empty() {
                reason = t;
            }
        },
        None => {},
    }
    assert(reason@ == reason_of(reply@.rationale));
    let ghost all = reply@.tags;
    let mut out: Vec<TagSuggestion> = Vec::new();
    let mut i: usize = 0;
    while i < reply.tags.len()
        invariant
            i <= reply.tags@.len(),
            all == views(reply.tags@),
            views(out@) == picked(all.take(i as int), views(allowed@), reason@),
        decreases reply.tags@.len() - i,
    {
        proof {
            lemma_take_step(all, i as int);
        }
        let key: String = to_lowercase(trim(reply.tags[i].as_str()).as_str());
        match find_canonical(allowed, key.as_str()) {
            Some(tag) => {
                if !suggests_tag(&out, tag.as_str()) {
                    let mut reasons: Vec<String> = Vec::new();
                    reasons.push(reason.clone());
                    let s: TagSuggestion = TagSuggestion { tag, reasons, replaces: None };
                    assert(s@.reasons =~= seq![reason@]);
                    out.push(s);
                }
            },
            None => {},
        }
        i += 1;
    }
    assert(all.take(i as int) =~= all);
    let ghost kept = views(out@);
    if out.len() > limit {
        out.truncate(limit);
        assert(views(out@) =~= kept.take(limit as int));
    }
    out
}

/// The suggestions in a model's answer, at most `limit`.
pub fn parse_suggestions_up_to(content: &str, allowed: &[String], limit: usize) -> (r: Vec<
    TagSuggestion,
>)
    ensures
        views(r@) == suggestions_of(
            reply_in(record_of(json_part(content@))),
            views(allowed@),
            limit as nat,
        ),
{
    let j: Option<Record> = read_record(extract_json(content).as_str());
    let reply: ModelReply = read_reply(&j);
    pick_suggestions(&reply, allowed, limit)
}

/// The suggestions in a model's answer.
pub fn parse_suggestions(content: &str, allowed: &[String]) -> (r: Vec<TagSuggestion>)
    ensures
        views(r@) == suggestions_of(
            reply_in(record_of(json_part(content@))),
            views(allowed@),
            20,
        ),
{
    parse_suggestions_up_to(content, allowed, MAX_SUGGESTIONS)
}

/// The suggestions of tags that an item does not have.
pub open spec fn without_carried(
    list: Seq<TagSuggestionView>,
    tags: Seq<Seq<char>>,
) -> Seq<TagSuggestionView>
    decreases list.len(),
{
    if list.len() == 0 {
        Seq::empty()
    } else if carries(tags, list.last().tag) {
        without_carried(list.drop_last(), tags)
    } else {
        without_carried(list.drop_last(), tags).push(list.last())
    }
}

/// The suggestions of tags that an item does not have.
pub fn drop_carried(list: Vec<TagSuggestion>, tags: &Vec<String>) -> (r: Vec<TagSuggestion>)
    ensures
        views(r@) == without_carried(views(list@), views(tags@)),
{
    let ghost all = views(list@);
    let mut out: Vec<TagSuggestion> = Vec::new();
    let mut i: usize = 0;
    while i < list.len()
        invariant
            i <= list@.len(),
            all == views(list@),
            views(out@) == without_carried(all.take(i as int), views(tags@)),
        decreases list@.len() - i,
    {
        proof {
            lemma_take_step(all, i as int);
        }
        if !crate::rules::carries_tag(tags, list[i].tag.as_str()) {
            out.push(list[i].clone());
        }
        i += 1;
    }
    assert(all.take(i as int) =~= all);
    out
}

proof fn lemma_canonical(allowed: Seq<Seq<char>>, key: Seq<char>)
    ensures
        match canonical(allowed, key) {
            Some(t) => allowed.contains(t) && lowercase(t) == key,
            None => forall|i: int| 0 <= i < allowed.len() ==> lowercase(#[trigger] allowed[i]) != key,
        },
    decreases allowed.len(),
{
    if allowed.len() > 0 {
        lemma_canonical(allowed.drop_last(), key);
        if lowercase(allowed.last()) == key {
            assert(allowed[allowed.len() - 1] == allowed.last());
        } else {
            match canonical(allowed.drop_last(), key) {
                Some(t) => {
                    let i = choose|i: int|
                        0 <= i < allowed.len() - 1 && allowed.drop_last()[i] == t;
                    assert(allowed[i] == t);
                },
                None => {
                    assert forall|i: int| 0 <= i < allowed.len() implies lowercase(
                        #[trigger] allowed[i],
                    ) != key by {
                        if i < allowed.len() - 1 {
                            assert(allowed.drop_last()[i] == allowed[i]);
                        }
                    }
                },
            }
        }
    }
}

proof fn lemma_picked(tags: Seq<Seq<char>>, allowed: Seq<Seq<char>>, reason: Seq<char>)
    ensures
        forall|i: int|
            0 <= i < picked(tags, allowed, reason).len() ==> allowed.contains(
                (#[trigger] picked(tags, allowed, reason)[i]).tag,
            ),
        forall|i: int, j: int|
            0 <= i < j < picked(tags, allowed, reason).len() ==> lowercase(
                (#[trigger] picked(tags, allowed, reason)[i]).tag,
            ) != lowercase((#[trigger] picked(tags, allowed, reason)[j]).tag),
    decreases tags.len(),
{
    if tags.len() > 0 {
        lemma_picked(tags.drop_last(), allowed, reason);
        lemma_canonical(allowed, lowercase(trimmed(tags.last())));
    }
}

/// Whatever a model answers, only allowed tags are suggested, none of them twice, and no more than
/// the limit.
pub proof fn law_only_allowed_tags(reply: ModelReplyView, allowed: Seq<Seq<char>>, limit: nat)
    ensures
        suggestions_of(reply, allowed, limit).len() <= limit,
        forall|i: int|
            0 <= i < suggestions_of(reply, allowed, limit).len() ==> allowed.contains(
                (#[trigger] suggestions_of(reply, allowed, limit)[i]).tag,
            ),
        forall|i: int, j: int|
            0 <= i < j < suggestions_of(reply, allowed, limit).len() ==> lowercase(
                (#[trigger] suggestions_of(reply, allowed, limit)[i]).tag,
            ) != lowercase((#[trigger] suggestions_of(reply, allowed, limit)[j]).tag),
{
    lemma_picked(reply.tags, allowed, reason_of(reply.rationale));
}

/// No tag that an item has is suggested for it, and every other suggestion stays.
pub proof fn law_no_carried_tag(list: Seq<TagSuggestionView>, tags: Seq<Seq<char>>)
    ensures
        forall|i: int|
            0 <= i < without_carried(list, tags).len() ==> !carries(
                tags,
                (#[trigger] without_carried(list, tags)[i]).tag,
            ),
        forall|i: int|
            0 <= i < list.len() && !carries(tags, (#[trigger] list[i]).tag)
                ==> without_carried(list, tags).contains(list[i]),
    decreases list.len(),
{
    if list.len() > 0 {
        let head = list.drop_last();
        law_no_carried_tag(head, tags);
        assert forall|i: int|
            0 <= i < list.len() && !carries(tags, (#[trigger] list[i]).tag) implies without_carried(
            list,
            tags,
        ).contains(list[i]) by {
            let all = without_carried(list, tags);
            if i < list.len() - 1 {
                assert(head[i] == list[i]);
                let k = choose|k: int|
                    0 <= k < without_carried(head, tags).len() && without_carried(head, tags)[k]
                        == list[i];
                assert(all[k] == list[i]);
            } else {
                assert(all[all.len() - 1] == list[i]);
            }
        }
    }
}

// ---------------------------------------------------------------------------------------------
// Concerns
// ---------------------------------------------------------------------------------------------

/// What is wrong with an item.
#[derive(Debug, Clone, Copy, PartialEq, Eq, Hash, Structural)]
pub enum AuditKind {
    /// It cannot be told what the work is.
    Unclear,
    /// The title says nothing.
    BadTitle,
    /// What the item says is wrong in itself.
    BadData,
}

/// The name of a kind of concern.
pub open spec fn kind_name(k: AuditKind) -> Seq<char> {
    match k {
        AuditKind::Unclear => "unclear"@,
        AuditKind::BadTitle => "bad_title"@,
        AuditKind::BadData => "bad_data"@,
    }
}

/// A text with its spaces and hyphens as underscores.
pub open spec fn underscored(s: Seq<char>) -> Seq<char> {
    Seq::new(
        s.len(),
        |i: int|
            if s[i] == ' ' || s[i] == '-' {
                '_'
            } else {
                s[i]
            },
    )
}

/// The kind of concern that a text names.
pub open spec fn kind_named(s: Seq<char>) -> Option<AuditKind> {
    let k = underscored(lower(trimmed(s)));
    if k == "unclear"@ || k == "vague"@ || k == "underspecified"@ {
        Some(AuditKind::Unclear)
    } else if k == "bad_title"@ || k == "title"@ || k == "placeholder_title"@ {
        Some(AuditKind::BadTitle)
    } else if k == "bad_data"@ || k == "data"@ || k == "invalid"@ || k == "contradiction"@ {
        Some(AuditKind::BadData)
    } else {
        None
    }
}

fn underscore(s: &str) -> (r: String)
    ensures
        r@ == underscored(s@),
{
    let cs: Vec<char> = chars_of(s);
    let mut out: Vec<char> = Vec::new();
    let mut i: usize = 0;
    while i < cs.len()
        invariant
            i <= cs@.len(),
            cs@ == s@,
            out@ == underscored(s@).take(i as int),
        decreases cs@.len() - i,
    {
        if cs[i] == ' ' || cs[i] == '-' {
            out.push('_');
        } else {
            out.push(cs[i]);
        }
        assert(out@ =~= underscored(s@).take(i + 1));
        i += 1;
    }
    assert(out@ =~= underscored(s@));
    let r: String = string_of(&out, 0, out.len());
    assert(r@ =~= underscored(s@));
    r
}

impl AuditKind {
    /// The name of this kind of concern.
    pub fn as_str(self) -> (r: &'static str)
        ensures
            r@ == kind_name(self),
    {
        match self {
            AuditKind::Unclear => "unclear",
            AuditKind::BadTitle => "bad_title",
            AuditKind::BadData => "bad_data",
        }
    }

    /// The kind of concern that a text names; ASCII case aside, and with spaces or hyphens for
    /// underscores.
    pub fn parse(s: &str) -> (r: Option<AuditKind>)
        ensures
            r == kind_named(s@),
    {
        let k: String = underscore(to_lower(trim(s).as_str()).as_str());
        let k: &str = k.as_str();
        if same(k, "unclear") || same(k, "vague") || same(k, "underspecified") {
            Some(AuditKind::Unclear)
        } else if same(k, "bad_title") || same(k, "title") || same(k, "placeholder_title") {
            Some(AuditKind::BadTitle)
        } else if same(k, "bad_data") || same(k, "data") || same(k, "invalid") || same(
            k,
            "contradiction",
        ) {
            Some(AuditKind::BadData)
        } else {
            None
        }
    }
}

/// One concern about an item.
#[derive(Debug, Clone, PartialEq, Eq)]
pub struct AuditIssue {
    pub kind: AuditKind,
    pub detail: String,
}

#[verifier::ext_equal]
pub struct AuditIssueView {
    pub kind: AuditKind,
    pub detail: Seq<char>,
}

impl View for AuditIssue {
    type V = AuditIssueView;

    open spec fn view(&self) -> AuditIssueView {
        AuditIssueView { kind: self.kind, detail: self.detail@ }
    }
}

/// Two texts that an answer gives for one thing.
#[derive(Debug, Clone, PartialEq, Eq)]
pub struct TextPair {
    pub first: String,
    pub second: String,
}

#[verifier::ext_equal]
pub struct TextPairView {
    pub first: Seq<char>,
    pub second: Seq<char>,
}

impl View for TextPair {
    type V = TextPairView;

    open spec fn view(&self) -> TextPairView {
        TextPairView { first: self.first@, second: self.second@ }
    }
}

/// The pair in a record; a text that is not there is empty.
pub open spec fn pair_in(j: Option<RecordView>, first: Seq<char>, second: Seq<char>) -> Option<
    TextPairView,
> {
    match j {
        Some(v) => if is_record(v, seq![first, second]) {
            match (text_or_nothing(part_of(v, first, 0)), text_or_nothing(part_of(v, second, 1))) {
                (Some(a), Some(b)) => Some(TextPairView { first: a, second: b }),
                _ => None,
            }
        } else {
            None
        },
        None => None,
    }
}

fn read_pair(raw: &str, first: &str, second: &str) -> (r: Option<TextPair>)
    ensures
        opt_view(r) == pair_in(record_of(raw@), first@, second@),
{
    let v: Record = match read_record(raw) {
        Some(v) => v,
        None => {
            return None;
        },
    };
    let names: Vec<&str> = vec![first, second];
    assert(views(names@) =~= seq![first@, second@]);
    if !reads_as_record(&v, &names) {
        return None;
    }
    match (
        read_text_or_nothing(&part(&v, first, 0)),
        read_text_or_nothing(&part(&v, second, 1)),
    ) {
        (Some(a), Some(b)) => Some(TextPair { first: a, second: b }),
        _ => None,
    }
}

/// The pairs that JSON texts stand for, when each is one.
pub open spec fn pairs_of(raws: Seq<Seq<char>>, first: Seq<char>, second: Seq<char>) -> Option<
    Seq<TextPairView>,
>
    decreases raws.len(),
{
    if raws.len() == 0 {
        Some(Seq::empty())
    } else {
        match (
            pairs_of(raws.drop_last(), first, second),
            pair_in(record_of(raws.last()), first, second),
        ) {
            (Some(head), Some(p)) => Some(head.push(p)),
            _ => None,
        }
    }
}

/// The pairs in the list `name` of a record; none where the record has another shape.
pub open spec fn pairs_in(
    j: Option<RecordView>,
    name: Seq<char>,
    first: Seq<char>,
    second: Seq<char>,
) -> Seq<TextPairView> {
    match j {
        Some(v) => if is_record(v, seq![name]) {
            match part_of(v, name, 0) {
                Some(raw) => match array_in(raw) {
                    Some(items) => match pairs_of(items, first, second) {
                        Some(list) => list,
                        None => Seq::empty(),
                    },
                    None => Seq::empty(),
                },
                None => Seq::empty(),
            }
        } else {
            Seq::empty()
        },
        None => Seq::empty(),
    }
}

fn no_pairs() -> (r: Vec<TextPair>)
    ensures
        views(r@) == Seq::<TextPairView>::empty(),
{
    let r: Vec<TextPair> = Vec::new();
    assert(views(r@) =~= Seq::<TextPairView>::empty());
    r
}

/// The pairs in the list `name` of a record; none where the record has another shape.
pub fn read_pairs(j: &Option<Record>, name: &str, first: &str, second: &str) -> (r: Vec<TextPair>)
    ensures
        views(r@) == pairs_in(opt_view(*j), name@, first@, second@),
{
    let v: &Record = match j {
        Some(v) => v,
        None => {
            return no_pairs();
        },
    };
    let names: Vec<&str> = vec![name];
    assert(views(names@) =~= seq![name@]);
    if !reads_as_record(v, &names) {
        return no_pairs();
    }
    let raw: String = match part(v, name, 0) {
        Some(raw) => raw,
        None => {
            return no_pairs();
        },
    };
    let items: Vec<String> = match split_array(raw.as_str()) {
        Some(items) => items,
        None => {
            return no_pairs();
        },
    };
    let ghost all = views(items@);
    let mut out: Vec<TextPair> = Vec::new();
    let mut i: usize = 0;
    while i < items.len()
        invariant
            i <= items@.len(),
            all == views(items@),
            opt_view(*j) is Some,
            is_record(opt_view(*j)->0, seq![name@]),
            part_of(opt_view(*j)->0, name@, 0) == Some(raw@),
            array_in(raw@) == Some(all),
            pairs_of(all.take(i as int), first@, second@) == Some(views(out@)),
        decreases items@.len() - i,
    {
        proof {
            lemma_take_step(all, i as int);
        }
        match read_pair(items[i].as_str(), first, second) {
            Some(p) => {
                out.push(p);
            },
            None => {
                proof {
                    lemma_failure_stays(
                        |l: Seq<Seq<char>>| pairs_of(l, first@, second@),
                        all,
                        i + 1,
                    );
                }
                return no_pairs();
            },
        }
        i += 1;
    }
    assert(all.take(i as int) =~= all);
    out
}

/// Whether a concern was raised already, case aside.
pub open spec fn raised(list: Seq<AuditIssueView>, kind: AuditKind, detail: Seq<char>) -> bool {
    exists|i: int|
        0 <= i < list.len() && (#[trigger] list[i]).kind == kind && lowercase(list[i].detail)
            == lowercase(detail)
}

/// The concerns that pairs of kind and detail raise: those of a known kind that say something,
/// each once.
pub open spec fn concerns(pairs: Seq<TextPairView>) -> Seq<AuditIssueView>
    decreases pairs.len(),
{
    if pairs.len() == 0 {
        Seq::empty()
    } else {
        let head = concerns(pairs.drop_last());
        let detail = trimmed(pairs.last().second);
        match kind_named(pairs.last().first) {
            Some(kind) => if detail.len() == 0 || raised(head, kind, detail) {
                head
            } else {
                head.push(AuditIssueView { kind, detail })
            },
            None => head,
        }
    }
}

fn is_raised(list: &Vec<AuditIssue>, kind: AuditKind, detail: &str) -> (r: bool)
    ensures
        r == raised(views(list@), kind, detail@),
{
    let low: String = to_lowercase(detail);
    let mut i: usize = 0;
    while i < list.len()
        invariant
            i <= list@.len(),
            low@ == lowercase(detail@),
            forall|j: int|
                0 <= j < i ==> !((#[trigger] views(list@)[j]).kind == kind && lowercase(
                    views(list@)[j].detail,
                ) == low@),
        decreases list@.len() - i,
    {
        let t: String = to_lowercase(list[i].detail.as_str());
        assert(t@ == lowercase(views(list@)[i as int].detail));
        assert(list[i as int].kind == views(list@)[i as int].kind);
        if list[i].kind == kind && t == low {
            return true;
        }
        i += 1;
    }
    false
}

/// The concerns that pairs of kind and detail raise.
pub fn pick_concerns(pairs: &Vec<TextPair>) -> (r: Vec<AuditIssue>)
    ensures
        views(r@) == at_most(concerns(views(pairs@)), 4),
{
    let ghost all = views(pairs@);
    let mut out: Vec<AuditIssue> = Vec::new();
    let mut i: usize = 0;
    while i < pairs.len()
        invariant
            i <= pairs@.len(),
            all == views(pairs@),
            views(out@) == concerns(all.take(i as int)),
        decreases pairs@.len() - i,
    {
        proof {
            lemma_take_step(all, i as int);
        }
        match AuditKind::parse(pairs[i].first.as_str()) {
            Some(kind) => {
                let detail: String = trim(pairs[i].second.as_str());
                if !detail.as_str().is_empty() && !is_raised(&out, kind, detail.as_str()) {
                    out.push(AuditIssue { kind, detail });
                }
            },
            None => {},
        }
        i += 1;
    }
    assert(all.take(i as int) =~= all);
    let ghost kept = views(out@);
    if out.len() > MAX_AUDIT_ISSUES {
        out.truncate(MAX_AUDIT_ISSUES);
        assert(views(out@) =~= kept.take(4));
    }
    out
}

/// The concerns in a model's answer.
pub fn parse_audit_response(content: &str) -> (r: Vec<AuditIssue>)
    ensures
        views(r@) == at_most(
            concerns(
                pairs_in(record_of(json_part(content@)), "issues"@, "kind"@, "detail"@),
            ),
            4,
        ),
{
    let j: Option<Record> = read_record(extract_json(content).as_str());
    let pairs: Vec<TextPair> = read_pairs(&j, "issues", "kind", "detail");
    pick_concerns(&pairs)
}

/// The name of a kind of concern names it.
pub proof fn law_kind_named(k: AuditKind)
    ensures
        kind_named(kind_name(k)) == Some(k),
{
    reveal_strlit("unclear");
    reveal_strlit("bad_title");
    reveal_strlit("bad_data");
    reveal_strlit("vague");
    reveal_strlit("underspecified");
    reveal_strlit("title");
    reveal_strlit("placeholder_title");
    let s = kind_name(k);
    assert(trimmed(s) == s) by {
        reveal_with_fuel(crate::text::trimmed_start, 2);
        reveal_with_fuel(crate::text::trimmed_end, 2);
    }
    assert(lower(s) =~= s);
    assert(underscored(s) =~= s);
}

/// Whatever a model answers, each concern says something, none comes twice, and there are at most
/// four.
pub proof fn law_concerns_are_distinct(pairs: Seq<TextPairView>)
    ensures
        at_most(concerns(pairs), 4).len() <= 4,
        forall|i: int|
            0 <= i < concerns(pairs).len() ==> (#[trigger] concerns(pairs)[i]).detail.len() > 0,
        forall|i: int, j: int|
            0 <= i < j < concerns(pairs).len() ==> !((#[trigger] concerns(pairs)[i]).kind == (
            #[trigger] concerns(pairs)[j]).kind && lowercase(concerns(pairs)[i].detail)
                == lowercase(concerns(pairs)[j].detail)),
    decreases pairs.len(),
{
    if pairs.len() > 0 {
        law_concerns_are_distinct(pairs.drop_last());
    }
}

// ---------------------------------------------------------------------------------------------
// Fields
// ---------------------------------------------------------------------------------------------

/// What follows the first line of a text; nothing where it has one line.
pub open spec fn after_first_line(s: Seq<char>) -> Seq<char> {
    match first_at(s, '\n') {
        Some(i) => s.skip(i + 1),
        None => Seq::empty(),
    }
}

/// A text without the code fence around all of it, and trimmed.
pub open spec fn unfenced(s: Seq<char>) -> Seq<char> {
    let t = trimmed(s);
    if has_prefix(t, "```"@) {
        let inner = trimmed_end(after_first_line(t.skip("```"@.len() as int)));
        if has_suffix(inner, "```"@) {
            trimmed(inner.take(inner.len() - "```"@.len()))
        } else {
            t
        }
    } else {
        t
    }
}

/// A text without the code fence around all of it, and trimmed.
pub fn strip_code_fence(s: &str) -> (r: String)
    ensures
        r@ == unfenced(s@),
{
    let t: String = trim(s);
    match strip_prefix(t.as_str(), "```") {
        Some(rest) => {
            let cs: Vec<char> = chars_of(rest.as_str());
            let after: String = match find_char(&cs, '\n') {
                Some(i) => {
                    assert(rest@.subrange(i + 1, rest@.len() as int) =~= rest@.skip(i + 1));
                    string_of(&cs, i + 1, cs.len())
                },
                None => String::new(),
            };
            assert(after@ =~= after_first_line(rest@));
            let inner: String = trim_end(after.as_str());
            match strip_suffix(inner.as_str(), "```") {
                Some(body) => trim(body.as_str()),
                None => t,
            }
        },
        None => t,
    }
}

/// Whether one of the pairs is for a reference, case aside.
pub open spec fn answered(list: Seq<(Seq<char>, Seq<char>)>, reference: Seq<char>) -> bool {
    exists|i: int| 0 <= i < list.len() && lowercase((#[trigger] list[i]).0) == lowercase(reference)
}

/// The values that pairs of reference and value give: for each known reference the first that says
/// something, under the known spelling.
pub open spec fn field_values(pairs: Seq<TextPairView>, known: Seq<Seq<char>>) -> Seq<
    (Seq<char>, Seq<char>),
>
    decreases pairs.len(),
{
    if pairs.len() == 0 {
        Seq::empty()
    } else {
        let head = field_values(pairs.drop_last(), known);
        let value = unfenced(trimmed(pairs.last().second));
        match canonical(known, lowercase(trimmed(pairs.last().first))) {
            Some(reference) => if trimmed(value).len() == 0 || answered(head, reference) {
                head
            } else {
                head.push((reference, value))
            },
            None => head,
        }
    }
}

/// The texts of pairs.
pub open spec fn pair_views(list: Seq<(String, String)>) -> Seq<(Seq<char>, Seq<char>)> {
    Seq::new(list.len(), |i: int| (list[i].0@, list[i].1@))
}

fn is_answered(list: &Vec<(String, String)>, reference: &str) -> (r: bool)
    ensures
        r == answered(pair_views(list@), reference@),
{
    let low: String = to_lowercase(reference);
    let mut i: usize = 0;
    while i < list.len()
        invariant
            i <= list@.len(),
            low@ == lowercase(reference@),
            forall|j: int| 0 <= j < i ==> lowercase((#[trigger] pair_views(list@)[j]).0) != low@,
        decreases list@.len() - i,
    {
        let t: String = to_lowercase(list[i].0.as_str());
        assert(t@ == lowercase(pair_views(list@)[i as int].0));
        if t == low {
            return true;
        }
        i += 1;
    }
    false
}

/// The values that pairs of reference and value give to known references.
pub fn pick_values(pairs: &Vec<TextPair>, known: &[String]) -> (r: Vec<(String, String)>)
    ensures
        pair_views(r@) == field_values(views(pairs@), views(known@)),
{
    let ghost all = views(pairs@);
    let mut out: Vec<(String, String)> = Vec::new();
    let mut i: usize = 0;
    assert(pair_views(out@) =~= Seq::empty());
    while i < pairs.len()
        invariant
            i <= pairs@.len(),
            all == views(pairs@),
            pair_views(out@) == field_values(all.take(i as int), views(known@)),
        decreases pairs@.len() - i,
    {
        proof {
            lemma_take_step(all, i as int);
        }
        let key: String = to_lowercase(trim(pairs[i].first.as_str()).as_str());
        match find_canonical(known, key.as_str()) {
            Some(reference) => {
                let value: String = strip_code_fence(trim(pairs[i].second.as_str()).as_str());
                if !crate::text::is_blank(value.as_str()) && !is_answered(
                    &out,
                    reference.as_str(),
                ) {
                    let ghost before = pair_views(out@);
                    let ghost added = (reference@, value@);
                    out.push((reference, value));
                    assert(pair_views(out@) =~= before.push(added));
                }
            },
            None => {},
        }
        i += 1;
    }
    assert(all.take(i as int) =~= all);
    out
}

/// The field values in a model's answer, for known references.
pub fn parse_fields_consistency(content: &str, known_refs: &[String]) -> (r: Vec<(String, String)>)
    ensures
        pair_views(r@) == field_values(
            pairs_in(record_of(json_part(content@)), "fields"@, "reference"@, "value"@),
            views(known_refs@),
        ),
{
    let j: Option<Record> = read_record(extract_json(content).as_str());
    let pairs: Vec<TextPair> = read_pairs(&j, "fields", "reference", "value");
    pick_values(&pairs, known_refs)
}

/// Whatever a model answers, only fields that were asked for get a value, none twice, and none a
/// blank one.
pub proof fn law_only_known_fields(pairs: Seq<TextPairView>, known: Seq<Seq<char>>)
    ensures
        forall|i: int|
            0 <= i < field_values(pairs, known).len() ==> known.contains(
                (#[trigger] field_values(pairs, known)[i]).0,
            ) && trimmed(field_values(pairs, known)[i].1).len() > 0,
        forall|i: int, j: int|
            0 <= i < j < field_values(pairs, known).len() ==> lowercase(
                (#[trigger] field_values(pairs, known)[i]).0,
            ) != lowercase((#[trigger] field_values(pairs, known)[j]).0),
    decreases pairs.len(),
{
    if pairs.len() > 0 {
        let head = field_values(pairs.drop_last(), known);
        let all = field_values(pairs, known);
        law_only_known_fields(pairs.drop_last(), known);
        lemma_canonical(known, lowercase(trimmed(pairs.last().first)));
        assert forall|i: int| 0 <= i < all.len() implies known.contains((#[trigger] all[i]).0)
            && trimmed(all[i].1).len() > 0 by {
            if i < head.len() {
                assert(all[i] == head[i]);
            }
        }
        assert forall|i: int, j: int| 0 <= i < j < all.len() implies lowercase(
            (#[trigger] all[i]).0,
        ) != lowercase((#[trigger] all[j]).0) by {
            assert(all[i] == head[i]);
            if j < head.len() {
                assert(all[j] == head[j]);
            }
        }
    }
}

// ---------------------------------------------------------------------------------------------
// The chat service's answer
// ---------------------------------------------------------------------------------------------

/// The JSON value of a member that may not be there.
pub open spec fn value_of(j: JsonView, key: Seq<char>) -> Option<JsonView> {
    match member_of(j, key) {
        Some(raw) => json_of(raw),
        None => None,
    }
}

/// The message text in a chat service's answer: that of its first choice, and nothing where there
/// is none.
pub open spec fn message_in(j: JsonView) -> Seq<char> {
    match value_of(j, "choices"@) {
        Some(JsonView::Array(items)) => if items.len() == 0 {
            Seq::empty()
        } else {
            match json_of(items[0]) {
                Some(choice) => match value_of(choice, "message"@) {
                    Some(message) => match value_of(message, "content"@) {
                        Some(JsonView::Text(t)) => t,
                        _ => Seq::empty(),
                    },
                    None => Seq::empty(),
                },
                None => Seq::empty(),
            }
        },
        _ => Seq::empty(),
    }
}

fn value_at(j: &Json, key: &str) -> (r: Option<Json>)
    ensures
        opt_view(r) == value_of(j@, key@),
{
    match j.member(key) {
        Some(raw) => parse_json(raw.as_str()),
        None => None,
    }
}

fn nothing() -> (r: String)
    ensures
        r@ == Seq::<char>::empty(),
{
    let r: String = String::new();
    assert(r@ =~= Seq::<char>::empty());
    r
}

/// The message text in a chat service's answer.
pub fn message_text(j: &Json) -> (r: String)
    ensures
        r@ == message_in(j@),
{
    let first: String = match value_at(j, "choices") {
        Some(Json::Array(items)) => if items.len() == 0 {
            return nothing();
        } else {
            items[0].clone()
        },
        _ => {
            return nothing();
        },
    };
    match parse_json(first.as_str()) {
        Some(choice) => match value_at(&choice, "message") {
            Some(message) => match value_at(&message, "content") {
                Some(Json::Text(t)) => t,
                _ => nothing(),
            },
            None => nothing(),
        },
        None => nothing(),
    }
}

/// The message text in the body of a chat service's answer; `None` where the body is no JSON.
pub fn chat_content(body: &str) -> (r: Option<String>)
    ensures
        opt_view(r) == (match json_of(body@) {
            Some(j) => Some(message_in(j)),
            None => None,
        }),
{
    match parse_json(body) {
        Some(j) => Some(message_text(&j)),
        None => None,
    }
}

} // verus!
