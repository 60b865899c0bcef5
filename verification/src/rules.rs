//! The hygiene rules: which flags and which tag suggestions a ruleset gives rise to.
//!
//! Everything here is a function of its arguments; the time is one of them.
use crate::config::{
    PipelineRules, PrRules, RuleSet, RuleSetView, StaleRuleView, TagAlias, TagAliasView,
    TagKeywords, TagKeywordsView,
};
use crate::flag::{
    EntityFlag, EntityFlagView, Flag, FlagCode, FlagView, Severity, TagSuggestion,
    TagSuggestionView,
};
use crate::number::{format_i64, signed_decimal};
use crate::pipeline::RunStatus;
use crate::pull_request::{PrStatus, PullRequest, PullRequestView};
use crate::text::{
    any_eq_ignoring_case, any_same, ascii_alnum, cat3, chars_of, char_count, contains,
    eq_ignoring_case, find_from, group_text, has_prefix, is_ascii_alnum, join, joined,
    lemma_found_stays, lemma_take_step, lower, lowercase, occurs, occurs_at, opt_view,
    same_ignoring_case, split_words, starts_with, strip, stripped, to_lower, to_lowercase, trim,
    trimmed, views, words,
};
use crate::time::{age_in_days, days_between, Timestamp};
use crate::work_item::{WorkItem, WorkItemView};
use vstd::prelude::*;

pub mod laws;
pub mod suggestion_laws;

verus! {

broadcast use group_text;

// ---------------------------------------------------------------------------------------------
// Whole words
// ---------------------------------------------------------------------------------------------

/// Whether `n` stands in `h` at position `i` with no ASCII letter or digit on either side.
pub open spec fn word_at(h: Seq<char>, n: Seq<char>, i: int) -> bool {
    &&& occurs_at(h, n, i)
    &&& i == 0 || !is_ascii_alnum(h[i - 1])
    &&& i + n.len() == h.len() || !is_ascii_alnum(h[i + n.len()])
}

/// Whether `n`, which is not empty, stands in `h` as a whole word.
pub open spec fn has_word(h: Seq<char>, n: Seq<char>) -> bool {
    n.len() > 0 && exists|i: int| #[trigger] word_at(h, n, i)
}

/// Whether `needle` occurs in `haystack` as a whole word: somewhere where neither neighbour is an
/// ASCII letter or digit. An empty needle never does.
pub fn contains_word(haystack: &str, needle: &str) -> (r: bool)
    ensures
        r == has_word(haystack@, needle@),
{
    let h: Vec<char> = chars_of(haystack);
    let n: Vec<char> = chars_of(needle);
    if n.len() == 0 {
        return false;
    }
    let mut start: usize = 0;
    while start <= h.len()
        invariant
            h@ == haystack@,
            n@ == needle@,
            n@.len() > 0,
            start <= h@.len() + 1,
            forall|j: int| 0 <= j < start ==> !#[trigger] word_at(h@, n@, j),
        decreases h@.len() + 1 - start,
    {
        match find_from(&h, &n, start) {
            Some(i) => {
                let before_ok: bool = i == 0 || !ascii_alnum(h[i - 1]);
                let after: usize = i + n.len();
                let after_ok: bool = after >= h.len() || !ascii_alnum(h[after]);
                if before_ok && after_ok {
                    assert(word_at(h@, n@, i as int));
                    return true;
                }
                assert(!word_at(h@, n@, i as int));
                assert forall|j: int| 0 <= j < i + 1 implies !#[trigger] word_at(h@, n@, j) by {
                    if start <= j < i {
                        assert(!occurs_at(h@, n@, j));
                    }
                }
                start = i + 1;
            },
            None => {
                assert forall|j: int| !#[trigger] word_at(h@, n@, j) by {
                    if start <= j {
                        assert(!occurs_at(h@, n@, j));
                    }
                }
                return false;
            },
        }
    }
    assert forall|j: int| !#[trigger] word_at(h@, n@, j) by {
        if h@.len() < j {
            assert(!occurs_at(h@, n@, j));
        }
    }
    false
}

// ---------------------------------------------------------------------------------------------
// Tag patterns
// ---------------------------------------------------------------------------------------------

/// Whether a tag matches a pattern: the pattern's text but for ASCII case or, where it ends in
/// `*`, a text that starts with what precedes the star.
pub open spec fn matches_tag(pattern: Seq<char>, tag: Seq<char>) -> bool {
    let p = trimmed(pattern);
    let t = trimmed(tag);
    if p.len() > 0 && p.last() == '*' {
        has_prefix(lower(t), lower(p.drop_last()))
    } else {
        same_ignoring_case(p, t)
    }
}

/// Whether `tag` matches `pattern`.
pub fn tag_matches(pattern: &str, tag: &str) -> (r: bool)
    ensures
        r == matches_tag(pattern@, tag@),
{
    let p: String = trim(pattern);
    let t: String = trim(tag);
    let cs: Vec<char> = chars_of(p.as_str());
    let n: usize = cs.len();
    if n > 0 && cs[n - 1] == '*' {
        let head: String = crate::text::string_of(&cs, 0, n - 1);
        assert(head@ =~= p@.drop_last());
        starts_with(to_lower(t.as_str()).as_str(), to_lower(head.as_str()).as_str())
    } else {
        eq_ignoring_case(p.as_str(), t.as_str())
    }
}

/// Whether some pattern of the list matches the tag.
pub open spec fn any_pattern(patterns: Seq<Seq<char>>, tag: Seq<char>) -> bool {
    exists|i: int| 0 <= i < patterns.len() && matches_tag(#[trigger] patterns[i], tag)
}

/// Whether some pattern of the list, blank ones aside, matches the tag.
pub open spec fn any_real_pattern(patterns: Seq<Seq<char>>, tag: Seq<char>) -> bool {
    exists|i: int|
        0 <= i < patterns.len() && trimmed(#[trigger] patterns[i]).len() > 0 && matches_tag(
            trimmed(patterns[i]),
            tag,
        )
}

/// The first tag of the list that matches the pattern.
pub open spec fn first_match(pattern: Seq<char>, tags: Seq<Seq<char>>) -> Option<Seq<char>>
    decreases tags.len(),
{
    if tags.len() == 0 {
        None
    } else if first_match(pattern, tags.drop_last()) is Some {
        first_match(pattern, tags.drop_last())
    } else if matches_tag(pattern, tags.last()) {
        Some(tags.last())
    } else {
        None
    }
}

/// Whether some tag of the list matches the pattern.
pub open spec fn any_tag(pattern: Seq<char>, tags: Seq<Seq<char>>) -> bool {
    exists|i: int| 0 <= i < tags.len() && matches_tag(pattern, #[trigger] tags[i])
}

fn any_pattern_matches(patterns: &Vec<String>, tag: &str) -> (r: bool)
    ensures
        r == any_pattern(views(patterns@), tag@),
{
    let mut i: usize = 0;
    while i < patterns.len()
        invariant
            i <= patterns@.len(),
            forall|j: int| 0 <= j < i ==> !matches_tag(#[trigger] views(patterns@)[j], tag@),
        decreases patterns@.len() - i,
    {
        if tag_matches(patterns[i].as_str(), tag) {
            assert(matches_tag(views(patterns@)[i as int], tag@));
            return true;
        }
        i += 1;
    }
    false
}

fn any_real_pattern_matches(patterns: &Vec<String>, tag: &str) -> (r: bool)
    ensures
        r == any_real_pattern(views(patterns@), tag@),
{
    let mut i: usize = 0;
    while i < patterns.len()
        invariant
            i <= patterns@.len(),
            forall|j: int|
                0 <= j < i ==> !(trimmed(#[trigger] views(patterns@)[j]).len() > 0 && matches_tag(
                    trimmed(views(patterns@)[j]),
                    tag@,
                )),
        decreases patterns@.len() - i,
    {
        let p: String = trim(patterns[i].as_str());
        assert(p@ == trimmed(views(patterns@)[i as int]));
        if !p.as_str().is_empty() && tag_matches(p.as_str(), tag) {
            return true;
        }
        i += 1;
    }
    false
}

/// The first tag of the list that matches the pattern.
fn find_matching(pattern: &str, tags: &Vec<String>) -> (r: Option<String>)
    ensures
        opt_view(r) == first_match(pattern@, views(tags@)),
{
    let ghost vs = views(tags@);
    let mut i: usize = 0;
    while i < tags.len()
        invariant
            i <= tags@.len(),
            vs == views(tags@),
            first_match(pattern@, vs.take(i as int)) is None,
        decreases tags@.len() - i,
    {
        proof {
            lemma_take_step(vs, i as int);
        }
        if tag_matches(pattern, tags[i].as_str()) {
            proof {
                lemma_found_stays(|l: Seq<Seq<char>>| first_match(pattern@, l), vs, i + 1);
            }
            return Some(tags[i].clone());
        }
        i += 1;
    }
    None
}

proof fn lemma_first_match_some(pattern: Seq<char>, tags: Seq<Seq<char>>)
    ensures
        first_match(pattern, tags) is Some <==> any_tag(pattern, tags),
        first_match(pattern, tags) matches Some(t) ==> tags.contains(t) && matches_tag(pattern, t),
    decreases tags.len(),
{
    if tags.len() > 0 {
        let head = tags.drop_last();
        lemma_first_match_some(pattern, head);
        if any_tag(pattern, head) {
            let i = choose|i: int| 0 <= i < head.len() && matches_tag(pattern, #[trigger] head[i]);
            assert(matches_tag(pattern, tags[i]));
            let t = first_match(pattern, head)->0;
            let k = choose|k: int| 0 <= k < head.len() && head[k] == t;
            assert(tags[k] == t);
        } else if matches_tag(pattern, tags.last()) {
            assert(tags[tags.len() - 1] == tags.last());
        } else {
            assert forall|i: int| 0 <= i < tags.len() implies !matches_tag(
                pattern,
                #[trigger] tags[i],
            ) by {
                if i < tags.len() - 1 {
                    assert(head[i] == tags[i]);
                }
            }
        }
    }
}

/// Whether some tag of the item matches the pattern.
fn any_tag_matches(pattern: &str, item: &WorkItem) -> (r: bool)
    ensures
        r == any_tag(pattern@, item@.tags),
{
    proof {
        lemma_first_match_some(pattern@, item@.tags);
    }
    find_matching(pattern, &item.tags).is_some()
}

// ---------------------------------------------------------------------------------------------
// Which items the rules look at
// ---------------------------------------------------------------------------------------------

/// Whether an item is exempt: its state or its type is on an ignore list.
pub open spec fn ignored(item: WorkItemView, rules: RuleSetView) -> bool {
    any_same(rules.ignore_states, item.state) || any_same(rules.ignore_types, item.work_item_type)
}

/// Whether an item is in a resolved state.
pub open spec fn resolved(item: WorkItemView, rules: RuleSetView) -> bool {
    any_same(rules.resolved_states, item.state)
}

/// Whether an item is done with: ignored or resolved.
pub open spec fn done(item: WorkItemView, rules: RuleSetView) -> bool {
    ignored(item, rules) || resolved(item, rules)
}

fn is_ignored(item: &WorkItem, rules: &RuleSet) -> (r: bool)
    ensures
        r == ignored(item@, rules@),
{
    any_eq_ignoring_case(&rules.ignore_states, item.state.as_str()) || any_eq_ignoring_case(
        &rules.ignore_types,
        item.work_item_type.as_str(),
    )
}

fn is_done(item: &WorkItem, rules: &RuleSet) -> (r: bool)
    ensures
        r == done(item@, rules@),
{
    is_ignored(item, rules) || any_eq_ignoring_case(&rules.resolved_states, item.state.as_str())
}

// ---------------------------------------------------------------------------------------------
// Underspecified items
// ---------------------------------------------------------------------------------------------

/// How long a description must be where the rules do not say.
pub const DEFAULT_REFINE_MIN_CHARS: usize = 40;

/// Punctuation that may surround a word in Markdown.
pub const WORD_PUNCTUATION: &'static str = "()[]<>\"'`*|";

/// Whether a word, its punctuation taken off, is prose: not empty and no link.
pub open spec fn is_prose(word: Seq<char>) -> bool {
    word.len() > 0 && !occurs(word, "://"@) && !has_prefix(word, "www."@)
}

/// The words of a list that are prose, without their punctuation.
pub open spec fn prose_words(list: Seq<Seq<char>>) -> Seq<Seq<char>>
    decreases list.len(),
{
    if list.len() == 0 {
        Seq::empty()
    } else {
        let word = stripped(list.last(), WORD_PUNCTUATION@);
        let head = prose_words(list.drop_last());
        if is_prose(word) {
            head.push(word)
        } else {
            head
        }
    }
}

/// A description without its links: its prose words with single spaces between them.
pub open spec fn prose(desc: Seq<char>) -> Seq<char> {
    trimmed(joined(prose_words(words(desc)), " "@))
}

fn meaningful_body(desc: &str) -> (r: String)
    ensures
        r@ == prose(desc@),
{
    let tokens: Vec<String> = split_words(desc);
    let ghost all = views(tokens@);
    let mut kept: Vec<String> = Vec::new();
    let mut i: usize = 0;
    while i < tokens.len()
        invariant
            i <= tokens@.len(),
            all == views(tokens@),
            views(kept@) == prose_words(all.take(i as int)),
        decreases tokens@.len() - i,
    {
        proof {
            lemma_take_step(all, i as int);
        }
        let word: String = strip(tokens[i].as_str(), WORD_PUNCTUATION);
        if !(word.as_str().is_empty() || contains(word.as_str(), "://") || starts_with(
            word.as_str(),
            "www.",
        )) {
            kept.push(word);
        }
        i += 1;
    }
    trim(join(&kept, " ").as_str())
}

/// The tag for items that need refinement, when the rules name one.
pub open spec fn refine_tag_of(rules: RuleSetView) -> Option<Seq<char>> {
    match rules.refine_tag {
        Some(t) => if trimmed(t).len() > 0 {
            Some(trimmed(t))
        } else {
            None
        },
        None => None,
    }
}

/// The prose of an item's description; empty where it has none.
pub open spec fn body_of(item: WorkItemView) -> Seq<char> {
    match item.description {
        Some(d) => prose(d),
        None => Seq::empty(),
    }
}

/// Whether one of the phrases, blank ones aside, occurs in the text but for case.
pub open spec fn any_phrase(phrases: Seq<Seq<char>>, text: Seq<char>) -> bool {
    exists|i: int|
        0 <= i < phrases.len() && trimmed(#[trigger] phrases[i]).len() > 0 && occurs(
            lowercase(text),
            lowercase(trimmed(phrases[i])),
        )
}

/// Whether an item says too little to be tagged: the rules name a refine tag, and the prose of the
/// description holds a placeholder phrase or is too short.
pub open spec fn underspecified(item: WorkItemView, rules: RuleSetView) -> bool {
    let min = match rules.refine_min_chars {
        Some(n) => n,
        None => DEFAULT_REFINE_MIN_CHARS,
    };
    refine_tag_of(rules) is Some && (any_phrase(rules.refine_phrases, body_of(item)) || body_of(
        item,
    ).len() < min)
}

fn refine_tag(rules: &RuleSet) -> (r: Option<String>)
    ensures
        opt_view(r) == refine_tag_of(rules@),
{
    match &rules.refine_tag {
        Some(t) => {
            let t: String = trim(t.as_str());
            if t.as_str().is_empty() {
                None
            } else {
                Some(t)
            }
        },
        None => None,
    }
}

/// Whether an item says too little to be tagged. The title does not count: every item has one.
pub fn is_underspecified(item: &WorkItem, rules: &RuleSet) -> (r: bool)
    ensures
        r == underspecified(item@, rules@),
{
    if refine_tag(rules).is_none() {
        return false;
    }
    let body: String = match &item.description {
        Some(d) => meaningful_body(d.as_str()),
        None => String::new(),
    };
    let low: String = to_lowercase(body.as_str());
    let mut i: usize = 0;
    while i < rules.refine_phrases.len()
        invariant
            i <= rules.refine_phrases@.len(),
            refine_tag_of(rules@) is Some,
            body@ == body_of(item@),
            low@ == lowercase(body@),
            forall|j: int|
                0 <= j < i ==> !(trimmed(#[trigger] rules@.refine_phrases[j]).len() > 0 && occurs(
                    lowercase(body@),
                    lowercase(trimmed(rules@.refine_phrases[j])),
                )),
        decreases rules.refine_phrases@.len() - i,
    {
        let p: String = trim(rules.refine_phrases[i].as_str());
        assert(p@ == trimmed(rules@.refine_phrases[i as int]));
        if !p.as_str().is_empty() && contains(low.as_str(), to_lowercase(p.as_str()).as_str()) {
            return true;
        }
        i += 1;
    }
    let min: usize = match rules.refine_min_chars {
        Some(n) => n,
        None => DEFAULT_REFINE_MIN_CHARS,
    };
    char_count(body.as_str()) < min
}

// ---------------------------------------------------------------------------------------------
// Suggested tags
// ---------------------------------------------------------------------------------------------

/// The text in which keywords are looked for, in lower case: the title and, where descriptions
/// count, the description on a line of its own.
pub open spec fn haystack_of(item: WorkItemView, use_description: bool) -> Seq<char> {
    match item.description {
        Some(d) => if use_description {
            lowercase(item.title).push('\n') + lowercase(d)
        } else {
            lowercase(item.title)
        },
        None => lowercase(item.title),
    }
}

/// Whether one of the tags is `tag` but for case.
pub open spec fn carries(tags: Seq<Seq<char>>, tag: Seq<char>) -> bool {
    exists|i: int| 0 <= i < tags.len() && lowercase(#[trigger] tags[i]) == lowercase(tag)
}

/// Whether one of the suggestions is of `tag` but for case.
pub open spec fn suggests(list: Seq<TagSuggestionView>, tag: Seq<char>) -> bool {
    exists|i: int| 0 <= i < list.len() && lowercase((#[trigger] list[i]).tag) == lowercase(tag)
}

/// The keywords, trimmed, that stand in the text as whole words.
pub open spec fn keyword_hits(keywords: Seq<Seq<char>>, hay: Seq<char>) -> Seq<Seq<char>>
    decreases keywords.len(),
{
    if keywords.len() == 0 {
        Seq::empty()
    } else {
        let k = trimmed(keywords.last());
        let head = keyword_hits(keywords.drop_last(), hay);
        if k.len() > 0 && has_word(hay, lowercase(k)) {
            head.push(k)
        } else {
            head
        }
    }
}

/// The suggestions that keywords give: each tag that the item does not carry and that has a hit.
pub open spec fn keyword_suggestions(
    list: Seq<TagKeywordsView>,
    tags: Seq<Seq<char>>,
    hay: Seq<char>,
) -> Seq<TagSuggestionView>
    decreases list.len(),
{
    if list.len() == 0 {
        Seq::empty()
    } else {
        let entry = list.last();
        let head = keyword_suggestions(list.drop_last(), tags, hay);
        let hits = keyword_hits(entry.keywords, hay);
        if trimmed(entry.tag).len() > 0 && !carries(tags, entry.tag) && hits.len() > 0 {
            head.push(TagSuggestionView { tag: entry.tag, reasons: hits, replaces: None })
        } else {
            head
        }
    }
}

/// What one alias adds to the suggestions: the new tag in place of the first legacy tag that the
/// item carries, unless the item carries the new tag or it is suggested already.
pub open spec fn with_alias(
    alias: TagAliasView,
    tags: Seq<Seq<char>>,
    list: Seq<TagSuggestionView>,
) -> Seq<TagSuggestionView> {
    let from = trimmed(alias.from);
    let to = trimmed(alias.to);
    if from.len() == 0 || to.len() == 0 || carries(tags, to) || suggests(list, to) {
        list
    } else {
        match first_match(from, tags) {
            Some(old_tag) => list.push(
                TagSuggestionView {
                    tag: to,
                    reasons: seq!["replaces \""@ + old_tag + "\""@],
                    replaces: Some(old_tag),
                },
            ),
            None => list,
        }
    }
}

/// What a list of aliases, one after the other, adds to the suggestions.
pub open spec fn with_aliases(
    aliases: Seq<TagAliasView>,
    tags: Seq<Seq<char>>,
    list: Seq<TagSuggestionView>,
) -> Seq<TagSuggestionView>
    decreases aliases.len(),
{
    if aliases.len() == 0 {
        list
    } else {
        with_alias(aliases.last(), tags, with_aliases(aliases.drop_last(), tags, list))
    }
}

/// Whether some required pattern, blank ones aside, is matched by no tag.
pub open spec fn lacks_required(required: Seq<Seq<char>>, tags: Seq<Seq<char>>) -> bool {
    exists|i: int|
        0 <= i < required.len() && trimmed(#[trigger] required[i]).len() > 0 && !any_tag(
            trimmed(required[i]),
            tags,
        )
}

/// What underspecification adds to the suggestions: the refine tag, on an item that is not done,
/// says too little, lacks a required tag, and neither carries the refine tag nor has it suggested.
pub open spec fn with_refinement(
    item: WorkItemView,
    rules: RuleSetView,
    list: Seq<TagSuggestionView>,
) -> Seq<TagSuggestionView> {
    match refine_tag_of(rules) {
        Some(tag) => if !done(item, rules) && underspecified(item, rules) && lacks_required(
            rules.required_tags,
            item.tags,
        ) && !carries(item.tags, tag) && !suggests(list, tag) {
            list.push(
                TagSuggestionView {
                    tag,
                    reasons: seq!["underspecified - too little detail to tag; refine first"@],
                    replaces: None,
                },
            )
        } else {
            list
        },
        None => list,
    }
}

/// The suggestions whose tags match none of the patterns.
pub open spec fn without_stale(
    list: Seq<TagSuggestionView>,
    patterns: Seq<Seq<char>>,
) -> Seq<TagSuggestionView>
    decreases list.len(),
{
    if list.len() == 0 {
        list
    } else if any_real_pattern(patterns, list.last().tag) {
        without_stale(list.drop_last(), patterns)
    } else {
        without_stale(list.drop_last(), patterns).push(list.last())
    }
}

/// The tags to suggest for an item: from keywords, then from aliases, then the refine tag; on an
/// item that is done, without those that speak of open work.
pub open spec fn suggestions(
    item: WorkItemView,
    rules: RuleSetView,
    use_description: bool,
) -> Seq<TagSuggestionView> {
    let by_keyword = keyword_suggestions(
        rules.tag_keywords,
        item.tags,
        haystack_of(item, use_description),
    );
    let by_alias = with_aliases(rules.tag_aliases, item.tags, by_keyword);
    let all = with_refinement(item, rules, by_alias);
    if done(item, rules) {
        without_stale(all, rules.stale_when_resolved_tags)
    } else {
        all
    }
}

/// Whether a tag is among others, whatever its case.
pub fn carries_tag(tags: &Vec<String>, tag: &str) -> (r: bool)
    ensures
        r == carries(views(tags@), tag@),
{
    let low: String = to_lowercase(tag);
    let mut i: usize = 0;
    while i < tags.len()
        invariant
            i <= tags@.len(),
            low@ == lowercase(tag@),
            forall|j: int| 0 <= j < i ==> lowercase(#[trigger] views(tags@)[j]) != low@,
        decreases tags@.len() - i,
    {
        let t: String = to_lowercase(tags[i].as_str());
        assert(t@ == lowercase(views(tags@)[i as int]));
        if t == low {
            return true;
        }
        i += 1;
    }
    false
}

/// Whether a tag is among suggestions, whatever its case.
pub(crate) fn suggests_tag(list: &Vec<TagSuggestion>, tag: &str) -> (r: bool)
    ensures
        r == suggests(views(list@), tag@),
{
    let low: String = to_lowercase(tag);
    let mut i: usize = 0;
    while i < list.len()
        invariant
            i <= list@.len(),
            low@ == lowercase(tag@),
            forall|j: int| 0 <= j < i ==> lowercase((#[trigger] views(list@)[j]).tag) != low@,
        decreases list@.len() - i,
    {
        let t: String = to_lowercase(list[i].tag.as_str());
        assert(t@ == lowercase(views(list@)[i as int].tag));
        if t == low {
            return true;
        }
        i += 1;
    }
    false
}

fn hits(keywords: &Vec<String>, hay: &str) -> (r: Vec<String>)
    ensures
        views(r@) == keyword_hits(views(keywords@), hay@),
{
    let ghost all = views(keywords@);
    let mut r: Vec<String> = Vec::new();
    let mut i: usize = 0;
    while i < keywords.len()
        invariant
            i <= keywords@.len(),
            all == views(keywords@),
            views(r@) == keyword_hits(all.take(i as int), hay@),
        decreases keywords@.len() - i,
    {
        proof {
            lemma_take_step(all, i as int);
        }
        let k: String = trim(keywords[i].as_str());
        if !k.as_str().is_empty() && contains_word(hay, to_lowercase(k.as_str()).as_str()) {
            r.push(k);
        }
        i += 1;
    }
    r
}

fn suggest_by_keyword(list: &Vec<TagKeywords>, tags: &Vec<String>, hay: &str) -> (r: Vec<
    TagSuggestion,
>)
    ensures
        views(r@) == keyword_suggestions(views(list@), views(tags@), hay@),
{
    let ghost all = views(list@);
    let mut r: Vec<TagSuggestion> = Vec::new();
    let mut i: usize = 0;
    while i < list.len()
        invariant
            i <= list@.len(),
            all == views(list@),
            views(r@) == keyword_suggestions(all.take(i as int), views(tags@), hay@),
        decreases list@.len() - i,
    {
        proof {
            lemma_take_step(all, i as int);
        }
        let entry: &TagKeywords = &list[i];
        assert(entry@ == all[i as int]);
        if !trim(entry.tag.as_str()).as_str().is_empty() && !carries_tag(tags, entry.tag.as_str()) {
            let reasons: Vec<String> = hits(&entry.keywords, hay);
            if reasons.len() > 0 {
                r.push(TagSuggestion { tag: entry.tag.clone(), reasons, replaces: None });
            }
        }
        i += 1;
    }
    r
}

fn add_aliases(aliases: &Vec<TagAlias>, tags: &Vec<String>, out: &mut Vec<TagSuggestion>)
    ensures
        views(final(out)@) == with_aliases(views(aliases@), views(tags@), views(old(out)@)),
{
    let ghost all = views(aliases@);
    let ghost start = views(out@);
    let mut i: usize = 0;
    while i < aliases.len()
        invariant
            i <= aliases@.len(),
            all == views(aliases@),
            views(out@) == with_aliases(all.take(i as int), views(tags@), start),
        decreases aliases@.len() - i,
    {
        proof {
            lemma_take_step(all, i as int);
        }
        let alias: &TagAlias = &aliases[i];
        assert(alias@ == all[i as int]);
        let from: String = trim(alias.from.as_str());
        let to: String = trim(alias.to.as_str());
        if !(from.as_str().is_empty() || to.as_str().is_empty() || carries_tag(tags, to.as_str())) {
            match find_matching(from.as_str(), tags) {
                Some(matched) => {
                    if !suggests_tag(out, to.as_str()) {
                        let reason: String = cat3("replaces \"", matched.as_str(), "\"");
                        let ghost shown = reason@;
                        let reasons: Vec<String> = vec![reason];
                        assert(views(reasons@) =~= seq![shown]);
                        out.push(TagSuggestion { tag: to, reasons, replaces: Some(matched) });
                    }
                },
                None => {},
            }
        }
        i += 1;
    }
}

fn lacks_required_tag(rules: &RuleSet, item: &WorkItem) -> (r: bool)
    ensures
        r == lacks_required(rules@.required_tags, item@.tags),
{
    let mut i: usize = 0;
    while i < rules.required_tags.len()
        invariant
            i <= rules.required_tags@.len(),
            forall|j: int|
                0 <= j < i ==> !(trimmed(#[trigger] rules@.required_tags[j]).len() > 0 && !any_tag(
                    trimmed(rules@.required_tags[j]),
                    item@.tags,
                )),
        decreases rules.required_tags@.len() - i,
    {
        let p: String = trim(rules.required_tags[i].as_str());
        assert(p@ == trimmed(rules@.required_tags[i as int]));
        if !p.as_str().is_empty() && !any_tag_matches(p.as_str(), item) {
            return true;
        }
        i += 1;
    }
    false
}

fn keep_fresh(list: Vec<TagSuggestion>, patterns: &Vec<String>) -> (r: Vec<TagSuggestion>)
    ensures
        views(r@) == without_stale(views(list@), views(patterns@)),
{
    let ghost all = views(list@);
    let mut r: Vec<TagSuggestion> = Vec::new();
    let mut i: usize = 0;
    while i < list.len()
        invariant
            i <= list@.len(),
            all == views(list@),
            views(r@) == without_stale(all.take(i as int), views(patterns@)),
        decreases list@.len() - i,
    {
        proof {
            lemma_take_step(all, i as int);
        }
        if !any_real_pattern_matches(patterns, list[i].tag.as_str()) {
            r.push(list[i].clone());
        }
        i += 1;
    }
    r
}

/// The tags to suggest for an item, with the reasons. Nothing is applied: the caller decides.
pub fn suggest_tags(item: &WorkItem, rules: &RuleSet, use_description: bool) -> (r: Vec<
    TagSuggestion,
>)
    ensures
        views(r@) == suggestions(item@, rules@, use_description),
{
    let mut hay: String = to_lowercase(item.title.as_str());
    if use_description {
        match &item.description {
            Some(d) => {
                hay.push('\n');
                hay.append(to_lowercase(d.as_str()).as_str());
            },
            None => {},
        }
    }
    let mut out: Vec<TagSuggestion> = suggest_by_keyword(
        &rules.tag_keywords,
        &item.tags,
        hay.as_str(),
    );
    add_aliases(&rules.tag_aliases, &item.tags, &mut out);
    let finished: bool = is_done(item, rules);
    if !finished && is_underspecified(item, rules) {
        match refine_tag(rules) {
            Some(tag) => {
                if lacks_required_tag(rules, item) && !carries_tag(&item.tags, tag.as_str())
                    && !suggests_tag(&out, tag.as_str()) {
                    let reasons: Vec<String> = vec![
                        "underspecified - too little detail to tag; refine first".to_owned(),
                    ];
                    assert(views(reasons@)
                        =~= seq!["underspecified - too little detail to tag; refine first"@]);
                    out.push(TagSuggestion { tag, reasons, replaces: None });
                }
            },
            None => {},
        }
    }
    if finished {
        keep_fresh(out, &rules.stale_when_resolved_tags)
    } else {
        out
    }
}

// ---------------------------------------------------------------------------------------------
// Flags on work items
// ---------------------------------------------------------------------------------------------

/// The flag for one tag that speaks of open work on a resolved item.
pub open spec fn stale_tag_flag(item: WorkItemView, tag: Seq<char>) -> FlagView {
    FlagView {
        work_item_id: item.id,
        team: item.team,
        code: FlagCode::StaleStateTag,
        severity: Severity::Warn,
        message: "tag \""@ + tag + "\" implies open work, but the item is resolved (state \""@
            + item.state + "\")"@,
        tag: Some(tag),
    }
}

/// The flags for the tags of the list that match a pattern for open work.
pub open spec fn stale_tag_flags(
    item: WorkItemView,
    patterns: Seq<Seq<char>>,
    tags: Seq<Seq<char>>,
) -> Seq<FlagView>
    decreases tags.len(),
{
    if tags.len() == 0 {
        Seq::empty()
    } else {
        let head = stale_tag_flags(item, patterns, tags.drop_last());
        if any_pattern(patterns, tags.last()) {
            head.push(stale_tag_flag(item, tags.last()))
        } else {
            head
        }
    }
}

/// The flags for tags that contradict a resolved state.
pub open spec fn resolved_flags(item: WorkItemView, rules: RuleSetView) -> Seq<FlagView> {
    if resolved(item, rules) {
        stale_tag_flags(item, rules.stale_when_resolved_tags, item.tags)
    } else {
        Seq::empty()
    }
}

/// The flag for an item without tags.
pub open spec fn untagged_flag(item: WorkItemView, rules: RuleSetView) -> FlagView {
    FlagView {
        work_item_id: item.id,
        team: item.team,
        code: FlagCode::Untagged,
        severity: if rules.untagged_is_error {
            Severity::Error
        } else {
            Severity::Warn
        },
        message: "item has no tags"@,
        tag: None,
    }
}

/// The flags for the required patterns of the list that no tag of the item matches.
pub open spec fn missing_flags(item: WorkItemView, required: Seq<Seq<char>>) -> Seq<FlagView>
    decreases required.len(),
{
    if required.len() == 0 {
        Seq::empty()
    } else {
        let pattern = required.last();
        let head = missing_flags(item, required.drop_last());
        if any_tag(pattern, item.tags) {
            head
        } else {
            head.push(
                FlagView {
                    work_item_id: item.id,
                    team: item.team,
                    code: FlagCode::MissingRequiredTag,
                    severity: Severity::Error,
                    message: "missing required tag matching \""@ + pattern + "\""@,
                    tag: Some(pattern),
                },
            )
        }
    }
}

/// Whether a tag is on the deny list.
pub open spec fn denied(rules: RuleSetView, tag: Seq<char>) -> bool {
    any_pattern(rules.disallowed_tags, tag)
}

/// Whether there is an allow list and the tag is not on it.
pub open spec fn unlisted(rules: RuleSetView, tag: Seq<char>) -> bool {
    rules.allowed_tags.len() > 0 && !any_pattern(rules.allowed_tags, tag)
}

/// The flags for the tags of the list that are denied or unlisted.
pub open spec fn disallowed_flags(
    item: WorkItemView,
    rules: RuleSetView,
    tags: Seq<Seq<char>>,
) -> Seq<FlagView>
    decreases tags.len(),
{
    if tags.len() == 0 {
        Seq::empty()
    } else {
        let tag = tags.last();
        let head = disallowed_flags(item, rules, tags.drop_last());
        if denied(rules, tag) || unlisted(rules, tag) {
            head.push(
                FlagView {
                    work_item_id: item.id,
                    team: item.team,
                    code: FlagCode::DisallowedTag,
                    severity: Severity::Warn,
                    message: "tag \""@ + tag + "\" is "@ + (if denied(rules, tag) {
                        "on the disallowed list"@
                    } else {
                        "not on the allowed list"@
                    }),
                    tag: Some(tag),
                },
            )
        } else {
            head
        }
    }
}

/// The flags about the tags of an item: one where it has none, else one for each missing required
/// pattern and then one for each disallowed tag.
pub open spec fn tag_flags(item: WorkItemView, rules: RuleSetView) -> Seq<FlagView> {
    if item.tags.len() == 0 {
        seq![untagged_flag(item, rules)]
    } else {
        missing_flags(item, rules.required_tags) + disallowed_flags(item, rules, item.tags)
    }
}

/// The flags for the day limits of the list that an item has passed in its state.
pub open spec fn stale_flags(
    item: WorkItemView,
    limits: Seq<StaleRuleView>,
    now: Timestamp,
) -> Seq<FlagView>
    decreases limits.len(),
{
    if limits.len() == 0 {
        Seq::empty()
    } else {
        let rule = limits.last();
        let age = days_between(item.changed_at, now);
        let head = stale_flags(item, limits.drop_last(), now);
        if same_ignoring_case(rule.state, item.state) && age > rule.days {
            head.push(
                FlagView {
                    work_item_id: item.id,
                    team: item.team,
                    code: FlagCode::Stale,
                    severity: Severity::Warn,
                    message: "stale: "@ + signed_decimal(age) + " days in \""@ + item.state
                        + "\" (limit "@ + signed_decimal(rule.days as int) + ")"@,
                    tag: None,
                },
            )
        } else {
            head
        }
    }
}

/// All flags of one item.
pub open spec fn item_flags(item: WorkItemView, rules: RuleSetView, now: Timestamp) -> Seq<
    FlagView,
> {
    if ignored(item, rules) {
        resolved_flags(item, rules)
    } else {
        resolved_flags(item, rules) + tag_flags(item, rules) + stale_flags(
            item,
            rules.stale_days,
            now,
        )
    }
}

/// The flags of a list of items, item by item.
pub open spec fn all_flags(items: Seq<WorkItemView>, rules: RuleSetView, now: Timestamp) -> Seq<
    FlagView,
>
    decreases items.len(),
{
    if items.len() == 0 {
        Seq::empty()
    } else {
        all_flags(items.drop_last(), rules, now) + item_flags(items.last(), rules, now)
    }
}

fn evaluate_resolved_stale_tags(item: &WorkItem, flags: &mut Vec<Flag>, rules: &RuleSet)
    ensures
        views(final(flags)@) == views(old(flags)@) + resolved_flags(item@, rules@),
{
    let ghost start = views(flags@);
    assert(start + Seq::<FlagView>::empty() =~= start);
    if !any_eq_ignoring_case(&rules.resolved_states, item.state.as_str()) {
        return ;
    }
    let ghost tags = item@.tags;
    let ghost patterns = rules@.stale_when_resolved_tags;
    let mut i: usize = 0;
    while i < item.tags.len()
        invariant
            i <= item.tags@.len(),
            tags == item@.tags,
            patterns == rules@.stale_when_resolved_tags,
            views(flags@) == start + stale_tag_flags(item@, patterns, tags.take(i as int)),
        decreases item.tags@.len() - i,
    {
        proof {
            lemma_take_step(tags, i as int);
        }
        let tag: &String = &item.tags[i];
        assert(tag@ == tags[i as int]);
        if any_pattern_matches(&rules.stale_when_resolved_tags, tag.as_str()) {
            let mut message: String = cat3(
                "tag \"",
                tag.as_str(),
                "\" implies open work, but the item is resolved (state \"",
            );
            message.append(item.state.as_str());
            message.append("\")");
            flags.push(
                Flag {
                    work_item_id: item.id,
                    team: item.team.clone(),
                    code: FlagCode::StaleStateTag,
                    severity: Severity::Warn,
                    message,
                    tag: Some(tag.clone()),
                },
            );
            assert(views(flags@) =~= start + stale_tag_flags(item@, patterns, tags.take(i + 1)));
        }
        i += 1;
    }
}

fn flag_missing(item: &WorkItem, rules: &RuleSet, flags: &mut Vec<Flag>)
    ensures
        views(final(flags)@) == views(old(flags)@) + missing_flags(item@, rules@.required_tags),
{
    let ghost start = views(flags@);
    let ghost required = rules@.required_tags;
    let mut i: usize = 0;
    assert(start + Seq::<FlagView>::empty() =~= start);
    while i < rules.required_tags.len()
        invariant
            i <= rules.required_tags@.len(),
            required == rules@.required_tags,
            views(flags@) == start + missing_flags(item@, required.take(i as int)),
        decreases rules.required_tags@.len() - i,
    {
        proof {
            lemma_take_step(required, i as int);
        }
        let pattern: &String = &rules.required_tags[i];
        assert(pattern@ == required[i as int]);
        if !any_tag_matches(pattern.as_str(), item) {
            flags.push(
                Flag {
                    work_item_id: item.id,
                    team: item.team.clone(),
                    code: FlagCode::MissingRequiredTag,
                    severity: Severity::Error,
                    message: cat3("missing required tag matching \"", pattern.as_str(), "\""),
                    tag: Some(pattern.clone()),
                },
            );
            assert(views(flags@) =~= start + missing_flags(item@, required.take(i + 1)));
        }
        i += 1;
    }
}

fn flag_disallowed(item: &WorkItem, rules: &RuleSet, flags: &mut Vec<Flag>)
    ensures
        views(final(flags)@) == views(old(flags)@) + disallowed_flags(item@, rules@, item@.tags),
{
    let ghost start = views(flags@);
    let ghost tags = item@.tags;
    let mut i: usize = 0;
    assert(start + Seq::<FlagView>::empty() =~= start);
    while i < item.tags.len()
        invariant
            i <= item.tags@.len(),
            tags == item@.tags,
            views(flags@) == start + disallowed_flags(item@, rules@, tags.take(i as int)),
        decreases item.tags@.len() - i,
    {
        proof {
            lemma_take_step(tags, i as int);
        }
        let tag: &String = &item.tags[i];
        assert(tag@ == tags[i as int]);
        let on_deny_list: bool = any_pattern_matches(&rules.disallowed_tags, tag.as_str());
        let off_allow_list: bool = rules.allowed_tags.len() > 0 && !any_pattern_matches(
            &rules.allowed_tags,
            tag.as_str(),
        );
        if on_deny_list || off_allow_list {
            let mut message: String = cat3("tag \"", tag.as_str(), "\" is ");
            if on_deny_list {
                message.append("on the disallowed list");
            } else {
                message.append("not on the allowed list");
            }
            flags.push(
                Flag {
                    work_item_id: item.id,
                    team: item.team.clone(),
                    code: FlagCode::DisallowedTag,
                    severity: Severity::Warn,
                    message,
                    tag: Some(tag.clone()),
                },
            );
            assert(views(flags@) =~= start + disallowed_flags(item@, rules@, tags.take(i + 1)));
        }
        i += 1;
    }
}

fn flag_stale(item: &WorkItem, rules: &RuleSet, now: Timestamp, flags: &mut Vec<Flag>)
    ensures
        views(final(flags)@) == views(old(flags)@) + stale_flags(item@, rules@.stale_days, now),
{
    let ghost start = views(flags@);
    let ghost limits = rules@.stale_days;
    let list: Vec<crate::config::StaleRule> = rules.stale_rules();
    let age: i64 = item.days_since_change(now);
    let mut i: usize = 0;
    assert(start + Seq::<FlagView>::empty() =~= start);
    while i < list.len()
        invariant
            i <= list@.len(),
            views(list@) == limits,
            age == days_between(item@.changed_at, now),
            views(flags@) == start + stale_flags(item@, limits.take(i as int), now),
        decreases list@.len() - i,
    {
        proof {
            lemma_take_step(limits, i as int);
        }
        let rule: &crate::config::StaleRule = &list[i];
        assert(rule@ == limits[i as int]);
        if eq_ignoring_case(rule.state.as_str(), item.state.as_str()) && age > rule.days {
            let mut message: String = cat3("stale: ", format_i64(age).as_str(), " days in \"");
            message.append(item.state.as_str());
            message.append("\" (limit ");
            message.append(format_i64(rule.days).as_str());
            message.append(")");
            flags.push(
                Flag {
                    work_item_id: item.id,
                    team: item.team.clone(),
                    code: FlagCode::Stale,
                    severity: Severity::Warn,
                    message,
                    tag: None,
                },
            );
            assert(views(flags@) =~= start + stale_flags(item@, limits.take(i + 1), now));
        }
        i += 1;
    }
}

fn evaluate_item(item: &WorkItem, rules: &RuleSet, now: Timestamp, flags: &mut Vec<Flag>)
    ensures
        views(final(flags)@) == views(old(flags)@) + (tag_flags(item@, rules@) + stale_flags(
            item@,
            rules@.stale_days,
            now,
        )),
{
    let ghost start = views(flags@);
    if item.is_untagged() {
        flags.push(
            Flag {
                work_item_id: item.id,
                team: item.team.clone(),
                code: FlagCode::Untagged,
                severity: if rules.untagged_is_error {
                    Severity::Error
                } else {
                    Severity::Warn
                },
                message: "item has no tags".to_owned(),
                tag: None,
            },
        );
        assert(views(flags@) =~= start + tag_flags(item@, rules@));
    } else {
        flag_missing(item, rules, flags);
        flag_disallowed(item, rules, flags);
        assert(views(flags@) =~= start + tag_flags(item@, rules@));
    }
    flag_stale(item, rules, now, flags);
    assert(views(flags@) =~= start + (tag_flags(item@, rules@) + stale_flags(
        item@,
        rules@.stale_days,
        now,
    )));
}

/// The flags of every item, grouped by item in the order of the list. `now` anchors staleness.
pub fn evaluate(items: &[WorkItem], rules: &RuleSet, now: Timestamp) -> (r: Vec<Flag>)
    ensures
        views(r@) == all_flags(views(items@), rules@, now),
{
    let ghost all = views(items@);
    let mut flags: Vec<Flag> = Vec::new();
    let mut i: usize = 0;
    while i < items.len()
        invariant
            i <= items@.len(),
            all == views(items@),
            views(flags@) == all_flags(all.take(i as int), rules@, now),
        decreases items@.len() - i,
    {
        proof {
            lemma_take_step(all, i as int);
        }
        let item: &WorkItem = &items[i];
        assert(item@ == all[i as int]);
        let ghost start = views(flags@);
        evaluate_resolved_stale_tags(item, &mut flags, rules);
        if !is_ignored(item, rules) {
            evaluate_item(item, rules, now, &mut flags);
        }
        assert(views(flags@) =~= start + item_flags(item@, rules@, now));
        i += 1;
    }
    flags
}

// ---------------------------------------------------------------------------------------------
// Flags on pipelines and pull requests
// ---------------------------------------------------------------------------------------------

/// The flags of a pipeline: it never ran, or its latest run failed, as far as the rules ask.
pub open spec fn pipeline_flags(last: Option<RunStatus>, rules: PipelineRules) -> Seq<
    EntityFlagView,
> {
    let never = EntityFlagView {
        code: "never-run"@,
        severity: Severity::Warn,
        message: "pipeline has never run"@,
    };
    let failing = EntityFlagView {
        code: "failing"@,
        severity: Severity::Error,
        message: "most recent run failed"@,
    };
    if rules.flag_never_run && last is None {
        seq![never]
    } else if rules.flag_failing && last == Some(RunStatus::Failed) {
        seq![failing]
    } else {
        Seq::empty()
    }
}

/// The flags of a pipeline, from the status of its latest run.
pub fn evaluate_pipeline(last_status: Option<RunStatus>, rules: &PipelineRules) -> (r: Vec<
    EntityFlag,
>)
    ensures
        views(r@) =~= pipeline_flags(last_status, *rules),
{
    let mut flags: Vec<EntityFlag> = Vec::new();
    if rules.flag_never_run && last_status.is_none() {
        flags.push(
            EntityFlag {
                code: "never-run".to_owned(),
                severity: Severity::Warn,
                message: "pipeline has never run".to_owned(),
            },
        );
    }
    if rules.flag_failing && matches!(last_status, Some(RunStatus::Failed)) {
        flags.push(
            EntityFlag {
                code: "failing".to_owned(),
                severity: Severity::Error,
                message: "most recent run failed".to_owned(),
            },
        );
    }
    flags
}

/// The flag of a pull request that has been open for longer than its limit.
pub open spec fn pr_age_flags(pr: PullRequestView, rules: PrRules, now: Timestamp) -> Seq<
    EntityFlagView,
> {
    let (limit, code, label) = if pr.is_draft {
        (rules.stale_draft_days, "stale-draft"@, "draft open"@)
    } else {
        (rules.stale_open_days, "stale-open"@, "open"@)
    };
    match (limit, pr.created_at) {
        (Some(days), Some(created)) => {
            let age = days_between(created, now);
            if days > 0 && age > days {
                seq![
                    EntityFlagView {
                        code,
                        severity: Severity::Warn,
                        message: label + " "@ + signed_decimal(age) + " days (limit "@
                            + signed_decimal(days as int) + ")"@,
                    },
                ]
            } else {
                Seq::empty()
            }
        },
        _ => Seq::empty(),
    }
}

/// The flags of a pull request; none unless it is active.
pub open spec fn pr_flags(pr: PullRequestView, rules: PrRules, now: Timestamp) -> Seq<
    EntityFlagView,
> {
    let unlinked = EntityFlagView {
        code: "no-work-item"@,
        severity: Severity::Warn,
        message: "no linked work item"@,
    };
    if pr.status != PrStatus::Active {
        Seq::empty()
    } else if rules.require_work_item && pr.linked_work_items.len() == 0 {
        seq![unlinked] + pr_age_flags(pr, rules, now)
    } else {
        pr_age_flags(pr, rules, now)
    }
}

/// The flags of a pull request. A limit that is absent or not positive is no limit.
pub fn evaluate_pull_request(pr: &PullRequest, rules: &PrRules, now: Timestamp) -> (r: Vec<
    EntityFlag,
>)
    ensures
        views(r@) =~= pr_flags(pr@, *rules, now),
{
    let mut flags: Vec<EntityFlag> = Vec::new();
    if !matches!(pr.status, PrStatus::Active) {
        return flags;
    }
    if rules.require_work_item && pr.linked_work_items.len() == 0 {
        flags.push(
            EntityFlag {
                code: "no-work-item".to_owned(),
                severity: Severity::Warn,
                message: "no linked work item".to_owned(),
            },
        );
    }
    let (limit, code, label): (Option<i64>, &str, &str) = if pr.is_draft {
        (rules.stale_draft_days, "stale-draft", "draft open")
    } else {
        (rules.stale_open_days, "stale-open", "open")
    };
    match (limit, pr.created_at) {
        (Some(days), Some(created)) => {
            let age: i64 = age_in_days(created, now);
            if days > 0 && age > days {
                let mut message: String = cat3(label, " ", format_i64(age).as_str());
                message.append(" days (limit ");
                message.append(format_i64(days).as_str());
                message.append(")");
                flags.push(
                    EntityFlag { code: code.to_owned(), severity: Severity::Warn, message },
                );
            }
        },
        _ => {},
    }
    flags
}

// ---------------------------------------------------------------------------------------------
// Laws
// ---------------------------------------------------------------------------------------------

/// A whole word of a text occurs in the text.
pub proof fn law_word_occurs(h: Seq<char>, n: Seq<char>)
    requires
        has_word(h, n),
    ensures
        occurs(h, n),
{
    let i = choose|i: int| #[trigger] word_at(h, n, i);
    assert(occurs_at(h, n, i));
}

/// Evaluating two lists of items one after the other gives the flags of the first, then those of
/// the second: no item's flags depend on another item.
pub proof fn law_evaluate_item_by_item(
    a: Seq<WorkItemView>,
    b: Seq<WorkItemView>,
    rules: RuleSetView,
    now: Timestamp,
)
    ensures
        all_flags(a + b, rules, now) == all_flags(a, rules, now) + all_flags(b, rules, now),
    decreases b.len(),
{
    if b.len() == 0 {
        assert(a + b =~= a);
        assert(all_flags(a, rules, now) + Seq::<FlagView>::empty() =~= all_flags(a, rules, now));
    } else {
        law_evaluate_item_by_item(a, b.drop_last(), rules, now);
        assert((a + b).drop_last() =~= a + b.drop_last());
        assert((a + b).last() == b.last());
        assert(all_flags(a + b, rules, now) =~= all_flags(a, rules, now) + all_flags(b, rules, now));
    }
}

proof fn lemma_stale_tag_flags_kind(
    item: WorkItemView,
    patterns: Seq<Seq<char>>,
    tags: Seq<Seq<char>>,
)
    ensures
        forall|i: int|
            0 <= i < stale_tag_flags(item, patterns, tags).len() ==> {
                let f = #[trigger] stale_tag_flags(item, patterns, tags)[i];
                f.code == FlagCode::StaleStateTag && f.work_item_id == item.id && f.team
                    == item.team
            },
    decreases tags.len(),
{
    if tags.len() > 0 {
        lemma_stale_tag_flags_kind(item, patterns, tags.drop_last());
    }
}

proof fn lemma_missing_flags_kind(item: WorkItemView, required: Seq<Seq<char>>)
    ensures
        forall|i: int|
            0 <= i < missing_flags(item, required).len() ==> {
                let f = #[trigger] missing_flags(item, required)[i];
                f.code == FlagCode::MissingRequiredTag && f.work_item_id == item.id && f.team
                    == item.team
            },
    decreases required.len(),
{
    if required.len() > 0 {
        lemma_missing_flags_kind(item, required.drop_last());
    }
}

proof fn lemma_disallowed_flags_kind(
    item: WorkItemView,
    rules: RuleSetView,
    tags: Seq<Seq<char>>,
)
    ensures
        forall|i: int|
            0 <= i < disallowed_flags(item, rules, tags).len() ==> {
                let f = #[trigger] disallowed_flags(item, rules, tags)[i];
                f.code == FlagCode::DisallowedTag && f.work_item_id == item.id && f.team
                    == item.team
            },
    decreases tags.len(),
{
    if tags.len() > 0 {
        lemma_disallowed_flags_kind(item, rules, tags.drop_last());
    }
}

proof fn lemma_stale_flags_kind(item: WorkItemView, limits: Seq<StaleRuleView>, now: Timestamp)
    ensures
        forall|i: int|
            0 <= i < stale_flags(item, limits, now).len() ==> {
                let f = #[trigger] stale_flags(item, limits, now)[i];
                f.code == FlagCode::Stale && f.work_item_id == item.id && f.team == item.team
            },
    decreases limits.len(),
{
    if limits.len() > 0 {
        lemma_stale_flags_kind(item, limits.drop_last(), now);
    }
}

/// Every flag of an item names the item and its team.
pub proof fn law_flags_name_their_item(
    item: WorkItemView,
    rules: RuleSetView,
    now: Timestamp,
    i: int,
)
    requires
        0 <= i < item_flags(item, rules, now).len(),
    ensures
        item_flags(item, rules, now)[i].work_item_id == item.id,
        item_flags(item, rules, now)[i].team == item.team,
{
    lemma_stale_tag_flags_kind(item, rules.stale_when_resolved_tags, item.tags);
    lemma_missing_flags_kind(item, rules.required_tags);
    lemma_disallowed_flags_kind(item, rules, item.tags);
    lemma_stale_flags_kind(item, rules.stale_days, now);
}

/// An ignored item is flagged for nothing but tags that contradict its resolved state.
pub proof fn law_ignored_items_only_contradict(
    item: WorkItemView,
    rules: RuleSetView,
    now: Timestamp,
    i: int,
)
    requires
        ignored(item, rules),
        0 <= i < item_flags(item, rules, now).len(),
    ensures
        item_flags(item, rules, now)[i].code == FlagCode::StaleStateTag,
{
    lemma_stale_tag_flags_kind(item, rules.stale_when_resolved_tags, item.tags);
}

/// An item without tags is flagged once for that, and for no missing or disallowed tag besides.
pub proof fn law_untagged_is_flagged_once(
    item: WorkItemView,
    rules: RuleSetView,
    now: Timestamp,
)
    requires
        item.tags.len() == 0,
        !ignored(item, rules),
    ensures
        item_flags(item, rules, now) == seq![untagged_flag(item, rules)] + stale_flags(
            item,
            rules.stale_days,
            now,
        ),
        forall|i: int|
            0 <= i < item_flags(item, rules, now).len() ==> {
                let code = (#[trigger] item_flags(item, rules, now)[i]).code;
                (code == FlagCode::Untagged && i == 0) || code == FlagCode::Stale
            },
{
    assert(resolved_flags(item, rules) =~= Seq::<FlagView>::empty());
    assert(item_flags(item, rules, now) =~= seq![untagged_flag(item, rules)] + stale_flags(
        item,
        rules.stale_days,
        now,
    ));
    lemma_stale_flags_kind(item, rules.stale_days, now);
}

/// An item that is not resolved is never flagged for a tag that speaks of open work.
pub proof fn law_open_items_may_speak_of_open_work(
    item: WorkItemView,
    rules: RuleSetView,
    now: Timestamp,
    i: int,
)
    requires
        !resolved(item, rules),
        0 <= i < item_flags(item, rules, now).len(),
    ensures
        item_flags(item, rules, now)[i].code != FlagCode::StaleStateTag,
{
    lemma_missing_flags_kind(item, rules.required_tags);
    lemma_disallowed_flags_kind(item, rules, item.tags);
    lemma_stale_flags_kind(item, rules.stale_days, now);
}

/// With both switches off, no pipeline is flagged.
pub proof fn law_pipeline_rules_off(last: Option<RunStatus>)
    ensures
        pipeline_flags(last, PipelineRules { flag_failing: false, flag_never_run: false }).len()
            == 0,
{
}

/// A pull request that is not active is never flagged.
pub proof fn law_only_active_prs_are_flagged(
    pr: PullRequestView,
    rules: PrRules,
    now: Timestamp,
)
    requires
        pr.status != PrStatus::Active,
    ensures
        pr_flags(pr, rules, now).len() == 0,
{
}

spec fn none_carried(list: Seq<TagSuggestionView>, tags: Seq<Seq<char>>) -> bool {
    forall|i: int| 0 <= i < list.len() ==> !carries(tags, (#[trigger] list[i]).tag)
}

proof fn lemma_keywords_none_carried(
    list: Seq<TagKeywordsView>,
    tags: Seq<Seq<char>>,
    hay: Seq<char>,
)
    ensures
        none_carried(keyword_suggestions(list, tags, hay), tags),
    decreases list.len(),
{
    if list.len() > 0 {
        lemma_keywords_none_carried(list.drop_last(), tags, hay);
    }
}

proof fn lemma_aliases_none_carried(
    aliases: Seq<TagAliasView>,
    tags: Seq<Seq<char>>,
    list: Seq<TagSuggestionView>,
)
    requires
        none_carried(list, tags),
    ensures
        none_carried(with_aliases(aliases, tags, list), tags),
    decreases aliases.len(),
{
    if aliases.len() > 0 {
        lemma_aliases_none_carried(aliases.drop_last(), tags, list);
    }
}

proof fn lemma_without_stale(
    list: Seq<TagSuggestionView>,
    patterns: Seq<Seq<char>>,
    tags: Seq<Seq<char>>,
)
    ensures
        none_carried(list, tags) ==> none_carried(without_stale(list, patterns), tags),
        forall|i: int|
            0 <= i < without_stale(list, patterns).len() ==> !any_real_pattern(
                patterns,
                (#[trigger] without_stale(list, patterns)[i]).tag,
            ),
    decreases list.len(),
{
    if list.len() > 0 {
        lemma_without_stale(list.drop_last(), patterns, tags);
        if none_carried(list, tags) {
            assert forall|i: int| 0 <= i < list.drop_last().len() implies !carries(
                tags,
                (#[trigger] list.drop_last()[i]).tag,
            ) by {
                assert(!carries(tags, list[i].tag));
            }
            assert(!carries(tags, list[list.len() - 1].tag));
        }
    }
}

/// No tag is suggested that the item carries already, whatever its case.
pub proof fn law_no_suggestion_is_carried(
    item: WorkItemView,
    rules: RuleSetView,
    use_description: bool,
    i: int,
)
    requires
        0 <= i < suggestions(item, rules, use_description).len(),
    ensures
        !carries(item.tags, suggestions(item, rules, use_description)[i].tag),
{
    let hay = haystack_of(item, use_description);
    let by_keyword = keyword_suggestions(rules.tag_keywords, item.tags, hay);
    lemma_keywords_none_carried(rules.tag_keywords, item.tags, hay);
    let by_alias = with_aliases(rules.tag_aliases, item.tags, by_keyword);
    lemma_aliases_none_carried(rules.tag_aliases, item.tags, by_keyword);
    let all = with_refinement(item, rules, by_alias);
    assert(none_carried(all, item.tags));
    lemma_without_stale(all, rules.stale_when_resolved_tags, item.tags);
}

/// On an item that is done no tag is suggested that speaks of open work: what is suggested would
/// not be flagged at once as contradicting the state.
pub proof fn law_done_items_get_no_open_work_tag(
    item: WorkItemView,
    rules: RuleSetView,
    use_description: bool,
    i: int,
)
    requires
        done(item, rules),
        0 <= i < suggestions(item, rules, use_description).len(),
    ensures
        !any_real_pattern(
            rules.stale_when_resolved_tags,
            suggestions(item, rules, use_description)[i].tag,
        ),
{
    let hay = haystack_of(item, use_description);
    let by_keyword = keyword_suggestions(rules.tag_keywords, item.tags, hay);
    let by_alias = with_aliases(rules.tag_aliases, item.tags, by_keyword);
    let all = with_refinement(item, rules, by_alias);
    lemma_without_stale(all, rules.stale_when_resolved_tags, item.tags);
}

/// Without keywords, aliases and a refine tag, nothing is suggested.
pub proof fn law_no_rules_no_suggestions(
    item: WorkItemView,
    rules: RuleSetView,
    use_description: bool,
)
    requires
        rules.tag_keywords.len() == 0,
        rules.tag_aliases.len() == 0,
        rules.refine_tag is None,
    ensures
        suggestions(item, rules, use_description).len() == 0,
{
}

spec fn all_distinct(list: Seq<TagSuggestionView>) -> bool {
    forall|i: int, j: int|
        0 <= i < j < list.len() ==> lowercase((#[trigger] list[i]).tag) != lowercase(
            (#[trigger] list[j]).tag,
        )
}

proof fn lemma_push_distinct(list: Seq<TagSuggestionView>, s: TagSuggestionView)
    requires
        all_distinct(list),
        !suggests(list, s.tag),
    ensures
        all_distinct(list.push(s)),
{
    let longer = list.push(s);
    assert forall|i: int, j: int| 0 <= i < j < longer.len() implies lowercase(
        (#[trigger] longer[i]).tag,
    ) != lowercase((#[trigger] longer[j]).tag) by {
        assert(longer[i] == list[i]);
        if j < list.len() {
            assert(longer[j] == list[j]);
        }
    }
}

proof fn lemma_aliases_distinct(
    aliases: Seq<TagAliasView>,
    tags: Seq<Seq<char>>,
    list: Seq<TagSuggestionView>,
)
    requires
        all_distinct(list),
    ensures
        all_distinct(with_aliases(aliases, tags, list)),
    decreases aliases.len(),
{
    if aliases.len() > 0 {
        lemma_aliases_distinct(aliases.drop_last(), tags, list);
        let head = with_aliases(aliases.drop_last(), tags, list);
        let to = trimmed(aliases.last().to);
        if !suggests(head, to) {
            let all = with_aliases(aliases, tags, list);
            if all != head {
                lemma_push_distinct(head, all.last());
                assert(all =~= head.push(all.last()));
            }
        }
    }
}

/// The rewrites and the refine tag add no tag a second time: where keywords suggest each tag at
/// most once, an open item is suggested each tag at most once.
pub proof fn law_no_tag_is_suggested_twice(
    item: WorkItemView,
    rules: RuleSetView,
    use_description: bool,
    i: int,
    j: int,
)
    requires
        !done(item, rules),
        forall|a: int, b: int|
            0 <= a < b < keyword_suggestions(
                rules.tag_keywords,
                item.tags,
                haystack_of(item, use_description),
            ).len() ==> lowercase(
                (#[trigger] keyword_suggestions(
                    rules.tag_keywords,
                    item.tags,
                    haystack_of(item, use_description),
                )[a]).tag,
            ) != lowercase(
                (#[trigger] keyword_suggestions(
                    rules.tag_keywords,
                    item.tags,
                    haystack_of(item, use_description),
                )[b]).tag,
            ),
        0 <= i < j < suggestions(item, rules, use_description).len(),
    ensures
        lowercase(suggestions(item, rules, use_description)[i].tag) != lowercase(
            suggestions(item, rules, use_description)[j].tag,
        ),
{
    let hay = haystack_of(item, use_description);
    let by_keyword = keyword_suggestions(rules.tag_keywords, item.tags, hay);
    assert(all_distinct(by_keyword));
    let by_alias = with_aliases(rules.tag_aliases, item.tags, by_keyword);
    lemma_aliases_distinct(rules.tag_aliases, item.tags, by_keyword);
    let all = with_refinement(item, rules, by_alias);
    if all != by_alias {
        lemma_push_distinct(by_alias, all.last());
        assert(all =~= by_alias.push(all.last()));
    }
    assert(all_distinct(all));
}

} // verus!
