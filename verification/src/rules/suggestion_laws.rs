//! What the suggestions promise: which tags are suggested, why, and in which order, in terms of the
//! item and the rules.
use super::laws::{exempt, on_list};
use super::{
    body_of, carries, done, haystack_of, keyword_hits, keyword_suggestions, matches_tag, prose,
    suggestions, suggests, with_alias, with_aliases, with_refinement, without_stale, has_word,
    lacks_required, refine_tag_of, underspecified, word_at, any_phrase, any_real_pattern, any_tag,
    first_match, is_prose, prose_words, WORD_PUNCTUATION,
};
use crate::config::{RuleSetView, TagAliasView, TagKeywordsView};
use crate::flag::TagSuggestionView;
use crate::text::{
    has_prefix, is_ascii_alnum, joined, lower, lowercase, occurs, occurs_at, stripped, trimmed,
    words,
};
use crate::work_item::WorkItemView;
use vstd::prelude::*;

verus! {

// ---------------------------------------------------------------------------------------------
// Words for what goes in and what comes out
// ---------------------------------------------------------------------------------------------

/// Whether the rules still look at an item as open work: neither exempt nor resolved.
pub open spec fn open_item(item: WorkItemView, rules: RuleSetView) -> bool {
    !exempt(item, rules) && !on_list(rules.resolved_states, item.state)
}

/// Whether a tag is among others but for case.
pub open spec fn held(tags: Seq<Seq<char>>, tag: Seq<char>) -> bool {
    exists|k: int| 0 <= k < tags.len() && lowercase(#[trigger] tags[k]) == lowercase(tag)
}

/// Whether a suggestion of a tag, but for case, is among others.
pub open spec fn offered(list: Seq<TagSuggestionView>, tag: Seq<char>) -> bool {
    exists|k: int| 0 <= k < list.len() && lowercase((#[trigger] list[k]).tag) == lowercase(tag)
}

/// The text that is searched for keywords.
pub open spec fn searched(item: WorkItemView, use_description: bool) -> Seq<char> {
    if use_description && item.description is Some {
        lowercase(item.title) + seq!['\n'] + lowercase(item.description->0)
    } else {
        lowercase(item.title)
    }
}

/// Whether a keyword stands in a text as a whole word.
pub open spec fn stands(text: Seq<char>, keyword: Seq<char>) -> bool {
    keyword.len() > 0 && has_word(text, lowercase(keyword))
}

/// The keywords, without white space around them, that stand in a text.
pub open spec fn found(keywords: Seq<Seq<char>>, text: Seq<char>) -> Seq<Seq<char>> {
    keywords.map_values(|k: Seq<char>| trimmed(k)).filter(|k: Seq<char>| stands(text, k))
}

/// The keyword entries that speak for an item: of a tag that it does not carry and with a keyword
/// that stands in its text.
pub open spec fn speaking(
    entries: Seq<TagKeywordsView>,
    tags: Seq<Seq<char>>,
    text: Seq<char>,
) -> Seq<TagKeywordsView> {
    entries.filter(
        |e: TagKeywordsView|
            trimmed(e.tag).len() > 0 && !held(tags, e.tag) && found(e.keywords, text).len() > 0,
    )
}

/// Whether an alias applies: the item carries a tag that it rewrites and not the one it asks for.
pub open spec fn applies(alias: TagAliasView, tags: Seq<Seq<char>>) -> bool {
    &&& trimmed(alias.from).len() > 0
    &&& trimmed(alias.to).len() > 0
    &&& !held(tags, trimmed(alias.to))
    &&& exists|m: int| 0 <= m < tags.len() && matches_tag(trimmed(alias.from), #[trigger] tags[m])
}

/// Whether a suggestion is the rewrite that the alias at a place asks for: of the first tag that the
/// alias matches, and asked for by no earlier alias.
pub open spec fn rewrites(
    s: TagSuggestionView,
    aliases: Seq<TagAliasView>,
    tags: Seq<Seq<char>>,
    a: int,
) -> bool {
    &&& 0 <= a < aliases.len()
    &&& applies(aliases[a], tags)
    &&& s.tag == trimmed(aliases[a].to)
    &&& s.replaces is Some
    &&& s.reasons == seq!["replaces \""@ + s.replaces->0 + "\""@]
    &&& exists|m: int|
        0 <= m < tags.len() && #[trigger] tags[m] == s.replaces->0 && matches_tag(
            trimmed(aliases[a].from),
            tags[m],
        ) && forall|l: int|
            0 <= l < m ==> !matches_tag(trimmed(aliases[a].from), #[trigger] tags[l])
    &&& forall|b: int|
        0 <= b < a && applies(#[trigger] aliases[b], tags) ==> lowercase(trimmed(aliases[b].to))
            != lowercase(s.tag)
}

/// Whether a suggestion is a rewrite that some alias asks for.
pub open spec fn is_rewrite(
    s: TagSuggestionView,
    aliases: Seq<TagAliasView>,
    tags: Seq<Seq<char>>,
) -> bool {
    exists|a: int| rewrites(s, aliases, tags, a)
}

/// Whether two suggestions are rewrites, the first for an earlier alias than the second.
pub open spec fn rewrites_in_order(
    s: TagSuggestionView,
    t: TagSuggestionView,
    aliases: Seq<TagAliasView>,
    tags: Seq<Seq<char>>,
) -> bool {
    exists|a: int, b: int|
        a < b && #[trigger] rewrites(s, aliases, tags, a) && #[trigger] rewrites(
            t,
            aliases,
            tags,
            b,
        )
}

/// Whether a description says too little: a placeholder phrase stands in its prose, or the prose is
/// shorter than the rules ask.
pub open spec fn says_too_little(item: WorkItemView, rules: RuleSetView) -> bool {
    let body = match item.description {
        Some(d) => prose(d),
        None => Seq::empty(),
    };
    let least: int = match rules.refine_min_chars {
        Some(n) => n as int,
        None => 40,
    };
    ||| body.len() < least
    ||| exists|i: int|
        0 <= i < rules.refine_phrases.len() && trimmed(#[trigger] rules.refine_phrases[i]).len() > 0
            && occurs(lowercase(body), lowercase(trimmed(rules.refine_phrases[i])))
}

/// Whether a required pattern is met by no tag.
pub open spec fn misses_required(required: Seq<Seq<char>>, tags: Seq<Seq<char>>) -> bool {
    exists|i: int|
        0 <= i < required.len() && trimmed(#[trigger] required[i]).len() > 0 && forall|m: int|
            0 <= m < tags.len() ==> !matches_tag(trimmed(required[i]), #[trigger] tags[m])
}

/// Whether an item is to be refined before it is tagged.
pub open spec fn to_refine(item: WorkItemView, rules: RuleSetView) -> bool {
    &&& rules.refine_tag is Some
    &&& trimmed(rules.refine_tag->0).len() > 0
    &&& says_too_little(item, rules)
    &&& misses_required(rules.required_tags, item.tags)
    &&& !held(item.tags, trimmed(rules.refine_tag->0))
}

// ---------------------------------------------------------------------------------------------
// Lemmas
// ---------------------------------------------------------------------------------------------

proof fn lemma_open(item: WorkItemView, rules: RuleSetView)
    ensures
        open_item(item, rules) == !done(item, rules),
{
    super::laws::lemma_exempt(item, rules);
}

proof fn lemma_searched(item: WorkItemView, use_description: bool)
    ensures
        searched(item, use_description) == haystack_of(item, use_description),
{
    assert(searched(item, use_description) =~= haystack_of(item, use_description));
}

proof fn lemma_found(keywords: Seq<Seq<char>>, text: Seq<char>)
    ensures
        found(keywords, text) == keyword_hits(keywords, text),
    decreases keywords.len(),
{
    reveal(Seq::filter);
    let cut = keywords.map_values(|k: Seq<char>| trimmed(k));
    if keywords.len() > 0 {
        let head = keywords.drop_last();
        lemma_found(head, text);
        assert(cut.drop_last() =~= head.map_values(|k: Seq<char>| trimmed(k)));
        assert(cut.last() == trimmed(keywords.last()));
    } else {
        assert(found(keywords, text) =~= keyword_hits(keywords, text));
    }
}

proof fn lemma_speaking(entries: Seq<TagKeywordsView>, tags: Seq<Seq<char>>, text: Seq<char>)
    ensures
        keyword_suggestions(entries, tags, text).len() == speaking(entries, tags, text).len(),
        forall|i: int|
            0 <= i < speaking(entries, tags, text).len() ==> #[trigger] keyword_suggestions(
                entries,
                tags,
                text,
            )[i] == (TagSuggestionView {
                tag: speaking(entries, tags, text)[i].tag,
                reasons: found(speaking(entries, tags, text)[i].keywords, text),
                replaces: None,
            }),
    decreases entries.len(),
{
    reveal(Seq::filter);
    if entries.len() > 0 {
        lemma_speaking(entries.drop_last(), tags, text);
        lemma_found(entries.last().keywords, text);
        assert(held(tags, entries.last().tag) == carries(tags, entries.last().tag));
    }
}

proof fn lemma_first_match(pattern: Seq<char>, tags: Seq<Seq<char>>)
    ensures
        match first_match(pattern, tags) {
            Some(t) => exists|m: int|
                0 <= m < tags.len() && #[trigger] tags[m] == t && matches_tag(pattern, tags[m])
                    && forall|l: int| 0 <= l < m ==> !matches_tag(pattern, #[trigger] tags[l]),
            None => forall|l: int|
                0 <= l < tags.len() ==> !matches_tag(pattern, #[trigger] tags[l]),
        },
    decreases tags.len(),
{
    if tags.len() > 0 {
        let head = tags.drop_last();
        lemma_first_match(pattern, head);
        assert forall|l: int| 0 <= l < head.len() implies #[trigger] tags[l] == head[l] by {}
        if first_match(pattern, head) is Some {
            let t = first_match(pattern, head)->0;
            let m = choose|m: int|
                0 <= m < head.len() && #[trigger] head[m] == t && matches_tag(pattern, head[m])
                    && forall|l: int| 0 <= l < m ==> !matches_tag(pattern, #[trigger] head[l]);
            assert(tags[m] == t);
            assert forall|l: int| 0 <= l < m implies !matches_tag(pattern, #[trigger] tags[l]) by {
                assert(!matches_tag(pattern, head[l]));
            }
        } else {
            assert forall|l: int| 0 <= l < head.len() implies !matches_tag(
                pattern,
                #[trigger] tags[l],
            ) by {
                assert(!matches_tag(pattern, head[l]));
            }
            if matches_tag(pattern, tags.last()) {
                assert(tags[tags.len() - 1] == tags.last());
            }
        }
    }
}

proof fn lemma_aliases(
    aliases: Seq<TagAliasView>,
    tags: Seq<Seq<char>>,
    list: Seq<TagSuggestionView>,
)
    ensures
        with_aliases(aliases, tags, list).len() >= list.len(),
        with_aliases(aliases, tags, list).take(list.len() as int) == list,
        forall|i: int|
            list.len() <= i < with_aliases(aliases, tags, list).len() ==> is_rewrite(
                #[trigger] with_aliases(aliases, tags, list)[i],
                aliases,
                tags,
            ),
        forall|b: int|
            0 <= b < aliases.len() && applies(#[trigger] aliases[b], tags) ==> offered(
                with_aliases(aliases, tags, list),
                trimmed(aliases[b].to),
            ),
        forall|i: int, j: int|
            list.len() <= i < j < with_aliases(aliases, tags, list).len() ==> rewrites_in_order(
                #[trigger] with_aliases(aliases, tags, list)[i],
                #[trigger] with_aliases(aliases, tags, list)[j],
                aliases,
                tags,
            ),
    decreases aliases.len(),
{
    let out = with_aliases(aliases, tags, list);
    if aliases.len() == 0 {
        assert(list.take(list.len() as int) =~= list);
    } else {
        let head = aliases.drop_last();
        let before = with_aliases(head, tags, list);
        let alias = aliases.last();
        let from = trimmed(alias.from);
        let to = trimmed(alias.to);
        let at = aliases.len() - 1;
        lemma_aliases(head, tags, list);
        lemma_first_match(from, tags);
        assert(held(tags, to) == carries(tags, to));
        assert(offered(before, to) == suggests(before, to));
        assert forall|b: int| 0 <= b < head.len() implies #[trigger] aliases[b] == head[b] by {}
        // What the earlier aliases gave is a rewrite for the longer list, too.
        assert forall|i: int, a: int|
            list.len() <= i < before.len() && #[trigger] rewrites(
                before[i],
                head,
                tags,
                a,
            ) implies rewrites(before[i], aliases, tags, a) by {
            assert forall|b: int| 0 <= b < a && applies(#[trigger] aliases[b], tags) implies
                lowercase(trimmed(aliases[b].to)) != lowercase(before[i].tag) by {
                assert(applies(head[b], tags));
            }
        }
        let grows = out != before;
        if grows {
            assert(out =~= before.push(out.last()));
            let s = out.last();
            assert(applies(alias, tags));
            assert(rewrites(s, aliases, tags, at)) by {
                assert forall|b: int| 0 <= b < at && applies(#[trigger] aliases[b], tags) implies
                    lowercase(trimmed(aliases[b].to)) != lowercase(s.tag) by {
                    assert(applies(head[b], tags));
                    assert(offered(before, trimmed(head[b].to)));
                    let k = choose|k: int|
                        0 <= k < before.len() && lowercase((#[trigger] before[k]).tag)
                            == lowercase(trimmed(head[b].to));
                    assert(lowercase(before[k].tag) != lowercase(to));
                }
            }
        }
        assert(out.take(list.len() as int) =~= before.take(list.len() as int));
        assert forall|i: int| list.len() <= i < out.len() implies is_rewrite(
            #[trigger] out[i],
            aliases,
            tags,
        ) by {
            if i < before.len() {
                assert(out[i] == before[i]);
                assert(is_rewrite(before[i], head, tags));
                let a = choose|a: int| rewrites(before[i], head, tags, a);
                assert(rewrites(before[i], aliases, tags, a));
            } else {
                assert(rewrites(out[i], aliases, tags, at));
            }
        }
        assert forall|b: int| 0 <= b < aliases.len() && applies(#[trigger] aliases[b], tags) implies
            offered(out, trimmed(aliases[b].to)) by {
            if b < at {
                assert(applies(head[b], tags));
                let k = choose|k: int|
                    0 <= k < before.len() && lowercase((#[trigger] before[k]).tag) == lowercase(
                        trimmed(head[b].to),
                    );
                assert(out[k] == before[k]);
            } else if grows {
                assert(out[out.len() - 1].tag == to);
            } else {
                if !suggests(before, to) {
                    let m = choose|m: int|
                        0 <= m < tags.len() && matches_tag(from, #[trigger] tags[m]);
                    assert(first_match(from, tags) is Some);
                    assert(out.len() == before.len() + 1);
                }
                let k = choose|k: int|
                    0 <= k < before.len() && lowercase((#[trigger] before[k]).tag) == lowercase(to);
                assert(out[k] == before[k]);
            }
        }
        assert forall|i: int, j: int| list.len() <= i < j < out.len() implies rewrites_in_order(
            #[trigger] out[i],
            #[trigger] out[j],
            aliases,
            tags,
        ) by {
            assert(out[i] == before[i]);
            if j < before.len() {
                assert(out[j] == before[j]);
                assert(rewrites_in_order(before[i], before[j], head, tags));
                let (a, b) = choose|a: int, b: int|
                    a < b && #[trigger] rewrites(before[i], head, tags, a)
                        && #[trigger] rewrites(before[j], head, tags, b);
                assert(rewrites(before[i], aliases, tags, a));
                assert(rewrites(before[j], aliases, tags, b));
            } else {
                assert(is_rewrite(before[i], head, tags));
                let a = choose|a: int| rewrites(before[i], head, tags, a);
                assert(rewrites(before[i], aliases, tags, a));
                assert(rewrites(out[j], aliases, tags, at));
                assert(a < at);
            }
        }
    }
}

proof fn lemma_lacks(required: Seq<Seq<char>>, tags: Seq<Seq<char>>)
    ensures
        misses_required(required, tags) == lacks_required(required, tags),
{
    if misses_required(required, tags) {
        let i = choose|i: int|
            0 <= i < required.len() && trimmed(#[trigger] required[i]).len() > 0 && forall|m: int|
                0 <= m < tags.len() ==> !matches_tag(trimmed(required[i]), #[trigger] tags[m]);
        assert(!any_tag(trimmed(required[i]), tags));
    }
    if lacks_required(required, tags) {
        let i = choose|i: int|
            0 <= i < required.len() && trimmed(#[trigger] required[i]).len() > 0 && !any_tag(
                trimmed(required[i]),
                tags,
            );
        assert forall|m: int| 0 <= m < tags.len() implies !matches_tag(
            trimmed(required[i]),
            #[trigger] tags[m],
        ) by {}
    }
}

proof fn lemma_too_little(item: WorkItemView, rules: RuleSetView)
    requires
        refine_tag_of(rules) is Some,
    ensures
        says_too_little(item, rules) == underspecified(item, rules),
{
    let body = body_of(item);
    if any_phrase(rules.refine_phrases, body) {
        let i = choose|i: int|
            0 <= i < rules.refine_phrases.len() && trimmed(#[trigger] rules.refine_phrases[i]).len()
                > 0 && occurs(lowercase(body), lowercase(trimmed(rules.refine_phrases[i])));
        assert(trimmed(rules.refine_phrases[i]).len() > 0);
    }
}

proof fn lemma_fresh(list: Seq<TagSuggestionView>, patterns: Seq<Seq<char>>)
    ensures
        without_stale(list, patterns) == list.filter(
            |s: TagSuggestionView| !speaks_of_open_work(patterns, s.tag),
        ),
    decreases list.len(),
{
    reveal(Seq::filter);
    if list.len() > 0 {
        lemma_fresh(list.drop_last(), patterns);
        assert(speaks_of_open_work(patterns, list.last().tag) == any_real_pattern(
            patterns,
            list.last().tag,
        ));
    }
}

/// Whether a pattern for open work, blank ones aside, matches a tag.
pub open spec fn speaks_of_open_work(patterns: Seq<Seq<char>>, tag: Seq<char>) -> bool {
    exists|i: int|
        0 <= i < patterns.len() && trimmed(#[trigger] patterns[i]).len() > 0 && matches_tag(
            trimmed(patterns[i]),
            tag,
        )
}

// ---------------------------------------------------------------------------------------------
// Laws
// ---------------------------------------------------------------------------------------------

/// On an open item, the suggestions start with the keyword entries that speak for it, one for each
/// in the order of the rules, with the keywords that were found as the reasons. What follows is
/// rewrites, and at the very end perhaps the refine tag.
pub proof fn law_keywords_speak_first(
    item: WorkItemView,
    rules: RuleSetView,
    use_description: bool,
)
    requires
        open_item(item, rules),
    ensures
        ({
            let all = suggestions(item, rules, use_description);
            let text = searched(item, use_description);
            let first = speaking(rules.tag_keywords, item.tags, text);
            &&& first.len() <= all.len()
            &&& forall|i: int|
                0 <= i < first.len() ==> #[trigger] all[i] == (TagSuggestionView {
                    tag: first[i].tag,
                    reasons: found(first[i].keywords, text),
                    replaces: None,
                })
            &&& forall|i: int|
                first.len() <= i < all.len() ==> {
                    ||| is_rewrite(#[trigger] all[i], rules.tag_aliases, item.tags)
                    ||| i == all.len() - 1 && to_refine(item, rules) && all[i]
                        == (TagSuggestionView {
                        tag: trimmed(rules.refine_tag->0),
                        reasons: seq!["underspecified - too little detail to tag; refine first"@],
                        replaces: None,
                    })
                }
        }),
{
    lemma_open(item, rules);
    lemma_searched(item, use_description);
    let text = searched(item, use_description);
    lemma_speaking(rules.tag_keywords, item.tags, text);
    let by_keyword = keyword_suggestions(rules.tag_keywords, item.tags, text);
    lemma_aliases(rules.tag_aliases, item.tags, by_keyword);
    let by_alias = with_aliases(rules.tag_aliases, item.tags, by_keyword);
    let all = suggestions(item, rules, use_description);
    assert(all == with_refinement(item, rules, by_alias));
    lemma_lacks(rules.required_tags, item.tags);
    if refine_tag_of(rules) is Some {
        lemma_too_little(item, rules);
        let tag = refine_tag_of(rules)->0;
        assert(held(item.tags, tag) == carries(item.tags, tag));
    }
    assert forall|i: int| 0 <= i < by_keyword.len() implies #[trigger] all[i] == by_keyword[i] by {
        assert(all[i] == by_alias[i]);
        assert(by_alias.take(by_keyword.len() as int)[i] == by_keyword[i]);
    }
    assert forall|i: int| by_keyword.len() <= i < all.len() implies {
        ||| is_rewrite(#[trigger] all[i], rules.tag_aliases, item.tags)
        ||| i == all.len() - 1 && to_refine(item, rules) && all[i] == (TagSuggestionView {
            tag: trimmed(rules.refine_tag->0),
            reasons: seq!["underspecified - too little detail to tag; refine first"@],
            replaces: None,
        })
    } by {
        if i < by_alias.len() {
            assert(all[i] == by_alias[i]);
        }
    }
}

/// A tag of the rules with a keyword that stands in the title as a whole word is suggested for every
/// open item that does not carry the tag, whatever else it carries; the keyword is among the
/// reasons.
pub proof fn law_keyword_in_the_title(
    item: WorkItemView,
    rules: RuleSetView,
    use_description: bool,
    e: int,
    k: int,
)
    requires
        open_item(item, rules),
        0 <= e < rules.tag_keywords.len(),
        trimmed(rules.tag_keywords[e].tag).len() > 0,
        !held(item.tags, rules.tag_keywords[e].tag),
        0 <= k < rules.tag_keywords[e].keywords.len(),
        stands(lowercase(item.title), trimmed(rules.tag_keywords[e].keywords[k])),
    ensures
        exists|i: int|
            0 <= i < suggestions(item, rules, use_description).len() && {
                let s = #[trigger] suggestions(item, rules, use_description)[i];
                s.tag == rules.tag_keywords[e].tag && s.reasons.contains(
                    trimmed(rules.tag_keywords[e].keywords[k]),
                )
            },
{
    let text = searched(item, use_description);
    let title = lowercase(item.title);
    let word = lowercase(trimmed(rules.tag_keywords[e].keywords[k]));
    let at = choose|at: int| #[trigger] word_at(title, word, at);
    assert(word_at(text, word, at)) by {
        assert(text.subrange(at, at + word.len()) =~= title.subrange(at, at + word.len()));
    }
    lemma_keyword_speaks(item, rules, use_description, e, k);
}

/// Where descriptions count, a keyword that stands in the description as a whole word does the same.
pub proof fn law_keyword_in_the_description(
    item: WorkItemView,
    rules: RuleSetView,
    e: int,
    k: int,
)
    requires
        open_item(item, rules),
        item.description is Some,
        0 <= e < rules.tag_keywords.len(),
        trimmed(rules.tag_keywords[e].tag).len() > 0,
        !held(item.tags, rules.tag_keywords[e].tag),
        0 <= k < rules.tag_keywords[e].keywords.len(),
        stands(lowercase(item.description->0), trimmed(rules.tag_keywords[e].keywords[k])),
    ensures
        exists|i: int|
            0 <= i < suggestions(item, rules, true).len() && {
                let s = #[trigger] suggestions(item, rules, true)[i];
                s.tag == rules.tag_keywords[e].tag && s.reasons.contains(
                    trimmed(rules.tag_keywords[e].keywords[k]),
                )
            },
{
    let text = searched(item, true);
    let title = lowercase(item.title);
    let body = lowercase(item.description->0);
    let word = lowercase(trimmed(rules.tag_keywords[e].keywords[k]));
    let at = choose|at: int| #[trigger] word_at(body, word, at);
    let here = title.len() + 1 + at;
    assert(word_at(text, word, here)) by {
        assert(text.subrange(here, here + word.len()) =~= body.subrange(at, at + word.len()));
        assert(text[title.len() as int] == '\n');
    }
    lemma_keyword_speaks(item, rules, true, e, k);
}

proof fn lemma_keyword_speaks(
    item: WorkItemView,
    rules: RuleSetView,
    use_description: bool,
    e: int,
    k: int,
)
    requires
        open_item(item, rules),
        0 <= e < rules.tag_keywords.len(),
        trimmed(rules.tag_keywords[e].tag).len() > 0,
        !held(item.tags, rules.tag_keywords[e].tag),
        0 <= k < rules.tag_keywords[e].keywords.len(),
        stands(searched(item, use_description), trimmed(rules.tag_keywords[e].keywords[k])),
    ensures
        exists|i: int|
            0 <= i < suggestions(item, rules, use_description).len() && {
                let s = #[trigger] suggestions(item, rules, use_description)[i];
                s.tag == rules.tag_keywords[e].tag && s.reasons.contains(
                    trimmed(rules.tag_keywords[e].keywords[k]),
                )
            },
{
    let text = searched(item, use_description);
    let entry = rules.tag_keywords[e];
    let cut = entry.keywords.map_values(|k: Seq<char>| trimmed(k));
    let is_found = |k: Seq<char>| stands(text, k);
    assert(cut[k] == trimmed(entry.keywords[k]));
    cut.lemma_filter_contains(is_found, k);
    assert(found(entry.keywords, text).contains(cut[k]));
    let speaks = |e: TagKeywordsView|
        trimmed(e.tag).len() > 0 && !held(item.tags, e.tag) && found(e.keywords, text).len() > 0;
    rules.tag_keywords.lemma_filter_contains(speaks, e);
    let first = speaking(rules.tag_keywords, item.tags, text);
    assert(first.contains(entry));
    let i = choose|i: int| 0 <= i < first.len() && first[i] == entry;
    law_keywords_speak_first(item, rules, use_description);
    assert(suggestions(item, rules, use_description)[i].tag == entry.tag);
}

/// Where descriptions do not count, two items that differ only in their descriptions get the same
/// suggestions, as long as the rules name no refine tag.
pub proof fn law_description_counts_only_when_asked(
    item: WorkItemView,
    other: Option<Seq<char>>,
    rules: RuleSetView,
)
    requires
        rules.refine_tag is None,
    ensures
        suggestions(WorkItemView { description: other, ..item }, rules, false) == suggestions(
            item,
            rules,
            false,
        ),
{
}

/// A tag that an alias rewrites is suggested under its new name for every open item that carries the
/// old tag and not the new one.
pub proof fn law_legacy_tags_are_rewritten(
    item: WorkItemView,
    rules: RuleSetView,
    use_description: bool,
    a: int,
)
    requires
        open_item(item, rules),
        0 <= a < rules.tag_aliases.len(),
        applies(rules.tag_aliases[a], item.tags),
    ensures
        offered(suggestions(item, rules, use_description), trimmed(rules.tag_aliases[a].to)),
{
    lemma_open(item, rules);
    let by_keyword = keyword_suggestions(
        rules.tag_keywords,
        item.tags,
        haystack_of(item, use_description),
    );
    lemma_aliases(rules.tag_aliases, item.tags, by_keyword);
    let by_alias = with_aliases(rules.tag_aliases, item.tags, by_keyword);
    let to = trimmed(rules.tag_aliases[a].to);
    let k = choose|k: int|
        0 <= k < by_alias.len() && lowercase((#[trigger] by_alias[k]).tag) == lowercase(to);
    assert(suggestions(item, rules, use_description)[k] == by_alias[k]);
}

/// Rewrites come in the order of the aliases.
pub proof fn law_rewrites_follow_the_aliases(
    item: WorkItemView,
    rules: RuleSetView,
    use_description: bool,
    i: int,
    j: int,
)
    requires
        open_item(item, rules),
        0 <= i < j < suggestions(item, rules, use_description).len(),
        suggestions(item, rules, use_description)[i].replaces is Some,
        suggestions(item, rules, use_description)[j].replaces is Some,
    ensures
        rewrites_in_order(
            suggestions(item, rules, use_description)[i],
            suggestions(item, rules, use_description)[j],
            rules.tag_aliases,
            item.tags,
        ),
{
    lemma_open(item, rules);
    law_keywords_speak_first(item, rules, use_description);
    let text = searched(item, use_description);
    lemma_searched(item, use_description);
    lemma_speaking(rules.tag_keywords, item.tags, text);
    let by_keyword = keyword_suggestions(rules.tag_keywords, item.tags, text);
    lemma_aliases(rules.tag_aliases, item.tags, by_keyword);
    let by_alias = with_aliases(rules.tag_aliases, item.tags, by_keyword);
    let all = suggestions(item, rules, use_description);
    assert(all == with_refinement(item, rules, by_alias));
    assert(all[i].replaces is Some);
    assert(i >= by_keyword.len());
    assert(j < by_alias.len());
    assert(all[i] == by_alias[i] && all[j] == by_alias[j]);
}

/// The refine tag is suggested for every open item that says too little, misses a required tag and
/// does not carry the refine tag.
pub proof fn law_items_that_say_too_little_are_to_be_refined(
    item: WorkItemView,
    rules: RuleSetView,
    use_description: bool,
)
    requires
        open_item(item, rules),
        to_refine(item, rules),
    ensures
        offered(suggestions(item, rules, use_description), trimmed(rules.refine_tag->0)),
{
    lemma_open(item, rules);
    lemma_too_little(item, rules);
    lemma_lacks(rules.required_tags, item.tags);
    let tag = trimmed(rules.refine_tag->0);
    assert(held(item.tags, tag) == carries(item.tags, tag));
    let by_keyword = keyword_suggestions(
        rules.tag_keywords,
        item.tags,
        haystack_of(item, use_description),
    );
    let by_alias = with_aliases(rules.tag_aliases, item.tags, by_keyword);
    let all = suggestions(item, rules, use_description);
    assert(all == with_refinement(item, rules, by_alias));
    if suggests(by_alias, tag) {
        let k = choose|k: int|
            0 <= k < by_alias.len() && lowercase((#[trigger] by_alias[k]).tag) == lowercase(tag);
        assert(all[k] == by_alias[k]);
    } else {
        assert(all[all.len() - 1].tag == tag);
    }
}

/// On an item that is done, the suggestions are those of the same rules without a refine tag that
/// take no state and no type for done, less the tags that speak of open work: nothing else is lost.
pub proof fn law_done_items_lose_only_open_work(
    item: WorkItemView,
    rules: RuleSetView,
    use_description: bool,
)
    requires
        !open_item(item, rules),
    ensures
        suggestions(item, rules, use_description) == suggestions(
            item,
            RuleSetView {
                ignore_states: Seq::empty(),
                ignore_types: Seq::empty(),
                resolved_states: Seq::empty(),
                refine_tag: None,
                ..rules
            },
            use_description,
        ).filter(
            |s: TagSuggestionView| !speaks_of_open_work(rules.stale_when_resolved_tags, s.tag),
        ),
{
    lemma_open(item, rules);
    let free = RuleSetView {
        ignore_states: Seq::empty(),
        ignore_types: Seq::empty(),
        resolved_states: Seq::empty(),
        refine_tag: None,
        ..rules
    };
    assert(!done(item, free));
    let by_keyword = keyword_suggestions(
        rules.tag_keywords,
        item.tags,
        haystack_of(item, use_description),
    );
    let by_alias = with_aliases(rules.tag_aliases, item.tags, by_keyword);
    assert(suggestions(item, free, use_description) == by_alias);
    lemma_fresh(by_alias, rules.stale_when_resolved_tags);
}

/// An item is underspecified exactly when the rules name a refine tag and the prose of the
/// description says too little.
pub proof fn law_underspecified(item: WorkItemView, rules: RuleSetView)
    ensures
        underspecified(item, rules) <==> rules.refine_tag is Some && trimmed(
            rules.refine_tag->0,
        ).len() > 0 && says_too_little(item, rules),
{
    if refine_tag_of(rules) is Some {
        lemma_too_little(item, rules);
    }
}

/// The prose of a description is its words without the punctuation around them, links and empty
/// words left out, with single spaces between them.
pub proof fn law_prose_leaves_links_out(desc: Seq<char>)
    ensures
        prose(desc) == trimmed(
            joined(
                words(desc).map_values(
                    |w: Seq<char>| stripped(w, "()[]<>\"'`*|"@),
                ).filter(
                    |w: Seq<char>|
                        w.len() > 0 && !occurs(w, "://"@) && !has_prefix(w, "www."@),
                ),
                " "@,
            ),
        ),
{
    lemma_prose_words(words(desc));
}

proof fn lemma_prose_words(list: Seq<Seq<char>>)
    ensures
        prose_words(list) == list.map_values(
            |w: Seq<char>| stripped(w, "()[]<>\"'`*|"@),
        ).filter(|w: Seq<char>| w.len() > 0 && !occurs(w, "://"@) && !has_prefix(w, "www."@)),
    decreases list.len(),
{
    reveal(Seq::filter);
    let cut = list.map_values(|w: Seq<char>| stripped(w, "()[]<>\"'`*|"@));
    if list.len() > 0 {
        lemma_prose_words(list.drop_last());
        assert(cut.drop_last() =~= list.drop_last().map_values(
            |w: Seq<char>| stripped(w, "()[]<>\"'`*|"@),
        ));
        assert(cut.last() == stripped(list.last(), WORD_PUNCTUATION@));
    } else {
        assert(prose_words(list) =~= cut);
    }
}

/// A text stands in another as a whole word exactly when the other is something before it, the text,
/// and something after it, and neither neighbour is an ASCII letter or digit.
pub proof fn law_whole_word(h: Seq<char>, n: Seq<char>)
    ensures
        has_word(h, n) <==> n.len() > 0 && exists|a: Seq<char>, b: Seq<char>|
            #![trigger a + n + b]
            h == a + n + b && (a.len() == 0 || !is_ascii_alnum(a.last())) && (b.len() == 0
                || !is_ascii_alnum(b[0])),
{
    if has_word(h, n) {
        let i = choose|i: int| #[trigger] word_at(h, n, i);
        let a = h.take(i);
        let b = h.skip(i + n.len());
        assert(h =~= a + h.subrange(i, i + n.len()) + b);
        assert(h == a + n + b);
    }
    if n.len() > 0 && exists|a: Seq<char>, b: Seq<char>|
        #![trigger a + n + b]
        h == a + n + b && (a.len() == 0 || !is_ascii_alnum(a.last())) && (b.len() == 0
            || !is_ascii_alnum(b[0])) {
        let (a, b) = choose|a: Seq<char>, b: Seq<char>|
            #![trigger a + n + b]
            h == a + n + b && (a.len() == 0 || !is_ascii_alnum(a.last())) && (b.len() == 0
                || !is_ascii_alnum(b[0]));
        assert(h.subrange(a.len() as int, (a.len() + n.len()) as int) =~= n);
        assert(word_at(h, n, a.len() as int));
    }
}

/// A pattern without a star at its end matches exactly the tags that are its text, but for ASCII
/// case and white space around either; one with a star exactly those that start with what precedes
/// the star.
pub proof fn law_pattern_matching(pattern: Seq<char>, tag: Seq<char>)
    ensures
        ({
            let p = trimmed(pattern);
            if p.len() > 0 && p.last() == '*' {
                matches_tag(pattern, tag) <==> exists|rest: Seq<char>|
                    lower(trimmed(tag)) == #[trigger] (lower(p.drop_last()) + rest)
            } else {
                matches_tag(pattern, tag) <==> lower(trimmed(tag)) == lower(p)
            }
        }),
{
    let p = trimmed(pattern);
    if p.len() > 0 && p.last() == '*' {
        let start = lower(p.drop_last());
        let whole = lower(trimmed(tag));
        if matches_tag(pattern, tag) {
            assert(whole =~= start + whole.skip(start.len() as int));
        }
        if exists|rest: Seq<char>| whole == #[trigger] (start + rest) {
            let rest = choose|rest: Seq<char>| whole == #[trigger] (start + rest);
            assert(whole.take(start.len() as int) =~= start);
        }
    }
}

} // verus!
