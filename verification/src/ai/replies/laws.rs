//! What reading a model's answers promises.
use super::{
    answered, canonical, concerns, field_values, is_record, json_part, keys_in, kind_named,
    last_string, message_in, object_len, optional_strings, optional_text, pair_in, pairs_in,
    pairs_of, part_of, picked, raised, reading_of, reason_of, record_of, reply_in, strings_of,
    suggestions_of, text_or_nothing, times, underscored, unfenced, value_of, without_carried,
    AuditIssueView, AuditKind, ModelReplyView, Reading, RecordView, TextPairView,
};
use crate::ai::prompts::at_most;
use crate::flag::TagSuggestionView;
use crate::json::{array_in, json_of, lookup, object_in, string_of_raw, JsonView, MemberView};
use crate::rules::{carries, suggests};
use crate::text::{first_at, has_prefix, has_suffix, lower, lowercase, trimmed, trimmed_end};
use vstd::prelude::*;

verus! {

/// Whether a text of a list is the one that stands for a key: the last whose lower case it is.
pub open spec fn stands_for(known: Seq<Seq<char>>, key: Seq<char>, r: int) -> bool {
    &&& 0 <= r < known.len()
    &&& lowercase(known[r]) == key
    &&& forall|q: int| r < q < known.len() ==> lowercase(#[trigger] known[q]) != key
}

/// Whether a text of a list has a key as its lower case.
pub open spec fn asked(known: Seq<Seq<char>>, key: Seq<char>) -> bool {
    exists|r: int| 0 <= r < known.len() && lowercase(#[trigger] known[r]) == key
}

proof fn lemma_stands_for(known: Seq<Seq<char>>, key: Seq<char>)
    ensures
        match canonical(known, key) {
            Some(t) => asked(known, key) && exists|r: int|
                #[trigger] stands_for(known, key, r) && known[r] == t,
            None => !asked(known, key),
        },
    decreases known.len(),
{
    if known.len() > 0 {
        let head = known.drop_last();
        lemma_stands_for(head, key);
        if lowercase(known.last()) == key {
            assert(lowercase(known[known.len() - 1]) == key);
            assert(stands_for(known, key, known.len() - 1));
        } else {
            match canonical(head, key) {
                Some(t) => {
                    let r = choose|r: int| #[trigger] stands_for(head, key, r) && head[r] == t;
                    assert(known[r] == t);
                    assert forall|q: int| r < q < known.len() implies lowercase(#[trigger] known[q])
                        != key by {
                        if q < head.len() {
                            assert(lowercase(head[q]) != key);
                        }
                    }
                    assert(stands_for(known, key, r));
                },
                None => {
                    assert forall|q: int| 0 <= q < known.len() implies lowercase(
                        #[trigger] known[q],
                    ) != key by {
                        if q < head.len() {
                            assert(lowercase(head[q]) != key);
                        }
                    }
                },
            }
        }
    }
}

// ---------------------------------------------------------------------------------------------
// Field values
// ---------------------------------------------------------------------------------------------

/// The field that a pair speaks of, in lower case.
pub open spec fn field_told(pair: TextPairView) -> Seq<char> {
    lowercase(trimmed(pair.first))
}

/// The value that a pair gives, without a code fence.
pub open spec fn value_told(pair: TextPairView) -> Seq<char> {
    unfenced(trimmed(pair.second))
}

/// Whether a pair gives a value to a field that was asked for.
pub open spec fn tells(pair: TextPairView, known: Seq<Seq<char>>) -> bool {
    asked(known, field_told(pair)) && trimmed(value_told(pair)).len() > 0
}

/// Whether an entry is what the pair at a place gives: the first pair that tells of its field, under
/// the spelling that was asked for.
pub open spec fn told_by(
    entry: (Seq<char>, Seq<char>),
    pairs: Seq<TextPairView>,
    known: Seq<Seq<char>>,
    p: int,
) -> bool {
    &&& 0 <= p < pairs.len()
    &&& tells(pairs[p], known)
    &&& entry.1 == value_told(pairs[p])
    &&& exists|r: int|
        #[trigger] stands_for(known, field_told(pairs[p]), r) && known[r] == entry.0
    &&& forall|q: int|
        0 <= q < p && tells(#[trigger] pairs[q], known) ==> field_told(pairs[q]) != field_told(
            pairs[p],
        )
}

/// Whether some pair gives an entry.
pub open spec fn is_told(
    entry: (Seq<char>, Seq<char>),
    pairs: Seq<TextPairView>,
    known: Seq<Seq<char>>,
) -> bool {
    exists|p: int| told_by(entry, pairs, known, p)
}

/// Whether two entries are given by pairs in this order.
pub open spec fn told_in_order(
    a: (Seq<char>, Seq<char>),
    b: (Seq<char>, Seq<char>),
    pairs: Seq<TextPairView>,
    known: Seq<Seq<char>>,
) -> bool {
    exists|p: int, q: int|
        p < q && #[trigger] told_by(a, pairs, known, p) && #[trigger] told_by(b, pairs, known, q)
}

/// Whether an entry is for a field.
pub open spec fn entry_for(list: Seq<(Seq<char>, Seq<char>)>, key: Seq<char>) -> bool {
    exists|k: int| 0 <= k < list.len() && lowercase((#[trigger] list[k]).0) == key
}

proof fn lemma_told_stays(
    entry: (Seq<char>, Seq<char>),
    pairs: Seq<TextPairView>,
    known: Seq<Seq<char>>,
    p: int,
)
    requires
        pairs.len() > 0,
        told_by(entry, pairs.drop_last(), known, p),
    ensures
        told_by(entry, pairs, known, p),
{
    let head = pairs.drop_last();
    assert(head[p] == pairs[p]);
    assert forall|q: int| 0 <= q < p && tells(#[trigger] pairs[q], known) implies field_told(
        pairs[q],
    ) != field_told(pairs[p]) by {
        assert(tells(head[q], known));
    }
}

/// Every field that was asked for and that the answer gives a value is kept, with the value of the
/// first pair that gives one and under the spelling that was asked for; nothing else is, and the
/// order is that of the answer.
pub proof fn law_fields_told_are_kept(pairs: Seq<TextPairView>, known: Seq<Seq<char>>)
    ensures
        forall|p: int|
            0 <= p < pairs.len() && tells(#[trigger] pairs[p], known) ==> entry_for(
                field_values(pairs, known),
                field_told(pairs[p]),
            ),
        forall|k: int|
            0 <= k < field_values(pairs, known).len() ==> is_told(
                #[trigger] field_values(pairs, known)[k],
                pairs,
                known,
            ),
        forall|k: int, l: int|
            0 <= k < l < field_values(pairs, known).len() ==> told_in_order(
                #[trigger] field_values(pairs, known)[k],
                #[trigger] field_values(pairs, known)[l],
                pairs,
                known,
            ),
    decreases pairs.len(),
{
    if pairs.len() > 0 {
        let head = pairs.drop_last();
        let before = field_values(head, known);
        let out = field_values(pairs, known);
        let pair = pairs.last();
        let at = pairs.len() - 1;
        law_fields_told_are_kept(head, known);
        lemma_stands_for(known, field_told(pair));
        assert forall|p: int| 0 <= p < head.len() implies #[trigger] pairs[p] == head[p] by {}
        let grows = out != before;
        if canonical(known, field_told(pair)) is Some {
            let reference = canonical(known, field_told(pair))->0;
            assert(lowercase(reference) == field_told(pair));
            assert(answered(before, reference) == entry_for(before, field_told(pair)));
            if grows {
                assert(out =~= before.push((reference, value_told(pair))));
                assert(!answered(before, reference));
                assert(told_by(out.last(), pairs, known, at)) by {
                    assert forall|q: int| 0 <= q < at && tells(#[trigger] pairs[q], known) implies
                        field_told(pairs[q]) != field_told(pair) by {
                        assert(tells(head[q], known));
                        assert(entry_for(before, field_told(head[q])));
                    }
                }
            }
        }
        assert forall|p: int| 0 <= p < pairs.len() && tells(#[trigger] pairs[p], known) implies
            entry_for(out, field_told(pairs[p])) by {
            if p < at {
                assert(tells(head[p], known));
                assert(entry_for(before, field_told(head[p])));
                let k = choose|k: int|
                    0 <= k < before.len() && lowercase((#[trigger] before[k]).0) == field_told(
                        head[p],
                    );
                assert(out[k] == before[k]);
            } else if grows {
                assert(lowercase(out[out.len() - 1].0) == field_told(pair));
            } else {
                assert(entry_for(before, field_told(pair))) by {
                    if !entry_for(before, field_told(pair)) {
                        assert(out.len() == before.len() + 1);
                    }
                }
            }
        }
        assert forall|k: int| 0 <= k < out.len() implies is_told(
            #[trigger] out[k],
            pairs,
            known,
        ) by {
            if k < before.len() {
                assert(out[k] == before[k]);
                assert(is_told(before[k], head, known));
                let p = choose|p: int| told_by(before[k], head, known, p);
                lemma_told_stays(before[k], pairs, known, p);
            } else {
                assert(told_by(out[k], pairs, known, at));
            }
        }
        assert forall|k: int, l: int| 0 <= k < l < out.len() implies told_in_order(
            #[trigger] out[k],
            #[trigger] out[l],
            pairs,
            known,
        ) by {
            assert(out[k] == before[k]);
            if l < before.len() {
                assert(out[l] == before[l]);
                assert(told_in_order(before[k], before[l], head, known));
                let (p, q) = choose|p: int, q: int|
                    p < q && #[trigger] told_by(before[k], head, known, p)
                        && #[trigger] told_by(before[l], head, known, q);
                lemma_told_stays(before[k], pairs, known, p);
                lemma_told_stays(before[l], pairs, known, q);
            } else {
                assert(is_told(before[k], head, known));
                let p = choose|p: int| told_by(before[k], head, known, p);
                lemma_told_stays(before[k], pairs, known, p);
                assert(told_by(out[l], pairs, known, at));
            }
        }
    }
}

// ---------------------------------------------------------------------------------------------
// Tags
// ---------------------------------------------------------------------------------------------

/// The tag that an answer proposes, in lower case.
pub open spec fn proposed(tag: Seq<char>) -> Seq<char> {
    lowercase(trimmed(tag))
}

/// Whether a suggestion is the proposal at a place: the first of its tag, in the allowed spelling.
pub open spec fn proposed_by(
    s: TagSuggestionView,
    tags: Seq<Seq<char>>,
    allowed: Seq<Seq<char>>,
    p: int,
) -> bool {
    &&& 0 <= p < tags.len()
    &&& s.replaces is None
    &&& exists|r: int| #[trigger] stands_for(allowed, proposed(tags[p]), r) && allowed[r] == s.tag
    &&& forall|q: int| 0 <= q < p ==> proposed(#[trigger] tags[q]) != proposed(tags[p])
}

/// Whether some proposal gives a suggestion.
pub open spec fn is_proposed(
    s: TagSuggestionView,
    tags: Seq<Seq<char>>,
    allowed: Seq<Seq<char>>,
) -> bool {
    exists|p: int| proposed_by(s, tags, allowed, p)
}

/// Whether two suggestions are given by proposals in this order.
pub open spec fn proposed_in_order(
    a: TagSuggestionView,
    b: TagSuggestionView,
    tags: Seq<Seq<char>>,
    allowed: Seq<Seq<char>>,
) -> bool {
    exists|p: int, q: int|
        p < q && #[trigger] proposed_by(a, tags, allowed, p) && #[trigger] proposed_by(
            b,
            tags,
            allowed,
            q,
        )
}

/// Whether a tag is suggested, in lower case.
pub open spec fn suggestion_for(list: Seq<TagSuggestionView>, key: Seq<char>) -> bool {
    exists|k: int| 0 <= k < list.len() && lowercase((#[trigger] list[k]).tag) == key
}

proof fn lemma_proposed_stays(
    s: TagSuggestionView,
    tags: Seq<Seq<char>>,
    allowed: Seq<Seq<char>>,
    p: int,
)
    requires
        tags.len() > 0,
        proposed_by(s, tags.drop_last(), allowed, p),
    ensures
        proposed_by(s, tags, allowed, p),
{
    let head = tags.drop_last();
    assert(head[p] == tags[p]);
    assert forall|q: int| 0 <= q < p implies proposed(#[trigger] tags[q]) != proposed(tags[p]) by {
        assert(head[q] == tags[q]);
    }
}

proof fn lemma_picked_tags(tags: Seq<Seq<char>>, allowed: Seq<Seq<char>>, reason: Seq<char>)
    ensures
        forall|p: int|
            0 <= p < tags.len() && asked(allowed, proposed(#[trigger] tags[p])) ==> suggestion_for(
                picked(tags, allowed, reason),
                proposed(tags[p]),
            ),
        forall|k: int|
            0 <= k < picked(tags, allowed, reason).len() ==> is_proposed(
                #[trigger] picked(tags, allowed, reason)[k],
                tags,
                allowed,
            ) && picked(tags, allowed, reason)[k].reasons == seq![reason],
        forall|k: int, l: int|
            0 <= k < l < picked(tags, allowed, reason).len() ==> proposed_in_order(
                #[trigger] picked(tags, allowed, reason)[k],
                #[trigger] picked(tags, allowed, reason)[l],
                tags,
                allowed,
            ),
    decreases tags.len(),
{
    if tags.len() > 0 {
        let head = tags.drop_last();
        let before = picked(head, allowed, reason);
        let out = picked(tags, allowed, reason);
        let key = proposed(tags.last());
        let at = tags.len() - 1;
        lemma_picked_tags(head, allowed, reason);
        lemma_stands_for(allowed, key);
        assert forall|p: int| 0 <= p < head.len() implies #[trigger] tags[p] == head[p] by {}
        let grows = out != before;
        if canonical(allowed, key) is Some {
            let tag = canonical(allowed, key)->0;
            assert(lowercase(tag) == key);
            assert(suggests(before, tag) == suggestion_for(before, key));
            if grows {
                assert(out =~= before.push(out.last()));
                assert(!suggests(before, tag));
                assert(proposed_by(out.last(), tags, allowed, at)) by {
                    assert forall|q: int| 0 <= q < at implies proposed(#[trigger] tags[q])
                        != key by {
                        if proposed(tags[q]) == key {
                            assert(asked(allowed, proposed(head[q])));
                            assert(suggestion_for(before, proposed(head[q])));
                        }
                    }
                }
            }
        }
        assert forall|p: int|
            0 <= p < tags.len() && asked(allowed, proposed(#[trigger] tags[p])) implies
            suggestion_for(out, proposed(tags[p])) by {
            if p < at {
                assert(asked(allowed, proposed(head[p])));
                let k = choose|k: int|
                    0 <= k < before.len() && lowercase((#[trigger] before[k]).tag) == proposed(
                        head[p],
                    );
                assert(out[k] == before[k]);
            } else if grows {
                assert(lowercase(out[out.len() - 1].tag) == key);
            } else {
                assert(suggestion_for(before, key)) by {
                    if !suggestion_for(before, key) {
                        assert(out.len() == before.len() + 1);
                    }
                }
            }
        }
        assert forall|k: int| 0 <= k < out.len() implies is_proposed(
            #[trigger] out[k],
            tags,
            allowed,
        ) && out[k].reasons == seq![reason] by {
            if k < before.len() {
                assert(out[k] == before[k]);
                assert(is_proposed(before[k], head, allowed));
                let p = choose|p: int| proposed_by(before[k], head, allowed, p);
                lemma_proposed_stays(before[k], tags, allowed, p);
            } else {
                assert(proposed_by(out[k], tags, allowed, at));
            }
        }
        assert forall|k: int, l: int| 0 <= k < l < out.len() implies proposed_in_order(
            #[trigger] out[k],
            #[trigger] out[l],
            tags,
            allowed,
        ) by {
            assert(out[k] == before[k]);
            assert(is_proposed(before[k], head, allowed));
            if l < before.len() {
                assert(out[l] == before[l]);
                assert(proposed_in_order(before[k], before[l], head, allowed));
                let (p, q) = choose|p: int, q: int|
                    p < q && #[trigger] proposed_by(before[k], head, allowed, p)
                        && #[trigger] proposed_by(before[l], head, allowed, q);
                lemma_proposed_stays(before[k], tags, allowed, p);
                lemma_proposed_stays(before[l], tags, allowed, q);
            } else {
                let p = choose|p: int| proposed_by(before[k], head, allowed, p);
                lemma_proposed_stays(before[k], tags, allowed, p);
                assert(proposed_by(out[l], tags, allowed, at));
            }
        }
    }
}

/// Every tag that an answer proposes and that is allowed is suggested, unless the limit is reached;
/// nothing else is, and the order is that of the answer. The reason is the answer's own, where it
/// gives one.
pub proof fn law_proposed_tags_are_suggested(
    reply: ModelReplyView,
    allowed: Seq<Seq<char>>,
    limit: nat,
)
    ensures
        suggestions_of(reply, allowed, limit).len() < limit ==> forall|p: int|
            0 <= p < reply.tags.len() && asked(allowed, proposed(#[trigger] reply.tags[p]))
                ==> suggestion_for(
                suggestions_of(reply, allowed, limit),
                proposed(reply.tags[p]),
            ),
        forall|k: int|
            0 <= k < suggestions_of(reply, allowed, limit).len() ==> {
                let s = #[trigger] suggestions_of(reply, allowed, limit)[k];
                &&& is_proposed(s, reply.tags, allowed)
                &&& s.reasons.len() == 1
                &&& reply.rationale is Some && trimmed(reply.rationale->0).len() > 0
                    ==> s.reasons[0] == trimmed(reply.rationale->0)
                &&& reply.rationale is None || trimmed(reply.rationale->0).len() == 0
                    ==> s.reasons[0] == "AI suggestion"@
            },
        forall|k: int, l: int|
            0 <= k < l < suggestions_of(reply, allowed, limit).len() ==> proposed_in_order(
                #[trigger] suggestions_of(reply, allowed, limit)[k],
                #[trigger] suggestions_of(reply, allowed, limit)[l],
                reply.tags,
                allowed,
            ),
{
    let reason = reason_of(reply.rationale);
    lemma_picked_tags(reply.tags, allowed, reason);
    let all = picked(reply.tags, allowed, reason);
    let out = suggestions_of(reply, allowed, limit);
    assert forall|k: int| 0 <= k < out.len() implies #[trigger] out[k] == all[k] by {}
}

/// A lower limit cuts the suggestions off, and changes nothing else.
pub proof fn law_limit_cuts_off(
    reply: ModelReplyView,
    allowed: Seq<Seq<char>>,
    low: nat,
    high: nat,
)
    requires
        low <= high,
    ensures
        suggestions_of(reply, allowed, low) == at_most(suggestions_of(reply, allowed, high), low),
        suggestions_of(reply, allowed, high).len() >= low ==> suggestions_of(
            reply,
            allowed,
            low,
        ).len() == low,
{
    assert(suggestions_of(reply, allowed, low) =~= at_most(
        suggestions_of(reply, allowed, high),
        low,
    ));
}

/// Of a list of suggestions, those of tags that the item does not have are kept, in their order.
pub proof fn law_carried_tags_are_dropped(list: Seq<TagSuggestionView>, tags: Seq<Seq<char>>)
    ensures
        without_carried(list, tags) == list.filter(
            |s: TagSuggestionView| !asked(tags, lowercase(s.tag)),
        ),
    decreases list.len(),
{
    reveal(Seq::filter);
    if list.len() > 0 {
        law_carried_tags_are_dropped(list.drop_last(), tags);
        assert(asked(tags, lowercase(list.last().tag)) == carries(tags, list.last().tag));
    } else {
        assert(without_carried(list, tags) =~= list);
    }
}

// ---------------------------------------------------------------------------------------------
// Concerns
// ---------------------------------------------------------------------------------------------

/// Whether a pair raises a concern: of a known kind, and with something to say.
pub open spec fn raises(pair: TextPairView) -> bool {
    kind_named(pair.first) is Some && trimmed(pair.second).len() > 0
}

/// Whether two pairs raise the same concern, case aside.
pub open spec fn same_concern(a: TextPairView, b: TextPairView) -> bool {
    kind_named(a.first) == kind_named(b.first) && lowercase(trimmed(a.second)) == lowercase(
        trimmed(b.second),
    )
}

/// Whether a concern is what the pair at a place raises, the first to do so.
pub open spec fn raised_by(c: AuditIssueView, pairs: Seq<TextPairView>, p: int) -> bool {
    &&& 0 <= p < pairs.len()
    &&& raises(pairs[p])
    &&& kind_named(pairs[p].first) == Some(c.kind)
    &&& c.detail == trimmed(pairs[p].second)
    &&& forall|q: int|
        0 <= q < p && raises(#[trigger] pairs[q]) ==> !same_concern(pairs[q], pairs[p])
}

/// Whether some pair raises a concern.
pub open spec fn is_raised_in(c: AuditIssueView, pairs: Seq<TextPairView>) -> bool {
    exists|p: int| raised_by(c, pairs, p)
}

/// Whether two concerns are raised by pairs in this order.
pub open spec fn raised_in_order(
    a: AuditIssueView,
    b: AuditIssueView,
    pairs: Seq<TextPairView>,
) -> bool {
    exists|p: int, q: int|
        p < q && #[trigger] raised_by(a, pairs, p) && #[trigger] raised_by(b, pairs, q)
}

/// Whether the concern of a pair is among others, case aside.
pub open spec fn concern_for(list: Seq<AuditIssueView>, pair: TextPairView) -> bool {
    exists|k: int|
        0 <= k < list.len() && kind_named(pair.first) == Some((#[trigger] list[k]).kind)
            && lowercase(list[k].detail) == lowercase(trimmed(pair.second))
}

proof fn lemma_raised_stays(c: AuditIssueView, pairs: Seq<TextPairView>, p: int)
    requires
        pairs.len() > 0,
        raised_by(c, pairs.drop_last(), p),
    ensures
        raised_by(c, pairs, p),
{
    let head = pairs.drop_last();
    assert(head[p] == pairs[p]);
    assert forall|q: int| 0 <= q < p && raises(#[trigger] pairs[q]) implies !same_concern(
        pairs[q],
        pairs[p],
    ) by {
        assert(raises(head[q]));
    }
}

#[verifier::rlimit(60)]
#[verifier::spinoff_prover]
proof fn lemma_concerns(pairs: Seq<TextPairView>)
    ensures
        forall|p: int|
            0 <= p < pairs.len() && raises(#[trigger] pairs[p]) ==> concern_for(
                concerns(pairs),
                pairs[p],
            ),
        forall|k: int|
            0 <= k < concerns(pairs).len() ==> is_raised_in(#[trigger] concerns(pairs)[k], pairs),
        forall|k: int, l: int|
            0 <= k < l < concerns(pairs).len() ==> raised_in_order(
                #[trigger] concerns(pairs)[k],
                #[trigger] concerns(pairs)[l],
                pairs,
            ),
    decreases pairs.len(),
{
    if pairs.len() > 0 {
        let head = pairs.drop_last();
        let before = concerns(head);
        let out = concerns(pairs);
        let pair = pairs.last();
        let at = pairs.len() - 1;
        lemma_concerns(head);
        assert forall|p: int| 0 <= p < head.len() implies #[trigger] pairs[p] == head[p] by {}
        let grows = out != before;
        if kind_named(pair.first) is Some {
            let kind = kind_named(pair.first)->0;
            let detail = trimmed(pair.second);
            assert(raised(before, kind, detail) == concern_for(before, pair)) by {
                if raised(before, kind, detail) {
                    let k = choose|k: int|
                        0 <= k < before.len() && (#[trigger] before[k]).kind == kind && lowercase(
                            before[k].detail,
                        ) == lowercase(detail);
                    assert(kind_named(pair.first) == Some(before[k].kind));
                }
                if concern_for(before, pair) {
                    let k = choose|k: int|
                        0 <= k < before.len() && kind_named(pair.first) == Some(
                            (#[trigger] before[k]).kind,
                        ) && lowercase(before[k].detail) == lowercase(detail);
                    assert(before[k].kind == kind);
                }
            }
            if grows {
                assert(out =~= before.push(AuditIssueView { kind, detail }));
                assert(raised_by(out.last(), pairs, at)) by {
                    assert forall|q: int| 0 <= q < at && raises(#[trigger] pairs[q]) implies
                        !same_concern(pairs[q], pair) by {
                        assert(raises(head[q]));
                        assert(concern_for(before, head[q]));
                        let k = choose|k: int|
                            0 <= k < before.len() && kind_named(head[q].first) == Some(
                                (#[trigger] before[k]).kind,
                            ) && lowercase(before[k].detail) == lowercase(trimmed(head[q].second));
                        if same_concern(pairs[q], pair) {
                            assert(before[k].kind == kind);
                            assert(raised(before, kind, detail));
                        }
                    }
                }
            }
        }
        assert forall|p: int| 0 <= p < pairs.len() && raises(#[trigger] pairs[p]) implies
            concern_for(out, pairs[p]) by {
            if p < at {
                assert(raises(head[p]));
                assert(concern_for(before, head[p]));
                let k = choose|k: int|
                    0 <= k < before.len() && kind_named(head[p].first) == Some(
                        (#[trigger] before[k]).kind,
                    ) && lowercase(before[k].detail) == lowercase(trimmed(head[p].second));
                assert(out[k] == before[k]);
            } else if grows {
                assert(kind_named(pair.first) == Some(out[out.len() - 1].kind));
            } else {
                assert(concern_for(before, pair)) by {
                    if !concern_for(before, pair) {
                        assert(out.len() == before.len() + 1);
                    }
                }
            }
        }
        assert forall|k: int| 0 <= k < out.len() implies is_raised_in(#[trigger] out[k], pairs) by {
            if k < before.len() {
                assert(out[k] == before[k]);
                assert(is_raised_in(before[k], head));
                let p = choose|p: int| raised_by(before[k], head, p);
                lemma_raised_stays(before[k], pairs, p);
            } else {
                assert(raised_by(out[k], pairs, at));
            }
        }
        assert forall|k: int, l: int| 0 <= k < l < out.len() implies raised_in_order(
            #[trigger] out[k],
            #[trigger] out[l],
            pairs,
        ) by {
            assert(out[k] == before[k]);
            assert(is_raised_in(before[k], head));
            if l < before.len() {
                assert(out[l] == before[l]);
                assert(raised_in_order(before[k], before[l], head));
                let (p, q) = choose|p: int, q: int|
                    p < q && #[trigger] raised_by(before[k], head, p)
                        && #[trigger] raised_by(before[l], head, q);
                lemma_raised_stays(before[k], pairs, p);
                lemma_raised_stays(before[l], pairs, q);
            } else {
                let p = choose|p: int| raised_by(before[k], head, p);
                lemma_raised_stays(before[k], pairs, p);
                assert(raised_by(out[l], pairs, at));
            }
        }
    }
}

/// Every concern that an answer raises is kept, once, unless there are four already; nothing else
/// is, and the order is that of the answer.
pub proof fn law_concerns_raised_are_kept(pairs: Seq<TextPairView>)
    ensures
        at_most(concerns(pairs), 4).len() < 4 ==> forall|p: int|
            0 <= p < pairs.len() && raises(#[trigger] pairs[p]) ==> concern_for(
                at_most(concerns(pairs), 4),
                pairs[p],
            ),
        forall|k: int|
            0 <= k < at_most(concerns(pairs), 4).len() ==> is_raised_in(
                #[trigger] at_most(concerns(pairs), 4)[k],
                pairs,
            ),
        forall|k: int, l: int|
            0 <= k < l < at_most(concerns(pairs), 4).len() ==> raised_in_order(
                #[trigger] at_most(concerns(pairs), 4)[k],
                #[trigger] at_most(concerns(pairs), 4)[l],
                pairs,
            ),
{
    lemma_concerns(pairs);
    let all = concerns(pairs);
    let out = at_most(all, 4);
    assert forall|k: int| 0 <= k < out.len() implies #[trigger] out[k] == all[k] by {}
}

/// The texts that name each kind of concern: ASCII case, white space around them, and spaces or
/// hyphens for underscores aside.
pub proof fn law_kinds_and_their_names(s: Seq<char>)
    ensures
        ({
            let k = underscored(lower(trimmed(s)));
            &&& kind_named(s) == Some(AuditKind::Unclear) <==> k == "unclear"@ || k == "vague"@ || k
                == "underspecified"@
            &&& kind_named(s) == Some(AuditKind::BadTitle) <==> k == "bad_title"@ || k == "title"@
                || k == "placeholder_title"@
            &&& kind_named(s) == Some(AuditKind::BadData) <==> k == "bad_data"@ || k == "data"@ || k
                == "invalid"@ || k == "contradiction"@
        }),
        underscored(s).len() == s.len(),
        forall|i: int|
            0 <= i < s.len() ==> #[trigger] underscored(s)[i] == (if s[i] == ' ' || s[i] == '-' {
                '_'
            } else {
                s[i]
            }),
{
    reveal_strlit("unclear");
    reveal_strlit("vague");
    reveal_strlit("underspecified");
    reveal_strlit("bad_title");
    reveal_strlit("title");
    reveal_strlit("placeholder_title");
    reveal_strlit("bad_data");
    reveal_strlit("data");
    reveal_strlit("invalid");
    reveal_strlit("contradiction");
    assert("unclear"@.len() == 7 && "unclear"@[0] == 'u');
    assert("invalid"@.len() == 7 && "invalid"@[0] == 'i');
    assert("vague"@.len() == 5 && "vague"@[0] == 'v');
    assert("title"@.len() == 5 && "title"@[0] == 't');
    assert("underspecified"@.len() == 14);
    assert("bad_title"@.len() == 9);
    assert("placeholder_title"@.len() == 17);
    assert("bad_data"@.len() == 8);
    assert("data"@.len() == 4);
    assert("contradiction"@.len() == 13);
}

// ---------------------------------------------------------------------------------------------
// Code fences
// ---------------------------------------------------------------------------------------------

/// A text that does not start with a fence is only trimmed.
pub proof fn law_no_fence(s: Seq<char>)
    requires
        !has_prefix(trimmed(s), "```"@),
    ensures
        unfenced(s) == trimmed(s),
{
}

/// A fence around a text, with whatever follows the first mark on its line, is taken off.
pub proof fn law_fence_is_taken_off(language: Seq<char>, body: Seq<char>)
    requires
        !language.contains('\n'),
    ensures
        unfenced("```"@ + language + seq!['\n'] + body + "```"@) == trimmed(body),
{
    reveal_strlit("```");
    let mark = "```"@;
    let s = mark + language + seq!['\n'] + body + mark;
    assert(s[0] == '`' && s.last() == '`');
    assert(trimmed(s) == s) by {
        reveal_with_fuel(crate::text::trimmed_start, 2);
        reveal_with_fuel(trimmed_end, 2);
    }
    assert(s.take(3) =~= mark);
    let rest = s.skip(3);
    assert(rest =~= language + seq!['\n'] + body + mark);
    crate::text::lemma_first_at_is(rest, '\n');
    assert(rest[language.len() as int] == '\n');
    let i = first_at(rest, '\n')->0;
    assert(rest.contains('\n'));
    if i < language.len() {
        assert(language[i] == '\n');
    }
    assert(i == language.len());
    let inner = body + mark;
    assert(rest.skip(i + 1) =~= inner);
    assert(inner.last() == '`');
    assert(trimmed_end(inner) == inner);
    assert(inner.skip(inner.len() - 3) =~= mark);
    assert(inner.take(inner.len() - 3) =~= body);
}

// ---------------------------------------------------------------------------------------------
// Reading records
// ---------------------------------------------------------------------------------------------

/// Without an opening brace, or without the one that closes it, all of an answer is read.
pub proof fn law_no_object_no_cut(s: Seq<char>)
    ensures
        !s.contains('{') ==> json_part(s) == trimmed(s),
        s.contains('{') && object_len(s.skip(first_at(s, '{')->0)) is None ==> json_part(s)
            == trimmed(s),
{
    crate::text::lemma_first_at_is(s, '{');
}

/// What stands between quotes leaves the reading of a text where it is, braces and colons included.
pub proof fn law_quoted_text_is_passed_over(s: Seq<char>, text: Seq<char>)
    requires
        !reading_of(s).quoted,
        !reading_of(s).escaped,
        !text.contains('"'),
        !text.contains('\\'),
    ensures
        reading_of(s + seq!['"'] + text + seq!['"']) == reading_of(s),
        last_string(s + seq!['"'] + text + seq!['"']) == seq!['"'] + text + seq!['"'],
        keys_in(s + seq!['"'] + text + seq!['"']) == keys_in(s),
{
    lemma_inside(s, text);
    let inside = s + seq!['"'] + text;
    let whole = inside + seq!['"'];
    assert(whole.drop_last() =~= inside);
    assert(whole.last() == '"');
    assert(last_string(whole) =~= seq!['"'] + text + seq!['"']);
}

proof fn lemma_inside(s: Seq<char>, text: Seq<char>)
    requires
        !reading_of(s).quoted,
        !reading_of(s).escaped,
        !text.contains('"'),
        !text.contains('\\'),
    ensures
        reading_of(s + seq!['"'] + text) == (Reading { quoted: true, ..reading_of(s) }),
        last_string(s + seq!['"'] + text) == seq!['"'] + text,
        keys_in(s + seq!['"'] + text) == keys_in(s),
    decreases text.len(),
{
    let whole = s + seq!['"'] + text;
    if text.len() == 0 {
        assert(whole =~= s.push('"'));
        assert(whole.drop_last() =~= s);
        assert(last_string(whole) =~= seq!['"'] + text);
    } else {
        let head = text.drop_last();
        assert(!head.contains('"')) by {
            if head.contains('"') {
                let i = choose|i: int| 0 <= i < head.len() && head[i] == '"';
                assert(text[i] == '"');
            }
        }
        assert(!head.contains('\\')) by {
            if head.contains('\\') {
                let i = choose|i: int| 0 <= i < head.len() && head[i] == '\\';
                assert(text[i] == '\\');
            }
        }
        lemma_inside(s, head);
        assert(whole.drop_last() =~= s + seq!['"'] + head);
        assert(text[text.len() - 1] != '"' && text[text.len() - 1] != '\\');
        assert(last_string(whole) =~= seq!['"'] + text);
    }
}

/// A quoted name and a colon, directly inside an object, add a key; inside an inner object they add
/// none.
pub proof fn law_keys_of_an_object(s: Seq<char>, name: Seq<char>)
    requires
        !reading_of(s).quoted,
        !reading_of(s).escaped,
        !name.contains('"'),
        !name.contains('\\'),
    ensures
        keys_in(s + seq!['"'] + name + seq!['"'] + seq![':']) == (if reading_of(s).depth == 1 {
            keys_in(s).push(seq!['"'] + name + seq!['"'])
        } else {
            keys_in(s)
        }),
{
    law_quoted_text_is_passed_over(s, name);
    let head = s + seq!['"'] + name + seq!['"'];
    assert((head + seq![':']).drop_last() =~= head);
}

/// The first member of a key is the one that is found.
pub proof fn law_member_is_found(members: Seq<MemberView>, key: Seq<char>)
    ensures
        match lookup(members, key) {
            Some(raw) => exists|i: int|
                0 <= i < members.len() && (#[trigger] members[i]).key == key && members[i].raw == raw
                    && forall|j: int| 0 <= j < i ==> (#[trigger] members[j]).key != key,
            None => forall|j: int| 0 <= j < members.len() ==> (#[trigger] members[j]).key != key,
        },
    decreases members.len(),
{
    if members.len() > 0 {
        let head = members.drop_last();
        law_member_is_found(head, key);
        assert forall|j: int| 0 <= j < head.len() implies #[trigger] members[j] == head[j] by {}
        match lookup(head, key) {
            Some(raw) => {
                let i = choose|i: int|
                    0 <= i < head.len() && (#[trigger] head[i]).key == key && head[i].raw == raw
                        && forall|j: int| 0 <= j < i ==> (#[trigger] head[j]).key != key;
                assert(members[i].key == key);
                assert forall|j: int| 0 <= j < i implies (#[trigger] members[j]).key != key by {
                    assert(head[j].key != key);
                }
            },
            None => {
                assert forall|j: int| 0 <= j < head.len() implies (#[trigger] members[j]).key
                    != key by {
                    assert(head[j].key != key);
                }
                if members.last().key == key {
                    assert(members[members.len() - 1].key == key);
                }
            },
        }
    }
}

/// How often a name is among keys is the number of keys that are strings of that name.
pub proof fn law_keys_are_counted(keys: Seq<Seq<char>>, name: Seq<char>)
    ensures
        times(keys, name) == keys.filter(
            |k: Seq<char>| json_of(k) == Some(JsonView::Text(name)),
        ).len(),
    decreases keys.len(),
{
    reveal(Seq::filter);
    if keys.len() > 0 {
        law_keys_are_counted(keys.drop_last(), name);
    }
}

/// Strings are read only where every value is one, each in its place.
pub proof fn law_strings_are_read(raws: Seq<Seq<char>>)
    ensures
        strings_of(raws) is Some <==> forall|i: int|
            0 <= i < raws.len() ==> json_of(#[trigger] raws[i]) matches Some(JsonView::Text(_)),
        strings_of(raws) matches Some(list) ==> list.len() == raws.len() && forall|i: int|
            0 <= i < raws.len() ==> json_of(#[trigger] raws[i]) == Some(JsonView::Text(list[i])),
    decreases raws.len(),
{
    if raws.len() > 0 {
        let head = raws.drop_last();
        law_strings_are_read(head);
        assert forall|i: int| 0 <= i < head.len() implies #[trigger] raws[i] == head[i] by {}
        assert(raws[raws.len() - 1] == raws.last());
        if strings_of(raws) is Some {
            let list = strings_of(raws)->0;
            let before = strings_of(head)->0;
            assert forall|i: int| 0 <= i < raws.len() implies json_of(#[trigger] raws[i]) == Some(
                JsonView::Text(list[i]),
            ) by {
                if i < head.len() {
                    assert(json_of(head[i]) == Some(JsonView::Text(before[i])));
                }
            }
        } else if forall|i: int|
            0 <= i < raws.len() ==> json_of(#[trigger] raws[i]) matches Some(JsonView::Text(_)) {
            assert forall|i: int| 0 <= i < head.len() implies (json_of(
                #[trigger] head[i],
            ) matches Some(JsonView::Text(_))) by {
                assert(json_of(raws[i]) matches Some(JsonView::Text(_)));
            }
        }
    }
}

/// Pairs are read only where every value is one, each in its place.
pub proof fn law_pairs_are_read(raws: Seq<Seq<char>>, first: Seq<char>, second: Seq<char>)
    ensures
        pairs_of(raws, first, second) is Some <==> forall|i: int|
            0 <= i < raws.len() ==> pair_in(record_of(#[trigger] raws[i]), first, second) is Some,
        pairs_of(raws, first, second) matches Some(list) ==> list.len() == raws.len() && forall|
            i: int,
        |
            0 <= i < raws.len() ==> pair_in(record_of(#[trigger] raws[i]), first, second) == Some(
                list[i],
            ),
    decreases raws.len(),
{
    if raws.len() > 0 {
        let head = raws.drop_last();
        law_pairs_are_read(head, first, second);
        assert forall|i: int| 0 <= i < head.len() implies #[trigger] raws[i] == head[i] by {}
        assert(raws[raws.len() - 1] == raws.last());
        if pairs_of(raws, first, second) is Some {
            let list = pairs_of(raws, first, second)->0;
            let before = pairs_of(head, first, second)->0;
            assert forall|i: int| 0 <= i < raws.len() implies pair_in(
                record_of(#[trigger] raws[i]),
                first,
                second,
            ) == Some(list[i]) by {
                if i < head.len() {
                    assert(pair_in(record_of(head[i]), first, second) == Some(before[i]));
                }
            }
        } else if forall|i: int|
            0 <= i < raws.len() ==> pair_in(record_of(#[trigger] raws[i]), first, second) is Some {
            assert forall|i: int| 0 <= i < head.len() implies pair_in(
                record_of(#[trigger] head[i]),
                first,
                second,
            ) is Some by {
                assert(pair_in(record_of(raws[i]), first, second) is Some);
            }
        }
    }
}

/// A field of an object is found by its name and nothing else; one of an array by its place.
pub proof fn law_fields_of_a_record(r: RecordView, name: Seq<char>, place: int)
    ensures
        r matches RecordView::Named { members, keys: _ } ==> part_of(r, name, place) == lookup(
            members,
            name,
        ),
        r matches RecordView::Listed(items) ==> (part_of(r, name, place) is Some <==> 0 <= place
            < items.len()),
        r matches RecordView::Listed(items) ==> (part_of(r, name, place) matches Some(raw) ==> raw
            == items[place]),
{
}

/// An object in which a name of interest comes twice is no record, nor is an array with more values
/// than there are names.
pub proof fn law_what_is_a_record(r: RecordView, names: Seq<Seq<char>>)
    ensures
        r matches RecordView::Named { members: _, keys } ==> (!is_record(r, names) <==> exists|
            i: int,
        |
            0 <= i < names.len() && times(keys, #[trigger] names[i]) >= 2),
        r matches RecordView::Listed(items) ==> (is_record(r, names) <==> items.len()
            <= names.len()),
{
}

/// An answer is read from a record with nothing twice: its tags are the strings of its list, and
/// none without one; its rationale is its text, and none without one. Anything else says nothing.
pub proof fn law_answer_is_read(j: Option<RecordView>)
    ensures
        ({
            let reply = reply_in(j);
            let tags = part_of(j->0, "tags"@, 0);
            let why = part_of(j->0, "rationale"@, 1);
            let tags_read = tags is None || (array_in(tags->0) is Some && strings_of(
                array_in(tags->0)->0,
            ) is Some);
            let why_read = why is None || json_of(why->0) == Some(JsonView::Null) || (json_of(
                why->0,
            ) matches Some(JsonView::Text(_)));
            let read = j is Some && is_record(j->0, seq!["tags"@, "rationale"@]) && tags_read
                && why_read;
            &&& !read ==> reply.tags.len() == 0 && reply.rationale is None
            &&& read && tags is None ==> reply.tags.len() == 0
            &&& read && tags is Some ==> Some(reply.tags) == strings_of(array_in(tags->0)->0)
            &&& read && why is Some ==> match json_of(why->0) {
                Some(JsonView::Text(t)) => reply.rationale == Some(t),
                _ => reply.rationale is None,
            }
            &&& read && why is None ==> reply.rationale is None
        }),
{
}

/// The pairs of an answer are those of its list, where it is a record with that list and every value
/// in it is a pair; else there are none.
pub proof fn law_list_of_pairs_is_read(
    j: Option<RecordView>,
    name: Seq<char>,
    first: Seq<char>,
    second: Seq<char>,
)
    ensures
        ({
            let list = part_of(j->0, name, 0);
            let read = j is Some && is_record(j->0, seq![name]) && list is Some && array_in(
                list->0,
            ) is Some && pairs_of(array_in(list->0)->0, first, second) is Some;
            &&& !read ==> pairs_in(j, name, first, second).len() == 0
            &&& read ==> Some(pairs_in(j, name, first, second)) == pairs_of(
                array_in(list->0)->0,
                first,
                second,
            )
        }),
{
}

/// A pair is read from a record with nothing twice, whose two texts are strings where they are
/// there; one that is not there is empty.
pub proof fn law_pair_is_read(j: Option<RecordView>, first: Seq<char>, second: Seq<char>)
    ensures
        ({
            let a = part_of(j->0, first, 0);
            let b = part_of(j->0, second, 1);
            let a_read = a is None || (json_of(a->0) matches Some(JsonView::Text(_)));
            let b_read = b is None || (json_of(b->0) matches Some(JsonView::Text(_)));
            let pair = pair_in(j, first, second);
            &&& pair is Some <==> j is Some && is_record(j->0, seq![first, second]) && a_read
                && b_read
            &&& pair is Some && a is None ==> pair->0.first.len() == 0
            &&& pair is Some && a is Some ==> json_of(a->0) == Some(JsonView::Text(pair->0.first))
            &&& pair is Some && b is None ==> pair->0.second.len() == 0
            &&& pair is Some && b is Some ==> json_of(b->0) == Some(JsonView::Text(pair->0.second))
        }),
{
}

/// A text is a record where it is an object, with all the keys in it, or else an array.
pub proof fn law_record_of_a_text(text: Seq<char>)
    ensures
        object_in(text) is Some ==> record_of(text) == Some(
            RecordView::Named { members: object_in(text)->0, keys: keys_in(text) },
        ),
        object_in(text) is None && array_in(text) is Some ==> record_of(text) == Some(
            RecordView::Listed(array_in(text)->0),
        ),
        object_in(text) is None && array_in(text) is None ==> record_of(text) is None,
{
}

/// The message of a chat service's answer is the content of the message of its first choice; where
/// one of these is missing or no text, it is empty.
pub proof fn law_message_of_the_first_choice(j: JsonView, items: Seq<Seq<char>>, text: Seq<char>)
    ensures
        items.len() > 0 && value_of(j, "choices"@) == Some(JsonView::Array(items)) && json_of(
            items[0],
        ) is Some && value_of(json_of(items[0])->0, "message"@) is Some && value_of(
            value_of(json_of(items[0])->0, "message"@)->0,
            "content"@,
        ) == Some(JsonView::Text(text)) ==> message_in(j) == text,
        !(value_of(j, "choices"@) matches Some(JsonView::Array(_))) ==> message_in(j).len() == 0,
        value_of(j, "choices"@) == Some(JsonView::Array(items)) && items.len() == 0 ==> message_in(
            j,
        ).len() == 0,
{
}

} // verus!
