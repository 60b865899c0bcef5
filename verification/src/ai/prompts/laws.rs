//! What the prompts promise to tell a model.
use super::{
    annotated, annotated_all, any_acceptance_criteria, any_accepted, asks, at_most, audit_prompt,
    background_block, category_label, category_line, category_lines, claimed_tags,
    consistency_prompt, described, description_line, draft_prompt, draft_task, field_block,
    field_blocks, item_block, keywords_of, names_acceptance_criteria, names_title, optional_block,
    optional_lines, options_of, pattern_accepts, real_keywords, required_block, sibling_lines,
    tag_prompt, AuditInput, DraftFieldValue, DraftMode, FieldDraftContext,
    FieldsConsistencyContext, TagHintView, TaggerInput, AUDIT_BACKGROUND_HEADING,
    REQUIRED_HEADING, TAG_BACKGROUND_HEADING,
};
use crate::ai::instructions::{GWT_ACCEPTANCE_CRITERIA_INSTRUCTION, TITLE_DRAFT_INSTRUCTION};
use crate::rules::carries;
use crate::text::{
    first_chars, has_prefix, has_suffix, joined, lower, lowercase, occurs, occurs_at, opt_view,
    trimmed, uppercase, views,
};
use vstd::prelude::*;

verus! {

// ---------------------------------------------------------------------------------------------
// Parts of texts
// ---------------------------------------------------------------------------------------------

proof fn lemma_part(a: Seq<char>, x: Seq<char>, b: Seq<char>)
    ensures
        occurs(a + x + b, x),
{
    let s = a + x + b;
    assert(s.subrange(a.len() as int, (a.len() + x.len()) as int) =~= x);
    assert(occurs_at(s, x, a.len() as int));
}

proof fn lemma_part_of_part(a: Seq<char>, m: Seq<char>, b: Seq<char>, x: Seq<char>)
    requires
        occurs(m, x),
    ensures
        occurs(a + m + b, x),
{
    let i = choose|i: int| #[trigger] occurs_at(m, x, i);
    let s = a + m + b;
    let at = a.len() + i;
    assert(s.subrange(at, at + x.len()) =~= m.subrange(i, i + x.len()));
    assert(occurs_at(s, x, at));
}

proof fn lemma_left(a: Seq<char>, b: Seq<char>, x: Seq<char>)
    requires
        occurs(a, x),
    ensures
        occurs(a + b, x),
{
    let none = Seq::<char>::empty();
    lemma_part_of_part(none, a, b, x);
    assert(none + a + b =~= a + b);
}

proof fn lemma_right(a: Seq<char>, b: Seq<char>, x: Seq<char>)
    requires
        occurs(b, x),
    ensures
        occurs(a + b, x),
{
    let none = Seq::<char>::empty();
    lemma_part_of_part(a, b, none, x);
    assert(a + b + none =~= a + b);
}

proof fn lemma_itself(x: Seq<char>)
    ensures
        occurs(x, x),
{
    let none = Seq::<char>::empty();
    lemma_part(none, x, none);
    assert(none + x + none =~= x);
}

proof fn lemma_grouped(a: Seq<char>, b: Seq<char>, c: Seq<char>)
    ensures
        a + b + c == a + (b + c),
{
    assert(a + b + c =~= a + (b + c));
}

proof fn lemma_at_the_end(a: Seq<char>, b: Seq<char>)
    ensures
        has_suffix(a + b, b),
{
    let s = a + b;
    assert(s.skip(s.len() - b.len()) =~= b);
}

/// What is part of one of five texts is part of all of them together.
proof fn lemma_of_five(
    a: Seq<char>,
    b: Seq<char>,
    c: Seq<char>,
    d: Seq<char>,
    e: Seq<char>,
    x: Seq<char>,
)
    requires
        occurs(a, x) || occurs(b, x) || occurs(c, x) || occurs(d, x) || occurs(e, x),
    ensures
        occurs(a + b + c + d + e, x),
{
    if occurs(a, x) {
        lemma_left(a, b, x);
    }
    if occurs(b, x) {
        lemma_right(a, b, x);
    }
    if occurs(a + b, x) {
        lemma_left(a + b, c, x);
    }
    if occurs(c, x) {
        lemma_right(a + b, c, x);
    }
    if occurs(a + b + c, x) {
        lemma_left(a + b + c, d, x);
    }
    if occurs(d, x) {
        lemma_right(a + b + c, d, x);
    }
    if occurs(a + b + c + d, x) {
        lemma_left(a + b + c + d, e, x);
    }
    if occurs(e, x) {
        lemma_right(a + b + c + d, e, x);
    }
}

proof fn lemma_item_told(input: TaggerInput)
    ensures
        occurs(
            item_block(input),
            "Work item:\n- Title: "@ + input.title@ + "\n- Type: "@ + input.work_item_type@,
        ),
        occurs(item_block(input), description_line(opt_view(input.description))),
        occurs(
            item_block(input),
            "\n- Current tags: "@ + (if input.current_tags@.len() == 0 {
                "(none)"@
            } else {
                joined(views(input.current_tags@), ", "@)
            }),
        ),
{
    let a = "Work item:\n- Title: "@ + input.title@ + "\n- Type: "@ + input.work_item_type@;
    let b = description_line(opt_view(input.description));
    let c = "\n- Current tags: "@;
    let d = if input.current_tags@.len() == 0 {
        "(none)"@
    } else {
        joined(views(input.current_tags@), ", "@)
    };
    lemma_itself(a);
    lemma_itself(b);
    lemma_itself(c + d);
    lemma_grouped(a + b, c, d);
    lemma_left(a, b, a);
    lemma_right(a, b, b);
    lemma_left(a + b, c + d, a);
    lemma_left(a + b, c + d, b);
    lemma_right(a + b, c + d, c + d);
    lemma_left(a + b + c + d, "\n"@, a);
    lemma_left(a + b + c + d, "\n"@, b);
    lemma_left(a + b + c + d, "\n"@, c + d);
}

proof fn lemma_joined_holds(list: Seq<Seq<char>>, sep: Seq<char>, k: int)
    requires
        0 <= k < list.len(),
    ensures
        occurs(joined(list, sep), list[k]),
    decreases list.len(),
{
    let none = Seq::<char>::empty();
    if list.len() == 1 {
        lemma_part(none, list[0], none);
        assert(none + list[0] + none =~= list[0]);
    } else {
        let head = list.drop_last();
        let before = joined(head, sep) + sep;
        if k < head.len() {
            lemma_joined_holds(head, sep, k);
            assert(head[k] == list[k]);
            lemma_part_of_part(none, joined(head, sep), sep + list.last(), list[k]);
            assert(none + joined(head, sep) + (sep + list.last()) =~= joined(list, sep));
        } else {
            lemma_part(before, list[k], none);
            assert(before + list[k] + none =~= joined(list, sep));
        }
    }
}

// ---------------------------------------------------------------------------------------------
// Tagging
// ---------------------------------------------------------------------------------------------

/// A pattern without a star at its end accepts exactly its own text, case and white space aside; one
/// with a star exactly the tags that start with what precedes the star.
pub proof fn law_pattern_accepts(pattern: Seq<char>, tag: Seq<char>)
    ensures
        ({
            let p = lower(trimmed(pattern));
            let t = lower(trimmed(tag));
            if p.len() > 0 && p.last() == '*' {
                pattern_accepts(pattern, tag) <==> exists|rest: Seq<char>|
                    t == #[trigger] (p.drop_last() + rest)
            } else {
                pattern_accepts(pattern, tag) <==> t == p
            }
        }),
{
    let p = lower(trimmed(pattern));
    let t = lower(trimmed(tag));
    if p.len() > 0 && p.last() == '*' {
        let start = p.drop_last();
        if pattern_accepts(pattern, tag) {
            assert(t =~= start + t.skip(start.len() as int));
        }
        if exists|rest: Seq<char>| t == #[trigger] (start + rest) {
            let rest = choose|rest: Seq<char>| t == #[trigger] (start + rest);
            assert(t.take(start.len() as int) =~= start);
        }
    }
}

/// The options of a category are the allowed tags that its pattern accepts, in their order.
pub proof fn law_options_of_a_category(pattern: Seq<char>, allowed: Seq<Seq<char>>)
    ensures
        options_of(pattern, allowed) == allowed.filter(
            |t: Seq<char>| pattern_accepts(pattern, t),
        ),
    decreases allowed.len(),
{
    reveal(Seq::filter);
    if allowed.len() > 0 {
        law_options_of_a_category(pattern, allowed.drop_last());
    } else {
        assert(options_of(pattern, allowed) =~= allowed);
    }
}

/// Whether a required pattern still needs a choice: it says something, the item has no tag that it
/// accepts, and there is an allowed one.
pub open spec fn needs_choice(
    pattern: Seq<char>,
    current: Seq<Seq<char>>,
    allowed: Seq<Seq<char>>,
) -> bool {
    &&& trimmed(pattern).len() > 0
    &&& forall|i: int|
        0 <= i < current.len() ==> !pattern_accepts(trimmed(pattern), #[trigger] current[i])
    &&& exists|i: int|
        0 <= i < allowed.len() && pattern_accepts(trimmed(pattern), #[trigger] allowed[i])
}

proof fn lemma_needs_choice(
    pattern: Seq<char>,
    current: Seq<Seq<char>>,
    allowed: Seq<Seq<char>>,
)
    ensures
        needs_choice(pattern, current, allowed) == asks(pattern, current, allowed),
{
    let p = trimmed(pattern);
    law_options_of_a_category(p, allowed);
    let fits = |t: Seq<char>| pattern_accepts(p, t);
    if exists|i: int| 0 <= i < allowed.len() && pattern_accepts(p, #[trigger] allowed[i]) {
        let i = choose|i: int| 0 <= i < allowed.len() && pattern_accepts(p, #[trigger] allowed[i]);
        allowed.lemma_filter_contains(fits, i);
        assert(options_of(p, allowed).len() > 0);
    }
    if options_of(p, allowed).len() > 0 {
        allowed.lemma_filter_pred(fits, 0);
        allowed.lemma_filter_contains_rev(fits, options_of(p, allowed)[0]);
        let i = choose|i: int| 0 <= i < allowed.len() && allowed[i] == options_of(p, allowed)[0];
        assert(pattern_accepts(p, allowed[i]));
    }
    if any_accepted(p, current) {
        let i = choose|i: int| 0 <= i < current.len() && pattern_accepts(p, #[trigger] current[i]);
        assert(pattern_accepts(p, current[i]));
    }
}

/// The line for a category: its name without a star, and its options.
pub open spec fn choice_line(
    pattern: Seq<char>,
    allowed: Seq<Seq<char>>,
    hints: Seq<TagHintView>,
) -> Seq<char> {
    let p = trimmed(pattern);
    let name = if p.len() > 0 && p.last() == '*' {
        p.drop_last()
    } else {
        p
    };
    "- "@ + name + " (choose one): "@ + joined(
        allowed.filter(|t: Seq<char>| pattern_accepts(p, t)).map_values(
            |t: Seq<char>| annotated(t, hints),
        ),
        ", "@,
    )
}

/// There is a line for each required pattern that still needs a choice, in their order, with all of
/// its options.
pub proof fn law_lines_of_the_categories(
    required: Seq<Seq<char>>,
    current: Seq<Seq<char>>,
    allowed: Seq<Seq<char>>,
    hints: Seq<TagHintView>,
)
    ensures
        category_lines(required, current, allowed, hints) == required.filter(
            |p: Seq<char>| needs_choice(p, current, allowed),
        ).map_values(|p: Seq<char>| choice_line(p, allowed, hints)),
    decreases required.len(),
{
    reveal(Seq::filter);
    let open = |p: Seq<char>| needs_choice(p, current, allowed);
    let line = |p: Seq<char>| choice_line(p, allowed, hints);
    if required.len() > 0 {
        let head = required.drop_last();
        let last = required.last();
        law_lines_of_the_categories(head, current, allowed, hints);
        lemma_needs_choice(last, current, allowed);
        if open(last) {
            law_options_of_a_category(trimmed(last), allowed);
            assert(annotated_all(options_of(trimmed(last), allowed), hints) =~= options_of(
                trimmed(last),
                allowed,
            ).map_values(|t: Seq<char>| annotated(t, hints)));
            assert(category_line(last, allowed, hints) == line(last));
            assert(head.filter(open).push(last).map_values(line) =~= head.filter(
                open,
            ).map_values(line).push(line(last)));
        }
    } else {
        assert(required.filter(open).map_values(line) =~= Seq::empty());
    }
}

/// The tags that are offered by a category are the options of those that still need a choice.
pub proof fn law_tags_offered_by_categories(
    required: Seq<Seq<char>>,
    current: Seq<Seq<char>>,
    allowed: Seq<Seq<char>>,
    t: Seq<char>,
)
    ensures
        claimed_tags(required, current, allowed).contains(t) <==> exists|i: int|
            0 <= i < required.len() && needs_choice(#[trigger] required[i], current, allowed)
                && allowed.contains(t) && pattern_accepts(trimmed(required[i]), t),
    decreases required.len(),
{
    if required.len() > 0 {
        let head = required.drop_last();
        let last = required.last();
        let before = claimed_tags(head, current, allowed);
        let all = claimed_tags(required, current, allowed);
        law_tags_offered_by_categories(head, current, allowed, t);
        lemma_needs_choice(last, current, allowed);
        law_options_of_a_category(trimmed(last), allowed);
        let fits = |x: Seq<char>| pattern_accepts(trimmed(last), x);
        let options = options_of(trimmed(last), allowed);
        assert(options.contains(t) == (allowed.contains(t) && pattern_accepts(trimmed(last), t)))
            by {
            if options.contains(t) {
                let k = choose|k: int| 0 <= k < options.len() && options[k] == t;
                allowed.lemma_filter_pred(fits, k);
                allowed.lemma_filter_contains_rev(fits, t);
            }
            if allowed.contains(t) && pattern_accepts(trimmed(last), t) {
                let k = choose|k: int| 0 <= k < allowed.len() && allowed[k] == t;
                allowed.lemma_filter_contains(fits, k);
            }
        }
        if all.contains(t) {
            let k = choose|k: int| 0 <= k < all.len() && all[k] == t;
            if k < before.len() {
                assert(before[k] == t);
                let i = choose|i: int|
                    0 <= i < head.len() && needs_choice(#[trigger] head[i], current, allowed)
                        && allowed.contains(t) && pattern_accepts(trimmed(head[i]), t);
                assert(needs_choice(required[i], current, allowed));
            } else {
                assert(options[k - before.len()] == t);
                assert(needs_choice(required[required.len() - 1], current, allowed));
            }
        }
        if exists|i: int|
            0 <= i < required.len() && needs_choice(#[trigger] required[i], current, allowed)
                && allowed.contains(t) && pattern_accepts(trimmed(required[i]), t) {
            let i = choose|i: int|
                0 <= i < required.len() && needs_choice(#[trigger] required[i], current, allowed)
                    && allowed.contains(t) && pattern_accepts(trimmed(required[i]), t);
            if i < head.len() {
                assert(needs_choice(head[i], current, allowed));
                assert(before.contains(t));
                let k = choose|k: int| 0 <= k < before.len() && before[k] == t;
                assert(all[k] == t);
            } else {
                let k = choose|k: int| 0 <= k < options.len() && options[k] == t;
                assert(all[before.len() + k] == t);
            }
        }
    }
}

/// The allowed tags that no category offers have a line each, in their order.
pub proof fn law_lines_of_the_other_tags(
    allowed: Seq<Seq<char>>,
    claimed: Seq<Seq<char>>,
    hints: Seq<TagHintView>,
)
    ensures
        optional_lines(allowed, claimed, hints) == allowed.filter(
            |t: Seq<char>|
                forall|k: int|
                    0 <= k < claimed.len() ==> lowercase(#[trigger] claimed[k]) != lowercase(t),
        ).map_values(|t: Seq<char>| "- "@ + annotated(t, hints)),
    decreases allowed.len(),
{
    reveal(Seq::filter);
    let free = |t: Seq<char>|
        forall|k: int|
            0 <= k < claimed.len() ==> lowercase(#[trigger] claimed[k]) != lowercase(t);
    let line = |t: Seq<char>| "- "@ + annotated(t, hints);
    if allowed.len() > 0 {
        let head = allowed.drop_last();
        let last = allowed.last();
        law_lines_of_the_other_tags(head, claimed, hints);
        assert(free(last) == !carries(claimed, last)) by {
            if carries(claimed, last) {
                let k = choose|k: int|
                    0 <= k < claimed.len() && lowercase(#[trigger] claimed[k]) == lowercase(last);
                assert(lowercase(claimed[k]) == lowercase(last));
            }
        }
        if free(last) {
            assert(head.filter(free).push(last).map_values(line) =~= head.filter(
                free,
            ).map_values(line).push(line(last)));
        }
    } else {
        assert(allowed.filter(free).map_values(line) =~= Seq::empty());
    }
}

/// The keywords that count for a tag are those of its last entry.
pub proof fn law_last_hint_counts(hints: Seq<TagHintView>, tag: Seq<char>)
    ensures
        match keywords_of(hints, tag) {
            Some(words) => exists|i: int|
                0 <= i < hints.len() && (#[trigger] hints[i]).tag == tag && hints[i].keywords
                    == words && forall|j: int|
                    i < j < hints.len() ==> (#[trigger] hints[j]).tag != tag,
            None => forall|j: int| 0 <= j < hints.len() ==> (#[trigger] hints[j]).tag != tag,
        },
    decreases hints.len(),
{
    if hints.len() > 0 {
        let head = hints.drop_last();
        law_last_hint_counts(head, tag);
        assert forall|j: int| 0 <= j < head.len() implies #[trigger] hints[j] == head[j] by {}
        if hints.last().tag == tag {
            assert(hints[hints.len() - 1].tag == tag);
        } else {
            match keywords_of(head, tag) {
                Some(words) => {
                    let i = choose|i: int|
                        0 <= i < head.len() && (#[trigger] head[i]).tag == tag && head[i].keywords
                            == words && forall|j: int|
                            i < j < head.len() ==> (#[trigger] head[j]).tag != tag;
                    assert(hints[i].tag == tag);
                    assert forall|j: int| i < j < hints.len() implies (#[trigger] hints[j]).tag
                        != tag by {
                        if j < head.len() {
                            assert(head[j].tag != tag);
                        }
                    }
                },
                None => {
                    assert forall|j: int| 0 <= j < hints.len() implies (#[trigger] hints[j]).tag
                        != tag by {
                        if j < head.len() {
                            assert(head[j].tag != tag);
                        }
                    }
                },
            }
        }
    }
}

/// A tag is shown with the first six of its keywords, blank ones aside; one without keywords is shown
/// as it is.
pub proof fn law_tags_are_shown_with_keywords(tag: Seq<char>, hints: Seq<TagHintView>)
    ensures
        ({
            let words = keywords_of(hints, lowercase(tag));
            let spoken = words->0.map_values(|k: Seq<char>| trimmed(k)).filter(
                |k: Seq<char>| k.len() > 0,
            );
            let shown = if spoken.len() <= 6 {
                spoken
            } else {
                spoken.take(6)
            };
            &&& words is None ==> annotated(tag, hints) == tag
            &&& words is Some && spoken.len() == 0 ==> annotated(tag, hints) == tag
            &&& words is Some && spoken.len() > 0 ==> annotated(tag, hints) == tag + " (e.g. "@
                + joined(shown, ", "@) + ")"@
        }),
{
    let words = keywords_of(hints, lowercase(tag));
    if words is Some {
        lemma_real_keywords(words->0);
        let spoken = real_keywords(words->0);
        let shown = at_most(spoken, 6);
        if spoken.len() > 0 {
            assert(spoken[0].len() > 0) by {
                let cut = words->0.map_values(|k: Seq<char>| trimmed(k));
                cut.lemma_filter_pred(|k: Seq<char>| k.len() > 0, 0);
            }
            lemma_joined_holds(shown, ", "@, 0);
            let i = choose|i: int| #[trigger] occurs_at(joined(shown, ", "@), shown[0], i);
            assert(joined(shown, ", "@).len() > 0);
        }
    }
}

proof fn lemma_real_keywords(list: Seq<Seq<char>>)
    ensures
        real_keywords(list) == list.map_values(|k: Seq<char>| trimmed(k)).filter(
            |k: Seq<char>| k.len() > 0,
        ),
    decreases list.len(),
{
    reveal(Seq::filter);
    let cut = list.map_values(|k: Seq<char>| trimmed(k));
    if list.len() > 0 {
        lemma_real_keywords(list.drop_last());
        assert(cut.drop_last() =~= list.drop_last().map_values(|k: Seq<char>| trimmed(k)));
        assert(cut.last() == trimmed(list.last()));
    } else {
        assert(real_keywords(list) =~= cut);
    }
}

/// The prompt holds the background where there is one, the title, the type, the start of the
/// description, the item's tags, the line of every category and the line of every other tag.
pub proof fn law_tag_prompt_tells_everything(
    input: TaggerInput,
    allowed: Seq<Seq<char>>,
    required: Seq<Seq<char>>,
    hints: Seq<TagHintView>,
    background: Seq<char>,
    k: int,
)
    ensures
        ({
            let prompt = tag_prompt(input, allowed, required, hints, background);
            let current = views(input.current_tags@);
            let categories = category_lines(required, current, allowed, hints);
            let others = optional_lines(allowed, claimed_tags(required, current, allowed), hints);
            &&& trimmed(background).len() > 0 ==> occurs(prompt, trimmed(background))
            &&& occurs(
                prompt,
                "Work item:\n- Title: "@ + input.title@ + "\n- Type: "@ + input.work_item_type@,
            )
            &&& input.description is Some && trimmed(input.description->0@).len() > 0 ==> occurs(
                prompt,
                "\n- Description: "@ + first_chars(trimmed(input.description->0@), 1000),
            )
            &&& current.len() > 0 ==> occurs(
                prompt,
                "\n- Current tags: "@ + joined(current, ", "@),
            )
            &&& current.len() == 0 ==> occurs(prompt, "\n- Current tags: "@ + "(none)"@)
            &&& 0 <= k < categories.len() ==> occurs(prompt, categories[k])
            &&& 0 <= k < others.len() ==> occurs(prompt, others[k])
            &&& has_suffix(prompt, "\nReturn the JSON now."@)
        }),
{
    let current = views(input.current_tags@);
    let categories = category_lines(required, current, allowed, hints);
    let others = optional_lines(allowed, claimed_tags(required, current, allowed), hints);
    let p1 = background_block(TAG_BACKGROUND_HEADING@, background);
    let p2 = item_block(input);
    let p3 = required_block(categories);
    let p4 = optional_block(others, categories.len() > 0);
    let p5 = "\nReturn the JSON now."@;
    if trimmed(background).len() > 0 {
        lemma_part(TAG_BACKGROUND_HEADING@, trimmed(background), "\n\n"@);
        lemma_of_five(p1, p2, p3, p4, p5, trimmed(background));
    }
    lemma_item_told(input);
    lemma_of_five(
        p1,
        p2,
        p3,
        p4,
        p5,
        "Work item:\n- Title: "@ + input.title@ + "\n- Type: "@ + input.work_item_type@,
    );
    lemma_of_five(p1, p2, p3, p4, p5, description_line(opt_view(input.description)));
    lemma_of_five(
        p1,
        p2,
        p3,
        p4,
        p5,
        "\n- Current tags: "@ + (if current.len() == 0 {
            "(none)"@
        } else {
            joined(current, ", "@)
        }),
    );
    if 0 <= k < categories.len() {
        lemma_joined_holds(categories, "\n"@, k);
        lemma_part_of_part(REQUIRED_HEADING@, joined(categories, "\n"@), "\n"@, categories[k]);
        lemma_of_five(p1, p2, p3, p4, p5, categories[k]);
    }
    if 0 <= k < others.len() {
        lemma_joined_holds(others, "\n"@, k);
        let heading = if categories.len() > 0 {
            "\nOPTIONAL tags (only if they CLEARLY apply):\n"@
        } else {
            "\nALLOWED tags:\n"@
        };
        lemma_part_of_part(heading, joined(others, "\n"@), "\n"@, others[k]);
        lemma_of_five(p1, p2, p3, p4, p5, others[k]);
    }
    lemma_at_the_end(p1 + p2 + p3 + p4, p5);
}

// ---------------------------------------------------------------------------------------------
// Drafting
// ---------------------------------------------------------------------------------------------

/// Whether a text speaks of a title or of acceptance criteria, case and white space aside.
pub proof fn law_labels(label: Seq<char>)
    ensures
        names_title(label) <==> lower(trimmed(label)) == "title"@ || lower(trimmed(label))
            == "summary"@ || has_suffix(lower(trimmed(label)), " title"@),
        names_acceptance_criteria(label) <==> occurs(
            lower(trimmed(label)),
            "acceptance criteria"@,
        ) || lower(trimmed(label)) == "acceptance"@ || lower(trimmed(label)) == "ac"@,
{
}

/// Every other field with something in it is told, under its label and from its start; a blank one
/// adds nothing.
pub proof fn law_other_fields_are_told(fields: Seq<(String, String)>, k: int)
    requires
        0 <= k < fields.len(),
    ensures
        trimmed(fields[k].1@).len() > 0 ==> occurs(
            sibling_lines(fields),
            "- "@ + trimmed(fields[k].0@) + ": "@ + first_chars(trimmed(fields[k].1@), 1000)
                + "\n"@,
        ),
        trimmed(fields.last().1@).len() == 0 ==> sibling_lines(fields) == sibling_lines(
            fields.drop_last(),
        ),
    decreases fields.len(),
{
    let head = fields.drop_last();
    let before = sibling_lines(head);
    if k < head.len() {
        law_other_fields_are_told(head, k);
        assert(head[k] == fields[k]);
        let line = sibling_line(fields[k]);
        if trimmed(fields[k].1@).len() > 0 && trimmed(fields.last().1@).len() > 0 {
            lemma_one_more_sibling(fields);
            lemma_left(before, sibling_line(fields.last()), line);
        }
    } else if trimmed(fields[k].1@).len() > 0 {
        lemma_one_more_sibling(fields);
        lemma_itself(sibling_line(fields[k]));
        lemma_right(before, sibling_line(fields[k]), sibling_line(fields[k]));
    }
}

/// The line for one other field.
spec fn sibling_line(field: (String, String)) -> Seq<char> {
    "- "@ + trimmed(field.0@) + ": "@ + first_chars(trimmed(field.1@), 1000) + "\n"@
}

proof fn lemma_one_more_sibling(fields: Seq<(String, String)>)
    requires
        fields.len() > 0,
        trimmed(fields.last().1@).len() > 0,
    ensures
        sibling_lines(fields) == sibling_lines(fields.drop_last()) + sibling_line(fields.last()),
{
    let a = sibling_lines(fields.drop_last());
    let label = trimmed(fields.last().0@);
    let value = first_chars(trimmed(fields.last().1@), 1000);
    lemma_grouped(a, "- "@, label);
    lemma_grouped(a, "- "@ + label, ": "@);
    lemma_grouped(a, "- "@ + label + ": "@, value);
    lemma_grouped(a, "- "@ + label + ": "@ + value, "\n"@);
}

/// The task is to improve a field exactly when that was asked for and there is something to improve,
/// and then shows it; else to draft it. Either way it names the field.
pub proof fn law_draft_task(ctx: FieldDraftContext)
    ensures
        ({
            let improve = ctx.mode == DraftMode::Improve && trimmed(ctx.current_value@).len() > 0;
            &&& improve ==> has_prefix(
                draft_task(ctx),
                "Improve the \""@ + trimmed(ctx.field_label@) + "\" field below"@,
            ) && has_suffix(draft_task(ctx), trimmed(ctx.current_value@))
            &&& !improve ==> has_prefix(
                draft_task(ctx),
                "Draft the \""@ + trimmed(ctx.field_label@) + "\" field"@,
            )
        }),
{
    let label = trimmed(ctx.field_label@);
    let task = draft_task(ctx);
    if ctx.mode == DraftMode::Improve && trimmed(ctx.current_value@).len() > 0 {
        let middle =
            "\" field below - fix clarity, structure and completeness while keeping its intent. Return the improved field only.\n\nCURRENT "@;
        reveal_strlit("\" field below");
        reveal_strlit(
            "\" field below - fix clarity, structure and completeness while keeping its intent. Return the improved field only.\n\nCURRENT ",
        );
        assert(middle.take(13) =~= "\" field below"@);
        let start = "Improve the \""@ + label + "\" field below"@;
        let front = "Improve the \""@ + label + middle;
        assert forall|i: int| 0 <= i < start.len() implies #[trigger] task[i] == start[i] by {
            assert(task[i] == front[i]);
            let n = ("Improve the \""@ + label).len();
            if i >= n {
                assert(front[i] == middle[i - n]);
                assert(middle.take(13)[i - n] == middle[i - n]);
            }
        }
        assert(task.take(start.len() as int) =~= start);
        let value = trimmed(ctx.current_value@);
        assert(task.skip(task.len() - value.len()) =~= value);
    } else {
        let tail =
            "\" field for this work item from the context above. Return the field content only."@;
        reveal_strlit("\" field");
        reveal_strlit(
            "\" field for this work item from the context above. Return the field content only.",
        );
        assert(tail.take(7) =~= "\" field"@);
        let start = "Draft the \""@ + label + "\" field"@;
        assert forall|i: int| 0 <= i < start.len() implies #[trigger] task[i] == start[i] by {
            let n = ("Draft the \""@ + label).len();
            if i >= n {
                assert(tail.take(7)[i - n] == tail[i - n]);
            }
        }
        assert(task.take(start.len() as int) =~= start);
    }
}

/// The prompt for a draft holds the background where there is one, the item, its other fields and the
/// task; the house styles where the field asks for them.
pub proof fn law_draft_prompt_tells_everything(ctx: FieldDraftContext)
    ensures
        trimmed(ctx.background@).len() > 0 ==> occurs(draft_prompt(ctx), trimmed(ctx.background@)),
        occurs(
            draft_prompt(ctx),
            "WORK ITEM\n- Type: "@ + trimmed(ctx.work_item_type@) + "\n- Title: "@ + trimmed(
                ctx.title@,
            ) + "\n"@ + sibling_lines(ctx.other_fields@),
        ),
        occurs(draft_prompt(ctx), draft_task(ctx)),
        ctx.acceptance_criteria_gwt && names_acceptance_criteria(ctx.field_label@) ==> occurs(
            draft_prompt(ctx),
            GWT_ACCEPTANCE_CRITERIA_INSTRUCTION@,
        ),
        names_title(ctx.field_label@) ==> has_suffix(draft_prompt(ctx), TITLE_DRAFT_INSTRUCTION@),
        !(ctx.acceptance_criteria_gwt && names_acceptance_criteria(ctx.field_label@))
            && !names_title(ctx.field_label@) ==> has_suffix(draft_prompt(ctx), draft_task(ctx)),
{
    let p1 = background_block("TEAM BACKGROUND:\n"@, ctx.background@);
    let p2 = "WORK ITEM\n- Type: "@ + trimmed(ctx.work_item_type@) + "\n- Title: "@ + trimmed(
        ctx.title@,
    ) + "\n"@;
    let p3 = sibling_lines(ctx.other_fields@);
    let p4 = draft_task(ctx);
    let gwt = if ctx.acceptance_criteria_gwt && names_acceptance_criteria(ctx.field_label@) {
        "\n\n"@ + GWT_ACCEPTANCE_CRITERIA_INSTRUCTION@
    } else {
        Seq::empty()
    };
    let title = if names_title(ctx.field_label@) {
        "\n\n"@ + TITLE_DRAFT_INSTRUCTION@
    } else {
        Seq::empty()
    };
    lemma_draft_parts(p1, p2, p3, p4, gwt, title);
    if trimmed(ctx.background@).len() > 0 {
        let bg = trimmed(ctx.background@);
        lemma_part("TEAM BACKGROUND:\n"@, bg, "\n\n"@);
        lemma_left(p1, p2, bg);
        lemma_left(p1 + p2, p3, bg);
        lemma_left(p1 + p2 + p3, "\n"@, bg);
        lemma_left(p1 + p2 + p3 + "\n"@, p4, bg);
        lemma_left(p1 + p2 + p3 + "\n"@ + p4, gwt, bg);
        lemma_left(p1 + p2 + p3 + "\n"@ + p4 + gwt, title, bg);
    }
    let upto = p1 + p2 + p3 + "\n"@ + p4;
    if ctx.acceptance_criteria_gwt && names_acceptance_criteria(ctx.field_label@) {
        let style = GWT_ACCEPTANCE_CRITERIA_INSTRUCTION@;
        lemma_itself(style);
        lemma_right("\n\n"@, style, style);
        lemma_right(upto, gwt, style);
        lemma_left(upto + gwt, title, style);
    }
    if names_title(ctx.field_label@) {
        lemma_grouped(upto + gwt, "\n\n"@, TITLE_DRAFT_INSTRUCTION@);
        lemma_at_the_end(upto + gwt + "\n\n"@, TITLE_DRAFT_INSTRUCTION@);
    } else if !(ctx.acceptance_criteria_gwt && names_acceptance_criteria(ctx.field_label@)) {
        assert(upto + gwt + title =~= upto);
        lemma_at_the_end(p1 + p2 + p3 + "\n"@, p4);
    }
}

proof fn lemma_draft_parts(
    a: Seq<char>,
    b: Seq<char>,
    c: Seq<char>,
    task: Seq<char>,
    e: Seq<char>,
    f: Seq<char>,
)
    ensures
        occurs(a + b + c + "\n"@ + task + e + f, b + c),
        occurs(a + b + c + "\n"@ + task + e + f, task),
{
    let front = a + b + c + "\n"@;
    lemma_itself(b + c);
    lemma_grouped(a, b, c);
    lemma_right(a, b + c, b + c);
    lemma_left(a + b + c, "\n"@, b + c);
    lemma_left(front, task, b + c);
    lemma_left(front + task, e, b + c);
    lemma_left(front + task + e, f, b + c);
    lemma_itself(task);
    lemma_right(front, task, task);
    lemma_left(front + task, e, task);
    lemma_left(front + task + e, f, task);
}

// ---------------------------------------------------------------------------------------------
// Judging, and making fields agree
// ---------------------------------------------------------------------------------------------

/// The prompt for an audit holds the background where there is one, what the item is, and the start
/// of its description; one without a description is said to have none.
pub proof fn law_audit_prompt_tells_everything(input: AuditInput, background: Seq<char>)
    ensures
        trimmed(background).len() > 0 ==> occurs(
            audit_prompt(input, background),
            trimmed(background),
        ),
        occurs(
            audit_prompt(input, background),
            "Work item to audit:\n- Type: "@ + trimmed(input.work_item_type@) + "\n- State: "@
                + trimmed(input.state@) + "\n- Title: "@ + trimmed(input.title@) + "\n"@,
        ),
        input.description is Some && trimmed(input.description->0@).len() > 0 ==> occurs(
            audit_prompt(input, background),
            "- Description: "@ + first_chars(trimmed(input.description->0@), 1000) + "\n"@,
        ),
        input.description is None || trimmed(input.description->0@).len() == 0 ==> occurs(
            audit_prompt(input, background),
            "- Description: (empty)\n"@,
        ),
{
    let none = Seq::<char>::empty();
    let prompt = audit_prompt(input, background);
    let p1 = background_block(AUDIT_BACKGROUND_HEADING@, background);
    let p2 = "Work item to audit:\n- Type: "@ + trimmed(input.work_item_type@) + "\n- State: "@
        + trimmed(input.state@) + "\n- Title: "@ + trimmed(input.title@) + "\n"@;
    let p3 = described(opt_view(input.description));
    let p4 = "\nReturn the JSON now."@;
    assert(prompt == p1 + p2 + p3 + p4);
    if trimmed(background).len() > 0 {
        lemma_part(AUDIT_BACKGROUND_HEADING@, trimmed(background), "\n\n"@);
        lemma_part_of_part(none, p1, p2 + p3 + p4, trimmed(background));
        assert(none + p1 + (p2 + p3 + p4) =~= prompt);
    }
    lemma_part(p1, p2, p3 + p4);
    assert(p1 + p2 + (p3 + p4) =~= prompt);
    lemma_part(p1 + p2, p3, p4);
}

/// Every field that is to agree is told, with its reference, its label and the start of its value.
pub proof fn law_every_field_is_told(fields: Seq<DraftFieldValue>, k: int)
    requires
        0 <= k < fields.len(),
    ensures
        occurs(field_blocks(fields), field_block(fields[k])),
        trimmed(fields[k].value@).len() > 0 ==> field_block(fields[k]) == "\n--- reference: "@
            + trimmed(fields[k].reference@) + " | label: "@ + trimmed(fields[k].label@)
            + " ---\n"@ + first_chars(trimmed(fields[k].value@), 1000) + "\n"@,
        trimmed(fields[k].value@).len() == 0 ==> field_block(fields[k]) == "\n--- reference: "@
            + trimmed(fields[k].reference@) + " | label: "@ + trimmed(fields[k].label@)
            + " ---\n"@ + "(empty)"@ + "\n"@,
    decreases fields.len(),
{
    let none = Seq::<char>::empty();
    let head = fields.drop_last();
    if k < head.len() {
        law_every_field_is_told(head, k);
        assert(head[k] == fields[k]);
        lemma_part_of_part(none, field_blocks(head), field_block(fields.last()), field_block(
            fields[k],
        ));
        assert(none + field_blocks(head) + field_block(fields.last()) =~= field_blocks(fields));
    } else {
        lemma_part(field_blocks(head), field_block(fields[k]), none);
        assert(field_blocks(head) + field_block(fields[k]) + none =~= field_blocks(fields));
    }
}

/// Whether one of the fields holds acceptance criteria.
pub proof fn law_some_field_holds_criteria(fields: Seq<DraftFieldValue>)
    ensures
        any_acceptance_criteria(fields) <==> exists|i: int|
            0 <= i < fields.len() && names_acceptance_criteria((#[trigger] fields[i]).label@),
    decreases fields.len(),
{
    if fields.len() > 0 {
        let head = fields.drop_last();
        law_some_field_holds_criteria(head);
        if any_acceptance_criteria(head) {
            let i = choose|i: int|
                0 <= i < head.len() && names_acceptance_criteria((#[trigger] head[i]).label@);
            assert(names_acceptance_criteria(fields[i].label@));
        }
        if names_acceptance_criteria(fields.last().label@) {
            assert(names_acceptance_criteria(fields[fields.len() - 1].label@));
        }
        if exists|i: int|
            0 <= i < fields.len() && names_acceptance_criteria((#[trigger] fields[i]).label@) {
            let i = choose|i: int|
                0 <= i < fields.len() && names_acceptance_criteria((#[trigger] fields[i]).label@);
            if i < head.len() {
                assert(names_acceptance_criteria(head[i].label@));
            }
        }
    }
}

/// The prompt to make fields agree holds the background where there is one, the item, and every
/// field; and the house style exactly when it is on and a field holds acceptance criteria.
pub proof fn law_consistency_prompt_tells_everything(ctx: FieldsConsistencyContext)
    ensures
        trimmed(ctx.background@).len() > 0 ==> occurs(
            consistency_prompt(ctx),
            trimmed(ctx.background@),
        ),
        occurs(
            consistency_prompt(ctx),
            "WORK ITEM\n- Type: "@ + trimmed(ctx.work_item_type@) + "\n- Title: "@ + trimmed(
                ctx.title@,
            ) + "\n\nFIELDS TO HARMONISE:\n"@ + field_blocks(ctx.fields@),
        ),
        ctx.acceptance_criteria_gwt && any_acceptance_criteria(ctx.fields@) ==> occurs(
            consistency_prompt(ctx),
            field_blocks(ctx.fields@) + "\n"@ + GWT_ACCEPTANCE_CRITERIA_INSTRUCTION@,
        ),
        !(ctx.acceptance_criteria_gwt && any_acceptance_criteria(ctx.fields@)) ==> has_suffix(
            consistency_prompt(ctx),
            field_blocks(ctx.fields@) + "\nReturn the JSON now, one entry per field above."@,
        ),
{
    let none = Seq::<char>::empty();
    let prompt = consistency_prompt(ctx);
    let p1 = background_block("TEAM BACKGROUND:\n"@, ctx.background@);
    let p2 = "WORK ITEM\n- Type: "@ + trimmed(ctx.work_item_type@) + "\n- Title: "@ + trimmed(
        ctx.title@,
    ) + "\n\nFIELDS TO HARMONISE:\n"@;
    let p3 = field_blocks(ctx.fields@);
    let styled = ctx.acceptance_criteria_gwt && any_acceptance_criteria(ctx.fields@);
    let p4 = if styled {
        "\n"@ + GWT_ACCEPTANCE_CRITERIA_INSTRUCTION@
    } else {
        Seq::empty()
    };
    let p5 = "\nReturn the JSON now, one entry per field above."@;
    assert(prompt == p1 + p2 + p3 + p4 + p5);
    if trimmed(ctx.background@).len() > 0 {
        lemma_part("TEAM BACKGROUND:\n"@, trimmed(ctx.background@), "\n\n"@);
        lemma_part_of_part(none, p1, p2 + p3 + p4 + p5, trimmed(ctx.background@));
        assert(none + p1 + (p2 + p3 + p4 + p5) =~= prompt);
    }
    lemma_part(p1, p2 + p3, p4 + p5);
    assert(p1 + (p2 + p3) + (p4 + p5) =~= prompt);
    if styled {
        let both = p3 + "\n"@ + GWT_ACCEPTANCE_CRITERIA_INSTRUCTION@;
        lemma_part(p1 + p2, both, p5);
        assert(p1 + p2 + both + p5 =~= prompt);
    } else {
        let end = p3 + p5;
        assert(prompt.skip(prompt.len() - end.len()) =~= end);
    }
}

} // verus!
