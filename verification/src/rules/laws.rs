//! What the hygiene rules promise: which flags and suggestions come out, in terms of the items and
//! the rules that go in.
use super::{
    all_flags, disallowed_flags, ignored, item_flags, matches_tag, missing_flags, pipeline_flags,
    pr_flags, resolved, resolved_flags, stale_flags, stale_tag_flags, tag_flags, untagged_flag,
};
use crate::config::{PipelineRules, PrRules, RuleSetView, StaleRuleView};
use crate::flag::{EntityFlagView, FlagCode, FlagView, Severity};
use crate::number::signed_decimal;
use crate::pipeline::RunStatus;
use crate::pull_request::{PrStatus, PullRequestView};
use crate::text::{lower, same_ignoring_case};
use crate::time::{days_between, Timestamp};
use crate::work_item::WorkItemView;
use vstd::prelude::*;

verus! {

// ---------------------------------------------------------------------------------------------
// Words for what goes in and what comes out
// ---------------------------------------------------------------------------------------------

/// Whether a text is on a list, but for the case of ASCII letters.
pub open spec fn on_list(list: Seq<Seq<char>>, x: Seq<char>) -> bool {
    exists|k: int| 0 <= k < list.len() && lower(#[trigger] list[k]) == lower(x)
}

/// Whether the rules exempt an item by its state or by its type.
pub open spec fn exempt(item: WorkItemView, rules: RuleSetView) -> bool {
    on_list(rules.ignore_states, item.state) || on_list(rules.ignore_types, item.work_item_type)
}

/// Whether a pattern of a list matches a tag.
pub open spec fn some_pattern(patterns: Seq<Seq<char>>, tag: Seq<char>) -> bool {
    exists|p: Seq<char>| #[trigger] patterns.contains(p) && matches_tag(p, tag)
}

/// The flags of one check.
pub open spec fn raised(flags: Seq<FlagView>, code: FlagCode) -> Seq<FlagView> {
    flags.filter(|f: FlagView| f.code == code)
}

/// The tags that flags are about.
pub open spec fn tags_of(flags: Seq<FlagView>) -> Seq<Option<Seq<char>>> {
    flags.map_values(|f: FlagView| f.tag)
}

/// The tags of a list, as flags name them.
pub open spec fn named(tags: Seq<Seq<char>>) -> Seq<Option<Seq<char>>> {
    tags.map_values(|t: Seq<char>| Some(t))
}

/// The day limits that an item has passed: those of its own state that are below its age.
pub open spec fn passed(
    limits: Seq<StaleRuleView>,
    item: WorkItemView,
    now: Timestamp,
) -> Seq<StaleRuleView> {
    limits.filter(
        |r: StaleRuleView|
            lower(r.state) == lower(item.state) && r.days < days_between(item.changed_at, now),
    )
}

/// The required patterns that no tag of a list matches.
pub open spec fn unmet(required: Seq<Seq<char>>, tags: Seq<Seq<char>>) -> Seq<Seq<char>> {
    required.filter(
        |p: Seq<char>| forall|t: Seq<char>| #[trigger] tags.contains(t) ==> !matches_tag(p, t),
    )
}

/// The tags of a list that match a pattern of another.
pub open spec fn matching(tags: Seq<Seq<char>>, patterns: Seq<Seq<char>>) -> Seq<Seq<char>> {
    tags.filter(|t: Seq<char>| some_pattern(patterns, t))
}

/// The tags of a list that the rules forbid: denied by name, or missing from an allow list.
pub open spec fn forbidden(tags: Seq<Seq<char>>, rules: RuleSetView) -> Seq<Seq<char>> {
    tags.filter(
        |t: Seq<char>|
            some_pattern(rules.disallowed_tags, t) || (rules.allowed_tags.len() > 0
                && !some_pattern(rules.allowed_tags, t)),
    )
}

/// The place of a check among the checks.
pub open spec fn rank(code: FlagCode) -> int {
    match code {
        FlagCode::StaleStateTag => 0,
        FlagCode::Untagged => 1,
        FlagCode::MissingRequiredTag => 2,
        FlagCode::DisallowedTag => 3,
        FlagCode::Stale => 4,
        _ => 5,
    }
}

// ---------------------------------------------------------------------------------------------
// Lemmas
// ---------------------------------------------------------------------------------------------

proof fn lemma_all_kept(flags: Seq<FlagView>, code: FlagCode)
    requires
        forall|i: int| 0 <= i < flags.len() ==> (#[trigger] flags[i]).code == code,
    ensures
        raised(flags, code) == flags,
    decreases flags.len(),
{
    reveal(Seq::filter);
    if flags.len() > 0 {
        let head = flags.drop_last();
        assert forall|i: int| 0 <= i < head.len() implies (#[trigger] head[i]).code == code by {
            assert(flags[i].code == code);
        }
        lemma_all_kept(head, code);
        assert(flags[flags.len() - 1].code == code);
        assert(head.push(flags.last()) =~= flags);
    }
}

proof fn lemma_none_kept(flags: Seq<FlagView>, code: FlagCode)
    requires
        forall|i: int| 0 <= i < flags.len() ==> (#[trigger] flags[i]).code != code,
    ensures
        raised(flags, code) == Seq::<FlagView>::empty(),
    decreases flags.len(),
{
    reveal(Seq::filter);
    if flags.len() > 0 {
        let head = flags.drop_last();
        assert forall|i: int| 0 <= i < head.len() implies (#[trigger] head[i]).code != code by {
            assert(flags[i].code != code);
        }
        lemma_none_kept(head, code);
        assert(flags[flags.len() - 1].code != code);
    } else {
        assert(raised(flags, code) =~= Seq::<FlagView>::empty());
    }
}

/// Whether every flag of a list is of one check.
spec fn all_of(flags: Seq<FlagView>, code: FlagCode) -> bool {
    forall|i: int| 0 <= i < flags.len() ==> (#[trigger] flags[i]).code == code
}

proof fn lemma_raised(flags: Seq<FlagView>, code: FlagCode, wanted: FlagCode)
    requires
        all_of(flags, code),
    ensures
        raised(flags, wanted) == (if wanted == code {
            flags
        } else {
            Seq::empty()
        }),
{
    if wanted == code {
        lemma_all_kept(flags, wanted);
    } else {
        lemma_none_kept(flags, wanted);
    }
}

proof fn lemma_on_list(list: Seq<Seq<char>>, x: Seq<char>)
    ensures
        on_list(list, x) == crate::text::any_same(list, x),
{
    if on_list(list, x) {
        let k = choose|k: int| 0 <= k < list.len() && lower(#[trigger] list[k]) == lower(x);
        assert(same_ignoring_case(list[k], x));
    }
    if crate::text::any_same(list, x) {
        let k = choose|k: int| 0 <= k < list.len() && same_ignoring_case(#[trigger] list[k], x);
        assert(lower(list[k]) == lower(x));
    }
}

pub(super) proof fn lemma_exempt(item: WorkItemView, rules: RuleSetView)
    ensures
        exempt(item, rules) == ignored(item, rules),
        on_list(rules.resolved_states, item.state) == resolved(item, rules),
{
    lemma_on_list(rules.ignore_states, item.state);
    lemma_on_list(rules.ignore_types, item.work_item_type);
    lemma_on_list(rules.resolved_states, item.state);
}

proof fn lemma_some_pattern(patterns: Seq<Seq<char>>, tag: Seq<char>)
    ensures
        some_pattern(patterns, tag) == super::any_pattern(patterns, tag),
{
    if some_pattern(patterns, tag) {
        let p = choose|p: Seq<char>| #[trigger] patterns.contains(p) && matches_tag(p, tag);
        let i = choose|i: int| 0 <= i < patterns.len() && patterns[i] == p;
        assert(matches_tag(patterns[i], tag));
    }
    if super::any_pattern(patterns, tag) {
        let i = choose|i: int| 0 <= i < patterns.len() && matches_tag(#[trigger] patterns[i], tag);
        assert(patterns.contains(patterns[i]));
    }
}

proof fn lemma_no_tag(pattern: Seq<char>, tags: Seq<Seq<char>>)
    ensures
        super::any_tag(pattern, tags) == !(forall|t: Seq<char>| #[trigger]
            tags.contains(t) ==> !matches_tag(pattern, t)),
{
    if super::any_tag(pattern, tags) {
        let i = choose|i: int| 0 <= i < tags.len() && matches_tag(pattern, #[trigger] tags[i]);
        assert(tags.contains(tags[i]));
    } else {
        assert forall|t: Seq<char>| #[trigger] tags.contains(t) implies !matches_tag(
            pattern,
            t,
        ) by {
            let i = choose|i: int| 0 <= i < tags.len() && tags[i] == t;
            assert(!matches_tag(pattern, tags[i]));
        }
    }
}

proof fn lemma_named_push(flags: Seq<FlagView>, f: FlagView, tags: Seq<Seq<char>>, t: Seq<char>)
    ensures
        tags_of(flags.push(f)) == tags_of(flags).push(f.tag),
        named(tags.push(t)) == named(tags).push(Some(t)),
{
    assert(tags_of(flags.push(f)) =~= tags_of(flags).push(f.tag));
    assert(named(tags.push(t)) =~= named(tags).push(Some(t)));
}

proof fn lemma_named_empty()
    ensures
        tags_of(Seq::empty()) == named(Seq::empty()),
{
    assert(tags_of(Seq::empty()) =~= named(Seq::empty()));
}

proof fn lemma_contradicting(item: WorkItemView, patterns: Seq<Seq<char>>, tags: Seq<Seq<char>>)
    ensures
        tags_of(stale_tag_flags(item, patterns, tags)) == named(matching(tags, patterns)),
        all_of(stale_tag_flags(item, patterns, tags), FlagCode::StaleStateTag),
        forall|i: int|
            0 <= i < stale_tag_flags(item, patterns, tags).len() ==> well_told(
                #[trigger] stale_tag_flags(item, patterns, tags)[i],
                item,
            ),
    decreases tags.len(),
{
    reveal(Seq::filter);
    if tags.len() > 0 {
        let head = tags.drop_last();
        lemma_contradicting(item, patterns, head);
        lemma_some_pattern(patterns, tags.last());
        let flags = stale_tag_flags(item, patterns, tags);
        lemma_named_push(
            stale_tag_flags(item, patterns, head),
            flags.last(),
            matching(head, patterns),
            tags.last(),
        );
    } else {
        lemma_named_empty();
        assert(matching(tags, patterns) =~= Seq::empty());
    }
}

proof fn lemma_missing(item: WorkItemView, required: Seq<Seq<char>>)
    ensures
        tags_of(missing_flags(item, required)) == named(unmet(required, item.tags)),
        all_of(missing_flags(item, required), FlagCode::MissingRequiredTag),
        forall|i: int|
            0 <= i < missing_flags(item, required).len() ==> well_told(
                #[trigger] missing_flags(item, required)[i],
                item,
            ),
    decreases required.len(),
{
    reveal(Seq::filter);
    if required.len() > 0 {
        let head = required.drop_last();
        lemma_missing(item, head);
        lemma_no_tag(required.last(), item.tags);
        lemma_named_push(
            missing_flags(item, head),
            missing_flags(item, required).last(),
            unmet(head, item.tags),
            required.last(),
        );
    } else {
        lemma_named_empty();
        assert(unmet(required, item.tags) =~= Seq::empty());
    }
}

proof fn lemma_forbidden(item: WorkItemView, rules: RuleSetView, tags: Seq<Seq<char>>)
    ensures
        tags_of(disallowed_flags(item, rules, tags)) == named(forbidden(tags, rules)),
        all_of(disallowed_flags(item, rules, tags), FlagCode::DisallowedTag),
        forall|i: int|
            0 <= i < disallowed_flags(item, rules, tags).len() ==> {
                let f = #[trigger] disallowed_flags(item, rules, tags)[i];
                &&& well_told(f, item)
                &&& f.message == "tag \""@ + f.tag->0 + "\" is "@ + (if some_pattern(
                    rules.disallowed_tags,
                    f.tag->0,
                ) {
                    "on the disallowed list"@
                } else {
                    "not on the allowed list"@
                })
            },
    decreases tags.len(),
{
    reveal(Seq::filter);
    if tags.len() > 0 {
        let head = tags.drop_last();
        lemma_forbidden(item, rules, head);
        lemma_some_pattern(rules.disallowed_tags, tags.last());
        lemma_some_pattern(rules.allowed_tags, tags.last());
        lemma_named_push(
            disallowed_flags(item, rules, head),
            disallowed_flags(item, rules, tags).last(),
            forbidden(head, rules),
            tags.last(),
        );
    } else {
        lemma_named_empty();
        assert(forbidden(tags, rules) =~= Seq::empty());
    }
}

proof fn lemma_stale(item: WorkItemView, limits: Seq<StaleRuleView>, now: Timestamp)
    ensures
        stale_flags(item, limits, now).len() == passed(limits, item, now).len(),
        forall|i: int|
            0 <= i < passed(limits, item, now).len() ==> {
                let f = #[trigger] stale_flags(item, limits, now)[i];
                &&& f.tag is None
                &&& f.message == "stale: "@ + signed_decimal(days_between(item.changed_at, now))
                    + " days in \""@ + item.state + "\" (limit "@ + signed_decimal(
                    passed(limits, item, now)[i].days as int,
                ) + ")"@
            },
        all_of(stale_flags(item, limits, now), FlagCode::Stale),
        forall|i: int|
            0 <= i < stale_flags(item, limits, now).len() ==> well_told(
                #[trigger] stale_flags(item, limits, now)[i],
                item,
            ),
    decreases limits.len(),
{
    reveal(Seq::filter);
    if limits.len() > 0 {
        lemma_stale(item, limits.drop_last(), now);
    }
}

/// Whether a flag names its item and is as serious as its check asks.
spec fn well_told(f: FlagView, item: WorkItemView) -> bool {
    &&& f.work_item_id == item.id
    &&& f.team == item.team
    &&& f.code == FlagCode::MissingRequiredTag ==> f.severity == Severity::Error && f.message
        == "missing required tag matching \""@ + f.tag->0 + "\""@
    &&& f.code == FlagCode::StaleStateTag ==> f.severity == Severity::Warn && f.message == "tag \""@
        + f.tag->0 + "\" implies open work, but the item is resolved (state \""@ + item.state
        + "\")"@
    &&& f.code == FlagCode::DisallowedTag ==> f.severity == Severity::Warn
    &&& f.code == FlagCode::Stale ==> f.severity == Severity::Warn
}

proof fn lemma_one_item(item: WorkItemView, rules: RuleSetView, now: Timestamp)
    ensures
        all_flags(seq![item], rules, now) == item_flags(item, rules, now),
{
    reveal_with_fuel(all_flags, 2);
    assert(seq![item].drop_last() =~= Seq::<WorkItemView>::empty());
    assert(all_flags(seq![item], rules, now) =~= item_flags(item, rules, now));
}

/// Whether flags name an item, are of the five checks up to one of them, and follow the order of the
/// checks.
spec fn in_order(flags: Seq<FlagView>, item: WorkItemView, from: int, to: int) -> bool {
    &&& forall|i: int|
        0 <= i < flags.len() ==> {
            let f = #[trigger] flags[i];
            f.work_item_id == item.id && f.team == item.team && from <= rank(f.code) <= to
        }
    &&& forall|i: int, j: int|
        0 <= i < j < flags.len() ==> rank((#[trigger] flags[i]).code) <= rank(
            (#[trigger] flags[j]).code,
        )
}

proof fn lemma_in_order_add(
    a: Seq<FlagView>,
    b: Seq<FlagView>,
    item: WorkItemView,
    from: int,
    mid: int,
    to: int,
)
    requires
        from <= mid <= to,
        in_order(a, item, from, mid),
        in_order(b, item, mid, to),
    ensures
        in_order(a + b, item, from, to),
{
    let all = a + b;
    assert forall|i: int| 0 <= i < all.len() implies {
        let f = #[trigger] all[i];
        f.work_item_id == item.id && f.team == item.team && from <= rank(f.code) <= to
    } by {
        if i < a.len() {
            assert(all[i] == a[i]);
        } else {
            assert(all[i] == b[i - a.len()]);
        }
    }
    assert forall|i: int, j: int| 0 <= i < j < all.len() implies rank((#[trigger] all[i]).code)
        <= rank((#[trigger] all[j]).code) by {
        if j < a.len() {
            assert(all[i] == a[i] && all[j] == a[j]);
        } else if i < a.len() {
            assert(all[i] == a[i] && all[j] == b[j - a.len()]);
        } else {
            assert(all[i] == b[i - a.len()] && all[j] == b[j - a.len()]);
        }
    }
}

/// The flags of one check on one item, part by part.
proof fn lemma_parts(item: WorkItemView, rules: RuleSetView, now: Timestamp, code: FlagCode)
    ensures
        raised(all_flags(seq![item], rules, now), code) == (if code == FlagCode::StaleStateTag {
            resolved_flags(item, rules)
        } else if ignored(item, rules) {
            Seq::empty()
        } else if code == FlagCode::Stale {
            stale_flags(item, rules.stale_days, now)
        } else if item.tags.len() == 0 {
            if code == FlagCode::Untagged {
                seq![untagged_flag(item, rules)]
            } else {
                Seq::empty()
            }
        } else if code == FlagCode::MissingRequiredTag {
            missing_flags(item, rules.required_tags)
        } else if code == FlagCode::DisallowedTag {
            disallowed_flags(item, rules, item.tags)
        } else {
            Seq::empty()
        }),
{
    lemma_one_item(item, rules, now);
    lemma_contradicting(item, rules.stale_when_resolved_tags, item.tags);
    lemma_missing(item, rules.required_tags);
    lemma_forbidden(item, rules, item.tags);
    lemma_stale(item, rules.stale_days, now);
    let res = resolved_flags(item, rules);
    let tag = tag_flags(item, rules);
    let old_ones = stale_flags(item, rules.stale_days, now);
    let of_code = |f: FlagView| f.code == code;
    lemma_raised(res, FlagCode::StaleStateTag, code);
    lemma_raised(old_ones, FlagCode::Stale, code);
    if item.tags.len() == 0 {
        lemma_raised(tag, FlagCode::Untagged, code);
    } else {
        let a = missing_flags(item, rules.required_tags);
        let b = disallowed_flags(item, rules, item.tags);
        lemma_raised(a, FlagCode::MissingRequiredTag, code);
        lemma_raised(b, FlagCode::DisallowedTag, code);
        Seq::filter_distributes_over_add(a, b, of_code);
    }
    Seq::filter_distributes_over_add(res, tag, of_code);
    Seq::filter_distributes_over_add(res + tag, old_ones, of_code);
    assert(raised(all_flags(seq![item], rules, now), code) =~= (if code
        == FlagCode::StaleStateTag {
        res
    } else if ignored(item, rules) {
        Seq::empty()
    } else if code == FlagCode::Stale {
        old_ones
    } else {
        raised(tag, code)
    }));
    if item.tags.len() > 0 {
        let a = missing_flags(item, rules.required_tags);
        let b = disallowed_flags(item, rules, item.tags);
        assert(raised(tag, code) =~= (if code == FlagCode::MissingRequiredTag {
            a
        } else if code == FlagCode::DisallowedTag {
            b
        } else {
            Seq::empty()
        }));
    }
}

// ---------------------------------------------------------------------------------------------
// Flags on work items
// ---------------------------------------------------------------------------------------------

/// An item that is not exempt is flagged as stale once for each day limit of its own state that it
/// has passed, and an item that is exempt never. The flag tells the age, the state and the limit.
pub proof fn law_stale_past_the_limit_of_the_state(
    item: WorkItemView,
    rules: RuleSetView,
    now: Timestamp,
)
    ensures
        exempt(item, rules) ==> raised(all_flags(seq![item], rules, now), FlagCode::Stale).len()
            == 0,
        !exempt(item, rules) ==> raised(all_flags(seq![item], rules, now), FlagCode::Stale).len()
            == passed(rules.stale_days, item, now).len(),
        forall|i: int|
            0 <= i < raised(all_flags(seq![item], rules, now), FlagCode::Stale).len() ==> {
                let f = #[trigger] raised(all_flags(seq![item], rules, now), FlagCode::Stale)[i];
                &&& f.tag is None
                &&& f.message == "stale: "@ + signed_decimal(days_between(item.changed_at, now))
                    + " days in \""@ + item.state + "\" (limit "@ + signed_decimal(
                    passed(rules.stale_days, item, now)[i].days as int,
                ) + ")"@
            },
{
    lemma_exempt(item, rules);
    lemma_parts(item, rules, now, FlagCode::Stale);
    lemma_stale(item, rules.stale_days, now);
}

/// An item whose state has no day limit is never stale, however old it is.
pub proof fn law_no_limit_for_the_state(
    item: WorkItemView,
    rules: RuleSetView,
    now: Timestamp,
    i: int,
)
    requires
        forall|k: int|
            0 <= k < rules.stale_days.len() ==> lower((#[trigger] rules.stale_days[k]).state)
                != lower(item.state),
        0 <= i < all_flags(seq![item], rules, now).len(),
    ensures
        all_flags(seq![item], rules, now)[i].code != FlagCode::Stale,
{
    law_stale_past_the_limit_of_the_state(item, rules, now);
    let flags = all_flags(seq![item], rules, now);
    let limits = rules.stale_days;
    let pred = |r: StaleRuleView|
        lower(r.state) == lower(item.state) && r.days < days_between(item.changed_at, now);
    if passed(limits, item, now).len() > 0 {
        limits.lemma_filter_pred(pred, 0);
        limits.lemma_filter_contains_rev(pred, passed(limits, item, now)[0]);
        let k = choose|k: int| 0 <= k < limits.len() && limits[k] == passed(limits, item, now)[0];
        assert(lower(limits[k].state) != lower(item.state));
    }
    if flags[i].code == FlagCode::Stale {
        flags.lemma_filter_contains(|f: FlagView| f.code == FlagCode::Stale, i);
    }
}

/// An item whose state has one day limit is stale exactly when its age exceeds that limit.
pub proof fn law_one_limit_for_the_state(
    item: WorkItemView,
    rules: RuleSetView,
    now: Timestamp,
    k: int,
)
    requires
        !exempt(item, rules),
        0 <= k < rules.stale_days.len(),
        lower(rules.stale_days[k].state) == lower(item.state),
        forall|j: int|
            0 <= j < rules.stale_days.len() && j != k ==> lower(
                (#[trigger] rules.stale_days[j]).state,
            ) != lower(item.state),
    ensures
        (exists|i: int|
            0 <= i < all_flags(seq![item], rules, now).len() && (#[trigger] all_flags(
                seq![item],
                rules,
                now,
            )[i]).code == FlagCode::Stale) <==> days_between(item.changed_at, now)
            > rules.stale_days[k].days,
{
    law_stale_past_the_limit_of_the_state(item, rules, now);
    let flags = all_flags(seq![item], rules, now);
    let limits = rules.stale_days;
    let stale = |f: FlagView| f.code == FlagCode::Stale;
    let pred = |r: StaleRuleView|
        lower(r.state) == lower(item.state) && r.days < days_between(item.changed_at, now);
    if days_between(item.changed_at, now) > limits[k].days {
        limits.lemma_filter_contains(pred, k);
        assert(passed(limits, item, now).len() > 0);
        assert(raised(flags, FlagCode::Stale).len() > 0);
        flags.lemma_filter_pred(stale, 0);
        flags.lemma_filter_contains_rev(stale, raised(flags, FlagCode::Stale)[0]);
        let i = choose|i: int|
            0 <= i < flags.len() && flags[i] == raised(flags, FlagCode::Stale)[0];
        assert(flags[i].code == FlagCode::Stale);
    } else {
        if passed(limits, item, now).len() > 0 {
            limits.lemma_filter_pred(pred, 0);
            limits.lemma_filter_contains_rev(pred, passed(limits, item, now)[0]);
            let j = choose|j: int|
                0 <= j < limits.len() && limits[j] == passed(limits, item, now)[0];
            assert(limits[j].days < days_between(item.changed_at, now));
            assert(j != k);
        }
        assert forall|i: int| 0 <= i < flags.len() implies (#[trigger] flags[i]).code
            != FlagCode::Stale by {
            if flags[i].code == FlagCode::Stale {
                flags.lemma_filter_contains(stale, i);
            }
        }
    }
}

/// A tagged item that is not exempt is flagged for exactly the required patterns that none of its
/// tags matches, in their order; any other item for none.
pub proof fn law_missing_tags_are_flagged(item: WorkItemView, rules: RuleSetView, now: Timestamp)
    ensures
        tags_of(raised(all_flags(seq![item], rules, now), FlagCode::MissingRequiredTag)) == (if exempt(
            item,
            rules,
        ) || item.tags.len() == 0 {
            Seq::empty()
        } else {
            named(unmet(rules.required_tags, item.tags))
        }),
        forall|i: int|
            0 <= i < raised(
                all_flags(seq![item], rules, now),
                FlagCode::MissingRequiredTag,
            ).len() ==> {
                let f = #[trigger] raised(
                    all_flags(seq![item], rules, now),
                    FlagCode::MissingRequiredTag,
                )[i];
                f.severity == Severity::Error && f.message == "missing required tag matching \""@
                    + f.tag->0 + "\""@
            },
{
    lemma_exempt(item, rules);
    lemma_parts(item, rules, now, FlagCode::MissingRequiredTag);
    lemma_missing(item, rules.required_tags);
    assert(tags_of(Seq::<FlagView>::empty()) =~= Seq::empty());
}

/// An item that is not exempt is flagged for exactly those of its tags that the rules forbid, in
/// their order; an exempt item for none. The flag says which list the tag offends.
pub proof fn law_forbidden_tags_are_flagged(item: WorkItemView, rules: RuleSetView, now: Timestamp)
    ensures
        tags_of(raised(all_flags(seq![item], rules, now), FlagCode::DisallowedTag)) == (if exempt(
            item,
            rules,
        ) {
            Seq::empty()
        } else {
            named(forbidden(item.tags, rules))
        }),
        forall|i: int|
            0 <= i < raised(all_flags(seq![item], rules, now), FlagCode::DisallowedTag).len() ==> {
                let f = #[trigger] raised(
                    all_flags(seq![item], rules, now),
                    FlagCode::DisallowedTag,
                )[i];
                &&& f.severity == Severity::Warn
                &&& f.message == "tag \""@ + f.tag->0 + "\" is "@ + (if some_pattern(
                    rules.disallowed_tags,
                    f.tag->0,
                ) {
                    "on the disallowed list"@
                } else {
                    "not on the allowed list"@
                })
            },
{
    lemma_exempt(item, rules);
    lemma_parts(item, rules, now, FlagCode::DisallowedTag);
    lemma_forbidden(item, rules, item.tags);
    reveal(Seq::filter);
    assert(tags_of(Seq::<FlagView>::empty()) =~= Seq::empty());
}

/// An item in a resolved state, exempt or not, is flagged for exactly those of its tags that speak
/// of open work, in their order; an item in any other state for none.
pub proof fn law_contradicting_tags_are_flagged(
    item: WorkItemView,
    rules: RuleSetView,
    now: Timestamp,
)
    ensures
        tags_of(raised(all_flags(seq![item], rules, now), FlagCode::StaleStateTag)) == (if on_list(
            rules.resolved_states,
            item.state,
        ) {
            named(matching(item.tags, rules.stale_when_resolved_tags))
        } else {
            Seq::empty()
        }),
        forall|i: int|
            0 <= i < raised(all_flags(seq![item], rules, now), FlagCode::StaleStateTag).len() ==> {
                let f = #[trigger] raised(
                    all_flags(seq![item], rules, now),
                    FlagCode::StaleStateTag,
                )[i];
                f.severity == Severity::Warn && f.message == "tag \""@ + f.tag->0
                    + "\" implies open work, but the item is resolved (state \""@ + item.state
                    + "\")"@
            },
{
    lemma_exempt(item, rules);
    lemma_parts(item, rules, now, FlagCode::StaleStateTag);
    lemma_contradicting(item, rules.stale_when_resolved_tags, item.tags);
    assert(tags_of(Seq::<FlagView>::empty()) =~= Seq::empty());
}

/// An item is flagged as untagged, and then once, exactly when it has no tags and is not exempt.
/// The flag is as serious as the rules ask.
pub proof fn law_untagged_items_are_flagged(item: WorkItemView, rules: RuleSetView, now: Timestamp)
    ensures
        raised(all_flags(seq![item], rules, now), FlagCode::Untagged).len() == (if item.tags.len()
            == 0 && !exempt(item, rules) {
            1nat
        } else {
            0nat
        }),
        forall|i: int|
            0 <= i < raised(all_flags(seq![item], rules, now), FlagCode::Untagged).len() ==> {
                let f = #[trigger] raised(all_flags(seq![item], rules, now), FlagCode::Untagged)[i];
                &&& (f.severity == Severity::Error <==> rules.untagged_is_error)
                &&& f.message == "item has no tags"@
                &&& f.tag is None
            },
{
    lemma_exempt(item, rules);
    lemma_parts(item, rules, now, FlagCode::Untagged);
}

/// Every flag of an item names the item and its team, is of one of five checks, and comes after the
/// flags of the earlier checks.
pub proof fn law_flags_follow_the_checks(item: WorkItemView, rules: RuleSetView, now: Timestamp)
    ensures
        forall|i: int|
            0 <= i < all_flags(seq![item], rules, now).len() ==> {
                let f = #[trigger] all_flags(seq![item], rules, now)[i];
                f.work_item_id == item.id && f.team == item.team && rank(f.code) < 5
            },
        forall|i: int, j: int|
            0 <= i < j < all_flags(seq![item], rules, now).len() ==> rank(
                (#[trigger] all_flags(seq![item], rules, now)[i]).code,
            ) <= rank((#[trigger] all_flags(seq![item], rules, now)[j]).code),
{
    lemma_one_item(item, rules, now);
    lemma_contradicting(item, rules.stale_when_resolved_tags, item.tags);
    lemma_missing(item, rules.required_tags);
    lemma_forbidden(item, rules, item.tags);
    lemma_stale(item, rules.stale_days, now);
    let res = resolved_flags(item, rules);
    let tag = tag_flags(item, rules);
    let old_ones = stale_flags(item, rules.stale_days, now);
    assert(in_order(res, item, 0, 1));
    assert(in_order(tag, item, 1, 3)) by {
        if item.tags.len() > 0 {
            lemma_in_order_add(
                missing_flags(item, rules.required_tags),
                disallowed_flags(item, rules, item.tags),
                item,
                1,
                2,
                3,
            );
        }
    }
    assert(in_order(old_ones, item, 3, 4));
    lemma_in_order_add(res, tag, item, 0, 1, 3);
    lemma_in_order_add(res + tag, old_ones, item, 0, 3, 4);
}

// ---------------------------------------------------------------------------------------------
// Flags on pull requests and pipelines
// ---------------------------------------------------------------------------------------------

/// Whether flags hold one with a code.
pub open spec fn has_code(flags: Seq<EntityFlagView>, code: Seq<char>) -> bool {
    exists|i: int| 0 <= i < flags.len() && (#[trigger] flags[i]).code == code
}

/// The day limit for a pull request of its kind, where there is one.
pub open spec fn limit_for(pr: PullRequestView, rules: PrRules) -> Option<i64> {
    let days = if pr.is_draft {
        rules.stale_draft_days
    } else {
        rules.stale_open_days
    };
    if days matches Some(d) && d <= 0 {
        None
    } else {
        days
    }
}

proof fn lemma_codes_differ()
    ensures
        "no-work-item"@ != "stale-open"@,
        "no-work-item"@ != "stale-draft"@,
        "stale-open"@ != "stale-draft"@,
        "never-run"@ != "failing"@,
{
    reveal_strlit("no-work-item");
    reveal_strlit("stale-open");
    reveal_strlit("stale-draft");
    reveal_strlit("never-run");
    reveal_strlit("failing");
    assert("no-work-item"@.len() == 12);
    assert("stale-open"@.len() == 10);
    assert("stale-draft"@.len() == 11);
    assert("never-run"@.len() == 9);
    assert("failing"@.len() == 7);
}

/// An active pull request with a creation time and a limit for its kind is flagged as stale, a
/// draft as a draft and any other as open, exactly when its age exceeds the limit: whatever it is
/// linked to and whatever else the rules ask.
pub proof fn law_stale_prs_are_flagged(pr: PullRequestView, rules: PrRules, now: Timestamp)
    requires
        pr.status == PrStatus::Active,
        pr.created_at is Some,
        limit_for(pr, rules) is Some,
    ensures
        (has_code(pr_flags(pr, rules, now), "stale-draft"@) || has_code(
            pr_flags(pr, rules, now),
            "stale-open"@,
        )) <==> days_between(pr.created_at->0, now) > limit_for(pr, rules)->0,
        has_code(pr_flags(pr, rules, now), "stale-draft"@) ==> pr.is_draft,
        has_code(pr_flags(pr, rules, now), "stale-open"@) ==> !pr.is_draft,
{
    lemma_codes_differ();
    let flags = pr_flags(pr, rules, now);
    if days_between(pr.created_at->0, now) > limit_for(pr, rules)->0 {
        let last = flags[flags.len() - 1];
        assert(last.code == "stale-draft"@ || last.code == "stale-open"@);
    }
}

/// A pull request that is not active, has no creation time, or is of a kind without a limit or
/// with one that is not positive, is never stale.
pub proof fn law_no_limit_no_stale_pr(pr: PullRequestView, rules: PrRules, now: Timestamp)
    requires
        pr.status != PrStatus::Active || pr.created_at is None || limit_for(pr, rules) is None,
    ensures
        !has_code(pr_flags(pr, rules, now), "stale-draft"@),
        !has_code(pr_flags(pr, rules, now), "stale-open"@),
{
    lemma_codes_differ();
}

/// A pull request is flagged for its missing work item exactly when it is active, the rules ask for
/// one and it has none: whatever its age, its kind and the day limits.
pub proof fn law_unlinked_prs_are_flagged(pr: PullRequestView, rules: PrRules, now: Timestamp)
    ensures
        has_code(pr_flags(pr, rules, now), "no-work-item"@) <==> pr.status == PrStatus::Active
            && rules.require_work_item && pr.linked_work_items.len() == 0,
{
    lemma_codes_differ();
    let flags = pr_flags(pr, rules, now);
    if pr.status == PrStatus::Active && rules.require_work_item && pr.linked_work_items.len() == 0 {
        assert(flags[0].code == "no-work-item"@);
    }
}

/// The flags of a pull request are warnings of at most two checks, each once, that of the work item
/// first; the one of the age tells the age and the limit.
pub proof fn law_pr_flags_are_told(pr: PullRequestView, rules: PrRules, now: Timestamp)
    ensures
        forall|i: int|
            0 <= i < pr_flags(pr, rules, now).len() ==> {
                let f = #[trigger] pr_flags(pr, rules, now)[i];
                &&& f.severity == Severity::Warn
                &&& if f.code == "no-work-item"@ {
                    i == 0 && f.message == "no linked work item"@
                } else {
                    &&& i == pr_flags(pr, rules, now).len() - 1
                    &&& f.code == if pr.is_draft {
                        "stale-draft"@
                    } else {
                        "stale-open"@
                    }
                    &&& f.message == (if pr.is_draft {
                        "draft open"@
                    } else {
                        "open"@
                    }) + " "@ + signed_decimal(days_between(pr.created_at->0, now))
                        + " days (limit "@ + signed_decimal(limit_for(pr, rules)->0 as int) + ")"@
                }
            },
{
    lemma_codes_differ();
}

/// A pipeline is flagged as never run exactly when it never ran and the rules ask, and as failing
/// exactly when its latest run failed and the rules ask.
pub proof fn law_pipelines_are_flagged(last: Option<RunStatus>, rules: PipelineRules)
    ensures
        has_code(pipeline_flags(last, rules), "never-run"@) <==> rules.flag_never_run
            && last is None,
        has_code(pipeline_flags(last, rules), "failing"@) <==> rules.flag_failing && last == Some(
            RunStatus::Failed,
        ),
        pipeline_flags(last, rules).len() <= 1,
        forall|i: int|
            0 <= i < pipeline_flags(last, rules).len() ==> {
                let f = #[trigger] pipeline_flags(last, rules)[i];
                ||| f.code == "never-run"@ && f.severity == Severity::Warn && f.message
                    == "pipeline has never run"@
                ||| f.code == "failing"@ && f.severity == Severity::Error && f.message
                    == "most recent run failed"@
            },
{
    lemma_codes_differ();
    let flags = pipeline_flags(last, rules);
    if rules.flag_never_run && last is None || rules.flag_failing && last == Some(
        RunStatus::Failed,
    ) {
        assert(flags[0].code == "never-run"@ || flags[0].code == "failing"@);
    }
}

} // verus!
