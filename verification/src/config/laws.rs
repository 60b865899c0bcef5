//! What the configuration promises.
use super::{
    duration_parts, duration_seconds, limits, no_rules, port_of, provider_kind_name,
    provider_kind_named, states_ascending, unit_seconds, ProviderKind, StaleRuleView,
};
use crate::number::{all_digits, decimal, digits_value, lemma_decimal_reads_back, parsed_nat};
use crate::text::{is_digit, is_space, trimmed, trimmed_end, trimmed_start};
use vstd::prelude::*;

verus! {

/// The seconds of each unit; no other letter is one.
pub proof fn law_units(c: char)
    ensures
        unit_seconds('s') == Some(1nat),
        unit_seconds('m') == Some(60nat),
        unit_seconds('h') == Some(60nat * 60),
        unit_seconds('d') == Some(24nat * 60 * 60),
        c != 's' && c != 'm' && c != 'h' && c != 'd' ==> unit_seconds(c) is None,
{
}

proof fn lemma_no_space_around(s: Seq<char>)
    requires
        s.len() > 0,
        !is_space(s[0]),
        !is_space(s.last()),
    ensures
        trimmed(s) == s,
{
    reveal_with_fuel(trimmed_start, 2);
    reveal_with_fuel(trimmed_end, 2);
}

/// A number with a unit behind it is that many units, and a number alone is that many seconds, as
/// long as the seconds fit in 64 bits.
pub proof fn law_durations(n: nat, unit: char)
    requires
        unit == 's' || unit == 'm' || unit == 'h' || unit == 'd',
        n <= u64::MAX,
    ensures
        duration_seconds(decimal(n)) == Some(n),
        duration_seconds(decimal(n).push(unit)) == (if n * unit_seconds(unit)->0 <= u64::MAX {
            Some(n * unit_seconds(unit)->0)
        } else {
            None
        }),
{
    lemma_decimal_reads_back(n);
    let digits = decimal(n);
    assert(is_digit(digits[0]) && is_digit(digits[digits.len() - 1]));
    lemma_no_space_around(digits);
    assert(parsed_nat(digits, u64::MAX as nat) == Some(n));
    assert(duration_parts(digits) == Some((n, 1nat)));
    let text = digits.push(unit);
    lemma_no_space_around(text);
    assert(text.drop_last() =~= digits);
    assert(duration_parts(text) == Some((n, unit_seconds(unit)->0)));
    assert(n * 1 == n);
}

/// White space around a duration does not count, and a text that ends neither in a digit nor in a
/// unit is no duration.
pub proof fn law_what_is_no_duration(s: Seq<char>)
    ensures
        trimmed(s).len() == 0 ==> duration_seconds(s) is None,
        trimmed(s).len() > 0 && unit_seconds(trimmed(s).last()) is None && !is_digit(
            trimmed(s).last(),
        ) ==> duration_seconds(s) is None,
        duration_seconds(s) matches Some(n) ==> n <= u64::MAX,
{
}

/// A port is a number of 16 bits; white space around it does not count.
pub proof fn law_ports(n: nat, v: Seq<char>)
    ensures
        n <= 65_535 ==> port_of(decimal(n)) == Some(n),
        n > 65_535 ==> port_of(decimal(n)) is None,
        port_of(v) matches Some(p) ==> p <= 65_535,
{
    lemma_decimal_reads_back(n);
    let digits = decimal(n);
    assert(is_digit(digits[0]) && is_digit(digits[digits.len() - 1]));
    lemma_no_space_around(digits);
}

/// In limits with each state once, the limit of a state is the days of its rule; a state without a
/// rule has none.
pub proof fn law_limit_of_a_state(rules: Seq<StaleRuleView>, k: int, state: Seq<char>)
    requires
        states_ascending(rules),
    ensures
        0 <= k < rules.len() ==> limits(rules).dom().contains(rules[k].state)
            && limits(rules)[rules[k].state] == rules[k].days,
        (forall|i: int| 0 <= i < rules.len() ==> (#[trigger] rules[i]).state != state) ==> !limits(
            rules,
        ).dom().contains(state),
{
    if 0 <= k < rules.len() {
        super::lemma_limits_at(rules, k);
    }
    if forall|i: int| 0 <= i < rules.len() ==> (#[trigger] rules[i]).state != state {
        super::lemma_limits_only(rules, state);
    }
}

/// The names of the kinds of tracker; no other text names one.
pub proof fn law_names_of_trackers(s: Seq<char>)
    ensures
        provider_kind_named(s) == Some(ProviderKind::AzureDevOps) <==> s == "azure-dev-ops"@,
        provider_kind_named(s) == Some(ProviderKind::GitHub) <==> s == "github"@,
        provider_kind_named(s) == Some(ProviderKind::GitLab) <==> s == "gitlab"@,
        provider_kind_named(s) == Some(ProviderKind::Stub) <==> s == "stub"@,
        provider_kind_name(ProviderKind::AzureDevOps) == "azure-dev-ops"@,
        provider_kind_name(ProviderKind::GitHub) == "github"@,
        provider_kind_name(ProviderKind::GitLab) == "gitlab"@,
        provider_kind_name(ProviderKind::Stub) == "stub"@,
{
    reveal_strlit("azure-dev-ops");
    reveal_strlit("github");
    reveal_strlit("gitlab");
    reveal_strlit("stub");
    assert("azure-dev-ops"@.len() == 13);
    assert("github"@.len() == 6);
    assert("gitlab"@.len() == 6);
    assert("stub"@.len() == 4);
    assert("github"@[3] != "gitlab"@[3]);
}

/// Rules that ask for nothing have no list, no limit, no tag and no switch that is on.
pub proof fn law_no_rules_ask_for_nothing()
    ensures
        ({
            let r = no_rules();
            &&& r.required_tags.len() == 0 && r.allowed_tags.len() == 0 && r.disallowed_tags.len()
                == 0
            &&& r.tag_keywords.len() == 0 && r.tag_aliases.len() == 0 && r.stale_days.len() == 0
            &&& r.ignore_states.len() == 0 && r.resolved_states.len() == 0 && r.ignore_types.len()
                == 0
            &&& r.stale_when_resolved_tags.len() == 0 && r.refine_phrases.len() == 0
            &&& r.refine_tag is None && r.refine_min_chars is None && !r.untagged_is_error
            &&& !r.pipelines.flag_failing && !r.pipelines.flag_never_run
            &&& r.pull_requests.stale_open_days is None && r.pull_requests.stale_draft_days is None
            &&& !r.pull_requests.require_work_item && !r.pull_requests.link_include_abandoned
        }),
{
}

} // verus!
