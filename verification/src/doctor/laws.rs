//! What the doctor promises.
use super::{
    due_places, is_due, law_due_fixes, law_fixes_touch_only_their_checks, overall, passes,
    preconditions, report_lines, settled, CheckInfoView, CheckReportView, CheckResultView,
    FixOutcomeView, Health, Severity,
};
use vstd::prelude::*;

verus! {

/// The light is red exactly when a critical check failed, amber when a check failed but no critical
/// one, green when there are checks and all of them passed, and unknown without checks.
pub proof fn law_lights(checks: Seq<CheckReportView>)
    ensures
        overall(checks) == Health::Red <==> exists|i: int|
            0 <= i < checks.len() && !(#[trigger] checks[i]).ok && checks[i].severity
                == Severity::Critical,
        overall(checks) == Health::Amber <==> (exists|i: int|
            0 <= i < checks.len() && !(#[trigger] checks[i]).ok) && (forall|i: int|
            0 <= i < checks.len() && !(#[trigger] checks[i]).ok ==> checks[i].severity
                == Severity::Warning),
        overall(checks) == Health::Green <==> checks.len() > 0 && forall|i: int|
            0 <= i < checks.len() ==> (#[trigger] checks[i]).ok,
        overall(checks) == Health::Unknown <==> checks.len() == 0,
{
}

/// A report has a line for every check, in order, which says what the check is and what it found.
pub proof fn law_lines_of_a_report(
    checks: Seq<CheckInfoView>,
    results: Seq<CheckResultView>,
    i: int,
)
    requires
        0 <= i < checks.len(),
        results.len() == checks.len(),
    ensures
        report_lines(checks, results).len() == checks.len(),
        ({
            let line = report_lines(checks, results)[i];
            &&& line.id == checks[i].id
            &&& line.label == checks[i].label
            &&& line.severity == checks[i].severity
            &&& line.can_fix == checks[i].can_fix
            &&& line.auto_fix == checks[i].auto_fix
            &&& line.fix_action == checks[i].fix_action
            &&& line.ok == results[i].ok
            &&& line.message == results[i].message
        }),
{
}

/// Whether the check at `k` is the last with an id.
pub open spec fn last_with(checks: Seq<CheckInfoView>, id: Seq<char>, k: int) -> bool {
    0 <= k < checks.len() && checks[k].id == id && forall|j: int|
        k < j < checks.len() ==> (#[trigger] checks[j]).id != id
}

/// Whether the last check with an id passed.
pub open spec fn is_met(
    checks: Seq<CheckInfoView>,
    results: Seq<CheckResultView>,
    id: Seq<char>,
) -> bool {
    exists|k: int| #[trigger] last_with(checks, id, k) && results[k].ok
}

proof fn lemma_is_met(checks: Seq<CheckInfoView>, results: Seq<CheckResultView>, id: Seq<char>)
    ensures
        passes(checks, results, id) == is_met(checks, results, id),
    decreases checks.len(),
{
    if checks.len() > 0 {
        let head = checks.drop_last();
        let n = checks.len() - 1;
        assert forall|j: int| 0 <= j < n implies #[trigger] checks[j] == head[j] by {}
        if checks.last().id == id {
            assert(last_with(checks, id, n));
            if is_met(checks, results, id) {
                let k = choose|k: int| #[trigger] last_with(checks, id, k) && results[k].ok;
                if k < n {
                    assert(checks[n].id != id);
                }
            }
        } else {
            lemma_is_met(head, results, id);
            if is_met(head, results, id) {
                let k = choose|k: int| #[trigger] last_with(head, id, k) && results[k].ok;
                assert(last_with(checks, id, k)) by {
                    assert forall|j: int| k < j < checks.len() implies (
                    #[trigger] checks[j]).id != id by {
                        if j < n {
                            assert(head[j].id != id);
                        }
                    }
                }
            }
            if is_met(checks, results, id) {
                let k = choose|k: int| #[trigger] last_with(checks, id, k) && results[k].ok;
                assert(last_with(head, id, k)) by {
                    assert forall|j: int| k < j < head.len() implies (
                    #[trigger] head[j]).id != id by {
                        assert(checks[j].id != id);
                    }
                }
            }
        }
    }
}

/// Whether every id of a list is met.
pub open spec fn all_met(
    checks: Seq<CheckInfoView>,
    results: Seq<CheckResultView>,
    ids: Seq<Seq<char>>,
) -> bool {
    forall|k: int| 0 <= k < ids.len() ==> is_met(checks, results, #[trigger] ids[k])
}

/// A fix is applied without being asked for exactly when its check failed, it may be applied so,
/// and every check passed that it depends on; an id that no check has is never met.
pub proof fn law_what_is_fixed(checks: Seq<CheckInfoView>, results: Seq<CheckResultView>, i: nat)
    ensures
        due_places(checks, results, checks.len()).contains(i) <==> i < checks.len()
            && !results[i as int].ok && checks[i as int].can_fix && checks[i as int].auto_fix
            && all_met(checks, results, checks[i as int].auto_fix_requires),
{
    law_due_fixes(checks, results);
    let c = checks[i as int];
    let ids = c.auto_fix_requires;
    assert forall|k: int| 0 <= k < ids.len() implies passes(checks, results, #[trigger] ids[k])
        == is_met(checks, results, ids[k]) by {
        lemma_is_met(checks, results, ids[k]);
    }
    assert(preconditions(checks, results, c) <==> all_met(checks, results, ids));
    assert(is_due(checks, results, i as int) <==> !results[i as int].ok && c.auto_fix && c.can_fix
        && preconditions(checks, results, c));
}

/// After the fixes, a check that was fixed has the result that it found when it ran again, and the
/// one it had where it did not run again.
pub proof fn law_results_after_the_fixes(
    results: Seq<CheckResultView>,
    places: Seq<nat>,
    outcomes: Seq<FixOutcomeView>,
    k: int,
)
    requires
        0 <= k < places.len(),
        forall|j: int| 0 <= j < places.len() ==> (#[trigger] places[j]) < results.len(),
        forall|i: int, j: int|
            0 <= i < j < places.len() ==> (#[trigger] places[i]) < (#[trigger] places[j]),
    ensures
        settled(results, places, outcomes).len() == results.len(),
        outcomes[k].again matches Some(v) ==> settled(results, places, outcomes)[places[k] as int]
            == v,
        outcomes[k].again is None ==> settled(results, places, outcomes)[places[k] as int]
            == results[places[k] as int],
    decreases places.len(),
{
    let head = places.drop_last();
    assert forall|j: int| 0 <= j < head.len() implies #[trigger] head[j] == places[j] by {}
    if k < head.len() {
        law_results_after_the_fixes(results, head, outcomes, k);
        assert(places[k] < places[places.len() - 1]);
    } else {
        assert(!head.contains(places[k])) by {
            if head.contains(places[k]) {
                let j = choose|j: int| 0 <= j < head.len() && head[j] == places[k];
                assert(places[j] < places[k]);
            }
        }
        law_fixes_touch_only_their_checks(results, head, outcomes, places[k]);
    }
}

/// Who asked for a fix hears of success exactly when the check passed when it ran again, hears what
/// the check still finds where it did not pass, and hears the fix's own words where it did not run.
pub proof fn law_what_is_told(outcome: FixOutcomeView)
    requires
        outcome.wf(),
    ensures
        outcome.told().ok <==> outcome.fix.ok && outcome.again->0.ok,
        outcome.told().ok ==> outcome.told().message == outcome.fix.message + " - verified"@,
        outcome.fix.ok && !outcome.told().ok ==> outcome.told().message
            == "fix ran but check still fails: "@ + outcome.again->0.message,
        !outcome.fix.ok ==> outcome.told() == outcome.fix,
{
}

} // verus!
