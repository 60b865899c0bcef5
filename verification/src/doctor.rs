//! The doctor: a register of health checks, what their results come to, and which of the failing
//! ones are repaired without being asked.
//!
//! Running a check or its fix is the caller's business. The doctor is handed the results, in the
//! order in which the checks are registered.
use crate::text::{cat2, clone_opt, group_text, lemma_take_step, opt_view, same, views};
use vstd::prelude::*;

pub mod laws;

verus! {

broadcast use group_text;

/// What running a check found.
#[derive(Debug, PartialEq, Eq)]
pub struct CheckResult {
    pub ok: bool,
    pub message: String,
}

#[verifier::ext_equal]
pub struct CheckResultView {
    pub ok: bool,
    pub message: Seq<char>,
}

impl View for CheckResult {
    type V = CheckResultView;

    open spec fn view(&self) -> CheckResultView {
        CheckResultView { ok: self.ok, message: self.message@ }
    }
}

impl Clone for CheckResult {
    fn clone(&self) -> (r: Self)
        ensures
            r == *self,
    {
        CheckResult { ok: self.ok, message: self.message.clone() }
    }
}

impl CheckResult {
    /// A check that passed.
    pub fn ok(message: String) -> (r: Self)
        ensures
            r == (CheckResult { ok: true, message }),
    {
        CheckResult { ok: true, message }
    }

    /// A check that failed.
    pub fn failed(message: String) -> (r: Self)
        ensures
            r == (CheckResult { ok: false, message }),
    {
        CheckResult { ok: false, message }
    }
}

/// What running a fix came to.
#[derive(Debug, PartialEq, Eq)]
pub struct FixResult {
    pub ok: bool,
    pub message: String,
}

#[verifier::ext_equal]
pub struct FixResultView {
    pub ok: bool,
    pub message: Seq<char>,
}

impl View for FixResult {
    type V = FixResultView;

    open spec fn view(&self) -> FixResultView {
        FixResultView { ok: self.ok, message: self.message@ }
    }
}

impl Clone for FixResult {
    fn clone(&self) -> (r: Self)
        ensures
            r == *self,
    {
        FixResult { ok: self.ok, message: self.message.clone() }
    }
}

impl FixResult {
    /// A fix that was applied.
    pub fn ok(message: String) -> (r: Self)
        ensures
            r == (FixResult { ok: true, message }),
    {
        FixResult { ok: true, message }
    }

    /// A fix that failed.
    pub fn failed(message: String) -> (r: Self)
        ensures
            r == (FixResult { ok: false, message }),
    {
        FixResult { ok: false, message }
    }

    /// The outcome of fixing a check that has no fix.
    pub fn none() -> (r: Self)
        ensures
            r@ == (FixResultView { ok: false, message: "this check has no automatic fix"@ }),
    {
        FixResult { ok: false, message: "this check has no automatic fix".to_owned() }
    }
}

/// How serious it is when a check fails.
#[derive(Debug, Clone, Copy, PartialEq, Eq, Structural)]
pub enum Severity {
    /// Something works worse.
    Warning,
    /// Something that matters does not work.
    Critical,
}

impl Severity {
    /// The severity in lower case.
    pub fn as_str(self) -> (r: &'static str)
        ensures
            r@ == (match self {
                Severity::Warning => "warning"@,
                Severity::Critical => "critical"@,
            }),
    {
        match self {
            Severity::Warning => "warning",
            Severity::Critical => "critical",
        }
    }
}

/// The state of everything that is checked, as a traffic light.
#[derive(Debug, Clone, Copy, PartialEq, Eq, Structural)]
pub enum Health {
    /// Every check passed.
    Green,
    /// A check failed, but none that is critical.
    Amber,
    /// A critical check failed.
    Red,
    /// There are no checks.
    Unknown,
}

impl Health {
    /// The health in lower case.
    pub fn as_str(self) -> (r: &'static str)
        ensures
            r@ == (match self {
                Health::Green => "green"@,
                Health::Amber => "amber"@,
                Health::Red => "red"@,
                Health::Unknown => "unknown"@,
            }),
    {
        match self {
            Health::Green => "green",
            Health::Amber => "amber",
            Health::Red => "red",
            Health::Unknown => "unknown",
        }
    }
}

/// What is known of a check before it runs.
#[derive(Debug, Clone)]
pub struct CheckInfo {
    pub id: String,
    pub label: String,
    pub severity: Severity,
    /// Whether it has a fix.
    pub can_fix: bool,
    /// Whether its fix may be applied without being asked for.
    pub auto_fix: bool,
    /// The ids of the checks that have to pass before its fix is applied so.
    pub auto_fix_requires: Vec<String>,
    /// The action by which a person fixes it.
    pub fix_action: Option<String>,
}

#[verifier::ext_equal]
pub struct CheckInfoView {
    pub id: Seq<char>,
    pub label: Seq<char>,
    pub severity: Severity,
    pub can_fix: bool,
    pub auto_fix: bool,
    pub auto_fix_requires: Seq<Seq<char>>,
    pub fix_action: Option<Seq<char>>,
}

impl View for CheckInfo {
    type V = CheckInfoView;

    open spec fn view(&self) -> CheckInfoView {
        CheckInfoView {
            id: self.id@,
            label: self.label@,
            severity: self.severity,
            can_fix: self.can_fix,
            auto_fix: self.auto_fix,
            auto_fix_requires: views(self.auto_fix_requires@),
            fix_action: opt_view(self.fix_action),
        }
    }
}

impl CheckInfo {
    /// A check of warning severity that has no fix.
    pub fn new(id: String, label: String) -> (r: Self)
        ensures
            r@ == (CheckInfoView {
                id: id@,
                label: label@,
                severity: Severity::Warning,
                can_fix: false,
                auto_fix: false,
                auto_fix_requires: Seq::empty(),
                fix_action: None,
            }),
    {
        let r: CheckInfo = CheckInfo {
            id,
            label,
            severity: Severity::Warning,
            can_fix: false,
            auto_fix: false,
            auto_fix_requires: Vec::new(),
            fix_action: None,
        };
        assert(r@.auto_fix_requires =~= Seq::empty());
        r
    }
}

/// One check in a report.
#[derive(Debug, Clone)]
pub struct CheckReport {
    pub id: String,
    pub label: String,
    pub ok: bool,
    pub severity: Severity,
    pub message: String,
    pub can_fix: bool,
    pub auto_fix: bool,
    pub fix_action: Option<String>,
}

#[verifier::ext_equal]
pub struct CheckReportView {
    pub id: Seq<char>,
    pub label: Seq<char>,
    pub ok: bool,
    pub severity: Severity,
    pub message: Seq<char>,
    pub can_fix: bool,
    pub auto_fix: bool,
    pub fix_action: Option<Seq<char>>,
}

impl View for CheckReport {
    type V = CheckReportView;

    open spec fn view(&self) -> CheckReportView {
        CheckReportView {
            id: self.id@,
            label: self.label@,
            ok: self.ok,
            severity: self.severity,
            message: self.message@,
            can_fix: self.can_fix,
            auto_fix: self.auto_fix,
            fix_action: opt_view(self.fix_action),
        }
    }
}

/// What the checks found, and what it comes to.
#[derive(Debug, Clone)]
pub struct DoctorReport {
    pub health: Health,
    pub checks: Vec<CheckReport>,
    /// When the checks ran.
    pub checked_at: String,
}

/// Whether one of the checks failed.
pub open spec fn any_failed(checks: Seq<CheckReportView>) -> bool {
    exists|i: int| 0 <= i < checks.len() && !(#[trigger] checks[i]).ok
}

/// Whether one of the critical checks failed.
pub open spec fn any_critical(checks: Seq<CheckReportView>) -> bool {
    exists|i: int|
        0 <= i < checks.len() && !(#[trigger] checks[i]).ok && checks[i].severity
            == Severity::Critical
}

/// What the checks come to: the worst of them.
pub open spec fn overall(checks: Seq<CheckReportView>) -> Health {
    if checks.len() == 0 {
        Health::Unknown
    } else if any_critical(checks) {
        Health::Red
    } else if any_failed(checks) {
        Health::Amber
    } else {
        Health::Green
    }
}

/// What the checks come to: the worst of them.
pub fn aggregate(checks: &Vec<CheckReport>) -> (r: Health)
    ensures
        r == overall(views(checks@)),
{
    if checks.len() == 0 {
        return Health::Unknown;
    }
    let ghost all = views(checks@);
    let mut amber: bool = false;
    let mut i: usize = 0;
    while i < checks.len()
        invariant
            i <= checks@.len(),
            all == views(checks@),
            checks@.len() > 0,
            forall|j: int|
                0 <= j < i ==> (#[trigger] all[j]).ok || all[j].severity != Severity::Critical,
            amber == exists|j: int| 0 <= j < i && !(#[trigger] all[j]).ok,
        decreases checks@.len() - i,
    {
        assert(all[i as int] == checks@[i as int]@);
        if !checks[i].ok {
            match checks[i].severity {
                Severity::Critical => {
                    assert(any_critical(all));
                    return Health::Red;
                },
                Severity::Warning => {
                    amber = true;
                },
            }
        }
        i += 1;
    }
    if amber {
        Health::Amber
    } else {
        Health::Green
    }
}

/// One check in a report.
pub open spec fn report_line(c: CheckInfoView, r: CheckResultView) -> CheckReportView {
    CheckReportView {
        id: c.id,
        label: c.label,
        ok: r.ok,
        severity: c.severity,
        message: r.message,
        can_fix: c.can_fix,
        auto_fix: c.auto_fix,
        fix_action: c.fix_action,
    }
}

/// The checks of a report, in the order in which they are registered.
pub open spec fn report_lines(
    checks: Seq<CheckInfoView>,
    results: Seq<CheckResultView>,
) -> Seq<CheckReportView> {
    Seq::new(checks.len(), |i: int| report_line(checks[i], results[i]))
}

/// Whether the last check with an id passed.
pub open spec fn passes(
    checks: Seq<CheckInfoView>,
    results: Seq<CheckResultView>,
    id: Seq<char>,
) -> bool
    decreases checks.len(),
{
    if checks.len() == 0 {
        false
    } else if checks.last().id == id {
        results[checks.len() - 1].ok
    } else {
        passes(checks.drop_last(), results, id)
    }
}

/// Whether every check passed that a check's fix depends on.
pub open spec fn preconditions(
    checks: Seq<CheckInfoView>,
    results: Seq<CheckResultView>,
    c: CheckInfoView,
) -> bool {
    forall|k: int|
        0 <= k < c.auto_fix_requires.len() ==> passes(
            checks,
            results,
            #[trigger] c.auto_fix_requires[k],
        )
}

/// Whether a check's fix is due: it failed, its fix may be applied without being asked for, and
/// every check passed that the fix depends on.
pub open spec fn is_due(
    checks: Seq<CheckInfoView>,
    results: Seq<CheckResultView>,
    i: int,
) -> bool {
    !results[i].ok && checks[i].auto_fix && checks[i].can_fix && preconditions(
        checks,
        results,
        checks[i],
    )
}

/// The places of the first `n` checks whose fix is due.
pub open spec fn due_places(
    checks: Seq<CheckInfoView>,
    results: Seq<CheckResultView>,
    n: nat,
) -> Seq<nat>
    decreases n,
{
    if n == 0 {
        Seq::empty()
    } else {
        let head = due_places(checks, results, (n - 1) as nat);
        if is_due(checks, results, n - 1) {
            head.push((n - 1) as nat)
        } else {
            head
        }
    }
}

/// What applying a fix came to: what the fix said, and what its check found when it ran again.
#[derive(Debug)]
pub struct FixOutcome {
    fix: FixResult,
    again: Option<CheckResult>,
}

#[verifier::ext_equal]
pub struct FixOutcomeView {
    pub fix: FixResultView,
    pub again: Option<CheckResultView>,
}

impl View for FixOutcome {
    type V = FixOutcomeView;

    closed spec fn view(&self) -> FixOutcomeView {
        FixOutcomeView { fix: self.fix@, again: opt_view(self.again) }
    }
}

impl FixOutcomeView {
    /// Whether the check ran again exactly after a fix that says that it worked.
    pub open spec fn wf(self) -> bool {
        self.fix.ok == (self.again is Some)
    }

    /// What a person who asked for the fix is told.
    pub open spec fn told(self) -> FixResultView {
        match self.again {
            None => self.fix,
            Some(v) => if v.ok {
                FixResultView { ok: true, message: self.fix.message + " - verified"@ }
            } else {
                FixResultView { ok: false, message: "fix ran but check still fails: "@ + v.message }
            },
        }
    }
}

impl FixOutcome {
    #[verifier::type_invariant]
    spec fn inv(self) -> bool {
        self.fix.ok == (self.again is Some)
    }

    /// Whether the check is to run again after a fix.
    pub fn runs_again(fix: &FixResult) -> (again: bool)
        ensures
            again == fix.ok,
    {
        fix.ok
    }

    /// What a fix came to whose check ran again where it was to.
    pub fn of(fix: FixResult, again: Option<CheckResult>) -> (r: Self)
        requires
            fix.ok == (again is Some),
        ensures
            r@ == (FixOutcomeView { fix: fix@, again: opt_view(again) }),
            r@.wf(),
    {
        FixOutcome { fix, again }
    }

    /// What a person who asked for the fix is told. Success means that the check ran again and
    /// passed.
    pub fn told(&self) -> (r: FixResult)
        ensures
            r@ == self@.told(),
            r.ok ==> (self@.again matches Some(v) && v.ok),
    {
        proof {
            use_type_invariant(self);
        }
        match &self.again {
            None => self.fix.clone(),
            Some(v) => if v.ok {
                FixResult::ok(cat2(self.fix.message.as_str(), " - verified"))
            } else {
                FixResult::failed(cat2("fix ran but check still fails: ", v.message.as_str()))
            },
        }
    }

    fn seen(&self) -> (r: &Option<CheckResult>)
        ensures
            opt_view(*r) == self@.again,
    {
        &self.again
    }
}

/// The results after the fixes at some places: the check's own where it ran again.
pub open spec fn settled(
    results: Seq<CheckResultView>,
    places: Seq<nat>,
    outcomes: Seq<FixOutcomeView>,
) -> Seq<CheckResultView>
    decreases places.len(),
{
    if places.len() == 0 {
        results
    } else {
        let head = settled(results, places.drop_last(), outcomes);
        match outcomes[places.len() - 1].again {
            Some(v) => head.update(places.last() as int, v),
            None => head,
        }
    }
}

/// A register of checks.
#[derive(Debug)]
pub struct Doctor {
    checks: Vec<CheckInfo>,
}

impl View for Doctor {
    type V = Seq<CheckInfoView>;

    closed spec fn view(&self) -> Seq<CheckInfoView> {
        views(self.checks@)
    }
}

impl Doctor {
    /// The doctor with some checks.
    pub fn new(checks: Vec<CheckInfo>) -> (r: Self)
        ensures
            r@ == views(checks@),
    {
        Doctor { checks }
    }

    fn assemble(&self, results: &Vec<CheckResult>, checked_at: String) -> (r: DoctorReport)
        requires
            results@.len() == self@.len(),
        ensures
            views(r.checks@) == report_lines(self@, views(results@)),
            r.health == overall(views(r.checks@)),
            r.checked_at == checked_at,
    {
        let ghost lines = report_lines(self@, views(results@));
        let mut checks: Vec<CheckReport> = Vec::new();
        let mut i: usize = 0;
        while i < self.checks.len()
            invariant
                i <= self.checks@.len(),
                results@.len() == self.checks@.len(),
                lines == report_lines(views(self.checks@), views(results@)),
                views(checks@) == lines.take(i as int),
            decreases self.checks@.len() - i,
        {
            let c: &CheckInfo = &self.checks[i];
            let line: CheckReport = CheckReport {
                id: c.id.clone(),
                label: c.label.clone(),
                ok: results[i].ok,
                severity: c.severity,
                message: results[i].message.clone(),
                can_fix: c.can_fix,
                auto_fix: c.auto_fix,
                fix_action: clone_opt(&c.fix_action),
            };
            assert(line@ =~= lines[i as int]);
            checks.push(line);
            assert(views(checks@) =~= lines.take(i + 1));
            i += 1;
        }
        assert(lines.take(i as int) =~= lines);
        DoctorReport { health: aggregate(&checks), checks, checked_at }
    }

    /// What the checks found, with nothing repaired.
    pub fn report(&self, results: &Vec<CheckResult>, now_rfc3339: String) -> (r: DoctorReport)
        requires
            results@.len() == self@.len(),
        ensures
            views(r.checks@) == report_lines(self@, views(results@)),
            r.health == overall(views(r.checks@)),
            r.checked_at == now_rfc3339,
    {
        self.assemble(results, now_rfc3339)
    }

    fn is_passing(&self, results: &Vec<CheckResult>, id: &str) -> (r: bool)
        requires
            results@.len() == self@.len(),
        ensures
            r == passes(self@, views(results@), id@),
    {
        let ghost all = self@;
        let mut n: usize = self.checks.len();
        assert(all.take(n as int) =~= all);
        while n > 0
            invariant
                n <= self.checks@.len(),
                results@.len() == self.checks@.len(),
                all == views(self.checks@),
                passes(all, views(results@), id@) == passes(
                    all.take(n as int),
                    views(results@),
                    id@,
                ),
            decreases n,
        {
            proof {
                lemma_take_step(all, n - 1);
            }
            if same(self.checks[n - 1].id.as_str(), id) {
                return results[n - 1].ok;
            }
            n -= 1;
        }
        false
    }

    fn preconditions_met(&self, results: &Vec<CheckResult>, i: usize) -> (r: bool)
        requires
            results@.len() == self@.len(),
            i < self@.len(),
        ensures
            r == preconditions(self@, views(results@), self@[i as int]),
    {
        let ghost needed = self@[i as int].auto_fix_requires;
        let mut k: usize = 0;
        while k < self.checks[i].auto_fix_requires.len()
            invariant
                i < self.checks@.len(),
                results@.len() == self.checks@.len(),
                k <= self.checks@[i as int].auto_fix_requires@.len(),
                needed == views(self.checks@[i as int].auto_fix_requires@),
                self@ == views(self.checks@),
                forall|j: int|
                    0 <= j < k ==> passes(self@, views(results@), #[trigger] needed[j]),
            decreases self.checks@[i as int].auto_fix_requires@.len() - k,
        {
            assert(needed[k as int] == self.checks@[i as int].auto_fix_requires@[k as int]@);
            if !self.is_passing(results, self.checks[i].auto_fix_requires[k].as_str()) {
                assert(!passes(self@, views(results@), self@[i as int].auto_fix_requires[k as int]));
                return false;
            }
            k += 1;
        }
        true
    }

    /// The places of the checks whose fix is to be applied without being asked for. What passes is
    /// judged by the results before any fix.
    pub fn fixes_due(&self, results: &Vec<CheckResult>) -> (r: Vec<usize>)
        requires
            results@.len() == self@.len(),
        ensures
            r@.len() == due_places(self@, views(results@), self@.len()).len(),
            forall|k: int|
                0 <= k < r@.len() ==> #[trigger] r@[k] == due_places(
                    self@,
                    views(results@),
                    self@.len(),
                )[k],
    {
        let mut out: Vec<usize> = Vec::new();
        let mut i: usize = 0;
        while i < self.checks.len()
            invariant
                i <= self.checks@.len(),
                results@.len() == self.checks@.len(),
                self@ == views(self.checks@),
                out@.len() == due_places(self@, views(results@), i as nat).len(),
                forall|k: int|
                    0 <= k < out@.len() ==> #[trigger] out@[k] == due_places(
                        self@,
                        views(results@),
                        i as nat,
                    )[k],
            decreases self.checks@.len() - i,
        {
            assert(views(results@)[i as int] == results@[i as int]@);
            if !results[i].ok && self.checks[i].auto_fix && self.checks[i].can_fix
                && self.preconditions_met(results, i) {
                out.push(i);
            }
            i += 1;
        }
        out
    }

    /// What the checks found after the fixes that were due, one outcome for each. A fix that was
    /// applied counts only as far as its check passes when it runs again.
    pub fn tick(
        &self,
        results: Vec<CheckResult>,
        outcomes: &Vec<FixOutcome>,
        now_rfc3339: String,
    ) -> (r: DoctorReport)
        requires
            results@.len() == self@.len(),
            outcomes@.len() == due_places(self@, views(results@), self@.len()).len(),
        ensures
            views(r.checks@) == report_lines(
                self@,
                settled(
                    views(results@),
                    due_places(self@, views(results@), self@.len()),
                    views(outcomes@),
                ),
            ),
            r.health == overall(views(r.checks@)),
            r.checked_at == now_rfc3339,
    {
        let due: Vec<usize> = self.fixes_due(&results);
        let ghost before = views(results@);
        let ghost places = due_places(self@, before, self@.len());
        proof {
            lemma_due_within(self@, before, self@.len());
        }
        let mut after: Vec<CheckResult> = results;
        let mut k: usize = 0;
        assert(places.take(0) =~= Seq::<nat>::empty());
        while k < due.len()
            invariant
                k <= due@.len(),
                due@.len() == places.len(),
                outcomes@.len() == places.len(),
                after@.len() == self@.len(),
                forall|j: int| 0 <= j < due@.len() ==> #[trigger] due@[j] == places[j],
                forall|j: int| 0 <= j < places.len() ==> (#[trigger] places[j]) < self@.len(),
                views(after@) == settled(before, places.take(k as int), views(outcomes@)),
            decreases due@.len() - k,
        {
            proof {
                lemma_take_step(places, k as int);
            }
            let ghost head = views(after@);
            assert(views(outcomes@)[k as int] == outcomes@[k as int]@);
            match outcomes[k].seen() {
                None => {},
                Some(verify) => {
                    let v: CheckResult = verify.clone();
                    let at: usize = due[k];
                    assert(at == places[k as int]);
                    after.set(at, v);
                    assert(views(after@) =~= head.update(at as int, v@));
                },
            }
            k += 1;
        }
        assert(places.take(k as int) =~= places);
        self.assemble(&after, now_rfc3339)
    }

    /// The place of the first check with an id.
    pub fn find(&self, id: &str) -> (r: Option<usize>)
        ensures
            match r {
                Some(i) => {
                    &&& i < self@.len()
                    &&& self@[i as int].id == id@
                    &&& forall|j: int| 0 <= j < i ==> (#[trigger] self@[j]).id != id@
                },
                None => forall|j: int| 0 <= j < self@.len() ==> (#[trigger] self@[j]).id != id@,
            },
    {
        let mut i: usize = 0;
        while i < self.checks.len()
            invariant
                i <= self.checks@.len(),
                self@ == views(self.checks@),
                forall|j: int| 0 <= j < i ==> (#[trigger] self@[j]).id != id@,
            decreases self.checks@.len() - i,
        {
            assert(self@[i as int].id == self.checks@[i as int].id@);
            if same(self.checks[i].id.as_str(), id) {
                return Some(i);
            }
            i += 1;
        }
        None
    }

    /// What a person is told who asked for the fix of the check with an id, given what applying it
    /// came to; nothing where no check has that id.
    pub fn fix(&self, id: &str, outcome: &FixOutcome) -> (r: Option<FixResult>)
        ensures
            match r {
                Some(f) => (exists|i: int| 0 <= i < self@.len() && (#[trigger] self@[i]).id == id@)
                    && f@ == outcome@.told() && (f.ok ==> (outcome@.again matches Some(v)
                    && v.ok)),
                None => forall|i: int| 0 <= i < self@.len() ==> (#[trigger] self@[i]).id != id@,
            },
    {
        match self.find(id) {
            Some(_) => Some(outcome.told()),
            None => None,
        }
    }
}

// ---------------------------------------------------------------------------------------------
// Laws
// ---------------------------------------------------------------------------------------------

proof fn lemma_due_within(checks: Seq<CheckInfoView>, results: Seq<CheckResultView>, n: nat)
    ensures
        due_places(checks, results, n).len() <= n,
        forall|k: int|
            0 <= k < due_places(checks, results, n).len() ==> (#[trigger] due_places(
                checks,
                results,
                n,
            )[k]) < n,
        forall|k: int|
            0 <= k < due_places(checks, results, n).len() ==> is_due(
                checks,
                results,
                #[trigger] due_places(checks, results, n)[k] as int,
            ),
        forall|j: int, k: int|
            0 <= j < k < due_places(checks, results, n).len() ==> (#[trigger] due_places(
                checks,
                results,
                n,
            )[j]) < (#[trigger] due_places(checks, results, n)[k]),
    decreases n,
{
    if n > 0 {
        lemma_due_within(checks, results, (n - 1) as nat);
    }
}

proof fn lemma_due_holds(
    checks: Seq<CheckInfoView>,
    results: Seq<CheckResultView>,
    n: nat,
    i: nat,
)
    requires
        i < n,
        is_due(checks, results, i as int),
    ensures
        due_places(checks, results, n).contains(i),
    decreases n,
{
    let all = due_places(checks, results, n);
    if i == n - 1 {
        assert(all[all.len() - 1] == i);
    } else {
        let head = due_places(checks, results, (n - 1) as nat);
        lemma_due_holds(checks, results, (n - 1) as nat, i);
        let k = choose|k: int| 0 <= k < head.len() && head[k] == i;
        assert(all[k] == i);
    }
}

/// The fixes that are due are those of the checks that failed, whose fix may be applied without
/// being asked for, and whose prerequisites passed; each once, in the order of registration.
pub proof fn law_due_fixes(checks: Seq<CheckInfoView>, results: Seq<CheckResultView>)
    ensures
        forall|i: nat|
            due_places(checks, results, checks.len()).contains(i) <==> i < checks.len() && is_due(
                checks,
                results,
                i as int,
            ),
        forall|j: int, k: int|
            0 <= j < k < due_places(checks, results, checks.len()).len() ==> (
            #[trigger] due_places(checks, results, checks.len())[j]) < (#[trigger] due_places(
                checks,
                results,
                checks.len(),
            )[k]),
{
    lemma_due_within(checks, results, checks.len());
    assert forall|i: nat|
        due_places(checks, results, checks.len()).contains(i) <==> i < checks.len() && is_due(
            checks,
            results,
            i as int,
        ) by {
        if i < checks.len() && is_due(checks, results, i as int) {
            lemma_due_holds(checks, results, checks.len(), i);
        }
    }
}

/// A fix counts as a success only where its check ran again and passed.
pub proof fn law_success_is_verified(outcome: FixOutcomeView)
    requires
        outcome.wf(),
        outcome.told().ok,
    ensures
        outcome.fix.ok,
        outcome.again matches Some(v) && v.ok,
{
}

/// Fixes change no result but those of the checks that were fixed.
pub proof fn law_fixes_touch_only_their_checks(
    results: Seq<CheckResultView>,
    places: Seq<nat>,
    outcomes: Seq<FixOutcomeView>,
    i: nat,
)
    requires
        i < results.len(),
        !places.contains(i),
        forall|k: int| 0 <= k < places.len() ==> (#[trigger] places[k]) < results.len(),
    ensures
        settled(results, places, outcomes).len() == results.len(),
        settled(results, places, outcomes)[i as int] == results[i as int],
    decreases places.len(),
{
    if places.len() > 0 {
        assert(!places.drop_last().contains(i)) by {
            if places.drop_last().contains(i) {
                let k = choose|k: int|
                    0 <= k < places.drop_last().len() && places.drop_last()[k] == i;
                assert(places[k] == i);
            }
        }
        assert(places[places.len() - 1] == places.last());
        assert forall|k: int| 0 <= k < places.drop_last().len() implies (
        #[trigger] places.drop_last()[k]) < results.len() by {
            assert(places[k] == places.drop_last()[k]);
        }
        law_fixes_touch_only_their_checks(results, places.drop_last(), outcomes, i);
    }
}

/// A check that passed is never fixed unasked, and stays as it is.
pub proof fn law_passing_checks_are_left_alone(
    checks: Seq<CheckInfoView>,
    results: Seq<CheckResultView>,
    outcomes: Seq<FixOutcomeView>,
    i: nat,
)
    requires
        i < checks.len(),
        results.len() == checks.len(),
        results[i as int].ok,
    ensures
        settled(results, due_places(checks, results, checks.len()), outcomes)[i as int]
            == results[i as int],
{
    law_due_fixes(checks, results);
    lemma_due_within(checks, results, checks.len());
    assert(!due_places(checks, results, checks.len()).contains(i)) by {
        if due_places(checks, results, checks.len()).contains(i) {
            assert(is_due(checks, results, i as int));
        }
    }
    law_fixes_touch_only_their_checks(
        results,
        due_places(checks, results, checks.len()),
        outcomes,
        i,
    );
}

/// How bad a health is.
pub open spec fn rank(h: Health) -> int {
    match h {
        Health::Unknown => 0,
        Health::Green => 1,
        Health::Amber => 2,
        Health::Red => 3,
    }
}

/// The worst wins: with another check things are never better than that check, nor than without
/// it.
pub proof fn law_worst_wins(checks: Seq<CheckReportView>, c: CheckReportView)
    ensures
        rank(overall(checks.push(c))) == (if rank(overall(checks)) >= rank(overall(seq![c])) {
            rank(overall(checks))
        } else {
            rank(overall(seq![c]))
        }),
{
    let all = checks.push(c);
    assert(all[checks.len() as int] == c);
    assert(seq![c][0] == c);
    assert forall|i: int| 0 <= i < checks.len() implies all[i] == checks[i] by {}
    if any_failed(checks) {
        let i = choose|i: int| 0 <= i < checks.len() && !(#[trigger] checks[i]).ok;
        assert(!all[i].ok);
    }
    if any_critical(checks) {
        let i = choose|i: int|
            0 <= i < checks.len() && !(#[trigger] checks[i]).ok && checks[i].severity
                == Severity::Critical;
        assert(!all[i].ok && all[i].severity == Severity::Critical);
    }
    if any_failed(all) {
        let i = choose|i: int| 0 <= i < all.len() && !(#[trigger] all[i]).ok;
        if i < checks.len() {
            assert(!checks[i].ok);
        } else {
            assert(!seq![c][0].ok);
        }
    }
    if any_critical(all) {
        let i = choose|i: int|
            0 <= i < all.len() && !(#[trigger] all[i]).ok && all[i].severity == Severity::Critical;
        if i < checks.len() {
            assert(!checks[i].ok && checks[i].severity == Severity::Critical);
        } else {
            assert(!seq![c][0].ok && seq![c][0].severity == Severity::Critical);
        }
    }
}

/// The order of the checks does not matter to the health.
pub proof fn law_order_does_not_matter(a: Seq<CheckReportView>, b: Seq<CheckReportView>)
    requires
        a.to_multiset() == b.to_multiset(),
    ensures
        overall(a) == overall(b),
{
    a.to_multiset_ensures();
    b.to_multiset_ensures();
    assert(a.len() == b.len());
    assert forall|x: CheckReportView| a.contains(x) <==> b.contains(x) by {
        assert(a.contains(x) <==> a.to_multiset().count(x) > 0);
        assert(b.contains(x) <==> b.to_multiset().count(x) > 0);
    }
    lemma_same_members(a, b);
    lemma_same_members(b, a);
}

proof fn lemma_same_members(a: Seq<CheckReportView>, b: Seq<CheckReportView>)
    requires
        forall|x: CheckReportView| a.contains(x) ==> b.contains(x),
    ensures
        any_failed(a) ==> any_failed(b),
        any_critical(a) ==> any_critical(b),
{
    if any_failed(a) {
        let i = choose|i: int| 0 <= i < a.len() && !(#[trigger] a[i]).ok;
        assert(b.contains(a[i]));
        let j = choose|j: int| 0 <= j < b.len() && b[j] == a[i];
        assert(!b[j].ok);
    }
    if any_critical(a) {
        let i = choose|i: int|
            0 <= i < a.len() && !(#[trigger] a[i]).ok && a[i].severity == Severity::Critical;
        assert(b.contains(a[i]));
        let j = choose|j: int| 0 <= j < b.len() && b[j] == a[i];
        assert(!b[j].ok && b[j].severity == Severity::Critical);
    }
}

} // verus!
