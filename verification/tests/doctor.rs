use poseidon::doctor::{
    aggregate, CheckInfo, CheckReport, CheckResult, Doctor, DoctorReport, FixOutcome, FixResult,
    Health, Severity,
};
use std::cell::Cell;

/// A check whose `run` passes iff it is healed, and whose successful fix heals it unless
/// `heal_on_fix` is false, which stands for a fix that "ran" but didn't take.
struct Flex {
    info: CheckInfo,
    healed: Cell<bool>,
    fix_ok: bool,
    heal_on_fix: bool,
}

impl Flex {
    fn run(&self) -> CheckResult {
        if self.healed.get() {
            CheckResult::ok("fine".into())
        } else {
            CheckResult::failed("broken".into())
        }
    }

    fn apply(&self) -> FixOutcome {
        if !self.fix_ok {
            return FixOutcome::of(FixResult::failed("could not fix".into()), None);
        }
        if self.heal_on_fix {
            self.healed.set(true);
        }
        FixOutcome::of(FixResult::ok("fixed".into()), Some(self.run()))
    }
}

fn flex(id: &str, start_ok: bool, severity: Severity) -> Flex {
    let mut info = CheckInfo::new(id.into(), format!("check {id}"));
    info.severity = severity;
    info.can_fix = true;
    Flex { info, healed: Cell::new(start_ok), fix_ok: true, heal_on_fix: true }
}

/// A check that never changes and whose fix fails.
fn stub(id: &str, ok: bool, severity: Severity) -> Flex {
    Flex { fix_ok: false, ..flex(id, ok, severity) }
}

/// Runs checks for a doctor.
struct Ward {
    doctor: Doctor,
    checks: Vec<Flex>,
}

impl Ward {
    fn new(checks: Vec<Flex>) -> Self {
        let infos = checks.iter().map(|c| c.info.clone()).collect();
        Ward { doctor: Doctor::new(infos), checks }
    }

    fn results(&self) -> Vec<CheckResult> {
        self.checks.iter().map(|c| c.run()).collect()
    }

    fn report(&self) -> DoctorReport {
        self.doctor.report(&self.results(), "t".into())
    }

    fn tick(&self) -> DoctorReport {
        let results = self.results();
        let outcomes: Vec<FixOutcome> = self
            .doctor
            .fixes_due(&results)
            .iter()
            .map(|i| self.checks[*i].apply())
            .collect();
        self.doctor.tick(results, &outcomes, "t".into())
    }

    fn fix(&self, id: &str) -> Option<FixResult> {
        let at = self.doctor.find(id)?;
        self.doctor.fix(id, &self.checks[at].apply())
    }
}

#[test]
fn all_ok_is_green() {
    let d = Ward::new(vec![
        stub("a", true, Severity::Warning),
        stub("b", true, Severity::Critical),
    ]);
    assert_eq!(d.report().health, Health::Green);
}

#[test]
fn warning_failure_is_amber_critical_is_red() {
    let amber = Ward::new(vec![stub("a", false, Severity::Warning)]);
    assert_eq!(amber.report().health, Health::Amber);

    let red = Ward::new(vec![
        stub("a", false, Severity::Warning),
        stub("b", false, Severity::Critical),
    ]);
    assert_eq!(red.report().health, Health::Red);
}

#[test]
fn empty_is_unknown() {
    let d = Ward::new(vec![]);
    assert_eq!(d.report().health, Health::Unknown);
}

#[test]
fn tick_auto_fixes_and_verifies() {
    // A fix that runs but does not take leaves the check failing.
    let mut h = flex("h", false, Severity::Warning);
    h.info.auto_fix = true;
    h.heal_on_fix = false;
    let d = Ward::new(vec![h]);
    assert_eq!(d.tick().health, Health::Amber);
}

#[test]
fn report_is_json_serialisable() {
    let d = Ward::new(vec![stub("a", true, Severity::Warning)]);
    let report = d.report();
    assert_eq!(report.health.as_str(), "green");
    assert_eq!(report.checks[0].severity.as_str(), "warning");
}

#[test]
fn report_preserves_check_registration_order() {
    let d = Ward::new(vec![
        stub("alpha", true, Severity::Warning),
        stub("bravo", false, Severity::Critical),
        stub("charlie", true, Severity::Warning),
    ]);
    let ids: Vec<String> = d.report().checks.into_iter().map(|c| c.id).collect();
    assert_eq!(ids, vec!["alpha", "bravo", "charlie"]);
}

#[test]
fn passing_critical_does_not_turn_red() {
    // Worst-wins only escalates on a *failing* check.
    let d = Ward::new(vec![
        stub("crit", true, Severity::Critical),
        stub("warn", false, Severity::Warning),
    ]);
    assert_eq!(d.report().health, Health::Amber);
}

#[test]
fn worst_wins_is_order_independent() {
    let warn_first = Ward::new(vec![
        stub("warn", false, Severity::Warning),
        stub("crit", false, Severity::Critical),
    ]);
    let crit_first = Ward::new(vec![
        stub("crit", false, Severity::Critical),
        stub("warn", false, Severity::Warning),
    ]);
    assert_eq!(warn_first.report().health, Health::Red);
    assert_eq!(crit_first.report().health, Health::Red);
}

#[test]
fn manual_fix_verifies_on_success() {
    // The fix heals the check, the re-run confirms it -> "verified".
    let d = Ward::new(vec![flex("h", false, Severity::Warning)]);
    let result = d.fix("h").expect("check exists");
    assert!(result.ok);
    assert!(result.message.contains("verified"), "{}", result.message);
}

#[test]
fn manual_fix_reports_when_check_still_fails() {
    let mut f = flex("h", false, Severity::Warning);
    f.heal_on_fix = false;
    let d = Ward::new(vec![f]);
    let result = d.fix("h").expect("check exists");
    assert!(!result.ok);
    assert!(result.message.contains("still fails"), "{}", result.message);
}

#[test]
fn manual_fix_returns_failure_without_verifying() {
    // A failing fix is surfaced verbatim - no verify re-run is claimed.
    let mut f = flex("h", false, Severity::Warning);
    f.fix_ok = false;
    let d = Ward::new(vec![f]);
    let result = d.fix("h").expect("check exists");
    assert!(!result.ok);
    assert_eq!(result.message, "could not fix");
    assert!(!result.message.contains("verified"));
}

#[test]
fn manual_fix_unknown_id_is_none() {
    let d = Ward::new(vec![stub("a", true, Severity::Warning)]);
    assert!(d.fix("does-not-exist").is_none());
    let nothing = FixOutcome::of(FixResult::none(), None);
    assert!(d.doctor.fix("does-not-exist", &nothing).is_none());
}

#[test]
fn tick_applies_autofix_when_precondition_met() {
    // Dependency passes -> the auto-fix on `h` is allowed to run, heals it,
    // the self-verify re-run flips it green.
    let dep = flex("dep", true, Severity::Warning);
    let mut healing = flex("h", false, Severity::Warning);
    healing.info.auto_fix = true;
    healing.info.auto_fix_requires = vec!["dep".into()];
    let d = Ward::new(vec![dep, healing]);
    assert_eq!(d.tick().health, Health::Green);
}

#[test]
fn tick_skips_autofix_when_precondition_fails() {
    // Dependency is failing -> auto-fix must NOT run against the broken
    // substrate, so `h` stays failed.
    let dep = flex("dep", false, Severity::Warning);
    let mut healing = flex("h", false, Severity::Warning);
    healing.info.auto_fix = true;
    healing.info.auto_fix_requires = vec!["dep".into()];
    let d = Ward::new(vec![dep, healing]);
    let report = d.tick();
    assert_eq!(report.health, Health::Amber);
    let h = report.checks.iter().find(|c| c.id == "h").unwrap();
    assert!(!h.ok);
}

#[test]
fn tick_leaves_non_autofix_failures_untouched() {
    let d = Ward::new(vec![flex("h", false, Severity::Warning)]);
    let report = d.tick();
    assert_eq!(report.health, Health::Amber);
    assert!(!report.checks[0].ok);
}

#[test]
fn check_report_exposes_fix_affordances() {
    let mut f = flex("sign-in-check", false, Severity::Critical);
    f.info.auto_fix = false;
    f.info.fix_action = Some("sign-in".into());
    let d = Ward::new(vec![f]);
    let report = d.report();
    assert!(report.checks[0].can_fix);
    assert!(!report.checks[0].auto_fix);
    assert_eq!(report.checks[0].fix_action.as_deref(), Some("sign-in"));
    assert_eq!(report.health.as_str(), "red");
}

#[test]
fn fix_result_serialises_snake_case() {
    let r = FixResult::ok("done".into());
    assert!(r.ok);
    assert_eq!(r.message, "done");
}

#[test]
fn fixes_wait_for_checks_that_are_registered() {
    // A precondition that no check has never passes.
    let mut h = flex("h", false, Severity::Warning);
    h.info.auto_fix = true;
    h.info.auto_fix_requires = vec!["absent".into()];
    let d = Ward::new(vec![h]);
    assert!(d.doctor.fixes_due(&d.results()).is_empty());
}

#[test]
fn passing_checks_are_never_fixed() {
    let mut h = flex("h", true, Severity::Warning);
    h.info.auto_fix = true;
    let d = Ward::new(vec![h]);
    assert!(d.doctor.fixes_due(&d.results()).is_empty());
    assert_eq!(d.tick().health, Health::Green);
}

#[test]
fn health_depends_on_the_lines_alone() {
    let line = |ok: bool, severity: Severity| CheckReport {
        id: "x".into(),
        label: "x".into(),
        ok,
        severity,
        message: String::new(),
        can_fix: false,
        auto_fix: false,
        fix_action: None,
    };
    assert_eq!(aggregate(&vec![]), Health::Unknown);
    assert_eq!(
        aggregate(&vec![line(true, Severity::Critical), line(false, Severity::Warning)]),
        Health::Amber
    );
    assert_eq!(Severity::Critical.as_str(), "critical");
    assert_eq!(Health::Amber.as_str(), "amber");
    assert_eq!(Health::Unknown.as_str(), "unknown");
}

#[test]
fn a_fix_is_a_success_only_when_its_check_passes() {
    let fixed = FixResult::ok("fixed".into());
    assert!(FixOutcome::runs_again(&fixed));
    assert!(!FixOutcome::runs_again(&FixResult::failed("no".into())));
    let passes = FixOutcome::of(fixed.clone(), Some(CheckResult::ok("fine".into())));
    assert_eq!(passes.told(), FixResult::ok("fixed - verified".into()));
    let fails = FixOutcome::of(fixed, Some(CheckResult::failed("broken".into())));
    assert_eq!(fails.told(), FixResult::failed("fix ran but check still fails: broken".into()));
}
