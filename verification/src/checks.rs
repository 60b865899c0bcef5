//! The health checks: whether there is a newer release, whether every team is watched, and whether
//! each team's tracker can be reached.
use crate::config::{ProviderKind, TeamConfig};
use crate::doctor::{CheckInfo, CheckInfoView, CheckResult, CheckResultView, FixResult, Severity};
use crate::json::{text_member, Json};
use crate::number::{decimal, format_usize, parse_nat, parsed_nat};
use crate::order::{ascending, insert_ascending, lemma_ascending_unique};
use crate::text::{
    cat2, cat3, chars_of, clone_opt, digit, first_chars, group_text, has_prefix, is_blank, is_digit,
    lemma_take_step, list_contains, lower, opt_view, pieces, same, split, starts_with, string_of,
    strip_start, stripped_start, take_chars, to_lower, trim, trimmed, views,
};
use crate::time::Timestamp;
use vstd::prelude::*;

pub mod laws;

verus! {

broadcast use group_text;

// ---------------------------------------------------------------------------------------------
// Updates
// ---------------------------------------------------------------------------------------------

/// Where the releases are.
pub const RELEASES_REPO: &'static str = "andrewiankidd/POSEIDEN";

/// The decimal digits at the start of a text.
pub open spec fn leading_digits(s: Seq<char>) -> Seq<char>
    decreases s.len(),
{
    if s.len() > 0 && is_digit(s[0]) {
        seq![s[0]] + leading_digits(s.skip(1))
    } else {
        Seq::empty()
    }
}

fn take_digits(s: &str) -> (r: String)
    ensures
        r@ == leading_digits(s@),
{
    let cs: Vec<char> = chars_of(s);
    let mut i: usize = 0;
    assert(s@.take(0) + leading_digits(s@.skip(0)) =~= leading_digits(s@)) by {
        assert(s@.skip(0) =~= s@);
    }
    while i < cs.len() && digit(cs[i])
        invariant
            i <= cs@.len(),
            cs@ == s@,
            leading_digits(s@) == s@.take(i as int) + leading_digits(s@.skip(i as int)),
        decreases cs@.len() - i,
    {
        proof {
            let rest = s@.skip(i as int);
            assert(rest.skip(1) =~= s@.skip(i + 1));
            assert(s@.take(i + 1) + leading_digits(rest.skip(1)) =~= s@.take(i as int) + (
            seq![rest[0]] + leading_digits(rest.skip(1))));
        }
        i += 1;
    }
    assert(leading_digits(s@.skip(i as int)) =~= Seq::empty());
    assert(s@.take(i as int) =~= s@.subrange(0, i as int));
    assert(leading_digits(s@) =~= s@.subrange(0, i as int));
    string_of(&cs, 0, i)
}

/// One piece of a version, or zero where there is none.
pub open spec fn piece_or_zero(parts: Seq<Seq<char>>, k: int) -> Seq<char> {
    if k < parts.len() {
        parts[k]
    } else {
        "0"@
    }
}

/// The number that a text stands for.
pub open spec fn number_of(s: Seq<char>) -> Option<nat> {
    parsed_nat(s, u64::MAX as nat)
}

/// The version that a tag names: major, minor and patch. What follows the digits of the patch does
/// not count. `None` where the tag is no version.
pub open spec fn version_of(s: Seq<char>) -> Option<(nat, nat, nat)> {
    let parts = pieces(stripped_start(trimmed(s), "vV"@), '.');
    match (number_of(parts[0]), number_of(piece_or_zero(parts, 1))) {
        (Some(major), Some(minor)) => Some(
            (
                major,
                minor,
                match number_of(leading_digits(piece_or_zero(parts, 2))) {
                    Some(patch) => patch,
                    None => 0,
                },
            ),
        ),
        _ => None,
    }
}

/// Whether a version is later than another.
pub open spec fn is_later(a: (nat, nat, nat), b: (nat, nat, nat)) -> bool {
    a.0 > b.0 || (a.0 == b.0 && (a.1 > b.1 || (a.1 == b.1 && a.2 > b.2)))
}

/// A version as numbers without bound.
pub open spec fn as_nats(v: (u64, u64, u64)) -> (nat, nat, nat) {
    (v.0 as nat, v.1 as nat, v.2 as nat)
}

fn piece(parts: &Vec<String>, k: usize) -> (r: String)
    ensures
        r@ == piece_or_zero(views(parts@), k as int),
{
    if k < parts.len() {
        parts[k].clone()
    } else {
        "0".to_owned()
    }
}

proof fn lemma_some_piece(s: Seq<char>, sep: char)
    ensures
        pieces(s, sep).len() > 0,
    decreases s.len(),
{
    if s.len() > 0 {
        lemma_some_piece(s.drop_last(), sep);
    }
}

/// The version that a tag names; `None` where it is no version.
pub fn parse_version(s: &str) -> (r: Option<(u64, u64, u64)>)
    ensures
        match r {
            Some(v) => version_of(s@) == Some(as_nats(v)),
            None => version_of(s@) is None,
        },
{
    let tag: String = strip_start(trim(s).as_str(), "vV");
    let parts: Vec<String> = split(tag.as_str(), '.');
    proof {
        lemma_some_piece(tag@, '.');
    }
    let major: u64 = match parse_nat(piece(&parts, 0).as_str(), u64::MAX) {
        Some(n) => n,
        None => {
            return None;
        },
    };
    let minor: u64 = match parse_nat(piece(&parts, 1).as_str(), u64::MAX) {
        Some(n) => n,
        None => {
            return None;
        },
    };
    let patch: u64 = match parse_nat(take_digits(piece(&parts, 2).as_str()).as_str(), u64::MAX) {
        Some(n) => n,
        None => 0,
    };
    Some((major, minor, patch))
}

/// Whether a version is later than another.
pub fn newer(a: (u64, u64, u64), b: (u64, u64, u64)) -> (r: bool)
    ensures
        r == is_later(as_nats(a), as_nats(b)),
{
    a.0 > b.0 || (a.0 == b.0 && (a.1 > b.1 || (a.1 == b.1 && a.2 > b.2)))
}

/// Whether two texts name the same commit, one of them perhaps in short.
pub open spec fn names_same_commit(a: Seq<char>, b: Seq<char>) -> bool {
    let x = lower(trimmed(a));
    let y = lower(trimmed(b));
    x.len() > 0 && y.len() > 0 && (has_prefix(x, y) || has_prefix(y, x))
}

/// Whether two texts name the same commit, one of them perhaps in short.
pub fn same_commit(a: &str, b: &str) -> (r: bool)
    ensures
        r == names_same_commit(a@, b@),
{
    let x: String = to_lower(trim(a).as_str());
    let y: String = to_lower(trim(b).as_str());
    if x.as_str().is_empty() || y.as_str().is_empty() {
        return false;
    }
    starts_with(x.as_str(), y.as_str()) || starts_with(y.as_str(), x.as_str())
}

/// The first seven characters of a commit's name.
pub fn short(sha: &str) -> (r: String)
    ensures
        r@ == first_chars(sha@, 7),
{
    take_chars(sha, 7)
}

/// What looking up a release came to.
#[derive(Debug, Clone)]
pub enum Lookup {
    Found(Json),
    /// There is no such release.
    Missing,
    Failed(String),
}

/// The text of a member, or nothing.
pub open spec fn member_or_nothing(j: Json, key: Seq<char>) -> Seq<char> {
    match text_member(j@, key) {
        Some(t) => t,
        None => Seq::empty(),
    }
}

fn text_or_nothing(j: &Json, key: &str) -> (r: String)
    ensures
        r@ == member_or_nothing(*j, key@),
{
    match j.text_of(key) {
        Some(t) => t,
        None => {
            let r: String = String::new();
            assert(r@ =~= Seq::<char>::empty());
            r
        },
    }
}

/// What is said where a lookup failed.
pub open spec fn lookup_failed(e: Seq<char>) -> CheckResultView {
    CheckResultView { ok: false, message: "could not check for updates: "@ + e }
}

/// What a look at the latest stable release comes to for a version.
pub open spec fn stable_result(
    version: Seq<char>,
    running: (nat, nat, nat),
    lookup: Lookup,
) -> CheckResultView {
    match lookup {
        Lookup::Found(j) => {
            let latest = member_or_nothing(j, "tag_name"@);
            match version_of(latest) {
                Some(remote) => if is_later(remote, running) {
                    CheckResultView {
                        ok: false,
                        message: "update available: "@ + latest + " (you have "@ + version + ")"@,
                    }
                } else {
                    CheckResultView { ok: true, message: "up to date ("@ + version + ")"@ }
                },
                None => CheckResultView { ok: true, message: "up to date ("@ + version + ")"@ },
            }
        },
        Lookup::Missing => CheckResultView { ok: false, message: "no published release found yet"@ },
        Lookup::Failed(e) => lookup_failed(e@),
    }
}

/// What a look at a rolling release comes to for a commit.
pub open spec fn rolling_result(
    version: Seq<char>,
    commit: Seq<char>,
    lookup: Lookup,
) -> CheckResultView {
    match lookup {
        Lookup::Found(j) => {
            let remote = member_or_nothing(j, "target_commitish"@);
            if commit == "unknown"@ || remote.len() == 0 {
                CheckResultView { ok: true, message: "running "@ + version }
            } else if names_same_commit(remote, commit) {
                CheckResultView {
                    ok: true,
                    message: "up to date ("@ + version + " @ "@ + first_chars(commit, 7) + ")"@,
                }
            } else {
                CheckResultView {
                    ok: false,
                    message: "a newer "@ + version + " build is available"@,
                }
            }
        },
        Lookup::Missing => CheckResultView {
            ok: false,
            message: "no "@ + version + " release found"@,
        },
        Lookup::Failed(e) => lookup_failed(e@),
    }
}

/// What a look at the releases comes to: a version is held against the latest one, anything else
/// against the commit of the release that bears its name.
pub open spec fn update_result(
    version: Seq<char>,
    commit: Seq<char>,
    lookup: Lookup,
) -> CheckResultView {
    match version_of(version) {
        Some(running) => stable_result(version, running, lookup),
        None => rolling_result(version, commit, lookup),
    }
}

/// The check for a newer release.
#[derive(Debug, Clone, Copy)]
pub struct UpdateCheck {}

/// The outcome of an earlier look at the releases, and when that was.
#[derive(Debug, Clone)]
pub struct CachedResult {
    pub at: Timestamp,
    pub result: CheckResult,
}

impl Default for UpdateCheck {
    fn default() -> (r: Self)
        ensures
            r == (UpdateCheck {  }),
    {
        UpdateCheck {  }
    }
}

fn cat4(a: &str, b: &str, c: &str, d: &str) -> (r: String)
    ensures
        r@ == a@ + b@ + c@ + d@,
{
    let mut r: String = cat3(a, b, c);
    r.append(d);
    r
}

impl UpdateCheck {
    /// The check for a newer release.
    pub fn new() -> (r: Self)
        ensures
            r == (UpdateCheck {  }),
    {
        UpdateCheck {  }
    }

    /// What is known of the check before it runs: a newer release is no more than a warning.
    pub fn info(&self) -> (r: CheckInfo)
        ensures
            r@ == (CheckInfoView {
                id: "app-updates"@,
                label: "Application updates"@,
                severity: Severity::Warning,
                can_fix: false,
                auto_fix: false,
                auto_fix_requires: Seq::empty(),
                fix_action: None,
            }),
    {
        CheckInfo::new("app-updates".to_owned(), "Application updates".to_owned())
    }

    /// Where the release is looked up that a version is held against.
    pub fn release_url(version: &str) -> (r: String)
        ensures
            r@ == "https://api.github.com/repos/"@ + RELEASES_REPO@ + (if version_of(version@)
                is Some {
                "/releases/latest"@
            } else {
                "/releases/tags/"@ + version@
            }),
    {
        if parse_version(version).is_some() {
            cat3("https://api.github.com/repos/", RELEASES_REPO, "/releases/latest")
        } else {
            cat3(
                "https://api.github.com/repos/",
                RELEASES_REPO,
                cat2("/releases/tags/", version).as_str(),
            )
        }
    }

    /// What looking up the release came to, for the running version and commit.
    pub fn compute(version: &str, commit: &str, lookup: &Lookup) -> (r: CheckResult)
        ensures
            r@ == update_result(version@, commit@, *lookup),
    {
        let stable: Option<(u64, u64, u64)> = parse_version(version);
        match lookup {
            Lookup::Failed(e) => CheckResult::failed(
                cat2("could not check for updates: ", e.as_str()),
            ),
            Lookup::Missing => CheckResult::failed(
                if stable.is_some() {
                    "no published release found yet".to_owned()
                } else {
                    cat3("no ", version, " release found")
                },
            ),
            Lookup::Found(j) => match stable {
                Some(running) => {
                    let latest: String = text_or_nothing(j, "tag_name");
                    let later: bool = match parse_version(latest.as_str()) {
                        Some(remote) => newer(remote, running),
                        None => false,
                    };
                    if later {
                        let mut m: String = cat4(
                            "update available: ",
                            latest.as_str(),
                            " (you have ",
                            version,
                        );
                        m.append(")");
                        CheckResult::failed(m)
                    } else {
                        CheckResult::ok(cat3("up to date (", version, ")"))
                    }
                },
                None => {
                    let remote: String = text_or_nothing(j, "target_commitish");
                    if same(commit, "unknown") || remote.as_str().is_empty() {
                        CheckResult::ok(cat2("running ", version))
                    } else if same_commit(remote.as_str(), commit) {
                        let mut m: String = cat4(
                            "up to date (",
                            version,
                            " @ ",
                            short(commit).as_str(),
                        );
                        m.append(")");
                        CheckResult::ok(m)
                    } else {
                        CheckResult::failed(cat3("a newer ", version, " build is available"))
                    }
                },
            },
        }
    }

    /// What can be said without looking: a local build is not checked, and an outcome less than
    /// half an hour old still counts.
    pub fn without_looking(version: &str, cache: &Option<CachedResult>, now: Timestamp) -> (r:
        Option<CheckResult>)
        ensures
            opt_view(r) == (if version@ == "local"@ {
                Some(
                    CheckResultView {
                        ok: true,
                        message: "development build - update check skipped"@,
                    },
                )
            } else {
                match *cache {
                    Some(c) => if now.total() - c.at.total() < 30 * 60 * 1_000_000_000 {
                        Some(c.result@)
                    } else {
                        None
                    },
                    None => None,
                }
            }),
    {
        if same(version, "local") {
            return Some(
                CheckResult::ok("development build - update check skipped".to_owned()),
            );
        }
        match cache {
            Some(c) => {
                if crate::time::nanos_between(c.at, now) < 1_800_000_000_000i128 {
                    Some(c.result.clone())
                } else {
                    None
                }
            },
            None => None,
        }
    }
}

// ---------------------------------------------------------------------------------------------
// Teams
// ---------------------------------------------------------------------------------------------

/// The id of a team's access check.
pub open spec fn key_of(team: Seq<char>) -> Seq<char> {
    "ado-access:"@ + team
}

/// The id of a team's access check.
pub fn access_key(team_name: &str) -> (r: String)
    ensures
        r@ == key_of(team_name@),
{
    cat2("ado-access:", team_name)
}

/// The ids of the teams' access checks.
pub open spec fn wanted(teams: Seq<TeamConfig>) -> Seq<Seq<char>> {
    Seq::new(teams.len(), |i: int| key_of(teams[i].name@))
}

/// Whether an id is that of an access check.
pub open spec fn is_access_key(k: Seq<char>) -> bool {
    has_prefix(k, "ado-access:"@)
}

/// The ids of a list that are not of access checks.
pub open spec fn other_keys(registered: Seq<Seq<char>>) -> Seq<Seq<char>>
    decreases registered.len(),
{
    if registered.len() == 0 {
        Seq::empty()
    } else if is_access_key(registered.last()) {
        other_keys(registered.drop_last())
    } else {
        other_keys(registered.drop_last()).push(registered.last())
    }
}

/// How many of the teams have no registered check.
pub open spec fn missing_count(wanted: Seq<Seq<char>>, registered: Seq<Seq<char>>) -> nat
    decreases wanted.len(),
{
    if wanted.len() == 0 {
        0
    } else {
        missing_count(wanted.drop_last(), registered) + (if registered.contains(wanted.last()) {
            0nat
        } else {
            1
        })
    }
}

/// Whether an id is that of an access check of no team.
pub open spec fn is_orphan(k: Seq<char>, wanted: Seq<Seq<char>>) -> bool {
    is_access_key(k) && !wanted.contains(k)
}

/// How many different registered ids are access checks of no team.
pub open spec fn orphan_count(registered: Seq<Seq<char>>, wanted: Seq<Seq<char>>) -> nat
    decreases registered.len(),
{
    if registered.len() == 0 {
        0
    } else {
        orphan_count(registered.drop_last(), wanted) + (if is_orphan(registered.last(), wanted)
            && !registered.drop_last().contains(registered.last()) {
            1nat
        } else {
            0
        })
    }
}

/// Whether a list of ids registers what it should: what was registered beside access checks, as it
/// was, and then the teams' access checks in order, each once.
pub open spec fn is_reconciled(
    keys: Seq<Seq<char>>,
    registered: Seq<Seq<char>>,
    wanted: Seq<Seq<char>>,
) -> bool {
    let n = other_keys(registered).len() as int;
    &&& keys.len() >= n
    &&& keys.take(n) == other_keys(registered)
    &&& ascending(keys.skip(n))
    &&& keys.skip(n).to_set() == wanted.to_set()
}

/// What is found of the registered checks.
pub open spec fn registration_result(
    teams: nat,
    wanted: Seq<Seq<char>>,
    registered: Seq<Seq<char>>,
) -> CheckResultView {
    let missing = missing_count(wanted, registered);
    let orphans = orphan_count(registered, wanted);
    if missing == 0 && orphans == 0 {
        CheckResultView {
            ok: true,
            message: decimal(teams) + " team access check(s) registered"@,
        }
    } else {
        CheckResultView {
            ok: false,
            message: decimal(missing) + " team check(s) to register, "@ + decimal(orphans)
                + " orphaned to remove"@,
        }
    }
}

fn wanted_keys(teams: &Vec<TeamConfig>) -> (r: Vec<String>)
    ensures
        views(r@) == wanted(teams@),
{
    let mut out: Vec<String> = Vec::new();
    let mut i: usize = 0;
    while i < teams.len()
        invariant
            i <= teams@.len(),
            views(out@) == wanted(teams@).take(i as int),
        decreases teams@.len() - i,
    {
        out.push(access_key(teams[i].name.as_str()));
        assert(views(out@) =~= wanted(teams@).take(i + 1));
        i += 1;
    }
    assert(views(out@) =~= wanted(teams@));
    out
}

fn contained_before(list: &Vec<String>, n: usize, x: &str) -> (r: bool)
    requires
        n <= list@.len(),
    ensures
        r == views(list@).take(n as int).contains(x@),
{
    let ghost head = views(list@).take(n as int);
    let mut i: usize = 0;
    while i < n
        invariant
            i <= n <= list@.len(),
            head == views(list@).take(n as int),
            forall|j: int| 0 <= j < i ==> #[trigger] head[j] != x@,
        decreases n - i,
    {
        assert(head[i as int] == list@[i as int]@);
        if same(list[i].as_str(), x) {
            return true;
        }
        i += 1;
    }
    assert(!head.contains(x@));
    false
}

/// The check that every team has an access check registered, and no other team has.
#[derive(Debug, Clone, Copy)]
pub struct TeamCheckReconciler {}

impl TeamCheckReconciler {
    /// What is known of the check before it runs: it mends itself.
    pub fn info() -> (r: CheckInfo)
        ensures
            r@ == (CheckInfoView {
                id: "doctor:team-checks"@,
                label: "Team access checks registered"@,
                severity: Severity::Warning,
                can_fix: true,
                auto_fix: true,
                auto_fix_requires: Seq::empty(),
                fix_action: None,
            }),
    {
        let mut c: CheckInfo = CheckInfo::new(
            "doctor:team-checks".to_owned(),
            "Team access checks registered".to_owned(),
        );
        c.can_fix = true;
        c.auto_fix = true;
        c
    }

    /// What is found of the registered checks, for the teams.
    pub fn run(registered: &Vec<String>, teams: &Vec<TeamConfig>) -> (r: CheckResult)
        ensures
            r@ == registration_result(teams@.len(), wanted(teams@), views(registered@)),
    {
        let want: Vec<String> = wanted_keys(teams);
        let ghost all = views(want@);
        let mut missing: usize = 0;
        let mut i: usize = 0;
        while i < want.len()
            invariant
                i <= want@.len(),
                all == views(want@),
                missing <= i,
                missing == missing_count(all.take(i as int), views(registered@)),
            decreases want@.len() - i,
        {
            proof {
                lemma_take_step(all, i as int);
            }
            if !list_contains(registered, want[i].as_str()) {
                missing += 1;
            }
            i += 1;
        }
        assert(all.take(i as int) =~= all);
        let ghost keys = views(registered@);
        let mut orphans: usize = 0;
        let mut k: usize = 0;
        while k < registered.len()
            invariant
                k <= registered@.len(),
                keys == views(registered@),
                all == views(want@),
                orphans <= k,
                orphans == orphan_count(keys.take(k as int), all),
            decreases registered@.len() - k,
        {
            proof {
                lemma_take_step(keys, k as int);
            }
            if starts_with(registered[k].as_str(), "ado-access:") && !list_contains(
                &want,
                registered[k].as_str(),
            ) && !contained_before(registered, k, registered[k].as_str()) {
                orphans += 1;
            }
            k += 1;
        }
        assert(keys.take(k as int) =~= keys);
        if missing == 0 && orphans == 0 {
            CheckResult::ok(
                cat2(format_usize(teams.len()).as_str(), " team access check(s) registered"),
            )
        } else {
            CheckResult::failed(
                cat4(
                    format_usize(missing).as_str(),
                    " team check(s) to register, ",
                    format_usize(orphans).as_str(),
                    " orphaned to remove",
                ),
            )
        }
    }

    /// The ids to register for the teams, in place of the registered ones.
    pub fn reconciled_keys(registered: &Vec<String>, teams: &Vec<TeamConfig>) -> (r: Vec<String>)
        ensures
            is_reconciled(views(r@), views(registered@), wanted(teams@)),
    {
        let ghost keys = views(registered@);
        let mut out: Vec<String> = Vec::new();
        let mut i: usize = 0;
        while i < registered.len()
            invariant
                i <= registered@.len(),
                keys == views(registered@),
                views(out@) == other_keys(keys.take(i as int)),
            decreases registered@.len() - i,
        {
            proof {
                lemma_take_step(keys, i as int);
            }
            if !starts_with(registered[i].as_str(), "ado-access:") {
                out.push(registered[i].clone());
            }
            i += 1;
        }
        assert(keys.take(i as int) =~= keys);
        let want: Vec<String> = wanted_keys(teams);
        let ghost all = views(want@);
        let mut sorted: Vec<String> = Vec::new();
        let mut k: usize = 0;
        assert(views(sorted@).to_set() =~= all.take(0).to_set());
        while k < want.len()
            invariant
                k <= want@.len(),
                all == views(want@),
                ascending(views(sorted@)),
                views(sorted@).to_set() == all.take(k as int).to_set(),
            decreases want@.len() - k,
        {
            let ghost before = views(sorted@).to_set();
            insert_ascending(&mut sorted, want[k].clone());
            assert(all.take(k + 1).to_set() =~= all.take(k as int).to_set().insert(
                all[k as int],
            )) by {
                lemma_take_set(all, k as int);
            }
            k += 1;
        }
        assert(all.take(k as int) =~= all);
        let ghost head = views(out@);
        let ghost tail = views(sorted@);
        crate::text::extend_all(&mut out, &sorted);
        assert(views(out@) =~= head + tail);
        assert(views(out@).take(head.len() as int) =~= head);
        assert(views(out@).skip(head.len() as int) =~= tail);
        out
    }

    /// What registering the ids came to.
    pub fn fixed(stored: Result<(), String>) -> (r: FixResult)
        ensures
            r@ == (crate::doctor::FixResultView {
                ok: stored is Ok,
                message: match stored {
                    Ok(_) => "registered access checks for all teams"@,
                    Err(e) => "could not persist registration: "@ + e@,
                },
            }),
    {
        match stored {
            Ok(_) => FixResult::ok("registered access checks for all teams".to_owned()),
            Err(e) => FixResult::failed(cat2("could not persist registration: ", e.as_str())),
        }
    }
}

proof fn lemma_take_set(all: Seq<Seq<char>>, k: int)
    requires
        0 <= k < all.len(),
    ensures
        all.take(k + 1).to_set() == all.take(k).to_set().insert(all[k]),
{
    let a = all.take(k + 1);
    let b = all.take(k);
    assert forall|x: Seq<char>| a.to_set().contains(x) <==> b.to_set().insert(all[k]).contains(
        x,
    ) by {
        if a.contains(x) {
            let i = choose|i: int| 0 <= i < a.len() && a[i] == x;
            if i < k {
                assert(b[i] == x);
            }
        }
        if b.contains(x) {
            let i = choose|i: int| 0 <= i < b.len() && b[i] == x;
            assert(a[i] == x);
        }
        assert(a[k] == all[k]);
    }
    assert(a.to_set() =~= b.to_set().insert(all[k]));
}

proof fn lemma_key_is_access(team: Seq<char>)
    ensures
        is_access_key(key_of(team)),
{
    assert(key_of(team).take("ado-access:"@.len() as int) =~= "ado-access:"@);
}

/// There is only one list of ids that registers what it should.
pub proof fn law_reconciliation_is_determined(
    a: Seq<Seq<char>>,
    b: Seq<Seq<char>>,
    registered: Seq<Seq<char>>,
    wanted: Seq<Seq<char>>,
)
    requires
        is_reconciled(a, registered, wanted),
        is_reconciled(b, registered, wanted),
    ensures
        a == b,
{
    let n = other_keys(registered).len() as int;
    lemma_ascending_unique(a.skip(n), b.skip(n));
    assert(a =~= a.take(n) + a.skip(n));
    assert(b =~= b.take(n) + b.skip(n));
}

proof fn lemma_others_are_others(registered: Seq<Seq<char>>)
    ensures
        forall|i: int|
            0 <= i < other_keys(registered).len() ==> !is_access_key(
                #[trigger] other_keys(registered)[i],
            ),
    decreases registered.len(),
{
    if registered.len() > 0 {
        let head = other_keys(registered.drop_last());
        lemma_others_are_others(registered.drop_last());
        assert forall|i: int| 0 <= i < other_keys(registered).len() implies !is_access_key(
            #[trigger] other_keys(registered)[i],
        ) by {
            if i < head.len() {
                assert(other_keys(registered)[i] == head[i]);
            }
        }
    }
}

proof fn lemma_none_missing(wanted: Seq<Seq<char>>, registered: Seq<Seq<char>>)
    requires
        forall|i: int| 0 <= i < wanted.len() ==> registered.contains(#[trigger] wanted[i]),
    ensures
        missing_count(wanted, registered) == 0,
    decreases wanted.len(),
{
    if wanted.len() > 0 {
        assert forall|i: int| 0 <= i < wanted.drop_last().len() implies registered.contains(
            #[trigger] wanted.drop_last()[i],
        ) by {
            assert(wanted.drop_last()[i] == wanted[i]);
        }
        assert(wanted[wanted.len() - 1] == wanted.last());
        lemma_none_missing(wanted.drop_last(), registered);
    }
}

proof fn lemma_none_orphaned(registered: Seq<Seq<char>>, wanted: Seq<Seq<char>>)
    requires
        forall|i: int| 0 <= i < registered.len() ==> !is_orphan(#[trigger] registered[i], wanted),
    ensures
        orphan_count(registered, wanted) == 0,
    decreases registered.len(),
{
    if registered.len() > 0 {
        assert forall|i: int| 0 <= i < registered.drop_last().len() implies !is_orphan(
            #[trigger] registered.drop_last()[i],
            wanted,
        ) by {
            assert(registered.drop_last()[i] == registered[i]);
        }
        assert(registered[registered.len() - 1] == registered.last());
        lemma_none_orphaned(registered.drop_last(), wanted);
    }
}

/// Once the ids are registered as they should be, the check passes.
pub proof fn law_registration_mends(
    keys: Seq<Seq<char>>,
    registered: Seq<Seq<char>>,
    teams: Seq<TeamConfig>,
)
    requires
        is_reconciled(keys, registered, wanted(teams)),
    ensures
        missing_count(wanted(teams), keys) == 0,
        orphan_count(keys, wanted(teams)) == 0,
        registration_result(teams.len(), wanted(teams), keys).ok,
{
    let want = wanted(teams);
    let n = other_keys(registered).len() as int;
    let tail = keys.skip(n);
    lemma_others_are_others(registered);
    assert forall|i: int| 0 <= i < want.len() implies keys.contains(#[trigger] want[i]) by {
        assert(want.to_set().contains(want[i]));
        assert(tail.to_set().contains(want[i]));
        assert(tail.contains(want[i]));
        let k = choose|k: int| 0 <= k < tail.len() && tail[k] == want[i];
        assert(keys[n + k] == want[i]);
    }
    assert forall|i: int| 0 <= i < keys.len() implies !is_orphan(#[trigger] keys[i], want) by {
        if i < n {
            assert(keys.take(n)[i] == keys[i]);
            assert(other_keys(registered)[i] == keys[i]);
        } else {
            assert(tail[i - n] == keys[i]);
            assert(tail.to_set().contains(keys[i]));
            assert(want.to_set().contains(keys[i]));
        }
    }
    lemma_none_missing(want, keys);
    lemma_none_orphaned(keys, want);
}

proof fn lemma_others_of_concat(a: Seq<Seq<char>>, b: Seq<Seq<char>>)
    requires
        forall|i: int| 0 <= i < a.len() ==> !is_access_key(#[trigger] a[i]),
        forall|i: int| 0 <= i < b.len() ==> is_access_key(#[trigger] b[i]),
    ensures
        other_keys(a + b) == a,
    decreases a.len() + b.len(),
{
    let all = a + b;
    if b.len() > 0 {
        assert(all.drop_last() =~= a + b.drop_last());
        assert(b[b.len() - 1] == all.last());
        lemma_others_of_concat(a, b.drop_last());
    } else if a.len() > 0 {
        assert(all =~= a);
        assert(a[a.len() - 1] == a.last());
        assert(a.drop_last() + b =~= a.drop_last());
        lemma_others_of_concat(a.drop_last(), b);
        assert(a =~= a.drop_last().push(a.last()));
    } else {
        assert(all =~= a);
    }
}

/// Registering the ids again changes nothing.
pub proof fn law_registration_settles(
    keys: Seq<Seq<char>>,
    registered: Seq<Seq<char>>,
    teams: Seq<TeamConfig>,
)
    requires
        is_reconciled(keys, registered, wanted(teams)),
    ensures
        is_reconciled(keys, keys, wanted(teams)),
{
    let want = wanted(teams);
    let n = other_keys(registered).len() as int;
    let head = keys.take(n);
    let tail = keys.skip(n);
    lemma_others_are_others(registered);
    assert forall|i: int| 0 <= i < tail.len() implies is_access_key(#[trigger] tail[i]) by {
        assert(tail.to_set().contains(tail[i]));
        assert(want.contains(tail[i]));
        let k = choose|k: int| 0 <= k < want.len() && want[k] == tail[i];
        lemma_key_is_access(teams[k].name@);
    }
    assert(keys =~= head + tail);
    lemma_others_of_concat(head, tail);
}

// ---------------------------------------------------------------------------------------------
// Access
// ---------------------------------------------------------------------------------------------

/// The check that one team's tracker can be reached.
#[derive(Debug, Clone)]
pub struct AzureDevOpsAccessCheck {
    pub team_name: String,
    pub tenant: Option<String>,
    pub pat_env: String,
    /// The file with the session of the team's owner.
    pub token_path: String,
    /// Whether the tracker is a demonstration.
    pub stub: bool,
    /// Whether the tracker can be read without a credential.
    pub anon_ok: bool,
    pub provider_label: &'static str,
}

/// The name of a kind of tracker.
pub open spec fn provider_name(p: ProviderKind) -> Seq<char> {
    match p {
        ProviderKind::Stub => "Demo"@,
        ProviderKind::GitHub => "GitHub"@,
        ProviderKind::GitLab => "GitLab"@,
        ProviderKind::AzureDevOps => "Azure DevOps"@,
    }
}

impl AzureDevOpsAccessCheck {
    /// The access check of a team.
    pub fn from_team(team: &TeamConfig, token_path: String) -> (r: Self)
        ensures
            r.team_name == team.name,
            r.tenant == team.tenant,
            r.pat_env == team.auth.pat_env,
            r.token_path == token_path,
            r.stub == (team.provider == ProviderKind::Stub),
            r.anon_ok == (team.provider == ProviderKind::GitHub || team.provider
                == ProviderKind::GitLab),
            r.provider_label@ == provider_name(team.provider),
    {
        let label: &'static str = match team.provider {
            ProviderKind::Stub => "Demo",
            ProviderKind::GitHub => "GitHub",
            ProviderKind::GitLab => "GitLab",
            ProviderKind::AzureDevOps => "Azure DevOps",
        };
        AzureDevOpsAccessCheck {
            team_name: team.name.clone(),
            tenant: clone_opt(&team.tenant),
            pat_env: team.auth.pat_env.clone(),
            token_path,
            stub: match team.provider {
                ProviderKind::Stub => true,
                _ => false,
            },
            anon_ok: match team.provider {
                ProviderKind::GitHub => true,
                ProviderKind::GitLab => true,
                _ => false,
            },
            provider_label: label,
        }
    }

    /// What is known of the check before it runs: a person fixes it by signing in.
    pub fn info(&self) -> (r: CheckInfo)
        ensures
            r@ == (CheckInfoView {
                id: key_of(self.team_name@),
                label: self.provider_label@ + " access - "@ + self.team_name@,
                severity: Severity::Critical,
                can_fix: true,
                auto_fix: false,
                auto_fix_requires: Seq::empty(),
                fix_action: Some("sign-in"@),
            }),
    {
        let mut c: CheckInfo = CheckInfo::new(
            access_key(self.team_name.as_str()),
            cat3(self.provider_label, " access - ", self.team_name.as_str()),
        );
        c.severity = Severity::Critical;
        c.can_fix = true;
        c.fix_action = Some("sign-in".to_owned());
        c
    }

    /// What can be said without a session, given what the team's variable for a token holds.
    pub fn without_session(&self, token: &Option<String>) -> (r: Option<CheckResult>)
        ensures
            opt_view(r) == (if self.stub {
                Some(
                    CheckResultView {
                        ok: true,
                        message: "Demo (stub) provider - no credential needed"@,
                    },
                )
            } else if crate::telemetry::given(*token) {
                Some(
                    CheckResultView {
                        ok: true,
                        message: "Personal Access Token configured ($"@ + self.pat_env@ + ")"@,
                    },
                )
            } else if self.anon_ok {
                Some(
                    CheckResultView {
                        ok: true,
                        message: "Public repo - anonymous read, no sign-in needed"@,
                    },
                )
            } else {
                None
            }),
    {
        if self.stub {
            return Some(
                CheckResult::ok("Demo (stub) provider - no credential needed".to_owned()),
            );
        }
        let given: bool = match token {
            Some(t) => !is_blank(t.as_str()),
            None => false,
        };
        if given {
            return Some(
                CheckResult::ok(
                    cat3("Personal Access Token configured ($", self.pat_env.as_str(), ")"),
                ),
            );
        }
        if self.anon_ok {
            return Some(
                CheckResult::ok("Public repo - anonymous read, no sign-in needed".to_owned()),
            );
        }
        None
    }

    /// What is found once a token of the session was asked for.
    pub fn with_session(acquired: Result<(), String>) -> (r: CheckResult)
        ensures
            r@ == (CheckResultView {
                ok: acquired is Ok,
                message: match acquired {
                    Ok(_) => "Signed in with Azure (device code)"@,
                    Err(e) => "no valid credential - "@ + e@,
                },
            }),
    {
        match acquired {
            Ok(_) => CheckResult::ok("Signed in with Azure (device code)".to_owned()),
            Err(e) => CheckResult::failed(cat2("no valid credential - ", e.as_str())),
        }
    }
}

// ---------------------------------------------------------------------------------------------
// Laws on updates
// ---------------------------------------------------------------------------------------------

/// A later version of the latest release is reported, and only that: a version is never told of an
/// earlier one, nor of itself.
pub proof fn law_only_later_versions_are_offered(
    version: Seq<char>,
    commit: Seq<char>,
    release: Json,
)
    requires
        version_of(version) is Some,
    ensures
        update_result(version, commit, Lookup::Found(release)).ok <==> !(version_of(
            member_or_nothing(release, "tag_name"@),
        ) is Some && is_later(
            version_of(member_or_nothing(release, "tag_name"@))->0,
            version_of(version)->0,
        )),
        !is_later(version_of(version)->0, version_of(version)->0),
{
}

/// The names of two commits are the same either way round.
pub proof fn law_same_commit_is_symmetric(a: Seq<char>, b: Seq<char>)
    ensures
        names_same_commit(a, b) == names_same_commit(b, a),
{
}

} // verus!
