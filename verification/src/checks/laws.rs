//! What the health checks promise.
use super::{
    is_access_key, is_later, is_orphan, is_reconciled, key_of, leading_digits, lookup_failed,
    member_or_nothing, missing_count, names_same_commit, number_of, orphan_count, other_keys,
    piece_or_zero, registration_result, update_result, version_of, wanted, Lookup,
};
use crate::config::TeamConfig;
use crate::json::Json;
use crate::number::laws::law_numbers_are_read;
use crate::number::{all_digits, decimal, lemma_decimal_reads_back};
use crate::order::ascending;
use crate::text::{
    first_chars, has_prefix, is_digit, is_space, lemma_one_more_piece, lemma_one_piece, lower,
    pieces, stripped_start, trimmed,
};
use vstd::prelude::*;

verus! {

// ---------------------------------------------------------------------------------------------
// Updates
// ---------------------------------------------------------------------------------------------

proof fn lemma_leading_digits(digits: Seq<char>, rest: Seq<char>)
    requires
        forall|i: int| 0 <= i < digits.len() ==> is_digit(#[trigger] digits[i]),
        rest.len() > 0 ==> !is_digit(rest[0]),
    ensures
        leading_digits(digits + rest) == digits,
    decreases digits.len(),
{
    let all = digits + rest;
    if digits.len() > 0 {
        assert(is_digit(digits[0]));
        assert(all[0] == digits[0]);
        lemma_leading_digits(digits.skip(1), rest);
        assert(all.skip(1) =~= digits.skip(1) + rest);
        assert(seq![all[0]] + digits.skip(1) =~= digits);
    } else {
        assert(all =~= rest);
    }
}

proof fn lemma_tag(mark: Seq<char>, digits: Seq<char>, rest: Seq<char>)
    requires
        mark == ""@ || mark == "v"@ || mark == "V"@,
        all_digits(digits),
        rest.len() > 0 ==> !is_space(rest.last()),
    ensures
        stripped_start(trimmed(mark + digits + rest), "vV"@) == digits + rest,
{
    reveal_strlit("");
    reveal_strlit("v");
    reveal_strlit("V");
    reveal_strlit("vV");
    let s = mark + digits + rest;
    let bare = digits + rest;
    assert(is_digit(digits[0]));
    assert(bare[0] == digits[0]);
    assert(is_digit(digits[digits.len() - 1]));
    assert(s.len() > 0);
    assert(!is_space(s[0])) by {
        if mark.len() > 0 {
            assert(s[0] == mark[0]);
        } else {
            assert(s[0] == digits[0]);
        }
    }
    assert(!is_space(s.last())) by {
        if rest.len() > 0 {
            assert(s.last() == rest.last());
        } else {
            assert(s.last() == digits.last());
        }
    }
    assert(trimmed(s) == s);
    assert(!"vV"@.contains(bare[0]));
    if mark.len() > 0 {
        assert(s[0] == mark[0]);
        assert("vV"@[0] == 'v' && "vV"@[1] == 'V');
        assert("vV"@.contains(s[0]));
        assert(s.skip(1) =~= bare);
    } else {
        assert(s =~= bare);
    }
    assert(stripped_start(bare, "vV"@) == bare);
}

proof fn lemma_no_dot(n: nat)
    ensures
        !decimal(n).contains('.'),
        number_of(decimal(n)) == (if n <= u64::MAX {
            Some(n)
        } else {
            None
        }),
{
    lemma_decimal_reads_back(n);
    law_numbers_are_read(n, u64::MAX as nat);
    let d = decimal(n);
    if d.contains('.') {
        let i = choose|i: int| 0 <= i < d.len() && d[i] == '.';
        assert(is_digit(d[i]));
    }
}

/// A tag of three numbers with dots between them, perhaps after a `v`, is that version, whatever
/// follows the last number.
pub proof fn law_versions_are_read(
    mark: Seq<char>,
    major: nat,
    minor: nat,
    patch: nat,
    rest: Seq<char>,
)
    requires
        mark == ""@ || mark == "v"@ || mark == "V"@,
        major <= u64::MAX,
        minor <= u64::MAX,
        patch <= u64::MAX,
        rest.len() > 0 ==> !is_digit(rest[0]) && !is_space(rest.last()),
        !rest.contains('.'),
    ensures
        version_of(mark + decimal(major) + (seq!['.'] + decimal(minor) + seq!['.'] + decimal(patch)
            + rest)) == Some((major, minor, patch)),
{
    lemma_no_dot(major);
    lemma_no_dot(minor);
    lemma_no_dot(patch);
    lemma_decimal_reads_back(major);
    lemma_decimal_reads_back(minor);
    lemma_decimal_reads_back(patch);
    let a = decimal(major);
    let b = decimal(minor);
    let c = decimal(patch);
    let tail = seq!['.'] + b + seq!['.'] + c + rest;
    assert(!is_space(tail.last())) by {
        assert(is_digit(c[c.len() - 1]));
        if rest.len() > 0 {
            assert(tail.last() == rest.last());
        } else {
            assert(tail.last() == c.last());
        }
    }
    lemma_tag(mark, a, tail);
    let third = c + rest;
    assert(!third.contains('.')) by {
        if third.contains('.') {
            let i = choose|i: int| 0 <= i < third.len() && third[i] == '.';
            if i < c.len() {
                assert(c[i] == '.');
            } else {
                assert(rest[i - c.len()] == '.');
            }
        }
    }
    lemma_one_piece(a, '.');
    lemma_one_more_piece(a, b, '.');
    lemma_one_more_piece(a.push('.') + b, third, '.');
    assert(a + tail =~= (a.push('.') + b).push('.') + third);
    let parts = pieces(a + tail, '.');
    assert(parts =~= seq![a, b, third]);
    lemma_leading_digits(c, rest);
}

/// A tag of one number or two is the version whose other numbers are zero.
pub proof fn law_short_versions_are_read(mark: Seq<char>, major: nat, minor: nat)
    requires
        mark == ""@ || mark == "v"@ || mark == "V"@,
        major <= u64::MAX,
        minor <= u64::MAX,
    ensures
        version_of(mark + decimal(major) + Seq::<char>::empty()) == Some((major, 0nat, 0nat)),
        version_of(mark + decimal(major) + (seq!['.'] + decimal(minor))) == Some(
            (major, minor, 0nat),
        ),
{
    lemma_no_dot(major);
    lemma_no_dot(minor);
    lemma_decimal_reads_back(major);
    lemma_decimal_reads_back(minor);
    let none = Seq::<char>::empty();
    let a = decimal(major);
    let b = decimal(minor);
    let tail = seq!['.'] + b;
    reveal_strlit("0");
    assert("0"@ =~= decimal(0));
    lemma_no_dot(0);
    lemma_decimal_reads_back(0);
    lemma_leading_digits(decimal(0), none);
    assert(decimal(0) + none =~= decimal(0));
    lemma_tag(mark, a, none);
    assert(a + none =~= a);
    lemma_one_piece(a, '.');
    assert(is_digit(b[b.len() - 1]));
    assert(tail.last() == b.last());
    lemma_tag(mark, a, tail);
    lemma_one_more_piece(a, b, '.');
    assert(a + tail =~= a.push('.') + b);
    assert(pieces(a + tail, '.') =~= seq![a, b]);
    assert(piece_or_zero(seq![a, b], 2) == "0"@);
}

/// A text that does not start with a digit, a sign or a `v` is no version.
pub proof fn law_names_are_no_versions(s: Seq<char>)
    requires
        s.len() > 0,
        !is_space(s[0]),
        !is_space(s.last()),
        !is_digit(s[0]),
        s[0] != 'v' && s[0] != 'V' && s[0] != '+',
    ensures
        version_of(s) is None,
{
    reveal_strlit("vV");
    assert(trimmed(s) == s);
    assert(!"vV"@.contains(s[0]));
    let parts = pieces(s, '.');
    crate::text::laws::law_pieces_make_the_text(s, '.');
    if number_of(parts[0]) is Some {
        crate::number::laws::law_what_is_a_number(parts[0], u64::MAX as nat);
        lemma_first_of_joined(parts, seq!['.']);
        assert(parts[0][0] == s[0]);
    }
}

proof fn lemma_first_of_joined(parts: Seq<Seq<char>>, sep: Seq<char>)
    requires
        parts.len() > 0,
        parts[0].len() > 0,
    ensures
        crate::text::joined(parts, sep).len() > 0,
        crate::text::joined(parts, sep)[0] == parts[0][0],
    decreases parts.len(),
{
    if parts.len() > 1 {
        assert(parts.drop_last()[0] == parts[0]);
        lemma_first_of_joined(parts.drop_last(), sep);
    }
}

/// Versions are ordered by their major number, then by their minor one, then by their patch.
pub proof fn law_later_versions(a: (nat, nat, nat), b: (nat, nat, nat))
    ensures
        a.0 > b.0 ==> is_later(a, b),
        a.0 == b.0 && a.1 > b.1 ==> is_later(a, b),
        a.0 == b.0 && a.1 == b.1 ==> (is_later(a, b) <==> a.2 > b.2),
        a != b <==> is_later(a, b) || is_later(b, a),
        !(is_later(a, b) && is_later(b, a)),
{
}

/// Two texts name the same commit exactly when neither is blank and, whatever their case and the
/// white space around them, one starts with the other.
pub proof fn law_same_commit(a: Seq<char>, b: Seq<char>)
    ensures
        ({
            let x = lower(trimmed(a));
            let y = lower(trimmed(b));
            names_same_commit(a, b) <==> x.len() > 0 && y.len() > 0 && (forall|i: int|
                0 <= i < x.len() && i < y.len() ==> #[trigger] x[i] == y[i])
        }),
{
    let x = lower(trimmed(a));
    let y = lower(trimmed(b));
    if forall|i: int| 0 <= i < x.len() && i < y.len() ==> #[trigger] x[i] == y[i] {
        if x.len() >= y.len() {
            assert(x.take(y.len() as int) =~= y);
        } else {
            assert(y.take(x.len() as int) =~= x);
        }
    }
    if has_prefix(x, y) {
        assert forall|i: int| 0 <= i < x.len() && i < y.len() implies #[trigger] x[i] == y[i] by {
            assert(x.take(y.len() as int)[i] == x[i]);
        }
    }
    if has_prefix(y, x) {
        assert forall|i: int| 0 <= i < x.len() && i < y.len() implies #[trigger] x[i] == y[i] by {
            assert(y.take(x.len() as int)[i] == y[i]);
        }
    }
}

/// A look that failed, or that found no release, is never taken for being up to date, and what
/// went wrong is told.
pub proof fn law_failed_looks_are_told(version: Seq<char>, commit: Seq<char>, e: String)
    ensures
        !update_result(version, commit, Lookup::Missing).ok,
        !update_result(version, commit, Lookup::Failed(e)).ok,
        update_result(version, commit, Lookup::Failed(e)).message
            == "could not check for updates: "@ + e@,
        version_of(version) is None ==> update_result(version, commit, Lookup::Missing).message
            == "no "@ + version + " release found"@,
{
    assert(update_result(version, commit, Lookup::Failed(e)) == lookup_failed(e@));
}

/// A build that is no version is up to date exactly when its commit is not known, when the release
/// names none, or when both are the same.
pub proof fn law_rolling_builds(version: Seq<char>, commit: Seq<char>, release: Json)
    requires
        version_of(version) is None,
    ensures
        ({
            let remote = member_or_nothing(release, "target_commitish"@);
            let r = update_result(version, commit, Lookup::Found(release));
            &&& r.ok <==> commit == "unknown"@ || remote.len() == 0 || names_same_commit(
                commit,
                remote,
            )
            &&& !r.ok ==> r.message == "a newer "@ + version + " build is available"@
            &&& r.ok && commit != "unknown"@ && remote.len() > 0 ==> r.message == "up to date ("@
                + version + " @ "@ + first_chars(commit, 7) + ")"@
        }),
{
}

/// A version that is not the latest is told of the latest one.
pub proof fn law_updates_are_told(version: Seq<char>, commit: Seq<char>, release: Json)
    requires
        version_of(version) is Some,
    ensures
        ({
            let latest = member_or_nothing(release, "tag_name"@);
            let r = update_result(version, commit, Lookup::Found(release));
            &&& r.ok ==> r.message == "up to date ("@ + version + ")"@
            &&& !r.ok ==> r.message == "update available: "@ + latest + " (you have "@ + version
                + ")"@
        }),
{
}

// ---------------------------------------------------------------------------------------------
// Teams
// ---------------------------------------------------------------------------------------------

/// Different teams have different checks, and a team's check is known as one.
pub proof fn law_team_keys(a: Seq<char>, b: Seq<char>)
    ensures
        key_of(a) == key_of(b) ==> a == b,
        is_access_key(key_of(a)),
        key_of(a).skip("ado-access:"@.len() as int) == a,
{
    super::lemma_key_is_access(a);
    assert(key_of(a).skip("ado-access:"@.len() as int) =~= a);
    assert(key_of(b).skip("ado-access:"@.len() as int) =~= b);
}

/// What is registered beside team checks is kept, in order.
pub proof fn law_other_checks_are_kept(registered: Seq<Seq<char>>)
    ensures
        other_keys(registered) == registered.filter(
            |k: Seq<char>| !has_prefix(k, "ado-access:"@),
        ),
    decreases registered.len(),
{
    reveal(Seq::filter);
    if registered.len() > 0 {
        law_other_checks_are_kept(registered.drop_last());
    }
}

/// As many checks are missing as there are teams without one.
pub proof fn law_missing_checks(teams: Seq<TeamConfig>, registered: Seq<Seq<char>>)
    ensures
        missing_count(wanted(teams), registered) == teams.filter(
            |t: TeamConfig| !registered.contains("ado-access:"@ + t.name@),
        ).len(),
    decreases teams.len(),
{
    reveal(Seq::filter);
    let want = wanted(teams);
    if teams.len() > 0 {
        law_missing_checks(teams.drop_last(), registered);
        assert(want.drop_last() =~= wanted(teams.drop_last()));
    }
}

/// As many checks are orphaned as there are different ones that belong to no team.
pub proof fn law_orphaned_checks(registered: Seq<Seq<char>>, want: Seq<Seq<char>>)
    ensures
        registered.to_set().filter(
            |k: Seq<char>| has_prefix(k, "ado-access:"@) && !want.contains(k),
        ).finite(),
        orphan_count(registered, want) == registered.to_set().filter(
            |k: Seq<char>| has_prefix(k, "ado-access:"@) && !want.contains(k),
        ).len(),
    decreases registered.len(),
{
    let p = |k: Seq<char>| has_prefix(k, "ado-access:"@) && !want.contains(k);
    if registered.len() == 0 {
        assert(registered.to_set().filter(p) =~= Set::empty());
    } else {
        let head = registered.drop_last();
        let last = registered.last();
        law_orphaned_checks(head, want);
        assert forall|x: Seq<char>| registered.to_set().contains(
            x,
        ) <==> head.to_set().insert(last).contains(x) by {
            if registered.contains(x) {
                let i = choose|i: int| 0 <= i < registered.len() && registered[i] == x;
                if i < head.len() {
                    assert(head[i] == x);
                }
            }
            if head.contains(x) {
                let i = choose|i: int| 0 <= i < head.len() && head[i] == x;
                assert(registered[i] == x);
            }
            assert(registered[registered.len() - 1] == last);
        }
        assert(registered.to_set() =~= head.to_set().insert(last));
        let before = head.to_set().filter(p);
        let after = registered.to_set().filter(p);
        if p(last) {
            assert(after =~= before.insert(last));
            assert(before.contains(last) <==> head.contains(last));
        } else {
            assert(after =~= before);
        }
        assert(is_orphan(last, want) == p(last));
    }
}

/// The registration is found in order exactly when no team is without its check and no check is
/// without its team.
pub proof fn law_registration(teams: Seq<TeamConfig>, registered: Seq<Seq<char>>)
    ensures
        ({
            let want = wanted(teams);
            let missing = missing_count(want, registered);
            let orphans = orphan_count(registered, want);
            let r = registration_result(teams.len(), want, registered);
            &&& r.ok <==> missing == 0 && orphans == 0
            &&& r.ok ==> r.message == decimal(teams.len()) + " team access check(s) registered"@
            &&& !r.ok ==> r.message == decimal(missing) + " team check(s) to register, "@ + decimal(
                orphans,
            ) + " orphaned to remove"@
        }),
{
}

/// What is registered for the teams is what was registered beside team checks, then a check for
/// every team, and nothing else.
pub proof fn law_what_is_registered(
    keys: Seq<Seq<char>>,
    registered: Seq<Seq<char>>,
    teams: Seq<TeamConfig>,
    x: Seq<char>,
)
    requires
        is_reconciled(keys, registered, wanted(teams)),
    ensures
        ({
            let others = registered.filter(|k: Seq<char>| !has_prefix(k, "ado-access:"@));
            let n = others.len() as int;
            &&& n <= keys.len()
            &&& keys.take(n) == others
            &&& ascending(keys.skip(n))
            &&& keys.skip(n).contains(x) <==> exists|i: int|
                0 <= i < teams.len() && x == "ado-access:"@ + (#[trigger] teams[i]).name@
        }),
{
    law_other_checks_are_kept(registered);
    let n = other_keys(registered).len() as int;
    let want = wanted(teams);
    let tail = keys.skip(n);
    assert(tail.contains(x) <==> tail.to_set().contains(x));
    assert(want.contains(x) <==> want.to_set().contains(x));
    if want.contains(x) {
        let i = choose|i: int| 0 <= i < want.len() && want[i] == x;
        assert(x == "ado-access:"@ + teams[i].name@);
    }
    if exists|i: int| 0 <= i < teams.len() && x == "ado-access:"@ + (#[trigger] teams[i]).name@ {
        let i = choose|i: int|
            0 <= i < teams.len() && x == "ado-access:"@ + (#[trigger] teams[i]).name@;
        assert(want[i] == x);
    }
}

} // verus!
