//! What changes to the teams promise.
use super::{has_team, is_first_named, is_named, without_team};
use crate::config::TeamConfig;
use crate::text::same_ignoring_case;
use vstd::prelude::*;

verus! {

/// Removing a name takes away the teams that bear it, whatever their case, and leaves all others in
/// their order.
pub proof fn law_what_is_removed(teams: Seq<TeamConfig>, name: Seq<char>)
    ensures
        without_team(teams, name) == teams.filter(
            |t: TeamConfig| !same_ignoring_case(t.name@, name),
        ),
    decreases teams.len(),
{
    reveal(Seq::filter);
    let p = |t: TeamConfig| !same_ignoring_case(t.name@, name);
    if teams.len() == 0 {
        assert(without_team(teams, name) =~= teams.filter(p));
    } else {
        let rest = teams.skip(1);
        law_what_is_removed(rest, name);
        assert(teams =~= seq![teams[0]] + rest);
        Seq::filter_distributes_over_add(seq![teams[0]], rest, p);
        let one = seq![teams[0]];
        assert(one.drop_last() =~= Seq::<TeamConfig>::empty());
        assert(one.drop_last().filter(p) =~= Seq::<TeamConfig>::empty());
        assert(one.last() == teams[0]);
        if p(teams[0]) {
            assert(one.filter(p) =~= one);
        } else {
            assert(one.filter(p) =~= Seq::<TeamConfig>::empty());
            assert(Seq::<TeamConfig>::empty() + rest.filter(p) =~= rest.filter(p));
        }
    }
}

/// A name is taken exactly when a team bears it, whatever the case, and then exactly one place is
/// that of the first such team.
pub proof fn law_names_are_found(teams: Seq<TeamConfig>, name: Seq<char>, i: int, j: int)
    ensures
        has_team(teams, name) <==> exists|k: int|
            0 <= k < teams.len() && same_ignoring_case((#[trigger] teams[k]).name@, name),
        is_first_named(teams, name, i) && is_first_named(teams, name, j) ==> i == j,
        is_first_named(teams, name, i) ==> has_team(teams, name) && same_ignoring_case(
            teams[i].name@,
            name,
        ),
        0 <= j < i && is_first_named(teams, name, i) ==> !same_ignoring_case(teams[j].name@, name),
{
    if has_team(teams, name) {
        let k = choose|k: int| 0 <= k < teams.len() && is_named(#[trigger] teams[k], name);
        assert(same_ignoring_case(teams[k].name@, name));
    }
    if exists|k: int| 0 <= k < teams.len() && same_ignoring_case((#[trigger] teams[k]).name@, name) {
        let k = choose|k: int|
            0 <= k < teams.len() && same_ignoring_case((#[trigger] teams[k]).name@, name);
        assert(is_named(teams[k], name));
    }
    if is_first_named(teams, name, i) {
        assert(is_named(teams[i], name));
        if 0 <= j < i {
            assert(!is_named(teams[j], name));
        }
    }
    if is_first_named(teams, name, j) && 0 <= i < j {
        assert(!is_named(teams[i], name));
    }
}

} // verus!
