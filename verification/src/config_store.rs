//! Changes to an owner's configuration. A team is found by its name, ASCII case aside.
use crate::config::{RuleSet, TeamConfig, UserConfig};
use crate::text::{eq_ignoring_case, same, same_ignoring_case, views};
use vstd::prelude::*;

pub mod laws;

verus! {

/// The owner of everything where nobody signs in.
pub const DEFAULT_OWNER: &'static str = "default";

/// Whether a team bears a name, ASCII case aside.
pub open spec fn is_named(t: TeamConfig, name: Seq<char>) -> bool {
    same_ignoring_case(t.name@, name)
}

/// Whether one of the teams bears a name.
pub open spec fn has_team(teams: Seq<TeamConfig>, name: Seq<char>) -> bool {
    exists|i: int| 0 <= i < teams.len() && is_named(#[trigger] teams[i], name)
}

/// The teams that do not bear a name.
pub open spec fn without_team(teams: Seq<TeamConfig>, name: Seq<char>) -> Seq<TeamConfig>
    decreases teams.len(),
{
    if teams.len() == 0 {
        Seq::empty()
    } else if is_named(teams[0], name) {
        without_team(teams.skip(1), name)
    } else {
        seq![teams[0]] + without_team(teams.skip(1), name)
    }
}

/// Whether `i` is the place of the first team that bears a name.
pub open spec fn is_first_named(teams: Seq<TeamConfig>, name: Seq<char>, i: int) -> bool {
    &&& 0 <= i < teams.len()
    &&& is_named(teams[i], name)
    &&& forall|j: int| 0 <= j < i ==> !is_named(#[trigger] teams[j], name)
}

fn find_team(teams: &Vec<TeamConfig>, name: &str) -> (r: Option<usize>)
    ensures
        match r {
            Some(i) => is_first_named(teams@, name@, i as int),
            None => !has_team(teams@, name@),
        },
{
    let mut i: usize = 0;
    while i < teams.len()
        invariant
            i <= teams@.len(),
            forall|j: int| 0 <= j < i ==> !is_named(#[trigger] teams@[j], name@),
        decreases teams@.len() - i,
    {
        if eq_ignoring_case(teams[i].name.as_str(), name) {
            return Some(i);
        }
        i += 1;
    }
    None
}

fn same_list(a: &Vec<String>, b: &Vec<String>) -> (r: bool)
    ensures
        r == (views(a@) == views(b@)),
{
    if a.len() != b.len() {
        assert(views(a@).len() != views(b@).len());
        return false;
    }
    let mut i: usize = 0;
    while i < a.len()
        invariant
            i <= a@.len(),
            a@.len() == b@.len(),
            forall|j: int| 0 <= j < i ==> views(a@)[j] == views(b@)[j],
        decreases a@.len() - i,
    {
        if !same(a[i].as_str(), b[i].as_str()) {
            assert(views(a@)[i as int] != views(b@)[i as int]);
            return false;
        }
        i += 1;
    }
    assert(views(a@) =~= views(b@));
    true
}

/// Whether two configurations agree in everything but the teams.
pub open spec fn same_but_teams(a: UserConfig, b: UserConfig) -> bool {
    a.rules == b.rules && a.doctor == b.doctor && a.poll_all_teams == b.poll_all_teams
}

impl UserConfig {
    /// The configuration of a new owner: the given one for the default owner, else an empty one.
    pub fn seeded(owner: &str, seed: UserConfig) -> (r: UserConfig)
        ensures
            owner@ == DEFAULT_OWNER@ ==> r == seed,
            owner@ != DEFAULT_OWNER@ ==> {
                &&& r.teams@.len() == 0
                &&& r.rules@ == crate::config::no_rules()
                &&& r.doctor.checks@.len() == 0
                &&& !r.poll_all_teams
            },
    {
        if same(owner, DEFAULT_OWNER) {
            seed
        } else {
            UserConfig::default()
        }
    }

    /// Registers checks in place of those that were, and says whether they differ.
    pub fn set_registered_checks(&mut self, keys: Vec<String>) -> (changed: bool)
        ensures
            views(final(self).doctor.checks@) == views(keys@),
            changed == (views(old(self).doctor.checks@) != views(keys@)),
            final(self).teams == old(self).teams,
            final(self).rules == old(self).rules,
            final(self).poll_all_teams == old(self).poll_all_teams,
    {
        if same_list(&self.doctor.checks, &keys) {
            false
        } else {
            self.doctor.checks = keys;
            true
        }
    }

    /// Adds a team at the end, unless one of its name is there.
    pub fn add_team(&mut self, team: TeamConfig) -> (added: bool)
        ensures
            added == !has_team(old(self).teams@, team.name@),
            final(self).teams@ == (if added {
                old(self).teams@.push(team)
            } else {
                old(self).teams@
            }),
            same_but_teams(*final(self), *old(self)),
    {
        match find_team(&self.teams, team.name.as_str()) {
            Some(i) => {
                assert(is_named(self.teams@[i as int], team.name@));
                false
            },
            None => {
                self.teams.push(team);
                true
            },
        }
    }

    /// Removes the teams of a name, and says whether there was one.
    pub fn remove_team(&mut self, name: &str) -> (removed: bool)
        ensures
            removed == has_team(old(self).teams@, name@),
            final(self).teams@ == without_team(old(self).teams@, name@),
            same_but_teams(*final(self), *old(self)),
    {
        let ghost all = self.teams@;
        let mut removed: bool = false;
        let mut i: usize = self.teams.len();
        assert(all.take(i as int) + without_team(all.skip(i as int), name@) =~= all);
        while i > 0
            invariant
                i <= all.len(),
                self.teams@ == all.take(i as int) + without_team(all.skip(i as int), name@),
                removed == exists|j: int| i <= j < all.len() && is_named(#[trigger] all[j], name@),
                same_but_teams(*self, *old(self)),
            decreases i,
        {
            i -= 1;
            let ghost rest = all.skip(i as int);
            assert(rest.skip(1) =~= all.skip(i + 1));
            assert(self.teams@[i as int] == all[i as int]);
            if eq_ignoring_case(self.teams[i].name.as_str(), name) {
                let _gone: TeamConfig = self.teams.remove(i);
                removed = true;
                assert(is_named(all[i as int], name@));
            }
            assert(self.teams@ =~= all.take(i as int) + without_team(rest, name@));
        }
        assert(all.skip(0) =~= all);
        assert(self.teams@ =~= without_team(all, name@));
        removed
    }

    /// Puts a team in the place of the first of a name, and says whether there was one.
    pub fn update_team(&mut self, original: &str, team: TeamConfig) -> (updated: bool)
        ensures
            updated == has_team(old(self).teams@, original@),
            !updated ==> final(self).teams@ == old(self).teams@,
            updated ==> exists|i: int|
                #[trigger] is_first_named(old(self).teams@, original@, i) && final(self).teams@
                    == old(self).teams@.update(i, team),
            same_but_teams(*final(self), *old(self)),
    {
        match find_team(&self.teams, original) {
            Some(i) => {
                let ghost before = self.teams@;
                assert(is_named(before[i as int], original@));
                self.teams.set(i, team);
                assert(is_first_named(before, original@, i as int));
                true
            },
            None => false,
        }
    }

    /// Sets the owner's rules.
    pub fn set_rules(&mut self, rules: RuleSet)
        ensures
            *final(self) == (UserConfig { rules, ..*old(self) }),
    {
        self.rules = rules;
    }

    /// Sets whether all teams are polled.
    pub fn set_poll_all_teams(&mut self, all: bool)
        ensures
            *final(self) == (UserConfig { poll_all_teams: all, ..*old(self) }),
    {
        self.poll_all_teams = all;
    }

    /// Sets or clears the own rules of the first team of a name, and says whether there was one.
    pub fn set_team_rules(&mut self, name: &str, rules: Option<RuleSet>) -> (updated: bool)
        ensures
            updated == has_team(old(self).teams@, name@),
            !updated ==> final(self).teams@ == old(self).teams@,
            updated ==> exists|i: int|
                #[trigger] is_first_named(old(self).teams@, name@, i) && final(self).teams@ == old(
                    self,
                ).teams@.update(i, TeamConfig { rules, ..old(self).teams@[i] }),
            same_but_teams(*final(self), *old(self)),
    {
        match find_team(&self.teams, name) {
            Some(i) => {
                let ghost before = self.teams@;
                assert(is_named(before[i as int], name@));
                self.teams[i].rules = rules;
                assert(is_first_named(before, name@, i as int));
                assert(self.teams@ =~= before.update(
                    i as int,
                    TeamConfig { rules, ..before[i as int] },
                ));
                true
            },
            None => false,
        }
    }
}

// ---------------------------------------------------------------------------------------------
// Laws
// ---------------------------------------------------------------------------------------------

/// No two teams bear the same name, ASCII case aside.
pub open spec fn names_differ(teams: Seq<TeamConfig>) -> bool {
    forall|i: int, j: int|
        0 <= i < j < teams.len() ==> !is_named(#[trigger] teams[i], (#[trigger] teams[j]).name@)
}

/// Adding a team that bears a new name keeps the names different.
pub proof fn law_adding_keeps_names_different(teams: Seq<TeamConfig>, team: TeamConfig)
    requires
        names_differ(teams),
        !has_team(teams, team.name@),
    ensures
        names_differ(teams.push(team)),
{
    let all = teams.push(team);
    assert forall|i: int, j: int| 0 <= i < j < all.len() implies !is_named(
        #[trigger] all[i],
        (#[trigger] all[j]).name@,
    ) by {
        assert(all[i] == teams[i]);
        if j < teams.len() {
            assert(all[j] == teams[j]);
        } else {
            assert(!is_named(teams[i], team.name@));
        }
    }
}

proof fn lemma_without_absent(teams: Seq<TeamConfig>, name: Seq<char>)
    requires
        !has_team(teams, name),
    ensures
        without_team(teams, name) == teams,
    decreases teams.len(),
{
    if teams.len() > 0 {
        assert(!is_named(teams[0], name));
        assert forall|i: int| 0 <= i < teams.skip(1).len() implies !is_named(
            #[trigger] teams.skip(1)[i],
            name,
        ) by {
            assert(teams.skip(1)[i] == teams[i + 1]);
        }
        lemma_without_absent(teams.skip(1), name);
        assert(seq![teams[0]] + teams.skip(1) =~= teams);
    } else {
        assert(without_team(teams, name) =~= teams);
    }
}

proof fn lemma_without_concat(a: Seq<TeamConfig>, b: Seq<TeamConfig>, name: Seq<char>)
    ensures
        without_team(a + b, name) == without_team(a, name) + without_team(b, name),
    decreases a.len(),
{
    if a.len() == 0 {
        assert(a + b =~= b);
        assert(without_team(a, name) + without_team(b, name) =~= without_team(b, name));
    } else {
        lemma_without_concat(a.skip(1), b, name);
        assert((a + b).skip(1) =~= a.skip(1) + b);
        assert((a + b)[0] == a[0]);
        if !is_named(a[0], name) {
            assert(seq![a[0]] + (without_team(a.skip(1), name) + without_team(b, name)) =~= (
            seq![a[0]] + without_team(a.skip(1), name)) + without_team(b, name));
        }
    }
}

/// Removing a team that was added leaves the teams as they were.
pub proof fn law_removing_undoes_adding(teams: Seq<TeamConfig>, team: TeamConfig)
    requires
        !has_team(teams, team.name@),
    ensures
        without_team(teams.push(team), team.name@) == teams,
{
    let name = team.name@;
    lemma_without_absent(teams, name);
    lemma_without_concat(teams, seq![team], name);
    assert(teams.push(team) =~= teams + seq![team]);
    assert(same_ignoring_case(name, name));
    assert(seq![team].skip(1) =~= Seq::<TeamConfig>::empty());
    assert(without_team(seq![team], name) =~= Seq::<TeamConfig>::empty()) by {
        reveal_with_fuel(without_team, 2);
    }
    assert(teams + Seq::<TeamConfig>::empty() =~= teams);
}

/// After a removal no team bears the name.
pub proof fn law_removed_is_gone(teams: Seq<TeamConfig>, name: Seq<char>)
    ensures
        !has_team(without_team(teams, name), name),
    decreases teams.len(),
{
    if teams.len() > 0 {
        law_removed_is_gone(teams.skip(1), name);
        let rest = without_team(teams.skip(1), name);
        if !is_named(teams[0], name) {
            let all = seq![teams[0]] + rest;
            assert forall|i: int| 0 <= i < all.len() implies !is_named(#[trigger] all[i], name) by {
                if i > 0 {
                    assert(all[i] == rest[i - 1]);
                }
            }
        }
    }
}

} // verus!
