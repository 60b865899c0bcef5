//! What the command line promises.
use super::{
    announcement_of, assigned, date_or, default_start, errors_in, flag_line, is_tagged, lint_text,
    padded, tag_line, tagged_places, ticket_text, TagPlan,
};
use crate::flag::{FlagView, Severity};
use crate::number::{decimal, signed_decimal};
use crate::report::{TagCount, TicketReport};
use crate::text::{lowercase, occurs};
use crate::time::{date_of, Timestamp};
use crate::work_item::WorkItem;
use vstd::prelude::*;

verus! {

/// The items of a person are those assigned to somebody whose name holds the text that was asked
/// for, case aside, in their order; an item of nobody is not among them.
pub proof fn law_items_of_a_person(items: Seq<WorkItem>, name: Seq<char>)
    ensures
        assigned(items, name) == items.filter(
            |w: WorkItem|
                w.assigned_to is Some && occurs(lowercase(w.assigned_to->0@), lowercase(name)),
        ).map_values(|w: WorkItem| w.id),
    decreases items.len(),
{
    reveal(Seq::filter);
    let mine = |w: WorkItem|
        w.assigned_to is Some && occurs(lowercase(w.assigned_to->0@), lowercase(name));
    let id = |w: WorkItem| w.id;
    if items.len() > 0 {
        let head = items.drop_last();
        law_items_of_a_person(head, name);
        if mine(items.last()) {
            assert(head.filter(mine).push(items.last()).map_values(id) =~= head.filter(
                mine,
            ).map_values(id).push(items.last().id));
        }
    } else {
        assert(items.filter(mine).map_values(id) =~= Seq::empty());
    }
}

/// Whether an item is in the scope of a plan.
pub open spec fn in_scope(item: WorkItem, plan: TagPlan) -> bool {
    match plan {
        TagPlan::Everything => true,
        TagPlan::Items(ids) => exists|k: int| 0 <= k < ids@.len() && #[trigger] ids@[k] == item.id,
        TagPlan::Nothing => false,
    }
}

/// The places that are shown are those of the items in scope that have suggestions: all of them, and
/// in their order.
pub proof fn law_tagged_items_are_shown(items: Seq<WorkItem>, plan: TagPlan, n: nat)
    requires
        n <= items.len(),
    ensures
        forall|i: int|
            0 <= i < n && in_scope(#[trigger] items[i], plan) && items[i].tag_suggestions@.len() > 0
                ==> tagged_places(items, plan, n).contains(i as nat),
        forall|k: int|
            0 <= k < tagged_places(items, plan, n).len() ==> {
                let at = #[trigger] tagged_places(items, plan, n)[k];
                at < n && in_scope(items[at as int], plan)
                    && items[at as int].tag_suggestions@.len() > 0
            },
        forall|k: int, l: int|
            0 <= k < l < tagged_places(items, plan, n).len() ==> #[trigger] tagged_places(
                items,
                plan,
                n,
            )[k] < #[trigger] tagged_places(items, plan, n)[l],
    decreases n,
{
    if n > 0 {
        let m = (n - 1) as nat;
        law_tagged_items_are_shown(items, plan, m);
        let before = tagged_places(items, plan, m);
        let all = tagged_places(items, plan, n);
        let item = items[n - 1];
        assert(is_tagged(item, plan) == (in_scope(item, plan) && item.tag_suggestions@.len() > 0));
        assert forall|i: int|
            0 <= i < n && in_scope(#[trigger] items[i], plan) && items[i].tag_suggestions@.len()
                > 0 implies all.contains(i as nat) by {
            if i < m {
                assert(before.contains(i as nat));
                let k = choose|k: int| 0 <= k < before.len() && before[k] == i as nat;
                assert(all[k] == i as nat);
            } else {
                assert(all[all.len() - 1] == i as nat);
            }
        }
        assert forall|k: int| 0 <= k < all.len() implies {
            let at = #[trigger] all[k];
            at < n && in_scope(items[at as int], plan) && items[at as int].tag_suggestions@.len()
                > 0
        } by {
            if k < before.len() {
                assert(all[k] == before[k]);
            }
        }
        assert forall|k: int, l: int| 0 <= k < l < all.len() implies #[trigger] all[k]
            < #[trigger] all[l] by {
            assert(all[k] == before[k]);
            if l < before.len() {
                assert(all[l] == before[l]);
            }
        }
    }
}

/// What is said before tagging names the person that was asked for and, where there are any, how
/// many items are theirs.
pub proof fn law_announcement(plan: TagPlan, name: Seq<char>)
    ensures
        plan is Nothing ==> announcement_of(plan, Some(name)) == "No work items assigned to \""@
            + name + "\" in this scope."@,
        plan matches TagPlan::Items(ids) ==> announcement_of(plan, Some(name)) == "Tagging "@
            + decimal(ids@.len()) + " item(s) assigned to \""@ + name + "\"..."@,
        plan is Everything ==> announcement_of(plan, None) == "Tagging the whole scope..."@,
{
}

/// The errors of two lists are those of the first and those of the second.
pub proof fn law_errors_add_up(a: Seq<FlagView>, b: Seq<FlagView>)
    ensures
        errors_in(a + b) == errors_in(a) + errors_in(b),
        errors_in(a) == a.filter(|f: FlagView| f.severity == Severity::Error).len(),
    decreases a.len() + b.len(),
{
    reveal(Seq::filter);
    if b.len() > 0 {
        law_errors_add_up(a, b.drop_last());
        assert((a + b).drop_last() =~= a + b.drop_last());
        assert((a + b).last() == b.last());
    } else {
        assert(a + b =~= a);
        if a.len() > 0 {
            law_errors_add_up(a.drop_last(), b);
        }
    }
}

/// Every flag has its line, in its order, between a heading with their number and the counts of
/// errors and warnings; without flags there is one line.
pub proof fn law_every_flag_has_its_line(flags: Seq<FlagView>, i: int)
    requires
        0 <= i < flags.len(),
    ensures
        lint_text(flags).len() == flags.len() + 2,
        lint_text(flags)[0] == decimal(flags.len()) + " hygiene flag(s):"@,
        lint_text(flags)[i + 1] == flag_line(flags[i]),
        lint_text(flags).last() == "\n"@ + decimal(errors_in(flags)) + " error(s), "@ + decimal(
            (flags.len() - errors_in(flags)) as nat,
        ) + " warning(s)."@,
        flag_line(flags[i]) == "  ["@ + (if flags[i].severity == Severity::Error {
            "ERROR"@
        } else {
            "warn"@
        }) + "] #"@ + signed_decimal(flags[i].work_item_id as int) + " ("@ + flags[i].team
            + ") - "@ + flags[i].message,
{
}

/// A report covers the dates that are given; where one is not, it starts thirty days ago or ends
/// today.
pub proof fn law_dates_of_a_report(given: Option<Seq<char>>, now: Timestamp)
    ensures
        given is Some ==> date_or(given, default_start(now)) == given && date_or(
            given,
            date_of(now.secs),
        ) == given,
        given is None ==> date_or(given, date_of(now.secs)) == date_of(now.secs),
        given is None && now.secs >= i64::MIN + 2_592_000 ==> date_or(given, default_start(now))
            == date_of((now.secs - 2_592_000) as i64),
{
}

/// A text is padded with blanks to a width, and one that is as long is left alone.
pub proof fn law_padding(s: Seq<char>, width: nat)
    ensures
        padded(s, width).len() == if s.len() < width {
            width
        } else {
            s.len()
        },
        padded(s, width).take(s.len() as int) == s,
        forall|i: int|
            s.len() <= i < padded(s, width).len() ==> #[trigger] padded(s, width)[i] == ' ',
{
    assert(padded(s, width).take(s.len() as int) =~= s);
}

/// The lines for tickets give what was opened, what was closed, and what was closed of each tag, in
/// the order of the report.
pub proof fn law_ticket_lines(r: TicketReport, i: int)
    ensures
        ticket_text(r).len() == (if r.closed_by_tag@.len() == 0 {
            3
        } else {
            4 + r.closed_by_tag@.len()
        }),
        ticket_text(r)[1] == "  opened: "@ + signed_decimal(r.opened as int),
        ticket_text(r)[2] == "  closed: "@ + signed_decimal(r.closed as int),
        0 <= i < r.closed_by_tag@.len() ==> ticket_text(r)[4 + i] == "    "@ + padded(
            r.closed_by_tag@[i].tag@,
            28,
        ) + " "@ + signed_decimal(r.closed_by_tag@[i].count as int),
{
}

} // verus!
