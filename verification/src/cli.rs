//! What the command line says and decides.
use crate::flag::{Flag, FlagView, Severity};
use crate::number::{
    decimal, format_i64, format_usize, signed_decimal,
};
use crate::order::holds_id;
use crate::report::{TagCount, TicketReport};
use crate::text::{
    cat2, cat3, char_count, contains, group_text, lemma_take_step, lowercase, occurs, opt_view,
    owned, to_lowercase, views,
};
use crate::time::{date_of, Timestamp};
use crate::work_item::WorkItem;
use vstd::prelude::*;

pub mod laws;

verus! {

broadcast use group_text;

// ---------------------------------------------------------------------------------------------
// Tagging
// ---------------------------------------------------------------------------------------------

/// Whether an item is assigned to somebody whose name holds a text, case aside.
pub open spec fn is_assigned(item: WorkItem, name: Seq<char>) -> bool {
    match item.assigned_to {
        Some(a) => occurs(lowercase(a@), lowercase(name)),
        None => false,
    }
}

/// The ids of the items that are assigned to somebody.
pub open spec fn assigned(items: Seq<WorkItem>, name: Seq<char>) -> Seq<i64>
    decreases items.len(),
{
    if items.len() == 0 {
        Seq::empty()
    } else if is_assigned(items.last(), name) {
        assigned(items.drop_last(), name).push(items.last().id)
    } else {
        assigned(items.drop_last(), name)
    }
}

/// Which items are to be tagged.
#[derive(Debug, Clone, PartialEq, Eq)]
pub enum TagPlan {
    /// All items in scope.
    Everything,
    /// The items with these ids.
    Items(Vec<i64>),
    /// Nothing is assigned to the person who was asked for.
    Nothing,
}

/// The ids of the items that are assigned to somebody.
pub fn assigned_ids(items: &Vec<WorkItem>, name: &str) -> (r: Vec<i64>)
    ensures
        r@ == assigned(items@, name@),
{
    let needle: String = to_lowercase(name);
    let mut out: Vec<i64> = Vec::new();
    let mut i: usize = 0;
    while i < items.len()
        invariant
            i <= items@.len(),
            needle@ == lowercase(name@),
            out@ == assigned(items@.take(i as int), name@),
        decreases items@.len() - i,
    {
        proof {
            lemma_take_step(items@, i as int);
        }
        let mine: bool = match &items[i].assigned_to {
            Some(a) => contains(to_lowercase(a.as_str()).as_str(), needle.as_str()),
            None => false,
        };
        if mine {
            out.push(items[i].id);
        }
        i += 1;
    }
    assert(items@.take(i as int) =~= items@);
    out
}

/// Which of the items in scope are to be tagged: those of a person, where one is asked for.
pub fn plan_tagging(items: &Vec<WorkItem>, assignee: Option<&str>) -> (r: TagPlan)
    ensures
        match (assignee, r) {
            (None, TagPlan::Everything) => true,
            (Some(name), TagPlan::Items(ids)) => ids@ == assigned(items@, name@) && ids@.len() > 0,
            (Some(name), TagPlan::Nothing) => assigned(items@, name@).len() == 0,
            _ => false,
        },
{
    match assignee {
        None => TagPlan::Everything,
        Some(name) => {
            let ids: Vec<i64> = assigned_ids(items, name);
            if ids.len() == 0 {
                TagPlan::Nothing
            } else {
                TagPlan::Items(ids)
            }
        },
    }
}

/// What is said before tagging.
pub open spec fn announcement_of(plan: TagPlan, assignee: Option<Seq<char>>) -> Seq<char> {
    match (plan, assignee) {
        (TagPlan::Nothing, Some(name)) => "No work items assigned to \""@ + name
            + "\" in this scope."@,
        (TagPlan::Items(ids), Some(name)) => "Tagging "@ + decimal(ids@.len())
            + " item(s) assigned to \""@ + name + "\"..."@,
        _ => "Tagging the whole scope..."@,
    }
}

/// What is said before tagging.
pub fn announcement(plan: &TagPlan, assignee: Option<&str>) -> (r: String)
    ensures
        r@ == announcement_of(*plan, opt_view(assignee)),
{
    match (plan, assignee) {
        (TagPlan::Nothing, Some(name)) => cat3(
            "No work items assigned to \"",
            name,
            "\" in this scope.",
        ),
        (TagPlan::Items(ids), Some(name)) => {
            let mut r: String = cat3(
                "Tagging ",
                format_usize(ids.len()).as_str(),
                " item(s) assigned to \"",
            );
            r.append(name);
            r.append("\"...");
            r
        },
        _ => owned("Tagging the whole scope..."),
    }
}

/// Whether an item with suggestions is one of those that were tagged.
pub open spec fn is_tagged(item: WorkItem, plan: TagPlan) -> bool {
    item.tag_suggestions@.len() > 0 && (match plan {
        TagPlan::Everything => true,
        TagPlan::Items(ids) => ids@.contains(item.id),
        TagPlan::Nothing => false,
    })
}

/// The places of the first `n` items that were tagged and got suggestions.
pub open spec fn tagged_places(items: Seq<WorkItem>, plan: TagPlan, n: nat) -> Seq<nat>
    decreases n,
{
    if n == 0 {
        Seq::empty()
    } else {
        let head = tagged_places(items, plan, (n - 1) as nat);
        if is_tagged(items[n - 1], plan) {
            head.push((n - 1) as nat)
        } else {
            head
        }
    }
}

/// The places of the items that were tagged and got suggestions.
pub fn tagged_items(items: &Vec<WorkItem>, plan: &TagPlan) -> (r: Vec<usize>)
    ensures
        r@.len() == tagged_places(items@, *plan, items@.len()).len(),
        forall|k: int|
            0 <= k < r@.len() ==> #[trigger] r@[k] == tagged_places(items@, *plan, items@.len())[k],
{
    let mut out: Vec<usize> = Vec::new();
    let mut i: usize = 0;
    while i < items.len()
        invariant
            i <= items@.len(),
            out@.len() == tagged_places(items@, *plan, i as nat).len(),
            forall|k: int|
                0 <= k < out@.len() ==> #[trigger] out@[k] == tagged_places(
                    items@,
                    *plan,
                    i as nat,
                )[k],
        decreases items@.len() - i,
    {
        let wanted: bool = match plan {
            TagPlan::Everything => true,
            TagPlan::Items(ids) => holds_id(ids, items[i].id),
            TagPlan::Nothing => false,
        };
        if wanted && items[i].tag_suggestions.len() > 0 {
            out.push(i);
        }
        i += 1;
    }
    out
}

/// What is said while tagging goes on.
pub fn progress(done: usize, total: usize, suggestions: usize) -> (r: String)
    ensures
        r@ == "\r  "@ + decimal(done as nat) + "/"@ + decimal(total as nat) + " items, "@ + decimal(
            suggestions as nat,
        ) + " suggestions"@,
{
    let mut r: String = cat3("\r  ", format_usize(done).as_str(), "/");
    r.append(format_usize(total).as_str());
    r.append(" items, ");
    r.append(format_usize(suggestions).as_str());
    r.append(" suggestions");
    r
}

/// What is said after tagging.
pub fn tag_summary(considered: usize, with_suggestions: usize, suggestions: usize) -> (r: String)
    ensures
        r@ == "Tagged "@ + decimal(considered as nat) + " item(s): "@ + decimal(
            with_suggestions as nat,
        ) + " got suggestions ("@ + decimal(suggestions as nat)
            + " total). Review + apply in the app."@,
{
    let mut r: String = cat3("Tagged ", format_usize(considered).as_str(), " item(s): ");
    r.append(format_usize(with_suggestions).as_str());
    r.append(" got suggestions (");
    r.append(format_usize(suggestions).as_str());
    r.append(" total). Review + apply in the app.");
    r
}

// ---------------------------------------------------------------------------------------------
// Flags
// ---------------------------------------------------------------------------------------------

/// How many of the flags are errors.
pub open spec fn errors_in(flags: Seq<FlagView>) -> nat
    decreases flags.len(),
{
    if flags.len() == 0 {
        0
    } else {
        errors_in(flags.drop_last()) + (if flags.last().severity == Severity::Error {
            1nat
        } else {
            0
        })
    }
}

proof fn lemma_errors_within(flags: Seq<FlagView>)
    ensures
        errors_in(flags) <= flags.len(),
    decreases flags.len(),
{
    if flags.len() > 0 {
        lemma_errors_within(flags.drop_last());
    }
}

/// How many of the flags are errors.
pub fn error_count(flags: &Vec<Flag>) -> (r: usize)
    ensures
        r == errors_in(views(flags@)),
        r <= flags@.len(),
{
    let ghost all = views(flags@);
    let mut n: usize = 0;
    let mut i: usize = 0;
    while i < flags.len()
        invariant
            i <= flags@.len(),
            n <= i,
            all == views(flags@),
            n == errors_in(all.take(i as int)),
        decreases flags@.len() - i,
    {
        proof {
            lemma_take_step(all, i as int);
        }
        match flags[i].severity {
            Severity::Error => {
                n += 1;
            },
            Severity::Warn => {},
        }
        i += 1;
    }
    assert(all.take(i as int) =~= all);
    n
}

/// The exit code: one where a flag is an error, so that a pipeline can stop on it.
pub fn lint_exit_code(flags: &Vec<Flag>) -> (r: i32)
    ensures
        r == (if errors_in(views(flags@)) > 0 {
            1int
        } else {
            0
        }),
{
    if error_count(flags) > 0 {
        1
    } else {
        0
    }
}

/// The line for a flag.
pub open spec fn flag_line(f: FlagView) -> Seq<char> {
    "  ["@ + (match f.severity {
        Severity::Error => "ERROR"@,
        Severity::Warn => "warn"@,
    }) + "] #"@ + signed_decimal(f.work_item_id as int) + " ("@ + f.team + ") - "@ + f.message
}

/// The lines for the flags: a heading, a line for each, and the counts; one line where there are
/// none.
pub open spec fn lint_text(flags: Seq<FlagView>) -> Seq<Seq<char>> {
    if flags.len() == 0 {
        seq!["✓ No hygiene flags - backlog is clean."@]
    } else {
        seq![decimal(flags.len()) + " hygiene flag(s):"@] + Seq::new(
            flags.len(),
            |i: int| flag_line(flags[i]),
        ) + seq![
            "\n"@ + decimal(errors_in(flags)) + " error(s), "@ + decimal(
                (flags.len() - errors_in(flags)) as nat,
            ) + " warning(s)."@,
        ]
    }
}

fn write_flag(f: &Flag) -> (r: String)
    ensures
        r@ == flag_line(f@),
{
    let mut r: String = owned("  [");
    match f.severity {
        Severity::Error => {
            r.append("ERROR");
        },
        Severity::Warn => {
            r.append("warn");
        },
    }
    r.append("] #");
    r.append(format_i64(f.work_item_id).as_str());
    r.append(" (");
    r.append(f.team.as_str());
    r.append(") - ");
    r.append(f.message.as_str());
    r
}

/// The lines for the flags.
pub fn lint_lines(flags: &Vec<Flag>) -> (r: Vec<String>)
    ensures
        views(r@) == lint_text(views(flags@)),
{
    let ghost all = views(flags@);
    let mut out: Vec<String> = Vec::new();
    if flags.len() == 0 {
        out.push(owned("✓ No hygiene flags - backlog is clean."));
        assert(views(out@) =~= lint_text(all));
        return out;
    }
    let errors: usize = error_count(flags);
    out.push(cat2(format_usize(flags.len()).as_str(), " hygiene flag(s):"));
    let ghost heading = views(out@);
    let ghost body = Seq::new(all.len(), |i: int| flag_line(all[i]));
    assert(heading =~= seq![decimal(all.len()) + " hygiene flag(s):"@]);
    let mut i: usize = 0;
    assert(views(out@) =~= heading + body.take(0));
    while i < flags.len()
        invariant
            i <= flags@.len(),
            all == views(flags@),
            body == Seq::new(all.len(), |i: int| flag_line(all[i])),
            views(out@) == heading + body.take(i as int),
        decreases flags@.len() - i,
    {
        out.push(write_flag(&flags[i]));
        assert(views(out@) =~= heading + body.take(i + 1));
        i += 1;
    }
    assert(body.take(i as int) =~= body);
    let mut counts: String = cat3("\n", format_usize(errors).as_str(), " error(s), ");
    counts.append(format_usize(flags.len() - errors).as_str());
    counts.append(" warning(s).");
    out.push(counts);
    assert(views(out@) =~= lint_text(all));
    out
}

/// The exit code is zero exactly when no flag is an error.
pub proof fn law_exit_code_gates_on_errors(flags: Seq<FlagView>)
    ensures
        errors_in(flags) == 0 <==> forall|i: int|
            0 <= i < flags.len() ==> (#[trigger] flags[i]).severity != Severity::Error,
        errors_in(flags) <= flags.len(),
    decreases flags.len(),
{
    lemma_errors_within(flags);
    if flags.len() > 0 {
        let head = flags.drop_last();
        law_exit_code_gates_on_errors(head);
        assert(flags[flags.len() - 1] == flags.last());
        if errors_in(flags) == 0 {
            assert forall|i: int| 0 <= i < flags.len() implies (#[trigger] flags[i]).severity
                != Severity::Error by {
                if i < head.len() {
                    assert(head[i] == flags[i]);
                }
            }
        }
        if forall|i: int|
            0 <= i < flags.len() ==> (#[trigger] flags[i]).severity != Severity::Error {
            assert forall|i: int| 0 <= i < head.len() implies (#[trigger] head[i]).severity
                != Severity::Error by {
                assert(head[i] == flags[i]);
            }
        }
    }
}

// ---------------------------------------------------------------------------------------------
// Reports
// ---------------------------------------------------------------------------------------------

/// The dates that a report covers, and the points in time at which they start and end.
#[derive(Debug, Clone, PartialEq, Eq)]
pub struct ReportRange {
    pub from: String,
    pub to: String,
    pub from_ts: String,
    pub to_ts: String,
}

/// The date thirty days before a point in time.
pub open spec fn default_start(now: Timestamp) -> Option<Seq<char>> {
    if now.secs - 30 * 86_400 < i64::MIN {
        None
    } else {
        date_of((now.secs - 30 * 86_400) as i64)
    }
}

/// A given date, or else another.
pub open spec fn date_or(given: Option<Seq<char>>, other: Option<Seq<char>>) -> Option<Seq<char>> {
    match given {
        Some(d) => Some(d),
        None => other,
    }
}

/// The dates that a report covers: the given ones, or else the last thirty days. `None` where such
/// a date is beyond the calendar.
pub fn report_range(from: Option<String>, to: Option<String>, now: Timestamp) -> (r: Option<
    ReportRange,
>)
    ensures
        match r {
            Some(range) => {
                &&& date_or(opt_view(from), default_start(now)) == Some(range.from@)
                &&& date_or(opt_view(to), date_of(now.secs)) == Some(range.to@)
                &&& range.from_ts@ == range.from@ + "T00:00:00Z"@
                &&& range.to_ts@ == range.to@ + "T23:59:59Z"@
            },
            None => date_or(opt_view(from), default_start(now)) is None || date_or(
                opt_view(to),
                date_of(now.secs),
            ) is None,
        },
{
    let start: Option<String> = match from {
        Some(d) => Some(d),
        None => match now.secs.checked_sub(2_592_000i64) {
            Some(secs) => Timestamp::new(secs, 0).date(),
            None => None,
        },
    };
    let end: Option<String> = match to {
        Some(d) => Some(d),
        None => now.date(),
    };
    match (start, end) {
        (Some(from), Some(to)) => {
            let from_ts: String = cat2(from.as_str(), "T00:00:00Z");
            let to_ts: String = cat2(to.as_str(), "T23:59:59Z");
            Some(ReportRange { from, to, from_ts, to_ts })
        },
        _ => None,
    }
}

/// A text with spaces after it, up to a width.
pub open spec fn padded(s: Seq<char>, width: nat) -> Seq<char> {
    if s.len() >= width {
        s
    } else {
        s + crate::banner::spaces((width - s.len()) as nat)
    }
}

fn pad(s: &str, width: usize) -> (r: String)
    ensures
        r@ == padded(s@, width as nat),
{
    let n: usize = char_count(s);
    let mut r: String = owned(s);
    if n >= width {
        return r;
    }
    let mut i: usize = 0;
    assert(r@ =~= s@ + crate::banner::spaces(0));
    while i < width - n
        invariant
            n == s@.len(),
            n < width,
            i <= width - n,
            r@ == s@ + crate::banner::spaces(i as nat),
        decreases width - n - i,
    {
        r.push(' ');
        assert(r@ =~= s@ + crate::banner::spaces((i + 1) as nat));
        i += 1;
    }
    r
}

/// The line for a tag of a report.
pub open spec fn tag_line(c: TagCount) -> Seq<char> {
    "    "@ + padded(c.tag@, 28) + " "@ + signed_decimal(c.count as int)
}

/// The lines for the tickets of a report.
pub open spec fn ticket_text(r: TicketReport) -> Seq<Seq<char>> {
    seq![
        "\nWork items:"@,
        "  opened: "@ + signed_decimal(r.opened as int),
        "  closed: "@ + signed_decimal(r.closed as int),
    ] + (if r.closed_by_tag@.len() == 0 {
        Seq::empty()
    } else {
        seq!["  closed by tag:"@] + Seq::new(
            r.closed_by_tag@.len(),
            |i: int| tag_line(r.closed_by_tag@[i]),
        )
    })
}

/// The lines for the tickets of a report.
pub fn ticket_lines(report: &TicketReport) -> (r: Vec<String>)
    ensures
        views(r@) == ticket_text(*report),
{
    let mut out: Vec<String> = Vec::new();
    out.push(owned("\nWork items:"));
    out.push(cat2("  opened: ", format_i64(report.opened).as_str()));
    out.push(cat2("  closed: ", format_i64(report.closed).as_str()));
    let ghost counts = views(out@);
    if report.closed_by_tag.len() > 0 {
        out.push(owned("  closed by tag:"));
        let ghost heading = views(out@);
        let ghost body = Seq::new(
            report.closed_by_tag@.len(),
            |i: int| tag_line(report.closed_by_tag@[i]),
        );
        let mut i: usize = 0;
        assert(views(out@) =~= heading + body.take(0));
        while i < report.closed_by_tag.len()
            invariant
                i <= report.closed_by_tag@.len(),
                body == Seq::new(
                    report.closed_by_tag@.len(),
                    |i: int| tag_line(report.closed_by_tag@[i]),
                ),
                views(out@) == heading + body.take(i as int),
            decreases report.closed_by_tag@.len() - i,
        {
            let c: &TagCount = &report.closed_by_tag[i];
            let mut line: String = cat3("    ", pad(c.tag.as_str(), 28).as_str(), " ");
            line.append(format_i64(c.count).as_str());
            out.push(line);
            assert(views(out@) =~= heading + body.take(i + 1));
            i += 1;
        }
        assert(body.take(i as int) =~= body);
        assert(heading + body =~= ticket_text(*report));
    }
    assert(views(out@) =~= ticket_text(*report));
    out
}

/// The lines for the runs of a report, but for their success rate.
pub fn run_lines(total: i64, succeeded: i64, failed: i64, canceled: i64) -> (r: Vec<String>)
    ensures
        views(r@) == seq![
            "\nPipelines:"@,
            "  runs: "@ + signed_decimal(total as int),
            "  succeeded / failed / canceled: "@ + signed_decimal(succeeded as int) + " / "@
                + signed_decimal(failed as int) + " / "@ + signed_decimal(canceled as int),
        ],
{
    let mut out: Vec<String> = Vec::new();
    out.push(owned("\nPipelines:"));
    out.push(cat2("  runs: ", format_i64(total).as_str()));
    let mut line: String = cat3(
        "  succeeded / failed / canceled: ",
        format_i64(succeeded).as_str(),
        " / ",
    );
    line.append(format_i64(failed).as_str());
    line.append(" / ");
    line.append(format_i64(canceled).as_str());
    out.push(line);
    assert(views(out@) =~= seq![
        "\nPipelines:"@,
        "  runs: "@ + signed_decimal(total as int),
        "  succeeded / failed / canceled: "@ + signed_decimal(succeeded as int) + " / "@
            + signed_decimal(failed as int) + " / "@ + signed_decimal(canceled as int),
    ]);
    out
}

// ---------------------------------------------------------------------------------------------
// Polling and importing
// ---------------------------------------------------------------------------------------------

/// What is said after a poll.
pub fn poll_summary(teams: usize, work_items: usize, pipelines: usize, runs: usize) -> (r: String)
    ensures
        r@ == "Polled "@ + decimal(teams as nat) + " team(s): "@ + decimal(work_items as nat)
            + " work items, "@ + decimal(pipelines as nat) + " pipelines, "@ + decimal(runs as nat)
            + " runs."@,
{
    let mut r: String = cat3("Polled ", format_usize(teams).as_str(), " team(s): ");
    r.append(format_usize(work_items).as_str());
    r.append(" work items, ");
    r.append(format_usize(pipelines).as_str());
    r.append(" pipelines, ");
    r.append(format_usize(runs).as_str());
    r.append(" runs.");
    r
}

/// What is said after an import.
pub fn import_summary(teams: usize, reports: usize, replaced: bool) -> (r: String)
    ensures
        r@ == "Imported "@ + decimal(teams as nat) + " team(s) and "@ + decimal(reports as nat)
            + " report(s) ("@ + (if replaced {
            "replaced"@
        } else {
            "merged"@
        }) + ")."@,
{
    let mut r: String = cat3("Imported ", format_usize(teams).as_str(), " team(s) and ");
    r.append(format_usize(reports).as_str());
    r.append(" report(s) (");
    if replaced {
        r.append("replaced");
    } else {
        r.append("merged");
    }
    r.append(").");
    r
}

} // verus!
