//! The queries by which Azure DevOps work items are found, and the search that splits a query by
//! id range where one answer would be too long.
use super::error::ProviderError;
use crate::number::{format_i64, signed_decimal};
use crate::text::{cat3, contains, occurs, opt_view, replace, replaced, trim, trimmed};
use vstd::prelude::*;

pub mod laws;

verus! {

/// The largest id that a query may name.
pub const MAX_WIQL_ID: i64 = 2_147_483_647;

/// Where the search for a ceiling starts.
pub const FIRST_CEILING: i64 = 4_000_000;

/// Whether an error says that a query's answer would be too long.
pub open spec fn result_limit(e: ProviderError) -> bool {
    e matches ProviderError::Api { status, url, body } && status == 400 && (occurs(
        body@,
        "VS402337"@,
    ) || occurs(body@, "size limit"@))
}

/// Whether an error says that a query's answer would be too long.
pub fn is_result_limit(e: &ProviderError) -> (r: bool)
    ensures
        r == result_limit(*e),
{
    match e {
        ProviderError::Api { status, url, body } => *status == 400 && (contains(
            body.as_str(),
            "VS402337",
        ) || contains(body.as_str(), "size limit")),
        _ => false,
    }
}

/// The clause that narrows a query to an area path.
pub open spec fn area_clause(area: Option<Seq<char>>, strict: bool) -> Seq<char> {
    match area {
        Some(a) => if trimmed(a).len() > 0 {
            " AND [System.AreaPath] "@ + (if strict {
                "="@
            } else {
                "UNDER"@
            }) + " '"@ + replaced(trimmed(a), "'"@, "''"@) + "'"@
        } else {
            Seq::empty()
        },
        None => Seq::empty(),
    }
}

/// The clause that narrows a query to ids from `lo` to below `hi`, and the order of the answer.
pub open spec fn range_clause(range: Option<(i64, i64)>) -> Seq<char> {
    match range {
        Some((lo, hi)) => " AND [System.Id] >= "@ + signed_decimal(lo as int)
            + " AND [System.Id] < "@ + signed_decimal(hi as int) + " ORDER BY [System.Id] ASC"@,
        None => " ORDER BY [System.ChangedDate] DESC"@,
    }
}

/// The query for a team's items: those of the project that are not removed, in the area, in the
/// id range.
pub open spec fn wiql(area: Option<Seq<char>>, strict: bool, range: Option<(i64, i64)>) -> Seq<
    char,
> {
    BASE_WIQL@ + area_clause(area, strict) + range_clause(range)
}

pub const BASE_WIQL: &'static str = "SELECT [System.Id] FROM WorkItems WHERE [System.TeamProject] = @project AND [System.State] <> 'Removed'";

/// The query for a team's items.
pub fn build_wiql(area_path: Option<&str>, strict: bool, id_range: Option<(i64, i64)>) -> (r:
    String)
    ensures
        r@ == wiql(
            match area_path {
                Some(a) => Some(a@),
                None => None,
            },
            strict,
            id_range,
        ),
{
    let mut q: String = BASE_WIQL.to_owned();
    let ghost base = q@;
    match area_path {
        Some(a) => {
            let area: String = trim(a);
            if !area.as_str().is_empty() {
                proof {
                    reveal_strlit("'");
                }
                let escaped: String = replace(area.as_str(), "'", "''");
                q.append(" AND [System.AreaPath] ");
                if strict {
                    q.append("=");
                } else {
                    q.append("UNDER");
                }
                q.append(" '");
                q.append(escaped.as_str());
                q.append("'");
            }
        },
        None => {},
    }
    let ghost area = match area_path {
        Some(a) => Some(a@),
        None => None,
    };
    assert(q@ =~= base + area_clause(area, strict));
    let ghost scoped = q@;
    match id_range {
        Some((lo, hi)) => {
            q.append(" AND [System.Id] >= ");
            q.append(format_i64(lo).as_str());
            q.append(" AND [System.Id] < ");
            q.append(format_i64(hi).as_str());
            q.append(" ORDER BY [System.Id] ASC");
        },
        None => {
            q.append(" ORDER BY [System.ChangedDate] DESC");
        },
    }
    assert(q@ =~= scoped + range_clause(id_range));
    q
}

// ---------------------------------------------------------------------------------------------
// The search by id range
// ---------------------------------------------------------------------------------------------

/// What came back for a query.
#[derive(Debug, Clone, PartialEq, Eq)]
pub enum Answer {
    Ids(Vec<i64>),
    /// The answer would be too long.
    TooMany,
    /// The query failed for another reason.
    Failed,
}

/// A half-open range of ids.
#[derive(Debug, Clone, Copy, PartialEq, Eq, Structural)]
pub struct IdRange {
    pub lo: i64,
    pub hi: i64,
}

/// Where a search stands.
#[derive(Debug, Clone, Copy, PartialEq, Eq, Structural)]
pub enum Phase {
    /// Looking for a ceiling above every id: asks for ids from the ceiling up.
    Ceiling,
    /// Collecting the ids below the ceiling, range by range.
    Collect,
    Done,
    Failed,
}

/// A search for all ids, by ranges short enough for an answer each.
#[derive(Debug)]
pub struct IdSearch {
    pub phase: Phase,
    pub ceiling: i64,
    /// Every id below this one has been asked for and answered.
    pub answered_below: i64,
    /// The ranges still to ask for, the next one last.
    pub pending: Vec<IdRange>,
    /// The ids found so far.
    pub found: Vec<i64>,
}

/// Whether ranges, the next one last, lie end to end from `lo` to `hi`.
pub open spec fn tiles(pending: Seq<IdRange>, lo: int, hi: int) -> bool
    decreases pending.len(),
{
    if pending.len() == 0 {
        lo == hi
    } else {
        let next = pending.last();
        next.lo == lo && next.lo < next.hi <= hi && tiles(pending.drop_last(), next.hi as int, hi)
    }
}

impl IdSearch {
    /// The ranges still to ask for are exactly the ids that no answer has covered yet.
    pub open spec fn wf(&self) -> bool {
        &&& FIRST_CEILING <= self.ceiling <= MAX_WIQL_ID
        &&& match self.phase {
            Phase::Ceiling => self.pending@.len() == 0 && self.found@.len() == 0
                && self.answered_below == 1,
            Phase::Collect => 1 <= self.answered_below < self.ceiling && self.pending@.len() > 0
                && tiles(self.pending@, self.answered_below as int, self.ceiling as int),
            Phase::Done => self.answered_below == self.ceiling && self.pending@.len() == 0,
            Phase::Failed => true,
        }
    }

    /// The range to ask for next.
    pub open spec fn next_range(&self) -> Option<IdRange> {
        match self.phase {
            Phase::Ceiling => Some(IdRange { lo: self.ceiling, hi: MAX_WIQL_ID }),
            Phase::Collect => if self.pending@.len() > 0 {
                Some(self.pending@.last())
            } else {
                None
            },
            _ => None,
        }
    }

    /// A search that has asked for nothing yet.
    pub fn start() -> (r: Self)
        ensures
            r.wf(),
            r.phase == Phase::Ceiling,
            r.ceiling == FIRST_CEILING,
    {
        IdSearch {
            phase: Phase::Ceiling,
            ceiling: FIRST_CEILING,
            answered_below: 1,
            pending: Vec::new(),
            found: Vec::new(),
        }
    }

    /// The range to ask for next; `None` where the search is over.
    pub fn next(&self) -> (r: Option<IdRange>)
        ensures
            r == self.next_range(),
    {
        match self.phase {
            Phase::Ceiling => Some(IdRange { lo: self.ceiling, hi: MAX_WIQL_ID }),
            Phase::Collect => {
                let n: usize = self.pending.len();
                if n > 0 {
                    Some(self.pending[n - 1])
                } else {
                    None
                }
            },
            _ => None,
        }
    }

    /// Takes the answer for the range asked for last.
    ///
    /// While the ceiling is sought, it is doubled until nothing lies above it. After that a range
    /// that is too long is halved, and an answered range adds its ids in order.
    pub fn take(self, answer: Answer) -> (r: Self)
        requires
            self.wf(),
            self.phase == Phase::Ceiling || self.phase == Phase::Collect,
        ensures
            r.wf(),
            self.phase == Phase::Ceiling ==> {
                let settled = (answer matches Answer::Ids(ids) && ids@.len() == 0) || self.ceiling
                    >= MAX_WIQL_ID;
                if settled {
                    &&& r.phase == Phase::Collect
                    &&& r.ceiling == self.ceiling
                    &&& r.answered_below == 1
                    &&& r.pending@ == seq![IdRange { lo: 1, hi: self.ceiling }]
                    &&& r.found@.len() == 0
                } else {
                    &&& r.phase == Phase::Ceiling
                    &&& r.ceiling == (if 2 * self.ceiling <= MAX_WIQL_ID {
                        2 * self.ceiling
                    } else {
                        MAX_WIQL_ID as int
                    })
                    &&& r.answered_below == 1
                    &&& r.pending@.len() == 0
                    &&& r.found@.len() == 0
                }
            },
            self.phase == Phase::Collect ==> {
                let range = self.pending@.last();
                let rest = self.pending@.drop_last();
                &&& r.ceiling == self.ceiling
                &&& match answer {
                    Answer::Ids(ids) => {
                        &&& r.found@ == self.found@ + ids@
                        &&& r.answered_below == range.hi
                        &&& r.pending@ == rest
                        &&& r.phase == (if rest.len() == 0 {
                            Phase::Done
                        } else {
                            Phase::Collect
                        })
                    },
                    Answer::TooMany => if range.hi - range.lo > 1 {
                        let mid = (range.lo + (range.hi - range.lo) / 2) as i64;
                        &&& r.found@ == self.found@
                        &&& r.answered_below == self.answered_below
                        &&& r.pending@ == rest.push(IdRange { lo: mid, hi: range.hi }).push(
                            IdRange { lo: range.lo, hi: mid },
                        )
                        &&& r.phase == Phase::Collect
                    } else {
                        r.phase == Phase::Failed
                    },
                    Answer::Failed => r.phase == Phase::Failed,
                }
            },
    {
        proof {
            reveal_with_fuel(tiles, 3);
        }
        let mut r: IdSearch = self;
        match r.phase {
            Phase::Ceiling => {
                let empty_above: bool = match &answer {
                    Answer::Ids(ids) => ids.len() == 0,
                    _ => false,
                };
                if empty_above || r.ceiling >= MAX_WIQL_ID {
                    r.phase = Phase::Collect;
                    r.pending.push(IdRange { lo: 1, hi: r.ceiling });
                    proof {
                        assert(r.pending@ =~= seq![IdRange { lo: 1, hi: self.ceiling }]);
                        assert(r.pending@.drop_last() =~= Seq::<IdRange>::empty());
                    }
                } else if r.ceiling <= MAX_WIQL_ID / 2 {
                    r.ceiling = r.ceiling * 2;
                } else {
                    r.ceiling = MAX_WIQL_ID;
                }
                r
            },
            _ => {
                let n: usize = r.pending.len();
                let range: IdRange = r.pending[n - 1];
                let ghost rest = r.pending@.drop_last();
                match answer {
                    Answer::Ids(ids) => {
                        let mut ids: Vec<i64> = ids;
                        r.found.append(&mut ids);
                        r.pending.pop();
                        assert(r.pending@ =~= rest);
                        r.answered_below = range.hi;
                        if r.pending.len() == 0 {
                            r.phase = Phase::Done;
                        } else {
                            assert(rest.last().lo == range.hi);
                        }
                        r
                    },
                    Answer::TooMany => {
                        if range.hi - range.lo > 1 {
                            let mid: i64 = range.lo + (range.hi - range.lo) / 2;
                            r.pending.pop();
                            r.pending.push(IdRange { lo: mid, hi: range.hi });
                            r.pending.push(IdRange { lo: range.lo, hi: mid });
                            proof {
                                let upper = rest.push(IdRange { lo: mid, hi: range.hi });
                                let both = upper.push(IdRange { lo: range.lo, hi: mid });
                                assert(r.pending@ =~= both);
                                assert(both.drop_last() =~= upper);
                                assert(upper.drop_last() =~= rest);
                                assert(tiles(upper, mid as int, self.ceiling as int));
                                assert(tiles(both, range.lo as int, self.ceiling as int));
                            }
                            r
                        } else {
                            r.phase = Phase::Failed;
                            r
                        }
                    },
                    Answer::Failed => {
                        r.phase = Phase::Failed;
                        r
                    },
                }
            },
        }
    }
}

proof fn lemma_tiles_within(pending: Seq<IdRange>, lo: int, hi: int, i: int)
    requires
        tiles(pending, lo, hi),
        0 <= i < pending.len(),
    ensures
        lo <= pending[i].lo < pending[i].hi <= hi,
    decreases pending.len(),
{
    if i < pending.len() - 1 {
        lemma_tiles_within(pending.drop_last(), pending.last().hi as int, hi, i);
        assert(pending.drop_last()[i] == pending[i]);
    }
}

/// Every bound that a search asks with fits in 32 bits, and is not negative.
pub proof fn law_bounds_fit(s: IdSearch)
    requires
        s.wf(),
    ensures
        s.next_range() matches Some(range) ==> 1 <= range.lo <= range.hi <= MAX_WIQL_ID,
{
    if s.phase == Phase::Collect && s.pending@.len() > 0 {
        lemma_tiles_within(
            s.pending@,
            s.answered_below as int,
            s.ceiling as int,
            s.pending@.len() - 1,
        );
    }
}

/// A collecting search asks for the lowest ids that are not answered yet: it leaves no gap below
/// the range that it asks for, and asks for no id twice.
pub proof fn law_no_gap_no_overlap(s: IdSearch)
    requires
        s.wf(),
        s.phase == Phase::Collect,
    ensures
        s.next_range() is Some,
        s.next_range()->0.lo == s.answered_below,
        s.next_range()->0.lo < s.next_range()->0.hi <= s.ceiling,
{
    lemma_tiles_within(
        s.pending@,
        s.answered_below as int,
        s.ceiling as int,
        s.pending@.len() - 1,
    );
}

/// A search that is done has answers for every id from 1 to below its ceiling.
pub proof fn law_done_covers_all(s: IdSearch)
    requires
        s.wf(),
        s.phase == Phase::Done,
    ensures
        s.answered_below == s.ceiling,
        s.next_range() is None,
{
}

// ---------------------------------------------------------------------------------------------
// Batches and pages
// ---------------------------------------------------------------------------------------------

/// How many items one batch may name.
pub const BATCH_LIMIT: usize = 200;

/// The batches put together.
pub open spec fn flattened(batches: Seq<Vec<i64>>) -> Seq<i64>
    decreases batches.len(),
{
    if batches.len() == 0 {
        Seq::empty()
    } else {
        flattened(batches.drop_last()) + batches.last()@
    }
}

/// The ids in batches: full ones, and the rest in the last.
pub fn batches(ids: &Vec<i64>) -> (r: Vec<Vec<i64>>)
    ensures
        flattened(r@) == ids@,
        forall|i: int| 0 <= i < r@.len() ==> 0 < (#[trigger] r@[i])@.len() <= BATCH_LIMIT,
        forall|i: int| 0 <= i < r@.len() - 1 ==> (#[trigger] r@[i])@.len() == BATCH_LIMIT,
{
    let mut r: Vec<Vec<i64>> = Vec::new();
    let mut i: usize = 0;
    while i < ids.len()
        invariant
            i <= ids@.len(),
            flattened(r@) == ids@.take(i as int),
            forall|k: int| 0 <= k < r@.len() ==> 0 < (#[trigger] r@[k])@.len() <= BATCH_LIMIT,
            i < ids@.len() ==> forall|k: int|
                0 <= k < r@.len() ==> (#[trigger] r@[k])@.len() == BATCH_LIMIT,
            forall|k: int| 0 <= k < r@.len() - 1 ==> (#[trigger] r@[k])@.len() == BATCH_LIMIT,
        decreases ids@.len() - i,
    {
        let ghost start = i as int;
        let mut batch: Vec<i64> = Vec::new();
        while i < ids.len() && batch.len() < BATCH_LIMIT
            invariant
                0 <= start <= i <= ids@.len(),
                batch@.len() <= BATCH_LIMIT,
                batch@ == ids@.subrange(start, i as int),
            decreases ids@.len() - i,
        {
            batch.push(ids[i]);
            i += 1;
            assert(batch@ =~= ids@.subrange(start, i as int));
        }
        let ghost before = r@;
        let ghost added = batch;
        r.push(batch);
        proof {
            assert(r@.drop_last() =~= before);
            assert(r@.last() == added);
            assert(ids@.take(start) + added@ =~= ids@.take(i as int));
            assert forall|k: int| 0 <= k < r@.len() implies 0 < (#[trigger] r@[k])@.len()
                <= BATCH_LIMIT by {
                if k < before.len() {
                    assert(r@[k] == before[k]);
                }
            }
            assert forall|k: int| 0 <= k < r@.len() - 1 implies (#[trigger] r@[k])@.len()
                == BATCH_LIMIT by {
                assert(r@[k] == before[k]);
            }
            if i < ids@.len() {
                assert forall|k: int| 0 <= k < r@.len() implies (#[trigger] r@[k])@.len()
                    == BATCH_LIMIT by {
                    if k < before.len() {
                        assert(r@[k] == before[k]);
                    }
                }
            }
        }
    }
    assert(ids@.take(i as int) =~= ids@);
    r
}

/// How many active pull requests one page holds.
pub const PR_PAGE: u32 = 100;

/// How many closed pull requests of each kind are asked for.
pub const PR_CLOSED_CAP: u32 = 200;

/// Where the walk over pull requests stands: the page to ask for.
#[derive(Debug, Clone, Copy, PartialEq, Eq, Structural)]
pub enum PrWalk {
    Active { skip: u32 },
    Completed,
    Abandoned,
    Done,
}

/// The status, the size and the offset of the page to ask for.
pub open spec fn page_of(w: PrWalk) -> Option<(Seq<char>, u32, u32)> {
    match w {
        PrWalk::Active { skip } => Some(("active"@, PR_PAGE, skip)),
        PrWalk::Completed => Some(("completed"@, PR_CLOSED_CAP, 0)),
        PrWalk::Abandoned => Some(("abandoned"@, PR_CLOSED_CAP, 0)),
        PrWalk::Done => None,
    }
}

/// The query for a page of pull requests.
pub open spec fn page_query(status: Seq<char>, top: u32, skip: u32) -> Seq<char> {
    "searchCriteria.status="@ + status + "&$top="@ + signed_decimal(top as int) + "&$skip="@
        + signed_decimal(skip as int)
}

/// Where the walk stands after a page of `len` pull requests.
pub open spec fn led_on(w: PrWalk, len: nat) -> PrWalk {
    match w {
        PrWalk::Active { skip } => if len == PR_PAGE {
            PrWalk::Active { skip: (skip + PR_PAGE) as u32 }
        } else {
            PrWalk::Completed
        },
        PrWalk::Completed => PrWalk::Abandoned,
        PrWalk::Abandoned => PrWalk::Done,
        PrWalk::Done => PrWalk::Done,
    }
}

impl PrWalk {
    /// A walk that has asked for nothing yet.
    pub fn start() -> (r: Self)
        ensures
            r == (PrWalk::Active { skip: 0 }),
    {
        PrWalk::Active { skip: 0 }
    }

    /// The query for the page to ask for; `None` where the walk is over.
    pub fn query(&self) -> (r: Option<String>)
        ensures
            opt_view(r) == (match page_of(*self) {
                Some((status, top, skip)) => Some(page_query(status, top, skip)),
                None => None,
            }),
    {
        let (status, top, skip): (&str, u32, u32) = match self {
            PrWalk::Active { skip } => ("active", PR_PAGE, *skip),
            PrWalk::Completed => ("completed", PR_CLOSED_CAP, 0),
            PrWalk::Abandoned => ("abandoned", PR_CLOSED_CAP, 0),
            PrWalk::Done => {
                return None;
            },
        };
        let mut q: String = cat3("searchCriteria.status=", status, "&$top=");
        q.append(format_i64(top as i64).as_str());
        q.append("&$skip=");
        q.append(format_i64(skip as i64).as_str());
        Some(q)
    }

    /// The walk after a page of `len` pull requests: full pages of active ones lead on, a short one
    /// ends them; then the completed and the abandoned, one page each.
    pub fn after_page(self, len: usize) -> (r: Self)
        requires
            self matches PrWalk::Active { skip } ==> skip <= u32::MAX - PR_PAGE,
        ensures
            r == led_on(self, len as nat),
    {
        match self {
            PrWalk::Active { skip } => if len == PR_PAGE as usize {
                PrWalk::Active { skip: skip + PR_PAGE }
            } else {
                PrWalk::Completed
            },
            PrWalk::Completed => PrWalk::Abandoned,
            PrWalk::Abandoned => PrWalk::Done,
            PrWalk::Done => PrWalk::Done,
        }
    }
}

} // verus!
