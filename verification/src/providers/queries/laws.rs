//! What the queries promise.
use super::{
    area_clause, led_on, page_of, page_query, range_clause, result_limit, wiql, PrWalk,
};
use crate::number::signed_decimal;
use crate::providers::error::ProviderError;
use crate::text::{has_prefix, has_suffix, occurs, replaced, trimmed};
use vstd::prelude::*;

verus! {

/// A query asks for the items of the project that are not removed; without an area and a range it
/// asks for nothing narrower.
pub proof fn law_query_leaves_removed_items_out(
    area: Option<Seq<char>>,
    strict: bool,
    range: Option<(i64, i64)>,
)
    ensures
        has_prefix(
            wiql(area, strict, range),
            "SELECT [System.Id] FROM WorkItems WHERE [System.TeamProject] = @project AND [System.State] <> 'Removed'"@,
        ),
        wiql(None, strict, None)
            == "SELECT [System.Id] FROM WorkItems WHERE [System.TeamProject] = @project AND [System.State] <> 'Removed'"@
            + " ORDER BY [System.ChangedDate] DESC"@,
{
    let base = super::BASE_WIQL@;
    let q = wiql(area, strict, range);
    assert(q.take(base.len() as int) =~= base);
    assert(wiql(None, strict, None) =~= base + " ORDER BY [System.ChangedDate] DESC"@);
}

/// An area narrows a query by one clause, with its quotes doubled: to the area alone where it is
/// strict, else to everything under it. A blank area narrows nothing.
pub proof fn law_area_narrows(area: Seq<char>, range: Option<(i64, i64)>, strict: bool)
    ensures
        trimmed(area).len() == 0 ==> wiql(Some(area), strict, range) == wiql(None, strict, range),
        trimmed(area).len() > 0 ==> area_clause(Some(area), true) == " AND [System.AreaPath] = '"@
            + replaced(trimmed(area), "'"@, "''"@) + "'"@,
        trimmed(area).len() > 0 ==> area_clause(Some(area), false)
            == " AND [System.AreaPath] UNDER '"@ + replaced(trimmed(area), "'"@, "''"@) + "'"@,
        wiql(Some(area), strict, range) == super::BASE_WIQL@ + area_clause(Some(area), strict)
            + range_clause(range),
{
    reveal_strlit(" AND [System.AreaPath] ");
    reveal_strlit("=");
    reveal_strlit("UNDER");
    reveal_strlit(" '");
    reveal_strlit(" AND [System.AreaPath] = '");
    reveal_strlit(" AND [System.AreaPath] UNDER '");
    assert(" AND [System.AreaPath] "@ + "="@ + " '"@ =~= " AND [System.AreaPath] = '"@);
    assert(" AND [System.AreaPath] "@ + "UNDER"@ + " '"@ =~= " AND [System.AreaPath] UNDER '"@);
}

/// A range narrows a query to the ids from its start to below its end, and puts them in order.
pub proof fn law_range_narrows(area: Option<Seq<char>>, strict: bool, lo: i64, hi: i64)
    ensures
        has_suffix(
            wiql(area, strict, Some((lo, hi))),
            " AND [System.Id] >= "@ + signed_decimal(lo as int) + " AND [System.Id] < "@
                + signed_decimal(hi as int) + " ORDER BY [System.Id] ASC"@,
        ),
{
    let q = wiql(area, strict, Some((lo, hi)));
    let tail = " AND [System.Id] >= "@ + signed_decimal(lo as int) + " AND [System.Id] < "@
        + signed_decimal(hi as int) + " ORDER BY [System.Id] ASC"@;
    assert(q.skip(q.len() - tail.len()) =~= tail);
}

/// An answer was too long exactly when it was refused as a bad request for that reason.
pub proof fn law_too_long_an_answer(e: ProviderError)
    ensures
        match e {
            ProviderError::Api { status, url: _, body } => result_limit(e) <==> status == 400 && (
            occurs(body@, "VS402337"@) || occurs(body@, "size limit"@)),
            _ => !result_limit(e),
        },
{
}

/// A page that is full leads on to the page of the same kind that starts where it ends; the last
/// page of active pull requests leads on to the completed ones, these to the abandoned ones, and
/// there the walk ends.
pub proof fn law_pages_follow_each_other(w: PrWalk, len: nat)
    requires
        w matches PrWalk::Active { skip } ==> skip <= u32::MAX - 100,
    ensures
        ({
            let after = page_of(led_on(w, len));
            match page_of(w) {
                None => after is None,
                Some((status, top, skip)) => {
                    &&& status == "active"@ && len == top ==> after == Some(
                        ("active"@, top, (skip + top) as u32),
                    )
                    &&& status == "active"@ && len != top ==> after == Some(
                        ("completed"@, 200u32, 0u32),
                    )
                    &&& status == "completed"@ ==> after == Some(("abandoned"@, 200u32, 0u32))
                    &&& status == "abandoned"@ ==> after is None
                },
            }
        }),
{
    reveal_strlit("active");
    reveal_strlit("completed");
    reveal_strlit("abandoned");
    assert("active"@.len() == 6);
    assert("completed"@[0] == 'c');
    assert("abandoned"@[0] == 'a');
    assert("abandoned"@.len() == 9);
}

/// A page is asked for by its status, its size and its offset, as they are.
pub proof fn law_page_is_asked_for(status: Seq<char>, top: u32, skip: u32)
    ensures
        page_query(status, top, skip) == "searchCriteria.status="@ + status + (
        "&$top="@ + signed_decimal(top as int)) + ("&$skip="@ + signed_decimal(skip as int)),
{
    assert(page_query(status, top, skip) =~= "searchCriteria.status="@ + status + (
    "&$top="@ + signed_decimal(top as int)) + ("&$skip="@ + signed_decimal(skip as int)));
}

} // verus!
