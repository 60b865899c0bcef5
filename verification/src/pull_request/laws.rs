//! What the statuses of pull requests promise.
use super::{pr_status_of, pr_status_slug, PrStatus};
use vstd::prelude::*;

verus! {

/// A text stands for a known status only when it is the status's own slug; any other is unknown.
pub proof fn law_other_texts_are_unknown(slug: Seq<char>)
    ensures
        pr_status_of(slug) != PrStatus::Unknown ==> pr_status_slug(pr_status_of(slug)) == slug,
        slug != "active"@ && slug != "completed"@ && slug != "abandoned"@ ==> pr_status_of(slug)
            == PrStatus::Unknown,
        pr_status_slug(PrStatus::Active) == "active"@,
        pr_status_slug(PrStatus::Completed) == "completed"@,
        pr_status_slug(PrStatus::Abandoned) == "abandoned"@,
        pr_status_slug(PrStatus::Unknown) == "unknown"@,
{
}

} // verus!
