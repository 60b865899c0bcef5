//! What the order of texts promises.
use super::{before, lemma_before_irreflexive, lemma_before_total, lemma_before_transitive};
use vstd::prelude::*;

verus! {

/// Two texts that agree up to a place where they differ are ordered by their characters there.
pub proof fn law_first_difference_decides(a: Seq<char>, b: Seq<char>, k: int)
    requires
        0 <= k < a.len(),
        k < b.len(),
        a[k] != b[k],
        forall|i: int| 0 <= i < k ==> #[trigger] a[i] == b[i],
    ensures
        before(a, b) <==> (a[k] as int) < (b[k] as int),
        before(b, a) <==> (a[k] as int) > (b[k] as int),
    decreases k,
{
    if k > 0 {
        assert(a[0] == b[0]);
        let x = a.skip(1);
        let y = b.skip(1);
        assert forall|i: int| 0 <= i < k - 1 implies #[trigger] x[i] == y[i] by {
            assert(a[i + 1] == b[i + 1]);
        }
        law_first_difference_decides(x, y, k - 1);
    }
}

/// A text comes before every longer one that starts with it.
pub proof fn law_shorter_comes_first(a: Seq<char>, rest: Seq<char>)
    requires
        rest.len() > 0,
    ensures
        before(a, a + rest),
        !before(a + rest, a),
    decreases a.len(),
{
    if a.len() > 0 {
        law_shorter_comes_first(a.skip(1), rest);
        assert((a + rest).skip(1) =~= a.skip(1) + rest);
    } else {
        assert(a + rest =~= rest);
    }
}

/// Of two different texts exactly one comes before the other, and what comes before the earlier of
/// them comes before the later one too.
pub proof fn law_order_is_total(a: Seq<char>, b: Seq<char>, c: Seq<char>)
    ensures
        a != b <==> before(a, b) || before(b, a),
        !(before(a, b) && before(b, a)),
        before(a, b) && before(b, c) ==> before(a, c),
{
    lemma_before_irreflexive(a);
    lemma_before_total(a, b);
    if before(a, b) && before(b, a) {
        lemma_before_transitive(a, b, a);
    }
    if before(a, b) && before(b, c) {
        lemma_before_transitive(a, b, c);
    }
}

} // verus!
