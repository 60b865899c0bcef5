//! The order of texts, by code point, character by character; and membership in lists of ids.
use crate::text::{chars_of, views};
use vstd::prelude::*;

pub mod laws;

verus! {

/// Whether `a` comes before `b`: at the first position where they differ `a` has the smaller
/// code point, or `a` is a proper prefix of `b`.
pub open spec fn before(a: Seq<char>, b: Seq<char>) -> bool
    decreases a.len(),
{
    if b.len() == 0 {
        false
    } else if a.len() == 0 {
        true
    } else if a[0] == b[0] {
        before(a.skip(1), b.skip(1))
    } else {
        (a[0] as int) < (b[0] as int)
    }
}

/// The code point of a character.
fn code(c: char) -> (r: u32)
    ensures
        r as int == c as int,
{
    c as u32
}

/// Whether `a` comes before `b`.
pub fn comes_before(a: &str, b: &str) -> (r: bool)
    ensures
        r == before(a@, b@),
{
    let ac: Vec<char> = chars_of(a);
    let bc: Vec<char> = chars_of(b);
    let mut i: usize = 0;
    assert(a@.skip(0) =~= a@);
    assert(b@.skip(0) =~= b@);
    while i < ac.len() && i < bc.len()
        invariant
            ac@ == a@,
            bc@ == b@,
            i <= a@.len(),
            i <= b@.len(),
            before(a@, b@) == before(a@.skip(i as int), b@.skip(i as int)),
        decreases a@.len() - i,
    {
        let x: char = ac[i];
        let y: char = bc[i];
        assert(a@.skip(i as int)[0] == x);
        assert(b@.skip(i as int)[0] == y);
        if x != y {
            return code(x) < code(y);
        }
        assert(a@.skip(i as int).skip(1) =~= a@.skip(i + 1));
        assert(b@.skip(i as int).skip(1) =~= b@.skip(i + 1));
        i += 1;
    }
    i < bc.len()
}

pub proof fn lemma_before_irreflexive(a: Seq<char>)
    ensures
        !before(a, a),
    decreases a.len(),
{
    if a.len() > 0 {
        lemma_before_irreflexive(a.skip(1));
    }
}

pub proof fn lemma_before_transitive(a: Seq<char>, b: Seq<char>, c: Seq<char>)
    requires
        before(a, b),
        before(b, c),
    ensures
        before(a, c),
    decreases a.len(),
{
    if a.len() > 0 && b.len() > 0 && c.len() > 0 && a[0] == b[0] && b[0] == c[0] {
        lemma_before_transitive(a.skip(1), b.skip(1), c.skip(1));
    }
}

pub proof fn lemma_before_total(a: Seq<char>, b: Seq<char>)
    ensures
        a == b || before(a, b) || before(b, a),
    decreases a.len(),
{
    if a.len() > 0 && b.len() > 0 && a[0] == b[0] {
        lemma_before_total(a.skip(1), b.skip(1));
        if a.skip(1) == b.skip(1) {
            assert(a =~= seq![a[0]] + a.skip(1));
            assert(b =~= seq![b[0]] + b.skip(1));
        }
    } else if a.len() == 0 && b.len() == 0 {
        assert(a =~= b);
    } else if a.len() > 0 && b.len() > 0 {
        assert(a[0] as int != b[0] as int);
    }
}

/// Whether the texts of a list are in strictly ascending order; so none occurs twice.
pub open spec fn ascending(list: Seq<Seq<char>>) -> bool {
    forall|i: int, j: int| 0 <= i < j < list.len() ==> before(#[trigger] list[i], #[trigger] list[j])
}

/// Where `x` belongs in an ascending list: after everything that comes before it.
pub open spec fn is_slot(list: Seq<Seq<char>>, x: Seq<char>, at: int) -> bool {
    &&& 0 <= at <= list.len()
    &&& forall|i: int| 0 <= i < at ==> before(#[trigger] list[i], x)
    &&& forall|i: int| at <= i < list.len() ==> !before(#[trigger] list[i], x)
}

/// The position at which `x` belongs in an ascending list.
pub fn slot(list: &Vec<String>, x: &str) -> (at: usize)
    requires
        ascending(views(list@)),
    ensures
        is_slot(views(list@), x@, at as int),
{
    let mut at: usize = 0;
    while at < list.len() && comes_before(list[at].as_str(), x)
        invariant
            at <= list@.len(),
            forall|i: int| 0 <= i < at ==> before(#[trigger] views(list@)[i], x@),
        decreases list@.len() - at,
    {
        at += 1;
    }
    assert forall|i: int| at <= i < list@.len() implies !before(#[trigger] views(list@)[i], x@) by {
        if at < i && before(views(list@)[i], x@) {
            lemma_before_transitive(views(list@)[at as int], views(list@)[i], x@);
        }
    }
    at
}

/// Adds `x` to an ascending list, unless it holds it already.
pub fn insert_ascending(list: &mut Vec<String>, x: String)
    requires
        ascending(views(old(list)@)),
    ensures
        ascending(views(final(list)@)),
        views(final(list)@).to_set() == views(old(list)@).to_set().insert(x@),
{
    let ghost before_list = views(list@);
    let at: usize = slot(list, x.as_str());
    if at < list.len() && crate::text::same(list[at].as_str(), x.as_str()) {
        proof {
            assert(before_list.contains(x@)) by {
                assert(before_list[at as int] == x@);
            }
            assert(before_list.to_set() =~= before_list.to_set().insert(x@));
        }
        return ;
    }
    let ghost text = x@;
    list.insert(at, x);
    proof {
        let after = views(list@);
        assert(after =~= before_list.insert(at as int, text));
        assert forall|i: int, j: int| 0 <= i < j < after.len() implies before(
            #[trigger] after[i],
            #[trigger] after[j],
        ) by {
            let bi = if i < at {
                i
            } else {
                i - 1
            };
            let bj = if j < at {
                j
            } else {
                j - 1
            };
            if i == at {
                lemma_before_total(before_list[bj], text);
                if before_list[bj] == text {
                    if at < bj {
                        assert(before(before_list[at as int], before_list[bj]));
                    }
                }
            } else if j == at {
                assert(before(before_list[bi], text));
            } else {
                assert(before(before_list[bi], before_list[bj]));
            }
        }
        assert(after.to_set() =~= before_list.to_set().insert(text)) by {
            assert forall|t: Seq<char>|
                after.to_set().contains(t) == before_list.to_set().insert(text).contains(t) by {
                if after.contains(t) {
                    let k = choose|k: int| 0 <= k < after.len() && after[k] == t;
                    if k < at {
                        assert(before_list[k] == t);
                    } else if k > at {
                        assert(before_list[k - 1] == t);
                    }
                }
                if before_list.contains(t) {
                    let k = choose|k: int| 0 <= k < before_list.len() && before_list[k] == t;
                    if k < at {
                        assert(after[k] == t);
                    } else {
                        assert(after[k + 1] == t);
                    }
                }
                if t == text {
                    assert(after[at as int] == t);
                }
            }
        }
    }
}

/// Two ascending lists of the same texts are the same list.
pub proof fn lemma_ascending_unique(a: Seq<Seq<char>>, b: Seq<Seq<char>>)
    requires
        ascending(a),
        ascending(b),
        a.to_set() == b.to_set(),
    ensures
        a == b,
    decreases a.len(),
{
    if a.len() == 0 {
        if b.len() > 0 {
            assert(b.to_set().contains(b[0]));
            assert(a.contains(b[0]));
        }
        assert(a =~= b);
    } else {
        assert(a.to_set().contains(a.last()));
        assert(b.contains(a.last()));
        let la = a.last();
        let lb = b.last();
        assert(b.to_set().contains(lb));
        assert(a.contains(lb));
        let i = choose|i: int| 0 <= i < a.len() && a[i] == lb;
        let j = choose|j: int| 0 <= j < b.len() && b[j] == la;
        if la != lb {
            assert(before(lb, la)) by {
                assert(before(a[i], a[a.len() - 1]));
            }
            assert(before(la, lb)) by {
                assert(before(b[j], b[b.len() - 1]));
            }
            lemma_before_transitive(la, lb, la);
            lemma_before_irreflexive(la);
        }
        let a2 = a.drop_last();
        let b2 = b.drop_last();
        assert(ascending(a2)) by {
            assert forall|i: int, j: int| 0 <= i < j < a2.len() implies before(
                #[trigger] a2[i],
                #[trigger] a2[j],
            ) by {
                assert(before(a[i], a[j]));
            }
        }
        assert(ascending(b2)) by {
            assert forall|i: int, j: int| 0 <= i < j < b2.len() implies before(
                #[trigger] b2[i],
                #[trigger] b2[j],
            ) by {
                assert(before(b[i], b[j]));
            }
        }
        assert(a2.to_set() =~= b2.to_set()) by {
            assert forall|t: Seq<char>| a2.to_set().contains(t) == b2.to_set().contains(t) by {
                if a2.contains(t) {
                    let k = choose|k: int| 0 <= k < a2.len() && a2[k] == t;
                    assert(before(a[k], a[a.len() - 1]));
                    lemma_before_irreflexive(la);
                    assert(t != la);
                    assert(a.to_set().contains(a[k]));
                    assert(b.contains(t));
                    let m = choose|m: int| 0 <= m < b.len() && b[m] == t;
                    assert(m < b.len() - 1);
                    assert(b2[m] == t);
                }
                if b2.contains(t) {
                    let k = choose|k: int| 0 <= k < b2.len() && b2[k] == t;
                    assert(before(b[k], b[b.len() - 1]));
                    lemma_before_irreflexive(lb);
                    assert(t != lb);
                    assert(b.to_set().contains(b[k]));
                    assert(a.contains(t));
                    let m = choose|m: int| 0 <= m < a.len() && a[m] == t;
                    assert(m < a.len() - 1);
                    assert(a2[m] == t);
                }
            }
        }
        lemma_ascending_unique(a2, b2);
        assert(a =~= a2.push(la));
        assert(b =~= b2.push(lb));
    }
}

/// Whether a list of ids holds `id`.
pub fn holds_id(ids: &Vec<i64>, id: i64) -> (r: bool)
    ensures
        r == ids@.contains(id),
{
    let mut i: usize = 0;
    while i < ids.len()
        invariant
            i <= ids@.len(),
            forall|j: int| 0 <= j < i ==> ids@[j] != id,
        decreases ids@.len() - i,
    {
        if ids[i] == id {
            return true;
        }
        i += 1;
    }
    false
}

} // verus!
