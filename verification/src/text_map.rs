//! Maps from texts to texts, in the order of their keys.
use crate::order::{
    ascending, before, is_slot, lemma_before_irreflexive, lemma_before_total, slot,
};
use crate::text::{opt_view, same, views};
use vstd::prelude::*;

verus! {

/// A map from texts to texts, in the order of its keys.
#[derive(Debug, Clone)]
pub struct TextMap {
    keys: Vec<String>,
    values: Vec<String>,
}

/// A place of a key.
pub open spec fn place_of(keys: Seq<Seq<char>>, k: Seq<char>) -> int {
    choose|i: int| 0 <= i < keys.len() && keys[i] == k
}

/// The map that pairs keys with the values at the same places.
pub open spec fn paired(keys: Seq<Seq<char>>, values: Seq<Seq<char>>) -> Map<Seq<char>, Seq<char>> {
    Map::new(
        |k: Seq<char>| keys.contains(k),
        |k: Seq<char>| values[place_of(keys, k)],
    )
}

impl View for TextMap {
    type V = Map<Seq<char>, Seq<char>>;

    closed spec fn view(&self) -> Map<Seq<char>, Seq<char>> {
        paired(views(self.keys@), views(self.values@))
    }
}

proof fn lemma_place_unique(keys: Seq<Seq<char>>, i: int, j: int)
    requires
        ascending(keys),
        0 <= i < keys.len(),
        0 <= j < keys.len(),
        keys[i] == keys[j],
    ensures
        i == j,
{
    lemma_before_irreflexive(keys[i]);
    if i < j {
        assert(before(keys[i], keys[j]));
    } else if j < i {
        assert(before(keys[j], keys[i]));
    }
}

proof fn lemma_paired_at(keys: Seq<Seq<char>>, values: Seq<Seq<char>>, i: int)
    requires
        ascending(keys),
        keys.len() == values.len(),
        0 <= i < keys.len(),
    ensures
        paired(keys, values).dom().contains(keys[i]),
        paired(keys, values)[keys[i]] == values[i],
{
    let k = keys[i];
    assert(keys.contains(k));
    lemma_place_unique(keys, i, place_of(keys, k));
}

proof fn lemma_paired_set(
    keys: Seq<Seq<char>>,
    values: Seq<Seq<char>>,
    at: int,
    v: Seq<char>,
)
    requires
        ascending(keys),
        keys.len() == values.len(),
        0 <= at < keys.len(),
    ensures
        paired(keys, values.update(at, v)) == paired(keys, values).insert(keys[at], v),
{
    let a = paired(keys, values.update(at, v));
    let b = paired(keys, values).insert(keys[at], v);
    assert(a.dom() =~= b.dom()) by {
        lemma_paired_at(keys, values, at);
    }
    assert forall|k: Seq<char>| a.dom().contains(k) implies a[k] == b[k] by {
        let i = choose|i: int| 0 <= i < keys.len() && keys[i] == k;
        lemma_paired_at(keys, values.update(at, v), i);
        lemma_paired_at(keys, values, i);
        if k == keys[at] {
            lemma_place_unique(keys, i, at);
        }
    }
    assert(a =~= b);
}

proof fn lemma_insert_ascending(keys: Seq<Seq<char>>, at: int, x: Seq<char>)
    requires
        ascending(keys),
        is_slot(keys, x, at),
        at < keys.len() ==> keys[at] != x,
    ensures
        ascending(keys.insert(at, x)),
        !keys.contains(x),
{
    let all = keys.insert(at, x);
    assert forall|i: int| at <= i < keys.len() implies before(x, #[trigger] keys[i]) by {
        lemma_before_total(x, keys[i]);
        if keys[i] == x {
            if i > at {
                assert(before(keys[at], keys[i]));
            }
        }
    }
    assert forall|i: int, j: int| 0 <= i < j < all.len() implies before(
        #[trigger] all[i],
        #[trigger] all[j],
    ) by {
        let a = if i < at {
            i
        } else {
            i - 1
        };
        let b = if j < at {
            j
        } else {
            j - 1
        };
        if i == at {
            assert(all[j] == keys[b]);
        } else if j == at {
            assert(all[i] == keys[a]);
        } else {
            assert(all[i] == keys[a]);
            assert(all[j] == keys[b]);
        }
    }
    if keys.contains(x) {
        let i = choose|i: int| 0 <= i < keys.len() && keys[i] == x;
        lemma_before_irreflexive(x);
        if i < at {
            assert(before(keys[i], x));
        } else {
            assert(before(x, keys[i]));
        }
    }
}

proof fn lemma_paired_insert(
    keys: Seq<Seq<char>>,
    values: Seq<Seq<char>>,
    at: int,
    x: Seq<char>,
    v: Seq<char>,
)
    requires
        ascending(keys),
        keys.len() == values.len(),
        is_slot(keys, x, at),
        at < keys.len() ==> keys[at] != x,
    ensures
        ascending(keys.insert(at, x)),
        paired(keys.insert(at, x), values.insert(at, v)) == paired(keys, values).insert(x, v),
{
    lemma_insert_ascending(keys, at, x);
    let ks = keys.insert(at, x);
    let vs = values.insert(at, v);
    let a = paired(ks, vs);
    let b = paired(keys, values).insert(x, v);
    assert(ks[at] == x);
    assert forall|k: Seq<char>| a.dom().contains(k) <==> b.dom().contains(k) by {
        if ks.contains(k) && k != x {
            let i = choose|i: int| 0 <= i < ks.len() && ks[i] == k;
            if i < at {
                assert(keys[i] == k);
            } else {
                assert(keys[i - 1] == k);
            }
        }
        if keys.contains(k) {
            let i = choose|i: int| 0 <= i < keys.len() && keys[i] == k;
            if i < at {
                assert(ks[i] == k);
            } else {
                assert(ks[i + 1] == k);
            }
        }
    }
    assert forall|k: Seq<char>| a.dom().contains(k) implies a[k] == b[k] by {
        let i = choose|i: int| 0 <= i < ks.len() && ks[i] == k;
        lemma_paired_at(ks, vs, i);
        if i == at {
            assert(vs[i] == v);
        } else if i < at {
            assert(keys[i] == k);
            lemma_paired_at(keys, values, i);
        } else {
            assert(keys[i - 1] == k);
            lemma_paired_at(keys, values, i - 1);
        }
    }
    assert(a =~= b);
}

impl TextMap {
    /// Whether the keys are in order, and each has a value.
    pub closed spec fn wf(&self) -> bool {
        ascending(views(self.keys@)) && self.keys@.len() == self.values@.len()
    }

    /// The keys, in order.
    pub closed spec fn keys_in_order(&self) -> Seq<Seq<char>> {
        views(self.keys@)
    }

    /// The empty map.
    pub fn new() -> (r: Self)
        ensures
            r.wf(),
            r@ == Map::<Seq<char>, Seq<char>>::empty(),
    {
        let r: TextMap = TextMap { keys: Vec::new(), values: Vec::new() };
        assert(r@ =~= Map::<Seq<char>, Seq<char>>::empty());
        r
    }

    /// Maps a key to a value, in place of any it had.
    pub fn insert(&mut self, key: String, value: String)
        requires
            old(self).wf(),
        ensures
            final(self).wf(),
            final(self)@ == old(self)@.insert(key@, value@),
    {
        let ghost keys = views(self.keys@);
        let ghost values = views(self.values@);
        let ghost k = key@;
        let ghost v = value@;
        let at: usize = slot(&self.keys, key.as_str());
        if at < self.keys.len() && same(self.keys[at].as_str(), key.as_str()) {
            self.values.set(at, value);
            proof {
                assert(views(self.values@) =~= values.update(at as int, v));
                lemma_paired_set(keys, values, at as int, v);
            }
        } else {
            self.keys.insert(at, key);
            self.values.insert(at, value);
            proof {
                assert(views(self.keys@) =~= keys.insert(at as int, k));
                assert(views(self.values@) =~= values.insert(at as int, v));
                lemma_paired_insert(keys, values, at as int, k, v);
            }
        }
    }

    /// The value of a key.
    pub fn get(&self, key: &str) -> (r: Option<String>)
        requires
            self.wf(),
        ensures
            opt_view(r) == (if self@.dom().contains(key@) {
                Some(self@[key@])
            } else {
                None
            }),
    {
        let ghost keys = views(self.keys@);
        let mut i: usize = 0;
        while i < self.keys.len()
            invariant
                self.wf(),
                i <= self.keys@.len(),
                keys == views(self.keys@),
                forall|j: int| 0 <= j < i ==> #[trigger] keys[j] != key@,
            decreases self.keys@.len() - i,
        {
            if same(self.keys[i].as_str(), key) {
                proof {
                    lemma_paired_at(keys, views(self.values@), i as int);
                }
                return Some(self.values[i].clone());
            }
            i += 1;
        }
        assert(!keys.contains(key@));
        None
    }

    /// The keys and values, in the order of the keys.
    pub fn entries(&self) -> (r: Vec<(String, String)>)
        requires
            self.wf(),
        ensures
            r@.len() == self.keys_in_order().len(),
            forall|i: int|
                0 <= i < r@.len() ==> (#[trigger] r@[i]).0@ == self.keys_in_order()[i]
                    && self@.dom().contains(r@[i].0@) && self@[r@[i].0@] == r@[i].1@,
    {
        let mut out: Vec<(String, String)> = Vec::new();
        let mut i: usize = 0;
        while i < self.keys.len()
            invariant
                self.wf(),
                i <= self.keys@.len(),
                out@.len() == i,
                forall|j: int|
                    0 <= j < i ==> (#[trigger] out@[j]).0@ == self.keys_in_order()[j]
                        && self@.dom().contains(out@[j].0@) && self@[out@[j].0@] == out@[j].1@,
            decreases self.keys@.len() - i,
        {
            proof {
                lemma_paired_at(views(self.keys@), views(self.values@), i as int);
            }
            out.push((self.keys[i].clone(), self.values[i].clone()));
            i += 1;
        }
        out
    }

    /// The number of keys.
    pub fn len(&self) -> (r: usize)
        ensures
            r == self.keys_in_order().len(),
    {
        self.keys.len()
    }
}

/// The keys of a map are in order, and are those that have a value.
pub proof fn law_keys_in_order(m: TextMap)
    requires
        m.wf(),
    ensures
        ascending(m.keys_in_order()),
        m.keys_in_order().to_set() == m@.dom(),
{
    assert(m.keys_in_order().to_set() =~= m@.dom());
}

} // verus!
