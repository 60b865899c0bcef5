//! What the text vocabulary promises.
use super::{
    after_last, first_chars, grow_last, has_prefix, has_suffix, is_ascii_alnum, is_space, joined,
    lower, nonempty, occurs, occurs_at, pieces, replaced, replaced_from, same_ignoring_case,
    space_pieces, stripped, stripped_end, stripped_start, trimmed, trimmed_end, trimmed_start,
    without_prefixes, words,
};
use vstd::prelude::*;

verus! {

proof fn lemma_trimmed_start(s: Seq<char>)
    ensures
        exists|i: int|
            0 <= i <= s.len() && trimmed_start(s) == #[trigger] s.skip(i) && (i < s.len()
                ==> !is_space(s[i])) && forall|k: int| 0 <= k < i ==> is_space(#[trigger] s[k]),
    decreases s.len(),
{
    if s.len() > 0 && is_space(s[0]) {
        let t = s.skip(1);
        lemma_trimmed_start(t);
        let i = choose|i: int|
            0 <= i <= t.len() && trimmed_start(t) == #[trigger] t.skip(i) && (i < t.len()
                ==> !is_space(t[i])) && forall|k: int| 0 <= k < i ==> is_space(#[trigger] t[k]);
        assert(t.skip(i) =~= s.skip(i + 1));
        assert forall|k: int| 0 <= k < i + 1 implies is_space(#[trigger] s[k]) by {
            if k > 0 {
                assert(is_space(t[k - 1]));
            }
        }
        if i + 1 < s.len() {
            assert(s[i + 1] == t[i]);
        }
    } else {
        assert(s.skip(0) =~= s);
    }
}

proof fn lemma_trimmed_end(s: Seq<char>)
    ensures
        exists|j: int|
            0 <= j <= s.len() && trimmed_end(s) == #[trigger] s.take(j) && (j > 0 ==> !is_space(
                s[j - 1],
            )) && forall|k: int| j <= k < s.len() ==> is_space(#[trigger] s[k]),
    decreases s.len(),
{
    if s.len() > 0 && is_space(s.last()) {
        let t = s.drop_last();
        lemma_trimmed_end(t);
        let j = choose|j: int|
            0 <= j <= t.len() && trimmed_end(t) == #[trigger] t.take(j) && (j > 0 ==> !is_space(
                t[j - 1],
            )) && forall|k: int| j <= k < t.len() ==> is_space(#[trigger] t[k]);
        assert(t.take(j) =~= s.take(j));
        assert forall|k: int| j <= k < s.len() implies is_space(#[trigger] s[k]) by {
            if k < t.len() {
                assert(is_space(t[k]));
            }
        }
    } else {
        assert(s.take(s.len() as int) =~= s);
    }
}

/// Trimming takes white space off both ends, all of it and nothing else.
pub proof fn law_trimming(s: Seq<char>)
    ensures
        exists|i: int, j: int|
            0 <= i <= j <= s.len() && trimmed(s) == #[trigger] s.subrange(i, j) && (forall|k: int|
                (0 <= k < i || j <= k < s.len()) ==> is_space(#[trigger] s[k])),
        trimmed(s).len() > 0 ==> !is_space(trimmed(s)[0]) && !is_space(trimmed(s).last()),
{
    lemma_trimmed_start(s);
    let i = choose|i: int|
        0 <= i <= s.len() && trimmed_start(s) == #[trigger] s.skip(i) && (i < s.len()
            ==> !is_space(s[i])) && forall|k: int| 0 <= k < i ==> is_space(#[trigger] s[k]);
    let t = s.skip(i);
    lemma_trimmed_end(t);
    let j = choose|j: int|
        0 <= j <= t.len() && trimmed_end(t) == #[trigger] t.take(j) && (j > 0 ==> !is_space(
            t[j - 1],
        )) && forall|k: int| j <= k < t.len() ==> is_space(#[trigger] t[k]);
    assert(t.take(j) =~= s.subrange(i, i + j));
    assert forall|k: int| (0 <= k < i || i + j <= k < s.len()) implies is_space(
        #[trigger] s[k],
    ) by {
        if k >= i + j {
            assert(is_space(t[k - i]));
        }
    }
}

/// Blanks, tabs and line ends are white space, ASCII letters and digits are not.
pub proof fn law_white_space(c: char)
    ensures
        c == ' ' || c == '\t' || c == '\n' || c == '\r' ==> is_space(c),
        is_ascii_alnum(c) ==> !is_space(c),
{
}

/// Lower case changes the capital ASCII letters, each to its small form, and nothing else.
pub proof fn law_lower_case(s: Seq<char>, i: int)
    requires
        0 <= i < s.len(),
    ensures
        lower(s).len() == s.len(),
        65 <= s[i] as u32 <= 90 ==> lower(s)[i] as u32 == s[i] as u32 + 32,
        !(65 <= s[i] as u32 <= 90) ==> lower(s)[i] == s[i],
{
}

proof fn lemma_letter_case(x: char, y: char)
    requires
        super::lower_char(x) == super::lower_char(y),
    ensures
        ({
            ||| x == y
            ||| 65 <= x as u32 <= 90 && y as u32 == x as u32 + 32
            ||| 65 <= y as u32 <= 90 && x as u32 == y as u32 + 32
        }),
{
}

/// Two texts are the same but for case exactly when they are as long as each other and differ, if
/// at all, in the case of ASCII letters.
pub proof fn law_same_but_for_case(a: Seq<char>, b: Seq<char>)
    ensures
        same_ignoring_case(a, b) <==> a.len() == b.len() && forall|i: int|
            0 <= i < a.len() ==> {
                ||| #[trigger] a[i] == b[i]
                ||| 65 <= a[i] as u32 <= 90 && b[i] as u32 == a[i] as u32 + 32
                ||| 65 <= b[i] as u32 <= 90 && a[i] as u32 == b[i] as u32 + 32
            },
{
    if same_ignoring_case(a, b) {
        assert(lower(a).len() == lower(b).len());
        assert forall|i: int| 0 <= i < a.len() implies {
            ||| #[trigger] a[i] == b[i]
            ||| 65 <= a[i] as u32 <= 90 && b[i] as u32 == a[i] as u32 + 32
            ||| 65 <= b[i] as u32 <= 90 && a[i] as u32 == b[i] as u32 + 32
        } by {
            assert(lower(a)[i] == lower(b)[i]);
            lemma_letter_case(a[i], b[i]);
        }
    } else if a.len() == b.len() {
        assert(!(lower(a) =~= lower(b)));
        let i = choose|i: int| 0 <= i < a.len() && lower(a)[i] != lower(b)[i];
        assert(a[i] != b[i]);
    }
}

/// A text occurs in another exactly when the other is something, the text, and something.
pub proof fn law_occurrence(h: Seq<char>, n: Seq<char>)
    ensures
        occurs(h, n) <==> exists|a: Seq<char>, b: Seq<char>| h == #[trigger] (a + n + b),
        has_prefix(h, n) <==> exists|b: Seq<char>| h == #[trigger] (n + b),
        has_suffix(h, n) <==> exists|a: Seq<char>| h == #[trigger] (a + n),
{
    if occurs(h, n) {
        let i = choose|i: int| #[trigger] occurs_at(h, n, i);
        assert(h =~= h.take(i) + h.subrange(i, i + n.len()) + h.skip(i + n.len()));
        assert(h == h.take(i) + n + h.skip(i + n.len()));
    }
    if exists|a: Seq<char>, b: Seq<char>| h == #[trigger] (a + n + b) {
        let (a, b) = choose|a: Seq<char>, b: Seq<char>| h == #[trigger] (a + n + b);
        assert(h.subrange(a.len() as int, (a.len() + n.len()) as int) =~= n);
        assert(occurs_at(h, n, a.len() as int));
    }
    if has_prefix(h, n) {
        assert(h =~= n + h.skip(n.len() as int));
    }
    if exists|b: Seq<char>| h == #[trigger] (n + b) {
        let b = choose|b: Seq<char>| h == #[trigger] (n + b);
        assert(h.take(n.len() as int) =~= n);
    }
    if has_suffix(h, n) {
        assert(h =~= h.take(h.len() - n.len()) + n);
    }
    if exists|a: Seq<char>| h == #[trigger] (a + n) {
        let a = choose|a: Seq<char>| h == #[trigger] (a + n);
        assert(h.skip(h.len() - n.len()) =~= n);
    }
}

/// A text cut at a character is its pieces with the character between them, and no piece holds the
/// character.
pub proof fn law_pieces_make_the_text(s: Seq<char>, sep: char)
    ensures
        joined(pieces(s, sep), seq![sep]) == s,
        pieces(s, sep).len() > 0,
        forall|i: int|
            0 <= i < pieces(s, sep).len() ==> !(#[trigger] pieces(s, sep)[i]).contains(sep),
    decreases s.len(),
{
    let all = pieces(s, sep);
    if s.len() == 0 {
        assert(all[0] =~= s);
    } else {
        let head = s.drop_last();
        let before = pieces(head, sep);
        law_pieces_make_the_text(head, sep);
        if s.last() == sep {
            assert(all.drop_last() =~= before);
            assert(joined(all, seq![sep]) =~= head.push(sep));
            assert(head.push(sep) =~= s);
            assert forall|i: int| 0 <= i < all.len() implies !(#[trigger] all[i]).contains(sep) by {
                if i < before.len() {
                    assert(all[i] == before[i]);
                }
            }
        } else {
            assert(all.drop_last() =~= before.drop_last());
            assert(all.last() =~= before.last().push(s.last()));
            if before.len() == 1 {
                assert(before[0] == head);
                assert(all[0] =~= s);
            } else {
                assert(joined(all, seq![sep]) =~= joined(before, seq![sep]).push(s.last()));
                assert(head.push(s.last()) =~= s);
            }
            assert forall|i: int| 0 <= i < all.len() implies !(#[trigger] all[i]).contains(sep) by {
                if i < before.len() - 1 {
                    assert(all[i] == before[i]);
                } else {
                    assert(!before[before.len() - 1].contains(sep));
                    if all[i].contains(sep) {
                        let k = choose|k: int| 0 <= k < all[i].len() && all[i][k] == sep;
                        if k < before.last().len() {
                            assert(before.last()[k] == sep);
                        }
                    }
                }
            }
        }
    }
}

/// Joining two lists is joining each, with the separator between them.
pub proof fn law_joining(a: Seq<Seq<char>>, b: Seq<Seq<char>>, sep: Seq<char>, x: Seq<char>)
    ensures
        joined(Seq::empty(), sep) == Seq::<char>::empty(),
        joined(seq![x], sep) == x,
        a.len() > 0 && b.len() > 0 ==> joined(a + b, sep) == joined(a, sep) + sep + joined(b, sep),
    decreases b.len(),
{
    if a.len() > 0 && b.len() > 0 {
        assert((a + b).drop_last() =~= a + b.drop_last());
        if b.len() == 1 {
            assert(a + b.drop_last() =~= a);
            assert((a + b).last() == b[0]);
        } else {
            law_joining(a, b.drop_last(), sep, x);
            assert(joined(a + b, sep) =~= joined(a, sep) + sep + joined(b, sep));
        }
    }
}

proof fn lemma_space_pieces_add(a: Seq<char>, b: Seq<char>)
    ensures
        space_pieces(b).len() > 0,
        space_pieces(a.push(' ') + b) == space_pieces(a) + space_pieces(b),
    decreases b.len(),
{
    let whole = a.push(' ') + b;
    if b.len() == 0 {
        assert(whole =~= a.push(' '));
        assert(whole.drop_last() =~= a);
        assert(space_pieces(whole) =~= space_pieces(a) + space_pieces(b));
    } else {
        lemma_space_pieces_add(a, b.drop_last());
        assert(whole.drop_last() =~= a.push(' ') + b.drop_last());
        assert(space_pieces(whole) =~= space_pieces(a) + space_pieces(b));
    }
}

proof fn lemma_nonempty_add(a: Seq<Seq<char>>, b: Seq<Seq<char>>)
    ensures
        nonempty(a + b) == nonempty(a) + nonempty(b),
    decreases b.len(),
{
    if b.len() == 0 {
        assert(a + b =~= a);
        assert(nonempty(a) + nonempty(b) =~= nonempty(a));
    } else {
        lemma_nonempty_add(a, b.drop_last());
        assert((a + b).drop_last() =~= a + b.drop_last());
        assert(nonempty(a + b) =~= nonempty(a) + nonempty(b));
    }
}

/// The words of two texts with a blank between them are the words of the first, then those of the
/// second; a text without white space is its only word.
pub proof fn law_words(a: Seq<char>, b: Seq<char>)
    ensures
        words(a.push(' ') + b) == words(a) + words(b),
        a.len() > 0 && (forall|i: int| 0 <= i < a.len() ==> !is_space(#[trigger] a[i])) ==> words(a)
            == seq![a],
{
    lemma_space_pieces_add(a, b);
    lemma_nonempty_add(space_pieces(a), space_pieces(b));
    if a.len() > 0 && forall|i: int| 0 <= i < a.len() ==> !is_space(#[trigger] a[i]) {
        lemma_one_word(a);
        assert(space_pieces(a).drop_last() =~= Seq::<Seq<char>>::empty());
        assert(nonempty(Seq::<Seq<char>>::empty()) =~= Seq::<Seq<char>>::empty());
        assert(words(a) =~= seq![a]);
    }
}

proof fn lemma_one_word(a: Seq<char>)
    requires
        forall|i: int| 0 <= i < a.len() ==> !is_space(#[trigger] a[i]),
    ensures
        space_pieces(a) == seq![a],
    decreases a.len(),
{
    if a.len() == 0 {
        assert(a =~= Seq::<char>::empty());
    } else {
        let head = a.drop_last();
        assert forall|i: int| 0 <= i < head.len() implies !is_space(#[trigger] head[i]) by {
            assert(!is_space(a[i]));
        }
        lemma_one_word(head);
        assert(!is_space(a[a.len() - 1]));
        assert(head.push(a.last()) =~= a);
        assert(grow_last(seq![head], a.last()) =~= seq![a]);
    }
}

/// Every word is free of white space and not empty.
pub proof fn law_words_hold_no_space(s: Seq<char>, i: int)
    requires
        0 <= i < words(s).len(),
    ensures
        words(s)[i].len() > 0,
        forall|k: int| 0 <= k < words(s)[i].len() ==> !is_space(#[trigger] words(s)[i][k]),
{
    lemma_space_free(s);
    lemma_nonempty_from(space_pieces(s), i);
    let j = choose|j: int|
        0 <= j < space_pieces(s).len() && #[trigger] space_pieces(s)[j] == words(s)[i];
    assert(free_of_space(space_pieces(s)[j]));
}

spec fn free_of_space(s: Seq<char>) -> bool {
    forall|k: int| 0 <= k < s.len() ==> !is_space(#[trigger] s[k])
}

proof fn lemma_space_free(s: Seq<char>)
    ensures
        space_pieces(s).len() > 0,
        forall|j: int| 0 <= j < space_pieces(s).len() ==> free_of_space(#[trigger] space_pieces(s)[j]),
    decreases s.len(),
{
    if s.len() > 0 {
        let head = s.drop_last();
        lemma_space_free(head);
        let before = space_pieces(head);
        let all = space_pieces(s);
        assert forall|j: int| 0 <= j < all.len() implies free_of_space(#[trigger] all[j]) by {
            if j < before.len() - 1 {
                assert(all[j] == before[j]);
            } else if !is_space(s.last()) {
                assert(free_of_space(before[before.len() - 1]));
            } else if j == before.len() - 1 {
                assert(all[j] == before[j]);
            }
        }
    }
}

proof fn lemma_nonempty_from(list: Seq<Seq<char>>, i: int)
    requires
        0 <= i < nonempty(list).len(),
    ensures
        nonempty(list)[i].len() > 0,
        exists|j: int| 0 <= j < list.len() && #[trigger] list[j] == nonempty(list)[i],
    decreases list.len(),
{
    if list.len() > 0 {
        let head = list.drop_last();
        if i < nonempty(head).len() {
            lemma_nonempty_from(head, i);
            let j = choose|j: int| 0 <= j < head.len() && #[trigger] head[j] == nonempty(head)[i];
            assert(list[j] == nonempty(list)[i]);
        } else {
            assert(list[list.len() - 1] == nonempty(list)[i]);
        }
    }
}

/// The first characters of a text are its beginning, as long as asked for or all of it.
pub proof fn law_first_chars(s: Seq<char>, n: nat)
    ensures
        first_chars(s, n).len() == if s.len() < n {
            s.len()
        } else {
            n
        },
        forall|i: int| 0 <= i < first_chars(s, n).len() ==> #[trigger] first_chars(s, n)[i] == s[i],
{
}

/// A prefix is taken off as often as it is there; what is left does not start with it, and a text
/// that does not start with it stays.
pub proof fn law_prefixes_taken_off(s: Seq<char>, p: Seq<char>)
    requires
        p.len() > 0,
    ensures
        !has_prefix(without_prefixes(s, p), p),
        without_prefixes(p + s, p) == without_prefixes(s, p),
        !has_prefix(s, p) ==> without_prefixes(s, p) == s,
    decreases s.len(),
{
    if has_prefix(s, p) {
        law_prefixes_taken_off(s.skip(p.len() as int), p);
    }
    assert((p + s).take(p.len() as int) =~= p);
    assert((p + s).skip(p.len() as int) =~= s);
}

/// Without an occurrence, replacing leaves a text alone; the first occurrence is replaced, and what
/// follows it is treated alike.
pub proof fn law_replacing(s: Seq<char>, n: Seq<char>, by: Seq<char>, i: int)
    requires
        n.len() > 0,
    ensures
        !occurs(s, n) ==> replaced(s, n, by) == s,
        occurs_at(s, n, i) && (forall|j: int| 0 <= j < i ==> !#[trigger] occurs_at(s, n, j))
            ==> replaced(s, n, by) == s.take(i) + by + replaced(s.skip(i + n.len()), n, by),
{
    if !occurs(s, n) {
        super::lemma_next_none(s, n, 0);
        assert(s.skip(0) =~= s);
    }
    if occurs_at(s, n, i) && forall|j: int| 0 <= j < i ==> !#[trigger] occurs_at(s, n, j) {
        super::lemma_next_found(s, n, 0, i);
        lemma_replaced_later(s, n, by, i + n.len());
        assert(s.subrange(0, i) =~= s.take(i));
    }
}

proof fn lemma_next_later(s: Seq<char>, n: Seq<char>, from: int, k: int)
    requires
        0 <= k <= from,
        k <= s.len(),
    ensures
        super::next_at(s, n, from) == (match super::next_at(s.skip(k), n, from - k) {
            Some(i) => Some(i + k),
            None => None,
        }),
    decreases s.len() + 1 - from,
{
    if from + n.len() <= s.len() {
        assert(s.subrange(from, from + n.len()) =~= s.skip(k).subrange(
            from - k,
            from - k + n.len(),
        ));
        if !occurs_at(s, n, from) {
            lemma_next_later(s, n, from + 1, k);
        }
    }
}

proof fn lemma_replaced_later(s: Seq<char>, n: Seq<char>, by: Seq<char>, k: int)
    requires
        n.len() > 0,
        0 <= k <= s.len(),
    ensures
        replaced_from(s, n, by, k) == replaced(s.skip(k), n, by),
{
    lemma_replaced_shift(s, n, by, k, k);
}

proof fn lemma_replaced_shift(s: Seq<char>, n: Seq<char>, by: Seq<char>, from: int, k: int)
    requires
        n.len() > 0,
        0 <= k <= from <= s.len(),
    ensures
        replaced_from(s, n, by, from) == replaced_from(s.skip(k), n, by, from - k),
    decreases s.len() - from,
{
    lemma_next_later(s, n, from, k);
    super::lemma_next_at_is_occurrence(s, n, from);
    match super::next_at(s, n, from) {
        Some(i) => {
            lemma_replaced_shift(s, n, by, i + n.len(), k);
            assert(s.subrange(from, i) =~= s.skip(k).subrange(from - k, i - k));
        },
        None => {
            assert(s.skip(from) =~= s.skip(k).skip(from - k));
        },
    }
}

/// What follows the last occurrence of a text is what follows it there; without one it is all.
pub proof fn law_after_the_last(s: Seq<char>, n: Seq<char>, i: int)
    requires
        n.len() > 0,
    ensures
        !occurs(s, n) ==> after_last(s, n) == s,
        occurs_at(s, n, i) && (forall|j: int| i < j ==> !#[trigger] occurs_at(s, n, j))
            ==> after_last(s, n) == s.skip(i + n.len()),
{
    if !occurs(s, n) && has_prefix(s, n) {
        assert(s.subrange(0, n.len() as int) =~= s.take(n.len() as int));
        assert(occurs_at(s, n, 0));
    }
    if occurs_at(s, n, i) && forall|j: int| i < j ==> !#[trigger] occurs_at(s, n, j) {
        super::lemma_after_last_found(s, n, i);
    }
}

/// Characters of a set are taken off both ends, and what is left starts and ends with others.
pub proof fn law_stripping(s: Seq<char>, set: Seq<char>)
    ensures
        stripped(s, set).len() > 0 ==> !set.contains(stripped(s, set)[0]) && !set.contains(
            stripped(s, set).last(),
        ),
        exists|i: int, j: int|
            0 <= i <= j <= s.len() && stripped(s, set) == #[trigger] s.subrange(i, j) && (forall|
                k: int,
            |
                (0 <= k < i || j <= k < s.len()) ==> set.contains(#[trigger] s[k])),
{
    lemma_stripped_start(s, set);
    let i = choose|i: int|
        0 <= i <= s.len() && stripped_start(s, set) == #[trigger] s.skip(i) && (i < s.len()
            ==> !set.contains(s[i])) && forall|k: int|
            0 <= k < i ==> set.contains(#[trigger] s[k]);
    let t = s.skip(i);
    lemma_stripped_end(t, set);
    let j = choose|j: int|
        0 <= j <= t.len() && stripped_end(t, set) == #[trigger] t.take(j) && (j > 0
            ==> !set.contains(t[j - 1])) && forall|k: int|
            j <= k < t.len() ==> set.contains(#[trigger] t[k]);
    assert(t.take(j) =~= s.subrange(i, i + j));
    assert forall|k: int| (0 <= k < i || i + j <= k < s.len()) implies set.contains(
        #[trigger] s[k],
    ) by {
        if k >= i + j {
            assert(set.contains(t[k - i]));
        }
    }
}

proof fn lemma_stripped_start(s: Seq<char>, set: Seq<char>)
    ensures
        exists|i: int|
            0 <= i <= s.len() && stripped_start(s, set) == #[trigger] s.skip(i) && (i < s.len()
                ==> !set.contains(s[i])) && forall|k: int|
                0 <= k < i ==> set.contains(#[trigger] s[k]),
    decreases s.len(),
{
    if s.len() > 0 && set.contains(s[0]) {
        let t = s.skip(1);
        lemma_stripped_start(t, set);
        let i = choose|i: int|
            0 <= i <= t.len() && stripped_start(t, set) == #[trigger] t.skip(i) && (i < t.len()
                ==> !set.contains(t[i])) && forall|k: int|
                0 <= k < i ==> set.contains(#[trigger] t[k]);
        assert(t.skip(i) =~= s.skip(i + 1));
        assert forall|k: int| 0 <= k < i + 1 implies set.contains(#[trigger] s[k]) by {
            if k > 0 {
                assert(set.contains(t[k - 1]));
            }
        }
        if i + 1 < s.len() {
            assert(s[i + 1] == t[i]);
        }
    } else {
        assert(s.skip(0) =~= s);
    }
}

proof fn lemma_stripped_end(s: Seq<char>, set: Seq<char>)
    ensures
        exists|j: int|
            0 <= j <= s.len() && stripped_end(s, set) == #[trigger] s.take(j) && (j > 0
                ==> !set.contains(s[j - 1])) && forall|k: int|
                j <= k < s.len() ==> set.contains(#[trigger] s[k]),
    decreases s.len(),
{
    if s.len() > 0 && set.contains(s.last()) {
        let t = s.drop_last();
        lemma_stripped_end(t, set);
        let j = choose|j: int|
            0 <= j <= t.len() && stripped_end(t, set) == #[trigger] t.take(j) && (j > 0
                ==> !set.contains(t[j - 1])) && forall|k: int|
                j <= k < t.len() ==> set.contains(#[trigger] t[k]);
        assert(t.take(j) =~= s.take(j));
        assert forall|k: int| j <= k < s.len() implies set.contains(#[trigger] s[k]) by {
            if k < t.len() {
                assert(set.contains(t[k]));
            }
        }
    } else {
        assert(s.take(s.len() as int) =~= s);
    }
}

} // verus!
