//! Text as a sequence of characters.
//!
//! Every contract of this library speaks of a string by its view, a `Seq<char>`. This module
//! gives the vocabulary (trimming, splitting, searching, ASCII case) twice: as spec functions
//! on sequences, and as executable functions that are proved to compute them.
use vstd::prelude::*;

pub mod laws;

verus! {

// ---------------------------------------------------------------------------------------------
// Views of collections
// ---------------------------------------------------------------------------------------------

/// The views of the elements of a sequence, in order.
pub open spec fn views<T: View>(s: Seq<T>) -> Seq<T::V> {
    Seq::new(s.len(), |i: int| s[i]@)
}

/// The view of an optional value.
pub open spec fn opt_view<T: View>(o: Option<T>) -> Option<T::V> {
    match o {
        Some(x) => Some(x@),
        None => None,
    }
}

pub broadcast proof fn lemma_views_push<T: View>(s: Seq<T>, x: T)
    ensures
        #[trigger] views(s.push(x)) == views(s).push(x@),
{
    assert(views(s.push(x)) =~= views(s).push(x@));
}

pub broadcast proof fn lemma_views_empty<T: View>()
    ensures
        #[trigger] views(Seq::<T>::empty()) == Seq::<T::V>::empty(),
{
    assert(views(Seq::<T>::empty()) =~= Seq::<T::V>::empty());
}

/// Dropping the last element of the first `n + 1` gives the first `n`.
pub broadcast proof fn lemma_take_step<T>(s: Seq<T>, n: int)
    requires
        0 <= n < s.len(),
    ensures
        (#[trigger] s.take(n + 1)).drop_last() == s.take(n),
        s.take(n + 1).last() == s[n],
        s.take(n + 1).len() == n + 1,
{
    assert(s.take(n + 1).drop_last() =~= s.take(n));
}

/// What fails on the first elements of a list fails on the list: a reading that, with one element
/// more, does not recover.
pub proof fn lemma_failure_stays<A, B>(read: spec_fn(Seq<A>) -> Option<B>, list: Seq<A>, n: int)
    requires
        0 <= n <= list.len(),
        read(list.take(n)) is None,
        forall|l: Seq<A>| l.len() > 0 && read(l.drop_last()) is None ==> #[trigger] read(l) is None,
    ensures
        read(list) is None,
    decreases list.len() - n,
{
    if n < list.len() {
        lemma_take_step(list, n);
        assert(read(list.take(n + 1)) is None);
        lemma_failure_stays(read, list, n + 1);
    } else {
        assert(list.take(n) =~= list);
    }
}

/// What a search finds among the first elements of a list, it finds in the list: a search that,
/// with one element more, keeps what it has found.
pub proof fn lemma_found_stays<A, B>(find: spec_fn(Seq<A>) -> Option<B>, list: Seq<A>, n: int)
    requires
        0 <= n <= list.len(),
        find(list.take(n)) is Some,
        forall|l: Seq<A>|
            l.len() > 0 && find(l.drop_last()) is Some ==> #[trigger] find(l) == find(
                l.drop_last(),
            ),
    ensures
        find(list) == find(list.take(n)),
    decreases list.len() - n,
{
    if n < list.len() {
        lemma_take_step(list, n);
        assert(find(list.take(n + 1)) == find(list.take(n + 1).drop_last()));
        lemma_found_stays(find, list, n + 1);
    } else {
        assert(list.take(n) =~= list);
    }
}

pub broadcast proof fn lemma_take_all<T>(s: Seq<T>)
    ensures
        #[trigger] s.take(s.len() as int) == s,
{
    assert(s.take(s.len() as int) =~= s);
}

pub broadcast group group_text {
    lemma_views_push,
    lemma_views_empty,
    lemma_take_all,
}

// ---------------------------------------------------------------------------------------------
// Between strings and character vectors
// ---------------------------------------------------------------------------------------------

/// `String::push` appends one character to the end of the string.
pub assume_specification[ String::push ](s: &mut String, c: char)
    ensures
        final(s)@ == old(s)@.push(c),
;

/// The characters of a string, in order.
pub fn chars_of(s: &str) -> (r: Vec<char>)
    ensures
        r@ == s@,
{
    let mut r: Vec<char> = Vec::new();
    for c in it: s.chars()
        invariant
            it.seq() == s@,
            r@ == s@.take(it.index() as int),
    {
        r.push(c);
        assert(r@ =~= s@.take(it.index() + 1));
    }
    assert(r@ =~= s@);
    r
}

/// The string made of the characters `cs[from..to]`.
pub fn string_of(cs: &Vec<char>, from: usize, to: usize) -> (r: String)
    requires
        from <= to <= cs@.len(),
    ensures
        r@ == cs@.subrange(from as int, to as int),
{
    let mut r: String = String::new();
    let mut i: usize = from;
    while i < to
        invariant
            from <= i <= to <= cs@.len(),
            r@ == cs@.subrange(from as int, i as int),
        decreases to - i,
    {
        r.push(cs[i]);
        assert(cs@.subrange(from as int, i as int).push(cs@[i as int]) =~= cs@.subrange(
            from as int,
            i + 1,
        ));
        i += 1;
    }
    r
}

/// Appends `t` to `s`.
pub fn append(s: &mut String, t: &str)
    ensures
        final(s)@ == old(s)@ + t@,
{
    s.append(t);
}

/// A string with the text of `s`.
pub fn owned(s: &str) -> (r: String)
    ensures
        r@ == s@,
{
    s.to_owned()
}

/// The concatenation of two texts.
pub fn cat2(a: &str, b: &str) -> (r: String)
    ensures
        r@ == a@ + b@,
{
    let mut r: String = a.to_owned();
    r.append(b);
    r
}

/// The concatenation of three texts.
pub fn cat3(a: &str, b: &str, c: &str) -> (r: String)
    ensures
        r@ == a@ + b@ + c@,
{
    let mut r: String = a.to_owned();
    r.append(b);
    r.append(c);
    r
}

/// Whether two strings hold the same text.
pub fn same(a: &str, b: &str) -> (r: bool)
    ensures
        r == (a@ == b@),
{
    a.to_owned() == b.to_owned()
}

/// A copy of an optional string.
pub fn clone_opt(o: &Option<String>) -> (r: Option<String>)
    ensures
        r == *o,
{
    match o {
        Some(s) => Some(s.clone()),
        None => None,
    }
}

/// A copy of a list of strings.
pub fn clone_all(v: &Vec<String>) -> (r: Vec<String>)
    ensures
        r@ == v@,
{
    let mut r: Vec<String> = Vec::new();
    let mut i: usize = 0;
    while i < v.len()
        invariant
            i <= v@.len(),
            r@ == v@.take(i as int),
        decreases v@.len() - i,
    {
        r.push(v[i].clone());
        assert(r@ =~= v@.take(i + 1));
        i += 1;
    }
    assert(r@ =~= v@);
    r
}

/// Appends copies of the elements of `b` to `a`.
pub fn extend_all(a: &mut Vec<String>, b: &Vec<String>)
    ensures
        final(a)@ == old(a)@ + b@,
{
    let ghost start = a@;
    let mut i: usize = 0;
    while i < b.len()
        invariant
            i <= b@.len(),
            a@ == start + b@.take(i as int),
        decreases b@.len() - i,
    {
        a.push(b[i].clone());
        assert(a@ =~= start + b@.take(i + 1));
        i += 1;
    }
    assert(a@ =~= start + b@);
}

/// Whether a list of strings holds the text `x`.
pub fn list_contains(v: &Vec<String>, x: &str) -> (r: bool)
    ensures
        r == views(v@).contains(x@),
{
    let mut i: usize = 0;
    while i < v.len()
        invariant
            i <= v@.len(),
            forall|j: int| 0 <= j < i ==> views(v@)[j] != x@,
        decreases v@.len() - i,
    {
        if same(v[i].as_str(), x) {
            assert(views(v@)[i as int] == x@);
            return true;
        }
        i += 1;
    }
    false
}

// ---------------------------------------------------------------------------------------------
// Whitespace and trimming
// ---------------------------------------------------------------------------------------------

/// The characters with the Unicode property `White_Space`.
pub open spec fn is_space(c: char) -> bool {
    let u = c as u32;
    ||| 0x9 <= u <= 0xd
    ||| u == 0x20
    ||| u == 0x85
    ||| u == 0xa0
    ||| u == 0x1680
    ||| 0x2000 <= u <= 0x200a
    ||| u == 0x2028
    ||| u == 0x2029
    ||| u == 0x202f
    ||| u == 0x205f
    ||| u == 0x3000
}

/// Whether `c` is Unicode white space.
pub fn space(c: char) -> (r: bool)
    ensures
        r == is_space(c),
{
    let u: u32 = c as u32;
    (0x9 <= u && u <= 0xd) || u == 0x20 || u == 0x85 || u == 0xa0 || u == 0x1680 || (0x2000 <= u
        && u <= 0x200a) || u == 0x2028 || u == 0x2029 || u == 0x202f || u == 0x205f || u == 0x3000
}

/// `s` without its leading white space.
pub open spec fn trimmed_start(s: Seq<char>) -> Seq<char>
    decreases s.len(),
{
    if s.len() > 0 && is_space(s[0]) {
        trimmed_start(s.skip(1))
    } else {
        s
    }
}

/// `s` without its trailing white space.
pub open spec fn trimmed_end(s: Seq<char>) -> Seq<char>
    decreases s.len(),
{
    if s.len() > 0 && is_space(s.last()) {
        trimmed_end(s.drop_last())
    } else {
        s
    }
}

/// `s` without white space at either end.
pub open spec fn trimmed(s: Seq<char>) -> Seq<char> {
    trimmed_end(trimmed_start(s))
}

/// `s` without leading characters of `set`.
pub open spec fn stripped_start(s: Seq<char>, set: Seq<char>) -> Seq<char>
    decreases s.len(),
{
    if s.len() > 0 && set.contains(s[0]) {
        stripped_start(s.skip(1), set)
    } else {
        s
    }
}

/// `s` without trailing characters of `set`.
pub open spec fn stripped_end(s: Seq<char>, set: Seq<char>) -> Seq<char>
    decreases s.len(),
{
    if s.len() > 0 && set.contains(s.last()) {
        stripped_end(s.drop_last(), set)
    } else {
        s
    }
}

/// `s` without characters of `set` at either end.
pub open spec fn stripped(s: Seq<char>, set: Seq<char>) -> Seq<char> {
    stripped_end(stripped_start(s, set), set)
}

/// `s` without white space at either end.
pub fn trim(s: &str) -> (r: String)
    ensures
        r@ == trimmed(s@),
{
    let cs: Vec<char> = chars_of(s);
    let n: usize = cs.len();
    let mut i: usize = 0;
    assert(s@.skip(0) =~= s@);
    while i < n && space(cs[i])
        invariant
            i <= n == cs@.len(),
            cs@ == s@,
            trimmed_start(s@) == trimmed_start(s@.skip(i as int)),
        decreases n - i,
    {
        assert(s@.skip(i as int).skip(1) =~= s@.skip(i + 1));
        i += 1;
    }
    let mut j: usize = n;
    assert(s@.skip(i as int) =~= s@.subrange(i as int, j as int));
    while j > i && space(cs[j - 1])
        invariant
            i <= j <= n == cs@.len(),
            cs@ == s@,
            trimmed(s@) == trimmed_end(s@.subrange(i as int, j as int)),
        decreases j,
    {
        assert(s@.subrange(i as int, j as int).drop_last() =~= s@.subrange(i as int, j - 1));
        j -= 1;
    }
    string_of(&cs, i, j)
}

/// `s` without its trailing white space.
pub fn trim_end(s: &str) -> (r: String)
    ensures
        r@ == trimmed_end(s@),
{
    let cs: Vec<char> = chars_of(s);
    let mut j: usize = cs.len();
    assert(s@.take(j as int) =~= s@);
    while j > 0 && space(cs[j - 1])
        invariant
            j <= cs@.len(),
            cs@ == s@,
            trimmed_end(s@) == trimmed_end(s@.take(j as int)),
        decreases j,
    {
        assert(s@.take(j as int).drop_last() =~= s@.take(j - 1));
        j -= 1;
    }
    assert(s@.take(j as int) =~= s@.subrange(0, j as int));
    string_of(&cs, 0, j)
}

/// Whether `c` is a character of `set`.
fn in_set(set: &Vec<char>, c: char) -> (r: bool)
    ensures
        r == set@.contains(c),
{
    let mut i: usize = 0;
    while i < set.len()
        invariant
            i <= set@.len(),
            forall|j: int| 0 <= j < i ==> set@[j] != c,
        decreases set@.len() - i,
    {
        if set[i] == c {
            return true;
        }
        i += 1;
    }
    false
}

/// `s` without leading characters of `set`.
pub fn strip_start(s: &str, set: &str) -> (r: String)
    ensures
        r@ == stripped_start(s@, set@),
{
    let cs: Vec<char> = chars_of(s);
    let ss: Vec<char> = chars_of(set);
    let n: usize = cs.len();
    let mut i: usize = 0;
    assert(s@.skip(0) =~= s@);
    while i < n && in_set(&ss, cs[i])
        invariant
            i <= n == cs@.len(),
            cs@ == s@,
            ss@ == set@,
            stripped_start(s@, set@) == stripped_start(s@.skip(i as int), set@),
        decreases n - i,
    {
        assert(s@.skip(i as int).skip(1) =~= s@.skip(i + 1));
        i += 1;
    }
    assert(s@.skip(i as int) =~= s@.subrange(i as int, n as int));
    string_of(&cs, i, n)
}

/// `s` without trailing characters of `set`.
pub fn strip_end(s: &str, set: &str) -> (r: String)
    ensures
        r@ == stripped_end(s@, set@),
{
    let cs: Vec<char> = chars_of(s);
    let ss: Vec<char> = chars_of(set);
    let mut j: usize = cs.len();
    assert(s@.take(j as int) =~= s@);
    while j > 0 && in_set(&ss, cs[j - 1])
        invariant
            j <= cs@.len(),
            cs@ == s@,
            ss@ == set@,
            stripped_end(s@, set@) == stripped_end(s@.take(j as int), set@),
        decreases j,
    {
        assert(s@.take(j as int).drop_last() =~= s@.take(j - 1));
        j -= 1;
    }
    assert(s@.take(j as int) =~= s@.subrange(0, j as int));
    string_of(&cs, 0, j)
}

/// `s` without characters of `set` at either end.
pub fn strip(s: &str, set: &str) -> (r: String)
    ensures
        r@ == stripped(s@, set@),
{
    let t: String = strip_start(s, set);
    strip_end(t.as_str(), set)
}

/// Whether the trimmed text is empty.
pub fn is_blank(s: &str) -> (r: bool)
    ensures
        r == (trimmed(s@).len() == 0),
{
    trim(s).as_str().is_empty()
}

// ---------------------------------------------------------------------------------------------
// ASCII letters and digits
// ---------------------------------------------------------------------------------------------

pub open spec fn is_digit(c: char) -> bool {
    '0' as u32 <= c as u32 <= '9' as u32
}

pub open spec fn is_ascii_alnum(c: char) -> bool {
    ||| is_digit(c)
    ||| 'a' as u32 <= c as u32 <= 'z' as u32
    ||| 'A' as u32 <= c as u32 <= 'Z' as u32
}

pub open spec fn is_hex_digit(c: char) -> bool {
    ||| is_digit(c)
    ||| 'a' as u32 <= c as u32 <= 'f' as u32
    ||| 'A' as u32 <= c as u32 <= 'F' as u32
}

/// The lower-case form of an ASCII letter; any other character as it is.
pub open spec fn lower_char(c: char) -> char {
    if 'A' as u32 <= c as u32 <= 'Z' as u32 {
        ((c as u32) + 32) as char
    } else {
        c
    }
}

/// `s` with its ASCII letters in lower case.
pub open spec fn lower(s: Seq<char>) -> Seq<char> {
    Seq::new(s.len(), |i: int| lower_char(s[i]))
}

/// Whether `c` is an ASCII decimal digit.
pub fn digit(c: char) -> (r: bool)
    ensures
        r == is_digit(c),
{
    let u: u32 = c as u32;
    48 <= u && u <= 57
}

/// Whether `c` is an ASCII letter or digit.
pub fn ascii_alnum(c: char) -> (r: bool)
    ensures
        r == is_ascii_alnum(c),
{
    let u: u32 = c as u32;
    digit(c) || (97 <= u && u <= 122) || (65 <= u && u <= 90)
}

/// Whether `c` is an ASCII hexadecimal digit.
pub fn hex_digit(c: char) -> (r: bool)
    ensures
        r == is_hex_digit(c),
{
    let u: u32 = c as u32;
    digit(c) || (97 <= u && u <= 102) || (65 <= u && u <= 70)
}

/// The lower-case form of an ASCII letter; any other character as it is.
pub fn to_lower_char(c: char) -> (r: char)
    ensures
        r == lower_char(c),
{
    let u: u32 = c as u32;
    if 65 <= u && u <= 90 {
        ((u as u8) + 32) as char
    } else {
        c
    }
}

/// `s` with its ASCII letters in lower case.
pub fn to_lower(s: &str) -> (r: String)
    ensures
        r@ == lower(s@),
{
    let cs: Vec<char> = chars_of(s);
    let mut r: String = String::new();
    let mut i: usize = 0;
    while i < cs.len()
        invariant
            i <= cs@.len(),
            cs@ == s@,
            r@ == lower(s@).take(i as int),
        decreases cs@.len() - i,
    {
        r.push(to_lower_char(cs[i]));
        assert(r@ =~= lower(s@).take(i + 1));
        i += 1;
    }
    assert(r@ =~= lower(s@));
    r
}

/// Whether two texts are equal but for the case of their ASCII letters.
pub open spec fn same_ignoring_case(a: Seq<char>, b: Seq<char>) -> bool {
    lower(a) == lower(b)
}

/// Whether two texts are equal but for the case of their ASCII letters.
pub fn eq_ignoring_case(a: &str, b: &str) -> (r: bool)
    ensures
        r == same_ignoring_case(a@, b@),
{
    to_lower(a) == to_lower(b)
}

/// Whether some text of `list` equals `x` but for ASCII case.
pub open spec fn any_same(list: Seq<Seq<char>>, x: Seq<char>) -> bool {
    exists|i: int| 0 <= i < list.len() && same_ignoring_case(#[trigger] list[i], x)
}

/// Whether some text of `list` equals `x` but for ASCII case.
pub fn any_eq_ignoring_case(list: &Vec<String>, x: &str) -> (r: bool)
    ensures
        r == any_same(views(list@), x@),
{
    let mut i: usize = 0;
    while i < list.len()
        invariant
            i <= list@.len(),
            forall|j: int| 0 <= j < i ==> !same_ignoring_case(#[trigger] views(list@)[j], x@),
        decreases list@.len() - i,
    {
        if eq_ignoring_case(list[i].as_str(), x) {
            assert(same_ignoring_case(views(list@)[i as int], x@));
            return true;
        }
        i += 1;
    }
    false
}

// ---------------------------------------------------------------------------------------------
// Searching
// ---------------------------------------------------------------------------------------------

/// Whether `n` occurs in `h` at position `i`.
pub open spec fn occurs_at(h: Seq<char>, n: Seq<char>, i: int) -> bool {
    0 <= i && i + n.len() <= h.len() && h.subrange(i, i + n.len()) == n
}

/// Whether `n` occurs in `h` anywhere.
pub open spec fn occurs(h: Seq<char>, n: Seq<char>) -> bool {
    exists|i: int| #[trigger] occurs_at(h, n, i)
}

/// Whether `p` is a prefix of `s`.
pub open spec fn has_prefix(s: Seq<char>, p: Seq<char>) -> bool {
    p.len() <= s.len() && s.take(p.len() as int) == p
}

/// Whether `p` is a suffix of `s`.
pub open spec fn has_suffix(s: Seq<char>, p: Seq<char>) -> bool {
    p.len() <= s.len() && s.skip(s.len() - p.len()) == p
}

/// Whether `n` occurs in `h` at position `i`.
pub fn matches_at(h: &Vec<char>, n: &Vec<char>, i: usize) -> (r: bool)
    ensures
        r == occurs_at(h@, n@, i as int),
{
    let total: usize = h.len();
    if i > total || n.len() > total - i {
        return false;
    }
    let mut k: usize = 0;
    while k < n.len()
        invariant
            i + n@.len() <= total == h@.len(),
            k <= n@.len(),
            forall|j: int| 0 <= j < k ==> h@[i + j] == n@[j],
        decreases n@.len() - k,
    {
        if h[i + k] != n[k] {
            assert(h@.subrange(i as int, i + n@.len())[k as int] != n@[k as int]);
            return false;
        }
        k += 1;
    }
    assert(h@.subrange(i as int, i + n@.len()) =~= n@);
    true
}

/// The first position at or after `from` at which `n` occurs in `h`.
pub fn find_from(h: &Vec<char>, n: &Vec<char>, from: usize) -> (r: Option<usize>)
    requires
        from <= h@.len(),
    ensures
        match r {
            Some(i) => {
                &&& from <= i
                &&& occurs_at(h@, n@, i as int)
                &&& forall|j: int| from <= j < i ==> !#[trigger] occurs_at(h@, n@, j)
            },
            None => forall|j: int| from <= j ==> !#[trigger] occurs_at(h@, n@, j),
        },
{
    let mut i: usize = from;
    while i < h.len()
        invariant
            from <= i <= h@.len(),
            forall|j: int| from <= j < i ==> !#[trigger] occurs_at(h@, n@, j),
        decreases h@.len() - i,
    {
        if matches_at(h, n, i) {
            return Some(i);
        }
        i += 1;
    }
    if matches_at(h, n, i) {
        return Some(i);
    }
    None
}

/// Whether `n` occurs in `h` anywhere.
pub fn contains(h: &str, n: &str) -> (r: bool)
    ensures
        r == occurs(h@, n@),
{
    let hc: Vec<char> = chars_of(h);
    let nc: Vec<char> = chars_of(n);
    match find_from(&hc, &nc, 0) {
        Some(i) => {
            assert(occurs_at(h@, n@, i as int));
            true
        },
        None => false,
    }
}

/// Whether `p` is a prefix of `s`.
pub fn starts_with(s: &str, p: &str) -> (r: bool)
    ensures
        r == has_prefix(s@, p@),
{
    let sc: Vec<char> = chars_of(s);
    let pc: Vec<char> = chars_of(p);
    assert(p@.len() <= s@.len() ==> s@.subrange(0, p@.len() as int) =~= s@.take(p@.len() as int));
    matches_at(&sc, &pc, 0)
}

/// Whether `p` is a suffix of `s`.
pub fn ends_with(s: &str, p: &str) -> (r: bool)
    ensures
        r == has_suffix(s@, p@),
{
    let sc: Vec<char> = chars_of(s);
    let pc: Vec<char> = chars_of(p);
    if pc.len() > sc.len() {
        return false;
    }
    let at: usize = sc.len() - pc.len();
    assert(s@.subrange(at as int, at + p@.len()) =~= s@.skip(at as int));
    matches_at(&sc, &pc, at)
}

/// What follows the prefix `p` of `s`, when `p` is a prefix of it.
pub fn strip_prefix(s: &str, p: &str) -> (r: Option<String>)
    ensures
        match r {
            Some(t) => has_prefix(s@, p@) && t@ == s@.skip(p@.len() as int),
            None => !has_prefix(s@, p@),
        },
{
    if !starts_with(s, p) {
        return None;
    }
    let sc: Vec<char> = chars_of(s);
    let pc: Vec<char> = chars_of(p);
    assert(s@.subrange(p@.len() as int, s@.len() as int) =~= s@.skip(p@.len() as int));
    Some(string_of(&sc, pc.len(), sc.len()))
}

/// What precedes the suffix `p` of `s`, when `p` is a suffix of it.
pub fn strip_suffix(s: &str, p: &str) -> (r: Option<String>)
    ensures
        match r {
            Some(t) => has_suffix(s@, p@) && t@ == s@.take(s@.len() - p@.len()),
            None => !has_suffix(s@, p@),
        },
{
    if !ends_with(s, p) {
        return None;
    }
    let sc: Vec<char> = chars_of(s);
    let pc: Vec<char> = chars_of(p);
    let to: usize = sc.len() - pc.len();
    assert(s@.subrange(0, to as int) =~= s@.take(to as int));
    Some(string_of(&sc, 0, to))
}

/// The first `n` characters of a text, or all of them where it has fewer.
pub open spec fn first_chars(s: Seq<char>, n: nat) -> Seq<char> {
    if s.len() <= n {
        s
    } else {
        s.take(n as int)
    }
}

/// The first `n` characters of a text, or all of them where it has fewer.
pub fn take_chars(s: &str, n: usize) -> (r: String)
    ensures
        r@ == first_chars(s@, n as nat),
{
    let cs: Vec<char> = chars_of(s);
    if cs.len() <= n {
        s.to_owned()
    } else {
        assert(s@.subrange(0, n as int) =~= s@.take(n as int));
        string_of(&cs, 0, n)
    }
}

/// The number of characters of a text.
pub fn char_count(s: &str) -> (r: usize)
    ensures
        r == s@.len(),
{
    chars_of(s).len()
}

// ---------------------------------------------------------------------------------------------
// Splitting and joining
// ---------------------------------------------------------------------------------------------

/// Adds one character to the last of a list of pieces.
pub open spec fn grow_last(pieces: Seq<Seq<char>>, c: char) -> Seq<Seq<char>> {
    pieces.drop_last().push(pieces.last().push(c))
}

/// The pieces of `s` between occurrences of the character `sep`; never empty.
pub open spec fn pieces(s: Seq<char>, sep: char) -> Seq<Seq<char>>
    decreases s.len(),
{
    if s.len() == 0 {
        seq![Seq::<char>::empty()]
    } else if s.last() == sep {
        pieces(s.drop_last(), sep).push(Seq::<char>::empty())
    } else {
        grow_last(pieces(s.drop_last(), sep), s.last())
    }
}

/// The pieces of `s` between white-space characters; some may be empty.
pub open spec fn space_pieces(s: Seq<char>) -> Seq<Seq<char>>
    decreases s.len(),
{
    if s.len() == 0 {
        seq![Seq::<char>::empty()]
    } else if is_space(s.last()) {
        space_pieces(s.drop_last()).push(Seq::<char>::empty())
    } else {
        grow_last(space_pieces(s.drop_last()), s.last())
    }
}

/// The elements of a list that are not empty, in order.
pub open spec fn nonempty(list: Seq<Seq<char>>) -> Seq<Seq<char>>
    decreases list.len(),
{
    if list.len() == 0 {
        list
    } else if list.last().len() == 0 {
        nonempty(list.drop_last())
    } else {
        nonempty(list.drop_last()).push(list.last())
    }
}

/// The words of a text: its maximal runs of characters that are not white space.
pub open spec fn words(s: Seq<char>) -> Seq<Seq<char>> {
    nonempty(space_pieces(s))
}

/// The pieces of `s` between occurrences of the character `sep`.
pub fn split(s: &str, sep: char) -> (r: Vec<String>)
    ensures
        views(r@) == pieces(s@, sep),
        r@.len() >= 1,
{
    broadcast use group_text;

    let cs: Vec<char> = chars_of(s);
    let mut done: Vec<String> = Vec::new();
    let mut cur: String = String::new();
    let mut i: usize = 0;
    assert(views(done@).push(cur@) =~= seq![Seq::<char>::empty()]);
    while i < cs.len()
        invariant
            i <= cs@.len(),
            cs@ == s@,
            pieces(s@.take(i as int), sep) == views(done@).push(cur@),
        decreases cs@.len() - i,
    {
        proof {
            lemma_take_step(s@, i as int);
        }
        let c: char = cs[i];
        if c == sep {
            done.push(cur);
            cur = String::new();
        } else {
            let ghost before = views(done@).push(cur@);
            cur.push(c);
            assert(grow_last(before, c) =~= views(done@).push(cur@));
        }
        i += 1;
    }
    done.push(cur);
    done
}

/// The words of a text: its maximal runs of characters that are not white space.
pub fn split_words(s: &str) -> (r: Vec<String>)
    ensures
        views(r@) == words(s@),
{
    broadcast use group_text;

    let cs: Vec<char> = chars_of(s);
    let mut done: Vec<String> = Vec::new();
    let mut cur: String = String::new();
    let mut i: usize = 0;
    let ghost mut all: Seq<Seq<char>> = Seq::empty();
    assert(all.push(cur@) =~= seq![Seq::<char>::empty()]);
    while i < cs.len()
        invariant
            i <= cs@.len(),
            cs@ == s@,
            space_pieces(s@.take(i as int)) == all.push(cur@),
            views(done@) == nonempty(all),
        decreases cs@.len() - i,
    {
        proof {
            lemma_take_step(s@, i as int);
        }
        let c: char = cs[i];
        if space(c) {
            proof {
                assert(all.push(cur@).drop_last() =~= all);
                all = all.push(cur@);
            }
            if !cur.as_str().is_empty() {
                done.push(cur);
            }
            cur = String::new();
        } else {
            let ghost before = all.push(cur@);
            cur.push(c);
            assert(grow_last(before, c) =~= all.push(cur@));
        }
        i += 1;
    }
    assert(all.push(cur@).drop_last() =~= all);
    if !cur.as_str().is_empty() {
        done.push(cur);
    }
    done
}

/// The texts of a list one after the other, with `sep` between neighbours.
pub open spec fn joined(list: Seq<Seq<char>>, sep: Seq<char>) -> Seq<char>
    decreases list.len(),
{
    if list.len() == 0 {
        Seq::empty()
    } else if list.len() == 1 {
        list[0]
    } else {
        joined(list.drop_last(), sep) + sep + list.last()
    }
}

/// The texts of a list one after the other, with `sep` between neighbours.
pub fn join(list: &Vec<String>, sep: &str) -> (r: String)
    ensures
        r@ == joined(views(list@), sep@),
{
    broadcast use group_text;

    let mut r: String = String::new();
    let mut i: usize = 0;
    while i < list.len()
        invariant
            i <= list@.len(),
            r@ == joined(views(list@).take(i as int), sep@),
        decreases list@.len() - i,
    {
        proof {
            lemma_take_step(views(list@), i as int);
        }
        if i > 0 {
            r.append(sep);
        }
        r.append(list[i].as_str());
        assert(i == 0 ==> r@ =~= views(list@)[0]);
        i += 1;
    }
    r
}

/// A text without separators only makes the last piece longer.
proof fn lemma_pieces_grow(s: Seq<char>, t: Seq<char>, sep: char)
    requires
        !t.contains(sep),
    ensures
        pieces(s, sep).len() > 0,
        pieces(s + t, sep) == pieces(s, sep).drop_last().push(pieces(s, sep).last() + t),
    decreases s.len() + t.len(),
{
    lemma_pieces_exist(s, sep);
    let all = pieces(s, sep);
    if t.len() == 0 {
        assert(s + t =~= s);
        assert(all.last() + t =~= all.last());
        assert(all.drop_last().push(all.last()) =~= all);
    } else {
        let u = t.drop_last();
        assert forall|c: char| u.contains(c) implies t.contains(c) by {
            let i = choose|i: int| 0 <= i < u.len() && u[i] == c;
            assert(t[i] == c);
        }
        lemma_pieces_grow(s, u, sep);
        assert((s + t).drop_last() =~= s + u);
        assert(t[t.len() - 1] == t.last());
        assert((s + t).last() == t.last());
        let before = all.drop_last().push(all.last() + u);
        assert(before.drop_last() =~= all.drop_last());
        assert((all.last() + u).push(t.last()) =~= all.last() + t);
    }
}

proof fn lemma_pieces_exist(s: Seq<char>, sep: char)
    ensures
        pieces(s, sep).len() > 0,
    decreases s.len(),
{
    if s.len() > 0 {
        lemma_pieces_exist(s.drop_last(), sep);
    }
}

/// A text without separators is its only piece.
pub proof fn lemma_one_piece(t: Seq<char>, sep: char)
    requires
        !t.contains(sep),
    ensures
        pieces(t, sep) == seq![t],
{
    let none = Seq::<char>::empty();
    lemma_pieces_grow(none, t, sep);
    assert(none + t =~= t);
    assert(pieces(t, sep) =~= seq![t]);
}

/// A separator and a text without separators make one more piece.
pub proof fn lemma_one_more_piece(s: Seq<char>, t: Seq<char>, sep: char)
    requires
        !t.contains(sep),
    ensures
        pieces(s.push(sep) + t, sep) == pieces(s, sep).push(t),
{
    lemma_pieces_grow(s.push(sep), t, sep);
    assert(s.push(sep).drop_last() =~= s);
    let all = pieces(s, sep);
    assert(pieces(s.push(sep), sep) == all.push(Seq::<char>::empty()));
    assert(all.push(Seq::<char>::empty()).drop_last() =~= all);
    assert(Seq::<char>::empty() + t =~= t);
}

// ---------------------------------------------------------------------------------------------
// Finding in order, replacing
// ---------------------------------------------------------------------------------------------

/// The first position at or after `from` at which `n` occurs in `h`.
pub open spec fn next_at(h: Seq<char>, n: Seq<char>, from: int) -> Option<int>
    decreases h.len() + 1 - from,
{
    if from < 0 || from + n.len() > h.len() {
        None
    } else if occurs_at(h, n, from) {
        Some(from)
    } else {
        next_at(h, n, from + 1)
    }
}

/// What a search found is the next occurrence.
proof fn lemma_next_found(h: Seq<char>, n: Seq<char>, from: int, i: int)
    requires
        0 <= from <= i,
        occurs_at(h, n, i),
        forall|j: int| from <= j < i ==> !#[trigger] occurs_at(h, n, j),
    ensures
        next_at(h, n, from) == Some(i),
    decreases i - from,
{
    if from < i {
        assert(!occurs_at(h, n, from));
        lemma_next_found(h, n, from + 1, i);
    }
}

/// Where a search found nothing there is no next occurrence.
proof fn lemma_next_none(h: Seq<char>, n: Seq<char>, from: int)
    requires
        0 <= from,
        forall|j: int| from <= j ==> !#[trigger] occurs_at(h, n, j),
    ensures
        next_at(h, n, from) is None,
    decreases h.len() + 1 - from,
{
    if from + n.len() <= h.len() {
        assert(!occurs_at(h, n, from));
        lemma_next_none(h, n, from + 1);
    }
}

pub proof fn lemma_next_at_is_occurrence(h: Seq<char>, n: Seq<char>, from: int)
    requires
        0 <= from,
    ensures
        next_at(h, n, from) matches Some(i) ==> from <= i && occurs_at(h, n, i),
    decreases h.len() + 1 - from,
{
    if from + n.len() <= h.len() && !occurs_at(h, n, from) {
        lemma_next_at_is_occurrence(h, n, from + 1);
    }
}

/// The first position at or after `from` at which `n` occurs in `h`.
pub fn find_next(h: &Vec<char>, n: &Vec<char>, from: usize) -> (r: Option<usize>)
    requires
        from <= h@.len(),
    ensures
        match r {
            Some(i) => next_at(h@, n@, from as int) == Some(i as int) && from <= i && i + n@.len()
                <= h@.len(),
            None => next_at(h@, n@, from as int) is None,
        },
{
    let r: Option<usize> = find_from(h, n, from);
    proof {
        match r {
            Some(i) => lemma_next_found(h@, n@, from as int, i as int),
            None => lemma_next_none(h@, n@, from as int),
        }
    }
    r
}

/// `s[from..]` with every occurrence of `n`, left to right and without overlap, replaced by `by`.
pub open spec fn replaced_from(s: Seq<char>, n: Seq<char>, by: Seq<char>, from: int) -> Seq<char>
    decreases s.len() - from,
{
    if from < 0 || from > s.len() || n.len() == 0 {
        Seq::empty()
    } else {
        match next_at(s, n, from) {
            Some(i) => if from <= i && i + n.len() <= s.len() {
                s.subrange(from, i) + by + replaced_from(s, n, by, i + n.len())
            } else {
                Seq::empty()
            },
            None => s.skip(from),
        }
    }
}

/// `s` with every occurrence of `n`, left to right and without overlap, replaced by `by`.
pub open spec fn replaced(s: Seq<char>, n: Seq<char>, by: Seq<char>) -> Seq<char> {
    replaced_from(s, n, by, 0)
}

/// `s` with every occurrence of `n`, left to right and without overlap, replaced by `by`.
pub fn replace(s: &str, n: &str, by: &str) -> (r: String)
    requires
        n@.len() > 0,
    ensures
        r@ == replaced(s@, n@, by@),
{
    let sc: Vec<char> = chars_of(s);
    let nc: Vec<char> = chars_of(n);
    let total: usize = sc.len();
    let mut out: String = String::new();
    let mut from: usize = 0;
    assert(out@ + replaced_from(s@, n@, by@, 0) =~= replaced(s@, n@, by@));
    loop
        invariant
            sc@ == s@,
            nc@ == n@,
            n@.len() > 0,
            total == s@.len(),
            from <= s@.len(),
            replaced(s@, n@, by@) == out@ + replaced_from(s@, n@, by@, from as int),
        decreases s@.len() - from,
    {
        match find_next(&sc, &nc, from) {
            Some(i) => {
                let ghost before = out@;
                let gap: String = string_of(&sc, from, i);
                out.append(gap.as_str());
                out.append(by);
                proof {
                    let rest = replaced_from(s@, n@, by@, i + n@.len());
                    assert(before + (s@.subrange(from as int, i as int) + by@ + rest) =~= out@
                        + rest);
                }
                from = i + nc.len();
            },
            None => {
                let rest: String = string_of(&sc, from, total);
                assert(rest@ =~= s@.skip(from as int));
                out.append(rest.as_str());
                return out;
            },
        }
    }
}

/// What follows the last occurrence of `n` in `s`; all of `s` where there is none.
pub open spec fn after_last(s: Seq<char>, n: Seq<char>) -> Seq<char>
    decreases s.len(),
{
    if has_prefix(s, n) && !occurs(s.skip(1), n) {
        s.skip(n.len() as int)
    } else if s.len() == 0 || !occurs(s, n) {
        s
    } else {
        after_last(s.skip(1), n)
    }
}

pub proof fn lemma_after_last_found(s: Seq<char>, n: Seq<char>, i: int)
    requires
        n.len() > 0,
        occurs_at(s, n, i),
        forall|j: int| i < j ==> !#[trigger] occurs_at(s, n, j),
    ensures
        after_last(s, n) == s.skip(i + n.len()),
    decreases s.len(),
{
    let t = s.skip(1);
    assert forall|j: int| 0 <= j implies #[trigger] occurs_at(t, n, j) == occurs_at(s, n, j + 1) by {
        if j + n.len() <= t.len() {
            assert(t.subrange(j, j + n.len()) =~= s.subrange(j + 1, j + 1 + n.len()));
        }
    }
    if i == 0 {
        assert(s.subrange(0, n.len() as int) =~= s.take(n.len() as int));
        assert(has_prefix(s, n));
        assert(!occurs(t, n)) by {
            if occurs(t, n) {
                let j = choose|j: int| #[trigger] occurs_at(t, n, j);
                assert(occurs_at(s, n, j + 1));
            }
        }
    } else {
        assert(occurs_at(t, n, i - 1));
        assert(occurs(t, n));
        assert(occurs(s, n));
        assert forall|j: int| i - 1 < j implies !#[trigger] occurs_at(t, n, j) by {
            assert(!occurs_at(s, n, j + 1));
        }
        lemma_after_last_found(t, n, i - 1);
        assert(t.skip(i - 1 + n.len()) =~= s.skip(i + n.len()));
    }
}

/// What follows the last occurrence of `n` in `s`; all of `s` where there is none.
pub fn last_piece(s: &str, n: &str) -> (r: String)
    requires
        n@.len() > 0,
    ensures
        r@ == after_last(s@, n@),
{
    let sc: Vec<char> = chars_of(s);
    let nc: Vec<char> = chars_of(n);
    let total: usize = sc.len();
    let mut i: usize = total;
    while i > 0
        invariant
            sc@ == s@,
            nc@ == n@,
            total == s@.len(),
            n@.len() > 0,
            i <= s@.len(),
            forall|j: int| i <= j ==> !#[trigger] occurs_at(s@, n@, j),
        decreases i,
    {
        i -= 1;
        if matches_at(&sc, &nc, i) {
            proof {
                lemma_after_last_found(s@, n@, i as int);
                assert(s@.subrange(i + n@.len(), s@.len() as int) =~= s@.skip(i + n@.len()));
            }
            return string_of(&sc, i + nc.len(), total);
        }
    }
    proof {
        assert(!occurs(s@, n@));
        assert(!has_prefix(s@, n@)) by {
            if has_prefix(s@, n@) {
                assert(s@.subrange(0, n@.len() as int) =~= s@.take(n@.len() as int));
                assert(occurs_at(s@, n@, 0));
            }
        }
    }
    owned(s)
}

/// What follows the last occurrence keeps a tail that no occurrence touches.
pub proof fn lemma_after_last_keeps_tail(s: Seq<char>, n: Seq<char>, k: int)
    requires
        n.len() > 0,
        0 <= k <= s.len(),
        forall|j: int| #[trigger] occurs_at(s, n, j) ==> j + n.len() <= k,
    ensures
        has_suffix(after_last(s, n), s.skip(k)),
    decreases s.len(),
{
    let t = s.skip(1);
    assert forall|j: int| 0 <= j && s.len() > 0 implies #[trigger] occurs_at(t, n, j) == occurs_at(
        s,
        n,
        j + 1,
    ) by {
        if j + n.len() <= t.len() {
            assert(t.subrange(j, j + n.len()) =~= s.subrange(j + 1, j + 1 + n.len()));
        }
    }
    if s.len() == 0 {
        assert(s.skip(k) =~= s);
    } else if has_prefix(s, n) && !occurs(t, n) {
        assert(s.subrange(0, n.len() as int) =~= s.take(n.len() as int));
        assert(occurs_at(s, n, 0));
        assert(s.skip(n.len() as int).skip(k - n.len()) =~= s.skip(k));
    } else if occurs(s, n) {
        if k == 0 {
            let j = choose|j: int| #[trigger] occurs_at(s, n, j);
            assert(false);
        }
        assert forall|j: int| #[trigger] occurs_at(t, n, j) implies j + n.len() <= k - 1 by {
            assert(occurs_at(s, n, j + 1));
        }
        lemma_after_last_keeps_tail(t, n, k - 1);
        assert(t.skip(k - 1) =~= s.skip(k));
    }
}

/// Replacing keeps a tail that no occurrence touches.
pub proof fn lemma_replaced_keeps_tail(
    s: Seq<char>,
    n: Seq<char>,
    by: Seq<char>,
    from: int,
    k: int,
)
    requires
        n.len() > 0,
        0 <= from <= k <= s.len(),
        forall|j: int| #[trigger] occurs_at(s, n, j) ==> j + n.len() <= k,
    ensures
        has_suffix(replaced_from(s, n, by, from), s.skip(k)),
    decreases s.len() - from,
{
    lemma_next_at_is_occurrence(s, n, from);
    let r = replaced_from(s, n, by, from);
    match next_at(s, n, from) {
        Some(i) => {
            lemma_replaced_keeps_tail(s, n, by, i + n.len(), k);
            let rest = replaced_from(s, n, by, i + n.len());
            assert(r == s.subrange(from, i) + by + rest);
            assert(r.skip(r.len() - s.skip(k).len()) =~= rest.skip(rest.len() - s.skip(k).len()));
        },
        None => {
            assert(s.skip(from).skip(k - from) =~= s.skip(k));
        },
    }
}

/// `s` without the prefix `p`, as often as it starts with it.
pub open spec fn without_prefixes(s: Seq<char>, p: Seq<char>) -> Seq<char>
    decreases s.len(),
{
    if p.len() > 0 && has_prefix(s, p) {
        without_prefixes(s.skip(p.len() as int), p)
    } else {
        s
    }
}

/// `s` without the prefix `p`, as often as it starts with it.
pub fn strip_prefixes(s: &str, p: &str) -> (r: String)
    requires
        p@.len() > 0,
    ensures
        r@ == without_prefixes(s@, p@),
{
    let mut cur: String = owned(s);
    loop
        invariant
            p@.len() > 0,
            without_prefixes(s@, p@) == without_prefixes(cur@, p@),
        decreases cur@.len(),
    {
        match strip_prefix(cur.as_str(), p) {
            Some(rest) => {
                cur = rest;
            },
            None => {
                return cur;
            },
        }
    }
}

// ---------------------------------------------------------------------------------------------
// Unicode case
// ---------------------------------------------------------------------------------------------

/// What `str::to_lowercase` makes of a text.
pub uninterp spec fn lowercase(s: Seq<char>) -> Seq<char>;

/// Whether every character of a text is ASCII.
pub open spec fn ascii_only(s: Seq<char>) -> bool {
    forall|i: int| 0 <= i < s.len() ==> (#[trigger] s[i] as int) < 128
}

/// Calls `str::to_lowercase`, which maps a text to its lower case as Unicode defines it. Claimed of
/// it: the result depends on the text alone, and on ASCII text it is the ASCII lower case. What it
/// does to other characters is not said.
#[verifier::external_body]
pub(crate) fn to_lowercase(s: &str) -> (r: String)
    ensures
        r@ == lowercase(s@),
        ascii_only(s@) ==> r@ == lower(s@),
{
    s.to_lowercase()
}

/// What `str::to_uppercase` makes of a text.
pub uninterp spec fn uppercase(s: Seq<char>) -> Seq<char>;

/// The upper-case form of an ASCII letter; any other character as it is.
pub open spec fn upper_char(c: char) -> char {
    if 'a' as u32 <= c as u32 <= 'z' as u32 {
        ((c as u32) - 32) as char
    } else {
        c
    }
}

/// Calls `str::to_uppercase`, which maps a text to its upper case as Unicode defines it. Claimed of
/// it: the result depends on the text alone, and on ASCII text it is the ASCII upper case. What it
/// does to other characters is not said.
#[verifier::external_body]
pub(crate) fn to_uppercase(s: &str) -> (r: String)
    ensures
        r@ == uppercase(s@),
        ascii_only(s@) ==> r@ == Seq::new(s@.len(), |i: int| upper_char(s@[i])),
{
    s.to_uppercase()
}

/// The position of the first `c` in `s`.
pub open spec fn first_at(s: Seq<char>, c: char) -> Option<int>
    decreases s.len(),
{
    if s.len() == 0 {
        None
    } else if first_at(s.drop_last(), c) is Some {
        first_at(s.drop_last(), c)
    } else if s.last() == c {
        Some(s.len() - 1)
    } else {
        None
    }
}

/// The first position is that of the character, and no earlier one is; without one, the character
/// does not occur.
pub proof fn lemma_first_at_is(s: Seq<char>, c: char)
    ensures
        match first_at(s, c) {
            Some(at) => 0 <= at < s.len() && s[at] == c && forall|i: int|
                0 <= i < at ==> #[trigger] s[i] != c,
            None => !s.contains(c),
        },
    decreases s.len(),
{
    if s.len() > 0 {
        let head = s.drop_last();
        lemma_first_at_is(head, c);
        assert forall|i: int| 0 <= i < head.len() implies #[trigger] s[i] == head[i] by {}
        if first_at(head, c) is None {
            assert forall|i: int| 0 <= i < head.len() implies #[trigger] s[i] != c by {
                assert(head.contains(head[i]));
            }
        }
    }
}

/// The position of the first `c`.
pub fn find_char(cs: &Vec<char>, c: char) -> (r: Option<usize>)
    ensures
        match r {
            Some(i) => first_at(cs@, c) == Some(i as int) && i < cs@.len(),
            None => first_at(cs@, c) is None,
        },
{
    let mut i: usize = 0;
    while i < cs.len()
        invariant
            i <= cs@.len(),
            first_at(cs@.take(i as int), c) is None,
        decreases cs@.len() - i,
    {
        proof {
            lemma_take_step(cs@, i as int);
        }
        if cs[i] == c {
            proof {
                lemma_found_stays(|l: Seq<char>| first_at(l, c), cs@, i + 1);
            }
            return Some(i);
        }
        i += 1;
    }
    assert(cs@.take(i as int) =~= cs@);
    None
}

} // verus!
