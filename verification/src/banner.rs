//! The greeting of the command line: an emblem, a name and a motto beneath it.
use crate::text::{cat3, char_count, owned, views};
use vstd::prelude::*;

pub mod laws;

verus! {

/// The width of the emblem.
pub const WIDTH: usize = 40;

/// A number of spaces.
pub open spec fn spaces(n: nat) -> Seq<char> {
    Seq::new(n, |i: int| ' ')
}

/// A text in the middle beneath the emblem; a text that is wider starts at the margin.
pub open spec fn centred(s: Seq<char>) -> Seq<char> {
    if s.len() >= 40 {
        s
    } else {
        spaces(((40 - s.len()) / 2) as nat) + s
    }
}

/// A text in the middle beneath the emblem.
pub fn centre(s: &str) -> (r: String)
    ensures
        r@ == centred(s@),
{
    let n: usize = char_count(s);
    let pad: usize = if n >= WIDTH {
        0
    } else {
        (WIDTH - n) / 2
    };
    let mut r: String = String::new();
    let mut i: usize = 0;
    while i < pad
        invariant
            i <= pad,
            r@ == spaces(i as nat),
        decreases pad - i,
    {
        r.push(' ');
        assert(r@ =~= spaces((i + 1) as nat));
        i += 1;
    }
    r.append(s);
    assert(r@ =~= centred(s@));
    r
}

/// The place in a list of a length that a number of nanoseconds picks.
pub fn pick(nanos: usize, len: usize) -> (r: usize)
    ensures
        len == 0 ==> r == 0,
        len > 0 ==> r == nanos % len && r < len,
{
    if len == 0 {
        0
    } else {
        nanos % len
    }
}

/// The mottos.
pub open spec fn mottos() -> Seq<Seq<char>> {
    seq![
        "Weather the storm"@,
        "Stem the tide"@,
        "Ride the wave"@,
        "Keep your head above water"@,
        "Stay afloat"@,
    ]
}

/// The mottos.
pub fn motds() -> (r: Vec<String>)
    ensures
        views(r@) == mottos(),
{
    let mut r: Vec<String> = Vec::new();
    r.push(owned("Weather the storm"));
    r.push(owned("Stem the tide"));
    r.push(owned("Ride the wave"));
    r.push(owned("Keep your head above water"));
    r.push(owned("Stay afloat"));
    assert(views(r@) =~= mottos());
    r
}

/// The lines beneath the emblem: the name, and the motto that a number of nanoseconds picks.
pub fn caption(nanos: usize) -> (r: Vec<String>)
    ensures
        views(r@) == seq![
            centred("P O S E I D E N"@),
            centred("\""@ + mottos()[nanos as int % 5] + "\""@),
        ],
{
    let all: Vec<String> = motds();
    assert(views(all@).len() == 5);
    let at: usize = pick(nanos, all.len());
    assert(views(all@)[at as int] == all@[at as int]@);
    let mut r: Vec<String> = Vec::new();
    r.push(centre("P O S E I D E N"));
    r.push(centre(cat3("\"", all[at].as_str(), "\"").as_str()));
    assert(views(r@) =~= seq![
        centred("P O S E I D E N"@),
        centred("\""@ + mottos()[nanos as int % 5] + "\""@),
    ]);
    r
}

/// A text beneath the emblem does not go beyond its width, unless it is wider by itself.
pub proof fn law_centred_fits(s: Seq<char>)
    ensures
        centred(s).len() <= 40 || centred(s) == s,
        centred(s).skip(centred(s).len() - s.len()) == s,
{
    assert(centred(s).skip(centred(s).len() - s.len()) =~= s);
}

} // verus!
