//! What the server's answers promise.
use super::{
    all_hex, build_stamp, hex_char, json_char, json_chars, owner_of_request,
    quoted, shown_stamp, stamped,
};
use crate::text::{is_hex_digit, trimmed};
use vstd::prelude::*;

verus! {

/// Where tokens are verified, a request belongs to the owner that its token names, or to nobody;
/// elsewhere to the address in its header, which may be empty.
pub proof fn law_whose_a_request_is(
    verified: Option<Result<Seq<char>, Seq<char>>>,
    email: Option<Seq<char>>,
    owner: Seq<char>,
    reason: Seq<char>,
)
    ensures
        owner_of_request(Some(Ok(owner)), email) == Some(owner),
        owner_of_request(Some(Err(reason)), email) is None,
        owner_of_request(None, Some(owner)) == Some(owner),
        owner_of_request(None, None) == Some(Seq::<char>::empty()),
        owner_of_request(verified, email) is None ==> verified matches Some(Err(_)),
{
}

/// A build is shown by its commit where that is known, else by its version where that is one, else
/// as one in development.
pub proof fn law_what_is_shown_of_a_build(commit: Seq<char>, version: Seq<char>)
    ensures
        ({
            let has_commit = commit.len() > 0 && commit != "unknown"@;
            let has_version = version.len() > 0 && version != "latest-main"@;
            &&& has_commit ==> build_stamp(commit, version) == commit
            &&& !has_commit && has_version ==> build_stamp(commit, version) == version
            &&& !has_commit && !has_version ==> build_stamp(commit, version) == "dev"@
        }),
{
}

/// The name of a commit is cut to twelve digits; anything else is shown whole.
pub proof fn law_commits_are_cut_short(stamp: Seq<char>)
    ensures
        stamp.len() > 12 && (forall|i: int| 0 <= i < stamp.len() ==> is_hex_digit(
            #[trigger] stamp[i],
        )) ==> shown_stamp(stamp) == stamp.take(12),
        stamp.len() <= 12 ==> shown_stamp(stamp) == stamp,
        (exists|i: int| 0 <= i < stamp.len() && !is_hex_digit(#[trigger] stamp[i]))
            ==> shown_stamp(stamp) == stamp,
{
}

/// What a variable says at run time counts, unless it is blank; then what it said at build time, and
/// then the default.
pub proof fn law_run_time_counts(
    at_run: Option<Seq<char>>,
    at_build: Option<Seq<char>>,
    default: Seq<char>,
)
    ensures
        at_run is Some && trimmed(at_run->0).len() > 0 ==> stamped(at_run, at_build, default)
            == at_run->0,
        (at_run is None || trimmed(at_run->0).len() == 0) && at_build is Some ==> stamped(
            at_run,
            at_build,
            default,
        ) == at_build->0,
        (at_run is None || trimmed(at_run->0).len() == 0) && at_build is None ==> stamped(
            at_run,
            at_build,
            default,
        ) == default,
{
}

/// A text is quoted character by character.
pub proof fn law_quoting_goes_by_character(a: Seq<char>, b: Seq<char>, c: char)
    ensures
        json_chars(a + b) == json_chars(a) + json_chars(b),
        json_chars(seq![c]) == json_char(c),
        quoted(a) == seq!['"'] + json_chars(a) + seq!['"'],
    decreases b.len(),
{
    reveal_with_fuel(json_chars, 2);
    assert(seq![c].drop_last() =~= Seq::<char>::empty());
    assert(Seq::<char>::empty() + json_char(c) =~= json_char(c));
    if b.len() == 0 {
        assert(a + b =~= a);
        assert(json_chars(a) + json_chars(b) =~= json_chars(a));
    } else {
        law_quoting_goes_by_character(a, b.drop_last(), c);
        assert((a + b).drop_last() =~= a + b.drop_last());
        assert(json_chars(a + b) =~= json_chars(a) + json_chars(b));
    }
}

/// Inside quotes, a character is itself, unless it is a quote, a backslash or a control character:
/// then a backslash precedes what stands for it, and no control character is left.
pub proof fn law_quoted_characters(c: char)
    ensures
        c as u32 >= 32 && c != '"' && c != '\\' ==> json_char(c) == seq![c],
        c == '"' || c == '\\' ==> json_char(c) == seq!['\\', c],
        (c as u32) < 32 ==> json_char(c).len() >= 2 && json_char(c)[0] == '\\' && forall|i: int|
            0 <= i < json_char(c).len() ==> (#[trigger] json_char(c)[i]) as u32 >= 32,
        json_char('\n') == seq!['\\', 'n'],
        json_char('\r') == seq!['\\', 'r'],
        json_char('\t') == seq!['\\', 't'],
{
    assert(hex_char(c as int % 16) as u32 >= 32);
    if (c as u32) < 32 {
        assert(hex_char(c as int / 16) as u32 >= 32);
    }
}

} // verus!
