//! Percent-encoding of the names that go into addresses.
use crate::text::{chars_of, lemma_take_step};
use vstd::prelude::*;
use vstd::utf8::encode_utf8;

pub mod laws;

verus! {

/// The upper-case hexadecimal digit for a number below sixteen.
pub open spec fn hex_char(n: int) -> char {
    if n < 10 {
        (48 + n) as char
    } else {
        (55 + n) as char
    }
}

/// A byte as `%` and two hexadecimal digits.
pub open spec fn escaped_byte(b: u8) -> Seq<char> {
    seq!['%', hex_char(b as int / 16), hex_char(b as int % 16)]
}

/// Bytes with each control byte, each byte beyond ASCII and each byte of `reserved` escaped, and
/// the others as the characters that they are.
pub open spec fn percent_encoded(bytes: Seq<u8>, reserved: Seq<char>) -> Seq<char>
    decreases bytes.len(),
{
    if bytes.len() == 0 {
        Seq::empty()
    } else {
        let b = bytes.last();
        let head = percent_encoded(bytes.drop_last(), reserved);
        if b < 0x20 || b >= 0x7f || reserved.contains(b as char) {
            head + escaped_byte(b)
        } else {
            head.push(b as char)
        }
    }
}

/// What a path segment may not hold as it is.
pub const SEGMENT_RESERVED: &'static str = " \"#%/<>?`{}";

/// What a project path may not hold as it is.
pub const PROJECT_RESERVED: &'static str = " /%#?&+";

/// Calls `percent_encoding::percent_encode_byte`. Claimed of it: the result is `%` and the two
/// upper-case hexadecimal digits of the byte.
#[verifier::external_body]
fn escape_byte(b: u8) -> (r: String)
    ensures
        r@ == escaped_byte(b),
{
    percent_encoding::percent_encode_byte(b).to_string()
}

/// Whether `reserved` holds the character of the byte.
fn is_reserved(reserved: &Vec<char>, b: u8) -> (r: bool)
    ensures
        r == reserved@.contains(b as char),
{
    let c: char = b as char;
    let mut i: usize = 0;
    while i < reserved.len()
        invariant
            i <= reserved@.len(),
            c == b as char,
            forall|j: int| 0 <= j < i ==> reserved@[j] != c,
        decreases reserved@.len() - i,
    {
        if reserved[i] == c {
            return true;
        }
        i += 1;
    }
    false
}

/// A text with its control, reserved and non-ASCII bytes escaped.
pub fn percent_encode(s: &str, reserved: &str) -> (r: String)
    ensures
        r@ == percent_encoded(encode_utf8(s@), reserved@),
{
    let set: Vec<char> = chars_of(reserved);
    let bytes: &[u8] = s.as_bytes();
    let mut r: String = String::new();
    let mut i: usize = 0;
    while i < bytes.len()
        invariant
            i <= bytes@.len(),
            bytes@ == encode_utf8(s@),
            set@ == reserved@,
            r@ == percent_encoded(bytes@.take(i as int), reserved@),
        decreases bytes@.len() - i,
    {
        proof {
            lemma_take_step(bytes@, i as int);
        }
        let b: u8 = bytes[i];
        if b < 0x20 || b >= 0x7f || is_reserved(&set, b) {
            r.append(escape_byte(b).as_str());
        } else {
            r.push(b as char);
        }
        i += 1;
    }
    assert(bytes@.take(i as int) =~= bytes@);
    r
}

/// Percent-encodes one segment of a path, such as a project's name.
pub fn enc(segment: &str) -> (r: String)
    ensures
        r@ == encoded_segment(segment@),
{
    percent_encode(segment, SEGMENT_RESERVED)
}

/// Percent-encodes a project path; its slashes too.
pub fn enc_project(path: &str) -> (r: String)
    ensures
        r@ == encoded_project(path@),
{
    percent_encode(path, PROJECT_RESERVED)
}

/// A path segment, percent-encoded.
pub open spec fn encoded_segment(s: Seq<char>) -> Seq<char> {
    percent_encoded(encode_utf8(s), SEGMENT_RESERVED@)
}

/// A project path, percent-encoded.
pub open spec fn encoded_project(s: Seq<char>) -> Seq<char> {
    percent_encoded(encode_utf8(s), PROJECT_RESERVED@)
}

} // verus!
