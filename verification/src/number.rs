//! Decimal numbers as text.
use crate::text::{chars_of, digit, is_digit};
use vstd::prelude::*;

pub mod laws;

verus! {

/// The character for a digit.
pub open spec fn digit_char(d: int) -> char {
    (48 + d) as char
}

/// The decimal digits of a natural number, without leading zeros.
pub open spec fn decimal(n: nat) -> Seq<char>
    decreases n,
{
    if n < 10 {
        seq![digit_char(n as int)]
    } else {
        decimal(n / 10).push(digit_char((n % 10) as int))
    }
}

/// The decimal form of an integer, with a leading `-` where it is negative.
pub open spec fn signed_decimal(n: int) -> Seq<char> {
    if n < 0 {
        seq!['-'] + decimal((-n) as nat)
    } else {
        decimal(n as nat)
    }
}

/// The decimal digits of `n`.
pub fn format_u64(n: u64) -> (r: String)
    ensures
        r@ == decimal(n as nat),
    decreases n,
{
    let d: u8 = (n % 10) as u8;
    let c: char = (48u8 + d) as char;
    if n < 10 {
        let mut r: String = String::new();
        r.push(c);
        assert(r@ =~= seq![digit_char(n as int)]);
        r
    } else {
        let mut r: String = format_u64(n / 10);
        r.push(c);
        r
    }
}

/// The decimal digits of `n`.
pub fn format_usize(n: usize) -> (r: String)
    ensures
        r@ == decimal(n as nat),
{
    format_u64(n as u64)
}

/// The decimal form of `n`.
pub fn format_i64(n: i64) -> (r: String)
    ensures
        r@ == signed_decimal(n as int),
{
    if n < 0 {
        let m: u64 = (-(n as i128)) as u64;
        let mut r: String = String::new();
        r.push('-');
        let digits: String = format_u64(m);
        r.append(digits.as_str());
        assert(r@ =~= seq!['-'] + decimal(m as nat));
        r
    } else {
        format_u64(n as u64)
    }
}

/// Whether a text is made of one or more decimal digits.
pub open spec fn all_digits(s: Seq<char>) -> bool {
    s.len() > 0 && forall|i: int| 0 <= i < s.len() ==> is_digit(#[trigger] s[i])
}

/// The number that a text of decimal digits stands for.
pub open spec fn digits_value(s: Seq<char>) -> nat
    decreases s.len(),
{
    if s.len() == 0 {
        0
    } else {
        digits_value(s.drop_last()) * 10 + (s.last() as u32 - 48) as nat
    }
}

/// A text without its sign, where it starts with `+`.
pub open spec fn unsigned_part(s: Seq<char>) -> Seq<char> {
    if s.len() > 0 && s[0] == '+' {
        s.skip(1)
    } else {
        s
    }
}

/// The number that `s` stands for, when it is an optional `+` and decimal digits and the number
/// is at most `max`.
pub open spec fn parsed_nat(s: Seq<char>, max: nat) -> Option<nat> {
    let digits = unsigned_part(s);
    if all_digits(digits) && digits_value(digits) <= max {
        Some(digits_value(digits))
    } else {
        None
    }
}

/// The number that `s` stands for, when it is an optional sign and decimal digits and the number
/// fits in 64 bits.
pub open spec fn parsed_i64(s: Seq<char>) -> Option<int> {
    if s.len() > 0 && s[0] == '-' {
        let digits = s.skip(1);
        if all_digits(digits) && digits_value(digits) <= 0x8000_0000_0000_0000 {
            Some(-(digits_value(digits) as int))
        } else {
            None
        }
    } else {
        match parsed_nat(s, i64::MAX as nat) {
            Some(n) => Some(n as int),
            None => None,
        }
    }
}

proof fn lemma_value_grows(s: Seq<char>, n: int)
    requires
        0 <= n <= s.len(),
    ensures
        digits_value(s.take(n)) <= digits_value(s),
    decreases s.len() - n,
{
    if n == s.len() {
        assert(s.take(n) =~= s);
    } else {
        lemma_value_grows(s, n + 1);
        assert(s.take(n + 1).drop_last() =~= s.take(n));
    }
}

/// The value of the digits `cs[from..]`, when they are digits and the value is at most `max`.
fn parse_digits(cs: &Vec<char>, from: usize, max: u64) -> (r: Option<u64>)
    requires
        from <= cs@.len(),
    ensures
        ({
            let digits = cs@.skip(from as int);
            match r {
                Some(n) => all_digits(digits) && n == digits_value(digits) && n <= max,
                None => !(all_digits(digits) && digits_value(digits) <= max),
            }
        }),
{
    let ghost digits = cs@.skip(from as int);
    if from == cs.len() {
        return None;
    }
    let mut n: u64 = 0;
    let mut i: usize = from;
    assert(digits.take(0) =~= Seq::<char>::empty());
    while i < cs.len()
        invariant
            from <= i <= cs@.len(),
            digits == cs@.skip(from as int),
            forall|j: int| 0 <= j < i - from ==> is_digit(#[trigger] digits[j]),
            n == digits_value(digits.take(i - from)),
            n <= max,
        decreases cs@.len() - i,
    {
        let c: char = cs[i];
        if !digit(c) {
            assert(!is_digit(digits[i - from]));
            return None;
        }
        let d: u64 = ((c as u32) - 48) as u64;
        proof {
            assert(digits.take(i - from + 1).drop_last() =~= digits.take(i - from));
            lemma_value_grows(digits, i - from + 1);
        }
        let wide: u128 = (n as u128) * 10 + (d as u128);
        if wide > max as u128 {
            return None;
        }
        n = wide as u64;
        i += 1;
    }
    assert(digits.take(i - from) =~= digits);
    Some(n)
}

/// The number that `s` stands for: an optional `+` and decimal digits, at most `max`.
pub fn parse_nat(s: &str, max: u64) -> (r: Option<u64>)
    ensures
        match r {
            Some(n) => parsed_nat(s@, max as nat) == Some(n as nat),
            None => parsed_nat(s@, max as nat) is None,
        },
{
    let cs: Vec<char> = chars_of(s);
    let from: usize = if cs.len() > 0 && cs[0] == '+' {
        1
    } else {
        0
    };
    assert(s@.skip(from as int) =~= unsigned_part(s@));
    parse_digits(&cs, from, max)
}

/// The number that `s` stands for: an optional sign and decimal digits that fit in 64 bits.
pub fn parse_i64(s: &str) -> (r: Option<i64>)
    ensures
        match r {
            Some(n) => parsed_i64(s@) == Some(n as int),
            None => parsed_i64(s@) is None,
        },
{
    let cs: Vec<char> = chars_of(s);
    if cs.len() > 0 && cs[0] == '-' {
        match parse_digits(&cs, 1, 0x8000_0000_0000_0000) {
            Some(n) => Some((-(n as i128)) as i64),
            None => None,
        }
    } else {
        match parse_nat(s, 0x7fff_ffff_ffff_ffff) {
            Some(n) => Some(n as i64),
            None => None,
        }
    }
}

/// The decimal form of a natural number is made of digits, and they stand for the number.
pub proof fn lemma_decimal_reads_back(n: nat)
    ensures
        all_digits(decimal(n)),
        digits_value(decimal(n)) == n,
    decreases n,
{
    if n < 10 {
        let s = decimal(n);
        assert(s.drop_last() =~= Seq::<char>::empty());
        assert(digits_value(s.drop_last()) == 0);
    } else {
        lemma_decimal_reads_back(n / 10);
        let head = decimal(n / 10);
        let s = decimal(n);
        assert(s.drop_last() =~= head);
        assert(s.last() == digit_char((n % 10) as int));
        assert forall|i: int| 0 <= i < s.len() implies is_digit(#[trigger] s[i]) by {
            if i < head.len() {
                assert(s[i] == head[i]);
            }
        }
    }
}

/// A number that is written in decimal is read back.
pub proof fn law_numbers_read_back(n: i64)
    ensures
        parsed_i64(signed_decimal(n as int)) == Some(n as int),
{
    let s = signed_decimal(n as int);
    if n < 0 {
        lemma_decimal_reads_back((-n) as nat);
        assert(s.skip(1) =~= decimal((-n) as nat));
    } else {
        lemma_decimal_reads_back(n as nat);
        assert(is_digit(s[0]));
    }
}

} // verus!
