//! What decimal numbers promise.
use super::{
    all_digits, decimal, digit_char, digits_value, lemma_decimal_reads_back, parsed_i64, parsed_nat,
    unsigned_part,
};
use crate::text::is_digit;
use vstd::prelude::*;

verus! {

/// The last digit of a number is what is left over of it, and the digits before are those of the
/// rest; no number but zero starts with the digit zero.
pub proof fn law_digits(n: nat)
    ensures
        decimal(n).len() > 0,
        decimal(n).last() as u32 == '0' as u32 + n % 10,
        n >= 10 ==> decimal(n).drop_last() == decimal(n / 10),
        n < 10 ==> decimal(n).len() == 1,
        n > 0 ==> decimal(n)[0] != '0',
    decreases n,
{
    if n >= 10 {
        law_digits(n / 10);
        assert(decimal(n).drop_last() =~= decimal(n / 10));
        assert(decimal(n)[0] == decimal(n / 10)[0]);
    }
}

/// A text is read as a number exactly when it is made of digits, with at most a `+` before them,
/// and the number is not too large.
pub proof fn law_what_is_a_number(s: Seq<char>, max: nat)
    ensures
        parsed_nat(s, max) is Some ==> parsed_nat(s, max)->0 <= max && s.len() > 0 && (s[0] == '+'
            || is_digit(s[0])) && forall|i: int| 1 <= i < s.len() ==> is_digit(#[trigger] s[i]),
        s.len() > 0 && !is_digit(s.last()) ==> parsed_nat(s, max) is None,
        s.len() == 0 ==> parsed_nat(s, max) is None,
{
    let digits = unsigned_part(s);
    if parsed_nat(s, max) is Some {
        assert(is_digit(digits[0]));
        if s[0] == '+' {
            assert forall|i: int| 1 <= i < s.len() implies is_digit(#[trigger] s[i]) by {
                assert(digits[i - 1] == s[i]);
            }
        }
    }
    if s.len() > 0 && all_digits(digits) {
        assert(is_digit(digits[digits.len() - 1]));
    }
}

/// A number that is written is read back where it is not too large, with a `+` before it too.
pub proof fn law_numbers_are_read(n: nat, max: nat)
    ensures
        parsed_nat(decimal(n), max) == (if n <= max {
            Some(n)
        } else {
            None
        }),
        parsed_nat(seq!['+'] + decimal(n), max) == parsed_nat(decimal(n), max),
{
    lemma_decimal_reads_back(n);
    assert(is_digit(decimal(n)[0]));
    assert((seq!['+'] + decimal(n)).skip(1) =~= decimal(n));
}

proof fn lemma_zeros(n: nat)
    ensures
        all_digits(seq!['0'] + decimal(n)),
        digits_value(seq!['0'] + decimal(n)) == n,
    decreases n,
{
    let s = seq!['0'] + decimal(n);
    lemma_decimal_reads_back(n);
    assert forall|i: int| 0 <= i < s.len() implies is_digit(#[trigger] s[i]) by {
        if i > 0 {
            assert(s[i] == decimal(n)[i - 1]);
        }
    }
    if n < 10 {
        assert(s.drop_last() =~= seq!['0']);
        assert(seq!['0'].drop_last() =~= Seq::<char>::empty());
        assert(digits_value(seq!['0'].drop_last()) == 0);
        assert(digits_value(seq!['0']) == 0);
        assert(s.last() == digit_char(n as int));
    } else {
        lemma_zeros(n / 10);
        assert(s.drop_last() =~= seq!['0'] + decimal(n / 10));
        assert(s.last() == digit_char((n % 10) as int));
    }
}

/// A zero before a number does not change it.
pub proof fn law_leading_zeros(n: nat, max: nat)
    ensures
        parsed_nat(seq!['0'] + decimal(n), max) == parsed_nat(decimal(n), max),
{
    lemma_zeros(n);
    law_numbers_are_read(n, max);
    let s = seq!['0'] + decimal(n);
    assert(s[0] == '0');
    assert(unsigned_part(s) == s);
}

/// A signed number is read as the number without its sign, taken away from zero after a `-`; it fits
/// in 64 bits.
pub proof fn law_signed_numbers(n: nat)
    ensures
        parsed_i64(seq!['-'] + decimal(n)) == (if n <= 0x8000_0000_0000_0000 {
            Some(-(n as int))
        } else {
            None
        }),
        parsed_i64(decimal(n)) == (if n <= 0x7fff_ffff_ffff_ffff {
            Some(n as int)
        } else {
            None
        }),
{
    lemma_decimal_reads_back(n);
    law_numbers_are_read(n, i64::MAX as nat);
    assert((seq!['-'] + decimal(n)).skip(1) =~= decimal(n));
    assert(is_digit(decimal(n)[0]));
}

} // verus!
