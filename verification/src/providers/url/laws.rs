//! What percent-encoding promises.
use super::{encoded_project, encoded_segment, escaped_byte, hex_char, percent_encoded};
use vstd::prelude::*;
use vstd::utf8::encode_utf8;

verus! {

/// Bytes are encoded one after the other: two runs of bytes make the one encoding, then the other.
pub proof fn law_bytes_are_encoded_in_turn(a: Seq<u8>, b: Seq<u8>, reserved: Seq<char>)
    ensures
        percent_encoded(a + b, reserved) == percent_encoded(a, reserved) + percent_encoded(
            b,
            reserved,
        ),
    decreases b.len(),
{
    if b.len() == 0 {
        assert(a + b =~= a);
        assert(percent_encoded(a, reserved) + Seq::<char>::empty() =~= percent_encoded(
            a,
            reserved,
        ));
    } else {
        law_bytes_are_encoded_in_turn(a, b.drop_last(), reserved);
        assert((a + b).drop_last() =~= a + b.drop_last());
        assert(percent_encoded(a + b, reserved) =~= percent_encoded(a, reserved)
            + percent_encoded(b, reserved));
    }
}

/// One byte stays the character that it is, unless it is a control byte, beyond ASCII or reserved:
/// then it is a percent sign and two hexadecimal digits.
pub proof fn law_one_byte(b: u8, reserved: Seq<char>)
    ensures
        0x20 <= b < 0x7f && !reserved.contains(b as char) ==> percent_encoded(seq![b], reserved)
            == seq![b as char],
        !(0x20 <= b < 0x7f) || reserved.contains(b as char) ==> percent_encoded(seq![b], reserved)
            == seq!['%', hex_char(b as int / 16), hex_char(b as int % 16)],
{
    reveal_with_fuel(percent_encoded, 2);
    assert(seq![b].drop_last() =~= Seq::<u8>::empty());
    assert(percent_encoded(Seq::<u8>::empty(), reserved) =~= Seq::<char>::empty());
    assert(Seq::<char>::empty() + escaped_byte(b) =~= escaped_byte(b));
    assert(percent_encoded(seq![b], reserved) =~= (if 0x20 <= b < 0x7f && !reserved.contains(
        b as char,
    ) {
        seq![b as char]
    } else {
        escaped_byte(b)
    }));
}

/// The hexadecimal digits are the decimal ones and the first six capital letters.
pub proof fn law_hexadecimal_digits(n: int)
    requires
        0 <= n < 16,
    ensures
        n < 10 ==> hex_char(n) as u32 == '0' as u32 + n,
        n >= 10 ==> hex_char(n) as u32 == 'A' as u32 + (n - 10),
{
}

/// A segment is encoded byte by byte, and so is a project's path; a slash stays in neither.
pub proof fn law_names_are_encoded(s: Seq<char>)
    ensures
        encoded_segment(s) == percent_encoded(encode_utf8(s), " \"#%/<>?`{}"@),
        encoded_project(s) == percent_encoded(encode_utf8(s), " /%#?&+"@),
        !encoded_segment(s).contains('/'),
        !encoded_project(s).contains('/'),
{
    reveal_strlit(" \"#%/<>?`{}");
    reveal_strlit(" /%#?&+");
    assert(" \"#%/<>?`{}"@[4] == '/');
    assert(" /%#?&+"@[1] == '/');
    lemma_no_reserved(encode_utf8(s), " \"#%/<>?`{}"@);
    lemma_no_reserved(encode_utf8(s), " /%#?&+"@);
}

proof fn lemma_no_reserved(bytes: Seq<u8>, reserved: Seq<char>)
    requires
        reserved.contains('/'),
    ensures
        !percent_encoded(bytes, reserved).contains('/'),
    decreases bytes.len(),
{
    let all = percent_encoded(bytes, reserved);
    if bytes.len() > 0 {
        let head = percent_encoded(bytes.drop_last(), reserved);
        lemma_no_reserved(bytes.drop_last(), reserved);
        if all.contains('/') {
            let i = choose|i: int| 0 <= i < all.len() && all[i] == '/';
            if i < head.len() {
                assert(head[i] == '/');
            } else {
                let b = bytes.last();
                if b < 0x20 || b >= 0x7f || reserved.contains(b as char) {
                    assert(all[i] == escaped_byte(b)[i - head.len()]);
                    law_hexadecimal_digits(b as int / 16);
                    law_hexadecimal_digits(b as int % 16);
                } else {
                    assert(all[i] == b as char);
                }
            }
        }
    }
}

} // verus!
