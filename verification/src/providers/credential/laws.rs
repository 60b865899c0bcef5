//! What the header for a credential promises.
use super::{base64_of, header_of, Credential};
use vstd::prelude::*;
use vstd::utf8::encode_utf8;

verus! {

/// A personal access token is presented as a password without a user name, any other token as it
/// is.
pub proof fn law_how_tokens_are_presented(token: String)
    ensures
        header_of(Credential::Bearer(token)).take("Bearer "@.len() as int) == "Bearer "@,
        header_of(Credential::Bearer(token)).skip("Bearer "@.len() as int) == token@,
        header_of(Credential::Pat(token)).take("Basic "@.len() as int) == "Basic "@,
        header_of(Credential::Pat(token)).skip("Basic "@.len() as int) == base64_of(
            encode_utf8(seq![':'] + token@),
        ),
{
    reveal_strlit(":");
    assert(":"@ =~= seq![':']);
    assert(header_of(Credential::Bearer(token)).take("Bearer "@.len() as int) =~= "Bearer "@);
    assert(header_of(Credential::Bearer(token)).skip("Bearer "@.len() as int) =~= token@);
    assert(header_of(Credential::Pat(token)).take("Basic "@.len() as int) =~= "Basic "@);
    let coded = base64_of(encode_utf8(":"@ + token@));
    assert(header_of(Credential::Pat(token)).skip("Basic "@.len() as int) =~= coded);
}

/// Three bytes make four characters, and what is left at the end makes four as well.
pub proof fn law_length_of_base64(bytes: Seq<u8>)
    ensures
        base64_of(bytes).len() == (bytes.len() + 2) / 3 * 4,
    decreases bytes.len(),
{
    if bytes.len() > 3 {
        law_length_of_base64(bytes.skip(3));
    }
}

} // verus!
