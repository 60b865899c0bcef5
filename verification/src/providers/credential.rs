//! How a provider is told who asks.
use crate::text::cat2;
use vstd::prelude::*;
use vstd::utf8::encode_utf8;

pub mod laws;

verus! {

/// An access token and the way it is presented.
#[derive(Debug, Clone, PartialEq, Eq)]
pub enum Credential {
    Pat(String),
    Bearer(String),
}

/// The character for six bits in the standard base64 alphabet.
pub open spec fn base64_char(n: int) -> char {
    if n < 26 {
        (65 + n) as char
    } else if n < 52 {
        (71 + n) as char
    } else if n < 62 {
        (n - 4) as char
    } else if n == 62 {
        '+'
    } else {
        '/'
    }
}

/// The standard base64 form of bytes: four characters for three bytes, `=` for what is missing at
/// the end.
pub open spec fn base64_of(bytes: Seq<u8>) -> Seq<char>
    decreases bytes.len(),
{
    if bytes.len() == 0 {
        Seq::empty()
    } else {
        let b0 = bytes[0] as int;
        let b1 = if bytes.len() > 1 {
            bytes[1] as int
        } else {
            0
        };
        let b2 = if bytes.len() > 2 {
            bytes[2] as int
        } else {
            0
        };
        let c2 = if bytes.len() > 1 {
            base64_char((b1 % 16) * 4 + b2 / 64)
        } else {
            '='
        };
        let c3 = if bytes.len() > 2 {
            base64_char(b2 % 64)
        } else {
            '='
        };
        let group = seq![base64_char(b0 / 4), base64_char((b0 % 4) * 16 + b1 / 16), c2, c3];
        if bytes.len() <= 3 {
            group
        } else {
            group + base64_of(bytes.skip(3))
        }
    }
}

/// Calls `encode` of `base64`'s standard engine. Claimed of it: the result is the standard base64
/// form, with padding, of the text's UTF-8 bytes.
#[verifier::external_body]
fn encode_base64(text: &str) -> (r: String)
    ensures
        r@ == base64_of(encode_utf8(text@)),
{
    base64::Engine::encode(&base64::engine::general_purpose::STANDARD, text)
}

/// The `Authorization` header for a credential: HTTP Basic with an empty user name for a personal
/// access token, Bearer for an OAuth token.
pub open spec fn header_of(c: Credential) -> Seq<char> {
    match c {
        Credential::Pat(pat) => "Basic "@ + base64_of(encode_utf8(":"@ + pat@)),
        Credential::Bearer(token) => "Bearer "@ + token@,
    }
}

impl Credential {
    /// The `Authorization` header for the credential.
    pub fn header_value(&self) -> (r: String)
        ensures
            r@ == header_of(*self),
    {
        match self {
            Credential::Pat(pat) => {
                let plain: String = cat2(":", pat.as_str());
                cat2("Basic ", encode_base64(plain.as_str()).as_str())
            },
            Credential::Bearer(token) => cat2("Bearer ", token.as_str()),
        }
    }
}

/// The token of either kind of credential; an empty one stands for anonymous access.
pub fn credential_token(credential: &Credential) -> (r: &str)
    ensures
        r@ == (match credential {
            Credential::Pat(s) => s@,
            Credential::Bearer(s) => s@,
        }),
{
    match credential {
        Credential::Pat(s) => s.as_str(),
        Credential::Bearer(s) => s.as_str(),
    }
}

} // verus!
