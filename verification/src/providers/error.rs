//! What can go wrong with a provider.
use crate::number::{decimal, format_u64};
use crate::text::cat2;
use vstd::prelude::*;

verus! {

/// Why a provider could not answer.
#[derive(Debug, Clone, PartialEq, Eq)]
pub enum ProviderError {
    /// The request itself failed; the text says how.
    Http(String),
    /// The provider answered with an error status.
    Api { status: u16, url: String, body: String },
    Client(String),
    Config(String),
    NotSignedIn(String),
    NotFound(String),
}

/// Whether an error is a configuration error with this text.
pub open spec fn is_config_error(e: ProviderError, text: Seq<char>) -> bool {
    e matches ProviderError::Config(m) && m@ == text
}

/// Whether an error says with this text that something was not found.
pub open spec fn is_not_found(e: ProviderError, text: Seq<char>) -> bool {
    e matches ProviderError::NotFound(m) && m@ == text
}

impl ProviderError {
    /// The error in words.
    pub fn message(&self) -> (r: String)
        ensures
            r@ == (match self {
                ProviderError::Http(m) => "HTTP request failed: "@ + m@,
                ProviderError::Api { status, url, body } => "Azure DevOps returned "@ + decimal(
                    *status as nat,
                ) + " for "@ + url@ + ": "@ + body@,
                ProviderError::Client(m) => "failed to build HTTP client: "@ + m@,
                ProviderError::Config(m) => "configuration error: "@ + m@,
                ProviderError::NotSignedIn(m) => "not signed in: "@ + m@,
                ProviderError::NotFound(m) => "not found: "@ + m@,
            }),
    {
        match self {
            ProviderError::Http(m) => cat2("HTTP request failed: ", m.as_str()),
            ProviderError::Api { status, url, body } => {
                let mut r: String = cat2("Azure DevOps returned ", format_u64(*status as u64).as_str());
                r.append(" for ");
                r.append(url.as_str());
                r.append(": ");
                r.append(body.as_str());
                r
            },
            ProviderError::Client(m) => cat2("failed to build HTTP client: ", m.as_str()),
            ProviderError::Config(m) => cat2("configuration error: ", m.as_str()),
            ProviderError::NotSignedIn(m) => cat2("not signed in: ", m.as_str()),
            ProviderError::NotFound(m) => cat2("not found: ", m.as_str()),
        }
    }
}

/// How much of an error body is kept.
pub const ERROR_BODY_CHARS: usize = 400;

/// The error for an answer with an error status, with the start of its body.
pub fn api_error(status: u16, url: &str, body: &str) -> (r: ProviderError)
    ensures
        r matches ProviderError::Api { status: s, url: u, body: b } && s == status && u@ == url@
            && b@ == crate::text::first_chars(body@, 400),
{
    ProviderError::Api {
        status,
        url: url.to_owned(),
        body: crate::text::take_chars(body, ERROR_BODY_CHARS),
    }
}

} // verus!
