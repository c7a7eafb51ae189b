//! The library's error type.
use vstd::prelude::*;

verus! {

/// `reqwest`'s error for a failed request.
#[verifier::external_type_specification]
#[verifier::external_body]
pub struct ExReqwestError(reqwest::Error);

/// `reqwest::Error`'s `Display` text; nothing is claimed of it.
#[verifier::external_body]
pub(crate) fn reqwest_error_text(e: &reqwest::Error) -> String {
    format!("{}", e)
}

/// What can go wrong while fetching, parsing or keeping sessions.
#[derive(Debug)]
pub enum ScoutError {
    Http(reqwest::Error),
    Tls(String),
    Timeout(String),
    Parse(String),
    Challenge(String),
    Session(String),
    Cache(String),
    Unsupported(String),
    InvalidUrl(String),
    Cookie(String),
}

pub type Result<T> = std::result::Result<T, ScoutError>;

/// `prefix` followed by `detail`.
fn labelled(prefix: &str, detail: &String) -> (r: String)
    ensures
        r@ == prefix@ + detail@,
{
    let mut s = prefix.to_string();
    s.append(detail.as_str());
    s
}

impl ScoutError {
    /// The error's message: a label for its kind, then its detail.
    pub fn message(&self) -> (r: String)
        ensures
            match self {
                ScoutError::Http(_) => exists|d: Seq<char>| r@ == "HTTP error: "@ + d,
                ScoutError::Tls(d) => r@ == "TLS error: "@ + d@,
                ScoutError::Timeout(d) => r@ == "Timeout error: "@ + d@,
                ScoutError::Parse(d) => r@ == "Parse error: "@ + d@,
                ScoutError::Challenge(d) => r@ == "Challenge error: "@ + d@,
                ScoutError::Session(d) => r@ == "Session error: "@ + d@,
                ScoutError::Cache(d) => r@ == "Cache error: "@ + d@,
                ScoutError::Unsupported(d) => r@ == "Unsupported error: "@ + d@,
                ScoutError::InvalidUrl(d) => r@ == "Invalid URL: "@ + d@,
                ScoutError::Cookie(d) => r@ == "Cookie store error: "@ + d@,
            },
    {
        match self {
            ScoutError::Http(e) => {
                let detail = reqwest_error_text(e);
                labelled("HTTP error: ", &detail)
            },
            ScoutError::Tls(d) => labelled("TLS error: ", d),
            ScoutError::Timeout(d) => labelled("Timeout error: ", d),
            ScoutError::Parse(d) => labelled("Parse error: ", d),
            ScoutError::Challenge(d) => labelled("Challenge error: ", d),
            ScoutError::Session(d) => labelled("Session error: ", d),
            ScoutError::Cache(d) => labelled("Cache error: ", d),
            ScoutError::Unsupported(d) => labelled("Unsupported error: ", d),
            ScoutError::InvalidUrl(d) => labelled("Invalid URL: ", d),
            ScoutError::Cookie(d) => labelled("Cookie store error: ", d),
        }
    }
}

} // verus!
