//! Validation and normalization of target URLs. A destination must be a
//! syntactically valid absolute URL at write time; it is stored in the
//! normalized string form that the parser's serializer produces.

use vstd::prelude::*;
use crate::errors::AppError;

verus! {

/// Whether the string is a syntactically valid absolute URL, exactly as
/// `url::Url::parse` decides it.
pub uninterp spec fn valid_url(s: Seq<char>) -> bool;

/// The normalized serialization of a valid URL string, a function of the
/// input characters alone.
pub uninterp spec fn normalize_of(s: Seq<char>) -> Seq<char>;

/// Relies on `url::Url::parse` and the serializer behind `Url::to_string`:
/// parsing succeeds exactly on valid absolute URLs, and the serialization of
/// the parsed value depends on the input characters alone.
#[verifier::external_body]
fn parse_and_normalize(s: &str) -> (r: Option<String>)
    ensures
        match r {
            Some(t) => valid_url(s@) && t@ == normalize_of(s@),
            None => !valid_url(s@),
        },
{
    match url::Url::parse(s) {
        Ok(u) => Some(u.to_string()),
        Err(_) => None,
    }
}

/// Validates a submitted target URL and returns its normalized form, or the
/// validation failure (HTTP 409) on a malformed string.
pub fn validate_and_normalize(target: &str) -> (r: Result<String, AppError>)
    ensures
        match r {
            Ok(t) => valid_url(target@) && t@ == normalize_of(target@),
            Err(e) => e == AppError::Validation && !valid_url(target@),
        },
{
    match parse_and_normalize(target) {
        Some(t) => Ok(t),
        None => Err(AppError::Validation),
    }
}

} // verus!
