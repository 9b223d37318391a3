//! Error taxonomy of the service and its single translation point to HTTP
//! status codes and response bodies.

use vstd::prelude::*;

verus! {

/// The four failure kinds the service distinguishes: a malformed input URL
/// (user-correctable), a missing link, an operation that exceeded its
/// deadline, and a failure reported by the datastore itself. Telling the
/// last two apart lets callers distinguish "slow" from "broken".
#[derive(Clone, Copy, Debug, PartialEq, Eq, Structural)]
pub enum AppError {
    Validation,
    NotFound,
    Timeout,
    Backend,
}

/// The HTTP status that each error kind maps to.
pub open spec fn status_of(e: AppError) -> u16 {
    match e {
        AppError::Validation => 409,
        AppError::NotFound => 404,
        AppError::Timeout => 500,
        AppError::Backend => 500,
    }
}

/// The response body text for each error kind.
pub open spec fn message_of(e: AppError) -> Seq<char> {
    match e {
        AppError::Validation => "url malformed"@,
        AppError::NotFound => "Not Found"@,
        AppError::Timeout => "deadline has elapsed"@,
        AppError::Backend => "backend error"@,
    }
}

/// The one translation function from the error taxonomy to an HTTP status
/// code plus body, used uniformly by every operation's caller.
pub fn error_response(e: &AppError) -> (r: (u16, String))
    ensures
        r.0 == status_of(*e),
        r.1@ == message_of(*e),
{
    match e {
        AppError::Validation => (409, "url malformed".to_owned()),
        AppError::NotFound => (404, "Not Found".to_owned()),
        AppError::Timeout => (500, "deadline has elapsed".to_owned()),
        AppError::Backend => (500, "backend error".to_owned()),
    }
}

/// The shared reporter for internal failures: whatever the error, the client
/// sees a 500 with the error's display text, nothing more.
pub fn internal_error(e: &AppError) -> (r: (u16, String))
    ensures
        r.0 == 500,
        r.1@ == message_of(*e),
{
    match e {
        AppError::Validation => (500, "url malformed".to_owned()),
        AppError::NotFound => (500, "Not Found".to_owned()),
        AppError::Timeout => (500, "deadline has elapsed".to_owned()),
        AppError::Backend => (500, "backend error".to_owned()),
    }
}

} // verus!
