//! Application errors and how they are reported.

use vstd::prelude::*;
use crate::text::push_str;

verus! {

/// Errors of the application's operations.
#[derive(Debug)]
pub enum AppError {
    BadRequest(String),
    NotFound(String),
    TooManyRequests(String),
    Database(String),
    Internal(String),
    Template(String),
}

/// The text an error shows to the user: the message of the client-facing
/// kinds, and the message after a prefix naming the kind for the others.
pub open spec fn message_text(e: AppError) -> Seq<char> {
    match e {
        AppError::BadRequest(m) => m@,
        AppError::NotFound(m) => m@,
        AppError::TooManyRequests(m) => m@,
        AppError::Database(m) => "Database error: "@ + m@,
        AppError::Internal(m) => "Internal error: "@ + m@,
        AppError::Template(m) => "Template error: "@ + m@,
    }
}

impl AppError {
    pub fn message(&self) -> (r: String)
        ensures
            r@ == message_text(*self),
    {
        let (prefix, m) = match self {
            AppError::BadRequest(m) => ("", m),
            AppError::NotFound(m) => ("", m),
            AppError::TooManyRequests(m) => ("", m),
            AppError::Database(m) => ("Database error: ", m),
            AppError::Internal(m) => ("Internal error: ", m),
            AppError::Template(m) => ("Template error: ", m),
        };
        proof {
            reveal_strlit("");
            reveal_strlit("Database error: ");
            reveal_strlit("Internal error: ");
            reveal_strlit("Template error: ");
        }
        let mut out = String::from_str(prefix);
        push_str(&mut out, m.as_str());
        out
    }
}

/// A `BadRequest` carrying exactly this message.
pub open spec fn is_bad_request(e: AppError, msg: Seq<char>) -> bool {
    e matches AppError::BadRequest(m) && m@ == msg
}

/// A `NotFound` carrying exactly this message.
pub open spec fn is_not_found(e: AppError, msg: Seq<char>) -> bool {
    e matches AppError::NotFound(m) && m@ == msg
}

/// A `TooManyRequests` carrying exactly this message.
pub open spec fn is_too_many(e: AppError, msg: Seq<char>) -> bool {
    e matches AppError::TooManyRequests(m) && m@ == msg
}

/// A `BadRequest` with the given message.
pub fn bad_request(msg: &str) -> (e: AppError)
    ensures
        is_bad_request(e, msg@),
{
    AppError::BadRequest(String::from_str(msg))
}

/// A `NotFound` with the given message.
pub fn not_found(msg: &str) -> (e: AppError)
    ensures
        is_not_found(e, msg@),
{
    AppError::NotFound(String::from_str(msg))
}

/// HTTP status of an error in the JSON API.
pub open spec fn json_status(e: AppError) -> u16 {
    match e {
        AppError::BadRequest(_) => 400,
        AppError::NotFound(_) => 404,
        AppError::TooManyRequests(_) => 429,
        _ => 500,
    }
}

/// Status and client-visible message of an error in the JSON API: the
/// client-facing kinds keep their message, the others are masked.
pub fn json_error_parts(err: &AppError) -> (r: (u16, String))
    ensures
        r.0 == json_status(*err),
        match *err {
            AppError::BadRequest(m) => r.1@ == m@,
            AppError::NotFound(m) => r.1@ == m@,
            AppError::TooManyRequests(m) => r.1@ == m@,
            _ => r.1@ == "Internal server error"@,
        },
{
    match err {
        AppError::BadRequest(m) => (400, m.clone()),
        AppError::NotFound(m) => (404, m.clone()),
        AppError::TooManyRequests(m) => (429, m.clone()),
        _ => (500, String::from_str("Internal server error")),
    }
}

/// HTTP status of a failed login, registration or reset request.
pub fn auth_error_status(err: &AppError) -> (r: u16)
    ensures
        r == (if err is TooManyRequests { 429u16 } else { 400u16 }),
{
    match err {
        AppError::TooManyRequests(_) => 429,
        _ => 400,
    }
}

/// A write that touched no row means the thing was not there.
pub fn require_affected(count: u64, msg: &str) -> (r: Result<(), AppError>)
    ensures
        match r {
            Ok(_) => count > 0,
            Err(e) => count == 0 && is_not_found(e, msg@),
        },
{
    if count == 0 {
        return Err(not_found(msg));
    }
    Ok(())
}

} // verus!
