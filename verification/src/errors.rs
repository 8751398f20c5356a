//! Typed CLI errors with codes that scripts and agents can branch on.
//!
//! Code taxonomy:
//! - `AUTH_MISSING`   — no API key / project ID configured
//! - `AUTH_INVALID`   — API key rejected by PostHog (401/403)
//! - `NOT_FOUND`      — resource does not exist (404)
//! - `RATE_LIMITED`   — rate limit hit and retries exhausted (429)
//! - `VALIDATION`     — bad input (4xx other than the above, or local CLI validation)
//! - `API_ERROR`      — server-side or network failure (5xx, transport errors, fallback)

use vstd::prelude::*;
use crate::text::{opt_chars, push_str};

verus! {

#[derive(Debug, Clone, Copy, PartialEq, Eq, Structural)]
pub enum ErrorCode {
    AuthMissing,
    AuthInvalid,
    NotFound,
    RateLimited,
    Validation,
    ApiError,
}

impl ErrorCode {
    /// The name of the code in the JSON error envelope.
    pub open spec fn code_name(self) -> Seq<char> {
        match self {
            ErrorCode::AuthMissing => "AUTH_MISSING"@,
            ErrorCode::AuthInvalid => "AUTH_INVALID"@,
            ErrorCode::NotFound => "NOT_FOUND"@,
            ErrorCode::RateLimited => "RATE_LIMITED"@,
            ErrorCode::Validation => "VALIDATION"@,
            ErrorCode::ApiError => "API_ERROR"@,
        }
    }

    /// The name of the code in the JSON error envelope (`API_ERROR`, ...).
    pub fn as_str(&self) -> (r: &'static str)
        ensures
            r@ == self.code_name(),
    {
        match self {
            ErrorCode::AuthMissing => "AUTH_MISSING",
            ErrorCode::AuthInvalid => "AUTH_INVALID",
            ErrorCode::NotFound => "NOT_FOUND",
            ErrorCode::RateLimited => "RATE_LIMITED",
            ErrorCode::Validation => "VALIDATION",
            ErrorCode::ApiError => "API_ERROR",
        }
    }
}

/// An error of the CLI: a message, a code, an optional hint and
/// documentation link, and the HTTP status it came from, if any.
#[derive(Debug, Clone)]
pub struct PostHogError {
    pub message: String,
    pub code: ErrorCode,
    pub hint: Option<String>,
    pub docs_url: Option<String>,
    /// HTTP status code, when the error originated from an API response.
    pub status: Option<u16>,
}

/// The model of a `PostHogError`.
pub struct ErrorModel {
    pub message: Seq<char>,
    pub code: ErrorCode,
    pub hint: Option<Seq<char>>,
    pub docs_url: Option<Seq<char>>,
    pub status: Option<u16>,
}

impl View for PostHogError {
    type V = ErrorModel;

    open spec fn view(&self) -> ErrorModel {
        ErrorModel {
            message: self.message@,
            code: self.code,
            hint: opt_chars(self.hint),
            docs_url: opt_chars(self.docs_url),
            status: self.status,
        }
    }
}

/// An error with the given message and code and nothing else.
pub open spec fn plain_error(message: Seq<char>, code: ErrorCode) -> ErrorModel {
    ErrorModel { message, code, hint: None, docs_url: None, status: None }
}

/// The same error with the given hint.
pub open spec fn hinted(e: ErrorModel, hint: Seq<char>) -> ErrorModel {
    ErrorModel { hint: Some(hint), ..e }
}

impl PostHogError {
    /// An error with the given message and code, and no hint, link or status.
    pub fn new(message: &str, code: ErrorCode) -> (r: Self)
        ensures
            r@ == plain_error(message@, code),
    {
        PostHogError {
            message: message.to_owned(),
            code,
            hint: None,
            docs_url: None,
            status: None,
        }
    }

    /// The same error, with `hint` as its hint.
    pub fn with_hint(self, hint: &str) -> (r: Self)
        ensures
            r@ == hinted(self@, hint@),
    {
        let mut e = self;
        e.hint = Some(hint.to_owned());
        e
    }
}

/// The error code that an HTTP status stands for.
pub open spec fn status_code_class(status: u16) -> ErrorCode {
    if status == 401 || status == 403 {
        ErrorCode::AuthInvalid
    } else if status == 404 {
        ErrorCode::NotFound
    } else if status == 429 {
        ErrorCode::RateLimited
    } else if 400 <= status < 500 {
        ErrorCode::Validation
    } else {
        ErrorCode::ApiError
    }
}

/// Classify an HTTP status into an error code.
pub fn classify_http_status(status: u16) -> (r: ErrorCode)
    ensures
        r == status_code_class(status),
{
    if status == 401 || status == 403 {
        ErrorCode::AuthInvalid
    } else if status == 404 {
        ErrorCode::NotFound
    } else if status == 429 {
        ErrorCode::RateLimited
    } else if 400 <= status && status < 500 {
        ErrorCode::Validation
    } else {
        ErrorCode::ApiError
    }
}

/// The error that a failed read or write of a local file becomes, given the
/// text of the underlying failure.
pub fn io_error(detail: &str) -> (r: PostHogError)
    ensures
        r@ == plain_error("I/O error: "@ + detail@, ErrorCode::ApiError),
{
    let mut message = "I/O error: ".to_owned();
    push_str(&mut message, detail);
    PostHogError { message, code: ErrorCode::ApiError, hint: None, docs_url: None, status: None }
}

/// The error that a failed HTTP exchange becomes, given the text of the
/// underlying failure.
pub fn network_error(detail: &str) -> (r: PostHogError)
    ensures
        r@ == plain_error("Network error: "@ + detail@, ErrorCode::ApiError),
{
    let mut message = "Network error: ".to_owned();
    push_str(&mut message, detail);
    PostHogError { message, code: ErrorCode::ApiError, hint: None, docs_url: None, status: None }
}

} // verus!
