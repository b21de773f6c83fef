//! Error taxonomy of the cookie engine, and the process exit code each
//! error maps to.

use vstd::prelude::*;

verus! {

use crate::text::{spec_contains, spec_lower, contains_sub, to_ascii_lowercase};

/// How an HTTP transport error failed; the surrounding application
/// classifies its client errors into these before handing them over.
#[derive(Debug, Clone, Copy, PartialEq, Eq, Structural)]
pub enum HttpErrorKind {
    Timeout,
    Connect,
    Request,
    Other,
}

/// Every failure the engine reports, each with a human-readable detail.
#[derive(Debug, Clone)]
pub enum RurlError {
    Http(HttpErrorKind, String),
    BrowserCookie(String),
    InvalidUrl(String),
    Io(String),
    Json(String),
    Ssl(String),
    Proxy(String),
    Auth(String),
    Config(String),
    Timeout,
    RedirectLimitExceeded(usize),
    PermissionDenied(String),
    FileNotFound(String),
    Unsupported(String),
}

pub type Result<T> = core::result::Result<T, RurlError>;

/// Exit code for an SSL error message: CA-certificate problems, client
/// certificate problems and all other TLS failures each get their own code.
pub open spec fn spec_ssl_exit_code(message: Seq<char>) -> i32 {
    let lower = spec_lower(message);
    if spec_contains(lower, "ca certificate"@) {
        77
    } else if spec_contains(lower, "client certificate"@) {
        58
    } else {
        35
    }
}

pub open spec fn spec_http_exit_code(kind: HttpErrorKind) -> i32 {
    match kind {
        HttpErrorKind::Timeout => 28,
        HttpErrorKind::Connect => 7,
        HttpErrorKind::Request => 2,
        HttpErrorKind::Other => 43,
    }
}

/// The process exit code for each error variant.
pub open spec fn spec_exit_code(err: RurlError) -> i32 {
    match err {
        RurlError::InvalidUrl(_) => 3,
        RurlError::Config(_) => 2,
        RurlError::Proxy(_) => 5,
        RurlError::Auth(_) => 94,
        RurlError::Timeout => 28,
        RurlError::RedirectLimitExceeded(_) => 47,
        RurlError::PermissionDenied(_) => 37,
        RurlError::FileNotFound(_) => 37,
        RurlError::Ssl(message) => spec_ssl_exit_code(message@),
        RurlError::Io(_) => 23,
        RurlError::Json(_) => 26,
        RurlError::Unsupported(_) => 4,
        RurlError::Http(kind, _) => spec_http_exit_code(kind),
        RurlError::BrowserCookie(_) => 43,
    }
}

pub fn ssl_exit_code(message: &str) -> (r: i32)
    ensures
        r == spec_ssl_exit_code(message@),
{
    let lower = to_ascii_lowercase(message);
    if contains_sub(lower.as_str(), "ca certificate") {
        77
    } else if contains_sub(lower.as_str(), "client certificate") {
        58
    } else {
        35
    }
}

fn http_exit_code(kind: HttpErrorKind) -> (r: i32)
    ensures
        r == spec_http_exit_code(kind),
{
    match kind {
        HttpErrorKind::Timeout => 28,
        HttpErrorKind::Connect => 7,
        HttpErrorKind::Request => 2,
        HttpErrorKind::Other => 43,
    }
}

pub fn exit_code_for_error(err: &RurlError) -> (r: i32)
    ensures
        r == spec_exit_code(*err),
{
    match err {
        RurlError::InvalidUrl(_) => 3,
        RurlError::Config(_) => 2,
        RurlError::Proxy(_) => 5,
        RurlError::Auth(_) => 94,
        RurlError::Timeout => 28,
        RurlError::RedirectLimitExceeded(_) => 47,
        RurlError::PermissionDenied(_) => 37,
        RurlError::FileNotFound(_) => 37,
        RurlError::Ssl(message) => ssl_exit_code(message.as_str()),
        RurlError::Io(_) => 23,
        RurlError::Json(_) => 26,
        RurlError::Unsupported(_) => 4,
        RurlError::Http(kind, _) => http_exit_code(*kind),
        RurlError::BrowserCookie(_) => 43,
    }
}

} // verus!
