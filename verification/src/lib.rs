//! Browser cookie extraction and matching engine.
//!
//! The library reads the cookie stores of the Chromium family, Firefox and
//! Safari into a uniform [`cookie::CookieStore`], and selects the cookies to
//! send for a request URL with RFC-6265-style domain, path, secure and expiry
//! filtering.  Binary parsing, value decryption and all selection rules are
//! verified; operating-system calls (file system, SQLite, secret stores)
//! stay with the surrounding application, which hands their results to the
//! library as plain values.

pub mod auth;
pub mod chromium;
pub mod config;
pub mod cookie;
pub mod crypto;
pub mod error;
pub mod firefox;
pub mod headers;
pub mod keyring;
pub mod lang;
pub mod matching;
pub mod output;
pub mod response;
pub mod safari;
pub mod ssl;
pub mod text;
pub mod utils;
