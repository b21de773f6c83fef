//! HTTP authentication header values.

use vstd::prelude::*;

verus! {

use vstd::string::*;
use vstd::utf8::encode_utf8;
use crate::crypto::{base64_std_encode, spec_base64_std};
use crate::error::RurlError;
use crate::text::{find_sub, lemma_find_unique, spec_find};

/// The authentication schemes the client can speak.
#[derive(Debug, Clone, Copy, PartialEq, Eq, Structural)]
pub enum AuthType {
    Basic,
    Bearer,
    Digest,
}

/// Builders for `Authorization` header values.
pub struct Auth;

/// The Basic credentials line: `user:password`, base64 over its UTF-8
/// bytes, after `Basic `.
pub open spec fn spec_basic_auth(username: Seq<char>, password: Seq<char>) -> Seq<char> {
    "Basic "@ + spec_base64_std(encode_utf8(username + seq![':'] + password))
}

/// What splitting `user:password` at the first colon yields; without a
/// colon the password is empty.
pub open spec fn spec_user_pass(input: Seq<char>) -> (Seq<char>, Seq<char>) {
    match spec_find(input, seq![':']) {
        None => (input, Seq::empty()),
        Some(i) => (input.subrange(0, i), input.subrange(i + 1, input.len() as int)),
    }
}

impl Auth {
    /// Renders a Basic authentication header value.
    pub fn basic_auth(username: &str, password: &str) -> (r: String)
        ensures
            r@ == spec_basic_auth(username@, password@),
    {
        let mut credentials = username.to_owned();
        credentials.append(":");
        credentials.append(password);
        proof {
            reveal_strlit(":");
            assert(":"@ =~= seq![':']);
        }
        let encoded = base64_std_encode(credentials.as_str().as_bytes());
        let mut header = "Basic ".to_owned();
        header.append(encoded.as_str());
        header
    }

    /// Renders a Bearer token header value.
    pub fn bearer_token(token: &str) -> (r: String)
        ensures
            r@ == "Bearer "@ + token@,
    {
        let mut header = "Bearer ".to_owned();
        header.append(token);
        header
    }

    /// Splits `user:password` at the first colon; a later colon belongs to
    /// the password, and a missing one leaves the password empty.
    pub fn parse_user_pass(input: &str) -> (r: Result<(String, String), RurlError>)
        ensures
            r matches Ok(up) && spec_user_pass(input@) == (up.0@, up.1@),
    {
        proof {
            reveal_strlit(":");
            assert(":"@ =~= seq![':']);
        }
        let len: usize = input.unicode_len();
        match find_sub(input, ":") {
            None => {
                proof {
                    assert(spec_find(input@, seq![':']) is None);
                }
                Ok((input.to_owned(), String::new()))
            },
            Some(i) => {
                proof {
                    lemma_find_unique(input@, seq![':'], i as int);
                }
                Ok(
                    (
                        input.substring_char(0, i).to_owned(),
                        input.substring_char(i + 1, len).to_owned(),
                    ),
                )
            },
        }
    }
}

} // verus!
