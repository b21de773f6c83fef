//! Response body formatting, and the request-builder shell the HTTP layer
//! fills in.

use vstd::prelude::*;

verus! {

use vstd::string::*;
use crate::error::RurlError;
use crate::text::{contains_sub, spec_contains};

/// The pretty-printed form of a JSON document, `None` where the input is
/// not valid JSON.
pub uninterp spec fn spec_pretty_json(body: Seq<char>) -> Option<Seq<char>>;

/// Relies on `serde_json::from_str` followed by `serde_json::to_string_pretty`
/// on the parsed value: the pretty form, or the parse failure, depends on
/// the input text alone.
#[verifier::external_body]
fn pretty_json(body: &str) -> (r: Option<String>)
    ensures
        r is Some <==> spec_pretty_json(body@) is Some,
        r matches Some(p) ==> spec_pretty_json(body@) == Some(p@),
{
    let value: serde_json::Value = serde_json::from_str(body).ok()?;
    serde_json::to_string_pretty(&value).ok()
}

/// Whether a content type declares a JSON body.
pub open spec fn spec_is_json_content(content_type: Option<Seq<char>>) -> bool {
    match content_type {
        Some(ct) => spec_contains(ct, "application/json"@),
        None => false,
    }
}

/// What formatting a body yields: pretty-printed JSON when requested and
/// declared, the body unchanged otherwise; `None` when pretty-printing was
/// due but the body is not JSON.
pub open spec fn spec_format_body(
    format_json: bool,
    body: Seq<char>,
    content_type: Option<Seq<char>>,
) -> Option<Seq<char>> {
    if format_json && spec_is_json_content(content_type) {
        spec_pretty_json(body)
    } else {
        Some(body)
    }
}

/// Formats response bodies, optionally pretty-printing JSON.
pub struct ResponseFormatter {
    pub format_json: bool,
}

impl ResponseFormatter {
    pub fn new(format_json: bool) -> (r: ResponseFormatter)
        ensures
            r.format_json == format_json,
    {
        ResponseFormatter { format_json }
    }

    fn is_json_content(&self, content_type: Option<&str>) -> (r: bool)
        ensures
            r == spec_is_json_content(
                match content_type {
                    Some(ct) => Some(ct@),
                    None => None,
                },
            ),
    {
        match content_type {
            Some(ct) => contains_sub(ct, "application/json"),
            None => false,
        }
    }

    /// Formats a response body for output: JSON bodies are pretty-printed
    /// when enabled and the content type declares JSON; an undecodable
    /// JSON body is a JSON error, and everything else passes through.
    pub fn format(&self, body: &str, content_type: Option<&str>) -> (r: Result<String, RurlError>)
        ensures
            ({
                let ct = match content_type {
                    Some(c) => Some(c@),
                    None => None::<Seq<char>>,
                };
                match r {
                    Ok(out) => spec_format_body(self.format_json, body@, ct) == Some(out@),
                    Err(e) => spec_format_body(self.format_json, body@, ct) is None && e is Json,
                }
            }),
    {
        if self.format_json && self.is_json_content(content_type) {
            match pretty_json(body) {
                Some(p) => Ok(p),
                None => Err(RurlError::Json("Response body is not valid JSON".to_owned())),
            }
        } else {
            Ok(body.to_owned())
        }
    }
}

/// The request-builder shell; the HTTP layer drives it.
pub struct RequestBuilder {}

impl RequestBuilder {
    pub fn new() -> (r: RequestBuilder)
        ensures
            r == (RequestBuilder {  }),
    {
        RequestBuilder {  }
    }
}

impl Default for RequestBuilder {
    fn default() -> (r: RequestBuilder)
        ensures
            r == (RequestBuilder {  }),
    {
        RequestBuilder::new()
    }
}

} // verus!
