//! Header decisions of the redirect pipeline: which headers are sensitive
//! across origins, and a configured `Cookie` header to merge with.

use vstd::prelude::*;

verus! {

use vstd::string::*;
use crate::text::{spec_lower, str_eq, to_ascii_lowercase};

/// Headers never forwarded to another origin: `Authorization` and
/// `Cookie`, compared case-insensitively.
pub open spec fn spec_is_sensitive_header(name: Seq<char>) -> bool {
    spec_lower(name) == "authorization"@ || spec_lower(name) == "cookie"@
}

pub fn is_sensitive_header(name: &str) -> (r: bool)
    ensures
        r == spec_is_sensitive_header(name@),
{
    let lower = to_ascii_lowercase(name);
    str_eq(lower.as_str(), "authorization") || str_eq(lower.as_str(), "cookie")
}

/// The views of a header list.
pub open spec fn header_views(headers: Seq<(String, String)>) -> Seq<(Seq<char>, Seq<char>)> {
    Seq::new(headers.len(), |i: int| (headers[i].0@, headers[i].1@))
}

/// The value of the first configured `Cookie` header, compared
/// case-insensitively.
pub open spec fn spec_find_cookie_header(headers: Seq<(Seq<char>, Seq<char>)>) -> Option<Seq<char>>
    decreases headers.len(),
{
    if headers.len() == 0 {
        None
    } else if spec_lower(headers[0].0) == "cookie"@ {
        Some(headers[0].1)
    } else {
        spec_find_cookie_header(headers.drop_first())
    }
}

/// Finds a configured `Cookie` header to merge extracted cookies with.
pub fn find_cookie_header(headers: &Vec<(String, String)>) -> (r: Option<String>)
    ensures
        match r {
            Some(v) => spec_find_cookie_header(header_views(headers@)) == Some(v@),
            None => spec_find_cookie_header(header_views(headers@)) is None,
        },
{
    let len: usize = headers.len();
    proof {
        assert(header_views(headers@).skip(0) =~= header_views(headers@));
    }
    let mut i: usize = 0;
    while i < len
        invariant
            i <= len,
            len == headers@.len(),
            spec_find_cookie_header(header_views(headers@)) == spec_find_cookie_header(
                header_views(headers@).skip(i as int),
            ),
        decreases len - i,
    {
        proof {
            assert(header_views(headers@).skip(i as int)[0] == (
                headers@[i as int].0@,
                headers@[i as int].1@,
            ));
            assert(header_views(headers@).skip(i as int).drop_first() =~= header_views(
                headers@,
            ).skip(i + 1));
        }
        let lower = to_ascii_lowercase(headers[i].0.as_str());
        if str_eq(lower.as_str(), "cookie") {
            return Some(headers[i].1.clone());
        }
        i = i + 1;
    }
    proof {
        assert(header_views(headers@).skip(len as int) =~= Seq::<(Seq<char>, Seq<char>)>::empty());
    }
    None
}

} // verus!
