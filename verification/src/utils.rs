//! URL, path and string utilities shared by the locator and the
//! command-line layer.

use vstd::prelude::*;

verus! {

use vstd::string::*;
use crate::error::RurlError;
use crate::text::{
    contains_sub, find_sub, lemma_find_unique, parse_u64_dec, spec_all_digits, spec_contains,
    spec_dec_val, spec_find, spec_trim, trim_ascii,
};

/// URL normalisation for the request pipeline.
pub struct UrlUtils;

/// A URL string with a scheme: the input unchanged when it carries `://`,
/// else `http://` in front.
pub open spec fn spec_ensure_scheme(input: Seq<char>) -> Seq<char> {
    if spec_contains(input, "://"@) {
        input
    } else {
        "http://"@ + input
    }
}

impl UrlUtils {
    /// Adds the default `http://` scheme where the input names none; the
    /// URL parser of the HTTP layer takes it from there.
    pub fn ensure_scheme(input: &str) -> (r: String)
        ensures
            r@ == spec_ensure_scheme(input@),
    {
        if contains_sub(input, "://") {
            input.to_owned()
        } else {
            let mut out = "http://".to_owned();
            out.append(input);
            out
        }
    }
}

/// Path helpers for the store locator.
pub struct FileUtils;

/// A profile selector counts as a path when it carries a separator or
/// starts with a tilde.
pub open spec fn spec_is_path_like(value: Seq<char>) -> bool {
    spec_contains(value, seq!['/']) || spec_contains(value, seq!['\\']) || (value.len() > 0
        && value[0] == '~')
}

/// Whether a profile selector is a filesystem path rather than a bare
/// profile name.
pub fn is_path_like(value: &str) -> (r: bool)
    ensures
        r == spec_is_path_like(value@),
{
    proof {
        reveal_strlit("/");
        reveal_strlit("\\");
        assert("/"@ =~= seq!['/']);
        assert("\\"@ =~= seq!['\\']);
    }
    let len: usize = value.unicode_len();
    contains_sub(value, "/") || contains_sub(value, "\\") || (len > 0 && value.get_char(0) == '~')
}

impl FileUtils {
    /// Expands a leading `~` to the home directory, which the application
    /// resolves and hands over; without one the path is a configuration
    /// error.  Paths without a tilde pass through unchanged.
    pub fn expand_path(path: &str, home: Option<&str>) -> (r: Result<String, RurlError>)
        requires
            path@.len() > 0 && path@[0] == '~' ==> path@.len() >= 2,
        ensures
            match r {
                Ok(expanded) => {
                    if path@.len() > 0 && path@[0] == '~' {
                        home matches Some(h) && expanded@ == h@ + seq!['/'] + path@.subrange(
                            2,
                            path@.len() as int,
                        )
                    } else {
                        expanded@ == path@
                    }
                },
                Err(e) => path@.len() > 0 && path@[0] == '~' && home is None && e is Config,
            },
    {
        let len: usize = path.unicode_len();
        if len > 0 && path.get_char(0) == '~' {
            match home {
                Some(h) => {
                    let mut out = h.to_owned();
                    out.append("/");
                    out.append(path.substring_char(2, len));
                    proof {
                        reveal_strlit("/");
                        assert("/"@ =~= seq!['/']);
                    }
                    Ok(out)
                },
                None => Err(
                    RurlError::Config("Cannot determine home directory".to_owned()),
                ),
            }
        } else {
            Ok(path.to_owned())
        }
    }
}

/// Header and timeout parsing for the command-line layer.
pub struct StringUtils;

/// What parsing `key: value` yields: the trimmed parts around the first
/// colon, `None` without one.
pub open spec fn spec_parse_header(input: Seq<char>) -> Option<(Seq<char>, Seq<char>)> {
    match spec_find(input, seq![':']) {
        None => None,
        Some(i) => Some(
            (
                spec_trim(input.subrange(0, i)),
                spec_trim(input.subrange(i + 1, input.len() as int)),
            ),
        ),
    }
}

/// The timeout in seconds a string denotes: a bare number, or a number with
/// an `s`, `m` or `h` suffix; `None` for anything else or a value beyond
/// `u64`.
pub open spec fn spec_parse_timeout(input: Seq<char>) -> Option<int> {
    if spec_all_digits(input) && spec_dec_val(input) <= u64::MAX {
        Some(spec_dec_val(input))
    } else if input.len() > 0 {
        let digits = input.drop_last();
        let factor: int = if input.last() == 's' {
            1
        } else if input.last() == 'm' {
            60
        } else if input.last() == 'h' {
            3600
        } else {
            0
        };
        if factor > 0 && spec_all_digits(digits) && spec_dec_val(digits) <= u64::MAX
            && spec_dec_val(digits) * factor <= u64::MAX {
            Some(spec_dec_val(digits) * factor)
        } else {
            None
        }
    } else {
        None
    }
}

impl StringUtils {
    /// Splits a `key: value` header, trimming both parts; an input without
    /// a colon is a configuration error.
    pub fn parse_header(input: &str) -> (r: Result<(String, String), RurlError>)
        ensures
            match r {
                Ok(kv) => spec_parse_header(input@) == Some((kv.0@, kv.1@)),
                Err(e) => spec_parse_header(input@) is None && e is Config,
            },
    {
        proof {
            reveal_strlit(":");
            assert(":"@ =~= seq![':']);
        }
        let len: usize = input.unicode_len();
        match find_sub(input, ":") {
            None => {
                proof {
                    assert(spec_find(input@, seq![':']) is None);
                }
                let mut message = "Invalid header format: '".to_owned();
                message.append(input);
                message.append("'. Expected 'key: value'");
                Err(RurlError::Config(message))
            },
            Some(i) => {
                proof {
                    lemma_find_unique(input@, seq![':'], i as int);
                }
                let key = trim_ascii(input.substring_char(0, i));
                let value = trim_ascii(input.substring_char(i + 1, len));
                Ok((key, value))
            },
        }
    }

    /// Parses a timeout in seconds, with optional `s`, `m` and `h`
    /// suffixes; a malformed number, unknown suffix, or a value beyond
    /// `u64` seconds is a configuration error.
    pub fn parse_timeout(input: &str) -> (r: Result<u64, RurlError>)
        ensures
            match r {
                Ok(secs) => spec_parse_timeout(input@) == Some(secs as int),
                Err(e) => spec_parse_timeout(input@) is None && e is Config,
            },
    {
        if let Some(seconds) = parse_u64_dec(input) {
            return Ok(seconds);
        }
        let len: usize = input.unicode_len();
        if len == 0 {
            return Err(
                RurlError::Config(
                    "Invalid timeout format: use a number with an optional suffix (s/m/h)".to_owned(),
                ),
            );
        }
        let suffix = input.get_char(len - 1);
        let factor: u64 = if suffix == 's' {
            1
        } else if suffix == 'm' {
            60
        } else if suffix == 'h' {
            3600
        } else {
            return Err(
                RurlError::Config(
                    "Invalid timeout format: use a number with an optional suffix (s/m/h)".to_owned(),
                ),
            );
        };
        let digits = input.substring_char(0, len - 1);
        proof {
            assert(digits@ =~= input@.drop_last());
        }
        match parse_u64_dec(digits) {
            None => Err(RurlError::Config("Invalid timeout number".to_owned())),
            Some(number) => {
                if number > u64::MAX / factor {
                    return Err(RurlError::Config("Invalid timeout number".to_owned()));
                }
                Ok(number * factor)
            },
        }
    }
}

} // verus!
