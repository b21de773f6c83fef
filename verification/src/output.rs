//! Response-output helpers: charset detection and decoding of response
//! bodies, and the progress line.  The writing itself (files, stdout) stays
//! with the application.

use vstd::prelude::*;

verus! {

use vstd::string::*;
use crate::error::RurlError;
use crate::text::{
    find_sub, lemma_find_unique, push_char, spec_find, spec_lower, spec_trim, spec_u64_dec,
    spec_utf8_lossy, to_ascii_lowercase, trim_ascii, u64_to_dec, utf8_lossy,
};

// ---------------------------------------------------------------------------
// Charsets
// ---------------------------------------------------------------------------

/// The charset a content type declares: what follows the first
/// (case-folded) `charset=` up to the next `;`, trimmed.
pub open spec fn spec_extract_charset(content_type: Option<Seq<char>>) -> Option<Seq<char>> {
    match content_type {
        None => None,
        Some(s) => {
            let lower = spec_lower(s);
            match spec_find(lower, "charset="@) {
                None => None,
                Some(i) => {
                    let after = lower.subrange(i + "charset="@.len(), lower.len() as int);
                    let end = match spec_find(after, seq![';']) {
                        Some(j) => j,
                        None => after.len() as int,
                    };
                    Some(spec_trim(after.subrange(0, end)))
                },
            }
        },
    }
}

/// Reads the declared charset out of a content-type header value,
/// case-insensitively.
pub fn extract_charset(content_type: Option<&str>) -> (r: Option<String>)
    ensures
        ({
            let ct = match content_type {
                Some(c) => Some(c@),
                None => None::<Seq<char>>,
            };
            match r {
                Some(cs) => spec_extract_charset(ct) == Some(cs@),
                None => spec_extract_charset(ct) is None,
            }
        }),
{
    let ct = match content_type {
        Some(c) => c,
        None => {
            return None;
        },
    };
    let lower = to_ascii_lowercase(ct);
    let l = lower.as_str();
    let llen: usize = l.unicode_len();
    let i = match find_sub(l, "charset=") {
        Some(i) => i,
        None => {
            proof {
                assert(spec_find(lower@, "charset="@) is None);
            }
            return None;
        },
    };
    proof {
        lemma_find_unique(lower@, "charset="@, i as int);
        reveal_strlit(";");
        assert(";"@ =~= seq![';']);
    }
    let patlen: usize = "charset=".unicode_len();
    let after = l.substring_char(i + patlen, llen);
    let end = match find_sub(after, ";") {
        Some(j) => {
            proof {
                lemma_find_unique(after@, seq![';'], j as int);
            }
            j
        },
        None => {
            proof {
                assert(spec_find(after@, seq![';']) is None);
            }
            after.unicode_len()
        },
    };
    Some(trim_ascii(after.substring_char(0, end)))
}

/// What an encoding-label lookup and decode yields for a body; `None`
/// where no encoding carries the label.
pub uninterp spec fn spec_charset_decode(label: Seq<char>, bytes: Seq<u8>) -> Option<Seq<char>>;

/// Relies on `encoding_rs::Encoding::for_label` followed by that
/// encoding's `decode`: the label lookup and the (lossy) decode depend on
/// label and bytes alone.
#[verifier::external_body]
fn charset_decode(label: &str, bytes: &[u8]) -> (r: Option<String>)
    ensures
        r is Some <==> spec_charset_decode(label@, bytes@) is Some,
        r matches Some(s) ==> spec_charset_decode(label@, bytes@) == Some(s@),
{
    let encoding = encoding_rs::Encoding::for_label(label.as_bytes())?;
    let (decoded, _, _) = encoding.decode(bytes);
    Some(decoded.into_owned())
}

/// Decodes a response body: through the declared charset where one is
/// declared and known, else as UTF-8 with lossy replacement.
pub fn decode_body_with_charset(body: Vec<u8>, content_type: Option<&str>) -> (r: Result<
    String,
    RurlError,
>)
    ensures
        r is Ok,
        ({
            let ct = match content_type {
                Some(c) => Some(c@),
                None => None::<Seq<char>>,
            };
            match spec_extract_charset(ct) {
                Some(label) => match spec_charset_decode(label, body@) {
                    Some(s) => r->Ok_0@ == s,
                    None => r->Ok_0@ == spec_utf8_lossy(body@),
                },
                None => r->Ok_0@ == spec_utf8_lossy(body@),
            }
        }),
{
    match extract_charset(content_type) {
        Some(label) => match charset_decode(label.as_str(), body.as_slice()) {
            Some(s) => Ok(s),
            None => Ok(utf8_lossy(body.as_slice())),
        },
        None => Ok(utf8_lossy(body.as_slice())),
    }
}

// ---------------------------------------------------------------------------
// The progress line
// ---------------------------------------------------------------------------

/// Percentage of `current` out of `total`, rounded to the nearest whole
/// number and capped at 100.
pub open spec fn spec_percent(current: int, total: int) -> int {
    let p = (current * 200 + total) / (2 * total);
    if p > 100 {
        100
    } else {
        p
    }
}

/// The progress line: `\r<current> / <total> bytes (<percent>%)` with a
/// known total, `\r<current> bytes` without one.
pub open spec fn spec_progress_line(current: int, total: Option<int>) -> Seq<char> {
    match total {
        Some(t) => if t > 0 {
            seq!['\r'] + spec_u64_dec(current as nat) + " / "@ + spec_u64_dec(t as nat)
                + " bytes ("@ + spec_u64_dec(spec_percent(current, t) as nat) + "%)"@
        } else {
            seq!['\r'] + spec_u64_dec(current as nat) + " bytes"@
        },
        None => seq!['\r'] + spec_u64_dec(current as nat) + " bytes"@,
    }
}

pub fn progress_line(current: u64, total: Option<u64>) -> (r: String)
    ensures
        r@ == spec_progress_line(
            current as int,
            match total {
                Some(t) => Some(t as int),
                None => None,
            },
        ),
{
    let mut out = String::new();
    push_char(&mut out, '\r');
    match total {
        Some(t) if t > 0 => {
            let p128: u128 = ((current as u128) * 200 + (t as u128)) / (2 * (t as u128));
            let percent: u64 = if p128 > 100 {
                100
            } else {
                p128 as u64
            };
            proof {
                assert(percent as int == spec_percent(current as int, t as int));
            }
            out.append(u64_to_dec(current).as_str());
            out.append(" / ");
            out.append(u64_to_dec(t).as_str());
            out.append(" bytes (");
            out.append(u64_to_dec(percent).as_str());
            out.append("%)");
            out
        },
        _ => {
            out.append(u64_to_dec(current).as_str());
            out.append(" bytes");
            out
        },
    }
}

} // verus!
