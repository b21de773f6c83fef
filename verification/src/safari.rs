//! The Safari `.binarycookies` container: a cursor-based binary parser that
//! turns the proprietary format into a [`CookieStore`].
//!
//! Layout: a 4-byte magic `cook`, a big-endian page count, that many
//! big-endian page sizes, then the pages.  Each page holds a magic, a
//! little-endian record count and record offsets.  Each record holds flags,
//! four string offsets (domain, name, path, value, each a NUL-terminated
//! UTF-8 string relative to the record start) and a little-endian IEEE-754
//! expiration in seconds of Mac absolute time.

use vstd::prelude::*;

verus! {

use vstd::string::*;
use vstd::utf8::{valid_utf8, decode_utf8};
use crate::cookie::{Cookie, CookieModel, CookieStore};
use crate::error::RurlError;

// ---------------------------------------------------------------------------
// Integer fields
// ---------------------------------------------------------------------------

/// Value of the first four bytes read little-endian.
pub open spec fn spec_u32_le(s: Seq<u8>) -> int {
    s[0] + 256 * s[1] + 65536 * s[2] + 16777216 * s[3]
}

/// Value of the first four bytes read big-endian.
pub open spec fn spec_u32_be(s: Seq<u8>) -> int {
    s[3] + 256 * s[2] + 65536 * s[1] + 16777216 * s[0]
}

/// Value of the first eight bytes read little-endian.
pub open spec fn spec_u64_le(s: Seq<u8>) -> int {
    s[0] + 256 * s[1] + 65536 * s[2] + 16777216 * s[3] + 4294967296 * s[4] + 1099511627776 * s[5]
        + 281474976710656 * s[6] + 72057594037927936 * s[7]
}

fn u32_le_at(data: &[u8], i: usize) -> (r: u32)
    requires
        i + 4 <= data@.len(),
    ensures
        r as int == spec_u32_le(data@.subrange(i as int, i + 4)),
{
    let b0 = data[i] as u32;
    let b1 = data[i + 1] as u32;
    let b2 = data[i + 2] as u32;
    let b3 = data[i + 3] as u32;
    b0 + 256 * b1 + 65536 * b2 + 16777216 * b3
}

fn u32_be_at(data: &[u8], i: usize) -> (r: u32)
    requires
        i + 4 <= data@.len(),
    ensures
        r as int == spec_u32_be(data@.subrange(i as int, i + 4)),
{
    let b0 = data[i] as u32;
    let b1 = data[i + 1] as u32;
    let b2 = data[i + 2] as u32;
    let b3 = data[i + 3] as u32;
    b3 + 256 * b2 + 65536 * b1 + 16777216 * b0
}

fn u64_le_at(data: &[u8], i: usize) -> (r: u64)
    requires
        i + 8 <= data@.len(),
    ensures
        r as int == spec_u64_le(data@.subrange(i as int, i + 8)),
{
    let b0 = data[i] as u64;
    let b1 = data[i + 1] as u64;
    let b2 = data[i + 2] as u64;
    let b3 = data[i + 3] as u64;
    let b4 = data[i + 4] as u64;
    let b5 = data[i + 5] as u64;
    let b6 = data[i + 6] as u64;
    let b7 = data[i + 7] as u64;
    b0 + 256 * b1 + 65536 * b2 + 16777216 * b3 + 4294967296 * b4 + 1099511627776 * b5
        + 281474976710656 * b6 + 72057594037927936 * b7
}

// ---------------------------------------------------------------------------
// The IEEE-754 expiration field
// ---------------------------------------------------------------------------

/// Truncation of an IEEE-754 double, given as its bits, to a 64-bit integer:
/// NaN goes to zero, magnitudes beyond the range saturate, all else is the
/// value with the fraction cut off.
pub open spec fn spec_f64_bits_to_i64(bits: u64) -> i64 {
    let exp = (bits >> 52) & 0x7ff;
    let frac = bits & 0xf_ffff_ffff_ffff;
    let neg = (bits >> 63) != 0;
    if exp == 0x7ff {
        if frac != 0 {
            0
        } else if neg {
            i64::MIN
        } else {
            i64::MAX
        }
    } else if exp == 0 {
        0
    } else if exp >= 1086 {
        if neg {
            i64::MIN
        } else {
            i64::MAX
        }
    } else if exp >= 1075 {
        let mag = (frac | 0x10_0000_0000_0000) << (exp - 1075);
        if neg {
            (-(mag as int)) as i64
        } else {
            mag as i64
        }
    } else {
        let shift = 1075 - exp;
        if shift >= 53 {
            0
        } else {
            let mag = (frac | 0x10_0000_0000_0000) >> shift;
            if neg {
                (-(mag as int)) as i64
            } else {
                mag as i64
            }
        }
    }
}

/// Mac absolute time counts seconds from 2001-01-01; Unix time is that plus
/// a fixed offset.  Out-of-range stamps clamp at the `i64` bounds.
pub open spec fn spec_mac_to_unix(bits: u64) -> i64 {
    let v = 978307200 + spec_f64_bits_to_i64(bits) as int;
    if v > i64::MAX {
        i64::MAX as i64
    } else {
        v as i64
    }
}

pub fn mac_epoch_offset() -> (r: i64)
    ensures
        r == 978307200,
{
    978307200
}

fn f64_bits_to_i64(bits: u64) -> (r: i64)
    ensures
        r == spec_f64_bits_to_i64(bits),
{
    let exp: u64 = (bits >> 52u64) & 0x7ff;
    let frac: u64 = bits & 0xf_ffff_ffff_ffff;
    let neg: bool = (bits >> 63u64) != 0;
    proof {
        assert(exp <= 0x7ff && frac < 0x10_0000_0000_0000) by (bit_vector)
            requires
                exp == (bits >> 52u64) & 0x7ff && frac == bits & 0xf_ffff_ffff_ffff,
        ;
    }
    if exp == 0x7ff {
        if frac != 0 {
            0
        } else if neg {
            i64::MIN
        } else {
            i64::MAX
        }
    } else if exp == 0 {
        0
    } else if exp >= 1086 {
        if neg {
            i64::MIN
        } else {
            i64::MAX
        }
    } else if exp >= 1075 {
        let m: u64 = frac | 0x10_0000_0000_0000;
        let sh: u64 = exp - 1075;
        proof {
            assert(m < 0x20_0000_0000_0000u64) by (bit_vector)
                requires
                    frac < 0x10_0000_0000_0000u64 && m == (frac | 0x10_0000_0000_0000u64),
            ;
            assert(m << sh < 0x8000_0000_0000_0000u64) by (bit_vector)
                requires
                    m < 0x20_0000_0000_0000u64 && sh <= 10u64,
            ;
        }
        let mag: u64 = m << sh;
        if neg {
            -(mag as i64)
        } else {
            mag as i64
        }
    } else {
        let shift: u64 = 1075 - exp;
        if shift >= 53 {
            0
        } else {
            let m: u64 = frac | 0x10_0000_0000_0000;
            proof {
                assert(m < 0x20_0000_0000_0000u64) by (bit_vector)
                    requires
                        frac < 0x10_0000_0000_0000u64 && m == (frac | 0x10_0000_0000_0000u64),
                ;
                assert(m >> shift < 0x20_0000_0000_0000u64) by (bit_vector)
                    requires
                        m < 0x20_0000_0000_0000u64 && shift < 53u64,
                ;
            }
            let mag: u64 = m >> shift;
            if neg {
                -(mag as i64)
            } else {
                mag as i64
            }
        }
    }
}

/// Converts a little-endian IEEE-754 Mac-absolute-time stamp, given as its
/// bits, to Unix seconds.
pub fn mac_absolute_to_unix(bits: u64) -> (r: i64)
    ensures
        r == spec_mac_to_unix(bits),
{
    let t = f64_bits_to_i64(bits);
    if t > i64::MAX - 978307200 {
        i64::MAX
    } else {
        978307200 + t
    }
}

// ---------------------------------------------------------------------------
// NUL-terminated strings
// ---------------------------------------------------------------------------

/// Position of the first zero byte, if any.
pub open spec fn spec_first_nul(s: Seq<u8>) -> Option<int>
    decreases s.len(),
{
    if s.len() == 0 {
        None
    } else if s[0] == 0 {
        Some(0)
    } else {
        match spec_first_nul(s.drop_first()) {
            Some(i) => Some(i + 1),
            None => None,
        }
    }
}

proof fn lemma_first_nul_at(s: Seq<u8>, j: int)
    requires
        0 <= j < s.len(),
        s[j] == 0,
        forall|k: int| 0 <= k < j ==> s[k] != 0,
    ensures
        spec_first_nul(s) == Some(j),
    decreases j,
{
    if j > 0 {
        lemma_first_nul_at(s.drop_first(), j - 1);
    }
}

proof fn lemma_first_nul_none(s: Seq<u8>)
    requires
        forall|k: int| 0 <= k < s.len() ==> s[k] != 0,
    ensures
        spec_first_nul(s) is None,
    decreases s.len(),
{
    if s.len() > 0 {
        lemma_first_nul_none(s.drop_first());
    }
}

/// The bytes of the NUL-terminated string at `off`, when the offset is in
/// bounds, a terminator exists, and the bytes are valid UTF-8.
pub open spec fn spec_cstring_at(data: Seq<u8>, off: int) -> Option<Seq<char>> {
    if !(0 <= off < data.len()) {
        None
    } else {
        match spec_first_nul(data.subrange(off, data.len() as int)) {
            Some(e) => {
                let bytes = data.subrange(off, off + e);
                if valid_utf8(bytes) {
                    Some(decode_utf8(bytes))
                } else {
                    None
                }
            },
            None => None,
        }
    }
}

/// Reads the NUL-terminated UTF-8 string at `offset`.  It fails, each with
/// its own message, when the offset is out of bounds, when no terminator
/// follows it, and when the bytes before the terminator are not UTF-8.
pub fn read_null_terminated_string_at(data: &[u8], offset: usize) -> (r: Result<String, RurlError>)
    ensures
        match r {
            Ok(s) => spec_cstring_at(data@, offset as int) == Some(s@),
            Err(e) => spec_cstring_at(data@, offset as int) is None && e is BrowserCookie,
        },
{
    let len: usize = data.len();
    if offset >= len {
        return Err(
            RurlError::BrowserCookie("Safari cookie offset out of bounds".to_owned()),
        );
    }
    let ghost tail = data@.subrange(offset as int, len as int);
    let mut j: usize = offset;
    while j < len && data[j] != 0
        invariant
            offset <= j <= len,
            len == data@.len(),
            forall|k: int| offset <= k < j ==> data@[k] != 0,
        decreases len - j,
    {
        j = j + 1;
    }
    if j == len {
        proof {
            assert forall|k: int| 0 <= k < tail.len() implies tail[k] != 0 by {
                assert(tail[k] == data@[offset + k]);
            }
            lemma_first_nul_none(tail);
        }
        return Err(
            RurlError::BrowserCookie("Safari cookie string not terminated".to_owned()),
        );
    }
    proof {
        assert(tail[j - offset] == data@[j as int]);
        assert forall|k: int| 0 <= k < j - offset implies tail[k] != 0 by {
            assert(tail[k] == data@[offset + k]);
        }
        lemma_first_nul_at(tail, j - offset);
        assert(tail.subrange(0, j - offset) =~= data@.subrange(offset as int, j as int));
    }
    let bytes: &[u8] = &data[offset..j];
    match crate::text::utf8_decode(bytes) {
        Some(s) => Ok(s),
        None => Err(
            RurlError::BrowserCookie("Safari cookie string decode failed".to_owned()),
        ),
    }
}

// ---------------------------------------------------------------------------
// Records
// ---------------------------------------------------------------------------

/// What one record parses to: `None` for a malformed record, `Some(None)`
/// for a record dropped over an empty domain or name, `Some(Some(c))` for a
/// cookie.  Offsets into the record come from its fixed 56-byte header; the
/// flag word's lowest bit is the secure flag; the expiration is IEEE-754
/// Mac absolute time.  The format does not carry an http-only flag.
pub open spec fn spec_record_cookie(rec: Seq<u8>) -> Option<Option<CookieModel>> {
    if rec.len() < 56 {
        None
    } else {
        let secure = spec_u32_le(rec.subrange(8, 12)) % 2 == 1;
        let d_off = spec_u32_le(rec.subrange(16, 20));
        let n_off = spec_u32_le(rec.subrange(20, 24));
        let p_off = spec_u32_le(rec.subrange(24, 28));
        let v_off = spec_u32_le(rec.subrange(28, 32));
        let exp_bits = spec_u64_le(rec.subrange(40, 48));
        match (spec_cstring_at(rec, d_off), spec_cstring_at(rec, n_off), spec_cstring_at(
            rec,
            p_off,
        ), spec_cstring_at(rec, v_off)) {
            (Some(domain), Some(name), Some(path), Some(value)) => {
                if domain.len() == 0 || name.len() == 0 {
                    Some(None)
                } else {
                    Some(
                        Some(
                            CookieModel {
                                name,
                                value,
                                domain,
                                path,
                                secure,
                                http_only: false,
                                expires: Some(spec_mac_to_unix(exp_bits as u64) as int),
                            },
                        ),
                    )
                }
            },
            _ => None,
        }
    }
}

/// Parses one record, read at its offset inside a page.  A record shorter
/// than its fixed header, a string offset out of bounds, a missing
/// terminator or invalid UTF-8 is an error; an empty domain or name drops
/// the record silently.
pub fn parse_safari_record(data: &[u8]) -> (r: Result<Option<Cookie>, RurlError>)
    ensures
        match r {
            Ok(Some(c)) => spec_record_cookie(data@) == Some(Some(c@)) && c@.wf(),
            Ok(None) => spec_record_cookie(data@) == Some(None::<CookieModel>),
            Err(e) => spec_record_cookie(data@) is None && e is BrowserCookie,
        },
{
    let len: usize = data.len();
    if len < 56 {
        return Err(RurlError::BrowserCookie("Safari cookies truncated".to_owned()));
    }
    let flags = u32_le_at(data, 8);
    let d_off = u32_le_at(data, 16) as usize;
    let n_off = u32_le_at(data, 20) as usize;
    let p_off = u32_le_at(data, 24) as usize;
    let v_off = u32_le_at(data, 28) as usize;
    let exp_bits = u64_le_at(data, 40);
    let domain = match read_null_terminated_string_at(data, d_off) {
        Ok(s) => s,
        Err(e) => {
            return Err(e);
        },
    };
    let name = match read_null_terminated_string_at(data, n_off) {
        Ok(s) => s,
        Err(e) => {
            return Err(e);
        },
    };
    let path = match read_null_terminated_string_at(data, p_off) {
        Ok(s) => s,
        Err(e) => {
            return Err(e);
        },
    };
    let value = match read_null_terminated_string_at(data, v_off) {
        Ok(s) => s,
        Err(e) => {
            return Err(e);
        },
    };
    if domain.as_str().unicode_len() == 0 || name.as_str().unicode_len() == 0 {
        return Ok(None);
    }
    let expires = Some(mac_absolute_to_unix(exp_bits));
    Ok(
        Some(
            Cookie {
                name,
                value,
                domain,
                path,
                secure: flags % 2 == 1,
                http_only: false,
                expires,
            },
        ),
    )
}

// ---------------------------------------------------------------------------
// Pages
// ---------------------------------------------------------------------------

/// The record offsets a page declares, read little-endian after its header.
pub open spec fn spec_page_offsets(page: Seq<u8>, count: int) -> Seq<int> {
    Seq::new(count as nat, |i: int| spec_u32_le(page.subrange(8 + 4 * i, 12 + 4 * i)))
}

/// Folds the records at the given offsets, left to right: an offset out of
/// the page's bounds, like a malformed record, poisons the whole page — the
/// format offers no recovery.
pub open spec fn spec_records_fold(page: Seq<u8>, offs: Seq<int>) -> Option<Seq<CookieModel>>
    decreases offs.len(),
{
    if offs.len() == 0 {
        Some(Seq::empty())
    } else {
        match spec_records_fold(page, offs.drop_last()) {
            None => None,
            Some(cs) => {
                let off = offs.last();
                if !(0 <= off < page.len()) {
                    None
                } else {
                    match spec_record_cookie(page.subrange(off, page.len() as int)) {
                        None => None,
                        Some(None) => Some(cs),
                        Some(Some(c)) => Some(cs.push(c)),
                    }
                }
            },
        }
    }
}

/// What one page contributes: its magic and record count must be intact,
/// and every in-bounds record must parse.
pub open spec fn spec_page_cookies(page: Seq<u8>) -> Option<Seq<CookieModel>> {
    if page.len() < 8 {
        None
    } else if !(page[0] == 0 && page[1] == 0 && page[2] == 1 && page[3] == 0) {
        None
    } else {
        let count = spec_u32_le(page.subrange(4, 8));
        if 8 + 4 * count > page.len() {
            None
        } else {
            spec_records_fold(page, spec_page_offsets(page, count))
        }
    }
}

/// Parses one page and appends its cookies to `store` in record order; a
/// record offset out of the page's bounds is a hard error.
pub fn parse_safari_page(page: &[u8], store: &mut CookieStore) -> (r: Result<(), RurlError>)
    requires
        old(store).wf(),
    ensures
        final(store).wf(),
        match r {
            Ok(()) => spec_page_cookies(page@) matches Some(cs) && final(store)@ =~= old(store)@
                + cs,
            Err(e) => spec_page_cookies(page@) is None && e is BrowserCookie,
        },
{
    let len: usize = page.len();
    if len < 8 {
        return Err(RurlError::BrowserCookie("Safari cookies truncated".to_owned()));
    }
    if !(page[0] == 0 && page[1] == 0 && page[2] == 1 && page[3] == 0) {
        return Err(
            RurlError::BrowserCookie("Safari cookies invalid page signature".to_owned()),
        );
    }
    let count = u32_le_at(page, 4);
    if !(8u64 + 4u64 * (count as u64) <= len as u64) {
        return Err(RurlError::BrowserCookie("Safari cookies truncated".to_owned()));
    }
    let count: usize = count as usize;
    let ghost offs = spec_page_offsets(page@, count as int);
    let mut i: usize = 0;
    while i < count
        invariant
            i <= count,
            len == page@.len(),
            8 + 4 * count <= len,
            page@[0] == 0 && page@[1] == 0 && page@[2] == 1 && page@[3] == 0,
            count as int == spec_u32_le(page@.subrange(4, 8)),
            offs == spec_page_offsets(page@, count as int),
            store.wf(),
            spec_records_fold(page@, offs.take(i as int)) matches Some(cs) && store@ =~= old(
                store,
            )@ + cs,
        decreases count - i,
    {
        proof {
            assert(offs.take(i + 1).drop_last() =~= offs.take(i as int));
            assert(offs.take(i + 1).last() == offs[i as int]);
        }
        let off = u32_le_at(page, 8 + 4 * i) as usize;
        proof {
            assert(off as int == offs[i as int]);
        }
        if off >= len {
            proof {
                assert(spec_records_fold(page@, offs.take(i + 1)) is None);
                lemma_records_fold_poison(page@, offs, i + 1, count as int);
                assert(offs.take(count as int) =~= offs);
                assert(spec_page_cookies(page@) is None);
            }
            return Err(
                RurlError::BrowserCookie("Safari cookie record offset out of bounds".to_owned()),
            );
        }
        let rec: &[u8] = &page[off..len];
        match parse_safari_record(rec) {
            Ok(Some(cookie)) => {
                store.insert(cookie);
            },
            Ok(None) => {},
            Err(e) => {
                proof {
                    assert(spec_records_fold(page@, offs.take(i + 1)) is None);
                    lemma_records_fold_poison(page@, offs, i + 1, count as int);
                    assert(offs.take(count as int) =~= offs);
                    assert(spec_page_cookies(page@) is None);
                }
                return Err(e);
            },
        }
        i = i + 1;
    }
    proof {
        assert(offs.take(count as int) =~= offs);
    }
    Ok(())
}

/// Once a prefix of the offsets poisons the fold, every extension stays
/// poisoned.
proof fn lemma_records_fold_poison(page: Seq<u8>, offs: Seq<int>, i: int, n: int)
    requires
        0 <= i <= n <= offs.len(),
        spec_records_fold(page, offs.take(i)) is None,
    ensures
        spec_records_fold(page, offs.take(n)) is None,
    decreases n - i,
{
    if i < n {
        assert(offs.take(i + 1).drop_last() =~= offs.take(i));
        lemma_records_fold_poison(page, offs, i + 1, n);
    }
}

// ---------------------------------------------------------------------------
// The whole container
// ---------------------------------------------------------------------------

/// The page sizes the header declares, read big-endian.
pub open spec fn spec_page_sizes(data: Seq<u8>, count: int) -> Seq<int> {
    Seq::new(count as nat, |i: int| spec_u32_be(data.subrange(8 + 4 * i, 12 + 4 * i)))
}

/// Folds the pages left to right from `start`: a page running past the
/// buffer, or failing to parse, poisons the whole container.
pub open spec fn spec_pages_fold(data: Seq<u8>, sizes: Seq<int>, start: int) -> Option<
    Seq<CookieModel>,
>
    decreases sizes.len(),
{
    if sizes.len() == 0 {
        Some(Seq::empty())
    } else if !(0 <= start && start + sizes[0] <= data.len()) {
        None
    } else {
        match spec_page_cookies(data.subrange(start, start + sizes[0])) {
            None => None,
            Some(cs) => match spec_pages_fold(data, sizes.drop_first(), start + sizes[0]) {
                None => None,
                Some(rest) => Some(cs + rest),
            },
        }
    }
}

/// What a whole `.binarycookies` buffer parses to, in page and record
/// order: `None` when any structural check fails.
pub open spec fn spec_safari_cookies(data: Seq<u8>) -> Option<Seq<CookieModel>> {
    if data.len() < 8 {
        None
    } else if !(data[0] == 0x63 && data[1] == 0x6f && data[2] == 0x6f && data[3] == 0x6b) {
        None
    } else {
        let count = spec_u32_be(data.subrange(4, 8));
        if 8 + 4 * count > data.len() {
            None
        } else {
            spec_pages_fold(data, spec_page_sizes(data, count), 8 + 4 * count)
        }
    }
}

/// Parses a whole `.binarycookies` buffer into `store`.
pub fn parse_safari_cookies(data: &[u8], store: &mut CookieStore) -> (r: Result<(), RurlError>)
    requires
        old(store).wf(),
    ensures
        final(store).wf(),
        match r {
            Ok(()) => spec_safari_cookies(data@) matches Some(cs) && final(store)@ =~= old(store)@
                + cs,
            Err(e) => spec_safari_cookies(data@) is None && e is BrowserCookie,
        },
{
    let len: usize = data.len();
    if len < 8 {
        return Err(
            RurlError::BrowserCookie("Safari cookies invalid database signature".to_owned()),
        );
    }
    if !(data[0] == 0x63 && data[1] == 0x6f && data[2] == 0x6f && data[3] == 0x6b) {
        return Err(
            RurlError::BrowserCookie("Safari cookies invalid database signature".to_owned()),
        );
    }
    let count = u32_be_at(data, 4);
    if !(8u64 + 4u64 * (count as u64) <= len as u64) {
        return Err(RurlError::BrowserCookie("Safari cookies truncated".to_owned()));
    }
    let count: usize = count as usize;
    let ghost sizes = spec_page_sizes(data@, count as int);
    let mut cursor: usize = 8 + 4 * count;
    proof {
        assert(sizes.skip(0) =~= sizes);
        assert(spec_safari_cookies(data@) == spec_pages_fold(data@, sizes, cursor as int));
        if spec_pages_fold(data@, sizes, cursor as int) is Some {
            let rest = spec_pages_fold(data@, sizes, cursor as int)->0;
            assert(store@.subrange(old(store)@.len() as int, store@.len() as int) + rest =~= rest);
        }
    }
    let mut i: usize = 0;
    while i < count
        invariant
            i <= count,
            len == data@.len(),
            8 + 4 * count <= len,
            cursor <= len,
            sizes == spec_page_sizes(data@, count as int),
            store.wf(),
            spec_safari_cookies(data@) == spec_prefixed(
                old(store)@,
                store@,
                spec_pages_fold(data@, sizes.skip(i as int), cursor as int),
            ),
            store@.len() >= old(store)@.len(),
            store@.subrange(0, old(store)@.len() as int) =~= old(store)@,
        decreases count - i,
    {
        proof {
            assert(sizes.skip(i as int).len() == count - i);
            assert(sizes.skip(i as int)[0] == sizes[i as int]);
            assert(sizes.skip(i as int).drop_first() =~= sizes.skip(i + 1));
        }
        let size = u32_be_at(data, 8 + 4 * i) as usize;
        proof {
            assert(size as int == sizes[i as int]);
        }
        if !(size <= len - cursor) {
            proof {
                assert(spec_pages_fold(data@, sizes.skip(i as int), cursor as int) is None);
            }
            return Err(RurlError::BrowserCookie("Invalid Safari page size".to_owned()));
        }
        let page: &[u8] = &data[cursor..cursor + size];
        let ghost pre = store@;
        match parse_safari_page(page, store) {
            Ok(()) => {},
            Err(e) => {
                proof {
                    assert(spec_page_cookies(data@.subrange(cursor as int, cursor + size)) is None);
                    assert(spec_pages_fold(data@, sizes.skip(i as int), cursor as int) is None);
                }
                return Err(e);
            },
        }
        proof {
            let cs = choose|cs: Seq<CookieModel>| spec_page_cookies(page@) == Some(cs) && store@
                =~= pre + cs;
            assert(spec_page_cookies(data@.subrange(cursor as int, cursor + size)) == Some(cs));
            lemma_prefixed_extend(old(store)@, pre, store@, cs);
            let fi = spec_pages_fold(data@, sizes.skip(i as int), cursor as int);
            let fn_ = spec_pages_fold(data@, sizes.skip(i + 1), cursor + size);
            match fn_ {
                None => {
                    assert(fi is None);
                },
                Some(rest) => {
                    assert(fi == Some(cs + rest));
                    assert(store@.subrange(old(store)@.len() as int, store@.len() as int) + rest
                        =~= pre.subrange(old(store)@.len() as int, pre.len() as int) + (cs + rest));
                },
            }
        }
        cursor = cursor + size;
        i = i + 1;
    }
    proof {
        assert(sizes.skip(count as int) =~= Seq::<int>::empty());
        let tail = store@.subrange(old(store)@.len() as int, store@.len() as int);
        assert(tail + Seq::<CookieModel>::empty() =~= tail);
        assert(store@ =~= old(store)@ + tail);
    }
    Ok(())
}

/// Helper shape of the loop invariant above: the whole container's parse,
/// expressed as what is already in the store plus what is still to come.
pub open spec fn spec_prefixed(
    base: Seq<CookieModel>,
    current: Seq<CookieModel>,
    remaining: Option<Seq<CookieModel>>,
) -> Option<Seq<CookieModel>> {
    match remaining {
        None => None,
        Some(rest) => Some(current.subrange(base.len() as int, current.len() as int) + rest),
    }
}

proof fn lemma_prefixed_extend(
    base: Seq<CookieModel>,
    pre: Seq<CookieModel>,
    post: Seq<CookieModel>,
    cs: Seq<CookieModel>,
)
    requires
        base.len() <= pre.len(),
        pre.subrange(0, base.len() as int) =~= base,
        post =~= pre + cs,
    ensures
        post.subrange(0, base.len() as int) =~= base,
        forall|rest: Seq<CookieModel>|
            #[trigger] (post.subrange(base.len() as int, post.len() as int) + rest) =~= pre.subrange(
                base.len() as int,
                pre.len() as int,
            ) + (cs + rest),
{
    assert forall|rest: Seq<CookieModel>|
        #[trigger] (post.subrange(base.len() as int, post.len() as int) + rest) =~= pre.subrange(
            base.len() as int,
            pre.len() as int,
        ) + (cs + rest) by {
        assert(post.subrange(base.len() as int, post.len() as int) =~= pre.subrange(
            base.len() as int,
            pre.len() as int,
        ) + cs);
    }
}

/// Parses a `.binarycookies` buffer into a fresh store.  A structurally
/// sound buffer that yields no cookie at all is reported as an extraction
/// failure, deliberately: it is indistinguishable from a wrong profile or a
/// malformed file.
pub fn extract_cookies(data: &[u8]) -> (r: Result<CookieStore, RurlError>)
    ensures
        match r {
            Ok(store) => spec_safari_cookies(data@) == Some(store@) && store@.len() > 0
                && store.wf(),
            Err(e) => e is BrowserCookie && (spec_safari_cookies(data@) is None
                || spec_safari_cookies(data@) == Some(Seq::<CookieModel>::empty())),
        },
{
    let mut store = CookieStore::new();
    match parse_safari_cookies(data, &mut store) {
        Ok(()) => {},
        Err(e) => {
            return Err(e);
        },
    }
    if store.is_empty() {
        proof {
            let cs = choose|cs: Seq<CookieModel>| spec_safari_cookies(data@) == Some(cs) && store@
                =~= Seq::<CookieModel>::empty() + cs;
            assert(cs =~= Seq::<CookieModel>::empty());
        }
        return Err(
            RurlError::BrowserCookie("No Safari cookies could be extracted".to_owned()),
        );
    }
    proof {
        let cs = choose|cs: Seq<CookieModel>| spec_safari_cookies(data@) == Some(cs) && store@ =~=
            Seq::<CookieModel>::empty() + cs;
        assert(store@ =~= cs);
    }
    Ok(store)
}

} // verus!
