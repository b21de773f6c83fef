//! Character and string helpers shared by the cookie engine.
//!
//! Everything here works character-wise over the `Seq<char>` view of a
//! string, so callers can state exact contracts over views.

use vstd::prelude::*;

verus! {

use vstd::string::*;

// ---------------------------------------------------------------------------
// ASCII case folding
// ---------------------------------------------------------------------------

/// ASCII lower-casing of one character: `'A'..='Z'` shift down, all else kept.
pub open spec fn spec_lower_char(c: char) -> char {
    if 65 <= c as u32 && c as u32 <= 90 {
        (((c as u32) + 32) as u8) as char
    } else {
        c
    }
}

/// View of a string after ASCII lower-casing every character.
pub open spec fn spec_lower(s: Seq<char>) -> Seq<char> {
    s.map_values(|c: char| spec_lower_char(c))
}

pub fn lower_char(c: char) -> (r: char)
    ensures
        r == spec_lower_char(c),
{
    let n: u32 = c as u32;
    if 65 <= n && n <= 90 {
        ((n + 32) as u8) as char
    } else {
        c
    }
}

/// Relies on `String::push`: appends one character at the end.
#[verifier::external_body]
pub(crate) fn push_char(s: &mut String, c: char)
    ensures
        final(s)@ == old(s)@.push(c),
{
    s.push(c);
}

/// ASCII lower-casing of a whole string, other characters unchanged.
pub fn to_ascii_lowercase(s: &str) -> (r: String)
    ensures
        r@ == spec_lower(s@),
{
    let len: usize = s.unicode_len();
    let mut out: String = String::new();
    let mut i: usize = 0;
    while i < len
        invariant
            i <= len,
            len == s@.len(),
            out@ == spec_lower(s@.subrange(0, i as int)),
        decreases len - i,
    {
        let c = s.get_char(i);
        push_char(&mut out, lower_char(c));
        proof {
            assert(s@.subrange(0, i + 1) =~= s@.subrange(0, i as int).push(s@[i as int]));
            assert(spec_lower(s@.subrange(0, i + 1)) =~= spec_lower(s@.subrange(0, i as int)).push(
                spec_lower_char(s@[i as int]),
            ));
        }
        i = i + 1;
    }
    proof {
        assert(s@.subrange(0, len as int) =~= s@);
    }
    out
}

// ---------------------------------------------------------------------------
// ASCII whitespace trimming
// ---------------------------------------------------------------------------

/// The ASCII whitespace characters recognised when trimming.
pub open spec fn spec_is_ascii_ws(c: char) -> bool {
    c == ' ' || c == '\t' || c == '\n' || c == '\r' || c == '\x0c'
}

pub open spec fn spec_trim_start(s: Seq<char>) -> Seq<char>
    decreases s.len(),
{
    if s.len() > 0 && spec_is_ascii_ws(s[0]) {
        spec_trim_start(s.drop_first())
    } else {
        s
    }
}

pub open spec fn spec_trim_end(s: Seq<char>) -> Seq<char>
    decreases s.len(),
{
    if s.len() > 0 && spec_is_ascii_ws(s[s.len() - 1]) {
        spec_trim_end(s.drop_last())
    } else {
        s
    }
}

/// View of a string with leading and trailing ASCII whitespace removed.
pub open spec fn spec_trim(s: Seq<char>) -> Seq<char> {
    spec_trim_end(spec_trim_start(s))
}

proof fn lemma_trim_start_at(s: Seq<char>, i: int)
    requires
        0 <= i <= s.len(),
        forall|k: int| 0 <= k < i ==> spec_is_ascii_ws(s[k]),
        i < s.len() ==> !spec_is_ascii_ws(s[i]),
    ensures
        spec_trim_start(s) =~= s.subrange(i, s.len() as int),
    decreases i,
{
    if i == 0 {
        assert(s.subrange(0, s.len() as int) =~= s);
    } else {
        let t = s.drop_first();
        assert(spec_is_ascii_ws(s[0]));
        lemma_trim_start_at(t, i - 1);
        assert(t.subrange(i - 1, t.len() as int) =~= s.subrange(i, s.len() as int));
    }
}

proof fn lemma_trim_end_at(s: Seq<char>, j: int)
    requires
        0 <= j <= s.len(),
        forall|k: int| j <= k < s.len() ==> spec_is_ascii_ws(s[k]),
        j > 0 ==> !spec_is_ascii_ws(s[j - 1]),
    ensures
        spec_trim_end(s) =~= s.subrange(0, j),
    decreases s.len() - j,
{
    if j == s.len() {
        assert(s.subrange(0, s.len() as int) =~= s);
    } else {
        let t = s.drop_last();
        assert(spec_is_ascii_ws(s[s.len() - 1]));
        lemma_trim_end_at(t, j);
        assert(t.subrange(0, j) =~= s.subrange(0, j));
    }
}

/// Both-sided ASCII trim, returned as an owned string.
pub fn trim_ascii(s: &str) -> (r: String)
    ensures
        r@ == spec_trim(s@),
{
    let len: usize = s.unicode_len();
    let mut i: usize = 0;
    while i < len && is_ws(s.get_char(i))
        invariant
            i <= len,
            len == s@.len(),
            forall|k: int| 0 <= k < i ==> spec_is_ascii_ws(s@[k]),
        decreases len - i,
    {
        i = i + 1;
    }
    let mut j: usize = len;
    while j > i && is_ws(s.get_char(j - 1))
        invariant
            i <= j <= len,
            len == s@.len(),
            forall|k: int| 0 <= k < i ==> spec_is_ascii_ws(s@[k]),
            forall|k: int| j <= k < len ==> spec_is_ascii_ws(s@[k]),
        decreases j,
    {
        j = j - 1;
    }
    let piece = s.substring_char(i, j);
    proof {
        lemma_trim_start_at(s@, i as int);
        let t = s@.subrange(i as int, len as int);
        if j > i {
            lemma_trim_end_at(t, j - i);
        } else {
            lemma_trim_end_at(t, 0);
        }
        assert(t.subrange(0, j - i) =~= s@.subrange(i as int, j as int));
    }
    piece.to_owned()
}

fn is_ws(c: char) -> (r: bool)
    ensures
        r == spec_is_ascii_ws(c),
{
    c == ' ' || c == '\t' || c == '\n' || c == '\r' || c == '\x0c'
}

// ---------------------------------------------------------------------------
// Substring search
// ---------------------------------------------------------------------------

/// `n` occurs in `h` at position `i`.
pub open spec fn spec_contains_at(h: Seq<char>, n: Seq<char>, i: int) -> bool {
    0 <= i && i + n.len() <= h.len() && h.subrange(i, i + n.len() as int) =~= n
}

/// `n` occurs somewhere in `h`.
pub open spec fn spec_contains(h: Seq<char>, n: Seq<char>) -> bool {
    exists|i: int| spec_contains_at(h, n, i)
}

pub open spec fn spec_starts_with(h: Seq<char>, n: Seq<char>) -> bool {
    spec_contains_at(h, n, 0)
}

pub open spec fn spec_ends_with(h: Seq<char>, n: Seq<char>) -> bool {
    n.len() <= h.len() && spec_contains_at(h, n, h.len() - n.len())
}

/// Compares `n` against `h` at position `i`, character by character.
pub fn matches_at(h: &str, n: &str, i: usize) -> (r: bool)
    requires
        i + n@.len() <= h@.len(),
        h@.len() <= usize::MAX,
    ensures
        r == spec_contains_at(h@, n@, i as int),
{
    let nlen: usize = n.unicode_len();
    let mut j: usize = 0;
    while j < nlen
        invariant
            j <= nlen,
            nlen == n@.len(),
            i + nlen <= h@.len(),
            h@.len() <= usize::MAX,
            forall|k: int| 0 <= k < j ==> h@[i + k] == n@[k],
        decreases nlen - j,
    {
        if h.get_char(i + j) != n.get_char(j) {
            proof {
                assert(!spec_contains_at(h@, n@, i as int)) by {
                    if spec_contains_at(h@, n@, i as int) {
                        assert(h@.subrange(i as int, i + n@.len() as int)[j as int] == n@[j as int]);
                    }
                }
            }
            return false;
        }
        j = j + 1;
    }
    proof {
        assert(h@.subrange(i as int, i + n@.len() as int) =~= n@);
    }
    true
}

/// First occurrence of `n` in `h`, if any.
pub fn find_sub(h: &str, n: &str) -> (r: Option<usize>)
    ensures
        match r {
            Some(i) => spec_contains_at(h@, n@, i as int) && forall|j: int|
                0 <= j < i ==> !spec_contains_at(h@, n@, j),
            None => !spec_contains(h@, n@),
        },
{
    let hlen: usize = h.unicode_len();
    let nlen: usize = n.unicode_len();
    if nlen > hlen {
        return None;
    }
    let mut i: usize = 0;
    while i <= hlen - nlen
        invariant
            nlen <= hlen,
            hlen == h@.len(),
            nlen == n@.len(),
            i <= hlen - nlen + 1,
            forall|j: int| 0 <= j < i ==> !spec_contains_at(h@, n@, j),
        decreases hlen - nlen - i + 1,
    {
        if matches_at(h, n, i) {
            return Some(i);
        }
        i = i + 1;
    }
    proof {
        assert forall|j: int| !spec_contains_at(h@, n@, j) by {
            if spec_contains_at(h@, n@, j) {
                assert(0 <= j < i);
            }
        }
    }
    None
}

/// `n` occurs in `h` first at position `i`.
pub open spec fn spec_first_at(h: Seq<char>, n: Seq<char>, i: int) -> bool {
    spec_contains_at(h, n, i) && forall|j: int| 0 <= j < i ==> !spec_contains_at(h, n, j)
}

/// Position of the first occurrence of `n` in `h`, if any.
pub open spec fn spec_find(h: Seq<char>, n: Seq<char>) -> Option<int> {
    if spec_contains(h, n) {
        Some(choose|i: int| spec_first_at(h, n, i))
    } else {
        None
    }
}

/// The first occurrence is unique, so `spec_find` returns exactly it.
pub proof fn lemma_find_unique(h: Seq<char>, n: Seq<char>, i: int)
    requires
        spec_first_at(h, n, i),
    ensures
        spec_find(h, n) == Some(i),
{
    assert(spec_contains(h, n));
    let j = choose|j: int| spec_first_at(h, n, j);
    if j < i {
        assert(!spec_contains_at(h, n, j));
    }
    if i < j {
        assert(!spec_contains_at(h, n, i));
    }
}

pub fn contains_sub(h: &str, n: &str) -> (r: bool)
    ensures
        r == spec_contains(h@, n@),
{
    match find_sub(h, n) {
        Some(_) => true,
        None => false,
    }
}

pub fn starts_with_str(h: &str, n: &str) -> (r: bool)
    ensures
        r == spec_starts_with(h@, n@),
{
    let hlen: usize = h.unicode_len();
    let nlen: usize = n.unicode_len();
    if nlen > hlen {
        return false;
    }
    matches_at(h, n, 0)
}

pub fn ends_with_str(h: &str, n: &str) -> (r: bool)
    ensures
        r == spec_ends_with(h@, n@),
{
    let hlen: usize = h.unicode_len();
    let nlen: usize = n.unicode_len();
    if nlen > hlen {
        return false;
    }
    matches_at(h, n, hlen - nlen)
}

/// Character-wise equality of two strings.
pub fn str_eq(a: &str, b: &str) -> (r: bool)
    ensures
        r == (a@ == b@),
{
    let alen: usize = a.unicode_len();
    let blen: usize = b.unicode_len();
    if alen != blen {
        return false;
    }
    let r = matches_at(a, b, 0);
    proof {
        if r {
            assert(a@.subrange(0, b@.len() as int) =~= a@);
        }
    }
    r
}

// ---------------------------------------------------------------------------
// Decimal numbers
// ---------------------------------------------------------------------------

pub open spec fn spec_is_digit(c: char) -> bool {
    48 <= c as u32 && c as u32 <= 57
}

pub open spec fn spec_digit_val(c: char) -> int {
    c as u32 - 48
}

/// Value of a digit string, most significant first.
pub open spec fn spec_dec_val(s: Seq<char>) -> int
    decreases s.len(),
{
    if s.len() == 0 {
        0
    } else {
        spec_dec_val(s.drop_last()) * 10 + spec_digit_val(s[s.len() - 1])
    }
}

pub open spec fn spec_all_digits(s: Seq<char>) -> bool {
    s.len() > 0 && forall|i: int| 0 <= i < s.len() ==> spec_is_digit(s[i])
}

proof fn lemma_dec_val_nonneg(s: Seq<char>)
    requires
        forall|i: int| 0 <= i < s.len() ==> spec_is_digit(s[i]),
    ensures
        spec_dec_val(s) >= 0,
    decreases s.len(),
{
    if s.len() > 0 {
        lemma_dec_val_nonneg(s.drop_last());
    }
}

proof fn lemma_dec_val_step(s: Seq<char>, i: int)
    requires
        0 <= i < s.len(),
    ensures
        spec_dec_val(s.subrange(0, i + 1)) == spec_dec_val(s.subrange(0, i)) * 10 + spec_digit_val(
            s[i],
        ),
{
    let t = s.subrange(0, i + 1);
    assert(t.drop_last() =~= s.subrange(0, i));
}

proof fn lemma_dec_val_mono(s: Seq<char>, i: int, j: int)
    requires
        forall|k: int| 0 <= k < s.len() ==> spec_is_digit(s[k]),
        0 <= i <= j <= s.len(),
    ensures
        spec_dec_val(s.subrange(0, i)) <= spec_dec_val(s.subrange(0, j)),
    decreases j - i,
{
    if i < j {
        lemma_dec_val_mono(s, i, j - 1);
        lemma_dec_val_step(s, j - 1);
        lemma_dec_val_nonneg(s.subrange(0, j - 1));
    }
}

/// Parses an unsigned decimal number; fails on the empty string, any
/// non-digit character, and values over `u64::MAX`.
pub fn parse_u64_dec(s: &str) -> (r: Option<u64>)
    ensures
        match r {
            Some(v) => spec_all_digits(s@) && v as int == spec_dec_val(s@),
            None => !(spec_all_digits(s@) && spec_dec_val(s@) <= u64::MAX),
        },
{
    let len: usize = s.unicode_len();
    if len == 0 {
        return None;
    }
    let mut acc: u64 = 0;
    let mut i: usize = 0;
    while i < len
        invariant
            i <= len,
            len == s@.len(),
            forall|k: int| 0 <= k < i ==> spec_is_digit(s@[k]),
            acc as int == spec_dec_val(s@.subrange(0, i as int)),
        decreases len - i,
    {
        let c = s.get_char(i);
        let n: u32 = c as u32;
        if !(48 <= n && n <= 57) {
            return None;
        }
        let d: u64 = (n - 48) as u64;
        proof {
            lemma_dec_val_step(s@, i as int);
        }
        if acc > (u64::MAX - d) / 10 {
            proof {
                assert(acc as int * 10 + d > u64::MAX);
                if spec_all_digits(s@) {
                    lemma_dec_val_mono(s@, i + 1, len as int);
                    assert(s@.subrange(0, len as int) =~= s@);
                }
            }
            return None;
        }
        acc = acc * 10 + d;
        i = i + 1;
    }
    proof {
        assert(s@.subrange(0, len as int) =~= s@);
    }
    Some(acc)
}

/// What `str::parse::<i64>` accepts: an optional sign, then digits, with the
/// value in `i64` range.
pub open spec fn spec_parse_i64(s: Seq<char>) -> Option<int> {
    let (neg, digits): (bool, Seq<char>) = if s.len() > 0 && s[0] == '-' {
        (true, s.drop_first())
    } else if s.len() > 0 && s[0] == '+' {
        (false, s.drop_first())
    } else {
        (false, s)
    };
    if spec_all_digits(digits) {
        let v = if neg {
            -spec_dec_val(digits)
        } else {
            spec_dec_val(digits)
        };
        if i64::MIN <= v <= i64::MAX {
            Some(v)
        } else {
            None
        }
    } else {
        None
    }
}

/// Parses a signed decimal number the way `str::parse::<i64>` does.
pub fn parse_i64_dec(s: &str) -> (r: Option<i64>)
    ensures
        match r {
            Some(v) => spec_parse_i64(s@) == Some(v as int),
            None => spec_parse_i64(s@) is None,
        },
{
    let len: usize = s.unicode_len();
    let mut neg: bool = false;
    let mut start: usize = 0;
    if len > 0 {
        let c0 = s.get_char(0);
        if c0 == '-' {
            neg = true;
            start = 1;
        } else if c0 == '+' {
            start = 1;
        }
    }
    let digits = s.substring_char(start, len);
    let ghost dseq = s@.subrange(start as int, len as int);
    proof {
        if start == 1 {
            assert(dseq =~= s@.drop_first());
        } else {
            assert(dseq =~= s@);
        }
    }
    match parse_u64_dec(digits) {
        None => {
            proof {
                if spec_all_digits(dseq) {
                    lemma_dec_val_nonneg(dseq);
                    if neg {
                        assert(spec_dec_val(dseq) > u64::MAX >= i64::MAX);
                        assert(-spec_dec_val(dseq) < i64::MIN);
                    }
                }
            }
            None
        },
        Some(mag) => {
            if neg {
                if mag <= 9223372036854775807u64 {
                    Some(-(mag as i64))
                } else if mag == 9223372036854775808u64 {
                    Some(i64::MIN)
                } else {
                    None
                }
            } else {
                if mag <= 9223372036854775807u64 {
                    Some(mag as i64)
                } else {
                    None
                }
            }
        },
    }
}

pub open spec fn spec_digit_char(d: int) -> char {
    ((48 + d) as u8) as char
}

/// Decimal rendering of a number, most significant digit first.
pub open spec fn spec_u64_dec(n: nat) -> Seq<char>
    decreases n,
{
    if n < 10 {
        seq![spec_digit_char(n as int)]
    } else {
        spec_u64_dec(n / 10).push(spec_digit_char((n % 10) as int))
    }
}

pub fn u64_to_dec(n: u64) -> (r: String)
    ensures
        r@ == spec_u64_dec(n as nat),
    decreases n,
{
    if n < 10 {
        let mut s = String::new();
        push_char(&mut s, ((48 + n as u8)) as char);
        s
    } else {
        let mut s = u64_to_dec(n / 10);
        push_char(&mut s, ((48 + (n % 10) as u8)) as char);
        s
    }
}

// ---------------------------------------------------------------------------
// UTF-8 boundaries
// ---------------------------------------------------------------------------

/// Relies on `String::from_utf8`: succeeds exactly on valid UTF-8 and returns
/// its decoding (vstd's `valid_utf8` / `decode_utf8` state that meaning).
#[verifier::external_body]
pub(crate) fn utf8_decode(bytes: &[u8]) -> (r: Option<String>)
    ensures
        r is Some <==> vstd::utf8::valid_utf8(bytes@),
        r is Some ==> r->0@ == vstd::utf8::decode_utf8(bytes@),
{
    String::from_utf8(bytes.to_vec()).ok()
}

/// The replacement-character decoding of any byte string.
pub uninterp spec fn spec_utf8_lossy(bytes: Seq<u8>) -> Seq<char>;

/// Relies on `String::from_utf8_lossy`: a function of the bytes alone, and
/// on valid UTF-8 exactly the decoding.
#[verifier::external_body]
pub(crate) fn utf8_lossy(bytes: &[u8]) -> (r: String)
    ensures
        r@ == spec_utf8_lossy(bytes@),
        vstd::utf8::valid_utf8(bytes@) ==> r@ == vstd::utf8::decode_utf8(bytes@),
{
    String::from_utf8_lossy(bytes).to_string()
}

} // verus!
