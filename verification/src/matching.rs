//! The cookie matching engine: which stored cookies are sent for a request
//! URL, and how the selected cookies are rendered into a `Cookie:` header.

use vstd::prelude::*;

verus! {

use vstd::string::*;
use crate::config::BrowserCookieConfig;
use crate::cookie::{Cookie, CookieModel, CookieStore, views_of};
use crate::text::{
    ends_with_str, spec_ends_with, spec_lower, spec_starts_with, spec_trim, starts_with_str,
    str_eq, to_ascii_lowercase, trim_ascii,
};

// ---------------------------------------------------------------------------
// Expiry
// ---------------------------------------------------------------------------

/// A cookie is expired iff it carries an expiry at most `now`.  `None` never
/// expires, and a value over `100_000_000_000` (far beyond any realistic
/// Unix-seconds stamp) is distrusted and treated as never expiring.
pub open spec fn spec_is_expired(expires: Option<int>, now: int) -> bool {
    match expires {
        None => false,
        Some(x) => if x > 100_000_000_000 {
            false
        } else {
            x <= now
        },
    }
}

pub fn is_expired(expires: Option<i64>, now: i64) -> (r: bool)
    ensures
        r == spec_is_expired(
            match expires {
                Some(x) => Some(x as int),
                None => None,
            },
            now as int,
        ),
{
    match expires {
        None => false,
        Some(x) => {
            if x > 100_000_000_000i64 {
                false
            } else {
                x <= now
            }
        },
    }
}

// ---------------------------------------------------------------------------
// Domain matching
// ---------------------------------------------------------------------------

pub open spec fn spec_strip_leading_dots(s: Seq<char>) -> Seq<char>
    decreases s.len(),
{
    if s.len() > 0 && s[0] == '.' {
        spec_strip_leading_dots(s.drop_first())
    } else {
        s
    }
}

proof fn lemma_strip_dots_at(s: Seq<char>, i: int)
    requires
        0 <= i <= s.len(),
        forall|k: int| 0 <= k < i ==> s[k] == '.',
        i < s.len() ==> s[i] != '.',
    ensures
        spec_strip_leading_dots(s) =~= s.subrange(i, s.len() as int),
    decreases i,
{
    if i == 0 {
        assert(s.subrange(0, s.len() as int) =~= s);
    } else {
        let t = s.drop_first();
        lemma_strip_dots_at(t, i - 1);
        assert(t.subrange(i - 1, t.len() as int) =~= s.subrange(i, s.len() as int));
    }
}

/// The domain rule: the cookie domain is ASCII-trimmed and lower-cased.
/// With a leading dot (dots stripped), the host matches exactly or as a
/// dot-bounded suffix; without one, only exactly.
pub open spec fn spec_domain_matches(host: Seq<char>, cookie_domain: Seq<char>) -> bool {
    let canon = spec_lower(spec_trim(cookie_domain));
    if canon.len() == 0 {
        false
    } else if canon[0] == '.' {
        let d = spec_strip_leading_dots(canon);
        d.len() > 0 && (host == d || spec_ends_with(host, seq!['.'] + d))
    } else {
        host == canon
    }
}

pub fn domain_matches(host: &str, cookie_domain: &str) -> (r: bool)
    ensures
        r == spec_domain_matches(host@, cookie_domain@),
{
    let trimmed = trim_ascii(cookie_domain);
    let canon = to_ascii_lowercase(trimmed.as_str());
    let c = canon.as_str();
    let len: usize = c.unicode_len();
    if len == 0 {
        return false;
    }
    if c.get_char(0) == '.' {
        let mut i: usize = 0;
        while i < len && c.get_char(i) == '.'
            invariant
                i <= len,
                len == c@.len(),
                forall|k: int| 0 <= k < i ==> c@[k] == '.',
            decreases len - i,
        {
            i = i + 1;
        }
        proof {
            lemma_strip_dots_at(c@, i as int);
        }
        if i == len {
            return false;
        }
        let d = c.substring_char(i, len);
        if str_eq(host, d) {
            return true;
        }
        let mut dotted = ".".to_owned();
        dotted.append(d);
        proof {
            reveal_strlit(".");
            assert("."@ =~= seq!['.']);
        }
        ends_with_str(host, dotted.as_str())
    } else {
        str_eq(host, c)
    }
}

// ---------------------------------------------------------------------------
// Path matching
// ---------------------------------------------------------------------------

/// The path rule: an empty cookie path counts as `/`; otherwise the request
/// path must equal the cookie path, or extend it at a `/` boundary.
pub open spec fn spec_path_matches(request_path: Seq<char>, cookie_path: Seq<char>) -> bool {
    let cp = if cookie_path.len() == 0 {
        seq!['/']
    } else {
        cookie_path
    };
    request_path == cp || (spec_starts_with(request_path, cp) && (cp[cp.len() - 1] == '/' || (
    request_path.len() > cp.len() && request_path[cp.len() as int] == '/')))
}

pub fn path_matches(request_path: &str, cookie_path: &str) -> (r: bool)
    ensures
        r == spec_path_matches(request_path@, cookie_path@),
{
    proof {
        reveal_strlit("/");
        assert("/"@ =~= seq!['/']);
    }
    let cp: &str = if cookie_path.unicode_len() == 0 {
        "/"
    } else {
        cookie_path
    };
    if str_eq(request_path, cp) {
        return true;
    }
    if !starts_with_str(request_path, cp) {
        return false;
    }
    let cplen: usize = cp.unicode_len();
    let plen: usize = request_path.unicode_len();
    if cp.get_char(cplen - 1) == '/' {
        return true;
    }
    if plen > cplen {
        request_path.get_char(cplen) == '/'
    } else {
        false
    }
}

// ---------------------------------------------------------------------------
// Selection
// ---------------------------------------------------------------------------

/// One cookie is sent iff it is not a secure cookie on a plain connection,
/// not expired, and its domain and path match the request.
pub open spec fn spec_cookie_matches(
    c: CookieModel,
    host_lower: Seq<char>,
    path: Seq<char>,
    https: bool,
    now: int,
) -> bool {
    (!c.secure || https) && !spec_is_expired(c.expires, now) && spec_domain_matches(
        host_lower,
        c.domain,
    ) && spec_path_matches(path, c.path)
}

/// The cookies selected for a request, in stored order.
pub open spec fn spec_cookies_for_url(
    cs: Seq<CookieModel>,
    host: Seq<char>,
    path: Seq<char>,
    https: bool,
    now: int,
) -> Seq<CookieModel> {
    cs.filter(
        |c: CookieModel| spec_cookie_matches(c, spec_lower(host), path, https, now),
    )
}

fn cookie_matches(c: &Cookie, host_lower: &str, path: &str, https: bool, now: i64) -> (r: bool)
    ensures
        r == spec_cookie_matches(c@, host_lower@, path@, https, now as int),
{
    if c.secure && !https {
        return false;
    }
    if is_expired(c.expires, now) {
        return false;
    }
    if !domain_matches(host_lower, c.domain.as_str()) {
        return false;
    }
    path_matches(path, c.path.as_str())
}

// ---------------------------------------------------------------------------
// Rendering
// ---------------------------------------------------------------------------

pub open spec fn spec_cookie_pair(c: CookieModel) -> Seq<char> {
    c.name + seq!['='] + c.value
}

/// `name1=value1; name2=value2; ...` in input order.
pub open spec fn spec_cookie_header(cs: Seq<CookieModel>) -> Seq<char>
    decreases cs.len(),
{
    if cs.len() == 0 {
        Seq::empty()
    } else if cs.len() == 1 {
        spec_cookie_pair(cs[0])
    } else {
        spec_cookie_header(cs.drop_last()) + seq![';', ' '] + spec_cookie_pair(cs.last())
    }
}

// ---------------------------------------------------------------------------
// The extractor interface
// ---------------------------------------------------------------------------

/// Relies on `std::time::SystemTime::now`: the wall clock as Unix seconds,
/// `0` when the clock reads before the epoch.  Nothing can be promised of
/// the clock's value.
#[verifier::external_body]
pub(crate) fn unix_timestamp_seconds() -> i64 {
    std::time::SystemTime::now().duration_since(std::time::UNIX_EPOCH).map(
        |duration| duration.as_secs() as i64,
    ).unwrap_or(0)
}

/// The engine's interface to the HTTP layer: holds the extraction request
/// and selects or renders cookies for it.
pub struct BrowserCookieExtractor {
    pub config: BrowserCookieConfig,
}

impl BrowserCookieExtractor {
    pub fn new(config: BrowserCookieConfig) -> (r: BrowserCookieExtractor)
        ensures
            r.config == config,
    {
        BrowserCookieExtractor { config }
    }

    /// The cookies of `store` matching a request with the given host, path
    /// and scheme at time `now`, in stored order.
    pub fn cookies_for_url_at(
        &self,
        store: &CookieStore,
        host: &str,
        path: &str,
        https: bool,
        now: i64,
    ) -> (r: Vec<Cookie>)
        ensures
            views_of(r@) =~= spec_cookies_for_url(store@, host@, path@, https, now as int),
    {
        let host_lower = to_ascii_lowercase(host);
        let all = store.all();
        let len: usize = all.len();
        let ghost pred = |c: CookieModel|
            spec_cookie_matches(c, spec_lower(host@), path@, https, now as int);
        let mut out: Vec<Cookie> = Vec::new();
        let mut i: usize = 0;
        while i < len
            invariant
                i <= len,
                len == all@.len(),
                len == store@.len(),
                forall|k: int| 0 <= k < len ==> (#[trigger] all@[k])@ == store@[k],
                host_lower@ == spec_lower(host@),
                pred == |c: CookieModel|
                    spec_cookie_matches(c, spec_lower(host@), path@, https, now as int),
                views_of(out@) =~= store@.subrange(0, i as int).filter(pred),
            decreases len - i,
        {
            let c = &all[i];
            proof {
                reveal(Seq::filter);
                assert(store@.subrange(0, i + 1).drop_last() =~= store@.subrange(0, i as int));
                assert(store@.subrange(0, i + 1).last() == store@[i as int]);
            }
            if cookie_matches(c, host_lower.as_str(), path, https, now) {
                out.push(c.duplicate());
                proof {
                    assert(views_of(out@) =~= views_of(out@.drop_last()).push(c@));
                }
            }
            i = i + 1;
        }
        proof {
            assert(store@.subrange(0, len as int) =~= store@);
        }
        out
    }

    /// Selects the cookies to send now: secure cookies only over https,
    /// expired cookies never, domains and paths per the matching rules.
    pub fn cookies_for_url(
        &self,
        store: &CookieStore,
        host: &str,
        path: &str,
        https: bool,
    ) -> (r: Vec<Cookie>)
        ensures
            exists|now: int|
                views_of(r@) =~= spec_cookies_for_url(store@, host@, path@, https, now),
    {
        let now = unix_timestamp_seconds();
        let r = self.cookies_for_url_at(store, host, path, https, now);
        proof {
            assert(views_of(r@) =~= spec_cookies_for_url(store@, host@, path@, https, now as int));
        }
        r
    }

    /// Renders cookies as `name1=value1; name2=value2` in input order.
    pub fn cookies_to_header(&self, cookies: &Vec<Cookie>) -> (r: String)
        ensures
            r@ =~= spec_cookie_header(views_of(cookies@)),
    {
        let len: usize = cookies.len();
        let mut out = String::new();
        let mut i: usize = 0;
        while i < len
            invariant
                i <= len,
                len == cookies@.len(),
                out@ =~= spec_cookie_header(views_of(cookies@.subrange(0, i as int))),
            decreases len - i,
        {
            let ghost prefix = views_of(cookies@.subrange(0, i as int));
            let ghost prefix1 = views_of(cookies@.subrange(0, i + 1));
            if i > 0 {
                out.append("; ");
            }
            out.append(cookies[i].name.as_str());
            out.append("=");
            out.append(cookies[i].value.as_str());
            proof {
                reveal_strlit("; ");
                reveal_strlit("=");
                assert("; "@ =~= seq![';', ' ']);
                assert("="@ =~= seq!['=']);
                assert(prefix1.drop_last() =~= prefix);
                assert(prefix1.last() == cookies@[i as int]@);
                if i == 0 {
                    assert(spec_cookie_header(prefix1) == spec_cookie_pair(prefix1[0]));
                }
            }
            i = i + 1;
        }
        proof {
            assert(cookies@.subrange(0, len as int) =~= cookies@);
        }
        out
    }
}

// ---------------------------------------------------------------------------
// Laws of the selection
// ---------------------------------------------------------------------------

/// Over a plain-http request, no selected cookie is a secure cookie, however
/// the store, host, path and time are chosen.
pub proof fn lemma_secure_excluded_over_http(
    cs: Seq<CookieModel>,
    host: Seq<char>,
    path: Seq<char>,
    now: int,
)
    ensures
        forall|i: int|
            0 <= i < spec_cookies_for_url(cs, host, path, false, now).len() ==> !(
            #[trigger] spec_cookies_for_url(cs, host, path, false, now)[i]).secure,
{
    let pred = |c: CookieModel| spec_cookie_matches(c, spec_lower(host), path, false, now);
    assert forall|i: int|
        0 <= i < spec_cookies_for_url(cs, host, path, false, now).len() implies !(
    #[trigger] spec_cookies_for_url(cs, host, path, false, now)[i]).secure by {
        cs.lemma_filter_pred(pred, i);
    }
}

/// No selected cookie is expired at the selection time, whatever the
/// request.
pub proof fn lemma_expired_excluded(
    cs: Seq<CookieModel>,
    host: Seq<char>,
    path: Seq<char>,
    https: bool,
    now: int,
)
    ensures
        forall|i: int|
            0 <= i < spec_cookies_for_url(cs, host, path, https, now).len() ==> !spec_is_expired(
                (#[trigger] spec_cookies_for_url(cs, host, path, https, now)[i]).expires,
                now,
            ),
{
    let pred = |c: CookieModel| spec_cookie_matches(c, spec_lower(host), path, https, now);
    assert forall|i: int|
        0 <= i < spec_cookies_for_url(cs, host, path, https, now).len() implies !spec_is_expired(
        (#[trigger] spec_cookies_for_url(cs, host, path, https, now)[i]).expires,
        now,
    ) by {
        cs.lemma_filter_pred(pred, i);
    }
}

} // verus!
