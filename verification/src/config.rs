//! Configuration types: the browsers cookies can be read from, the compact
//! cookie-request string, and the request configuration handed in by the
//! command-line layer.

use vstd::prelude::*;

verus! {

use vstd::string::*;
use crate::error::RurlError;
use crate::text::{
    spec_find, spec_lower, find_sub, lemma_find_unique, str_eq, to_ascii_lowercase,
};

/// Browsers supported for cookie extraction.
#[derive(Debug, Clone, PartialEq, Eq, Structural)]
pub enum Browser {
    Chrome,
    Firefox,
    Safari,
    Edge,
    Brave,
    Opera,
    Vivaldi,
    Whale,
}

/// View of an optional string.
pub open spec fn ov(o: Option<String>) -> Option<Seq<char>> {
    match o {
        Some(s) => Some(s@),
        None => None,
    }
}

/// Which browser a (case-folded) name denotes.
pub open spec fn spec_parse_browser(s: Seq<char>) -> Option<Browser> {
    let lower = spec_lower(s);
    if lower == "chrome"@ || lower == "chromium"@ {
        Some(Browser::Chrome)
    } else if lower == "firefox"@ {
        Some(Browser::Firefox)
    } else if lower == "safari"@ {
        Some(Browser::Safari)
    } else if lower == "edge"@ {
        Some(Browser::Edge)
    } else if lower == "brave"@ {
        Some(Browser::Brave)
    } else if lower == "opera"@ {
        Some(Browser::Opera)
    } else if lower == "vivaldi"@ {
        Some(Browser::Vivaldi)
    } else if lower == "whale"@ {
        Some(Browser::Whale)
    } else {
        None
    }
}

impl Browser {
    /// Parses a browser name, ignoring ASCII case.
    pub fn parse_name(s: &str) -> (r: Option<Browser>)
        ensures
            r == spec_parse_browser(s@),
    {
        let lower = to_ascii_lowercase(s);
        let l = lower.as_str();
        if str_eq(l, "chrome") || str_eq(l, "chromium") {
            Some(Browser::Chrome)
        } else if str_eq(l, "firefox") {
            Some(Browser::Firefox)
        } else if str_eq(l, "safari") {
            Some(Browser::Safari)
        } else if str_eq(l, "edge") {
            Some(Browser::Edge)
        } else if str_eq(l, "brave") {
            Some(Browser::Brave)
        } else if str_eq(l, "opera") {
            Some(Browser::Opera)
        } else if str_eq(l, "vivaldi") {
            Some(Browser::Vivaldi)
        } else if str_eq(l, "whale") {
            Some(Browser::Whale)
        } else {
            None
        }
    }
}

// ---------------------------------------------------------------------------
// Splitting on a separator, as the compact cookie-request string needs it
// ---------------------------------------------------------------------------

/// Everything before the first occurrence of `sep` (the whole string when
/// `sep` does not occur).
pub open spec fn spec_split_head(s: Seq<char>, sep: Seq<char>) -> Seq<char> {
    match spec_find(s, sep) {
        Some(i) => s.subrange(0, i),
        None => s,
    }
}

/// The second piece of a split: what stands between the first occurrence of
/// `sep` and the next one (`None` when `sep` does not occur at all).
pub open spec fn spec_split_second(s: Seq<char>, sep: Seq<char>) -> Option<Seq<char>> {
    match spec_find(s, sep) {
        Some(i) => Some(spec_split_head(s.subrange(i + sep.len(), s.len() as int), sep)),
        None => None,
    }
}

/// Splits off the part before the first `sep`, and the piece between the
/// first and second `sep`.
fn split_head_second(s: &str, sep: &str) -> (r: (String, Option<String>))
    ensures
        r.0@ == spec_split_head(s@, sep@),
        ov(r.1) == spec_split_second(s@, sep@),
{
    let len: usize = s.unicode_len();
    let seplen: usize = sep.unicode_len();
    match find_sub(s, sep) {
        None => {
            proof {
                assert(spec_find(s@, sep@) is None);
            }
            (s.to_owned(), None)
        },
        Some(i) => {
            proof {
                lemma_find_unique(s@, sep@, i as int);
            }
            let head = s.substring_char(0, i).to_owned();
            let rest = s.substring_char(i + seplen, len);
            let second = match find_sub(rest, sep) {
                None => {
                    proof {
                        assert(spec_find(rest@, sep@) is None);
                    }
                    rest.to_owned()
                },
                Some(j) => {
                    proof {
                        lemma_find_unique(rest@, sep@, j as int);
                    }
                    rest.substring_char(0, j).to_owned()
                },
            };
            (head, Some(second))
        },
    }
}

// ---------------------------------------------------------------------------
// The extraction request
// ---------------------------------------------------------------------------

/// Model of a parsed extraction request.
pub ghost struct BrowserCookieConfigModel {
    pub browser: Browser,
    pub profile: Option<Seq<char>>,
    pub container: Option<Seq<char>>,
    pub keyring: Option<Seq<char>>,
}

/// An extraction request: which browser, and optionally a profile, a Firefox
/// container, and a Linux keyring override.
#[derive(Debug, Clone)]
pub struct BrowserCookieConfig {
    pub browser: Browser,
    pub profile: Option<String>,
    pub container: Option<String>,
    pub keyring: Option<String>,
}

impl View for BrowserCookieConfig {
    type V = BrowserCookieConfigModel;

    open spec fn view(&self) -> BrowserCookieConfigModel {
        BrowserCookieConfigModel {
            browser: self.browser,
            profile: ov(self.profile),
            container: ov(self.container),
            keyring: ov(self.keyring),
        }
    }
}

/// What parsing the compact `BROWSER[+KEYRING][:PROFILE][::CONTAINER]`
/// string yields: `None` when the browser name is not recognised.
pub open spec fn spec_parse_cookie_request(input: Seq<char>) -> Option<BrowserCookieConfigModel> {
    let browser_part = spec_split_head(input, "::"@);
    let container = spec_split_second(input, "::"@);
    let browser_keyring = spec_split_head(browser_part, ":"@);
    let profile = spec_split_second(browser_part, ":"@);
    let browser_str = spec_split_head(browser_keyring, "+"@);
    let keyring = spec_split_second(browser_keyring, "+"@);
    match spec_parse_browser(browser_str) {
        Some(browser) => Some(
            BrowserCookieConfigModel { browser, profile, container, keyring },
        ),
        None => None,
    }
}

impl BrowserCookieConfig {
    /// Parses the compact `BROWSER[+KEYRING][:PROFILE][::CONTAINER]` string.
    /// An unknown browser name is a configuration error.
    pub fn parse(input: &str) -> (r: Result<BrowserCookieConfig, RurlError>)
        ensures
            match r {
                Ok(config) => spec_parse_cookie_request(input@) == Some(config@),
                Err(e) => spec_parse_cookie_request(input@) is None && e is Config,
            },
    {
        let (browser_part, container) = split_head_second(input, "::");
        let (browser_keyring, profile) = split_head_second(browser_part.as_str(), ":");
        let (browser_str, keyring) = split_head_second(browser_keyring.as_str(), "+");
        match Browser::parse_name(browser_str.as_str()) {
            Some(browser) => Ok(BrowserCookieConfig { browser, profile, container, keyring }),
            None => {
                let mut message = "Unsupported browser: ".to_owned();
                message.append(browser_str.as_str());
                Err(RurlError::Config(message))
            },
        }
    }
}

// ---------------------------------------------------------------------------
// Request configuration
// ---------------------------------------------------------------------------

/// HTTP request methods.
#[derive(Debug, Clone, PartialEq, Eq, Structural)]
pub enum HttpMethod {
    Get,
    Post,
    Put,
    Delete,
    Head,
    Options,
    Patch,
    Trace,
}

/// Which method a (case-folded) name denotes.
pub open spec fn spec_parse_method(s: Seq<char>) -> Option<HttpMethod> {
    let lower = spec_lower(s);
    if lower == "get"@ {
        Some(HttpMethod::Get)
    } else if lower == "post"@ {
        Some(HttpMethod::Post)
    } else if lower == "put"@ {
        Some(HttpMethod::Put)
    } else if lower == "delete"@ {
        Some(HttpMethod::Delete)
    } else if lower == "head"@ {
        Some(HttpMethod::Head)
    } else if lower == "options"@ {
        Some(HttpMethod::Options)
    } else if lower == "patch"@ {
        Some(HttpMethod::Patch)
    } else if lower == "trace"@ {
        Some(HttpMethod::Trace)
    } else {
        None
    }
}

/// The upper-case wire name of each method.
pub open spec fn spec_method_label(m: HttpMethod) -> Seq<char> {
    match m {
        HttpMethod::Get => "GET"@,
        HttpMethod::Post => "POST"@,
        HttpMethod::Put => "PUT"@,
        HttpMethod::Delete => "DELETE"@,
        HttpMethod::Head => "HEAD"@,
        HttpMethod::Options => "OPTIONS"@,
        HttpMethod::Patch => "PATCH"@,
        HttpMethod::Trace => "TRACE"@,
    }
}

impl HttpMethod {
    /// Parses a method name, ignoring ASCII case.
    pub fn parse_name(s: &str) -> (r: Option<HttpMethod>)
        ensures
            r == spec_parse_method(s@),
    {
        let lower = to_ascii_lowercase(s);
        let l = lower.as_str();
        if str_eq(l, "get") {
            Some(HttpMethod::Get)
        } else if str_eq(l, "post") {
            Some(HttpMethod::Post)
        } else if str_eq(l, "put") {
            Some(HttpMethod::Put)
        } else if str_eq(l, "delete") {
            Some(HttpMethod::Delete)
        } else if str_eq(l, "head") {
            Some(HttpMethod::Head)
        } else if str_eq(l, "options") {
            Some(HttpMethod::Options)
        } else if str_eq(l, "patch") {
            Some(HttpMethod::Patch)
        } else if str_eq(l, "trace") {
            Some(HttpMethod::Trace)
        } else {
            None
        }
    }

    /// The upper-case wire name of the method.
    pub fn label(&self) -> (r: &'static str)
        ensures
            r@ == spec_method_label(*self),
    {
        match self {
            HttpMethod::Get => "GET",
            HttpMethod::Post => "POST",
            HttpMethod::Put => "PUT",
            HttpMethod::Delete => "DELETE",
            HttpMethod::Head => "HEAD",
            HttpMethod::Options => "OPTIONS",
            HttpMethod::Patch => "PATCH",
            HttpMethod::Trace => "TRACE",
        }
    }
}

/// Proxy settings for the HTTP layer.
#[derive(Debug, Clone)]
pub struct ProxyConfig {
    pub url: String,
    pub username: Option<String>,
    pub password: Option<String>,
}

/// TLS settings; certificate paths are kept as plain strings.
#[derive(Debug, Clone)]
pub struct SslConfig {
    pub verify_certs: bool,
    pub ca_cert_file: Option<String>,
    pub client_cert_file: Option<String>,
    pub client_key_file: Option<String>,
}

/// Where and how responses are written.
#[derive(Debug, Clone)]
pub struct OutputConfig {
    pub file: Option<String>,
    pub verbose: bool,
    pub silent: bool,
    pub show_progress: bool,
    pub format_json: bool,
}

/// The whole request configuration; durations are in seconds.
#[derive(Debug, Clone)]
pub struct Config {
    pub url: String,
    pub method: HttpMethod,
    pub headers: Vec<(String, String)>,
    pub data: Option<String>,
    pub user_agent: Option<String>,
    pub follow_redirects: bool,
    pub max_redirects: u32,
    pub timeout_secs: u64,
    pub connect_timeout_secs: u64,
    pub retry_count: u32,
    pub retry_delay_secs: u64,
    pub browser_cookies: Option<BrowserCookieConfig>,
    pub proxy: Option<ProxyConfig>,
    pub ssl: SslConfig,
    pub output: OutputConfig,
    pub auth_username: Option<String>,
    pub auth_password: Option<String>,
}

impl Default for Config {
    /// The defaults of a fresh request: GET, a five-minute timeout, no
    /// redirect following, certificate verification on, progress shown.
    fn default() -> (r: Config)
        ensures
            r.url@ == Seq::<char>::empty(),
            r.method == HttpMethod::Get,
            r.headers@.len() == 0,
            r.data is None,
            r.user_agent matches Some(ua) && ua@ == "rurl/0.1.0"@,
            !r.follow_redirects,
            r.max_redirects == 50,
            r.timeout_secs == 300,
            r.connect_timeout_secs == 30,
            r.retry_count == 0,
            r.retry_delay_secs == 1,
            r.browser_cookies is None,
            r.proxy is None,
            r.ssl.verify_certs,
            r.ssl.ca_cert_file is None,
            r.ssl.client_cert_file is None,
            r.ssl.client_key_file is None,
            r.output.file is None,
            !r.output.verbose,
            !r.output.silent,
            r.output.show_progress,
            !r.output.format_json,
            r.auth_username is None,
            r.auth_password is None,
    {
        Config {
            url: String::new(),
            method: HttpMethod::Get,
            headers: Vec::new(),
            data: None,
            user_agent: Some("rurl/0.1.0".to_owned()),
            follow_redirects: false,
            max_redirects: 50,
            timeout_secs: 300,
            connect_timeout_secs: 30,
            retry_count: 0,
            retry_delay_secs: 1,
            browser_cookies: None,
            proxy: None,
            ssl: SslConfig {
                verify_certs: true,
                ca_cert_file: None,
                client_cert_file: None,
                client_key_file: None,
            },
            output: OutputConfig {
                file: None,
                verbose: false,
                silent: false,
                show_progress: true,
                format_json: false,
            },
            auth_username: None,
            auth_password: None,
        }
    }
}

} // verus!
