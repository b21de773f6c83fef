use rurl::config::{Browser, BrowserCookieConfig};
use rurl::cookie::{Cookie, CookieStore};
use rurl::matching::{domain_matches, is_expired, path_matches, BrowserCookieExtractor};
use url::Url;

fn extractor() -> BrowserCookieExtractor {
    BrowserCookieExtractor::new(BrowserCookieConfig {
        browser: Browser::Chrome,
        profile: None,
        container: None,
        keyring: None,
    })
}

fn cookie(name: &str, value: &str, secure: bool, expires: Option<i64>) -> Cookie {
    Cookie {
        name: name.to_string(),
        value: value.to_string(),
        domain: "example.com".to_string(),
        path: "/".to_string(),
        secure,
        http_only: false,
        expires,
    }
}

#[test]
fn domain_matches_accepts_subdomains() {
    assert!(domain_matches("example.com", ".example.com"));
    assert!(domain_matches("sub.example.com", ".example.com"));
    assert!(!domain_matches("other.com", ".example.com"));
    assert!(domain_matches("example.com", "example.com"));
    assert!(!domain_matches("sub.example.com", "example.com"));
}

#[test]
fn domain_matches_folds_case_and_trims() {
    assert!(domain_matches("example.com", " .Example.COM "));
    assert!(!domain_matches("example.com", ""));
    assert!(!domain_matches("example.com", "."));
}

#[test]
fn path_matches_respects_prefix_rules() {
    assert!(path_matches("/a/b", "/a"));
    assert!(path_matches("/a/b", "/a/"));
    assert!(path_matches("/a", "/a"));
    assert!(!path_matches("/ab", "/a"));
    assert!(path_matches("/anything", ""));
}

#[test]
fn is_expired_handles_special_cases() {
    assert!(!is_expired(None, 100));
    assert!(!is_expired(Some(100_000_000_001), 100));
    assert!(is_expired(Some(50), 100));
}

#[test]
fn is_expired_boundary_is_inclusive() {
    assert!(is_expired(Some(100), 100));
    assert!(!is_expired(Some(101), 100));
    assert!(!is_expired(Some(100_000_000_000 + 1), 100));
    assert!(is_expired(Some(100_000_000_000), 100_000_000_000));
}

#[test]
fn cookies_for_url_filters_secure_and_expired() {
    let mut store = CookieStore::new();
    store.insert(cookie("secure", "1", true, None));
    store.insert(cookie("expired", "0", false, Some(0)));
    store.insert(cookie("ok", "yes", false, None));

    let url = Url::parse("http://example.com/").expect("url");
    let host = url.host_str().expect("host");
    let cookies = extractor().cookies_for_url(&store, host, url.path(), url.scheme() == "https");
    assert_eq!(cookies.len(), 1);
    assert_eq!(cookies[0].name, "ok");

    let https = Url::parse("https://example.com/").expect("url");
    let host = https.host_str().expect("host");
    let cookies =
        extractor().cookies_for_url(&store, host, https.path(), https.scheme() == "https");
    assert_eq!(cookies.len(), 2);
}

#[test]
fn cookies_for_url_at_respects_expiry_time() {
    let mut store = CookieStore::new();
    store.insert(cookie("c", "v", false, Some(1_000)));
    let picked = extractor().cookies_for_url_at(&store, "example.com", "/", false, 999);
    assert_eq!(picked.len(), 1);
    let picked = extractor().cookies_for_url_at(&store, "example.com", "/", false, 1_000);
    assert_eq!(picked.len(), 0);
}

#[test]
fn cookies_to_header_formats_pairs() {
    let cookies = vec![cookie("a", "1", false, None), cookie("b", "2", false, None)];
    let header = extractor().cookies_to_header(&cookies);
    assert_eq!(header, "a=1; b=2");
}

#[test]
fn cookies_to_header_of_nothing_is_empty() {
    let header = extractor().cookies_to_header(&Vec::new());
    assert_eq!(header, "");
}
