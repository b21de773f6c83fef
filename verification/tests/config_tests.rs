use rurl::config::{Browser, BrowserCookieConfig, Config, HttpMethod};
use rurl::error::RurlError;
use rurl::response::RequestBuilder;

#[test]
fn parse_bare_browser_name() {
    let config = BrowserCookieConfig::parse("chrome").expect("parsed");
    assert_eq!(config.browser, Browser::Chrome);
    assert_eq!(config.profile, None);
    assert_eq!(config.container, None);
    assert_eq!(config.keyring, None);
}

#[test]
fn parse_full_cookie_request() {
    let config = BrowserCookieConfig::parse("firefox+kwallet5:Profile 1::Work").expect("parsed");
    assert_eq!(config.browser, Browser::Firefox);
    assert_eq!(config.keyring.as_deref(), Some("kwallet5"));
    assert_eq!(config.profile.as_deref(), Some("Profile 1"));
    assert_eq!(config.container.as_deref(), Some("Work"));
}

#[test]
fn parse_is_case_insensitive_and_knows_aliases() {
    assert_eq!(BrowserCookieConfig::parse("CHROMIUM").expect("parsed").browser, Browser::Chrome);
    assert_eq!(BrowserCookieConfig::parse("Safari").expect("parsed").browser, Browser::Safari);
    assert_eq!(BrowserCookieConfig::parse("whale").expect("parsed").browser, Browser::Whale);
}

#[test]
fn parse_rejects_unknown_browser() {
    let err = BrowserCookieConfig::parse("netscape").expect_err("unknown");
    match err {
        RurlError::Config(message) => assert!(message.contains("netscape")),
        other => panic!("unexpected error: {:?}", other),
    }
}

#[test]
fn parse_browser_names_cover_the_family() {
    assert_eq!(Browser::parse_name("edge"), Some(Browser::Edge));
    assert_eq!(Browser::parse_name("BRAVE"), Some(Browser::Brave));
    assert_eq!(Browser::parse_name("opera"), Some(Browser::Opera));
    assert_eq!(Browser::parse_name("vivaldi"), Some(Browser::Vivaldi));
    assert_eq!(Browser::parse_name("lynx"), None);
}

#[test]
fn http_method_names_round_trip() {
    assert_eq!(HttpMethod::parse_name("get"), Some(HttpMethod::Get));
    assert_eq!(HttpMethod::parse_name("PUT"), Some(HttpMethod::Put));
    assert_eq!(HttpMethod::parse_name("Patch"), Some(HttpMethod::Patch));
    assert_eq!(HttpMethod::parse_name("fetch"), None);
    assert_eq!(HttpMethod::Get.label(), "GET");
    assert_eq!(HttpMethod::Delete.label(), "DELETE");
}

#[test]
fn config_default_matches_the_documented_defaults() {
    let config = Config::default();
    assert_eq!(config.method, HttpMethod::Get);
    assert_eq!(config.url, "");
    assert_eq!(config.user_agent.as_deref(), Some("rurl/0.1.0"));
    assert!(!config.follow_redirects);
    assert_eq!(config.max_redirects, 50);
    assert_eq!(config.timeout_secs, 300);
    assert_eq!(config.connect_timeout_secs, 30);
    assert_eq!(config.retry_count, 0);
    assert_eq!(config.retry_delay_secs, 1);
    assert!(config.ssl.verify_certs);
    assert!(config.output.show_progress);
    assert!(!config.output.format_json);
}

#[test]
fn new_and_default_are_equivalent() {
    let _builder = RequestBuilder::new();
    let _builder_default = RequestBuilder::default();
}
