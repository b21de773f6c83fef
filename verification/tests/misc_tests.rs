use rurl::config::SslConfig;
use rurl::error::{exit_code_for_error, HttpErrorKind, RurlError};
use rurl::headers::{find_cookie_header, is_sensitive_header};
use rurl::keyring::{
    choose_linux_keyring, get_linux_desktop_environment, kwallet_folder, kwallet_service_names,
    parse_kwallet_output, parse_linux_keyring, parse_network_wallet_reply, safe_storage_label,
    LinuxDesktopEnvironment, LinuxKeyring,
};
use rurl::ssl::SslUtils;
use rurl::utils::{is_path_like, FileUtils, StringUtils, UrlUtils};
use url::Url;

#[test]
fn exit_code_maps_invalid_url() {
    let err = RurlError::InvalidUrl("bad".to_string());
    assert_eq!(exit_code_for_error(&err), 3);
}

#[test]
fn exit_code_maps_redirect_limit() {
    let err = RurlError::RedirectLimitExceeded(2);
    assert_eq!(exit_code_for_error(&err), 47);
}

#[test]
fn exit_code_maps_ssl_variants() {
    let err = RurlError::Ssl("CA certificate failed".to_string());
    assert_eq!(exit_code_for_error(&err), 77);
    let err = RurlError::Ssl("Client certificate missing".to_string());
    assert_eq!(exit_code_for_error(&err), 58);
    let err = RurlError::Ssl("TLS handshake error".to_string());
    assert_eq!(exit_code_for_error(&err), 35);
}

#[test]
fn exit_code_maps_auth_and_config() {
    let err = RurlError::Auth("bad".to_string());
    assert_eq!(exit_code_for_error(&err), 94);
    let err = RurlError::Config("bad".to_string());
    assert_eq!(exit_code_for_error(&err), 2);
}

#[test]
fn exit_code_maps_permission_and_not_found() {
    let err = RurlError::PermissionDenied("no".to_string());
    assert_eq!(exit_code_for_error(&err), 37);
    let err = RurlError::FileNotFound("missing".to_string());
    assert_eq!(exit_code_for_error(&err), 37);
}

#[test]
fn exit_code_maps_additional_variants() {
    assert_eq!(exit_code_for_error(&RurlError::Proxy("bad proxy".to_string())), 5);
    assert_eq!(exit_code_for_error(&RurlError::BrowserCookie("cookie".to_string())), 43);
    assert_eq!(exit_code_for_error(&RurlError::Json("json".to_string())), 26);
    assert_eq!(exit_code_for_error(&RurlError::Unsupported("nope".to_string())), 4);
    assert_eq!(exit_code_for_error(&RurlError::Io("io".to_string())), 23);
    assert_eq!(exit_code_for_error(&RurlError::Timeout), 28);
}

#[test]
fn exit_code_maps_http_error_kinds() {
    assert_eq!(
        exit_code_for_error(&RurlError::Http(HttpErrorKind::Timeout, "t".to_string())),
        28
    );
    assert_eq!(
        exit_code_for_error(&RurlError::Http(HttpErrorKind::Connect, "c".to_string())),
        7
    );
    assert_eq!(
        exit_code_for_error(&RurlError::Http(HttpErrorKind::Request, "r".to_string())),
        2
    );
    assert_eq!(
        exit_code_for_error(&RurlError::Http(HttpErrorKind::Other, "o".to_string())),
        43
    );
}

#[test]
fn is_path_like_detects_paths() {
    assert!(is_path_like("~/Library"));
    assert!(is_path_like("C:\\Users\\user"));
    assert!(is_path_like("/tmp/file"));
    assert!(!is_path_like("Profile 1"));
}

#[test]
fn validate_url_adds_scheme() {
    let url = Url::parse(&UrlUtils::ensure_scheme("example.com")).expect("valid url");
    assert_eq!(url.scheme(), "http");
    assert_eq!(url.host_str(), Some("example.com"));
}

#[test]
fn validate_url_accepts_https() {
    let url = Url::parse(&UrlUtils::ensure_scheme("https://example.com/path")).expect("valid url");
    assert_eq!(url.scheme(), "https");
    assert_eq!(url.path(), "/path");
}

#[test]
fn expand_path_expands_home() {
    let home = dirs::home_dir().expect("home dir");
    let home_str = home.to_str().expect("utf-8 home");
    let path = FileUtils::expand_path("~/rurl-test", Some(home_str)).expect("expanded");
    assert_eq!(path, format!("{}/rurl-test", home_str));
}

#[test]
fn expand_path_leaves_non_tilde_unchanged() {
    let path = FileUtils::expand_path("/tmp/rurl", None).expect("expanded");
    assert_eq!(path, "/tmp/rurl");
}

#[test]
fn expand_path_without_home_is_an_error() {
    let err = FileUtils::expand_path("~/x", None).expect_err("no home");
    assert!(matches!(err, RurlError::Config(_)));
}

#[test]
fn parse_header_splits_key_value() {
    let (key, value) = StringUtils::parse_header("X-Test: value").expect("header");
    assert_eq!(key, "X-Test");
    assert_eq!(value, "value");

    let err = StringUtils::parse_header("missing").expect_err("invalid header");
    assert!(matches!(err, RurlError::Config(_)));
}

#[test]
fn parse_timeout_parses_suffixes() {
    assert_eq!(StringUtils::parse_timeout("10").expect("seconds"), 10);
    assert_eq!(StringUtils::parse_timeout("2m").expect("minutes"), 120);
    assert_eq!(StringUtils::parse_timeout("1h").expect("hours"), 3600);

    let err = StringUtils::parse_timeout("5x").expect_err("invalid suffix");
    assert!(matches!(err, RurlError::Config(_)));

    let err = StringUtils::parse_timeout("xs").expect_err("invalid number");
    assert!(matches!(err, RurlError::Config(_)));
}

#[test]
fn validate_config_checks_each_configured_file() {
    let config = SslConfig {
        verify_certs: true,
        ca_cert_file: Some("/tmp/ca.pem".to_string()),
        client_cert_file: Some("/tmp/cert.pem".to_string()),
        client_key_file: Some("/tmp/key.pem".to_string()),
    };
    assert!(SslUtils::validate_config(&config, true, true, true).is_ok());
    let err = SslUtils::validate_config(&config, false, true, true).expect_err("missing ca");
    assert!(matches!(err, RurlError::FileNotFound(_)));
    let err = SslUtils::validate_config(&config, true, true, false).expect_err("missing key");
    assert!(matches!(err, RurlError::FileNotFound(_)));

    let empty = SslConfig {
        verify_certs: false,
        ca_cert_file: None,
        client_cert_file: None,
        client_key_file: None,
    };
    assert!(SslUtils::validate_config(&empty, false, false, false).is_ok());
}

#[test]
fn sensitive_headers_are_case_insensitive() {
    assert!(is_sensitive_header("Authorization"));
    assert!(is_sensitive_header("COOKIE"));
    assert!(!is_sensitive_header("X-Test"));
}

#[test]
fn find_cookie_header_takes_the_first_match() {
    let headers = vec![
        ("X-Test".to_string(), "1".to_string()),
        ("Cookie".to_string(), "a=1".to_string()),
        ("cookie".to_string(), "b=2".to_string()),
    ];
    assert_eq!(find_cookie_header(&headers), Some("a=1".to_string()));
    assert_eq!(find_cookie_header(&Vec::new()), None);
}

#[test]
fn desktop_environment_classifies_tokens_and_fallbacks() {
    assert_eq!(
        get_linux_desktop_environment(Some("GNOME"), "", None, false, false),
        LinuxDesktopEnvironment::Gnome
    );
    assert_eq!(
        get_linux_desktop_environment(Some("ubuntu:GNOME"), "", None, false, false),
        LinuxDesktopEnvironment::Gnome
    );
    assert_eq!(
        get_linux_desktop_environment(Some("KDE"), "", Some("5"), false, false),
        LinuxDesktopEnvironment::Kde5
    );
    assert_eq!(
        get_linux_desktop_environment(Some("KDE"), "", Some("6"), false, false),
        LinuxDesktopEnvironment::Kde6
    );
    assert_eq!(
        get_linux_desktop_environment(Some("KDE"), "", None, false, false),
        LinuxDesktopEnvironment::Kde4
    );
    assert_eq!(
        get_linux_desktop_environment(Some("Unity"), "gnome-fallback-session", None, false, false),
        LinuxDesktopEnvironment::Gnome
    );
    assert_eq!(
        get_linux_desktop_environment(None, "xubuntu", None, false, false),
        LinuxDesktopEnvironment::Xfce
    );
    assert_eq!(
        get_linux_desktop_environment(None, "", None, true, false),
        LinuxDesktopEnvironment::Gnome
    );
    assert_eq!(
        get_linux_desktop_environment(None, "", None, false, true),
        LinuxDesktopEnvironment::Kde3
    );
    assert_eq!(
        get_linux_desktop_environment(None, "", None, false, false),
        LinuxDesktopEnvironment::Other
    );
}

#[test]
fn keyring_choice_follows_the_desktop() {
    assert_eq!(choose_linux_keyring(LinuxDesktopEnvironment::Kde5), LinuxKeyring::KWallet5);
    assert_eq!(choose_linux_keyring(LinuxDesktopEnvironment::Gnome), LinuxKeyring::GnomeKeyring);
    assert_eq!(choose_linux_keyring(LinuxDesktopEnvironment::Other), LinuxKeyring::BasicText);
}

#[test]
fn keyring_override_names_are_parsed() {
    assert_eq!(parse_linux_keyring("KWallet6").expect("kwallet6"), LinuxKeyring::KWallet6);
    assert_eq!(parse_linux_keyring("gnomekeyring").expect("gnome"), LinuxKeyring::GnomeKeyring);
    assert_eq!(parse_linux_keyring("basic").expect("basic"), LinuxKeyring::BasicText);
    let err = parse_linux_keyring("pass").expect_err("unknown");
    match err {
        RurlError::Config(message) => assert!(message.contains("pass")),
        other => panic!("unexpected error: {:?}", other),
    }
}

#[test]
fn wallet_helper_replies_are_parsed() {
    assert_eq!(parse_kwallet_output(true, "secret\n"), "secret");
    assert_eq!(parse_kwallet_output(true, "Failed to read password"), "");
    assert_eq!(parse_kwallet_output(false, "secret"), "");
    assert_eq!(
        parse_network_wallet_reply(true, "method return\n   string \"mywallet\"\n"),
        "mywallet"
    );
    assert_eq!(parse_network_wallet_reply(true, "no wallet here"), "kdewallet");
    assert_eq!(parse_network_wallet_reply(false, "string \"x\""), "kdewallet");
}

#[test]
fn secret_store_labels_are_built_from_the_account() {
    assert_eq!(safe_storage_label("Chrome"), "Chrome Safe Storage");
    assert_eq!(kwallet_folder("Chrome"), "Chrome Keys");
    let names = kwallet_service_names(LinuxKeyring::KWallet5).expect("dbus names");
    assert_eq!(names.0, "org.kde.kwalletd5");
    assert_eq!(names.1, "/modules/kwalletd5");
    assert!(kwallet_service_names(LinuxKeyring::GnomeKeyring).is_none());
}
