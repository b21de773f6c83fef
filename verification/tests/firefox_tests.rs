use rurl::error::RurlError;
use rurl::firefox::{
    cookie_columns, extract_cookies, firefox_expires_to_unix_seconds, l10n_matches,
    resolve_container, row_in_container, ContainerIdentity, ContainerMode, FirefoxRow,
};

#[test]
fn l10n_matches_accepts_known_pattern() {
    assert!(l10n_matches("Personal", Some("userContextPersonal.label")));
    assert!(!l10n_matches("Work", Some("userContextPersonal.label")));
    assert!(!l10n_matches("Personal", None));
    assert!(!l10n_matches("Personal", Some("invalid")));
}

#[test]
fn cookie_columns_tolerates_schema_generations() {
    let new_schema = vec![
        "expiry".to_string(),
        "isSecure".to_string(),
        "isHttpOnly".to_string(),
    ];
    let (expiry, http_only, secure) = cookie_columns(&new_schema).expect("columns");
    assert_eq!(expiry, "expiry");
    assert_eq!(http_only, "isHttpOnly");
    assert_eq!(secure, "isSecure");

    let old_schema = vec!["expires".to_string(), "is_secure".to_string()];
    let (expiry, http_only, secure) = cookie_columns(&old_schema).expect("columns");
    assert_eq!(expiry, "expires");
    assert_eq!(http_only, "0");
    assert_eq!(secure, "is_secure");

    let broken = vec!["host".to_string()];
    let err = cookie_columns(&broken).expect_err("no expiry column");
    match err {
        RurlError::BrowserCookie(message) => assert!(message.contains("expiry")),
        other => panic!("unexpected error: {:?}", other),
    }
}

fn identity(
    name: Option<&str>,
    l10n_id: Option<&str>,
    user_context_id: Option<i64>,
) -> ContainerIdentity {
    ContainerIdentity {
        name: name.map(|s| s.to_string()),
        l10n_id: l10n_id.map(|s| s.to_string()),
        user_context_id,
    }
}

#[test]
fn resolve_container_handles_all_three_modes() {
    let ids = vec![
        identity(Some("Shopping"), None, Some(4)),
        identity(None, Some("userContextWork.label"), Some(2)),
    ];
    assert_eq!(
        resolve_container(&ids, None).expect("any"),
        (None, ContainerMode::Any)
    );
    assert_eq!(
        resolve_container(&ids, Some("none")).expect("none"),
        (None, ContainerMode::NoneOnly)
    );
    assert_eq!(
        resolve_container(&ids, Some("Shopping")).expect("by name"),
        (Some(4), ContainerMode::Specific)
    );
    assert_eq!(
        resolve_container(&ids, Some("Work")).expect("by l10n"),
        (Some(2), ContainerMode::Specific)
    );
    let err = resolve_container(&ids, Some("Gaming")).expect_err("unknown");
    match err {
        RurlError::Config(message) => assert!(message.contains("Gaming")),
        other => panic!("unexpected error: {:?}", other),
    }
}

#[test]
fn row_in_container_follows_origin_attributes() {
    assert!(row_in_container("", None, &ContainerMode::Any));
    assert!(row_in_container("", None, &ContainerMode::NoneOnly));
    assert!(!row_in_container("^userContextId=2", None, &ContainerMode::NoneOnly));
    assert!(row_in_container("^userContextId=2", Some(2), &ContainerMode::Specific));
    assert!(row_in_container(
        "^userContextId=2&privateBrowsingId=1",
        Some(2),
        &ContainerMode::Specific
    ));
    assert!(!row_in_container("^userContextId=21", Some(2), &ContainerMode::Specific));
    assert!(!row_in_container("", Some(2), &ContainerMode::Specific));
}

fn row(name: &str, expiry: Option<i64>, attrs: &str) -> FirefoxRow {
    FirefoxRow {
        host: ".mozilla.org".to_string(),
        name: name.to_string(),
        value: "v".to_string(),
        path: "/".to_string(),
        expiry,
        secure: 0,
        http_only: 1,
        origin_attributes: attrs.to_string(),
    }
}

#[test]
fn firefox_schema_16_expiry_is_in_milliseconds() {
    let rows = vec![row("a", Some(1_700_000_000_000), "")];
    let store = extract_cookies(&rows, 16, None, &ContainerMode::Any).expect("store");
    assert_eq!(store.len(), 1);
    assert_eq!(store.all()[0].expires, Some(1_700_000_000));
    assert!(store.all()[0].http_only);

    let store = extract_cookies(&rows, 15, None, &ContainerMode::Any).expect("store");
    assert_eq!(store.all()[0].expires, Some(1_700_000_000_000));
}

#[test]
fn firefox_expiry_conversion_handles_edges() {
    assert_eq!(firefox_expires_to_unix_seconds(None, 16), None);
    assert_eq!(firefox_expires_to_unix_seconds(Some(0), 16), None);
    assert_eq!(firefox_expires_to_unix_seconds(Some(999), 16), None);
    assert_eq!(firefox_expires_to_unix_seconds(Some(999), 15), Some(999));
    assert_eq!(firefox_expires_to_unix_seconds(Some(-42), 15), None);
}

#[test]
fn firefox_empty_extraction_is_an_error() {
    let rows: Vec<FirefoxRow> = Vec::new();
    let err = extract_cookies(&rows, 16, None, &ContainerMode::Any).expect_err("empty");
    match err {
        RurlError::BrowserCookie(message) => assert!(message.contains("No Firefox cookies")),
        other => panic!("unexpected error: {:?}", other),
    }
}

#[test]
fn firefox_container_filter_drops_other_rows() {
    let rows = vec![
        row("free", None, ""),
        row("work", None, "^userContextId=2"),
        row("other", None, "^userContextId=3&x=1"),
    ];
    let store = extract_cookies(&rows, 16, Some(2), &ContainerMode::Specific).expect("store");
    assert_eq!(store.len(), 1);
    assert_eq!(store.all()[0].name, "work");

    let store = extract_cookies(&rows, 16, None, &ContainerMode::NoneOnly).expect("store");
    assert_eq!(store.len(), 1);
    assert_eq!(store.all()[0].name, "free");

    let err = extract_cookies(&rows, 16, None, &ContainerMode::Specific).expect_err("no id");
    assert!(matches!(err, RurlError::BrowserCookie(_)));
}
