use encoding_rs::WINDOWS_1252;
use rurl::lang::normalize_lang;
use rurl::output::{decode_body_with_charset, extract_charset, progress_line};
use rurl::response::ResponseFormatter;

#[test]
fn extract_charset_parses_case_insensitive() {
    assert_eq!(
        extract_charset(Some("text/plain; charset=utf-8")),
        Some("utf-8".to_string())
    );
    assert_eq!(
        extract_charset(Some("text/plain; CHARSET=iso-8859-1")),
        Some("iso-8859-1".to_string())
    );
    assert_eq!(extract_charset(Some("text/plain")), None);
}

#[test]
fn extract_charset_stops_at_the_next_parameter() {
    assert_eq!(
        extract_charset(Some("text/html; charset=utf-8; boundary=x")),
        Some("utf-8".to_string())
    );
    assert_eq!(extract_charset(None), None);
}

#[test]
fn decode_body_with_charset_uses_declared_encoding() {
    let (encoded, _, _) = WINDOWS_1252.encode("\u{00A3}");
    let decoded = decode_body_with_charset(
        encoded.into_owned(),
        Some("text/plain; charset=windows-1252"),
    )
    .expect("decoded");
    assert_eq!(decoded, "\u{00A3}");
}

#[test]
fn decode_body_with_charset_falls_back_on_unknown_charset() {
    let body = vec![0xE3, 0x81, 0x82];
    let decoded =
        decode_body_with_charset(body, Some("text/plain; charset=unknown")).expect("decoded");
    assert!(decoded.contains('\u{3042}'));
}

#[test]
fn progress_line_formats_with_and_without_total() {
    assert_eq!(progress_line(5, None), "\r5 bytes");
    assert_eq!(progress_line(50, Some(100)), "\r50 / 100 bytes (50%)");
    assert_eq!(progress_line(150, Some(100)), "\r150 / 100 bytes (100%)");
}

#[test]
fn progress_line_treats_zero_total_as_unknown() {
    assert_eq!(progress_line(5, Some(0)), "\r5 bytes");
}

#[test]
fn format_json_body_pretty_prints() {
    let formatter = ResponseFormatter::new(true);
    let body = "{\"name\":\"rurl\",\"version\":1}";
    let formatted = formatter
        .format(body, Some("application/json"))
        .expect("format should succeed");
    assert_eq!(formatted, "{\n  \"name\": \"rurl\",\n  \"version\": 1\n}");
}

#[test]
fn format_json_body_skips_when_disabled() {
    let formatter = ResponseFormatter::new(false);
    let body = "{\"name\":\"rurl\"}";
    let formatted = formatter
        .format(body, Some("application/json"))
        .expect("format should succeed");
    assert_eq!(formatted, body);
}

#[test]
fn format_rejects_invalid_json_when_pretty_printing() {
    let formatter = ResponseFormatter::new(true);
    assert!(formatter.format("not json", Some("application/json")).is_err());
    assert_eq!(
        formatter.format("not json", Some("text/plain")).expect("passthrough"),
        "not json"
    );
}

#[test]
fn normalize_lang_trims_and_normalizes() {
    assert_eq!(normalize_lang("en_US.UTF-8"), Some("en-US".to_string()));
    assert_eq!(normalize_lang(""), None);
}

#[test]
fn normalize_lang_keeps_plain_tags() {
    assert_eq!(normalize_lang("  fr  "), Some("fr".to_string()));
    assert_eq!(normalize_lang("pt_BR"), Some("pt-BR".to_string()));
}
