use rurl::error::RurlError;
use rurl::safari::{
    extract_cookies, mac_absolute_to_unix, mac_epoch_offset, parse_safari_cookies,
    read_null_terminated_string_at,
};
use rurl::cookie::CookieStore;

#[test]
fn read_null_terminated_string_at_reads_value() {
    let data = b"test\0rest";
    let value = read_null_terminated_string_at(data, 0).expect("string");
    assert_eq!(value, "test");
}

#[test]
fn read_null_terminated_string_at_rejects_missing_terminator() {
    let err = read_null_terminated_string_at(b"test", 0).expect_err("missing");
    match err {
        RurlError::BrowserCookie(message) => assert!(message.contains("not terminated")),
        other => panic!("unexpected error: {:?}", other),
    }
}

#[test]
fn read_null_terminated_string_at_rejects_out_of_bounds_offset() {
    let data = b"\0";
    let err = read_null_terminated_string_at(data, 1).expect_err("oob");
    match err {
        RurlError::BrowserCookie(message) => assert!(message.contains("out of bounds")),
        other => panic!("unexpected error: {:?}", other),
    }
}

#[test]
fn mac_absolute_to_unix_converts_seconds() {
    assert_eq!(mac_absolute_to_unix(0.0f64.to_bits()), mac_epoch_offset());
    assert_eq!(
        mac_absolute_to_unix(700000000.0f64.to_bits()),
        mac_epoch_offset() + 700000000
    );
    assert_eq!(mac_absolute_to_unix((-1.5f64).to_bits()), mac_epoch_offset() - 1);
}

fn push_u32_le(buffer: &mut Vec<u8>, value: u32) {
    buffer.extend_from_slice(&value.to_le_bytes());
}

fn push_u32_be(buffer: &mut Vec<u8>, value: u32) {
    buffer.extend_from_slice(&value.to_be_bytes());
}

/// One page holding one record with the four given string fields.
fn minimal_container(domain: &str, name: &str, path: &str, value: &str, flags: u32) -> Vec<u8> {
    let mut record: Vec<u8> = Vec::new();
    let domain_off = 56u32;
    let name_off = domain_off + domain.len() as u32 + 1;
    let path_off = name_off + name.len() as u32 + 1;
    let value_off = path_off + path.len() as u32 + 1;
    let record_len = value_off + value.len() as u32 + 1;
    push_u32_le(&mut record, record_len);
    push_u32_le(&mut record, 0);
    push_u32_le(&mut record, flags);
    push_u32_le(&mut record, 0);
    push_u32_le(&mut record, domain_off);
    push_u32_le(&mut record, name_off);
    push_u32_le(&mut record, path_off);
    push_u32_le(&mut record, value_off);
    record.extend_from_slice(&[0u8; 8]);
    record.extend_from_slice(&700000000.0f64.to_le_bytes());
    record.extend_from_slice(&0.0f64.to_le_bytes());
    for field in [domain, name, path, value] {
        record.extend_from_slice(field.as_bytes());
        record.push(0);
    }

    let mut page: Vec<u8> = Vec::new();
    page.extend_from_slice(&[0x00, 0x00, 0x01, 0x00]);
    push_u32_le(&mut page, 1);
    push_u32_le(&mut page, 12);
    page.extend_from_slice(&record);

    let mut data: Vec<u8> = Vec::new();
    data.extend_from_slice(b"cook");
    push_u32_be(&mut data, 1);
    push_u32_be(&mut data, page.len() as u32);
    data.extend_from_slice(&page);
    data
}

#[test]
fn safari_parses_minimal_container() {
    let data = minimal_container("example.com", "session", "/", "abc", 1);
    let store = extract_cookies(&data).expect("one cookie");
    assert_eq!(store.len(), 1);
    let cookie = &store.all()[0];
    assert_eq!(cookie.domain, "example.com");
    assert_eq!(cookie.name, "session");
    assert_eq!(cookie.path, "/");
    assert_eq!(cookie.value, "abc");
    assert!(cookie.secure);
    assert!(!cookie.http_only);
    assert_eq!(cookie.expires, Some(978307200 + 700000000));
}

#[test]
fn safari_truncated_container_is_error_not_panic() {
    let data = minimal_container("example.com", "session", "/", "abc", 0);
    for cut in [3usize, 10, 20, data.len() - 1] {
        let mut store = CookieStore::new();
        let result = parse_safari_cookies(&data[..cut], &mut store);
        assert!(result.is_err(), "cut at {cut} must fail");
    }
}

#[test]
fn safari_out_of_page_record_offset_is_an_error() {
    let mut data = minimal_container("example.com", "session", "/", "abc", 0);
    // The single record offset: file header (12) + page magic (4) + record
    // count (4).  Point it past the page.
    let page_len = (data.len() - 12) as u32;
    data[20..24].copy_from_slice(&page_len.to_le_bytes());
    let err = extract_cookies(&data).expect_err("out-of-page record");
    match err {
        RurlError::BrowserCookie(message) => assert!(message.contains("record offset")),
        other => panic!("unexpected error: {:?}", other),
    }
}

#[test]
fn safari_bad_magic_is_error() {
    let mut data = minimal_container("example.com", "session", "/", "abc", 0);
    data[0] = b'x';
    assert!(extract_cookies(&data).is_err());
}

#[test]
fn safari_record_with_empty_name_is_dropped() {
    let data = minimal_container("example.com", "", "/", "abc", 0);
    let err = extract_cookies(&data).expect_err("empty store is an error");
    match err {
        RurlError::BrowserCookie(message) => assert!(message.contains("No Safari cookies")),
        other => panic!("unexpected error: {:?}", other),
    }
}

#[test]
fn safari_invalid_utf8_string_is_an_error() {
    let mut data = minimal_container("example.com", "session", "/", "abc", 0);
    // First byte of the domain string: file header (12) + record offset in
    // the page (12) + fixed record header (56).
    data[12 + 12 + 56] = 0xFF;
    let err = extract_cookies(&data).expect_err("invalid utf-8");
    match err {
        RurlError::BrowserCookie(message) => assert!(message.contains("decode failed")),
        other => panic!("unexpected error: {:?}", other),
    }
}

#[test]
fn safari_insecure_flag_is_kept() {
    let data = minimal_container("example.com", "session", "/", "abc", 0);
    let store = extract_cookies(&data).expect("one cookie");
    assert!(!store.all()[0].secure);
}
