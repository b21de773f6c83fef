use aes_gcm::aead::Aead;
use aes_gcm::KeyInit;
use base64::Engine;
use cbc::cipher::block_padding::Pkcs7;
use cbc::cipher::{BlockModeEncrypt, KeyIvInit};
use pbkdf2::pbkdf2_hmac;
use rurl::chromium::{
    chromium_expires_to_unix_seconds, chromium_settings_linux, chromium_settings_macos,
    chromium_settings_windows, decode_cookie_value, decode_encrypted_key,
    extract_chromium_cookies, ChromiumBrowser, ChromiumDecryptor, ChromiumRow,
    LinuxChromeCookieDecryptor, MacChromeCookieDecryptor, WindowsChromeCookieDecryptor,
};
use rurl::error::RurlError;
use sha1::Sha1;

const AES_IV: &[u8; 16] = b"                ";

fn derive(password: &[u8], iterations: u32) -> [u8; 16] {
    let mut key = [0u8; 16];
    pbkdf2_hmac::<Sha1>(password, b"saltysalt", iterations, &mut key);
    key
}

fn cbc_encrypt(key: &[u8; 16], plaintext: &[u8]) -> Vec<u8> {
    let encryptor = cbc::Encryptor::<aes::Aes128>::new_from_slices(key, AES_IV).expect("cipher");
    encryptor.encrypt_padded_vec::<Pkcs7>(plaintext)
}

fn v10_ciphertext(key: &[u8; 16], plaintext: &[u8]) -> Vec<u8> {
    let mut out = b"v10".to_vec();
    out.extend_from_slice(&cbc_encrypt(key, plaintext));
    out
}

#[test]
fn linux_v10_round_trip_recovers_plaintext() {
    let key = derive(b"peanuts", 1);
    let encrypted = v10_ciphertext(&key, b"cookie-value");
    let decryptor = LinuxChromeCookieDecryptor::new(None, 0);
    assert_eq!(decryptor.decrypt(&encrypted), Some("cookie-value".to_string()));
}

#[test]
fn linux_v10_round_trip_trims_hash_prefix_from_meta_24() {
    let key = derive(b"peanuts", 1);
    let mut plaintext = vec![0xAAu8; 32];
    plaintext.extend_from_slice(b"cookie-value");
    let encrypted = v10_ciphertext(&key, &plaintext);
    let decryptor = LinuxChromeCookieDecryptor::new(None, 24);
    assert_eq!(decryptor.decrypt(&encrypted), Some("cookie-value".to_string()));
    let untrimmed = LinuxChromeCookieDecryptor::new(None, 23);
    assert_eq!(untrimmed.decrypt(&encrypted), None);
}

#[test]
fn linux_v10_falls_back_to_the_second_key() {
    let empty_key = derive(b"", 1);
    let encrypted = v10_ciphertext(&empty_key, b"fallback-value");
    let decryptor = LinuxChromeCookieDecryptor::new(None, 0);
    assert_eq!(decryptor.decrypt(&encrypted), Some("fallback-value".to_string()));
}

#[test]
fn linux_v11_uses_the_keyring_key() {
    let password = b"wallet-password".to_vec();
    let key = derive(&password, 1);
    let mut encrypted = b"v11".to_vec();
    encrypted.extend_from_slice(&cbc_encrypt(&key, b"secret"));
    let decryptor = LinuxChromeCookieDecryptor::new(Some(password), 0);
    assert_eq!(decryptor.decrypt(&encrypted), Some("secret".to_string()));
    let without = LinuxChromeCookieDecryptor::new(None, 0);
    assert_eq!(without.decrypt(&encrypted), None);
}

#[test]
fn linux_unknown_tag_is_dropped() {
    let decryptor = LinuxChromeCookieDecryptor::new(None, 0);
    assert_eq!(decryptor.decrypt(b"v99garbage"), None);
    assert_eq!(decryptor.decrypt(b"v1"), None);
}

#[test]
fn mac_v10_round_trip_recovers_plaintext() {
    let key = derive(b"keychain-password", 1003);
    let encrypted = v10_ciphertext(&key, b"mac-value");
    let decryptor = MacChromeCookieDecryptor::new(Some(b"keychain-password".to_vec()), 0);
    assert_eq!(decryptor.decrypt(&encrypted), Some("mac-value".to_string()));
}

#[test]
fn mac_without_password_keeps_plaintext_values_only() {
    let decryptor = MacChromeCookieDecryptor::new(None, 0);
    let key = derive(b"whatever", 1003);
    assert_eq!(decryptor.decrypt(&v10_ciphertext(&key, b"x")), None);
    assert_eq!(decryptor.decrypt(b"plain-stored"), Some("plain-stored".to_string()));
}

#[test]
fn windows_v10_round_trip_recovers_plaintext() {
    let key = [7u8; 32];
    let cipher = aes_gcm::Aes256Gcm::new_from_slice(&key).expect("cipher");
    let nonce_bytes = [9u8; 12];
    let nonce = aes_gcm::aead::Nonce::<aes_gcm::Aes256Gcm>::from(nonce_bytes);
    let sealed = cipher.encrypt(&nonce, b"win-value".as_ref()).expect("seal");
    let mut encrypted = b"v10".to_vec();
    encrypted.extend_from_slice(&nonce_bytes);
    encrypted.extend_from_slice(&sealed);
    let decryptor = WindowsChromeCookieDecryptor::new(Some(key.to_vec()), 0);
    assert_eq!(decryptor.decrypt(&encrypted), Some("win-value".to_string()));
    let wrong = WindowsChromeCookieDecryptor::new(Some([8u8; 32].to_vec()), 0);
    assert_eq!(wrong.decrypt(&encrypted), None);
}

#[test]
fn decode_cookie_value_applies_schema_gate() {
    let mut value = vec![0xBBu8; 32];
    value.extend_from_slice(b"tail");
    assert_eq!(decode_cookie_value(&value, 24), Some("tail".to_string()));
    assert_eq!(decode_cookie_value(b"short", 24), Some("short".to_string()));
    assert_eq!(decode_cookie_value(b"plain", 23), Some("plain".to_string()));
    assert_eq!(decode_cookie_value(&[0xFF, 0xFE], 0), None);
}

#[test]
fn chromium_expires_converts_epoch_and_zero() {
    assert_eq!(chromium_expires_to_unix_seconds(0), None);
    assert_eq!(
        chromium_expires_to_unix_seconds(13_300_000_000_000_000),
        Some(13_300_000_000 - 11_644_473_600)
    );
    assert_eq!(chromium_expires_to_unix_seconds(11_644_473_600_000_000), None);
    assert_eq!(chromium_expires_to_unix_seconds(-5), None);
}

fn plain_row(name: &str, value: &str, secure: i64, expires_utc: i64) -> ChromiumRow {
    ChromiumRow {
        host_key: "example.com".to_string(),
        name: name.to_string(),
        value: value.to_string(),
        encrypted_value: Vec::new(),
        path: "/".to_string(),
        expires_utc,
        secure,
        http_only: 0,
    }
}

#[test]
fn chromium_store_keeps_plaintext_row_with_secure_flag_and_session_expiry() {
    let rows = vec![plain_row("session", "abc", 1, 0)];
    let decryptor = ChromiumDecryptor::Linux(LinuxChromeCookieDecryptor::new(None, 0));
    let store = extract_chromium_cookies(&rows, &decryptor).expect("store");
    assert_eq!(store.len(), 1);
    let cookie = &store.all()[0];
    assert_eq!(cookie.name, "session");
    assert_eq!(cookie.value, "abc");
    assert!(cookie.secure);
    assert_eq!(cookie.expires, None);
}

#[test]
fn chromium_store_decrypts_encrypted_rows_and_drops_undecryptable_ones() {
    let key = derive(b"peanuts", 1);
    let mut good = plain_row("enc", "", 0, 0);
    good.encrypted_value = v10_ciphertext(&key, b"decrypted");
    let mut bad = plain_row("bad", "", 0, 0);
    bad.encrypted_value = b"v10not-a-ciphertext".to_vec();
    let mut empty = plain_row("empty", "", 0, 0);
    empty.encrypted_value = Vec::new();
    let rows = vec![good, bad, empty];
    let decryptor = ChromiumDecryptor::Linux(LinuxChromeCookieDecryptor::new(None, 0));
    let store = extract_chromium_cookies(&rows, &decryptor).expect("store");
    assert_eq!(store.len(), 1);
    assert_eq!(store.all()[0].value, "decrypted");
}

#[test]
fn chromium_empty_extraction_is_an_error() {
    let rows: Vec<ChromiumRow> = Vec::new();
    let decryptor = ChromiumDecryptor::Linux(LinuxChromeCookieDecryptor::new(None, 0));
    let err = extract_chromium_cookies(&rows, &decryptor).expect_err("empty");
    match err {
        RurlError::BrowserCookie(message) => assert!(message.contains("No Chromium cookies")),
        other => panic!("unexpected error: {:?}", other),
    }
}

#[test]
fn decode_encrypted_key_strips_the_dpapi_marker() {
    let mut blob = b"DPAPI".to_vec();
    blob.extend_from_slice(&[1, 2, 3]);
    let encoded = base64::engine::general_purpose::STANDARD.encode(&blob);
    assert_eq!(decode_encrypted_key(&encoded), Some(vec![1, 2, 3]));
    let wrong = base64::engine::general_purpose::STANDARD.encode(b"OTHER123");
    assert_eq!(decode_encrypted_key(&wrong), None);
    assert_eq!(decode_encrypted_key("!!!not-base64!!!"), None);
}

#[test]
fn chromium_settings_tables_match_the_layouts() {
    let mac = chromium_settings_macos(ChromiumBrowser::Chrome);
    assert_eq!(mac.relative_dir, "Google/Chrome");
    assert_eq!(mac.account, "Chrome");
    assert!(mac.supports_profiles);
    let mac_opera = chromium_settings_macos(ChromiumBrowser::Opera);
    assert!(!mac_opera.supports_profiles);

    let linux = chromium_settings_linux(ChromiumBrowser::Edge);
    assert_eq!(linux.relative_dir, "microsoft-edge");
    assert_eq!(linux.account, "Chromium");

    let win = chromium_settings_windows(ChromiumBrowser::Opera);
    assert_eq!(win.relative_dir, "Opera Software/Opera Stable");
    assert!(win.roaming);
    assert!(!win.supports_profiles);
}
