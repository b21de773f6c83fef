//! The Chromium-family extractor: per-OS cookie-value decryption and the
//! conversion of queried rows into a [`CookieStore`].
//!
//! The surrounding application locates and copies the SQLite database,
//! queries the rows and obtains OS secrets (keychain password, keyring
//! password, DPAPI-unwrapped key); everything from there on — key
//! derivation, ciphertext dispatch, decryption, the schema-gated hash-prefix
//! trim, expiry conversion and store assembly — is verified here.

use vstd::prelude::*;

verus! {

use vstd::string::*;
use vstd::utf8::{valid_utf8, decode_utf8};
use crate::cookie::{Cookie, CookieModel, CookieStore};
use crate::crypto::{
    aes128_cbc_decrypt, pbkdf2_sha1_16, aes256_gcm_decrypt, spec_aes128_cbc_decrypt,
    spec_aes256_gcm_decrypt, spec_pbkdf2_sha1_16,
};
use crate::error::RurlError;
use crate::text::{str_eq, utf8_decode};

/// The Chromium-family browsers that share one storage scheme.
#[derive(Debug, Clone, Copy, PartialEq, Eq, Structural)]
pub enum ChromiumBrowser {
    Chrome,
    Edge,
    Brave,
    Opera,
    Vivaldi,
    Whale,
}

// ---------------------------------------------------------------------------
// Shared pieces of the decryption scheme
// ---------------------------------------------------------------------------

/// The PBKDF2 salt Chromium derives its keys with: `saltysalt`.
pub open spec fn spec_key_salt() -> Seq<u8> {
    seq![115u8, 97u8, 108u8, 116u8, 121u8, 115u8, 97u8, 108u8, 116u8]
}

/// The fixed AES-CBC IV: sixteen ASCII spaces.
pub open spec fn spec_space_iv() -> Seq<u8> {
    seq![
        32u8, 32u8, 32u8, 32u8, 32u8, 32u8, 32u8, 32u8, 32u8, 32u8, 32u8, 32u8, 32u8, 32u8, 32u8,
        32u8,
    ]
}

/// The three-byte version tag `v10`.
pub open spec fn spec_tag_v10() -> Seq<u8> {
    seq![118u8, 49u8, 48u8]
}

/// The three-byte version tag `v11`.
pub open spec fn spec_tag_v11() -> Seq<u8> {
    seq![118u8, 49u8, 49u8]
}

fn derive_key(password: &[u8], iterations: u32) -> (r: Vec<u8>)
    ensures
        r@ == spec_pbkdf2_sha1_16(password@, spec_key_salt(), iterations),
        r@.len() == 16,
{
    let salt: [u8; 9] = [115, 97, 108, 116, 121, 115, 97, 108, 116];
    proof {
        assert(salt@ =~= spec_key_salt());
    }
    pbkdf2_sha1_16(password, &salt, iterations)
}

fn space_iv() -> (r: Vec<u8>)
    ensures
        r@ =~= spec_space_iv(),
        r@.len() == 16,
{
    let iv: [u8; 16] = [32; 16];
    let r = vstd::slice::slice_to_vec(&iv);
    proof {
        assert(r@ =~= spec_space_iv());
    }
    r
}

/// Checks whether a ciphertext starts with the given three-byte tag.
fn has_tag(ev: &[u8], b0: u8, b1: u8, b2: u8) -> (r: bool)
    requires
        ev@.len() >= 3,
    ensures
        r == (ev@.subrange(0, 3) =~= seq![b0, b1, b2]),
{
    let hit = ev[0] == b0 && ev[1] == b1 && ev[2] == b2;
    proof {
        if hit {
            assert(ev@.subrange(0, 3) =~= seq![b0, b1, b2]);
        } else {
            if ev@.subrange(0, 3) =~= seq![b0, b1, b2] {
                assert(ev@.subrange(0, 3)[0] == b0);
                assert(ev@.subrange(0, 3)[1] == b1);
                assert(ev@.subrange(0, 3)[2] == b2);
            }
        }
    }
    hit
}

/// A decrypted value, after the schema gate: from meta version 24 on,
/// Chromium prefixes the plaintext with a 32-byte SHA-256 of the host key,
/// which is cut off before UTF-8 decoding.
pub open spec fn spec_decode_cookie_value(value: Seq<u8>, meta_version: int) -> Option<Seq<char>> {
    let trimmed = if meta_version >= 24 && value.len() > 32 {
        value.skip(32)
    } else {
        value
    };
    if valid_utf8(trimmed) {
        Some(decode_utf8(trimmed))
    } else {
        None
    }
}

/// Cuts the schema-gated 32-byte hash prefix off a decrypted value and
/// UTF-8-decodes the rest; `None` on invalid UTF-8.
pub fn decode_cookie_value(value: &[u8], meta_version: i64) -> (r: Option<String>)
    ensures
        match r {
            Some(s) => spec_decode_cookie_value(value@, meta_version as int) == Some(s@),
            None => spec_decode_cookie_value(value@, meta_version as int) is None,
        },
{
    let len: usize = value.len();
    let trimmed: &[u8] = if meta_version >= 24 && len > 32 {
        proof {
            assert(value@.subrange(32, value@.len() as int) =~= value@.skip(32));
        }
        &value[32..len]
    } else {
        value
    };
    utf8_decode(trimmed)
}

// ---------------------------------------------------------------------------
// Expiry conversion
// ---------------------------------------------------------------------------

/// Chromium stores expiry as microseconds since 1601; Unix seconds are the
/// microseconds scaled down minus the epoch gap.  A zero or non-positive
/// result means no expiry.
pub open spec fn spec_chromium_expires(expires_utc: int) -> Option<int> {
    if expires_utc <= 0 {
        None
    } else {
        let unix = expires_utc / 1000000 - 11644473600;
        if unix <= 0 {
            None
        } else {
            Some(unix)
        }
    }
}

pub fn chromium_expires_to_unix_seconds(expires_utc: i64) -> (r: Option<i64>)
    ensures
        match r {
            Some(v) => spec_chromium_expires(expires_utc as int) == Some(v as int),
            None => spec_chromium_expires(expires_utc as int) is None,
        },
{
    if expires_utc <= 0 {
        return None;
    }
    let unix = expires_utc / 1000000 - 11644473600;
    if unix <= 0 {
        None
    } else {
        Some(unix)
    }
}

// ---------------------------------------------------------------------------
// The macOS decryptor
// ---------------------------------------------------------------------------

/// macOS: one AES-128 key derived from the keychain password (1003 PBKDF2
/// iterations); `v10` ciphertexts carry an AES-CBC payload, anything else
/// is stored plaintext.
pub struct MacChromeCookieDecryptor {
    pub key: Option<Vec<u8>>,
    pub meta_version: i64,
}

/// What the macOS strategy decrypts a stored `encrypted_value` to.
pub open spec fn spec_mac_decrypt(
    key: Option<Seq<u8>>,
    meta_version: int,
    ev: Seq<u8>,
) -> Option<Seq<char>> {
    if ev.len() < 3 {
        None
    } else if ev.subrange(0, 3) == spec_tag_v10() {
        match key {
            None => None,
            Some(k) => match spec_aes128_cbc_decrypt(k, spec_space_iv(), ev.skip(3)) {
                None => None,
                Some(p) => spec_decode_cookie_value(p, meta_version),
            },
        }
    } else {
        if valid_utf8(ev) {
            Some(decode_utf8(ev))
        } else {
            None
        }
    }
}

impl MacChromeCookieDecryptor {
    /// Spec view of the held key.
    pub open spec fn spec_key(&self) -> Option<Seq<u8>> {
        match self.key {
            Some(k) => Some(k@),
            None => None,
        }
    }

    /// A held key is an AES-128 key.
    pub open spec fn wf(&self) -> bool {
        self.key matches Some(k) ==> k@.len() == 16
    }

    /// Builds the decryptor from the keychain password, when one could be
    /// read; without one, `v10` values will not decrypt.
    pub fn new(password: Option<Vec<u8>>, meta_version: i64) -> (r: MacChromeCookieDecryptor)
        ensures
            r.wf(),
            r.meta_version == meta_version,
            match password {
                Some(p) => r.spec_key() == Some(
                    spec_pbkdf2_sha1_16(p@, spec_key_salt(), 1003),
                ),
                None => r.spec_key() is None,
            },
    {
        let key = match password {
            Some(p) => Some(derive_key(p.as_slice(), 1003)),
            None => None,
        };
        MacChromeCookieDecryptor { key, meta_version }
    }

    /// Decrypts one stored `encrypted_value`; `None` drops the row.
    pub fn decrypt(&self, encrypted_value: &[u8]) -> (r: Option<String>)
        requires
            self.wf(),
        ensures
            match r {
                Some(s) => spec_mac_decrypt(
                    self.spec_key(),
                    self.meta_version as int,
                    encrypted_value@,
                ) == Some(s@),
                None => spec_mac_decrypt(
                    self.spec_key(),
                    self.meta_version as int,
                    encrypted_value@,
                ) is None,
            },
    {
        let len: usize = encrypted_value.len();
        if len < 3 {
            return None;
        }
        if has_tag(encrypted_value, 118, 49, 48) {
            let key = match &self.key {
                Some(k) => k,
                None => {
                    return None;
                },
            };
            let iv = space_iv();
            let ciphertext: &[u8] = &encrypted_value[3..len];
            proof {
                assert(ciphertext@ =~= encrypted_value@.skip(3));
            }
            match aes128_cbc_decrypt(key.as_slice(), iv.as_slice(), ciphertext) {
                None => None,
                Some(p) => decode_cookie_value(p.as_slice(), self.meta_version),
            }
        } else {
            utf8_decode(encrypted_value)
        }
    }
}

// ---------------------------------------------------------------------------
// The Linux decryptor
// ---------------------------------------------------------------------------

/// Linux: a default key from the literal password `peanuts` and a key from
/// the empty password, both at one PBKDF2 iteration (Chromium's own weak
/// default), plus optionally a key from the desktop keyring.  `v10` tries
/// default then empty, `v11` tries keyring then empty.
pub struct LinuxChromeCookieDecryptor {
    pub v10_key: Vec<u8>,
    pub empty_key: Vec<u8>,
    pub v11_key: Option<Vec<u8>>,
    pub meta_version: i64,
}

/// The password behind Chromium's Linux default key: `peanuts`.
pub open spec fn spec_peanuts() -> Seq<u8> {
    seq![112u8, 101u8, 97u8, 110u8, 117u8, 116u8, 115u8]
}

/// One decryption attempt: AES-CBC under one key, then the schema-gated
/// trim and UTF-8 decode; `None` on a cipher failure as well as on invalid
/// UTF-8.
pub open spec fn spec_cbc_try(key: Seq<u8>, ct: Seq<u8>, meta_version: int) -> Option<Seq<char>> {
    match spec_aes128_cbc_decrypt(key, spec_space_iv(), ct) {
        None => None,
        Some(p) => spec_decode_cookie_value(p, meta_version),
    }
}

/// Two keys tried in order: the first whose decrypt succeeds and whose
/// trimmed plaintext is valid UTF-8 wins; `None` only when neither key
/// yields a value.
pub open spec fn spec_cbc_multi(
    key1: Seq<u8>,
    key2: Seq<u8>,
    ct: Seq<u8>,
    meta_version: int,
) -> Option<Seq<char>> {
    match spec_cbc_try(key1, ct, meta_version) {
        Some(s) => Some(s),
        None => spec_cbc_try(key2, ct, meta_version),
    }
}

/// Tries AES-128-CBC decryption under two keys in order; the first key
/// producing valid UTF-8 after the schema-gated trim wins, and any failure
/// under the first key lets the second key try.
pub fn decrypt_aes_cbc_multi(ciphertext: &[u8], key1: &[u8], key2: &[u8], meta_version: i64) -> (r:
    Option<String>)
    requires
        key1@.len() == 16,
        key2@.len() == 16,
    ensures
        match r {
            Some(s) => spec_cbc_multi(key1@, key2@, ciphertext@, meta_version as int) == Some(s@),
            None => spec_cbc_multi(key1@, key2@, ciphertext@, meta_version as int) is None,
        },
{
    let iv = space_iv();
    let first = match aes128_cbc_decrypt(key1, iv.as_slice(), ciphertext) {
        None => None,
        Some(p) => decode_cookie_value(p.as_slice(), meta_version),
    };
    match first {
        Some(s) => Some(s),
        None => match aes128_cbc_decrypt(key2, iv.as_slice(), ciphertext) {
            None => None,
            Some(p2) => decode_cookie_value(p2.as_slice(), meta_version),
        },
    }
}

/// What the Linux strategy decrypts a stored `encrypted_value` to.
pub open spec fn spec_linux_decrypt(
    v10_key: Seq<u8>,
    empty_key: Seq<u8>,
    v11_key: Option<Seq<u8>>,
    meta_version: int,
    ev: Seq<u8>,
) -> Option<Seq<char>> {
    if ev.len() < 3 {
        None
    } else if ev.subrange(0, 3) == spec_tag_v10() {
        spec_cbc_multi(v10_key, empty_key, ev.skip(3), meta_version)
    } else if ev.subrange(0, 3) == spec_tag_v11() {
        match v11_key {
            None => None,
            Some(k) => spec_cbc_multi(k, empty_key, ev.skip(3), meta_version),
        }
    } else {
        None
    }
}

impl LinuxChromeCookieDecryptor {
    pub open spec fn spec_v11_key(&self) -> Option<Seq<u8>> {
        match self.v11_key {
            Some(k) => Some(k@),
            None => None,
        }
    }

    /// Every held key is an AES-128 key.
    pub open spec fn wf(&self) -> bool {
        self.v10_key@.len() == 16 && self.empty_key@.len() == 16 && (self.v11_key matches Some(k)
            ==> k@.len() == 16)
    }

    /// Derives the three candidate keys; the keyring password, when the
    /// desktop's secret store yielded one, feeds the `v11` key.
    pub fn new(keyring_password: Option<Vec<u8>>, meta_version: i64) -> (r:
        LinuxChromeCookieDecryptor)
        ensures
            r.wf(),
            r.meta_version == meta_version,
            r.v10_key@ == spec_pbkdf2_sha1_16(spec_peanuts(), spec_key_salt(), 1),
            r.empty_key@ == spec_pbkdf2_sha1_16(Seq::<u8>::empty(), spec_key_salt(), 1),
            r.v10_key@.len() == 16 && r.empty_key@.len() == 16,
            match keyring_password {
                Some(p) => r.spec_v11_key() == Some(spec_pbkdf2_sha1_16(p@, spec_key_salt(), 1))
                    && r.v11_key->0@.len() == 16,
                None => r.spec_v11_key() is None,
            },
    {
        let peanuts: [u8; 7] = [112, 101, 97, 110, 117, 116, 115];
        proof {
            assert(peanuts@ =~= spec_peanuts());
        }
        let empty: [u8; 0] = [];
        proof {
            assert(empty@ =~= Seq::<u8>::empty());
        }
        let v10_key = derive_key(&peanuts, 1);
        let empty_key = derive_key(&empty, 1);
        let v11_key = match keyring_password {
            Some(p) => Some(derive_key(p.as_slice(), 1)),
            None => None,
        };
        LinuxChromeCookieDecryptor { v10_key, empty_key, v11_key, meta_version }
    }

    /// Decrypts one stored `encrypted_value`; an unknown version tag, like
    /// any failure, drops the row.
    pub fn decrypt(&self, encrypted_value: &[u8]) -> (r: Option<String>)
        requires
            self.wf(),
        ensures
            match r {
                Some(s) => spec_linux_decrypt(
                    self.v10_key@,
                    self.empty_key@,
                    self.spec_v11_key(),
                    self.meta_version as int,
                    encrypted_value@,
                ) == Some(s@),
                None => spec_linux_decrypt(
                    self.v10_key@,
                    self.empty_key@,
                    self.spec_v11_key(),
                    self.meta_version as int,
                    encrypted_value@,
                ) is None,
            },
    {
        let len: usize = encrypted_value.len();
        if len < 3 {
            return None;
        }
        let ciphertext: &[u8] = &encrypted_value[3..len];
        proof {
            assert(ciphertext@ =~= encrypted_value@.skip(3));
        }
        if has_tag(encrypted_value, 118, 49, 48) {
            decrypt_aes_cbc_multi(
                ciphertext,
                self.v10_key.as_slice(),
                self.empty_key.as_slice(),
                self.meta_version,
            )
        } else if has_tag(encrypted_value, 118, 49, 49) {
            match &self.v11_key {
                None => None,
                Some(k) => decrypt_aes_cbc_multi(
                    ciphertext,
                    k.as_slice(),
                    self.empty_key.as_slice(),
                    self.meta_version,
                ),
            }
        } else {
            None
        }
    }
}

// ---------------------------------------------------------------------------
// The Windows decryptor
// ---------------------------------------------------------------------------

/// Windows: a 32-byte AES-256-GCM key, DPAPI-unwrapped from `Local State`
/// by the application.  `v10` ciphertexts are `[12-byte nonce][payload and
/// 16-byte tag]`.  Legacy values are whole DPAPI blobs, which only the
/// platform can unwrap: the application unwraps them and feeds the result
/// through [`decode_cookie_value`].
pub struct WindowsChromeCookieDecryptor {
    pub v10_key: Option<Vec<u8>>,
    pub meta_version: i64,
}

/// What the Windows strategy decrypts a `v10` value to; a legacy value is
/// `None` here since its DPAPI unwrap lives with the application.
pub open spec fn spec_windows_decrypt(
    v10_key: Option<Seq<u8>>,
    meta_version: int,
    ev: Seq<u8>,
) -> Option<Seq<char>> {
    if ev.len() < 3 {
        None
    } else if ev.subrange(0, 3) == spec_tag_v10() {
        match v10_key {
            None => None,
            Some(k) => {
                let ct = ev.skip(3);
                if k.len() == 32 && ct.len() >= 28 {
                    match spec_aes256_gcm_decrypt(k, ct.take(12), ct.skip(12)) {
                        None => None,
                        Some(p) => spec_decode_cookie_value(p, meta_version),
                    }
                } else {
                    None
                }
            },
        }
    } else {
        None
    }
}

impl WindowsChromeCookieDecryptor {
    pub open spec fn spec_key(&self) -> Option<Seq<u8>> {
        match self.v10_key {
            Some(k) => Some(k@),
            None => None,
        }
    }

    /// Builds the decryptor from the DPAPI-unwrapped `Local State` key,
    /// when one could be read.
    pub fn new(v10_key: Option<Vec<u8>>, meta_version: i64) -> (r: WindowsChromeCookieDecryptor)
        ensures
            r.meta_version == meta_version,
            r.spec_key() == match v10_key {
                Some(k) => Some(k@),
                None => None::<Seq<u8>>,
            },
    {
        WindowsChromeCookieDecryptor { v10_key, meta_version }
    }

    /// Decrypts one `v10` value; `None` drops the row (legacy DPAPI blobs
    /// are the application's to unwrap).
    pub fn decrypt(&self, encrypted_value: &[u8]) -> (r: Option<String>)
        ensures
            match r {
                Some(s) => spec_windows_decrypt(
                    self.spec_key(),
                    self.meta_version as int,
                    encrypted_value@,
                ) == Some(s@),
                None => spec_windows_decrypt(
                    self.spec_key(),
                    self.meta_version as int,
                    encrypted_value@,
                ) is None,
            },
    {
        let len: usize = encrypted_value.len();
        if len < 3 {
            return None;
        }
        if !has_tag(encrypted_value, 118, 49, 48) {
            return None;
        }
        let key = match &self.v10_key {
            Some(k) => k,
            None => {
                return None;
            },
        };
        let ct: &[u8] = &encrypted_value[3..len];
        proof {
            assert(ct@ =~= encrypted_value@.skip(3));
        }
        if !(key.len() == 32 && ct.len() >= 28) {
            return None;
        }
        let nonce: &[u8] = &ct[0..12];
        let payload: &[u8] = &ct[12..len - 3];
        proof {
            assert(nonce@ =~= encrypted_value@.skip(3).take(12));
            assert(payload@ =~= encrypted_value@.skip(3).skip(12));
        }
        match aes256_gcm_decrypt(key.as_slice(), nonce, payload) {
            None => None,
            Some(p) => decode_cookie_value(p.as_slice(), self.meta_version),
        }
    }
}

// ---------------------------------------------------------------------------
// Rows and the extractor
// ---------------------------------------------------------------------------

/// One platform's decryption strategy, chosen at the extractor boundary.
pub enum ChromiumDecryptor {
    Mac(MacChromeCookieDecryptor),
    Linux(LinuxChromeCookieDecryptor),
    Windows(WindowsChromeCookieDecryptor),
}

/// What the chosen strategy decrypts a value to.
pub open spec fn spec_chromium_decrypt(d: &ChromiumDecryptor, ev: Seq<u8>) -> Option<Seq<char>> {
    match d {
        ChromiumDecryptor::Mac(m) => spec_mac_decrypt(m.spec_key(), m.meta_version as int, ev),
        ChromiumDecryptor::Linux(l) => spec_linux_decrypt(
            l.v10_key@,
            l.empty_key@,
            l.spec_v11_key(),
            l.meta_version as int,
            ev,
        ),
        ChromiumDecryptor::Windows(w) => spec_windows_decrypt(
            w.spec_key(),
            w.meta_version as int,
            ev,
        ),
    }
}

impl ChromiumDecryptor {
    /// Every held key has its cipher's length.
    pub open spec fn wf(&self) -> bool {
        match self {
            ChromiumDecryptor::Mac(m) => m.wf(),
            ChromiumDecryptor::Linux(l) => l.wf(),
            ChromiumDecryptor::Windows(_) => true,
        }
    }

    pub fn decrypt(&self, encrypted_value: &[u8]) -> (r: Option<String>)
        requires
            self.wf(),
        ensures
            match r {
                Some(s) => spec_chromium_decrypt(self, encrypted_value@) == Some(s@),
                None => spec_chromium_decrypt(self, encrypted_value@) is None,
            },
    {
        match self {
            ChromiumDecryptor::Mac(m) => m.decrypt(encrypted_value),
            ChromiumDecryptor::Linux(l) => l.decrypt(encrypted_value),
            ChromiumDecryptor::Windows(w) => w.decrypt(encrypted_value),
        }
    }
}

/// Model of one queried row of the `cookies` table.
pub ghost struct ChromiumRowModel {
    pub host_key: Seq<char>,
    pub name: Seq<char>,
    pub value: Seq<char>,
    pub encrypted_value: Seq<u8>,
    pub path: Seq<char>,
    pub expires_utc: int,
    pub secure: int,
    pub http_only: int,
}

/// One row of the `cookies` table, as the application queried it.
pub struct ChromiumRow {
    pub host_key: String,
    pub name: String,
    pub value: String,
    pub encrypted_value: Vec<u8>,
    pub path: String,
    pub expires_utc: i64,
    pub secure: i64,
    pub http_only: i64,
}

impl View for ChromiumRow {
    type V = ChromiumRowModel;

    open spec fn view(&self) -> ChromiumRowModel {
        ChromiumRowModel {
            host_key: self.host_key@,
            name: self.name@,
            value: self.value@,
            encrypted_value: self.encrypted_value@,
            path: self.path@,
            expires_utc: self.expires_utc as int,
            secure: self.secure as int,
            http_only: self.http_only as int,
        }
    }
}

/// What one row contributes: its plaintext `value` verbatim when non-empty,
/// else the decrypted `encrypted_value`; rows with neither, rows that fail
/// to decrypt, and rows with an empty name or host are dropped.
pub open spec fn spec_row_cookie(row: ChromiumRowModel, d: &ChromiumDecryptor) -> Option<
    CookieModel,
> {
    let value: Option<Seq<char>> = if row.value.len() > 0 {
        Some(row.value)
    } else if row.encrypted_value.len() > 0 {
        spec_chromium_decrypt(d, row.encrypted_value)
    } else {
        None
    };
    match value {
        None => None,
        Some(v) => {
            if row.name.len() == 0 || row.host_key.len() == 0 {
                None
            } else {
                Some(
                    CookieModel {
                        name: row.name,
                        value: v,
                        domain: row.host_key,
                        path: row.path,
                        secure: row.secure != 0,
                        http_only: row.http_only != 0,
                        expires: spec_chromium_expires(row.expires_utc),
                    },
                )
            }
        },
    }
}

/// Converts one queried row, decrypting its value if need be.
pub fn row_to_cookie(row: &ChromiumRow, decryptor: &ChromiumDecryptor) -> (r: Option<Cookie>)
    requires
        decryptor.wf(),
    ensures
        match r {
            Some(c) => spec_row_cookie(row@, decryptor) == Some(c@) && c@.wf(),
            None => spec_row_cookie(row@, decryptor) is None,
        },
{
    let value: String = if row.value.as_str().unicode_len() > 0 {
        row.value.clone()
    } else if row.encrypted_value.len() > 0 {
        match decryptor.decrypt(row.encrypted_value.as_slice()) {
            Some(v) => v,
            None => {
                return None;
            },
        }
    } else {
        return None;
    };
    if row.name.as_str().unicode_len() == 0 || row.host_key.as_str().unicode_len() == 0 {
        return None;
    }
    Some(
        Cookie {
            name: row.name.clone(),
            value,
            domain: row.host_key.clone(),
            path: row.path.clone(),
            secure: row.secure != 0,
            http_only: row.http_only != 0,
            expires: chromium_expires_to_unix_seconds(row.expires_utc),
        },
    )
}

/// The cookies a whole row set yields, in row order.
pub open spec fn spec_chromium_store(rows: Seq<ChromiumRowModel>, d: &ChromiumDecryptor) -> Seq<
    CookieModel,
>
    decreases rows.len(),
{
    if rows.len() == 0 {
        Seq::empty()
    } else {
        let prefix = spec_chromium_store(rows.drop_last(), d);
        match spec_row_cookie(rows.last(), d) {
            None => prefix,
            Some(c) => prefix.push(c),
        }
    }
}

/// Model views of a row slice.
pub open spec fn row_views(rows: Seq<ChromiumRow>) -> Seq<ChromiumRowModel> {
    Seq::new(rows.len(), |i: int| rows[i]@)
}

/// Builds the store from the queried rows.  A row set that yields no cookie
/// at all is reported as an extraction failure, deliberately: it is
/// indistinguishable from a locked keychain or a wrong profile.
pub fn extract_chromium_cookies(rows: &Vec<ChromiumRow>, decryptor: &ChromiumDecryptor) -> (r:
    Result<CookieStore, RurlError>)
    requires
        decryptor.wf(),
    ensures
        match r {
            Ok(store) => store@ == spec_chromium_store(row_views(rows@), decryptor) && store@.len()
                > 0 && store.wf(),
            Err(e) => e is BrowserCookie && spec_chromium_store(row_views(rows@), decryptor)
                =~= Seq::<CookieModel>::empty(),
        },
{
    let mut store = CookieStore::new();
    let len: usize = rows.len();
    let mut i: usize = 0;
    while i < len
        invariant
            i <= len,
            len == rows@.len(),
            decryptor.wf(),
            store.wf(),
            store@ =~= spec_chromium_store(row_views(rows@.subrange(0, i as int)), decryptor),
        decreases len - i,
    {
        proof {
            assert(row_views(rows@.subrange(0, i + 1)).drop_last() =~= row_views(
                rows@.subrange(0, i as int),
            ));
            assert(row_views(rows@.subrange(0, i + 1)).last() == rows@[i as int]@);
        }
        match row_to_cookie(&rows[i], decryptor) {
            Some(cookie) => {
                store.insert(cookie);
            },
            None => {},
        }
        i = i + 1;
    }
    proof {
        assert(rows@.subrange(0, len as int) =~= rows@);
    }
    if store.is_empty() {
        return Err(
            RurlError::BrowserCookie("No Chromium cookies could be extracted".to_owned()),
        );
    }
    Ok(store)
}

// ---------------------------------------------------------------------------
// Per-browser settings
// ---------------------------------------------------------------------------

/// Where a browser keeps its user data (relative to the OS's config root),
/// which secret-store account guards its master password, whether it
/// supports multiple profiles, and (Windows) whether its data lives under
/// the roaming application-data root.
pub struct ChromiumSettings {
    pub relative_dir: String,
    pub account: String,
    pub supports_profiles: bool,
    pub roaming: bool,
}

/// The macOS table: directory under `Library/Application Support`, keychain
/// account, profile support.
pub open spec fn spec_macos_settings(b: ChromiumBrowser) -> (Seq<char>, Seq<char>, bool) {
    match b {
        ChromiumBrowser::Chrome => ("Google/Chrome"@, "Chrome"@, true),
        ChromiumBrowser::Edge => ("Microsoft Edge"@, "Microsoft Edge"@, true),
        ChromiumBrowser::Brave => ("BraveSoftware/Brave-Browser"@, "Brave"@, true),
        ChromiumBrowser::Opera => ("com.operasoftware.Opera"@, "Opera"@, false),
        ChromiumBrowser::Vivaldi => ("Vivaldi"@, "Vivaldi"@, true),
        ChromiumBrowser::Whale => ("Naver/Whale"@, "Whale"@, true),
    }
}

/// The Linux table: directory under the XDG config root, keyring account,
/// profile support.
pub open spec fn spec_linux_settings(b: ChromiumBrowser) -> (Seq<char>, Seq<char>, bool) {
    match b {
        ChromiumBrowser::Chrome => ("google-chrome"@, "Chrome"@, true),
        ChromiumBrowser::Edge => ("microsoft-edge"@, "Chromium"@, true),
        ChromiumBrowser::Brave => ("BraveSoftware/Brave-Browser"@, "Brave"@, true),
        ChromiumBrowser::Opera => ("opera"@, "Chromium"@, false),
        ChromiumBrowser::Vivaldi => ("vivaldi"@, "Chrome"@, true),
        ChromiumBrowser::Whale => ("naver-whale"@, "Whale"@, true),
    }
}

/// The Windows table: directory under the application-data root, profile
/// support, and whether the roaming root applies (Opera alone).
pub open spec fn spec_windows_settings(b: ChromiumBrowser) -> (Seq<char>, bool, bool) {
    match b {
        ChromiumBrowser::Chrome => ("Google/Chrome/User Data"@, true, false),
        ChromiumBrowser::Edge => ("Microsoft/Edge/User Data"@, true, false),
        ChromiumBrowser::Brave => ("BraveSoftware/Brave-Browser/User Data"@, true, false),
        ChromiumBrowser::Opera => ("Opera Software/Opera Stable"@, false, true),
        ChromiumBrowser::Vivaldi => ("Vivaldi/User Data"@, true, false),
        ChromiumBrowser::Whale => ("Naver/Naver Whale/User Data"@, true, false),
    }
}

pub fn chromium_settings_macos(browser: ChromiumBrowser) -> (r: ChromiumSettings)
    ensures
        r.relative_dir@ == spec_macos_settings(browser).0,
        r.account@ == spec_macos_settings(browser).1,
        r.supports_profiles == spec_macos_settings(browser).2,
        !r.roaming,
{
    let (relative_dir, account, supports_profiles) = match browser {
        ChromiumBrowser::Chrome => ("Google/Chrome".to_owned(), "Chrome".to_owned(), true),
        ChromiumBrowser::Edge => ("Microsoft Edge".to_owned(), "Microsoft Edge".to_owned(), true),
        ChromiumBrowser::Brave => (
            "BraveSoftware/Brave-Browser".to_owned(),
            "Brave".to_owned(),
            true,
        ),
        ChromiumBrowser::Opera => ("com.operasoftware.Opera".to_owned(), "Opera".to_owned(), false),
        ChromiumBrowser::Vivaldi => ("Vivaldi".to_owned(), "Vivaldi".to_owned(), true),
        ChromiumBrowser::Whale => ("Naver/Whale".to_owned(), "Whale".to_owned(), true),
    };
    ChromiumSettings { relative_dir, account, supports_profiles, roaming: false }
}

pub fn chromium_settings_linux(browser: ChromiumBrowser) -> (r: ChromiumSettings)
    ensures
        r.relative_dir@ == spec_linux_settings(browser).0,
        r.account@ == spec_linux_settings(browser).1,
        r.supports_profiles == spec_linux_settings(browser).2,
        !r.roaming,
{
    let (relative_dir, account, supports_profiles) = match browser {
        ChromiumBrowser::Chrome => ("google-chrome".to_owned(), "Chrome".to_owned(), true),
        ChromiumBrowser::Edge => ("microsoft-edge".to_owned(), "Chromium".to_owned(), true),
        ChromiumBrowser::Brave => (
            "BraveSoftware/Brave-Browser".to_owned(),
            "Brave".to_owned(),
            true,
        ),
        ChromiumBrowser::Opera => ("opera".to_owned(), "Chromium".to_owned(), false),
        ChromiumBrowser::Vivaldi => ("vivaldi".to_owned(), "Chrome".to_owned(), true),
        ChromiumBrowser::Whale => ("naver-whale".to_owned(), "Whale".to_owned(), true),
    };
    ChromiumSettings { relative_dir, account, supports_profiles, roaming: false }
}

pub fn chromium_settings_windows(browser: ChromiumBrowser) -> (r: ChromiumSettings)
    ensures
        r.relative_dir@ == spec_windows_settings(browser).0,
        r.supports_profiles == spec_windows_settings(browser).1,
        r.roaming == spec_windows_settings(browser).2,
        r.account@ == Seq::<char>::empty(),
{
    let (relative_dir, supports_profiles, roaming) = match browser {
        ChromiumBrowser::Chrome => ("Google/Chrome/User Data".to_owned(), true, false),
        ChromiumBrowser::Edge => ("Microsoft/Edge/User Data".to_owned(), true, false),
        ChromiumBrowser::Brave => (
            "BraveSoftware/Brave-Browser/User Data".to_owned(),
            true,
            false,
        ),
        ChromiumBrowser::Opera => ("Opera Software/Opera Stable".to_owned(), false, true),
        ChromiumBrowser::Vivaldi => ("Vivaldi/User Data".to_owned(), true, false),
        ChromiumBrowser::Whale => ("Naver/Naver Whale/User Data".to_owned(), true, false),
    };
    ChromiumSettings { relative_dir, account: String::new(), supports_profiles, roaming }
}

// ---------------------------------------------------------------------------
// Schema introspection
// ---------------------------------------------------------------------------

/// The schema meta version: the `meta` table's `version` value parsed as a
/// number, `0` when the row is absent or unparsable.
pub open spec fn spec_meta_version(value: Option<Seq<char>>) -> int {
    match value {
        None => 0,
        Some(s) => match crate::text::spec_parse_i64(s) {
            Some(v) => v,
            None => 0,
        },
    }
}

pub fn parse_meta_version(value: Option<&str>) -> (r: i64)
    ensures
        r as int == spec_meta_version(
            match value {
                Some(s) => Some(s@),
                None => None,
            },
        ),
{
    match value {
        None => 0,
        Some(s) => match crate::text::parse_i64_dec(s) {
            Some(v) => v,
            None => 0,
        },
    }
}

/// The column names of a sequence of columns.
pub open spec fn spec_col_views(cols: Seq<String>) -> Seq<Seq<char>> {
    Seq::new(cols.len(), |i: int| cols[i]@)
}

pub open spec fn spec_has_col(cols: Seq<Seq<char>>, name: Seq<char>) -> bool {
    exists|i: int| 0 <= i < cols.len() && cols[i] == name
}

/// Which column carries the secure flag: the historical rename made it
/// `is_secure` where present, `secure` before.
pub open spec fn spec_secure_column(cols: Seq<Seq<char>>) -> Seq<char> {
    if spec_has_col(cols, "is_secure"@) {
        "is_secure"@
    } else {
        "secure"@
    }
}

/// Which column carries the http-only flag, if any: `is_httponly`, then
/// `httponly`; a table with neither defaults the flag to zero.
pub open spec fn spec_httponly_column(cols: Seq<Seq<char>>) -> Option<Seq<char>> {
    if spec_has_col(cols, "is_httponly"@) {
        Some("is_httponly"@)
    } else if spec_has_col(cols, "httponly"@) {
        Some("httponly"@)
    } else {
        None
    }
}

fn has_column(columns: &Vec<String>, name: &str) -> (r: bool)
    ensures
        r == spec_has_col(spec_col_views(columns@), name@),
{
    let len: usize = columns.len();
    let mut i: usize = 0;
    while i < len
        invariant
            i <= len,
            len == columns@.len(),
            forall|k: int| 0 <= k < i ==> spec_col_views(columns@)[k] != name@,
        decreases len - i,
    {
        if str_eq(columns[i].as_str(), name) {
            proof {
                assert(spec_col_views(columns@)[i as int] == name@);
            }
            return true;
        }
        i = i + 1;
    }
    false
}

/// Picks the secure and http-only column names from the actual column set
/// of the `cookies` table.
pub fn choose_cookie_columns(columns: &Vec<String>) -> (r: (String, Option<String>))
    ensures
        r.0@ == spec_secure_column(spec_col_views(columns@)),
        crate::config::ov(r.1) == spec_httponly_column(spec_col_views(columns@)),
{
    let secure = if has_column(columns, "is_secure") {
        "is_secure".to_owned()
    } else {
        "secure".to_owned()
    };
    let httponly = if has_column(columns, "is_httponly") {
        Some("is_httponly".to_owned())
    } else if has_column(columns, "httponly") {
        Some("httponly".to_owned())
    } else {
        None
    };
    (secure, httponly)
}

// ---------------------------------------------------------------------------
// The Windows master key
// ---------------------------------------------------------------------------

/// The `DPAPI` marker in front of the wrapped `Local State` key.
pub open spec fn spec_dpapi_prefix() -> Seq<u8> {
    seq![68u8, 80u8, 65u8, 80u8, 73u8]
}

/// The DPAPI blob behind a base64 `os_crypt.encrypted_key` value: the
/// decoded bytes after the `DPAPI` marker, `None` when the base64 or the
/// marker is wrong.
pub open spec fn spec_decode_encrypted_key(s: Seq<char>) -> Option<Seq<u8>> {
    match crate::crypto::spec_base64_std_decode(s) {
        None => None,
        Some(b) => if b.len() >= 5 && b.take(5) == spec_dpapi_prefix() {
            Some(b.skip(5))
        } else {
            None
        },
    }
}

/// Decodes the base64 `os_crypt.encrypted_key` value of `Local State` and
/// strips the `DPAPI` marker; the application unwraps what remains.
pub fn decode_encrypted_key(encoded: &str) -> (r: Option<Vec<u8>>)
    ensures
        match r {
            Some(b) => spec_decode_encrypted_key(encoded@) == Some(b@),
            None => spec_decode_encrypted_key(encoded@) is None,
        },
{
    let bytes = match crate::crypto::base64_std_decode(encoded) {
        Some(b) => b,
        None => {
            return None;
        },
    };
    let len: usize = bytes.len();
    if len < 5 {
        proof {
            assert(!(bytes@.len() >= 5));
        }
        return None;
    }
    let b = bytes.as_slice();
    if b[0] == 68 && b[1] == 80 && b[2] == 65 && b[3] == 80 && b[4] == 73 {
        proof {
            assert(bytes@.take(5) =~= spec_dpapi_prefix());
            assert(bytes@.subrange(5, bytes@.len() as int) =~= bytes@.skip(5));
        }
        Some(vstd::slice::slice_to_vec(&b[5..len]))
    } else {
        proof {
            if bytes@.take(5) == spec_dpapi_prefix() {
                assert(bytes@.take(5)[0] == 68);
                assert(bytes@.take(5)[1] == 80);
                assert(bytes@.take(5)[2] == 65);
                assert(bytes@.take(5)[3] == 80);
                assert(bytes@.take(5)[4] == 73);
            }
        }
        None
    }
}

} // verus!
