//! Trusted wrappers around the cryptographic and encoding crates the cookie
//! decryptors call.  Each result is a function of the wrapper's arguments
//! alone, so it carries a name that the callers' contracts build on; nothing
//! more is claimed of the ciphers than the crates' interfaces promise.

use vstd::prelude::*;
use base64::Engine;
use cbc::cipher::block_padding::Pkcs7;
use cbc::cipher::{BlockModeDecrypt, KeyIvInit};

verus! {

/// The 16 bytes PBKDF2-HMAC-SHA1 derives from a password, salt and
/// iteration count.
pub uninterp spec fn spec_pbkdf2_sha1_16(password: Seq<u8>, salt: Seq<u8>, iterations: u32) -> Seq<
    u8,
>;

/// Relies on `pbkdf2::pbkdf2_hmac` over SHA-1: fills the requested 16
/// output bytes from password, salt and iteration count alone.
#[verifier::external_body]
pub(crate) fn pbkdf2_sha1_16(password: &[u8], salt: &[u8], iterations: u32) -> (r: Vec<u8>)
    ensures
        r@ == spec_pbkdf2_sha1_16(password@, salt@, iterations),
        r@.len() == 16,
{
    let mut key = [0u8; 16];
    pbkdf2::pbkdf2_hmac::<sha1::Sha1>(password, salt, iterations, &mut key);
    key.to_vec()
}

/// The PKCS7-unpadded AES-128-CBC plaintext of a ciphertext under a key and
/// IV; `None` where the input length or the padding is invalid.
pub uninterp spec fn spec_aes128_cbc_decrypt(key: Seq<u8>, iv: Seq<u8>, ciphertext: Seq<u8>) -> Option<
    Seq<u8>,
>;

/// Relies on `cbc::Decryptor::<aes::Aes128>` with PKCS7 unpadding: the
/// plaintext, or the length/padding failure, depends on key, IV and
/// ciphertext alone.
#[verifier::external_body]
pub(crate) fn aes128_cbc_decrypt(key: &[u8], iv: &[u8], ciphertext: &[u8]) -> (r: Option<Vec<u8>>)
    requires
        key@.len() == 16,
        iv@.len() == 16,
    ensures
        r is Some <==> spec_aes128_cbc_decrypt(key@, iv@, ciphertext@) is Some,
        r matches Some(p) ==> spec_aes128_cbc_decrypt(key@, iv@, ciphertext@) == Some(p@),
{
    let decryptor = match cbc::Decryptor::<aes::Aes128>::new_from_slices(key, iv) {
        Ok(d) => d,
        Err(_) => return None,
    };
    decryptor.decrypt_padded_vec::<Pkcs7>(ciphertext).ok()
}

/// The AES-256-GCM plaintext of `[ciphertext || tag]` under a key and
/// nonce; `None` where the tag does not authenticate.
pub uninterp spec fn spec_aes256_gcm_decrypt(key: Seq<u8>, nonce: Seq<u8>, ciphertext: Seq<u8>) -> Option<
    Seq<u8>,
>;

/// Relies on `aes_gcm::Aes256Gcm` through the `aead::Aead` interface: the
/// plaintext, or the authentication failure, depends on key, nonce and
/// ciphertext alone.
#[verifier::external_body]
pub(crate) fn aes256_gcm_decrypt(key: &[u8], nonce: &[u8], ciphertext: &[u8]) -> (r: Option<Vec<u8>>)
    requires
        key@.len() == 32,
        nonce@.len() == 12,
    ensures
        r is Some <==> spec_aes256_gcm_decrypt(key@, nonce@, ciphertext@) is Some,
        r matches Some(p) ==> spec_aes256_gcm_decrypt(key@, nonce@, ciphertext@) == Some(p@),
{
    let cipher = match <aes_gcm::Aes256Gcm as aes_gcm::KeyInit>::new_from_slice(key) {
        Ok(c) => c,
        Err(_) => return None,
    };
    let nonce_array: [u8; 12] = match nonce.try_into() {
        Ok(n) => n,
        Err(_) => return None,
    };
    let nonce = aes_gcm::aead::Nonce::<aes_gcm::Aes256Gcm>::from(nonce_array);
    aes_gcm::aead::Aead::decrypt(&cipher, &nonce, ciphertext).ok()
}

/// The standard (padded) base64 rendering of a byte string.
pub uninterp spec fn spec_base64_std(data: Seq<u8>) -> Seq<char>;

/// Relies on base64's `general_purpose::STANDARD` engine: the rendering
/// depends on the bytes alone.
#[verifier::external_body]
pub(crate) fn base64_std_encode(data: &[u8]) -> (r: String)
    ensures
        r@ == spec_base64_std(data@),
{
    base64::engine::general_purpose::STANDARD.encode(data)
}

/// The bytes a standard-alphabet base64 string decodes to; `None` where the
/// input is not valid padded base64.
pub uninterp spec fn spec_base64_std_decode(s: Seq<char>) -> Option<Seq<u8>>;

/// Relies on base64's `general_purpose::STANDARD` engine: decoding, or its
/// rejection, depends on the input string alone.
#[verifier::external_body]
pub(crate) fn base64_std_decode(s: &str) -> (r: Option<Vec<u8>>)
    ensures
        r is Some <==> spec_base64_std_decode(s@) is Some,
        r matches Some(b) ==> spec_base64_std_decode(s@) == Some(b@),
{
    base64::engine::general_purpose::STANDARD.decode(s).ok()
}

} // verus!
