//! Decryption of Chromium cookie values.
//!
//! An encrypted value starts with a three-byte version tag (`v10`, `v11`,
//! `v20`). The AES-GCM formats follow the tag with a 12-byte nonce and the
//! ciphertext with its 16-byte tag. Each platform derives the key its own
//! way; the primitives come from `pbkdf2`, `sha1` and `aes-gcm`.

pub mod linux;
pub mod macos;
pub mod windows;

use aes_gcm::aead::{Aead, KeyInit};
use vstd::prelude::*;

use crate::domain::model::opt_view;
use crate::domain::{DomainError, DomainResult};
use crate::text::string_from_utf8;

verus! {

/// The version tag of an encrypted value: its first three bytes as text,
/// when there are three and they are valid UTF-8.
pub open spec fn version_prefix_spec(v: Seq<u8>) -> Option<Seq<char>> {
    if v.len() < 3 {
        None
    } else if vstd::utf8::valid_utf8(v.take(3)) {
        Some(vstd::utf8::decode_utf8(v.take(3)))
    } else {
        None
    }
}

/// The version tag of an encrypted value.
pub fn chromium_version_prefix(value: &[u8]) -> (r: Option<String>)
    ensures
        opt_view(r) == version_prefix_spec(value@),
{
    if value.len() < 3 {
        return None;
    }
    let head = vstd::slice::slice_subrange(value, 0, 3);
    proof {
        assert(head@ =~= value@.take(3));
    }
    match string_from_utf8(head) {
        Ok(s) => Some(s),
        Err(_) => None,
    }
}

/// The bytes of the tag `v10`.
pub open spec fn tag_v10() -> Seq<u8> {
    seq![0x76u8, 0x31u8, 0x30u8]
}

/// The bytes of the tag `v11`.
pub open spec fn tag_v11() -> Seq<u8> {
    seq![0x76u8, 0x31u8, 0x31u8]
}

/// The bytes of the tag `v20`.
pub open spec fn tag_v20() -> Seq<u8> {
    seq![0x76u8, 0x32u8, 0x30u8]
}

/// Whether the value starts with the three-byte tag `t`.
pub open spec fn has_tag(v: Seq<u8>, t: Seq<u8>) -> bool {
    v.len() >= 3 && v.take(3) == t
}

/// Whether the value starts with the tag `a`, `b`, `c` (as bytes).
pub fn starts_with_tag(value: &[u8], a: u8, b: u8, c: u8) -> (r: bool)
    ensures
        r == has_tag(value@, seq![a, b, c]),
{
    if value.len() < 3 {
        return false;
    }
    let r = value[0] == a && value[1] == b && value[2] == c;
    proof {
        if r {
            assert(value@.take(3) =~= seq![a, b, c]);
        } else {
            if value@.take(3) == seq![a, b, c] {
                assert(value@.take(3)[0] == a);
                assert(value@.take(3)[1] == b);
                assert(value@.take(3)[2] == c);
            }
        }
    }
    r
}

/// Whether `r` refuses the value as an unreadable cookie store, with the
/// message `msg`.
pub open spec fn refused(r: DomainResult<Vec<u8>>, msg: Seq<char>) -> bool {
    r matches Err(DomainError::CookieStoreUnavailable(m)) && m@ == msg
}

/// The shortest AES-GCM value: tag, nonce and authentication tag.
pub const MIN_GCM_LEN: usize = 31;

/// The nonce of an AES-GCM value: the twelve bytes after the tag.
pub open spec fn gcm_nonce(v: Seq<u8>) -> Seq<u8> {
    v.subrange(3, 15)
}

/// The ciphertext of an AES-GCM value: everything after the nonce.
pub open spec fn gcm_ciphertext(v: Seq<u8>) -> Seq<u8> {
    v.subrange(15, v.len() as int)
}

/// The result of PBKDF2-HMAC-SHA1 with `rounds` iterations, `len` bytes
/// long.
pub uninterp spec fn pbkdf2_hmac_sha1_spec(password: Seq<u8>, salt: Seq<u8>, rounds: u32, len: nat) -> Seq<u8>;

/// `pbkdf2::pbkdf2_hmac::<sha1::Sha1>` into a buffer of `len` bytes. The
/// crate fills the whole buffer and does not fail for HMAC keys of any
/// length.
#[verifier::external_body]
pub(crate) fn pbkdf2_hmac_sha1(password: &[u8], salt: &[u8], rounds: u32, len: usize) -> (key: Vec<u8>)
    ensures
        key@ == pbkdf2_hmac_sha1_spec(password@, salt@, rounds, len as nat),
        key@.len() == len,
{
    let mut key = vec![0u8; len];
    pbkdf2::pbkdf2_hmac::<sha1::Sha1>(password, salt, rounds, &mut key);
    key
}

/// The plaintext of AES-128-GCM ciphertext (with its tag appended) under
/// `key` and `nonce`, `None` when it does not authenticate.
pub uninterp spec fn aes128_gcm_open_spec(key: Seq<u8>, nonce: Seq<u8>, ct: Seq<u8>) -> Option<Seq<u8>>;

/// The plaintext of AES-256-GCM ciphertext (with its tag appended) under
/// `key` and `nonce`, `None` when it does not authenticate.
pub uninterp spec fn aes256_gcm_open_spec(key: Seq<u8>, nonce: Seq<u8>, ct: Seq<u8>) -> Option<Seq<u8>>;

/// `Aead::decrypt` of `aes_gcm::Aes128Gcm`. The key and nonce lengths are
/// required because `from_slice` panics on any other length. A failure is
/// `aead::Error`, which displays as `aead::Error`.
#[verifier::external_body]
pub(crate) fn aes128_gcm_decrypt(key: &[u8], nonce: &[u8], ct: &[u8]) -> (r: Result<Vec<u8>, String>)
    requires
        key@.len() == 16,
        nonce@.len() == 12,
    ensures
        r is Ok <==> aes128_gcm_open_spec(key@, nonce@, ct@) is Some,
        r matches Ok(p) ==> aes128_gcm_open_spec(key@, nonce@, ct@) == Some(p@),
        r matches Err(e) ==> e@ == "aead::Error"@,
{
    let cipher = aes_gcm::Aes128Gcm::new(aes_gcm::Key::<aes_gcm::Aes128Gcm>::from_slice(key));
    cipher.decrypt(aes_gcm::Nonce::from_slice(nonce), ct).map_err(|e| e.to_string())
}

/// `Aead::decrypt` of `aes_gcm::Aes256Gcm`. The key and nonce lengths are
/// required because `from_slice` panics on any other length. A failure is
/// `aead::Error`, which displays as `aead::Error`.
#[verifier::external_body]
pub(crate) fn aes256_gcm_decrypt(key: &[u8], nonce: &[u8], ct: &[u8]) -> (r: Result<Vec<u8>, String>)
    requires
        key@.len() == 32,
        nonce@.len() == 12,
    ensures
        r is Ok <==> aes256_gcm_open_spec(key@, nonce@, ct@) is Some,
        r matches Ok(p) ==> aes256_gcm_open_spec(key@, nonce@, ct@) == Some(p@),
        r matches Err(e) ==> e@ == "aead::Error"@,
{
    let cipher = aes_gcm::Aes256Gcm::new(aes_gcm::Key::<aes_gcm::Aes256Gcm>::from_slice(key));
    cipher.decrypt(aes_gcm::Nonce::from_slice(nonce), ct).map_err(|e| e.to_string())
}

/// What decrypting an AES-GCM value under a 16-byte key gives: a value
/// too short to hold nonce and tag is refused; a value that does not
/// authenticate is refused with the cipher's error.
pub open spec fn gcm128_result(key: Seq<u8>, v: Seq<u8>, r: DomainResult<Vec<u8>>) -> bool {
    if v.len() < MIN_GCM_LEN {
        refused(r, "encrypted value too short"@)
    } else {
        match aes128_gcm_open_spec(key, gcm_nonce(v), gcm_ciphertext(v)) {
            Some(p) => r matches Ok(b) && b@ == p,
            None => refused(r, "aes-gcm: aead::Error"@),
        }
    }
}

/// Decrypts an AES-128-GCM value under `key`.
pub fn decrypt_gcm128(key: &[u8], value: &[u8]) -> (r: DomainResult<Vec<u8>>)
    requires
        key@.len() == 16,
    ensures
        gcm128_result(key@, value@, r),
{
    if value.len() < MIN_GCM_LEN {
        return Err(DomainError::CookieStoreUnavailable(String::from_str("encrypted value too short")));
    }
    let nonce = vstd::slice::slice_subrange(value, 3, 15);
    let ct = vstd::slice::slice_subrange(value, 15, value.len());
    match aes128_gcm_decrypt(key, nonce, ct) {
        Ok(p) => Ok(p),
        Err(e) => {
            proof {
                reveal_strlit("aes-gcm: ");
                reveal_strlit("aead::Error");
                reveal_strlit("aes-gcm: aead::Error");
                assert("aes-gcm: "@ + "aead::Error"@ =~= "aes-gcm: aead::Error"@);
            }
            Err(DomainError::CookieStoreUnavailable(String::from_str("aes-gcm: ").concat(e.as_str())))
        },
    }
}

/// What decrypting a value gives on a platform without a supported
/// Chromium cookie scheme.
pub open spec fn unsupported_result(r: DomainResult<Vec<u8>>) -> bool {
    refused(r, "unsupported platform for chromium cookie decryption"@)
}

/// Decryption on a platform without a supported Chromium cookie scheme:
/// always refused.
pub fn decrypt_chromium_value(value: &[u8]) -> (r: DomainResult<Vec<u8>>)
    ensures
        unsupported_result(r),
{
    Err(DomainError::CookieStoreUnavailable(String::from_str("unsupported platform for chromium cookie decryption")))
}

} // verus!
