//! Chromium on Linux with `--password-store=basic` encrypts `v10` values
//! with AES-128-GCM under a key derived from the fixed password `peanuts`.
//! `v11` values need the desktop keyring (libsecret), which is not
//! supported: the user provides a Session Link instead.

use vstd::prelude::*;
use vstd::string::StringSliceAdditionalSpecFns;

use super::{refused, decrypt_gcm128, gcm128_result, has_tag, pbkdf2_hmac_sha1, pbkdf2_hmac_sha1_spec, starts_with_tag, tag_v10, tag_v11};
use crate::domain::{DomainError, DomainResult};

verus! {

/// The password of the basic password store.
pub const PASSWORD: &'static str = "peanuts";

/// The salt of Chromium's key derivation.
pub const SALT: &'static str = "saltysalt";

/// The key of `v10` values: PBKDF2-HMAC-SHA1 of the password, one
/// iteration, 16 bytes.
pub open spec fn linux_key() -> Seq<u8> {
    pbkdf2_hmac_sha1_spec(PASSWORD.spec_bytes(), SALT.spec_bytes(), 1, 16)
}

/// Decrypts a `v10` value under a key derived from `password`.
pub fn decrypt_with_password(value: &[u8], password: &[u8]) -> (r: DomainResult<Vec<u8>>)
    ensures
        gcm128_result(pbkdf2_hmac_sha1_spec(password@, SALT.spec_bytes(), 1, 16), value@, r),
{
    let key = pbkdf2_hmac_sha1(password, SALT.as_bytes(), 1, 16);
    decrypt_gcm128(key.as_slice(), value)
}

/// Decrypts a Chromium cookie value on Linux: `v10` with the basic
/// store's key; `v11` and anything else are refused.
pub fn decrypt_chromium_value(value: &[u8]) -> (r: DomainResult<Vec<u8>>)
    ensures
        has_tag(value@, tag_v10()) ==> gcm128_result(linux_key(), value@, r),
        has_tag(value@, tag_v11()) ==> refused(
            r,
            "linux v11 requires libsecret (gnome-keyring/kwallet); use a Session Link instead"@,
        ),
        !has_tag(value@, tag_v10()) && !has_tag(value@, tag_v11()) ==> refused(r, "unknown chromium cookie format"@),
{
    if starts_with_tag(value, 0x76, 0x31, 0x30) {
        decrypt_with_password(value, PASSWORD.as_bytes())
    } else if starts_with_tag(value, 0x76, 0x31, 0x31) {
        Err(
            DomainError::CookieStoreUnavailable(
                String::from_str("linux v11 requires libsecret (gnome-keyring/kwallet); use a Session Link instead"),
            ),
        )
    } else {
        Err(DomainError::CookieStoreUnavailable(String::from_str("unknown chromium cookie format")))
    }
}

} // verus!
