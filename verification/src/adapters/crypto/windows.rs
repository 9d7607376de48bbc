//! Chromium on Windows encrypts `v10`/`v11` values with AES-256-GCM under
//! a master key kept, wrapped by DPAPI, in the `Local State` file of the
//! user-data directory; `v20` values use App-Bound Encryption, which only
//! the browser's own elevation service can unwrap; older values are DPAPI
//! blobs themselves. Reading `Local State` and calling DPAPI belong to the
//! caller, which hands them in as closures that run only when needed.

use base64::Engine;
use vstd::prelude::*;

use super::{aes256_gcm_decrypt, aes256_gcm_open_spec, gcm_ciphertext, gcm_nonce, has_tag, refused, starts_with_tag, tag_v10, tag_v11, tag_v20, MIN_GCM_LEN};
use crate::domain::{DomainError, DomainResult};

verus! {

/// What `serde_json` finds in `text` at the JSON pointer `pointer`: `None`
/// when `text` is not JSON; otherwise the string there, if a string is
/// there.
pub uninterp spec fn json_str_at_spec(text: Seq<char>, pointer: Seq<char>) -> Option<Option<Seq<char>>>;

/// `serde_json::from_str::<Value>`, then `Value::pointer` and
/// `Value::as_str` on what it finds. The error text is `serde_json`'s
/// description of the parse error; it is not stated here.
#[verifier::external_body]
pub(crate) fn json_str_at(text: &str, pointer: &str) -> (r: Result<Option<String>, String>)
    ensures
        r is Err <==> json_str_at_spec(text@, pointer@) is None,
        r matches Ok(Some(s)) ==> json_str_at_spec(text@, pointer@) == Some(Some(s@)),
        r matches Ok(None) ==> json_str_at_spec(text@, pointer@) == Some(None::<Seq<char>>),
{
    let v: serde_json::Value = serde_json::from_str(text).map_err(|e| e.to_string())?;
    Ok(v.pointer(pointer).and_then(|x| x.as_str()).map(|s| s.to_string()))
}

/// The bytes of standard (padded) base64 text, `None` when it is not valid
/// base64.
pub uninterp spec fn base64_decode_spec(text: Seq<char>) -> Option<Seq<u8>>;

/// `base64::engine::general_purpose::STANDARD.decode`. The error text is
/// `base64`'s description of the first bad symbol or length; it is not
/// stated here.
#[verifier::external_body]
pub(crate) fn base64_decode(text: &str) -> (r: Result<Vec<u8>, String>)
    ensures
        r is Err <==> base64_decode_spec(text@) is None,
        r matches Ok(b) ==> base64_decode_spec(text@) == Some(b@),
{
    base64::engine::general_purpose::STANDARD.decode(text).map_err(|e| e.to_string())
}

/// The prefix of a DPAPI-wrapped master key.
pub open spec fn dpapi_prefix() -> Seq<u8> {
    seq![0x44u8, 0x50u8, 0x41u8, 0x50u8, 0x49u8]
}

/// What reading the master key out of `Local State` gives: the DPAPI blob
/// that follows the `DPAPI` prefix of the base64 text at
/// `/os_crypt/encrypted_key`; or the step that failed.
pub open spec fn master_key_blob_spec(text: Seq<char>, r: DomainResult<Vec<u8>>) -> bool {
    match json_str_at_spec(text, "/os_crypt/encrypted_key"@) {
        None => r matches Err(DomainError::CookieStoreUnavailable(m)) && m@.take(19) == "parse Local State: "@,
        Some(None) => refused(r, "os_crypt.encrypted_key missing"@),
        Some(Some(b64)) => match base64_decode_spec(b64) {
            None => r matches Err(DomainError::CookieStoreUnavailable(m)) && m@.take(19) == "base64 decode key: "@,
            Some(w) => if w.len() >= 5 && w.take(5) == dpapi_prefix() {
                r matches Ok(blob) && blob@ == w.skip(5)
            } else {
                refused(r, "master key missing DPAPI prefix"@)
            },
        },
    }
}

/// The DPAPI blob of the master key, read from the text of `Local State`.
pub fn master_key_blob(local_state: &str) -> (r: DomainResult<Vec<u8>>)
    ensures
        master_key_blob_spec(local_state@, r),
{
    let found = match json_str_at(local_state, "/os_crypt/encrypted_key") {
        Ok(f) => f,
        Err(e) => {
            proof {
                reveal_strlit("parse Local State: ");
            }
            let m = String::from_str("parse Local State: ").concat(e.as_str());
            proof {
                assert(m@.take(19) =~= "parse Local State: "@);
            }
            return Err(DomainError::CookieStoreUnavailable(m));
        },
    };
    let b64 = match found {
        Some(s) => s,
        None => {
            return Err(DomainError::CookieStoreUnavailable(String::from_str("os_crypt.encrypted_key missing")));
        },
    };
    let wrapped = match base64_decode(b64.as_str()) {
        Ok(w) => w,
        Err(e) => {
            proof {
                reveal_strlit("base64 decode key: ");
            }
            let m = String::from_str("base64 decode key: ").concat(e.as_str());
            proof {
                assert(m@.take(19) =~= "base64 decode key: "@);
            }
            return Err(DomainError::CookieStoreUnavailable(m));
        },
    };
    let has_prefix = wrapped.len() >= 5 && wrapped[0] == 0x44 && wrapped[1] == 0x50 && wrapped[2] == 0x41
        && wrapped[3] == 0x50 && wrapped[4] == 0x49;
    proof {
        if has_prefix {
            assert(wrapped@.take(5) =~= dpapi_prefix());
        } else if wrapped@.len() >= 5 && wrapped@.take(5) == dpapi_prefix() {
            assert(wrapped@.take(5)[0] == 0x44u8);
            assert(wrapped@.take(5)[1] == 0x50u8);
            assert(wrapped@.take(5)[2] == 0x41u8);
            assert(wrapped@.take(5)[3] == 0x50u8);
            assert(wrapped@.take(5)[4] == 0x49u8);
        }
    }
    if !has_prefix {
        return Err(DomainError::CookieStoreUnavailable(String::from_str("master key missing DPAPI prefix")));
    }
    let blob = vstd::slice::slice_to_vec(vstd::slice::slice_subrange(wrapped.as_slice(), 5, wrapped.len()));
    proof {
        assert(blob@ =~= wrapped@.skip(5));
    }
    Ok(blob)
}

/// What decrypting an AES-256-GCM value under the master key gives: a
/// value too short to hold nonce and tag is refused; a value that does not
/// authenticate is refused with the cipher's error.
pub open spec fn gcm256_result(key: Seq<u8>, v: Seq<u8>, r: DomainResult<Vec<u8>>) -> bool {
    if v.len() < MIN_GCM_LEN {
        refused(r, "encrypted value too short"@)
    } else {
        match aes256_gcm_open_spec(key, gcm_nonce(v), gcm_ciphertext(v)) {
            Some(p) => r matches Ok(b) && b@ == p,
            None => refused(r, "aes-gcm decrypt: aead::Error"@),
        }
    }
}

/// Decrypts a `v10`/`v11` value under the 32-byte master key.
pub fn decrypt_with_master_key(value: &[u8], key: &[u8]) -> (r: DomainResult<Vec<u8>>)
    requires
        key@.len() == 32,
    ensures
        gcm256_result(key@, value@, r),
{
    if value.len() < MIN_GCM_LEN {
        return Err(DomainError::CookieStoreUnavailable(String::from_str("encrypted value too short")));
    }
    let nonce = vstd::slice::slice_subrange(value, 3, 15);
    let ct = vstd::slice::slice_subrange(value, 15, value.len());
    match aes256_gcm_decrypt(key, nonce, ct) {
        Ok(p) => Ok(p),
        Err(e) => {
            proof {
                reveal_strlit("aes-gcm decrypt: ");
                reveal_strlit("aead::Error");
                reveal_strlit("aes-gcm decrypt: aead::Error");
                assert("aes-gcm decrypt: "@ + "aead::Error"@ =~= "aes-gcm decrypt: aead::Error"@);
            }
            Err(DomainError::CookieStoreUnavailable(String::from_str("aes-gcm decrypt: ").concat(e.as_str())))
        },
    }
}

/// Decrypts a Chromium cookie value on Windows. A `v10` or `v11` value is
/// decrypted under the master key that `master_key` reads (its failure is
/// the result); a `v20` value is refused as App-Bound encrypted; anything
/// else is handed to DPAPI through `dpapi`, whose answer is the result.
/// The master key must be 32 bytes long: AES-256 takes no other.
pub fn decrypt_chromium_value<K: FnOnce() -> DomainResult<Vec<u8>>, D: FnOnce(&[u8]) -> DomainResult<Vec<u8>>>(
    value: &[u8],
    master_key: K,
    dpapi: D,
) -> (r: DomainResult<Vec<u8>>)
    requires
        master_key.requires(()),
        forall|k: Vec<u8>| #[trigger] master_key.ensures((), Ok::<Vec<u8>, DomainError>(k)) ==> k@.len() == 32,
        dpapi.requires((value,)),
    ensures
        has_tag(value@, tag_v10()) || has_tag(value@, tag_v11()) ==> exists|k: DomainResult<Vec<u8>>|
            #[trigger] master_key.ensures((), k) && match k {
                Ok(key) => gcm256_result(key@, value@, r),
                Err(e) => r == DomainResult::<Vec<u8>>::Err(e),
            },
        has_tag(value@, tag_v20()) ==> r == DomainResult::<Vec<u8>>::Err(DomainError::CookieDecryptionBlocked),
        !has_tag(value@, tag_v10()) && !has_tag(value@, tag_v11()) && !has_tag(value@, tag_v20()) ==> dpapi.ensures(
            (value,),
            r,
        ),
{
    if starts_with_tag(value, 0x76, 0x31, 0x30) || starts_with_tag(value, 0x76, 0x31, 0x31) {
        let k = master_key();
        match k {
            Ok(key) => {
                let r = decrypt_with_master_key(value, key.as_slice());
                proof {
                    let w = DomainResult::<Vec<u8>>::Ok(key);
                    assert(master_key.ensures((), w));
                }
                r
            },
            Err(e) => {
                proof {
                    let w = DomainResult::<Vec<u8>>::Err(e);
                    assert(master_key.ensures((), w));
                }
                Err(e)
            },
        }
    } else if starts_with_tag(value, 0x76, 0x32, 0x30) {
        Err(DomainError::CookieDecryptionBlocked)
    } else {
        dpapi(value)
    }
}

} // verus!
