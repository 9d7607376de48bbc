//! Chromium on macOS encrypts `v10` values with AES-128-GCM under a key
//! derived (PBKDF2-HMAC-SHA1, 1003 iterations, salt `saltysalt`) from a
//! per-browser password kept in the login keychain. The keychain itself is
//! the caller's: it hands the lookup in as a closure, which runs only for a
//! `v10` value.

use vstd::prelude::*;
use vstd::string::StringSliceAdditionalSpecFns;

use super::linux::SALT;
use super::{decrypt_gcm128, gcm128_result, has_tag, pbkdf2_hmac_sha1, pbkdf2_hmac_sha1_spec, refused, starts_with_tag, tag_v10};
use crate::domain::{DomainError, DomainResult};

verus! {

/// The iterations of the macOS key derivation.
pub const ITERATIONS: u32 = 1003;

/// The key derived from a keychain password.
pub open spec fn derive_key_spec(password: Seq<u8>) -> Seq<u8> {
    pbkdf2_hmac_sha1_spec(password, SALT.spec_bytes(), ITERATIONS, 16)
}

/// The key derived from a keychain password.
pub fn derive_key(password: &[u8]) -> (key: Vec<u8>)
    ensures
        key@ == derive_key_spec(password@),
        key@.len() == 16,
{
    pbkdf2_hmac_sha1(password, SALT.as_bytes(), ITERATIONS, 16)
}

/// Decrypts an AES-128-GCM value under `key`.
pub fn decrypt_gcm(key: &[u8], value: &[u8]) -> (r: DomainResult<Vec<u8>>)
    requires
        key@.len() == 16,
    ensures
        gcm128_result(key@, value@, r),
{
    decrypt_gcm128(key, value)
}

/// Decrypts a value under the key of a keychain password.
pub fn decrypt_with_password(value: &[u8], password: &[u8]) -> (r: DomainResult<Vec<u8>>)
    ensures
        gcm128_result(derive_key_spec(password@), value@, r),
{
    let key = derive_key(password);
    decrypt_gcm(key.as_slice(), value)
}

/// The keychain service tried `k`-th (from 0) for the password.
pub open spec fn service_name(k: int) -> Seq<char> {
    if k == 0 {
        "Chrome Safe Storage"@
    } else if k == 1 {
        "Chromium Safe Storage"@
    } else if k == 2 {
        "Brave Safe Storage"@
    } else if k == 3 {
        "Microsoft Edge Safe Storage"@
    } else if k == 4 {
        "Arc Safe Storage"@
    } else if k == 5 {
        "Vivaldi Safe Storage"@
    } else {
        "Opera Safe Storage"@
    }
}

/// The keychain account tried `j`-th (from 0) with each service: `Chrome`,
/// then no account.
pub open spec fn account_name(j: int) -> Seq<char> {
    if j == 0 {
        "Chrome"@
    } else {
        ""@
    }
}

/// The keychain services tried for the password, in order.
pub fn keychain_services() -> (r: Vec<&'static str>)
    ensures
        r@.len() == 7,
        forall|k: int| 0 <= k < 7 ==> (#[trigger] r@[k])@ == service_name(k),
{
    let r = vec![
        "Chrome Safe Storage",
        "Chromium Safe Storage",
        "Brave Safe Storage",
        "Microsoft Edge Safe Storage",
        "Arc Safe Storage",
        "Vivaldi Safe Storage",
        "Opera Safe Storage",
    ];
    assert(r@[0]@ == service_name(0) && r@[1]@ == service_name(1) && r@[2]@ == service_name(2) && r@[3]@
        == service_name(3) && r@[4]@ == service_name(4) && r@[5]@ == service_name(5) && r@[6]@ == service_name(6));
    r
}

/// The keychain accounts tried for each service, in order.
pub fn keychain_accounts() -> (r: Vec<&'static str>)
    ensures
        r@.len() == 2,
        forall|j: int| 0 <= j < 2 ==> (#[trigger] r@[j])@ == account_name(j),
{
    let r = vec!["Chrome", ""];
    assert(r@[0]@ == account_name(0) && r@[1]@ == account_name(1));
    r
}

/// Whether `e` is the error of a failed keychain lookup of `service` with
/// the detail `detail`.
pub open spec fn keychain_failure(e: DomainError, service: Seq<char>, detail: Seq<char>) -> bool {
    e matches DomainError::CookieStoreUnavailable(m) && m@ == "keychain "@ + service + ": "@ + detail
}

/// The error of a failed keychain lookup of `service`.
pub fn keychain_error(service: &str, detail: &str) -> (e: DomainError)
    ensures
        keychain_failure(e, service@, detail@),
{
    DomainError::CookieStoreUnavailable(String::from_str("keychain ").concat(service).concat(": ").concat(detail))
}

/// Whether `lookup` may answer the `k`-th service with the `j`-th account
/// with the password `p`.
pub open spec fn found_at<F: Fn(&str, &str) -> Result<Vec<u8>, String>>(lookup: F, k: int, j: int, p: Vec<u8>) -> bool {
    exists|s: &str, a: &str|
        #[trigger] lookup.ensures((s, a), Ok::<Vec<u8>, String>(p)) && s@ == service_name(k) && a@ == account_name(j)
}

/// Whether `lookup` may fail for the `k`-th service with the `j`-th
/// account.
pub open spec fn failed_at<F: Fn(&str, &str) -> Result<Vec<u8>, String>>(lookup: F, k: int, j: int) -> bool {
    exists|s: &str, a: &str, d: String|
        #[trigger] lookup.ensures((s, a), Err::<Vec<u8>, String>(d)) && s@ == service_name(k) && a@ == account_name(j)
}

/// Whether the step (`k2`, `j2`) of the lookup order (services in order,
/// each with its accounts in order) comes before (`k`, `j`).
pub open spec fn step_before(k2: int, j2: int, k: int, j: int) -> bool {
    0 <= k2 < 7 && 0 <= j2 < 2 && (k2 < k || (k2 == k && j2 < j))
}

/// Looks the browser password up in the keychain through `lookup`
/// (service, account): each service in order, each with the account
/// `Chrome` and then with no account. The first password found is the
/// result, every lookup before it having failed; when none is, every
/// lookup failed and the error names the last service and carries the
/// last lookup's error.
pub fn find_password<F: Fn(&str, &str) -> Result<Vec<u8>, String>>(lookup: &F) -> (r: DomainResult<Vec<u8>>)
    requires
        forall|s: &str, a: &str| lookup.requires((s, a)),
    ensures
        r matches Ok(p) ==> exists|k: int, j: int|
            0 <= k < 7 && 0 <= j < 2 && #[trigger] found_at(*lookup, k, j, p) && forall|k2: int, j2: int|
                step_before(k2, j2, k, j) ==> #[trigger] failed_at(*lookup, k2, j2),
        r matches Err(e) ==> forall|k: int, j: int| 0 <= k < 7 && 0 <= j < 2 ==> #[trigger] failed_at(*lookup, k, j),
        r matches Err(e) ==> exists|s: &str, a: &str, d: String|
            #[trigger] lookup.ensures((s, a), Err::<Vec<u8>, String>(d)) && s@ == "Opera Safe Storage"@ && a@ == ""@
                && keychain_failure(e, s@, d@),
{
    let services = keychain_services();
    let accounts = keychain_accounts();
    let mut last: DomainError = DomainError::NoSessionFound;
    let mut i: usize = 0;
    while i < services.len()
        invariant
            services@.len() == 7,
            forall|k: int| 0 <= k < 7 ==> (#[trigger] services@[k])@ == service_name(k),
            accounts@.len() == 2,
            forall|j: int| 0 <= j < 2 ==> (#[trigger] accounts@[j])@ == account_name(j),
            i <= 7,
            forall|s: &str, a: &str| lookup.requires((s, a)),
            forall|k2: int, j2: int| 0 <= k2 < i && 0 <= j2 < 2 ==> #[trigger] failed_at(*lookup, k2, j2),
            i == 7 ==> exists|s: &str, a: &str, d: String|
                #[trigger] lookup.ensures((s, a), Err::<Vec<u8>, String>(d)) && s@ == "Opera Safe Storage"@ && a@ == ""@
                    && keychain_failure(last, s@, d@),
        decreases 7 - i,
    {
        let service = services[i];
        let account0 = accounts[0];
        proof {
            assert(service@ == service_name(i as int));
            assert(account0@ == account_name(0));
        }
        let first = lookup(service, account0);
        match first {
            Ok(p) => {
                proof {
                    let w = Ok::<Vec<u8>, String>(p);
                    assert(lookup.ensures((service, account0), w));
                    assert(found_at(*lookup, i as int, 0, p));
                    let rr = DomainResult::<Vec<u8>>::Ok(p);
                    assert(Ok::<Vec<u8>, String>(rr->Ok_0) == w);
                    assert forall|k2: int, j2: int| step_before(k2, j2, i as int, 0) implies #[trigger] failed_at(
                        *lookup,
                        k2,
                        j2,
                    ) by {
                        assert(0 <= k2 < i && 0 <= j2 < 2);
                    }
                }
                return Ok(p);
            },
            Err(d0) => {
                proof {
                    let w = Err::<Vec<u8>, String>(d0);
                    assert(lookup.ensures((service, account0), w));
                    assert(failed_at(*lookup, i as int, 0));
                }
            },
        }
        let account1 = accounts[1];
        proof {
            assert(account1@ == account_name(1));
        }
        let second = lookup(service, account1);
        match second {
            Ok(p) => {
                proof {
                    let w = Ok::<Vec<u8>, String>(p);
                    assert(lookup.ensures((service, account1), w));
                    assert(found_at(*lookup, i as int, 1, p));
                    let rr = DomainResult::<Vec<u8>>::Ok(p);
                    assert(Ok::<Vec<u8>, String>(rr->Ok_0) == w);
                    assert forall|k2: int, j2: int| step_before(k2, j2, i as int, 1) implies #[trigger] failed_at(
                        *lookup,
                        k2,
                        j2,
                    ) by {
                        if k2 < i {
                            assert(0 <= k2 < i && 0 <= j2 < 2);
                        }
                    }
                }
                return Ok(p);
            },
            Err(d) => {
                proof {
                    let w = Err::<Vec<u8>, String>(d);
                    assert(lookup.ensures((service, account1), w));
                    assert(failed_at(*lookup, i as int, 1));
                    if i == 6 {
                        assert(service@ == "Opera Safe Storage"@);
                    }
                }
                last = keychain_error(service, d.as_str());
            },
        }
        i = i + 1;
    }
    Err(last)
}

/// Decrypts a Chromium cookie value on macOS. A `v10` value is decrypted
/// under the key of the password that `password` looks up (its failure is
/// the result); anything else is refused without a lookup.
pub fn decrypt_chromium_value<F: FnOnce() -> DomainResult<Vec<u8>>>(value: &[u8], password: F) -> (r:
    DomainResult<Vec<u8>>)
    requires
        password.requires(()),
    ensures
        !has_tag(value@, tag_v10()) ==> refused(r, "unsupported chromium cookie format on macOS"@),
        has_tag(value@, tag_v10()) ==> exists|pw: DomainResult<Vec<u8>>|
            #[trigger] password.ensures((), pw) && match pw {
                Ok(p) => gcm128_result(derive_key_spec(p@), value@, r),
                Err(e) => r == DomainResult::<Vec<u8>>::Err(e),
            },
{
    if starts_with_tag(value, 0x76, 0x31, 0x30) {
        let pw = password();
        match pw {
            Ok(p) => {
                let r = decrypt_with_password(value, p.as_slice());
                proof {
                    let w = DomainResult::<Vec<u8>>::Ok(p);
                    assert(password.ensures((), w));
                }
                r
            },
            Err(e) => {
                proof {
                    let w = DomainResult::<Vec<u8>>::Err(e);
                    assert(password.ensures((), w));
                }
                Err(e)
            },
        }
    } else {
        Err(DomainError::CookieStoreUnavailable(String::from_str("unsupported chromium cookie format on macOS")))
    }
}

} // verus!
