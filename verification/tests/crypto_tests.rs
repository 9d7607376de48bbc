use aes_gcm::aead::{Aead, KeyInit};
use base64::Engine;
use kagi_session_mcp::adapters::crypto::{chromium_version_prefix, decrypt_chromium_value, linux, macos, windows};
use kagi_session_mcp::domain::DomainError;

fn derive(password: &[u8], rounds: u32) -> [u8; 16] {
    let mut key = [0u8; 16];
    pbkdf2::pbkdf2_hmac::<sha1::Sha1>(password, b"saltysalt", rounds, &mut key);
    key
}

fn seal128(key: &[u8; 16], tag: &[u8], plain: &[u8]) -> Vec<u8> {
    let nonce = [7u8; 12];
    let cipher = aes_gcm::Aes128Gcm::new(aes_gcm::Key::<aes_gcm::Aes128Gcm>::from_slice(key));
    let ct = cipher.encrypt(aes_gcm::Nonce::from_slice(&nonce), plain).unwrap();
    let mut v = tag.to_vec();
    v.extend_from_slice(&nonce);
    v.extend_from_slice(&ct);
    v
}

fn seal256(key: &[u8; 32], tag: &[u8], plain: &[u8]) -> Vec<u8> {
    let nonce = [3u8; 12];
    let cipher = aes_gcm::Aes256Gcm::new(aes_gcm::Key::<aes_gcm::Aes256Gcm>::from_slice(key));
    let ct = cipher.encrypt(aes_gcm::Nonce::from_slice(&nonce), plain).unwrap();
    let mut v = tag.to_vec();
    v.extend_from_slice(&nonce);
    v.extend_from_slice(&ct);
    v
}

fn refused_with(r: Result<Vec<u8>, DomainError>, msg: &str) -> bool {
    matches!(r, Err(DomainError::CookieStoreUnavailable(m)) if m == msg)
}

#[test]
fn version_prefix() {
    assert_eq!(chromium_version_prefix(b"v10abc").as_deref(), Some("v10"));
    assert_eq!(chromium_version_prefix(b"v2").as_deref(), None);
    assert_eq!(chromium_version_prefix(&[0xff, 0xfe, 0x41, 0x42]).as_deref(), None);
}

#[test]
fn linux_v10_round_trip() {
    let key = derive(b"peanuts", 1);
    let v = seal128(&key, b"v10", b"session-value");
    assert_eq!(linux::decrypt_chromium_value(&v).unwrap(), b"session-value".to_vec());
}

#[test]
fn linux_rejects_tampered_value() {
    let key = derive(b"peanuts", 1);
    let mut v = seal128(&key, b"v10", b"session-value");
    let last = v.len() - 1;
    v[last] ^= 1;
    assert!(refused_with(linux::decrypt_chromium_value(&v), "aes-gcm: aead::Error"));
}

#[test]
fn linux_rejects_short_value() {
    assert!(refused_with(linux::decrypt_chromium_value(b"v10short"), "encrypted value too short"));
}

#[test]
fn linux_v11_and_unknown() {
    assert!(refused_with(
        linux::decrypt_chromium_value(b"v11aaaaaaaaaaaaaaaaaaaaaaaaaaaaaaaaaaaa"),
        "linux v11 requires libsecret (gnome-keyring/kwallet); use a Session Link instead"
    ));
    assert!(refused_with(linux::decrypt_chromium_value(b"xyz"), "unknown chromium cookie format"));
}

#[test]
fn unsupported_platform() {
    assert!(refused_with(decrypt_chromium_value(b"v10"), "unsupported platform for chromium cookie decryption"));
}

#[test]
fn macos_round_trip_with_keychain_password() {
    let key = derive(b"keychain-secret", 1003);
    assert_eq!(macos::derive_key(b"keychain-secret"), key.to_vec());
    let v = seal128(&key, b"v10", b"mac-value");
    let r = macos::decrypt_chromium_value(&v, || Ok(b"keychain-secret".to_vec()));
    assert_eq!(r.unwrap(), b"mac-value".to_vec());
}

#[test]
fn macos_skips_keychain_for_other_formats() {
    let r = macos::decrypt_chromium_value(b"v20whatever", || -> Result<Vec<u8>, DomainError> {
        panic!("keychain must not be asked")
    });
    assert!(refused_with(r, "unsupported chromium cookie format on macOS"));
}

#[test]
fn macos_keychain_failure_is_the_result() {
    let r = macos::decrypt_chromium_value(b"v10aaaaaaaaaaaaaaaaaaaaaaaaaaaaaaaa", || {
        Err(DomainError::CookieStoreUnavailable("keychain Opera Safe Storage: denied".to_string()))
    });
    assert!(refused_with(r, "keychain Opera Safe Storage: denied"));
}

#[test]
fn keychain_search_order() {
    let found = macos::find_password(&|s: &str, a: &str| {
        if s == "Brave Safe Storage" && a.is_empty() {
            Ok(b"brave".to_vec())
        } else {
            Err("not found".to_string())
        }
    });
    assert_eq!(found.unwrap(), b"brave".to_vec());
    let missing = macos::find_password(&|_: &str, _: &str| Err("nope".to_string()));
    assert!(matches!(missing, Err(DomainError::CookieStoreUnavailable(m)) if m == "keychain Opera Safe Storage: nope"));
    assert_eq!(macos::keychain_services()[0], "Chrome Safe Storage");
    assert_eq!(macos::keychain_accounts(), vec!["Chrome", ""]);
}

#[test]
fn keychain_lookups_follow_the_order() {
    let log = std::cell::RefCell::new(Vec::<(String, String)>::new());
    let r = macos::find_password(&|s: &str, a: &str| {
        log.borrow_mut().push((s.to_string(), a.to_string()));
        Err("missing".to_string())
    });
    assert!(matches!(r, Err(DomainError::CookieStoreUnavailable(m)) if m == "keychain Opera Safe Storage: missing"));
    let services = [
        "Chrome Safe Storage",
        "Chromium Safe Storage",
        "Brave Safe Storage",
        "Microsoft Edge Safe Storage",
        "Arc Safe Storage",
        "Vivaldi Safe Storage",
        "Opera Safe Storage",
    ];
    let expected: Vec<(String, String)> = services
        .iter()
        .flat_map(|s| [(s.to_string(), "Chrome".to_string()), (s.to_string(), String::new())])
        .collect();
    assert_eq!(*log.borrow(), expected);

    let log = std::cell::RefCell::new(Vec::<(String, String)>::new());
    let r = macos::find_password(&|s: &str, a: &str| {
        log.borrow_mut().push((s.to_string(), a.to_string()));
        if s == "Chrome Safe Storage" && a == "Chrome" { Ok(b"chrome".to_vec()) } else { Err("x".to_string()) }
    });
    assert_eq!(r.unwrap(), b"chrome".to_vec());
    assert_eq!(log.borrow().len(), 1);
}

#[test]
fn windows_master_key_blob() {
    let mut wrapped = b"DPAPI".to_vec();
    wrapped.extend_from_slice(&[1, 2, 3, 4]);
    let b64 = base64::engine::general_purpose::STANDARD.encode(&wrapped);
    let text = format!("{{\"os_crypt\":{{\"encrypted_key\":\"{b64}\"}}}}");
    assert_eq!(windows::master_key_blob(&text).unwrap(), vec![1, 2, 3, 4]);
}

#[test]
fn windows_master_key_errors() {
    assert!(matches!(windows::master_key_blob("not json"),
        Err(DomainError::CookieStoreUnavailable(m)) if m.starts_with("parse Local State: ")));
    assert!(refused_with(windows::master_key_blob("{\"os_crypt\":{}}"), "os_crypt.encrypted_key missing"));
    assert!(matches!(windows::master_key_blob("{\"os_crypt\":{\"encrypted_key\":\"!!!\"}}"),
        Err(DomainError::CookieStoreUnavailable(m)) if m.starts_with("base64 decode key: ")));
    let b64 = base64::engine::general_purpose::STANDARD.encode(b"XXXXXabc");
    let text = format!("{{\"os_crypt\":{{\"encrypted_key\":\"{b64}\"}}}}");
    assert!(refused_with(windows::master_key_blob(&text), "master key missing DPAPI prefix"));
}

#[test]
fn windows_v10_with_master_key() {
    let key = [9u8; 32];
    let v = seal256(&key, b"v11", b"win-value");
    let r = windows::decrypt_chromium_value(&v, || Ok(key.to_vec()), |_: &[u8]| -> Result<Vec<u8>, DomainError> {
        panic!("dpapi must not be asked")
    });
    assert_eq!(r.unwrap(), b"win-value".to_vec());
    let mut bad = v.clone();
    bad[20] ^= 0xff;
    let r = windows::decrypt_with_master_key(&bad, &key);
    assert!(refused_with(r, "aes-gcm decrypt: aead::Error"));
}

#[test]
fn windows_v20_is_blocked() {
    let r = windows::decrypt_chromium_value(
        b"v20abc",
        || -> Result<Vec<u8>, DomainError> { panic!("no key read") },
        |_: &[u8]| -> Result<Vec<u8>, DomainError> { panic!("no dpapi") },
    );
    assert!(matches!(r, Err(DomainError::CookieDecryptionBlocked)));
}

#[test]
fn windows_legacy_goes_to_dpapi() {
    let r = windows::decrypt_chromium_value(
        b"\x01\x00\x00\x00legacy",
        || -> Result<Vec<u8>, DomainError> { panic!("no key read") },
        |b: &[u8]| Ok(b[4..].to_vec()),
    );
    assert_eq!(r.unwrap(), b"legacy".to_vec());
}
