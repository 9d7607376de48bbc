use kagi_session_mcp::app::discovery::{
    default_user_agent, manual_override, CacheEntry, CacheLookup, Probe, SessionCache, NEGATIVE_TTL_NANOS,
};
use kagi_session_mcp::domain::{BrowserKind, DomainError, Session, SessionAuth};

fn session(v: &str) -> Session {
    Session {
        auth: SessionAuth::Cookie { name: "kagi_session".to_string(), value: v.to_string() },
        user_agent: "UA".to_string(),
        source: BrowserKind::Firefox,
    }
}

#[test]
fn empty_cache_probes() {
    let c = SessionCache::new();
    assert!(matches!(c.lookup(0), CacheLookup::Miss));
}

#[test]
fn found_session_is_kept_for_good() {
    let mut c = SessionCache::new();
    let r = c.record(Ok(session("v1")), 5);
    assert!(matches!(r, Ok(ref s) if matches!(&s.auth, SessionAuth::Cookie { value, .. } if value == "v1")));
    match c.lookup(u64::MAX) {
        CacheLookup::Hit(s) => assert!(matches!(&s.auth, SessionAuth::Cookie { value, .. } if value == "v1")),
        _ => panic!("expected the kept session"),
    }
}

#[test]
fn failure_is_remembered_for_five_minutes() {
    let mut c = SessionCache::new();
    let r = c.record(Err(DomainError::NoSessionFound), 1_000);
    assert!(matches!(r, Err(DomainError::NoSessionFound)));
    assert!(matches!(c.entry, CacheEntry::Failed { at: 1_000, .. }));
    match c.lookup(1_000 + NEGATIVE_TTL_NANOS - 1) {
        CacheLookup::Refused(e) => {
            assert!(matches!(e, DomainError::NoSessionFound));
            assert_eq!(e.message(), "no kagi session found in any installed browser");
        }
        _ => panic!("expected a refusal"),
    }
    assert!(matches!(c.lookup(1_000 + NEGATIVE_TTL_NANOS), CacheLookup::Miss));
    assert!(matches!(c.lookup(0), CacheLookup::Refused(_)));
}

#[test]
fn remembered_failure_keeps_its_own_error() {
    let mut c = SessionCache::new();
    let _ = c.record(Err(DomainError::CookieStoreUnavailable("database is locked".to_string())), 10);
    match c.lookup(20) {
        CacheLookup::Refused(DomainError::CookieStoreUnavailable(m)) => assert_eq!(m, "database is locked"),
        _ => panic!("expected the same error back"),
    }
    let _ = c.record(Err(DomainError::CookieDecryptionBlocked), 30);
    assert!(matches!(c.lookup(31), CacheLookup::Refused(DomainError::CookieDecryptionBlocked)));
}

#[test]
fn probe_returns_first_session() {
    let mut p = Probe::new();
    assert!(p.on_answer(Ok(None)).is_none());
    assert!(p.on_answer(Err(DomainError::CookieDecryptionBlocked)).is_none());
    let found = p.on_answer(Ok(Some(session("first"))));
    assert!(matches!(found, Some(ref s) if matches!(&s.auth, SessionAuth::Cookie { value, .. } if value == "first")));
}

#[test]
fn probe_reports_last_error() {
    let mut p = Probe::new();
    assert!(p.on_answer(Err(DomainError::CookieDecryptionBlocked)).is_none());
    assert!(p.on_answer(Err(DomainError::CookieStoreUnavailable("locked".to_string()))).is_none());
    assert!(p.on_answer(Ok(None)).is_none());
    assert!(matches!(p.finish(), DomainError::CookieStoreUnavailable(m) if m == "locked"));
}

#[test]
fn probe_without_errors_finds_nothing() {
    let mut p = Probe::new();
    assert!(p.on_answer(Ok(None)).is_none());
    assert!(matches!(p.finish(), DomainError::NoSessionFound));
    assert!(matches!(Probe::new().finish(), DomainError::NoSessionFound));
}

#[test]
fn manual_token_wins() {
    let s = manual_override(&Some("tok".to_string())).expect("manual session");
    assert!(matches!(&s.auth, SessionAuth::UrlToken(t) if t == "tok"));
    assert_eq!(s.source, BrowserKind::Chrome);
    assert_eq!(s.user_agent, default_user_agent());
    assert!(manual_override(&None).is_none());
}

#[test]
fn default_user_agent_is_chrome_131() {
    assert_eq!(
        default_user_agent(),
        "Mozilla/5.0 (Windows NT 10.0; Win64; x64) AppleWebKit/537.36 (KHTML, like Gecko) Chrome/131.0.0.0 Safari/537.36"
    );
}
