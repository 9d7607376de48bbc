use kagi_session_mcp::domain::{BrowserKind, DomainError, KagiVertical, Lens, Session, SessionAuth, Suggestion};
use kagi_session_mcp::mcp::tools::{auth_kind, list_lenses_payload, status_response, suggest_payload, Tool};

fn cookie_session() -> Session {
    Session {
        auth: SessionAuth::Cookie { name: "kagi_session".to_string(), value: "abc".to_string() },
        user_agent: "UA".to_string(),
        source: BrowserKind::Brave,
    }
}

fn suggestion(t: &str) -> Suggestion {
    Suggestion { text: t.to_string(), description: None, image_url: None, source: Some("s".to_string()) }
}

#[test]
fn status_of_found_session() {
    let s = status_response(&Ok(cookie_session()));
    assert!(s.session_found);
    assert_eq!(s.source.as_deref(), Some("brave"));
    assert_eq!(s.auth_kind.as_deref(), Some("cookie"));
    assert!(s.error.is_none());
}

#[test]
fn status_of_failed_discovery() {
    let s = status_response(&Err(DomainError::NoSessionFound));
    assert!(!s.session_found);
    assert!(s.source.is_none());
    assert!(s.auth_kind.is_none());
    assert_eq!(s.error.as_deref(), Some("no kagi session found in any installed browser"));
}

#[test]
fn auth_kind_names() {
    assert_eq!(auth_kind(&SessionAuth::UrlToken("t".to_string())), "url_token");
    assert_eq!(auth_kind(&cookie_session().auth), "cookie");
}

#[test]
fn suggestions_are_cut_to_the_limit() {
    let sug: Vec<Suggestion> = (0..30).map(|i| suggestion(&format!("s{i}"))).collect();
    let p = suggest_payload("pre".to_string(), None, sug.clone());
    assert_eq!(p.count, 10);
    assert_eq!(p.suggestions.len(), 10);
    assert_eq!(p.suggestions[9].text, "s9");
    let p = suggest_payload("pre".to_string(), Some(0), sug.clone());
    assert_eq!(p.count, 0);
    assert!(p.suggestions.is_empty());
    let p = suggest_payload("pre".to_string(), Some(100), sug.clone());
    assert_eq!(p.count, 30);
    assert_eq!(p.suggestions[29].text, "s29");
    let p = suggest_payload("pre".to_string(), Some(3), vec![suggestion("only")]);
    assert_eq!(p.count, 1);
    assert_eq!(p.suggestions[0].text, "only");
    assert_eq!(p.suggestions[0].source.as_deref(), Some("s"));
    assert_eq!(p.query, "pre");
}

#[test]
fn lenses_are_listed_in_order() {
    let lenses = vec![
        Lens { id: 7, name: "Programming".to_string(), description: None, active: true },
        Lens { id: 2, name: "Forums".to_string(), description: Some("d".to_string()), active: false },
    ];
    let p = list_lenses_payload(lenses);
    assert_eq!(p.count, 2);
    assert_eq!(p.lenses[0].id, 7);
    assert!(p.lenses[0].active);
    assert_eq!(p.lenses[1].description.as_deref(), Some("d"));
    assert!(!p.lenses[1].active);
}

#[test]
fn failure_texts() {
    let e = DomainError::NetworkError("timeout".to_string());
    assert_eq!(Tool::Search.failure_text(&e), "kagi search failed: kagi network request failed: timeout");
    assert_eq!(Tool::Fetch.failure_text(&DomainError::InvalidQuery("x".to_string())), "fetch failed: invalid query: x");
    assert_eq!(
        Tool::Vertical(KagiVertical::News).failure_text(&DomainError::CookieDecryptionBlocked),
        "news vertical search failed: could not decrypt cookie value (Chrome v20 App-Bound Encryption requires the user to provide a Session Link instead)"
    );
    assert_eq!(Tool::ListLenses.failure_text(&DomainError::ParseError("p".to_string())), "list_lenses failed: could not parse kagi response: p");
    assert_eq!(Tool::Wikipedia.failure_text(&DomainError::NoSessionFound), "wikipedia lookup failed: no kagi session found in any installed browser");
    assert_eq!(Tool::Suggest.failure_text(&DomainError::SessionRejected("r".to_string())), "suggest failed: session was found but kagi rejected it (likely expired or app-bound-encrypted): r");
    assert_eq!(Tool::FastGpt.failure_text(&DomainError::CookieStoreUnavailable("c".to_string())), "fastgpt failed: browser cookie store could not be read: c");
}
