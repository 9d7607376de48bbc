use kagi_session_mcp::adapters::browser::chromium::{
    chromium_user_agent, cookies_path, enumerate_profile_dirs, os_token, sanitize, session_from_row,
    temp_db_file, user_data_dir, ChromiumSource, DirEntry, ProfileDir, ProfileScan,
};
use kagi_session_mcp::adapters::browser::firefox::{
    all_firefox_like, enumerate_profiles, firefox_like_roots, firefox_user_agent, kind_for_label,
    session_from_row as firefox_session_from_row, temp_db_file as firefox_temp_db_file,
};
use kagi_session_mcp::adapters::browser::{all_sources, chromium_kinds, BaseDirs, Platform, Presence, SourceSpec};
use kagi_session_mcp::domain::{BrowserKind, DomainError, SessionAuth};

fn dirs() -> BaseDirs {
    BaseDirs {
        home: Some("/home/u".to_string()),
        config: Some("/home/u/.config".to_string()),
        data: Some("C:/Roaming".to_string()),
        data_local: Some("C:/Local".to_string()),
    }
}

fn entry(name: &str, is_dir: bool) -> DirEntry {
    DirEntry { name: name.to_string(), is_dir }
}

#[test]
fn chromium_locations() {
    assert_eq!(
        user_data_dir(BrowserKind::Chrome, Platform::Linux, &dirs()),
        Some(vec!["/home/u/.config".to_string(), "google-chrome".to_string()])
    );
    assert_eq!(
        user_data_dir(BrowserKind::OperaGx, Platform::Windows, &dirs()),
        Some(vec!["C:/Roaming".to_string(), "Opera Software".to_string(), "Opera GX Stable".to_string()])
    );
    assert_eq!(
        user_data_dir(BrowserKind::Edge, Platform::MacOs, &dirs()),
        Some(vec!["/home/u/.config".to_string(), "Microsoft Edge".to_string()])
    );
    assert_eq!(user_data_dir(BrowserKind::Arc, Platform::Linux, &dirs()), None);
    assert_eq!(user_data_dir(BrowserKind::Firefox, Platform::Windows, &dirs()), None);
    assert_eq!(user_data_dir(BrowserKind::Chrome, Platform::Other, &dirs()), None);
    let mut no_roaming = dirs();
    no_roaming.data = None;
    assert_eq!(user_data_dir(BrowserKind::Chrome, Platform::Windows, &no_roaming), None);
}

#[test]
fn chromium_source_needs_present_dir() {
    assert!(ChromiumSource::for_kind(BrowserKind::Brave, Platform::Linux, &dirs(), false).is_none());
    let s = ChromiumSource::for_kind(BrowserKind::Brave, Platform::Linux, &dirs(), true).unwrap();
    assert_eq!(s.name(), "brave");
    assert_eq!(s.kind(), BrowserKind::Brave);
    assert_eq!(s.user_data_dir().len(), 3);
    assert!(ChromiumSource::for_kind(BrowserKind::Safari, Platform::Linux, &dirs(), true).is_none());
}

#[test]
fn chromium_user_agents() {
    assert_eq!(os_token(Platform::MacOs), "Macintosh; Intel Mac OS X 10_15_7");
    assert_eq!(
        chromium_user_agent(BrowserKind::Edge, Platform::Windows),
        "Mozilla/5.0 (Windows NT 10.0; Win64; x64) AppleWebKit/537.36 (KHTML, like Gecko) Chrome/131.0.0.0 Safari/537.36 Edg/131.0.0.0"
    );
    assert_eq!(
        chromium_user_agent(BrowserKind::Chrome, Platform::Linux),
        "Mozilla/5.0 (X11; Linux x86_64) AppleWebKit/537.36 (KHTML, like Gecko) Chrome/131.0.0.0 Safari/537.36"
    );
    assert!(chromium_user_agent(BrowserKind::OperaGx, Platform::Linux).ends_with(" OPR/116.0.0.0"));
    assert!(chromium_user_agent(BrowserKind::Vivaldi, Platform::MacOs).ends_with(" Vivaldi/6.9"));
}

#[test]
fn profiles_are_tried_default_first_then_by_number() {
    let entries = vec![
        entry("Profile 10", true),
        entry("Guest Profile", true),
        entry("Profile 2", true),
        entry("Default", true),
        entry("Profile 02", true),
        entry("Profile x", true),
        entry("Crashpad", true),
        entry("Profile 3", false),
        entry("System Profile", true),
    ];
    let order = enumerate_profile_dirs(true, &entries);
    assert_eq!(
        order,
        vec![
            ProfileDir::Default,
            ProfileDir::Entry(2),
            ProfileDir::Entry(4),
            ProfileDir::Entry(0),
            ProfileDir::Entry(1),
            ProfileDir::Entry(5),
            ProfileDir::Entry(8),
        ]
    );
    assert_eq!(enumerate_profile_dirs(false, &vec![entry("Profile 1", true)]), vec![ProfileDir::Entry(0)]);
}

#[test]
fn cookie_database_locations() {
    assert_eq!(cookies_path(true, true), Some(vec!["Network", "Cookies"]));
    assert_eq!(cookies_path(false, true), Some(vec!["Cookies"]));
    assert_eq!(cookies_path(false, false), None);
}

#[test]
fn temp_file_names() {
    assert_eq!(sanitize("Profile 1/é"), "Profile_1__");
    assert_eq!(temp_db_file(BrowserKind::Chrome, Some("Profile 1")), "kagi_mcp_chrome_Profile_1_cookies");
    assert_eq!(temp_db_file(BrowserKind::Edge, None), "kagi_mcp_edge_p_cookies");
    assert_eq!(firefox_temp_db_file("zen", Some("abc.default-release")), "kagi_mcp_zen_abc_default_release_cookies.sqlite");
}

#[test]
fn plain_cookie_row() {
    let r = session_from_row(
        BrowserKind::Chrome,
        Platform::Linux,
        "kagi_session".to_string(),
        b"plain".to_vec(),
        Vec::new(),
        |_: &[u8]| -> Result<Vec<u8>, DomainError> { panic!("nothing to decrypt") },
    );
    let s = r.unwrap().unwrap();
    assert!(matches!(&s.auth, SessionAuth::Cookie { name, value } if name == "kagi_session" && value == "plain"));
    assert_eq!(s.source, BrowserKind::Chrome);
    assert_eq!(s.user_agent, chromium_user_agent(BrowserKind::Chrome, Platform::Linux));
}

#[test]
fn encrypted_cookie_row() {
    let r = session_from_row(BrowserKind::Brave, Platform::MacOs, "kagi_session".to_string(), Vec::new(), b"v10xx".to_vec(), |b: &[u8]| {
        assert_eq!(b, b"v10xx");
        Ok(b"decrypted".to_vec())
    });
    let s = r.unwrap().unwrap();
    assert!(matches!(&s.auth, SessionAuth::Cookie { value, .. } if value == "decrypted"));
    let failed = session_from_row(BrowserKind::Brave, Platform::MacOs, "n".to_string(), Vec::new(), b"v20".to_vec(), |_: &[u8]| {
        Err(DomainError::CookieDecryptionBlocked)
    });
    assert!(matches!(failed, Err(DomainError::CookieDecryptionBlocked)));
}

#[test]
fn empty_or_invalid_cookie_rows() {
    let empty = session_from_row(BrowserKind::Chrome, Platform::Linux, "n".to_string(), Vec::new(), Vec::new(), |_: &[u8]| {
        Ok(Vec::new())
    });
    assert!(matches!(empty, Ok(None)));
    let bad = session_from_row(BrowserKind::Chrome, Platform::Linux, "n".to_string(), vec![0xff, 0xfe], Vec::new(), |_: &[u8]| {
        Ok(Vec::new())
    });
    assert!(matches!(bad, Err(DomainError::CookieStoreUnavailable(m)) if m.starts_with("non-utf8 cookie: ")));
}

#[test]
fn profile_scan_keeps_last_error() {
    let mut scan = ProfileScan::new();
    assert!(scan.on_answer(Err(DomainError::CookieDecryptionBlocked)).is_none());
    assert!(scan.on_answer(Ok(None)).is_none());
    assert!(matches!(scan.finish(), Err(DomainError::CookieDecryptionBlocked)));
    let mut quiet = ProfileScan::new();
    assert!(quiet.on_answer(Ok(None)).is_none());
    assert!(matches!(quiet.finish(), Ok(None)));
}

#[test]
fn firefox_roots_by_platform() {
    let linux = firefox_like_roots(Platform::Linux, &dirs());
    let labels: Vec<&str> = linux.iter().map(|(l, _)| *l).collect();
    assert_eq!(labels, vec!["firefox", "zen", "librewolf", "waterfox", "floorp"]);
    assert_eq!(linux[0].1, vec![vec!["/home/u".to_string(), ".mozilla".to_string(), "firefox".to_string()]]);
    assert_eq!(linux[1].1.len(), 2);
    let windows = firefox_like_roots(Platform::Windows, &dirs());
    assert_eq!(windows.len(), 7);
    assert_eq!(windows[6].0, "tor");
    assert_eq!(
        windows[6].1,
        vec![vec![
            "C:/Local".to_string(),
            "Tor Browser/Browser/TorBrowser/Data/Browser".to_string(),
            "Profiles".to_string()
        ]]
    );
    let mut no_home = dirs();
    no_home.home = None;
    let linux = firefox_like_roots(Platform::Linux, &no_home);
    assert!(linux[0].1.is_empty());
    assert_eq!(linux[1].1, vec![vec!["/home/u/.config".to_string(), "zen".to_string()]]);
    assert!(firefox_like_roots(Platform::Other, &dirs()).is_empty());
}

#[test]
fn only_present_firefox_roots_are_kept() {
    let present = vec![vec![false], vec![false, true], vec![true, true]];
    let sources = all_firefox_like(Platform::Linux, &dirs(), &present);
    assert_eq!(sources.len(), 2);
    assert_eq!(sources[0].name(), "zen");
    assert_eq!(sources[0].profiles_roots().len(), 1);
    assert_eq!(sources[1].name(), "librewolf");
    assert_eq!(sources[1].profiles_roots().len(), 2);
}

#[test]
fn firefox_profiles_default_first() {
    let entries = vec![
        entry("x1.dev-edition", true),
        entry("abc.default-release", true),
        entry("file.txt", false),
        entry("old.default", true),
        entry("", true),
        entry("My Default", true),
    ];
    assert_eq!(enumerate_profiles(&entries), vec![1, 3, 5, 0, 4]);
}

#[test]
fn firefox_sessions() {
    assert_eq!(kind_for_label("librewolf"), BrowserKind::Firefox);
    assert_eq!(
        firefox_user_agent("firefox", Platform::Linux),
        "Mozilla/5.0 (X11; Linux x86_64; rv:131.0) Gecko/20100101 Firefox/131.0"
    );
    let s = firefox_session_from_row("zen", Platform::Windows, Some(("kagi_session".to_string(), "v".to_string()))).unwrap();
    assert_eq!(s.source, BrowserKind::Firefox);
    assert_eq!(s.user_agent, "Mozilla/5.0 (Windows NT 10.0; Win64; x64; rv:131.0) Gecko/20100101 Firefox/131.0");
    assert!(firefox_session_from_row("zen", Platform::Linux, Some(("kagi_session".to_string(), String::new()))).is_none());
    assert!(firefox_session_from_row("zen", Platform::Linux, None).is_none());
}

#[test]
fn sources_in_probe_order() {
    assert_eq!(chromium_kinds().len(), 8);
    let presence = Presence {
        chromium: vec![true, false, true, true, false, false, false, true],
        firefox: vec![vec![true], vec![false, false]],
    };
    let all = all_sources(Platform::MacOs, &dirs(), &presence);
    let names: Vec<String> = all
        .iter()
        .map(|s| match s {
            SourceSpec::Chromium(c) => c.name().to_string(),
            SourceSpec::FirefoxLike(f) => f.name().to_string(),
            SourceSpec::Safari(s) => s.name().to_string(),
        })
        .collect();
    assert_eq!(names, vec!["chrome", "brave", "arc", "chromium", "firefox", "safari"]);
    let linux = all_sources(Platform::Linux, &dirs(), &presence);
    assert_eq!(linux.len(), 4);
}
