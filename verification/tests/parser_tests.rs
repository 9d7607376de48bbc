use kagi_session_mcp::adapters::browser::safari::{parse_binary_cookies, safari_user_agent, CookieFileError, SafariSource};
use kagi_session_mcp::adapters::serp_parser::{
    parse_fastgpt_answer, parse_lens_settings, parse_related_searches, parse_serp, parse_top_content_unique,
    parse_vertical_serp, parse_wikipedia_panel, render_answer_text,
};
use kagi_session_mcp::domain::{BrowserKind, DomainError, KagiVertical, SessionAuth};

#[test]
fn serp_results_are_ranked_in_order() {
    let html = r#"<div class="search-result _0_SRI"><a class="__sri_title_link" href="https://one.example/">One</a>
<p class="_0_DESC">  first
 result </p></div><div class="_0_SRI search-result"><h3><a href="https://two.example/">Two</a></h3></div>"#;
    let rs = parse_serp(html).unwrap();
    assert_eq!(rs.len(), 2);
    assert_eq!(rs[0].rank, 1);
    assert_eq!(rs[0].snippet.as_deref(), Some("first result"));
    assert_eq!(rs[1].rank, 2);
    assert_eq!(rs[1].url, "https://two.example/");
    assert!(rs[1].snippet.is_none());
    assert!(parse_serp("<p>none</p>").unwrap().is_empty());
}

#[test]
fn related_searches_without_repeats() {
    let long = "x".repeat(201);
    let html = format!("<a>one</a><span class=\"related_query\"> two </span><a>one</a><a></a><button>{long}</button>");
    assert_eq!(parse_related_searches(&html), vec!["one".to_string(), "two".to_string()]);
}

#[test]
fn top_content_count() {
    assert_eq!(parse_top_content_unique("<i>71</i> relevant results in <i>0.54s</i>"), Some(71));
    assert_eq!(parse_top_content_unique("<b>71</b>"), None);
    assert_eq!(parse_top_content_unique("<i>none</i>"), None);
}

#[test]
fn lens_settings() {
    let html = r#"<div id="_0_lens_table_active"><div class="__lens_item" data-id="3"><div class="lens_title"><div>Programming</div></div><div class="lens_desc">Code sites</div></div></div>
<div class="_0_lens_item" data-id="9"><div class="lens_title"><div></div></div><div class="lens_desc">Lens #9</div></div>
<div class="__lens_item" data-id="3"><div class="lens_title"><div>Dup</div></div></div>
<div class="__lens_item" data-id="x"></div>"#;
    let lenses = parse_lens_settings(html);
    assert_eq!(lenses.len(), 2);
    assert_eq!(lenses[0].id, 3);
    assert_eq!(lenses[0].name, "Programming");
    assert_eq!(lenses[0].description.as_deref(), Some("Code sites"));
    assert!(lenses[0].active);
    assert_eq!(lenses[1].id, 9);
    assert_eq!(lenses[1].name, "Lens #9");
    assert!(lenses[1].description.is_none());
    assert!(!lenses[1].active);
}

#[test]
fn wikipedia_panel() {
    let html = r#"<div class="wikipediaResult">Ada <b>Lovelace</b> was a mathematician.<span class="smw">more</span></div>"#;
    let qa = parse_wikipedia_panel(html).unwrap();
    assert_eq!(qa.text, "Ada Lovelace was a mathematician.");
    assert!(qa.url.is_none());
    assert!(parse_wikipedia_panel("<div class=\"wikipediaResult\"> </div>").is_none());
    let long = format!("<div class=\"wikipediaResult\">{}</div>", "y".repeat(2000));
    let qa = parse_wikipedia_panel(&long).unwrap();
    assert_eq!(qa.text.chars().count(), 1500);
    assert!(qa.text.ends_with('…'));
}

#[test]
fn answer_text_rendering() {
    assert_eq!(
        render_answer_text("<p>Rust &amp; Verus<sup> <a href=\"#\"> 2 </a></sup></p><ul><li>a</li><li>b &lt;c&gt;</li></ul>"),
        "Rust & Verus[2]\na\nb <c>"
    );
}

#[test]
fn fastgpt_answer_with_sources() {
    let html = "<details><strong>One</strong><a href=\"https://1\">1</a> first <strong>Two</strong><a href=\"https://2\">2</a> second</details><p>Body [x]</p>";
    let ans = parse_fastgpt_answer(html);
    assert_eq!(ans.answer, "Body [x]");
    assert_eq!(ans.sources.len(), 2);
    assert_eq!(ans.sources[0].snippet.as_deref(), Some("first"));
    assert_eq!(ans.sources[1].url, "https://2");
    assert_eq!(ans.sources[1].snippet.as_deref(), Some("second"));
}

#[test]
fn vertical_results() {
    let videos = r#"<div class="videoResultItem _0_SRI"><a class="videoResultTitle" href="https://v/1">Clip</a>
<a class="videoResultThumbnail" href="https://v/1"><img src="https://t/1.jpg"></a><span class="videoResultVideoTime">3:21</span>
<a class="videoPublisher">Chan</a><span class="videoPublishedDate">2024</span></div>"#;
    let rs = parse_vertical_serp(videos, KagiVertical::Videos).unwrap();
    assert_eq!(rs.len(), 1);
    assert_eq!(rs[0].title, "Clip");
    assert_eq!(rs[0].duration.as_deref(), Some("3:21"));
    assert_eq!(rs[0].source.as_deref(), Some("Chan"));
    let pods = r#"<a class="top_media_item" href="https://p/1"><span class="top_media_item_title">Episode</span><img src="https://p/t.jpg"></a>"#;
    let rs = parse_vertical_serp(pods, KagiVertical::Podcasts).unwrap();
    assert_eq!(rs.len(), 1);
    assert_eq!(rs[0].title, "Episode");
    assert_eq!(rs[0].url, "https://p/1");
    assert!(parse_vertical_serp("<p></p>", KagiVertical::Images).unwrap().is_empty());
}

fn le32(v: u32) -> [u8; 4] {
    v.to_le_bytes()
}

fn record(domain: &str, name: &str, value: &str) -> Vec<u8> {
    let mut rec = vec![0u8; 56];
    let mut strings = Vec::new();
    let dom_off = 56 + strings.len();
    strings.extend_from_slice(domain.as_bytes());
    strings.push(0);
    let name_off = 56 + strings.len();
    strings.extend_from_slice(name.as_bytes());
    strings.push(0);
    let path_off = 56 + strings.len();
    strings.extend_from_slice(b"/\0");
    let val_off = 56 + strings.len();
    strings.extend_from_slice(value.as_bytes());
    strings.push(0);
    rec[16..20].copy_from_slice(&le32(dom_off as u32));
    rec[20..24].copy_from_slice(&le32(name_off as u32));
    rec[24..28].copy_from_slice(&le32(path_off as u32));
    rec[28..32].copy_from_slice(&le32(val_off as u32));
    rec.extend_from_slice(&strings);
    rec
}

fn cookie_file(cookies: &[(&str, &str, &str)]) -> Vec<u8> {
    let recs: Vec<Vec<u8>> = cookies.iter().map(|(d, n, v)| record(d, n, v)).collect();
    let header_len = 8 + 4 * recs.len() + 4;
    let mut page = vec![0x00, 0x00, 0x01, 0x00];
    page.extend_from_slice(&le32(recs.len() as u32));
    let mut off = header_len;
    for r in &recs {
        page.extend_from_slice(&le32(off as u32));
        off += r.len();
    }
    page.extend_from_slice(&[0, 0, 0, 0]);
    for r in &recs {
        page.extend_from_slice(r);
    }
    let mut file = b"cook".to_vec();
    file.extend_from_slice(&1u32.to_be_bytes());
    file.extend_from_slice(&(page.len() as u32).to_be_bytes());
    file.extend_from_slice(&page);
    file
}

#[test]
fn binary_cookies_are_decoded() {
    let data = cookie_file(&[(".example.com", "sid", "1"), (".kagi.com", "kagi_session", "secret")]);
    let cookies = parse_binary_cookies(&data).unwrap();
    assert_eq!(cookies.len(), 2);
    assert_eq!(cookies[1].domain, ".kagi.com");
    assert_eq!(cookies[1].name, "kagi_session");
    assert_eq!(cookies[1].value, "secret");
}

#[test]
fn safari_session_from_cookie_file() {
    let data = cookie_file(&[(".example.com", "kagi_session", "no"), ("kagi.com", "kagi_session_x", "yes")]);
    let src = SafariSource::new();
    assert_eq!(src.name(), "safari");
    assert_eq!(src.cookies_path_components(), vec!["Library", "Cookies", "Cookies.binarycookies"]);
    let s = src.extract_from_bytes(&data).unwrap().unwrap();
    assert!(matches!(&s.auth, SessionAuth::Cookie { name, value } if name == "kagi_session_x" && value == "yes"));
    assert_eq!(s.source, BrowserKind::Safari);
    assert_eq!(s.user_agent, safari_user_agent());
    let none = cookie_file(&[(".example.com", "sid", "1")]);
    assert!(matches!(src.extract_from_bytes(&none), Ok(None)));
}

#[test]
fn bad_cookie_files_are_unreadable() {
    let src = SafariSource::new();
    assert!(matches!(src.extract_from_bytes(b"nope"), Err(DomainError::CookieStoreUnavailable(_))));
    let mut data = cookie_file(&[("kagi.com", "kagi_session", "v")]);
    data.truncate(data.len() - 3);
    assert!(parse_binary_cookies(&data).is_err());
}

#[test]
fn cookie_file_refusals() {
    assert!(matches!(parse_binary_cookies(b"cook"), Err(CookieFileError::NotCookieFile)));
    assert!(matches!(parse_binary_cookies(b"cool\0\0\0\0"), Err(CookieFileError::NotCookieFile)));
    assert!(matches!(parse_binary_cookies(b"cook\0\0\0\x02\0\0\0\x10"), Err(CookieFileError::TruncatedPageSizeTable)));
    assert!(matches!(parse_binary_cookies(b"cook\0\0\0\x01\0\0\0\x10abc"), Err(CookieFileError::TruncatedPage)));
    assert!(matches!(parse_binary_cookies(b"cook\0\0\0\0"), Ok(ref v) if v.is_empty()));
}
