use kagi_session_mcp::adapters::kagi_http::{
    build_search_url, check_endpoint_response, check_search_response, check_signin, collect_fastgpt_chunks,
    collect_related, cookie_header, fastgpt_answer_from_body, fastgpt_url, first_total_results, kagi_request,
    lenses_url, limit_and_rank, next_page, search_response_from_parts, sse_data_payloads, suggest_url,
    suggestions_from_raw, validate_search, vertical_response_from_parts, vertical_url, wikipedia_answer_from_body,
    wikipedia_url, KagiEndpoint, RawSuggest, StreamMessage, StreamParts, StreamPayload, KAGI_ACCEPT_LANGUAGE,
};
use kagi_session_mcp::domain::{
    BrowserKind, DomainError, KagiVertical, SafeSearch, SearchQuery, SearchResult, Session, SessionAuth, TimeRange,
    VerticalQuery,
};

fn cookie() -> Session {
    Session {
        auth: SessionAuth::Cookie { name: "kagi_session".to_string(), value: "abc".to_string() },
        user_agent: "UA".to_string(),
        source: BrowserKind::Chrome,
    }
}

fn query(q: &str) -> SearchQuery {
    SearchQuery { q: q.to_string(), limit: None, page: None, time: None, region: None, safe: None, lens: None }
}

fn msg(tag: &str, html: &str) -> StreamMessage {
    StreamMessage { tag: tag.to_string(), payload: StreamPayload::Text(html.to_string()) }
}

fn obj(tag: &str, html: &str) -> StreamMessage {
    StreamMessage {
        tag: tag.to_string(),
        payload: StreamPayload::Object { content: Some(html.to_string()), next_batch: None },
    }
}

const SERP: &str = r#"<div class="_0_SRI search-result"><h3><a href="https://a.example/">  Alpha  page </a></h3>
<div class="__sri-desc">about alpha</div><span class="__sri-site">a.example</span><time>2 days ago</time></div>
<div class="_0_SRI search-result image-preview-footer"><h3><a href="https://img/">img</a></h3></div>
<div class="_0_SRI search-result"><h3><a href="/relative">Beta</a></h3><div class="__sri-url-box"><a href="https://b.example/">b.example</a></div></div>
<div class="_0_SRI search-result"><h3><a href="https://c.example/"></a></h3></div>"#;

#[test]
fn search_url_carries_the_filters() {
    let mut q = query("rust lang");
    q.page = Some(2);
    q.time = Some(TimeRange::PastMonth);
    q.region = Some("de".to_string());
    q.safe = Some(SafeSearch::Strict);
    q.lens = Some(0);
    let url = build_search_url(&q, &cookie()).unwrap();
    assert_eq!(url, "https://kagi.com/socket/search?q=rust+lang&batch=2&piece=1&date=m&r=de&safe=2&l=0");
    let token = Session { auth: SessionAuth::UrlToken("t0k".to_string()), ..cookie() };
    let url = build_search_url(&query("x"), &token).unwrap();
    assert_eq!(url, "https://kagi.com/socket/search?q=x&token=t0k");
}

#[test]
fn first_page_has_no_batch() {
    let mut q = query("x");
    q.page = Some(1);
    assert_eq!(build_search_url(&q, &cookie()).unwrap(), "https://kagi.com/socket/search?q=x");
}

#[test]
fn search_validation() {
    assert!(matches!(validate_search(&query("   ")), Err(DomainError::InvalidQuery(m)) if m == "query is empty"));
    let mut q = query("x");
    q.lens = Some(8);
    assert!(matches!(validate_search(&q), Err(DomainError::InvalidQuery(m))
        if m == "lens slot 8 is out of range (valid: 0-7); call kagi_list_lenses to see your active lenses in slot order"));
    q.lens = Some(7);
    assert!(validate_search(&q).is_ok());
}

#[test]
fn endpoint_urls() {
    assert_eq!(wikipedia_url("Ada Lovelace").unwrap(), "https://kagi.com/api/wikipedia?q=Ada+Lovelace");
    assert!(matches!(wikipedia_url(" "), Err(DomainError::InvalidQuery(_))));
    assert_eq!(suggest_url("ru").unwrap().as_deref(), Some("https://kagi.com/autosuggest?q=ru"));
    assert!(matches!(suggest_url(""), Ok(None)));
    assert_eq!(fastgpt_url("why & how").unwrap(), "https://kagi.com/stream_fastgpt?query=why+%26+how");
    assert_eq!(lenses_url().unwrap(), "https://kagi.com/settings/lenses");
}

#[test]
fn vertical_url_carries_the_filters() {
    let q = VerticalQuery {
        q: "cats".to_string(),
        limit: Some(5),
        freshness: Some(TimeRange::PastWeek),
        order: Some(2),
        dir_desc: true,
        ai_filter: Some("none".to_string()),
        aspect: Some("wide".to_string()),
        color: None,
        duration: Some("short".to_string()),
    };
    let url = vertical_url(KagiVertical::Images, &q).unwrap();
    assert!(url.starts_with("https://kagi.com/images?q=cats&"));
    assert!(url.contains("freshness=week"));
    assert!(url.contains("order=2"));
    assert!(url.contains("dir=desc"));
    assert!(url.contains("aspect=wide"));
    assert!(url.contains("duration=short"));
}

#[test]
fn cookie_header_only_for_cookie_sessions() {
    assert_eq!(cookie_header(&cookie()).as_deref(), Some("kagi_session=abc"));
    let token = Session { auth: SessionAuth::UrlToken("t".to_string()), ..cookie() };
    assert!(cookie_header(&token).is_none());
}

#[test]
fn response_checks() {
    assert!(check_search_response("/search", 200, "200 OK").is_ok());
    assert!(matches!(check_search_response("/signin", 200, "200 OK"), Err(DomainError::SessionRejected(m))
        if m == "kagi redirected to /signin (HTTP 200 OK); session is missing or expired"));
    assert!(matches!(check_search_response("/search", 503, "503 Service Unavailable"), Err(DomainError::NetworkError(m))
        if m == "kagi returned HTTP 503 Service Unavailable"));
    assert!(matches!(check_signin("/signin/x"), Err(DomainError::SessionRejected(_))));
    assert!(check_signin("/api").is_ok());
    assert!(matches!(check_endpoint_response("/autosuggest", "/autosuggest", 500, "500 Internal Server Error"),
        Err(DomainError::NetworkError(m)) if m == "kagi /autosuggest returned HTTP 500 Internal Server Error"));
}

#[test]
fn event_stream_data_lines() {
    let body = "event: x\ndata: [1]\ndata:\n: comment\ndata:   \"s\"\n";
    assert_eq!(sse_data_payloads(body), vec!["[1]".to_string(), "\"s\"".to_string()]);
}

#[test]
fn fastgpt_frames_are_json_strings() {
    let chunks = collect_fastgpt_chunks("data: \"a\\nb\"\ndata: [1]\ndata: \"\\u00e9\"\n");
    assert_eq!(chunks, vec!["a\nb".to_string(), "é".to_string()]);
}

#[test]
fn stream_parts_sort_messages_by_tag() {
    let frames = vec![
        vec![msg("search", "<p>s</p>"), obj("wikipedia", "<div>w</div>"), msg("unknown", "u")],
        vec![
            StreamMessage {
                tag: "search.info".to_string(),
                payload: StreamPayload::Object { content: None, next_batch: Some(3) },
            },
            msg("related_searches", "<a>r</a>"),
            StreamMessage { tag: "news".to_string(), payload: StreamPayload::Other },
        ],
    ];
    let parts = StreamParts::from_frames(&frames);
    assert_eq!(parts.search, vec!["<p>s</p>".to_string()]);
    assert_eq!(parts.wikipedia, vec!["<div>w</div>".to_string()]);
    assert_eq!(parts.related, vec!["<a>r</a>".to_string()]);
    assert_eq!(parts.search_info.len(), 1);
    assert!(parts.news.is_empty());
    assert!(!parts.is_empty());
    assert!(StreamParts::new().is_empty());
    assert_eq!(next_page(&parts.search_info), Some(3));
}

#[test]
fn next_page_ignores_last_batch_marker() {
    let infos = vec![StreamPayload::Object { content: None, next_batch: Some(-1) }, StreamPayload::Other];
    assert_eq!(next_page(&infos), None);
}

#[test]
fn search_response_from_stream() {
    let frames = vec![vec![
        msg("search", SERP),
        msg("related_searches", "<a>rust book</a><a>rust book</a><button>cargo</button>"),
        msg("top-content-unique", "<i>1,234</i> relevant results in <i>0.5s</i>"),
    ]];
    let parts = StreamParts::from_frames(&frames);
    let mut q = query("x");
    q.limit = Some(1);
    let resp = search_response_from_parts(&q, &parts).unwrap();
    assert_eq!(resp.results.len(), 1);
    assert_eq!(resp.results[0].rank, 1);
    assert_eq!(resp.results[0].title, "Alpha page");
    assert_eq!(resp.related_queries, vec!["rust book".to_string(), "cargo".to_string()]);
    assert_eq!(resp.total_results, Some(1234));
    assert!(resp.quick_answer.is_none());
    let all = search_response_from_parts(&query("x"), &parts).unwrap();
    assert_eq!(all.results.len(), 2);
    assert_eq!(all.results[1].rank, 2);
    assert_eq!(all.results[1].url, "https://b.example/");
}

#[test]
fn empty_stream_is_a_parse_error() {
    let r = search_response_from_parts(&query("x"), &StreamParts::new());
    assert!(matches!(r, Err(DomainError::ParseError(m)) if m.starts_with("kagi stream contained no recognised payloads")));
}

#[test]
fn ranks_follow_the_cut() {
    let mk = |t: &str| SearchResult { rank: 99, title: t.to_string(), url: "u".to_string(), snippet: None, site: None, published: None };
    let r = limit_and_rank(vec![mk("a"), mk("b"), mk("c")], Some(2));
    assert_eq!(r.len(), 2);
    assert_eq!((r[0].rank, r[1].rank), (1, 2));
    let r = limit_and_rank(vec![mk("a"), mk("b")], None);
    assert_eq!(r[1].rank, 2);
}

#[test]
fn related_and_totals() {
    let rel = collect_related(&vec!["<a>x</a><a>y</a>".to_string(), "<a>y</a><a>z</a>".to_string()]);
    assert_eq!(rel, vec!["x".to_string(), "y".to_string(), "z".to_string()]);
    assert_eq!(first_total_results(&vec!["<b>no</b>".to_string(), "<i>42</i>".to_string()]), Some(42));
    assert_eq!(first_total_results(&vec![]), None);
}

#[test]
fn vertical_response_from_stream() {
    let news = r#"<div class="newsResultItem _0_SRI"><h3 class="__sri-title-box"><a href="https://n/1" data-domain="n.com">Big  news</a></h3>
<div class="newsResultBody">body</div><span class="newsResultTime">1h</span></div>"#;
    let parts = StreamParts::from_frames(&vec![vec![msg("news", news)]]);
    let q = VerticalQuery {
        q: "x".to_string(),
        limit: Some(10),
        freshness: None,
        order: None,
        dir_desc: false,
        ai_filter: None,
        aspect: None,
        color: None,
        duration: None,
    };
    let resp = vertical_response_from_parts(KagiVertical::News, &q, &parts).unwrap();
    assert_eq!(resp.results.len(), 1);
    assert_eq!(resp.results[0].title, "Big news");
    assert_eq!(resp.results[0].site.as_deref(), Some("n.com"));
    assert_eq!(resp.results[0].published.as_deref(), Some("1h"));
    assert_eq!(resp.results[0].rank, 1);
}

#[test]
fn fastgpt_frames() {
    let body = "data: \"partial\"\ndata: \"<details><strong>Src</strong><a href=\\\"https://s\\\">s</a> snippet</details><p>Answer<sup><a>1</a></sup></p>\"\ndata: \"[DONE]\"\n";
    assert_eq!(collect_fastgpt_chunks(body).len(), 3);
    let ans = fastgpt_answer_from_body(body).unwrap();
    assert_eq!(ans.answer, "Answer[1]");
    assert_eq!(ans.sources.len(), 1);
    assert_eq!(ans.sources[0].title, "Src");
    assert_eq!(ans.sources[0].url, "https://s");
    assert_eq!(ans.sources[0].snippet.as_deref(), Some("snippet"));
    assert!(matches!(fastgpt_answer_from_body("data: \"[DONE]\"\n"), Err(DomainError::ParseError(_))));
}

#[test]
fn wikipedia_from_body() {
    let body = r#"<div class="wikipediaContent" data-current_article="https://en.wikipedia.org/wiki/Rust">Rust is a language. <a class="wiki-nw-link">Open</a></div>"#;
    let qa = wikipedia_answer_from_body(body).unwrap();
    assert_eq!(qa.source, "wikipedia");
    assert_eq!(qa.text, "Rust is a language.");
    assert_eq!(qa.url.as_deref(), Some("https://en.wikipedia.org/wiki/Rust"));
    assert!(matches!(wikipedia_answer_from_body("<p>nothing</p>"), Err(DomainError::ParseError(_))));
}

#[test]
fn suggestions_field_for_field() {
    let raw = vec![RawSuggest { t: "rust".to_string(), txt: Some("lang".to_string()), img: None, k: Some("k".to_string()) }];
    let s = suggestions_from_raw(raw);
    assert_eq!(s.len(), 1);
    assert_eq!(s[0].text, "rust");
    assert_eq!(s[0].description.as_deref(), Some("lang"));
    assert_eq!(s[0].source.as_deref(), Some("k"));
}

#[test]
fn kagi_requests_carry_the_session_headers() {
    let r = kagi_request(KagiEndpoint::Search, "https://kagi.com/search?q=a".to_string(), &cookie());
    assert_eq!(r.url, "https://kagi.com/search?q=a");
    assert_eq!(r.user_agent, "UA");
    assert_eq!(r.accept, "text/event-stream");
    assert_eq!(r.accept_language, "en-US,en;q=0.9");
    assert_eq!(KAGI_ACCEPT_LANGUAGE, "en-US,en;q=0.9");
    assert_eq!(r.cookie.as_deref(), Some("kagi_session=abc"));
    let token = Session { auth: SessionAuth::UrlToken("tok".to_string()), ..cookie() };
    let r = kagi_request(KagiEndpoint::Lenses, "https://kagi.com/settings/lenses".to_string(), &token);
    assert_eq!(r.accept, "text/html");
    assert!(r.cookie.is_none());
    assert_eq!(kagi_request(KagiEndpoint::Suggest, String::new(), &cookie()).accept, "application/json");
    assert_eq!(kagi_request(KagiEndpoint::Wikipedia, String::new(), &cookie()).accept, "text/html");
    assert_eq!(kagi_request(KagiEndpoint::FastGpt, String::new(), &cookie()).accept, "text/event-stream");
    assert_eq!(
        kagi_request(KagiEndpoint::Vertical(KagiVertical::News), String::new(), &cookie()).accept,
        "text/event-stream"
    );
}
