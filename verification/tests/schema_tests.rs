use kagi_session_mcp::domain::{
    FastGptAnswer, FastGptSource, KagiVertical, QuickAnswer, SafeSearch, SearchResponse, SearchResult, TimeRange,
    VerticalResponse, VerticalResult,
};
use kagi_session_mcp::mcp::schema::{
    parse_safe, parse_time, translate, translate_vertical, FastGptPayload, FetchInput, SearchInput, VerticalSearchInput,
};

fn search_input(limit: Option<u8>, page: Option<u32>, lens: Option<u32>) -> SearchInput {
    SearchInput {
        query: "rust verus".to_string(),
        limit,
        page,
        time: Some("Week".to_string()),
        region: Some("de".to_string()),
        safe: Some("STRICT".to_string()),
        lens,
    }
}

#[test]
fn search_limit_defaults_to_ten() {
    let q = search_input(None, None, None).into_domain();
    assert_eq!(q.limit, Some(10));
    assert_eq!(q.q, "rust verus");
    assert_eq!(q.region.as_deref(), Some("de"));
}

#[test]
fn search_limit_is_clamped() {
    assert_eq!(search_input(Some(0), None, None).into_domain().limit, Some(1));
    assert_eq!(search_input(Some(200), None, None).into_domain().limit, Some(25));
    assert_eq!(search_input(Some(7), None, None).into_domain().limit, Some(7));
}

#[test]
fn search_page_zero_is_dropped() {
    assert_eq!(search_input(None, Some(0), None).into_domain().page, None);
    assert_eq!(search_input(None, Some(3), None).into_domain().page, Some(3));
}

#[test]
fn search_lens_slot_zero_is_kept() {
    assert_eq!(search_input(None, None, Some(0)).into_domain().lens, Some(0));
    assert_eq!(search_input(None, None, Some(5)).into_domain().lens, Some(5));
    assert_eq!(search_input(None, None, None).into_domain().lens, None);
}

#[test]
fn search_filters_are_read_in_any_case() {
    let q = search_input(None, None, None).into_domain();
    assert_eq!(q.time, Some(TimeRange::PastWeek));
    assert_eq!(q.safe, Some(SafeSearch::Strict));
}

#[test]
fn time_words() {
    assert_eq!(parse_time("day"), Some(TimeRange::PastDay));
    assert_eq!(parse_time("D"), Some(TimeRange::PastDay));
    assert_eq!(parse_time("w"), Some(TimeRange::PastWeek));
    assert_eq!(parse_time("Month"), Some(TimeRange::PastMonth));
    assert_eq!(parse_time("y"), Some(TimeRange::PastYear));
    assert_eq!(parse_time("fortnight"), None);
    assert_eq!(parse_time(""), None);
}

#[test]
fn safe_words() {
    assert_eq!(parse_safe("off"), Some(SafeSearch::Off));
    assert_eq!(parse_safe("0"), Some(SafeSearch::Off));
    assert_eq!(parse_safe("Moderate"), Some(SafeSearch::Moderate));
    assert_eq!(parse_safe("1"), Some(SafeSearch::Moderate));
    assert_eq!(parse_safe("2"), Some(SafeSearch::Strict));
    assert_eq!(parse_safe("maybe"), None);
}

#[test]
fn time_words_round_trip() {
    for t in [TimeRange::PastDay, TimeRange::PastWeek, TimeRange::PastMonth, TimeRange::PastYear] {
        assert_eq!(parse_time(t.as_freshness()), Some(t));
        assert_eq!(parse_time(t.as_kagi()), Some(t));
    }
    for s in [SafeSearch::Off, SafeSearch::Moderate, SafeSearch::Strict] {
        assert_eq!(parse_safe(s.as_kagi()), Some(s));
    }
}

#[test]
fn unknown_time_word_is_dropped() {
    let mut i = search_input(None, None, None);
    i.time = Some("soon".to_string());
    i.safe = None;
    let q = i.into_domain();
    assert_eq!(q.time, None);
    assert_eq!(q.safe, None);
}

#[test]
fn vertical_limit_is_clamped_to_fifty() {
    let mk = |limit: Option<u8>| VerticalSearchInput {
        query: "cats".to_string(),
        limit,
        freshness: Some("year".to_string()),
        order: Some(2),
        dir_desc: true,
        ai_filter: Some("none".to_string()),
        aspect: None,
        color: Some("blue".to_string()),
        duration: None,
    };
    assert_eq!(mk(None).into_domain().limit, Some(10));
    assert_eq!(mk(Some(0)).into_domain().limit, Some(1));
    assert_eq!(mk(Some(99)).into_domain().limit, Some(50));
    let q = mk(Some(30)).into_domain();
    assert_eq!(q.limit, Some(30));
    assert_eq!(q.freshness, Some(TimeRange::PastYear));
    assert_eq!(q.order, Some(2));
    assert!(q.dir_desc);
    assert_eq!(q.ai_filter.as_deref(), Some("none"));
    assert_eq!(q.color.as_deref(), Some("blue"));
}

#[test]
fn fetch_input_passes_through() {
    let r = FetchInput { url: "https://example.com".to_string(), max_chars: Some(10), raw: true }.into_domain();
    assert_eq!(r.url, "https://example.com");
    assert_eq!(r.max_chars, Some(10));
    assert!(r.raw);
}

fn result(rank: u32, title: &str) -> SearchResult {
    SearchResult {
        rank,
        title: title.to_string(),
        url: format!("https://{title}.example"),
        snippet: Some("s".to_string()),
        site: None,
        published: Some("2024".to_string()),
    }
}

#[test]
fn translate_keeps_results_field_for_field() {
    let resp = SearchResponse {
        results: vec![result(1, "a"), result(2, "b")],
        quick_answer: Some(QuickAnswer { source: "Wikipedia".to_string(), text: "t".to_string(), url: None }),
        related_queries: vec!["x".to_string()],
        total_results: Some(42),
        next_page: Some(2),
    };
    let p = translate("q".to_string(), resp);
    assert_eq!(p.query, "q");
    assert_eq!(p.count, 2);
    assert_eq!(p.results[1].n, 2);
    assert_eq!(p.results[1].title, "b");
    assert_eq!(p.results[0].date.as_deref(), Some("2024"));
    assert_eq!(p.quick_answer.as_ref().map(|q| q.text.as_str()), Some("t"));
    assert_eq!(p.related, vec!["x".to_string()]);
    assert_eq!(p.total_results, Some(42));
    assert_eq!(p.next_page, Some(2));
}

#[test]
fn fastgpt_sources_are_numbered_from_one() {
    let ans = FastGptAnswer {
        answer: "Paris [1] and [2]".to_string(),
        sources: vec![
            FastGptSource { title: "A".to_string(), url: "https://a".to_string(), snippet: None },
            FastGptSource { title: "B".to_string(), url: "https://b".to_string(), snippet: Some("b".to_string()) },
        ],
    };
    let p = FastGptPayload::from_domain("capital?".to_string(), ans);
    assert_eq!(p.query, "capital?");
    assert_eq!(p.answer, "Paris [1] and [2]");
    assert_eq!(p.sources.len(), 2);
    assert_eq!(p.sources[0].n, 1);
    assert_eq!(p.sources[1].n, 2);
    assert_eq!(p.sources[1].snippet.as_deref(), Some("b"));
}

#[test]
fn translate_vertical_names_the_vertical() {
    let r = VerticalResult {
        rank: 1,
        title: "t".to_string(),
        url: "https://u".to_string(),
        snippet: None,
        site: Some("site".to_string()),
        published: None,
        image_url: Some("https://i".to_string()),
        thumbnail_url: None,
        duration: Some("3:00".to_string()),
        source: Some("pub".to_string()),
    };
    let p = translate_vertical("q".to_string(), KagiVertical::Videos, VerticalResponse { results: vec![r] });
    assert_eq!(p.vertical, "videos");
    assert_eq!(p.count, 1);
    assert_eq!(p.results[0].duration.as_deref(), Some("3:00"));
    assert_eq!(p.results[0].image_url.as_deref(), Some("https://i"));
    assert_eq!(p.results[0].source.as_deref(), Some("pub"));
}
