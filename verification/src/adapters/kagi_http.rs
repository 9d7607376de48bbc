//! The Kagi protocol: which URLs to ask, how to judge a response, how the
//! event streams are framed and sorted by tag, and how the pieces become
//! search, vertical, FastGPT, Wikipedia, autocomplete and lens results.
//!
//! Sending the requests is left to the caller; every decision about what
//! to send and what the answer means is made here.

use vstd::prelude::*;

use crate::adapters::serp_parser::{
    answer_text_spec, after_details, count_from_text_spec, fastgpt_all_sources_spec,
    first_text, parse_fastgpt_answer, parse_lens_settings, parse_related_searches, parse_serp,
    parse_top_content_unique, parse_vertical_serp, parse_wikipedia_panel, related_from_texts_spec,
    results_view, serp_results, sources_view, strings_view, strings_contain, texts_of,
    vertical_results_spec, verticals_view, wikipedia_panel_spec, RELATED_SEL, RESULT_SEL,
};
use crate::domain::error::{fails_with, fails_with_prefix, ErrorKind};
use crate::domain::model::{opt_view, QuickAnswerV, SearchResultV, SessionAuthV, VerticalResultV};
use crate::domain::{
    DomainError, DomainResult, FastGptAnswer, KagiVertical, Lens, QuickAnswer, SearchQuery,
    SearchResponse, SearchResult, Session, SessionAuth, Suggestion, VerticalQuery,
    VerticalResponse, VerticalResult,
};
use crate::html::html_select;
use crate::num::{decimal, lemma_wrap_u32_succ, u64_to_string, usize_to_u32_wrapping, wrap_u32};
use crate::text::{
    chars_of, has_prefix, is_blank, lines, lines_spec, starts_with, str_eq, string_of, strip_prefix_spec,
    trim, trim_is_empty, trim_spec, trim_start, trim_start_spec,
};

verus! {

pub const KAGI_BASE: &'static str = "https://kagi.com";

// ---------------------------------------------------------------------
// URLs

/// The views of query pairs.
pub open spec fn pairs_view(v: Seq<(String, String)>) -> Seq<(Seq<char>, Seq<char>)> {
    v.map_values(|p: (String, String)| (p.0@, p.1@))
}

/// The serialisation of `base` parsed by `Url::parse`, with `pairs`
/// appended by `query_pairs_mut().append_pair` in order (form-urlencoded);
/// `None` when `base` does not parse.
pub uninterp spec fn url_with_query_spec(base: Seq<char>, pairs: Seq<(Seq<char>, Seq<char>)>) -> Option<Seq<char>>;

/// The serialisation of `s` parsed by `Url::parse`, `None` when it does
/// not parse.
pub uninterp spec fn url_parse_spec(s: Seq<char>) -> Option<Seq<char>>;

/// `Url::parse` then `query_pairs_mut().append_pair` for each pair, then
/// the URL's serialisation; the error is `url`'s description of why the
/// base did not parse.
#[verifier::external_body]
pub(crate) fn url_with_query(base: &str, pairs: &Vec<(String, String)>) -> (r: Result<String, String>)
    ensures
        r matches Ok(u) ==> url_with_query_spec(base@, pairs_view(pairs@)) == Some(u@),
        r is Err <==> url_with_query_spec(base@, pairs_view(pairs@)) is None,
{
    let mut url = url::Url::parse(base).map_err(|e| e.to_string())?;
    url.query_pairs_mut().extend_pairs(pairs.iter().map(|(k, v)| (k.as_str(), v.as_str())));
    Ok(url.to_string())
}

/// `Url::parse` then the URL's serialisation; the error is `url`'s
/// description of why it did not parse.
#[verifier::external_body]
pub(crate) fn url_parse(s: &str) -> (r: Result<String, String>)
    ensures
        r matches Ok(u) ==> url_parse_spec(s@) == Some(u@),
        r is Err <==> url_parse_spec(s@) is None,
{
    url::Url::parse(s).map(|u| u.to_string()).map_err(|e| e.to_string())
}

/// The error of a URL that `url` could not build: its description after
/// `url parse: `.
fn url_error(e: String) -> (d: DomainError)
    ensures
        d.kind() == ErrorKind::NetworkError,
        d.detail() == "url parse: "@ + e@,
        fails_with_prefix(DomainResult::<()>::Err(d), ErrorKind::NetworkError, "url parse: "@),
{
    let m = String::from_str("url parse: ").concat(e.as_str());
    proof {
        assert(("url parse: "@ + e@).take("url parse: "@.len() as int) =~= "url parse: "@);
    }
    DomainError::NetworkError(m)
}

fn pair(k: &str, v: String) -> (r: (String, String))
    ensures
        r.0@ == k@,
        r.1@ == v@,
{
    (String::from_str(k), v)
}

/// The query pairs of a web search: `q`; `batch` and `piece=1` for pages
/// after the first; `date`, `r`, `safe` and `l` for the filters that are
/// set; `token` for a Session Link session.
pub open spec fn search_pairs_spec(q: SearchQuery, auth: SessionAuth) -> Seq<(Seq<char>, Seq<char>)> {
    let p0: Seq<(Seq<char>, Seq<char>)> = seq![("q"@, q.q@)];
    let p1 = match q.page {
        Some(page) => if page > 1 {
            p0.push(("batch"@, decimal(page as nat))).push(("piece"@, "1"@))
        } else {
            p0
        },
        None => p0,
    };
    let p2 = match q.time {
        Some(t) => p1.push(("date"@, t.kagi_spec())),
        None => p1,
    };
    let p3 = match q.region {
        Some(r) => p2.push(("r"@, r@)),
        None => p2,
    };
    let p4 = match q.safe {
        Some(s) => p3.push(("safe"@, s.kagi_spec())),
        None => p3,
    };
    let p5 = match q.lens {
        Some(l) => p4.push(("l"@, decimal(l as nat))),
        None => p4,
    };
    match auth {
        SessionAuth::UrlToken(t) => p5.push(("token"@, t@)),
        _ => p5,
    }
}

/// The query pairs of a web search.
pub fn search_query_pairs(query: &SearchQuery, session: &Session) -> (r: Vec<(String, String)>)
    ensures
        pairs_view(r@) == search_pairs_spec(*query, session.auth),
{
    let mut v: Vec<(String, String)> = Vec::new();
    v.push(pair("q", query.q.clone()));
    match query.page {
        Some(page) => if page > 1 {
            v.push(pair("batch", u64_to_string(page as u64)));
            v.push(pair("piece", String::from_str("1")));
        },
        None => {},
    }
    match query.time {
        Some(t) => v.push(pair("date", String::from_str(t.as_kagi()))),
        None => {},
    }
    match &query.region {
        Some(r) => v.push(pair("r", r.clone())),
        None => {},
    }
    match query.safe {
        Some(s) => v.push(pair("safe", String::from_str(s.as_kagi()))),
        None => {},
    }
    match query.lens {
        Some(l) => v.push(pair("l", u64_to_string(l as u64))),
        None => {},
    }
    match &session.auth {
        SessionAuth::UrlToken(t) => v.push(pair("token", t.clone())),
        _ => {},
    }
    proof {
        assert(pairs_view(v@) =~= search_pairs_spec(*query, session.auth));
    }
    v
}

/// The address of the search stream endpoint.
pub open spec fn search_base() -> Seq<char> {
    "https://kagi.com/socket/search"@
}

/// The URL of a web search; a base that does not parse is a network
/// error.
pub fn build_search_url(query: &SearchQuery, session: &Session) -> (r: DomainResult<String>)
    ensures
        match url_with_query_spec(search_base(), search_pairs_spec(*query, session.auth)) {
            Some(u) => r matches Ok(x) && x@ == u,
            None => fails_with_prefix(r, ErrorKind::NetworkError, "url parse: "@),
        },
{
    let pairs = search_query_pairs(query, session);
    match url_with_query("https://kagi.com/socket/search", &pairs) {
        Ok(u) => Ok(u),
        Err(e) => Err(url_error(e)),
    }
}

/// Checks a web search before any request: the query must not be blank
/// and a lens slot must be 0 to 7.
pub fn validate_search(query: &SearchQuery) -> (r: DomainResult<()>)
    ensures
        is_blank(query.q@) ==> fails_with(r, ErrorKind::InvalidQuery, "query is empty"@),
        !is_blank(query.q@) && (query.lens matches Some(l) && l > 7) ==> fails_with(
            r,
            ErrorKind::InvalidQuery,
            "lens slot "@ + decimal(query.lens->0 as nat)
                + " is out of range (valid: 0-7); call kagi_list_lenses to see your active lenses in slot order"@,
        ),
        !is_blank(query.q@) && !(query.lens matches Some(l) && l > 7) ==> r is Ok,
{
    if trim_is_empty(query.q.as_str()) {
        return Err(DomainError::InvalidQuery(String::from_str("query is empty")));
    }
    match query.lens {
        Some(lens) => if lens > 7 {
            return Err(
                DomainError::InvalidQuery(
                    String::from_str("lens slot ").concat(u64_to_string(lens as u64).as_str()).concat(
                        " is out of range (valid: 0-7); call kagi_list_lenses to see your active lenses in slot order",
                    ),
                ),
            );
        },
        None => {},
    }
    Ok(())
}

/// Refuses a blank query.
pub fn validate_query_text(q: &str) -> (r: DomainResult<()>)
    ensures
        is_blank(q@) ==> fails_with(r, ErrorKind::InvalidQuery, "query is empty"@),
        !is_blank(q@) <==> r is Ok,
{
    if trim_is_empty(q) {
        Err(DomainError::InvalidQuery(String::from_str("query is empty")))
    } else {
        Ok(())
    }
}

/// The URL of a Wikipedia lookup.
pub fn wikipedia_url(query: &str) -> (r: DomainResult<String>)
    ensures
        is_blank(query@) ==> fails_with(r, ErrorKind::InvalidQuery, "query is empty"@),
        !is_blank(query@) ==> match url_with_query_spec("https://kagi.com/api/wikipedia"@, seq![("q"@, query@)]) {
            Some(u) => r matches Ok(x) && x@ == u,
            None => fails_with_prefix(r, ErrorKind::NetworkError, "url parse: "@),
        },
{
    validate_query_text(query)?;
    let mut pairs: Vec<(String, String)> = Vec::new();
    pairs.push(pair("q", String::from_str(query)));
    proof {
        assert(pairs_view(pairs@) =~= seq![("q"@, query@)]);
    }
    match url_with_query("https://kagi.com/api/wikipedia", &pairs) {
        Ok(u) => Ok(u),
        Err(e) => Err(url_error(e)),
    }
}

/// The URL of an autocompletion, or nothing to ask for an empty prefix.
pub fn suggest_url(prefix: &str) -> (r: DomainResult<Option<String>>)
    ensures
        prefix@.len() == 0 ==> r matches Ok(None),
        prefix@.len() > 0 ==> match url_with_query_spec("https://kagi.com/autosuggest"@, seq![("q"@, prefix@)]) {
            Some(u) => r matches Ok(Some(x)) && x@ == u,
            None => fails_with_prefix(r, ErrorKind::NetworkError, "url parse: "@),
        },
{
    if prefix.is_empty() {
        return Ok(None);
    }
    let mut pairs: Vec<(String, String)> = Vec::new();
    pairs.push(pair("q", String::from_str(prefix)));
    proof {
        assert(pairs_view(pairs@) =~= seq![("q"@, prefix@)]);
    }
    match url_with_query("https://kagi.com/autosuggest", &pairs) {
        Ok(u) => Ok(Some(u)),
        Err(e) => Err(url_error(e)),
    }
}

/// The URL of a FastGPT question.
pub fn fastgpt_url(query: &str) -> (r: DomainResult<String>)
    ensures
        is_blank(query@) ==> fails_with(r, ErrorKind::InvalidQuery, "query is empty"@),
        !is_blank(query@) ==> match url_with_query_spec("https://kagi.com/stream_fastgpt"@, seq![("query"@, query@)]) {
            Some(u) => r matches Ok(x) && x@ == u,
            None => fails_with_prefix(r, ErrorKind::NetworkError, "url parse: "@),
        },
{
    validate_query_text(query)?;
    let mut pairs: Vec<(String, String)> = Vec::new();
    pairs.push(pair("query", String::from_str(query)));
    proof {
        assert(pairs_view(pairs@) =~= seq![("query"@, query@)]);
    }
    match url_with_query("https://kagi.com/stream_fastgpt", &pairs) {
        Ok(u) => Ok(u),
        Err(e) => Err(url_error(e)),
    }
}

/// The URL of the lens settings page.
pub fn lenses_url() -> (r: DomainResult<String>)
    ensures
        match url_parse_spec("https://kagi.com/settings/lenses"@) {
            Some(u) => r matches Ok(x) && x@ == u,
            None => fails_with_prefix(r, ErrorKind::NetworkError, "url parse: "@),
        },
{
    match url_parse("https://kagi.com/settings/lenses") {
        Ok(u) => Ok(u),
        Err(e) => Err(url_error(e)),
    }
}

/// The query pairs of a vertical search: `q`, then `freshness`, `order`,
/// `dir=desc`, `ai`, `aspect`, `color` and `duration` for the filters
/// that are set.
pub open spec fn vertical_pairs_spec(q: VerticalQuery) -> Seq<(Seq<char>, Seq<char>)> {
    let p0: Seq<(Seq<char>, Seq<char>)> = seq![("q"@, q.q@)];
    let p1 = match q.freshness {
        Some(t) => p0.push(("freshness"@, t.freshness_spec())),
        None => p0,
    };
    let p2 = match q.order {
        Some(o) => p1.push(("order"@, decimal(o as nat))),
        None => p1,
    };
    let p3 = if q.dir_desc {
        p2.push(("dir"@, "desc"@))
    } else {
        p2
    };
    let p4 = match q.ai_filter {
        Some(a) => p3.push(("ai"@, a@)),
        None => p3,
    };
    let p5 = match q.aspect {
        Some(a) => p4.push(("aspect"@, a@)),
        None => p4,
    };
    let p6 = match q.color {
        Some(c) => p5.push(("color"@, c@)),
        None => p5,
    };
    match q.duration {
        Some(d) => p6.push(("duration"@, d@)),
        None => p6,
    }
}

/// Whether the `k`-th filter of a vertical query is set, the filters
/// taken in the order `freshness`, `order`, `dir`, `ai`, `aspect`,
/// `color`, `duration`.
pub open spec fn filter_is_set(q: VerticalQuery, k: int) -> bool {
    if k == 0 {
        q.freshness is Some
    } else if k == 1 {
        q.order is Some
    } else if k == 2 {
        q.dir_desc
    } else if k == 3 {
        q.ai_filter is Some
    } else if k == 4 {
        q.aspect is Some
    } else if k == 5 {
        q.color is Some
    } else if k == 6 {
        q.duration is Some
    } else {
        false
    }
}

/// How many of the first `k` filters of a vertical query are set.
pub open spec fn set_before(q: VerticalQuery, k: int) -> int
    decreases k,
{
    if k <= 0 {
        0
    } else {
        set_before(q, k - 1) + if filter_is_set(q, k - 1) {
            1int
        } else {
            0
        }
    }
}

/// A vertical search sends the query first, then every filter that is
/// set, under its own name with its value, in the order `freshness`,
/// `order`, `dir`, `ai`, `aspect`, `color`, `duration`, and nothing else:
/// one pair more than there are filters set.
pub proof fn law_vertical_filters_sent(q: VerticalQuery)
    ensures
        vertical_pairs_spec(q)[0] == ("q"@, q.q@),
        vertical_pairs_spec(q).len() == 1 + set_before(q, 7),
        q.freshness matches Some(t) ==> vertical_pairs_spec(q)[1 + set_before(q, 0)] == ("freshness"@, t.freshness_spec()),
        q.order matches Some(o) ==> vertical_pairs_spec(q)[1 + set_before(q, 1)] == ("order"@, decimal(o as nat)),
        q.dir_desc ==> vertical_pairs_spec(q)[1 + set_before(q, 2)] == ("dir"@, "desc"@),
        q.ai_filter matches Some(a) ==> vertical_pairs_spec(q)[1 + set_before(q, 3)] == ("ai"@, a@),
        q.aspect matches Some(a) ==> vertical_pairs_spec(q)[1 + set_before(q, 4)] == ("aspect"@, a@),
        q.color matches Some(c) ==> vertical_pairs_spec(q)[1 + set_before(q, 5)] == ("color"@, c@),
        q.duration matches Some(d) ==> vertical_pairs_spec(q)[1 + set_before(q, 6)] == ("duration"@, d@),
        q.color matches Some(c) ==> vertical_pairs_spec(q).contains(("color"@, c@)),
{
    let p = vertical_pairs_spec(q);
    let f1: int = if q.freshness is Some { 1int } else { 0 };
    let f2: int = f1 + if q.order is Some { 1int } else { 0 };
    let f3: int = f2 + if q.dir_desc { 1int } else { 0 };
    let f4: int = f3 + if q.ai_filter is Some { 1int } else { 0 };
    let f5: int = f4 + if q.aspect is Some { 1int } else { 0 };
    let f6: int = f5 + if q.color is Some { 1int } else { 0 };
    let f7: int = f6 + if q.duration is Some { 1int } else { 0 };
    assert(set_before(q, 0) == 0);
    assert(set_before(q, 1) == f1);
    assert(set_before(q, 2) == f2);
    assert(set_before(q, 3) == f3);
    assert(set_before(q, 4) == f4);
    assert(set_before(q, 5) == f5);
    assert(set_before(q, 6) == f6);
    assert(set_before(q, 7) == f7);
    match q.freshness {
        Some(t) => assert(p[1] == ("freshness"@, t.freshness_spec())),
        None => {},
    }
    match q.order {
        Some(o) => assert(p[1 + f1] == ("order"@, decimal(o as nat))),
        None => {},
    }
    if q.dir_desc {
        assert(p[1 + f2] == ("dir"@, "desc"@));
    }
    match q.ai_filter {
        Some(a) => assert(p[1 + f3] == ("ai"@, a@)),
        None => {},
    }
    match q.aspect {
        Some(a) => assert(p[1 + f4] == ("aspect"@, a@)),
        None => {},
    }
    match q.color {
        Some(c) => assert(p[1 + f5] == ("color"@, c@)),
        None => {},
    }
    match q.duration {
        Some(d) => assert(p[1 + f6] == ("duration"@, d@)),
        None => {},
    }
}

/// The query pairs of a vertical search.
pub fn vertical_query_pairs(query: &VerticalQuery) -> (r: Vec<(String, String)>)
    ensures
        pairs_view(r@) == vertical_pairs_spec(*query),
{
    let mut v: Vec<(String, String)> = Vec::new();
    v.push(pair("q", query.q.clone()));
    match query.freshness {
        Some(t) => v.push(pair("freshness", String::from_str(t.as_freshness()))),
        None => {},
    }
    match query.order {
        Some(o) => v.push(pair("order", u64_to_string(o as u64))),
        None => {},
    }
    if query.dir_desc {
        v.push(pair("dir", String::from_str("desc")));
    }
    match &query.ai_filter {
        Some(a) => v.push(pair("ai", a.clone())),
        None => {},
    }
    match &query.aspect {
        Some(a) => v.push(pair("aspect", a.clone())),
        None => {},
    }
    match &query.color {
        Some(c) => v.push(pair("color", c.clone())),
        None => {},
    }
    match &query.duration {
        Some(d) => v.push(pair("duration", d.clone())),
        None => {},
    }
    proof {
        assert(pairs_view(v@) =~= vertical_pairs_spec(*query));
    }
    v
}

/// The URL of a vertical search.
pub fn vertical_url(vertical: KagiVertical, query: &VerticalQuery) -> (r: DomainResult<String>)
    ensures
        is_blank(query.q@) ==> fails_with(r, ErrorKind::InvalidQuery, "query is empty"@),
        !is_blank(query.q@) ==> match url_with_query_spec("https://kagi.com"@ + vertical.path_spec(), vertical_pairs_spec(*query)) {
            Some(u) => r matches Ok(x) && x@ == u,
            None => fails_with_prefix(r, ErrorKind::NetworkError, "url parse: "@),
        },
{
    validate_query_text(query.q.as_str())?;
    let base = String::from_str("https://kagi.com").concat(vertical.path());
    let pairs = vertical_query_pairs(query);
    match url_with_query(base.as_str(), &pairs) {
        Ok(u) => Ok(u),
        Err(e) => Err(url_error(e)),
    }
}

/// The `Cookie` header value of a cookie session (`name=value`); a
/// Session Link session sends no cookie.
pub fn cookie_header(session: &Session) -> (r: Option<String>)
    ensures
        match session.auth {
            SessionAuth::Cookie { name, value } => r matches Some(h) && h@ == name@ + "="@ + value@,
            SessionAuth::UrlToken(_) => r is None,
        },
{
    match &session.auth {
        SessionAuth::Cookie { name, value } => Some(name.clone().concat("=").concat(value.as_str())),
        SessionAuth::UrlToken(_) => None,
    }
}

/// The `Cookie` header a session sends to Kagi: `name=value` of its
/// cookie; a Session Link session sends none (its token is in the URL).
pub open spec fn session_cookie(auth: SessionAuthV) -> Option<Seq<char>> {
    match auth {
        SessionAuthV::Cookie { name, value } => Some(name + "="@ + value),
        SessionAuthV::UrlToken(_) => None,
    }
}

/// The `Accept-Language` header of every request to Kagi.
pub const KAGI_ACCEPT_LANGUAGE: &'static str = "en-US,en;q=0.9";

/// The Kagi endpoints the client asks.
#[derive(Clone, Copy)]
pub enum KagiEndpoint {
    Search,
    Wikipedia,
    Suggest,
    FastGpt,
    Vertical(KagiVertical),
    Lenses,
}

impl KagiEndpoint {
    /// The `Accept` header an endpoint is asked with. The streaming
    /// endpoints answer with results only to `text/event-stream`; without
    /// it a vertical sends the page shell with empty result containers.
    pub open spec fn accept_spec(self) -> Seq<char> {
        match self {
            KagiEndpoint::Search => "text/event-stream"@,
            KagiEndpoint::Wikipedia => "text/html"@,
            KagiEndpoint::Suggest => "application/json"@,
            KagiEndpoint::FastGpt => "text/event-stream"@,
            KagiEndpoint::Vertical(_) => "text/event-stream"@,
            KagiEndpoint::Lenses => "text/html"@,
        }
    }

    /// The `Accept` header an endpoint is asked with.
    pub fn accept(self) -> (r: &'static str)
        ensures
            r@ == self.accept_spec(),
    {
        match self {
            KagiEndpoint::Search => "text/event-stream",
            KagiEndpoint::Wikipedia => "text/html",
            KagiEndpoint::Suggest => "application/json",
            KagiEndpoint::FastGpt => "text/event-stream",
            KagiEndpoint::Vertical(_) => "text/event-stream",
            KagiEndpoint::Lenses => "text/html",
        }
    }
}

/// A request to Kagi, as it goes out: the URL and the headers.
pub struct KagiRequest {
    pub url: String,
    /// The session's user agent.
    pub user_agent: String,
    pub accept: &'static str,
    pub accept_language: &'static str,
    /// The `Cookie` header, for a cookie session.
    pub cookie: Option<String>,
}

/// The request that asks `endpoint` at `url` with `session`: the session's
/// user agent, the endpoint's `Accept`, English as the language, and the
/// session's cookie where it has one.
pub fn kagi_request(endpoint: KagiEndpoint, url: String, session: &Session) -> (r: KagiRequest)
    ensures
        r.url@ == url@,
        r.user_agent@ == session.user_agent@,
        r.accept@ == endpoint.accept_spec(),
        r.accept_language@ == KAGI_ACCEPT_LANGUAGE@,
        opt_view(r.cookie) == session_cookie(session.auth@),
{
    let cookie = cookie_header(session);
    KagiRequest {
        url,
        user_agent: session.user_agent.clone(),
        accept: endpoint.accept(),
        accept_language: KAGI_ACCEPT_LANGUAGE,
        cookie,
    }
}

// ---------------------------------------------------------------------
// Responses

/// Whether an HTTP status is a success (200 to 299).
pub open spec fn is_success(status: u16) -> bool {
    200 <= status <= 299
}

/// Judges the response to a web search: a redirect to the sign-in page
/// means the session was rejected; any other non-success status is a
/// network error. `status_text` is the status as it is displayed.
pub fn check_search_response(final_path: &str, status: u16, status_text: &str) -> (r: DomainResult<()>)
    ensures
        has_prefix(final_path@, "/signin"@) ==> fails_with(
            r,
            ErrorKind::SessionRejected,
            "kagi redirected to "@ + final_path@ + " (HTTP "@ + status_text@ + "); session is missing or expired"@,
        ),
        !has_prefix(final_path@, "/signin"@) && !is_success(status) ==> fails_with(
            r,
            ErrorKind::NetworkError,
            "kagi returned HTTP "@ + status_text@,
        ),
        !has_prefix(final_path@, "/signin"@) && is_success(status) ==> r is Ok,
{
    if starts_with(final_path, "/signin") {
        return Err(
            DomainError::SessionRejected(
                String::from_str("kagi redirected to ").concat(final_path).concat(" (HTTP ").concat(
                    status_text,
                ).concat("); session is missing or expired"),
            ),
        );
    }
    if !(200 <= status && status <= 299) {
        return Err(DomainError::NetworkError(String::from_str("kagi returned HTTP ").concat(status_text)));
    }
    Ok(())
}

/// A redirect to the sign-in page means the session was rejected.
pub fn check_signin(final_path: &str) -> (r: DomainResult<()>)
    ensures
        has_prefix(final_path@, "/signin"@) ==> fails_with(
            r,
            ErrorKind::SessionRejected,
            "kagi redirected to "@ + final_path@ + "; session is missing or expired"@,
        ),
        !has_prefix(final_path@, "/signin"@) <==> r is Ok,
{
    if starts_with(final_path, "/signin") {
        return Err(
            DomainError::SessionRejected(
                String::from_str("kagi redirected to ").concat(final_path).concat("; session is missing or expired"),
            ),
        );
    }
    Ok(())
}

/// Judges the response of one of the other endpoints (`endpoint` is its
/// path as the error message names it).
pub fn check_endpoint_response(endpoint: &str, final_path: &str, status: u16, status_text: &str) -> (r: DomainResult<()>)
    ensures
        has_prefix(final_path@, "/signin"@) ==> fails_with(
            r,
            ErrorKind::SessionRejected,
            "kagi redirected to "@ + final_path@ + "; session is missing or expired"@,
        ),
        !has_prefix(final_path@, "/signin"@) && !is_success(status) ==> fails_with(
            r,
            ErrorKind::NetworkError,
            "kagi "@ + endpoint@ + " returned HTTP "@ + status_text@,
        ),
        !has_prefix(final_path@, "/signin"@) && is_success(status) ==> r is Ok,
{
    check_signin(final_path)?;
    if !(200 <= status && status <= 299) {
        return Err(
            DomainError::NetworkError(
                String::from_str("kagi ").concat(endpoint).concat(" returned HTTP ").concat(status_text),
            ),
        );
    }
    Ok(())
}

// ---------------------------------------------------------------------
// Event streams

/// The JSON texts carried by the `data:` lines of an event stream: each
/// line that starts with `data:`, with that prefix and the following
/// whitespace removed, kept when not empty.
pub open spec fn sse_payloads_spec(lines: Seq<Seq<char>>) -> Seq<Seq<char>>
    decreases lines.len(),
{
    if lines.len() == 0 {
        seq![]
    } else {
        let prev = sse_payloads_spec(lines.drop_last());
        match strip_prefix_spec(lines.last(), "data:"@) {
            None => prev,
            Some(rest) => {
                let json = trim_start_spec(rest);
                if json.len() == 0 {
                    prev
                } else {
                    prev.push(json)
                }
            },
        }
    }
}

/// The JSON texts of the `data:` lines of an event-stream body.
pub fn sse_data_payloads(body: &str) -> (r: Vec<String>)
    ensures
        strings_view(r@) == sse_payloads_spec(lines_spec(body@)),
{
    let v = chars_of(body);
    let ls = lines(&v);
    let ghost lv = ls@.map_values(|l: Vec<char>| l@);
    let prefix = chars_of("data:");
    proof {
        reveal_strlit("data:");
    }
    let mut out: Vec<String> = Vec::new();
    let mut i: usize = 0;
    while i < ls.len()
        invariant
            lv == ls@.map_values(|l: Vec<char>| l@),
            lv == lines_spec(body@),
            prefix@ == "data:"@,
            i <= ls@.len(),
            strings_view(out@) == sse_payloads_spec(lv.take(i as int)),
        decreases ls@.len() - i,
    {
        proof {
            assert(lv.take(i + 1).drop_last() =~= lv.take(i as int));
            assert(lv.take(i + 1).last() == ls@[i as int]@);
        }
        let line = &ls[i];
        if line.len() >= prefix.len() && crate::text::occurs_at_exec(line, &prefix, 0) {
            let ghost lp = line@;
            proof {
                assert(lp.take(5) =~= lp.subrange(0, 5));
            }
            let rest = crate::text::skip_vec(line, prefix.len());
            let json = trim_start(&rest);
            if json.len() > 0 {
                let ghost before = strings_view(out@);
                let js = string_of(&json);
                out.push(js);
                proof {
                    assert(strings_view(out@) =~= before.push(js@));
                }
            }
        } else {
            proof {
                if has_prefix(line@, "data:"@) {
                    assert(line@.take(5) =~= line@.subrange(0, 5));
                }
            }
        }
        i = i + 1;
    }
    proof {
        assert(lv.take(lv.len() as int) =~= lv);
    }
    out
}

/// What `serde_json::from_str::<String>` gives: the JSON string literal
/// decoded, `None` when the text is not exactly one JSON string.
pub uninterp spec fn json_string_spec(text: Seq<char>) -> Option<Seq<char>>;

/// `serde_json::from_str::<String>`.
#[verifier::external_body]
pub(crate) fn json_string(text: &str) -> (r: Option<String>)
    ensures
        opt_view(r) == json_string_spec(text@),
{
    serde_json::from_str::<String>(text).ok()
}

/// The payload of a stream message, as far as the protocol reads it.
pub enum StreamPayload {
    /// A JSON string: older builds send the HTML as a plain string.
    Text(String),
    /// A JSON object: the string in its `content` field, if any, and its
    /// `next_batch` field when that is an integer that fits an `i64`.
    Object { content: Option<String>, next_batch: Option<i64> },
    /// Any other JSON value.
    Other,
}

/// The abstract view of a `StreamPayload`.
pub enum StreamPayloadV {
    Text(Seq<char>),
    Object { content: Option<Seq<char>>, next_batch: Option<i64> },
    Other,
}

impl View for StreamPayload {
    type V = StreamPayloadV;

    open spec fn view(&self) -> StreamPayloadV {
        match self {
            StreamPayload::Text(s) => StreamPayloadV::Text(s@),
            StreamPayload::Object { content, next_batch } => StreamPayloadV::Object { content: opt_view(*content), next_batch: *next_batch },
            StreamPayload::Other => StreamPayloadV::Other,
        }
    }
}

/// One `{tag, payload}` message of a stream frame.
pub struct StreamMessage {
    pub tag: String,
    pub payload: StreamPayload,
}

/// The abstract view of a `StreamMessage`.
pub struct StreamMessageV {
    pub tag: Seq<char>,
    pub payload: StreamPayloadV,
}

impl View for StreamMessage {
    type V = StreamMessageV;

    open spec fn view(&self) -> StreamMessageV {
        StreamMessageV { tag: self.tag@, payload: self.payload@ }
    }
}

/// The HTML a payload carries: the string itself, or an object's
/// `content` string.
pub open spec fn payload_html(p: StreamPayloadV) -> Option<Seq<char>> {
    match p {
        StreamPayloadV::Text(s) => Some(s),
        StreamPayloadV::Object { content, .. } => content,
        StreamPayloadV::Other => None,
    }
}

/// The HTML chunks of the messages tagged `tag`, in order.
pub open spec fn tagged(msgs: Seq<StreamMessageV>, tag: Seq<char>) -> Seq<Seq<char>>
    decreases msgs.len(),
{
    if msgs.len() == 0 {
        seq![]
    } else {
        let prev = tagged(msgs.drop_last(), tag);
        let m = msgs.last();
        if m.tag == tag && m.tag != "search.info"@ {
            match payload_html(m.payload) {
                Some(h) => prev.push(h),
                None => prev,
            }
        } else {
            prev
        }
    }
}

/// The payloads of the `search.info` messages, in order.
pub open spec fn infos(msgs: Seq<StreamMessageV>) -> Seq<StreamPayloadV>
    decreases msgs.len(),
{
    if msgs.len() == 0 {
        seq![]
    } else {
        let prev = infos(msgs.drop_last());
        let m = msgs.last();
        if m.tag == "search.info"@ {
            prev.push(m.payload)
        } else {
            prev
        }
    }
}

/// The chunks of a stream, sorted by tag.
pub struct StreamParts {
    pub search: Vec<String>,
    pub interesting: Vec<String>,
    pub wikipedia: Vec<String>,
    pub related: Vec<String>,
    pub top_content_unique: Vec<String>,
    pub search_info: Vec<StreamPayload>,
    pub news: Vec<String>,
    pub videos: Vec<String>,
    pub images: Vec<String>,
    pub podcasts: Vec<String>,
}

/// The abstract view of `StreamParts`.
pub struct StreamPartsV {
    pub search: Seq<Seq<char>>,
    pub interesting: Seq<Seq<char>>,
    pub wikipedia: Seq<Seq<char>>,
    pub related: Seq<Seq<char>>,
    pub top_content_unique: Seq<Seq<char>>,
    pub search_info: Seq<StreamPayloadV>,
    pub news: Seq<Seq<char>>,
    pub videos: Seq<Seq<char>>,
    pub images: Seq<Seq<char>>,
    pub podcasts: Seq<Seq<char>>,
}

/// The views of a vector of payloads.
pub open spec fn payloads_view(v: Seq<StreamPayload>) -> Seq<StreamPayloadV> {
    v.map_values(|p: StreamPayload| p@)
}

impl View for StreamParts {
    type V = StreamPartsV;

    open spec fn view(&self) -> StreamPartsV {
        StreamPartsV {
            search: strings_view(self.search@),
            interesting: strings_view(self.interesting@),
            wikipedia: strings_view(self.wikipedia@),
            related: strings_view(self.related@),
            top_content_unique: strings_view(self.top_content_unique@),
            search_info: payloads_view(self.search_info@),
            news: strings_view(self.news@),
            videos: strings_view(self.videos@),
            images: strings_view(self.images@),
            podcasts: strings_view(self.podcasts@),
        }
    }
}

/// The parts of a stream with the given messages: each recognised tag
/// collects the HTML of its messages, `search.info` collects payloads,
/// other tags are ignored.
pub open spec fn parts_of(msgs: Seq<StreamMessageV>) -> StreamPartsV {
    StreamPartsV {
        search: tagged(msgs, "search"@),
        interesting: tagged(msgs, "interesting-finds"@),
        wikipedia: tagged(msgs, "wikipedia"@),
        related: tagged(msgs, "related_searches"@),
        top_content_unique: tagged(msgs, "top-content-unique"@),
        search_info: infos(msgs),
        news: tagged(msgs, "news"@),
        videos: tagged(msgs, "videos"@),
        images: tagged(msgs, "images"@),
        podcasts: tagged(msgs, "podcasts"@),
    }
}

/// The messages of the frames, in order.
pub open spec fn flatten_frames(frames: Seq<Seq<StreamMessageV>>) -> Seq<StreamMessageV>
    decreases frames.len(),
{
    if frames.len() == 0 {
        seq![]
    } else {
        flatten_frames(frames.drop_last()) + frames.last()
    }
}

/// The views of the frames.
pub open spec fn frames_view(v: Seq<Vec<StreamMessage>>) -> Seq<Seq<StreamMessageV>> {
    v.map_values(|f: Vec<StreamMessage>| f@.map_values(|m: StreamMessage| m@))
}

proof fn lemma_tagged_push(msgs: Seq<StreamMessageV>, m: StreamMessageV, tag: Seq<char>)
    ensures
        tagged(msgs.push(m), tag) == (if m.tag == tag && m.tag != "search.info"@ {
            match payload_html(m.payload) {
                Some(h) => tagged(msgs, tag).push(h),
                None => tagged(msgs, tag),
            }
        } else {
            tagged(msgs, tag)
        }),
        infos(msgs.push(m)) == (if m.tag == "search.info"@ {
            infos(msgs).push(m.payload)
        } else {
            infos(msgs)
        }),
{
    assert(msgs.push(m).drop_last() =~= msgs);
}

impl StreamParts {
    /// No chunks at all.
    pub fn new() -> (r: StreamParts)
        ensures
            r@ == parts_of(seq![]),
    {
        let r = StreamParts {
            search: Vec::new(),
            interesting: Vec::new(),
            wikipedia: Vec::new(),
            related: Vec::new(),
            top_content_unique: Vec::new(),
            search_info: Vec::new(),
            news: Vec::new(),
            videos: Vec::new(),
            images: Vec::new(),
            podcasts: Vec::new(),
        };
        proof {
            assert(r@.search =~= parts_of(seq![]).search);
            assert(r@.interesting =~= parts_of(seq![]).interesting);
            assert(r@.wikipedia =~= parts_of(seq![]).wikipedia);
            assert(r@.related =~= parts_of(seq![]).related);
            assert(r@.top_content_unique =~= parts_of(seq![]).top_content_unique);
            assert(r@.search_info =~= parts_of(seq![]).search_info);
            assert(r@.news =~= parts_of(seq![]).news);
            assert(r@.videos =~= parts_of(seq![]).videos);
            assert(r@.images =~= parts_of(seq![]).images);
            assert(r@.podcasts =~= parts_of(seq![]).podcasts);
        }
        r
    }

    /// Files one message under its tag.
    pub fn push_message(&mut self, m: &StreamMessage)
        ensures
            final(self)@ == add_message(old(self)@, m@),
    {
        proof {
            reveal_strlit("search.info");
            reveal_strlit("search");
            reveal_strlit("interesting-finds");
            reveal_strlit("wikipedia");
            reveal_strlit("related_searches");
            reveal_strlit("top-content-unique");
            reveal_strlit("news");
            reveal_strlit("videos");
            reveal_strlit("images");
            reveal_strlit("podcasts");
        }
        let is_info = str_eq(m.tag.as_str(), "search.info");
        if is_info {
            self.search_info.push(clone_payload(&m.payload));
            proof {
                assert(payloads_view(self.search_info@) =~= payloads_view(old(self).search_info@).push(m@.payload));
            }
            return;
        }
        let html = match &m.payload {
            StreamPayload::Text(s) => Some(s.clone()),
            StreamPayload::Object { content, next_batch: _ } => match content {
                Some(c) => Some(c.clone()),
                None => None,
            },
            StreamPayload::Other => None,
        };
        let html = match html {
            Some(h) => h,
            None => return,
        };
        let ghost hv = html@;
        let tag = m.tag.as_str();
        if str_eq(tag, "search") {
            let ghost before = strings_view(self.search@);
            self.search.push(html.clone());
            proof { assert(strings_view(self.search@) =~= before.push(hv)); }
        }
        if str_eq(tag, "interesting-finds") {
            let ghost before = strings_view(self.interesting@);
            self.interesting.push(html.clone());
            proof { assert(strings_view(self.interesting@) =~= before.push(hv)); }
        }
        if str_eq(tag, "wikipedia") {
            let ghost before = strings_view(self.wikipedia@);
            self.wikipedia.push(html.clone());
            proof { assert(strings_view(self.wikipedia@) =~= before.push(hv)); }
        }
        if str_eq(tag, "related_searches") {
            let ghost before = strings_view(self.related@);
            self.related.push(html.clone());
            proof { assert(strings_view(self.related@) =~= before.push(hv)); }
        }
        if str_eq(tag, "top-content-unique") {
            let ghost before = strings_view(self.top_content_unique@);
            self.top_content_unique.push(html.clone());
            proof { assert(strings_view(self.top_content_unique@) =~= before.push(hv)); }
        }
        if str_eq(tag, "news") {
            let ghost before = strings_view(self.news@);
            self.news.push(html.clone());
            proof { assert(strings_view(self.news@) =~= before.push(hv)); }
        }
        if str_eq(tag, "videos") {
            let ghost before = strings_view(self.videos@);
            self.videos.push(html.clone());
            proof { assert(strings_view(self.videos@) =~= before.push(hv)); }
        }
        if str_eq(tag, "images") {
            let ghost before = strings_view(self.images@);
            self.images.push(html.clone());
            proof { assert(strings_view(self.images@) =~= before.push(hv)); }
        }
        if str_eq(tag, "podcasts") {
            let ghost before = strings_view(self.podcasts@);
            self.podcasts.push(html.clone());
            proof { assert(strings_view(self.podcasts@) =~= before.push(hv)); }
        }
        proof {
            let b = add_message(old(self)@, m@);
            assert(payload_html(m@.payload) == Some(hv));
            assert(self@.search == b.search);
            assert(self@.interesting == b.interesting);
            assert(self@.wikipedia == b.wikipedia);
            assert(self@.related == b.related);
            assert(self@.top_content_unique == b.top_content_unique);
            assert(self@.search_info == b.search_info);
            assert(self@.news == b.news);
            assert(self@.videos == b.videos);
            assert(self@.images == b.images);
            assert(self@.podcasts == b.podcasts);
        }
    }

    /// The parts of a stream whose frames held these messages.
    pub fn from_frames(frames: &Vec<Vec<StreamMessage>>) -> (r: StreamParts)
        ensures
            r@ == parts_of(flatten_frames(frames_view(frames@))),
    {
        let ghost fv = frames_view(frames@);
        let mut parts = StreamParts::new();
        let mut k: usize = 0;
        while k < frames.len()
            invariant
                fv == frames_view(frames@),
                k <= frames@.len(),
                parts@ == parts_of(flatten_frames(fv.take(k as int))),
            decreases frames@.len() - k,
        {
            let frame = &frames[k];
            let ghost f = frame@.map_values(|m: StreamMessage| m@);
            let ghost start = flatten_frames(fv.take(k as int));
            let mut j: usize = 0;
            while j < frame.len()
                invariant
                    f == frame@.map_values(|m: StreamMessage| m@),
                    j <= frame@.len(),
                    parts@ == parts_of(start + f.take(j as int)),
                decreases frame@.len() - j,
            {
                proof {
                    add_message_correct(start + f.take(j as int), frame@[j as int]@);
                    assert(start + f.take(j + 1) =~= (start + f.take(j as int)).push(frame@[j as int]@));
                }
                parts.push_message(&frame[j]);
                j = j + 1;
            }
            proof {
                assert(f.take(f.len() as int) =~= f);
                assert(fv.take(k + 1).drop_last() =~= fv.take(k as int));
                assert(fv[k as int] == f);
            }
            k = k + 1;
        }
        proof {
            assert(fv.take(fv.len() as int) =~= fv);
        }
        parts
    }

    /// Whether no chunk of any kind arrived.
    pub fn is_empty(&self) -> (b: bool)
        ensures
            b == parts_empty(self@),
    {
        self.search.len() == 0 && self.interesting.len() == 0 && self.wikipedia.len() == 0
            && self.related.len() == 0 && self.top_content_unique.len() == 0
            && self.search_info.len() == 0 && self.news.len() == 0 && self.videos.len() == 0
            && self.images.len() == 0 && self.podcasts.len() == 0
    }

    /// The chunks of a vertical.
    pub fn vertical(&self, v: KagiVertical) -> (r: &Vec<String>)
        ensures
            strings_view(r@) == vertical_chunks(self@, v),
    {
        match v {
            KagiVertical::News => &self.news,
            KagiVertical::Videos => &self.videos,
            KagiVertical::Images => &self.images,
            KagiVertical::Podcasts => &self.podcasts,
        }
    }
}

/// A copy of a payload.
pub fn clone_payload(p: &StreamPayload) -> (r: StreamPayload)
    ensures
        r@ == p@,
{
    match p {
        StreamPayload::Text(s) => StreamPayload::Text(s.clone()),
        StreamPayload::Object { content, next_batch } => StreamPayload::Object {
            content: match content {
                Some(c) => Some(c.clone()),
                None => None,
            },
            next_batch: *next_batch,
        },
        StreamPayload::Other => StreamPayload::Other,
    }
}

/// A tag's chunks after one more message.
pub open spec fn add_tagged(chunks: Seq<Seq<char>>, m: StreamMessageV, tag: Seq<char>) -> Seq<Seq<char>> {
    if m.tag == tag && m.tag != "search.info"@ {
        match payload_html(m.payload) {
            Some(h) => chunks.push(h),
            None => chunks,
        }
    } else {
        chunks
    }
}

/// The parts after one more message.
pub open spec fn add_message(p: StreamPartsV, m: StreamMessageV) -> StreamPartsV {
    StreamPartsV {
        search: add_tagged(p.search, m, "search"@),
        interesting: add_tagged(p.interesting, m, "interesting-finds"@),
        wikipedia: add_tagged(p.wikipedia, m, "wikipedia"@),
        related: add_tagged(p.related, m, "related_searches"@),
        top_content_unique: add_tagged(p.top_content_unique, m, "top-content-unique"@),
        search_info: if m.tag == "search.info"@ {
            p.search_info.push(m.payload)
        } else {
            p.search_info
        },
        news: add_tagged(p.news, m, "news"@),
        videos: add_tagged(p.videos, m, "videos"@),
        images: add_tagged(p.images, m, "images"@),
        podcasts: add_tagged(p.podcasts, m, "podcasts"@),
    }
}

proof fn add_message_correct(msgs: Seq<StreamMessageV>, m: StreamMessageV)
    ensures
        parts_of(msgs.push(m)) == add_message(parts_of(msgs), m),
{
    lemma_tagged_push(msgs, m, "search"@);
    lemma_tagged_push(msgs, m, "interesting-finds"@);
    lemma_tagged_push(msgs, m, "wikipedia"@);
    lemma_tagged_push(msgs, m, "related_searches"@);
    lemma_tagged_push(msgs, m, "top-content-unique"@);
    lemma_tagged_push(msgs, m, "news"@);
    lemma_tagged_push(msgs, m, "videos"@);
    lemma_tagged_push(msgs, m, "images"@);
    lemma_tagged_push(msgs, m, "podcasts"@);
    let a = parts_of(msgs.push(m));
    let b = add_message(parts_of(msgs), m);
    assert(a.search == b.search);
    assert(a.interesting == b.interesting);
    assert(a.wikipedia == b.wikipedia);
    assert(a.related == b.related);
    assert(a.top_content_unique == b.top_content_unique);
    assert(a.search_info == b.search_info);
    assert(a.news == b.news);
    assert(a.videos == b.videos);
    assert(a.images == b.images);
    assert(a.podcasts == b.podcasts);
}

/// No chunk of any kind.
pub open spec fn parts_empty(p: StreamPartsV) -> bool {
    p.search.len() == 0 && p.interesting.len() == 0 && p.wikipedia.len() == 0 && p.related.len() == 0
        && p.top_content_unique.len() == 0 && p.search_info.len() == 0 && p.news.len() == 0
        && p.videos.len() == 0 && p.images.len() == 0 && p.podcasts.len() == 0
}

/// The chunks of a vertical.
pub open spec fn vertical_chunks(p: StreamPartsV, v: KagiVertical) -> Seq<Seq<char>> {
    match v {
        KagiVertical::News => p.news,
        KagiVertical::Videos => p.videos,
        KagiVertical::Images => p.images,
        KagiVertical::Podcasts => p.podcasts,
    }
}

// ---------------------------------------------------------------------
// Search results

/// The chunks, each followed by a line break.
pub open spec fn concat_nl(xs: Seq<Seq<char>>) -> Seq<char>
    decreases xs.len(),
{
    if xs.len() == 0 {
        seq![]
    } else {
        concat_nl(xs.drop_last()) + xs.last() + seq!['\n']
    }
}

/// Joins the chunks, each followed by a line break.
pub fn concat_chunks(xs: &Vec<String>, out: &mut String)
    ensures
        final(out)@ == old(out)@ + concat_nl(strings_view(xs@)),
{
    let ghost start = out@;
    let mut i: usize = 0;
    while i < xs.len()
        invariant
            i <= xs@.len(),
            out@ == start + concat_nl(strings_view(xs@).take(i as int)),
        decreases xs@.len() - i,
    {
        out.append(xs[i].as_str());
        out.append("\n");
        proof {
            reveal_strlit("\n");
            assert(strings_view(xs@).take(i + 1).drop_last() =~= strings_view(xs@).take(i as int));
            assert(out@ =~= start + concat_nl(strings_view(xs@).take(i + 1)));
        }
        i = i + 1;
    }
    proof {
        assert(strings_view(xs@).take(xs@.len() as int) =~= strings_view(xs@));
    }
}

proof fn lemma_concat_nl_append(a: Seq<Seq<char>>, b: Seq<Seq<char>>)
    ensures
        concat_nl(a + b) == concat_nl(a) + concat_nl(b),
    decreases b.len(),
{
    if b.len() == 0 {
        assert(a + b =~= a);
        assert(concat_nl(a) + concat_nl(b) =~= concat_nl(a));
    } else {
        assert((a + b).drop_last() =~= a + b.drop_last());
        lemma_concat_nl_append(a, b.drop_last());
        assert(concat_nl(a + b) =~= concat_nl(a) + concat_nl(b));
    }
}

/// The HTML of the main results: the `search` chunks, then the
/// `interesting-finds` chunks, each followed by a line break.
pub open spec fn main_results_html(p: StreamPartsV) -> Seq<char> {
    concat_nl(p.search + p.interesting)
}

/// At most `limit` results, when a limit is set.
pub open spec fn limit_results<T>(rs: Seq<T>, limit: Option<u8>) -> Seq<T> {
    match limit {
        Some(n) => if rs.len() > n {
            rs.take(n as int)
        } else {
            rs
        },
        None => rs,
    }
}

/// The results ranked 1, 2, ... in order.
pub open spec fn reranked(rs: Seq<SearchResultV>) -> Seq<SearchResultV> {
    Seq::new(rs.len(), |i: int| SearchResultV { rank: wrap_u32(i + 1), ..rs[i] })
}

/// The ranked results of a web search.
pub open spec fn search_results_spec(limit: Option<u8>, p: StreamPartsV) -> Seq<SearchResultV> {
    let html = main_results_html(p);
    let raw = if is_blank(html) {
        seq![]
    } else {
        serp_results(html, html_select(html, false, None, RESULT_SEL@))
    };
    reranked(limit_results(raw, limit))
}

/// The first knowledge panel found among the chunks.
pub open spec fn first_panel(ws: Seq<Seq<char>>) -> Option<QuickAnswerV>
    decreases ws.len(),
{
    if ws.len() == 0 {
        None
    } else {
        match wikipedia_panel_spec(ws[0]) {
            Some(q) => Some(q),
            None => first_panel(ws.drop_first()),
        }
    }
}

/// The queries of `qs` appended to `acc`, skipping those already there.
pub open spec fn add_unique(acc: Seq<Seq<char>>, qs: Seq<Seq<char>>) -> Seq<Seq<char>>
    decreases qs.len(),
{
    if qs.len() == 0 {
        acc
    } else {
        let prev = add_unique(acc, qs.drop_last());
        if prev.contains(qs.last()) {
            prev
        } else {
            prev.push(qs.last())
        }
    }
}

/// The related searches of one chunk.
pub open spec fn related_of(html: Seq<char>) -> Seq<Seq<char>> {
    related_from_texts_spec(texts_of(html, true, html_select(html, true, None, RELATED_SEL@)))
}

/// The related searches of all chunks, first occurrences only.
pub open spec fn related_all(rs: Seq<Seq<char>>) -> Seq<Seq<char>>
    decreases rs.len(),
{
    if rs.len() == 0 {
        seq![]
    } else {
        add_unique(related_all(rs.drop_last()), related_of(rs.last()))
    }
}

/// The first result count found among the chunks.
pub open spec fn first_total(ts: Seq<Seq<char>>) -> Option<u64>
    decreases ts.len(),
{
    if ts.len() == 0 {
        None
    } else {
        match count_from_text_spec(first_text(ts[0], true, None, "i"@)) {
            Some(n) => Some(n),
            None => first_total(ts.drop_first()),
        }
    }
}

/// The next page: the first positive `next_batch` of the `search.info`
/// payloads (Kagi sends -1 on the last page), as a `u32`.
pub open spec fn next_page_spec(infos: Seq<StreamPayloadV>) -> Option<u32>
    decreases infos.len(),
{
    if infos.len() == 0 {
        None
    } else {
        match infos[0] {
            StreamPayloadV::Object { next_batch: Some(n), .. } => if n > 0 {
                Some(wrap_u32(n as int))
            } else {
                next_page_spec(infos.drop_first())
            },
            _ => next_page_spec(infos.drop_first()),
        }
    }
}

/// The view of an optional quick answer.
pub open spec fn qa_view(q: Option<QuickAnswer>) -> Option<QuickAnswerV> {
    match q {
        Some(a) => Some(a@),
        None => None,
    }
}

/// Whether a response matches what the stream parts say.
pub open spec fn search_response_matches(r: SearchResponse, limit: Option<u8>, p: StreamPartsV) -> bool {
    &&& results_view(r.results@) == search_results_spec(limit, p)
    &&& qa_view(r.quick_answer) == first_panel(p.wikipedia)
    &&& strings_view(r.related_queries@) == related_all(p.related)
    &&& r.total_results == first_total(p.top_content_unique)
    &&& r.next_page == next_page_spec(p.search_info)
}

/// Truncates to the limit and ranks 1, 2, ... in order.
pub fn limit_and_rank(results: Vec<SearchResult>, limit: Option<u8>) -> (r: Vec<SearchResult>)
    ensures
        results_view(r@) == reranked(limit_results(results_view(results@), limit)),
        forall|i: int| 0 <= i < r@.len() ==> #[trigger] r@[i].rank == wrap_u32(i + 1),
        limit matches Some(n) ==> r@.len() <= n,
{
    let mut results = results;
    let ghost rv = results_view(results@);
    match limit {
        Some(n) => {
            results.truncate(n as usize);
            proof {
                assert(results_view(results@) =~= limit_results(rv, limit));
            }
        },
        None => {},
    }
    let ghost lv = results_view(results@);
    let mut out: Vec<SearchResult> = Vec::new();
    let n = results.len();
    let mut i: usize = 0;
    let mut rest = results;
    proof {
        assert(lv.skip(0) =~= lv);
        assert(results_view(out@) =~= reranked(lv).take(0));
    }
    while i < n
        invariant
            n == lv.len(),
            i <= n,
            results_view(rest@) == lv.skip(i as int),
            rest@.len() == n - i,
            results_view(out@) == reranked(lv).take(i as int),
            forall|k: int| 0 <= k < out@.len() ==> #[trigger] out@[k].rank == wrap_u32(k + 1),
        decreases n - i,
    {
        let ghost old_rest = rest@;
        let r = rest.remove(0);
        proof {
            assert(results_view(old_rest)[0] == old_rest[0]@);
            assert(lv.skip(i as int)[0] == r@);
            assert(rest@ =~= old_rest.drop_first());
            assert(results_view(rest@) =~= results_view(old_rest).drop_first());
            assert(lv.skip(i as int).drop_first() =~= lv.skip(i + 1));
        }
        let rank = usize_to_u32_wrapping(i + 1);
        let nr = SearchResult {
            rank,
            title: r.title,
            url: r.url,
            snippet: r.snippet,
            site: r.site,
            published: r.published,
        };
        let ghost before = results_view(out@);
        proof {
            assert(r@ == lv[i as int]);
            assert(nr@ == reranked(lv)[i as int]);
        }
        out.push(nr);
        proof {
            assert(results_view(out@) =~= before.push(nr@));
            assert(reranked(lv).take(i + 1) =~= reranked(lv).take(i as int).push(reranked(lv)[i as int]));
            assert(results_view(out@) =~= reranked(lv).take(i + 1));
        }
        i = i + 1;
    }
    proof {
        assert(reranked(lv).take(n as int) =~= reranked(lv));
    }
    out
}

/// The first knowledge panel among the chunks.
pub fn first_quick_answer(ws: &Vec<String>) -> (r: Option<QuickAnswer>)
    ensures
        qa_view(r) == first_panel(strings_view(ws@)),
{
    let ghost wv = strings_view(ws@);
    let mut i: usize = 0;
    proof {
        assert(wv.skip(0) =~= wv);
    }
    while i < ws.len()
        invariant
            wv == strings_view(ws@),
            i <= ws@.len(),
            first_panel(wv) == first_panel(wv.skip(i as int)),
        decreases ws@.len() - i,
    {
        proof {
            assert(wv.skip(i as int)[0] == ws@[i as int]@);
            assert(wv.skip(i as int).drop_first() =~= wv.skip(i + 1));
        }
        match parse_wikipedia_panel(ws[i].as_str()) {
            Some(q) => return Some(q),
            None => {},
        }
        i = i + 1;
    }
    None
}

/// The related searches of all chunks, first occurrences only.
pub fn collect_related(rs: &Vec<String>) -> (r: Vec<String>)
    ensures
        strings_view(r@) == related_all(strings_view(rs@)),
{
    let ghost rv = strings_view(rs@);
    let mut out: Vec<String> = Vec::new();
    let mut i: usize = 0;
    while i < rs.len()
        invariant
            rv == strings_view(rs@),
            i <= rs@.len(),
            strings_view(out@) == related_all(rv.take(i as int)),
        decreases rs@.len() - i,
    {
        proof {
            assert(rv.take(i + 1).drop_last() =~= rv.take(i as int));
            assert(rv.take(i + 1).last() == rs@[i as int]@);
        }
        let qs = parse_related_searches(rs[i].as_str());
        let ghost acc = strings_view(out@);
        let mut j: usize = 0;
        while j < qs.len()
            invariant
                j <= qs@.len(),
                strings_view(out@) == add_unique(acc, strings_view(qs@).take(j as int)),
            decreases qs@.len() - j,
        {
            proof {
                assert(strings_view(qs@).take(j + 1).drop_last() =~= strings_view(qs@).take(j as int));
                assert(strings_view(qs@).take(j + 1).last() == qs@[j as int]@);
            }
            if !strings_contain(&out, qs[j].as_str()) {
                let ghost before = strings_view(out@);
                out.push(qs[j].clone());
                proof {
                    assert(strings_view(out@) =~= before.push(qs@[j as int]@));
                }
            }
            j = j + 1;
        }
        proof {
            assert(strings_view(qs@).take(qs@.len() as int) =~= strings_view(qs@));
        }
        i = i + 1;
    }
    proof {
        assert(rv.take(rv.len() as int) =~= rv);
    }
    out
}

/// The first result count among the chunks.
pub fn first_total_results(ts: &Vec<String>) -> (r: Option<u64>)
    ensures
        r == first_total(strings_view(ts@)),
{
    let ghost tv = strings_view(ts@);
    let mut i: usize = 0;
    proof {
        assert(tv.skip(0) =~= tv);
    }
    while i < ts.len()
        invariant
            tv == strings_view(ts@),
            i <= ts@.len(),
            first_total(tv) == first_total(tv.skip(i as int)),
        decreases ts@.len() - i,
    {
        proof {
            assert(tv.skip(i as int)[0] == ts@[i as int]@);
            assert(tv.skip(i as int).drop_first() =~= tv.skip(i + 1));
        }
        match parse_top_content_unique(ts[i].as_str()) {
            Some(n) => return Some(n),
            None => {},
        }
        i = i + 1;
    }
    None
}

/// The next page announced by the `search.info` payloads.
pub fn next_page(infos: &Vec<StreamPayload>) -> (r: Option<u32>)
    ensures
        r == next_page_spec(payloads_view(infos@)),
{
    let ghost iv = payloads_view(infos@);
    let mut i: usize = 0;
    proof {
        assert(iv.skip(0) =~= iv);
    }
    while i < infos.len()
        invariant
            iv == payloads_view(infos@),
            i <= infos@.len(),
            next_page_spec(iv) == next_page_spec(iv.skip(i as int)),
        decreases infos@.len() - i,
    {
        proof {
            assert(iv.skip(i as int)[0] == infos@[i as int]@);
            assert(iv.skip(i as int).drop_first() =~= iv.skip(i + 1));
        }
        match &infos[i] {
            StreamPayload::Object { content: _, next_batch: Some(n) } => if *n > 0 {
                return Some(((*n as u64) % 4294967296u64) as u32);
            },
            _ => {},
        }
        i = i + 1;
    }
    None
}

/// The answer to a web search from the parts of its stream: the results
/// of the `search` and `interesting-finds` chunks, cut to the limit and
/// ranked from 1; the first knowledge panel; the related searches without
/// repeats; the first result count; the next page. A stream with no
/// results, no panel and no recognised chunk at all is a parse error.
pub fn search_response_from_parts(query: &SearchQuery, parts: &StreamParts) -> (r: DomainResult<SearchResponse>)
    ensures
        (search_results_spec(query.limit, parts@).len() == 0 && first_panel(parts@.wikipedia) is None
            && parts_empty(parts@)) ==> fails_with(
            r,
            ErrorKind::ParseError,
            "kagi stream contained no recognised payloads (session may be valid but the protocol may have changed)"@,
        ),
        !(search_results_spec(query.limit, parts@).len() == 0 && first_panel(parts@.wikipedia) is None
            && parts_empty(parts@)) ==> (r matches Ok(resp) && search_response_matches(resp, query.limit, parts@)),
{
    let mut combined = String::new();
    concat_chunks(&parts.search, &mut combined);
    concat_chunks(&parts.interesting, &mut combined);
    proof {
        lemma_concat_nl_append(parts@.search, parts@.interesting);
        assert(combined@ =~= main_results_html(parts@));
    }
    let raw: Vec<SearchResult> = if trim_is_empty(combined.as_str()) {
        let e: Vec<SearchResult> = Vec::new();
        proof {
            assert(results_view(e@) =~= Seq::<SearchResultV>::empty());
        }
        e
    } else {
        match parse_serp(combined.as_str()) {
            Ok(v) => v,
            Err(e) => return Err(e),
        }
    };
    let results = limit_and_rank(raw, query.limit);
    let quick_answer = first_quick_answer(&parts.wikipedia);
    let related_queries = collect_related(&parts.related);
    let total_results = first_total_results(&parts.top_content_unique);
    let next_page = next_page(&parts.search_info);
    if results.len() == 0 && quick_answer.is_none() && parts.is_empty() {
        return Err(
            DomainError::ParseError(
                String::from_str(
                    "kagi stream contained no recognised payloads (session may be valid but the protocol may have changed)",
                ),
            ),
        );
    }
    Ok(SearchResponse { results, quick_answer, related_queries, total_results, next_page })
}

// ---------------------------------------------------------------------
// Verticals, FastGPT, Wikipedia, autocomplete

/// The vertical results ranked 1, 2, ... in order.
pub open spec fn reranked_vertical(rs: Seq<VerticalResultV>) -> Seq<VerticalResultV> {
    Seq::new(rs.len(), |i: int| VerticalResultV { rank: wrap_u32(i + 1), ..rs[i] })
}

/// The ranked results of a vertical search.
pub open spec fn vertical_response_spec(v: KagiVertical, limit: Option<u8>, p: StreamPartsV) -> Seq<VerticalResultV> {
    reranked_vertical(limit_results(vertical_results_spec(concat_nl(vertical_chunks(p, v)), v), limit))
}

/// Truncates vertical results to the limit and ranks them 1, 2, ...
pub fn limit_and_rank_vertical(results: Vec<VerticalResult>, limit: Option<u8>) -> (r: Vec<VerticalResult>)
    ensures
        verticals_view(r@) == reranked_vertical(limit_results(verticals_view(results@), limit)),
        limit matches Some(n) ==> r@.len() <= n,
{
    let mut results = results;
    let ghost rv = verticals_view(results@);
    match limit {
        Some(n) => {
            results.truncate(n as usize);
            proof {
                assert(verticals_view(results@) =~= limit_results(rv, limit));
            }
        },
        None => {},
    }
    let ghost lv = verticals_view(results@);
    let mut out: Vec<VerticalResult> = Vec::new();
    let n = results.len();
    let mut i: usize = 0;
    let mut rest = results;
    proof {
        assert(lv.skip(0) =~= lv);
        assert(verticals_view(out@) =~= reranked_vertical(lv).take(0));
    }
    while i < n
        invariant
            n == lv.len(),
            i <= n,
            verticals_view(rest@) == lv.skip(i as int),
            rest@.len() == n - i,
            verticals_view(out@) == reranked_vertical(lv).take(i as int),
        decreases n - i,
    {
        let ghost old_rest = rest@;
        let r = rest.remove(0);
        proof {
            assert(verticals_view(old_rest)[0] == old_rest[0]@);
            assert(lv.skip(i as int)[0] == r@);
            assert(rest@ =~= old_rest.drop_first());
            assert(verticals_view(rest@) =~= verticals_view(old_rest).drop_first());
            assert(lv.skip(i as int).drop_first() =~= lv.skip(i + 1));
        }
        let nr = VerticalResult {
            rank: usize_to_u32_wrapping(i + 1),
            title: r.title,
            url: r.url,
            snippet: r.snippet,
            site: r.site,
            published: r.published,
            image_url: r.image_url,
            thumbnail_url: r.thumbnail_url,
            duration: r.duration,
            source: r.source,
        };
        let ghost before = verticals_view(out@);
        proof {
            assert(r@ == lv[i as int]);
            assert(nr@ == reranked_vertical(lv)[i as int]);
        }
        out.push(nr);
        proof {
            assert(verticals_view(out@) =~= before.push(nr@));
            assert(reranked_vertical(lv).take(i + 1) =~= reranked_vertical(lv).take(i as int).push(
                reranked_vertical(lv)[i as int],
            ));
        }
        i = i + 1;
    }
    proof {
        assert(reranked_vertical(lv).take(n as int) =~= reranked_vertical(lv));
    }
    out
}

/// The answer to a vertical search from the parts of its stream: the
/// vertical's chunks parsed, cut to the limit and ranked from 1. A
/// stream with neither chunks of the vertical nor any other recognised
/// chunk is a parse error.
pub fn vertical_response_from_parts(vertical: KagiVertical, query: &VerticalQuery, parts: &StreamParts) -> (r: DomainResult<VerticalResponse>)
    ensures
        (vertical_chunks(parts@, vertical).len() == 0 && parts_empty(parts@)) ==> fails_with(
            r,
            ErrorKind::ParseError,
            "kagi "@ + vertical.name_spec() + " stream contained no recognised payloads"@,
        ),
        !(vertical_chunks(parts@, vertical).len() == 0 && parts_empty(parts@)) ==> (r matches Ok(resp)
            && verticals_view(resp.results@) == vertical_response_spec(vertical, query.limit, parts@)),
{
    let chunks = parts.vertical(vertical);
    if chunks.len() == 0 && parts.is_empty() {
        return Err(
            DomainError::ParseError(
                String::from_str("kagi ").concat(vertical.name()).concat(" stream contained no recognised payloads"),
            ),
        );
    }
    let mut combined = String::new();
    concat_chunks(chunks, &mut combined);
    proof {
        assert(combined@ =~= concat_nl(vertical_chunks(parts@, vertical)));
    }
    let results = match parse_vertical_serp(combined.as_str(), vertical) {
        Ok(v) => v,
        Err(e) => return Err(e),
    };
    let results = limit_and_rank_vertical(results, query.limit);
    Ok(VerticalResponse { results })
}

/// The FastGPT frames of a stream body: the `data:` payloads that are
/// JSON strings, decoded.
pub open spec fn fastgpt_chunks_spec(payloads: Seq<Seq<char>>) -> Seq<Seq<char>>
    decreases payloads.len(),
{
    if payloads.len() == 0 {
        seq![]
    } else {
        let prev = fastgpt_chunks_spec(payloads.drop_last());
        match json_string_spec(payloads.last()) {
            Some(s) => prev.push(s),
            None => prev,
        }
    }
}

/// The FastGPT frames of a stream body.
pub fn collect_fastgpt_chunks(body: &str) -> (r: Vec<String>)
    ensures
        strings_view(r@) == fastgpt_chunks_spec(sse_payloads_spec(lines_spec(body@))),
{
    let payloads = sse_data_payloads(body);
    let ghost pv = strings_view(payloads@);
    let mut out: Vec<String> = Vec::new();
    let mut i: usize = 0;
    while i < payloads.len()
        invariant
            pv == strings_view(payloads@),
            i <= payloads@.len(),
            strings_view(out@) == fastgpt_chunks_spec(pv.take(i as int)),
        decreases payloads@.len() - i,
    {
        proof {
            assert(pv.take(i + 1).drop_last() =~= pv.take(i as int));
            assert(pv.take(i + 1).last() == payloads@[i as int]@);
        }
        match json_string(payloads[i].as_str()) {
            Some(s) => {
                let ghost before = strings_view(out@);
                out.push(s);
                proof {
                    assert(strings_view(out@) =~= before.push(out@.last()@));
                }
            },
            None => {},
        }
        i = i + 1;
    }
    proof {
        assert(pv.take(pv.len() as int) =~= pv);
    }
    out
}

/// The final answer frame: frames are progressive, each holding the whole
/// answer so far, and the stream ends with a `[DONE]` sentinel; the last
/// frame that is not the sentinel (after trimming) is the answer, empty
/// when there is none.
pub open spec fn last_answer_frame(chunks: Seq<Seq<char>>) -> Seq<char>
    decreases chunks.len(),
{
    if chunks.len() == 0 {
        seq![]
    } else if trim_spec(chunks.last()) != "[DONE]"@ {
        chunks.last()
    } else {
        last_answer_frame(chunks.drop_last())
    }
}

/// Where the final answer frame is, if there is one that is not the
/// sentinel.
fn last_answer_index(chunks: &Vec<String>) -> (r: Option<usize>)
    ensures
        r matches Some(i) ==> i < chunks@.len() && chunks@[i as int]@ == last_answer_frame(strings_view(chunks@)),
        r is None ==> last_answer_frame(strings_view(chunks@)).len() == 0,
{
    let ghost cv = strings_view(chunks@);
    let mut k: usize = chunks.len();
    let done_v = chars_of("[DONE]");
    proof {
        assert(cv.take(k as int) =~= cv);
    }
    while k > 0
        invariant
            cv == strings_view(chunks@),
            k <= chunks@.len(),
            done_v@ == "[DONE]"@,
            last_answer_frame(cv) == last_answer_frame(cv.take(k as int)),
        decreases k,
    {
        let t = trim(chunks[k - 1].as_str());
        proof {
            assert(cv.take(k as int).last() == chunks@[k - 1]@);
            assert(cv.take(k as int).drop_last() =~= cv.take(k - 1));
        }
        if !crate::text::vec_eq(&t, &done_v) {
            return Some(k - 1);
        }
        k = k - 1;
    }
    None
}

/// The answer frame of a FastGPT stream body.
pub open spec fn fastgpt_frame(body: Seq<char>) -> Seq<char> {
    last_answer_frame(fastgpt_chunks_spec(sse_payloads_spec(lines_spec(body))))
}

/// The FastGPT answer in a stream body: the last answer frame, parsed;
/// a stream without a non-empty answer frame is a parse error.
pub fn fastgpt_answer_from_body(body: &str) -> (r: DomainResult<FastGptAnswer>)
    ensures
        fastgpt_frame(body@).len() == 0 ==> fails_with(r, ErrorKind::ParseError, "fastgpt stream contained no answer frames"@),
        fastgpt_frame(body@).len() > 0 ==> (r matches Ok(a) && a.answer@ == answer_text_spec(
            after_details(fastgpt_frame(body@)),
        ) && sources_view(a.sources@) == fastgpt_all_sources_spec(fastgpt_frame(body@))),
{
    let chunks = collect_fastgpt_chunks(body);
    let text = match last_answer_index(&chunks) {
        Some(idx) => chunks[idx].clone(),
        None => String::new(),
    };
    if text.as_str().is_empty() {
        return Err(DomainError::ParseError(String::from_str("fastgpt stream contained no answer frames")));
    }
    Ok(parse_fastgpt_answer(text.as_str()))
}

/// The Wikipedia answer in a response body; a body without a panel is a
/// parse error.
pub fn wikipedia_answer_from_body(body: &str) -> (r: DomainResult<QuickAnswer>)
    ensures
        match wikipedia_panel_spec(body@) {
            Some(q) => r matches Ok(a) && a@ == q,
            None => fails_with(r, ErrorKind::ParseError, "wikipedia endpoint returned no recognisable knowledge panel"@),
        },
{
    match parse_wikipedia_panel(body) {
        Some(q) => Ok(q),
        None => Err(
            DomainError::ParseError(String::from_str("wikipedia endpoint returned no recognisable knowledge panel")),
        ),
    }
}

/// One autocompletion as the endpoint sends it.
pub struct RawSuggest {
    pub t: String,
    pub txt: Option<String>,
    pub img: Option<String>,
    pub k: Option<String>,
}

/// The suggestions of the endpoint's answer, field for field.
pub fn suggestions_from_raw(raw: Vec<RawSuggest>) -> (r: Vec<Suggestion>)
    ensures
        r@.len() == raw@.len(),
        forall|i: int| 0 <= i < r@.len() ==> {
            &&& #[trigger] r@[i].text@ == raw@[i].t@
            &&& opt_view(r@[i].description) == opt_view(raw@[i].txt)
            &&& opt_view(r@[i].image_url) == opt_view(raw@[i].img)
            &&& opt_view(r@[i].source) == opt_view(raw@[i].k)
        },
{
    let mut out: Vec<Suggestion> = Vec::new();
    let mut rest = raw;
    let ghost orig = rest@;
    let n = rest.len();
    let mut i: usize = 0;
    while i < n
        invariant
            n == orig.len(),
            i <= n,
            rest@ == orig.skip(i as int),
            out@.len() == i,
            forall|j: int| 0 <= j < i ==> {
                &&& #[trigger] out@[j].text@ == orig[j].t@
                &&& opt_view(out@[j].description) == opt_view(orig[j].txt)
                &&& opt_view(out@[j].image_url) == opt_view(orig[j].img)
                &&& opt_view(out@[j].source) == opt_view(orig[j].k)
            },
        decreases n - i,
    {
        proof {
            assert(rest@.len() == n - i);
        }
        let r = rest.remove(0);
        proof {
            assert(r == orig[i as int]);
            assert(rest@ =~= orig.skip(i + 1));
        }
        out.push(Suggestion { text: r.t, description: r.txt, image_url: r.img, source: r.k });
        i = i + 1;
    }
    out
}

/// The results of a search never outnumber the limit asked for, and they
/// are ranked 1, 2, 3, ... in the order Kagi sent them, each otherwise as
/// parsed. (With a `u8` limit the ranks never wrap; without one they would
/// only past 2^32 - 1 results.)
pub proof fn law_results_ranked_within_limit(rs: Seq<SearchResultV>, limit: Option<u8>)
    ensures
        limit matches Some(n) ==> reranked(limit_results(rs, limit)).len() <= n,
        reranked(limit_results(rs, limit)).len() <= rs.len(),
        forall|i: int|
            0 <= i < reranked(limit_results(rs, limit)).len() && i + 1 < 4294967296 ==> (#[trigger] reranked(
                limit_results(rs, limit),
            )[i]).rank == i + 1 && reranked(limit_results(rs, limit))[i].title == rs[i].title
                && reranked(limit_results(rs, limit))[i].url == rs[i].url,
{
    let l = limit_results(rs, limit);
    assert forall|i: int| 0 <= i < reranked(l).len() && i + 1 < 4294967296 implies (#[trigger] reranked(l)[i]).rank
        == i + 1 && reranked(l)[i].title == rs[i].title && reranked(l)[i].url == rs[i].url by {
        assert((i + 1) % 4294967296 == i + 1);
    }
}

/// A Session Link token travels in the search URL, as its last `token`
/// pair, only for a Session Link session; a cookie session puts no
/// `token` pair in the URL (its cookie goes in the `Cookie` header). The
/// query itself is always the first pair.
pub proof fn law_token_only_in_link_urls(q: SearchQuery, auth: SessionAuth)
    ensures
        search_pairs_spec(q, auth)[0] == ("q"@, q.q@),
        auth matches SessionAuth::UrlToken(t) ==> search_pairs_spec(q, auth).last() == ("token"@, t@),
        auth is Cookie ==> forall|i: int|
            0 <= i < search_pairs_spec(q, auth).len() ==> (#[trigger] search_pairs_spec(q, auth)[i]).0 != "token"@,
{
    reveal_strlit("token");
    reveal_strlit("q");
    reveal_strlit("batch");
    reveal_strlit("piece");
    reveal_strlit("date");
    reveal_strlit("r");
    reveal_strlit("safe");
    reveal_strlit("l");
    assert("token"@.len() == 5 && "q"@.len() == 1 && "batch"@.len() == 5 && "piece"@.len() == 5 && "date"@.len() == 4
        && "r"@.len() == 1 && "safe"@.len() == 4 && "l"@.len() == 1);
    assert("batch"@[0] != "token"@[0] && "piece"@[0] != "token"@[0]);
}

} // verus!