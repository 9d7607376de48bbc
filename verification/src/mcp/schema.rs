//! The inputs and payloads of the MCP tools, and their translation to and
//! from the domain types.

use vstd::prelude::*;

use crate::domain::model::{opt_view, SearchResultV, VerticalResultV};
use crate::domain::{
    FastGptAnswer, FastGptSource, FetchRequest, FetchResponse, KagiVertical, Lens, QuickAnswer,
    SafeSearch, SearchQuery, SearchResponse, SearchResult, Suggestion, TimeRange, VerticalQuery,
    VerticalResponse, VerticalResult,
};
use crate::num::{usize_to_u32_wrapping, wrap_u32};
use crate::text::{ascii_lower_seq, to_ascii_lowercase, vec_eq};

verus! {

/// The arguments of `kagi_search`.
pub struct SearchInput {
    pub query: String,
    pub limit: Option<u8>,
    pub page: Option<u32>,
    pub time: Option<String>,
    pub region: Option<String>,
    pub safe: Option<String>,
    pub lens: Option<u32>,
}

/// `x` clamped to `lo..=hi`.
pub open spec fn clamp(x: int, lo: int, hi: int) -> int {
    if x < lo {
        lo
    } else if x > hi {
        hi
    } else {
        x
    }
}

fn clamp_u8(x: u8, lo: u8, hi: u8) -> (r: u8)
    requires
        lo <= hi,
    ensures
        r == clamp(x as int, lo as int, hi as int),
{
    if x < lo {
        lo
    } else if x > hi {
        hi
    } else {
        x
    }
}

/// The recency filter a word names: day/d, week/w, month/m, year/y, in
/// any ASCII case.
pub open spec fn parse_time_spec(s: Seq<char>) -> Option<TimeRange> {
    let l = ascii_lower_seq(s);
    if l == "day"@ || l == "d"@ {
        Some(TimeRange::PastDay)
    } else if l == "week"@ || l == "w"@ {
        Some(TimeRange::PastWeek)
    } else if l == "month"@ || l == "m"@ {
        Some(TimeRange::PastMonth)
    } else if l == "year"@ || l == "y"@ {
        Some(TimeRange::PastYear)
    } else {
        None
    }
}

/// The adult-content filter a word names: off/0, moderate/1, strict/2,
/// in any ASCII case.
pub open spec fn parse_safe_spec(s: Seq<char>) -> Option<SafeSearch> {
    let l = ascii_lower_seq(s);
    if l == "off"@ || l == "0"@ {
        Some(SafeSearch::Off)
    } else if l == "moderate"@ || l == "1"@ {
        Some(SafeSearch::Moderate)
    } else if l == "strict"@ || l == "2"@ {
        Some(SafeSearch::Strict)
    } else {
        None
    }
}

fn is_word(l: &Vec<char>, w: &str) -> (b: bool)
    ensures
        b == (l@ == w@),
{
    let wv = crate::text::chars_of(w);
    vec_eq(l, &wv)
}

/// Reads a recency filter.
pub fn parse_time(s: &str) -> (r: Option<TimeRange>)
    ensures
        r == parse_time_spec(s@),
{
    let l = to_ascii_lowercase(s);
    if is_word(&l, "day") || is_word(&l, "d") {
        Some(TimeRange::PastDay)
    } else if is_word(&l, "week") || is_word(&l, "w") {
        Some(TimeRange::PastWeek)
    } else if is_word(&l, "month") || is_word(&l, "m") {
        Some(TimeRange::PastMonth)
    } else if is_word(&l, "year") || is_word(&l, "y") {
        Some(TimeRange::PastYear)
    } else {
        None
    }
}

/// Reads an adult-content filter.
pub fn parse_safe(s: &str) -> (r: Option<SafeSearch>)
    ensures
        r == parse_safe_spec(s@),
{
    let l = to_ascii_lowercase(s);
    if is_word(&l, "off") || is_word(&l, "0") {
        Some(SafeSearch::Off)
    } else if is_word(&l, "moderate") || is_word(&l, "1") {
        Some(SafeSearch::Moderate)
    } else if is_word(&l, "strict") || is_word(&l, "2") {
        Some(SafeSearch::Strict)
    } else {
        None
    }
}

fn parse_time_opt(s: &Option<String>) -> (r: Option<TimeRange>)
    ensures
        r == (match s {
            Some(t) => parse_time_spec(t@),
            None => None,
        }),
{
    match s {
        Some(t) => parse_time(t.as_str()),
        None => None,
    }
}

impl SearchInput {
    /// The search the arguments ask for: the limit defaults to 10 and is
    /// clamped to 1..=25; a page of 0 is dropped (pages count from 1);
    /// the lens slot passes as given (slot 0 is the first active lens);
    /// unknown time or safe words are dropped.
    pub fn into_domain(self) -> (r: SearchQuery)
        ensures
            r.q@ == self.query@,
            r.limit == Some(
                clamp(
                    match self.limit {
                        Some(l) => l as int,
                        None => 10,
                    },
                    1,
                    25,
                ) as u8,
            ),
            r.page == (match self.page {
                Some(p) => if p > 0 {
                    Some(p)
                } else {
                    None
                },
                None => None,
            }),
            r.time == (match self.time {
                Some(t) => parse_time_spec(t@),
                None => None,
            }),
            opt_view(r.region) == opt_view(self.region),
            r.safe == (match self.safe {
                Some(s) => parse_safe_spec(s@),
                None => None,
            }),
            r.lens == self.lens,
    {
        let limit = match self.limit {
            Some(l) => l,
            None => 10,
        };
        let time = parse_time_opt(&self.time);
        let safe = match &self.safe {
            Some(s) => parse_safe(s.as_str()),
            None => None,
        };
        SearchQuery {
            q: self.query,
            limit: Some(clamp_u8(limit, 1, 25)),
            page: match self.page {
                Some(p) => if p > 0 {
                    Some(p)
                } else {
                    None
                },
                None => None,
            },
            time,
            region: self.region,
            safe,
            lens: self.lens,
        }
    }
}

/// The payload of `kagi_search`.
pub struct SearchPayload {
    pub query: String,
    pub count: usize,
    pub results: Vec<MinimalResult>,
    pub quick_answer: Option<MinimalQuickAnswer>,
    pub related: Vec<String>,
    pub total_results: Option<u64>,
    pub next_page: Option<u32>,
}

/// A web result as the tool reports it.
pub struct MinimalResult {
    pub n: u32,
    pub title: String,
    pub url: String,
    pub snippet: Option<String>,
    pub site: Option<String>,
    pub date: Option<String>,
}

/// Whether a reported result carries a domain result field for field.
pub open spec fn minimal_result_of(m: MinimalResult, r: SearchResultV) -> bool {
    &&& m.n == r.rank
    &&& m.title@ == r.title
    &&& m.url@ == r.url
    &&& opt_view(m.snippet) == r.snippet
    &&& opt_view(m.site) == r.site
    &&& opt_view(m.date) == r.published
}

impl From<SearchResult> for MinimalResult {
    fn from(r: SearchResult) -> (m: Self) {
        MinimalResult { n: r.rank, title: r.title, url: r.url, snippet: r.snippet, site: r.site, date: r.published }
    }
}

impl vstd::std_specs::convert::FromSpecImpl<SearchResult> for MinimalResult {
    open spec fn obeys_from_spec() -> bool {
        true
    }

    open spec fn from_spec(r: SearchResult) -> MinimalResult {
        MinimalResult { n: r.rank, title: r.title, url: r.url, snippet: r.snippet, site: r.site, date: r.published }
    }
}

/// A knowledge-panel answer as the tool reports it.
pub struct MinimalQuickAnswer {
    pub source: String,
    pub text: String,
    pub url: Option<String>,
}

impl From<QuickAnswer> for MinimalQuickAnswer {
    fn from(qa: QuickAnswer) -> (m: Self) {
        MinimalQuickAnswer { source: qa.source, text: qa.text, url: qa.url }
    }
}

impl vstd::std_specs::convert::FromSpecImpl<QuickAnswer> for MinimalQuickAnswer {
    open spec fn obeys_from_spec() -> bool {
        true
    }

    open spec fn from_spec(qa: QuickAnswer) -> MinimalQuickAnswer {
        MinimalQuickAnswer { source: qa.source, text: qa.text, url: qa.url }
    }
}

/// The payload of `kagi_search` for a query and its response: the count
/// of results, each result field for field, the panel, the related
/// searches, the result count and the next page.
pub fn translate(query: String, resp: SearchResponse) -> (p: SearchPayload)
    ensures
        p.query@ == query@,
        p.count == resp.results@.len(),
        p.results@.len() == resp.results@.len(),
        forall|i: int| 0 <= i < p.results@.len() ==> minimal_result_of(#[trigger] p.results@[i], resp.results@[i]@),
        match resp.quick_answer {
            Some(qa) => p.quick_answer matches Some(m) && m.source@ == qa.source@ && m.text@ == qa.text@
                && opt_view(m.url) == opt_view(qa.url),
            None => p.quick_answer is None,
        },
        p.related@ == resp.related_queries@,
        p.total_results == resp.total_results,
        p.next_page == resp.next_page,
{
    let count = resp.results.len();
    let ghost orig = resp.results@;
    let mut rest = resp.results;
    let mut results: Vec<MinimalResult> = Vec::new();
    let mut i: usize = 0;
    while i < count
        invariant
            count == orig.len(),
            i <= count,
            rest@ == orig.skip(i as int),
            results@.len() == i,
            forall|j: int| 0 <= j < i ==> minimal_result_of(#[trigger] results@[j], orig[j]@),
        decreases count - i,
    {
        proof {
            assert(rest@.len() == count - i);
        }
        let r = rest.remove(0);
        proof {
            assert(r == orig[i as int]);
            assert(rest@ =~= orig.skip(i + 1));
        }
        results.push(MinimalResult::from(r));
        i = i + 1;
    }
    let quick_answer = match resp.quick_answer {
        Some(qa) => Some(MinimalQuickAnswer::from(qa)),
        None => None,
    };
    SearchPayload {
        query,
        count,
        results,
        quick_answer,
        related: resp.related_queries,
        total_results: resp.total_results,
        next_page: resp.next_page,
    }
}

/// The arguments of `kagi_status`.
pub struct StatusInput {}

/// The answer of `kagi_status`.
pub struct StatusResponse {
    pub session_found: bool,
    pub source: Option<String>,
    pub auth_kind: Option<String>,
    pub error: Option<String>,
}

/// The arguments of `kagi_fetch`.
pub struct FetchInput {
    pub url: String,
    pub max_chars: Option<usize>,
    pub raw: bool,
}

impl FetchInput {
    /// The fetch the arguments ask for, field for field.
    pub fn into_domain(self) -> (r: FetchRequest)
        ensures
            r.url@ == self.url@,
            r.max_chars == self.max_chars,
            r.raw == self.raw,
    {
        FetchRequest { url: self.url, max_chars: self.max_chars, raw: self.raw }
    }
}

/// The payload of `kagi_fetch`.
pub struct FetchPayload {
    pub url: String,
    pub final_url: String,
    pub status: u16,
    pub content_type: Option<String>,
    pub title: Option<String>,
    pub body: String,
    pub truncated: bool,
}

impl From<FetchResponse> for FetchPayload {
    fn from(r: FetchResponse) -> (p: Self) {
        FetchPayload {
            url: r.url,
            final_url: r.final_url,
            status: r.status,
            content_type: r.content_type,
            title: r.title,
            body: r.body,
            truncated: r.truncated,
        }
    }
}

impl vstd::std_specs::convert::FromSpecImpl<FetchResponse> for FetchPayload {
    open spec fn obeys_from_spec() -> bool {
        true
    }

    open spec fn from_spec(r: FetchResponse) -> FetchPayload {
        FetchPayload {
            url: r.url,
            final_url: r.final_url,
            status: r.status,
            content_type: r.content_type,
            title: r.title,
            body: r.body,
            truncated: r.truncated,
        }
    }
}

/// The arguments of `kagi_wikipedia`.
pub struct WikipediaInput {
    pub query: String,
}

/// The payload of `kagi_wikipedia`.
pub struct WikipediaPayload {
    pub source: String,
    pub text: String,
    pub url: Option<String>,
}

impl From<QuickAnswer> for WikipediaPayload {
    fn from(qa: QuickAnswer) -> (p: Self) {
        WikipediaPayload { source: qa.source, text: qa.text, url: qa.url }
    }
}

impl vstd::std_specs::convert::FromSpecImpl<QuickAnswer> for WikipediaPayload {
    open spec fn obeys_from_spec() -> bool {
        true
    }

    open spec fn from_spec(qa: QuickAnswer) -> WikipediaPayload {
        WikipediaPayload { source: qa.source, text: qa.text, url: qa.url }
    }
}

/// The arguments of `kagi_suggest`.
pub struct SuggestInput {
    pub query: String,
    pub limit: Option<u8>,
}

/// The payload of `kagi_suggest`.
pub struct SuggestPayload {
    pub query: String,
    pub count: usize,
    pub suggestions: Vec<MinimalSuggestion>,
}

/// An autocompletion as the tool reports it.
pub struct MinimalSuggestion {
    pub text: String,
    pub description: Option<String>,
    pub image_url: Option<String>,
    pub source: Option<String>,
}

impl From<Suggestion> for MinimalSuggestion {
    fn from(s: Suggestion) -> (m: Self) {
        MinimalSuggestion { text: s.text, description: s.description, image_url: s.image_url, source: s.source }
    }
}

impl vstd::std_specs::convert::FromSpecImpl<Suggestion> for MinimalSuggestion {
    open spec fn obeys_from_spec() -> bool {
        true
    }

    open spec fn from_spec(s: Suggestion) -> MinimalSuggestion {
        MinimalSuggestion { text: s.text, description: s.description, image_url: s.image_url, source: s.source }
    }
}

/// The arguments of `kagi_fastgpt`.
pub struct FastGptInput {
    pub query: String,
}

/// The payload of `kagi_fastgpt`.
pub struct FastGptPayload {
    pub query: String,
    pub answer: String,
    pub sources: Vec<MinimalFastGptSource>,
}

/// A FastGPT source as the tool reports it, numbered from 1.
pub struct MinimalFastGptSource {
    pub n: u32,
    pub title: String,
    pub url: String,
    pub snippet: Option<String>,
}

impl FastGptPayload {
    /// The payload of an answer: the sources numbered 1, 2, ... in order,
    /// matching the answer's `[N]` markers.
    pub fn from_domain(query: String, ans: FastGptAnswer) -> (p: Self)
        ensures
            p.query@ == query@,
            p.answer@ == ans.answer@,
            p.sources@.len() == ans.sources@.len(),
            forall|i: int| 0 <= i < p.sources@.len() ==> {
                &&& (#[trigger] p.sources@[i]).n == wrap_u32(i + 1)
                &&& p.sources@[i].title@ == ans.sources@[i].title@
                &&& p.sources@[i].url@ == ans.sources@[i].url@
                &&& opt_view(p.sources@[i].snippet) == opt_view(ans.sources@[i].snippet)
            },
    {
        let ghost orig = ans.sources@;
        let count = ans.sources.len();
        let mut rest = ans.sources;
        let mut sources: Vec<MinimalFastGptSource> = Vec::new();
        let mut i: usize = 0;
        while i < count
            invariant
                count == orig.len(),
                i <= count,
                rest@ == orig.skip(i as int),
                sources@.len() == i,
                forall|j: int| 0 <= j < i ==> {
                    &&& (#[trigger] sources@[j]).n == wrap_u32(j + 1)
                    &&& sources@[j].title@ == orig[j].title@
                    &&& sources@[j].url@ == orig[j].url@
                    &&& opt_view(sources@[j].snippet) == opt_view(orig[j].snippet)
                },
            decreases count - i,
        {
            proof {
                assert(rest@.len() == count - i);
            }
            let s = rest.remove(0);
            proof {
                assert(s == orig[i as int]);
                assert(rest@ =~= orig.skip(i + 1));
            }
            sources.push(
                MinimalFastGptSource { n: usize_to_u32_wrapping(i + 1), title: s.title, url: s.url, snippet: s.snippet },
            );
            i = i + 1;
        }
        FastGptPayload { query, answer: ans.answer, sources }
    }
}

/// The arguments of the vertical tools.
pub struct VerticalSearchInput {
    pub query: String,
    pub limit: Option<u8>,
    pub freshness: Option<String>,
    pub order: Option<u8>,
    pub dir_desc: bool,
    pub ai_filter: Option<String>,
    pub aspect: Option<String>,
    pub color: Option<String>,
    pub duration: Option<String>,
}

impl VerticalSearchInput {
    /// The vertical search the arguments ask for: the limit defaults to
    /// 10 and is clamped to 1..=50; an unknown freshness word is dropped;
    /// the other filters pass through.
    pub fn into_domain(self) -> (r: VerticalQuery)
        ensures
            r.q@ == self.query@,
            r.limit == Some(
                clamp(
                    match self.limit {
                        Some(l) => l as int,
                        None => 10,
                    },
                    1,
                    50,
                ) as u8,
            ),
            r.freshness == (match self.freshness {
                Some(t) => parse_time_spec(t@),
                None => None,
            }),
            r.order == self.order,
            r.dir_desc == self.dir_desc,
            opt_view(r.ai_filter) == opt_view(self.ai_filter),
            opt_view(r.aspect) == opt_view(self.aspect),
            opt_view(r.color) == opt_view(self.color),
            opt_view(r.duration) == opt_view(self.duration),
    {
        let limit = match self.limit {
            Some(l) => l,
            None => 10,
        };
        let freshness = parse_time_opt(&self.freshness);
        VerticalQuery {
            q: self.query,
            limit: Some(clamp_u8(limit, 1, 50)),
            freshness,
            order: self.order,
            dir_desc: self.dir_desc,
            ai_filter: self.ai_filter,
            aspect: self.aspect,
            color: self.color,
            duration: self.duration,
        }
    }
}

/// The payload of a vertical tool.
pub struct VerticalSearchPayload {
    pub vertical: String,
    pub query: String,
    pub count: usize,
    pub results: Vec<MinimalVerticalResult>,
}

/// A vertical result as the tool reports it.
pub struct MinimalVerticalResult {
    pub n: u32,
    pub title: String,
    pub url: String,
    pub snippet: Option<String>,
    pub site: Option<String>,
    pub date: Option<String>,
    pub image_url: Option<String>,
    pub thumbnail_url: Option<String>,
    pub duration: Option<String>,
    pub source: Option<String>,
}

/// Whether a reported vertical result carries a domain result field for
/// field.
pub open spec fn minimal_vertical_of(m: MinimalVerticalResult, r: VerticalResultV) -> bool {
    &&& m.n == r.rank
    &&& m.title@ == r.title
    &&& m.url@ == r.url
    &&& opt_view(m.snippet) == r.snippet
    &&& opt_view(m.site) == r.site
    &&& opt_view(m.date) == r.published
    &&& opt_view(m.image_url) == r.image_url
    &&& opt_view(m.thumbnail_url) == r.thumbnail_url
    &&& opt_view(m.duration) == r.duration
    &&& opt_view(m.source) == r.source
}

impl From<VerticalResult> for MinimalVerticalResult {
    fn from(r: VerticalResult) -> (m: Self) {
        MinimalVerticalResult {
            n: r.rank,
            title: r.title,
            url: r.url,
            snippet: r.snippet,
            site: r.site,
            date: r.published,
            image_url: r.image_url,
            thumbnail_url: r.thumbnail_url,
            duration: r.duration,
            source: r.source,
        }
    }
}

impl vstd::std_specs::convert::FromSpecImpl<VerticalResult> for MinimalVerticalResult {
    open spec fn obeys_from_spec() -> bool {
        true
    }

    open spec fn from_spec(r: VerticalResult) -> MinimalVerticalResult {
        MinimalVerticalResult {
            n: r.rank,
            title: r.title,
            url: r.url,
            snippet: r.snippet,
            site: r.site,
            date: r.published,
            image_url: r.image_url,
            thumbnail_url: r.thumbnail_url,
            duration: r.duration,
            source: r.source,
        }
    }
}

/// The payload of a vertical tool: the vertical's name, the query, the
/// count and each result field for field.
pub fn translate_vertical(query: String, vertical: KagiVertical, resp: VerticalResponse) -> (p: VerticalSearchPayload)
    ensures
        p.vertical@ == vertical.name_spec(),
        p.query@ == query@,
        p.count == resp.results@.len(),
        p.results@.len() == resp.results@.len(),
        forall|i: int| 0 <= i < p.results@.len() ==> minimal_vertical_of(#[trigger] p.results@[i], resp.results@[i]@),
{
    let count = resp.results.len();
    let ghost orig = resp.results@;
    let mut rest = resp.results;
    let mut results: Vec<MinimalVerticalResult> = Vec::new();
    let mut i: usize = 0;
    while i < count
        invariant
            count == orig.len(),
            i <= count,
            rest@ == orig.skip(i as int),
            results@.len() == i,
            forall|j: int| 0 <= j < i ==> minimal_vertical_of(#[trigger] results@[j], orig[j]@),
        decreases count - i,
    {
        proof {
            assert(rest@.len() == count - i);
        }
        let r = rest.remove(0);
        proof {
            assert(r == orig[i as int]);
            assert(rest@ =~= orig.skip(i + 1));
        }
        results.push(MinimalVerticalResult::from(r));
        i = i + 1;
    }
    VerticalSearchPayload { vertical: String::from_str(vertical.name()), query, count, results }
}

/// The arguments of `kagi_list_lenses`.
pub struct ListLensesInput {}

/// The payload of `kagi_list_lenses`.
pub struct ListLensesPayload {
    pub count: usize,
    pub lenses: Vec<MinimalLens>,
}

/// A lens as the tool reports it.
pub struct MinimalLens {
    pub id: u32,
    pub name: String,
    pub description: Option<String>,
    pub active: bool,
}

impl From<Lens> for MinimalLens {
    fn from(l: Lens) -> (m: Self) {
        MinimalLens { id: l.id, name: l.name, description: l.description, active: l.active }
    }
}

impl vstd::std_specs::convert::FromSpecImpl<Lens> for MinimalLens {
    open spec fn obeys_from_spec() -> bool {
        true
    }

    open spec fn from_spec(l: Lens) -> MinimalLens {
        MinimalLens { id: l.id, name: l.name, description: l.description, active: l.active }
    }
}

proof fn lemma_lower_ascii_word(w: Seq<char>)
    requires
        forall|i: int| 0 <= i < w.len() ==> 'a' <= #[trigger] w[i] <= 'z' || '0' <= w[i] <= '9',
    ensures
        ascii_lower_seq(w) == w,
{
    assert(ascii_lower_seq(w) =~= w);
}

/// Every time range reads back as itself: what `TimeRange::as_freshness`
/// gives (`day`, `week`, `month`, `year`, the words the freshness input
/// documents) and what `TimeRange::as_kagi` gives (`d`, `w`, `m`, `y`)
/// are both read by `parse_time` as that same range.
pub proof fn law_time_words_round_trip(t: TimeRange)
    ensures
        parse_time_spec(t.freshness_spec()) == Some(t),
        parse_time_spec(t.kagi_spec()) == Some(t),
{
    reveal_strlit("day");
    reveal_strlit("d");
    reveal_strlit("week");
    reveal_strlit("w");
    reveal_strlit("month");
    reveal_strlit("m");
    reveal_strlit("year");
    reveal_strlit("y");
    lemma_lower_ascii_word(t.freshness_spec());
    lemma_lower_ascii_word(t.kagi_spec());
    assert("day"@ != "d"@ && "day"@ != "w"@ && "day"@ != "m"@ && "day"@ != "y"@) by {
        assert("day"@.len() == 3 && "d"@.len() == 1 && "w"@.len() == 1 && "m"@.len() == 1 && "y"@.len() == 1);
    }
    assert("d"@ != "w"@ && "d"@ != "m"@ && "d"@ != "y"@ && "w"@ != "m"@ && "w"@ != "y"@ && "m"@ != "y"@) by {
        assert("d"@[0] != "w"@[0]);
        assert("d"@[0] != "m"@[0]);
        assert("d"@[0] != "y"@[0]);
        assert("w"@[0] != "m"@[0]);
        assert("w"@[0] != "y"@[0]);
        assert("m"@[0] != "y"@[0]);
    }
    assert("week"@ != "day"@ && "week"@ != "month"@ && "week"@ != "year"@ && "month"@ != "day"@ && "month"@ != "year"@
        && "year"@ != "day"@) by {
        assert("week"@.len() == 4 && "day"@.len() == 3 && "month"@.len() == 5 && "year"@.len() == 4);
        assert("week"@[0] != "year"@[0]);
    }
}

/// Reading a safe-search level back: the digit a level is sent to Kagi as
/// reads back as that level.
pub proof fn law_safe_round_trip(s: SafeSearch)
    ensures
        parse_safe_spec(s.kagi_spec()) == Some(s),
{
    reveal_strlit("off");
    reveal_strlit("0");
    reveal_strlit("moderate");
    reveal_strlit("1");
    reveal_strlit("strict");
    reveal_strlit("2");
    lemma_lower_ascii_word(s.kagi_spec());
    assert("0"@ != "1"@ && "0"@ != "2"@ && "1"@ != "2"@) by {
        assert("0"@[0] != "1"@[0]);
        assert("0"@[0] != "2"@[0]);
        assert("1"@[0] != "2"@[0]);
    }
}

proof fn lemma_ascii_lower_idempotent(s: Seq<char>)
    ensures
        ascii_lower_seq(ascii_lower_seq(s)) == ascii_lower_seq(s),
{
    assert forall|i: int| 0 <= i < s.len() implies #[trigger] crate::text::ascii_lower(crate::text::ascii_lower(s[i]))
        == crate::text::ascii_lower(s[i]) by {
        let c = s[i];
        if 'A' <= c <= 'Z' {
            let d = ((c as u32) + 32) as char;
            assert('a' <= d <= 'z');
        }
    }
    assert(ascii_lower_seq(ascii_lower_seq(s)) =~= ascii_lower_seq(s));
}

/// The recency and safe-search words are read without regard to ASCII
/// case: a word and its lower-case form read the same.
pub proof fn law_filters_ignore_case(s: Seq<char>)
    ensures
        parse_time_spec(ascii_lower_seq(s)) == parse_time_spec(s),
        parse_safe_spec(ascii_lower_seq(s)) == parse_safe_spec(s),
{
    lemma_ascii_lower_idempotent(s);
}

} // verus!