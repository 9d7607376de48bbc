//! Sessions, queries and results, with the abstract views the contracts
//! speak of.

use vstd::prelude::*;

verus! {

/// The view of an optional string.
pub open spec fn opt_view(o: Option<String>) -> Option<Seq<char>> {
    match o {
        Some(s) => Some(s@),
        None => None,
    }
}

/// The browsers a session can come from.
#[derive(Debug, Clone, Copy, PartialEq, Eq, Structural)]
pub enum BrowserKind {
    Chrome,
    Edge,
    Brave,
    Arc,
    Vivaldi,
    Opera,
    OperaGx,
    Chromium,
    Firefox,
    Safari,
}

impl BrowserKind {
    /// The lower-case name of the browser.
    pub open spec fn name_spec(self) -> Seq<char> {
        match self {
            BrowserKind::Chrome => "chrome"@,
            BrowserKind::Edge => "edge"@,
            BrowserKind::Brave => "brave"@,
            BrowserKind::Arc => "arc"@,
            BrowserKind::Vivaldi => "vivaldi"@,
            BrowserKind::Opera => "opera"@,
            BrowserKind::OperaGx => "opera_gx"@,
            BrowserKind::Chromium => "chromium"@,
            BrowserKind::Firefox => "firefox"@,
            BrowserKind::Safari => "safari"@,
        }
    }

    /// The lower-case name of the browser.
    pub fn as_str(self) -> (r: &'static str)
        ensures
            r@ == self.name_spec(),
    {
        match self {
            BrowserKind::Chrome => "chrome",
            BrowserKind::Edge => "edge",
            BrowserKind::Brave => "brave",
            BrowserKind::Arc => "arc",
            BrowserKind::Vivaldi => "vivaldi",
            BrowserKind::Opera => "opera",
            BrowserKind::OperaGx => "opera_gx",
            BrowserKind::Chromium => "chromium",
            BrowserKind::Firefox => "firefox",
            BrowserKind::Safari => "safari",
        }
    }
}

/// How a session authenticates: a browser cookie, or a Session Link token
/// passed in the URL.
#[derive(Debug, Clone)]
pub enum SessionAuth {
    Cookie { name: String, value: String },
    UrlToken(String),
}

/// The abstract view of a `SessionAuth`.
pub enum SessionAuthV {
    Cookie { name: Seq<char>, value: Seq<char> },
    UrlToken(Seq<char>),
}

impl View for SessionAuth {
    type V = SessionAuthV;

    open spec fn view(&self) -> SessionAuthV {
        match self {
            SessionAuth::Cookie { name, value } => SessionAuthV::Cookie { name: name@, value: value@ },
            SessionAuth::UrlToken(t) => SessionAuthV::UrlToken(t@),
        }
    }
}

/// A Kagi session: how to authenticate, the user agent to present, and
/// the browser it was found in.
#[derive(Debug, Clone)]
pub struct Session {
    pub auth: SessionAuth,
    pub user_agent: String,
    pub source: BrowserKind,
}

/// The abstract view of a `Session`.
pub struct SessionV {
    pub auth: SessionAuthV,
    pub user_agent: Seq<char>,
    pub source: BrowserKind,
}

impl View for Session {
    type V = SessionV;

    open spec fn view(&self) -> SessionV {
        SessionV { auth: self.auth@, user_agent: self.user_agent@, source: self.source }
    }
}

/// A recency restriction.
#[derive(Debug, Clone, Copy, PartialEq, Eq, Structural)]
pub enum TimeRange {
    PastDay,
    PastWeek,
    PastMonth,
    PastYear,
}

impl TimeRange {
    /// The value of Kagi's `date` search parameter.
    pub open spec fn kagi_spec(self) -> Seq<char> {
        match self {
            TimeRange::PastDay => "d"@,
            TimeRange::PastWeek => "w"@,
            TimeRange::PastMonth => "m"@,
            TimeRange::PastYear => "y"@,
        }
    }

    /// The value of Kagi's `date` search parameter.
    pub fn as_kagi(self) -> (r: &'static str)
        ensures
            r@ == self.kagi_spec(),
    {
        match self {
            TimeRange::PastDay => "d",
            TimeRange::PastWeek => "w",
            TimeRange::PastMonth => "m",
            TimeRange::PastYear => "y",
        }
    }

    /// The value of the verticals' `freshness` parameter.
    pub open spec fn freshness_spec(self) -> Seq<char> {
        match self {
            TimeRange::PastDay => "day"@,
            TimeRange::PastWeek => "week"@,
            TimeRange::PastMonth => "month"@,
            TimeRange::PastYear => "year"@,
        }
    }

    /// The value of the verticals' `freshness` parameter.
    pub fn as_freshness(self) -> (r: &'static str)
        ensures
            r@ == self.freshness_spec(),
    {
        match self {
            TimeRange::PastDay => "day",
            TimeRange::PastWeek => "week",
            TimeRange::PastMonth => "month",
            TimeRange::PastYear => "year",
        }
    }
}

/// The adult-content filter.
#[derive(Debug, Clone, Copy, PartialEq, Eq, Structural)]
pub enum SafeSearch {
    Off,
    Moderate,
    Strict,
}

impl SafeSearch {
    /// The value of Kagi's `safe` parameter.
    pub open spec fn kagi_spec(self) -> Seq<char> {
        match self {
            SafeSearch::Off => "0"@,
            SafeSearch::Moderate => "1"@,
            SafeSearch::Strict => "2"@,
        }
    }

    /// The value of Kagi's `safe` parameter.
    pub fn as_kagi(self) -> (r: &'static str)
        ensures
            r@ == self.kagi_spec(),
    {
        match self {
            SafeSearch::Off => "0",
            SafeSearch::Moderate => "1",
            SafeSearch::Strict => "2",
        }
    }
}

/// A web search.
#[derive(Debug, Clone)]
pub struct SearchQuery {
    pub q: String,
    pub limit: Option<u8>,
    pub page: Option<u32>,
    pub time: Option<TimeRange>,
    pub region: Option<String>,
    pub safe: Option<SafeSearch>,
    pub lens: Option<u32>,
}

/// One ranked web result.
#[derive(Debug, Clone)]
pub struct SearchResult {
    pub rank: u32,
    pub title: String,
    pub url: String,
    pub snippet: Option<String>,
    pub site: Option<String>,
    pub published: Option<String>,
}

/// The abstract view of a `SearchResult`.
pub struct SearchResultV {
    pub rank: u32,
    pub title: Seq<char>,
    pub url: Seq<char>,
    pub snippet: Option<Seq<char>>,
    pub site: Option<Seq<char>>,
    pub published: Option<Seq<char>>,
}

impl View for SearchResult {
    type V = SearchResultV;

    open spec fn view(&self) -> SearchResultV {
        SearchResultV {
            rank: self.rank,
            title: self.title@,
            url: self.url@,
            snippet: opt_view(self.snippet),
            site: opt_view(self.site),
            published: opt_view(self.published),
        }
    }
}

/// The result of a web search.
#[derive(Debug, Clone)]
pub struct SearchResponse {
    pub results: Vec<SearchResult>,
    pub quick_answer: Option<QuickAnswer>,
    pub related_queries: Vec<String>,
    pub total_results: Option<u64>,
    pub next_page: Option<u32>,
}

/// A knowledge-panel answer.
#[derive(Debug, Clone)]
pub struct QuickAnswer {
    pub source: String,
    pub text: String,
    pub url: Option<String>,
}

/// The abstract view of a `QuickAnswer`.
pub struct QuickAnswerV {
    pub source: Seq<char>,
    pub text: Seq<char>,
    pub url: Option<Seq<char>>,
}

impl View for QuickAnswer {
    type V = QuickAnswerV;

    open spec fn view(&self) -> QuickAnswerV {
        QuickAnswerV { source: self.source@, text: self.text@, url: opt_view(self.url) }
    }
}

/// A page to fetch.
#[derive(Debug, Clone)]
pub struct FetchRequest {
    pub url: String,
    pub max_chars: Option<usize>,
    pub raw: bool,
}

/// One autocompletion.
#[derive(Debug, Clone)]
pub struct Suggestion {
    pub text: String,
    pub description: Option<String>,
    pub image_url: Option<String>,
    pub source: Option<String>,
}

/// A FastGPT answer with its sources.
#[derive(Debug, Clone)]
pub struct FastGptAnswer {
    pub answer: String,
    pub sources: Vec<FastGptSource>,
}

/// One source of a FastGPT answer.
#[derive(Debug, Clone)]
pub struct FastGptSource {
    pub title: String,
    pub url: String,
    pub snippet: Option<String>,
}

/// The abstract view of a `FastGptSource`.
pub struct FastGptSourceV {
    pub title: Seq<char>,
    pub url: Seq<char>,
    pub snippet: Option<Seq<char>>,
}

impl View for FastGptSource {
    type V = FastGptSourceV;

    open spec fn view(&self) -> FastGptSourceV {
        FastGptSourceV { title: self.title@, url: self.url@, snippet: opt_view(self.snippet) }
    }
}

/// A search in one of Kagi's verticals.
#[derive(Debug, Clone)]
pub struct VerticalQuery {
    pub q: String,
    pub limit: Option<u8>,
    pub freshness: Option<TimeRange>,
    pub order: Option<u8>,
    pub dir_desc: bool,
    pub ai_filter: Option<String>,
    pub aspect: Option<String>,
    pub color: Option<String>,
    pub duration: Option<String>,
}

/// One result of a vertical search.
#[derive(Debug, Clone)]
pub struct VerticalResult {
    pub rank: u32,
    pub title: String,
    pub url: String,
    pub snippet: Option<String>,
    pub site: Option<String>,
    pub published: Option<String>,
    pub image_url: Option<String>,
    pub thumbnail_url: Option<String>,
    pub duration: Option<String>,
    pub source: Option<String>,
}

/// The abstract view of a `VerticalResult`.
pub struct VerticalResultV {
    pub rank: u32,
    pub title: Seq<char>,
    pub url: Seq<char>,
    pub snippet: Option<Seq<char>>,
    pub site: Option<Seq<char>>,
    pub published: Option<Seq<char>>,
    pub image_url: Option<Seq<char>>,
    pub thumbnail_url: Option<Seq<char>>,
    pub duration: Option<Seq<char>>,
    pub source: Option<Seq<char>>,
}

impl View for VerticalResult {
    type V = VerticalResultV;

    open spec fn view(&self) -> VerticalResultV {
        VerticalResultV {
            rank: self.rank,
            title: self.title@,
            url: self.url@,
            snippet: opt_view(self.snippet),
            site: opt_view(self.site),
            published: opt_view(self.published),
            image_url: opt_view(self.image_url),
            thumbnail_url: opt_view(self.thumbnail_url),
            duration: opt_view(self.duration),
            source: opt_view(self.source),
        }
    }
}

/// The results of a vertical search.
#[derive(Debug, Clone)]
pub struct VerticalResponse {
    pub results: Vec<VerticalResult>,
}

/// A Kagi Lens of the user.
#[derive(Debug, Clone)]
pub struct Lens {
    pub id: u32,
    pub name: String,
    pub description: Option<String>,
    pub active: bool,
}

/// The abstract view of a `Lens`.
pub struct LensV {
    pub id: u32,
    pub name: Seq<char>,
    pub description: Option<Seq<char>>,
    pub active: bool,
}

impl View for Lens {
    type V = LensV;

    open spec fn view(&self) -> LensV {
        LensV { id: self.id, name: self.name@, description: opt_view(self.description), active: self.active }
    }
}

/// A fetched page.
#[derive(Debug, Clone)]
pub struct FetchResponse {
    pub url: String,
    pub final_url: String,
    pub status: u16,
    pub content_type: Option<String>,
    pub title: Option<String>,
    pub body: String,
    pub truncated: bool,
}

} // verus!
