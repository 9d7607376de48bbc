//! Reading Kagi's HTML: result rows, the knowledge panel, related
//! searches, the result count, FastGPT answers, the verticals and the lens
//! settings page.
//!
//! Each parser is split in two: a function that gathers the raw strings of
//! one item from the parsed document, and a `*_from_parts` function that
//! turns those strings into the item, with an exact contract.

use vstd::prelude::*;

use crate::domain::model::{
    opt_view, FastGptSourceV, LensV, QuickAnswerV, SearchResultV, VerticalResultV,
};
use crate::domain::{
    DomainResult, FastGptAnswer, FastGptSource, KagiVertical, Lens, QuickAnswer, SearchResult,
    VerticalResult,
};
use crate::html::{
    html_ancestors, html_attr, html_children, html_descendants, html_element_name, html_next_sibling,
    html_node_count, html_select, html_text, html_text_node, HtmlDoc,
};
use crate::num::{
    decimal, lemma_wrap_u32_succ, parse_unsigned, parse_unsigned_exec, u64_to_string,
    usize_to_u32_wrapping, wrap_u32,
};
use crate::text::{
    chars_of, clean, clean_chars, clean_text, contains, extend_range, find_first, first_occurrence,
    join_lines, lines_spec, nonempty_clean_lines, regex_replace_all, regex_replace_all_spec,
    replace_all, replace_spec, skip_vec, str_eq, string_of, strip_prefix, strip_prefix_spec, tidy_lines,
    trim_start_matches, trim_start_matches_spec, utf8_len, utf8_len_exceeds, ends_with, has_infix, has_prefix, has_suffix, starts_with,
    truncate_chars, truncated, occurs_at, lemma_replace_skips_prefix, lemma_replace_at_start, lemma_replace_empty,
};

verus! {

/// Result rows carry both `_0_SRI` and `search-result`.
pub const RESULT_SEL: &'static str = "div._0_SRI.search-result, div.search-result._0_SRI";

pub const TITLE_SEL: &'static str = ".__sri-title a, .__sri_title_box a, .__sri-title-box a, h3 a, a.__sri-title, a._0_sri_title_link, a.__sri_title_link";

pub const SNIPPET_SEL: &'static str = ".__sri-desc, .__sri_desc, .__sri-body, .__sri_body, ._0_DESC";

pub const URL_BOX_SEL: &'static str = ".__sri-url-box a, .__sri_url_box a, .__sri-url a, ._0_URL a";

pub const SITE_SEL: &'static str = ".__sri-site, .__sri_site, .domain, .__sri-url-box, .__sri_url_path_box";

pub const TIME_SEL: &'static str = ".__sri_age, .__sri-age, .__sri-time, .__result-date, time";

/// `Some(t)` when `t` is not empty.
pub open spec fn nonempty(t: Seq<char>) -> Option<Seq<char>> {
    if t.len() == 0 {
        None
    } else {
        Some(t)
    }
}

/// The cleaned text of an optional raw text, kept only when not empty.
pub open spec fn clean_opt(t: Option<Seq<char>>) -> Option<Seq<char>> {
    match t {
        Some(s) => nonempty(clean(s)),
        None => None,
    }
}

/// `Some(v)` when the value is present and not empty.
pub open spec fn filter_nonempty(t: Option<Seq<char>>) -> Option<Seq<char>> {
    match t {
        Some(s) => nonempty(s),
        None => None,
    }
}

/// The first element that `sel` matches in `scope`.
pub open spec fn first_match(src: Seq<char>, frag: bool, scope: Option<usize>, sel: Seq<char>) -> Option<usize> {
    let m = html_select(src, frag, scope, sel);
    if m.len() == 0 {
        None
    } else {
        Some(m[0])
    }
}

/// The raw text of the first element that `sel` matches in `scope`.
pub open spec fn first_text(src: Seq<char>, frag: bool, scope: Option<usize>, sel: Seq<char>) -> Option<Seq<char>> {
    match first_match(src, frag, scope, sel) {
        Some(h) => Some(html_text(src, frag, h)),
        None => None,
    }
}

/// The attribute `name` of the first element that `sel` matches in `scope`.
pub open spec fn first_attr(src: Seq<char>, frag: bool, scope: Option<usize>, sel: Seq<char>, name: Seq<char>) -> Option<Seq<char>> {
    match first_match(src, frag, scope, sel) {
        Some(h) => html_attr(src, frag, h, name),
        None => None,
    }
}

/// The cleaned text of an optional string, kept when not empty.
pub fn clean_text_opt(t: Option<String>) -> (r: Option<String>)
    ensures
        opt_view(r) == clean_opt(opt_view(t)),
{
    match t {
        Some(s) => {
            let c = clean_text(s.as_str());
            if c.as_str().is_empty() {
                None
            } else {
                Some(c)
            }
        },
        None => None,
    }
}

/// Keeps a present value only when it is not empty.
pub fn filter_nonempty_exec(t: Option<String>) -> (r: Option<String>)
    ensures
        opt_view(r) == filter_nonempty(opt_view(t)),
{
    match t {
        Some(s) => if s.as_str().is_empty() {
            None
        } else {
            Some(s)
        },
        None => None,
    }
}

/// The first element that `sel` matches in `scope`.
pub fn select_first(doc: &HtmlDoc, scope: Option<usize>, sel: &str) -> (r: Option<usize>)
    ensures
        r == first_match(doc.src(), doc.frag(), scope, sel@),
{
    let m = doc.select(scope, sel);
    if m.len() == 0 {
        None
    } else {
        Some(m[0])
    }
}

/// The raw text of the first element that `sel` matches in `scope`.
pub fn select_first_text(doc: &HtmlDoc, scope: Option<usize>, sel: &str) -> (r: Option<String>)
    ensures
        opt_view(r) == first_text(doc.src(), doc.frag(), scope, sel@),
{
    match select_first(doc, scope, sel) {
        Some(h) => Some(doc.text(h)),
        None => None,
    }
}

/// The attribute `name` of the first element that `sel` matches in `scope`.
pub fn select_first_attr(doc: &HtmlDoc, scope: Option<usize>, sel: &str, name: &str) -> (r: Option<String>)
    ensures
        opt_view(r) == first_attr(doc.src(), doc.frag(), scope, sel@, name@),
{
    match select_first(doc, scope, sel) {
        Some(h) => doc.attr(h, name),
        None => None,
    }
}

// ---------------------------------------------------------------------
// Web results

/// The raw strings of one result row.
pub struct SerpParts {
    /// The text of the title link, when the row has one.
    pub title_text: Option<String>,
    /// The `href` of the title link.
    pub title_href: Option<String>,
    /// The `href` of the first link of the URL box.
    pub url_box_href: Option<String>,
    pub snippet_text: Option<String>,
    pub site_text: Option<String>,
    pub time_text: Option<String>,
}

/// The abstract view of `SerpParts`.
pub struct SerpPartsV {
    pub title_text: Option<Seq<char>>,
    pub title_href: Option<Seq<char>>,
    pub url_box_href: Option<Seq<char>>,
    pub snippet_text: Option<Seq<char>>,
    pub site_text: Option<Seq<char>>,
    pub time_text: Option<Seq<char>>,
}

impl View for SerpParts {
    type V = SerpPartsV;

    open spec fn view(&self) -> SerpPartsV {
        SerpPartsV {
            title_text: opt_view(self.title_text),
            title_href: opt_view(self.title_href),
            url_box_href: opt_view(self.url_box_href),
            snippet_text: opt_view(self.snippet_text),
            site_text: opt_view(self.site_text),
            time_text: opt_view(self.time_text),
        }
    }
}

/// An optional string, empty when absent.
pub open spec fn or_empty(t: Option<Seq<char>>) -> Seq<char> {
    match t {
        Some(s) => s,
        None => seq![],
    }
}

/// The result a row yields: none without a title link; the URL is the
/// title link's `href` when it starts with `http`, else the URL box's;
/// rows with an empty title or URL are dropped; the optional fields are
/// cleaned and kept when not empty.
pub open spec fn serp_result_from_parts(rank: u32, p: SerpPartsV) -> Option<SearchResultV> {
    match p.title_text {
        None => None,
        Some(raw_title) => {
            let title = clean(raw_title);
            let href = or_empty(p.title_href);
            let url = if has_prefix(href, "http"@) {
                href
            } else {
                or_empty(p.url_box_href)
            };
            if title.len() == 0 || url.len() == 0 {
                None
            } else {
                Some(SearchResultV {
                    rank,
                    title,
                    url,
                    snippet: clean_opt(p.snippet_text),
                    site: clean_opt(p.site_text),
                    published: clean_opt(p.time_text),
                })
            }
        },
    }
}

/// Builds the result of one row from its raw strings.
pub fn search_result_from_parts(rank: u32, p: SerpParts) -> (r: Option<SearchResult>)
    ensures
        match serp_result_from_parts(rank, p@) {
            None => r is None,
            Some(v) => r matches Some(x) && x@ == v,
        },
{
    let raw_title = match p.title_text {
        None => return None,
        Some(t) => t,
    };
    let title = clean_text(raw_title.as_str());
    let href = match p.title_href {
        Some(h) => h,
        None => String::new(),
    };
    let url = if starts_with(href.as_str(), "http") {
        href
    } else {
        match p.url_box_href {
            Some(h) => h,
            None => String::new(),
        }
    };
    if title.as_str().is_empty() || url.as_str().is_empty() {
        return None;
    }
    Some(
        SearchResult {
            rank,
            title,
            url,
            snippet: clean_text_opt(p.snippet_text),
            site: clean_text_opt(p.site_text),
            published: clean_text_opt(p.time_text),
        },
    )
}

/// The raw strings of the row `h` of a document.
pub open spec fn serp_parts_of(src: Seq<char>, frag: bool, h: usize) -> SerpPartsV {
    SerpPartsV {
        title_text: first_text(src, frag, Some(h), TITLE_SEL@),
        title_href: first_attr(src, frag, Some(h), TITLE_SEL@, "href"@),
        url_box_href: first_attr(src, frag, Some(h), URL_BOX_SEL@, "href"@),
        snippet_text: first_text(src, frag, Some(h), SNIPPET_SEL@),
        site_text: first_text(src, frag, Some(h), SITE_SEL@),
        time_text: first_text(src, frag, Some(h), TIME_SEL@),
    }
}

/// Gathers the raw strings of row `h`.
pub fn gather_serp_parts(doc: &HtmlDoc, h: usize) -> (r: SerpParts)
    ensures
        r@ == serp_parts_of(doc.src(), doc.frag(), h),
{
    SerpParts {
        title_text: select_first_text(doc, Some(h), TITLE_SEL),
        title_href: select_first_attr(doc, Some(h), TITLE_SEL, "href"),
        url_box_href: select_first_attr(doc, Some(h), URL_BOX_SEL, "href"),
        snippet_text: select_first_text(doc, Some(h), SNIPPET_SEL),
        site_text: select_first_text(doc, Some(h), SITE_SEL),
        time_text: select_first_text(doc, Some(h), TIME_SEL),
    }
}

/// Whether a row is an image-strip footer, which also carries `_0_SRI`.
pub open spec fn is_footer_row(src: Seq<char>, frag: bool, h: usize) -> bool {
    has_infix(or_empty(html_attr(src, frag, h, "class"@)), "image-preview-footer"@)
}

/// The results of the rows `items`, ranked 1, 2, ... in order of the rows
/// kept.
pub open spec fn serp_results(src: Seq<char>, items: Seq<usize>) -> Seq<SearchResultV>
    decreases items.len(),
{
    if items.len() == 0 {
        seq![]
    } else {
        let prev = serp_results(src, items.drop_last());
        let h = items.last();
        if is_footer_row(src, false, h) {
            prev
        } else {
            match serp_result_from_parts(wrap_u32(prev.len() + 1int), serp_parts_of(src, false, h)) {
                Some(r) => prev.push(r),
                None => prev,
            }
        }
    }
}

/// The cleaned text of the first element that `sel` matches in row `h`,
/// when there is one and it is not empty.
pub open spec fn row_field(src: Seq<char>, h: usize, sel: Seq<char>) -> Option<Seq<char>> {
    match first_text(src, false, Some(h), sel) {
        Some(t) => if clean(t).len() > 0 {
            Some(clean(t))
        } else {
            None
        },
        None => None,
    }
}

/// Whether the fields of `r` are read from row `h`: its title from the
/// first title link, its snippet, site and published date from the first
/// element of the snippet, site and time selectors.
pub open spec fn fields_from_row(src: Seq<char>, h: usize, r: SearchResultV) -> bool {
    &&& first_text(src, false, Some(h), TITLE_SEL@) matches Some(t) && r.title == clean(t)
    &&& r.snippet == row_field(src, h, SNIPPET_SEL@)
    &&& r.site == row_field(src, h, SITE_SEL@)
    &&& r.published == row_field(src, h, TIME_SEL@)
}

/// Whether `r` is read from one of the rows `items`.
pub open spec fn from_some_row(src: Seq<char>, items: Seq<usize>, r: SearchResultV) -> bool {
    exists|k: int| 0 <= k < items.len() && #[trigger] fields_from_row(src, items[k], r)
}

/// Every web result comes from one of the rows, whose title link, snippet,
/// site and time elements give its title, snippet, site and published
/// date; and the results are ranked 1, 2, ... in order.
pub proof fn law_serp_fields_from_rows(src: Seq<char>, items: Seq<usize>)
    ensures
        forall|i: int| 0 <= i < serp_results(src, items).len() ==> (#[trigger] serp_results(src, items)[i]).rank
            == wrap_u32(i + 1),
        forall|i: int|
            0 <= i < serp_results(src, items).len() ==> from_some_row(src, items, #[trigger] serp_results(src, items)[i]),
    decreases items.len(),
{
    if items.len() > 0 {
        let dl = items.drop_last();
        law_serp_fields_from_rows(src, dl);
        let prev = serp_results(src, dl);
        let h = items.last();
        let res = serp_results(src, items);
        assert forall|i: int| 0 <= i < res.len() implies from_some_row(src, items, #[trigger] res[i]) by {
            if i < prev.len() {
                assert(res[i] == prev[i]);
                assert(from_some_row(src, dl, prev[i]));
                let k = choose|k: int| 0 <= k < dl.len() && #[trigger] fields_from_row(src, dl[k], prev[i]);
                assert(dl[k] == items[k]);
                assert(fields_from_row(src, items[k], res[i]));
            } else {
                let parts = serp_parts_of(src, false, h);
                let rank = wrap_u32(prev.len() + 1int);
                assert(!is_footer_row(src, false, h));
                assert(serp_result_from_parts(rank, parts) is Some);
                let r = serp_result_from_parts(rank, parts)->0;
                assert(res == prev.push(r));
                assert(res[i] == r);
                assert(items[items.len() - 1] == h);
                assert(fields_from_row(src, items[items.len() - 1], res[i]));
            }
        }
        assert forall|i: int| 0 <= i < res.len() implies (#[trigger] res[i]).rank == wrap_u32(i + 1) by {
            if i < prev.len() {
                assert(res[i] == prev[i]);
            }
        }
    }
}

/// The views of a vector of results.
pub open spec fn results_view(v: Seq<SearchResult>) -> Seq<SearchResultV> {
    v.map_values(|r: SearchResult| r@)
}

/// Parses the web results of a results page: every row that `RESULT_SEL`
/// matches, except image-strip footers and rows without a usable title
/// and URL, ranked from 1.
pub fn parse_serp(html: &str) -> (r: DomainResult<Vec<SearchResult>>)
    ensures
        r matches Ok(v) && results_view(v@) == serp_results(
            html@,
            html_select(html@, false, None, RESULT_SEL@),
        ),
        r matches Ok(v) ==> forall|i: int|
            0 <= i < v@.len() ==> (#[trigger] v@[i])@.rank == wrap_u32(i + 1) && from_some_row(
                html@,
                html_select(html@, false, None, RESULT_SEL@),
                v@[i]@,
            ),
{
    proof {
        law_serp_fields_from_rows(html@, html_select(html@, false, None, RESULT_SEL@));
    }
    let doc = HtmlDoc::parse_document(html);
    let items = doc.select(None, RESULT_SEL);
    let mut out: Vec<SearchResult> = Vec::new();
    let mut next_rank: u32 = 1;
    let mut i: usize = 0;
    while i < items.len()
        invariant
            doc.src() == html@,
            !doc.frag(),
            items@ == html_select(html@, false, None, RESULT_SEL@),
            i <= items@.len(),
            results_view(out@) == serp_results(html@, items@.take(i as int)),
            next_rank == wrap_u32(out@.len() + 1int),
        decreases items@.len() - i,
    {
        let h = items[i];
        proof {
            assert(items@.take(i + 1).drop_last() =~= items@.take(i as int));
            assert(items@.take(i + 1).last() == h);
        }
        let class_attr = match doc.attr(h, "class") {
            Some(c) => c,
            None => String::new(),
        };
        if !contains(class_attr.as_str(), "image-preview-footer") {
            let parts = gather_serp_parts(&doc, h);
            match search_result_from_parts(next_rank, parts) {
                Some(r) => {
                    let ghost before = results_view(out@);
                    out.push(r);
                    proof {
                        assert(results_view(out@) =~= before.push(r@));
                        lemma_wrap_u32_succ(before.len() + 1int);
                    }
                    next_rank = next_rank.wrapping_add(1);
                },
                None => {},
            }
        }
        i = i + 1;
    }
    proof {
        assert(items@.take(items@.len() as int) =~= items@);
        let ss = serp_results(html@, items@);
        assert forall|i: int| 0 <= i < out@.len() implies (#[trigger] out@[i])@.rank == wrap_u32(i + 1)
            && from_some_row(html@, items@, out@[i]@) by {
            assert(results_view(out@)[i] == out@[i]@);
            assert(ss[i] == out@[i]@);
        }
    }
    Ok(out)
}


// ---------------------------------------------------------------------
// Shared helpers on vectors

/// The views of a vector of strings.
pub open spec fn strings_view(v: Seq<String>) -> Seq<Seq<char>> {
    v.map_values(|s: String| s@)
}

/// Whether a vector of strings holds `t`.
pub fn strings_contain(v: &Vec<String>, t: &str) -> (b: bool)
    ensures
        b == strings_view(v@).contains(t@),
{
    let mut i: usize = 0;
    while i < v.len()
        invariant
            i <= v@.len(),
            forall|j: int| 0 <= j < i ==> v@[j]@ != t@,
        decreases v@.len() - i,
    {
        if str_eq(v[i].as_str(), t) {
            proof {
                assert(strings_view(v@)[i as int] == t@);
            }
            return true;
        }
        i = i + 1;
    }
    proof {
        if strings_view(v@).contains(t@) {
            let k = choose|k: int| 0 <= k < strings_view(v@).len() && strings_view(v@)[k] == t@;
            assert(v@[k]@ == t@);
        }
    }
    false
}

/// Whether a vector of numbers holds `x`.
pub fn u32s_contain(v: &Vec<u32>, x: u32) -> (b: bool)
    ensures
        b == v@.contains(x),
{
    let mut i: usize = 0;
    while i < v.len()
        invariant
            i <= v@.len(),
            forall|j: int| 0 <= j < i ==> v@[j] != x,
        decreases v@.len() - i,
    {
        if v[i] == x {
            return true;
        }
        i = i + 1;
    }
    false
}

/// Whether a vector of node handles holds `x`.
pub fn handles_contain(v: &Vec<usize>, x: usize) -> (b: bool)
    ensures
        b == v@.contains(x),
{
    let mut i: usize = 0;
    while i < v.len()
        invariant
            i <= v@.len(),
            forall|j: int| 0 <= j < i ==> v@[j] != x,
        decreases v@.len() - i,
    {
        if v[i] == x {
            return true;
        }
        i = i + 1;
    }
    false
}

/// No value occurs twice.
pub open spec fn no_dups<T>(s: Seq<T>) -> bool {
    forall|i: int, j: int| 0 <= i < j < s.len() ==> s[i] != s[j]
}

// ---------------------------------------------------------------------
// Related searches

pub const RELATED_SEL: &'static str = "a, button, span.related_query";

/// The related queries from the raw texts of the matched elements: each
/// text is cleaned; empty texts, texts of more than 200 bytes (in UTF-8) and repeats
/// are dropped.
pub open spec fn related_from_texts_spec(texts: Seq<Seq<char>>) -> Seq<Seq<char>>
    decreases texts.len(),
{
    if texts.len() == 0 {
        seq![]
    } else {
        let prev = related_from_texts_spec(texts.drop_last());
        let t = clean(texts.last());
        if t.len() == 0 || utf8_len(t) > 200 || prev.contains(t) {
            prev
        } else {
            prev.push(t)
        }
    }
}

proof fn lemma_related_no_dups(texts: Seq<Seq<char>>)
    ensures
        no_dups(related_from_texts_spec(texts)),
    decreases texts.len(),
{
    if texts.len() > 0 {
        lemma_related_no_dups(texts.drop_last());
    }
}

/// The related queries from the raw texts of the matched elements.
pub fn related_from_texts(texts: &Vec<String>) -> (r: Vec<String>)
    ensures
        strings_view(r@) == related_from_texts_spec(strings_view(texts@)),
        no_dups(strings_view(r@)),
{
    let mut out: Vec<String> = Vec::new();
    let mut i: usize = 0;
    while i < texts.len()
        invariant
            i <= texts@.len(),
            strings_view(out@) == related_from_texts_spec(strings_view(texts@).take(i as int)),
        decreases texts@.len() - i,
    {
        let ghost pre = strings_view(texts@).take(i as int);
        proof {
            assert(strings_view(texts@).take(i + 1).drop_last() =~= pre);
            assert(strings_view(texts@).take(i + 1).last() == texts@[i as int]@);
        }
        let t = clean_text(texts[i].as_str());
        if !t.as_str().is_empty() && !utf8_len_exceeds(t.as_str(), 200) && !strings_contain(&out, t.as_str()) {
            let ghost before = strings_view(out@);
            out.push(t);
            proof {
                assert(strings_view(out@) =~= before.push(out@.last()@));
            }
        }
        i = i + 1;
    }
    proof {
        assert(strings_view(texts@).take(texts@.len() as int) =~= strings_view(texts@));
        lemma_related_no_dups(strings_view(texts@));
    }
    out
}

/// The raw texts of the elements that `sel` matches in a document.
pub open spec fn texts_of(src: Seq<char>, frag: bool, items: Seq<usize>) -> Seq<Seq<char>> {
    items.map_values(|h: usize| html_text(src, frag, h))
}

/// The raw texts of the given elements.
pub fn gather_texts(doc: &HtmlDoc, items: &Vec<usize>) -> (r: Vec<String>)
    ensures
        strings_view(r@) == texts_of(doc.src(), doc.frag(), items@),
{
    let mut out: Vec<String> = Vec::new();
    let mut i: usize = 0;
    while i < items.len()
        invariant
            i <= items@.len(),
            strings_view(out@) == texts_of(doc.src(), doc.frag(), items@.take(i as int)),
        decreases items@.len() - i,
    {
        let t = doc.text(items[i]);
        let ghost before = strings_view(out@);
        out.push(t);
        proof {
            assert(strings_view(out@) =~= before.push(t@));
            assert(texts_of(doc.src(), doc.frag(), items@.take(i + 1)) =~= texts_of(
                doc.src(),
                doc.frag(),
                items@.take(i as int),
            ).push(t@));
        }
        i = i + 1;
    }
    proof {
        assert(items@.take(items@.len() as int) =~= items@);
    }
    out
}

/// Parses the related-searches chunk: the cleaned texts of its links,
/// buttons and `span.related_query` elements, without empty, overlong
/// (over 200 bytes) or repeated entries.
pub fn parse_related_searches(html: &str) -> (r: Vec<String>)
    ensures
        strings_view(r@) == related_from_texts_spec(
            texts_of(html@, true, html_select(html@, true, None, RELATED_SEL@)),
        ),
        no_dups(strings_view(r@)),
{
    let doc = HtmlDoc::parse_fragment(html);
    let items = doc.select(None, RELATED_SEL);
    let texts = gather_texts(&doc, &items);
    related_from_texts(&texts)
}

// ---------------------------------------------------------------------
// Result count

/// The ASCII digits of `s`, in order.
pub open spec fn ascii_digits(s: Seq<char>) -> Seq<char>
    decreases s.len(),
{
    if s.len() == 0 {
        seq![]
    } else if '0' <= s.last() <= '9' {
        ascii_digits(s.drop_last()).push(s.last())
    } else {
        ascii_digits(s.drop_last())
    }
}

/// The result count in the text of the first `<i>`: its ASCII digits read
/// as a decimal `u64`, or nothing when there are none or they overflow.
pub open spec fn count_from_text_spec(t: Option<Seq<char>>) -> Option<u64> {
    match t {
        None => None,
        Some(s) => match parse_unsigned(ascii_digits(s), u64::MAX as int) {
            Some(v) => Some(v as u64),
            None => None,
        },
    }
}

/// The result count from the text of the first `<i>` of the chunk.
pub fn count_from_text(t: Option<String>) -> (r: Option<u64>)
    ensures
        r == count_from_text_spec(opt_view(t)),
{
    let s = match t {
        Some(s) => s,
        None => return None,
    };
    let v = chars_of(s.as_str());
    let mut digits: Vec<char> = Vec::new();
    let mut i: usize = 0;
    while i < v.len()
        invariant
            i <= v@.len(),
            digits@ == ascii_digits(v@.take(i as int)),
        decreases v@.len() - i,
    {
        let c = v[i];
        proof {
            assert(v@.take(i + 1).drop_last() =~= v@.take(i as int));
            assert(v@.take(i + 1).last() == c);
        }
        if '0' <= c && c <= '9' {
            digits.push(c);
        }
        i = i + 1;
    }
    proof {
        assert(v@.take(v@.len() as int) =~= v@);
    }
    parse_unsigned_exec(&digits, u64::MAX)
}

/// Parses the "N relevant results" chunk: the digits of its first `<i>`.
pub fn parse_top_content_unique(html: &str) -> (r: Option<u64>)
    ensures
        r == count_from_text_spec(first_text(html@, true, None, "i"@)),
{
    let doc = HtmlDoc::parse_fragment(html);
    count_from_text(select_first_text(&doc, None, "i"))
}

// ---------------------------------------------------------------------
// Lens settings

pub const LENS_ITEM_SEL: &'static str = ".__lens_item[data-id], ._0_lens_item[data-id]";

pub const LENS_NAME_SEL: &'static str = ".lens_title > div:not(.desc_box)";

pub const LENS_DESC_SEL: &'static str = ".lens_desc, .lens_label_desc";

pub const LENS_ACTIVE_TABLE_SEL: &'static str = "#_0_lens_table_active";

/// A `data-id` attribute read as a `u32`, as `str::parse` reads it.
pub open spec fn lens_id_spec(a: Option<Seq<char>>) -> Option<u32> {
    match a {
        None => None,
        Some(s) => match parse_unsigned(s, u32::MAX as int) {
            Some(v) => Some(v as u32),
            None => None,
        },
    }
}

/// Reads a `data-id` attribute as a `u32`.
pub fn lens_id(a: Option<String>) -> (r: Option<u32>)
    ensures
        r == lens_id_spec(opt_view(a)),
{
    match a {
        None => None,
        Some(s) => {
            let v = chars_of(s.as_str());
            match parse_unsigned_exec(&v, u32::MAX as u64) {
                Some(x) => Some(x as u32),
                None => None,
            }
        },
    }
}

/// The ids that parse among the given `data-id` attributes, in order.
pub open spec fn ids_of(attrs: Seq<Option<Seq<char>>>) -> Seq<u32>
    decreases attrs.len(),
{
    if attrs.len() == 0 {
        seq![]
    } else {
        match lens_id_spec(attrs.last()) {
            Some(id) => ids_of(attrs.drop_last()).push(id),
            None => ids_of(attrs.drop_last()),
        }
    }
}

/// The `data-id` attributes of the given elements.
pub open spec fn data_ids_of(src: Seq<char>, items: Seq<usize>) -> Seq<Option<Seq<char>>> {
    items.map_values(|h: usize| html_attr(src, false, h, "data-id"@))
}

/// The ids of the lenses listed in the active-lens table.
pub open spec fn active_ids_spec(src: Seq<char>) -> Seq<u32> {
    match first_match(src, false, None, LENS_ACTIVE_TABLE_SEL@) {
        None => seq![],
        Some(t) => ids_of(data_ids_of(src, html_select(src, false, Some(t), LENS_ITEM_SEL@))),
    }
}

/// "Lens #" followed by the id.
pub open spec fn default_lens_name(id: u32) -> Seq<char> {
    "Lens #"@ + decimal(id as nat)
}

/// The lens built from an item's id, raw name and description texts and
/// whether it is active: the name is the cleaned name text, or
/// "Lens #<id>" when that is missing or empty; the description is the
/// cleaned description text, kept when not empty and not equal to the
/// name.
pub open spec fn lens_from_parts_spec(id: u32, name_text: Option<Seq<char>>, desc_text: Option<Seq<char>>, active: bool) -> LensV {
    let name = match clean_opt(name_text) {
        Some(n) => n,
        None => default_lens_name(id),
    };
    let description = match clean_opt(desc_text) {
        Some(d) => if d == name {
            None
        } else {
            Some(d)
        },
        None => None,
    };
    LensV { id, name, description, active }
}

/// Builds a lens from its id, raw texts and activity.
pub fn lens_from_parts(id: u32, name_text: Option<String>, desc_text: Option<String>, active: bool) -> (r: Lens)
    ensures
        r@ == lens_from_parts_spec(id, opt_view(name_text), opt_view(desc_text), active),
{
    let name = match clean_text_opt(name_text) {
        Some(n) => n,
        None => String::from_str("Lens #").concat(u64_to_string(id as u64).as_str()),
    };
    let description = match clean_text_opt(desc_text) {
        Some(d) => if str_eq(d.as_str(), name.as_str()) {
            None
        } else {
            Some(d)
        },
        None => None,
    };
    Lens { id, name, description, active }
}

/// The lenses of the rows `items`, skipping rows whose id does not parse
/// and ids already seen.
pub open spec fn lenses_of(src: Seq<char>, items: Seq<usize>, active: Seq<u32>) -> Seq<LensV>
    decreases items.len(),
{
    if items.len() == 0 {
        seq![]
    } else {
        let prev = lenses_of(src, items.drop_last(), active);
        let h = items.last();
        match lens_id_spec(html_attr(src, false, h, "data-id"@)) {
            None => prev,
            Some(id) => if prev.map_values(|l: LensV| l.id).contains(id) {
                prev
            } else {
                prev.push(lens_from_parts_spec(
                    id,
                    first_text(src, false, Some(h), LENS_NAME_SEL@),
                    first_text(src, false, Some(h), LENS_DESC_SEL@),
                    active.contains(id),
                ))
            },
        }
    }
}

/// The views of a vector of lenses.
pub open spec fn lenses_view(v: Seq<Lens>) -> Seq<LensV> {
    v.map_values(|l: Lens| l@)
}

/// The ids of the elements' `data-id` attributes that parse.
fn collect_ids(doc: &HtmlDoc, items: &Vec<usize>) -> (r: Vec<u32>)
    requires
        !doc.frag(),
    ensures
        r@ == ids_of(data_ids_of(doc.src(), items@)),
{
    let mut out: Vec<u32> = Vec::new();
    let mut i: usize = 0;
    while i < items.len()
        invariant
            !doc.frag(),
            i <= items@.len(),
            out@ == ids_of(data_ids_of(doc.src(), items@.take(i as int))),
        decreases items@.len() - i,
    {
        proof {
            assert(data_ids_of(doc.src(), items@.take(i + 1)).drop_last() =~= data_ids_of(
                doc.src(),
                items@.take(i as int),
            ));
        }
        match lens_id(doc.attr(items[i], "data-id")) {
            Some(id) => out.push(id),
            None => {},
        }
        i = i + 1;
    }
    proof {
        assert(items@.take(items@.len() as int) =~= items@);
    }
    out
}

/// Parses the lens settings page: one lens per row with a parsable
/// `data-id`, first occurrence of each id only, marked active when the id
/// is listed in the active-lens table.
pub fn parse_lens_settings(html: &str) -> (r: Vec<Lens>)
    ensures
        lenses_view(r@) == lenses_of(
            html@,
            html_select(html@, false, None, LENS_ITEM_SEL@),
            active_ids_spec(html@),
        ),
        no_dups(lenses_view(r@).map_values(|l: LensV| l.id)),
{
    let doc = HtmlDoc::parse_document(html);
    let active_ids = match select_first(&doc, None, LENS_ACTIVE_TABLE_SEL) {
        Some(t) => {
            let rows = doc.select(Some(t), LENS_ITEM_SEL);
            collect_ids(&doc, &rows)
        },
        None => Vec::new(),
    };
    let items = doc.select(None, LENS_ITEM_SEL);
    let ghost active = active_ids_spec(html@);
    let mut out: Vec<Lens> = Vec::new();
    let mut seen: Vec<u32> = Vec::new();
    let mut i: usize = 0;
    while i < items.len()
        invariant
            doc.src() == html@,
            !doc.frag(),
            active_ids@ == active,
            i <= items@.len(),
            lenses_view(out@) == lenses_of(html@, items@.take(i as int), active),
            seen@ == lenses_view(out@).map_values(|l: LensV| l.id),
            no_dups(seen@),
        decreases items@.len() - i,
    {
        let h = items[i];
        proof {
            assert(items@.take(i + 1).drop_last() =~= items@.take(i as int));
            assert(items@.take(i + 1).last() == h);
        }
        match lens_id(doc.attr(h, "data-id")) {
            None => {},
            Some(id) => {
                if !u32s_contain(&seen, id) {
                    let name_text = select_first_text(&doc, Some(h), LENS_NAME_SEL);
                    let desc_text = select_first_text(&doc, Some(h), LENS_DESC_SEL);
                    let active_flag = u32s_contain(&active_ids, id);
                    let lens = lens_from_parts(id, name_text, desc_text, active_flag);
                    let ghost before = lenses_view(out@);
                    out.push(lens);
                    seen.push(id);
                    proof {
                        assert(lenses_view(out@) =~= before.push(lens@));
                        assert(lenses_view(out@).map_values(|l: LensV| l.id) =~= before.map_values(
                            |l: LensV| l.id,
                        ).push(id));
                    }
                }
            },
        }
        i = i + 1;
    }
    proof {
        assert(items@.take(items@.len() as int) =~= items@);
    }
    out
}

// ---------------------------------------------------------------------
// Knowledge panel

pub const WIKI_URL_SEL: &'static str = ".wikipediaContent[data-current_article]";

pub const WIKI_BODY_SEL: &'static str = ".wikipediaContent, .wikipediaResult";

/// Links and toggles of the panel, whose text is left out.
pub const WIKI_CHROME_SEL: &'static str = ".wiki-nw-link, .smw, .cardHistory, ._0_cardHistoryBack";

/// The knowledge panel built from the article URL and the raw panel text
/// (`None` when the page has no panel): the text is cleaned, an empty
/// panel gives nothing, and the text is cut to 1500 characters.
pub open spec fn quick_answer_from_parts_spec(url: Option<Seq<char>>, body: Option<Seq<char>>) -> Option<QuickAnswerV> {
    match body {
        None => None,
        Some(raw) => {
            let text = clean(raw);
            if text.len() == 0 {
                None
            } else {
                Some(QuickAnswerV { source: "wikipedia"@, text: truncated(text, 1500), url })
            }
        },
    }
}

/// Builds the knowledge panel from its URL and raw text.
pub fn quick_answer_from_parts(url: Option<String>, body: Option<String>) -> (r: Option<QuickAnswer>)
    ensures
        match quick_answer_from_parts_spec(opt_view(url), opt_view(body)) {
            None => r is None,
            Some(v) => r matches Some(q) && q@ == v,
        },
{
    let raw = match body {
        None => return None,
        Some(b) => b,
    };
    let text = clean_text(raw.as_str());
    if text.as_str().is_empty() {
        return None;
    }
    Some(QuickAnswer { source: String::from_str("wikipedia"), text: truncate_chars(text.as_str(), 1500), url })
}

/// The nodes under the chrome elements (each chrome element and its
/// descendants).
pub open spec fn excluded_nodes(src: Seq<char>, chrome: Seq<usize>) -> Seq<usize>
    decreases chrome.len(),
{
    if chrome.len() == 0 {
        seq![]
    } else {
        excluded_nodes(src, chrome.drop_last()) + html_descendants(src, false, chrome.last())
    }
}

/// The text nodes among `nodes` that are not excluded, each followed by a
/// space.
pub open spec fn panel_text(src: Seq<char>, nodes: Seq<usize>, excluded: Seq<usize>) -> Seq<char>
    decreases nodes.len(),
{
    if nodes.len() == 0 {
        seq![]
    } else {
        let prev = panel_text(src, nodes.drop_last(), excluded);
        let d = nodes.last();
        if excluded.contains(d) {
            prev
        } else {
            match html_text_node(src, false, d) {
                Some(t) => prev + t + seq![' '],
                None => prev,
            }
        }
    }
}

/// The raw text of the panel rooted at `root`.
pub open spec fn panel_raw_text(src: Seq<char>, root: usize) -> Seq<char> {
    panel_text(
        src,
        html_descendants(src, false, root),
        excluded_nodes(src, html_select(src, false, Some(root), WIKI_CHROME_SEL@)),
    )
}

/// The knowledge panel of a page.
pub open spec fn wikipedia_panel_spec(src: Seq<char>) -> Option<QuickAnswerV> {
    quick_answer_from_parts_spec(
        first_attr(src, false, None, WIKI_URL_SEL@, "data-current_article"@),
        match first_match(src, false, None, WIKI_BODY_SEL@) {
            Some(root) => Some(panel_raw_text(src, root)),
            None => None,
        },
    )
}

/// Parses Kagi's Wikipedia knowledge panel: the article URL, and the
/// panel's text without its links and toggles, cleaned and cut to 1500
/// characters; nothing when there is no panel or it has no text.
pub fn parse_wikipedia_panel(html: &str) -> (r: Option<QuickAnswer>)
    ensures
        match wikipedia_panel_spec(html@) {
            None => r is None,
            Some(v) => r matches Some(q) && q@ == v,
        },
{
    let doc = HtmlDoc::parse_document(html);
    let url = select_first_attr(&doc, None, WIKI_URL_SEL, "data-current_article");
    let body = match select_first(&doc, None, WIKI_BODY_SEL) {
        None => None,
        Some(root) => Some(gather_panel_text(&doc, root)),
    };
    quick_answer_from_parts(url, body)
}

/// The raw text of the panel rooted at `root`.
fn gather_panel_text(doc: &HtmlDoc, root: usize) -> (r: String)
    requires
        !doc.frag(),
    ensures
        r@ == panel_raw_text(doc.src(), root),
{
    let chrome = doc.select(Some(root), WIKI_CHROME_SEL);
    let mut excluded: Vec<usize> = Vec::new();
    let mut k: usize = 0;
    while k < chrome.len()
        invariant
            !doc.frag(),
            k <= chrome@.len(),
            excluded@ == excluded_nodes(doc.src(), chrome@.take(k as int)),
        decreases chrome@.len() - k,
    {
        let ds = doc.descendants(chrome[k]);
        let ghost before = excluded@;
        let mut j: usize = 0;
        while j < ds.len()
            invariant
                j <= ds@.len(),
                excluded@ == before + ds@.take(j as int),
            decreases ds@.len() - j,
        {
            excluded.push(ds[j]);
            proof {
                assert(ds@.take(j + 1) =~= ds@.take(j as int).push(ds@[j as int]));
                assert(excluded@ =~= before + ds@.take(j + 1));
            }
            j = j + 1;
        }
        proof {
            assert(ds@.take(ds@.len() as int) =~= ds@);
            assert(chrome@.take(k + 1).drop_last() =~= chrome@.take(k as int));
        }
        k = k + 1;
    }
    proof {
        assert(chrome@.take(chrome@.len() as int) =~= chrome@);
    }
    let nodes = doc.descendants(root);
    let mut buf: String = String::new();
    let mut i: usize = 0;
    while i < nodes.len()
        invariant
            !doc.frag(),
            i <= nodes@.len(),
            excluded@ == excluded_nodes(doc.src(), chrome@),
            buf@ == panel_text(doc.src(), nodes@.take(i as int), excluded@),
        decreases nodes@.len() - i,
    {
        let d = nodes[i];
        proof {
            assert(nodes@.take(i + 1).drop_last() =~= nodes@.take(i as int));
            assert(nodes@.take(i + 1).last() == d);
        }
        if !handles_contain(&excluded, d) {
            match doc.text_node(d) {
                Some(t) => {
                    buf.append(t.as_str());
                    buf.append(" ");
                    proof {
                        reveal_strlit(" ");
                    }
                },
                None => {},
            }
        }
        i = i + 1;
    }
    proof {
        assert(nodes@.take(nodes@.len() as int) =~= nodes@);
    }
    buf
}

// ---------------------------------------------------------------------
// Verticals

/// The views of a vector of vertical results.
pub open spec fn verticals_view(v: Seq<VerticalResult>) -> Seq<VerticalResultV> {
    v.map_values(|r: VerticalResult| r@)
}

pub const NEWS_ITEM_SEL: &'static str = ".newsResultItem._0_SRI";

pub const NEWS_TITLE_A_SEL: &'static str = "h3.__sri-title-box a, .newsResultTitle a";

pub const NEWS_BODY_SEL: &'static str = ".newsResultBody, .newsResultContent";

pub const NEWS_TIME_SEL: &'static str = ".newsResultTime";

pub const NEWS_IMG_SEL: &'static str = ".newsResultImage img";

/// The raw strings of one news item.
pub struct NewsParts {
    /// The text of the title link, when the item has one.
    pub title_text: Option<String>,
    pub title_href: Option<String>,
    /// The title link's `data-domain`.
    pub domain: Option<String>,
    pub body_text: Option<String>,
    pub time_text: Option<String>,
    pub image_src: Option<String>,
}

/// The abstract view of `NewsParts`.
pub struct NewsPartsV {
    pub title_text: Option<Seq<char>>,
    pub title_href: Option<Seq<char>>,
    pub domain: Option<Seq<char>>,
    pub body_text: Option<Seq<char>>,
    pub time_text: Option<Seq<char>>,
    pub image_src: Option<Seq<char>>,
}

impl View for NewsParts {
    type V = NewsPartsV;

    open spec fn view(&self) -> NewsPartsV {
        NewsPartsV {
            title_text: opt_view(self.title_text),
            title_href: opt_view(self.title_href),
            domain: opt_view(self.domain),
            body_text: opt_view(self.body_text),
            time_text: opt_view(self.time_text),
            image_src: opt_view(self.image_src),
        }
    }
}

/// The news result of an item: none without a title link or with an
/// empty title or URL.
pub open spec fn news_from_parts_spec(rank: u32, p: NewsPartsV) -> Option<VerticalResultV> {
    match p.title_text {
        None => None,
        Some(raw) => {
            let title = clean(raw);
            let url = or_empty(p.title_href);
            if title.len() == 0 || url.len() == 0 {
                None
            } else {
                Some(VerticalResultV {
                    rank,
                    title,
                    url,
                    snippet: clean_opt(p.body_text),
                    site: p.domain,
                    published: clean_opt(p.time_text),
                    image_url: p.image_src,
                    thumbnail_url: None,
                    duration: None,
                    source: None,
                })
            }
        },
    }
}

/// Builds a news result from its raw strings.
pub fn news_from_parts(rank: u32, p: NewsParts) -> (r: Option<VerticalResult>)
    ensures
        match news_from_parts_spec(rank, p@) {
            None => r is None,
            Some(v) => r matches Some(x) && x@ == v,
        },
{
    let raw = match p.title_text {
        None => return None,
        Some(t) => t,
    };
    let title = clean_text(raw.as_str());
    let url = match p.title_href {
        Some(h) => h,
        None => String::new(),
    };
    if title.as_str().is_empty() || url.as_str().is_empty() {
        return None;
    }
    Some(
        VerticalResult {
            rank,
            title,
            url,
            snippet: clean_text_opt(p.body_text),
            site: p.domain,
            published: clean_text_opt(p.time_text),
            image_url: p.image_src,
            thumbnail_url: None,
            duration: None,
            source: None,
        },
    )
}

/// The raw strings of news item `h`.
pub open spec fn news_parts_of(src: Seq<char>, h: usize) -> NewsPartsV {
    let a = first_match(src, false, Some(h), NEWS_TITLE_A_SEL@);
    NewsPartsV {
        title_text: match a {
            Some(a) => Some(html_text(src, false, a)),
            None => None,
        },
        title_href: match a {
            Some(a) => html_attr(src, false, a, "href"@),
            None => None,
        },
        domain: match a {
            Some(a) => html_attr(src, false, a, "data-domain"@),
            None => None,
        },
        body_text: first_text(src, false, Some(h), NEWS_BODY_SEL@),
        time_text: first_text(src, false, Some(h), NEWS_TIME_SEL@),
        image_src: first_attr(src, false, Some(h), NEWS_IMG_SEL@, "src"@),
    }
}

/// Gathers the raw strings of news item `h`.
pub fn gather_news_parts(doc: &HtmlDoc, h: usize) -> (r: NewsParts)
    requires
        !doc.frag(),
    ensures
        r@ == news_parts_of(doc.src(), h),
{
    let a = select_first(doc, Some(h), NEWS_TITLE_A_SEL);
    let (title_text, title_href, domain) = match a {
        Some(a) => (Some(doc.text(a)), doc.attr(a, "href"), doc.attr(a, "data-domain")),
        None => (None, None, None),
    };
    NewsParts {
        title_text,
        title_href,
        domain,
        body_text: select_first_text(doc, Some(h), NEWS_BODY_SEL),
        time_text: select_first_text(doc, Some(h), NEWS_TIME_SEL),
        image_src: select_first_attr(doc, Some(h), NEWS_IMG_SEL, "src"),
    }
}

/// The news results of the items, each ranked by its position among all
/// items (skipped items leave gaps).
pub open spec fn news_results(src: Seq<char>, items: Seq<usize>) -> Seq<VerticalResultV>
    decreases items.len(),
{
    if items.len() == 0 {
        seq![]
    } else {
        let prev = news_results(src, items.drop_last());
        match news_from_parts_spec(wrap_u32(items.len() as int), news_parts_of(src, items.last())) {
            Some(r) => prev.push(r),
            None => prev,
        }
    }
}

fn parse_news(doc: &HtmlDoc) -> (r: Vec<VerticalResult>)
    requires
        !doc.frag(),
    ensures
        verticals_view(r@) == news_results(doc.src(), html_select(doc.src(), false, None, NEWS_ITEM_SEL@)),
{
    let items = doc.select(None, NEWS_ITEM_SEL);
    let mut out: Vec<VerticalResult> = Vec::new();
    let mut i: usize = 0;
    while i < items.len()
        invariant
            !doc.frag(),
            i <= items@.len(),
            verticals_view(out@) == news_results(doc.src(), items@.take(i as int)),
        decreases items@.len() - i,
    {
        let h = items[i];
        proof {
            assert(items@.take(i + 1).drop_last() =~= items@.take(i as int));
            assert(items@.take(i + 1).last() == h);
        }
        let parts = gather_news_parts(doc, h);
        match news_from_parts(usize_to_u32_wrapping(i + 1), parts) {
            Some(r) => {
                let ghost before = verticals_view(out@);
                out.push(r);
                proof {
                    assert(verticals_view(out@) =~= before.push(r@));
                }
            },
            None => {},
        }
        i = i + 1;
    }
    proof {
        assert(items@.take(items@.len() as int) =~= items@);
    }
    out
}

pub const PODCAST_ITEM_SEL: &'static str = "a.top_media_item";

pub const PODCAST_TITLE_SEL: &'static str = ".top_media_item_title";

pub const PODCAST_THUMB_SEL: &'static str = "img.top_media_item_thumb, img";

/// The podcast result of item number `n` (from 1): its `href` as URL
/// (none when empty), the cleaned title text or "Podcast <n>", and the
/// thumbnail's `src`.
pub open spec fn podcast_from_parts_spec(n: nat, href: Option<Seq<char>>, title_text: Option<Seq<char>>, thumb: Option<Seq<char>>) -> Option<VerticalResultV> {
    let url = or_empty(href);
    if url.len() == 0 {
        None
    } else {
        Some(VerticalResultV {
            rank: wrap_u32(n as int),
            title: match clean_opt(title_text) {
                Some(t) => t,
                None => "Podcast "@ + decimal(n),
            },
            url,
            snippet: None,
            site: None,
            published: None,
            image_url: None,
            thumbnail_url: thumb,
            duration: None,
            source: None,
        })
    }
}

/// Builds the podcast result of item number `n` (from 1).
pub fn podcast_from_parts(n: usize, href: Option<String>, title_text: Option<String>, thumb: Option<String>) -> (r: Option<VerticalResult>)
    ensures
        match podcast_from_parts_spec(n as nat, opt_view(href), opt_view(title_text), opt_view(thumb)) {
            None => r is None,
            Some(v) => r matches Some(x) && x@ == v,
        },
{
    let url = match href {
        Some(h) => h,
        None => String::new(),
    };
    if url.as_str().is_empty() {
        return None;
    }
    let title = match clean_text_opt(title_text) {
        Some(t) => t,
        None => String::from_str("Podcast ").concat(u64_to_string(n as u64).as_str()),
    };
    Some(
        VerticalResult {
            rank: usize_to_u32_wrapping(n),
            title,
            url,
            snippet: None,
            site: None,
            published: None,
            image_url: None,
            thumbnail_url: thumb,
            duration: None,
            source: None,
        },
    )
}

/// The podcast results of the items.
pub open spec fn podcast_results(src: Seq<char>, items: Seq<usize>) -> Seq<VerticalResultV>
    decreases items.len(),
{
    if items.len() == 0 {
        seq![]
    } else {
        let prev = podcast_results(src, items.drop_last());
        let h = items.last();
        match podcast_from_parts_spec(
            items.len(),
            html_attr(src, false, h, "href"@),
            first_text(src, false, Some(h), PODCAST_TITLE_SEL@),
            first_attr(src, false, Some(h), PODCAST_THUMB_SEL@, "src"@),
        ) {
            Some(r) => prev.push(r),
            None => prev,
        }
    }
}

fn parse_podcasts(doc: &HtmlDoc) -> (r: Vec<VerticalResult>)
    requires
        !doc.frag(),
    ensures
        verticals_view(r@) == podcast_results(doc.src(), html_select(doc.src(), false, None, PODCAST_ITEM_SEL@)),
{
    let items = doc.select(None, PODCAST_ITEM_SEL);
    let mut out: Vec<VerticalResult> = Vec::new();
    let mut i: usize = 0;
    while i < items.len()
        invariant
            !doc.frag(),
            i <= items@.len(),
            verticals_view(out@) == podcast_results(doc.src(), items@.take(i as int)),
        decreases items@.len() - i,
    {
        let h = items[i];
        proof {
            assert(items@.take(i + 1).drop_last() =~= items@.take(i as int));
            assert(items@.take(i + 1).last() == h);
        }
        let href = doc.attr(h, "href");
        let title_text = select_first_text(doc, Some(h), PODCAST_TITLE_SEL);
        let thumb = select_first_attr(doc, Some(h), PODCAST_THUMB_SEL, "src");
        match podcast_from_parts(i + 1, href, title_text, thumb) {
            Some(r) => {
                let ghost before = verticals_view(out@);
                out.push(r);
                proof {
                    assert(verticals_view(out@) =~= before.push(r@));
                }
            },
            None => {},
        }
        i = i + 1;
    }
    proof {
        assert(items@.take(items@.len() as int) =~= items@);
    }
    out
}

pub const IMAGE_ITEM_SEL: &'static str = "div._0_image_item";

pub const IMAGE_LINK_SEL: &'static str = "a._0_img_link_el";

pub const IMAGE_THUMB_SEL: &'static str = "img._0_img_src, img";

/// The raw strings of one image item: its `data-*` attributes, the
/// proxied image link's `href` and the thumbnail's `src`.
pub struct ImageParts {
    pub data_title: Option<String>,
    pub data_host_url: Option<String>,
    pub link_href: Option<String>,
    pub data_content_url: Option<String>,
    pub thumb_src: Option<String>,
    pub data_host: Option<String>,
    pub data_date_published: Option<String>,
    pub data_width: Option<String>,
    pub data_height: Option<String>,
}

/// The abstract view of `ImageParts`.
pub struct ImagePartsV {
    pub data_title: Option<Seq<char>>,
    pub data_host_url: Option<Seq<char>>,
    pub link_href: Option<Seq<char>>,
    pub data_content_url: Option<Seq<char>>,
    pub thumb_src: Option<Seq<char>>,
    pub data_host: Option<Seq<char>>,
    pub data_date_published: Option<Seq<char>>,
    pub data_width: Option<Seq<char>>,
    pub data_height: Option<Seq<char>>,
}

impl View for ImageParts {
    type V = ImagePartsV;

    open spec fn view(&self) -> ImagePartsV {
        ImagePartsV {
            data_title: opt_view(self.data_title),
            data_host_url: opt_view(self.data_host_url),
            link_href: opt_view(self.link_href),
            data_content_url: opt_view(self.data_content_url),
            thumb_src: opt_view(self.thumb_src),
            data_host: opt_view(self.data_host),
            data_date_published: opt_view(self.data_date_published),
            data_width: opt_view(self.data_width),
            data_height: opt_view(self.data_height),
        }
    }
}

/// The image result of item number `n` (from 1): the source page
/// (`data-host_url`) is the URL and must not be empty; the title is
/// `data-title` or "Image <n>"; the image is the link's `href`, else
/// `data-content_url`; the snippet is "<width>x<height>" when both are
/// present and not empty.
pub open spec fn image_from_parts_spec(n: nat, p: ImagePartsV) -> Option<VerticalResultV> {
    let url = or_empty(p.data_host_url);
    if url.len() == 0 {
        None
    } else {
        Some(VerticalResultV {
            rank: wrap_u32(n as int),
            title: match p.data_title {
                Some(t) => t,
                None => "Image "@ + decimal(n),
            },
            url,
            snippet: match (p.data_width, p.data_height) {
                (Some(w), Some(h)) => if w.len() > 0 && h.len() > 0 {
                    Some(w + "x"@ + h)
                } else {
                    None
                },
                _ => None,
            },
            site: p.data_host,
            published: filter_nonempty(p.data_date_published),
            image_url: match p.link_href {
                Some(l) => Some(l),
                None => p.data_content_url,
            },
            thumbnail_url: p.thumb_src,
            duration: None,
            source: None,
        })
    }
}

/// Builds the image result of item number `n` (from 1).
pub fn image_from_parts(n: usize, p: ImageParts) -> (r: Option<VerticalResult>)
    ensures
        match image_from_parts_spec(n as nat, p@) {
            None => r is None,
            Some(v) => r matches Some(x) && x@ == v,
        },
{
    let url = match p.data_host_url {
        Some(h) => h,
        None => String::new(),
    };
    if url.as_str().is_empty() {
        return None;
    }
    let title = match p.data_title {
        Some(t) => t,
        None => String::from_str("Image ").concat(u64_to_string(n as u64).as_str()),
    };
    let snippet = match (p.data_width, p.data_height) {
        (Some(w), Some(h)) => if !w.as_str().is_empty() && !h.as_str().is_empty() {
            Some(w.concat("x").concat(h.as_str()))
        } else {
            None
        },
        _ => None,
    };
    let image_url = match p.link_href {
        Some(l) => Some(l),
        None => p.data_content_url,
    };
    Some(
        VerticalResult {
            rank: usize_to_u32_wrapping(n),
            title,
            url,
            snippet,
            site: p.data_host,
            published: filter_nonempty_exec(p.data_date_published),
            image_url,
            thumbnail_url: p.thumb_src,
            duration: None,
            source: None,
        },
    )
}

/// The raw strings of image item `h`.
pub open spec fn image_parts_of(src: Seq<char>, h: usize) -> ImagePartsV {
    ImagePartsV {
        data_title: html_attr(src, false, h, "data-title"@),
        data_host_url: html_attr(src, false, h, "data-host_url"@),
        link_href: first_attr(src, false, Some(h), IMAGE_LINK_SEL@, "href"@),
        data_content_url: html_attr(src, false, h, "data-content_url"@),
        thumb_src: first_attr(src, false, Some(h), IMAGE_THUMB_SEL@, "src"@),
        data_host: html_attr(src, false, h, "data-host"@),
        data_date_published: html_attr(src, false, h, "data-date_published"@),
        data_width: html_attr(src, false, h, "data-width"@),
        data_height: html_attr(src, false, h, "data-height"@),
    }
}

/// Gathers the raw strings of image item `h`.
pub fn gather_image_parts(doc: &HtmlDoc, h: usize) -> (r: ImageParts)
    requires
        !doc.frag(),
    ensures
        r@ == image_parts_of(doc.src(), h),
{
    ImageParts {
        data_title: doc.attr(h, "data-title"),
        data_host_url: doc.attr(h, "data-host_url"),
        link_href: select_first_attr(doc, Some(h), IMAGE_LINK_SEL, "href"),
        data_content_url: doc.attr(h, "data-content_url"),
        thumb_src: select_first_attr(doc, Some(h), IMAGE_THUMB_SEL, "src"),
        data_host: doc.attr(h, "data-host"),
        data_date_published: doc.attr(h, "data-date_published"),
        data_width: doc.attr(h, "data-width"),
        data_height: doc.attr(h, "data-height"),
    }
}

/// The image results of the items.
pub open spec fn image_results(src: Seq<char>, items: Seq<usize>) -> Seq<VerticalResultV>
    decreases items.len(),
{
    if items.len() == 0 {
        seq![]
    } else {
        let prev = image_results(src, items.drop_last());
        match image_from_parts_spec(items.len(), image_parts_of(src, items.last())) {
            Some(r) => prev.push(r),
            None => prev,
        }
    }
}

fn parse_images(doc: &HtmlDoc) -> (r: Vec<VerticalResult>)
    requires
        !doc.frag(),
    ensures
        verticals_view(r@) == image_results(doc.src(), html_select(doc.src(), false, None, IMAGE_ITEM_SEL@)),
{
    let items = doc.select(None, IMAGE_ITEM_SEL);
    let mut out: Vec<VerticalResult> = Vec::new();
    let mut i: usize = 0;
    while i < items.len()
        invariant
            !doc.frag(),
            i <= items@.len(),
            verticals_view(out@) == image_results(doc.src(), items@.take(i as int)),
        decreases items@.len() - i,
    {
        let h = items[i];
        proof {
            assert(items@.take(i + 1).drop_last() =~= items@.take(i as int));
            assert(items@.take(i + 1).last() == h);
        }
        let parts = gather_image_parts(doc, h);
        match image_from_parts(i + 1, parts) {
            Some(r) => {
                let ghost before = verticals_view(out@);
                out.push(r);
                proof {
                    assert(verticals_view(out@) =~= before.push(r@));
                }
            },
            None => {},
        }
        i = i + 1;
    }
    proof {
        assert(items@.take(items@.len() as int) =~= items@);
    }
    out
}

pub const VIDEO_ITEM_SEL: &'static str = ".videoResultItem._0_SRI";

pub const VIDEO_TITLE_SEL: &'static str = "a.videoResultTitle";

pub const VIDEO_THUMB_A_SEL: &'static str = "a.videoResultThumbnail";

pub const VIDEO_THUMB_IMG_SEL: &'static str = "a.videoResultThumbnail img";

pub const VIDEO_DUR_SEL: &'static str = ".videoResultVideoTime";

pub const VIDEO_PUBLISHER_SEL: &'static str = "a.videoPublisher";

pub const VIDEO_DATE_SEL: &'static str = ".videoPublishedDate";

/// The raw strings of one video item.
pub struct VideoParts {
    /// The text of the title link, when the item has one.
    pub title_text: Option<String>,
    pub title_href: Option<String>,
    /// Whether the item has a thumbnail link.
    pub has_thumb_link: bool,
    pub thumb_href: Option<String>,
    /// The thumbnail image's `alt` and `src`.
    pub thumb_alt: Option<String>,
    pub thumb_src: Option<String>,
    pub duration_text: Option<String>,
    /// The text of the publisher link, when the item has one, and its
    /// `aria-label`.
    pub publisher_text: Option<String>,
    pub publisher_label: Option<String>,
    pub date_text: Option<String>,
}

/// The abstract view of `VideoParts`.
pub struct VideoPartsV {
    pub title_text: Option<Seq<char>>,
    pub title_href: Option<Seq<char>>,
    pub has_thumb_link: bool,
    pub thumb_href: Option<Seq<char>>,
    pub thumb_alt: Option<Seq<char>>,
    pub thumb_src: Option<Seq<char>>,
    pub duration_text: Option<Seq<char>>,
    pub publisher_text: Option<Seq<char>>,
    pub publisher_label: Option<Seq<char>>,
    pub date_text: Option<Seq<char>>,
}

impl View for VideoParts {
    type V = VideoPartsV;

    open spec fn view(&self) -> VideoPartsV {
        VideoPartsV {
            title_text: opt_view(self.title_text),
            title_href: opt_view(self.title_href),
            has_thumb_link: self.has_thumb_link,
            thumb_href: opt_view(self.thumb_href),
            thumb_alt: opt_view(self.thumb_alt),
            thumb_src: opt_view(self.thumb_src),
            duration_text: opt_view(self.duration_text),
            publisher_text: opt_view(self.publisher_text),
            publisher_label: opt_view(self.publisher_label),
            date_text: opt_view(self.date_text),
        }
    }
}

/// The publisher of a video: the `aria-label` after "Video publisher ",
/// else the cleaned link text; kept when not empty.
pub open spec fn video_source_spec(text: Option<Seq<char>>, label: Option<Seq<char>>) -> Option<Seq<char>> {
    match text {
        None => None,
        Some(raw) => {
            let from_label = match label {
                Some(l) => strip_prefix_spec(l, "Video publisher "@),
                None => None,
            };
            nonempty(
                match from_label {
                    Some(v) => v,
                    None => clean(raw),
                },
            )
        },
    }
}

/// The video result of an item: the title link's cleaned text and `href`,
/// or, without a title link, the thumbnail's `alt` without its leading
/// "Video Thumbnail of " and the thumbnail link's `href`; none without
/// either link, or with an empty title or URL.
pub open spec fn video_from_parts_spec(rank: u32, p: VideoPartsV) -> Option<VerticalResultV> {
    let tu: Option<(Seq<char>, Seq<char>)> = match p.title_text {
        Some(t) => Some((clean(t), or_empty(p.title_href))),
        None => if p.has_thumb_link {
            Some((trim_start_matches_spec(or_empty(p.thumb_alt), "Video Thumbnail of "@), or_empty(p.thumb_href)))
        } else {
            None
        },
    };
    match tu {
        None => None,
        Some((title, url)) => if title.len() == 0 || url.len() == 0 {
            None
        } else {
            Some(VerticalResultV {
                rank,
                title,
                url,
                snippet: None,
                site: None,
                published: clean_opt(p.date_text),
                image_url: None,
                thumbnail_url: p.thumb_src,
                duration: clean_opt(p.duration_text),
                source: video_source_spec(p.publisher_text, p.publisher_label),
            })
        },
    }
}

/// The publisher of a video.
fn video_source(text: Option<String>, label: Option<String>) -> (r: Option<String>)
    ensures
        opt_view(r) == video_source_spec(opt_view(text), opt_view(label)),
{
    let raw = match text {
        None => return None,
        Some(t) => t,
    };
    let from_label = match label {
        Some(l) => strip_prefix(l.as_str(), "Video publisher "),
        None => None,
    };
    let v = match from_label {
        Some(v) => v,
        None => clean_text(raw.as_str()),
    };
    if v.as_str().is_empty() {
        None
    } else {
        Some(v)
    }
}

/// Builds a video result from its raw strings.
pub fn video_from_parts(rank: u32, p: VideoParts) -> (r: Option<VerticalResult>)
    ensures
        match video_from_parts_spec(rank, p@) {
            None => r is None,
            Some(v) => r matches Some(x) && x@ == v,
        },
{
    let (title, url) = match p.title_text {
        Some(t) => (
            clean_text(t.as_str()),
            match p.title_href {
                Some(h) => h,
                None => String::new(),
            },
        ),
        None => if p.has_thumb_link {
            let alt = match p.thumb_alt {
                Some(a) => a,
                None => String::new(),
            };
            proof {
                reveal_strlit("Video Thumbnail of ");
            }
            (
                trim_start_matches(alt.as_str(), "Video Thumbnail of "),
                match p.thumb_href {
                    Some(h) => h,
                    None => String::new(),
                },
            )
        } else {
            return None;
        },
    };
    if title.as_str().is_empty() || url.as_str().is_empty() {
        return None;
    }
    Some(
        VerticalResult {
            rank,
            title,
            url,
            snippet: None,
            site: None,
            published: clean_text_opt(p.date_text),
            image_url: None,
            thumbnail_url: p.thumb_src,
            duration: clean_text_opt(p.duration_text),
            source: video_source(p.publisher_text, p.publisher_label),
        },
    )
}

/// The raw strings of video item `h`.
pub open spec fn video_parts_of(src: Seq<char>, h: usize) -> VideoPartsV {
    let t = first_match(src, false, Some(h), VIDEO_TITLE_SEL@);
    let pbl = first_match(src, false, Some(h), VIDEO_PUBLISHER_SEL@);
    VideoPartsV {
        title_text: match t {
            Some(a) => Some(html_text(src, false, a)),
            None => None,
        },
        title_href: match t {
            Some(a) => html_attr(src, false, a, "href"@),
            None => None,
        },
        has_thumb_link: first_match(src, false, Some(h), VIDEO_THUMB_A_SEL@) is Some,
        thumb_href: first_attr(src, false, Some(h), VIDEO_THUMB_A_SEL@, "href"@),
        thumb_alt: first_attr(src, false, Some(h), VIDEO_THUMB_IMG_SEL@, "alt"@),
        thumb_src: first_attr(src, false, Some(h), VIDEO_THUMB_IMG_SEL@, "src"@),
        duration_text: first_text(src, false, Some(h), VIDEO_DUR_SEL@),
        publisher_text: match pbl {
            Some(a) => Some(html_text(src, false, a)),
            None => None,
        },
        publisher_label: match pbl {
            Some(a) => html_attr(src, false, a, "aria-label"@),
            None => None,
        },
        date_text: first_text(src, false, Some(h), VIDEO_DATE_SEL@),
    }
}

/// Gathers the raw strings of video item `h`.
pub fn gather_video_parts(doc: &HtmlDoc, h: usize) -> (r: VideoParts)
    requires
        !doc.frag(),
    ensures
        r@ == video_parts_of(doc.src(), h),
{
    let t = select_first(doc, Some(h), VIDEO_TITLE_SEL);
    let (title_text, title_href) = match t {
        Some(a) => (Some(doc.text(a)), doc.attr(a, "href")),
        None => (None, None),
    };
    let pbl = select_first(doc, Some(h), VIDEO_PUBLISHER_SEL);
    let (publisher_text, publisher_label) = match pbl {
        Some(a) => (Some(doc.text(a)), doc.attr(a, "aria-label")),
        None => (None, None),
    };
    VideoParts {
        title_text,
        title_href,
        has_thumb_link: select_first(doc, Some(h), VIDEO_THUMB_A_SEL).is_some(),
        thumb_href: select_first_attr(doc, Some(h), VIDEO_THUMB_A_SEL, "href"),
        thumb_alt: select_first_attr(doc, Some(h), VIDEO_THUMB_IMG_SEL, "alt"),
        thumb_src: select_first_attr(doc, Some(h), VIDEO_THUMB_IMG_SEL, "src"),
        duration_text: select_first_text(doc, Some(h), VIDEO_DUR_SEL),
        publisher_text,
        publisher_label,
        date_text: select_first_text(doc, Some(h), VIDEO_DATE_SEL),
    }
}

/// The video results of the items, ranked by position among all items.
pub open spec fn video_results(src: Seq<char>, items: Seq<usize>) -> Seq<VerticalResultV>
    decreases items.len(),
{
    if items.len() == 0 {
        seq![]
    } else {
        let prev = video_results(src, items.drop_last());
        match video_from_parts_spec(wrap_u32(items.len() as int), video_parts_of(src, items.last())) {
            Some(r) => prev.push(r),
            None => prev,
        }
    }
}

fn parse_videos(doc: &HtmlDoc) -> (r: Vec<VerticalResult>)
    requires
        !doc.frag(),
    ensures
        verticals_view(r@) == video_results(doc.src(), html_select(doc.src(), false, None, VIDEO_ITEM_SEL@)),
{
    let items = doc.select(None, VIDEO_ITEM_SEL);
    let mut out: Vec<VerticalResult> = Vec::new();
    let mut i: usize = 0;
    while i < items.len()
        invariant
            !doc.frag(),
            i <= items@.len(),
            verticals_view(out@) == video_results(doc.src(), items@.take(i as int)),
        decreases items@.len() - i,
    {
        let h = items[i];
        proof {
            assert(items@.take(i + 1).drop_last() =~= items@.take(i as int));
            assert(items@.take(i + 1).last() == h);
        }
        let parts = gather_video_parts(doc, h);
        match video_from_parts(usize_to_u32_wrapping(i + 1), parts) {
            Some(r) => {
                let ghost before = verticals_view(out@);
                out.push(r);
                proof {
                    assert(verticals_view(out@) =~= before.push(r@));
                }
            },
            None => {},
        }
        i = i + 1;
    }
    proof {
        assert(items@.take(items@.len() as int) =~= items@);
    }
    out
}

/// The results of a vertical's page.
pub open spec fn vertical_results_spec(src: Seq<char>, vertical: KagiVertical) -> Seq<VerticalResultV> {
    match vertical {
        KagiVertical::News => news_results(src, html_select(src, false, None, NEWS_ITEM_SEL@)),
        KagiVertical::Videos => video_results(src, html_select(src, false, None, VIDEO_ITEM_SEL@)),
        KagiVertical::Podcasts => podcast_results(src, html_select(src, false, None, PODCAST_ITEM_SEL@)),
        KagiVertical::Images => image_results(src, html_select(src, false, None, IMAGE_ITEM_SEL@)),
    }
}

/// Parses the results of one of the verticals.
pub fn parse_vertical_serp(html: &str, vertical: KagiVertical) -> (r: DomainResult<Vec<VerticalResult>>)
    ensures
        r matches Ok(v) && verticals_view(v@) == vertical_results_spec(html@, vertical),
{
    let doc = HtmlDoc::parse_document(html);
    let results = match vertical {
        KagiVertical::News => parse_news(&doc),
        KagiVertical::Videos => parse_videos(&doc),
        KagiVertical::Podcasts => parse_podcasts(&doc),
        KagiVertical::Images => parse_images(&doc),
    };
    Ok(results)
}

// ---------------------------------------------------------------------
// FastGPT

pub const SUP_RE: &'static str = "<sup[^>]*>\\s*<a[^>]*>\\s*(\\d+)\\s*</a>\\s*</sup>";

pub const BLOCK_RE: &'static str = "</(?:p|li|h[1-6]|div|br)>";

pub const TAG_RE: &'static str = "<[^>]+>";

/// The six HTML entities of the answer decoded, in this order.
pub open spec fn decode_entities(s: Seq<char>) -> Seq<char> {
    let s = replace_spec(s, "&quot;"@, "\""@);
    let s = replace_spec(s, "&apos;"@, "'"@);
    let s = replace_spec(s, "&amp;"@, "&"@);
    let s = replace_spec(s, "&lt;"@, "<"@);
    let s = replace_spec(s, "&gt;"@, ">"@);
    replace_spec(s, "&nbsp;"@, " "@)
}

/// Whether a text holds no `&`, so that no entity starts in it.
pub open spec fn no_ampersand(t: Seq<char>) -> bool {
    forall|k: int| 0 <= k < t.len() ==> t[k] != '&'
}

proof fn lemma_plain_prefix(a: Seq<char>, b: Seq<char>, from: Seq<char>, to: Seq<char>)
    requires
        no_ampersand(a),
        from.len() > 0,
        from[0] == '&',
    ensures
        replace_spec(a + b, from, to) == a + replace_spec(b, from, to),
{
    assert forall|i: int| 0 <= i < a.len() implies !occurs_at(a + b, from, i) by {
        if occurs_at(a + b, from, i) {
            assert((a + b).subrange(i, i + from.len())[0] == (a + b)[i]);
        }
    }
    lemma_replace_skips_prefix(a, b, from, to);
}

/// A pass for `from` over `a + (e + y)`, where `a` has no `&` and the
/// entity `e` is another one than `from`, leaves `a` and `e` alone.
proof fn lemma_pass_other(a: Seq<char>, e: Seq<char>, y: Seq<char>, from: Seq<char>, to: Seq<char>)
    requires
        no_ampersand(a),
        e.len() >= 3,
        from.len() >= 3,
        e[0] == '&',
        from[0] == '&',
        forall|k: int| 1 <= k < e.len() ==> e[k] != '&',
        e[1] != from[1] || e[2] != from[2],
    ensures
        replace_spec(a + (e + y), from, to) == a + (e + replace_spec(y, from, to)),
{
    lemma_plain_prefix(a, e + y, from, to);
    assert forall|i: int| 0 <= i < e.len() implies !occurs_at(e + y, from, i) by {
        if occurs_at(e + y, from, i) {
            let w = (e + y).subrange(i, i + from.len());
            assert(w[0] == (e + y)[i]);
            if i == 0 {
                assert(w[1] == e[1] && w[2] == e[2]);
            }
        }
    }
    lemma_replace_skips_prefix(e, y, from, to);
}

/// A pass for `from` over `a + (from + y)`, where `a` has no `&`, turns
/// that `from` into `to`.
proof fn lemma_pass_hit(a: Seq<char>, y: Seq<char>, from: Seq<char>, to: Seq<char>)
    requires
        no_ampersand(a),
        from.len() > 0,
        from[0] == '&',
    ensures
        replace_spec(a + (from + y), from, to) == a + (to + replace_spec(y, from, to)),
{
    lemma_plain_prefix(a, from + y, from, to);
    assert((from + y).subrange(0, from.len() as int) =~= from);
    lemma_replace_at_start(from + y, from, to);
    assert((from + y).skip(from.len() as int) =~= y);
}

/// A pass for an entity leaves a text without `&` as it is.
proof fn lemma_pass_plain(t: Seq<char>, from: Seq<char>, to: Seq<char>)
    requires
        no_ampersand(t),
        from.len() > 0,
        from[0] == '&',
    ensures
        replace_spec(t, from, to) == t,
{
    lemma_plain_prefix(t, seq![], from, to);
    lemma_replace_empty(from, to);
    assert(t + seq![] =~= t);
}

proof fn lemma_entity_literals()
    ensures
        "&quot;"@ == seq!['&', 'q', 'u', 'o', 't', ';'],
        "&apos;"@ == seq!['&', 'a', 'p', 'o', 's', ';'],
        "&amp;"@ == seq!['&', 'a', 'm', 'p', ';'],
        "&lt;"@ == seq!['&', 'l', 't', ';'],
        "&gt;"@ == seq!['&', 'g', 't', ';'],
        "&nbsp;"@ == seq!['&', 'n', 'b', 's', 'p', ';'],
        "\""@ == seq!['"'],
        "'"@ == seq!['\''],
        "&"@ == seq!['&'],
        "<"@ == seq!['<'],
        ">"@ == seq!['>'],
        " "@ == seq![' '],
{
    reveal_strlit("&quot;");
    reveal_strlit("&apos;");
    reveal_strlit("&amp;");
    reveal_strlit("&lt;");
    reveal_strlit("&gt;");
    reveal_strlit("&nbsp;");
    reveal_strlit("\"");
    reveal_strlit("'");
    reveal_strlit("&");
    reveal_strlit("<");
    reveal_strlit(">");
    reveal_strlit(" ");
    assert("&quot;"@ =~= seq!['&', 'q', 'u', 'o', 't', ';']);
    assert("&apos;"@ =~= seq!['&', 'a', 'p', 'o', 's', ';']);
    assert("&amp;"@ =~= seq!['&', 'a', 'm', 'p', ';']);
    assert("&lt;"@ =~= seq!['&', 'l', 't', ';']);
    assert("&gt;"@ =~= seq!['&', 'g', 't', ';']);
    assert("&nbsp;"@ =~= seq!['&', 'n', 'b', 's', 'p', ';']);
    assert("\""@ =~= seq!['"']);
    assert("'"@ =~= seq!['\'']);
    assert("&"@ =~= seq!['&']);
    assert("<"@ =~= seq!['<']);
    assert(">"@ =~= seq!['>']);
    assert(" "@ =~= seq![' ']);
}

/// The passes after the first, from the second on, over `a + y` where `a`
/// has no `&`, leave `a` alone.
proof fn lemma_passes_keep_prefix(a: Seq<char>, y: Seq<char>, first: int)
    requires
        no_ampersand(a),
        1 <= first <= 6,
    ensures
        first <= 1 ==> replace_spec(a + y, "&apos;"@, "'"@) == a + replace_spec(y, "&apos;"@, "'"@),
        first <= 2 ==> replace_spec(a + y, "&amp;"@, "&"@) == a + replace_spec(y, "&amp;"@, "&"@),
        first <= 3 ==> replace_spec(a + y, "&lt;"@, "<"@) == a + replace_spec(y, "&lt;"@, "<"@),
        first <= 4 ==> replace_spec(a + y, "&gt;"@, ">"@) == a + replace_spec(y, "&gt;"@, ">"@),
        first <= 5 ==> replace_spec(a + y, "&nbsp;"@, " "@) == a + replace_spec(y, "&nbsp;"@, " "@),
{
    lemma_entity_literals();
    lemma_plain_prefix(a, y, "&apos;"@, "'"@);
    lemma_plain_prefix(a, y, "&amp;"@, "&"@);
    lemma_plain_prefix(a, y, "&lt;"@, "<"@);
    lemma_plain_prefix(a, y, "&gt;"@, ">"@);
    lemma_plain_prefix(a, y, "&nbsp;"@, " "@);
}

/// Text without `&` decodes to itself.
proof fn lemma_decode_plain(t: Seq<char>)
    requires
        no_ampersand(t),
    ensures
        decode_entities(t) == t,
{
    lemma_entity_literals();
    lemma_pass_plain(t, "&quot;"@, "\""@);
    lemma_pass_plain(t, "&apos;"@, "'"@);
    lemma_pass_plain(t, "&amp;"@, "&"@);
    lemma_pass_plain(t, "&lt;"@, "<"@);
    lemma_pass_plain(t, "&gt;"@, ">"@);
    lemma_pass_plain(t, "&nbsp;"@, " "@);
}

proof fn lemma_decode_quot(t: Seq<char>, u: Seq<char>)
    requires
        no_ampersand(t),
    ensures
        decode_entities(t + "&quot;"@ + u) == t + "\""@ + decode_entities(u),
{
    lemma_entity_literals();
    let c = "\""@;
    let y1 = replace_spec(u, "&quot;"@, c);
    assert(t + "&quot;"@ + u =~= t + ("&quot;"@ + u));
    lemma_pass_hit(t, u, "&quot;"@, c);
    let a = t + c;
    assert(t + (c + y1) =~= a + y1);
    let y2 = replace_spec(y1, "&apos;"@, "'"@);
    let y3 = replace_spec(y2, "&amp;"@, "&"@);
    let y4 = replace_spec(y3, "&lt;"@, "<"@);
    let y5 = replace_spec(y4, "&gt;"@, ">"@);
    lemma_passes_keep_prefix(a, y1, 1);
    lemma_passes_keep_prefix(a, y2, 2);
    lemma_passes_keep_prefix(a, y3, 3);
    lemma_passes_keep_prefix(a, y4, 4);
    lemma_passes_keep_prefix(a, y5, 5);
}

proof fn lemma_decode_apos(t: Seq<char>, u: Seq<char>)
    requires
        no_ampersand(t),
    ensures
        decode_entities(t + "&apos;"@ + u) == t + "'"@ + decode_entities(u),
{
    lemma_entity_literals();
    let c = "'"@;
    let y1 = replace_spec(u, "&quot;"@, "\""@);
    let y2 = replace_spec(y1, "&apos;"@, c);
    assert(t + "&apos;"@ + u =~= t + ("&apos;"@ + u));
    lemma_pass_other(t, "&apos;"@, u, "&quot;"@, "\""@);
    lemma_pass_hit(t, y1, "&apos;"@, c);
    let a = t + c;
    assert(t + (c + y2) =~= a + y2);
    let y3 = replace_spec(y2, "&amp;"@, "&"@);
    let y4 = replace_spec(y3, "&lt;"@, "<"@);
    let y5 = replace_spec(y4, "&gt;"@, ">"@);
    lemma_passes_keep_prefix(a, y2, 2);
    lemma_passes_keep_prefix(a, y3, 3);
    lemma_passes_keep_prefix(a, y4, 4);
    lemma_passes_keep_prefix(a, y5, 5);
}

proof fn lemma_decode_lt(t: Seq<char>, u: Seq<char>)
    requires
        no_ampersand(t),
    ensures
        decode_entities(t + "&lt;"@ + u) == t + "<"@ + decode_entities(u),
{
    lemma_entity_literals();
    let e = "&lt;"@;
    let c = "<"@;
    let y1 = replace_spec(u, "&quot;"@, "\""@);
    let y2 = replace_spec(y1, "&apos;"@, "'"@);
    let y3 = replace_spec(y2, "&amp;"@, "&"@);
    let y4 = replace_spec(y3, e, c);
    assert(t + e + u =~= t + (e + u));
    lemma_pass_other(t, e, u, "&quot;"@, "\""@);
    lemma_pass_other(t, e, y1, "&apos;"@, "'"@);
    lemma_pass_other(t, e, y2, "&amp;"@, "&"@);
    lemma_pass_hit(t, y3, e, c);
    let a = t + c;
    assert(t + (c + y4) =~= a + y4);
    let y5 = replace_spec(y4, "&gt;"@, ">"@);
    lemma_passes_keep_prefix(a, y4, 4);
    lemma_passes_keep_prefix(a, y5, 5);
}

proof fn lemma_decode_gt(t: Seq<char>, u: Seq<char>)
    requires
        no_ampersand(t),
    ensures
        decode_entities(t + "&gt;"@ + u) == t + ">"@ + decode_entities(u),
{
    lemma_entity_literals();
    let e = "&gt;"@;
    let c = ">"@;
    let y1 = replace_spec(u, "&quot;"@, "\""@);
    let y2 = replace_spec(y1, "&apos;"@, "'"@);
    let y3 = replace_spec(y2, "&amp;"@, "&"@);
    let y4 = replace_spec(y3, "&lt;"@, "<"@);
    let y5 = replace_spec(y4, e, c);
    assert(t + e + u =~= t + (e + u));
    lemma_pass_other(t, e, u, "&quot;"@, "\""@);
    lemma_pass_other(t, e, y1, "&apos;"@, "'"@);
    lemma_pass_other(t, e, y2, "&amp;"@, "&"@);
    lemma_pass_other(t, e, y3, "&lt;"@, "<"@);
    lemma_pass_hit(t, y4, e, c);
    let a = t + c;
    assert(t + (c + y5) =~= a + y5);
    lemma_passes_keep_prefix(a, y5, 5);
}

proof fn lemma_decode_nbsp(t: Seq<char>, u: Seq<char>)
    requires
        no_ampersand(t),
    ensures
        decode_entities(t + "&nbsp;"@ + u) == t + " "@ + decode_entities(u),
{
    lemma_entity_literals();
    let e = "&nbsp;"@;
    let c = " "@;
    let y1 = replace_spec(u, "&quot;"@, "\""@);
    let y2 = replace_spec(y1, "&apos;"@, "'"@);
    let y3 = replace_spec(y2, "&amp;"@, "&"@);
    let y4 = replace_spec(y3, "&lt;"@, "<"@);
    let y5 = replace_spec(y4, "&gt;"@, ">"@);
    let y6 = replace_spec(y5, e, c);
    assert(t + e + u =~= t + (e + u));
    lemma_pass_other(t, e, u, "&quot;"@, "\""@);
    lemma_pass_other(t, e, y1, "&apos;"@, "'"@);
    lemma_pass_other(t, e, y2, "&amp;"@, "&"@);
    lemma_pass_other(t, e, y3, "&lt;"@, "<"@);
    lemma_pass_other(t, e, y4, "&gt;"@, ">"@);
    lemma_pass_hit(t, y5, e, c);
    assert(t + (c + y6) =~= t + c + y6);
}

/// A pass for an entity whose second character is not the first of `u`
/// leaves `t + "&" + u` alone, where neither `t` nor `u` holds `&`.
proof fn lemma_lone_ampersand_kept(t: Seq<char>, u: Seq<char>, from: Seq<char>, to: Seq<char>)
    requires
        no_ampersand(t),
        no_ampersand(u),
        from.len() >= 2,
        from[0] == '&',
        u.len() == 0 || u[0] != from[1],
    ensures
        replace_spec(t + (seq!['&'] + u), from, to) == t + (seq!['&'] + u),
{
    let r = seq!['&'] + u;
    lemma_plain_prefix(t, r, from, to);
    assert forall|k: int| 0 <= k < r.len() implies !occurs_at(r + seq![], from, k) by {
        assert(r + seq![] =~= r);
        if occurs_at(r, from, k) {
            let w = r.subrange(k, k + from.len());
            assert(w[0] == r[k]);
            if k == 0 {
                assert(w[1] == r[1] && r[1] == u[0]);
            } else {
                assert(r[k] == u[k - 1]);
            }
        }
    }
    lemma_replace_skips_prefix(r, seq![], from, to);
    lemma_replace_empty(from, to);
    assert(r + seq![] =~= r);
}

proof fn lemma_decode_amp(t: Seq<char>, u: Seq<char>)
    requires
        no_ampersand(t),
        no_ampersand(u),
        u.len() == 0 || (u[0] != 'l' && u[0] != 'g' && u[0] != 'n'),
    ensures
        decode_entities(t + "&amp;"@ + u) == t + "&"@ + u,
{
    lemma_entity_literals();
    let e = "&amp;"@;
    lemma_pass_plain(u, "&quot;"@, "\""@);
    lemma_pass_plain(u, "&apos;"@, "'"@);
    lemma_pass_plain(u, e, "&"@);
    assert(t + e + u =~= t + (e + u));
    lemma_pass_other(t, e, u, "&quot;"@, "\""@);
    lemma_pass_other(t, e, u, "&apos;"@, "'"@);
    lemma_pass_hit(t, u, e, "&"@);
    lemma_lone_ampersand_kept(t, u, "&lt;"@, "<"@);
    lemma_lone_ampersand_kept(t, u, "&gt;"@, ">"@);
    lemma_lone_ampersand_kept(t, u, "&nbsp;"@, " "@);
    assert(t + (seq!['&'] + u) =~= t + "&"@ + u);
}

/// Decoding the entities of an answer: text without `&` is kept as it is;
/// `&quot;`, `&apos;`, `&lt;`, `&gt;` and `&nbsp;` after such text become
/// `"`, `'`, `<`, `>` and a space, and the text after them is decoded in
/// turn; `&amp;` becomes `&`, and that `&` is not read again as the start
/// of an entity (the text after it, without `&` and not starting as the
/// rest of `&lt;`, `&gt;` or `&nbsp;`, is kept as it is).
pub proof fn law_entities_decoded(t: Seq<char>, u: Seq<char>)
    requires
        no_ampersand(t),
    ensures
        decode_entities(t) == t,
        decode_entities(t + "&quot;"@ + u) == t + "\""@ + decode_entities(u),
        decode_entities(t + "&apos;"@ + u) == t + "'"@ + decode_entities(u),
        decode_entities(t + "&lt;"@ + u) == t + "<"@ + decode_entities(u),
        decode_entities(t + "&gt;"@ + u) == t + ">"@ + decode_entities(u),
        decode_entities(t + "&nbsp;"@ + u) == t + " "@ + decode_entities(u),
        no_ampersand(u) && (u.len() == 0 || (u[0] != 'l' && u[0] != 'g' && u[0] != 'n')) ==> decode_entities(
            t + "&amp;"@ + u,
        ) == t + "&"@ + u,
{
    lemma_decode_plain(t);
    lemma_decode_quot(t, u);
    lemma_decode_apos(t, u);
    lemma_decode_lt(t, u);
    lemma_decode_gt(t, u);
    lemma_decode_nbsp(t, u);
    if no_ampersand(u) && (u.len() == 0 || (u[0] != 'l' && u[0] != 'g' && u[0] != 'n')) {
        lemma_decode_amp(t, u);
    }
}

/// The plain text of an answer: `<sup><a>N</a></sup>` citation markers
/// become `[N]`, closing block tags become line breaks, other tags are
/// removed, the entities are decoded, and the non-empty lines, each with
/// its whitespace collapsed, are joined by `\n`.
pub open spec fn answer_text_spec(html: Seq<char>) -> Seq<char> {
    let s = regex_replace_all_spec(SUP_RE@, html, "[$1]"@);
    let s = regex_replace_all_spec(BLOCK_RE@, s, "\n"@);
    let s = regex_replace_all_spec(TAG_RE@, s, ""@);
    join_lines(nonempty_clean_lines(lines_spec(decode_entities(s))))
}

/// Renders the HTML of an answer as plain text with `[N]` citations.
pub fn render_answer_text(html: &str) -> (r: String)
    ensures
        r@ == answer_text_spec(html@),
{
    let s = regex_replace_all(SUP_RE, html, "[$1]");
    let s = regex_replace_all(BLOCK_RE, s.as_str(), "\n");
    let s = regex_replace_all(TAG_RE, s.as_str(), "");
    let v = chars_of(s.as_str());
    proof {
        reveal_strlit("&quot;");
        reveal_strlit("&apos;");
        reveal_strlit("&amp;");
        reveal_strlit("&lt;");
        reveal_strlit("&gt;");
        reveal_strlit("&nbsp;");
    }
    let v = replace_all(&v, "&quot;", "\"");
    let v = replace_all(&v, "&apos;", "'");
    let v = replace_all(&v, "&amp;", "&");
    let v = replace_all(&v, "&lt;", "<");
    let v = replace_all(&v, "&gt;", ">");
    let v = replace_all(&v, "&nbsp;", " ");
    let out = tidy_lines(&v);
    string_of(&out)
}

/// The part of the answer after the first `</details>` (the whole text
/// when there is none).
pub open spec fn after_details(html: Seq<char>) -> Seq<char> {
    match first_occurrence(html, "</details>"@) {
        Some(i) => html.skip(i + 10),
        None => html,
    }
}

fn answer_part(html: &str) -> (r: String)
    ensures
        r@ == after_details(html@),
{
    let v = chars_of(html);
    let pat = chars_of("</details>");
    proof {
        reveal_strlit("</details>");
    }
    match find_first(&v, &pat) {
        Some(i) => {
            let vl = v.len();
            assert(i + pat@.len() <= vl);
            let rest = skip_vec(&v, i + pat.len());
            string_of(&rest)
        },
        None => string_of(&v),
    }
}

/// The siblings of `start` and the nodes after them, following
/// `next_sibling` at most `fuel` times.
pub open spec fn sibling_chain(src: Seq<char>, start: Option<usize>, fuel: nat) -> Seq<usize>
    decreases fuel,
{
    match start {
        None => seq![],
        Some(n) => if fuel == 0 {
            seq![]
        } else {
            seq![n] + sibling_chain(src, html_next_sibling(src, true, n), (fuel - 1) as nat)
        },
    }
}

/// The text collected while walking after a source link, and whether the
/// walk has stopped.
pub struct WalkState {
    pub out: Seq<char>,
    pub done: bool,
}

/// The text nodes among `nodes`, each followed by a space.
pub open spec fn spaced_texts(src: Seq<char>, nodes: Seq<usize>) -> Seq<char>
    decreases nodes.len(),
{
    if nodes.len() == 0 {
        seq![]
    } else {
        let prev = spaced_texts(src, nodes.drop_last());
        match html_text_node(src, true, nodes.last()) {
            Some(t) => prev + t + seq![' '],
            None => prev,
        }
    }
}

/// One step of the walk: stop at the next source's `<strong>` (or any
/// `<strong>`); an element adds each of its text nodes followed by a
/// space and stops the walk when it contains the next `<strong>`; a text
/// node adds its text.
pub open spec fn walk_step(src: Seq<char>, st: WalkState, n: usize, stop: Option<usize>) -> WalkState {
    if st.done {
        st
    } else if stop == Some(n) {
        WalkState { out: st.out, done: true }
    } else {
        match html_element_name(src, true, n) {
            Some(name) => if name == "strong"@ {
                WalkState { out: st.out, done: true }
            } else {
                let ds = html_descendants(src, true, n);
                let out = st.out + spaced_texts(src, ds);
                WalkState {
                    out,
                    done: match stop {
                        Some(s) => ds.contains(s),
                        None => false,
                    },
                }
            },
            None => match html_text_node(src, true, n) {
                Some(t) => WalkState { out: st.out + t, done: false },
                None => st,
            },
        }
    }
}

/// The walk over `nodes` from state `st`.
pub open spec fn walk(src: Seq<char>, st: WalkState, nodes: Seq<usize>, stop: Option<usize>) -> WalkState
    decreases nodes.len(),
{
    if nodes.len() == 0 {
        st
    } else {
        walk_step(src, walk(src, st, nodes.drop_last(), stop), nodes.last(), stop)
    }
}

/// The nodes visited after `anchor`: its following siblings, then the
/// following siblings of each ancestor from the grandparent up.
pub open spec fn visit_order(src: Seq<char>, anchor: usize, fuel: nat) -> Seq<usize> {
    let anc = html_ancestors(src, true, anchor);
    sibling_chain(src, html_next_sibling(src, true, anchor), fuel) + levels_after(src, anc, 1, fuel)
}

/// The sibling chains after the ancestors `anc[k..]`.
pub open spec fn levels_after(src: Seq<char>, anc: Seq<usize>, k: int, fuel: nat) -> Seq<usize>
    decreases anc.len() - k,
{
    if k >= anc.len() || k < 0 {
        seq![]
    } else {
        sibling_chain(src, html_next_sibling(src, true, anc[k]), fuel) + levels_after(src, anc, k + 1, fuel)
    }
}

proof fn lemma_walk_concat(src: Seq<char>, st: WalkState, a: Seq<usize>, b: Seq<usize>, stop: Option<usize>)
    ensures
        walk(src, st, a + b, stop) == walk(src, walk(src, st, a, stop), b, stop),
    decreases b.len(),
{
    if b.len() == 0 {
        assert(a + b =~= a);
    } else {
        assert((a + b).drop_last() =~= a + b.drop_last());
        lemma_walk_concat(src, st, a, b.drop_last(), stop);
    }
}

proof fn lemma_walk_single(src: Seq<char>, st: WalkState, n: usize, stop: Option<usize>)
    ensures
        walk(src, st, seq![n], stop) == walk_step(src, st, n, stop),
{
    assert(seq![n].drop_last() =~= Seq::<usize>::empty());
    assert(walk(src, st, Seq::<usize>::empty(), stop) == st);
}

proof fn lemma_walk_done(src: Seq<char>, st: WalkState, b: Seq<usize>, stop: Option<usize>)
    requires
        st.done,
    ensures
        walk(src, st, b, stop) == st,
    decreases b.len(),
{
    if b.len() > 0 {
        lemma_walk_done(src, st, b.drop_last(), stop);
    }
}

proof fn lemma_chain_step(src: Seq<char>, n: usize, fuel: nat)
    requires
        fuel > 0,
    ensures
        sibling_chain(src, Some(n), fuel) == seq![n] + sibling_chain(src, html_next_sibling(src, true, n), (fuel - 1) as nat),
{
}

/// The text after source link `anchor` up to the next source's `<strong>`
/// `stop`, cleaned.
pub open spec fn text_until_next_strong_spec(src: Seq<char>, anchor: usize, stop: Option<usize>) -> Seq<char> {
    clean(walk(src, WalkState { out: seq![], done: false }, visit_order(src, anchor, html_node_count(src, true) as nat), stop).out)
}

/// Appends the text nodes among the descendants of `n`, each followed by
/// a space.
fn append_spaced_texts(doc: &HtmlDoc, ds: &Vec<usize>, out: &mut Vec<char>)
    requires
        doc.frag(),
    ensures
        final(out)@ == old(out)@ + spaced_texts(doc.src(), ds@),
{
    let ghost start = out@;
    let mut i: usize = 0;
    while i < ds.len()
        invariant
            doc.frag(),
            i <= ds@.len(),
            out@ == start + spaced_texts(doc.src(), ds@.take(i as int)),
        decreases ds@.len() - i,
    {
        proof {
            assert(ds@.take(i + 1).drop_last() =~= ds@.take(i as int));
            assert(ds@.take(i + 1).last() == ds@[i as int]);
        }
        match doc.text_node(ds[i]) {
            Some(t) => {
                let tv = chars_of(t.as_str());
                let ghost before = out@;
                extend_range(out, &tv, 0, tv.len());
                out.push(' ');
                proof {
                    assert(tv@.subrange(0, tv@.len() as int) =~= t@);
                    assert(out@ =~= start + (spaced_texts(doc.src(), ds@.take(i as int)) + t@ + seq![' ']));
                }
            },
            None => {},
        }
        i = i + 1;
    }
    proof {
        assert(ds@.take(ds@.len() as int) =~= ds@);
    }
}

/// Performs one walk step on node `n`; returns whether the walk stops.
fn walk_one(doc: &HtmlDoc, n: usize, stop: Option<usize>, out: &mut Vec<char>) -> (done: bool)
    requires
        doc.frag(),
    ensures
        walk_step(doc.src(), WalkState { out: old(out)@, done: false }, n, stop) == (WalkState { out: final(out)@, done }),
{
    if stop == Some(n) {
        return true;
    }
    match doc.element_name(n) {
        Some(name) => {
            if str_eq(name.as_str(), "strong") {
                return true;
            }
            let ds = doc.descendants(n);
            append_spaced_texts(doc, &ds, out);
            match stop {
                Some(s) => handles_contain(&ds, s),
                None => false,
            }
        },
        None => {
            match doc.text_node(n) {
                Some(t) => {
                    let tv = chars_of(t.as_str());
                    extend_range(out, &tv, 0, tv.len());
                    proof {
                        assert(tv@.subrange(0, tv@.len() as int) =~= t@);
                    }
                },
                None => {},
            }
            false
        },
    }
}

/// Walks the sibling chain from `start`; returns whether the walk stopped.
fn walk_chain(doc: &HtmlDoc, start: Option<usize>, stop: Option<usize>, out: &mut Vec<char>) -> (done: bool)
    requires
        doc.frag(),
        start matches Some(s) ==> s < html_node_count(doc.src(), true),
    ensures
        walk(doc.src(), WalkState { out: old(out)@, done: false }, sibling_chain(doc.src(), start, html_node_count(doc.src(), true) as nat), stop)
            == (WalkState { out: final(out)@, done }),
{
    let ghost src = doc.src();
    let ghost count = html_node_count(src, true) as nat;
    let ghost st0 = WalkState { out: out@, done: false };
    let ghost full = sibling_chain(src, start, count);
    let ghost mut vis: Seq<usize> = seq![];
    let ghost mut fuel: nat = count;
    let mut current = start;
    proof {
        assert(vis + sibling_chain(src, current, fuel) =~= full);
    }
    while current.is_some()
        invariant
            doc.frag(),
            src == doc.src(),
            count == html_node_count(src, true),
            full == sibling_chain(src, start, count),
            vis + sibling_chain(src, current, fuel) == full,
            current matches Some(c) ==> c < count && fuel >= count - c,
            walk(src, st0, vis, stop) == (WalkState { out: out@, done: false }),
            st0 == (WalkState { out: old(out)@, done: false }),
        decreases fuel,
    {
        let n = current.unwrap();
        proof {
            lemma_chain_step(src, n, fuel);
        }
        let ghost before = out@;
        let done = walk_one(doc, n, stop, out);
        let next = doc.next_sibling(n);
        proof {
            let rest = sibling_chain(src, next, (fuel - 1) as nat);
            assert(full == (vis + seq![n]) + rest) by {
                assert(vis + (seq![n] + rest) =~= (vis + seq![n]) + rest);
            }
            lemma_walk_concat(src, st0, vis, seq![n], stop);
            lemma_walk_single(src, walk(src, st0, vis, stop), n, stop);
        }
        if done {
            proof {
                let st = WalkState { out: out@, done: true };
                let rest = sibling_chain(src, next, (fuel - 1) as nat);
                assert(walk_step(src, WalkState { out: before, done: false }, n, stop) == st);
                assert(walk(src, st0, vis, stop) == WalkState { out: before, done: false });
                assert(walk(src, st0, vis + seq![n], stop) == st);
                lemma_walk_concat(src, st0, vis + seq![n], rest, stop);
                lemma_walk_done(src, st, rest, stop);
                assert(walk(src, st0, full, stop) == st);
            }
            return true;
        }
        proof {
            vis = vis + seq![n];
            fuel = (fuel - 1) as nat;
        }
        current = next;
    }
    proof {
        assert(sibling_chain(src, current, fuel) =~= Seq::<usize>::empty());
        assert(vis + Seq::<usize>::empty() =~= vis);
    }
    false
}

/// The text after source link `anchor` up to the `<strong>` `stop` of
/// the next source (or any `<strong>`), cleaned.
fn text_until_next_strong(doc: &HtmlDoc, anchor: usize, stop: Option<usize>) -> (r: String)
    requires
        doc.frag(),
    ensures
        r@ == text_until_next_strong_spec(doc.src(), anchor, stop),
{
    let ghost src = doc.src();
    let ghost count = html_node_count(src, true) as nat;
    let ghost st0 = WalkState { out: seq![], done: false };
    let anc = doc.ancestors(anchor);
    let mut out: Vec<char> = Vec::new();
    let first = doc.next_sibling(anchor);
    let ghost c0 = sibling_chain(src, first, count);
    let done = walk_chain(doc, first, stop, &mut out);
    proof {
        assert(visit_order(src, anchor, count) == c0 + levels_after(src, anc@, 1, count));
        lemma_walk_concat(src, st0, c0, levels_after(src, anc@, 1, count), stop);
    }
    if done {
        proof {
            lemma_walk_done(src, WalkState { out: out@, done: true }, levels_after(src, anc@, 1, count), stop);
        }
        return string_of(&clean_chars(&out));
    }
    let mut k: usize = 1;
    while k < anc.len()
        invariant
            doc.frag(),
            src == doc.src(),
            count == html_node_count(src, true),
            1 <= k,
            st0 == (WalkState { out: seq![], done: false }),
            walk(src, st0, visit_order(src, anchor, count), stop) == walk(
                src,
                WalkState { out: out@, done: false },
                levels_after(src, anc@, k as int, count),
                stop,
            ),
        decreases anc@.len() - k,
    {
        let ns = doc.next_sibling(anc[k]);
        let ghost ck = sibling_chain(src, ns, count);
        let ghost stk = WalkState { out: out@, done: false };
        proof {
            assert(levels_after(src, anc@, k as int, count) == ck + levels_after(src, anc@, k + 1, count));
            lemma_walk_concat(src, stk, ck, levels_after(src, anc@, k + 1, count), stop);
        }
        let done = walk_chain(doc, ns, stop, &mut out);
        if done {
            proof {
                lemma_walk_done(src, WalkState { out: out@, done: true }, levels_after(src, anc@, k + 1, count), stop);
            }
            return string_of(&clean_chars(&out));
        }
        k = k + 1;
    }
    proof {
        assert(levels_after(src, anc@, k as int, count) =~= Seq::<usize>::empty());
    }
    string_of(&clean_chars(&out))
}

/// The sources of an answer from the `<strong>` titles and `<a>` links
/// of its `<details>` block, paired in order: a pair with an empty title
/// or URL is dropped; the snippet is the text up to the next title, cut
/// to 500 characters, kept when not empty.
pub open spec fn fastgpt_sources_spec(src: Seq<char>, strongs: Seq<usize>, anchors: Seq<usize>, n: int) -> Seq<FastGptSourceV>
    decreases n,
{
    if n <= 0 {
        seq![]
    } else {
        let prev = fastgpt_sources_spec(src, strongs, anchors, n - 1);
        let i = n - 1;
        let title = clean(html_text(src, true, strongs[i]));
        let url = or_empty(html_attr(src, true, anchors[i], "href"@));
        if title.len() == 0 || url.len() == 0 {
            prev
        } else {
            let stop = if i + 1 < strongs.len() {
                Some(strongs[i + 1])
            } else {
                None
            };
            let snippet = truncated(text_until_next_strong_spec(src, anchors[i], stop), 500);
            prev.push(FastGptSourceV { title, url, snippet: nonempty(snippet) })
        }
    }
}

/// The sources of a FastGPT answer.
pub open spec fn fastgpt_all_sources_spec(src: Seq<char>) -> Seq<FastGptSourceV> {
    match first_match(src, true, None, "details"@) {
        None => seq![],
        Some(d) => {
            let strongs = html_select(src, true, Some(d), "strong"@);
            let anchors = html_select(src, true, Some(d), "a"@);
            fastgpt_sources_spec(
                src,
                strongs,
                anchors,
                if strongs.len() < anchors.len() {
                    strongs.len() as int
                } else {
                    anchors.len() as int
                },
            )
        },
    }
}

/// The views of a vector of sources.
pub open spec fn sources_view(v: Seq<FastGptSource>) -> Seq<FastGptSourceV> {
    v.map_values(|s: FastGptSource| s@)
}

/// Parses the final frame of a FastGPT answer: the sources from its
/// `<details>` block and the answer text after it.
pub fn parse_fastgpt_answer(html: &str) -> (r: FastGptAnswer)
    ensures
        r.answer@ == answer_text_spec(after_details(html@)),
        sources_view(r.sources@) == fastgpt_all_sources_spec(html@),
{
    let doc = HtmlDoc::parse_fragment(html);
    let mut sources: Vec<FastGptSource> = Vec::new();
    match select_first(&doc, None, "details") {
        None => {},
        Some(d) => {
            let strongs = doc.select(Some(d), "strong");
            let anchors = doc.select(Some(d), "a");
            let n = if strongs.len() < anchors.len() {
                strongs.len()
            } else {
                anchors.len()
            };
            let mut i: usize = 0;
            while i < n
                invariant
                    doc.frag(),
                    doc.src() == html@,
                    n <= strongs@.len(),
                    n <= anchors@.len(),
                    i <= n,
                    sources_view(sources@) == fastgpt_sources_spec(html@, strongs@, anchors@, i as int),
                decreases n - i,
            {
                let title = clean_text(doc.text(strongs[i]).as_str());
                let url = match doc.attr(anchors[i], "href") {
                    Some(u) => u,
                    None => String::new(),
                };
                if !title.as_str().is_empty() && !url.as_str().is_empty() {
                    let stop = if i + 1 < strongs.len() {
                        Some(strongs[i + 1])
                    } else {
                        None
                    };
                    let snippet_raw = text_until_next_strong(&doc, anchors[i], stop);
                    let snippet = truncate_chars(snippet_raw.as_str(), 500);
                    let snippet = if snippet.as_str().is_empty() {
                        None
                    } else {
                        Some(snippet)
                    };
                    let ghost before = sources_view(sources@);
                    let src = FastGptSource { title, url, snippet };
                    sources.push(src);
                    proof {
                        assert(sources_view(sources@) =~= before.push(src@));
                    }
                }
                i = i + 1;
            }
        },
    }
    let answer_html = answer_part(html);
    let answer = render_answer_text(answer_html.as_str());
    FastGptAnswer { answer, sources }
}

} // verus!
