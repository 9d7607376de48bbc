//! Fetching a page on the user's behalf: which URLs are allowed, which
//! headers go out (the Kagi cookie only to Kagi's own hosts), and how the
//! body is turned into readable text and cut to size. Sending the request
//! is the caller's.

use vstd::prelude::*;

use crate::adapters::kagi_http::url_parse_spec;
use crate::domain::model::{opt_view, SessionAuthV};
use crate::domain::{DomainError, DomainResult, FetchRequest, FetchResponse, Session, SessionAuth};
use crate::html::{html_children, html_element_name, html_node_count, html_root_element, html_select, html_text, html_text_node, HtmlDoc};
use crate::text::{clean, clean_chars, clean_text, contains, ends_with, has_infix, has_suffix, string_of, truncate_vec, truncated, chars_of, string_from_utf8_lossy, utf8_lossy_spec};

verus! {

/// The scheme of the URL `s` parses to (`Url::scheme`).
pub uninterp spec fn url_scheme_spec(s: Seq<char>) -> Seq<char>;

/// The host of the URL `s` parses to, as text (`Url::host_str`).
pub uninterp spec fn url_host_spec(s: Seq<char>) -> Option<Seq<char>>;

/// A parsed URL: its serialisation, scheme and host.
pub struct UrlParts {
    pub serialized: String,
    pub scheme: String,
    pub host: Option<String>,
}

/// `Url::parse`, then the URL's serialisation, `Url::scheme` and
/// `Url::host_str`; the error is `url`'s description of why the text did
/// not parse.
#[verifier::external_body]
pub(crate) fn url_parts(s: &str) -> (r: Result<UrlParts, String>)
    ensures
        r is Err <==> url_parse_spec(s@) is None,
        r matches Ok(p) ==> url_parse_spec(s@) == Some(p.serialized@) && p.scheme@ == url_scheme_spec(s@)
            && opt_view(p.host) == url_host_spec(s@),
{
    let u = url::Url::parse(s).map_err(|e| e.to_string())?;
    Ok(UrlParts { serialized: u.to_string(), scheme: u.scheme().to_string(), host: u.host_str().map(|h| h.to_string()) })
}

/// Whether a host is one of Kagi's: `kagi.com` or `kagicdn.com`, or a
/// subdomain of either (a host that merely ends in those letters, such as
/// `evilkagi.com`, is not).
pub open spec fn is_kagi_host_spec(host: Seq<char>) -> bool {
    ||| host == "kagi.com"@
    ||| has_suffix(host, ".kagi.com"@)
    ||| host == "kagicdn.com"@
    ||| has_suffix(host, ".kagicdn.com"@)
}

/// Whether a host is one of Kagi's.
pub fn is_kagi_host(host: &str) -> (b: bool)
    ensures
        b == is_kagi_host_spec(host@),
{
    crate::text::str_eq(host, "kagi.com") || ends_with(host, ".kagi.com") || crate::text::str_eq(host, "kagicdn.com")
        || ends_with(host, ".kagicdn.com")
}

/// The `Accept` header of a page fetch.
pub const ACCEPT_HTML: &'static str = "text/html,application/xhtml+xml,application/xml;q=0.9,*/*;q=0.8";

/// The `Accept-Language` header of a page fetch.
pub const ACCEPT_LANGUAGE_EN: &'static str = "en-US,en;q=0.9";

/// The request to send for a page fetch.
pub struct FetchPlan {
    /// The URL, as `url` serialises it.
    pub url: String,
    /// The session's user agent.
    pub user_agent: String,
    pub accept: &'static str,
    pub accept_language: &'static str,
    /// The `Cookie` header, only for Kagi's hosts.
    pub cookie: Option<String>,
}

/// The `Cookie` header a session sends to a host: `name=value` of its
/// cookie, and only to Kagi's hosts; a Session Link token is never sent as
/// a cookie.
pub open spec fn cookie_for(auth: SessionAuthV, host: Option<Seq<char>>) -> Option<Seq<char>> {
    let h = match host {
        Some(h) => h,
        None => seq![],
    };
    if is_kagi_host_spec(h) {
        match auth {
            SessionAuthV::Cookie { name, value } => Some(name + "="@ + value),
            SessionAuthV::UrlToken(_) => None,
        }
    } else {
        None
    }
}

/// What a fetch of `url` with `session` sends, or why it is refused: a URL
/// that does not parse, or whose scheme is neither `http` nor `https`, is
/// an invalid query.
pub open spec fn plan_spec(session: Session, url: Seq<char>, r: DomainResult<FetchPlan>) -> bool {
    match url_parse_spec(url) {
        None => r matches Err(DomainError::InvalidQuery(m)) && m@.take(13) == "invalid url: "@,
        Some(ser) => if url_scheme_spec(url) != "http"@ && url_scheme_spec(url) != "https"@ {
            r matches Err(DomainError::InvalidQuery(m)) && m@ == "only http/https urls are allowed"@
        } else {
            r matches Ok(p) && p.url@ == ser && p.user_agent@ == session.user_agent@ && p.accept@ == ACCEPT_HTML@
                && p.accept_language@ == ACCEPT_LANGUAGE_EN@ && opt_view(p.cookie) == cookie_for(
                session.auth@,
                url_host_spec(url),
            )
        },
    }
}

/// The request to send for a page fetch, or why it is refused.
pub fn plan_fetch(session: &Session, request: &FetchRequest) -> (r: DomainResult<FetchPlan>)
    ensures
        plan_spec(*session, request.url@, r),
{
    let parts = match url_parts(request.url.as_str()) {
        Ok(p) => p,
        Err(e) => {
            proof {
                reveal_strlit("invalid url: ");
            }
            let m = String::from_str("invalid url: ").concat(e.as_str());
            proof {
                assert(m@.take(13) =~= "invalid url: "@);
            }
            return Err(DomainError::InvalidQuery(m));
        },
    };
    let scheme = parts.scheme.as_str();
    if !crate::text::str_eq(scheme, "http") && !crate::text::str_eq(scheme, "https") {
        return Err(DomainError::InvalidQuery(String::from_str("only http/https urls are allowed")));
    }
    let host: &str = match &parts.host {
        Some(h) => h.as_str(),
        None => "",
    };
    proof {
        reveal_strlit("");
        assert(host@ == (match url_host_spec(request.url@) {
            Some(h) => h,
            None => seq![],
        }));
    }
    let kagi = is_kagi_host(host);
    let cookie = if kagi {
        match &session.auth {
            SessionAuth::Cookie { name, value } => Some(name.clone().concat("=").concat(value.as_str())),
            SessionAuth::UrlToken(_) => None,
        }
    } else {
        None
    };
    Ok(
        FetchPlan {
            url: parts.serialized,
            user_agent: session.user_agent.clone(),
            accept: ACCEPT_HTML,
            accept_language: ACCEPT_LANGUAGE_EN,
            cookie,
        },
    )
}

/// The elements whose content is not readable text.
pub open spec fn skipped_tag(name: Seq<char>) -> bool {
    name == "script"@ || name == "style"@ || name == "noscript"@ || name == "svg"@ || name == "iframe"@ || name
        == "link"@ || name == "meta"@
}

fn is_skipped_tag(name: &str) -> (b: bool)
    ensures
        b == skipped_tag(name@),
{
    crate::text::str_eq(name, "script") || crate::text::str_eq(name, "style") || crate::text::str_eq(name, "noscript")
        || crate::text::str_eq(name, "svg") || crate::text::str_eq(name, "iframe") || crate::text::str_eq(name, "link")
        || crate::text::str_eq(name, "meta")
}

/// The readable text of a node of a document: the text of its children in
/// order, each text node followed by a space, skipping the subtrees of
/// scripts, styles and the like.
pub open spec fn node_text(src: Seq<char>, node: usize) -> Seq<char>
    decreases html_node_count(src, false) - node, 1int, 0int,
{
    let cs = html_children(src, false, node);
    kids_text(src, node, cs, cs.len() as int)
}

/// The readable text of the first `i` children `cs` of `node`. (Children
/// come after their parent and inside the document; a child that did not
/// would add nothing.)
pub open spec fn kids_text(src: Seq<char>, node: usize, cs: Seq<usize>, i: int) -> Seq<char>
    decreases html_node_count(src, false) - node, 0int, i,
{
    if i <= 0 || i > cs.len() {
        seq![]
    } else {
        let prev = kids_text(src, node, cs, i - 1);
        let c = cs[i - 1];
        let here = if c <= node || c >= html_node_count(src, false) {
            seq![]
        } else {
            match html_element_name(src, false, c) {
                Some(n) => if skipped_tag(n) {
                    seq![]
                } else {
                    node_text(src, c)
                },
                None => match html_text_node(src, false, c) {
                    Some(t) => t + seq![' '],
                    None => seq![],
                },
            }
        };
        prev + here
    }
}

/// Appends the readable text of `node` to `out`.
fn walk(doc: &HtmlDoc, node: usize, out: &mut Vec<char>)
    requires
        !doc.frag(),
    ensures
        final(out)@ == old(out)@ + node_text(doc.src(), node),
    decreases html_node_count(doc.src(), false) - node,
{
    let ghost src = doc.src();
    let cs = doc.children(node);
    let ghost start = out@;
    let mut i: usize = 0;
    while i < cs.len()
        invariant
            !doc.frag(),
            src == doc.src(),
            cs@ == html_children(src, false, node),
            forall|k: int| 0 <= k < cs@.len() ==> node < #[trigger] cs@[k] < html_node_count(src, false),
            i <= cs@.len(),
            out@ == start + kids_text(src, node, cs@, i as int),
        decreases cs@.len() - i,
    {
        let c = cs[i];
        let ghost before = out@;
        match doc.element_name(c) {
            Some(name) => {
                if !is_skipped_tag(name.as_str()) {
                    walk(doc, c, out);
                }
            },
            None => match doc.text_node(c) {
                Some(t) => {
                    let tv = chars_of(t.as_str());
                    let mut k: usize = 0;
                    while k < tv.len()
                        invariant
                            k <= tv@.len(),
                            out@ == before + tv@.take(k as int),
                        decreases tv@.len() - k,
                    {
                        out.push(tv[k]);
                        proof {
                            assert(tv@.take(k + 1) =~= tv@.take(k as int).push(tv@[k as int]));
                        }
                        k = k + 1;
                    }
                    out.push(' ');
                    proof {
                        assert(tv@.take(tv@.len() as int) =~= tv@);
                        assert(out@ =~= before + (tv@ + seq![' ']));
                    }
                },
                None => {},
            },
        }
        proof {
            assert(out@ =~= start + kids_text(src, node, cs@, i + 1));
        }
        i = i + 1;
    }
}

/// The readable text of an element, whitespace collapsed.
pub fn render_text(doc: &HtmlDoc, el: usize) -> (r: String)
    requires
        !doc.frag(),
    ensures
        r@ == clean(node_text(doc.src(), el)),
{
    let mut out: Vec<char> = Vec::new();
    walk(doc, el, &mut out);
    proof {
        assert(out@ =~= node_text(doc.src(), el));
    }
    let c = clean_chars(&out);
    string_of(&c)
}

/// The elements that hold a page's main content, in order of preference
/// as a selector list (the first match in document order wins).
pub const MAIN_SELECTOR: &'static str = "main, article, [role=main], #main, #content, .content, body";

/// The title of a page: the text of its first `<title>`, whitespace
/// collapsed, when not empty.
pub open spec fn page_title(html: Seq<char>) -> Option<Seq<char>> {
    let ts = html_select(html, false, None, "title"@);
    if ts.len() > 0 && clean(html_text(html, false, ts[0])).len() > 0 {
        Some(clean(html_text(html, false, ts[0])))
    } else {
        None
    }
}

/// The readable text of a page: that of its main-content element, else the
/// text of the whole document, whitespace collapsed.
pub open spec fn page_text(html: Seq<char>) -> Seq<char> {
    let ms = html_select(html, false, None, MAIN_SELECTOR@);
    if ms.len() > 0 {
        clean(node_text(html, ms[0]))
    } else {
        clean(html_text(html, false, html_root_element(html, false)))
    }
}

/// The title and readable text of an HTML page.
pub fn extract_readable(html: &str) -> (r: (Option<String>, String))
    ensures
        opt_view(r.0) == page_title(html@),
        r.1@ == page_text(html@),
{
    let doc = HtmlDoc::parse_document(html);
    let ts = doc.select(None, "title");
    let title = if ts.len() > 0 {
        let t = clean_text(doc.text(ts[0]).as_str());
        if t.as_str().is_empty() {
            None
        } else {
            Some(t)
        }
    } else {
        None
    };
    let ms = doc.select(None, MAIN_SELECTOR);
    let text = if ms.len() > 0 {
        render_text(&doc, ms[0])
    } else {
        clean_text(doc.text(doc.root_element()).as_str())
    };
    (title, text)
}

/// The largest body returned when the request sets no limit.
pub const DEFAULT_MAX_CHARS: usize = 50_000;

/// Whether a response is HTML: it says so, or says nothing.
pub open spec fn is_html(content_type: Option<Seq<char>>) -> bool {
    match content_type {
        None => true,
        Some(c) => has_infix(c, "text/html"@),
    }
}

/// The title and text a fetch returns for a body: the body as it is when
/// raw output is asked for or the response is not HTML; else the page's
/// title and readable text.
pub open spec fn processed(raw: bool, content_type: Option<Seq<char>>, body: Seq<char>) -> (Option<Seq<char>>, Seq<char>) {
    if raw || !is_html(content_type) {
        (None, body)
    } else {
        (page_title(body), page_text(body))
    }
}

/// The limit on the returned characters.
pub open spec fn max_chars_spec(r: FetchRequest) -> nat {
    match r.max_chars {
        Some(n) => n as nat,
        None => DEFAULT_MAX_CHARS as nat,
    }
}

/// The answer of a fetch, from the response: the requested URL, the final
/// URL, the status and content type as received; the processed body, cut
/// to the limit (50 000 characters unless the request says otherwise) with
/// an ellipsis, and whether it was cut.
pub fn fetch_response(request: &FetchRequest, final_url: String, status: u16, content_type: Option<String>, body: String) -> (r:
    FetchResponse)
    ensures
        r.url@ == request.url@,
        r.final_url@ == final_url@,
        r.status == status,
        opt_view(r.content_type) == opt_view(content_type),
        opt_view(r.title) == processed(request.raw, opt_view(content_type), body@).0,
        r.truncated == (processed(request.raw, opt_view(content_type), body@).1.len() > max_chars_spec(*request)),
        r.body@ == truncated(processed(request.raw, opt_view(content_type), body@).1, max_chars_spec(*request)),
{
    let html = match &content_type {
        None => true,
        Some(c) => contains(c.as_str(), "text/html"),
    };
    let (title, text) = if request.raw || !html {
        (None, body)
    } else {
        extract_readable(body.as_str())
    };
    let max = match request.max_chars {
        Some(n) => n,
        None => DEFAULT_MAX_CHARS,
    };
    let tv = chars_of(text.as_str());
    let cut = tv.len() > max;
    let out = truncate_vec(&tv, max);
    FetchResponse {
        url: request.url.clone(),
        final_url,
        status,
        content_type,
        title,
        body: string_of(&out),
        truncated: cut,
    }
}

/// The answer of a fetch from the raw response body: the body is read as
/// UTF-8, each invalid sequence replaced by U+FFFD, and then answered as
/// `fetch_response` answers that text.
pub fn fetch_response_from_bytes(
    request: &FetchRequest,
    final_url: String,
    status: u16,
    content_type: Option<String>,
    body: &[u8],
) -> (r: FetchResponse)
    ensures
        r.url@ == request.url@,
        r.final_url@ == final_url@,
        r.status == status,
        opt_view(r.content_type) == opt_view(content_type),
        opt_view(r.title) == processed(request.raw, opt_view(content_type), utf8_lossy_spec(body@)).0,
        r.truncated == (processed(request.raw, opt_view(content_type), utf8_lossy_spec(body@)).1.len()
            > max_chars_spec(*request)),
        r.body@ == truncated(
            processed(request.raw, opt_view(content_type), utf8_lossy_spec(body@)).1,
            max_chars_spec(*request),
        ),
{
    let text = string_from_utf8_lossy(body);
    fetch_response(request, final_url, status, content_type, text)
}

/// The Kagi session cookie goes to Kagi's own hosts only: the host is
/// `kagi.com` or `kagicdn.com` or one of their subdomains (a URL without a
/// host gets none); and a Session Link token never goes out as a cookie.
pub proof fn law_cookie_only_to_kagi(auth: SessionAuthV, host: Option<Seq<char>>)
    ensures
        cookie_for(auth, host) is Some ==> (host matches Some(h) && (h == "kagi.com"@ || has_suffix(h, ".kagi.com"@)
            || h == "kagicdn.com"@ || has_suffix(h, ".kagicdn.com"@))),
        auth is UrlToken ==> cookie_for(auth, host) is None,
{
    if host is None {
        reveal_strlit("kagi.com");
        reveal_strlit("kagicdn.com");
        reveal_strlit(".kagi.com");
        reveal_strlit(".kagicdn.com");
        assert("kagi.com"@.len() == 8 && "kagicdn.com"@.len() == 11 && ".kagi.com"@.len() == 9
            && ".kagicdn.com"@.len() == 12);
    }
}

/// A host that only ends in the letters of Kagi's domain, without the dot
/// of a subdomain, gets no cookie.
pub proof fn law_lookalike_host_gets_no_cookie(auth: SessionAuthV, prefix: Seq<char>)
    requires
        prefix.len() > 0,
        prefix.last() != '.',
    ensures
        cookie_for(auth, Some(prefix + "kagi.com"@)) is None,
        cookie_for(auth, Some(prefix + "kagicdn.com"@)) is None,
{
    reveal_strlit("kagi.com");
    reveal_strlit("kagicdn.com");
    reveal_strlit(".kagi.com");
    reveal_strlit(".kagicdn.com");
    let h1 = prefix + "kagi.com"@;
    let h2 = prefix + "kagicdn.com"@;
    assert(h1.len() > 8 && h2.len() > 11);
    if has_suffix(h1, ".kagi.com"@) {
        lemma_suffix_char(h1, ".kagi.com"@, 0);
        assert(h1[h1.len() - 9] == prefix.last());
    }
    if has_suffix(h2, ".kagicdn.com"@) {
        lemma_suffix_char(h2, ".kagicdn.com"@, 0);
        assert(h2[h2.len() - 12] == prefix.last());
    }
    if h1 == "kagicdn.com"@ {
        assert(h1[6] == "kagicdn.com"@[6]);
        assert(h1[6] == "kagi.com"@[3]);
    }
    if has_suffix(h1, ".kagicdn.com"@) {
        lemma_suffix_char(h1, ".kagicdn.com"@, 7);
        assert(h1[h1.len() - 5] == "kagi.com"@[3]);
    }
    if has_suffix(h2, ".kagi.com"@) {
        lemma_suffix_char(h2, ".kagi.com"@, 4);
        assert(h2[h2.len() - 5] == "kagicdn.com"@[6]);
    }
}

proof fn lemma_suffix_char(s: Seq<char>, t: Seq<char>, k: int)
    requires
        has_suffix(s, t),
        0 <= k < t.len(),
    ensures
        s[s.len() - t.len() + k] == t[k],
{
    assert(s.skip(s.len() - t.len())[k] == t[k]);
}

/// The elements whose subtrees the readable text leaves out.
pub open spec fn unreadable_elements() -> Seq<Seq<char>> {
    seq!["script"@, "style"@, "noscript"@, "svg"@, "iframe"@, "link"@, "meta"@]
}

/// In the readable text, a child element named `script`, `style`,
/// `noscript`, `svg`, `iframe`, `link` or `meta` adds nothing, whatever its
/// subtree holds; any other child element adds its own readable text, in
/// order after what the children before it added.
pub proof fn law_skipped_subtrees(src: Seq<char>, node: usize, cs: Seq<usize>, i: int, name: Seq<char>)
    requires
        0 < i <= cs.len(),
        node < cs[i - 1] < html_node_count(src, false),
        html_element_name(src, false, cs[i - 1]) == Some(name),
    ensures
        unreadable_elements().contains(name) ==> kids_text(src, node, cs, i) == kids_text(src, node, cs, i - 1),
        !unreadable_elements().contains(name) ==> kids_text(src, node, cs, i) == kids_text(src, node, cs, i - 1)
            + node_text(src, cs[i - 1]),
{
    let u = unreadable_elements();
    assert(kids_text(src, node, cs, i - 1) + seq![] =~= kids_text(src, node, cs, i - 1));
    if u.contains(name) {
        let k = choose|k: int| 0 <= k < u.len() && u[k] == name;
        assert(k == 0 || k == 1 || k == 2 || k == 3 || k == 4 || k == 5 || k == 6);
    } else {
        assert(u[0] == "script"@ && u[1] == "style"@ && u[2] == "noscript"@ && u[3] == "svg"@ && u[4] == "iframe"@
            && u[5] == "link"@ && u[6] == "meta"@);
        assert(name != u[0] && name != u[1] && name != u[2] && name != u[3] && name != u[4] && name != u[5] && name
            != u[6]);
    }
}

/// A fetched body never holds more characters than the limit, and it is
/// the processed text itself exactly when that text fits.
pub proof fn law_body_within_limit(text: Seq<char>, max: nat)
    ensures
        truncated(text, max).len() <= max,
        text.len() <= max <==> truncated(text, max) == text,
{
}

} // verus!