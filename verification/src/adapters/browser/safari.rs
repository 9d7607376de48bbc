//! Safari keeps its cookies in `~/Library/Cookies/Cookies.binarycookies`.
//! This module decodes that file format and picks the Kagi session out of
//! it; reading the file is left to the caller.

use vstd::prelude::*;

use crate::domain::error::{fails_with, fails_with_prefix, ErrorKind};
use crate::domain::model::{SessionAuthV, SessionV};
use crate::domain::{BrowserKind, DomainError, DomainResult, Session, SessionAuth};
use crate::text::{ends_with, has_prefix, has_suffix, starts_with, string_from_utf8};

verus! {

/// The Safari session source.
pub struct SafariSource;

impl SafariSource {
    /// The Safari source.
    pub fn new() -> (r: SafariSource) {
        SafariSource
    }

    /// The name the source reports.
    pub fn name(&self) -> (r: &'static str)
        ensures
            r@ == "safari"@,
    {
        "safari"
    }

    /// The location of the cookie file, relative to the home directory.
    pub fn cookies_path_components(&self) -> (r: Vec<&'static str>)
        ensures
            r@.len() == 3,
            r@[0]@ == "Library"@,
            r@[1]@ == "Cookies"@,
            r@[2]@ == "Cookies.binarycookies"@,
    {
        vec!["Library", "Cookies", "Cookies.binarycookies"]
    }

    /// Finds the Kagi session in the contents of the cookie file: the first
    /// cookie whose domain ends with `kagi.com` and whose name starts with
    /// `kagi_session`. A file that does not decode is an unreadable cookie
    /// store.
    pub fn extract_from_bytes(&self, data: &[u8]) -> (r: DomainResult<Option<Session>>)
        ensures
            match spec_parse_binary_cookies(data@) {
                Err(k) => if k == CookieFileErrorKind::InvalidUtf8 {
                    fails_with_prefix(r, ErrorKind::CookieStoreUnavailable, k.text())
                } else {
                    fails_with(r, ErrorKind::CookieStoreUnavailable, k.text())
                },
                Ok(cs) => match first_kagi_cookie(cs) {
                    None => r matches Ok(None),
                    Some(c) => r matches Ok(Some(s)) && s@ == (SessionV {
                        auth: SessionAuthV::Cookie { name: c.name, value: c.value },
                        user_agent: safari_user_agent_spec(),
                        source: BrowserKind::Safari,
                    }),
                },
            },
    {
        match parse_binary_cookies(data) {
            Ok(cookies) => select_session(&cookies),
            Err(e) => Err(DomainError::CookieStoreUnavailable(e.message())),
        }
    }
}

/// The user agent Safari presents.
pub open spec fn safari_user_agent_spec() -> Seq<char> {
    "Mozilla/5.0 (Macintosh; Intel Mac OS X 10_15_7) AppleWebKit/605.1.15 (KHTML, like Gecko) Version/17.6 Safari/605.1.15"@
}

/// The user agent Safari presents.
pub fn safari_user_agent() -> (r: String)
    ensures
        r@ == safari_user_agent_spec(),
{
    String::from_str(
        "Mozilla/5.0 (Macintosh; Intel Mac OS X 10_15_7) AppleWebKit/605.1.15 (KHTML, like Gecko) Version/17.6 Safari/605.1.15",
    )
}

/// One cookie of the file.
pub struct BinCookie {
    pub name: String,
    pub value: String,
    pub domain: String,
}

/// The abstract view of a `BinCookie`.
pub struct BinCookieV {
    pub name: Seq<char>,
    pub value: Seq<char>,
    pub domain: Seq<char>,
}

impl View for BinCookie {
    type V = BinCookieV;

    open spec fn view(&self) -> BinCookieV {
        BinCookieV { name: self.name@, value: self.value@, domain: self.domain@ }
    }
}

/// The views of a vector of cookies.
pub open spec fn cookies_view(v: Seq<BinCookie>) -> Seq<BinCookieV> {
    v.map_values(|c: BinCookie| c@)
}

/// Whether a cookie is a Kagi session cookie.
pub open spec fn is_kagi_cookie(c: BinCookieV) -> bool {
    has_suffix(c.domain, "kagi.com"@) && has_prefix(c.name, "kagi_session"@)
}

/// The first Kagi session cookie of a sequence.
pub open spec fn first_kagi_cookie(cs: Seq<BinCookieV>) -> Option<BinCookieV>
    decreases cs.len(),
{
    if cs.len() == 0 {
        None
    } else if is_kagi_cookie(cs[0]) {
        Some(cs[0])
    } else {
        first_kagi_cookie(cs.drop_first())
    }
}

/// The session carried by the first Kagi cookie of the list, if any.
pub fn select_session(cookies: &Vec<BinCookie>) -> (r: DomainResult<Option<Session>>)
    ensures
        match first_kagi_cookie(cookies_view(cookies@)) {
            None => r matches Ok(None),
            Some(c) => r matches Ok(Some(s)) && s@ == (SessionV {
                auth: SessionAuthV::Cookie { name: c.name, value: c.value },
                user_agent: safari_user_agent_spec(),
                source: BrowserKind::Safari,
            }),
        },
{
    let ghost all = cookies_view(cookies@);
    let mut i: usize = 0;
    let n = cookies.len();
    proof {
        assert(all.skip(0) =~= all);
    }
    while i < n
        invariant
            n == cookies@.len(),
            i <= n,
            all == cookies_view(cookies@),
            first_kagi_cookie(all) == first_kagi_cookie(all.skip(i as int)),
        decreases n - i,
    {
        let ghost rest = all.skip(i as int);
        proof {
            assert(rest[0] == cookies@[i as int]@);
            assert(rest.drop_first() =~= all.skip(i + 1));
            assert(first_kagi_cookie(rest) == if is_kagi_cookie(rest[0]) {
                Some(rest[0])
            } else {
                first_kagi_cookie(rest.drop_first())
            });
        }
        if ends_with(cookies[i].domain.as_str(), "kagi.com") && starts_with(
            cookies[i].name.as_str(),
            "kagi_session",
        ) {
            let c = &cookies[i];
            let sess = Session {
                auth: SessionAuth::Cookie { name: c.name.clone(), value: c.value.clone() },
                user_agent: safari_user_agent(),
                source: BrowserKind::Safari,
            };
            return Ok(Some(sess));
        }
        i = i + 1;
    }
    proof {
        assert(all.skip(n as int).len() == 0);
    }
    Ok(None)
}

/// Why the cookie file could not be decoded.
#[derive(Debug, Clone)]
pub enum CookieFileError {
    NotCookieFile,
    TruncatedPageSizeTable,
    TruncatedPage,
    BadPageHeader,
    TruncatedOffsetTable,
    StringOffsetOutOfBounds,
    InvalidUtf8(String),
}

/// The variant of a `CookieFileError`.
#[derive(Debug, Clone, Copy, PartialEq, Eq, Structural)]
pub enum CookieFileErrorKind {
    NotCookieFile,
    TruncatedPageSizeTable,
    TruncatedPage,
    BadPageHeader,
    TruncatedOffsetTable,
    StringOffsetOutOfBounds,
    InvalidUtf8,
}

impl CookieFileError {
    /// The variant of this error.
    pub open spec fn kind(self) -> CookieFileErrorKind {
        match self {
            CookieFileError::NotCookieFile => CookieFileErrorKind::NotCookieFile,
            CookieFileError::TruncatedPageSizeTable => CookieFileErrorKind::TruncatedPageSizeTable,
            CookieFileError::TruncatedPage => CookieFileErrorKind::TruncatedPage,
            CookieFileError::BadPageHeader => CookieFileErrorKind::BadPageHeader,
            CookieFileError::TruncatedOffsetTable => CookieFileErrorKind::TruncatedOffsetTable,
            CookieFileError::StringOffsetOutOfBounds => CookieFileErrorKind::StringOffsetOutOfBounds,
            CookieFileError::InvalidUtf8(_) => CookieFileErrorKind::InvalidUtf8,
        }
    }

    /// The message of the error.
    pub fn message(&self) -> (r: String)
        ensures
            self.kind() != CookieFileErrorKind::InvalidUtf8 ==> r@ == self.kind().text(),
            self.kind() == CookieFileErrorKind::InvalidUtf8 ==> self.kind().text().len() <= r@.len() && r@.take(
                self.kind().text().len() as int,
            ) == self.kind().text(),
    {
        match self {
            CookieFileError::NotCookieFile => String::from_str("not a Cookies.binarycookies file"),
            CookieFileError::TruncatedPageSizeTable => String::from_str("truncated page-size table"),
            CookieFileError::TruncatedPage => String::from_str("truncated page"),
            CookieFileError::BadPageHeader => String::from_str("bad page header"),
            CookieFileError::TruncatedOffsetTable => String::from_str("truncated cookie offset table"),
            CookieFileError::StringOffsetOutOfBounds => String::from_str("string offset out of bounds"),
            CookieFileError::InvalidUtf8(e) => {
                let m = String::from_str("utf8: ").concat(e.as_str());
                proof {
                    assert(("utf8: "@ + e@).take("utf8: "@.len() as int) =~= "utf8: "@);
                }
                m
            },
        }
    }
}

impl CookieFileErrorKind {
    /// The message of an error of this variant (for invalid UTF-8, the
    /// start of it: the standard library's description follows).
    pub open spec fn text(self) -> Seq<char> {
        match self {
            CookieFileErrorKind::NotCookieFile => "not a Cookies.binarycookies file"@,
            CookieFileErrorKind::TruncatedPageSizeTable => "truncated page-size table"@,
            CookieFileErrorKind::TruncatedPage => "truncated page"@,
            CookieFileErrorKind::BadPageHeader => "bad page header"@,
            CookieFileErrorKind::TruncatedOffsetTable => "truncated cookie offset table"@,
            CookieFileErrorKind::StringOffsetOutOfBounds => "string offset out of bounds"@,
            CookieFileErrorKind::InvalidUtf8 => "utf8: "@,
        }
    }
}

/// The big-endian 32-bit number at `i`.
pub open spec fn be32(d: Seq<u8>, i: int) -> int {
    d[i] * 16777216 + d[i + 1] * 65536 + d[i + 2] * 256 + d[i + 3]
}

/// The little-endian 32-bit number at `i`.
pub open spec fn le32(d: Seq<u8>, i: int) -> int {
    d[i + 3] * 16777216 + d[i + 2] * 65536 + d[i + 1] * 256 + d[i]
}

fn read_be32(d: &[u8], i: usize) -> (r: u32)
    requires
        i + 4 <= d.len(),
    ensures
        r == be32(d@, i as int),
{
    (d[i] as u32) * 16777216 + (d[i + 1] as u32) * 65536 + (d[i + 2] as u32) * 256 + (d[i + 3] as u32)
}

fn read_le32(d: &[u8], i: usize) -> (r: u32)
    requires
        i + 4 <= d.len(),
    ensures
        r == le32(d@, i as int),
{
    (d[i + 3] as u32) * 16777216 + (d[i + 2] as u32) * 65536 + (d[i + 1] as u32) * 256 + (d[i] as u32)
}

/// The position of the first zero byte, or the length when there is none.
pub open spec fn first_zero(s: Seq<u8>) -> int
    decreases s.len(),
{
    if s.len() == 0 {
        0
    } else if s[0] == 0 {
        0
    } else {
        1 + first_zero(s.drop_first())
    }
}

/// What `read_cstr` decodes: the NUL-terminated UTF-8 string at `offset`.
pub open spec fn spec_read_cstr(buf: Seq<u8>, offset: int) -> Result<Seq<char>, CookieFileErrorKind> {
    if offset >= buf.len() {
        Err(CookieFileErrorKind::StringOffsetOutOfBounds)
    } else {
        let s = buf.skip(offset);
        let bytes = s.take(first_zero(s));
        if vstd::utf8::valid_utf8(bytes) {
            Ok(vstd::utf8::decode_utf8(bytes))
        } else {
            Err(CookieFileErrorKind::InvalidUtf8)
        }
    }
}


proof fn lemma_first_zero(s: Seq<u8>)
    ensures
        0 <= first_zero(s) <= s.len(),
        forall|j: int| 0 <= j < first_zero(s) ==> s[j] != 0,
        first_zero(s) < s.len() ==> s[first_zero(s)] == 0,
    decreases s.len(),
{
    if s.len() > 0 && s[0] != 0 {
        lemma_first_zero(s.drop_first());
        assert forall|j: int| 0 <= j < first_zero(s) implies s[j] != 0 by {
            if j > 0 {
                assert(s[j] == s.drop_first()[j - 1]);
            }
        }
    }
}

/// The NUL-terminated UTF-8 string at `offset` of `buf`.
fn read_cstr(buf: &[u8], offset: usize) -> (r: Result<String, CookieFileError>)
    ensures
        match spec_read_cstr(buf@, offset as int) {
            Ok(s) => r matches Ok(t) && t@ == s,
            Err(k) => r matches Err(e) && e.kind() == k,
        },
{
    if offset >= buf.len() {
        return Err(CookieFileError::StringOffsetOutOfBounds);
    }
    let slice = vstd::slice::slice_subrange(buf, offset, buf.len());
    let ghost s = buf@.skip(offset as int);
    proof {
        assert(slice@ =~= s);
        lemma_first_zero(s);
    }
    let mut end: usize = 0;
    while end < slice.len() && slice[end] != 0
        invariant
            end <= slice@.len(),
            forall|j: int| 0 <= j < end ==> slice@[j] != 0,
            slice@ == s,
        decreases slice@.len() - end,
    {
        end = end + 1;
    }
    proof {
        assert(end == first_zero(s)) by {
            lemma_first_zero_unique(s, end as int);
        }
    }
    let bytes = vstd::slice::slice_subrange(slice, 0, end);
    proof {
        assert(bytes@ =~= s.take(end as int));
    }
    match string_from_utf8(bytes) {
        Ok(t) => Ok(t),
        Err(e) => Err(CookieFileError::InvalidUtf8(e)),
    }
}

proof fn lemma_first_zero_unique(s: Seq<u8>, k: int)
    requires
        0 <= k <= s.len(),
        forall|j: int| 0 <= j < k ==> s[j] != 0,
        k < s.len() ==> s[k] == 0,
    ensures
        first_zero(s) == k,
    decreases s.len(),
{
    if s.len() > 0 && k > 0 {
        lemma_first_zero_unique(s.drop_first(), k - 1);
    }
}

/// What `parse_binary_cookies` decodes, from a list of record offsets of a
/// page: each record that fits (offset + 56 within the page) contributes
/// its domain, name and value strings, read from the offsets stored at
/// bytes 16, 20 and 28 of the record; records that do not fit are skipped.
pub open spec fn spec_parse_records(page: Seq<u8>, offs: Seq<int>) -> Result<Seq<BinCookieV>, CookieFileErrorKind>
    decreases offs.len(),
{
    if offs.len() == 0 {
        Ok(seq![])
    } else if offs[0] + 56 > page.len() {
        spec_parse_records(page, offs.drop_first())
    } else {
        let rec = page.skip(offs[0]);
        match spec_read_cstr(rec, le32(rec, 16)) {
            Err(e) => Err(e),
            Ok(domain) => match spec_read_cstr(rec, le32(rec, 20)) {
                Err(e) => Err(e),
                Ok(name) => match spec_read_cstr(rec, le32(rec, 28)) {
                    Err(e) => Err(e),
                    Ok(value) => match spec_parse_records(page, offs.drop_first()) {
                        Err(e) => Err(e),
                        Ok(rest) => Ok(seq![BinCookieV { name, value, domain }] + rest),
                    },
                },
            },
        }
    }
}

/// What a page decodes to: a header `00 00 01 00`, a little-endian cookie
/// count, that many little-endian record offsets, then the records.
pub open spec fn spec_parse_page(page: Seq<u8>) -> Result<Seq<BinCookieV>, CookieFileErrorKind> {
    if page.len() < 8 || page[0] != 0 || page[1] != 0 || page[2] != 1 || page[3] != 0 {
        Err(CookieFileErrorKind::BadPageHeader)
    } else {
        let count = le32(page, 4);
        if page.len() < 8 + count * 4 {
            Err(CookieFileErrorKind::TruncatedOffsetTable)
        } else {
            spec_parse_records(page, Seq::new(count as nat, |i: int| le32(page, 8 + i * 4)))
        }
    }
}

/// What the pages starting at `cursor` with the given sizes decode to.
pub open spec fn spec_parse_pages(data: Seq<u8>, cursor: int, sizes: Seq<int>) -> Result<Seq<BinCookieV>, CookieFileErrorKind>
    decreases sizes.len(),
{
    if sizes.len() == 0 {
        Ok(seq![])
    } else if cursor + sizes[0] > data.len() {
        Err(CookieFileErrorKind::TruncatedPage)
    } else {
        match spec_parse_page(data.subrange(cursor, cursor + sizes[0])) {
            Err(e) => Err(e),
            Ok(cs) => match spec_parse_pages(data, cursor + sizes[0], sizes.drop_first()) {
                Err(e) => Err(e),
                Ok(rest) => Ok(cs + rest),
            },
        }
    }
}

/// What the whole file decodes to: the magic `cook`, a big-endian page
/// count, that many big-endian page sizes, then the pages in order.
pub open spec fn spec_parse_binary_cookies(data: Seq<u8>) -> Result<Seq<BinCookieV>, CookieFileErrorKind> {
    if data.len() < 8 || data[0] != 0x63 || data[1] != 0x6f || data[2] != 0x6f || data[3] != 0x6b {
        Err(CookieFileErrorKind::NotCookieFile)
    } else {
        let count = be32(data, 4);
        if data.len() < 8 + count * 4 {
            Err(CookieFileErrorKind::TruncatedPageSizeTable)
        } else {
            spec_parse_pages(data, 8 + count * 4, Seq::new(count as nat, |i: int| be32(data, 8 + i * 4)))
        }
    }
}

/// Appends a decoded result to what was decoded before.
pub open spec fn after(acc: Seq<BinCookieV>, r: Result<Seq<BinCookieV>, CookieFileErrorKind>) -> Result<Seq<BinCookieV>, CookieFileErrorKind> {
    match r {
        Ok(rest) => Ok(acc + rest),
        Err(e) => Err(e),
    }
}

/// Decodes one page and appends its cookies to `out`.
#[verifier::loop_isolation(false)]
#[verifier::spinoff_prover]
#[verifier::rlimit(40)]
fn parse_page(page: &[u8], out: &mut Vec<BinCookie>) -> (r: Result<(), CookieFileError>)
    ensures
        match spec_parse_page(page@) {
            Ok(cs) => r is Ok && cookies_view(final(out)@) == cookies_view(old(out)@) + cs,
            Err(k) => r matches Err(e) && e.kind() == k,
        },
{
    if page.len() < 8 || page[0] != 0 || page[1] != 0 || page[2] != 1 || page[3] != 0 {
        return Err(CookieFileError::BadPageHeader);
    }
    let count = read_le32(page, 4);
    if (page.len() as u64) < 8 + (count as u64) * 4 {
        return Err(CookieFileError::TruncatedOffsetTable);
    }
    let ghost offs = Seq::new(count as nat, |i: int| le32(page@, 8 + i * 4));
    let ghost start = cookies_view(out@);
    let count = count as usize;
    proof {
        assert(offs.skip(0) =~= offs);
    }
    let mut i: usize = 0;
    while i < count
        invariant
            count == offs.len(),
            8 + count * 4 <= page@.len(),
            i <= count,
            offs == Seq::new(count as nat, |i: int| le32(page@, 8 + i * 4)),
            after(start, spec_parse_records(page@, offs)) == after(
                cookies_view(out@),
                spec_parse_records(page@, offs.skip(i as int)),
            ),
        decreases count - i,
    {
        let off = read_le32(page, 8 + i * 4);
        let ghost rest = offs.skip(i as int);
        proof {
            assert(rest[0] == off);
            assert(rest.drop_first() =~= offs.skip(i + 1));
        }
        if (off as u64) + 56 <= page.len() as u64 {
            let off = off as usize;
            let rec = vstd::slice::slice_subrange(page, off, page.len());
            proof {
                assert(rec@ =~= page@.skip(off as int));
            }
            let dom_off = read_le32(rec, 16);
            let name_off = read_le32(rec, 20);
            let val_off = read_le32(rec, 28);
            let domain = match read_cstr(rec, dom_off as usize) {
                Ok(t) => t,
                Err(e) => return Err(e),
            };
            let name = match read_cstr(rec, name_off as usize) {
                Ok(t) => t,
                Err(e) => return Err(e),
            };
            let value = match read_cstr(rec, val_off as usize) {
                Ok(t) => t,
                Err(e) => return Err(e),
            };
            let ghost before = cookies_view(out@);
            out.push(BinCookie { name, value, domain });
            proof {
                assert(cookies_view(out@) =~= before.push(out@.last()@));
                assert(cookies_view(out@) =~= before + seq![out@.last()@]);
                match spec_parse_records(page@, offs.skip(i + 1)) {
                    Ok(tail) => {
                        assert(before + (seq![out@.last()@] + tail) =~= cookies_view(out@) + tail);
                    },
                    Err(_) => {},
                }
            }
        }
        i = i + 1;
    }
    proof {
        assert(offs.skip(count as int).len() == 0);
        assert(cookies_view(out@) + seq![] =~= cookies_view(out@));
    }
    Ok(())
}

/// Decodes a `Cookies.binarycookies` file into its cookies, in file order.
#[verifier::loop_isolation(false)]
pub fn parse_binary_cookies(data: &[u8]) -> (r: Result<Vec<BinCookie>, CookieFileError>)
    ensures
        match spec_parse_binary_cookies(data@) {
            Ok(cs) => r matches Ok(v) && cookies_view(v@) == cs,
            Err(k) => r matches Err(e) && e.kind() == k,
        },
{
    if data.len() < 8 || data[0] != 0x63 || data[1] != 0x6f || data[2] != 0x6f || data[3] != 0x6b {
        return Err(CookieFileError::NotCookieFile);
    }
    let count = read_be32(data, 4);
    let ghost sizes = Seq::new(count as nat, |i: int| be32(data@, 8 + i * 4));
    let mut page_sizes: Vec<u32> = Vec::new();
    let mut cursor: usize = 8;
    let mut k: u32 = 0;
    while k < count
        invariant
            k <= count,
            cursor == 8 + k * 4,
            cursor <= data@.len(),
            page_sizes@.len() == k,
            forall|j: int| 0 <= j < k ==> page_sizes@[j] == be32(data@, 8 + j * 4),
        decreases count - k,
    {
        if cursor > data.len() || data.len() - cursor < 4 {
            proof {
                assert(data@.len() < 8 + be32(data@, 4) * 4);
            }
            return Err(CookieFileError::TruncatedPageSizeTable);
        }
        page_sizes.push(read_be32(data, cursor));
        cursor = cursor + 4;
        k = k + 1;
    }
    let ghost table_end = 8 + count * 4;
    proof {
        assert(sizes.skip(0) =~= sizes);
        match spec_parse_pages(data@, table_end, sizes) {
            Ok(t) => {
                assert(seq![] + t =~= t);
            },
            Err(_) => {},
        }
        assert(cookies_view(Seq::<BinCookie>::empty()) =~= seq![]);
    }
    let mut out: Vec<BinCookie> = Vec::new();
    let mut p: usize = 0;
    while p < page_sizes.len()
        invariant
            page_sizes@.len() == count,
            forall|j: int| 0 <= j < count ==> page_sizes@[j] == sizes[j],
            sizes.len() == count,
            p <= page_sizes@.len(),
            table_end <= cursor <= data@.len(),
            spec_parse_pages(data@, table_end, sizes) == after(
                cookies_view(out@),
                spec_parse_pages(data@, cursor as int, sizes.skip(p as int)),
            ),
        decreases page_sizes@.len() - p,
    {
        let size = page_sizes[p];
        let ghost rest = sizes.skip(p as int);
        proof {
            assert(rest[0] == size);
            assert(rest.drop_first() =~= sizes.skip(p + 1));
        }
        proof {
            assert(spec_parse_pages(data@, cursor as int, rest) == if cursor + rest[0] > data@.len() {
                Err(CookieFileErrorKind::TruncatedPage)
            } else {
                match spec_parse_page(data@.subrange(cursor as int, cursor + rest[0])) {
                    Err(e) => Err(e),
                    Ok(cs) => match spec_parse_pages(data@, cursor + rest[0], rest.drop_first()) {
                        Err(e) => Err(e),
                        Ok(tail) => Ok(cs + tail),
                    },
                }
            });
        }
        if (size as u64) > (data.len() - cursor) as u64 {
            return Err(CookieFileError::TruncatedPage);
        }
        let end = cursor + size as usize;
        let page = vstd::slice::slice_subrange(data, cursor, end);
        let ghost before = cookies_view(out@);
        match parse_page(page, &mut out) {
            Ok(()) => {},
            Err(e) => return Err(e),
        }
        proof {
            match spec_parse_pages(data@, end as int, sizes.skip(p + 1)) {
                Ok(tail) => {
                    let cs = spec_parse_page(page@).unwrap();
                    assert(before + (cs + tail) =~= cookies_view(out@) + tail);
                },
                Err(_) => {},
            }
        }
        cursor = end;
        p = p + 1;
    }
    proof {
        assert(sizes.skip(count as int).len() == 0);
        assert(cookies_view(out@) + seq![] =~= cookies_view(out@));
    }
    Ok(out)
}

/// Whether `data` starts with the 8-byte header of a cookie file: the
/// magic `cook` and a page count.
pub open spec fn has_cookie_header(data: Seq<u8>) -> bool {
    data.len() >= 8 && data[0] == 0x63 && data[1] == 0x6f && data[2] == 0x6f && data[3] == 0x6b
}

/// The page sizes a cookie file's table gives, in page order.
pub open spec fn page_sizes_of(data: Seq<u8>) -> Seq<int> {
    Seq::new(be32(data, 4) as nat, |i: int| be32(data, 8 + i * 4))
}

/// The sum of page sizes.
pub open spec fn total_size(sizes: Seq<int>) -> int
    decreases sizes.len(),
{
    if sizes.len() == 0 {
        0
    } else {
        sizes[0] + total_size(sizes.drop_first())
    }
}

proof fn lemma_pages_within(data: Seq<u8>, cursor: int, sizes: Seq<int>)
    requires
        cursor <= data.len(),
        spec_parse_pages(data, cursor, sizes) is Ok,
    ensures
        cursor + total_size(sizes) <= data.len(),
    decreases sizes.len(),
{
    if sizes.len() > 0 {
        lemma_pages_within(data, cursor + sizes[0], sizes.drop_first());
    }
}

/// What a cookie file refuses: bytes that do not start with the header
/// (`cook` and a page count) are no cookie file; a page-size table that
/// runs past the end is truncated; and a file whose pages, by the sizes
/// the table gives, run past its end is never decoded. A file that does
/// decode holds all its pages.
pub proof fn law_binary_cookies_refusals(data: Seq<u8>)
    ensures
        !has_cookie_header(data) ==> spec_parse_binary_cookies(data) == Err::<Seq<BinCookieV>, CookieFileErrorKind>(
            CookieFileErrorKind::NotCookieFile,
        ),
        has_cookie_header(data) && data.len() < 8 + be32(data, 4) * 4 ==> spec_parse_binary_cookies(data) == Err::<
            Seq<BinCookieV>,
            CookieFileErrorKind,
        >(CookieFileErrorKind::TruncatedPageSizeTable),
        has_cookie_header(data) && data.len() >= 8 + be32(data, 4) * 4 && 8 + be32(data, 4) * 4 + total_size(
            page_sizes_of(data),
        ) > data.len() ==> spec_parse_binary_cookies(data) is Err,
        spec_parse_binary_cookies(data) is Ok ==> has_cookie_header(data) && 8 + be32(data, 4) * 4 + total_size(
            page_sizes_of(data),
        ) <= data.len(),
{
    if has_cookie_header(data) && data.len() >= 8 + be32(data, 4) * 4 {
        if spec_parse_binary_cookies(data) is Ok {
            lemma_pages_within(data, 8 + be32(data, 4) * 4, page_sizes_of(data));
        }
    }
}

} // verus!
