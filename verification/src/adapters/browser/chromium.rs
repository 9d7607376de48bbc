//! Chromium-family browsers keep their cookies in an SQLite database per
//! profile, with values encrypted by the platform scheme (see
//! `adapters::crypto`). This module knows where the profiles are, in which
//! order to try them, and what a cookie row means; the file system and
//! SQLite are the caller's.

use vstd::prelude::*;

use super::{loc, loc_view, make_location, BaseDirs, Location, Platform};
use crate::domain::model::{opt_view, SessionAuthV, SessionV};
use crate::domain::{BrowserKind, DomainError, DomainResult, Session, SessionAuth};
use crate::num::{parse_unsigned, parse_unsigned_exec};
use crate::text::{chars_of, contains, has_infix, str_eq, string_from_utf8, strip_prefix, strip_prefix_spec};

verus! {

/// The user-data directory of a Chromium-family browser, as components
/// under a base directory. On Windows both the local and the roaming data
/// directories must be known; elsewhere the configuration directory.
/// Browsers without a known location on the platform have none.
pub open spec fn user_data_dir_spec(kind: BrowserKind, platform: Platform, dirs: BaseDirs) -> Option<Seq<Seq<char>>> {
    match platform {
        Platform::Windows => match (opt_view(dirs.data_local), opt_view(dirs.data)) {
            (Some(local), Some(roaming)) => match kind {
                BrowserKind::Chrome => Some(loc(local, seq!["Google"@, "Chrome"@, "User Data"@])),
                BrowserKind::Edge => Some(loc(local, seq!["Microsoft"@, "Edge"@, "User Data"@])),
                BrowserKind::Brave => Some(loc(local, seq!["BraveSoftware"@, "Brave-Browser"@, "User Data"@])),
                BrowserKind::Arc => Some(loc(local, seq!["Arc"@, "User Data"@])),
                BrowserKind::Vivaldi => Some(loc(local, seq!["Vivaldi"@, "User Data"@])),
                BrowserKind::Opera => Some(loc(roaming, seq!["Opera Software"@, "Opera Stable"@])),
                BrowserKind::OperaGx => Some(loc(roaming, seq!["Opera Software"@, "Opera GX Stable"@])),
                BrowserKind::Chromium => Some(loc(local, seq!["Chromium"@, "User Data"@])),
                _ => None,
            },
            _ => None,
        },
        Platform::MacOs => match opt_view(dirs.config) {
            Some(support) => match kind {
                BrowserKind::Chrome => Some(loc(support, seq!["Google"@, "Chrome"@])),
                BrowserKind::Edge => Some(loc(support, seq!["Microsoft Edge"@])),
                BrowserKind::Brave => Some(loc(support, seq!["BraveSoftware"@, "Brave-Browser"@])),
                BrowserKind::Arc => Some(loc(support, seq!["Arc"@, "User Data"@])),
                BrowserKind::Vivaldi => Some(loc(support, seq!["Vivaldi"@])),
                BrowserKind::Opera => Some(loc(support, seq!["com.operasoftware.Opera"@])),
                BrowserKind::OperaGx => Some(loc(support, seq!["com.operasoftware.OperaGX"@])),
                BrowserKind::Chromium => Some(loc(support, seq!["Chromium"@])),
                _ => None,
            },
            None => None,
        },
        Platform::Linux => match opt_view(dirs.config) {
            Some(config) => match kind {
                BrowserKind::Chrome => Some(loc(config, seq!["google-chrome"@])),
                BrowserKind::Edge => Some(loc(config, seq!["microsoft-edge"@])),
                BrowserKind::Brave => Some(loc(config, seq!["BraveSoftware"@, "Brave-Browser"@])),
                BrowserKind::Vivaldi => Some(loc(config, seq!["vivaldi"@])),
                BrowserKind::Opera => Some(loc(config, seq!["opera"@])),
                BrowserKind::Chromium => Some(loc(config, seq!["chromium"@])),
                _ => None,
            },
            None => None,
        },
        Platform::Other => None,
    }
}

/// The user-data directory of a Chromium-family browser.
pub fn user_data_dir(kind: BrowserKind, platform: Platform, dirs: &BaseDirs) -> (r: Option<Location>)
    ensures
        match user_data_dir_spec(kind, platform, *dirs) {
            Some(l) => r matches Some(x) && loc_view(x) == l,
            None => r is None,
        },
{
    match platform {
        Platform::Windows => {
            let (local, roaming) = match (&dirs.data_local, &dirs.data) {
                (Some(l), Some(r)) => (l, r),
                _ => {
                    return None;
                },
            };
            match kind {
                BrowserKind::Chrome => Some(make_location(local, &["Google", "Chrome", "User Data"])),
                BrowserKind::Edge => Some(make_location(local, &["Microsoft", "Edge", "User Data"])),
                BrowserKind::Brave => Some(make_location(local, &["BraveSoftware", "Brave-Browser", "User Data"])),
                BrowserKind::Arc => Some(make_location(local, &["Arc", "User Data"])),
                BrowserKind::Vivaldi => Some(make_location(local, &["Vivaldi", "User Data"])),
                BrowserKind::Opera => Some(make_location(roaming, &["Opera Software", "Opera Stable"])),
                BrowserKind::OperaGx => Some(make_location(roaming, &["Opera Software", "Opera GX Stable"])),
                BrowserKind::Chromium => Some(make_location(local, &["Chromium", "User Data"])),
                _ => None,
            }
        },
        Platform::MacOs => {
            let support = match &dirs.config {
                Some(s) => s,
                None => {
                    return None;
                },
            };
            match kind {
                BrowserKind::Chrome => Some(make_location(support, &["Google", "Chrome"])),
                BrowserKind::Edge => Some(make_location(support, &["Microsoft Edge"])),
                BrowserKind::Brave => Some(make_location(support, &["BraveSoftware", "Brave-Browser"])),
                BrowserKind::Arc => Some(make_location(support, &["Arc", "User Data"])),
                BrowserKind::Vivaldi => Some(make_location(support, &["Vivaldi"])),
                BrowserKind::Opera => Some(make_location(support, &["com.operasoftware.Opera"])),
                BrowserKind::OperaGx => Some(make_location(support, &["com.operasoftware.OperaGX"])),
                BrowserKind::Chromium => Some(make_location(support, &["Chromium"])),
                _ => None,
            }
        },
        Platform::Linux => {
            let config = match &dirs.config {
                Some(s) => s,
                None => {
                    return None;
                },
            };
            match kind {
                BrowserKind::Chrome => Some(make_location(config, &["google-chrome"])),
                BrowserKind::Edge => Some(make_location(config, &["microsoft-edge"])),
                BrowserKind::Brave => Some(make_location(config, &["BraveSoftware", "Brave-Browser"])),
                BrowserKind::Vivaldi => Some(make_location(config, &["vivaldi"])),
                BrowserKind::Opera => Some(make_location(config, &["opera"])),
                BrowserKind::Chromium => Some(make_location(config, &["chromium"])),
                _ => None,
            }
        },
        Platform::Other => None,
    }
}

/// A Chromium-family browser and its user-data directory.
pub struct ChromiumSource {
    kind: BrowserKind,
    user_data_dir: Location,
}

impl ChromiumSource {
    /// The browser.
    pub closed spec fn kind_spec(&self) -> BrowserKind {
        self.kind
    }

    /// The user-data directory.
    pub closed spec fn dir_spec(&self) -> Seq<Seq<char>> {
        loc_view(self.user_data_dir)
    }

    /// The source of `kind`, when its user-data directory is known on the
    /// platform and present (whether it is present is the caller's
    /// finding, for the directory `user_data_dir` gives).
    pub fn for_kind(kind: BrowserKind, platform: Platform, dirs: &BaseDirs, present: bool) -> (r: Option<Self>)
        ensures
            match user_data_dir_spec(kind, platform, *dirs) {
                Some(d) if present => r matches Some(s) && s.kind_spec() == kind && s.dir_spec() == d,
                _ => r is None,
            },
    {
        if !present {
            return None;
        }
        match user_data_dir(kind, platform, dirs) {
            Some(dir) => Some(ChromiumSource { kind, user_data_dir: dir }),
            None => None,
        }
    }

    /// The name the source reports: the browser's name.
    pub fn name(&self) -> (r: &'static str)
        ensures
            r@ == self.kind_spec().name_spec(),
    {
        self.kind.as_str()
    }

    /// The browser.
    pub fn kind(&self) -> (r: BrowserKind)
        ensures
            r == self.kind_spec(),
    {
        self.kind
    }

    /// The user-data directory.
    pub fn user_data_dir(&self) -> (r: &Location)
        ensures
            loc_view(*r) == self.dir_spec(),
    {
        &self.user_data_dir
    }
}

/// The operating-system part of a Chromium user agent.
pub open spec fn os_token_spec(platform: Platform) -> Seq<char> {
    match platform {
        Platform::Windows => "Windows NT 10.0; Win64; x64"@,
        Platform::MacOs => "Macintosh; Intel Mac OS X 10_15_7"@,
        _ => "X11; Linux x86_64"@,
    }
}

/// The operating-system part of a Chromium user agent.
pub fn os_token(platform: Platform) -> (r: &'static str)
    ensures
        r@ == os_token_spec(platform),
{
    match platform {
        Platform::Windows => "Windows NT 10.0; Win64; x64",
        Platform::MacOs => "Macintosh; Intel Mac OS X 10_15_7",
        _ => "X11; Linux x86_64",
    }
}

/// The user agent a Chromium-family browser presents: Chrome 131's, with
/// Edge, Vivaldi and Opera adding their own token.
pub open spec fn chromium_user_agent_spec(kind: BrowserKind, platform: Platform) -> Seq<char> {
    let base = "Mozilla/5.0 ("@ + os_token_spec(platform) + ") AppleWebKit/537.36 (KHTML, like Gecko) Chrome/131.0.0.0 Safari/537.36"@;
    match kind {
        BrowserKind::Edge => base + " Edg/131.0.0.0"@,
        BrowserKind::Vivaldi => base + " Vivaldi/6.9"@,
        BrowserKind::Opera | BrowserKind::OperaGx => base + " OPR/116.0.0.0"@,
        _ => base,
    }
}

/// The user agent a Chromium-family browser presents.
pub fn chromium_user_agent(kind: BrowserKind, platform: Platform) -> (r: String)
    ensures
        r@ == chromium_user_agent_spec(kind, platform),
{
    let base = String::from_str("Mozilla/5.0 (").concat(os_token(platform)).concat(
        ") AppleWebKit/537.36 (KHTML, like Gecko) Chrome/131.0.0.0 Safari/537.36",
    );
    match kind {
        BrowserKind::Edge => base.concat(" Edg/131.0.0.0"),
        BrowserKind::Vivaldi => base.concat(" Vivaldi/6.9"),
        BrowserKind::Opera | BrowserKind::OperaGx => base.concat(" OPR/116.0.0.0"),
        _ => base,
    }
}

/// Where the cookie database of a profile is, relative to the profile
/// directory: `Network/Cookies` in current versions, `Cookies` in older
/// ones; none when neither exists.
pub fn cookies_path(network_exists: bool, legacy_exists: bool) -> (r: Option<Vec<&'static str>>)
    ensures
        network_exists ==> (r matches Some(v) && v@.len() == 2 && v@[0]@ == "Network"@ && v@[1]@ == "Cookies"@),
        !network_exists && legacy_exists ==> (r matches Some(v) && v@.len() == 1 && v@[0]@ == "Cookies"@),
        !network_exists && !legacy_exists ==> r is None,
{
    if network_exists {
        Some(vec!["Network", "Cookies"])
    } else if legacy_exists {
        Some(vec!["Cookies"])
    } else {
        None
    }
}

/// A character of a temporary file name: ASCII letters and digits stay,
/// anything else becomes `_`.
pub open spec fn sanitize_char(c: char) -> char {
    if ('a' <= c && c <= 'z') || ('A' <= c && c <= 'Z') || ('0' <= c && c <= '9') {
        c
    } else {
        '_'
    }
}

/// A profile's name made safe for a file name.
pub open spec fn sanitize_spec(s: Seq<char>) -> Seq<char> {
    s.map_values(|c: char| sanitize_char(c))
}

/// A profile's name made safe for a file name.
pub fn sanitize(s: &str) -> (r: String)
    ensures
        r@ == sanitize_spec(s@),
{
    let v = chars_of(s);
    let mut out: Vec<char> = Vec::new();
    let mut i: usize = 0;
    while i < v.len()
        invariant
            i <= v@.len(),
            out@ == v@.take(i as int).map_values(|c: char| sanitize_char(c)),
        decreases v@.len() - i,
    {
        let c = v[i];
        let d = if ('a' <= c && c <= 'z') || ('A' <= c && c <= 'Z') || ('0' <= c && c <= '9') {
            c
        } else {
            '_'
        };
        out.push(d);
        proof {
            assert(v@.take(i + 1).map_values(|c: char| sanitize_char(c)) =~= v@.take(i as int).map_values(
                |c: char| sanitize_char(c),
            ).push(sanitize_char(v@[i as int])));
        }
        i = i + 1;
    }
    proof {
        assert(v@.take(v@.len() as int) =~= v@);
    }
    crate::text::string_of(&out)
}

/// The name of the temporary copy of a profile's `Cookies` database.
pub fn temp_db_file(kind: BrowserKind, profile: Option<&str>) -> (r: String)
    ensures
        r@ == temp_db_name_spec(
            kind.name_spec(),
            match profile {
                Some(n) => Some(n@),
                None => None,
            },
            "cookies"@,
        ),
{
    temp_db_name(kind.as_str(), profile, "cookies")
}

/// The name of the temporary copy of a profile's cookie database:
/// `kagi_mcp_<browser>_<profile>_<suffix>`, the profile's name made safe
/// (`p` when it has none that is text).
pub open spec fn temp_db_name_spec(browser: Seq<char>, profile: Option<Seq<char>>, suffix: Seq<char>) -> Seq<char> {
    let p = match profile {
        Some(n) => n,
        None => "p"@,
    };
    "kagi_mcp_"@ + browser + "_"@ + sanitize_spec(p) + "_"@ + suffix
}

/// The name of the temporary copy of a profile's cookie database.
pub fn temp_db_name(browser: &str, profile: Option<&str>, suffix: &str) -> (r: String)
    ensures
        r@ == temp_db_name_spec(
            browser@,
            match profile {
                Some(n) => Some(n@),
                None => None,
            },
            suffix@,
        ),
{
    let p = match profile {
        Some(n) => n,
        None => "p",
    };
    let clean = sanitize(p);
    String::from_str("kagi_mcp_").concat(browser).concat("_").concat(clean.as_str()).concat("_").concat(suffix)
}

/// An entry of the user-data directory: its name (empty when the name is
/// not text) and whether it is a directory.
pub struct DirEntry {
    pub name: String,
    pub is_dir: bool,
}

/// A profile directory to try: `Default`, or an entry of the user-data
/// directory by its position.
#[derive(Debug, Clone, Copy, PartialEq, Eq, Structural)]
pub enum ProfileDir {
    Default,
    Entry(usize),
}

/// What an entry of the user-data directory is.
pub enum ProfileClass {
    /// Not a profile.
    Skip,
    /// `Profile <n>`.
    Numbered(u32),
    /// Another directory whose name holds `Profile`.
    Other,
}

/// What an entry is: directories named `Profile <n>` (with `n` a `u32`)
/// are numbered profiles, other directories whose name holds `Profile` are
/// profiles too, and everything else (including `Default`, which is tried
/// first in any case) is skipped.
pub open spec fn classify_spec(name: Seq<char>, is_dir: bool) -> ProfileClass {
    if !is_dir || name == "Default"@ {
        ProfileClass::Skip
    } else {
        match strip_prefix_spec(name, "Profile "@) {
            Some(rest) if parse_unsigned(rest, 0xffff_ffff) is Some => ProfileClass::Numbered(
                parse_unsigned(rest, 0xffff_ffff)->0 as u32,
            ),
            _ => if has_infix(name, "Profile"@) {
                ProfileClass::Other
            } else {
                ProfileClass::Skip
            },
        }
    }
}

fn classify(e: &DirEntry) -> (c: ProfileClass)
    ensures
        c == classify_spec(e.name@, e.is_dir),
{
    if !e.is_dir || str_eq(e.name.as_str(), "Default") {
        return ProfileClass::Skip;
    }
    match strip_prefix(e.name.as_str(), "Profile ") {
        Some(rest) => {
            let rv = chars_of(rest.as_str());
            match parse_unsigned_exec(&rv, 0xffff_ffff) {
                Some(n) => {
                    return ProfileClass::Numbered(n as u32);
                },
                None => {},
            }
        },
        None => {},
    }
    if contains(e.name.as_str(), "Profile") {
        ProfileClass::Other
    } else {
        ProfileClass::Skip
    }
}

/// The numbered profiles among the first `n` entries, with their
/// positions, in entry order.
pub open spec fn numbered_upto(es: Seq<DirEntry>, n: int) -> Seq<(u32, usize)>
    decreases n,
{
    if n <= 0 {
        seq![]
    } else {
        let prev = numbered_upto(es, n - 1);
        match classify_spec(es[n - 1].name@, es[n - 1].is_dir) {
            ProfileClass::Numbered(k) => prev.push((k, (n - 1) as usize)),
            _ => prev,
        }
    }
}

/// The positions of the other profiles among the first `n` entries, in
/// entry order.
pub open spec fn others_upto(es: Seq<DirEntry>, n: int) -> Seq<usize>
    decreases n,
{
    if n <= 0 {
        seq![]
    } else {
        let prev = others_upto(es, n - 1);
        match classify_spec(es[n - 1].name@, es[n - 1].is_dir) {
            ProfileClass::Other => prev.push((n - 1) as usize),
            _ => prev,
        }
    }
}

/// Ordered by number, then by position.
pub open spec fn before(a: (u32, usize), b: (u32, usize)) -> bool {
    a.0 < b.0 || (a.0 == b.0 && a.1 < b.1)
}

/// Strictly ordered by number, then by position.
pub open spec fn ordered(s: Seq<(u32, usize)>) -> bool {
    forall|i: int, j: int| 0 <= i < j < s.len() ==> before(#[trigger] s[i], #[trigger] s[j])
}

/// The same elements, as many.
pub open spec fn same_elements(a: Seq<(u32, usize)>, b: Seq<(u32, usize)>) -> bool {
    a.len() == b.len() && forall|x: (u32, usize)| a.contains(x) <==> b.contains(x)
}

/// The profiles as entries.
pub open spec fn as_entries(s: Seq<(u32, usize)>) -> Seq<ProfileDir> {
    s.map_values(|x: (u32, usize)| ProfileDir::Entry(x.1))
}

/// The other profiles as entries.
pub open spec fn others_as_entries(s: Seq<usize>) -> Seq<ProfileDir> {
    s.map_values(|x: usize| ProfileDir::Entry(x))
}

/// Whether `out` is the order in which the profiles are tried: `Default`
/// when it exists, then the `Profile <n>` directories by number (entries
/// with the same number in entry order), then the other profiles in entry
/// order.
pub open spec fn profile_order(default_exists: bool, es: Seq<DirEntry>, out: Seq<ProfileDir>) -> bool {
    let head: Seq<ProfileDir> = if default_exists {
        seq![ProfileDir::Default]
    } else {
        seq![]
    };
    exists|ns: Seq<(u32, usize)>|
        ordered(ns) && same_elements(ns, numbered_upto(es, es.len() as int)) && out == head + as_entries(ns)
            + others_as_entries(#[trigger] others_upto(es, es.len() as int))
}

proof fn lemma_numbered_positions(es: Seq<DirEntry>, n: int)
    requires
        0 <= n <= es.len(),
    ensures
        forall|x: (u32, usize)| numbered_upto(es, n).contains(x) ==> x.1 < n,
    decreases n,
{
    if n > 0 {
        lemma_numbered_positions(es, n - 1);
        let prev = numbered_upto(es, n - 1);
        assert forall|x: (u32, usize)| numbered_upto(es, n).contains(x) implies x.1 < n by {
            let cur = numbered_upto(es, n);
            let j = choose|j: int| 0 <= j < cur.len() && #[trigger] cur[j] == x;
            if j < prev.len() {
                assert(prev[j] == x);
                assert(prev.contains(x));
            }
        }
    }
}

/// The order in which the profiles of a user-data directory are tried.
pub fn enumerate_profile_dirs(default_exists: bool, entries: &Vec<DirEntry>) -> (out: Vec<ProfileDir>)
    ensures
        profile_order(default_exists, entries@, out@),
{
    let ghost es = entries@;
    let mut sorted: Vec<(u32, usize)> = Vec::new();
    let mut others: Vec<usize> = Vec::new();
    let mut i: usize = 0;
    while i < entries.len()
        invariant
            es == entries@,
            i <= es.len(),
            ordered(sorted@),
            same_elements(sorted@, numbered_upto(es, i as int)),
            others@ == others_upto(es, i as int),
        decreases es.len() - i,
    {
        proof {
            lemma_numbered_positions(es, i as int);
        }
        match classify(&entries[i]) {
            ProfileClass::Numbered(k) => {
                let mut p: usize = 0;
                while p < sorted.len() && sorted[p].0 <= k
                    invariant
                        p <= sorted@.len(),
                        forall|j: int| 0 <= j < p ==> (#[trigger] sorted@[j]).0 <= k,
                    decreases sorted@.len() - p,
                {
                    p = p + 1;
                }
                let ghost old_sorted = sorted@;
                let x = (k, i);
                sorted.insert(p, x);
                proof {
                    assert(forall|y: (u32, usize)| old_sorted.contains(y) ==> y.1 < i) by {
                        assert forall|y: (u32, usize)| old_sorted.contains(y) implies y.1 < i by {
                            assert(numbered_upto(es, i as int).contains(y));
                        }
                    }
                    assert forall|a: int, b: int| 0 <= a < b < sorted@.len() implies before(
                        #[trigger] sorted@[a],
                        #[trigger] sorted@[b],
                    ) by {
                        if b < p {
                            assert(sorted@[a] == old_sorted[a] && sorted@[b] == old_sorted[b]);
                        } else if b == p {
                            assert(sorted@[a] == old_sorted[a]);
                            assert(old_sorted.contains(old_sorted[a]));
                        } else if a == p {
                            assert(sorted@[b] == old_sorted[b - 1]);
                            assert(old_sorted[p as int].0 > k);
                            if b - 1 > p {
                                assert(before(old_sorted[p as int], old_sorted[b - 1]));
                            }
                        } else if a < p {
                            assert(sorted@[a] == old_sorted[a] && sorted@[b] == old_sorted[b - 1]);
                        } else {
                            assert(sorted@[a] == old_sorted[a - 1] && sorted@[b] == old_sorted[b - 1]);
                        }
                    }
                    assert(numbered_upto(es, i + 1) == numbered_upto(es, i as int).push(x));
                    let nb0 = numbered_upto(es, i as int);
                    assert forall|y: (u32, usize)| sorted@.contains(y) <==> numbered_upto(es, i + 1).contains(y) by {
                        let nb1 = numbered_upto(es, i + 1);
                        if sorted@.contains(y) {
                            let j = choose|j: int| 0 <= j < sorted@.len() && #[trigger] sorted@[j] == y;
                            if j == p {
                                assert(nb1[nb1.len() - 1] == y);
                            } else {
                                let jj = if j < p { j } else { j - 1 };
                                assert(old_sorted[jj] == y);
                                assert(old_sorted.contains(y));
                                assert(nb0.contains(y));
                                let q = choose|q: int| 0 <= q < nb0.len() && #[trigger] nb0[q] == y;
                                assert(nb1[q] == y);
                            }
                        }
                        let nb1 = numbered_upto(es, i + 1);
                        if nb1.contains(y) {
                            let j = choose|j: int| 0 <= j < nb1.len() && #[trigger] nb1[j] == y;
                            if j < numbered_upto(es, i as int).len() {
                                assert(numbered_upto(es, i as int)[j] == y);
                                assert(numbered_upto(es, i as int).contains(y));
                                let q = choose|q: int| 0 <= q < old_sorted.len() && old_sorted[q] == y;
                                if q < p {
                                    assert(sorted@[q] == y);
                                } else {
                                    assert(sorted@[q + 1] == y);
                                }
                            } else {
                                assert(sorted@[p as int] == y);
                            }
                        }
                    }
                    assert(others_upto(es, i + 1) == others_upto(es, i as int));
                }
            },
            ProfileClass::Other => {
                others.push(i);
                proof {
                    assert(numbered_upto(es, i + 1) == numbered_upto(es, i as int));
                }
            },
            ProfileClass::Skip => {
                proof {
                    assert(numbered_upto(es, i + 1) == numbered_upto(es, i as int));
                    assert(others_upto(es, i + 1) == others_upto(es, i as int));
                }
            },
        }
        i = i + 1;
    }
    let mut out: Vec<ProfileDir> = Vec::new();
    if default_exists {
        out.push(ProfileDir::Default);
    }
    let ghost head = out@;
    let mut j: usize = 0;
    while j < sorted.len()
        invariant
            j <= sorted@.len(),
            out@ == head + as_entries(sorted@.take(j as int)),
        decreases sorted@.len() - j,
    {
        out.push(ProfileDir::Entry(sorted[j].1));
        proof {
            assert(as_entries(sorted@.take(j + 1)) =~= as_entries(sorted@.take(j as int)).push(
                ProfileDir::Entry(sorted@[j as int].1),
            ));
        }
        j = j + 1;
    }
    proof {
        assert(sorted@.take(sorted@.len() as int) =~= sorted@);
    }
    let ghost mid = out@;
    let mut k: usize = 0;
    while k < others.len()
        invariant
            k <= others@.len(),
            out@ == mid + others_as_entries(others@.take(k as int)),
        decreases others@.len() - k,
    {
        out.push(ProfileDir::Entry(others[k]));
        proof {
            assert(others_as_entries(others@.take(k + 1)) =~= others_as_entries(others@.take(k as int)).push(
                ProfileDir::Entry(others@[k as int]),
            ));
        }
        k = k + 1;
    }
    proof {
        assert(others@.take(others@.len() as int) =~= others@);
        assert(ordered(sorted@) && same_elements(sorted@, numbered_upto(es, es.len() as int)));
        assert(out@ == head + as_entries(sorted@) + others_as_entries(others_upto(es, es.len() as int)));
    }
    out
}

/// What a cookie value's bytes give: text that is not UTF-8 makes the
/// store unreadable; an empty value is no session; otherwise the session
/// of the cookie, with the browser's user agent.
pub open spec fn cookie_session(
    kind: BrowserKind,
    platform: Platform,
    name: Seq<char>,
    bytes: Seq<u8>,
    r: DomainResult<Option<Session>>,
) -> bool {
    if !vstd::utf8::valid_utf8(bytes) {
        r matches Err(DomainError::CookieStoreUnavailable(m)) && m@.take(17) == "non-utf8 cookie: "@
    } else if vstd::utf8::decode_utf8(bytes).len() == 0 {
        r matches Ok(None)
    } else {
        r matches Ok(Some(s)) && s@ == (SessionV {
            auth: SessionAuthV::Cookie { name, value: vstd::utf8::decode_utf8(bytes) },
            user_agent: chromium_user_agent_spec(kind, platform),
            source: kind,
        })
    }
}

fn session_from_bytes(kind: BrowserKind, platform: Platform, name: String, bytes: &[u8]) -> (r: DomainResult<
    Option<Session>,
>)
    ensures
        cookie_session(kind, platform, name@, bytes@, r),
{
    let value = match string_from_utf8(bytes) {
        Ok(v) => v,
        Err(e) => {
            proof {
                reveal_strlit("non-utf8 cookie: ");
            }
            let m = String::from_str("non-utf8 cookie: ").concat(e.as_str());
            proof {
                assert(m@.take(17) =~= "non-utf8 cookie: "@);
            }
            return Err(DomainError::CookieStoreUnavailable(m));
        },
    };
    if value.as_str().is_empty() {
        return Ok(None);
    }
    Ok(
        Some(
            Session {
                auth: SessionAuth::Cookie { name, value },
                user_agent: chromium_user_agent(kind, platform),
                source: kind,
            },
        ),
    )
}

/// The session of the Kagi cookie row of a profile (`name`, `value`,
/// `encrypted_value`). A plain value is used as it is; an encrypted one is
/// handed to `decrypt`, whose failure is the result.
pub fn session_from_row<D: FnOnce(&[u8]) -> DomainResult<Vec<u8>>>(
    kind: BrowserKind,
    platform: Platform,
    name: String,
    value_plain: Vec<u8>,
    value_enc: Vec<u8>,
    decrypt: D,
) -> (r: DomainResult<Option<Session>>)
    requires
        forall|b: &[u8]| decrypt.requires((b,)),
    ensures
        value_enc@.len() == 0 ==> cookie_session(kind, platform, name@, value_plain@, r),
        value_enc@.len() > 0 ==> exists|b: &[u8], d: DomainResult<Vec<u8>>|
            b@ == value_enc@ && #[trigger] decrypt.ensures((b,), d) && match d {
                Ok(p) => cookie_session(kind, platform, name@, p@, r),
                Err(e) => r == DomainResult::<Option<Session>>::Err(e),
            },
{
    if value_enc.len() == 0 {
        return session_from_bytes(kind, platform, name, value_plain.as_slice());
    }
    let enc = value_enc.as_slice();
    let d = decrypt(enc);
    proof {
        assert(decrypt.ensures((enc,), d));
    }
    match d {
        Ok(p) => {
            let r = session_from_bytes(kind, platform, name, p.as_slice());
            proof {
                let w = DomainResult::<Vec<u8>>::Ok(p);
                assert(decrypt.ensures((enc,), w));
            }
            r
        },
        Err(e) => {
            proof {
                let w = DomainResult::<Vec<u8>>::Err(e);
                assert(decrypt.ensures((enc,), w));
            }
            Err(e)
        },
    }
}

/// The answers of the profiles tried so far: the last error among them.
pub open spec fn last_profile_error(outs: Seq<DomainResult<Option<Session>>>) -> Option<DomainError>
    decreases outs.len(),
{
    if outs.len() == 0 {
        None
    } else {
        match outs.last() {
            Err(e) => Some(e),
            _ => last_profile_error(outs.drop_last()),
        }
    }
}

/// The answer of a browser whose profiles all answered `outs` without a
/// session: the last error, or no session.
pub open spec fn scan_result(outs: Seq<DomainResult<Option<Session>>>) -> DomainResult<Option<Session>> {
    match last_profile_error(outs) {
        Some(e) => Err(e),
        None => Ok(None),
    }
}

/// A pass over a browser's profiles in order.
pub struct ProfileScan {
    last_err: Option<DomainError>,
    seen: Ghost<Seq<DomainResult<Option<Session>>>>,
}

impl ProfileScan {
    /// Whether the scan's state matches the answers it saw.
    pub closed spec fn wf(&self) -> bool {
        &&& forall|i: int| 0 <= i < self.seen@.len() ==> !(#[trigger] self.seen@[i] matches Ok(Some(_)))
        &&& self.last_err == last_profile_error(self.seen@)
    }

    /// The answers seen so far, none holding a session.
    pub closed spec fn answers(&self) -> Seq<DomainResult<Option<Session>>> {
        self.seen@
    }

    /// A scan that saw no profile yet.
    pub fn new() -> (p: Self)
        ensures
            p.wf(),
            p.answers() == Seq::<DomainResult<Option<Session>>>::empty(),
    {
        ProfileScan { last_err: None, seen: Ghost(Seq::empty()) }
    }

    /// Takes the answer of the next profile. A session ends the scan and is
    /// handed back; otherwise the scan goes on, keeping the answer.
    pub fn on_answer(&mut self, r: DomainResult<Option<Session>>) -> (found: Option<Session>)
        requires
            old(self).wf(),
        ensures
            match found {
                Some(s) => r == DomainResult::<Option<Session>>::Ok(Some(s)) && *final(self) == *old(self),
                None => !(r matches Ok(Some(_))) && final(self).wf() && final(self).answers() == old(
                    self,
                ).answers().push(r),
            },
    {
        let ghost old_seen = self.seen@;
        match r {
            Ok(Some(s)) => Some(s),
            Ok(None) => {
                proof {
                    assert(old_seen.push(r).drop_last() =~= old_seen);
                }
                self.seen = Ghost(old_seen.push(r));
                None
            },
            Err(e) => {
                let ghost rr = r;
                self.last_err = Some(e);
                self.seen = Ghost(old_seen.push(rr));
                None
            },
        }
    }

    /// The answer of the browser when no profile held a session.
    pub fn finish(self) -> (r: DomainResult<Option<Session>>)
        requires
            self.wf(),
        ensures
            r == scan_result(self.answers()),
    {
        match self.last_err {
            Some(e) => Err(e),
            None => Ok(None),
        }
    }
}

/// Where each Chromium-family browser keeps its user data, as the browsers
/// install themselves. On macOS, under Application Support (the
/// configuration directory): Chrome in `Google/Chrome`, Edge in
/// `Microsoft Edge`, Brave in `BraveSoftware/Brave-Browser`, Arc in
/// `Arc/User Data`, Vivaldi in `Vivaldi`, Opera and Opera GX in
/// `com.operasoftware.Opera` and `com.operasoftware.OperaGX`, Chromium in
/// `Chromium`. On Linux, under the configuration directory: `google-chrome`,
/// `microsoft-edge`, `BraveSoftware/Brave-Browser`, `vivaldi`, `opera`,
/// `chromium`; Arc and Opera GX have none. On Windows, under the local data
/// directory, each vendor's folder followed by `User Data`, except Opera and
/// Opera GX, which live under the roaming data directory. Firefox and Safari
/// are no Chromium browsers and have none; neither has any browser on
/// another platform, or where the base directory is unknown.
pub proof fn law_user_data_dirs(dirs: BaseDirs)
    ensures
        dirs.config matches Some(c) ==> {
            let m = Platform::MacOs;
            &&& user_data_dir_spec(BrowserKind::Chrome, m, dirs) == Some(seq![c@, "Google"@, "Chrome"@])
            &&& user_data_dir_spec(BrowserKind::Edge, m, dirs) == Some(seq![c@, "Microsoft Edge"@])
            &&& user_data_dir_spec(BrowserKind::Brave, m, dirs) == Some(seq![c@, "BraveSoftware"@, "Brave-Browser"@])
            &&& user_data_dir_spec(BrowserKind::Arc, m, dirs) == Some(seq![c@, "Arc"@, "User Data"@])
            &&& user_data_dir_spec(BrowserKind::Vivaldi, m, dirs) == Some(seq![c@, "Vivaldi"@])
            &&& user_data_dir_spec(BrowserKind::Opera, m, dirs) == Some(seq![c@, "com.operasoftware.Opera"@])
            &&& user_data_dir_spec(BrowserKind::OperaGx, m, dirs) == Some(seq![c@, "com.operasoftware.OperaGX"@])
            &&& user_data_dir_spec(BrowserKind::Chromium, m, dirs) == Some(seq![c@, "Chromium"@])
        },
        dirs.config matches Some(c) ==> {
            let l = Platform::Linux;
            &&& user_data_dir_spec(BrowserKind::Chrome, l, dirs) == Some(seq![c@, "google-chrome"@])
            &&& user_data_dir_spec(BrowserKind::Edge, l, dirs) == Some(seq![c@, "microsoft-edge"@])
            &&& user_data_dir_spec(BrowserKind::Brave, l, dirs) == Some(seq![c@, "BraveSoftware"@, "Brave-Browser"@])
            &&& user_data_dir_spec(BrowserKind::Arc, l, dirs) is None
            &&& user_data_dir_spec(BrowserKind::Vivaldi, l, dirs) == Some(seq![c@, "vivaldi"@])
            &&& user_data_dir_spec(BrowserKind::Opera, l, dirs) == Some(seq![c@, "opera"@])
            &&& user_data_dir_spec(BrowserKind::OperaGx, l, dirs) is None
            &&& user_data_dir_spec(BrowserKind::Chromium, l, dirs) == Some(seq![c@, "chromium"@])
        },
        (dirs.data_local is Some && dirs.data is Some) ==> {
            let lo = dirs.data_local->0;
            let ro = dirs.data->0;
            let w = Platform::Windows;
            &&& user_data_dir_spec(BrowserKind::Chrome, w, dirs) == Some(seq![lo@, "Google"@, "Chrome"@, "User Data"@])
            &&& user_data_dir_spec(BrowserKind::Edge, w, dirs) == Some(seq![lo@, "Microsoft"@, "Edge"@, "User Data"@])
            &&& user_data_dir_spec(BrowserKind::Brave, w, dirs) == Some(
                seq![lo@, "BraveSoftware"@, "Brave-Browser"@, "User Data"@],
            )
            &&& user_data_dir_spec(BrowserKind::Arc, w, dirs) == Some(seq![lo@, "Arc"@, "User Data"@])
            &&& user_data_dir_spec(BrowserKind::Vivaldi, w, dirs) == Some(seq![lo@, "Vivaldi"@, "User Data"@])
            &&& user_data_dir_spec(BrowserKind::Opera, w, dirs) == Some(seq![ro@, "Opera Software"@, "Opera Stable"@])
            &&& user_data_dir_spec(BrowserKind::OperaGx, w, dirs) == Some(
                seq![ro@, "Opera Software"@, "Opera GX Stable"@],
            )
            &&& user_data_dir_spec(BrowserKind::Chromium, w, dirs) == Some(seq![lo@, "Chromium"@, "User Data"@])
        },
        dirs.config is None ==> user_data_dir_spec(BrowserKind::Chrome, Platform::MacOs, dirs) is None
            && user_data_dir_spec(BrowserKind::Chrome, Platform::Linux, dirs) is None,
        (dirs.data_local is None || dirs.data is None) ==> forall|k: BrowserKind|
            #[trigger] user_data_dir_spec(k, Platform::Windows, dirs) is None,
        forall|k: BrowserKind, p: Platform|
            (k == BrowserKind::Firefox || k == BrowserKind::Safari || p == Platform::Other) ==> #[trigger] user_data_dir_spec(
                k,
                p,
                dirs,
            ) is None,
{
    match dirs.config {
        Some(c) => {
            assert(loc(c@, seq!["Google"@, "Chrome"@]) =~= seq![c@, "Google"@, "Chrome"@]);
            assert(loc(c@, seq!["Microsoft Edge"@]) =~= seq![c@, "Microsoft Edge"@]);
            assert(loc(c@, seq!["BraveSoftware"@, "Brave-Browser"@]) =~= seq![c@, "BraveSoftware"@, "Brave-Browser"@]);
            assert(loc(c@, seq!["Arc"@, "User Data"@]) =~= seq![c@, "Arc"@, "User Data"@]);
            assert(loc(c@, seq!["Vivaldi"@]) =~= seq![c@, "Vivaldi"@]);
            assert(loc(c@, seq!["com.operasoftware.Opera"@]) =~= seq![c@, "com.operasoftware.Opera"@]);
            assert(loc(c@, seq!["com.operasoftware.OperaGX"@]) =~= seq![c@, "com.operasoftware.OperaGX"@]);
            assert(loc(c@, seq!["Chromium"@]) =~= seq![c@, "Chromium"@]);
            assert(loc(c@, seq!["google-chrome"@]) =~= seq![c@, "google-chrome"@]);
            assert(loc(c@, seq!["microsoft-edge"@]) =~= seq![c@, "microsoft-edge"@]);
            assert(loc(c@, seq!["vivaldi"@]) =~= seq![c@, "vivaldi"@]);
            assert(loc(c@, seq!["opera"@]) =~= seq![c@, "opera"@]);
            assert(loc(c@, seq!["chromium"@]) =~= seq![c@, "chromium"@]);
        },
        None => {},
    }
    if dirs.data_local is Some && dirs.data is Some {
        let lo = dirs.data_local->0;
        let ro = dirs.data->0;
        assert(loc(lo@, seq!["Google"@, "Chrome"@, "User Data"@]) =~= seq![lo@, "Google"@, "Chrome"@, "User Data"@]);
        assert(loc(lo@, seq!["Microsoft"@, "Edge"@, "User Data"@]) =~= seq![lo@, "Microsoft"@, "Edge"@, "User Data"@]);
        assert(loc(lo@, seq!["BraveSoftware"@, "Brave-Browser"@, "User Data"@]) =~= seq![
            lo@,
            "BraveSoftware"@,
            "Brave-Browser"@,
            "User Data"@,
        ]);
        assert(loc(lo@, seq!["Arc"@, "User Data"@]) =~= seq![lo@, "Arc"@, "User Data"@]);
        assert(loc(lo@, seq!["Vivaldi"@, "User Data"@]) =~= seq![lo@, "Vivaldi"@, "User Data"@]);
        assert(loc(ro@, seq!["Opera Software"@, "Opera Stable"@]) =~= seq![ro@, "Opera Software"@, "Opera Stable"@]);
        assert(loc(ro@, seq!["Opera Software"@, "Opera GX Stable"@]) =~= seq![
            ro@,
            "Opera Software"@,
            "Opera GX Stable"@,
        ]);
        assert(loc(lo@, seq!["Chromium"@, "User Data"@]) =~= seq![lo@, "Chromium"@, "User Data"@]);
    }
}

} // verus!