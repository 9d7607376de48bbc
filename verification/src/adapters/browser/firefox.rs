//! Firefox and its forks keep their cookies in `cookies.sqlite` inside
//! each profile, unencrypted. This module knows where each fork keeps its
//! profiles, in which order to try them, and what a cookie row means; the
//! file system and SQLite are the caller's.

use vstd::prelude::*;

use super::chromium::{temp_db_name, temp_db_name_spec, DirEntry};
use super::{loc, loc_view, loc_view_of, make_location, BaseDirs, Location, Platform};
use crate::domain::model::{opt_view, SessionAuthV, SessionV};
use crate::domain::{BrowserKind, Session, SessionAuth};
use crate::text::{contains, ends_with, has_infix, has_suffix};

verus! {

/// A Firefox-like browser: its label and the profile roots that exist.
pub struct FirefoxLikeSource {
    label: &'static str,
    profiles_roots: Vec<Location>,
}

/// The views of a list of locations.
pub open spec fn locs_view(v: Seq<Location>) -> Seq<Seq<Seq<char>>> {
    v.map_values(|l: Location| loc_view(l))
}

impl FirefoxLikeSource {
    /// The label.
    pub closed spec fn label_spec(&self) -> Seq<char> {
        self.label@
    }

    /// The profile roots.
    pub closed spec fn roots_spec(&self) -> Seq<Seq<Seq<char>>> {
        locs_view(self.profiles_roots@)
    }

    /// The source of `label` with the given profile roots.
    pub fn new(label: &'static str, profiles_roots: Vec<Location>) -> (r: Self)
        ensures
            r.label_spec() == label@,
            r.roots_spec() == locs_view(profiles_roots@),
    {
        FirefoxLikeSource { label, profiles_roots }
    }

    /// The name the source reports: its label.
    pub fn name(&self) -> (r: &'static str)
        ensures
            r@ == self.label_spec(),
    {
        self.label
    }

    /// The profile roots, in order.
    pub fn profiles_roots(&self) -> (r: &Vec<Location>)
        ensures
            locs_view(r@) == self.roots_spec(),
    {
        &self.profiles_roots
    }
}

/// The location of `parts` under `base`, when `base` is known.
pub open spec fn opt_loc(base: Option<String>, parts: Seq<Seq<char>>) -> Seq<Seq<Seq<char>>> {
    match opt_view(base) {
        Some(b) => seq![loc(b, parts)],
        None => seq![],
    }
}

/// Where each Firefox-like browser keeps its profiles on the platform, by
/// label, in the order they are tried. A location under an unknown base
/// directory is left out.
pub open spec fn firefox_like_roots_spec(platform: Platform, dirs: BaseDirs) -> Seq<(Seq<char>, Seq<Seq<Seq<char>>>)> {
    match platform {
        Platform::Windows => seq![
            ("firefox"@, opt_loc(dirs.data, seq!["Mozilla/Firefox"@, "Profiles"@])),
            ("zen"@, opt_loc(dirs.data, seq!["zen"@, "Profiles"@]) + opt_loc(dirs.data_local, seq!["zen"@, "Profiles"@])),
            ("librewolf"@, opt_loc(dirs.data, seq!["librewolf"@, "Profiles"@]) + opt_loc(dirs.data, seq!["LibreWolf"@, "Profiles"@])),
            ("waterfox"@, opt_loc(dirs.data, seq!["Waterfox"@, "Profiles"@])),
            ("floorp"@, opt_loc(dirs.data, seq!["Floorp"@, "Profiles"@])),
            ("mullvad"@, opt_loc(dirs.data, seq!["Mullvad/MullvadBrowser"@, "Profiles"@])),
            ("tor"@, opt_loc(dirs.data_local, seq!["Tor Browser/Browser/TorBrowser/Data/Browser"@, "Profiles"@])),
        ],
        Platform::MacOs => seq![
            ("firefox"@, opt_loc(dirs.config, seq!["Firefox"@, "Profiles"@])),
            ("zen"@, opt_loc(dirs.config, seq!["zen"@, "Profiles"@])),
            ("librewolf"@, opt_loc(dirs.config, seq!["LibreWolf"@, "Profiles"@])),
            ("waterfox"@, opt_loc(dirs.config, seq!["Waterfox"@, "Profiles"@])),
            ("floorp"@, opt_loc(dirs.config, seq!["Floorp"@, "Profiles"@])),
            ("mullvad"@, opt_loc(dirs.config, seq!["MullvadBrowser"@, "Profiles"@])),
        ],
        Platform::Linux => seq![
            ("firefox"@, opt_loc(dirs.home, seq![".mozilla"@, "firefox"@])),
            ("zen"@, opt_loc(dirs.home, seq![".zen"@]) + opt_loc(dirs.config, seq!["zen"@])),
            ("librewolf"@, opt_loc(dirs.home, seq![".librewolf"@]) + opt_loc(dirs.config, seq!["librewolf"@])),
            ("waterfox"@, opt_loc(dirs.home, seq![".waterfox"@])),
            ("floorp"@, opt_loc(dirs.home, seq![".floorp"@])),
        ],
        Platform::Other => seq![],
    }
}

/// The views of a roots table.
pub open spec fn table_view(t: Seq<(&'static str, Vec<Location>)>) -> Seq<(Seq<char>, Seq<Seq<Seq<char>>>)> {
    t.map_values(|e: (&'static str, Vec<Location>)| (e.0@, locs_view(e.1@)))
}

fn push_opt(roots: &mut Vec<Location>, base: &Option<String>, parts: &[&str])
    ensures
        locs_view(final(roots)@) == locs_view(old(roots)@) + opt_loc(*base, parts@.map_values(|p: &str| p@)),
{
    match base {
        Some(b) => {
            let l = make_location(b, parts);
            let ghost before = roots@;
            roots.push(l);
            proof {
                assert(locs_view(roots@) =~= locs_view(before) + seq![loc_view(l)]);
            }
        },
        None => {
            proof {
                assert(locs_view(roots@) =~= locs_view(roots@) + Seq::<Seq<Seq<char>>>::empty());
            }
        },
    }
}

fn roots_of(a: &Option<String>, pa: &[&str]) -> (r: Vec<Location>)
    ensures
        locs_view(r@) == opt_loc(*a, pa@.map_values(|p: &str| p@)),
{
    let mut r: Vec<Location> = Vec::new();
    proof {
        assert(locs_view(r@) =~= Seq::<Seq<Seq<char>>>::empty());
    }
    push_opt(&mut r, a, pa);
    proof {
        assert(Seq::<Seq<Seq<char>>>::empty() + opt_loc(*a, pa@.map_values(|p: &str| p@)) =~= opt_loc(
            *a,
            pa@.map_values(|p: &str| p@),
        ));
    }
    r
}

fn roots_of2(a: &Option<String>, pa: &[&str], b: &Option<String>, pb: &[&str]) -> (r: Vec<Location>)
    ensures
        locs_view(r@) == opt_loc(*a, pa@.map_values(|p: &str| p@)) + opt_loc(*b, pb@.map_values(|p: &str| p@)),
{
    let mut r = roots_of(a, pa);
    push_opt(&mut r, b, pb);
    r
}

fn push_entry(v: &mut Vec<(&'static str, Vec<Location>)>, label: &'static str, roots: Vec<Location>)
    ensures
        table_view(final(v)@) == table_view(old(v)@).push((label@, locs_view(roots@))),
{
    let ghost before = v@;
    v.push((label, roots));
    proof {
        assert(table_view(v@) =~= table_view(before).push((label@, locs_view(roots@))));
    }
}

/// Where each Firefox-like browser keeps its profiles on the platform.
pub fn firefox_like_roots(platform: Platform, dirs: &BaseDirs) -> (r: Vec<(&'static str, Vec<Location>)>)
    ensures
        table_view(r@) == firefox_like_roots_spec(platform, *dirs),
{
    let mut v: Vec<(&'static str, Vec<Location>)> = Vec::new();
    match platform {
        Platform::Windows => {
            push_entry(&mut v, "firefox", roots_of(&dirs.data, &["Mozilla/Firefox", "Profiles"]));
            push_entry(&mut v, "zen", roots_of2(&dirs.data, &["zen", "Profiles"], &dirs.data_local, &["zen", "Profiles"]));
            push_entry(&mut v, "librewolf", roots_of2(&dirs.data, &["librewolf", "Profiles"], &dirs.data, &["LibreWolf", "Profiles"]));
            push_entry(&mut v, "waterfox", roots_of(&dirs.data, &["Waterfox", "Profiles"]));
            push_entry(&mut v, "floorp", roots_of(&dirs.data, &["Floorp", "Profiles"]));
            push_entry(&mut v, "mullvad", roots_of(&dirs.data, &["Mullvad/MullvadBrowser", "Profiles"]));
            push_entry(&mut v, "tor", roots_of(&dirs.data_local, &["Tor Browser/Browser/TorBrowser/Data/Browser", "Profiles"]));
        },
        Platform::MacOs => {
            push_entry(&mut v, "firefox", roots_of(&dirs.config, &["Firefox", "Profiles"]));
            push_entry(&mut v, "zen", roots_of(&dirs.config, &["zen", "Profiles"]));
            push_entry(&mut v, "librewolf", roots_of(&dirs.config, &["LibreWolf", "Profiles"]));
            push_entry(&mut v, "waterfox", roots_of(&dirs.config, &["Waterfox", "Profiles"]));
            push_entry(&mut v, "floorp", roots_of(&dirs.config, &["Floorp", "Profiles"]));
            push_entry(&mut v, "mullvad", roots_of(&dirs.config, &["MullvadBrowser", "Profiles"]));
        },
        Platform::Linux => {
            push_entry(&mut v, "firefox", roots_of(&dirs.home, &[".mozilla", "firefox"]));
            push_entry(&mut v, "zen", roots_of2(&dirs.home, &[".zen"], &dirs.config, &["zen"]));
            push_entry(&mut v, "librewolf", roots_of2(&dirs.home, &[".librewolf"], &dirs.config, &["librewolf"]));
            push_entry(&mut v, "waterfox", roots_of(&dirs.home, &[".waterfox"]));
            push_entry(&mut v, "floorp", roots_of(&dirs.home, &[".floorp"]));
        },
        Platform::Other => {},
    }
    proof {
        assert(table_view(v@) =~~= firefox_like_roots_spec(platform, *dirs));
    }
    v
}

/// The roots whose answer is `true`, in order (a root without an answer
/// is left out).
pub open spec fn kept_roots(roots: Seq<Seq<Seq<char>>>, ans: Seq<bool>) -> Seq<Seq<Seq<char>>>
    decreases roots.len(),
{
    if roots.len() == 0 {
        seq![]
    } else {
        let prev = kept_roots(roots.drop_last(), ans);
        let j = roots.len() - 1;
        if j < ans.len() && ans[j] {
            prev.push(roots.last())
        } else {
            prev
        }
    }
}

/// The browsers of the table with the roots whose answer is `true`, in
/// order; a browser left with no root is dropped.
pub open spec fn kept_sources(
    table: Seq<(Seq<char>, Seq<Seq<Seq<char>>>)>,
    ans: Seq<Seq<bool>>,
) -> Seq<(Seq<char>, Seq<Seq<Seq<char>>>)>
    decreases table.len(),
{
    if table.len() == 0 {
        seq![]
    } else {
        let prev = kept_sources(table.drop_last(), ans);
        let i = table.len() - 1;
        let row = if i < ans.len() {
            ans[i]
        } else {
            seq![]
        };
        let k = kept_roots(table.last().1, row);
        if k.len() > 0 {
            prev.push((table.last().0, k))
        } else {
            prev
        }
    }
}

/// The views of a list of sources.
pub open spec fn sources_view(v: Seq<FirefoxLikeSource>) -> Seq<(Seq<char>, Seq<Seq<Seq<char>>>)> {
    v.map_values(|s: FirefoxLikeSource| (s.label_spec(), s.roots_spec()))
}

/// The views of the answers.
pub open spec fn answers_view(a: Seq<Vec<bool>>) -> Seq<Seq<bool>> {
    a.map_values(|r: Vec<bool>| r@)
}

/// The Firefox-like browsers present on the platform: for each browser of
/// `firefox_like_roots`, the profile roots whose entry in `present` (by
/// browser, then by root) is `true`; a browser with none is left out.
pub fn all_firefox_like(platform: Platform, dirs: &BaseDirs, present: &Vec<Vec<bool>>) -> (r: Vec<FirefoxLikeSource>)
    ensures
        sources_view(r@) == kept_sources(firefox_like_roots_spec(platform, *dirs), answers_view(present@)),
{
    let table = firefox_like_roots(platform, dirs);
    let ghost tv = table_view(table@);
    let ghost av = answers_view(present@);
    let mut out: Vec<FirefoxLikeSource> = Vec::new();
    let mut i: usize = 0;
    while i < table.len()
        invariant
            tv == table_view(table@),
            av == answers_view(present@),
            i <= table@.len(),
            sources_view(out@) == kept_sources(tv.take(i as int), av),
        decreases table@.len() - i,
    {
        let label = table[i].0;
        let roots = &table[i].1;
        let empty: Vec<bool> = Vec::new();
        let row: &Vec<bool> = if i < present.len() {
            &present[i]
        } else {
            &empty
        };
        proof {
            assert(row@ == (if i < av.len() { av[i as int] } else { seq![] }));
        }
        let mut existing: Vec<Location> = Vec::new();
        let mut j: usize = 0;
        while j < roots.len()
            invariant
                j <= roots@.len(),
                locs_view(existing@) == kept_roots(locs_view(roots@).take(j as int), row@),
            decreases roots@.len() - j,
        {
            proof {
                assert(locs_view(roots@).take(j + 1).drop_last() =~= locs_view(roots@).take(j as int));
            }
            if j < row.len() && row[j] {
                let ghost old_existing = existing@;
                let c = clone_location(&roots[j]);
                existing.push(c);
                proof {
                    assert(locs_view(existing@) =~= locs_view(old_existing).push(loc_view(c)));
                }
            }
            j = j + 1;
        }
        proof {
            assert(locs_view(roots@).take(roots@.len() as int) =~= locs_view(roots@));
            assert(tv[i as int] == (label@, locs_view(roots@)));
            assert(tv.take(i + 1).drop_last() =~= tv.take(i as int));
        }
        let ghost old_out = out@;
        if existing.len() > 0 {
            out.push(FirefoxLikeSource::new(label, existing));
            proof {
                assert(sources_view(out@) =~= sources_view(old_out).push(
                    (label@, kept_roots(locs_view(roots@), row@)),
                ));
            }
        }
        i = i + 1;
    }
    proof {
        assert(tv.take(table@.len() as int) =~= tv);
    }
    out
}

fn clone_location(l: &Location) -> (r: Location)
    ensures
        loc_view(r) == loc_view(*l),
{
    let mut r: Vec<String> = Vec::new();
    let mut i: usize = 0;
    while i < l.len()
        invariant
            i <= l@.len(),
            loc_view(r) == loc_view(*l).take(i as int),
        decreases l@.len() - i,
    {
        let ghost old_r = r@;
        let c = l[i].clone();
        r.push(c);
        proof {
            assert(loc_view(r) =~= loc_view_of(old_r).push(c@));
            assert(loc_view(*l).take(i + 1) =~= loc_view(*l).take(i as int).push(l@[i as int]@));
        }
        i = i + 1;
    }
    proof {
        assert(loc_view(*l).take(l@.len() as int) =~= loc_view(*l));
    }
    r
}

/// Whether a profile directory is one of the usual default ones: its name
/// ends with `.default-release`, `.Default (release)` or `.default`, or
/// holds `Default`.
pub open spec fn is_priority_profile(name: Seq<char>) -> bool {
    has_suffix(name, ".default-release"@) || has_suffix(name, ".Default (release)"@) || has_suffix(name, ".default"@)
        || has_infix(name, "Default"@)
}

/// The positions of the directories among the first `n` entries whose
/// priority is `p`, in entry order.
pub open spec fn profiles_upto(es: Seq<DirEntry>, n: int, p: bool) -> Seq<usize>
    decreases n,
{
    if n <= 0 {
        seq![]
    } else {
        let prev = profiles_upto(es, n - 1, p);
        let e = es[n - 1];
        if e.is_dir && is_priority_profile(e.name@) == p {
            prev.push((n - 1) as usize)
        } else {
            prev
        }
    }
}

/// The profiles of a root in the order they are tried: the usual default
/// ones first, then the other directories, each group in entry order.
pub open spec fn enumerate_profiles_spec(es: Seq<DirEntry>) -> Seq<usize> {
    profiles_upto(es, es.len() as int, true) + profiles_upto(es, es.len() as int, false)
}

/// The profiles of a root, by position among its entries, in the order
/// they are tried.
pub fn enumerate_profiles(entries: &Vec<DirEntry>) -> (r: Vec<usize>)
    ensures
        r@ == enumerate_profiles_spec(entries@),
{
    let ghost es = entries@;
    let mut priority: Vec<usize> = Vec::new();
    let mut other: Vec<usize> = Vec::new();
    let mut i: usize = 0;
    while i < entries.len()
        invariant
            es == entries@,
            i <= es.len(),
            priority@ == profiles_upto(es, i as int, true),
            other@ == profiles_upto(es, i as int, false),
        decreases es.len() - i,
    {
        let e = &entries[i];
        if e.is_dir {
            let n = e.name.as_str();
            let prio = ends_with(n, ".default-release") || ends_with(n, ".Default (release)") || ends_with(
                n,
                ".default",
            ) || contains(n, "Default");
            if prio {
                priority.push(i);
            } else {
                other.push(i);
            }
        }
        i = i + 1;
    }
    let mut out = priority;
    let mut k: usize = 0;
    let ghost first = out@;
    while k < other.len()
        invariant
            k <= other@.len(),
            out@ == first + other@.take(k as int),
        decreases other@.len() - k,
    {
        out.push(other[k]);
        proof {
            assert(first + other@.take(k + 1) =~= (first + other@.take(k as int)).push(other@[k as int]));
        }
        k = k + 1;
    }
    proof {
        assert(other@.take(other@.len() as int) =~= other@);
    }
    out
}

/// The browser a label stands for: every fork reports itself as Firefox.
pub open spec fn kind_for_label_spec(label: Seq<char>) -> BrowserKind {
    BrowserKind::Firefox
}

/// The browser a label stands for.
pub fn kind_for_label(label: &str) -> (k: BrowserKind)
    ensures
        k == kind_for_label_spec(label@),
{
    BrowserKind::Firefox
}

/// The user agent Firefox 131 presents on the platform (the same for
/// every fork).
pub open spec fn firefox_user_agent_spec(platform: Platform) -> Seq<char> {
    let os = match platform {
        Platform::Windows => "Windows NT 10.0; Win64; x64; rv:131.0"@,
        Platform::MacOs => "Macintosh; Intel Mac OS X 10.15; rv:131.0"@,
        _ => "X11; Linux x86_64; rv:131.0"@,
    };
    "Mozilla/5.0 ("@ + os + ") Gecko/20100101 Firefox/131.0"@
}

/// The user agent a Firefox-like browser presents.
pub fn firefox_user_agent(label: &str, platform: Platform) -> (r: String)
    ensures
        r@ == firefox_user_agent_spec(platform),
{
    let os = match platform {
        Platform::Windows => "Windows NT 10.0; Win64; x64; rv:131.0",
        Platform::MacOs => "Macintosh; Intel Mac OS X 10.15; rv:131.0",
        _ => "X11; Linux x86_64; rv:131.0",
    };
    String::from_str("Mozilla/5.0 (").concat(os).concat(") Gecko/20100101 Firefox/131.0")
}

/// The session of a profile's Kagi cookie row (`name`, `value`): none
/// without a row or with an empty value.
pub fn session_from_row(label: &str, platform: Platform, row: Option<(String, String)>) -> (r: Option<Session>)
    ensures
        match row {
            Some((name, value)) if value@.len() > 0 => r matches Some(s) && s@ == (SessionV {
                auth: SessionAuthV::Cookie { name: name@, value: value@ },
                user_agent: firefox_user_agent_spec(platform),
                source: kind_for_label_spec(label@),
            }),
            _ => r is None,
        },
{
    match row {
        Some((name, value)) => {
            if value.as_str().is_empty() {
                None
            } else {
                Some(
                    Session {
                        auth: SessionAuth::Cookie { name, value },
                        user_agent: firefox_user_agent(label, platform),
                        source: kind_for_label(label),
                    },
                )
            }
        },
        None => None,
    }
}

/// The name of the temporary copy of a profile's `cookies.sqlite`.
pub fn temp_db_file(label: &str, profile: Option<&str>) -> (r: String)
    ensures
        r@ == temp_db_name_spec(
            label@,
            match profile {
                Some(n) => Some(n@),
                None => None,
            },
            "cookies.sqlite"@,
        ),
{
    temp_db_name(label, profile, "cookies.sqlite")
}

} // verus!