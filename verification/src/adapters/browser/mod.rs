//! Where each browser keeps its Kagi session.
//!
//! Locations are given as component lists: the first component is one of
//! the user's base directories, the rest are joined under it. Whether a
//! location exists is asked of the caller through a closure.

pub mod chromium;
pub mod firefox;
pub mod safari;

use vstd::prelude::*;

use crate::domain::BrowserKind;
use chromium::{user_data_dir_spec, ChromiumSource};
use firefox::{all_firefox_like, answers_view, firefox_like_roots_spec, kept_sources, sources_view, FirefoxLikeSource};
use safari::SafariSource;

verus! {

/// The operating systems the browsers' layouts differ by.
#[derive(Debug, Clone, Copy, PartialEq, Eq, Structural)]
pub enum Platform {
    Windows,
    MacOs,
    Linux,
    /// Any other system: no browser location is known there.
    Other,
}

/// The user's base directories, as the `dirs` crate finds them.
pub struct BaseDirs {
    /// The home directory.
    pub home: Option<String>,
    /// The configuration directory (`~/.config`, `~/Library/Application
    /// Support`, `%APPDATA%`).
    pub config: Option<String>,
    /// The roaming data directory (`%APPDATA%` on Windows).
    pub data: Option<String>,
    /// The local data directory (`%LOCALAPPDATA%` on Windows).
    pub data_local: Option<String>,
}

/// A location: a base directory followed by the components under it.
pub type Location = Vec<String>;

/// The views of the components of a location.
pub open spec fn loc_view(l: Location) -> Seq<Seq<char>> {
    l@.map_values(|s: String| s@)
}

/// The location made of `base` and the components `parts`.
pub open spec fn loc(base: Seq<char>, parts: Seq<Seq<char>>) -> Seq<Seq<char>> {
    seq![base] + parts
}

/// Builds the location of `base` and `parts`.
pub fn make_location(base: &String, parts: &[&str]) -> (r: Location)
    ensures
        loc_view(r) == loc(base@, parts@.map_values(|p: &str| p@)),
{
    let mut r: Vec<String> = Vec::new();
    r.push(base.clone());
    let mut i: usize = 0;
    while i < parts.len()
        invariant
            i <= parts@.len(),
            loc_view(r) == loc(base@, parts@.take(i as int).map_values(|p: &str| p@)),
        decreases parts@.len() - i,
    {
        let ghost before = r@;
        r.push(String::from_str(parts[i]));
        proof {
            assert(parts@.take(i + 1).map_values(|p: &str| p@) =~= parts@.take(i as int).map_values(|p: &str| p@).push(
                parts@[i as int]@,
            ));
            assert(loc_view(r) =~= loc_view_of(before).push(parts@[i as int]@));
        }
        i = i + 1;
    }
    proof {
        assert(parts@.take(parts@.len() as int) =~= parts@);
    }
    r
}

/// The views of a sequence of strings.
pub open spec fn loc_view_of(s: Seq<String>) -> Seq<Seq<char>> {
    s.map_values(|x: String| x@)
}

/// The Chromium-family browsers, in the order they are probed.
pub open spec fn chromium_kinds_spec() -> Seq<BrowserKind> {
    seq![
        BrowserKind::Chrome,
        BrowserKind::Edge,
        BrowserKind::Brave,
        BrowserKind::Arc,
        BrowserKind::Vivaldi,
        BrowserKind::Opera,
        BrowserKind::OperaGx,
        BrowserKind::Chromium,
    ]
}

/// The Chromium-family browsers, in the order they are probed.
pub fn chromium_kinds() -> (r: Vec<BrowserKind>)
    ensures
        r@ == chromium_kinds_spec(),
{
    vec![
        BrowserKind::Chrome,
        BrowserKind::Edge,
        BrowserKind::Brave,
        BrowserKind::Arc,
        BrowserKind::Vivaldi,
        BrowserKind::Opera,
        BrowserKind::OperaGx,
        BrowserKind::Chromium,
    ]
}

/// What the caller found on disk: for each Chromium-family browser (in
/// the order of `chromium_kinds`) whether its user-data directory exists;
/// for each Firefox-like browser and each of its roots (in the order of
/// `firefox::firefox_like_roots`) whether the root exists.
pub struct Presence {
    pub chromium: Vec<bool>,
    pub firefox: Vec<Vec<bool>>,
}

/// A browser to probe.
pub enum SourceSpec {
    Chromium(ChromiumSource),
    FirefoxLike(FirefoxLikeSource),
    Safari(SafariSource),
}

/// The abstract view of a browser to probe.
pub enum SourceView {
    Chromium { kind: BrowserKind, dir: Seq<Seq<char>> },
    FirefoxLike { label: Seq<char>, roots: Seq<Seq<Seq<char>>> },
    Safari,
}

impl View for SourceSpec {
    type V = SourceView;

    open spec fn view(&self) -> SourceView {
        match self {
            SourceSpec::Chromium(c) => SourceView::Chromium { kind: c.kind_spec(), dir: c.dir_spec() },
            SourceSpec::FirefoxLike(f) => SourceView::FirefoxLike { label: f.label_spec(), roots: f.roots_spec() },
            SourceSpec::Safari(_) => SourceView::Safari,
        }
    }
}

/// The Chromium-family browsers among the first `n` kinds that have a
/// known and present user-data directory.
pub open spec fn present_chromium(platform: Platform, dirs: BaseDirs, present: Seq<bool>, n: int) -> Seq<SourceView>
    decreases n,
{
    if n <= 0 {
        seq![]
    } else {
        let prev = present_chromium(platform, dirs, present, n - 1);
        let kind = chromium_kinds_spec()[n - 1];
        match user_data_dir_spec(kind, platform, dirs) {
            Some(d) if n - 1 < present.len() && present[n - 1] => prev.push(SourceView::Chromium { kind, dir: d }),
            _ => prev,
        }
    }
}

/// The browsers to probe, in order: the present Chromium-family browsers,
/// then the present Firefox-like ones, then Safari on macOS.
pub open spec fn all_sources_spec(platform: Platform, dirs: BaseDirs, chromium: Seq<bool>, firefox: Seq<Seq<bool>>) -> Seq<
    SourceView,
> {
    let ff = kept_sources(firefox_like_roots_spec(platform, dirs), firefox).map_values(
        |e: (Seq<char>, Seq<Seq<Seq<char>>>)| SourceView::FirefoxLike { label: e.0, roots: e.1 },
    );
    let safari: Seq<SourceView> = if platform == Platform::MacOs {
        seq![SourceView::Safari]
    } else {
        seq![]
    };
    present_chromium(platform, dirs, chromium, 8) + ff + safari
}

/// The views of a list of browsers.
pub open spec fn specs_view(v: Seq<SourceSpec>) -> Seq<SourceView> {
    v.map_values(|s: SourceSpec| s@)
}

/// The browsers to probe on the platform, given what is present.
pub fn all_sources(platform: Platform, dirs: &BaseDirs, presence: &Presence) -> (r: Vec<SourceSpec>)
    ensures
        specs_view(r@) == all_sources_spec(platform, *dirs, presence.chromium@, answers_view(presence.firefox@)),
{
    let kinds = chromium_kinds();
    let mut out: Vec<SourceSpec> = Vec::new();
    let mut i: usize = 0;
    while i < kinds.len()
        invariant
            kinds@ == chromium_kinds_spec(),
            i <= 8,
            specs_view(out@) == present_chromium(platform, *dirs, presence.chromium@, i as int),
        decreases 8 - i,
    {
        let present = i < presence.chromium.len() && presence.chromium[i];
        let ghost before = out@;
        match ChromiumSource::for_kind(kinds[i], platform, dirs, present) {
            Some(src) => {
                out.push(SourceSpec::Chromium(src));
                proof {
                    assert(specs_view(out@) =~= specs_view(before).push(out@.last()@));
                }
            },
            None => {},
        }
        i = i + 1;
    }
    let ff = all_firefox_like(platform, dirs, &presence.firefox);
    let ghost ffv = sources_view(ff@);
    let ghost head = out@;
    let mut rest = ff;
    let n = rest.len();
    let mut j: usize = 0;
    while j < n
        invariant
            n == ffv.len(),
            j <= n,
            rest@.len() == n - j,
            forall|q: int| 0 <= q < rest@.len() ==> (#[trigger] rest@[q]).label_spec() == ffv[j + q].0
                && rest@[q].roots_spec() == ffv[j + q].1,
            specs_view(out@) == specs_view(head) + ffv.take(j as int).map_values(
                |e: (Seq<char>, Seq<Seq<Seq<char>>>)| SourceView::FirefoxLike { label: e.0, roots: e.1 },
            ),
        decreases n - j,
    {
        let ghost before = out@;
        let ghost old_rest = rest@;
        let f = rest.remove(0);
        proof {
            assert(f == old_rest[0]);
        }
        out.push(SourceSpec::FirefoxLike(f));
        proof {
            assert(specs_view(out@) =~= specs_view(before).push(SourceView::FirefoxLike { label: ffv[j as int].0, roots: ffv[j as int].1 }));
            assert(ffv.take(j + 1) =~= ffv.take(j as int).push(ffv[j as int]));
            assert forall|q: int| 0 <= q < rest@.len() implies (#[trigger] rest@[q]).label_spec() == ffv[j + 1 + q].0
                && rest@[q].roots_spec() == ffv[j + 1 + q].1 by {
                assert(rest@[q] == old_rest[q + 1]);
            }
        }
        j = j + 1;
    }
    proof {
        assert(ffv.take(n as int) =~= ffv);
    }
    if platform == Platform::MacOs {
        let ghost before = out@;
        out.push(SourceSpec::Safari(SafariSource::new()));
        proof {
            assert(specs_view(out@) =~= specs_view(before).push(SourceView::Safari));
        }
    }
    proof {
        let ffs = kept_sources(firefox_like_roots_spec(platform, *dirs), answers_view(presence.firefox@));
        assert(ffv == ffs);
    }
    out
}

} // verus!