//! The verticals of Kagi search.

use vstd::prelude::*;

verus! {

/// Kagi's specialised search verticals.
#[derive(Debug, Clone, Copy, PartialEq, Eq, Structural)]
pub enum KagiVertical {
    News,
    Images,
    Videos,
    Podcasts,
}

impl KagiVertical {
    /// The URL path of the vertical.
    pub open spec fn path_spec(self) -> Seq<char> {
        match self {
            KagiVertical::News => "/news"@,
            KagiVertical::Images => "/images"@,
            KagiVertical::Videos => "/videos"@,
            KagiVertical::Podcasts => "/podcasts"@,
        }
    }

    /// The URL path of the vertical.
    pub fn path(self) -> (r: &'static str)
        ensures
            r@ == self.path_spec(),
    {
        match self {
            KagiVertical::News => "/news",
            KagiVertical::Images => "/images",
            KagiVertical::Videos => "/videos",
            KagiVertical::Podcasts => "/podcasts",
        }
    }

    /// The name of the vertical, which is also its stream tag.
    pub open spec fn name_spec(self) -> Seq<char> {
        match self {
            KagiVertical::News => "news"@,
            KagiVertical::Images => "images"@,
            KagiVertical::Videos => "videos"@,
            KagiVertical::Podcasts => "podcasts"@,
        }
    }

    /// The name of the vertical.
    pub fn name(self) -> (r: &'static str)
        ensures
            r@ == self.name_spec(),
    {
        match self {
            KagiVertical::News => "news",
            KagiVertical::Images => "images",
            KagiVertical::Videos => "videos",
            KagiVertical::Podcasts => "podcasts",
        }
    }
}

} // verus!
