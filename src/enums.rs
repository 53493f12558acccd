use vstd::prelude::*;

verus! {

/// Where a mapping stands in its review.
#[derive(Debug, Clone, Copy, PartialEq, Eq, Structural)]
pub enum ReviewStatus {
    UnMatched,
    Ready,
    Accepted,
    Rejected,
    Dropped,
}

/// The external catalogs that an entry is matched against.
#[derive(Debug, Clone, Copy, PartialEq, Eq, Structural)]
pub enum Platform {
    BgmTv,
    Tmdb,
}

/// The kind of a media entry.
#[derive(Debug, Clone, Copy, PartialEq, Eq, Structural)]
pub enum MediaType {
    Movie,
    OVA,
    ONA,
    Special,
    TV,
    Unknown,
}

/// The kinds of background matching work.
#[derive(Debug, Clone, Copy, PartialEq, Eq, Structural)]
pub enum JobType {
    MappingBgm,
    MappingTmdb,
}

impl Platform {
    /// Whether matches on this platform carry a season number worth storing.
    pub open spec fn spec_has_seasons(self) -> bool {
        self == Platform::Tmdb
    }

    pub fn has_seasons(&self) -> (r: bool)
        ensures
            r == self.spec_has_seasons(),
    {
        match self {
            Platform::Tmdb => true,
            Platform::BgmTv => false,
        }
    }
}

} // verus!
