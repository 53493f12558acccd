use std::collections::HashMap;

use vstd::prelude::*;

use crate::anilist::AniListMedia;

verus! {

broadcast use vstd::std_specs::hash::group_hash_axioms;

/// The ids found for one AniList entry on each catalog.
#[derive(Debug, Clone, Copy, PartialEq, Eq, Structural)]
pub struct MappingItem {
    pub anilist_id: i32,
    pub bgm_id: Option<i32>,
    pub tmdb_id: Option<i32>,
    pub tmdb_season: Option<i32>,
}

/// The mappings of one year, by AniList id.
#[derive(Debug)]
pub struct AnimeMappings {
    pub mappings: HashMap<i32, MappingItem>,
}

/// `new` where it is present, else `old`.
pub open spec fn or_keep(new: Option<i32>, old: Option<i32>) -> Option<i32> {
    if new is Some {
        new
    } else {
        old
    }
}

/// The entry after a mapping is added: the fields given replace those stored,
/// the others stay.
pub open spec fn merged(
    existing: Option<MappingItem>,
    anilist_id: i32,
    bgm_id: Option<i32>,
    tmdb_id: Option<i32>,
    tmdb_season: Option<i32>,
) -> MappingItem {
    match existing {
        Some(m) => MappingItem {
            anilist_id: m.anilist_id,
            bgm_id: or_keep(bgm_id, m.bgm_id),
            tmdb_id: or_keep(tmdb_id, m.tmdb_id),
            tmdb_season: or_keep(tmdb_season, m.tmdb_season),
        },
        None => MappingItem { anilist_id, bgm_id, tmdb_id, tmdb_season },
    }
}

/// An id counts as found when it is present and not 0.
pub open spec fn found(id: Option<i32>) -> bool {
    id is Some && id->Some_0 != 0
}

impl AnimeMappings {
    pub fn new() -> (r: Self)
        ensures
            r.mappings@ == Map::<i32, MappingItem>::empty(),
    {
        AnimeMappings { mappings: HashMap::new() }
    }

    /// Records the ids found for `anilist_id`, keeping what was stored before
    /// for every id given as `None`.
    pub fn add_mapping(
        &mut self,
        anilist_id: i32,
        bgm_id: Option<i32>,
        tmdb_id: Option<i32>,
        tmdb_season: Option<i32>,
    )
        ensures
            final(self).mappings@ == old(self).mappings@.insert(
                anilist_id,
                merged(
                    if old(self).mappings@.contains_key(anilist_id) {
                        Some(old(self).mappings@[anilist_id])
                    } else {
                        None
                    },
                    anilist_id,
                    bgm_id,
                    tmdb_id,
                    tmdb_season,
                ),
            ),
    {
        let item = match self.mappings.get(&anilist_id) {
            Some(m) => MappingItem {
                anilist_id: m.anilist_id,
                bgm_id: if bgm_id.is_some() { bgm_id } else { m.bgm_id },
                tmdb_id: if tmdb_id.is_some() { tmdb_id } else { m.tmdb_id },
                tmdb_season: if tmdb_season.is_some() { tmdb_season } else { m.tmdb_season },
            },
            None => MappingItem { anilist_id, bgm_id, tmdb_id, tmdb_season },
        };
        self.mappings.insert(anilist_id, item);
    }

    pub fn get_mapping(&self, anilist_id: i32) -> (r: Option<&MappingItem>)
        ensures
            match r {
                Some(m) => self.mappings@.contains_key(anilist_id) && *m == self.mappings@[anilist_id],
                None => !self.mappings@.contains_key(anilist_id),
            },
    {
        self.mappings.get(&anilist_id)
    }

    /// Which catalogs `anilist_id` still has to be matched on: (Bangumi, TMDB).
    /// A catalog whose id was found already is skipped.
    pub fn pending_platforms(&self, anilist_id: i32) -> (r: (bool, bool))
        ensures
            r == if self.mappings@.contains_key(anilist_id) {
                (
                    !found(self.mappings@[anilist_id].bgm_id),
                    !found(self.mappings@[anilist_id].tmdb_id),
                )
            } else {
                (true, true)
            },
    {
        match self.get_mapping(anilist_id) {
            Some(m) => {
                let bgm = match m.bgm_id {
                    Some(id) => id == 0,
                    None => true,
                };
                let tmdb = match m.tmdb_id {
                    Some(id) => id == 0,
                    None => true,
                };
                (bgm, tmdb)
            },
            None => (true, true),
        }
    }
}

/// What the agent is asked to match: the titles and start date of an entry.
#[derive(Debug)]
pub struct Input {
    pub native_title: Option<String>,
    pub romaji_title: Option<String>,
    pub english_title: Option<String>,
    pub year: Option<i32>,
    pub month: Option<i32>,
    pub day: Option<i32>,
}

pub open spec fn opt_view(s: Option<String>) -> Option<Seq<char>> {
    match s {
        Some(v) => Some(v@),
        None => None,
    }
}

fn copy_opt(s: &Option<String>) -> (r: Option<String>)
    ensures
        opt_view(r) == opt_view(*s),
{
    match s {
        Some(v) => Some(v.clone()),
        None => None,
    }
}

impl Input {
    /// The query for one media entry: its three titles and its start date.
    pub fn from_media(media: &AniListMedia) -> (r: Input)
        ensures
            opt_view(r.native_title) == opt_view(media.title.native),
            opt_view(r.romaji_title) == opt_view(media.title.romaji),
            opt_view(r.english_title) == opt_view(media.title.english),
            r.year == media.start_date.year,
            r.month == media.start_date.month,
            r.day == media.start_date.day,
    {
        Input {
            native_title: copy_opt(&media.title.native),
            romaji_title: copy_opt(&media.title.romaji),
            english_title: copy_opt(&media.title.english),
            year: media.start_date.year,
            month: media.start_date.month,
            day: media.start_date.day,
        }
    }
}

} // verus!
