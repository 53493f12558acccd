use vstd::prelude::*;

use crate::enums::MediaType;

verus! {

/// The ids that an entry of an import file has on other catalogs.
#[derive(Debug)]
pub struct AnimeJsonMapping {
    pub animeplanet_id: Option<String>,
    pub kitsu_id: Option<u32>,
    pub mal_id: Option<u32>,
    pub anilist_id: Option<i32>,
    pub anisearch_id: Option<u32>,
    pub anidb_id: Option<u32>,
    pub notifymoe_id: Option<String>,
    pub livechart_id: Option<u32>,
    pub thetvdb_id: Option<u32>,
    pub imdb_id: Option<String>,
    pub themoviedb_id: Option<String>,
}

/// One entry of an import file.
#[derive(Debug)]
pub struct AnimeObject {
    pub anilist_id: i32,
    pub bgm_id: Option<u32>,
    pub titles: Vec<String>,
    pub year: i32,
    pub season: Option<String>,
    pub start_date: Option<String>,
    pub episode_count: Option<i32>,
    pub season_number: Option<i32>,
    pub episode_number: Option<i32>,
    pub absolute_episode_number: Option<i32>,
    pub media_type: Option<String>,
    pub mappings: AnimeJsonMapping,
}

/// What `str::to_lowercase` returns for a string.
pub uninterp spec fn lower_of(s: Seq<char>) -> Seq<char>;

/// Relies on `str::to_lowercase`: its result depends on the characters alone.
#[verifier::external_body]
fn lowercase(s: &str) -> (r: String)
    ensures
        r@ == lower_of(s@),
{
    s.to_lowercase()
}

/// The media type that a lower-case type name stands for.
pub open spec fn media_type_of(lower: Seq<char>) -> MediaType {
    if lower == "tv"@ {
        MediaType::TV
    } else if lower == "movie"@ {
        MediaType::Movie
    } else if lower == "ova"@ {
        MediaType::OVA
    } else if lower == "ona"@ {
        MediaType::ONA
    } else if lower == "special"@ {
        MediaType::Special
    } else {
        MediaType::Unknown
    }
}

/// The media type that an already lower-cased name stands for; `Unknown` for
/// any other name.
pub fn media_type_from_lower(lower: &String) -> (r: MediaType)
    ensures
        r == media_type_of(lower@),
{
    if *lower == String::from_str("tv") {
        MediaType::TV
    } else if *lower == String::from_str("movie") {
        MediaType::Movie
    } else if *lower == String::from_str("ova") {
        MediaType::OVA
    } else if *lower == String::from_str("ona") {
        MediaType::ONA
    } else if *lower == String::from_str("special") {
        MediaType::Special
    } else {
        MediaType::Unknown
    }
}

/// The media type a type name stands for, in any letter case.
pub fn map_media_type(media_type: &str) -> (r: MediaType)
    ensures
        r == media_type_of(lower_of(media_type@)),
{
    let lower = lowercase(media_type);
    media_type_from_lower(&lower)
}

impl AnimeObject {
    /// The media type of the entry; `Unknown` when it names none.
    pub fn media_type(&self) -> (r: MediaType)
        ensures
            r == match self.media_type {
                Some(t) => media_type_of(lower_of(t@)),
                None => MediaType::Unknown,
            },
    {
        match &self.media_type {
            Some(t) => map_media_type(t.as_str()),
            None => MediaType::Unknown,
        }
    }
}

} // verus!
