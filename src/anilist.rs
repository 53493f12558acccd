use vstd::prelude::*;

verus! {

/// A calendar date as AniList gives it: any part may be unknown.
#[derive(Debug, Clone, Copy, PartialEq, Eq, Structural)]
pub struct AniListDate {
    pub year: Option<i32>,
    pub month: Option<i32>,
    pub day: Option<i32>,
}

#[derive(Debug)]
pub struct AniListTitle {
    pub english: Option<String>,
    pub native: Option<String>,
    pub romaji: Option<String>,
}

/// One media entry of an AniList listing.
#[derive(Debug)]
pub struct AniListMedia {
    pub id: i32,
    pub media_type: String,
    pub season: Option<String>,
    pub season_year: Option<i32>,
    pub title: AniListTitle,
    pub start_date: AniListDate,
}

#[derive(Debug)]
pub struct AniListMediaListItem {
    pub media: AniListMedia,
}

#[derive(Debug, Clone, Copy, PartialEq, Eq, Structural)]
pub struct PageInfo {
    pub total: Option<i32>,
    pub per_page: i32,
    pub current_page: i32,
    pub last_page: i32,
    pub has_next_page: bool,
}

#[derive(Debug)]
pub struct AniListPage {
    pub page_info: PageInfo,
    pub media: Vec<AniListMedia>,
}

#[derive(Debug)]
pub struct AniListData {
    pub page: AniListPage,
}

#[derive(Debug)]
pub struct AniListResponse {
    pub data: AniListData,
}

#[derive(Debug)]
pub struct CoverImage {
    pub large: Option<String>,
    pub medium: Option<String>,
    pub color: Option<String>,
}

#[derive(Debug)]
pub struct Tag {
    pub id: i32,
    pub name: String,
    pub category: String,
    pub rank: i32,
}

#[derive(Debug)]
pub struct Studio {
    pub id: i32,
    pub name: String,
    pub is_animation_studio: bool,
}

#[derive(Debug)]
pub struct Studios {
    pub nodes: Vec<Studio>,
}

/// The full record of one media entry.
#[derive(Debug)]
pub struct AniListMediaDetail {
    pub id: i32,
    pub title: AniListTitle,
    pub description: Option<String>,
    pub cover_image: CoverImage,
    pub banner_image: Option<String>,
    pub season: Option<String>,
    pub season_year: Option<i32>,
    pub format: Option<String>,
    pub status: Option<String>,
    pub episodes: Option<i32>,
    pub duration: Option<i32>,
    pub genres: Vec<String>,
    pub tags: Vec<Tag>,
    pub average_score: Option<i32>,
    pub mean_score: Option<i32>,
    pub popularity: Option<i32>,
    pub studios: Studios,
    pub start_date: AniListDate,
    pub end_date: AniListDate,
    pub source: Option<String>,
}

} // verus!
