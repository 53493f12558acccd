use vstd::prelude::*;

use crate::enums::{Platform, ReviewStatus};

verus! {

/// The envelope of every answer of the control surface: `code` 0 with data on
/// success, `code` 1 with a message on failure.
#[derive(Debug)]
pub struct Resp<T> {
    pub code: i32,
    pub msg: Option<String>,
    pub data: Option<T>,
}

impl<T> Resp<T> {
    pub fn ok(data: Option<T>) -> (r: Self)
        ensures
            r.code == 0,
            r.msg is None,
            r.data == data,
    {
        Resp { code: 0, msg: None, data }
    }

    pub fn err(msg: Option<String>) -> (r: Self)
        ensures
            r.code == 1,
            r.msg == msg,
            r.data is None,
    {
        Resp { code: 1, msg, data: None }
    }
}

/// A page of a listing: `page` counts from 1.
#[derive(Debug)]
pub struct PageQuery {
    pub page: usize,
    pub page_size: usize,
}

/// A query over stored entries, by year and by review status.
#[derive(Debug)]
pub struct QueryAnimes {
    pub query: PageQuery,
    pub year: Option<i32>,
    pub status: Option<ReviewStatus>,
}

#[derive(Debug)]
pub struct Pagination<T> {
    pub page: usize,
    pub page_size: usize,
    pub total: usize,
    pub data: Vec<T>,
}

/// The mapping of one entry to one platform.
#[derive(Debug)]
pub struct Mapping {
    pub id: Option<String>,
    pub review_status: ReviewStatus,
    pub platform: Platform,
    pub score: u8,
}

#[derive(Debug)]
pub struct Anime {
    pub anilist_id: i32,
    pub titles: Vec<String>,
    pub year: i32,
    pub mappings: Vec<Mapping>,
}

#[derive(Debug)]
pub struct CompactMapping {
    pub id: Option<String>,
    pub platform: Platform,
}

#[derive(Debug)]
pub struct CompactAnime {
    pub anilist_id: i32,
    pub titles: Vec<String>,
    pub year: i32,
    pub start_date: Option<String>,
    pub season_number: Option<i32>,
    pub mappings: Vec<CompactMapping>,
}

#[derive(Debug)]
pub struct ManualMappingRequest {
    pub anilist_id: i32,
    pub platform: Platform,
    pub platform_id: String,
    pub season_number: Option<i32>,
}

#[derive(Debug)]
pub struct Summary {
    pub total_animes: usize,
    pub total_tmdb_matched: usize,
    pub total_tmdb_unmatched: usize,
    pub total_tmdb_dropped: usize,
    pub total_bgmtv_matched: usize,
    pub total_bgmtv_unmatched: usize,
    pub total_bgmtv_dropped: usize,
}

/// The counts of one year.
#[derive(Debug)]
pub struct YearStatistic {
    pub year: i32,
    pub total_animes: usize,
    pub tmdb_matched: usize,
    pub tmdb_unmatched: usize,
    pub tmdb_dropped: usize,
    pub bgmtv_matched: usize,
    pub bgmtv_unmatched: usize,
    pub bgmtv_dropped: usize,
}

/// The counts of every year.
#[derive(Debug)]
pub struct YearStatistics {
    pub statistics: Vec<YearStatistic>,
}

} // verus!
