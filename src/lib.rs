//! Identity matching of anime entries across catalogs: a tool-calling agent
//! loop and a resumable runner of matching jobs.

pub mod enums;
pub mod agent;
pub mod api;
pub mod job;
pub mod runner;
pub mod anilist;
pub mod dump_anilist;
pub mod mapping_anilist;
pub mod mapping_anilist_to_bgm;
pub mod tool_submit;
pub mod tool_bgm_tv;
pub mod tool_tmdb;
pub mod import;
