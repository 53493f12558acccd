use anime_matcher::anilist::{AniListDate, AniListMedia, AniListTitle};
use anime_matcher::api::Resp;
use anime_matcher::dump_anilist::DumpedMediaList;
use anime_matcher::enums::MediaType;
use anime_matcher::import::{map_media_type, media_type_from_lower};
use anime_matcher::mapping_anilist::{AnimeMappings, Input};
use anime_matcher::mapping_anilist_to_bgm::AnimeMappings as BgmMappings;
use anime_matcher::tool_bgm_tv::{retain_title_items, InfoboxItem, InfoboxValue};
use anime_matcher::tool_submit::{SubmitArgs, SubmitTool};
use anime_matcher::tool_tmdb::pick_episode_group;

fn media(id: i32, native: &str) -> AniListMedia {
    AniListMedia {
        id,
        media_type: "ANIME".to_string(),
        season: Some("spring".to_string()),
        season_year: Some(2024),
        title: AniListTitle { english: None, native: Some(native.to_string()), romaji: Some("romaji".to_string()) },
        start_date: AniListDate { year: Some(2024), month: Some(4), day: None },
    }
}

#[test]
fn mappings_merge_given_fields() {
    let mut m = AnimeMappings::new();
    assert_eq!(m.pending_platforms(1), (true, true));
    m.add_mapping(1, Some(10), None, None);
    assert_eq!(m.pending_platforms(1), (false, true));
    m.add_mapping(1, None, Some(20), Some(2));
    let got = m.get_mapping(1).unwrap();
    assert_eq!((got.bgm_id, got.tmdb_id, got.tmdb_season), (Some(10), Some(20), Some(2)));
    assert_eq!(m.pending_platforms(1), (false, false));
    m.add_mapping(2, Some(0), None, None);
    assert_eq!(m.pending_platforms(2), (true, true));
    assert!(m.get_mapping(3).is_none());
}

#[test]
fn bgm_mappings_replace() {
    let mut m = BgmMappings::new();
    assert!(m.is_pending(1));
    m.add_mapping(1, Some(5));
    m.add_mapping(1, None);
    assert_eq!(m.get_mapping(1).unwrap().bgm_id, None);
    assert!(!m.is_pending(1));
}

#[test]
fn input_from_media() {
    let i = Input::from_media(&media(3, "ネイティブ"));
    assert_eq!(i.native_title.as_deref(), Some("ネイティブ"));
    assert_eq!(i.romaji_title.as_deref(), Some("romaji"));
    assert_eq!(i.english_title, None);
    assert_eq!((i.year, i.month, i.day), (Some(2024), Some(4), None));
}

#[test]
fn dumped_list_keeps_ids_unique() {
    let mut d = DumpedMediaList::new();
    d.add_media(media(1, "a"));
    d.add_media(media(2, "b"));
    d.add_media(media(1, "c"));
    assert_eq!(d.media_list.len(), 2);
    assert_eq!(d.media_list[0].title.native.as_deref(), Some("a"));
    assert!(d.set.contains(&2));
}

#[test]
fn media_types_in_any_case() {
    assert_eq!(map_media_type("TV"), MediaType::TV);
    assert_eq!(map_media_type("Movie"), MediaType::Movie);
    assert_eq!(map_media_type("OVA"), MediaType::OVA);
    assert_eq!(map_media_type("ona"), MediaType::ONA);
    assert_eq!(map_media_type("SPECIAL"), MediaType::Special);
    assert_eq!(map_media_type("music"), MediaType::Unknown);
    assert_eq!(media_type_from_lower(&"tv".to_string()), MediaType::TV);
    assert_eq!(media_type_from_lower(&"TV".to_string()), MediaType::Unknown);
}

#[test]
fn infobox_keeps_naming_keys_in_order() {
    let mut items = vec![
        InfoboxItem { key: "中文名".to_string(), value: InfoboxValue::String("甲".to_string()) },
        InfoboxItem { key: "话数".to_string(), value: InfoboxValue::String("12".to_string()) },
        InfoboxItem { key: "英文名".to_string(), value: InfoboxValue::empty() },
        InfoboxItem { key: "别名".to_string(), value: InfoboxValue::Array(vec![]) },
    ];
    retain_title_items(&mut items);
    let keys: Vec<&str> = items.iter().map(|i| i.key.as_str()).collect();
    assert_eq!(keys, vec!["中文名", "英文名", "别名"]);
}

#[test]
fn episode_group_choice() {
    assert_eq!(pick_episode_group(&vec![1, 6, 2, 6, 3]), Some(3));
    assert_eq!(pick_episode_group(&vec![2, 3]), Some(0));
    assert_eq!(pick_episode_group(&vec![]), None);
}

#[test]
fn submit_and_envelopes() {
    let tool = SubmitTool::new();
    assert_eq!(tool.name(), "submit");
    let args = SubmitArgs { id: Some(1), name: Some("n".to_string()), season: None, confidence_score: Some(80) };
    assert!(tool.call(SubmitArgs { id: None, name: None, season: None, confidence_score: None }).is_ok());
    let r = args.into_result();
    assert_eq!((r.id, r.confidence_score), (Some(1), Some(80)));
    let ok = Resp::ok(Some(5));
    assert_eq!((ok.code, ok.msg, ok.data), (0, None, Some(5)));
    let err: Resp<i32> = Resp::err(Some("bad".to_string()));
    assert_eq!((err.code, err.msg.as_deref(), err.data), (1, Some("bad"), None));
}
