use anime_matcher::agent::MatchResult;
use anime_matcher::api::Mapping;
use anime_matcher::enums::{MediaType, Platform, ReviewStatus};
use anime_matcher::job::{
    plan_updates, select_unmatched, ItemOutcome, JobError, JobStatus, Launch, MappingBgmJobRunner,
    RunTicket, WorkItem,
};

fn item(id: i32, titles: &str) -> WorkItem {
    WorkItem {
        anilist_id: id,
        media_type: MediaType::TV,
        titles: titles.to_string(),
        year: 2024,
        start_date: Some("2024-01-01".to_string()),
        episode_number: Some(12),
    }
}

fn mapping(platform: Platform, status: ReviewStatus) -> Mapping {
    Mapping { id: None, review_status: status, platform, score: 0 }
}

fn unmatched_records(ids: &[i32]) -> Vec<(WorkItem, Vec<Mapping>)> {
    ids.iter()
        .map(|id| {
            (
                item(*id, &format!("title {}", id)),
                vec![mapping(Platform::BgmTv, ReviewStatus::UnMatched)],
            )
        })
        .collect()
}

fn matched(id: i32) -> MatchResult {
    MatchResult { id: Some(id), name: Some("name".to_string()), season: None, confidence_score: Some(90) }
}

fn not_found() -> MatchResult {
    MatchResult { id: None, name: None, season: None, confidence_score: None }
}

fn spawn_ticket(l: Launch) -> RunTicket {
    match l {
        Launch::Spawn(t) => t,
        other => panic!("expected a new execution, got {:?}", other),
    }
}

fn details(r: &MappingBgmJobRunner) -> (JobStatus, usize, usize, usize, usize) {
    let jobs = r.list_jobs();
    assert_eq!(jobs.len(), 1);
    let d = &jobs[0];
    (d.status, d.current_index, d.num_processed, d.num_matched, d.num_failed)
}

#[test]
fn pause_and_resume_scenario() {
    let mut r = MappingBgmJobRunner::new();
    r.create_job(Platform::BgmTv, 2024, "openai".to_string(), "gpt-4o".to_string(), &unmatched_records(&[1, 2, 3]))
        .unwrap();
    assert_eq!(details(&r), (JobStatus::Created, 0, 0, 0, 0));

    let t = spawn_ticket(r.run(Platform::BgmTv, 2024));
    let (i, a) = r.next_item(t).unwrap();
    assert_eq!((i, a.anilist_id), (0, 1));
    let plan = plan_updates(Platform::BgmTv, &a, &matched(42));
    assert_eq!(plan.mapping.unwrap().platform_id, 42);
    assert!(r.record_outcome(t, i, plan.outcome(true)));
    assert_eq!(details(&r), (JobStatus::Running, 1, 1, 1, 0));

    assert!(r.pause_job(Platform::BgmTv, 2024));
    assert!(r.next_item(t).is_none());
    assert_eq!(details(&r), (JobStatus::Paused, 1, 1, 1, 0));

    let t2 = spawn_ticket(r.resume_job(Platform::BgmTv, 2024));
    let (i, b) = r.next_item(t2).unwrap();
    assert_eq!((i, b.anilist_id), (1, 2));
    let plan = plan_updates(Platform::BgmTv, &b, &not_found());
    assert!(r.record_outcome(t2, i, plan.outcome(true)));
    assert_eq!(details(&r), (JobStatus::Running, 2, 2, 1, 1));

    let (i, c) = r.next_item(t2).unwrap();
    assert_eq!((i, c.anilist_id), (2, 3));
    let plan = plan_updates(Platform::BgmTv, &c, &matched(7));
    assert!(r.record_outcome(t2, i, plan.outcome(true)));
    assert_eq!(details(&r), (JobStatus::Completed, 3, 3, 2, 1));
    assert!(r.next_item(t2).is_none());
}

#[test]
fn run_completes_every_item() {
    let mut r = MappingBgmJobRunner::new();
    r.create_job(Platform::Tmdb, 2023, "xai".to_string(), "grok".to_string(), &{
        let mut v = unmatched_records(&[]);
        v.push((item(5, "a"), vec![mapping(Platform::Tmdb, ReviewStatus::UnMatched)]));
        v.push((item(6, "b"), vec![mapping(Platform::Tmdb, ReviewStatus::UnMatched)]));
        v
    })
    .unwrap();
    let t = spawn_ticket(r.run(Platform::Tmdb, 2023));
    let mut seen = Vec::new();
    while let Some((i, w)) = r.next_item(t) {
        seen.push(w.anilist_id);
        let outcome = if i == 0 { ItemOutcome::Matched } else { ItemOutcome::NotMatched };
        assert!(r.record_outcome(t, i, outcome));
    }
    assert_eq!(seen, vec![5, 6]);
    let (status, index, processed, matched, failed) = details(&r);
    assert_eq!(status, JobStatus::Completed);
    assert_eq!((index, processed, matched + failed), (2, 2, 2));
}

#[test]
fn empty_job_completes_at_once() {
    let mut r = MappingBgmJobRunner::new();
    r.create_job(Platform::BgmTv, 2020, "xai".to_string(), "m".to_string(), &Vec::new()).unwrap();
    let t = spawn_ticket(r.run(Platform::BgmTv, 2020));
    assert!(r.next_item(t).is_none());
    assert_eq!(details(&r), (JobStatus::Completed, 0, 0, 0, 0));
}

#[test]
fn only_unmatched_entries_of_the_platform_are_selected() {
    let records = vec![
        (item(1, "a"), vec![mapping(Platform::BgmTv, ReviewStatus::Ready), mapping(Platform::Tmdb, ReviewStatus::UnMatched)]),
        (item(2, "b"), vec![mapping(Platform::Tmdb, ReviewStatus::Accepted), mapping(Platform::BgmTv, ReviewStatus::UnMatched)]),
        (item(3, "c"), vec![]),
    ];
    let ids: Vec<i32> = select_unmatched(&records, Platform::BgmTv).iter().map(|w| w.anilist_id).collect();
    assert_eq!(ids, vec![2]);
    let ids: Vec<i32> = select_unmatched(&records, Platform::Tmdb).iter().map(|w| w.anilist_id).collect();
    assert_eq!(ids, vec![1]);
}

#[test]
fn duplicate_create_is_refused_without_change() {
    let mut r = MappingBgmJobRunner::new();
    r.create_job(Platform::BgmTv, 2024, "openai".to_string(), "a".to_string(), &unmatched_records(&[1, 2]))
        .unwrap();
    let t = spawn_ticket(r.run(Platform::BgmTv, 2024));
    let (i, _) = r.next_item(t).unwrap();
    assert!(r.record_outcome(t, i, ItemOutcome::Matched));
    let before = details(&r);
    let again = r.create_job(Platform::BgmTv, 2024, "xai".to_string(), "b".to_string(), &unmatched_records(&[9]));
    assert_eq!(again, Err(JobError::AlreadyExists));
    assert_eq!(details(&r), before);
    let jobs = r.list_jobs();
    assert_eq!(jobs[0].provider, "openai");
    assert_eq!(jobs[0].num_animes_to_match, 2);
    assert!(jobs[0].job_start_time > 0);
    // Another year is another job.
    assert_eq!(
        r.create_job(Platform::BgmTv, 2025, "xai".to_string(), "b".to_string(), &unmatched_records(&[9])),
        Ok(())
    );
    assert_eq!(r.list_jobs().len(), 2);
}

#[test]
fn removed_job_is_invisible_and_its_execution_stops() {
    let mut r = MappingBgmJobRunner::new();
    r.create_job(Platform::BgmTv, 2024, "openai".to_string(), "a".to_string(), &unmatched_records(&[1, 2]))
        .unwrap();
    let t = spawn_ticket(r.run(Platform::BgmTv, 2024));
    let (i, _) = r.next_item(t).unwrap();
    assert!(r.remove_job(Platform::BgmTv, 2024));
    assert!(r.list_jobs().is_empty());
    assert!(!r.record_outcome(t, i, ItemOutcome::Matched));
    assert!(r.next_item(t).is_none());
    assert!(!r.remove_job(Platform::BgmTv, 2024));
    // A new job under the same key is not touched by the old execution.
    r.create_job(Platform::BgmTv, 2024, "openai".to_string(), "a".to_string(), &unmatched_records(&[1]))
        .unwrap();
    assert!(!r.record_outcome(t, 0, ItemOutcome::Matched));
    assert!(r.next_item(t).is_none());
    assert_eq!(details(&r), (JobStatus::Created, 0, 0, 0, 0));
}

#[test]
fn run_and_resume_are_idempotent() {
    let mut r = MappingBgmJobRunner::new();
    r.create_job(Platform::BgmTv, 2024, "openai".to_string(), "a".to_string(), &unmatched_records(&[1, 2]))
        .unwrap();
    let t = spawn_ticket(r.run(Platform::BgmTv, 2024));
    assert_eq!(r.run(Platform::BgmTv, 2024), Launch::Unchanged);
    assert_eq!(r.resume_job(Platform::BgmTv, 2024), Launch::Unchanged);
    assert_eq!(r.run(Platform::Tmdb, 2024), Launch::Unchanged);
    // Paused mid-item and resumed before the boundary: the same execution goes on.
    let (i, _) = r.next_item(t).unwrap();
    assert!(r.pause_job(Platform::BgmTv, 2024));
    assert!(!r.pause_job(Platform::BgmTv, 2024));
    assert_eq!(r.resume_job(Platform::BgmTv, 2024), Launch::Attached);
    assert!(r.record_outcome(t, i, ItemOutcome::NotMatched));
    // An item is recorded once only.
    assert!(!r.record_outcome(t, i, ItemOutcome::NotMatched));
    assert_eq!(details(&r), (JobStatus::Running, 1, 1, 0, 1));
}

#[test]
fn failed_store_fails_the_job() {
    let mut r = MappingBgmJobRunner::new();
    r.create_job(Platform::BgmTv, 2024, "openai".to_string(), "a".to_string(), &unmatched_records(&[1, 2]))
        .unwrap();
    let t = spawn_ticket(r.run(Platform::BgmTv, 2024));
    let (i, _) = r.next_item(t).unwrap();
    assert!(r.record_outcome(t, i, ItemOutcome::PersistFailed));
    assert!(r.next_item(t).is_none());
    assert_eq!(details(&r), (JobStatus::Failed, 1, 1, 0, 1));
    // The operator may run it again from where it stopped.
    let t2 = spawn_ticket(r.run(Platform::BgmTv, 2024));
    assert_eq!(r.next_item(t2).unwrap().0, 1);
}

#[test]
fn plan_stores_score_and_season() {
    let w = item(11, "x");
    let res = MatchResult { id: Some(99), name: None, season: Some(2), confidence_score: Some(85) };
    let plan = plan_updates(Platform::Tmdb, &w, &res);
    let m = plan.mapping.unwrap();
    assert_eq!((m.anilist_id, m.platform_id, m.score), (11, 99, 85));
    assert_eq!(plan.season.unwrap().season, 2);
    assert!(plan_updates(Platform::BgmTv, &w, &res).season.is_none());
    let res = MatchResult { id: Some(99), name: None, season: Some(0), confidence_score: None };
    let plan = plan_updates(Platform::Tmdb, &w, &res);
    assert!(plan.season.is_none());
    assert_eq!(plan.mapping.unwrap().score, 0);
    let res = MatchResult { id: Some(1), name: None, season: None, confidence_score: Some(300) };
    assert_eq!(plan_updates(Platform::Tmdb, &w, &res).mapping.unwrap().score, 44);
    let plan = plan_updates(Platform::Tmdb, &w, &not_found());
    assert!(plan.mapping.is_none() && plan.season.is_none());
    assert_eq!(plan.outcome(true), ItemOutcome::NotMatched);
    assert_eq!(plan_updates(Platform::Tmdb, &w, &matched(3)).outcome(false), ItemOutcome::PersistFailed);
}
