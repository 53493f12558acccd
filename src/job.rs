use vstd::prelude::*;

use crate::agent::MatchResult;
use crate::api::Mapping;
use crate::enums::{MediaType, Platform, ReviewStatus};

verus! {

/// Where a job stands in its lifecycle.
#[derive(Debug, Clone, Copy, PartialEq, Eq, Structural)]
pub enum JobStatus {
    Created,
    Running,
    Paused,
    Completed,
    Failed,
}

/// A snapshot, taken when the job is created, of one entry to be matched.
pub struct WorkItem {
    pub anilist_id: i32,
    pub media_type: MediaType,
    pub titles: String,
    pub year: i32,
    pub start_date: Option<String>,
    pub episode_number: Option<i32>,
}

pub struct WorkItemV {
    pub anilist_id: i32,
    pub media_type: MediaType,
    pub titles: Seq<char>,
    pub year: i32,
    pub start_date: Option<Seq<char>>,
    pub episode_number: Option<i32>,
}

impl View for WorkItem {
    type V = WorkItemV;

    open spec fn view(&self) -> WorkItemV {
        WorkItemV {
            anilist_id: self.anilist_id,
            media_type: self.media_type,
            titles: self.titles@,
            year: self.year,
            start_date: match self.start_date {
                Some(s) => Some(s@),
                None => None,
            },
            episode_number: self.episode_number,
        }
    }
}

impl WorkItem {
    pub fn copy(&self) -> (r: WorkItem)
        ensures
            r@ == self@,
    {
        let start_date = match &self.start_date {
            Some(s) => Some(s.clone()),
            None => None,
        };
        WorkItem {
            anilist_id: self.anilist_id,
            media_type: self.media_type,
            titles: self.titles.clone(),
            year: self.year,
            start_date,
            episode_number: self.episode_number,
        }
    }
}

/// The visible state of a job: everything but its list of items.
pub struct JobDetails {
    pub year: i32,
    pub num_animes_to_match: usize,
    pub num_processed: usize,
    pub num_matched: usize,
    pub num_failed: usize,
    /// Milliseconds since the Unix epoch.
    pub job_start_time: i64,
    pub provider: String,
    pub model: String,
    pub platform: Platform,
    pub status: JobStatus,
    pub current_index: usize,
}

pub struct JobDetailsV {
    pub platform: Platform,
    pub year: i32,
    pub status: JobStatus,
    pub current_index: nat,
    pub num_animes_to_match: nat,
    pub num_processed: nat,
    pub num_matched: nat,
    pub num_failed: nat,
    pub job_start_time: i64,
    pub provider: Seq<char>,
    pub model: Seq<char>,
}

impl View for JobDetails {
    type V = JobDetailsV;

    open spec fn view(&self) -> JobDetailsV {
        JobDetailsV {
            platform: self.platform,
            year: self.year,
            status: self.status,
            current_index: self.current_index as nat,
            num_animes_to_match: self.num_animes_to_match as nat,
            num_processed: self.num_processed as nat,
            num_matched: self.num_matched as nat,
            num_failed: self.num_failed as nat,
            job_start_time: self.job_start_time,
            provider: self.provider@,
            model: self.model@,
        }
    }
}

impl JobDetails {
    pub fn copy(&self) -> (r: JobDetails)
        ensures
            r@ == self@,
    {
        JobDetails {
            year: self.year,
            num_animes_to_match: self.num_animes_to_match,
            num_processed: self.num_processed,
            num_matched: self.num_matched,
            num_failed: self.num_failed,
            job_start_time: self.job_start_time,
            provider: self.provider.clone(),
            model: self.model.clone(),
            platform: self.platform,
            status: self.status,
            current_index: self.current_index,
        }
    }
}

/// A job record: its visible state, its items, the generation it was created
/// in, and whether a background execution is attached to it.
pub struct Job {
    details: JobDetails,
    animes: Vec<WorkItem>,
    serial: u64,
    attached: bool,
}

pub struct JobV {
    pub details: JobDetailsV,
    pub items: Seq<WorkItemV>,
    pub serial: u64,
    pub attached: bool,
}

pub open spec fn items_view(s: Seq<WorkItem>) -> Seq<WorkItemV> {
    s.map_values(|w: WorkItem| w@)
}

impl View for Job {
    type V = JobV;

    closed spec fn view(&self) -> JobV {
        JobV {
            details: self.details@,
            items: items_view(self.animes@),
            serial: self.serial,
            attached: self.attached,
        }
    }
}

/// Identifies one background execution: the job's key and its generation.
#[derive(Debug, Clone, Copy, PartialEq, Eq, Structural)]
pub struct RunTicket {
    pub platform: Platform,
    pub year: i32,
    pub serial: u64,
}

/// What `run` or `resume` asks of the caller.
#[derive(Debug, Clone, Copy, PartialEq, Eq, Structural)]
pub enum Launch {
    /// The job was not found or not in a state to start: nothing changed.
    Unchanged,
    /// The job is running again; the execution still attached to it goes on.
    Attached,
    /// The job is running; a new background execution must be spawned.
    Spawn(RunTicket),
}

/// How the work on one item ended.
#[derive(Debug, Clone, Copy, PartialEq, Eq, Structural)]
pub enum ItemOutcome {
    /// A match was found and stored.
    Matched,
    /// The agent found no match, or failed after its retries.
    NotMatched,
    /// Storing the match failed: the execution stops and the job fails.
    PersistFailed,
}

#[derive(Debug, Clone, Copy, PartialEq, Eq, Structural)]
pub enum JobError {
    /// A job for the same platform and year exists already.
    AlreadyExists,
    /// No generation number is left for a new job.
    SerialsExhausted,
}

/// The registry of jobs, one per (platform, year).
pub struct MappingBgmJobRunner {
    jobs: Vec<Job>,
    next_serial: u64,
}

pub struct RunnerV {
    pub jobs: Seq<JobV>,
    pub next_serial: u64,
}

pub open spec fn jobs_view(s: Seq<Job>) -> Seq<JobV> {
    s.map_values(|j: Job| j@)
}

impl View for MappingBgmJobRunner {
    type V = RunnerV;

    closed spec fn view(&self) -> RunnerV {
        RunnerV { jobs: jobs_view(self.jobs@), next_serial: self.next_serial }
    }
}

// ---------------------------------------------------------------------------
// The model.
pub open spec fn has_key(j: JobV, platform: Platform, year: i32) -> bool {
    j.details.platform == platform && j.details.year == year
}

/// A job's invariant: `current_index` is within its items and equals the
/// number processed, which is matched plus failed; a completed job has
/// processed every item; its generation was handed out already.
pub open spec fn job_wf(j: JobV, next_serial: u64) -> bool {
    let d = j.details;
    &&& d.current_index <= j.items.len()
    &&& d.num_animes_to_match == j.items.len()
    &&& d.num_processed == d.current_index
    &&& d.num_processed == d.num_matched + d.num_failed
    &&& d.status == JobStatus::Completed ==> d.current_index == j.items.len()
    &&& j.serial < next_serial
}

/// Every job keeps its invariant, and no two jobs share a (platform, year).
pub open spec fn runner_wf(m: RunnerV) -> bool {
    &&& forall|i: int| 0 <= i < m.jobs.len() ==> job_wf(#[trigger] m.jobs[i], m.next_serial)
    &&& forall|i: int, k: int|
        #![trigger m.jobs[i], m.jobs[k]]
        0 <= i < m.jobs.len() && 0 <= k < m.jobs.len() && i != k ==> !has_key(
            m.jobs[i],
            m.jobs[k].details.platform,
            m.jobs[k].details.year,
        )
}

/// Where the job with this key stands in the registry, or -1.
pub open spec fn key_index(jobs: Seq<JobV>, platform: Platform, year: i32) -> int {
    if exists|i: int| 0 <= i < jobs.len() && has_key(#[trigger] jobs[i], platform, year) {
        choose|i: int| 0 <= i < jobs.len() && has_key(#[trigger] jobs[i], platform, year)
    } else {
        -1
    }
}

/// Where the job of this execution stands, or -1 when it is gone.
pub open spec fn ticket_index(jobs: Seq<JobV>, t: RunTicket) -> int {
    let i = key_index(jobs, t.platform, t.year);
    if i >= 0 && jobs[i].serial == t.serial {
        i
    } else {
        -1
    }
}

pub open spec fn with_job(m: RunnerV, i: int, j: JobV) -> RunnerV {
    RunnerV { jobs: m.jobs.update(i, j), ..m }
}

pub open spec fn with_status(j: JobV, status: JobStatus) -> JobV {
    JobV { details: JobDetailsV { status, ..j.details }, ..j }
}

/// Some mapping of an entry waits for a match on `platform`.
pub open spec fn unmatched_on(mappings: Seq<(Platform, ReviewStatus)>, platform: Platform) -> bool {
    exists|k: int|
        0 <= k < mappings.len() && (#[trigger] mappings[k]).0 == platform && mappings[k].1
            == ReviewStatus::UnMatched
}

pub open spec fn mapping_keys(s: Seq<Mapping>) -> Seq<(Platform, ReviewStatus)> {
    s.map_values(|m: Mapping| (m.platform, m.review_status))
}

/// The entries of a query that still wait for a match on `platform`, in order.
pub open spec fn selected(records: Seq<(WorkItem, Vec<Mapping>)>, platform: Platform) -> Seq<
    WorkItemV,
>
    decreases records.len(),
{
    if records.len() == 0 {
        Seq::empty()
    } else {
        let rest = selected(records.drop_last(), platform);
        if unmatched_on(mapping_keys(records.last().1@), platform) {
            rest.push(records.last().0@)
        } else {
            rest
        }
    }
}

pub open spec fn new_job(
    platform: Platform,
    year: i32,
    provider: Seq<char>,
    model: Seq<char>,
    items: Seq<WorkItemV>,
    start: i64,
    serial: u64,
) -> JobV {
    JobV {
        details: JobDetailsV {
            platform,
            year,
            status: JobStatus::Created,
            current_index: 0,
            num_animes_to_match: items.len(),
            num_processed: 0,
            num_matched: 0,
            num_failed: 0,
            job_start_time: start,
            provider,
            model,
        },
        items,
        serial,
        attached: false,
    }
}

/// Creating a job: refused when the key is taken, else a new job in `Created`.
pub open spec fn spec_create(
    m: RunnerV,
    platform: Platform,
    year: i32,
    provider: Seq<char>,
    model: Seq<char>,
    items: Seq<WorkItemV>,
    start: i64,
) -> (RunnerV, Result<(), JobError>) {
    if key_index(m.jobs, platform, year) >= 0 {
        (m, Err(JobError::AlreadyExists))
    } else if m.next_serial == u64::MAX {
        (m, Err(JobError::SerialsExhausted))
    } else {
        (
            RunnerV {
                jobs: m.jobs.push(new_job(platform, year, provider, model, items, start, m.next_serial)),
                next_serial: (m.next_serial + 1) as u64,
            },
            Ok(()),
        )
    }
}

/// Setting the job at `i` running: a new execution only where none is attached.
pub open spec fn spec_launch(m: RunnerV, i: int) -> (RunnerV, Launch) {
    let j = m.jobs[i];
    if j.attached {
        (with_job(m, i, with_status(j, JobStatus::Running)), Launch::Attached)
    } else {
        (
            with_job(m, i, JobV { attached: true, ..with_status(j, JobStatus::Running) }),
            Launch::Spawn(RunTicket { platform: j.details.platform, year: j.details.year, serial: j.serial }),
        )
    }
}

pub open spec fn spec_run(m: RunnerV, platform: Platform, year: i32) -> (RunnerV, Launch) {
    let i = key_index(m.jobs, platform, year);
    if i < 0 || m.jobs[i].details.status == JobStatus::Running {
        (m, Launch::Unchanged)
    } else {
        spec_launch(m, i)
    }
}

pub open spec fn spec_resume(m: RunnerV, platform: Platform, year: i32) -> (RunnerV, Launch) {
    let i = key_index(m.jobs, platform, year);
    if i < 0 || m.jobs[i].details.status != JobStatus::Paused {
        (m, Launch::Unchanged)
    } else {
        spec_launch(m, i)
    }
}

pub open spec fn spec_pause(m: RunnerV, platform: Platform, year: i32) -> (RunnerV, bool) {
    let i = key_index(m.jobs, platform, year);
    if i < 0 || m.jobs[i].details.status != JobStatus::Running {
        (m, false)
    } else {
        (with_job(m, i, with_status(m.jobs[i], JobStatus::Paused)), true)
    }
}

pub open spec fn spec_remove(m: RunnerV, platform: Platform, year: i32) -> (RunnerV, bool) {
    let i = key_index(m.jobs, platform, year);
    if i < 0 {
        (m, false)
    } else {
        (RunnerV { jobs: m.jobs.remove(i), ..m }, true)
    }
}

/// The execution asks for its next item: it gets the item at `current_index`
/// while the job runs and has items left; otherwise it is detached, and a
/// running job with no items left is completed.
pub open spec fn spec_next_item(m: RunnerV, t: RunTicket) -> (RunnerV, Option<nat>) {
    let i = ticket_index(m.jobs, t);
    if i < 0 || !m.jobs[i].attached {
        (m, None)
    } else {
        let j = m.jobs[i];
        if j.details.status == JobStatus::Running && j.details.current_index < j.items.len() {
            (m, Some(j.details.current_index))
        } else if j.details.status == JobStatus::Running {
            (with_job(m, i, JobV { attached: false, ..with_status(j, JobStatus::Completed) }), None)
        } else {
            (with_job(m, i, JobV { attached: false, ..j }), None)
        }
    }
}

pub open spec fn recorded_job(j: JobV, outcome: ItemOutcome) -> JobV {
    let d = j.details;
    let next = d.current_index + 1;
    let done = next == j.items.len();
    let status = if outcome == ItemOutcome::PersistFailed {
        JobStatus::Failed
    } else if done {
        JobStatus::Completed
    } else {
        d.status
    };
    JobV {
        details: JobDetailsV {
            current_index: next,
            num_processed: d.num_processed + 1,
            num_matched: if outcome == ItemOutcome::Matched {
                d.num_matched + 1
            } else {
                d.num_matched
            },
            num_failed: if outcome == ItemOutcome::Matched {
                d.num_failed
            } else {
                d.num_failed + 1
            },
            status,
            ..d
        },
        attached: j.attached && outcome != ItemOutcome::PersistFailed && !done,
        ..j
    }
}

/// The execution records the outcome of item `index`: accepted only for the
/// item at `current_index` of its own, still attached job.
pub open spec fn spec_record(m: RunnerV, t: RunTicket, index: nat, outcome: ItemOutcome) -> (
    RunnerV,
    bool,
) {
    let i = ticket_index(m.jobs, t);
    if i < 0 || !m.jobs[i].attached || index != m.jobs[i].details.current_index || index
        >= m.jobs[i].items.len() {
        (m, false)
    } else {
        (with_job(m, i, recorded_job(m.jobs[i], outcome)), true)
    }
}

// ---------------------------------------------------------------------------
// Lemmas on the registry.
proof fn lemma_key_index_found(jobs: Seq<JobV>, next_serial: u64, i: int)
    requires
        runner_wf(RunnerV { jobs, next_serial }),
        0 <= i < jobs.len(),
    ensures
        key_index(jobs, jobs[i].details.platform, jobs[i].details.year) == i,
{
    let p = jobs[i].details.platform;
    let y = jobs[i].details.year;
    assert(has_key(jobs[i], p, y));
    let k = choose|k: int| 0 <= k < jobs.len() && has_key(#[trigger] jobs[k], p, y);
    if k != i {
        assert(!has_key(jobs[k], jobs[i].details.platform, jobs[i].details.year));
    }
}

proof fn lemma_update_wf(m: RunnerV, i: int, j: JobV)
    requires
        runner_wf(m),
        0 <= i < m.jobs.len(),
        job_wf(j, m.next_serial),
        j.details.platform == m.jobs[i].details.platform,
        j.details.year == m.jobs[i].details.year,
    ensures
        runner_wf(with_job(m, i, j)),
        forall|p: Platform, y: i32|
            #[trigger] key_index(with_job(m, i, j).jobs, p, y) == key_index(m.jobs, p, y),
{
    let n = with_job(m, i, j);
    assert forall|a: int, b: int|
        #![trigger n.jobs[a], n.jobs[b]]
        0 <= a < n.jobs.len() && 0 <= b < n.jobs.len() && a != b implies !has_key(
        n.jobs[a],
        n.jobs[b].details.platform,
        n.jobs[b].details.year,
    ) by {
        assert(!has_key(m.jobs[a], m.jobs[b].details.platform, m.jobs[b].details.year));
    }
    assert forall|p: Platform, y: i32|
        #[trigger] key_index(n.jobs, p, y) == key_index(m.jobs, p, y) by {
        if exists|k: int| 0 <= k < m.jobs.len() && has_key(#[trigger] m.jobs[k], p, y) {
            let k = choose|k: int| 0 <= k < m.jobs.len() && has_key(#[trigger] m.jobs[k], p, y);
            assert(has_key(n.jobs[k], p, y));
            lemma_key_index_found(m.jobs, m.next_serial, k);
            lemma_key_index_found(n.jobs, n.next_serial, k);
        } else {
            assert forall|k: int| 0 <= k < n.jobs.len() implies !has_key(#[trigger] n.jobs[k], p, y) by {
                assert(!has_key(m.jobs[k], p, y));
            }
        }
    }
}

/// An execution that asks for an item and records an outcome for it, once for
/// each of `outcomes`, then asks once more; with the indices it was handed.
pub open spec fn drive(m: RunnerV, t: RunTicket, outcomes: Seq<ItemOutcome>) -> (RunnerV, Seq<nat>)
    decreases outcomes.len(),
{
    let (m1, next) = spec_next_item(m, t);
    match next {
        None => (m1, Seq::empty()),
        Some(k) => if outcomes.len() == 0 {
            (m1, Seq::empty())
        } else {
            let m2 = spec_record(m1, t, k, outcomes[0]).0;
            let rest = drive(m2, t, outcomes.drop_first());
            (rest.0, seq![k] + rest.1)
        },
    }
}

/// No outcome is a failed store: the run meets no external error.
pub open spec fn stores_all(outcomes: Seq<ItemOutcome>) -> bool {
    forall|q: int| 0 <= q < outcomes.len() ==> #[trigger] outcomes[q] != ItemOutcome::PersistFailed
}

/// From `from` on, the indices up to `to`.
pub open spec fn indices(from: nat, to: nat) -> Seq<nat> {
    Seq::new((to - from) as nat, |q: int| (from + q) as nat)
}

/// `after` is `before` run to its end: completed, detached, every item counted.
pub open spec fn finished_job(before: JobV, after: JobV) -> bool {
    let n = before.items.len();
    &&& after.details.status == JobStatus::Completed
    &&& after.details.current_index == n
    &&& after.details.num_processed == n
    &&& after.details.num_matched + after.details.num_failed == n
    &&& !after.attached
    &&& after.items == before.items
    &&& after.serial == before.serial
    &&& has_key(after, before.details.platform, before.details.year)
}

/// An attached execution of a running job whose item outcomes are all stored
/// is handed each remaining item exactly once, in order, and leaves the job
/// completed with every item counted; no other job changes.
pub proof fn execution_completes(m: RunnerV, t: RunTicket, outcomes: Seq<ItemOutcome>)
    requires
        runner_wf(m),
        ticket_index(m.jobs, t) >= 0,
        m.jobs[ticket_index(m.jobs, t)].attached,
        m.jobs[ticket_index(m.jobs, t)].details.status == JobStatus::Running,
        outcomes.len() + m.jobs[ticket_index(m.jobs, t)].details.current_index
            == m.jobs[ticket_index(m.jobs, t)].items.len(),
        stores_all(outcomes),
    ensures
        ({
            let i = ticket_index(m.jobs, t);
            let (n, ks) = drive(m, t, outcomes);
            &&& runner_wf(n)
            &&& n.jobs.len() == m.jobs.len()
            &&& finished_job(m.jobs[i], n.jobs[i])
            &&& forall|q: int| 0 <= q < m.jobs.len() && q != i ==> n.jobs[q] == m.jobs[q]
            &&& ks == indices(m.jobs[i].details.current_index, m.jobs[i].items.len())
        }),
    decreases outcomes.len(),
{
    let i = ticket_index(m.jobs, t);
    let j = m.jobs[i];
    assert(job_wf(j, m.next_serial));
    if outcomes.len() == 0 {
        let n = drive(m, t, outcomes).0;
        let j2 = JobV { attached: false, ..with_status(j, JobStatus::Completed) };
        lemma_update_wf(m, i, j2);
        assert(indices(j.details.current_index, j.items.len()) =~= Seq::<nat>::empty());
    } else {
        let k = j.details.current_index;
        let j2 = recorded_job(j, outcomes[0]);
        let m2 = with_job(m, i, j2);
        assert(outcomes[0] != ItemOutcome::PersistFailed);
        lemma_update_wf(m, i, j2);
        assert(ticket_index(m2.jobs, t) == i);
        let rest = outcomes.drop_first();
        if k + 1 == j.items.len() {
            assert(drive(m2, t, rest).0 == m2);
            assert(indices(k, j.items.len()) =~= seq![k]);
            assert(drive(m, t, outcomes).1 =~= seq![k]);
        } else {
            assert(stores_all(rest)) by {
                assert forall|q: int| 0 <= q < rest.len() implies #[trigger] rest[q] != ItemOutcome::PersistFailed by {
                    assert(rest[q] == outcomes[q + 1]);
                }
            }
            execution_completes(m2, t, rest);
            assert(indices(k, j.items.len()) =~= seq![k] + indices(k + 1, j.items.len()));
        }
    }
}

/// A run of a job that is not running and has no execution attached spawns one
/// execution; when each item's outcome is stored, that execution leaves the
/// job completed, with `current_index`, `num_processed` and
/// `num_matched + num_failed` all equal to the number of items.
pub proof fn run_completes_job(m: RunnerV, platform: Platform, year: i32, outcomes: Seq<ItemOutcome>)
    requires
        runner_wf(m),
        key_index(m.jobs, platform, year) >= 0,
        m.jobs[key_index(m.jobs, platform, year)].details.status != JobStatus::Running,
        !m.jobs[key_index(m.jobs, platform, year)].attached,
        outcomes.len() + m.jobs[key_index(m.jobs, platform, year)].details.current_index
            == m.jobs[key_index(m.jobs, platform, year)].items.len(),
        stores_all(outcomes),
    ensures
        ({
            let i = key_index(m.jobs, platform, year);
            let (m1, launch) = spec_run(m, platform, year);
            &&& launch is Spawn
            &&& finished_job(m.jobs[i], drive(m1, launch->Spawn_0, outcomes).0.jobs[i])
        }),
{
    let i = key_index(m.jobs, platform, year);
    let j = m.jobs[i];
    let j1 = JobV { attached: true, ..with_status(j, JobStatus::Running) };
    assert(job_wf(j, m.next_serial));
    lemma_update_wf(m, i, j1);
    let (m1, launch) = spec_run(m, platform, year);
    execution_completes(m1, launch->Spawn_0, outcomes);
}

/// Pausing a running job stops its execution at the next item boundary with
/// `current_index` where it was; a later resume spawns an execution that is
/// handed exactly the remaining items, from `current_index` on, and completes
/// the job.
pub proof fn resume_processes_the_rest(m: RunnerV, t: RunTicket, outcomes: Seq<ItemOutcome>)
    requires
        runner_wf(m),
        ticket_index(m.jobs, t) >= 0,
        m.jobs[ticket_index(m.jobs, t)].attached,
        m.jobs[ticket_index(m.jobs, t)].details.status == JobStatus::Running,
        outcomes.len() + m.jobs[ticket_index(m.jobs, t)].details.current_index
            == m.jobs[ticket_index(m.jobs, t)].items.len(),
        stores_all(outcomes),
    ensures
        ({
            let i = ticket_index(m.jobs, t);
            let k = m.jobs[i].details.current_index;
            let (m1, paused) = spec_pause(m, t.platform, t.year);
            let (m2, next) = spec_next_item(m1, t);
            let (m3, launch) = spec_resume(m2, t.platform, t.year);
            let (m4, ks) = drive(m3, launch->Spawn_0, outcomes);
            &&& paused
            &&& next is None
            &&& m2.jobs[i].details.status == JobStatus::Paused
            &&& m2.jobs[i].details.current_index == k
            &&& launch is Spawn
            &&& ks == indices(k, m.jobs[i].items.len())
            &&& finished_job(m.jobs[i], m4.jobs[i])
        }),
{
    let i = ticket_index(m.jobs, t);
    let j = m.jobs[i];
    assert(job_wf(j, m.next_serial));
    let j1 = with_status(j, JobStatus::Paused);
    lemma_update_wf(m, i, j1);
    let m1 = spec_pause(m, t.platform, t.year).0;
    assert(ticket_index(m1.jobs, t) == i);
    let j2 = JobV { attached: false, ..j1 };
    lemma_update_wf(m1, i, j2);
    let m2 = spec_next_item(m1, t).0;
    assert(ticket_index(m2.jobs, t) == i);
    let j3 = JobV { attached: true, ..with_status(j2, JobStatus::Running) };
    lemma_update_wf(m2, i, j3);
    let (m3, launch) = spec_resume(m2, t.platform, t.year);
    assert(launch->Spawn_0 == t);
    execution_completes(m3, t, outcomes);
}

/// Creating a job under a key that is taken fails with `AlreadyExists` and
/// leaves the registry, the existing job included, as it was.
pub proof fn create_existing_is_refused(
    m: RunnerV,
    platform: Platform,
    year: i32,
    provider: Seq<char>,
    model: Seq<char>,
    items: Seq<WorkItemV>,
    start: i64,
)
    requires
        runner_wf(m),
        exists|i: int| 0 <= i < m.jobs.len() && has_key(#[trigger] m.jobs[i], platform, year),
    ensures
        spec_create(m, platform, year, provider, model, items, start) == (
            m,
            Err::<(), JobError>(JobError::AlreadyExists),
        ),
{
}

/// A new execution is spawned only for a job that has none attached, and the
/// job has one attached afterwards: at most one execution serves a job.
pub proof fn one_execution_per_job(m: RunnerV, platform: Platform, year: i32)
    requires
        runner_wf(m),
    ensures
        ({
            let i = key_index(m.jobs, platform, year);
            let (r1, l1) = spec_run(m, platform, year);
            let (r2, l2) = spec_resume(m, platform, year);
            &&& l1 is Spawn ==> i >= 0 && !m.jobs[i].attached && r1.jobs[i].attached
            &&& l2 is Spawn ==> i >= 0 && !m.jobs[i].attached && r2.jobs[i].attached
            &&& i >= 0 && m.jobs[i].attached ==> !(l1 is Spawn) && !(l2 is Spawn)
        }),
{
}

/// An accepted outcome is for the item at `current_index`, which then grows by
/// one, as do `num_processed` and `num_matched + num_failed`; a refused one
/// changes nothing. So no item is counted twice and none is skipped.
pub proof fn record_moves_by_one(m: RunnerV, t: RunTicket, index: nat, outcome: ItemOutcome)
    requires
        runner_wf(m),
    ensures
        ({
            let (n, accepted) = spec_record(m, t, index, outcome);
            let i = ticket_index(m.jobs, t);
            &&& !accepted ==> n == m
            &&& accepted ==> {
                let (a, b) = (m.jobs[i].details, n.jobs[i].details);
                &&& index == a.current_index
                &&& b.current_index == a.current_index + 1
                &&& b.num_processed == a.num_processed + 1
                &&& b.num_matched + b.num_failed == a.num_matched + a.num_failed + 1
                &&& n.jobs[i].items == m.jobs[i].items
                &&& runner_wf(n)
            }
        }),
{
    let i = ticket_index(m.jobs, t);
    if spec_record(m, t, index, outcome).1 {
        assert(job_wf(m.jobs[i], m.next_serial));
        lemma_update_wf(m, i, recorded_job(m.jobs[i], outcome));
    }
}

/// A removed job is gone at once: no job of the registry has its key, and an
/// execution still running for it can neither get an item nor record one.
pub proof fn removed_job_is_gone(
    m: RunnerV,
    platform: Platform,
    year: i32,
    t: RunTicket,
    index: nat,
    outcome: ItemOutcome,
)
    requires
        runner_wf(m),
        t.platform == platform,
        t.year == year,
    ensures
        ({
            let n = spec_remove(m, platform, year).0;
            &&& forall|q: int| 0 <= q < n.jobs.len() ==> !has_key(#[trigger] n.jobs[q], platform, year)
            &&& spec_next_item(n, t) == (n, None::<nat>)
            &&& spec_record(n, t, index, outcome) == (n, false)
        }),
{
    let i = key_index(m.jobs, platform, year);
    let n = spec_remove(m, platform, year).0;
    if i >= 0 {
        lemma_key_index_found(m.jobs, m.next_serial, i);
        assert forall|q: int| 0 <= q < n.jobs.len() implies !has_key(#[trigger] n.jobs[q], platform, year) by {
            let q0 = if q < i { q } else { q + 1 };
            assert(n.jobs[q] == m.jobs[q0]);
            assert(!has_key(m.jobs[q0], m.jobs[i].details.platform, m.jobs[i].details.year));
        }
    }
}

// ---------------------------------------------------------------------------
// The runner.
/// Relies on chrono's `Utc::now`: the current time, in milliseconds since the
/// Unix epoch. Nothing is promised of its value.
#[verifier::external_body]
fn now_millis() -> (r: i64) {
    chrono::Utc::now().timestamp_millis()
}

/// The items of a query result that still wait for a match on `platform`, in
/// the order of the query.
pub fn select_unmatched(records: &Vec<(WorkItem, Vec<Mapping>)>, platform: Platform) -> (r: Vec<
    WorkItem,
>)
    ensures
        items_view(r@) == selected(records@, platform),
{
    let mut r: Vec<WorkItem> = Vec::new();
    let mut i: usize = 0;
    while i < records.len()
        invariant
            i <= records.len(),
            items_view(r@) == selected(records@.take(i as int), platform),
        decreases records.len() - i,
    {
        let mappings = &records[i].1;
        let mut found = false;
        let mut k: usize = 0;
        while k < mappings.len()
            invariant
                k <= mappings.len(),
                mappings == records@[i as int].1,
                found == unmatched_on(mapping_keys(mappings@).take(k as int), platform),
            decreases mappings.len() - k,
        {
            let m = &mappings[k];
            let ghost keys = mapping_keys(mappings@);
            assert(keys.take(k + 1) =~= keys.take(k as int).push((m.platform, m.review_status)));
            if m.platform == platform && m.review_status == ReviewStatus::UnMatched {
                assert(keys.take(k + 1)[k as int] == (m.platform, m.review_status));
                found = true;
            } else if found {
                let ghost w = choose|w: int|
                    0 <= w < k && (#[trigger] keys.take(k as int)[w]).0 == platform && keys.take(
                        k as int,
                    )[w].1 == ReviewStatus::UnMatched;
                assert(keys.take(k + 1)[w] == keys.take(k as int)[w]);
            } else {
                assert forall|w: int| 0 <= w < k + 1 implies !((#[trigger] keys.take(k + 1)[w]).0
                    == platform && keys.take(k + 1)[w].1 == ReviewStatus::UnMatched) by {
                    if w < k {
                        assert(keys.take(k + 1)[w] == keys.take(k as int)[w]);
                    }
                }
            }
            k = k + 1;
        }
        assert(mapping_keys(mappings@).take(k as int) =~= mapping_keys(mappings@));
        assert(records@.take(i + 1).drop_last() =~= records@.take(i as int));
        if found {
            let item = records[i].0.copy();
            r.push(item);
            assert(items_view(r@) =~= selected(records@.take(i + 1), platform));
        } else {
            assert(items_view(r@) =~= selected(records@.take(i + 1), platform));
        }
        i = i + 1;
    }
    assert(records@.take(i as int) =~= records@);
    r
}

impl MappingBgmJobRunner {
    pub open spec fn wf(&self) -> bool {
        runner_wf(self@)
    }

    pub fn new() -> (r: Self)
        ensures
            r.wf(),
            r@.jobs.len() == 0,
            r@.next_serial == 0,
    {
        let r = MappingBgmJobRunner { jobs: Vec::new(), next_serial: 0 };
        assert(r@.jobs =~= Seq::<JobV>::empty());
        r
    }

    fn find(&self, platform: Platform, year: i32) -> (r: Option<usize>)
        requires
            self.wf(),
        ensures
            match r {
                Some(i) => i == key_index(self@.jobs, platform, year) && i < self.jobs@.len(),
                None => key_index(self@.jobs, platform, year) == -1,
            },
    {
        let mut i: usize = 0;
        while i < self.jobs.len()
            invariant
                self.wf(),
                i <= self.jobs@.len(),
                forall|k: int| 0 <= k < i ==> !has_key(#[trigger] self@.jobs[k], platform, year),
            decreases self.jobs.len() - i,
        {
            let d = &self.jobs[i].details;
            if d.platform == platform && d.year == year {
                proof {
                    lemma_key_index_found(self@.jobs, self.next_serial, i as int);
                }
                return Some(i);
            }
            i = i + 1;
        }
        None
    }

    fn find_ticket(&self, t: RunTicket) -> (r: Option<usize>)
        requires
            self.wf(),
        ensures
            match r {
                Some(i) => i == ticket_index(self@.jobs, t) && i < self.jobs@.len(),
                None => ticket_index(self@.jobs, t) == -1,
            },
    {
        match self.find(t.platform, t.year) {
            Some(i) => {
                if self.jobs[i].serial == t.serial {
                    Some(i)
                } else {
                    None
                }
            },
            None => None,
        }
    }

    /// Creates a job over the entries of `records` that still wait for a match on
    /// `platform`; refused, with nothing changed, when a job for the same
    /// platform and year exists. Whether it is refused does not depend on the
    /// start time, which is the clock's reading at creation.
    pub fn create_job(
        &mut self,
        platform: Platform,
        year: i32,
        provider: String,
        model: String,
        records: &Vec<(WorkItem, Vec<Mapping>)>,
    ) -> (r: Result<(), JobError>)
        requires
            old(self).wf(),
        ensures
            final(self).wf(),
            r == spec_create(old(self)@, platform, year, provider@, model@, selected(records@, platform), 0).1,
            r is Ok ==> final(self)@ == spec_create(
                old(self)@,
                platform,
                year,
                provider@,
                model@,
                selected(records@, platform),
                final(self)@.jobs.last().details.job_start_time,
            ).0,
            r is Err ==> final(self)@ == old(self)@,
    {
        if self.find(platform, year).is_some() {
            return Err(JobError::AlreadyExists);
        }
        if self.next_serial == u64::MAX {
            return Err(JobError::SerialsExhausted);
        }
        let animes = select_unmatched(records, platform);
        let details = JobDetails {
            year,
            num_animes_to_match: animes.len(),
            num_processed: 0,
            num_matched: 0,
            num_failed: 0,
            job_start_time: now_millis(),
            provider,
            model,
            platform,
            status: JobStatus::Created,
            current_index: 0,
        };
        let job = Job { details, animes, serial: self.next_serial, attached: false };
        let ghost m = self@;
        self.jobs.push(job);
        self.next_serial = self.next_serial + 1;
        assert(self@.jobs =~= m.jobs.push(job@));
        proof {
            let n = self@;
            assert forall|i: int| 0 <= i < n.jobs.len() implies job_wf(#[trigger] n.jobs[i], n.next_serial) by {
                if i < m.jobs.len() {
                    assert(job_wf(m.jobs[i], m.next_serial));
                }
            }
            assert forall|a: int, b: int|
                #![trigger n.jobs[a], n.jobs[b]]
                0 <= a < n.jobs.len() && 0 <= b < n.jobs.len() && a != b implies !has_key(
                n.jobs[a],
                n.jobs[b].details.platform,
                n.jobs[b].details.year,
            ) by {
                if a < m.jobs.len() && b < m.jobs.len() {
                    assert(!has_key(m.jobs[a], m.jobs[b].details.platform, m.jobs[b].details.year));
                } else if a < m.jobs.len() {
                    assert(!has_key(m.jobs[a], platform, year));
                } else {
                    assert(!has_key(m.jobs[b], platform, year));
                }
            }
        }
        Ok(())
    }
}


impl MappingBgmJobRunner {
    fn set_state(&mut self, i: usize, status: JobStatus, attached: bool)
        requires
            old(self).wf(),
            i < old(self)@.jobs.len(),
            status == JobStatus::Completed ==> old(self)@.jobs[i as int].details.current_index
                == old(self)@.jobs[i as int].items.len(),
        ensures
            final(self).wf(),
            final(self)@ == with_job(
                old(self)@,
                i as int,
                JobV { attached, ..with_status(old(self)@.jobs[i as int], status) },
            ),
    {
        let ghost m = self@;
        self.jobs[i].details.status = status;
        self.jobs[i].attached = attached;
        let ghost j = JobV { attached, ..with_status(m.jobs[i as int], status) };
        assert(self@.jobs =~= m.jobs.update(i as int, j));
        proof {
            assert(job_wf(m.jobs[i as int], m.next_serial));
            lemma_update_wf(m, i as int, j);
        }
    }

    fn launch(&mut self, i: usize) -> (r: Launch)
        requires
            old(self).wf(),
            i < old(self)@.jobs.len(),
        ensures
            final(self).wf(),
            (final(self)@, r) == spec_launch(old(self)@, i as int),
    {
        let attached = self.jobs[i].attached;
        let ticket = RunTicket {
            platform: self.jobs[i].details.platform,
            year: self.jobs[i].details.year,
            serial: self.jobs[i].serial,
        };
        self.set_state(i, JobStatus::Running, true);
        if attached {
            Launch::Attached
        } else {
            Launch::Spawn(ticket)
        }
    }

    /// Sets the job running unless it runs already. The caller spawns a
    /// background execution when the answer is `Spawn`; while an earlier
    /// execution is still attached, that one goes on instead.
    pub fn run(&mut self, platform: Platform, year: i32) -> (r: Launch)
        requires
            old(self).wf(),
        ensures
            final(self).wf(),
            (final(self)@, r) == spec_run(old(self)@, platform, year),
    {
        match self.find(platform, year) {
            Some(i) => {
                if self.jobs[i].details.status == JobStatus::Running {
                    Launch::Unchanged
                } else {
                    self.launch(i)
                }
            },
            None => Launch::Unchanged,
        }
    }

    /// Sets a paused job running again, as `run` does; `Unchanged` for any
    /// other job.
    pub fn resume_job(&mut self, platform: Platform, year: i32) -> (r: Launch)
        requires
            old(self).wf(),
        ensures
            final(self).wf(),
            (final(self)@, r) == spec_resume(old(self)@, platform, year),
    {
        match self.find(platform, year) {
            Some(i) => {
                if self.jobs[i].details.status == JobStatus::Paused {
                    self.launch(i)
                } else {
                    Launch::Unchanged
                }
            },
            None => Launch::Unchanged,
        }
    }

    /// Asks a running job to pause at its next item boundary; whether it was running.
    pub fn pause_job(&mut self, platform: Platform, year: i32) -> (r: bool)
        requires
            old(self).wf(),
        ensures
            final(self).wf(),
            (final(self)@, r) == spec_pause(old(self)@, platform, year),
    {
        match self.find(platform, year) {
            Some(i) => {
                if self.jobs[i].details.status == JobStatus::Running {
                    let attached = self.jobs[i].attached;
                    self.set_state(i, JobStatus::Paused, attached);
                    proof {
                        let m = old(self)@;
                        assert(JobV { attached, ..with_status(m.jobs[i as int], JobStatus::Paused) }
                            == with_status(m.jobs[i as int], JobStatus::Paused));
                    }
                    true
                } else {
                    false
                }
            },
            None => false,
        }
    }

    /// Removes the job, whatever its state; whether there was one.
    pub fn remove_job(&mut self, platform: Platform, year: i32) -> (r: bool)
        requires
            old(self).wf(),
        ensures
            final(self).wf(),
            (final(self)@, r) == spec_remove(old(self)@, platform, year),
    {
        match self.find(platform, year) {
            Some(i) => {
                let ghost m = self@;
                self.jobs.remove(i);
                assert(self@.jobs =~= m.jobs.remove(i as int));
                proof {
                    let n = self@;
                    assert forall|a: int| 0 <= a < n.jobs.len() implies job_wf(#[trigger] n.jobs[a], n.next_serial) by {
                        if a < i {
                            assert(n.jobs[a] == m.jobs[a]);
                        } else {
                            assert(n.jobs[a] == m.jobs[a + 1]);
                        }
                    }
                    assert forall|a: int, b: int|
                        #![trigger n.jobs[a], n.jobs[b]]
                        0 <= a < n.jobs.len() && 0 <= b < n.jobs.len() && a != b implies !has_key(
                        n.jobs[a],
                        n.jobs[b].details.platform,
                        n.jobs[b].details.year,
                    ) by {
                        let a0 = if a < i { a } else { a + 1 };
                        let b0 = if b < i { b } else { b + 1 };
                        assert(n.jobs[a] == m.jobs[a0]);
                        assert(n.jobs[b] == m.jobs[b0]);
                        assert(!has_key(m.jobs[a0], m.jobs[b0].details.platform, m.jobs[b0].details.year));
                    }
                }
                true
            },
            None => false,
        }
    }

    /// A snapshot of every job, without their items, in the order of creation.
    pub fn list_jobs(&self) -> (r: Vec<JobDetails>)
        ensures
            r@.len() == self@.jobs.len(),
            forall|i: int| 0 <= i < r@.len() ==> (#[trigger] r@[i])@ == self@.jobs[i].details,
    {
        let mut r: Vec<JobDetails> = Vec::new();
        let mut i: usize = 0;
        while i < self.jobs.len()
            invariant
                i <= self.jobs@.len(),
                r@.len() == i,
                forall|k: int| 0 <= k < i ==> (#[trigger] r@[k])@ == self@.jobs[k].details,
            decreases self.jobs.len() - i,
        {
            r.push(self.jobs[i].details.copy());
            i = i + 1;
        }
        r
    }

    /// The next item for the execution `t`: its index and a copy of it, while
    /// its job runs and has items left. `None` tells the execution to stop: the
    /// job is gone or paused, or it has no items left and is now completed.
    pub fn next_item(&mut self, t: RunTicket) -> (r: Option<(usize, WorkItem)>)
        requires
            old(self).wf(),
        ensures
            final(self).wf(),
            final(self)@ == spec_next_item(old(self)@, t).0,
            match spec_next_item(old(self)@, t).1 {
                Some(k) => r is Some && r->Some_0.0 == k && r->Some_0.1@ == old(self)@.jobs[ticket_index(old(self)@.jobs, t)].items[k as int],
                None => r is None,
            },
    {
        match self.find_ticket(t) {
            Some(i) => {
                if !self.jobs[i].attached {
                    return None;
                }
                let status = self.jobs[i].details.status;
                let index = self.jobs[i].details.current_index;
                if status == JobStatus::Running && index < self.jobs[i].animes.len() {
                    let item = self.jobs[i].animes[index].copy();
                    Some((index, item))
                } else if status == JobStatus::Running {
                    self.set_state(i, JobStatus::Completed, false);
                    None
                } else {
                    self.set_state(i, status, false);
                    proof {
                        let m = old(self)@;
                        assert(JobV { attached: false, ..with_status(m.jobs[i as int], status) }
                            == JobV { attached: false, ..m.jobs[i as int] });
                    }
                    None
                }
            },
            None => None,
        }
    }

    /// Records how item `index` ended for the execution `t`, and moves its job
    /// past it. Refused, with nothing changed, unless `index` is the job's
    /// current item and `t` is the execution attached to it.
    pub fn record_outcome(&mut self, t: RunTicket, index: usize, outcome: ItemOutcome) -> (r: bool)
        requires
            old(self).wf(),
        ensures
            final(self).wf(),
            (final(self)@, r) == spec_record(old(self)@, t, index as nat, outcome),
    {
        match self.find_ticket(t) {
            Some(i) => {
                let ghost m = self@;
                let len = self.jobs[i].animes.len();
                if !self.jobs[i].attached || index != self.jobs[i].details.current_index || index >= len {
                    return false;
                }
                proof {
                    assert(job_wf(m.jobs[i as int], m.next_serial));
                }
                let next = index + 1;
                let done = next == len;
                let job = &mut self.jobs[i];
                job.details.current_index = next;
                job.details.num_processed = job.details.num_processed + 1;
                if outcome == ItemOutcome::Matched {
                    job.details.num_matched = job.details.num_matched + 1;
                } else {
                    job.details.num_failed = job.details.num_failed + 1;
                }
                if outcome == ItemOutcome::PersistFailed {
                    job.details.status = JobStatus::Failed;
                } else if done {
                    job.details.status = JobStatus::Completed;
                }
                job.attached = job.attached && outcome != ItemOutcome::PersistFailed && !done;
                let ghost j = recorded_job(m.jobs[i as int], outcome);
                assert(self@.jobs =~= m.jobs.update(i as int, j));
                proof {
                    lemma_update_wf(m, i as int, j);
                }
                true
            },
            None => false,
        }
    }
}

/// The store of a mapping that a found match asks for.
#[derive(Debug, Clone, Copy, PartialEq, Eq, Structural)]
pub struct MappingUpdate {
    pub anilist_id: i32,
    pub platform: Platform,
    pub platform_id: i32,
    pub score: u8,
}

/// The store of a season number that a found match asks for.
#[derive(Debug, Clone, Copy, PartialEq, Eq, Structural)]
pub struct SeasonUpdate {
    pub anilist_id: i32,
    pub season: i32,
}

/// The stores that the result of one item asks for.
#[derive(Debug, Clone, Copy, PartialEq, Eq, Structural)]
pub struct ItemPlan {
    pub mapping: Option<MappingUpdate>,
    pub season: Option<SeasonUpdate>,
}

/// The stored score: the confidence as one byte, as Rust's `as u8` takes it
/// (not checked to lie in 0..=100), or 0 when absent.
pub open spec fn score_of(confidence: Option<i32>) -> u8 {
    match confidence {
        Some(c) => c as u8,
        None => 0,
    }
}

pub open spec fn spec_plan(platform: Platform, anilist_id: i32, id: Option<i32>, season: Option<i32>, confidence: Option<i32>) -> ItemPlan {
    match id {
        None => ItemPlan { mapping: None, season: None },
        Some(pid) => ItemPlan {
            mapping: Some(
                MappingUpdate { anilist_id, platform, platform_id: pid, score: score_of(confidence) },
            ),
            season: match season {
                Some(s) => if s > 0 && platform.spec_has_seasons() {
                    Some(SeasonUpdate { anilist_id, season: s })
                } else {
                    None
                },
                None => None,
            },
        },
    }
}

/// What to store for an item once the agent has answered: the mapping when an
/// id was found, and the season too when it is positive and the platform has
/// seasons. Nothing when no id was found.
pub fn plan_updates(platform: Platform, item: &WorkItem, result: &MatchResult) -> (r: ItemPlan)
    ensures
        r == spec_plan(platform, item.anilist_id, result.id, result.season, result.confidence_score),
{
    match result.id {
        None => ItemPlan { mapping: None, season: None },
        Some(pid) => {
            let score: u8 = match result.confidence_score {
                Some(c) => {
                    #[verifier::truncate]
                    (c as u8)
                },
                None => 0,
            };
            let season = match result.season {
                Some(s) => {
                    if s > 0 && platform.has_seasons() {
                        Some(SeasonUpdate { anilist_id: item.anilist_id, season: s })
                    } else {
                        None
                    }
                },
                None => None,
            };
            ItemPlan {
                mapping: Some(MappingUpdate { anilist_id: item.anilist_id, platform, platform_id: pid, score }),
                season,
            }
        },
    }
}

impl ItemPlan {
    /// How the item ended, given whether every store it asked for succeeded.
    pub fn outcome(&self, stored: bool) -> (r: ItemOutcome)
        ensures
            r == if self.mapping is None {
                ItemOutcome::NotMatched
            } else if stored {
                ItemOutcome::Matched
            } else {
                ItemOutcome::PersistFailed
            },
    {
        match self.mapping {
            None => ItemOutcome::NotMatched,
            Some(_) => {
                if stored {
                    ItemOutcome::Matched
                } else {
                    ItemOutcome::PersistFailed
                }
            },
        }
    }
}

} // verus!
