//! The background job runner: which jobs it claims, what becomes of them, which reviews it
//! schedules, and how it stops.

use vstd::prelude::*;

use crate::db::jobs::{
    awaits_review, claim_next, claimed_job, create, created_job, has_pending_review, is_due,
    is_next, job_ids, review_is_pending, unique_job_ids, within_attempts,
};
use crate::db::order::{is_order, order_lists_each_row_once, the_order};
use crate::db::prompts::{any_enabled, has_enabled_prompts};
use crate::db::repos::{is_check_due, list_all, needs_check, newest_first, newest_keys};
use crate::db::reviews::{
    get_latest_for_repo, is_over_row, is_status_of, listing_is_newest_first, listing_of,
    review_row_error, reviews_are_those_of_the_repo, status_texts_differ, ReviewRow,
};
use crate::db::{next_id, next_id_is_higher, Database};
use crate::domain::ids::{JobId, RepoId};
use crate::domain::job::{Job, JobPayload, JobStatus, NewJob, DEFAULT_MAX_ATTEMPTS};
use crate::domain::prompt::Prompt;
use crate::domain::repo::Repo;
use crate::llm::provider::LlmError;
use crate::time::{timestamps_are_totally_ordered, Timestamp};

verus! {

// --- Failures ---

/// One error in the chain of errors behind a failure.
#[derive(Debug)]
pub enum ErrorCause {
    /// An error of the LLM.
    Llm(LlmError),
    /// Another error.
    Other,
}

/// Why a job failed.
#[derive(Debug)]
pub struct JobFailure {
    /// What the failure says.
    pub message: String,
    /// The chain of errors behind it, from the last to the first.
    pub causes: Vec<ErrorCause>,
}

/// The seconds to wait that a cause asks for, where it is a rate limit.
pub open spec fn rate_limit(cause: ErrorCause) -> Option<u32> {
    match cause {
        ErrorCause::Llm(LlmError::RateLimited { retry_after_secs }) => Some(retry_after_secs),
        _ => None,
    }
}

/// The seconds to wait that the first rate limit in the chain asks for.
pub open spec fn retry_after_of(causes: Seq<ErrorCause>) -> Option<u32>
    decreases causes.len(),
{
    if causes.len() == 0 {
        None
    } else if rate_limit(causes[0]) is Some {
        rate_limit(causes[0])
    } else {
        retry_after_of(causes.drop_first())
    }
}

/// Extracts retry_after_secs from an error if it's a rate limit error.
/// Looks through the error chain for a rate limit.
pub fn extract_retry_after(causes: &Vec<ErrorCause>) -> (r: Option<u32>)
    ensures
        r == retry_after_of(causes@),
{
    let mut i: usize = 0;
    assert(causes@.skip(0) =~= causes@);
    while i < causes.len()
        invariant
            i <= causes@.len(),
            retry_after_of(causes@) == retry_after_of(causes@.skip(i as int)),
        decreases causes.len() - i,
    {
        match &causes[i] {
            ErrorCause::Llm(LlmError::RateLimited { retry_after_secs }) => {
                return Some(*retry_after_secs);
            },
            _ => {},
        }
        assert(causes@.skip(i as int).drop_first() =~= causes@.skip(i + 1));
        i += 1;
    }
    None
}

/// What is recorded of a job that ran.
#[derive(Debug)]
pub enum JobOutcome {
    /// It is done.
    Complete(JobId),
    /// It failed.
    Fail {
        /// The job.
        id: JobId,
        /// Why it failed.
        error: String,
        /// Whether it may be tried again.
        should_retry: bool,
        /// The seconds to wait before that, where the failure asks for it.
        retry_after_secs: Option<u32>,
    },
}

/// What is recorded of a job that ran.
pub open spec fn outcome_of(job: Job, result: Result<(), JobFailure>) -> JobOutcome {
    match result {
        Ok(_) => JobOutcome::Complete(job.id),
        Err(failure) => JobOutcome::Fail {
            id: job.id,
            error: failure.message,
            should_retry: job.attempts < job.max_attempts,
            retry_after_secs: retry_after_of(failure.causes@),
        },
    }
}

/// What is recorded of a job that ran.
pub fn job_outcome(job: &Job, result: Result<(), JobFailure>) -> (r: JobOutcome)
    ensures
        match result {
            Ok(_) => r == JobOutcome::Complete(job.id),
            Err(failure) => r == (JobOutcome::Fail {
                id: job.id,
                error: failure.message,
                should_retry: job.attempts < job.max_attempts,
                retry_after_secs: retry_after_of(failure.causes@),
            }),
        },
        r == outcome_of(*job, result),
{
    match result {
        Ok(_) => JobOutcome::Complete(job.id),
        Err(failure) => {
            // The error chain may contain a rate limit
            let retry_after_secs = extract_retry_after(&failure.causes);
            JobOutcome::Fail {
                id: job.id,
                error: failure.message,
                should_retry: job.attempts < job.max_attempts,
                retry_after_secs,
            }
        },
    }
}

// --- Claiming ---

/// The place of the next job to be claimed, where there is one.
pub open spec fn next_place(jobs: Seq<Job>, now: Timestamp) -> Option<int> {
    if exists|k: int| is_next(jobs, now, k) {
        Some(choose|k: int| is_next(jobs, now, k))
    } else {
        None
    }
}

/// The queue after up to `free` jobs were claimed, one after the other, and these jobs.
pub open spec fn claimed_up_to(jobs: Seq<Job>, now: Timestamp, free: nat) -> (Seq<Job>, Seq<Job>)
    decreases free,
{
    if free == 0 || next_place(jobs, now) is None {
        (jobs, Seq::empty())
    } else {
        let k = next_place(jobs, now)->Some_0;
        let job = claimed_job(jobs[k], now);
        let (after, claimed) = claimed_up_to(jobs.update(k, job), now, (free - 1) as nat);
        (after, seq![job] + claimed)
    }
}

proof fn next_is_unique(jobs: Seq<Job>, now: Timestamp, k: int)
    requires
        is_next(jobs, now, k),
    ensures
        next_place(jobs, now) == Some(k),
{
    let other = choose|k: int| is_next(jobs, now, k);
    assert(is_next(jobs, now, other));
    assert(is_due(jobs[k], now) && is_due(jobs[other], now));
}

/// Claims jobs until no slot is free or no job can be claimed.
pub fn claim_jobs(jobs: &mut Vec<Job>, free: usize, now: Timestamp) -> (r: Vec<Job>)
    ensures
        (final(jobs)@, r@) == claimed_up_to(old(jobs)@, now, free as nat),
        r@.len() <= free,
        unique_job_ids(old(jobs)@) ==> unique_job_ids(final(jobs)@),
        within_attempts(old(jobs)@) ==> within_attempts(final(jobs)@),
{
    let mut claimed: Vec<Job> = Vec::new();
    let ghost whole = claimed_up_to(jobs@, now, free as nat);
    assert(claimed@ + whole.1 =~= whole.1);
    while claimed.len() < free
        invariant
            claimed@.len() <= free,
            ({
                let rest = claimed_up_to(jobs@, now, (free - claimed@.len()) as nat);
                whole == (rest.0, claimed@ + rest.1)
            }),
            whole == claimed_up_to(old(jobs)@, now, free as nat),
            unique_job_ids(old(jobs)@) ==> unique_job_ids(jobs@),
            within_attempts(old(jobs)@) ==> within_attempts(jobs@),
        decreases free - claimed.len(),
    {
        let ghost before = jobs@;
        let ghost taken = claimed@;
        match claim_next(jobs, now) {
            Some(job) => {
                proof {
                    let k = choose|k: int| #[trigger]
                        is_next(before, now, k) && job == claimed_job(before[k], now) && jobs@
                            == before.update(k, job);
                    next_is_unique(before, now, k);
                    let rest = claimed_up_to(jobs@, now, (free - taken.len() - 1) as nat);
                    assert(taken + (seq![job] + rest.1) =~= taken.push(job) + rest.1);
                }
                claimed.push(job);
            },
            None => {
                proof {
                    assert forall|k: int| !is_next(before, now, k) by {
                        if is_next(before, now, k) {
                            assert(is_due(before[k], now));
                        }
                    }
                    assert(taken + Seq::<Job>::empty() =~= taken);
                }
                return claimed;
            },
        }
    }
    assert(claimed@ + Seq::<Job>::empty() =~= claimed@);
    claimed
}

/// Every job that is claimed was due, and runs from then on.
pub proof fn claimed_jobs_run(jobs: Seq<Job>, now: Timestamp, free: nat)
    ensures
        claimed_up_to(jobs, now, free).0.len() == jobs.len(),
        claimed_up_to(jobs, now, free).1.len() <= free,
        forall|i: int|
            0 <= i < claimed_up_to(jobs, now, free).1.len() ==> (#[trigger] claimed_up_to(
                jobs,
                now,
                free,
            ).1[i]).status == JobStatus::Running,
    decreases free,
{
    if free > 0 && next_place(jobs, now) is Some {
        let k = next_place(jobs, now)->Some_0;
        let job = claimed_job(jobs[k], now);
        claimed_jobs_run(jobs.update(k, job), now, (free - 1) as nat);
        let rest = claimed_up_to(jobs.update(k, job), now, (free - 1) as nat);
        let all = claimed_up_to(jobs, now, free);
        assert forall|i: int| 0 <= i < all.1.len() implies (#[trigger] all.1[i]).status
            == JobStatus::Running by {
            if i > 0 {
                assert(all.1[i] == rest.1[i - 1]);
            }
        }
    }
}

/// Background job runner that processes the job queue, with a limit on how many jobs run at the
/// same time.
#[derive(Debug, Clone, Copy, PartialEq, Eq, Structural)]
pub struct JobRunner {
    /// Maximum concurrent jobs.
    pub max_concurrent: usize,
}

impl JobRunner {
    /// A runner with the given limit.
    pub fn new(max_concurrent: usize) -> (r: JobRunner)
        ensures
            r == (JobRunner { max_concurrent }),
    {
        JobRunner { max_concurrent }
    }

    /// How many more jobs may run beside those that run. However many are started, as long as it
    /// is no more than that, the limit is kept.
    pub fn free_slots(&self, running: usize) -> (r: usize)
        ensures
            r == if running < self.max_concurrent {
                self.max_concurrent - running
            } else {
                0
            },
            running <= self.max_concurrent ==> running + r <= self.max_concurrent,
    {
        if running < self.max_concurrent {
            self.max_concurrent - running
        } else {
            0
        }
    }
}

// --- Scheduling ---

/// What to do about a repository.
pub enum Decision {
    /// Nothing.
    Skip,
    /// Schedule a review.
    Schedule,
    /// Its last review cannot be read, for this reason.
    Unreadable(Seq<char>),
}

/// Some row of the repository says that a check is due.
pub open spec fn check_is_due(
    repos: Seq<Repo>,
    id: RepoId,
    interval_hours: i64,
    now: Timestamp,
) -> bool {
    exists|k: int|
        0 <= k < repos.len() && (#[trigger] repos[k]).id == id && is_check_due(
            repos[k],
            interval_hours,
            now,
        )
}

/// What to do about a repository: a review is scheduled if none is pending, some prompt is
/// enabled, a check is due, and the last review, if there is one, is over.
pub open spec fn decision(
    repos: Seq<Repo>,
    prompts: Seq<Prompt>,
    reviews: Seq<ReviewRow>,
    jobs: Seq<Job>,
    repo_id: RepoId,
    interval_hours: i64,
    now: Timestamp,
) -> Decision {
    if review_is_pending(jobs, repo_id) || !any_enabled(prompts, repo_id) || !check_is_due(
        repos,
        repo_id,
        interval_hours,
        now,
    ) {
        Decision::Skip
    } else {
        let listed = listing_of(reviews, repo_id);
        if listed.len() == 0 {
            Decision::Schedule
        } else if review_row_error(listed[0]) is Some {
            Decision::Unreadable(review_row_error(listed[0])->Some_0)
        } else if is_over_row(listed[0]) {
            Decision::Schedule
        } else {
            Decision::Skip
        }
    }
}

/// How scheduling ended.
pub enum ScheduleEnd {
    /// All repositories were looked at.
    Done,
    /// The last review of a repository cannot be read, for this reason.
    Unreadable(Seq<char>),
    /// No id is left for a new job.
    TableFull,
}

/// A job that reviews a repository if there are changes.
pub open spec fn scheduled_job(repo_id: RepoId, id: int, now: Timestamp) -> Job {
    created_job(
        NewJob {
            payload: JobPayload::ReviewRepo { repo_id, force: false },
            scheduled_at: now,
            max_attempts: DEFAULT_MAX_ATTEMPTS,
        },
        JobId(id as i64),
        now,
    )
}

/// The queue after a review was scheduled for each of the listed repositories that needs one, and
/// how that ended.
pub open spec fn scheduled(
    repos: Seq<Repo>,
    prompts: Seq<Prompt>,
    reviews: Seq<ReviewRow>,
    jobs: Seq<Job>,
    listed: Seq<Repo>,
    interval_hours: i64,
    now: Timestamp,
) -> (Seq<Job>, ScheduleEnd)
    decreases listed.len(),
{
    if listed.len() == 0 {
        (jobs, ScheduleEnd::Done)
    } else {
        match decision(repos, prompts, reviews, jobs, listed[0].id, interval_hours, now) {
            Decision::Unreadable(e) => (jobs, ScheduleEnd::Unreadable(e)),
            Decision::Skip => scheduled(
                repos,
                prompts,
                reviews,
                jobs,
                listed.drop_first(),
                interval_hours,
                now,
            ),
            Decision::Schedule => if next_id(job_ids(jobs)) > i64::MAX {
                (jobs, ScheduleEnd::TableFull)
            } else {
                scheduled(
                    repos,
                    prompts,
                    reviews,
                    jobs.push(scheduled_job(listed[0].id, next_id(job_ids(jobs)), now)),
                    listed.drop_first(),
                    interval_hours,
                    now,
                )
            },
        }
    }
}

/// Why scheduling ended early.
#[derive(Debug, Clone, Copy)]
pub enum ScheduleError {
    /// The last review of a repository cannot be read.
    Unreadable(&'static str),
    /// No id is left for a new job.
    TableFull,
}

fn decide(db: &Database, repo_id: RepoId, interval_hours: i64, now: &Timestamp) -> (r: Result<
    bool,
    &'static str,
>)
    ensures
        ({
            let d = decision(
                db.repos@,
                db.prompts@,
                db.reviews@,
                db.jobs@,
                repo_id,
                interval_hours,
                *now,
            );
            match r {
                Ok(true) => d is Schedule,
                Ok(false) => d is Skip,
                Err(e) => d == Decision::Unreadable(e@),
            }
        }),
{
    // Check if there's already a pending job
    if has_pending_review(&db.jobs, repo_id) {
        return Ok(false);
    }
    // Check if repo has any enabled prompts - skip if not.
    // This prevents a tight scheduling loop for repos where prompt creation
    // failed or all prompts have been disabled.

    if !has_enabled_prompts(&db.prompts, repo_id) {
        return Ok(false);
    }
    // Check if we've checked this repo recently (via last_checked_at).
    // This covers both successful reviews AND "no changes" early-returns.

    if !needs_check(&db.repos, repo_id, interval_hours, *now) {
        return Ok(false);
    }
    // Also check the last review status - don't schedule if one is still running.

    proof {
        status_texts_differ();
    }
    match get_latest_for_repo(&db.reviews, repo_id) {
        Ok(None) => Ok(true),
        Ok(Some(review)) => {
            assert(is_status_of(review.status, listing_of(db.reviews@, repo_id)[0]));
            Ok(review.status.is_terminal())
        },
        Err(e) => Err(e),
    }
}

/// Schedules reviews for the repositories that need them, the newest first. Where that ends early
/// the reviews scheduled so far stay.
pub fn schedule_daily_reviews(db: &mut Database, interval_hours: i64, now: Timestamp) -> (r: Result<
    (),
    ScheduleError,
>)
    ensures
        ({
            let (jobs, end) = scheduled(
                old(db).repos@,
                old(db).prompts@,
                old(db).reviews@,
                old(db).jobs@,
                newest_first(old(db).repos@),
                interval_hours,
                now,
            );
            &&& final(db).jobs@ == jobs
            &&& match r {
                Ok(_) => end is Done,
                Err(ScheduleError::Unreadable(e)) => end == ScheduleEnd::Unreadable(e@),
                Err(ScheduleError::TableFull) => end is TableFull,
            }
        }),
        final(db).repos == old(db).repos,
        final(db).prompts == old(db).prompts,
        final(db).reviews == old(db).reviews,
        final(db).results == old(db).results,
        unique_job_ids(old(db).jobs@) ==> unique_job_ids(final(db).jobs@),
        within_attempts(old(db).jobs@) ==> within_attempts(final(db).jobs@),
        r is Ok ==> adds_one_job_each(
            old(db).repos@,
            old(db).prompts@,
            old(db).reviews@,
            old(db).jobs@,
            final(db).jobs@,
            old(db).repos@,
            interval_hours,
            now,
        ),
{
    let all_repos = list_all(&db.repos);
    let mut i: usize = 0;
    assert(all_repos@.skip(0) =~= all_repos@);
    while i < all_repos.len()
        invariant
            i <= all_repos@.len(),
            all_repos@ == newest_first(old(db).repos@),
            db.repos == old(db).repos,
            db.prompts == old(db).prompts,
            db.reviews == old(db).reviews,
            db.results == old(db).results,
            unique_job_ids(old(db).jobs@) ==> unique_job_ids(db.jobs@),
            within_attempts(old(db).jobs@) ==> within_attempts(db.jobs@),
            scheduled(
                old(db).repos@,
                old(db).prompts@,
                old(db).reviews@,
                old(db).jobs@,
                all_repos@,
                interval_hours,
                now,
            ) == scheduled(
                old(db).repos@,
                old(db).prompts@,
                old(db).reviews@,
                db.jobs@,
                all_repos@.skip(i as int),
                interval_hours,
                now,
            ),
        decreases all_repos.len() - i,
    {
        assert(all_repos@.skip(i as int)[0] == all_repos@[i as int]);
        assert(all_repos@.skip(i as int).drop_first() =~= all_repos@.skip(i + 1));
        let repo_id = all_repos[i].id;
        match decide(db, repo_id, interval_hours, &now) {
            Ok(true) => {
                let new_job = NewJob::review_repo_at(repo_id, false, now);
                match create(&mut db.jobs, new_job, now) {
                    Ok(_) => {},
                    Err(_) => {
                        return Err(ScheduleError::TableFull);
                    },
                }
            },
            Ok(false) => {},
            Err(e) => {
                return Err(ScheduleError::Unreadable(e));
            },
        }
        i += 1;
    }
    proof {
        scheduling_adds_one_job_each(
            db.repos@,
            db.prompts@,
            db.reviews@,
            old(db).jobs@,
            interval_hours,
            now,
        );
    }
    Ok(())
}

/// The job with the given place is new in the queue: it was scheduled for the repository, and has
/// the next id.
pub open spec fn is_new_job(
    jobs: Seq<Job>,
    after: Seq<Job>,
    k: int,
    repo_id: RepoId,
    now: Timestamp,
) -> bool {
    &&& jobs.len() <= k < after.len()
    &&& after[k] == scheduled_job(repo_id, next_id(job_ids(jobs)) + k - jobs.len(), now)
}

/// The queue has grown by exactly one job for each of the wanted repositories whose review was to
/// be scheduled.
pub open spec fn adds_one_job_each(
    repos: Seq<Repo>,
    prompts: Seq<Prompt>,
    reviews: Seq<ReviewRow>,
    jobs: Seq<Job>,
    after: Seq<Job>,
    wanted: Seq<Repo>,
    interval_hours: i64,
    now: Timestamp,
) -> bool {
    &&& adds_only_needed_jobs(repos, prompts, reviews, jobs, after, wanted, interval_hours, now)
    &&& forall|i: int|
        #![trigger wanted[i]]
        0 <= i < wanted.len() && decision(
            repos,
            prompts,
            reviews,
            jobs,
            wanted[i].id,
            interval_hours,
            now,
        ) is Schedule ==> exists|k: int| is_new_job(jobs, after, k, wanted[i].id, now)
}

/// The queue has grown by jobs for wanted repositories alone, at most one each, and only for those
/// whose review was to be scheduled.
pub open spec fn adds_only_needed_jobs(
    repos: Seq<Repo>,
    prompts: Seq<Prompt>,
    reviews: Seq<ReviewRow>,
    jobs: Seq<Job>,
    after: Seq<Job>,
    wanted: Seq<Repo>,
    interval_hours: i64,
    now: Timestamp,
) -> bool {
    &&& jobs.is_prefix_of(after)
    &&& forall|k: int|
        #![trigger after[k]]
        jobs.len() <= k < after.len() ==> exists|i: int|
            0 <= i < wanted.len() && is_new_job(jobs, after, k, (#[trigger] wanted[i]).id, now)
    &&& forall|k: int, repo_id: RepoId| #[trigger]
        is_new_job(jobs, after, k, repo_id, now) ==> decision(
            repos,
            prompts,
            reviews,
            jobs,
            repo_id,
            interval_hours,
            now,
        ) is Schedule
    &&& forall|k: int, l: int, repo_id: RepoId|
        is_new_job(jobs, after, k, repo_id, now) && is_new_job(jobs, after, l, repo_id, now)
            ==> k == l
}

/// A job for a repository settles the decision about it, and no other.
proof fn job_settles_one_decision(
    repos: Seq<Repo>,
    prompts: Seq<Prompt>,
    reviews: Seq<ReviewRow>,
    jobs: Seq<Job>,
    id: int,
    scheduled_for: RepoId,
    repo_id: RepoId,
    interval_hours: i64,
    now: Timestamp,
)
    ensures
        ({
            let later = jobs.push(scheduled_job(scheduled_for, id, now));
            decision(repos, prompts, reviews, later, repo_id, interval_hours, now) == if repo_id
                == scheduled_for {
                Decision::Skip
            } else {
                decision(repos, prompts, reviews, jobs, repo_id, interval_hours, now)
            }
        }),
{
    let job = scheduled_job(scheduled_for, id, now);
    let later = jobs.push(job);
    pending_stays(jobs, job, repo_id);
    if repo_id != scheduled_for && review_is_pending(later, repo_id) {
        let i = choose|i: int| 0 <= i < later.len() && awaits_review(#[trigger] later[i], repo_id);
        assert(later[i] == jobs[i]);
    }
}

proof fn ids_follow_each_other(jobs: Seq<Job>, repo_id: RepoId, now: Timestamp)
    requires
        next_id(job_ids(jobs)) <= i64::MAX,
    ensures
        next_id(job_ids(jobs.push(scheduled_job(repo_id, next_id(job_ids(jobs)), now)))) == next_id(
            job_ids(jobs),
        ) + 1,
{
    let job = scheduled_job(repo_id, next_id(job_ids(jobs)), now);
    next_id_is_higher(job_ids(jobs));
    assert(job_ids(jobs.push(job)) =~= job_ids(jobs).push(job.id.0));
    assert(job_ids(jobs).push(job.id.0).drop_last() =~= job_ids(jobs));
}

/// Whatever list of repositories is looked at, and however that ends, a job is added only for a
/// repository of the list whose review was to be scheduled to begin with, at most one each, and
/// the queue is otherwise as it was. Where all were looked at, each such repository has its job.
pub proof fn scheduling_adds_needed_jobs(
    repos: Seq<Repo>,
    prompts: Seq<Prompt>,
    reviews: Seq<ReviewRow>,
    jobs: Seq<Job>,
    listed: Seq<Repo>,
    interval_hours: i64,
    now: Timestamp,
)
    ensures
        ({
            let (after, end) = scheduled(
                repos,
                prompts,
                reviews,
                jobs,
                listed,
                interval_hours,
                now,
            );
            &&& adds_only_needed_jobs(
                repos,
                prompts,
                reviews,
                jobs,
                after,
                listed,
                interval_hours,
                now,
            )
            &&& end is Done ==> adds_one_job_each(
                repos,
                prompts,
                reviews,
                jobs,
                after,
                listed,
                interval_hours,
                now,
            )
        }),
    decreases listed.len(),
{
    let (after, end) = scheduled(repos, prompts, reviews, jobs, listed, interval_hours, now);
    if listed.len() > 0 {
        let first = listed[0].id;
        let rest = listed.drop_first();
        let id = next_id(job_ids(jobs));
        let d = decision(repos, prompts, reviews, jobs, first, interval_hours, now);
        if d is Skip {
            scheduling_adds_needed_jobs(repos, prompts, reviews, jobs, rest, interval_hours, now);
            assert forall|k: int|
                #![trigger after[k]]
                jobs.len() <= k < after.len() implies exists|i: int|
                0 <= i < listed.len() && is_new_job(
                    jobs,
                    after,
                    k,
                    (#[trigger] listed[i]).id,
                    now,
                ) by {
                let i = choose|i: int|
                    0 <= i < rest.len() && is_new_job(
                        jobs,
                        after,
                        k,
                        (#[trigger] rest[i]).id,
                        now,
                    );
                assert(listed[i + 1] == rest[i]);
            }
            if end is Done {
                assert forall|i: int|
                    #![trigger listed[i]]
                    0 <= i < listed.len() && decision(
                        repos,
                        prompts,
                        reviews,
                        jobs,
                        listed[i].id,
                        interval_hours,
                        now,
                    ) is Schedule implies exists|k: int|
                    is_new_job(jobs, after, k, listed[i].id, now) by {
                    assert(listed[i] == rest[i - 1]);
                }
            }
        } else if d is Schedule && id <= i64::MAX {
            let job = scheduled_job(first, id, now);
            let later = jobs.push(job);
            ids_follow_each_other(jobs, first, now);
            scheduling_adds_needed_jobs(repos, prompts, reviews, later, rest, interval_hours, now);
            assert(after[jobs.len() as int] == later[jobs.len() as int]);
            assert(is_new_job(jobs, after, jobs.len() as int, first, now));
            assert forall|k: int, repo_id: RepoId| k > jobs.len() implies is_new_job(
                jobs,
                after,
                k,
                repo_id,
                now,
            ) == #[trigger] is_new_job(later, after, k, repo_id, now) by {}
            assert forall|k: int, repo_id: RepoId| #[trigger]
                is_new_job(jobs, after, k, repo_id, now) implies (k == jobs.len() ==> repo_id
                == first) && (k > jobs.len() ==> repo_id != first) && decision(
                repos,
                prompts,
                reviews,
                jobs,
                repo_id,
                interval_hours,
                now,
            ) is Schedule by {
                if k > jobs.len() {
                    assert(is_new_job(later, after, k, repo_id, now));
                    job_settles_one_decision(
                        repos,
                        prompts,
                        reviews,
                        jobs,
                        id,
                        first,
                        repo_id,
                        interval_hours,
                        now,
                    );
                } else {
                    assert(after[k].payload->repo_id == first);
                    assert(after[k].payload->repo_id == repo_id);
                }
            }
            assert forall|k: int|
                #![trigger after[k]]
                jobs.len() <= k < after.len() implies exists|i: int|
                0 <= i < listed.len() && is_new_job(
                    jobs,
                    after,
                    k,
                    (#[trigger] listed[i]).id,
                    now,
                ) by {
                if k == jobs.len() {
                    assert(listed[0].id == first);
                } else {
                    let i = choose|i: int|
                        0 <= i < rest.len() && is_new_job(
                            later,
                            after,
                            k,
                            (#[trigger] rest[i]).id,
                            now,
                        );
                    assert(listed[i + 1] == rest[i]);
                }
            }
            assert forall|k: int, l: int, repo_id: RepoId|
                is_new_job(jobs, after, k, repo_id, now) && is_new_job(
                    jobs,
                    after,
                    l,
                    repo_id,
                    now,
                ) implies k == l by {
                if k > jobs.len() && l > jobs.len() {
                    assert(is_new_job(later, after, k, repo_id, now));
                    assert(is_new_job(later, after, l, repo_id, now));
                }
            }
            assert(jobs.is_prefix_of(after)) by {
                assert(forall|i: int| 0 <= i < jobs.len() ==> jobs[i] == later[i]);
            }
            if end is Done {
                assert forall|i: int|
                    #![trigger listed[i]]
                    0 <= i < listed.len() && decision(
                        repos,
                        prompts,
                        reviews,
                        jobs,
                        listed[i].id,
                        interval_hours,
                        now,
                    ) is Schedule implies exists|k: int|
                    is_new_job(jobs, after, k, listed[i].id, now) by {
                    let repo_id = listed[i].id;
                    if repo_id == first {
                        assert(is_new_job(jobs, after, jobs.len() as int, repo_id, now));
                    } else {
                        assert(listed[i] == rest[i - 1]);
                        job_settles_one_decision(
                            repos,
                            prompts,
                            reviews,
                            jobs,
                            id,
                            first,
                            repo_id,
                            interval_hours,
                            now,
                        );
                        let k = choose|k: int| is_new_job(later, after, k, repo_id, now);
                        assert(is_new_job(jobs, after, k, repo_id, now));
                    }
                }
            }
        }
    }
}

/// Scheduling that comes to its end adds exactly one job for each repository whose review was to
/// be scheduled, and nothing else.
pub proof fn scheduling_adds_one_job_each(
    repos: Seq<Repo>,
    prompts: Seq<Prompt>,
    reviews: Seq<ReviewRow>,
    jobs: Seq<Job>,
    interval_hours: i64,
    now: Timestamp,
)
    requires
        is_order(newest_keys(repos), the_order(newest_keys(repos))),
        scheduled(
            repos,
            prompts,
            reviews,
            jobs,
            newest_first(repos),
            interval_hours,
            now,
        ).1 is Done,
    ensures
        adds_one_job_each(
            repos,
            prompts,
            reviews,
            jobs,
            scheduled(
                repos,
                prompts,
                reviews,
                jobs,
                newest_first(repos),
                interval_hours,
                now,
            ).0,
            repos,
            interval_hours,
            now,
        ),
{
    let keys = newest_keys(repos);
    let order = the_order(keys);
    let listed = newest_first(repos);
    let after = scheduled(repos, prompts, reviews, jobs, listed, interval_hours, now).0;
    scheduling_adds_needed_jobs(repos, prompts, reviews, jobs, listed, interval_hours, now);
    assert forall|k: int|
        #![trigger after[k]]
        jobs.len() <= k < after.len() implies exists|i: int|
        0 <= i < repos.len() && is_new_job(jobs, after, k, (#[trigger] repos[i]).id, now) by {
        let i = choose|i: int|
            0 <= i < listed.len() && is_new_job(jobs, after, k, (#[trigger] listed[i]).id, now);
        assert(listed[i] == repos[order[i] as int]);
        assert(order[i] < keys.len());
    }
    assert forall|m: int|
        #![trigger repos[m]]
        0 <= m < repos.len() && decision(
            repos,
            prompts,
            reviews,
            jobs,
            repos[m].id,
            interval_hours,
            now,
        ) is Schedule implies exists|k: int| is_new_job(jobs, after, k, repos[m].id, now) by {
        order_lists_each_row_once(keys, order, m);
        let i = choose|i: int| 0 <= i < order.len() && order[i] == m;
        assert(listed[i] == repos[m]);
    }
}

/// A review that is pending stays so when jobs are added.
proof fn pending_stays(jobs: Seq<Job>, job: Job, repo_id: RepoId)
    ensures
        review_is_pending(jobs, repo_id) ==> review_is_pending(jobs.push(job), repo_id),
        awaits_review(job, repo_id) ==> review_is_pending(jobs.push(job), repo_id),
{
    if review_is_pending(jobs, repo_id) {
        let i = choose|i: int| 0 <= i < jobs.len() && awaits_review(#[trigger] jobs[i], repo_id);
        assert(jobs.push(job)[i] == jobs[i]);
    }
    if awaits_review(job, repo_id) {
        assert(jobs.push(job)[jobs.len() as int] == job);
    }
}

/// Scheduling only adds to the queue: what is pending stays pending.
proof fn scheduling_keeps_pending(
    repos: Seq<Repo>,
    prompts: Seq<Prompt>,
    reviews: Seq<ReviewRow>,
    jobs: Seq<Job>,
    listed: Seq<Repo>,
    interval_hours: i64,
    now: Timestamp,
    repo_id: RepoId,
)
    ensures
        review_is_pending(jobs, repo_id) ==> review_is_pending(
            scheduled(repos, prompts, reviews, jobs, listed, interval_hours, now).0,
            repo_id,
        ),
    decreases listed.len(),
{
    if listed.len() > 0 {
        let job = scheduled_job(listed[0].id, next_id(job_ids(jobs)), now);
        pending_stays(jobs, job, repo_id);
        scheduling_keeps_pending(
            repos,
            prompts,
            reviews,
            jobs,
            listed.drop_first(),
            interval_hours,
            now,
            repo_id,
        );
        scheduling_keeps_pending(
            repos,
            prompts,
            reviews,
            jobs.push(job),
            listed.drop_first(),
            interval_hours,
            now,
            repo_id,
        );
    }
}

/// Once all repositories were looked at, none of them needs a review to be scheduled any more.
pub proof fn scheduling_leaves_nothing_to_schedule(
    repos: Seq<Repo>,
    prompts: Seq<Prompt>,
    reviews: Seq<ReviewRow>,
    jobs: Seq<Job>,
    listed: Seq<Repo>,
    interval_hours: i64,
    now: Timestamp,
    i: int,
)
    requires
        scheduled(repos, prompts, reviews, jobs, listed, interval_hours, now).1 is Done,
        0 <= i < listed.len(),
    ensures
        decision(
            repos,
            prompts,
            reviews,
            scheduled(repos, prompts, reviews, jobs, listed, interval_hours, now).0,
            listed[i].id,
            interval_hours,
            now,
        ) is Skip,
    decreases listed.len(),
{
    let repo_id = listed[0].id;
    let rest = listed.drop_first();
    let job = scheduled_job(repo_id, next_id(job_ids(jobs)), now);
    let first = decision(repos, prompts, reviews, jobs, repo_id, interval_hours, now);
    let later = if first is Schedule {
        jobs.push(job)
    } else {
        jobs
    };
    if i > 0 {
        assert(listed[i] == rest[i - 1]);
        scheduling_leaves_nothing_to_schedule(
            repos,
            prompts,
            reviews,
            later,
            rest,
            interval_hours,
            now,
            i - 1,
        );
    } else {
        pending_stays(jobs, job, repo_id);
        scheduling_keeps_pending(
            repos,
            prompts,
            reviews,
            later,
            rest,
            interval_hours,
            now,
            repo_id,
        );
    }
}

/// Scheduling again at the same time adds nothing.
pub proof fn scheduling_again_adds_nothing(
    repos: Seq<Repo>,
    prompts: Seq<Prompt>,
    reviews: Seq<ReviewRow>,
    jobs: Seq<Job>,
    listed: Seq<Repo>,
    interval_hours: i64,
    now: Timestamp,
)
    requires
        scheduled(repos, prompts, reviews, jobs, listed, interval_hours, now).1 is Done,
    ensures
        ({
            let after = scheduled(repos, prompts, reviews, jobs, listed, interval_hours, now).0;
            scheduled(repos, prompts, reviews, after, listed, interval_hours, now) == (
                after,
                ScheduleEnd::Done,
            )
        }),
{
    let after = scheduled(repos, prompts, reviews, jobs, listed, interval_hours, now).0;
    assert forall|i: int| 0 <= i < listed.len() implies decision(
        repos,
        prompts,
        reviews,
        after,
        (#[trigger] listed[i]).id,
        interval_hours,
        now,
    ) is Skip by {
        scheduling_leaves_nothing_to_schedule(
            repos,
            prompts,
            reviews,
            jobs,
            listed,
            interval_hours,
            now,
            i,
        );
    }
    nothing_to_schedule(repos, prompts, reviews, after, listed, interval_hours, now);
}

proof fn nothing_to_schedule(
    repos: Seq<Repo>,
    prompts: Seq<Prompt>,
    reviews: Seq<ReviewRow>,
    jobs: Seq<Job>,
    listed: Seq<Repo>,
    interval_hours: i64,
    now: Timestamp,
)
    requires
        forall|i: int|
            0 <= i < listed.len() ==> decision(
                repos,
                prompts,
                reviews,
                jobs,
                (#[trigger] listed[i]).id,
                interval_hours,
                now,
            ) is Skip,
    ensures
        scheduled(repos, prompts, reviews, jobs, listed, interval_hours, now) == (
            jobs,
            ScheduleEnd::Done,
        ),
    decreases listed.len(),
{
    if listed.len() > 0 {
        let rest = listed.drop_first();
        assert forall|i: int| 0 <= i < rest.len() implies decision(
            repos,
            prompts,
            reviews,
            jobs,
            (#[trigger] rest[i]).id,
            interval_hours,
            now,
        ) is Skip by {
            assert(rest[i] == listed[i + 1]);
        }
        assert(listed[0] == listed[0]);
        nothing_to_schedule(repos, prompts, reviews, jobs, rest, interval_hours, now);
    }
}

// --- Running and stopping ---

/// How long running jobs are waited for on shutdown, in milliseconds.
pub const SHUTDOWN_TIMEOUT_MILLIS: u64 = 60_000;

/// What the runner hears while it runs.
#[derive(Debug, Clone, Copy, PartialEq, Eq, Structural)]
pub enum RunnerEvent {
    /// It is time to look at the queue.
    Tick,
    /// A job has ended.
    JobEnded,
    /// The shutdown signal has changed, to this value.
    ShutdownChanged(bool),
}

/// What the runner does next.
#[derive(Debug, Clone, Copy, PartialEq, Eq, Structural)]
pub enum RunnerAction {
    /// Look at the queue: reclaim, claim and schedule.
    Tick,
    /// Go on waiting.
    Wait,
    /// Stop claiming jobs, and wait for those that run.
    ShutDown,
}

/// What the runner does next.
pub open spec fn action_on(event: RunnerEvent) -> RunnerAction {
    match event {
        RunnerEvent::Tick => RunnerAction::Tick,
        RunnerEvent::JobEnded => RunnerAction::Wait,
        RunnerEvent::ShutdownChanged(requested) => if requested {
            RunnerAction::ShutDown
        } else {
            RunnerAction::Wait
        },
    }
}

/// What the runner does next.
pub fn on_event(event: RunnerEvent) -> (r: RunnerAction)
    ensures
        r == match event {
            RunnerEvent::Tick => RunnerAction::Tick,
            RunnerEvent::JobEnded => RunnerAction::Wait,
            RunnerEvent::ShutdownChanged(requested) => if requested {
                RunnerAction::ShutDown
            } else {
                RunnerAction::Wait
            },
        },
        r == action_on(event),
{
    match event {
        RunnerEvent::Tick => RunnerAction::Tick,
        RunnerEvent::JobEnded => RunnerAction::Wait,
        RunnerEvent::ShutdownChanged(requested) => if requested {
            RunnerAction::ShutDown
        } else {
            RunnerAction::Wait
        },
    }
}

/// What a wait for a job ended with.
#[derive(Debug, Clone, Copy, PartialEq, Eq, Structural)]
pub enum WaitEnd {
    /// A job has ended, well or not.
    JobEnded,
    /// There was no job to wait for.
    NoJobs,
    /// The time was over.
    TimedOut,
}

/// What to do while shutting down.
#[derive(Debug, Clone, Copy, PartialEq, Eq, Structural)]
pub enum ShutdownStep {
    /// Nothing: no job runs any more.
    Done,
    /// Wait for a job to end, for no longer than so many milliseconds.
    Wait(u64),
    /// Abort the jobs that still run.
    Abort,
}

/// A shutdown: it waits for running jobs until a deadline, in milliseconds of a clock that does
/// not go back.
#[derive(Debug, Clone, Copy, PartialEq, Eq, Structural)]
pub struct Shutdown {
    /// The deadline.
    pub deadline: u64,
}

/// What to do with so many jobs running, before and after the deadline.
pub open spec fn step_with(deadline: u64, running: usize, now: u64) -> ShutdownStep {
    if running == 0 {
        ShutdownStep::Done
    } else if now >= deadline {
        ShutdownStep::Abort
    } else {
        ShutdownStep::Wait((deadline - now) as u64)
    }
}

impl Shutdown {
    /// A shutdown that begins now.
    pub fn begin(now: u64) -> (r: Shutdown)
        requires
            now + SHUTDOWN_TIMEOUT_MILLIS <= u64::MAX,
        ensures
            r.deadline == now + SHUTDOWN_TIMEOUT_MILLIS,
            r.deadline == now + 60_000,
    {
        Shutdown { deadline: now + SHUTDOWN_TIMEOUT_MILLIS }
    }

    /// What to do with so many jobs running. A wait ends at the deadline.
    pub fn next(&self, running: usize, now: u64) -> (r: ShutdownStep)
        ensures
            r == if running == 0 {
                ShutdownStep::Done
            } else if now >= self.deadline {
                ShutdownStep::Abort
            } else {
                ShutdownStep::Wait((self.deadline - now) as u64)
            },
            r == step_with(self.deadline, running, now),
    {
        if running == 0 {
            ShutdownStep::Done
        } else if now >= self.deadline {
            ShutdownStep::Abort
        } else {
            ShutdownStep::Wait(self.deadline - now)
        }
    }

    /// What to do after a wait: look again after a job has ended, else the end.
    pub fn after_wait(&self, end: WaitEnd, running: usize, now: u64) -> (r: ShutdownStep)
        ensures
            r == match end {
                WaitEnd::JobEnded => if running == 0 {
                    ShutdownStep::Done
                } else if now >= self.deadline {
                    ShutdownStep::Abort
                } else {
                    ShutdownStep::Wait((self.deadline - now) as u64)
                },
                WaitEnd::NoJobs => ShutdownStep::Done,
                WaitEnd::TimedOut => ShutdownStep::Abort,
            },
            end == WaitEnd::JobEnded ==> r == step_with(self.deadline, running, now),
    {
        match end {
            WaitEnd::JobEnded => self.next(running, now),
            WaitEnd::NoJobs => ShutdownStep::Done,
            WaitEnd::TimedOut => ShutdownStep::Abort,
        }
    }
}

// --- Which repositories are scheduled ---

/// The review in the row is over: its status says that it completed or failed.
pub open spec fn says_it_is_over(row: ReviewRow) -> bool {
    seq!["completed"@, "failed"@].contains(row.status@)
}

/// No job for the repository waits or runs, some prompt of it is enabled, it was never checked or
/// the interval has passed since, and its latest review, if there is one, can be read and is over.
pub open spec fn is_in_need(
    repos: Seq<Repo>,
    prompts: Seq<Prompt>,
    reviews: Seq<ReviewRow>,
    jobs: Seq<Job>,
    repo_id: RepoId,
    interval_hours: i64,
    now: Timestamp,
) -> bool {
    &&& forall|k: int|
        #![trigger jobs[k]]
        0 <= k < jobs.len() && jobs[k].payload->repo_id == repo_id ==> jobs[k].status
            != JobStatus::Pending && jobs[k].status != JobStatus::Running
    &&& exists|k: int|
        #![trigger prompts[k]]
        0 <= k < prompts.len() && prompts[k].enabled && prompts[k].repo_id == repo_id
    &&& exists|k: int|
        #![trigger repos[k]]
        0 <= k < repos.len() && repos[k].id == repo_id && (repos[k].last_checked_at is None
            || now.secs() - repos[k].last_checked_at->Some_0.secs() > 3600 * interval_hours)
    &&& listing_of(reviews, repo_id).len() == 0 || review_row_error(
        listing_of(reviews, repo_id)[0],
    ) is None && says_it_is_over(listing_of(reviews, repo_id)[0])
}

/// A review is to be scheduled for exactly the repositories that are in need of one.
pub proof fn repositories_in_need_are_scheduled(
    repos: Seq<Repo>,
    prompts: Seq<Prompt>,
    reviews: Seq<ReviewRow>,
    jobs: Seq<Job>,
    repo_id: RepoId,
    interval_hours: i64,
    now: Timestamp,
)
    ensures
        decision(repos, prompts, reviews, jobs, repo_id, interval_hours, now) is Schedule
            <==> is_in_need(repos, prompts, reviews, jobs, repo_id, interval_hours, now),
{
    let over = seq!["completed"@, "failed"@];
    assert(over[0] == "completed"@ && over[1] == "failed"@);
    if review_is_pending(jobs, repo_id) {
        let k = choose|k: int| 0 <= k < jobs.len() && awaits_review(#[trigger] jobs[k], repo_id);
        assert(jobs[k].payload->repo_id == repo_id);
    } else {
        assert forall|k: int|
            #![trigger jobs[k]]
            0 <= k < jobs.len() && jobs[k].payload->repo_id == repo_id implies jobs[k].status
            != JobStatus::Pending && jobs[k].status != JobStatus::Running by {
            assert(!awaits_review(jobs[k], repo_id));
        }
    }
    if any_enabled(prompts, repo_id) {
        let k = choose|k: int|
            0 <= k < prompts.len() && (#[trigger] prompts[k]).repo_id == repo_id
                && prompts[k].enabled;
        assert(prompts[k].enabled && prompts[k].repo_id == repo_id);
    }
    if check_is_due(repos, repo_id, interval_hours, now) {
        let k = choose|k: int|
            0 <= k < repos.len() && (#[trigger] repos[k]).id == repo_id && is_check_due(
                repos[k],
                interval_hours,
                now,
            );
        assert(repos[k].last_checked_at is None || now.secs()
            - repos[k].last_checked_at->Some_0.secs() > 3600 * interval_hours);
    }
    if exists|k: int|
        #![trigger repos[k]]
        0 <= k < repos.len() && repos[k].id == repo_id && (repos[k].last_checked_at is None
            || now.secs() - repos[k].last_checked_at->Some_0.secs() > 3600 * interval_hours) {
        let k = choose|k: int|
            #![trigger repos[k]]
            0 <= k < repos.len() && repos[k].id == repo_id && (repos[k].last_checked_at is None
                || now.secs() - repos[k].last_checked_at->Some_0.secs() > 3600 * interval_hours);
        assert(is_check_due(repos[k], interval_hours, now));
    }
}

/// Once reviews were scheduled, each repository that was in need of one has a new job, which waits
/// to be run from now on and reviews the repository only if there are changes; and whatever new job
/// there is reviews a repository that was in need.
pub proof fn repositories_in_need_get_a_job(
    repos: Seq<Repo>,
    prompts: Seq<Prompt>,
    reviews: Seq<ReviewRow>,
    jobs: Seq<Job>,
    after: Seq<Job>,
    m: int,
    interval_hours: i64,
    now: Timestamp,
)
    requires
        adds_one_job_each(repos, prompts, reviews, jobs, after, repos, interval_hours, now),
        0 <= m < repos.len(),
    ensures
        jobs.is_prefix_of(after),
        is_in_need(repos, prompts, reviews, jobs, repos[m].id, interval_hours, now) <==> exists|
            k: int,
        |
            #![trigger after[k]]
            jobs.len() <= k < after.len() && after[k].payload == (JobPayload::ReviewRepo {
                repo_id: repos[m].id,
                force: false,
            }),
        forall|k: int|
            #![trigger after[k]]
            jobs.len() <= k < after.len() ==> {
                &&& after[k].status == JobStatus::Pending
                &&& after[k].scheduled_at == now
                &&& after[k].attempts == 0
                &&& after[k].max_attempts == 3
                &&& !after[k].payload->force
                &&& is_in_need(
                    repos,
                    prompts,
                    reviews,
                    jobs,
                    after[k].payload->repo_id,
                    interval_hours,
                    now,
                )
            },
{
    let id = repos[m].id;
    repositories_in_need_are_scheduled(repos, prompts, reviews, jobs, id, interval_hours, now);
    if is_in_need(repos, prompts, reviews, jobs, id, interval_hours, now) {
        let k = choose|k: int| is_new_job(jobs, after, k, id, now);
        assert(after[k].payload == (JobPayload::ReviewRepo { repo_id: id, force: false }));
    }
    assert forall|k: int|
        #![trigger after[k]]
        jobs.len() <= k < after.len() implies {
        &&& after[k].status == JobStatus::Pending
        &&& after[k].scheduled_at == now
        &&& after[k].attempts == 0
        &&& after[k].max_attempts == 3
        &&& !after[k].payload->force
        &&& is_in_need(
            repos,
            prompts,
            reviews,
            jobs,
            after[k].payload->repo_id,
            interval_hours,
            now,
        )
    } by {
        let i = choose|i: int|
            0 <= i < repos.len() && is_new_job(jobs, after, k, (#[trigger] repos[i]).id, now);
        repositories_in_need_are_scheduled(
            repos,
            prompts,
            reviews,
            jobs,
            repos[i].id,
            interval_hours,
            now,
        );
    }
}

/// Scheduling ends early exactly at a repository that would otherwise be in need and whose latest
/// review cannot be read.
pub proof fn unreadable_review_stands_in_the_way(
    repos: Seq<Repo>,
    prompts: Seq<Prompt>,
    reviews: Seq<ReviewRow>,
    jobs: Seq<Job>,
    repo_id: RepoId,
    interval_hours: i64,
    now: Timestamp,
)
    ensures
        ({
            let listed = listing_of(reviews, repo_id);
            let d = decision(repos, prompts, reviews, jobs, repo_id, interval_hours, now);
            &&& d is Unreadable <==> listed.len() > 0 && review_row_error(listed[0]) is Some
                && is_in_need(repos, prompts, Seq::empty(), jobs, repo_id, interval_hours, now)
            &&& d is Unreadable ==> Some(d->Unreadable_0) == review_row_error(listed[0])
        }),
{
    repositories_in_need_are_scheduled(
        repos,
        prompts,
        reviews,
        jobs,
        repo_id,
        interval_hours,
        now,
    );
    repositories_in_need_are_scheduled(
        repos,
        prompts,
        Seq::empty(),
        jobs,
        repo_id,
        interval_hours,
        now,
    );
    listing_is_newest_first(Seq::empty(), repo_id);
    reviews_are_those_of_the_repo(Seq::empty(), arbitrary(), repo_id);
}

// --- Which jobs are claimed, and how they end ---

/// The wait that a failure asks for is that of the first rate limit in its chain of errors, and
/// there is none without a rate limit.
pub proof fn first_rate_limit_counts(causes: Seq<ErrorCause>, i: int, secs: u32)
    ensures
        (forall|j: int|
            0 <= j < causes.len() ==> !((#[trigger] causes[j]) is Llm && causes[j]->Llm_0
                is RateLimited)) ==> retry_after_of(causes) is None,
        0 <= i < causes.len() && causes[i] == ErrorCause::Llm(
            LlmError::RateLimited { retry_after_secs: secs },
        ) && (forall|j: int|
            0 <= j < i ==> !((#[trigger] causes[j]) is Llm && causes[j]->Llm_0 is RateLimited))
            ==> retry_after_of(causes) == Some(secs),
    decreases causes.len(),
{
    if causes.len() > 0 {
        let rest = causes.drop_first();
        first_rate_limit_counts(rest, i - 1, secs);
        assert(forall|j: int| 0 <= j < rest.len() ==> #[trigger] rest[j] == causes[j + 1]);
        if i > 0 && i < causes.len() {
            assert(rest[i - 1] == causes[i]);
        }
    }
}

/// Where some job is due, one is next.
proof fn some_job_is_next(jobs: Seq<Job>, now: Timestamp, j: int, n: int) -> (k: int)
    requires
        0 <= j < n <= jobs.len(),
        is_due(jobs[j], now),
    ensures
        0 <= k < n,
        is_due(jobs[k], now),
        forall|i: int|
            0 <= i < n && is_due(#[trigger] jobs[i], now) ==> {
                &&& !jobs[i].scheduled_at.before(jobs[k].scheduled_at)
                &&& i < k ==> jobs[k].scheduled_at.before(jobs[i].scheduled_at)
            },
    decreases n,
{
    let last = n - 1;
    if exists|i: int| 0 <= i < last && is_due(#[trigger] jobs[i], now) {
        let i = choose|i: int| 0 <= i < last && is_due(#[trigger] jobs[i], now);
        let best = some_job_is_next(jobs, now, i, last);
        if is_due(jobs[last], now) && jobs[last].scheduled_at.before(jobs[best].scheduled_at) {
            assert forall|i: int| 0 <= i < n && is_due(#[trigger] jobs[i], now) implies {
                &&& !jobs[i].scheduled_at.before(jobs[last].scheduled_at)
                &&& i < last ==> jobs[last].scheduled_at.before(jobs[i].scheduled_at)
            } by {
                timestamps_are_totally_ordered(
                    jobs[last].scheduled_at,
                    jobs[best].scheduled_at,
                    jobs[i].scheduled_at,
                );
                timestamps_are_totally_ordered(
                    jobs[best].scheduled_at,
                    jobs[i].scheduled_at,
                    jobs[last].scheduled_at,
                );
            }
            last
        } else {
            best
        }
    } else {
        assert(j == last);
        last
    }
}

/// A job that was claimed, as it was before and as it is after.
pub open spec fn is_claim_of(job: Job, after: Job, now: Timestamp) -> bool {
    &&& job.status == JobStatus::Pending
    &&& job.scheduled_at == now || job.scheduled_at.before(now)
    &&& after.status == JobStatus::Running
    &&& after.id == job.id
    &&& after.payload == job.payload
    &&& after.scheduled_at == job.scheduled_at
    &&& after.started_at == Some(now)
    &&& job.attempts < u32::MAX ==> after.attempts == job.attempts + 1
}

/// Jobs are claimed as long as slots are free: when a slot is left, no job is due any more. Every
/// other job stays as it was, and those claimed are handed out as they stand in the queue.
pub proof fn due_jobs_fill_the_slots(jobs: Seq<Job>, now: Timestamp, free: nat)
    ensures
        ({
            let (after, claimed) = claimed_up_to(jobs, now, free);
            &&& after.len() == jobs.len()
            &&& claimed.len() <= free
            &&& claimed.len() < free ==> forall|k: int|
                #![trigger after[k]]
                0 <= k < after.len() && after[k].status == JobStatus::Pending ==> now.before(
                    after[k].scheduled_at,
                )
            &&& forall|k: int|
                #![trigger after[k]]
                0 <= k < after.len() ==> after[k] == jobs[k] || is_claim_of(jobs[k], after[k], now)
                    && claimed.contains(after[k])
            &&& forall|i: int|
                #![trigger claimed[i]]
                0 <= i < claimed.len() ==> exists|k: int|
                    0 <= k < jobs.len() && is_claim_of(#[trigger] jobs[k], claimed[i], now)
                        && after[k] == claimed[i]
        }),
    decreases free,
{
    let (after, claimed) = claimed_up_to(jobs, now, free);
    if free > 0 {
        if exists|k: int| is_next(jobs, now, k) {
            let k = choose|k: int| is_next(jobs, now, k);
            next_is_unique(jobs, now, k);
            let job = claimed_job(jobs[k], now);
            let later = jobs.update(k, job);
            let (end, others) = claimed_up_to(later, now, (free - 1) as nat);
            timestamps_are_totally_ordered(jobs[k].scheduled_at, now, now);
            assert(is_claim_of(jobs[k], job, now));
            due_jobs_fill_the_slots(later, now, (free - 1) as nat);
            assert(claimed =~= seq![job] + others);
            assert(claimed[0] == job);
            assert(end[k] == later[k]);
            assert forall|i: int|
                #![trigger after[i]]
                0 <= i < after.len() implies after[i] == jobs[i] || is_claim_of(
                jobs[i],
                after[i],
                now,
            ) && claimed.contains(after[i]) by {
                if i != k && end[i] != later[i] {
                    let x = choose|x: int| 0 <= x < others.len() && others[x] == end[i];
                    assert(claimed[x + 1] == end[i]);
                }
            }
            assert forall|i: int| #![trigger claimed[i]] 0 <= i < claimed.len() implies exists|m: int|
                0 <= m < jobs.len() && is_claim_of(#[trigger] jobs[m], claimed[i], now) && after[m]
                    == claimed[i] by {
                if i == 0 {
                    assert(is_claim_of(jobs[k], claimed[0], now));
                } else {
                    assert(claimed[i] == others[i - 1]);
                    let m = choose|m: int|
                        0 <= m < later.len() && is_claim_of(#[trigger] later[m], others[i - 1], now)
                            && end[m] == others[i - 1];
                    assert(m != k);
                    assert(later[m] == jobs[m]);
                }
            }
        } else {
            assert forall|k: int|
                #![trigger after[k]]
                0 <= k < after.len() && after[k].status == JobStatus::Pending implies now.before(
                after[k].scheduled_at,
            ) by {
                if is_due(jobs[k], now) {
                    let m = some_job_is_next(jobs, now, k, jobs.len() as int);
                    assert(is_next(jobs, now, m));
                }
            }
        }
    }
}

/// Jobs are claimed in the order of the times that they are scheduled for.
pub proof fn jobs_are_claimed_in_order(jobs: Seq<Job>, now: Timestamp, free: nat, i: int)
    requires
        0 <= i,
        i + 1 < claimed_up_to(jobs, now, free).1.len(),
    ensures
        ({
            let claimed = claimed_up_to(jobs, now, free).1;
            !claimed[i + 1].scheduled_at.before(claimed[i].scheduled_at)
        }),
    decreases free,
{
    let k = next_place(jobs, now)->Some_0;
    let job = claimed_job(jobs[k], now);
    let later = jobs.update(k, job);
    let others = claimed_up_to(later, now, (free - 1) as nat).1;
    let claimed = claimed_up_to(jobs, now, free).1;
    assert(claimed =~= seq![job] + others);
    if i > 0 {
        jobs_are_claimed_in_order(later, now, (free - 1) as nat, i - 1);
        assert(claimed[i] == others[i - 1]);
        assert(claimed[i + 1] == others[i]);
    } else {
        assert(is_next(jobs, now, k));
        let m = next_place(later, now)->Some_0;
        assert(is_next(later, now, m));
        assert(m != k);
        assert(later[m] == jobs[m]);
        assert(is_due(jobs[m], now));
        assert(claimed[1] == others[0]);
        assert(others[0] == claimed_job(later[m], now));
    }
}

/// A job that ran well is completed. One that failed is recorded with what the failure says, may be
/// tried again as long as attempts are left, and waits as long as the first rate limit asks.
pub proof fn outcome_is_that_of_the_job(job: Job, failure: JobFailure)
    ensures
        outcome_of(job, Ok(())) == JobOutcome::Complete(job.id),
        ({
            let failed = outcome_of(job, Err(failure));
            &&& failed is Fail
            &&& failed->id == job.id
            &&& failed->error == failure.message
            &&& failed->should_retry <==> job.max_attempts > job.attempts
            &&& failed->retry_after_secs == retry_after_of(failure.causes@)
        }),
{
}

/// The runner looks at its queue at every tick, stops when it is asked to, and else goes on waiting.
pub proof fn runner_stops_only_when_asked(event: RunnerEvent)
    ensures
        action_on(event) is Tick <==> event is Tick,
        action_on(event) is ShutDown <==> event == RunnerEvent::ShutdownChanged(true),
        action_on(event) is Wait <==> event is JobEnded || event == RunnerEvent::ShutdownChanged(
            false,
        ),
{
}

/// A shutdown is done as soon as no job runs. While jobs run it waits, but never past its deadline,
/// and jobs are aborted only then.
pub proof fn shutdown_waits_until_its_deadline(deadline: u64, running: usize, now: u64)
    ensures
        step_with(deadline, running, now) is Done <==> running == 0,
        step_with(deadline, running, now) is Abort <==> running > 0 && now >= deadline,
        step_with(deadline, running, now) is Wait <==> running > 0 && now < deadline,
        step_with(deadline, running, now) is Wait ==> now + step_with(
            deadline,
            running,
            now,
        )->Wait_0 == deadline,
{
}

} // verus!
