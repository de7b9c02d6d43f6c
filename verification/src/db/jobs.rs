//! The job queue.

use vstd::prelude::*;

use crate::db::{next_id, next_id_is_higher, raise_next_id, DbError};
use crate::domain::ids::{JobId, RepoId};
use crate::domain::job::{
    clone_text, job_status_text_roundtrips, Job, JobPayload, JobStatus, NewJob,
};
use crate::domain::repo::option_text;
use crate::time::{
    is_readable_column, is_stored_as, is_stored_in, is_writable, optional_rfc3339, read_column,
    read_text, stored_instant, stored_once, stored_once_in, timestamps_are_totally_ordered, Column,
    Timestamp, INVALID_DATE, MAX_SECS,
};

verus! {

// --- Creating ---

/// The ids of a list of jobs.
pub open spec fn job_ids(jobs: Seq<Job>) -> Seq<i64> {
    jobs.map_values(|j: Job| j.id.0)
}

/// A job as it enters the queue, with its creation noted to the second.
pub open spec fn created_job(new_job: NewJob, id: JobId, now: Timestamp) -> Job {
    Job {
        id,
        payload: new_job.payload,
        status: JobStatus::Pending,
        attempts: 0,
        max_attempts: new_job.max_attempts,
        scheduled_at: new_job.scheduled_at,
        started_at: None,
        completed_at: None,
        last_error: None,
        last_heartbeat: None,
        created_at: now.at_second(),
    }
}

/// No job was or will be attempted more often than it may be.
pub open spec fn within_attempts(jobs: Seq<Job>) -> bool {
    forall|i: int| 0 <= i < jobs.len() ==> is_within_attempts(#[trigger] jobs[i])
}

/// A job that was not attempted more often than it may be, and that waits only if it may be
/// attempted again.
pub open spec fn is_within_attempts(job: Job) -> bool {
    &&& job.attempts <= job.max_attempts
    &&& job.status == JobStatus::Pending ==> job.attempts < job.max_attempts
}

/// All jobs have different ids.
pub open spec fn unique_job_ids(jobs: Seq<Job>) -> bool {
    forall|i: int, j: int| 0 <= i < j < jobs.len() ==> jobs[i].id != jobs[j].id
}

fn fresh_id(jobs: &Vec<Job>) -> (r: Option<i64>)
    ensures
        r matches Some(n) ==> next_id(job_ids(jobs@)) == n,
        r is None ==> next_id(job_ids(jobs@)) > i64::MAX,
{
    let mut next: Option<i64> = Some(1);
    let mut i: usize = 0;
    assert(job_ids(jobs@).take(0) =~= Seq::<i64>::empty());
    while i < jobs.len()
        invariant
            i <= jobs@.len(),
            next matches Some(n) ==> next_id(job_ids(jobs@).take(i as int)) == n,
            next is None ==> next_id(job_ids(jobs@).take(i as int)) > i64::MAX,
        decreases jobs.len() - i,
    {
        let ghost ids = job_ids(jobs@);
        assert(ids.take(i + 1) =~= ids.take(i as int).push(jobs@[i as int].id.0));
        next = raise_next_id(next, jobs[i].id.0);
        i += 1;
    }
    assert(job_ids(jobs@).take(i as int) =~= job_ids(jobs@));
    next
}

/// Creates a new job. It waits in the queue, under a new id.
pub fn create(jobs: &mut Vec<Job>, new_job: NewJob, now: Timestamp) -> (r: Result<Job, DbError>)
    ensures
        match r {
            Ok(job) => {
                &&& job == created_job(new_job, job.id, now)
                &&& job.created_at.secs() == now.secs()
                &&& job.created_at.nanos() == 0
                &&& job.id.0 == next_id(job_ids(old(jobs)@))
                &&& final(jobs)@ == old(jobs)@.push(job)
                &&& unique_job_ids(old(jobs)@) ==> unique_job_ids(final(jobs)@)
                &&& within_attempts(old(jobs)@) && new_job.max_attempts > 0
                    ==> within_attempts(final(jobs)@)
            },
            Err(e) => e == DbError::TableFull && next_id(job_ids(old(jobs)@)) > i64::MAX
                && final(jobs)@ == old(jobs)@,
        },
{
    match fresh_id(jobs) {
        Some(id) => {
            proof {
                next_id_is_higher(job_ids(jobs@));
                assert forall|i: int| 0 <= i < jobs@.len() implies jobs@[i].id.0 != id by {
                    assert(job_ids(jobs@)[i] == jobs@[i].id.0);
                }
            }
            let job = Job {
                id: JobId::new(id),
                payload: new_job.payload,
                status: JobStatus::Pending,
                attempts: 0,
                max_attempts: new_job.max_attempts,
                scheduled_at: new_job.scheduled_at,
                started_at: None,
                completed_at: None,
                last_error: None,
                last_heartbeat: None,
                created_at: now.whole_second(),
            };
            jobs.push(job.clone());
            Ok(job)
        },
        None => Err(DbError::TableFull),
    }
}

// --- Claiming ---

/// A job that may be claimed now: it waits, and its time has come.
pub open spec fn is_due(job: Job, now: Timestamp) -> bool {
    job.status == JobStatus::Pending && !now.before(job.scheduled_at)
}

/// The job at `k` is the next to be claimed: of those that may be, it was scheduled for the
/// earliest time, and of several such it comes first in the table.
pub open spec fn is_next(jobs: Seq<Job>, now: Timestamp, k: int) -> bool {
    &&& 0 <= k < jobs.len()
    &&& is_due(jobs[k], now)
    &&& forall|j: int|
        0 <= j < jobs.len() && is_due(#[trigger] jobs[j], now) ==> {
            &&& !jobs[j].scheduled_at.before(jobs[k].scheduled_at)
            &&& j < k ==> jobs[k].scheduled_at.before(jobs[j].scheduled_at)
        }
}

/// A job that a worker has claimed.
pub open spec fn claimed_job(job: Job, now: Timestamp) -> Job {
    Job {
        status: JobStatus::Running,
        started_at: Some(now),
        last_heartbeat: Some(now),
        attempts: if job.attempts < u32::MAX {
            (job.attempts + 1) as u32
        } else {
            u32::MAX
        },
        ..job
    }
}

/// The place of the next job to be claimed.
fn next_due(jobs: &Vec<Job>, now: &Timestamp) -> (r: Option<usize>)
    ensures
        match r {
            Some(k) => is_next(jobs@, *now, k as int),
            None => forall|j: int| 0 <= j < jobs@.len() ==> !is_due(#[trigger] jobs@[j], *now),
        },
{
    let mut best: Option<usize> = None;
    let mut i: usize = 0;
    while i < jobs.len()
        invariant
            i <= jobs@.len(),
            match best {
                Some(k) => {
                    &&& k < i
                    &&& is_due(jobs@[k as int], *now)
                    &&& forall|j: int|
                        0 <= j < i && is_due(#[trigger] jobs@[j], *now) ==> {
                            &&& !jobs@[j].scheduled_at.before(jobs@[k as int].scheduled_at)
                            &&& j < k ==> jobs@[k as int].scheduled_at.before(jobs@[j].scheduled_at)
                        }
                },
                None => forall|j: int| 0 <= j < i ==> !is_due(#[trigger] jobs@[j], *now),
            },
        decreases jobs.len() - i,
    {
        let job = &jobs[i];
        let waits = match job.status {
            JobStatus::Pending => true,
            _ => false,
        };
        if waits && !now.is_before(&job.scheduled_at) {
            match best {
                Some(k) => {
                    if job.scheduled_at.is_before(&jobs[k].scheduled_at) {
                        best = Some(i);
                    }
                },
                None => {
                    best = Some(i);
                },
            }
        }
        i += 1;
    }
    best
}

/// Claims the next available job.
pub fn claim_next(jobs: &mut Vec<Job>, now: Timestamp) -> (r: Option<Job>)
    ensures
        match r {
            Some(job) => exists|k: int| #[trigger]
                is_next(old(jobs)@, now, k) && job == claimed_job(old(jobs)@[k], now)
                    && final(jobs)@ == old(jobs)@.update(k, job),
            None => final(jobs)@ == old(jobs)@ && forall|j: int|
                0 <= j < old(jobs)@.len() ==> !is_due(#[trigger] old(jobs)@[j], now),
        },
        unique_job_ids(old(jobs)@) ==> unique_job_ids(final(jobs)@),
        within_attempts(old(jobs)@) ==> within_attempts(final(jobs)@),
{
    match next_due(jobs, &now) {
        Some(k) => {
            let mut job = jobs[k].clone();
            job.status = JobStatus::Running;
            job.started_at = Some(now);
            job.last_heartbeat = Some(now);
            if job.attempts < u32::MAX {
                job.attempts = job.attempts + 1;
            }
            let ghost before = jobs@;
            let claimed = job.clone();
            assert(claimed == claimed_job(before[k as int], now));
            jobs.set(k, job);
            assert(is_next(before, now, k as int));
            Some(claimed)
        },
        None => None,
    }
}

/// A job that was claimed is not claimed again while it runs, and neither is one that completed
/// or was given up.
pub proof fn only_pending_jobs_are_claimed(jobs: Seq<Job>, now: Timestamp, k: int)
    requires
        is_next(jobs, now, k),
    ensures
        jobs[k].status == JobStatus::Pending,
        forall|later: Timestamp| !#[trigger] is_due(claimed_job(jobs[k], now), later),
{
}

// --- Ending ---

/// A job that was done.
pub open spec fn completed_job(job: Job, now: Timestamp) -> Job {
    Job { status: JobStatus::Completed, completed_at: Some(now), ..job }
}

/// Marks a job as completed.
pub fn complete(jobs: &mut Vec<Job>, id: JobId, now: Timestamp)
    ensures
        final(jobs)@.len() == old(jobs)@.len(),
        forall|i: int|
            0 <= i < old(jobs)@.len() ==> #[trigger] final(jobs)@[i] == if old(jobs)@[i].id == id {
                completed_job(old(jobs)@[i], now)
            } else {
                old(jobs)@[i]
            },
        unique_job_ids(old(jobs)@) ==> unique_job_ids(final(jobs)@),
        within_attempts(old(jobs)@) ==> within_attempts(final(jobs)@),
{
    let ghost before = jobs@;
    let mut i: usize = 0;
    while i < jobs.len()
        invariant
            i <= jobs@.len(),
            jobs@.len() == before.len(),
            forall|j: int|
                0 <= j < i ==> #[trigger] jobs@[j] == if before[j].id == id {
                    completed_job(before[j], now)
                } else {
                    before[j]
                },
            forall|j: int| i <= j < jobs@.len() ==> #[trigger] jobs@[j] == before[j],
        decreases jobs.len() - i,
    {
        if jobs[i].id == id {
            let mut job = jobs[i].clone();
            job.status = JobStatus::Completed;
            job.completed_at = Some(now);
            jobs.set(i, job);
        }
        i += 1;
    }
    proof {
        same_rows_keep_ids(before, jobs@);
    }
}

proof fn same_rows_keep_ids(before: Seq<Job>, after: Seq<Job>)
    requires
        before.len() == after.len(),
        forall|i: int| 0 <= i < before.len() ==> (#[trigger] after[i]).id == before[i].id,
    ensures
        unique_job_ids(before) ==> unique_job_ids(after),
{
    if unique_job_ids(before) {
        assert forall|i: int, j: int| 0 <= i < j < after.len() implies after[i].id
            != after[j].id by {
            assert(before[i].id != before[j].id);
        }
    }
}

/// Records that a job is still being worked on.
pub fn update_heartbeat(jobs: &mut Vec<Job>, id: JobId, now: Timestamp)
    ensures
        final(jobs)@.len() == old(jobs)@.len(),
        forall|i: int|
            0 <= i < old(jobs)@.len() ==> #[trigger] final(jobs)@[i] == if old(jobs)@[i].id == id {
                Job { last_heartbeat: Some(now), ..old(jobs)@[i] }
            } else {
                old(jobs)@[i]
            },
        unique_job_ids(old(jobs)@) ==> unique_job_ids(final(jobs)@),
        within_attempts(old(jobs)@) ==> within_attempts(final(jobs)@),
{
    let ghost before = jobs@;
    let mut i: usize = 0;
    while i < jobs.len()
        invariant
            i <= jobs@.len(),
            jobs@.len() == before.len(),
            forall|j: int|
                0 <= j < i ==> #[trigger] jobs@[j] == if before[j].id == id {
                    Job { last_heartbeat: Some(now), ..before[j] }
                } else {
                    before[j]
                },
            forall|j: int| i <= j < jobs@.len() ==> #[trigger] jobs@[j] == before[j],
        decreases jobs.len() - i,
    {
        if jobs[i].id == id {
            let mut job = jobs[i].clone();
            job.last_heartbeat = Some(now);
            jobs.set(i, job);
        }
        i += 1;
    }
    proof {
        same_rows_keep_ids(before, jobs@);
        if within_attempts(before) {
            assert forall|i: int| 0 <= i < jobs@.len() implies is_within_attempts(
                #[trigger] jobs@[i],
            ) by {
                assert(is_within_attempts(before[i]));
            }
        }
    }
}

// --- Failing ---

/// Two to the power of `n`.
pub open spec fn power_of_two(n: nat) -> nat
    decreases n,
{
    if n == 0 {
        1
    } else {
        2 * power_of_two((n - 1) as nat)
    }
}

/// The delay, in seconds, before a job is tried again: 30 seconds, doubled with each attempt, and
/// never more than an hour.
pub open spec fn backoff_delay(attempts: u32) -> int {
    let delay = 30 * power_of_two(attempts as nat);
    if delay < 3600 {
        delay as int
    } else {
        3600
    }
}

proof fn powers_of_two_grow(n: nat, m: nat)
    requires
        n <= m,
    ensures
        1 <= power_of_two(n) <= power_of_two(m),
    decreases m,
{
    if n < m {
        powers_of_two_grow(n, (m - 1) as nat);
    } else if m > 0 {
        powers_of_two_grow((n - 1) as nat, (m - 1) as nat);
    }
}

/// Calculates the exponential backoff delay for retries.
/// Base delay is 30 seconds, doubles with each attempt, capped at 1 hour.
pub fn calculate_backoff_delay(attempts: u32) -> (r: i64)
    ensures
        r == backoff_delay(attempts),
        30 <= r <= 3600,
{
    let base_delay: i64 = 30;
    let max_delay: i64 = 3600;
    let mut delay: i64 = base_delay;
    let mut i: u32 = 0;
    while i < attempts && delay < max_delay
        invariant
            i <= attempts,
            max_delay == 3600,
            30 <= delay < 7200,
            delay == 30 * power_of_two(i as nat),
        decreases attempts - i,
    {
        delay = delay * 2;
        i += 1;
    }
    proof {
        powers_of_two_grow(i as nat, attempts as nat);
    }
    if delay < max_delay {
        delay
    } else {
        max_delay
    }
}

/// The first delay is half a minute. Each further attempt waits at least as long as the one before:
/// twice as long up to the sixth, and an hour from the seventh on.
pub proof fn backoff_grows(attempts: u32, later: u32)
    requires
        attempts <= later,
    ensures
        backoff_delay(attempts) <= backoff_delay(later),
        attempts < 6 ==> backoff_delay((attempts + 1) as u32) == 2 * backoff_delay(attempts),
        attempts >= 7 ==> backoff_delay(attempts) == 3600,
        attempts == 0 ==> backoff_delay(attempts) == 30,
{
    reveal_with_fuel(power_of_two, 8);
    powers_of_two_grow(attempts as nat, later as nat);
    if attempts >= 7 {
        powers_of_two_grow(7, attempts as nat);
    }
}

/// The place of the first job with the given id.
pub open spec fn first_with_id(jobs: Seq<Job>, id: JobId) -> Option<int>
    decreases jobs.len(),
{
    if jobs.len() == 0 {
        None
    } else if first_with_id(jobs.drop_last(), id) is Some {
        first_with_id(jobs.drop_last(), id)
    } else if jobs.last().id == id {
        Some(jobs.len() - 1)
    } else {
        None
    }
}

/// The first job with an id is one with that id, and there is one if any job has the id.
pub proof fn first_with_id_is_first(jobs: Seq<Job>, id: JobId)
    ensures
        match first_with_id(jobs, id) {
            Some(k) => 0 <= k < jobs.len() && jobs[k].id == id && forall|j: int|
                0 <= j < k ==> (#[trigger] jobs[j]).id != id,
            None => forall|j: int| 0 <= j < jobs.len() ==> (#[trigger] jobs[j]).id != id,
        },
    decreases jobs.len(),
{
    if jobs.len() > 0 {
        let shorter = jobs.drop_last();
        first_with_id_is_first(shorter, id);
        match first_with_id(shorter, id) {
            Some(k) => {
                assert forall|j: int| 0 <= j < k implies (#[trigger] jobs[j]).id != id by {
                    assert(shorter[j].id != id);
                }
            },
            None => {
                assert forall|j: int| 0 <= j < jobs.len() - 1 implies (#[trigger] jobs[j]).id
                    != id by {
                    assert(shorter[j].id != id);
                }
            },
        }
    }
}

/// The delay before the job with the given id is tried again, where there is one: the delay that
/// is asked for, else by the number of its attempts.
pub open spec fn delay_for(jobs: Seq<Job>, id: JobId, retry_after_secs: Option<u32>) -> Option<
    int,
> {
    match first_with_id(jobs, id) {
        Some(k) => Some(
            match retry_after_secs {
                Some(secs) => secs as int,
                None => backoff_delay(jobs[k].attempts),
            },
        ),
        None => None,
    }
}

/// The delay, in seconds, before the job with the given id is tried again, where there is one.
pub fn retry_delay(jobs: &Vec<Job>, id: JobId, retry_after_secs: Option<u32>) -> (r: Option<i64>)
    ensures
        match r {
            Some(delay) => delay_for(jobs@, id, retry_after_secs) == Some(delay as int) && 0
                <= delay <= u32::MAX,
            None => delay_for(jobs@, id, retry_after_secs) is None,
        },
{
    let mut i: usize = 0;
    proof {
        first_with_id_is_first(jobs@, id);
    }
    while i < jobs.len()
        invariant
            i <= jobs@.len(),
            forall|j: int| 0 <= j < i ==> (#[trigger] jobs@[j]).id != id,
        decreases jobs.len() - i,
    {
        if jobs[i].id == id {
            proof {
                first_with_id_is_first(jobs@, id);
                assert(first_with_id(jobs@, id) == Some(i as int));
            }
            return match retry_after_secs {
                Some(secs) => Some(secs as i64),
                None => Some(calculate_backoff_delay(jobs[i].attempts)),
            };
        }
        i += 1;
    }
    None
}

/// A job that is given up.
pub open spec fn given_up_job(job: Job, error: Option<String>, now: Timestamp) -> Job {
    Job { status: JobStatus::Failed, last_error: error, completed_at: Some(now), ..job }
}

/// A job that is to be tried again at the given time.
pub open spec fn retried_job(job: Job, error: Option<String>, at: Timestamp) -> Job {
    Job {
        status: JobStatus::Pending,
        last_error: error,
        scheduled_at: at,
        completed_at: None,
        ..job
    }
}

/// What becomes of a job that failed: it is tried again at the given time, if there is one and
/// attempts are left, else it is given up. The error is recorded.
pub open spec fn is_failed_job(
    job: Job,
    after: Job,
    error: Seq<char>,
    retry_at: Option<Timestamp>,
    now: Timestamp,
) -> bool {
    &&& option_text(after.last_error) == Some(error)
    &&& match retry_at {
        Some(at) => if job.attempts < job.max_attempts {
            after == retried_job(job, after.last_error, at)
        } else {
            after == given_up_job(job, after.last_error, now)
        },
        None => after == given_up_job(job, after.last_error, now),
    }
}

/// `at` is the time `delay` seconds after `now`.
pub open spec fn is_later_by(at: Timestamp, now: Timestamp, delay: int) -> bool {
    at.secs() == now.secs() + delay && at.nanos() == now.nanos()
}

fn fail_rows(
    jobs: &mut Vec<Job>,
    id: JobId,
    error: &str,
    retry_at: Option<Timestamp>,
    now: Timestamp,
)
    ensures
        final(jobs)@.len() == old(jobs)@.len(),
        forall|i: int|
            0 <= i < old(jobs)@.len() ==> if old(jobs)@[i].id == id {
                is_failed_job(old(jobs)@[i], #[trigger] final(jobs)@[i], error@, retry_at, now)
            } else {
                final(jobs)@[i] == old(jobs)@[i]
            },
        unique_job_ids(old(jobs)@) ==> unique_job_ids(final(jobs)@),
        within_attempts(old(jobs)@) ==> within_attempts(final(jobs)@),
{
    let ghost before = jobs@;
    let mut i: usize = 0;
    while i < jobs.len()
        invariant
            i <= jobs@.len(),
            jobs@.len() == before.len(),
            forall|j: int|
                0 <= j < i ==> if before[j].id == id {
                    is_failed_job(before[j], #[trigger] jobs@[j], error@, retry_at, now)
                } else {
                    jobs@[j] == before[j]
                },
            forall|j: int| i <= j < jobs@.len() ==> #[trigger] jobs@[j] == before[j],
        decreases jobs.len() - i,
    {
        if jobs[i].id == id {
            let mut job = jobs[i].clone();
            job.last_error = Some(error.to_owned());
            match retry_at {
                Some(at) => {
                    if job.attempts < job.max_attempts {
                        job.status = JobStatus::Pending;
                        job.scheduled_at = at;
                        job.completed_at = None;
                    } else {
                        job.status = JobStatus::Failed;
                        job.completed_at = Some(now);
                    }
                },
                None => {
                    job.status = JobStatus::Failed;
                    job.completed_at = Some(now);
                },
            }
            jobs.set(i, job);
        }
        i += 1;
    }
    proof {
        same_rows_keep_ids(before, jobs@);
        if within_attempts(before) {
            assert forall|i: int| 0 <= i < jobs@.len() implies is_within_attempts(
                #[trigger] jobs@[i],
            ) by {
                assert(is_within_attempts(before[i]));
            }
        }
    }
}

/// Marks a job as failed. If `should_retry` is true and attempts < max_attempts, it goes back to
/// pending for retry.
///
/// The `retry_after_secs` parameter controls when the job becomes eligible for retry:
/// - `Some(secs)`: after this many seconds (e.g., for rate limit backoff)
/// - `None`: after an exponential backoff based on attempt count
///
/// This prevents immediate retry loops that can hammer external APIs.
pub fn fail(
    jobs: &mut Vec<Job>,
    id: JobId,
    error: &str,
    should_retry: bool,
    retry_after_secs: Option<u32>,
    now: Timestamp,
) -> (r: Result<(), DbError>)
    requires
        should_retry ==> now.nanos() < 1_000_000_000,
        should_retry ==> match delay_for(old(jobs)@, id, retry_after_secs) {
            Some(delay) => now.secs() + delay <= MAX_SECS,
            None => true,
        },
    ensures
        match r {
            Ok(_) => {
                &&& should_retry ==> first_with_id(old(jobs)@, id) is Some
                &&& final(jobs)@.len() == old(jobs)@.len()
                &&& forall|i: int|
                    0 <= i < old(jobs)@.len() ==> if old(jobs)@[i].id == id {
                        fails_to(
                            old(jobs)@[i],
                            #[trigger] final(jobs)@[i],
                            error@,
                            should_retry,
                            delay_for(old(jobs)@, id, retry_after_secs),
                            now,
                        )
                    } else {
                        final(jobs)@[i] == old(jobs)@[i]
                    }
            },
            Err(e) => e == DbError::RowNotFound && should_retry && first_with_id(old(jobs)@, id)
                is None && final(jobs)@ == old(jobs)@,
        },
        unique_job_ids(old(jobs)@) ==> unique_job_ids(final(jobs)@),
        within_attempts(old(jobs)@) ==> within_attempts(final(jobs)@),
{
    if should_retry {
        // The attempts so far give the backoff
        match retry_delay(jobs, id, retry_after_secs) {
            Some(delay) => {
                let at = now.plus_seconds(delay);
                fail_rows(jobs, id, error, Some(at), now);
                assert(is_later_by(at, now, delay as int));
                Ok(())
            },
            None => Err(DbError::RowNotFound),
        }
    } else {
        fail_rows(jobs, id, error, None, now);
        Ok(())
    }
}

/// What becomes of a job that failed, where the delay before a retry is known.
pub open spec fn fails_to(
    job: Job,
    after: Job,
    error: Seq<char>,
    should_retry: bool,
    delay: Option<int>,
    now: Timestamp,
) -> bool {
    if should_retry {
        exists|at: Timestamp| #[trigger]
            is_later_by(at, now, delay->Some_0) && is_failed_job(job, after, error, Some(at), now)
    } else {
        is_failed_job(job, after, error, None, now)
    }
}

/// A job that failed and is retried is not claimed before its delay has passed.
pub proof fn retried_job_waits(
    job: Job,
    after: Job,
    error: Seq<char>,
    delay: int,
    now: Timestamp,
    then: Timestamp,
)
    requires
        fails_to(job, after, error, true, Some(delay), now),
        then.secs() < now.secs() + delay,
    ensures
        !is_due(after, then),
{
}

// --- Looking ---

/// A job that is to review the repository and is not done yet.
pub open spec fn awaits_review(job: Job, repo_id: RepoId) -> bool {
    &&& job.status == JobStatus::Pending || job.status == JobStatus::Running
    &&& job.payload->repo_id == repo_id
}

/// Some job is to review the repository and is not done yet.
pub open spec fn review_is_pending(jobs: Seq<Job>, repo_id: RepoId) -> bool {
    exists|i: int| 0 <= i < jobs.len() && awaits_review(#[trigger] jobs[i], repo_id)
}

/// Checks if there's already a pending review job for a repo.
pub fn has_pending_review(jobs: &Vec<Job>, repo_id: RepoId) -> (r: bool)
    ensures
        r == review_is_pending(jobs@, repo_id),
{
    let mut i: usize = 0;
    while i < jobs.len()
        invariant
            i <= jobs@.len(),
            forall|j: int| 0 <= j < i ==> !awaits_review(#[trigger] jobs@[j], repo_id),
        decreases jobs.len() - i,
    {
        let open = match jobs[i].status {
            JobStatus::Pending | JobStatus::Running => true,
            _ => false,
        };
        let JobPayload::ReviewRepo { repo_id: wanted, .. } = jobs[i].payload;
        if open && wanted == repo_id {
            assert(awaits_review(jobs@[i as int], repo_id));
            return true;
        }
        i += 1;
    }
    false
}

/// The jobs that wait.
pub open spec fn pending_jobs(jobs: Seq<Job>) -> Seq<Job> {
    jobs.filter(|j: Job| j.status == JobStatus::Pending)
}

/// Gets the pending jobs count.
pub fn count_pending(jobs: &Vec<Job>) -> (r: usize)
    ensures
        r == pending_jobs(jobs@).len(),
{
    let mut count: usize = 0;
    let mut i: usize = 0;
    proof {
        reveal(Seq::filter);
    }
    assert(jobs@.take(0) =~= Seq::<Job>::empty());
    while i < jobs.len()
        invariant
            i <= jobs@.len(),
            count <= i,
            count == pending_jobs(jobs@.take(i as int)).len(),
        decreases jobs.len() - i,
    {
        proof {
            reveal(Seq::filter);
        }
        assert(jobs@.take(i + 1).drop_last() =~= jobs@.take(i as int));
        match jobs[i].status {
            JobStatus::Pending => {
                count += 1;
            },
            _ => {},
        }
        i += 1;
    }
    assert(jobs@.take(i as int) =~= jobs@);
    count
}

// --- Cleaning up ---

/// A job that ended more than `days` days ago.
pub open spec fn is_old(job: Job, days: i64, now: Timestamp) -> bool {
    &&& job.status == JobStatus::Completed || job.status == JobStatus::Failed
    &&& job.completed_at matches Some(ended) && ended.older_than(now, days * 86_400)
}

fn is_old_job(job: &Job, days: i64, now: &Timestamp) -> (r: bool)
    ensures
        r == is_old(*job, days, *now),
{
    let ended = match job.status {
        JobStatus::Completed | JobStatus::Failed => true,
        _ => false,
    };
    match job.completed_at {
        Some(at) => ended && at.is_older_than(now, days as i128 * 86_400),
        None => false,
    }
}

/// Cleans up old completed/failed jobs (keeps the last N days). Gives the number of jobs removed.
pub fn cleanup_old(jobs: &mut Vec<Job>, days: i64, now: Timestamp) -> (r: u64)
    ensures
        final(jobs)@ == old(jobs)@.filter(|j: Job| !is_old(j, days, now)),
        r == old(jobs)@.len() - final(jobs)@.len(),
        unique_job_ids(old(jobs)@) ==> unique_job_ids(final(jobs)@),
        within_attempts(old(jobs)@) ==> within_attempts(final(jobs)@),
{
    let mut kept: Vec<Job> = Vec::new();
    let mut removed: u64 = 0;
    let mut i: usize = 0;
    proof {
        reveal(Seq::filter);
    }
    assert(jobs@.take(0) =~= Seq::<Job>::empty());
    while i < jobs.len()
        invariant
            i <= jobs@.len(),
            jobs@ == old(jobs)@,
            kept@ == jobs@.take(i as int).filter(|j: Job| !is_old(j, days, now)),
            removed == i - kept@.len(),
            unique_job_ids(jobs@) ==> unique_job_ids(kept@),
            unique_job_ids(jobs@) ==> forall|k: int, j: int|
                0 <= k < kept@.len() && i <= j < jobs@.len() ==> kept@[k].id != jobs@[j].id,
            within_attempts(jobs@) ==> within_attempts(kept@),
        decreases jobs.len() - i,
    {
        proof {
            reveal(Seq::filter);
        }
        assert(jobs@.take(i + 1).drop_last() =~= jobs@.take(i as int));
        if is_old_job(&jobs[i], days, &now) {
            removed += 1;
        } else {
            kept.push(jobs[i].clone());
        }
        i += 1;
    }
    assert(jobs@.take(i as int) =~= jobs@);
    *jobs = kept;
    removed
}

/// What is recorded of a job that is tried again after its worker was lost.
pub const RECLAIMED: &'static str = "Job reclaimed after stuck in running state";

/// What is recorded of a job that is given up after its worker was lost.
pub const GIVEN_UP_STUCK: &'static str = "Job failed after exceeding max attempts while stuck";

/// When a job was last known to be worked on: at its last heartbeat, else when it was claimed.
pub open spec fn last_activity(job: Job) -> Option<Timestamp> {
    match job.last_heartbeat {
        Some(t) => Some(t),
        None => job.started_at,
    }
}

/// A job that has been running without a sign of life for more than `minutes` minutes.
pub open spec fn is_stuck(job: Job, minutes: i64, now: Timestamp) -> bool {
    &&& job.status == JobStatus::Running
    &&& last_activity(job) matches Some(t) && t.older_than(now, minutes * 60)
}

/// What becomes of a stuck job: it waits again if attempts are left, else it is given up.
pub open spec fn is_reclaimed_job(job: Job, after: Job, now: Timestamp) -> bool {
    if job.attempts < job.max_attempts {
        &&& option_text(after.last_error) == Some(RECLAIMED@)
        &&& after == retried_job(job, after.last_error, job.scheduled_at)
    } else {
        &&& option_text(after.last_error) == Some(GIVEN_UP_STUCK@)
        &&& after == given_up_job(job, after.last_error, now)
    }
}

/// The number of stuck jobs.
pub open spec fn stuck_count(jobs: Seq<Job>, minutes: i64, now: Timestamp) -> nat {
    jobs.filter(|j: Job| is_stuck(j, minutes, now)).len()
}

fn is_stuck_job(job: &Job, minutes: i64, now: &Timestamp) -> (r: bool)
    ensures
        r == is_stuck(*job, minutes, *now),
{
    let running = match job.status {
        JobStatus::Running => true,
        _ => false,
    };
    let activity = match job.last_heartbeat {
        Some(t) => Some(t),
        None => job.started_at,
    };
    match activity {
        Some(t) => running && t.is_older_than(now, minutes as i128 * 60),
        None => false,
    }
}

/// Reclaims jobs that have been stuck in 'running' state for too long.
///
/// This handles the case where a process crashes while a job is running. Jobs without a sign of
/// life for longer than `stuck_minutes` are either:
/// - Reset to 'pending' if attempts < max_attempts (for retry)
/// - Marked as 'failed' if attempts >= max_attempts
///
/// Gives the number of jobs reclaimed.
pub fn reclaim_stuck(jobs: &mut Vec<Job>, stuck_minutes: i64, now: Timestamp) -> (r: u64)
    ensures
        final(jobs)@.len() == old(jobs)@.len(),
        forall|i: int|
            0 <= i < old(jobs)@.len() ==> if is_stuck(old(jobs)@[i], stuck_minutes, now) {
                is_reclaimed_job(old(jobs)@[i], #[trigger] final(jobs)@[i], now)
            } else {
                final(jobs)@[i] == old(jobs)@[i]
            },
        r == stuck_count(old(jobs)@, stuck_minutes, now),
        unique_job_ids(old(jobs)@) ==> unique_job_ids(final(jobs)@),
        within_attempts(old(jobs)@) ==> within_attempts(final(jobs)@),
{
    let ghost before = jobs@;
    let mut count: u64 = 0;
    let mut i: usize = 0;
    proof {
        reveal(Seq::filter);
    }
    assert(before.take(0) =~= Seq::<Job>::empty());
    while i < jobs.len()
        invariant
            i <= jobs@.len(),
            jobs@.len() == before.len(),
            count <= i,
            count == stuck_count(before.take(i as int), stuck_minutes, now),
            forall|j: int|
                0 <= j < i ==> if is_stuck(before[j], stuck_minutes, now) {
                    is_reclaimed_job(before[j], #[trigger] jobs@[j], now)
                } else {
                    jobs@[j] == before[j]
                },
            forall|j: int| i <= j < jobs@.len() ==> #[trigger] jobs@[j] == before[j],
        decreases jobs.len() - i,
    {
        proof {
            reveal(Seq::filter);
        }
        assert(before.take(i + 1).drop_last() =~= before.take(i as int));
        if is_stuck_job(&jobs[i], stuck_minutes, &now) {
            let mut job = jobs[i].clone();
            if job.attempts < job.max_attempts {
                job.status = JobStatus::Pending;
                job.last_error = Some(RECLAIMED.to_owned());
                job.completed_at = None;
            } else {
                job.status = JobStatus::Failed;
                job.last_error = Some(GIVEN_UP_STUCK.to_owned());
                job.completed_at = Some(now);
            }
            jobs.set(i, job);
            count += 1;
        }
        i += 1;
    }
    assert(before.take(i as int) =~= before);
    proof {
        same_rows_keep_ids(before, jobs@);
        if within_attempts(before) {
            assert forall|i: int| 0 <= i < jobs@.len() implies is_within_attempts(
                #[trigger] jobs@[i],
            ) by {
                assert(is_within_attempts(before[i]));
            }
        }
    }
    count
}

/// A job whose heartbeat is recent enough is not reclaimed, however long ago it was claimed.
pub proof fn beating_job_is_not_stuck(job: Job, beat: Timestamp, minutes: i64, now: Timestamp)
    requires
        job.last_heartbeat == Some(beat),
        !beat.older_than(now, minutes * 60),
    ensures
        !is_stuck(job, minutes, now),
{
}

// --- Rows ---

/// Database row for the jobs table, apart from the payload, which is JSON.
#[derive(Debug)]
pub struct JobRow {
    /// The job's id.
    pub id: i64,
    /// The status, as text.
    pub status: String,
    /// How often the job was claimed.
    pub attempts: i64,
    /// How often the job may be claimed.
    pub max_attempts: i64,
    /// The job is not claimed before this time.
    pub scheduled_at: String,
    /// When the job was last claimed.
    pub started_at: Option<String>,
    /// When the job ended.
    pub completed_at: Option<String>,
    /// The error of the last attempt that failed.
    pub last_error: Option<String>,
    /// The last heartbeat.
    pub last_heartbeat: Option<String>,
    /// When the job was created.
    pub created_at: String,
}

/// What is wrong with a row, where it is no job: the first of its columns that cannot be read.
/// The payload is what its JSON reads as.
pub open spec fn job_row_error(row: JobRow, payload: Option<JobPayload>) -> Option<Seq<char>> {
    if payload is None {
        Some("invalid job payload"@)
    } else if JobStatus::of_text(row.status@) is None {
        Some("invalid job status"@)
    } else if stored_instant(row.scheduled_at@) is None || !is_readable_column(row.started_at)
        || !is_readable_column(row.completed_at) || !is_readable_column(row.last_heartbeat)
        || stored_instant(row.created_at@) is None {
        Some(INVALID_DATE@)
    } else {
        None
    }
}

/// The job is what the row holds.
pub open spec fn is_job_of_row(job: Job, row: JobRow, payload: JobPayload) -> bool {
    &&& job.id.0 == row.id
    &&& job.payload == payload
    &&& JobStatus::of_text(row.status@) == Some(job.status)
    &&& job.attempts == row.attempts as u32
    &&& job.max_attempts == row.max_attempts as u32
    &&& is_stored_as(job.scheduled_at, row.scheduled_at@)
    &&& is_stored_in(job.started_at, row.started_at)
    &&& is_stored_in(job.completed_at, row.completed_at)
    &&& job.last_error == row.last_error
    &&& is_stored_in(job.last_heartbeat, row.last_heartbeat)
    &&& is_stored_as(job.created_at, row.created_at@)
}

/// The columns of a row, as values.
#[derive(Debug)]
pub struct JobColumns {
    /// The job's id.
    pub id: i64,
    /// What the payload reads as.
    pub payload: Option<JobPayload>,
    /// The status, as text.
    pub status: String,
    /// How often the job was claimed.
    pub attempts: i64,
    /// How often the job may be claimed.
    pub max_attempts: i64,
    /// The job is not claimed before this time.
    pub scheduled_at: Column,
    /// When the job was last claimed.
    pub started_at: Column,
    /// When the job ended.
    pub completed_at: Column,
    /// The error of the last attempt that failed.
    pub last_error: Option<String>,
    /// The last heartbeat.
    pub last_heartbeat: Column,
    /// When the job was created.
    pub created_at: Column,
}

/// What is wrong with columns that make no job: the first of them that cannot be read.
pub open spec fn job_columns_error(columns: JobColumns) -> Option<Seq<char>> {
    if columns.payload is None {
        Some("invalid job payload"@)
    } else if JobStatus::of_text(columns.status@) is None {
        Some("invalid job status"@)
    } else if columns.scheduled_at.instant() is None || !columns.started_at.readable()
        || !columns.completed_at.readable() || !columns.last_heartbeat.readable()
        || columns.created_at.instant() is None {
        Some(INVALID_DATE@)
    } else {
        None
    }
}

/// The job that the columns of a row make.
pub fn job_of_columns(columns: JobColumns) -> (r: Result<Job, &'static str>)
    ensures
        match r {
            Ok(job) => {
                &&& job_columns_error(columns) is None
                &&& job.id.0 == columns.id
                &&& Some(job.payload) == columns.payload
                &&& Some(job.status) == JobStatus::of_text(columns.status@)
                &&& job.attempts == columns.attempts as u32
                &&& job.max_attempts == columns.max_attempts as u32
                &&& Some(job.scheduled_at) == columns.scheduled_at.instant()
                &&& job.started_at == columns.started_at.instant()
                &&& job.completed_at == columns.completed_at.instant()
                &&& job.last_error == columns.last_error
                &&& job.last_heartbeat == columns.last_heartbeat.instant()
                &&& Some(job.created_at) == columns.created_at.instant()
            },
            Err(e) => job_columns_error(columns) == Some(e@),
        },
{
    let payload = match columns.payload {
        Some(payload) => payload,
        None => {
            return Err("invalid job payload");
        },
    };
    let status = match JobStatus::parse(columns.status.as_str()) {
        Some(status) => status,
        None => {
            return Err("invalid job status");
        },
    };
    match (
        columns.scheduled_at.time(),
        columns.started_at.optional_time(),
        columns.completed_at.optional_time(),
        columns.last_heartbeat.optional_time(),
        columns.created_at.time(),
    ) {
        (
            Ok(scheduled_at),
            Ok(started_at),
            Ok(completed_at),
            Ok(last_heartbeat),
            Ok(created_at),
        ) => Ok(
            Job {
                id: JobId::new(columns.id),
                payload,
                status,
                attempts: columns.attempts as u32,
                max_attempts: columns.max_attempts as u32,
                scheduled_at,
                started_at,
                completed_at,
                last_error: columns.last_error,
                last_heartbeat,
                created_at,
            },
        ),
        _ => Err(INVALID_DATE),
    }
}

/// The job that a row holds.
pub fn job_of_row(row: JobRow, payload: Option<JobPayload>) -> (r: Result<Job, &'static str>)
    ensures
        match r {
            Ok(job) => job_row_error(row, payload) is None && is_job_of_row(
                job,
                row,
                payload->Some_0,
            ),
            Err(e) => job_row_error(row, payload) == Some(e@),
        },
{
    job_of_columns(
        JobColumns {
            id: row.id,
            payload,
            status: row.status,
            attempts: row.attempts,
            max_attempts: row.max_attempts,
            scheduled_at: read_text(row.scheduled_at.as_str()),
            started_at: read_column(&row.started_at),
            completed_at: read_column(&row.completed_at),
            last_error: row.last_error,
            last_heartbeat: read_column(&row.last_heartbeat),
            created_at: read_text(row.created_at.as_str()),
        },
    )
}

/// All times of the job lie in the years that can be written.
pub open spec fn is_storable_job(job: Job) -> bool {
    &&& is_writable(Some(job.scheduled_at))
    &&& is_writable(job.started_at)
    &&& is_writable(job.completed_at)
    &&& is_writable(job.last_heartbeat)
    &&& is_writable(Some(job.created_at))
}

/// The row that holds a job. The job is read back from it, where its times can be written.
pub fn row_of_job(job: &Job) -> (r: JobRow)
    ensures
        r.id == job.id.0,
        r.status@ == job.status.text(),
        r.attempts == job.attempts,
        r.max_attempts == job.max_attempts,
        r.last_error == job.last_error,
        is_storable_job(*job) ==> is_job_of_row(*job, r, job.payload) && job_row_error(
            r,
            Some(job.payload),
        ) is None,
{
    proof {
        job_status_text_roundtrips(job.status, job.status.text());
    }
    JobRow {
        id: job.id.0,
        status: job.status.as_str().to_owned(),
        attempts: job.attempts as i64,
        max_attempts: job.max_attempts as i64,
        scheduled_at: job.scheduled_at.to_rfc3339(),
        started_at: optional_rfc3339(&job.started_at),
        completed_at: optional_rfc3339(&job.completed_at),
        last_error: clone_text(&job.last_error),
        last_heartbeat: optional_rfc3339(&job.last_heartbeat),
        created_at: job.created_at.to_rfc3339(),
    }
}

/// A row holds at most one job: whatever is read from the row of a job is that job.
pub proof fn job_row_roundtrips(job: Job, row: JobRow, read: Job)
    requires
        is_job_of_row(job, row, job.payload),
        is_job_of_row(read, row, job.payload),
    ensures
        read == job,
{
    stored_once(read.scheduled_at, job.scheduled_at, row.scheduled_at@);
    stored_once(read.created_at, job.created_at, row.created_at@);
    stored_once_in(read.started_at, job.started_at, row.started_at);
    stored_once_in(read.completed_at, job.completed_at, row.completed_at);
    stored_once_in(read.last_heartbeat, job.last_heartbeat, row.last_heartbeat);
}

/// A job that was created is found under its id.
pub proof fn created_job_is_found(jobs: Seq<Job>, job: Job)
    requires
        job.id.0 == next_id(job_ids(jobs)),
    ensures
        first_with_id(jobs.push(job), job.id) == Some(jobs.len() as int),
{
    next_id_is_higher(job_ids(jobs));
    first_with_id_is_first(jobs, job.id);
    if let Some(k) = first_with_id(jobs, job.id) {
        assert(job_ids(jobs)[k] == jobs[k].id.0);
    }
    assert(jobs.push(job).drop_last() =~= jobs);
}

// --- What becomes of jobs ---

/// What a job is and how often it was tried stays the same.
pub open spec fn is_same_job(a: Job, b: Job) -> bool {
    &&& a.id == b.id
    &&& a.payload == b.payload
    &&& a.max_attempts == b.max_attempts
    &&& a.created_at == b.created_at
}

/// A new job waits for the time that was asked for, and was not tried yet.
pub proof fn new_job_waits(new_job: NewJob, id: JobId, now: Timestamp)
    ensures
        ({
            let job = created_job(new_job, id, now);
            &&& job.id == id
            &&& job.payload == new_job.payload
            &&& job.max_attempts == new_job.max_attempts
            &&& job.scheduled_at == new_job.scheduled_at
            &&& job.status == JobStatus::Pending
            &&& job.attempts == 0
            &&& job.started_at is None
            &&& job.completed_at is None
            &&& job.last_error is None
            &&& job.last_heartbeat is None
        }),
{
}

/// A job may be claimed from the time that it is scheduled for on, and only while it waits.
pub proof fn waiting_job_is_due_from_its_time_on(job: Job, now: Timestamp)
    ensures
        is_due(job, now) <==> job.status == JobStatus::Pending && (job.scheduled_at.secs()
            < now.secs() || job.scheduled_at.secs() == now.secs() && job.scheduled_at.nanos()
            <= now.nanos()),
{
}

/// The job that is claimed next is one whose time has come, and no other such job has waited
/// longer.
pub proof fn longest_waiting_job_is_next(jobs: Seq<Job>, now: Timestamp, k: int, j: int)
    requires
        is_next(jobs, now, k),
        0 <= j < jobs.len(),
    ensures
        0 <= k < jobs.len(),
        jobs[k].status == JobStatus::Pending,
        jobs[k].scheduled_at == now || jobs[k].scheduled_at.before(now),
        jobs[j].status == JobStatus::Pending && (jobs[j].scheduled_at == now
            || jobs[j].scheduled_at.before(now)) ==> jobs[j].scheduled_at == jobs[k].scheduled_at
            || jobs[k].scheduled_at.before(jobs[j].scheduled_at),
        jobs[j].status == JobStatus::Pending && jobs[j].scheduled_at == jobs[k].scheduled_at ==> k
            <= j,
{
    timestamps_are_totally_ordered(jobs[k].scheduled_at, now, now);
    timestamps_are_totally_ordered(jobs[j].scheduled_at, now, now);
    timestamps_are_totally_ordered(now, jobs[j].scheduled_at, now);
    timestamps_are_totally_ordered(jobs[k].scheduled_at, jobs[j].scheduled_at, now);
    assert(is_due(jobs[j], now) ==> !jobs[j].scheduled_at.before(jobs[k].scheduled_at));
}

/// A claim marks the job as running since now, with a first sign of life, and counts as one
/// attempt.
pub proof fn claim_counts_as_attempt(job: Job, now: Timestamp)
    ensures
        ({
            let after = claimed_job(job, now);
            &&& is_same_job(after, job)
            &&& after.status == JobStatus::Running
            &&& after.started_at == Some(now)
            &&& after.last_heartbeat == Some(now)
            &&& job.attempts < u32::MAX ==> after.attempts == job.attempts + 1
            &&& after.scheduled_at == job.scheduled_at
            &&& after.completed_at == job.completed_at
            &&& after.last_error == job.last_error
        }),
{
}

/// A job that was done is marked so, and keeps the rest.
pub proof fn completion_keeps_the_rest(job: Job, now: Timestamp)
    ensures
        ({
            let after = completed_job(job, now);
            &&& is_same_job(after, job)
            &&& after.status == JobStatus::Completed
            &&& after.completed_at == Some(now)
            &&& after.attempts == job.attempts
            &&& after.started_at == job.started_at
            &&& after.scheduled_at == job.scheduled_at
            &&& after.last_error == job.last_error
            &&& after.last_heartbeat == job.last_heartbeat
        }),
{
}

/// A job that failed is tried again after its delay if that is asked for and attempts are left, and
/// is given up for good else. Either way the error is kept, and the attempts stay counted.
pub proof fn failed_job_is_retried_or_given_up(
    job: Job,
    after: Job,
    error: Seq<char>,
    should_retry: bool,
    delay: int,
    now: Timestamp,
)
    requires
        fails_to(job, after, error, should_retry, Some(delay), now),
    ensures
        is_same_job(after, job),
        after.attempts == job.attempts,
        after.started_at == job.started_at,
        after.last_heartbeat == job.last_heartbeat,
        after.last_error is Some && after.last_error->Some_0@ == error,
        should_retry && job.attempts < job.max_attempts ==> {
            &&& after.status == JobStatus::Pending
            &&& after.scheduled_at.secs() - now.secs() == delay
            &&& after.scheduled_at.nanos() == now.nanos()
            &&& after.completed_at is None
        },
        !should_retry || job.attempts >= job.max_attempts ==> {
            &&& after.status == JobStatus::Failed
            &&& after.scheduled_at == job.scheduled_at
            &&& after.completed_at == Some(now)
        },
{
}

/// The delay of a retry is the one that is asked for, and without one it goes by the attempts of
/// the job; there is none exactly where there is no such job.
pub proof fn asked_delay_wins(jobs: Seq<Job>, id: JobId, secs: u32, k: int)
    requires
        0 <= k < jobs.len(),
        jobs[k].id == id,
        unique_job_ids(jobs),
    ensures
        delay_for(jobs, id, Some(secs)) == Some(secs as int),
        delay_for(jobs, id, None) == Some(backoff_delay(jobs[k].attempts)),
{
    first_with_id_is_first(jobs, id);
    let f = first_with_id(jobs, id)->Some_0;
    if f < k {
        assert(jobs[f].id != jobs[k].id);
    }
}

/// A review of a repository is pending exactly while some job for it waits or runs.
pub proof fn review_is_pending_while_a_job_is_open(jobs: Seq<Job>, repo_id: RepoId)
    ensures
        review_is_pending(jobs, repo_id) <==> exists|i: int|
            #![trigger jobs[i]]
            0 <= i < jobs.len() && (jobs[i].status is Pending || jobs[i].status is Running)
                && jobs[i].payload->repo_id == repo_id,
{
    if exists|i: int|
        #![trigger jobs[i]]
        0 <= i < jobs.len() && (jobs[i].status is Pending || jobs[i].status is Running)
            && jobs[i].payload->repo_id == repo_id {
        let i = choose|i: int|
            #![trigger jobs[i]]
            0 <= i < jobs.len() && (jobs[i].status is Pending || jobs[i].status is Running)
                && jobs[i].payload->repo_id == repo_id;
        assert(awaits_review(jobs[i], repo_id));
    }
}

/// Exactly the jobs that wait are counted as pending.
pub proof fn waiting_jobs_are_counted(jobs: Seq<Job>, more: Job)
    ensures
        pending_jobs(Seq::empty()).len() == 0,
        pending_jobs(jobs.push(more)).len() == pending_jobs(jobs).len() + if more.status
            == JobStatus::Pending {
            1int
        } else {
            0int
        },
{
    reveal(Seq::filter);
    assert(jobs.push(more).drop_last() =~= jobs);
    assert(Seq::<Job>::empty().filter(|j: Job| j.status == JobStatus::Pending).len() == 0);
}

/// Only jobs that ended are ever cleaned up, and only once the days have passed since their end.
pub proof fn only_ended_jobs_are_cleaned_up(job: Job, days: i64, now: Timestamp, ended: Timestamp)
    ensures
        is_old(job, days, now) ==> job.status == JobStatus::Completed || job.status
            == JobStatus::Failed,
        job.completed_at is None ==> !is_old(job, days, now),
        job.completed_at == Some(ended) && (job.status == JobStatus::Completed || job.status
            == JobStatus::Failed) ==> (is_old(job, days, now) <==> now.secs() - ended.secs() > 86_400
            * days || now.secs() - ended.secs() == 86_400 * days && now.nanos() > ended.nanos()),
{
}

/// A running job is stuck once the minutes have passed since its last sign of life: its heartbeat,
/// and where there was none, its start. No other job is stuck.
pub proof fn silent_running_jobs_are_stuck(job: Job, minutes: i64, now: Timestamp, t: Timestamp)
    ensures
        job.status != JobStatus::Running ==> !is_stuck(job, minutes, now),
        job.last_heartbeat is None && job.started_at is None ==> !is_stuck(job, minutes, now),
        job.status == JobStatus::Running && (job.last_heartbeat == Some(t) || job.last_heartbeat
            is None && job.started_at == Some(t)) ==> (is_stuck(job, minutes, now) <==> now.secs()
            - t.secs() > 60 * minutes || now.secs() - t.secs() == 60 * minutes && now.nanos()
            > t.nanos()),
{
}

/// A stuck job waits again if attempts are left, and is given up else; the reason is recorded.
pub proof fn stuck_job_is_retried_or_given_up(job: Job, after: Job, now: Timestamp)
    requires
        is_reclaimed_job(job, after, now),
    ensures
        is_same_job(after, job),
        after.attempts == job.attempts,
        after.scheduled_at == job.scheduled_at,
        after.started_at == job.started_at,
        after.last_heartbeat == job.last_heartbeat,
        after.last_error is Some,
        job.attempts < job.max_attempts ==> {
            &&& after.status == JobStatus::Pending
            &&& after.completed_at is None
            &&& after.last_error->Some_0@ == "Job reclaimed after stuck in running state"@
        },
        job.attempts >= job.max_attempts ==> {
            &&& after.status == JobStatus::Failed
            &&& after.completed_at == Some(now)
            &&& after.last_error->Some_0@ == "Job failed after exceeding max attempts while stuck"@
        },
{
}

/// Exactly the stuck jobs are counted as such.
pub proof fn stuck_jobs_are_counted(jobs: Seq<Job>, more: Job, minutes: i64, now: Timestamp)
    ensures
        stuck_count(Seq::empty(), minutes, now) == 0,
        stuck_count(jobs.push(more), minutes, now) == stuck_count(jobs, minutes, now) + if is_stuck(
            more,
            minutes,
            now,
        ) {
            1int
        } else {
            0int
        },
{
    reveal(Seq::filter);
    assert(jobs.push(more).drop_last() =~= jobs);
    assert(Seq::<Job>::empty().filter(|j: Job| is_stuck(j, minutes, now)).len() == 0);
}

/// A row is a job exactly if its payload is one, its status is known and its times can be read. The
/// job has what is stored.
pub proof fn job_is_what_is_stored(job: Job, row: JobRow, payload: JobPayload)
    ensures
        job_row_error(row, None) is Some,
        job_row_error(row, Some(payload)) is None <==> {
            &&& row.status@ == "pending"@ || row.status@ == "running"@ || row.status@
                == "completed"@ || row.status@ == "failed"@
            &&& stored_instant(row.scheduled_at@) is Some
            &&& row.started_at is None || stored_instant(row.started_at->Some_0@) is Some
            &&& row.completed_at is None || stored_instant(row.completed_at->Some_0@) is Some
            &&& row.last_heartbeat is None || stored_instant(row.last_heartbeat->Some_0@) is Some
            &&& stored_instant(row.created_at@) is Some
        },
        is_job_of_row(job, row, payload) ==> {
            &&& job.id == JobId(row.id)
            &&& job.payload == payload
            &&& job.status == JobStatus::Pending <==> row.status@ == "pending"@
            &&& job.status == JobStatus::Running <==> row.status@ == "running"@
            &&& job.status == JobStatus::Completed <==> row.status@ == "completed"@
            &&& job.status == JobStatus::Failed <==> row.status@ == "failed"@
            &&& 0 <= row.attempts <= u32::MAX ==> job.attempts == row.attempts
            &&& 0 <= row.max_attempts <= u32::MAX ==> job.max_attempts == row.max_attempts
            &&& stored_instant(row.scheduled_at@) == Some(
                (job.scheduled_at.secs(), job.scheduled_at.nanos()),
            )
            &&& job.started_at is None <==> row.started_at is None
            &&& job.completed_at is None <==> row.completed_at is None
            &&& job.last_heartbeat is None <==> row.last_heartbeat is None
            &&& job.last_error == row.last_error
        },
{
    reveal_strlit("pending");
    reveal_strlit("running");
    reveal_strlit("completed");
    reveal_strlit("failed");
    assert("pending"@[0] == 'p' && "running"@[0] == 'r' && "completed"@[0] == 'c' && "failed"@[0]
        == 'f');
}

/// A job can be stored where all its times can be written.
pub proof fn jobs_with_writable_times_are_storable(job: Job)
    ensures
        is_storable_job(job) <==> is_writable(Some(job.scheduled_at)) && is_writable(job.started_at)
            && is_writable(job.completed_at) && is_writable(job.last_heartbeat) && is_writable(
            Some(job.created_at),
        ),
{
}

} // verus!
