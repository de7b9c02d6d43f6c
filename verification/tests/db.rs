use panopticon_server::db::jobs::{self, JobColumns, JobRow};
use panopticon_server::db::order;
use panopticon_server::db::prompts::{self, PromptRow};
use panopticon_server::db::repos::{self, RepoColumns, RepoRow};
use panopticon_server::db::reviews::{self, ReviewResultRow, ReviewRow};
use panopticon_server::db::DbError;
use panopticon_server::domain::ids::{JobId, PromptId, RepoId, ReviewId};
use panopticon_server::domain::job::{Job, JobPayload, JobStatus, NewJob};
use panopticon_server::domain::prompt::{NewPrompt, Prompt, PromptText};
use panopticon_server::domain::repo::{CommitSha, GitHubRepoUrl, NewRepo, Repo};
use panopticon_server::domain::review::{
    NewReview, Review, ReviewOutput, ReviewStatus, ReviewTrigger,
};
use panopticon_server::domain::untrusted::UntrustedString;
use panopticon_server::time::{Column, Timestamp};

const SHA: &str = "abcdef1234567890abcdef1234567890abcdef12";

fn at(secs: i64) -> Timestamp {
    Timestamp::new(secs, 0).unwrap()
}

fn sha() -> CommitSha {
    CommitSha::parse(SHA).unwrap()
}

fn repo_row(url: &str) -> RepoRow {
    RepoRow {
        id: 1,
        url: url.to_string(),
        last_commit_sha: None,
        last_checked_at: None,
        created_at: "2024-01-01T00:00:00Z".to_string(),
    }
}

fn prompt_row(enabled: bool) -> PromptRow {
    PromptRow {
        id: 1,
        repo_id: 1,
        name: "Test".to_string(),
        text: "Review this".to_string(),
        enabled,
        is_default: true,
        created_at: "2024-01-01T00:00:00Z".to_string(),
    }
}

fn new_review(repo_id: i64) -> NewReview {
    NewReview {
        repo_id: RepoId::new(repo_id),
        commit_sha: sha(),
        trigger: ReviewTrigger::Manual,
    }
}

fn get_review(rows: &Vec<ReviewRow>, id: ReviewId) -> Review {
    reviews::get_by_id(rows, &Vec::new(), id).unwrap().unwrap()
}

fn queue(max_attempts: u32) -> (Vec<Job>, Job) {
    let mut queue = Vec::new();
    let mut new_job = NewJob::review_repo_at(RepoId::new(1), false, at(1000));
    new_job.max_attempts = max_attempts;
    let job = jobs::create(&mut queue, new_job, at(1000)).unwrap();
    (queue, job)
}

// --- Stored times ---

#[test]
fn datetime_now_format_should_be_parseable() {
    let mut row = repo_row("https://github.com/test/repo");
    row.created_at = "2024-01-15 10:30:00".to_string();
    let result = repos::repo_of_row(row);
    assert!(
        result.is_ok(),
        "Should parse datetime('now') format: {:?}",
        result
    );
    let table = vec![result.unwrap()];
    assert!(
        repos::get_by_id(&table, RepoId::new(1)).is_some(),
        "Repo should exist"
    );
}

#[test]
fn review_timestamps_should_roundtrip() {
    let mut rows = Vec::new();
    let review = reviews::create(&mut rows, new_review(1), at(1_705_314_600));
    assert!(
        review.is_ok(),
        "Review creation should succeed: {:?}",
        review
    );
    let read = get_review(&rows, review.unwrap().id);
    assert_eq!(read.created_at, at(1_705_314_600));
    assert!(matches!(read.status, ReviewStatus::Pending));
    assert_eq!(read.commit_sha.as_str(), SHA);
}

#[test]
fn job_scheduled_at_comparison_should_work() {
    let mut queue = Vec::new();
    let new_job = NewJob::review_repo(RepoId::new(1), false);
    jobs::create(&mut queue, new_job, Timestamp::now()).expect("Job creation");
    let claimed = jobs::claim_next(&mut queue, Timestamp::now());
    assert!(claimed.is_some(), "Job should be claimed immediately");
}

// --- Jobs ---

#[test]
fn repo_id_matching_should_be_exact() {
    let mut queue = Vec::new();
    let job = NewJob::review_repo(RepoId::new(10), false);
    jobs::create(&mut queue, job, at(0)).unwrap();
    let has_pending_1 = jobs::has_pending_review(&queue, RepoId::new(1));
    assert!(
        !has_pending_1,
        "Repo 1 should NOT have pending reviews (repo 10 does)"
    );
    assert!(jobs::has_pending_review(&queue, RepoId::new(10)));
}

#[test]
fn repo_id_100_should_not_match_repo_id_10() {
    let mut queue = Vec::new();
    let job = NewJob::review_repo(RepoId::new(100), false);
    jobs::create(&mut queue, job, at(0)).unwrap();
    let has_pending_10 = jobs::has_pending_review(&queue, RepoId::new(10));
    assert!(
        !has_pending_10,
        "Repo 10 should NOT have pending reviews (repo 100 does)"
    );
}

#[test]
fn stuck_running_jobs_should_be_reclaimable() {
    let mut queue = Vec::new();
    let new_job = NewJob::review_repo_at(RepoId::new(1), false, at(1000));
    jobs::create(&mut queue, new_job, at(1000)).unwrap();
    let claimed = jobs::claim_next(&mut queue, at(1000));
    assert!(claimed.is_some(), "Job should be claimed");
    let claimed = claimed.unwrap();
    let next = jobs::claim_next(&mut queue, at(1000));
    assert!(next.is_none(), "No more pending jobs");
    let reclaimed = jobs::reclaim_stuck(&mut queue, 0, at(1001));
    assert_eq!(reclaimed, 1, "Should reclaim 1 stuck job");
    assert_eq!(
        queue[0].last_error.as_deref(),
        Some("Job reclaimed after stuck in running state")
    );
    let reclaimed_job = jobs::claim_next(&mut queue, at(1001));
    assert!(reclaimed_job.is_some(), "Reclaimed job should be pending");
    let reclaimed_job = reclaimed_job.unwrap();
    assert_eq!(reclaimed_job.id, claimed.id, "Should be the same job");
    assert_eq!(
        reclaimed_job.attempts,
        claimed.attempts + 1,
        "Attempts should be incremented"
    );
}

#[test]
fn jobs_exceeding_max_attempts_should_be_marked_failed() {
    let (mut queue, job) = queue(1);
    let claimed = jobs::claim_next(&mut queue, at(1000));
    assert!(claimed.is_some());
    let reclaimed = jobs::reclaim_stuck(&mut queue, 0, at(1001));
    assert_eq!(reclaimed, 1);
    let next = jobs::claim_next(&mut queue, at(1001));
    assert!(next.is_none(), "Failed job should not be claimable");
    let count = queue
        .iter()
        .filter(|j| j.id == job.id && j.status == JobStatus::Failed)
        .count();
    assert_eq!(count, 1, "Job should be marked as failed");
    assert_eq!(
        queue[0].last_error.as_deref(),
        Some("Job failed after exceeding max attempts while stuck")
    );
    assert_eq!(queue[0].completed_at, Some(at(1001)));
}

#[test]
fn beating_jobs_are_not_reclaimed() {
    let (mut queue, job) = queue(3);
    jobs::claim_next(&mut queue, at(1000));
    jobs::update_heartbeat(&mut queue, job.id, at(5000));
    assert_eq!(jobs::reclaim_stuck(&mut queue, 30, at(5000 + 1800)), 0);
    assert_eq!(jobs::reclaim_stuck(&mut queue, 30, at(5000 + 1801)), 1);
    queue[0].status = JobStatus::Running;
    queue[0].last_heartbeat = None;
    assert_eq!(queue[0].started_at, Some(at(1000)));
    assert_eq!(jobs::reclaim_stuck(&mut queue, 30, at(2801)), 1);
}

#[test]
fn failed_job_should_have_delayed_scheduled_at() {
    let (mut queue, _) = queue(3);
    let claimed = jobs::claim_next(&mut queue, at(1000)).unwrap();
    let original_scheduled_at = claimed.scheduled_at;
    jobs::fail(
        &mut queue,
        claimed.id,
        "test error",
        true,
        Some(60),
        at(1000),
    )
    .unwrap();
    let delay = queue[0].scheduled_at.seconds() - original_scheduled_at.seconds();
    assert!(
        delay >= 55,
        "Job should be delayed by at least 55s, got {:?}",
        delay
    );
    assert_eq!(delay, 60);
    assert_eq!(queue[0].last_error.as_deref(), Some("test error"));
    assert_eq!(queue[0].status, JobStatus::Pending);
}

#[test]
fn failed_job_with_default_delay_should_use_exponential_backoff() {
    let (mut queue, _) = queue(3);
    let claimed = jobs::claim_next(&mut queue, at(1000)).unwrap();
    jobs::fail(&mut queue, claimed.id, "test error", true, None, at(1000)).unwrap();
    let new_scheduled_at = queue[0].scheduled_at;
    let now = at(1000);
    assert!(
        now.is_before(&new_scheduled_at),
        "Failed job should be scheduled in the future, got {:?} vs now {:?}",
        new_scheduled_at,
        now
    );
    assert_eq!(new_scheduled_at, at(1060));
}

#[test]
fn delayed_job_should_not_be_claimed_immediately() {
    let (mut queue, _) = queue(3);
    let claimed = jobs::claim_next(&mut queue, at(1000)).unwrap();
    jobs::fail(
        &mut queue,
        claimed.id,
        "test error",
        true,
        Some(3600),
        at(1000),
    )
    .unwrap();
    let next = jobs::claim_next(&mut queue, at(1000));
    assert!(
        next.is_none(),
        "Delayed job should not be immediately claimable"
    );
    assert!(jobs::claim_next(&mut queue, at(4599)).is_none());
    assert!(jobs::claim_next(&mut queue, at(4600)).is_some());
}

#[test]
fn backoff_doubles_up_to_an_hour() {
    let delays: Vec<i64> = (0..9).map(jobs::calculate_backoff_delay).collect();
    assert_eq!(delays, [30, 60, 120, 240, 480, 960, 1920, 3600, 3600]);
    assert_eq!(jobs::calculate_backoff_delay(u32::MAX), 3600);
}

#[test]
fn jobs_without_attempts_left_are_given_up() {
    let (mut queue, _) = queue(1);
    let claimed = jobs::claim_next(&mut queue, at(1000)).unwrap();
    jobs::fail(&mut queue, claimed.id, "e", true, Some(5), at(1001)).unwrap();
    assert_eq!(queue[0].status, JobStatus::Failed);
    assert_eq!(queue[0].completed_at, Some(at(1001)));
    assert_eq!(queue[0].scheduled_at, at(1000));
    let (mut other, _) = self::queue(3);
    jobs::fail(&mut other, JobId::new(1), "e", false, None, at(1001)).unwrap();
    assert_eq!(other[0].status, JobStatus::Failed);
}

#[test]
fn retrying_a_missing_job_is_an_error() {
    let (mut queue, _) = queue(1);
    assert_eq!(
        jobs::fail(&mut queue, JobId::new(9), "e", true, None, at(0)),
        Err(DbError::RowNotFound)
    );
    assert_eq!(
        jobs::fail(&mut queue, JobId::new(9), "e", false, None, at(0)),
        Ok(())
    );
    assert_eq!(jobs::retry_delay(&queue, JobId::new(9), Some(1)), None);
    assert_eq!(jobs::retry_delay(&queue, JobId::new(1), Some(1)), Some(1));
    assert_eq!(jobs::retry_delay(&queue, JobId::new(1), None), Some(30));
}

#[test]
fn earliest_job_is_claimed_first() {
    let mut queue = Vec::new();
    for (repo, secs) in [(1, 30), (2, 10), (3, 10), (4, 99)] {
        let job = NewJob::review_repo_at(RepoId::new(repo), false, at(secs));
        jobs::create(&mut queue, job, at(0)).unwrap();
    }
    let mut claimed = Vec::new();
    while let Some(job) = jobs::claim_next(&mut queue, at(50)) {
        assert_eq!(job.status, JobStatus::Running);
        assert_eq!(job.attempts, 1);
        claimed.push(job.id.into_inner());
    }
    assert_eq!(claimed, [2, 3, 1]);
    assert_eq!(jobs::count_pending(&queue), 1);
}

#[test]
fn completed_jobs_are_cleaned_up_when_old() {
    let (mut queue, job) = queue(3);
    jobs::complete(&mut queue, job.id, at(1000));
    assert_eq!(queue[0].status, JobStatus::Completed);
    assert!(!jobs::has_pending_review(&queue, RepoId::new(1)));
    assert_eq!(jobs::cleanup_old(&mut queue, 7, at(1000 + 7 * 86_400)), 0);
    assert_eq!(jobs::cleanup_old(&mut queue, 7, at(1001 + 7 * 86_400)), 1);
    assert!(queue.is_empty());
}

#[test]
fn ids_are_never_used_twice() {
    let (mut queue, _) = queue(3);
    queue[0].id = JobId::new(41);
    let job = NewJob::review_repo_at(RepoId::new(1), false, at(0));
    assert_eq!(jobs::create(&mut queue, job, at(0)).unwrap().id.into_inner(), 42);
    queue[0].id = JobId::new(i64::MAX);
    assert_eq!(
        jobs::create(&mut queue, job, at(0)).unwrap_err(),
        DbError::TableFull
    );
    assert_eq!(queue.len(), 2);
}

fn job_row() -> JobRow {
    JobRow {
        id: 3,
        status: "running".to_string(),
        attempts: 2,
        max_attempts: 3,
        scheduled_at: "2024-01-15 10:30:00".to_string(),
        started_at: Some("2024-01-15T10:30:00Z".to_string()),
        completed_at: None,
        last_error: Some("e".to_string()),
        last_heartbeat: None,
        created_at: "2024-01-15T10:30:00Z".to_string(),
    }
}

const PAYLOAD: Option<JobPayload> = Some(JobPayload::ReviewRepo {
    repo_id: RepoId(1),
    force: false,
});

#[test]
fn job_rows_are_read() {
    let job = jobs::job_of_row(job_row(), PAYLOAD).unwrap();
    assert_eq!(job.id, JobId::new(3));
    assert_eq!(job.status, JobStatus::Running);
    assert_eq!(job.started_at, Some(job.scheduled_at));
    let again = jobs::job_of_row(jobs::row_of_job(&job), Some(job.payload)).unwrap();
    assert_eq!(again.scheduled_at, job.scheduled_at);
    assert_eq!(again.started_at, job.started_at);
    assert_eq!(again.last_error, job.last_error);
    assert_eq!((again.attempts, again.max_attempts), (2, 3));
}

#[test]
fn broken_job_rows_are_rejected() {
    assert_eq!(
        jobs::job_of_row(job_row(), None).unwrap_err(),
        "invalid job payload"
    );
    let mut row = job_row();
    row.status = "sleeping".to_string();
    assert_eq!(
        jobs::job_of_row(row, PAYLOAD).unwrap_err(),
        "invalid job status"
    );
    let mut row = job_row();
    row.completed_at = Some("never".to_string());
    assert_eq!(jobs::job_of_row(row, PAYLOAD).unwrap_err(), "invalid date");
}

// --- Repositories ---

fn repo_table() -> Vec<Repo> {
    let mut table = Vec::new();
    for (name, secs) in [("a", 10), ("b", 30), ("c", 20)] {
        let url = GitHubRepoUrl::parse(&format!("https://github.com/test/{}", name)).unwrap();
        repos::create(&mut table, NewRepo { url }, at(secs)).unwrap();
    }
    table
}

#[test]
fn repos_should_track_last_checked_at() {
    let mut table =
        vec![repos::repo_of_row(repo_row("https://github.com/test/unchanged")).unwrap()];
    let repo = repos::get_by_id(&table, RepoId::new(1)).unwrap();
    assert!(
        repo.last_checked_at.is_none(),
        "Initially should have no last_checked_at"
    );
    let now = Timestamp::now();
    repos::update_last_checked(&mut table, RepoId::new(1), Timestamp::now());
    let repo = repos::get_by_id(&table, RepoId::new(1)).unwrap();
    assert!(
        repo.last_checked_at.is_some(),
        "Should have last_checked_at after update"
    );
    let last_checked = repo.last_checked_at.unwrap();
    let diff = (now.seconds() - last_checked.seconds()).abs();
    assert!(
        diff < 5,
        "last_checked_at should be recent, got diff of {}s",
        diff
    );
}

#[test]
fn recently_checked_repo_should_not_be_scheduled() {
    let now = Timestamp::now();
    let mut row = repo_row("https://github.com/test/recent");
    row.last_checked_at = Some(now.to_rfc3339());
    let table = vec![repos::repo_of_row(row).unwrap()];
    let needs_check = repos::needs_check(&table, RepoId::new(1), 24, Timestamp::now());
    assert!(
        !needs_check,
        "Recently checked repo should not need another check"
    );
}

#[test]
fn checks_are_due_after_the_interval() {
    let mut table = repo_table();
    assert!(repos::needs_check(&table, RepoId::new(1), 24, at(0)));
    repos::update_last_checked(&mut table, RepoId::new(1), at(1000));
    assert!(!repos::needs_check(&table, RepoId::new(1), 24, at(1000 + 86_400)));
    assert!(repos::needs_check(&table, RepoId::new(1), 24, at(1001 + 86_400)));
    assert!(!repos::needs_check(&table, RepoId::new(99), 24, at(0)));
    assert!(repos::needs_check(&table, RepoId::new(2), 24, at(0)));
}

#[test]
fn newest_repo_is_listed_first() {
    let names: Vec<String> = repos::list_all(&repo_table())
        .iter()
        .map(|r| r.url.name().to_string())
        .collect();
    assert_eq!(names, ["b", "c", "a"]);
}

#[test]
fn repos_are_found_deleted_and_updated() {
    let mut table = repo_table();
    let url = GitHubRepoUrl::parse("https://github.com/test/b").unwrap();
    assert!(repos::exists_by_url(&table, &url));
    repos::update_last_commit(&mut table, RepoId::new(2), &sha());
    let repo = repos::get_by_id(&table, RepoId::new(2)).unwrap();
    assert!(repo.last_commit_sha.unwrap().same_as(&sha()));
    assert!(repos::get_by_id(&table, RepoId::new(1))
        .unwrap()
        .last_commit_sha
        .is_none());
    assert!(repos::delete(&mut table, RepoId::new(2)));
    assert!(!repos::delete(&mut table, RepoId::new(2)));
    assert!(!repos::exists_by_url(&table, &url));
    assert_eq!(table.len(), 2);
}

#[test]
fn broken_repo_rows_are_rejected() {
    assert_eq!(
        repos::repo_of_row(repo_row("https://example.com/a/b")).unwrap_err(),
        "invalid URL in database"
    );
    let mut row = repo_row("https://github.com/a/b");
    row.last_commit_sha = Some("abc".to_string());
    assert_eq!(
        repos::repo_of_row(row).unwrap_err(),
        "invalid commit SHA in database"
    );
    let mut row = repo_row("https://github.com/a/b");
    row.created_at = "".to_string();
    assert_eq!(repos::repo_of_row(row).unwrap_err(), "invalid date");
}

#[test]
fn repo_rows_are_read_back() {
    let mut table = repo_table();
    repos::update_last_commit(&mut table, RepoId::new(1), &sha());
    repos::update_last_checked(&mut table, RepoId::new(1), at(77));
    let read = repos::repo_of_row(repos::row_of_repo(&table[0])).unwrap();
    assert_eq!(read.url.as_str(), table[0].url.as_str());
    assert_eq!(read.last_checked_at, Some(at(77)));
    assert_eq!(read.created_at, at(10));
    assert!(read.last_commit_sha.unwrap().same_as(&sha()));
}

// --- Prompts ---

#[test]
fn get_by_id_and_repo_enforces_ownership() {
    let mut row = prompt_row(true);
    row.name = "Test Prompt".to_string();
    row.text = "Review the code".to_string();
    let table = vec![prompts::prompt_of_row(row).unwrap()];
    let result = prompts::get_by_id_and_repo(&table, PromptId::new(1), RepoId::new(1));
    assert!(result.is_some(), "Prompt should exist in repo 1");
    let result = prompts::get_by_id_and_repo(&table, PromptId::new(1), RepoId::new(2));
    assert!(
        result.is_none(),
        "Prompt should not be accessible via repo 2"
    );
}

#[test]
fn repos_without_enabled_prompts_should_not_be_scheduled() {
    let has_enabled = prompts::has_enabled_prompts(&Vec::new(), RepoId::new(1));
    assert!(
        !has_enabled,
        "Repo without prompts should not have enabled prompts"
    );
}

#[test]
fn repos_with_all_prompts_disabled_should_not_be_scheduled() {
    let table = vec![prompts::prompt_of_row(prompt_row(false)).unwrap()];
    let has_enabled = prompts::has_enabled_prompts(&table, RepoId::new(1));
    assert!(
        !has_enabled,
        "Repo with only disabled prompts should not have enabled prompts"
    );
}

#[test]
fn repos_with_enabled_prompts_should_pass_check() {
    let table = vec![prompts::prompt_of_row(prompt_row(true)).unwrap()];
    let has_enabled = prompts::has_enabled_prompts(&table, RepoId::new(1));
    assert!(
        has_enabled,
        "Repo with enabled prompts should pass the check"
    );
}

fn prompt_table() -> Vec<Prompt> {
    let mut table = Vec::new();
    for (repo, name, is_default, secs) in [
        (1, "late", false, 30),
        (1, "early", false, 10),
        (1, "default", true, 20),
        (2, "other", false, 5),
    ] {
        let new_prompt = NewPrompt {
            repo_id: RepoId::new(repo),
            name: name.to_string(),
            text: PromptText::new("text".to_string()).unwrap(),
            is_default,
        };
        prompts::create(&mut table, new_prompt, at(secs)).unwrap();
    }
    table
}

#[test]
fn default_prompts_are_listed_first() {
    let mut table = prompt_table();
    let names = |list: Vec<Prompt>| -> Vec<String> { list.into_iter().map(|p| p.name).collect() };
    assert_eq!(
        names(prompts::list_by_repo(&table, RepoId::new(1))),
        ["default", "early", "late"]
    );
    let text = PromptText::new("new".to_string()).unwrap();
    assert!(prompts::update(&mut table, PromptId::new(2), "changed", &text, false));
    assert_eq!(
        names(prompts::list_enabled_by_repo(&table, RepoId::new(1))),
        ["default", "late"]
    );
    let changed = prompts::get_by_id(&table, PromptId::new(2)).unwrap();
    assert_eq!((changed.name.as_str(), changed.text.as_str()), ("changed", "new"));
    assert_eq!(prompts::count_by_repo(&table, RepoId::new(1)), 3);
    assert!(prompts::delete(&mut table, PromptId::new(1)));
    assert!(!prompts::delete(&mut table, PromptId::new(1)));
    assert!(!prompts::update(&mut table, PromptId::new(1), "x", &text, true));
    assert_eq!(prompts::count_by_repo(&table, RepoId::new(1)), 2);
}

#[test]
fn prompt_rows_are_read_and_written() {
    let mut row = prompt_row(true);
    row.text = "  text  ".to_string();
    let prompt = prompts::prompt_of_row(row).unwrap();
    assert_eq!(prompt.text.as_str(), "text");
    let again = prompts::prompt_of_row(prompts::row_of_prompt(&prompt)).unwrap();
    assert_eq!(again.created_at, prompt.created_at);
    assert_eq!(again.text.as_str(), "text");
    let mut blank = prompt_row(true);
    blank.text = " \n ".to_string();
    assert_eq!(
        prompts::prompt_of_row(blank).unwrap_err(),
        "empty prompt text in database"
    );
    let mut undated = prompt_row(true);
    undated.created_at = "x".to_string();
    assert_eq!(prompts::prompt_of_row(undated).unwrap_err(), "invalid date");
}

// --- Reviews ---

#[test]
fn failed_review_should_not_prevent_retry_scheduling() {
    let mut rows = Vec::new();
    let review = reviews::create(&mut rows, new_review(1), at(1000)).unwrap();
    reviews::mark_failed(&mut rows, review.id, "test error", at(1001));
    let latest = reviews::get_latest_for_repo(&rows, RepoId::new(1))
        .unwrap()
        .unwrap();
    match latest.status {
        ReviewStatus::Failed { .. } => {}
        other => panic!("Expected Failed status, got {:?}", other),
    }
}

#[test]
fn interval_should_be_calculated_from_completed_at() {
    let mut rows = Vec::new();
    let review = reviews::create(&mut rows, new_review(1), Timestamp::now()).unwrap();
    reviews::mark_in_progress(&mut rows, review.id, Timestamp::now());
    reviews::mark_completed(&mut rows, review.id, 3600, Timestamp::now());
    let completed = reviews::get_latest_for_repo(&rows, RepoId::new(1))
        .unwrap()
        .unwrap();
    match completed.status {
        ReviewStatus::Completed { completed_at, .. } => {
            let hours_since_completed =
                (Timestamp::now().seconds() - completed_at.seconds()) / 3600;
            assert!(
                hours_since_completed < 1,
                "Review just completed, should be less than 1 hour ago"
            );
        }
        other => panic!("Expected Completed status, got {:?}", other),
    }
}

#[test]
fn cleanup_guard_should_preserve_real_error() {
    let mut rows = Vec::new();
    let review = reviews::create(&mut rows, new_review(1), at(1000)).unwrap();
    reviews::mark_in_progress(&mut rows, review.id, at(1000));
    let specific_error = "LLM rate limited: retry after 60s";
    reviews::mark_failed(&mut rows, review.id, specific_error, at(1001));
    let failed = get_review(&rows, review.id);
    match failed.status {
        ReviewStatus::Failed { error, .. } => {
            assert_eq!(
                error, specific_error,
                "Error message should be preserved, not generic"
            );
        }
        other => panic!("Expected Failed status, got: {:?}", other),
    }
}

#[test]
fn review_should_not_stay_in_progress_after_error() {
    let mut rows = Vec::new();
    let review = reviews::create(&mut rows, new_review(1), at(1000)).unwrap();
    reviews::mark_in_progress(&mut rows, review.id, at(1000));
    let in_prog = get_review(&rows, review.id);
    assert!(
        matches!(in_prog.status, ReviewStatus::InProgress { .. }),
        "Review should be in_progress"
    );
    reviews::mark_failed(&mut rows, review.id, "simulated error", at(1001));
    let failed = get_review(&rows, review.id);
    assert!(
        matches!(failed.status, ReviewStatus::Failed { .. }),
        "Review should be marked failed on error, got: {:?}",
        failed.status
    );
}

#[test]
fn update_last_commit_should_precede_mark_completed() {
    let mut table =
        vec![repos::repo_of_row(repo_row("https://github.com/test/ordering")).unwrap()];
    let mut rows = Vec::new();
    let review = reviews::create(&mut rows, new_review(1), at(1000)).unwrap();
    reviews::mark_in_progress(&mut rows, review.id, at(1000));
    repos::update_last_commit(&mut table, RepoId::new(1), &sha());
    reviews::mark_completed(&mut rows, review.id, 100, at(1100));
    let repo = repos::get_by_id(&table, RepoId::new(1)).unwrap();
    assert_eq!(
        repo.last_commit_sha.map(|s| s.as_str().to_string()),
        Some(SHA.to_string())
    );
    let completed_review = get_review(&rows, review.id);
    assert!(matches!(
        completed_review.status,
        ReviewStatus::Completed { .. }
    ));
}

#[test]
fn creation_is_noted_to_the_second() {
    let now = Timestamp::new(1000, 999_999_999).unwrap();
    let mut repo_rows = Vec::new();
    for name in ["a", "b"] {
        let url = GitHubRepoUrl::parse(&format!("https://github.com/test/{}", name)).unwrap();
        let repo = repos::create(&mut repo_rows, NewRepo { url }, now).unwrap();
        assert_eq!(repo.created_at, at(1000));
    }
    assert_eq!(repo_rows[0].created_at, at(1000));
    let new_prompt = NewPrompt {
        repo_id: RepoId::new(1),
        name: "p".to_string(),
        text: PromptText::new("text".to_string()).unwrap(),
        is_default: false,
    };
    let prompt = prompts::create(&mut Vec::new(), new_prompt, now).unwrap();
    assert_eq!(prompt.created_at, at(1000));
    let new_job = NewJob::review_repo_at(RepoId::new(1), false, now);
    let job = jobs::create(&mut Vec::new(), new_job, now).unwrap();
    assert_eq!(job.created_at, at(1000));
    assert_eq!(job.scheduled_at, now);
    let review = reviews::create(&mut Vec::new(), new_review(1), now).unwrap();
    assert_eq!(review.created_at, at(1000));
}

#[test]
fn states_are_read_back_with_their_times() {
    let mut rows = Vec::new();
    let now = Timestamp::new(1000, 500).unwrap();
    let id = reviews::create(&mut rows, new_review(1), now).unwrap().id;
    reviews::mark_in_progress(&mut rows, id, now);
    match get_review(&rows, id).status {
        ReviewStatus::InProgress { started_at } => assert_eq!(started_at, at(1000)),
        other => panic!("unexpected: {:?}", other),
    }
    reviews::mark_completed(&mut rows, id, 60, at(1060));
    match get_review(&rows, id).status {
        ReviewStatus::Completed {
            started_at,
            completed_at,
            duration_secs,
        } => {
            assert_eq!((started_at, completed_at), (at(1000), at(1060)));
            assert_eq!(duration_secs, 60);
        }
        other => panic!("unexpected: {:?}", other),
    }
    reviews::mark_failed(&mut rows, id, "why", at(1061));
    match get_review(&rows, id).status {
        ReviewStatus::Failed {
            started_at,
            failed_at,
            error,
        } => {
            assert_eq!((started_at, failed_at), (Some(at(1000)), at(1061)));
            assert_eq!(error, "why");
        }
        other => panic!("unexpected: {:?}", other),
    }
}

#[test]
fn broken_review_rows_are_rejected() {
    let mut rows = Vec::new();
    let id = reviews::create(&mut rows, new_review(1), at(1000)).unwrap().id;
    let error = |change: &dyn Fn(&mut ReviewRow)| {
        let mut broken = rows.clone();
        change(&mut broken[0]);
        reviews::get_by_id(&broken, &Vec::new(), id).unwrap_err()
    };
    assert_eq!(
        error(&|r| r.commit_sha = "x".to_string()),
        "invalid commit SHA"
    );
    assert_eq!(error(&|r| r.trigger = "x".to_string()), "invalid trigger");
    assert_eq!(error(&|r| r.status = "x".to_string()), "unknown status");
    assert_eq!(error(&|r| r.created_at = "x".to_string()), "invalid date");
    assert_eq!(
        error(&|r| r.status = "in_progress".to_string()),
        "in_progress status without started_at"
    );
    assert_eq!(
        error(&|r| r.status = "completed".to_string()),
        "completed status without started_at"
    );
    assert_eq!(
        error(&|r| {
            r.status = "completed".to_string();
            r.started_at = Some("2024-01-01 00:00:00".to_string());
        }),
        "completed status without completed_at"
    );
    assert_eq!(
        error(&|r| r.status = "failed".to_string()),
        "failed status without completed_at"
    );
    assert_eq!(
        error(&|r| {
            r.status = "failed".to_string();
            r.completed_at = Some("x".to_string());
        }),
        "invalid date"
    );
}

#[test]
fn missing_duration_and_error_have_defaults() {
    let row = |status: &str| ReviewRow {
        id: 1,
        repo_id: 1,
        commit_sha: SHA.to_uppercase(),
        trigger: "scheduled".to_string(),
        status: status.to_string(),
        started_at: Some("2024-01-01 00:00:00".to_string()),
        completed_at: Some("2024-01-01 00:00:09".to_string()),
        duration_secs: None,
        error: None,
        created_at: "2024-01-01 00:00:00".to_string(),
    };
    match reviews::parse_status(&row("completed")) {
        Ok(ReviewStatus::Completed { duration_secs, .. }) => assert_eq!(duration_secs, 0),
        other => panic!("unexpected: {:?}", other),
    }
    match reviews::parse_status(&row("failed")) {
        Ok(ReviewStatus::Failed { error, .. }) => assert_eq!(error, ""),
        other => panic!("unexpected: {:?}", other),
    }
}

#[test]
fn results_are_read_back() {
    let mut rows = Vec::new();
    let mut results: Vec<ReviewResultRow> = Vec::new();
    let id = reviews::create(&mut rows, new_review(1), at(1000)).unwrap().id;
    let output = ReviewOutput {
        detailed_reasoning: UntrustedString::new("why"),
        action_required: true,
        user_visible_comments: UntrustedString::new("<b>"),
    };
    reviews::add_result(&mut results, ReviewId::new(99), PromptId::new(7), "other", &output);
    reviews::add_result(&mut results, id, PromptId::new(8), "own", &output);
    let review = reviews::get_by_id(&rows, &results, id).unwrap().unwrap();
    assert_eq!(review.results.len(), 1);
    assert_eq!(review.results[0].prompt_id, PromptId::new(8));
    assert_eq!(review.results[0].prompt_name, "own");
    assert_eq!(review.results[0].output.user_visible_comments.as_raw(), "<b>");
    assert_eq!(review.results[0].output.detailed_reasoning.as_raw(), "why");
    assert!(review.results[0].output.action_required);
    assert!(reviews::get_by_id(&rows, &results, ReviewId::new(5))
        .unwrap()
        .is_none());
}

#[test]
fn newest_review_is_listed_first() {
    let mut rows = Vec::new();
    for (repo, secs) in [(1, 10), (1, 30), (2, 99), (1, 20)] {
        reviews::create(&mut rows, new_review(repo), at(secs)).unwrap();
    }
    let ids: Vec<i64> = reviews::list_by_repo(&rows, RepoId::new(1))
        .unwrap()
        .iter()
        .map(|r| r.id.into_inner())
        .collect();
    assert_eq!(ids, [2, 4, 1]);
    let latest = reviews::get_latest_for_repo(&rows, RepoId::new(1)).unwrap();
    assert_eq!(latest.unwrap().id, ReviewId::new(2));
    assert!(reviews::get_latest_for_repo(&rows, RepoId::new(3))
        .unwrap()
        .is_none());
    rows[3].trigger = "x".to_string();
    assert_eq!(
        reviews::list_by_repo(&rows, RepoId::new(1)).unwrap_err(),
        "invalid trigger"
    );
}

#[test]
fn texts_are_put_in_descending_order() {
    let texts = ["b", "a", "ab", "", "é"];
    let keys: Vec<Vec<i64>> = texts.iter().map(|t| order::descending_text_key(t)).collect();
    let ordered: Vec<&str> = order::order_of(&keys).iter().map(|i| texts[*i]).collect();
    let mut expected = texts.to_vec();
    expected.sort();
    expected.reverse();
    assert_eq!(ordered, expected);
}

// --- Columns ---

#[test]
fn columns_make_a_status() {
    let error = Some("e".to_string());
    let at_ten = Column::At(at(10));
    let status = |text: &str, started: Column, completed: Column| {
        reviews::status_of_columns(text, started, completed, Some(-1), &error)
    };
    assert!(matches!(
        status("pending", Column::Unreadable, Column::Unreadable),
        Ok(ReviewStatus::Pending)
    ));
    match status("completed", at_ten, Column::At(at(20))) {
        Ok(ReviewStatus::Completed {
            started_at,
            completed_at,
            duration_secs,
        }) => {
            assert_eq!((started_at, completed_at), (at(10), at(20)));
            assert_eq!(duration_secs, u32::MAX);
        }
        other => panic!("unexpected: {:?}", other),
    }
    match status("failed", Column::Empty, at_ten) {
        Ok(ReviewStatus::Failed {
            started_at,
            failed_at,
            error,
        }) => {
            assert_eq!((started_at, failed_at), (None, at(10)));
            assert_eq!(error, "e");
        }
        other => panic!("unexpected: {:?}", other),
    }
    for (text, started, completed, message) in [
        ("in_progress", Column::Unreadable, Column::Empty, "invalid date"),
        (
            "completed",
            Column::Unreadable,
            Column::Empty,
            "completed status without completed_at",
        ),
        ("completed", at_ten, Column::Unreadable, "invalid date"),
        (
            "failed",
            Column::Unreadable,
            Column::Empty,
            "failed status without completed_at",
        ),
        ("failed", Column::Unreadable, at_ten, "invalid date"),
        ("Pending", at_ten, at_ten, "unknown status"),
    ] {
        assert_eq!(status(text, started, completed).unwrap_err(), message);
    }
}

#[test]
fn columns_make_jobs_repos_and_prompts() {
    let columns = |created_at: Column| JobColumns {
        id: 4,
        payload: PAYLOAD,
        status: "failed".to_string(),
        attempts: -1,
        max_attempts: 3,
        scheduled_at: Column::At(at(1)),
        started_at: Column::Empty,
        completed_at: Column::At(at(2)),
        last_error: None,
        last_heartbeat: Column::Empty,
        created_at,
    };
    let job = jobs::job_of_columns(columns(Column::At(at(0)))).unwrap();
    assert_eq!((job.id, job.status), (JobId::new(4), JobStatus::Failed));
    assert_eq!((job.attempts, job.completed_at), (u32::MAX, Some(at(2))));
    assert_eq!(
        jobs::job_of_columns(columns(Column::Empty)).unwrap_err(),
        "invalid date"
    );
    let repo = |url: Option<GitHubRepoUrl>| {
        repos::repo_of_columns(RepoColumns {
            id: 6,
            url,
            last_commit_sha: Some(SHA.to_uppercase()),
            last_checked_at: Column::Empty,
            created_at: Column::At(at(3)),
        })
    };
    let read = repo(GitHubRepoUrl::parse("https://github.com/a/b")).unwrap();
    assert_eq!(read.last_commit_sha.unwrap().as_str(), SHA);
    assert_eq!(repo(None).unwrap_err(), "invalid URL in database");
    assert!(prompts::prompt_of_columns(prompt_row(true), Column::At(at(1))).is_ok());
    assert_eq!(
        prompts::prompt_of_columns(prompt_row(true), Column::Unreadable).unwrap_err(),
        "invalid date"
    );
}

#[test]
fn created_rows_are_found_under_their_ids() {
    let table = repo_table();
    assert_eq!(
        repos::get_by_id(&table, RepoId::new(3)).unwrap().url.name(),
        "c"
    );
    let prompts_list = prompt_table();
    assert_eq!(
        prompts::get_by_id(&prompts_list, PromptId::new(4)).unwrap().name,
        "other"
    );
    assert!(prompts::get_by_id(&prompts_list, PromptId::new(5)).is_none());
}
