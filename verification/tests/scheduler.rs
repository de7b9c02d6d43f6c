use panopticon_server::db::jobs;
use panopticon_server::db::prompts;
use panopticon_server::db::repos;
use panopticon_server::db::reviews;
use panopticon_server::db::Database;
use panopticon_server::domain::ids::{JobId, PromptId, RepoId, ReviewId};
use panopticon_server::domain::job::{JobPayload, JobStatus, NewJob};
use panopticon_server::domain::prompt::{NewPrompt, Prompt, PromptText};
use panopticon_server::domain::repo::{CommitSha, GitHubRepoUrl, NewRepo, Repo};
use panopticon_server::domain::review::{
    NewReview, PromptResult, ReviewOutput, ReviewTrigger,
};
use panopticon_server::domain::untrusted::UntrustedString;
use panopticon_server::github::concat::Chunk;
use panopticon_server::github::fetch::{FileContent, RepoContents};
use panopticon_server::llm::provider::{LlmError, StreamChunk};
use panopticon_server::scheduler::cleanup::{ReviewCleanupGuard, INTERRUPTED};
use panopticon_server::scheduler::prompt_run::{
    context_budget, prompt_request, PromptRun, StreamedAnswer,
};
use panopticon_server::scheduler::review_run::{Action, Event, ReviewRun, Stage};
use panopticon_server::scheduler::runner::{
    claim_jobs, extract_retry_after, job_outcome, on_event, schedule_daily_reviews, ErrorCause,
    JobFailure, JobOutcome, JobRunner, RunnerAction, RunnerEvent, ScheduleError, Shutdown,
    ShutdownStep, WaitEnd,
};
use panopticon_server::time::Timestamp;
use panopticon_server::{ReviewUpdate, ReviewUpdateKind};

fn at(secs: i64) -> Timestamp {
    Timestamp::new(secs, 0).unwrap()
}

fn sha(digit: &str) -> CommitSha {
    CommitSha::parse(&digit.repeat(40)).unwrap()
}

fn repo(last: Option<CommitSha>) -> Repo {
    Repo {
        id: RepoId::new(1),
        url: GitHubRepoUrl::parse("https://github.com/test/repo").unwrap(),
        last_commit_sha: last,
        last_checked_at: None,
        created_at: at(0),
    }
}

fn prompt(id: i64) -> Prompt {
    Prompt {
        id: PromptId::new(id),
        repo_id: RepoId::new(1),
        name: format!("prompt {}", id),
        text: PromptText::new("Focus on tests.".to_string()).unwrap(),
        enabled: true,
        is_default: false,
        created_at: at(0),
    }
}

fn output(text: &str, action_required: bool) -> ReviewOutput {
    ReviewOutput {
        detailed_reasoning: UntrustedString::new(&format!("reason {}", text)),
        action_required,
        user_visible_comments: UntrustedString::new(&format!("comment {}", text)),
    }
}

fn contents() -> RepoContents {
    RepoContents {
        files: vec![FileContent {
            path: "a.rs".to_string(),
            content: "fn a() {}".to_string(),
        }],
        total_size: 9,
    }
}

// --- Messages ---

#[test]
fn prompt_complete_is_distinct_from_chunk() {
    let chunk = ReviewUpdateKind::Chunk {
        text: "test".to_string(),
    };
    let complete = ReviewUpdateKind::PromptComplete;
    assert!(matches!(chunk, ReviewUpdateKind::Chunk { .. }));
    assert!(matches!(complete, ReviewUpdateKind::PromptComplete));
    assert!(!matches!(chunk, ReviewUpdateKind::PromptComplete));
    assert!(!matches!(complete, ReviewUpdateKind::Chunk { .. }));
}

#[test]
fn broadcast_channel_can_track_event_counts() {
    let (tx, rx) = std::sync::mpsc::channel::<ReviewUpdate>();
    let review_id = ReviewId::new(1);
    let prompt_name = "Test Prompt".to_string();
    for text in ["chunk1", "chunk2", "chunk3"] {
        tx.send(ReviewUpdate {
            review_id,
            prompt_name: prompt_name.clone(),
            kind: ReviewUpdateKind::Chunk { text: text.into() },
        })
        .unwrap();
    }
    tx.send(ReviewUpdate {
        review_id,
        prompt_name: prompt_name.clone(),
        kind: ReviewUpdateKind::PromptComplete,
    })
    .unwrap();
    let mut chunk_count = 0;
    let mut prompt_complete_count = 0;
    drop(tx);
    while let Ok(update) = rx.recv() {
        match update.kind {
            ReviewUpdateKind::Chunk { .. } => chunk_count += 1,
            ReviewUpdateKind::PromptComplete => prompt_complete_count += 1,
            ReviewUpdateKind::ReviewComplete { .. } => {}
        }
    }
    assert_eq!(chunk_count, 3, "Should have 3 chunks");
    assert_eq!(
        prompt_complete_count, 1,
        "Should have exactly 1 PromptComplete per prompt"
    );
}

// --- Runs ---

/// A run with everything in place up to the point where the given prompts are run.
fn running(prompts: usize) -> ReviewRun {
    let (mut run, action) = ReviewRun::start(RepoId::new(1), false, 100_000);
    assert!(matches!(action, Action::LoadRepo(_)));
    assert!(matches!(
        run.step(Event::Repo(Ok(Some(repo(Some(sha("1")))))), 0),
        Action::FetchClone(_)
    ));
    assert!(matches!(
        run.step(Event::Fetched(Ok(sha("2"))), 0),
        Action::LoadPrompts(_)
    ));
    let list = (1..=prompts as i64).map(prompt).collect();
    match run.step(Event::Prompts(Ok(list)), 0) {
        Action::CreateReview(new_review) => {
            assert_eq!(new_review.trigger, ReviewTrigger::Scheduled);
            assert!(new_review.commit_sha.same_as(&sha("2")));
        }
        other => panic!("unexpected: {:?}", other),
    }
    assert!(matches!(
        run.step(Event::Created(Ok(ReviewId::new(7))), 0),
        Action::MarkInProgress(_)
    ));
    assert!(matches!(
        run.step(Event::Saved(Ok(())), 0),
        Action::ReadContents(_)
    ));
    run
}

/// Answers all further steps of a run with success, and gives the steps by their names.
fn finish(run: &mut ReviewRun, mut action: Action) -> (Vec<String>, Result<(), String>) {
    let mut names = Vec::new();
    loop {
        let shown = format!("{:?}", action);
        names.push(shown.split(['(', ' ']).next().unwrap().to_string());
        let event = match action {
            Action::Finish(outcome) => return (names, outcome),
            Action::RunPrompt(_) => Event::PromptRan(Ok(output("x", false))),
            Action::LoadResults(_) => Event::Results(Vec::new()),
            Action::Broadcast(update) => {
                assert_eq!(update.review_id, ReviewId::new(7));
                assert!(matches!(
                    update.kind,
                    ReviewUpdateKind::ReviewComplete { .. }
                ));
                Event::Sent
            }
            _ => Event::Saved(Ok(())),
        };
        assert!(run.accepts(&event));
        action = run.step(event, 42);
    }
}

#[test]
fn review_complete_should_be_broadcast_after_db_update() {
    let mut run = running(2);
    let action = run.step(Event::Contents(Ok(contents())), 0);
    let (names, outcome) = finish(&mut run, action);
    assert_eq!(
        names,
        [
            "RunPrompt",
            "StoreResult",
            "RunPrompt",
            "StoreResult",
            "UpdateLastCommit",
            "UpdateLastChecked",
            "MarkCompleted",
            "LoadResults",
            "Broadcast",
            "Finish"
        ]
    );
    assert_eq!(outcome, Ok(()));
    assert_eq!(run.stage(), Stage::Finished);
}

#[test]
fn failed_prompts_are_recorded_and_retried() {
    let mut run = running(2);
    run.step(Event::Contents(Ok(contents())), 0);
    let action = run.step(Event::PromptRan(Err("boom".to_string())), 1);
    assert!(matches!(action, Action::RunPrompt(1)));
    let (names, outcome) = finish(&mut run, action);
    assert_eq!(
        names,
        [
            "RunPrompt",
            "StoreResult",
            "UpdateLastChecked",
            "MarkFailed",
            "LoadResults",
            "Broadcast",
            "Finish"
        ]
    );
    assert_eq!(
        outcome,
        Err("Review failed: some prompts failed (see review 7 for details)".to_string())
    );
}

#[test]
fn results_that_cannot_be_stored_fail_the_review() {
    let mut run = running(1);
    run.step(Event::Contents(Ok(contents())), 0);
    run.step(Event::PromptRan(Ok(output("x", true))), 1);
    let action = run.step(Event::Saved(Err("disk".to_string())), 1);
    assert!(matches!(action, Action::UpdateLastChecked(_)));
    match run.step(Event::Saved(Err("ignored".to_string())), 1) {
        Action::MarkFailed(id, error) => {
            assert_eq!(id, ReviewId::new(7));
            assert_eq!(error, "Some prompts failed");
        }
        other => panic!("unexpected: {:?}", other),
    }
    // Even that may fail: the cleanup then has only a generic reason
    assert!(matches!(
        run.step(Event::Saved(Err("locked".to_string())), 1),
        Action::UpdateLastChecked(_)
    ));
    match run.step(Event::Saved(Ok(())), 1) {
        Action::MarkFailed(_, error) => assert_eq!(error, INTERRUPTED),
        other => panic!("unexpected: {:?}", other),
    }
    let action = run.step(Event::Saved(Err("still locked".to_string())), 1);
    let (names, outcome) = finish(&mut run, action);
    assert_eq!(names, ["LoadResults", "Broadcast", "Finish"]);
    assert_eq!(outcome, Err("locked".to_string()));
}

#[test]
fn early_errors_are_cleaned_up_with_their_reason() {
    let mut run = running(1);
    let action = run.step(Event::Contents(Err("no such file".to_string())), 0);
    assert!(matches!(action, Action::UpdateLastChecked(_)));
    match run.step(Event::Saved(Ok(())), 0) {
        Action::MarkFailed(_, error) => assert_eq!(error, "no such file"),
        other => panic!("unexpected: {:?}", other),
    }
    let action = run.step(Event::Saved(Ok(())), 0);
    let (_, outcome) = finish(&mut run, action);
    assert_eq!(outcome, Err("no such file".to_string()));
}

#[test]
fn commit_that_cannot_be_saved_leaves_no_completed_review() {
    let mut run = running(1);
    run.step(Event::Contents(Ok(contents())), 0);
    run.step(Event::PromptRan(Ok(output("x", true))), 1);
    assert!(matches!(
        run.step(Event::Saved(Ok(())), 9),
        Action::UpdateLastCommit(_, _)
    ));
    let action = run.step(Event::Saved(Err("locked".to_string())), 9);
    let (names, outcome) = finish(&mut run, action);
    assert_eq!(
        names,
        [
            "UpdateLastChecked",
            "MarkFailed",
            "LoadResults",
            "Broadcast",
            "Finish"
        ]
    );
    assert_eq!(outcome, Err("locked".to_string()));
}

#[test]
fn duration_is_that_of_the_prompts() {
    let mut run = running(1);
    run.step(Event::Contents(Ok(contents())), 0);
    run.step(Event::PromptRan(Ok(output("x", true))), 1);
    run.step(Event::Saved(Ok(())), 90);
    run.step(Event::Saved(Ok(())), 91);
    match run.step(Event::Saved(Ok(())), 92) {
        Action::MarkCompleted(id, secs) => {
            assert_eq!(id, ReviewId::new(7));
            assert_eq!(secs, 90);
        }
        other => panic!("unexpected: {:?}", other),
    }
}

#[test]
fn run_keeps_what_was_reported() {
    let mut run = running(1);
    run.step(Event::Contents(Ok(contents())), 0);
    run.step(Event::PromptRan(Ok(output("x", false))), 0);
    match run.step(Event::Saved(Ok(())), 5) {
        Action::UpdateLastCommit(repo_id, head) => {
            assert_eq!(repo_id, RepoId::new(1));
            assert!(head.same_as(&sha("2")));
        }
        other => panic!("unexpected: {:?}", other),
    }
    run.step(Event::Saved(Ok(())), 5);
    match run.step(Event::Saved(Ok(())), 5) {
        Action::MarkCompleted(review_id, _) => assert_eq!(review_id, ReviewId::new(7)),
        other => panic!("unexpected: {:?}", other),
    }
    assert_eq!(run.review_id(), Some(ReviewId::new(7)));
}

#[test]
fn unchanged_repo_is_only_noted() {
    let (mut run, _) = ReviewRun::start(RepoId::new(1), false, 1000);
    run.step(Event::Repo(Ok(Some(repo(Some(sha("a")))))), 0);
    let action = run.step(Event::Fetched(Ok(sha("A"))), 0);
    let (names, outcome) = finish(&mut run, action);
    assert_eq!(names, ["UpdateLastChecked", "Finish"]);
    assert_eq!(outcome, Ok(()));
}

#[test]
fn forced_review_runs_without_changes() {
    let (mut run, _) = ReviewRun::start(RepoId::new(1), true, 1000);
    run.step(Event::Repo(Ok(Some(repo(Some(sha("a")))))), 0);
    assert!(matches!(
        run.step(Event::Fetched(Ok(sha("a"))), 0),
        Action::LoadPrompts(_)
    ));
    match run.step(Event::Prompts(Ok(vec![prompt(1)])), 0) {
        Action::CreateReview(new_review) => {
            assert_eq!(new_review.trigger, ReviewTrigger::Manual)
        }
        other => panic!("unexpected: {:?}", other),
    }
}

#[test]
fn runs_end_at_once_before_the_review_has_started() {
    let end = |event: Event| {
        let (mut run, _) = ReviewRun::start(RepoId::new(1), false, 1000);
        match run.step(event, 0) {
            Action::Finish(outcome) => outcome,
            other => panic!("unexpected: {:?}", other),
        }
    };
    assert_eq!(end(Event::Repo(Ok(None))), Err("Repo not found".to_string()));
    assert_eq!(
        end(Event::Repo(Err("locked".to_string()))),
        Err("locked".to_string())
    );
    let (mut run, _) = ReviewRun::start(RepoId::new(1), false, 1000);
    run.step(Event::Repo(Ok(Some(repo(None)))), 0);
    run.step(Event::Fetched(Ok(sha("b"))), 0);
    assert!(matches!(
        run.step(Event::Prompts(Ok(Vec::new())), 0),
        Action::Finish(Ok(()))
    ));
    assert!(!run.accepts(&Event::Sent));
}

#[test]
fn files_are_cut_to_the_context_of_the_model() {
    let (mut run, _) = ReviewRun::start(RepoId::new(1), false, 40);
    run.step(Event::Repo(Ok(Some(repo(None)))), 0);
    run.step(Event::Fetched(Ok(sha("b"))), 0);
    run.step(Event::Prompts(Ok(vec![prompt(1)])), 0);
    run.step(Event::Created(Ok(ReviewId::new(7))), 0);
    run.step(Event::Saved(Ok(())), 0);
    let mut many = contents();
    for i in 0..4 {
        many.files.push(FileContent {
            path: format!("{}", i),
            content: "x".repeat(60),
        });
    }
    run.step(Event::Contents(Ok(many)), 0);
    // 26 tokens fit: the first two files count 5 and 18
    let counts: Vec<usize> = run.chunks().iter().map(|c| c.file_count).collect();
    assert_eq!(counts, [2, 1, 1, 1]);
    assert_eq!(run.prompts().len(), 1);
    assert_eq!(run.review_id(), Some(ReviewId::new(7)));
}

// --- Cleanup guard ---

#[test]
fn guard_keeps_the_real_error() {
    let mut guard = ReviewCleanupGuard::new(RepoId::new(1), ReviewId::new(2));
    assert_eq!(guard.cleanup_plan().unwrap().error, INTERRUPTED);
    assert_eq!(guard.check(Ok::<u8, String>(5)), Ok(5));
    assert_eq!(guard.cleanup_plan().unwrap().error, INTERRUPTED);
    assert!(guard.check::<u8>(Err("real".to_string())).is_err());
    let plan = guard.cleanup_plan().unwrap();
    assert_eq!(plan.error, "real");
    assert_eq!((plan.repo_id, plan.review_id), (RepoId::new(1), ReviewId::new(2)));
    guard.set_error("other");
    assert_eq!(guard.cleanup_plan().unwrap().error, "other");
    let update = guard.broadcast_complete(Vec::<PromptResult>::new());
    assert_eq!(update.review_id, ReviewId::new(2));
    assert_eq!(update.prompt_name, "");
    guard.disarm();
    assert!(guard.cleanup_plan().is_none());
}

// --- Prompts ---

fn chunk(content: &str) -> Chunk {
    Chunk {
        content: content.to_string(),
        file_count: 1,
        estimated_tokens: 1,
    }
}

#[test]
fn context_is_divided() {
    let large = context_budget(1_000_000);
    assert_eq!(
        (
            large.single_chunk_output,
            large.multi_chunk_output,
            large.input_budget
        ),
        (16_000, 8_000, 974_000)
    );
    let small = context_budget(8_000);
    assert_eq!(
        (
            small.single_chunk_output,
            small.multi_chunk_output,
            small.prompt_overhead,
            small.input_budget
        ),
        (2_000, 1_000, 800, 5_200)
    );
    assert_eq!(context_budget(0).input_budget, 0);
}

#[test]
fn single_chunk_is_asked_about_as_a_whole() {
    let budget = context_budget(100_000);
    let request = prompt_request(&prompt(1), &vec![chunk("code")], 0, &budget);
    assert_eq!(
        request.user_prompt,
        "Please review the following codebase:\n\ncode"
    );
    assert_eq!(request.max_tokens, 16_000);
    assert!(request.system_prompt.contains("Focus on tests."));
    let mut run = PromptRun::new();
    run.accept(output("x", true));
    assert!(run.next_request(&prompt(1), &vec![chunk("code")], &budget).is_none());
    let (combined, update) = run.finish(ReviewId::new(3), &prompt(1));
    assert_eq!(combined.detailed_reasoning.as_raw(), "reason x");
    assert!(combined.action_required);
    assert_eq!(update.prompt_name, "prompt 1");
    assert!(matches!(update.kind, ReviewUpdateKind::PromptComplete));
}

#[test]
fn several_chunks_are_asked_about_part_by_part() {
    let budget = context_budget(100_000);
    let chunks = vec![chunk("one"), chunk("two")];
    let mut run = PromptRun::new();
    let mut asked = Vec::new();
    while let Some(request) = run.next_request(&prompt(1), &chunks, &budget) {
        assert_eq!(request.max_tokens, 8_000);
        asked.push(request.user_prompt);
        run.accept(output(&asked.len().to_string(), asked.len() == 2));
    }
    assert_eq!(
        asked,
        [
            "Please review part 1 of 2 of this codebase:\n\none",
            "Please review part 2 of 2 of this codebase:\n\ntwo"
        ]
    );
    let (combined, _) = run.finish(ReviewId::new(3), &prompt(1));
    assert_eq!(
        combined.detailed_reasoning.as_raw(),
        "## Part 1\nreason 1\n\n## Part 2\nreason 2"
    );
    assert_eq!(
        combined.user_visible_comments.as_raw(),
        "## Part 1\ncomment 1\n\n## Part 2\ncomment 2"
    );
    assert!(combined.action_required);
}

#[test]
fn empty_repository_gives_an_empty_output() {
    let run = PromptRun::new();
    assert!(run
        .next_request(&prompt(1), &Vec::new(), &context_budget(1000))
        .is_none());
    let (combined, _) = run.finish(ReviewId::new(3), &prompt(1));
    assert!(combined.detailed_reasoning.is_empty());
    assert!(!combined.action_required);
}

#[test]
fn streamed_chunks_are_passed_on() {
    let mut answer = StreamedAnswer::new();
    let item = |text: &str| {
        Ok(StreamChunk {
            text: text.to_string(),
            is_final: false,
        })
    };
    let update = answer.take(item("a"), ReviewId::new(3), "p").unwrap().unwrap();
    assert_eq!(update.prompt_name, "p");
    match update.kind {
        ReviewUpdateKind::Chunk { text } => assert_eq!(text, "a"),
        other => panic!("unexpected: {:?}", other),
    }
    assert!(answer.take(item(""), ReviewId::new(3), "p").unwrap().is_none());
    answer.take(item("b"), ReviewId::new(3), "p").unwrap();
    assert!(answer
        .take(
            Err(LlmError::NetworkError("x".to_string())),
            ReviewId::new(3),
            "p"
        )
        .is_err());
    assert_eq!(answer.full_text, "ab");
    let error = answer
        .finish(|_: &str| Err::<ReviewOutput, String>("bad".to_string()))
        .unwrap_err();
    assert_eq!(
        error,
        "Failed to parse LLM response: Invalid JSON response: bad"
    );
}

// --- The runner ---

#[test]
fn first_rate_limit_in_the_chain_counts() {
    let limit = |secs: u32| {
        ErrorCause::Llm(LlmError::RateLimited {
            retry_after_secs: secs,
        })
    };
    assert_eq!(
        extract_retry_after(&vec![ErrorCause::Other, limit(5), limit(6)]),
        Some(5)
    );
    assert_eq!(
        extract_retry_after(&vec![
            ErrorCause::Llm(LlmError::NetworkError("x".to_string())),
            ErrorCause::Other
        ]),
        None
    );
}

#[test]
fn outcome_of_a_job_follows_from_its_result() {
    let mut queue = Vec::new();
    let job = jobs::create(
        &mut queue,
        NewJob::review_repo_at(RepoId::new(1), false, at(0)),
        at(0),
    )
    .unwrap();
    assert!(matches!(
        job_outcome(&job, Ok(())),
        JobOutcome::Complete(id) if id == job.id
    ));
    let failure = JobFailure {
        message: "why".to_string(),
        causes: vec![ErrorCause::Llm(LlmError::RateLimited {
            retry_after_secs: 9,
        })],
    };
    match job_outcome(&job, Err(failure)) {
        JobOutcome::Fail {
            id,
            error,
            should_retry,
            retry_after_secs,
        } => {
            assert_eq!((id, error.as_str()), (job.id, "why"));
            assert!(should_retry);
            assert_eq!(retry_after_secs, Some(9));
        }
        other => panic!("unexpected: {:?}", other),
    }
}

#[test]
fn no_more_jobs_are_claimed_than_slots_are_free() {
    let mut queue = Vec::new();
    for repo in 1..=5 {
        let job = NewJob::review_repo_at(RepoId::new(repo), false, at(100 - repo));
        jobs::create(&mut queue, job, at(0)).unwrap();
    }
    let runner = JobRunner::new(3);
    assert_eq!(runner.free_slots(1), 2);
    assert_eq!(runner.free_slots(3), 0);
    assert_eq!(runner.free_slots(4), 0);
    let claimed = claim_jobs(&mut queue, runner.free_slots(1), at(200));
    let ids: Vec<JobId> = claimed.iter().map(|j| j.id).collect();
    assert_eq!(ids, [JobId::new(5), JobId::new(4)]);
    assert!(claimed.iter().all(|j| j.status == JobStatus::Running));
    assert_eq!(claim_jobs(&mut queue, 10, at(200)).len(), 3);
    assert!(claim_jobs(&mut queue, 10, at(200)).is_empty());
    assert!(claim_jobs(&mut queue, 0, at(200)).is_empty());
}

/// Tables with two repositories, of which only the first has an enabled prompt.
fn database() -> Database {
    let mut db = Database {
        repos: Vec::new(),
        prompts: Vec::new(),
        reviews: Vec::new(),
        results: Vec::new(),
        jobs: Vec::new(),
    };
    for name in ["a", "b"] {
        let url = GitHubRepoUrl::parse(&format!("https://github.com/test/{}", name)).unwrap();
        repos::create(&mut db.repos, NewRepo { url }, at(0)).unwrap();
    }
    let new_prompt = NewPrompt {
        repo_id: RepoId::new(1),
        name: "p".to_string(),
        text: PromptText::new("text".to_string()).unwrap(),
        is_default: true,
    };
    prompts::create(&mut db.prompts, new_prompt, at(0)).unwrap();
    db
}

#[test]
fn reviews_are_scheduled_once() {
    let mut db = database();
    schedule_daily_reviews(&mut db, 24, at(1000)).unwrap();
    assert_eq!(db.jobs.len(), 1);
    assert_eq!(
        db.jobs[0].payload,
        JobPayload::ReviewRepo {
            repo_id: RepoId::new(1),
            force: false
        }
    );
    assert_eq!(db.jobs[0].scheduled_at, at(1000));
    schedule_daily_reviews(&mut db, 24, at(1000)).unwrap();
    assert_eq!(db.jobs.len(), 1);
}

#[test]
fn each_repository_in_need_gets_one_job() {
    let mut db = database();
    for (id, name) in [(3, "c"), (4, "d"), (5, "e")] {
        let url = GitHubRepoUrl::parse(&format!("https://github.com/test/{}", name)).unwrap();
        repos::create(&mut db.repos, NewRepo { url }, at(id)).unwrap();
        let new_prompt = NewPrompt {
            repo_id: RepoId::new(id),
            name: "p".to_string(),
            text: PromptText::new("text".to_string()).unwrap(),
            is_default: true,
        };
        prompts::create(&mut db.prompts, new_prompt, at(0)).unwrap();
    }
    let forced = NewJob::review_repo_at(RepoId::new(4), true, at(5));
    jobs::create(&mut db.jobs, forced, at(5)).unwrap();
    schedule_daily_reviews(&mut db, 24, at(1000)).unwrap();
    let added: Vec<(JobId, JobPayload)> = db.jobs[1..]
        .iter()
        .map(|j| (j.id, j.payload.clone()))
        .collect();
    let payload = |id: i64| JobPayload::ReviewRepo {
        repo_id: RepoId::new(id),
        force: false,
    };
    assert_eq!(
        added,
        [
            (JobId::new(2), payload(5)),
            (JobId::new(3), payload(3)),
            (JobId::new(4), payload(1)),
        ]
    );
}

#[test]
fn running_reviews_keep_others_from_being_scheduled() {
    let mut db = database();
    let new_review = NewReview {
        repo_id: RepoId::new(1),
        commit_sha: sha("c"),
        trigger: ReviewTrigger::Scheduled,
    };
    let id = reviews::create(&mut db.reviews, new_review, at(0)).unwrap().id;
    reviews::mark_in_progress(&mut db.reviews, id, at(0));
    schedule_daily_reviews(&mut db, 24, at(1000)).unwrap();
    assert!(db.jobs.is_empty());
    reviews::mark_failed(&mut db.reviews, id, "e", at(1));
    repos::update_last_checked(&mut db.repos, RepoId::new(1), at(900));
    schedule_daily_reviews(&mut db, 24, at(1000)).unwrap();
    assert!(db.jobs.is_empty());
    schedule_daily_reviews(&mut db, 24, at(901 + 86_400)).unwrap();
    assert_eq!(db.jobs.len(), 1);
}

#[test]
fn unreadable_reviews_end_scheduling() {
    let mut db = database();
    let new_review = NewReview {
        repo_id: RepoId::new(1),
        commit_sha: sha("c"),
        trigger: ReviewTrigger::Scheduled,
    };
    reviews::create(&mut db.reviews, new_review, at(0)).unwrap();
    db.reviews[0].status = "x".to_string();
    assert!(matches!(
        schedule_daily_reviews(&mut db, 24, at(1000)),
        Err(ScheduleError::Unreadable("unknown status"))
    ));
    let mut full = database();
    let job = NewJob::review_repo_at(RepoId::new(9), false, at(0));
    jobs::create(&mut full.jobs, job, at(0)).unwrap();
    full.jobs[0].id = JobId::new(i64::MAX);
    assert!(matches!(
        schedule_daily_reviews(&mut full, 24, at(1000)),
        Err(ScheduleError::TableFull)
    ));
}

#[test]
fn runner_follows_its_events() {
    assert_eq!(on_event(RunnerEvent::Tick), RunnerAction::Tick);
    assert_eq!(on_event(RunnerEvent::JobEnded), RunnerAction::Wait);
    assert_eq!(
        on_event(RunnerEvent::ShutdownChanged(false)),
        RunnerAction::Wait
    );
    assert_eq!(
        on_event(RunnerEvent::ShutdownChanged(true)),
        RunnerAction::ShutDown
    );
}

#[test]
fn shutdown_waits_for_a_minute() {
    let shutdown = Shutdown::begin(1_000);
    assert_eq!(shutdown.next(0, 1_000), ShutdownStep::Done);
    assert_eq!(shutdown.next(2, 1_000), ShutdownStep::Wait(60_000));
    assert_eq!(shutdown.next(2, 60_999), ShutdownStep::Wait(1));
    assert_eq!(shutdown.next(2, 61_000), ShutdownStep::Abort);
    assert_eq!(
        shutdown.after_wait(WaitEnd::JobEnded, 1, 31_000),
        ShutdownStep::Wait(30_000)
    );
    assert_eq!(
        shutdown.after_wait(WaitEnd::NoJobs, 0, 31_000),
        ShutdownStep::Done
    );
    assert_eq!(
        shutdown.after_wait(WaitEnd::TimedOut, 1, 61_000),
        ShutdownStep::Abort
    );
}
