//! One review from start to end: which step follows from what came of the one before.

use vstd::prelude::*;

use crate::domain::ids::{RepoId, ReviewId};
use crate::domain::prompt::Prompt;
use crate::domain::repo::{CommitSha, GitHubRepoUrl, Repo};
use crate::domain::review::{NewReview, PromptResult, ReviewOutput, ReviewTrigger};
use crate::github::concat::{
    chunk_contents, chunk_views, chunks_under, Chunk, ChunkView, ChunkingStrategy,
};
use crate::github::fetch::RepoContents;
use crate::scheduler::cleanup::{review_complete, INTERRUPTED};
use crate::scheduler::prompt_run::{context_budget, lesser};
use crate::text::{format_i64, signed_decimal};
use crate::{ReviewUpdate, ReviewUpdateKind};

verus! {

/// What a review is recorded with when prompts failed.
pub const PROMPTS_FAILED: &'static str = "Some prompts failed";

/// What a run is waiting for.
#[derive(Debug, Clone, Copy, PartialEq, Eq, Structural)]
pub enum Stage {
    /// The repository.
    LoadingRepo,
    /// The current commit.
    Fetching,
    /// The note that there was nothing new.
    RecordingNoChange,
    /// The enabled prompts.
    LoadingPrompts,
    /// The new review.
    Creating,
    /// The note that the review is in progress.
    Starting,
    /// The files.
    Reading,
    /// The output of a prompt.
    Running,
    /// The note of the output.
    Storing,
    /// After prompts failed: the note that the repository was checked.
    FailedChecking,
    /// After prompts failed: the note that the review failed.
    FailedMarking,
    /// After prompts failed: the results.
    FailedLoading,
    /// After prompts failed: the message that the review is over.
    FailedSending,
    /// The note of the commit.
    SavingCommit,
    /// The note that the repository was checked.
    SavingCheck,
    /// The note that the review completed.
    Completing,
    /// After completion: the results.
    CompletedLoading,
    /// After completion: the message that the review is over.
    CompletedSending,
    /// In a cleanup: the note that the repository was checked.
    CleanupChecking,
    /// In a cleanup: the note that the review failed.
    CleanupMarking,
    /// In a cleanup: the results.
    CleanupLoading,
    /// In a cleanup: the message that the review is over.
    CleanupSending,
    /// Nothing.
    Finished,
}

/// What came of a step. An error is given by what it says.
#[derive(Debug)]
pub enum Event {
    /// The repository, where there is one.
    Repo(Result<Option<Repo>, String>),
    /// The current commit.
    Fetched(Result<CommitSha, String>),
    /// The enabled prompts.
    Prompts(Result<Vec<Prompt>, String>),
    /// The new review.
    Created(Result<ReviewId, String>),
    /// The files.
    Contents(Result<RepoContents, String>),
    /// The output of a prompt.
    PromptRan(Result<ReviewOutput, String>),
    /// Something was recorded.
    Saved(Result<(), String>),
    /// The results of the review, none where they could not be had.
    Results(Vec<PromptResult>),
    /// A message was sent.
    Sent,
}

/// The next step.
#[derive(Debug)]
pub enum Action {
    /// Load the repository.
    LoadRepo(RepoId),
    /// Bring the clone up to date, and get the current commit.
    FetchClone(GitHubRepoUrl),
    /// Load the enabled prompts.
    LoadPrompts(RepoId),
    /// Create the review.
    CreateReview(NewReview),
    /// Record that the review is in progress.
    MarkInProgress(ReviewId),
    /// Read the files.
    ReadContents(GitHubRepoUrl),
    /// Run the prompt with this place in the list.
    RunPrompt(usize),
    /// Record the output of the prompt with this place in the list.
    StoreResult(usize, ReviewOutput),
    /// Record that the repository was checked.
    UpdateLastChecked(RepoId),
    /// Record which commit was reviewed.
    UpdateLastCommit(RepoId, CommitSha),
    /// Record that the review failed, and why.
    MarkFailed(ReviewId, String),
    /// Record that the review completed, and how many seconds it took.
    MarkCompleted(ReviewId, u32),
    /// Load the results of the review.
    LoadResults(ReviewId),
    /// Tell those who follow the review.
    Broadcast(ReviewUpdate),
    /// The run is over, with this outcome.
    Finish(Result<(), String>),
}

/// The next step, with texts as their characters.
pub enum RunAction {
    /// Load the repository.
    LoadRepo(RepoId),
    /// Bring the clone up to date, and get the current commit.
    FetchClone(GitHubRepoUrl),
    /// Load the enabled prompts.
    LoadPrompts(RepoId),
    /// Create the review.
    CreateReview(RepoId, Seq<char>, ReviewTrigger),
    /// Record that the review is in progress.
    MarkInProgress(ReviewId),
    /// Read the files.
    ReadContents(GitHubRepoUrl),
    /// Run the prompt with this place in the list.
    RunPrompt(int),
    /// Record the output of the prompt with this place in the list.
    StoreResult(int, ReviewOutput),
    /// Record that the repository was checked.
    UpdateLastChecked(RepoId),
    /// Record which commit was reviewed.
    UpdateLastCommit(RepoId, Seq<char>),
    /// Record that the review failed, and why.
    MarkFailed(ReviewId, Seq<char>),
    /// Record that the review completed, and how many seconds it took.
    MarkCompleted(ReviewId, u32),
    /// Load the results of the review.
    LoadResults(ReviewId),
    /// Tell those who follow the review that it is over, with these results.
    Broadcast(ReviewId, Seq<PromptResult>),
    /// The run is over, with this outcome.
    Finish(Result<(), Seq<char>>),
}

/// The action stands for the step.
pub open spec fn stands_for(action: Action, step: RunAction) -> bool {
    match (action, step) {
        (Action::LoadRepo(a), RunAction::LoadRepo(b)) => a == b,
        (Action::FetchClone(a), RunAction::FetchClone(b)) => a == b,
        (Action::LoadPrompts(a), RunAction::LoadPrompts(b)) => a == b,
        (Action::CreateReview(new_review), RunAction::CreateReview(repo_id, sha, trigger)) => {
            new_review.repo_id == repo_id && new_review.commit_sha@ == sha && new_review.trigger
                == trigger
        },
        (Action::MarkInProgress(a), RunAction::MarkInProgress(b)) => a == b,
        (Action::ReadContents(a), RunAction::ReadContents(b)) => a == b,
        (Action::RunPrompt(a), RunAction::RunPrompt(b)) => a == b,
        (Action::StoreResult(a, x), RunAction::StoreResult(b, y)) => a == b && x == y,
        (Action::UpdateLastChecked(a), RunAction::UpdateLastChecked(b)) => a == b,
        (Action::UpdateLastCommit(a, x), RunAction::UpdateLastCommit(b, y)) => a == b && x@ == y,
        (Action::MarkFailed(a, x), RunAction::MarkFailed(b, y)) => a == b && x@ == y,
        (Action::MarkCompleted(a, x), RunAction::MarkCompleted(b, y)) => a == b && x == y,
        (Action::LoadResults(a), RunAction::LoadResults(b)) => a == b,
        (Action::Broadcast(update), RunAction::Broadcast(review_id, results)) => {
            update.review_id == review_id && update.prompt_name@ == Seq::<char>::empty() && (
            update.kind matches ReviewUpdateKind::ReviewComplete { results: sent } && sent@
                == results)
        },
        (Action::Finish(Ok(_)), RunAction::Finish(Ok(_))) => true,
        (Action::Finish(Err(a)), RunAction::Finish(Err(b))) => a@ == b,
        _ => false,
    }
}

/// Where a run stands.
pub struct RunState {
    /// What the run is waiting for.
    pub stage: Stage,
    /// The repository to review.
    pub repo_id: RepoId,
    /// Whether the review runs even if there are no changes.
    pub force: bool,
    /// The context window of the model, in tokens.
    pub model_context: u32,
    /// The repository, once it is loaded.
    pub repo: Option<Repo>,
    /// The current commit, once it is known.
    pub sha: Option<Seq<char>>,
    /// The prompts to run.
    pub prompts: Seq<Prompt>,
    /// The review, once it is created.
    pub review_id: Option<ReviewId>,
    /// The files in chunks.
    pub chunks: Seq<ChunkView>,
    /// The prompt that is run, by its place in the list.
    pub current: int,
    /// Whether some prompt failed.
    pub had_error: bool,
    /// How many seconds the prompts took.
    pub duration: u64,
    /// What a cleanup records as the reason.
    pub reason: Seq<char>,
    /// The outcome of the run after a cleanup.
    pub outcome: Seq<char>,
}

/// A run that has not begun.
pub open spec fn initial_state(repo_id: RepoId, force: bool, model_context: u32) -> RunState {
    RunState {
        stage: Stage::LoadingRepo,
        repo_id,
        force,
        model_context,
        repo: None,
        sha: None,
        prompts: Seq::empty(),
        review_id: None,
        chunks: Seq::empty(),
        current: 0,
        had_error: false,
        duration: 0,
        reason: Seq::empty(),
        outcome: Seq::empty(),
    }
}

/// The event answers what a run in this stage waits for.
pub open spec fn answers(stage: Stage, event: Event) -> bool {
    match stage {
        Stage::LoadingRepo => event is Repo,
        Stage::Fetching => event is Fetched,
        Stage::LoadingPrompts => event is Prompts,
        Stage::Creating => event is Created,
        Stage::Reading => event is Contents,
        Stage::Running => event is PromptRan,
        Stage::RecordingNoChange | Stage::Starting | Stage::Storing | Stage::FailedChecking
        | Stage::FailedMarking | Stage::SavingCommit | Stage::SavingCheck | Stage::Completing
        | Stage::CleanupChecking | Stage::CleanupMarking => event is Saved,
        Stage::FailedLoading | Stage::CompletedLoading | Stage::CleanupLoading => event is Results,
        Stage::FailedSending | Stage::CompletedSending | Stage::CleanupSending => event is Sent,
        Stage::Finished => false,
    }
}

/// The run ends.
pub open spec fn ended(s: RunState, outcome: Result<(), Seq<char>>) -> (RunState, RunAction) {
    (RunState { stage: Stage::Finished, ..s }, RunAction::Finish(outcome))
}

/// The run ends early while the review is in progress: a cleanup records the reason, and then the
/// run ends with the given outcome.
pub open spec fn cleaned_up(s: RunState, reason: Seq<char>, outcome: Seq<char>) -> (
    RunState,
    RunAction,
) {
    (
        RunState { stage: Stage::CleanupChecking, reason, outcome, ..s },
        RunAction::UpdateLastChecked(s.repo_id),
    )
}

/// What follows when a prompt is done: the next prompt, and after the last one the end that the
/// review takes.
pub open spec fn advanced(s: RunState, elapsed: u64) -> (RunState, RunAction) {
    if s.current + 1 < s.prompts.len() {
        (
            RunState { stage: Stage::Running, current: s.current + 1, ..s },
            RunAction::RunPrompt(s.current + 1),
        )
    } else if s.had_error {
        (
            RunState { stage: Stage::FailedChecking, duration: elapsed, ..s },
            RunAction::UpdateLastChecked(s.repo_id),
        )
    } else {
        (
            RunState { stage: Stage::SavingCommit, duration: elapsed, ..s },
            RunAction::UpdateLastCommit(s.repo_id, s.sha->Some_0),
        )
    }
}

/// The commit is the one that was reviewed last.
pub open spec fn is_unchanged(repo: Repo, sha: Seq<char>) -> bool {
    repo.last_commit_sha matches Some(last) && last@ == sha
}

/// The most tokens of a chunk, for a model with the given context window.
pub open spec fn chunk_limit(model_context: u32) -> u32 {
    (model_context - lesser(16_000, model_context as int / 4) - lesser(
        10_000,
        model_context as int / 10,
    )) as u32
}

/// What is said of a review in which prompts failed.
pub open spec fn prompts_failed_text(review_id: ReviewId) -> Seq<char> {
    "Review failed: some prompts failed (see review "@ + signed_decimal(review_id.0 as int)
        + " for details)"@
}

/// What follows in a run when an event comes, `elapsed` seconds after the review has started.
#[verifier::opaque]
pub open spec fn next(s: RunState, event: Event, elapsed: u64) -> (RunState, RunAction) {
    match (s.stage, event) {
        (Stage::LoadingRepo, Event::Repo(loaded)) => match loaded {
            Ok(Some(repo)) => (
                RunState { stage: Stage::Fetching, repo: Some(repo), ..s },
                RunAction::FetchClone(repo.url),
            ),
            Ok(None) => ended(s, Err("Repo not found"@)),
            Err(e) => ended(s, Err(e@)),
        },
        (Stage::Fetching, Event::Fetched(fetched)) => match fetched {
            Ok(sha) => if !s.force && is_unchanged(s.repo->Some_0, sha@) {
                (
                    RunState { stage: Stage::RecordingNoChange, sha: Some(sha@), ..s },
                    RunAction::UpdateLastChecked(s.repo_id),
                )
            } else {
                (
                    RunState { stage: Stage::LoadingPrompts, sha: Some(sha@), ..s },
                    RunAction::LoadPrompts(s.repo_id),
                )
            },
            Err(e) => ended(s, Err(e@)),
        },
        (Stage::RecordingNoChange, Event::Saved(saved)) => match saved {
            Ok(_) => ended(s, Ok(())),
            Err(e) => ended(s, Err(e@)),
        },
        (Stage::LoadingPrompts, Event::Prompts(loaded)) => match loaded {
            Ok(prompts) => if prompts@.len() == 0 {
                ended(s, Ok(()))
            } else {
                (
                    RunState { stage: Stage::Creating, prompts: prompts@, ..s },
                    RunAction::CreateReview(
                        s.repo_id,
                        s.sha->Some_0,
                        if s.force {
                            ReviewTrigger::Manual
                        } else {
                            ReviewTrigger::Scheduled
                        },
                    ),
                )
            },
            Err(e) => ended(s, Err(e@)),
        },
        (Stage::Creating, Event::Created(created)) => match created {
            Ok(review_id) => (
                RunState { stage: Stage::Starting, review_id: Some(review_id), ..s },
                RunAction::MarkInProgress(review_id),
            ),
            Err(e) => ended(s, Err(e@)),
        },
        (Stage::Starting, Event::Saved(saved)) => match saved {
            Ok(_) => (
                RunState { stage: Stage::Reading, ..s },
                RunAction::ReadContents((s.repo->Some_0).url),
            ),
            Err(e) => ended(s, Err(e@)),
        },
        (Stage::Reading, Event::Contents(read)) => match read {
            Ok(contents) => (
                RunState {
                    stage: Stage::Running,
                    chunks: chunks_under(
                        contents.files@,
                        ChunkingStrategy::ByFile {
                            max_tokens_per_chunk: chunk_limit(s.model_context),
                        },
                    ),
                    current: 0,
                    ..s
                },
                RunAction::RunPrompt(0),
            ),
            Err(e) => cleaned_up(s, e@, e@),
        },
        (Stage::Running, Event::PromptRan(ran)) => match ran {
            Ok(output) => (
                RunState { stage: Stage::Storing, ..s },
                RunAction::StoreResult(s.current, output),
            ),
            Err(_) => advanced(RunState { had_error: true, ..s }, elapsed),
        },
        (Stage::Storing, Event::Saved(saved)) => match saved {
            Ok(_) => advanced(s, elapsed),
            Err(_) => advanced(RunState { had_error: true, ..s }, elapsed),
        },
        (Stage::FailedChecking, Event::Saved(_)) => (
            RunState { stage: Stage::FailedMarking, ..s },
            RunAction::MarkFailed(s.review_id->Some_0, PROMPTS_FAILED@),
        ),
        (Stage::FailedMarking, Event::Saved(saved)) => match saved {
            Ok(_) => (
                RunState { stage: Stage::FailedLoading, ..s },
                RunAction::LoadResults(s.review_id->Some_0),
            ),
            Err(e) => cleaned_up(s, INTERRUPTED@, e@),
        },
        (Stage::FailedLoading, Event::Results(results)) => (
            RunState { stage: Stage::FailedSending, ..s },
            RunAction::Broadcast(s.review_id->Some_0, results@),
        ),
        (Stage::FailedSending, Event::Sent) => ended(
            s,
            Err(prompts_failed_text(s.review_id->Some_0)),
        ),
        (Stage::SavingCommit, Event::Saved(saved)) => match saved {
            Ok(_) => (
                RunState { stage: Stage::SavingCheck, ..s },
                RunAction::UpdateLastChecked(s.repo_id),
            ),
            Err(e) => cleaned_up(s, e@, e@),
        },
        (Stage::SavingCheck, Event::Saved(saved)) => match saved {
            Ok(_) => (
                RunState { stage: Stage::Completing, ..s },
                RunAction::MarkCompleted(s.review_id->Some_0, s.duration as u32),
            ),
            Err(e) => cleaned_up(s, e@, e@),
        },
        (Stage::Completing, Event::Saved(saved)) => match saved {
            Ok(_) => (
                RunState { stage: Stage::CompletedLoading, ..s },
                RunAction::LoadResults(s.review_id->Some_0),
            ),
            Err(e) => cleaned_up(s, e@, e@),
        },
        (Stage::CompletedLoading, Event::Results(results)) => (
            RunState { stage: Stage::CompletedSending, ..s },
            RunAction::Broadcast(s.review_id->Some_0, results@),
        ),
        (Stage::CompletedSending, Event::Sent) => ended(s, Ok(())),
        (Stage::CleanupChecking, Event::Saved(_)) => (
            RunState { stage: Stage::CleanupMarking, ..s },
            RunAction::MarkFailed(s.review_id->Some_0, s.reason),
        ),
        (Stage::CleanupMarking, Event::Saved(_)) => (
            RunState { stage: Stage::CleanupLoading, ..s },
            RunAction::LoadResults(s.review_id->Some_0),
        ),
        (Stage::CleanupLoading, Event::Results(results)) => (
            RunState { stage: Stage::CleanupSending, ..s },
            RunAction::Broadcast(s.review_id->Some_0, results@),
        ),
        (Stage::CleanupSending, Event::Sent) => ended(s, Err(s.outcome)),
        _ => ended(s, Err(Seq::empty())),
    }
}

/// What is known in each stage.
pub open spec fn is_consistent(s: RunState) -> bool {
    &&& s.stage != Stage::LoadingRepo && s.stage != Stage::Finished ==> s.repo is Some
    &&& s.stage != Stage::LoadingRepo && s.stage != Stage::Fetching && s.stage
        != Stage::Finished ==> s.sha is Some
    &&& !(s.stage == Stage::LoadingRepo || s.stage == Stage::Fetching || s.stage
        == Stage::RecordingNoChange || s.stage == Stage::LoadingPrompts || s.stage
        == Stage::Creating || s.stage == Stage::Finished) ==> s.review_id is Some
    &&& !(s.stage == Stage::LoadingRepo || s.stage == Stage::Fetching || s.stage
        == Stage::RecordingNoChange || s.stage == Stage::LoadingPrompts || s.stage
        == Stage::Finished) ==> s.prompts.len() > 0
    &&& s.stage == Stage::Running || s.stage == Stage::Storing ==> 0 <= s.current < s.prompts.len()
}

/// A run of a review.
#[derive(Debug)]
pub struct ReviewRun {
    stage: Stage,
    repo_id: RepoId,
    force: bool,
    model_context: u32,
    repo: Option<Repo>,
    sha: Option<CommitSha>,
    prompts: Vec<Prompt>,
    review_id: Option<ReviewId>,
    chunks: Vec<Chunk>,
    current: usize,
    had_error: bool,
    duration: u64,
    reason: String,
    outcome: String,
}

impl View for ReviewRun {
    type V = RunState;

    closed spec fn view(&self) -> RunState {
        RunState {
            stage: self.stage,
            repo_id: self.repo_id,
            force: self.force,
            model_context: self.model_context,
            repo: self.repo,
            sha: match self.sha {
                Some(sha) => Some(sha@),
                None => None,
            },
            prompts: self.prompts@,
            review_id: self.review_id,
            chunks: chunk_views(self.chunks@),
            current: self.current as int,
            had_error: self.had_error,
            duration: self.duration,
            reason: self.reason@,
            outcome: self.outcome@,
        }
    }
}

impl ReviewRun {
    /// A run that has not begun, and its first step.
    pub fn start(repo_id: RepoId, force: bool, model_context: u32) -> (r: (ReviewRun, Action))
        ensures
            r.0@ == initial_state(repo_id, force, model_context),
            is_consistent(r.0@),
            stands_for(r.1, RunAction::LoadRepo(repo_id)),
    {
        let run = ReviewRun {
            stage: Stage::LoadingRepo,
            repo_id,
            force,
            model_context,
            repo: None,
            sha: None,
            prompts: Vec::new(),
            review_id: None,
            chunks: Vec::new(),
            current: 0,
            had_error: false,
            duration: 0,
            reason: String::new(),
            outcome: String::new(),
        };
        proof {
            let wanted = initial_state(repo_id, force, model_context);
            assert(run@.prompts =~= wanted.prompts);
            assert(run@.chunks =~= wanted.chunks);
            assert(run@.reason =~= wanted.reason);
            assert(run@.outcome =~= wanted.outcome);
        }
        (run, Action::LoadRepo(repo_id))
    }

    /// Whether the event answers what the run waits for.
    pub fn accepts(&self, event: &Event) -> (r: bool)
        ensures
            r == answers(self@.stage, *event),
    {
        match (self.stage, event) {
            (Stage::LoadingRepo, Event::Repo(_)) => true,
            (Stage::Fetching, Event::Fetched(_)) => true,
            (Stage::LoadingPrompts, Event::Prompts(_)) => true,
            (Stage::Creating, Event::Created(_)) => true,
            (Stage::Reading, Event::Contents(_)) => true,
            (Stage::Running, Event::PromptRan(_)) => true,
            (Stage::RecordingNoChange, Event::Saved(_)) => true,
            (Stage::Starting, Event::Saved(_)) => true,
            (Stage::Storing, Event::Saved(_)) => true,
            (Stage::FailedChecking, Event::Saved(_)) => true,
            (Stage::FailedMarking, Event::Saved(_)) => true,
            (Stage::SavingCommit, Event::Saved(_)) => true,
            (Stage::SavingCheck, Event::Saved(_)) => true,
            (Stage::Completing, Event::Saved(_)) => true,
            (Stage::CleanupChecking, Event::Saved(_)) => true,
            (Stage::CleanupMarking, Event::Saved(_)) => true,
            (Stage::FailedLoading, Event::Results(_)) => true,
            (Stage::CompletedLoading, Event::Results(_)) => true,
            (Stage::CleanupLoading, Event::Results(_)) => true,
            (Stage::FailedSending, Event::Sent) => true,
            (Stage::CompletedSending, Event::Sent) => true,
            (Stage::CleanupSending, Event::Sent) => true,
            _ => false,
        }
    }

    /// The prompts to run.
    pub fn prompts(&self) -> (r: &Vec<Prompt>)
        ensures
            r@ == self@.prompts,
    {
        &self.prompts
    }

    /// The files in chunks.
    pub fn chunks(&self) -> (r: &Vec<Chunk>)
        ensures
            chunk_views(r@) == self@.chunks,
    {
        &self.chunks
    }

    /// The repository to review.
    pub fn repo_id(&self) -> (r: RepoId)
        ensures
            r == self@.repo_id,
    {
        self.repo_id
    }

    /// The review, once it is created.
    pub fn review_id(&self) -> (r: Option<ReviewId>)
        ensures
            r == self@.review_id,
    {
        self.review_id
    }

    /// What the run waits for.
    pub fn stage(&self) -> (r: Stage)
        ensures
            r == self@.stage,
    {
        self.stage
    }

    fn end(&mut self, outcome: Result<(), String>) -> (r: Action)
        ensures
            final(self)@ == (RunState { stage: Stage::Finished, ..old(self)@ }),
            r == Action::Finish(outcome),
    {
        self.stage = Stage::Finished;
        Action::Finish(outcome)
    }

    fn clean_up(&mut self, reason: String, outcome: String) -> (r: Action)
        ensures
            final(self)@ == cleaned_up(old(self)@, reason@, outcome@).0,
            r == Action::UpdateLastChecked(old(self)@.repo_id),
    {
        self.stage = Stage::CleanupChecking;
        self.reason = reason;
        self.outcome = outcome;
        Action::UpdateLastChecked(self.repo_id)
    }

    fn advance(&mut self, elapsed: u64) -> (r: Action)
        requires
            old(self)@.sha is Some,
            old(self)@.current < old(self)@.prompts.len(),
        ensures
            final(self)@ == advanced(old(self)@, elapsed).0,
            stands_for(r, advanced(old(self)@, elapsed).1),
    {
        if self.current < self.prompts.len() - 1 {
            self.stage = Stage::Running;
            self.current = self.current + 1;
            Action::RunPrompt(self.current)
        } else if self.had_error {
            self.stage = Stage::FailedChecking;
            self.duration = elapsed;
            Action::UpdateLastChecked(self.repo_id)
        } else {
            self.stage = Stage::SavingCommit;
            self.duration = elapsed;
            Action::UpdateLastCommit(self.repo_id, self.sha.as_ref().unwrap().clone())
        }
    }

    fn broadcast(&mut self, stage: Stage, results: Vec<PromptResult>) -> (r: Action)
        requires
            old(self)@.review_id is Some,
        ensures
            final(self)@ == (RunState { stage, ..old(self)@ }),
            stands_for(r, RunAction::Broadcast(old(self)@.review_id->Some_0, results@)),
    {
        self.stage = stage;
        Action::Broadcast(review_complete(self.review_id.unwrap(), results))
    }

    /// Takes in what came of the last step, `elapsed` seconds after the review has started, and
    /// gives the next step.
    pub fn step(&mut self, event: Event, elapsed: u64) -> (r: Action)
        requires
            is_consistent(old(self)@),
            answers(old(self)@.stage, event),
        ensures
            final(self)@ == next(old(self)@, event, elapsed).0,
            stands_for(r, next(old(self)@, event, elapsed).1),
            is_consistent(final(self)@),
    {
        proof {
            reveal(next);
        }
        match event {
            Event::Repo(loaded) => match loaded {
                Ok(Some(repo)) => {
                    let url = repo.url.clone();
                    self.repo = Some(repo);
                    self.stage = Stage::Fetching;
                    Action::FetchClone(url)
                },
                Ok(None) => self.end(Err("Repo not found".to_owned())),
                Err(e) => self.end(Err(e)),
            },
            Event::Fetched(fetched) => match fetched {
                Ok(sha) => {
                    // Check if we should skip (no changes since last review)
                    let unchanged = match &self.repo.as_ref().unwrap().last_commit_sha {
                        Some(last) => last.same_as(&sha),
                        None => false,
                    };
                    self.sha = Some(sha);
                    if !self.force && unchanged {
                        // Record that we checked, even though we're not doing a full review.
                        // This prevents the scheduler from re-queueing this repo every poll.
                        self.stage = Stage::RecordingNoChange;
                        Action::UpdateLastChecked(self.repo_id)
                    } else {
                        self.stage = Stage::LoadingPrompts;
                        Action::LoadPrompts(self.repo_id)
                    }
                },
                Err(e) => self.end(Err(e)),
            },
            Event::Prompts(loaded) => match loaded {
                Ok(prompts) => {
                    if prompts.len() == 0 {
                        self.end(Ok(()))
                    } else {
                        self.prompts = prompts;
                        self.stage = Stage::Creating;
                        let trigger = if self.force {
                            ReviewTrigger::Manual
                        } else {
                            ReviewTrigger::Scheduled
                        };
                        let commit_sha = self.sha.as_ref().unwrap().clone();
                        Action::CreateReview(
                            NewReview { repo_id: self.repo_id, commit_sha, trigger },
                        )
                    }
                },
                Err(e) => self.end(Err(e)),
            },
            Event::Created(created) => match created {
                Ok(review_id) => {
                    self.review_id = Some(review_id);
                    self.stage = Stage::Starting;
                    Action::MarkInProgress(review_id)
                },
                Err(e) => self.end(Err(e)),
            },
            Event::Contents(read) => match read {
                Ok(contents) => {
                    let budget = context_budget(self.model_context);
                    let strategy = ChunkingStrategy::with_max_tokens(budget.input_budget);
                    self.chunks = chunk_contents(contents.files.as_slice(), &strategy);
                    self.current = 0;
                    self.stage = Stage::Running;
                    Action::RunPrompt(0)
                },
                Err(e) => {
                    let outcome = e.clone();
                    self.clean_up(e, outcome)
                },
            },
            Event::PromptRan(ran) => match ran {
                Ok(output) => {
                    self.stage = Stage::Storing;
                    Action::StoreResult(self.current, output)
                },
                Err(_) => {
                    self.had_error = true;
                    self.advance(elapsed)
                },
            },
            Event::Saved(saved) => self.after_save(saved, elapsed),
            Event::Results(results) => match self.stage {
                Stage::FailedLoading => self.broadcast(Stage::FailedSending, results),
                Stage::CompletedLoading => self.broadcast(Stage::CompletedSending, results),
                _ => self.broadcast(Stage::CleanupSending, results),
            },
            Event::Sent => match self.stage {
                Stage::FailedSending => {
                    let mut text: String = "Review failed: some prompts failed (see review "
                        .to_owned();
                    text.push_str(format_i64(self.review_id.unwrap().0).as_str());
                    text.push_str(" for details)");
                    self.end(Err(text))
                },
                Stage::CompletedSending => self.end(Ok(())),
                _ => {
                    let outcome = self.outcome.clone();
                    self.end(Err(outcome))
                },
            },
        }
    }

    fn after_save(&mut self, saved: Result<(), String>, elapsed: u64) -> (r: Action)
        requires
            is_consistent(old(self)@),
            answers(old(self)@.stage, Event::Saved(saved)),
        ensures
            final(self)@ == next(old(self)@, Event::Saved(saved), elapsed).0,
            stands_for(r, next(old(self)@, Event::Saved(saved), elapsed).1),
            is_consistent(final(self)@),
    {
        proof {
            reveal(next);
        }
        match (self.stage, saved) {
            (Stage::RecordingNoChange, saved) => self.end(saved),
            (Stage::Starting, Ok(_)) => {
                self.stage = Stage::Reading;
                Action::ReadContents(self.repo.as_ref().unwrap().url.clone())
            },
            (Stage::Starting, Err(e)) => self.end(Err(e)),
            (Stage::Storing, Ok(_)) => self.advance(elapsed),
            (Stage::Storing, Err(_)) => {
                self.had_error = true;
                self.advance(elapsed)
            },
            // Recorded even on failure, to prevent immediate rescheduling
            (Stage::FailedChecking, _) => {
                self.stage = Stage::FailedMarking;
                Action::MarkFailed(self.review_id.unwrap(), PROMPTS_FAILED.to_owned())
            },
            (Stage::FailedMarking, Ok(_)) => {
                self.stage = Stage::FailedLoading;
                Action::LoadResults(self.review_id.unwrap())
            },
            (Stage::FailedMarking, Err(e)) => self.clean_up(INTERRUPTED.to_owned(), e),
            // The commit is recorded before the review is marked complete: on retry no duplicate
            // review is made for the same commit
            (Stage::SavingCommit, Ok(_)) => {
                self.stage = Stage::SavingCheck;
                Action::UpdateLastChecked(self.repo_id)
            },
            (Stage::SavingCheck, Ok(_)) => {
                self.stage = Stage::Completing;
                Action::MarkCompleted(self.review_id.unwrap(), self.duration as u32)
            },
            (Stage::Completing, Ok(_)) => {
                self.stage = Stage::CompletedLoading;
                Action::LoadResults(self.review_id.unwrap())
            },
            (Stage::CleanupChecking, _) => {
                self.stage = Stage::CleanupMarking;
                Action::MarkFailed(self.review_id.unwrap(), self.reason.clone())
            },
            (Stage::CleanupMarking, _) => {
                self.stage = Stage::CleanupLoading;
                Action::LoadResults(self.review_id.unwrap())
            },
            (_, Err(e)) => {
                let outcome = e.clone();
                self.clean_up(e, outcome)
            },
            (_, Ok(_)) => self.end(Ok(())),
        }
    }
}

// --- What holds of every run ---

/// The state of a run after the first `n` of the events. With each event comes the number of
/// seconds since the review has started.
pub open spec fn state_at(start: RunState, events: Seq<(Event, u64)>, n: int) -> RunState
    decreases n,
{
    if n <= 0 {
        start
    } else {
        next(state_at(start, events, n - 1), events[n - 1].0, events[n - 1].1).0
    }
}

/// The step that follows the event with the given place.
pub open spec fn action_at(start: RunState, events: Seq<(Event, u64)>, i: int) -> RunAction {
    next(state_at(start, events, i), events[i].0, events[i].1).1
}

/// The events answer a run from its start on.
pub open spec fn is_run(start: RunState, events: Seq<(Event, u64)>) -> bool {
    &&& start == initial_state(start.repo_id, start.force, start.model_context)
    &&& forall|i: int|
        0 <= i < events.len() ==> answers(
            #[trigger] state_at(start, events, i).stage,
            events[i].0,
        )
}

/// Something was recorded successfully.
pub open spec fn is_saved(event: Event) -> bool {
    event matches Event::Saved(Ok(_))
}

/// A run stays consistent, and what it was started with stays: which repository it reviews,
/// whether it does so even if there are no changes, and the context window of the model.
pub proof fn runs_stay_consistent(start: RunState, events: Seq<(Event, u64)>, n: int)
    requires
        is_run(start, events),
        0 <= n <= events.len(),
    ensures
        is_consistent(state_at(start, events, n)),
        state_at(start, events, n).repo_id == start.repo_id,
        state_at(start, events, n).force == start.force,
        state_at(start, events, n).model_context == start.model_context,
    decreases n,
{
    if n > 0 {
        runs_stay_consistent(start, events, n - 1);
        let before = state_at(start, events, n - 1);
        assert(answers(before.stage, events[n - 1].0));
        step_stays_consistent(before, events[n - 1].0, events[n - 1].1);
    }
}

proof fn step_stays_consistent(s: RunState, event: Event, elapsed: u64)
    requires
        is_consistent(s),
        answers(s.stage, event),
    ensures
        is_consistent(next(s, event, elapsed).0),
        next(s, event, elapsed).0.repo_id == s.repo_id,
        next(s, event, elapsed).0.force == s.force,
        next(s, event, elapsed).0.model_context == s.model_context,
{
    reveal(next);
}

/// The event loads the repository.
pub open spec fn loads(event: Event, repo: Repo) -> bool {
    event == Event::Repo(Ok(Some(repo)))
}

/// The event reports the commit with the given SHA as the current one.
pub open spec fn fetches(event: Event, sha: Seq<char>) -> bool {
    event matches Event::Fetched(Ok(head)) && head@ == sha
}

/// The event reports that the review was created.
pub open spec fn creates(event: Event, review_id: ReviewId) -> bool {
    event == Event::Created(Ok(review_id))
}

/// What a run has not come to is not yet known: its repository, its commit and its review.
spec fn knows_nothing_early(s: RunState) -> bool {
    &&& s.stage == Stage::LoadingRepo ==> s.repo is None
    &&& s.stage == Stage::LoadingRepo || s.stage == Stage::Fetching ==> s.sha is None
    &&& s.stage == Stage::LoadingRepo || s.stage == Stage::Fetching || s.stage
        == Stage::LoadingPrompts || s.stage == Stage::Creating ==> s.review_id is None
}

proof fn step_keeps_what_is_known(s: RunState, event: Event, elapsed: u64)
    requires
        knows_nothing_early(s),
        answers(s.stage, event),
    ensures
        ({
            let after = next(s, event, elapsed).0;
            &&& knows_nothing_early(after)
            &&& s.repo is Some ==> after.repo == s.repo
            &&& s.sha is Some ==> after.sha == s.sha
            &&& s.review_id is Some ==> after.review_id == s.review_id
            &&& s.repo is None && after.repo is Some ==> loads(event, after.repo->Some_0)
            &&& s.sha is None && after.sha is Some ==> fetches(event, after.sha->Some_0)
            &&& s.review_id is None && after.review_id is Some ==> creates(
                event,
                after.review_id->Some_0,
            )
        }),
{
    reveal(next);
}

proof fn nothing_is_known_early(start: RunState, events: Seq<(Event, u64)>, n: int)
    requires
        is_run(start, events),
        0 <= n <= events.len(),
    ensures
        knows_nothing_early(state_at(start, events, n)),
    decreases n,
{
    if n > 0 {
        nothing_is_known_early(start, events, n - 1);
        let before = state_at(start, events, n - 1);
        assert(answers(before.stage, events[n - 1].0));
        step_keeps_what_is_known(before, events[n - 1].0, events[n - 1].1);
    }
}

/// Whatever was recorded of a run stays: once its repository, its commit or its review is known,
/// it is the same ever after.
pub proof fn what_is_known_stays(start: RunState, events: Seq<(Event, u64)>, m: int, n: int)
    requires
        is_run(start, events),
        0 <= m <= n <= events.len(),
    ensures
        ({
            let earlier = state_at(start, events, m);
            let later = state_at(start, events, n);
            &&& earlier.repo is Some ==> later.repo == earlier.repo
            &&& earlier.sha is Some ==> later.sha == earlier.sha
            &&& earlier.review_id is Some ==> later.review_id == earlier.review_id
        }),
    decreases n,
{
    if m < n {
        what_is_known_stays(start, events, m, n - 1);
        nothing_is_known_early(start, events, n - 1);
        let before = state_at(start, events, n - 1);
        assert(answers(before.stage, events[n - 1].0));
        step_keeps_what_is_known(before, events[n - 1].0, events[n - 1].1);
    }
}

/// The repository, the commit and the review of a run are those that were loaded, fetched and
/// created.
pub proof fn what_is_known_was_reported(start: RunState, events: Seq<(Event, u64)>, n: int)
    requires
        is_run(start, events),
        0 <= n <= events.len(),
    ensures
        ({
            let s = state_at(start, events, n);
            &&& s.repo is Some ==> exists|i: int|
                0 <= i < n && loads((#[trigger] events[i]).0, s.repo->Some_0)
            &&& s.sha is Some ==> exists|i: int|
                0 <= i < n && fetches((#[trigger] events[i]).0, s.sha->Some_0)
            &&& s.review_id is Some ==> exists|i: int|
                0 <= i < n && creates((#[trigger] events[i]).0, s.review_id->Some_0)
        }),
    decreases n,
{
    if n > 0 {
        what_is_known_was_reported(start, events, n - 1);
        nothing_is_known_early(start, events, n - 1);
        let before = state_at(start, events, n - 1);
        let event = events[n - 1].0;
        assert(answers(before.stage, event));
        step_keeps_what_is_known(before, event, events[n - 1].1);
    }
}

/// From which stage, and on which event, a run comes to each of the stages at its end, and which
/// step it takes then.
proof fn ways_in(s: RunState, event: Event, elapsed: u64)
    requires
        answers(s.stage, event),
    ensures
        ({
            let (after, action) = next(s, event, elapsed);
            &&& after.stage != Stage::LoadingRepo
            &&& after.stage == Stage::SavingCommit ==> action is UpdateLastCommit && !s.had_error
                && event !is PromptRan
            &&& after.stage == Stage::SavingCheck ==> s.stage == Stage::SavingCommit && is_saved(
                event,
            ) && action == RunAction::UpdateLastChecked(s.repo_id)
            &&& after.stage == Stage::Completing ==> s.stage == Stage::SavingCheck && is_saved(
                event,
            ) && action is MarkCompleted
            &&& after.stage == Stage::FailedChecking || after.stage == Stage::CleanupChecking
                ==> action == RunAction::UpdateLastChecked(s.repo_id)
            &&& after.stage == Stage::FailedMarking ==> action is MarkFailed
            &&& after.stage == Stage::CleanupMarking ==> action is MarkFailed
            &&& after.stage == Stage::FailedLoading ==> s.stage == Stage::FailedMarking
            &&& after.stage == Stage::CompletedLoading ==> s.stage == Stage::Completing
                && is_saved(event)
            &&& after.stage == Stage::CleanupLoading ==> s.stage == Stage::CleanupMarking
            &&& after.stage == Stage::CompletedSending ==> s.stage == Stage::CompletedLoading
        }),
{
    reveal(next);
}

/// In which stage a run takes each of the steps at its end.
proof fn ways_out(s: RunState, event: Event, elapsed: u64)
    requires
        answers(s.stage, event),
    ensures
        ({
            let (after, action) = next(s, event, elapsed);
            &&& action is MarkCompleted ==> after.stage == Stage::Completing
            &&& action is UpdateLastCommit ==> after.stage == Stage::SavingCommit
            &&& action is MarkFailed ==> s.stage == Stage::FailedChecking || s.stage
                == Stage::CleanupChecking
            &&& action is Broadcast ==> s.stage == Stage::FailedLoading || s.stage
                == Stage::CompletedLoading || s.stage == Stage::CleanupLoading
            &&& action == RunAction::Finish(Ok(())) ==> s.stage == Stage::RecordingNoChange
                || s.stage == Stage::LoadingPrompts || s.stage == Stage::CompletedSending
        }),
{
    reveal(next);
}

/// A review is marked as completed only right after its commit and the check of its repository
/// were recorded, in this order and both successfully.
pub proof fn commit_is_recorded_before_completion(
    start: RunState,
    events: Seq<(Event, u64)>,
    i: int,
)
    requires
        is_run(start, events),
        0 <= i < events.len(),
        action_at(start, events, i) is MarkCompleted,
    ensures
        i >= 2,
        action_at(start, events, i - 2) is UpdateLastCommit,
        is_saved(events[i - 1].0),
        action_at(start, events, i - 1) == RunAction::UpdateLastChecked(start.repo_id),
        is_saved(events[i].0),
{
    assert(answers(state_at(start, events, i).stage, events[i].0));
    ways_out(state_at(start, events, i), events[i].0, events[i].1);
    ways_in(state_at(start, events, i), events[i].0, events[i].1);
    assert(answers(state_at(start, events, i - 1).stage, events[i - 1].0));
    ways_in(state_at(start, events, i - 1), events[i - 1].0, events[i - 1].1);
    runs_stay_consistent(start, events, i - 1);
    assert(answers(state_at(start, events, i - 2).stage, events[i - 2].0));
    ways_in(state_at(start, events, i - 2), events[i - 2].0, events[i - 2].1);
}

/// Those who follow a review are told that it is over only after its end was recorded: two steps
/// before the message stands the step that records it.
pub proof fn end_is_recorded_before_message(start: RunState, events: Seq<(Event, u64)>, i: int)
    requires
        is_run(start, events),
        0 <= i < events.len(),
        action_at(start, events, i) is Broadcast,
    ensures
        i >= 2,
        action_at(start, events, i - 2) is MarkCompleted || action_at(start, events, i - 2)
            is MarkFailed,
{
    assert(answers(state_at(start, events, i).stage, events[i].0));
    ways_out(state_at(start, events, i), events[i].0, events[i].1);
    assert(answers(state_at(start, events, i - 1).stage, events[i - 1].0));
    ways_in(state_at(start, events, i - 1), events[i - 1].0, events[i - 1].1);
    assert(answers(state_at(start, events, i - 2).stage, events[i - 2].0));
    ways_in(state_at(start, events, i - 2), events[i - 2].0, events[i - 2].1);
}

/// Whenever a review is marked as failed, the step right before records that its repository was
/// checked, so that it is not scheduled again at once.
pub proof fn check_is_recorded_before_failure(start: RunState, events: Seq<(Event, u64)>, i: int)
    requires
        is_run(start, events),
        0 <= i < events.len(),
        action_at(start, events, i) is MarkFailed,
    ensures
        i >= 1,
        action_at(start, events, i - 1) == RunAction::UpdateLastChecked(start.repo_id),
{
    assert(answers(state_at(start, events, i).stage, events[i].0));
    ways_out(state_at(start, events, i), events[i].0, events[i].1);
    assert(answers(state_at(start, events, i - 1).stage, events[i - 1].0));
    ways_in(state_at(start, events, i - 1), events[i - 1].0, events[i - 1].1);
    runs_stay_consistent(start, events, i - 1);
}

/// How many prompts were run after the first `n` of the events.
pub open spec fn prompt_runs(start: RunState, events: Seq<(Event, u64)>, n: int) -> nat
    decreases n,
{
    if n <= 0 {
        0
    } else if action_at(start, events, n - 1) is RunPrompt {
        prompt_runs(start, events, n - 1) + 1
    } else {
        prompt_runs(start, events, n - 1)
    }
}

/// The prompts are done, whether or not all succeeded, and the end of the review is being
/// recorded.
pub open spec fn records_end(stage: Stage) -> bool {
    ||| stage == Stage::FailedChecking
    ||| stage == Stage::FailedMarking
    ||| stage == Stage::SavingCommit
    ||| stage == Stage::SavingCheck
    ||| stage == Stage::Completing
}

/// How many prompts were run when a run is in the given state.
spec fn runs_in(s: RunState) -> int {
    if s.stage == Stage::Running || s.stage == Stage::Storing {
        s.current + 1
    } else if records_end(s.stage) {
        s.prompts.len() as int
    } else {
        0
    }
}

/// A stage of which the number of prompts that were run is known.
spec fn counts_runs(stage: Stage) -> bool {
    !(distance(stage) <= 10) || stage == Stage::RecordingNoChange
}

/// Each prompt of the list is run once, one after the other: a run asks for the prompt whose
/// place is the number of prompts run before, and when it comes to record its end, with or without
/// a failed prompt, all were run.
pub proof fn prompts_are_run_in_order(start: RunState, events: Seq<(Event, u64)>, n: int)
    requires
        is_run(start, events),
        0 <= n < events.len(),
    ensures
        action_at(start, events, n) matches RunAction::RunPrompt(place) ==> place == prompt_runs(
            start,
            events,
            n,
        ) && place < state_at(start, events, n).prompts.len(),
        action_at(start, events, n) is UpdateLastCommit ==> prompt_runs(start, events, n)
            == state_at(start, events, n).prompts.len(),
        records_end(state_at(start, events, n + 1).stage) ==> prompt_runs(start, events, n + 1)
            == state_at(start, events, n + 1).prompts.len(),
{
    runs_are_counted(start, events, n);
    runs_are_counted(start, events, n + 1);
    runs_stay_consistent(start, events, n);
    assert(answers(state_at(start, events, n).stage, events[n].0));
    run_is_counted(state_at(start, events, n), events[n].0, events[n].1);
}

proof fn runs_are_counted(start: RunState, events: Seq<(Event, u64)>, n: int)
    requires
        is_run(start, events),
        0 <= n <= events.len(),
    ensures
        counts_runs(state_at(start, events, n).stage) ==> prompt_runs(start, events, n) == runs_in(
            state_at(start, events, n),
        ),
    decreases n,
{
    if n > 0 {
        runs_are_counted(start, events, n - 1);
        runs_stay_consistent(start, events, n - 1);
        let before = state_at(start, events, n - 1);
        assert(answers(before.stage, events[n - 1].0));
        run_is_counted(before, events[n - 1].0, events[n - 1].1);
    }
}

proof fn run_is_counted(s: RunState, event: Event, elapsed: u64)
    requires
        is_consistent(s),
        answers(s.stage, event),
    ensures
        ({
            let (after, action) = next(s, event, elapsed);
            &&& counts_runs(after.stage) ==> counts_runs(s.stage) && runs_in(after) == runs_in(s)
                + if action is RunPrompt {
                1int
            } else {
                0int
            }
            &&& action matches RunAction::RunPrompt(place) ==> counts_runs(s.stage) && place
                == runs_in(s) && place < s.prompts.len()
            &&& action is UpdateLastCommit ==> counts_runs(s.stage) && runs_in(s)
                == s.prompts.len()
        }),
{
    reveal(next);
}

/// The event with the given place ends the review: the step that follows it marks the review as
/// failed, or it reports that the review was marked as completed.
pub open spec fn ends_review(start: RunState, events: Seq<(Event, u64)>, i: int) -> bool {
    ||| action_at(start, events, i) is MarkFailed
    ||| state_at(start, events, i).stage == Stage::Completing && is_saved(events[i].0)
}

/// The review is in progress.
pub open spec fn is_open(stage: Stage) -> bool {
    ||| stage == Stage::Reading
    ||| stage == Stage::Running
    ||| stage == Stage::Storing
    ||| stage == Stage::FailedChecking
    ||| stage == Stage::SavingCommit
    ||| stage == Stage::SavingCheck
    ||| stage == Stage::Completing
    ||| stage == Stage::CleanupChecking
}

/// No review is left in progress: between the event that the review was started and the end of
/// the run stands an event that ends the review.
pub proof fn no_review_stays_in_progress(start: RunState, events: Seq<(Event, u64)>, i: int, n: int)
    requires
        is_run(start, events),
        0 <= i < n <= events.len(),
        state_at(start, events, i).stage == Stage::Starting,
        is_saved(events[i].0),
        state_at(start, events, n).stage == Stage::Finished,
    ensures
        exists|j: int| i < j < n && #[trigger] ends_review(start, events, j),
{
    started_review_is_open_or_ended(start, events, i, n);
}

proof fn started_review_is_open_or_ended(
    start: RunState,
    events: Seq<(Event, u64)>,
    i: int,
    m: int,
)
    requires
        is_run(start, events),
        0 <= i < m <= events.len(),
        state_at(start, events, i).stage == Stage::Starting,
        is_saved(events[i].0),
    ensures
        is_open(state_at(start, events, m).stage) || exists|j: int|
            i < j < m && #[trigger] ends_review(start, events, j),
    decreases m,
{
    let before = state_at(start, events, m - 1);
    assert(answers(before.stage, events[m - 1].0));
    open_until_ended(before, events[m - 1].0, events[m - 1].1);
    if m - 1 > i {
        started_review_is_open_or_ended(start, events, i, m - 1);
        if is_open(before.stage) && !is_open(state_at(start, events, m).stage) {
            assert(ends_review(start, events, m - 1));
        }
    }
}

proof fn open_until_ended(s: RunState, event: Event, elapsed: u64)
    requires
        answers(s.stage, event),
    ensures
        s.stage == Stage::Starting && is_saved(event) ==> is_open(
            next(s, event, elapsed).0.stage,
        ),
        is_open(s.stage) && !is_open(next(s, event, elapsed).0.stage) ==> next(s, event, elapsed).1
            is MarkFailed || (s.stage == Stage::Completing && is_saved(event)),
{
    reveal(next);
}

/// A run succeeds only where there was nothing new, no prompt to run, or where the review was
/// marked as completed.
pub proof fn success_means_done(start: RunState, events: Seq<(Event, u64)>, i: int)
    requires
        is_run(start, events),
        0 <= i < events.len(),
        action_at(start, events, i) == RunAction::Finish(Ok(())),
    ensures
        ({
            let stage = state_at(start, events, i).stage;
            ||| stage == Stage::RecordingNoChange
            ||| stage == Stage::LoadingPrompts
            ||| i >= 3 && action_at(start, events, i - 3) is MarkCompleted && is_saved(
                events[i - 2].0,
            )
        }),
{
    assert(answers(state_at(start, events, i).stage, events[i].0));
    ways_out(state_at(start, events, i), events[i].0, events[i].1);
    if state_at(start, events, i).stage == Stage::CompletedSending {
        assert(answers(state_at(start, events, i - 1).stage, events[i - 1].0));
        ways_in(state_at(start, events, i - 1), events[i - 1].0, events[i - 1].1);
        assert(answers(state_at(start, events, i - 2).stage, events[i - 2].0));
        ways_in(state_at(start, events, i - 2), events[i - 2].0, events[i - 2].1);
        assert(answers(state_at(start, events, i - 3).stage, events[i - 3].0));
        ways_in(state_at(start, events, i - 3), events[i - 3].0, events[i - 3].1);
    }
}

/// An error that ends a review early is the very reason that the cleanup records, and the outcome
/// of the run.
pub proof fn cleanup_keeps_error(s: RunState, error: String, event: Event, elapsed: u64)
    requires
        answers(s.stage, event),
        s.stage == Stage::Reading || s.stage == Stage::SavingCommit || s.stage
            == Stage::SavingCheck || s.stage == Stage::Completing,
        event == Event::Saved(Err(error)) || event == Event::Contents(Err(error)),
    ensures
        next(s, event, elapsed).0.stage == Stage::CleanupChecking,
        next(s, event, elapsed).0.reason == error@,
        next(s, event, elapsed).0.outcome == error@,
{
    reveal(next);
}

/// A cleanup takes its four steps whatever comes of them, marks the review as failed with the
/// reason, and ends with the outcome.
pub proof fn cleanup_runs_to_its_end(
    s: RunState,
    checked: Event,
    marked: Event,
    results: Event,
    elapsed: u64,
)
    requires
        s.stage == Stage::CleanupChecking,
        checked is Saved,
        marked is Saved,
        results is Results,
    ensures
        ({
            let (marking, mark) = next(s, checked, elapsed);
            let (loading, load) = next(marking, marked, elapsed);
            let (sending, send) = next(loading, results, elapsed);
            let (finished, finish) = next(sending, Event::Sent, elapsed);
            &&& mark == RunAction::MarkFailed(s.review_id->Some_0, s.reason)
            &&& load == RunAction::LoadResults(s.review_id->Some_0)
            &&& send == RunAction::Broadcast(s.review_id->Some_0, results->Results_0@)
            &&& finish == RunAction::Finish(Err(s.outcome))
            &&& finished.stage == Stage::Finished
        }),
{
    reveal(next);
}

/// Where some prompt failed, neither the commit is recorded nor the review marked as completed.
pub proof fn failed_prompts_fail_the_review(start: RunState, events: Seq<(Event, u64)>, n: int)
    requires
        is_run(start, events),
        0 <= n < events.len(),
        state_at(start, events, n).had_error,
    ensures
        !(action_at(start, events, n) is MarkCompleted),
        !(action_at(start, events, n) is UpdateLastCommit),
{
    errors_are_remembered(start, events, n);
    assert(answers(state_at(start, events, n).stage, events[n].0));
    ways_out(state_at(start, events, n), events[n].0, events[n].1);
    ways_in(state_at(start, events, n), events[n].0, events[n].1);
}

proof fn errors_are_remembered(start: RunState, events: Seq<(Event, u64)>, n: int)
    requires
        is_run(start, events),
        0 <= n < events.len(),
    ensures
        state_at(start, events, n).had_error ==> !saves_success(state_at(start, events, n).stage),
    decreases n,
{
    if n > 0 {
        errors_are_remembered(start, events, n - 1);
        let before = state_at(start, events, n - 1);
        assert(answers(before.stage, events[n - 1].0));
        error_is_remembered(before, events[n - 1].0, events[n - 1].1);
    }
}

spec fn saves_success(stage: Stage) -> bool {
    stage == Stage::SavingCommit || stage == Stage::SavingCheck || stage == Stage::Completing
}

proof fn error_is_remembered(s: RunState, event: Event, elapsed: u64)
    requires
        answers(s.stage, event),
        s.had_error ==> !saves_success(s.stage),
    ensures
        next(s, event, elapsed).0.had_error ==> !saves_success(next(s, event, elapsed).0.stage),
{
    reveal(next);
}

/// How far a stage is from the end of a run.
pub open spec fn distance(stage: Stage) -> nat {
    match stage {
        Stage::LoadingRepo => 20,
        Stage::Fetching => 19,
        Stage::LoadingPrompts => 18,
        Stage::Creating => 17,
        Stage::Starting => 16,
        Stage::Reading => 15,
        Stage::Running | Stage::Storing => 14,
        Stage::SavingCommit | Stage::FailedChecking => 13,
        Stage::SavingCheck | Stage::FailedMarking => 12,
        Stage::Completing => 11,
        Stage::CleanupChecking => 10,
        Stage::CleanupMarking => 9,
        Stage::CleanupLoading => 8,
        Stage::CleanupSending => 7,
        Stage::FailedLoading | Stage::CompletedLoading => 3,
        Stage::FailedSending | Stage::CompletedSending => 2,
        Stage::RecordingNoChange => 1,
        Stage::Finished => 0,
    }
}

/// How many steps are left to run the prompts.
pub open spec fn prompt_steps(s: RunState) -> int {
    2 * (s.prompts.len() - s.current) + if s.stage == Stage::Running {
        1int
    } else {
        0int
    }
}

/// Every run comes to an end: each step brings it to a stage nearer to the end, or leaves fewer
/// steps to run the prompts, each of which is run once.
pub proof fn every_step_comes_nearer_to_the_end(s: RunState, event: Event, elapsed: u64)
    requires
        is_consistent(s),
        answers(s.stage, event),
    ensures
        ({
            let after = next(s, event, elapsed).0;
            ||| distance(after.stage) < distance(s.stage)
            ||| distance(after.stage) == distance(s.stage) && 0 <= prompt_steps(after)
                < prompt_steps(s)
        }),
{
    reveal(next);
}

// --- A run as it is seen from outside ---

/// The step whose outcome the event with the given place reports.
pub open spec fn asked(start: RunState, events: Seq<(Event, u64)>, i: int) -> RunAction {
    if i <= 0 {
        RunAction::LoadRepo(start.repo_id)
    } else {
        action_at(start, events, i - 1)
    }
}

/// The event reports that a prompt did not succeed: it could not be run, or its output could not
/// be recorded.
pub open spec fn prompt_fails(start: RunState, events: Seq<(Event, u64)>, i: int) -> bool {
    ||| asked(start, events, i) is RunPrompt && events[i].0 is PromptRan && events[i].0->PromptRan_0
        is Err
    ||| asked(start, events, i) is StoreResult && events[i].0 is Saved && events[i].0->Saved_0
        is Err
}

/// The event reports that the prompt with the given place is done with, for good or bad.
pub open spec fn ends_prompt(
    start: RunState,
    events: Seq<(Event, u64)>,
    i: int,
    place: int,
) -> bool {
    ||| asked(start, events, i) == RunAction::RunPrompt(place) && events[i].0 is PromptRan
        && events[i].0->PromptRan_0 is Err
    ||| asked(start, events, i) is StoreResult && asked(start, events, i)->StoreResult_0 == place
}

/// Each kind of step leads to the stage that waits for its outcome.
spec fn stage_fits(s: RunState, action: RunAction) -> bool {
    match action {
        RunAction::LoadRepo(_) => s.stage == Stage::LoadingRepo,
        RunAction::FetchClone(_) => s.stage == Stage::Fetching,
        RunAction::LoadPrompts(_) => s.stage == Stage::LoadingPrompts,
        RunAction::CreateReview(_, _, _) => s.stage == Stage::Creating,
        RunAction::MarkInProgress(_) => s.stage == Stage::Starting,
        RunAction::ReadContents(_) => s.stage == Stage::Reading,
        RunAction::RunPrompt(place) => s.stage == Stage::Running && s.current == place,
        RunAction::StoreResult(place, _) => s.stage == Stage::Storing && s.current == place,
        RunAction::UpdateLastChecked(_) => s.stage == Stage::RecordingNoChange || s.stage
            == Stage::FailedChecking || s.stage == Stage::SavingCheck || s.stage
            == Stage::CleanupChecking,
        RunAction::UpdateLastCommit(_, _) => s.stage == Stage::SavingCommit,
        RunAction::MarkFailed(_, _) => s.stage == Stage::FailedMarking || s.stage
            == Stage::CleanupMarking,
        RunAction::MarkCompleted(_, _) => s.stage == Stage::Completing,
        RunAction::LoadResults(_) => s.stage == Stage::FailedLoading || s.stage
            == Stage::CompletedLoading || s.stage == Stage::CleanupLoading,
        RunAction::Broadcast(_, _) => s.stage == Stage::FailedSending || s.stage
            == Stage::CompletedSending || s.stage == Stage::CleanupSending,
        RunAction::Finish(_) => s.stage == Stage::Finished,
    }
}

proof fn step_leads_to_its_stage(s: RunState, event: Event, elapsed: u64)
    requires
        answers(s.stage, event),
    ensures
        stage_fits(next(s, event, elapsed).0, next(s, event, elapsed).1),
{
    reveal(next);
}

proof fn stage_fits_what_was_asked(start: RunState, events: Seq<(Event, u64)>, i: int)
    requires
        is_run(start, events),
        0 <= i <= events.len(),
    ensures
        stage_fits(state_at(start, events, i), asked(start, events, i)),
{
    if i > 0 {
        let before = state_at(start, events, i - 1);
        assert(answers(before.stage, events[i - 1].0));
        step_leads_to_its_stage(before, events[i - 1].0, events[i - 1].1);
    }
}

/// The output of a prompt is stored as the result of that very prompt: whenever a result is to be
/// stored, the step before was to run the prompt with the same place, and the output is the one
/// that it gave. And whatever a prompt gives is stored so.
pub proof fn output_is_stored_under_its_prompt(
    start: RunState,
    events: Seq<(Event, u64)>,
    i: int,
    place: int,
    output: ReviewOutput,
)
    requires
        is_run(start, events),
        0 <= i < events.len(),
    ensures
        action_at(start, events, i) == RunAction::StoreResult(place, output) <==> {
            &&& asked(start, events, i) == RunAction::RunPrompt(place)
            &&& events[i].0 == Event::PromptRan(Ok(output))
        },
{
    let s = state_at(start, events, i);
    let (event, elapsed) = events[i];
    assert(answers(s.stage, event));
    stage_fits_what_was_asked(start, events, i);
    running_asks_for_current(start, events, i);
    stored_output_is_that_of_the_prompt(s, event, elapsed, place, output);
}

proof fn stored_output_is_that_of_the_prompt(
    s: RunState,
    event: Event,
    elapsed: u64,
    place: int,
    output: ReviewOutput,
)
    requires
        answers(s.stage, event),
    ensures
        next(s, event, elapsed).1 == RunAction::StoreResult(place, output) <==> s.stage
            == Stage::Running && s.current == place && event == Event::PromptRan(Ok(output)),
{
    reveal(next);
}

proof fn running_asks_for_current(start: RunState, events: Seq<(Event, u64)>, i: int)
    requires
        is_run(start, events),
        0 <= i <= events.len(),
    ensures
        ({
            let s = state_at(start, events, i);
            &&& s.stage == Stage::Running ==> asked(start, events, i) == RunAction::RunPrompt(
                s.current,
            )
            &&& s.stage == Stage::Storing ==> asked(start, events, i) is StoreResult && asked(
                start,
                events,
                i,
            )->StoreResult_0 == s.current
            &&& s.stage == Stage::Reading ==> asked(start, events, i) is ReadContents
            &&& s.stage == Stage::Starting ==> asked(start, events, i) is MarkInProgress
            &&& s.stage == Stage::Fetching ==> asked(start, events, i) is FetchClone
            &&& s.stage == Stage::LoadingPrompts ==> asked(start, events, i) is LoadPrompts
        }),
{
    stage_fits_what_was_asked(start, events, i);
}

/// A list of prompts, once it is loaded, is the list that the run goes by.
proof fn loaded_prompts_stay(start: RunState, events: Seq<(Event, u64)>, j: int, n: int)
    requires
        is_run(start, events),
        0 <= j < n <= events.len(),
        events[j].0 is Prompts,
        events[j].0->Prompts_0 is Ok,
        events[j].0->Prompts_0->Ok_0@.len() > 0,
    ensures
        state_at(start, events, n).prompts == events[j].0->Prompts_0->Ok_0@,
        !waits_for_prompts(state_at(start, events, n).stage),
    decreases n,
{
    let before = state_at(start, events, n - 1);
    assert(answers(before.stage, events[n - 1].0));
    if j < n - 1 {
        loaded_prompts_stay(start, events, j, n - 1);
    }
    prompts_are_kept(before, events[n - 1].0, events[n - 1].1);
}

/// A stage in which the prompts are not yet loaded.
spec fn waits_for_prompts(stage: Stage) -> bool {
    stage == Stage::LoadingRepo || stage == Stage::Fetching || stage == Stage::LoadingPrompts
}

proof fn prompts_are_kept(s: RunState, event: Event, elapsed: u64)
    requires
        answers(s.stage, event),
    ensures
        ({
            let after = next(s, event, elapsed).0;
            &&& !waits_for_prompts(s.stage) ==> !waits_for_prompts(after.stage) && after.prompts
                == s.prompts
            &&& event is Prompts && event->Prompts_0 is Ok && event->Prompts_0->Ok_0@.len() > 0 ==> {
                &&& after.prompts == event->Prompts_0->Ok_0@
                &&& !waits_for_prompts(after.stage)
            }
        }),
{
    reveal(next);
}

/// Some prompt failed before the event `n` comes.
pub open spec fn some_prompt_failed(start: RunState, events: Seq<(Event, u64)>, n: int) -> bool {
    exists|j: int| 0 <= j < n && #[trigger] prompt_fails(start, events, j)
}

proof fn failures_are_counted(start: RunState, events: Seq<(Event, u64)>, n: int)
    requires
        is_run(start, events),
        0 <= n <= events.len(),
    ensures
        state_at(start, events, n).had_error <==> some_prompt_failed(start, events, n),
    decreases n,
{
    if n > 0 {
        let i = n - 1;
        failures_are_counted(start, events, i);
        let s = state_at(start, events, i);
        assert(answers(s.stage, events[i].0));
        failure_is_noted(s, events[i].0, events[i].1);
        running_asks_for_current(start, events, i);
        stage_fits_what_was_asked(start, events, i);
        if some_prompt_failed(start, events, i) {
            let j = choose|j: int| 0 <= j < i && #[trigger] prompt_fails(start, events, j);
            assert(0 <= j < n && prompt_fails(start, events, j));
        }
        if prompt_fails(start, events, i) {
            assert(some_prompt_failed(start, events, n));
        }
        if some_prompt_failed(start, events, n) && !prompt_fails(start, events, i) {
            let j = choose|j: int| 0 <= j < n && #[trigger] prompt_fails(start, events, j);
            assert(0 <= j < i && prompt_fails(start, events, j));
        }
    }
}

proof fn failure_is_noted(s: RunState, event: Event, elapsed: u64)
    requires
        answers(s.stage, event),
    ensures
        next(s, event, elapsed).0.had_error == (s.had_error || s.stage == Stage::Running
            && event->PromptRan_0 is Err || s.stage == Stage::Storing && event->Saved_0 is Err),
{
    reveal(next);
}

/// All prompts are run, in the order of the list: when one is done with, for good or bad, the next
/// is run. After the last, the commit is recorded if no prompt failed, and else only that the
/// repository was checked.
pub proof fn prompt_is_followed_by_the_next(
    start: RunState,
    events: Seq<(Event, u64)>,
    j: int,
    i: int,
    prompts: Vec<Prompt>,
    place: int,
)
    requires
        is_run(start, events),
        0 <= j < i < events.len(),
        events[j].0 == Event::Prompts(Ok(prompts)),
        ends_prompt(start, events, i, place),
    ensures
        ({
            let action = action_at(start, events, i);
            if place + 1 < prompts@.len() {
                action == RunAction::RunPrompt(place + 1)
            } else if some_prompt_failed(start, events, i + 1) {
                action == RunAction::UpdateLastChecked(start.repo_id)
            } else {
                action is UpdateLastCommit && action->UpdateLastCommit_0 == start.repo_id
            }
        }),
{
    let s = state_at(start, events, i);
    assert(answers(s.stage, events[i].0));
    stage_fits_what_was_asked(start, events, i);
    failures_are_counted(start, events, i + 1);
    runs_stay_consistent(start, events, i);
    no_prompts_no_steps(start, events, j, i, prompts);
    loaded_prompts_stay(start, events, j, i);
    done_prompt_leads_on(s, events[i].0, events[i].1);
}

/// Without prompts a run is over.
proof fn no_prompts_no_steps(
    start: RunState,
    events: Seq<(Event, u64)>,
    j: int,
    i: int,
    prompts: Vec<Prompt>,
)
    requires
        is_run(start, events),
        0 <= j < i < events.len(),
        events[j].0 == Event::Prompts(Ok(prompts)),
    ensures
        prompts@.len() > 0,
{
    let s = state_at(start, events, j);
    assert(answers(s.stage, events[j].0));
    assert(answers(state_at(start, events, j + 1).stage, events[j + 1].0));
    if prompts@.len() == 0 {
        empty_list_ends_the_run(s, events[j].0, events[j].1);
    }
}

proof fn empty_list_ends_the_run(s: RunState, event: Event, elapsed: u64)
    requires
        answers(s.stage, event),
        event is Prompts,
        event->Prompts_0 is Ok,
        event->Prompts_0->Ok_0@.len() == 0,
    ensures
        next(s, event, elapsed).0.stage == Stage::Finished,
        next(s, event, elapsed).1 == RunAction::Finish(Ok(())),
{
    reveal(next);
}

proof fn done_prompt_leads_on(s: RunState, event: Event, elapsed: u64)
    requires
        answers(s.stage, event),
        s.stage == Stage::Running && event->PromptRan_0 is Err || s.stage == Stage::Storing,
    ensures
        ({
            let (after, action) = next(s, event, elapsed);
            if s.current + 1 < s.prompts.len() {
                action == RunAction::RunPrompt(s.current + 1)
            } else if after.had_error {
                action == RunAction::UpdateLastChecked(s.repo_id)
            } else {
                action is UpdateLastCommit && action->UpdateLastCommit_0 == s.repo_id
            }
        }),
{
    reveal(next);
}

/// The event loaded a repository with the given URL.
pub open spec fn loads_from(event: Event, url: GitHubRepoUrl) -> bool {
    event is Repo && event->Repo_0 is Ok && event->Repo_0->Ok_0 is Some
        && event->Repo_0->Ok_0->Some_0.url == url
}

/// What a step speaks of was reported before: repository, commit and review are those that were
/// loaded, fetched and created. Results are told as they were loaded.
pub proof fn steps_speak_of_what_was_reported(start: RunState, events: Seq<(Event, u64)>, i: int)
    requires
        is_run(start, events),
        0 <= i < events.len(),
    ensures
        match action_at(start, events, i) {
            RunAction::LoadRepo(_) => false,
            RunAction::FetchClone(url) => loads_from(events[i].0, url),
            RunAction::LoadPrompts(repo_id) => repo_id == start.repo_id && asked(start, events, i)
                is FetchClone,
            RunAction::CreateReview(repo_id, sha, trigger) => {
                &&& repo_id == start.repo_id
                &&& exists|j: int| 0 <= j < i && fetches((#[trigger] events[j]).0, sha)
                &&& trigger == ReviewTrigger::Manual <==> start.force
                &&& trigger == ReviewTrigger::Scheduled <==> !start.force
            },
            RunAction::MarkInProgress(review_id) => creates(events[i].0, review_id),
            RunAction::ReadContents(url) => {
                &&& asked(start, events, i) is MarkInProgress
                &&& exists|j: int| 0 <= j < i && loads_from((#[trigger] events[j]).0, url)
            },
            RunAction::RunPrompt(place) => {
                ||| place == 0 && asked(start, events, i) is ReadContents && events[i].0 is Contents
                ||| ends_prompt(start, events, i, place - 1)
            },
            RunAction::StoreResult(place, output) => {
                &&& asked(start, events, i) == RunAction::RunPrompt(place)
                &&& events[i].0 == Event::PromptRan(Ok(output))
            },
            RunAction::UpdateLastChecked(repo_id) => repo_id == start.repo_id,
            RunAction::UpdateLastCommit(repo_id, sha) => {
                &&& repo_id == start.repo_id
                &&& exists|j: int| 0 <= j < i && fetches((#[trigger] events[j]).0, sha)
            },
            RunAction::MarkFailed(review_id, _) => exists|j: int|
                0 <= j < i && creates((#[trigger] events[j]).0, review_id),
            RunAction::MarkCompleted(review_id, _) => exists|j: int|
                0 <= j < i && creates((#[trigger] events[j]).0, review_id),
            RunAction::LoadResults(review_id) => exists|j: int|
                0 <= j < i && creates((#[trigger] events[j]).0, review_id),
            RunAction::Broadcast(review_id, results) => {
                &&& asked(start, events, i) is LoadResults
                &&& events[i].0 is Results && events[i].0->Results_0@ == results
                &&& exists|j: int| 0 <= j < i && creates((#[trigger] events[j]).0, review_id)
            },
            RunAction::Finish(_) => true,
        },
{
    let s = state_at(start, events, i);
    let event = events[i].0;
    assert(answers(s.stage, event));
    runs_stay_consistent(start, events, i);
    what_is_known_was_reported(start, events, i);
    stage_fits_what_was_asked(start, events, i);
    running_asks_for_current(start, events, i);
    loading_asks_for_results(start, events, i);
    step_speaks_of_what_is_known(s, event, events[i].1);
    if s.repo is Some {
        let j = choose|j: int| 0 <= j < i && loads((#[trigger] events[j]).0, s.repo->Some_0);
        assert(loads_from(events[j].0, s.repo->Some_0.url));
    }
}

proof fn loading_asks_for_results(start: RunState, events: Seq<(Event, u64)>, i: int)
    requires
        is_run(start, events),
        0 <= i <= events.len(),
    ensures
        ({
            let stage = state_at(start, events, i).stage;
            stage == Stage::FailedLoading || stage == Stage::CompletedLoading || stage
                == Stage::CleanupLoading ==> asked(start, events, i) is LoadResults
        }),
{
    stage_fits_what_was_asked(start, events, i);
}

proof fn step_speaks_of_what_is_known(s: RunState, event: Event, elapsed: u64)
    requires
        is_consistent(s),
        answers(s.stage, event),
    ensures
        match next(s, event, elapsed).1 {
            RunAction::LoadRepo(_) => false,
            RunAction::FetchClone(url) => loads_from(event, url),
            RunAction::LoadPrompts(repo_id) => repo_id == s.repo_id && s.stage == Stage::Fetching,
            RunAction::CreateReview(repo_id, sha, trigger) => {
                &&& repo_id == s.repo_id
                &&& s.sha == Some(sha)
                &&& trigger == ReviewTrigger::Manual <==> s.force
                &&& trigger == ReviewTrigger::Scheduled <==> !s.force
            },
            RunAction::MarkInProgress(review_id) => creates(event, review_id),
            RunAction::ReadContents(url) => s.stage == Stage::Starting && s.repo is Some
                && s.repo->Some_0.url == url,
            RunAction::RunPrompt(place) => {
                ||| place == 0 && s.stage == Stage::Reading && event is Contents
                ||| s.current == place - 1 && (s.stage == Stage::Storing || s.stage
                    == Stage::Running && event is PromptRan && event->PromptRan_0 is Err)
            },
            RunAction::StoreResult(place, output) => s.stage == Stage::Running && s.current == place
                && event == Event::PromptRan(Ok(output)),
            RunAction::UpdateLastChecked(repo_id) => repo_id == s.repo_id,
            RunAction::UpdateLastCommit(repo_id, sha) => repo_id == s.repo_id && s.sha == Some(sha),
            RunAction::MarkFailed(review_id, _) => s.review_id == Some(review_id),
            RunAction::MarkCompleted(review_id, _) => s.review_id == Some(review_id),
            RunAction::LoadResults(review_id) => s.review_id == Some(review_id),
            RunAction::Broadcast(review_id, results) => {
                &&& s.stage == Stage::FailedLoading || s.stage == Stage::CompletedLoading || s.stage
                    == Stage::CleanupLoading
                &&& event is Results && event->Results_0@ == results
                &&& s.review_id == Some(review_id)
            },
            RunAction::Finish(_) => true,
        },
{
    reveal(next);
}

/// A commit that was already reviewed is only noted, unless the review is forced; any other commit
/// is reviewed.
pub proof fn only_new_commits_are_reviewed(
    start: RunState,
    events: Seq<(Event, u64)>,
    j: int,
    i: int,
    repo: Repo,
    sha: Seq<char>,
)
    requires
        is_run(start, events),
        0 <= j < i < events.len(),
        loads(events[j].0, repo),
        fetches(events[i].0, sha),
    ensures
        action_at(start, events, i) == if !start.force && repo.last_commit_sha is Some
            && repo.last_commit_sha->Some_0@ == sha {
            RunAction::UpdateLastChecked(start.repo_id)
        } else {
            RunAction::LoadPrompts(start.repo_id)
        },
{
    let s = state_at(start, events, i);
    assert(answers(s.stage, events[i].0));
    assert(answers(state_at(start, events, j).stage, events[j].0));
    runs_stay_consistent(start, events, i);
    loading_sets_the_repo(state_at(start, events, j), events[j].0, events[j].1, repo);
    what_is_known_stays(start, events, j + 1, i);
    fetched_commit_decides(s, events[i].0, events[i].1, sha);
}

proof fn loading_sets_the_repo(s: RunState, event: Event, elapsed: u64, repo: Repo)
    requires
        answers(s.stage, event),
        loads(event, repo),
    ensures
        next(s, event, elapsed).0.repo == Some(repo),
{
    reveal(next);
}

proof fn fetched_commit_decides(s: RunState, event: Event, elapsed: u64, sha: Seq<char>)
    requires
        answers(s.stage, event),
        s.repo is Some,
        fetches(event, sha),
    ensures
        next(s, event, elapsed).1 == if !s.force && s.repo->Some_0.last_commit_sha is Some
            && s.repo->Some_0.last_commit_sha->Some_0@ == sha {
            RunAction::UpdateLastChecked(s.repo_id)
        } else {
            RunAction::LoadPrompts(s.repo_id)
        },
{
    reveal(next);
}

/// The event reports an error with the given text.
pub open spec fn reports_error(event: Event, error: Seq<char>) -> bool {
    match event {
        Event::Repo(Err(e)) => e@ == error,
        Event::Fetched(Err(e)) => e@ == error,
        Event::Prompts(Err(e)) => e@ == error,
        Event::Created(Err(e)) => e@ == error,
        Event::Contents(Err(e)) => e@ == error,
        Event::Saved(Err(e)) => e@ == error,
        _ => false,
    }
}

/// Before the review is in progress, whatever goes wrong ends the run with what it says. A missing
/// repository ends it so too, and a repository without enabled prompts ends it well.
pub proof fn early_errors_end_the_run(
    start: RunState,
    events: Seq<(Event, u64)>,
    i: int,
    error: Seq<char>,
)
    requires
        is_run(start, events),
        0 <= i < events.len(),
    ensures
        ({
            let step = asked(start, events, i);
            let action = action_at(start, events, i);
            &&& reports_error(events[i].0, error) && (step is LoadRepo || step is FetchClone || step
                is LoadPrompts || step is CreateReview || step is MarkInProgress) ==> action
                == RunAction::Finish(Err(error))
            &&& events[i].0 == Event::Repo(Ok(None)) ==> action == RunAction::Finish(
                Err("Repo not found"@),
            )
            &&& step is LoadPrompts && events[i].0 is Prompts && events[i].0->Prompts_0 is Ok ==> (
            action == RunAction::Finish(Ok(())) <==> events[i].0->Prompts_0->Ok_0@.len() == 0) && (
            action is CreateReview <==> events[i].0->Prompts_0->Ok_0@.len() > 0)
        }),
{
    let s = state_at(start, events, i);
    assert(answers(s.stage, events[i].0));
    stage_fits_what_was_asked(start, events, i);
    early_error_ends(s, events[i].0, events[i].1, error);
}

proof fn early_error_ends(s: RunState, event: Event, elapsed: u64, error: Seq<char>)
    requires
        answers(s.stage, event),
    ensures
        ({
            let action = next(s, event, elapsed).1;
            &&& reports_error(event, error) && (s.stage == Stage::LoadingRepo || s.stage
                == Stage::Fetching || s.stage == Stage::LoadingPrompts || s.stage == Stage::Creating
                || s.stage == Stage::Starting) ==> action == RunAction::Finish(Err(error))
            &&& event == Event::Repo(Ok(None)) ==> action == RunAction::Finish(
                Err("Repo not found"@),
            )
            &&& s.stage == Stage::LoadingPrompts && event->Prompts_0 is Ok ==> (action
                == RunAction::Finish(Ok(())) <==> event->Prompts_0->Ok_0@.len() == 0) && (action
                is CreateReview <==> event->Prompts_0->Ok_0@.len() > 0)
        }),
{
    reveal(next);
}

/// A repository whose commit was already reviewed is only noted as checked, and then the run is
/// over.
pub proof fn unchanged_repo_is_only_checked(
    start: RunState,
    events: Seq<(Event, u64)>,
    i: int,
    error: Seq<char>,
)
    requires
        is_run(start, events),
        1 <= i < events.len(),
        asked(start, events, i - 1) is FetchClone,
        asked(start, events, i) is UpdateLastChecked,
    ensures
        is_saved(events[i].0) ==> action_at(start, events, i) == RunAction::Finish(Ok(())),
        reports_error(events[i].0, error) ==> action_at(start, events, i) == RunAction::Finish(
            Err(error),
        ),
{
    let before = state_at(start, events, i - 1);
    assert(answers(before.stage, events[i - 1].0));
    stage_fits_what_was_asked(start, events, i - 1);
    let s = state_at(start, events, i);
    assert(answers(s.stage, events[i].0));
    checked_repo_ends_the_run(before, events[i - 1].0, events[i - 1].1);
    note_of_no_change_is_last(s, events[i].0, events[i].1, error);
}

proof fn checked_repo_ends_the_run(s: RunState, event: Event, elapsed: u64)
    requires
        answers(s.stage, event),
        s.stage == Stage::Fetching,
    ensures
        next(s, event, elapsed).1 is UpdateLastChecked ==> next(s, event, elapsed).0.stage
            == Stage::RecordingNoChange,
{
    reveal(next);
}

proof fn note_of_no_change_is_last(s: RunState, event: Event, elapsed: u64, error: Seq<char>)
    requires
        answers(s.stage, event),
        s.stage == Stage::RecordingNoChange,
    ensures
        is_saved(event) ==> next(s, event, elapsed).1 == RunAction::Finish(Ok(())),
        reports_error(event, error) ==> next(s, event, elapsed).1 == RunAction::Finish(Err(error)),
{
    reveal(next);
}

/// After the last prompt the review ends well where none failed: the commit is recorded, then that
/// the repository was checked, then that the review is completed, with the seconds that had passed
/// when the last prompt was done; then the results are loaded and told, and the run ends well.
pub proof fn success_is_recorded(start: RunState, events: Seq<(Event, u64)>, i: int)
    requires
        is_run(start, events),
        0 <= i < events.len(),
        action_at(start, events, i) is UpdateLastCommit,
    ensures
        i + 1 < events.len() && is_saved(events[i + 1].0) ==> {
            &&& action_at(start, events, i + 1) == RunAction::UpdateLastChecked(start.repo_id)
            &&& i + 2 < events.len() && is_saved(events[i + 2].0) ==> {
                let done = action_at(start, events, i + 2);
                &&& done is MarkCompleted && done->MarkCompleted_1 == events[i].1 as u32
                &&& i + 3 < events.len() && is_saved(events[i + 3].0) ==> {
                    &&& action_at(start, events, i + 3) == RunAction::LoadResults(
                        done->MarkCompleted_0,
                    )
                    &&& i + 4 < events.len() ==> {
                        &&& action_at(start, events, i + 4) is Broadcast
                        &&& i + 5 < events.len() ==> action_at(start, events, i + 5)
                            == RunAction::Finish(Ok(()))
                    }
                }
            }
        },
{
    let s0 = state_at(start, events, i);
    assert(answers(s0.stage, events[i].0));
    runs_stay_consistent(start, events, i);
    commit_is_next(s0, events[i].0, events[i].1);
    if i + 1 < events.len() && is_saved(events[i + 1].0) {
        let s1 = state_at(start, events, i + 1);
        assert(answers(s1.stage, events[i + 1].0));
        success_goes_on(s1, events[i + 1].0, events[i + 1].1);
        if i + 2 < events.len() && is_saved(events[i + 2].0) {
            let s2 = state_at(start, events, i + 2);
            assert(answers(s2.stage, events[i + 2].0));
            success_goes_on(s2, events[i + 2].0, events[i + 2].1);
            if i + 3 < events.len() && is_saved(events[i + 3].0) {
                let s3 = state_at(start, events, i + 3);
                assert(answers(s3.stage, events[i + 3].0));
                success_goes_on(s3, events[i + 3].0, events[i + 3].1);
                if i + 4 < events.len() {
                    let s4 = state_at(start, events, i + 4);
                    assert(answers(s4.stage, events[i + 4].0));
                    success_goes_on(s4, events[i + 4].0, events[i + 4].1);
                    if i + 5 < events.len() {
                        let s5 = state_at(start, events, i + 5);
                        assert(answers(s5.stage, events[i + 5].0));
                        success_goes_on(s5, events[i + 5].0, events[i + 5].1);
                    }
                }
            }
        }
    }
}

proof fn commit_is_next(s: RunState, event: Event, elapsed: u64)
    requires
        answers(s.stage, event),
        next(s, event, elapsed).1 is UpdateLastCommit,
    ensures
        next(s, event, elapsed).0.stage == Stage::SavingCommit,
        next(s, event, elapsed).0.duration == elapsed,
        next(s, event, elapsed).0.repo_id == s.repo_id,
{
    reveal(next);
}

proof fn success_goes_on(s: RunState, event: Event, elapsed: u64)
    requires
        answers(s.stage, event),
    ensures
        ({
            let (after, action) = next(s, event, elapsed);
            &&& s.stage == Stage::SavingCommit && is_saved(event) ==> after == (RunState {
                stage: Stage::SavingCheck,
                ..s
            }) && action == RunAction::UpdateLastChecked(s.repo_id)
            &&& s.stage == Stage::SavingCheck && is_saved(event) ==> after == (RunState {
                stage: Stage::Completing,
                ..s
            }) && action == RunAction::MarkCompleted(s.review_id->Some_0, s.duration as u32)
            &&& s.stage == Stage::Completing && is_saved(event) ==> after == (RunState {
                stage: Stage::CompletedLoading,
                ..s
            }) && action == RunAction::LoadResults(s.review_id->Some_0)
            &&& s.stage == Stage::CompletedLoading ==> after.stage == Stage::CompletedSending
                && action is Broadcast
            &&& s.stage == Stage::CompletedSending ==> action == RunAction::Finish(Ok(()))
        }),
{
    reveal(next);
}

/// After the last prompt the review fails where some prompt failed: that the repository was checked
/// is recorded first, and whatever comes of that, the review is marked as failed for that reason;
/// then the results are loaded and told, and the run ends with an error that names the review.
pub proof fn failure_is_recorded(
    start: RunState,
    events: Seq<(Event, u64)>,
    i: int,
    place: int,
)
    requires
        is_run(start, events),
        0 <= i < events.len(),
        ends_prompt(start, events, i, place),
        action_at(start, events, i) is UpdateLastChecked,
    ensures
        i + 1 < events.len() ==> {
            let failed = action_at(start, events, i + 1);
            &&& failed is MarkFailed && failed->MarkFailed_1 == "Some prompts failed"@
            &&& i + 2 < events.len() && is_saved(events[i + 2].0) ==> {
                &&& action_at(start, events, i + 2) == RunAction::LoadResults(failed->MarkFailed_0)
                &&& i + 3 < events.len() ==> {
                    &&& action_at(start, events, i + 3) is Broadcast
                    &&& i + 4 < events.len() ==> action_at(start, events, i + 4)
                        == RunAction::Finish(
                        Err(
                            "Review failed: some prompts failed (see review "@ + signed_decimal(
                                failed->MarkFailed_0.0 as int,
                            ) + " for details)"@,
                        ),
                    )
                }
            }
        },
{
    let s0 = state_at(start, events, i);
    assert(answers(s0.stage, events[i].0));
    stage_fits_what_was_asked(start, events, i);
    failed_check_is_next(s0, events[i].0, events[i].1);
    if i + 1 < events.len() {
        let s1 = state_at(start, events, i + 1);
        assert(answers(s1.stage, events[i + 1].0));
        failure_goes_on(s1, events[i + 1].0, events[i + 1].1);
        if i + 2 < events.len() && is_saved(events[i + 2].0) {
            let s2 = state_at(start, events, i + 2);
            assert(answers(s2.stage, events[i + 2].0));
            failure_goes_on(s2, events[i + 2].0, events[i + 2].1);
            if i + 3 < events.len() {
                let s3 = state_at(start, events, i + 3);
                assert(answers(s3.stage, events[i + 3].0));
                failure_goes_on(s3, events[i + 3].0, events[i + 3].1);
                if i + 4 < events.len() {
                    let s4 = state_at(start, events, i + 4);
                    assert(answers(s4.stage, events[i + 4].0));
                    failure_goes_on(s4, events[i + 4].0, events[i + 4].1);
                }
            }
        }
    }
}

proof fn failed_check_is_next(s: RunState, event: Event, elapsed: u64)
    requires
        answers(s.stage, event),
        s.stage == Stage::Running || s.stage == Stage::Storing,
        next(s, event, elapsed).1 is UpdateLastChecked,
    ensures
        next(s, event, elapsed).0.stage == Stage::FailedChecking,
{
    reveal(next);
}

proof fn failure_goes_on(s: RunState, event: Event, elapsed: u64)
    requires
        answers(s.stage, event),
    ensures
        ({
            let (after, action) = next(s, event, elapsed);
            let review_id = s.review_id->Some_0;
            &&& s.stage == Stage::FailedChecking ==> after == (RunState {
                stage: Stage::FailedMarking,
                ..s
            }) && action == RunAction::MarkFailed(review_id, "Some prompts failed"@)
            &&& s.stage == Stage::FailedMarking && is_saved(event) ==> after == (RunState {
                stage: Stage::FailedLoading,
                ..s
            }) && action == RunAction::LoadResults(review_id)
            &&& s.stage == Stage::FailedLoading ==> after == (RunState {
                stage: Stage::FailedSending,
                ..s
            }) && action is Broadcast
            &&& s.stage == Stage::FailedSending ==> action == RunAction::Finish(
                Err(
                    "Review failed: some prompts failed (see review "@ + signed_decimal(
                        review_id.0 as int,
                    ) + " for details)"@,
                ),
            )
        }),
{
    reveal(next);
}

/// What goes wrong while the review is in progress, other than a prompt, is cleaned up: that the
/// repository was checked is recorded, the review is marked as failed with what went wrong, and
/// after the results were told the run ends with the same error. Where it was the failure itself
/// that could not be recorded, the review is marked as interrupted.
pub proof fn errors_in_progress_are_cleaned_up(
    start: RunState,
    events: Seq<(Event, u64)>,
    i: int,
    place: int,
    error: Seq<char>,
)
    requires
        is_run(start, events),
        1 <= i,
        i + 4 < events.len(),
        reports_error(events[i].0, error),
        ({
            let step = asked(start, events, i);
            ||| step is ReadContents
            ||| step is UpdateLastCommit
            ||| step is UpdateLastChecked && asked(start, events, i - 1) is UpdateLastCommit
                && is_saved(events[i - 1].0)
            ||| step is MarkCompleted
            ||| step is MarkFailed && i >= 2 && ends_prompt(start, events, i - 2, place)
        }),
    ensures
        action_at(start, events, i) == RunAction::UpdateLastChecked(start.repo_id),
        action_at(start, events, i + 1) is MarkFailed,
        action_at(start, events, i + 1)->MarkFailed_1 == if asked(start, events, i) is MarkFailed {
            "Review interrupted: process error or early return"@
        } else {
            error
        },
        action_at(start, events, i + 2) == RunAction::LoadResults(
            action_at(start, events, i + 1)->MarkFailed_0,
        ),
        action_at(start, events, i + 3) is Broadcast,
        action_at(start, events, i + 4) == RunAction::Finish(Err(error)),
{
    let s0 = state_at(start, events, i);
    let before = state_at(start, events, i - 1);
    assert(answers(before.stage, events[i - 1].0));
    assert(answers(s0.stage, events[i].0));
    stage_fits_what_was_asked(start, events, i);
    stage_fits_what_was_asked(start, events, i - 1);
    runs_stay_consistent(start, events, i);
    commit_leads_to_check(before, events[i - 1].0, events[i - 1].1);
    if asked(start, events, i) is MarkFailed {
        let earlier = state_at(start, events, i - 2);
        assert(answers(earlier.stage, events[i - 2].0));
        stage_fits_what_was_asked(start, events, i - 2);
        last_prompt_does_not_clean_up(earlier, events[i - 2].0, events[i - 2].1);
        failure_goes_on(before, events[i - 1].0, events[i - 1].1);
        only_checks_lead_to_failure(before, events[i - 1].0, events[i - 1].1);
    }
    error_is_cleaned_up(s0, events[i].0, events[i].1, error);
    let s1 = state_at(start, events, i + 1);
    assert(answers(s1.stage, events[i + 1].0));
    cleanup_goes_on(s1, events[i + 1].0, events[i + 1].1);
    let s2 = state_at(start, events, i + 2);
    assert(answers(s2.stage, events[i + 2].0));
    cleanup_goes_on(s2, events[i + 2].0, events[i + 2].1);
    let s3 = state_at(start, events, i + 3);
    assert(answers(s3.stage, events[i + 3].0));
    cleanup_goes_on(s3, events[i + 3].0, events[i + 3].1);
    let s4 = state_at(start, events, i + 4);
    assert(answers(s4.stage, events[i + 4].0));
    cleanup_goes_on(s4, events[i + 4].0, events[i + 4].1);
}

proof fn last_prompt_does_not_clean_up(s: RunState, event: Event, elapsed: u64)
    requires
        answers(s.stage, event),
        s.stage == Stage::Running || s.stage == Stage::Storing,
    ensures
        next(s, event, elapsed).0.stage != Stage::CleanupChecking,
{
    reveal(next);
}

proof fn only_checks_lead_to_failure(s: RunState, event: Event, elapsed: u64)
    requires
        answers(s.stage, event),
        next(s, event, elapsed).1 is MarkFailed,
    ensures
        s.stage == Stage::FailedChecking || s.stage == Stage::CleanupChecking,
{
    reveal(next);
}

proof fn commit_leads_to_check(s: RunState, event: Event, elapsed: u64)
    requires
        answers(s.stage, event),
    ensures
        s.stage == Stage::SavingCommit && is_saved(event) ==> next(s, event, elapsed).0.stage
            == Stage::SavingCheck,
        s.stage == Stage::SavingCommit && !is_saved(event) ==> next(s, event, elapsed).0.stage
            == Stage::CleanupChecking,
{
    reveal(next);
}

proof fn error_is_cleaned_up(s: RunState, event: Event, elapsed: u64, error: Seq<char>)
    requires
        answers(s.stage, event),
        reports_error(event, error),
    ensures
        s.stage == Stage::Reading || s.stage == Stage::SavingCommit || s.stage == Stage::SavingCheck
            || s.stage == Stage::Completing ==> next(s, event, elapsed) == (
            RunState { stage: Stage::CleanupChecking, reason: error, outcome: error, ..s },
            RunAction::UpdateLastChecked(s.repo_id),
        ),
        s.stage == Stage::FailedMarking ==> next(s, event, elapsed) == (
            RunState {
                stage: Stage::CleanupChecking,
                reason: "Review interrupted: process error or early return"@,
                outcome: error,
                ..s
            },
            RunAction::UpdateLastChecked(s.repo_id),
        ),
        s.stage == Stage::CleanupMarking ==> next(s, event, elapsed).1 is LoadResults,
{
    reveal(next);
    if let Event::Contents(Err(e)) = event {
        assert(e@ == error);
    }
}

proof fn cleanup_goes_on(s: RunState, event: Event, elapsed: u64)
    requires
        answers(s.stage, event),
    ensures
        ({
            let (after, action) = next(s, event, elapsed);
            let review_id = s.review_id->Some_0;
            &&& s.stage == Stage::CleanupChecking ==> after == (RunState {
                stage: Stage::CleanupMarking,
                ..s
            }) && action == RunAction::MarkFailed(review_id, s.reason)
            &&& s.stage == Stage::CleanupMarking ==> after == (RunState {
                stage: Stage::CleanupLoading,
                ..s
            }) && action == RunAction::LoadResults(review_id)
            &&& s.stage == Stage::CleanupLoading ==> after == (RunState {
                stage: Stage::CleanupSending,
                ..s
            }) && action is Broadcast
            &&& s.stage == Stage::CleanupSending ==> action == RunAction::Finish(Err(s.outcome))
        }),
{
    reveal(next);
}

/// A step tells its caller everything: an action stands for one step only, with the same ids,
/// places, texts and results.
pub proof fn action_stands_for_one_step(action: Action, step: RunAction)
    requires
        stands_for(action, step),
    ensures
        match action {
            Action::LoadRepo(id) => step == RunAction::LoadRepo(id),
            Action::FetchClone(url) => step == RunAction::FetchClone(url),
            Action::LoadPrompts(id) => step == RunAction::LoadPrompts(id),
            Action::CreateReview(new_review) => step == RunAction::CreateReview(
                new_review.repo_id,
                new_review.commit_sha@,
                new_review.trigger,
            ),
            Action::MarkInProgress(id) => step == RunAction::MarkInProgress(id),
            Action::ReadContents(url) => step == RunAction::ReadContents(url),
            Action::RunPrompt(place) => step == RunAction::RunPrompt(place as int),
            Action::StoreResult(place, output) => step == RunAction::StoreResult(
                place as int,
                output,
            ),
            Action::UpdateLastChecked(id) => step == RunAction::UpdateLastChecked(id),
            Action::UpdateLastCommit(id, sha) => step == RunAction::UpdateLastCommit(id, sha@),
            Action::MarkFailed(id, reason) => step == RunAction::MarkFailed(id, reason@),
            Action::MarkCompleted(id, secs) => step == RunAction::MarkCompleted(id, secs),
            Action::LoadResults(id) => step == RunAction::LoadResults(id),
            Action::Broadcast(update) => update.kind is ReviewComplete && update.prompt_name@.len()
                == 0 && step == RunAction::Broadcast(
                update.review_id,
                update.kind->ReviewComplete_results@,
            ),
            Action::Finish(Ok(_)) => step is Finish && step->Finish_0 is Ok,
            Action::Finish(Err(e)) => step is Finish && step->Finish_0 is Err
                && step->Finish_0->Err_0 == e@,
        },
{
    if let Action::Finish(outcome) = action {
        assert(step is Finish);
    }
}

/// The event that reports the outcome of a step, and no other, is an answer to it.
pub proof fn each_stage_waits_for_one_kind(stage: Stage, event: Event)
    requires
        answers(stage, event),
    ensures
        event is Repo <==> stage == Stage::LoadingRepo,
        event is Fetched <==> stage == Stage::Fetching,
        event is Prompts <==> stage == Stage::LoadingPrompts,
        event is Created <==> stage == Stage::Creating,
        event is Contents <==> stage == Stage::Reading,
        event is PromptRan <==> stage == Stage::Running,
        event is Results <==> stage == Stage::FailedLoading || stage == Stage::CompletedLoading
            || stage == Stage::CleanupLoading,
        event is Sent <==> stage == Stage::FailedSending || stage == Stage::CompletedSending
            || stage == Stage::CleanupSending,
        event is Saved <==> stage == Stage::RecordingNoChange || stage == Stage::Starting || stage
            == Stage::Storing || stage == Stage::FailedChecking || stage == Stage::FailedMarking
            || stage == Stage::SavingCommit || stage == Stage::SavingCheck || stage
            == Stage::Completing || stage == Stage::CleanupChecking || stage
            == Stage::CleanupMarking,
        stage != Stage::Finished,
{
}

/// Whatever comes of a step is an answer to it, be it good or bad: no report of the right kind is
/// turned away.
pub proof fn every_report_is_an_answer(stage: Stage, event: Event, other: Event)
    requires
        answers(stage, event),
        event is Repo && other is Repo || event is Fetched && other is Fetched || event is Prompts
            && other is Prompts || event is Created && other is Created || event is Contents && other
            is Contents || event is PromptRan && other is PromptRan || event is Saved && other
            is Saved || event is Results && other is Results || event is Sent && other is Sent,
    ensures
        answers(stage, other),
{
}

/// A run that is not over waits for something.
pub proof fn every_stage_waits_for_something(stage: Stage) -> (event: Event)
    requires
        stage != Stage::Finished,
    ensures
        answers(stage, event),
{
    match stage {
        Stage::LoadingRepo => Event::Repo(Ok(None)),
        Stage::Fetching => Event::Fetched(arbitrary()),
        Stage::LoadingPrompts => Event::Prompts(arbitrary()),
        Stage::Creating => Event::Created(arbitrary()),
        Stage::Reading => Event::Contents(arbitrary()),
        Stage::Running => Event::PromptRan(arbitrary()),
        Stage::FailedLoading | Stage::CompletedLoading | Stage::CleanupLoading => Event::Results(
            arbitrary(),
        ),
        Stage::FailedSending | Stage::CompletedSending | Stage::CleanupSending => Event::Sent,
        _ => Event::Saved(Ok(())),
    }
}

/// The files are cut to what the context window of the model leaves, once the longest answer and
/// the prompt are taken off it.
pub proof fn chunks_leave_room_for_answer(
    s: RunState,
    event: Event,
    elapsed: u64,
    answer: int,
    overhead: int,
)
    requires
        s.stage == Stage::Reading,
        event is Contents,
        event->Contents_0 is Ok,
        answer == if s.model_context < 64_000 {
            s.model_context as int / 4
        } else {
            16_000
        },
        overhead == if s.model_context < 100_000 {
            s.model_context as int / 10
        } else {
            10_000
        },
    ensures
        next(s, event, elapsed).0.chunks == chunks_under(
            event->Contents_0->Ok_0.files@,
            ChunkingStrategy::ByFile {
                max_tokens_per_chunk: (s.model_context - answer - overhead) as u32,
            },
        ),
{
    reveal(next);
}

} // verus!
