//! Reviews: what triggered them, where they stand, and what came out.

use vstd::prelude::*;

use crate::domain::ids::{PromptId, RepoId, ReviewId};
use crate::domain::repo::CommitSha;
use crate::domain::untrusted::UntrustedString;
use crate::text::same_text;
use crate::time::Timestamp;

verus! {

/// How the review was triggered.
#[derive(Debug, Clone, Copy, PartialEq, Eq, Structural)]
pub enum ReviewTrigger {
    /// Triggered by the daily scheduler.
    Scheduled,
    /// Manually triggered by the user.
    Manual,
}

impl ReviewTrigger {
    /// The text that stands for the trigger.
    pub open spec fn text(self) -> Seq<char> {
        match self {
            ReviewTrigger::Scheduled => "scheduled"@,
            ReviewTrigger::Manual => "manual"@,
        }
    }

    /// The trigger that a text stands for.
    pub open spec fn of_text(s: Seq<char>) -> Option<ReviewTrigger> {
        if s == "scheduled"@ {
            Some(ReviewTrigger::Scheduled)
        } else if s == "manual"@ {
            Some(ReviewTrigger::Manual)
        } else {
            None
        }
    }

    /// The text that stands for the trigger.
    pub fn as_str(&self) -> (r: &'static str)
        ensures
            r@ == self.text(),
    {
        match self {
            ReviewTrigger::Scheduled => "scheduled",
            ReviewTrigger::Manual => "manual",
        }
    }

    /// The trigger that a text stands for.
    pub fn from_str(s: &str) -> (r: Option<ReviewTrigger>)
        ensures
            r == ReviewTrigger::of_text(s@),
    {
        if same_text(s, "scheduled") {
            Some(ReviewTrigger::Scheduled)
        } else if same_text(s, "manual") {
            Some(ReviewTrigger::Manual)
        } else {
            None
        }
    }
}

/// Every trigger is read back from its own text, and only from it.
pub proof fn review_trigger_text_roundtrips(trigger: ReviewTrigger, s: Seq<char>)
    ensures
        ReviewTrigger::of_text(trigger.text()) == Some(trigger),
        ReviewTrigger::of_text(s) == Some(trigger) ==> s == trigger.text(),
{
    reveal_strlit("scheduled");
    reveal_strlit("manual");
    assert("scheduled"@[0] == 's');
    assert("manual"@[0] == 'm');
}

/// Where a review stands. Each state carries what is known in it.
#[derive(Debug)]
#[allow(inconsistent_fields)]
pub enum ReviewStatus {
    /// Created, not started.
    Pending,
    /// Running.
    InProgress {
        /// When the review started.
        started_at: Timestamp,
    },
    /// All prompts done.
    Completed {
        /// When the review started.
        started_at: Timestamp,
        /// When the review completed.
        completed_at: Timestamp,
        /// How long the review took.
        duration_secs: u32,
    },
    /// Given up.
    Failed {
        /// When the review started, if it did.
        started_at: Option<Timestamp>,
        /// When the review failed.
        failed_at: Timestamp,
        /// Why the review failed.
        error: String,
    },
}

impl ReviewStatus {
    /// The text that stands for the status.
    pub open spec fn text(self) -> Seq<char> {
        match self {
            ReviewStatus::Pending => "pending"@,
            ReviewStatus::InProgress { .. } => "in_progress"@,
            ReviewStatus::Completed { .. } => "completed"@,
            ReviewStatus::Failed { .. } => "failed"@,
        }
    }

    /// The review will not change any more.
    pub open spec fn terminal(self) -> bool {
        self is Completed || self is Failed
    }

    /// The text that stands for the status.
    pub fn status_str(&self) -> (r: &'static str)
        ensures
            r@ == self.text(),
    {
        match self {
            ReviewStatus::Pending => "pending",
            ReviewStatus::InProgress { .. } => "in_progress",
            ReviewStatus::Completed { .. } => "completed",
            ReviewStatus::Failed { .. } => "failed",
        }
    }

    /// Whether the review will not change any more.
    pub fn is_terminal(&self) -> (r: bool)
        ensures
            r == self.terminal(),
    {
        match self {
            ReviewStatus::Completed { .. } => true,
            ReviewStatus::Failed { .. } => true,
            _ => false,
        }
    }
}

impl Clone for ReviewStatus {
    fn clone(&self) -> (r: ReviewStatus)
        ensures
            r == *self,
    {
        match self {
            ReviewStatus::Pending => ReviewStatus::Pending,
            ReviewStatus::InProgress { started_at } => ReviewStatus::InProgress {
                started_at: *started_at,
            },
            ReviewStatus::Completed { started_at, completed_at, duration_secs } => {
                ReviewStatus::Completed {
                    started_at: *started_at,
                    completed_at: *completed_at,
                    duration_secs: *duration_secs,
                }
            },
            ReviewStatus::Failed { started_at, failed_at, error } => ReviewStatus::Failed {
                started_at: *started_at,
                failed_at: *failed_at,
                error: error.clone(),
            },
        }
    }
}

/// Structured output from the LLM for a single prompt.
#[derive(Debug)]
pub struct ReviewOutput {
    /// Internal reasoning (stored but not displayed by default).
    pub detailed_reasoning: UntrustedString,
    /// Flag indicating whether action is required.
    pub action_required: bool,
    /// User-facing comments in markdown format.
    pub user_visible_comments: UntrustedString,
}

impl Clone for ReviewOutput {
    fn clone(&self) -> (r: ReviewOutput)
        ensures
            r == *self,
    {
        ReviewOutput {
            detailed_reasoning: self.detailed_reasoning.clone(),
            action_required: self.action_required,
            user_visible_comments: self.user_visible_comments.clone(),
        }
    }
}

/// A single prompt's result within a review.
#[derive(Debug)]
pub struct PromptResult {
    /// The prompt that was run.
    pub prompt_id: PromptId,
    /// Its name at the time.
    pub prompt_name: String,
    /// What came out.
    pub output: ReviewOutput,
}

impl Clone for PromptResult {
    fn clone(&self) -> (r: PromptResult)
        ensures
            r == *self,
    {
        PromptResult {
            prompt_id: self.prompt_id,
            prompt_name: self.prompt_name.clone(),
            output: self.output.clone(),
        }
    }
}

/// A copy of a list of results.
pub fn clone_results(results: &Vec<PromptResult>) -> (r: Vec<PromptResult>)
    ensures
        r@ == results@,
{
    let mut out: Vec<PromptResult> = Vec::new();
    let mut i: usize = 0;
    while i < results.len()
        invariant
            i <= results@.len(),
            out@ == results@.take(i as int),
        decreases results.len() - i,
    {
        out.push(results[i].clone());
        assert(results@.take(i + 1) =~= results@.take(i as int).push(results@[i as int]));
        i += 1;
    }
    assert(results@.take(i as int) =~= results@);
    out
}

/// A review of a repository.
#[derive(Debug)]
pub struct Review {
    /// The review's id.
    pub id: ReviewId,
    /// The repository that is reviewed.
    pub repo_id: RepoId,
    /// The commit that is reviewed.
    pub commit_sha: CommitSha,
    /// How the review was triggered.
    pub trigger: ReviewTrigger,
    /// Where the review stands.
    pub status: ReviewStatus,
    /// What came out, prompt by prompt.
    pub results: Vec<PromptResult>,
    /// When the review was created.
    pub created_at: Timestamp,
}

/// Input for creating a new review.
#[derive(Debug)]
pub struct NewReview {
    /// The repository to review.
    pub repo_id: RepoId,
    /// The commit to review.
    pub commit_sha: CommitSha,
    /// How the review was triggered.
    pub trigger: ReviewTrigger,
}

/// The statuses have the texts that are stored and shown, and two of the four are final.
pub proof fn statuses_have_their_texts(status: ReviewStatus, trigger: ReviewTrigger)
    ensures
        status is Pending ==> status.text() == "pending"@ && !status.terminal(),
        status is InProgress ==> status.text() == "in_progress"@ && !status.terminal(),
        status is Completed ==> status.text() == "completed"@ && status.terminal(),
        status is Failed ==> status.text() == "failed"@ && status.terminal(),
        trigger is Scheduled ==> trigger.text() == "scheduled"@,
        trigger is Manual ==> trigger.text() == "manual"@,
{
}

} // verus!
