//! Reviews that end early are marked as failed.

use vstd::prelude::*;

use crate::domain::ids::{RepoId, ReviewId};
use crate::domain::job::clone_text;
use crate::domain::repo::option_text;
use crate::domain::review::PromptResult;
use crate::{ReviewUpdate, ReviewUpdateKind};

verus! {

/// What is recorded of a review that ended early for no known reason.
pub const INTERRUPTED: &'static str = "Review interrupted: process error or early return";

/// The message of a cleanup: the error that was recorded, else the generic one.
pub open spec fn cleanup_message(error_message: Option<String>) -> Seq<char> {
    match error_message {
        Some(error) => error@,
        None => INTERRUPTED@,
    }
}

/// Guard that ensures a review is marked as failed if dropped without being disarmed.
///
/// This prevents reviews from getting stuck in "in_progress" state when errors occur after
/// `mark_in_progress` is called. The guard should be created after marking a review as
/// in_progress, and disarmed only after successfully completing all operations.
///
/// On cleanup, `last_checked_at` of the repo is updated too, to prevent immediate rescheduling
/// after max retries are exhausted.
#[derive(Debug)]
pub struct ReviewCleanupGuard {
    /// The repository that is reviewed.
    pub repo_id: RepoId,
    /// The review.
    pub review_id: ReviewId,
    /// If true, the review has to be marked as failed when the guard goes away.
    /// Set to false when the review completes successfully.
    pub should_cleanup: bool,
    /// The error message to use if cleanup is needed.
    /// This preserves the actual error instead of using a generic message.
    pub error_message: Option<String>,
}

/// What a cleanup has to do, in this order: record that the repository was checked, mark the
/// review as failed with the error, and tell those who follow the review that it is over. No step
/// keeps the next from being taken.
#[derive(Debug)]
pub struct CleanupPlan {
    /// The repository that was checked.
    pub repo_id: RepoId,
    /// The review that failed.
    pub review_id: ReviewId,
    /// Why it failed.
    pub error: String,
}

impl ReviewCleanupGuard {
    /// A guard that is armed.
    pub fn new(repo_id: RepoId, review_id: ReviewId) -> (r: ReviewCleanupGuard)
        ensures
            r == (ReviewCleanupGuard {
                repo_id,
                review_id,
                should_cleanup: true,
                error_message: None,
            }),
    {
        ReviewCleanupGuard { repo_id, review_id, should_cleanup: true, error_message: None }
    }

    /// Sets the error message to use if cleanup is triggered.
    /// This allows preserving the actual error instead of a generic message.
    pub fn set_error(&mut self, error: &str)
        ensures
            option_text(final(self).error_message) == Some(error@),
            *final(self) == (ReviewCleanupGuard {
                error_message: final(self).error_message,
                ..*old(self)
            }),
    {
        self.error_message = Some(error.to_owned());
    }

    /// Captures the error of a result, if there is one, before it is propagated.
    pub fn check<T>(&mut self, result: Result<T, String>) -> (r: Result<T, String>)
        ensures
            r == result,
            match result {
                Ok(_) => *final(self) == *old(self),
                Err(e) => option_text(final(self).error_message) == Some(e@) && *final(self) == (
                ReviewCleanupGuard { error_message: final(self).error_message, ..*old(self) }),
            },
    {
        match &result {
            Ok(_) => {},
            Err(e) => {
                self.set_error(e.as_str());
            },
        }
        result
    }

    /// Disarms the guard - the review completed successfully, no cleanup needed.
    pub fn disarm(&mut self)
        ensures
            *final(self) == (ReviewCleanupGuard { should_cleanup: false, ..*old(self) }),
    {
        self.should_cleanup = false;
    }

    /// What has to be done when the guard goes away: nothing where it is disarmed.
    pub fn cleanup_plan(&self) -> (r: Option<CleanupPlan>)
        ensures
            match r {
                Some(plan) => self.should_cleanup && plan.repo_id == self.repo_id && plan.review_id
                    == self.review_id && plan.error@ == cleanup_message(self.error_message),
                None => !self.should_cleanup,
            },
    {
        if self.should_cleanup {
            // Use the actual error if set, otherwise fall back to generic message
            let error = match clone_text(&self.error_message) {
                Some(error) => error,
                None => INTERRUPTED.to_owned(),
            };
            Some(CleanupPlan { repo_id: self.repo_id, review_id: self.review_id, error })
        } else {
            None
        }
    }

    /// The message that tells those who follow the review that it is over.
    pub fn broadcast_complete(&self, results: Vec<PromptResult>) -> (r: ReviewUpdate)
        ensures
            is_review_complete(r, self.review_id, results),
    {
        review_complete(self.review_id, results)
    }
}

/// The message that a review is over, with its results.
pub open spec fn is_review_complete(
    update: ReviewUpdate,
    review_id: ReviewId,
    results: Vec<PromptResult>,
) -> bool {
    &&& update.review_id == review_id
    &&& update.prompt_name@ == Seq::<char>::empty()
    &&& update.kind == (ReviewUpdateKind::ReviewComplete { results })
}

/// The message that a review is over, with its results.
pub fn review_complete(review_id: ReviewId, results: Vec<PromptResult>) -> (r: ReviewUpdate)
    ensures
        is_review_complete(r, review_id, results),
{
    let prompt_name: String = String::new();
    assert(prompt_name@ =~= Seq::<char>::empty());
    ReviewUpdate { review_id, prompt_name, kind: ReviewUpdateKind::ReviewComplete { results } }
}

/// A cleanup records the error that was captured, and only without one a generic message.
pub proof fn cleanup_keeps_the_real_error(error: String)
    ensures
        cleanup_message(Some(error)) == error@,
        cleanup_message(None) == "Review interrupted: process error or early return"@,
{
}

/// The message that a review is over names the review and no prompt, and holds the results.
pub proof fn message_names_the_review(
    update: ReviewUpdate,
    review_id: ReviewId,
    results: Vec<PromptResult>,
)
    requires
        is_review_complete(update, review_id, results),
    ensures
        update.review_id == review_id,
        update.prompt_name@.len() == 0,
        update.kind is ReviewComplete,
        update.kind->ReviewComplete_results == results,
{
}

} // verus!
