//! Panopticon: scheduled LLM code reviews of GitHub repositories.

use vstd::prelude::*;

use crate::domain::ids::ReviewId;
use crate::domain::review::{clone_results, PromptResult};

pub mod api;
pub mod config;
pub mod db;
pub mod domain;
pub mod github;
pub mod llm;
pub mod scheduler;
pub mod static_files;
pub mod text;
pub mod time;

verus! {

/// Type of update event for SSE streaming.
#[derive(Debug)]
pub enum ReviewUpdateKind {
    /// A chunk of streaming text from the LLM.
    Chunk {
        /// The text.
        text: String,
    },
    /// A single prompt has completed (but review may continue with more prompts).
    PromptComplete,
    /// The entire review has completed (all prompts done) or failed.
    ReviewComplete {
        /// The results of the prompts that were run.
        results: Vec<PromptResult>,
    },
}

/// Broadcast channel message for streaming review updates to connected clients.
#[derive(Debug)]
pub struct ReviewUpdate {
    /// The review that the update is about.
    pub review_id: ReviewId,
    /// The prompt that the update is about, empty where it is about the whole review.
    pub prompt_name: String,
    /// What happened.
    pub kind: ReviewUpdateKind,
}

impl ReviewUpdateKind {
    /// Both updates say the same.
    pub open spec fn says(self, other: ReviewUpdateKind) -> bool {
        match (self, other) {
            (ReviewUpdateKind::Chunk { text: a }, ReviewUpdateKind::Chunk { text: b }) => a == b,
            (ReviewUpdateKind::PromptComplete, ReviewUpdateKind::PromptComplete) => true,
            (
                ReviewUpdateKind::ReviewComplete { results: a },
                ReviewUpdateKind::ReviewComplete { results: b },
            ) => a@ == b@,
            _ => false,
        }
    }
}

impl Clone for ReviewUpdateKind {
    fn clone(&self) -> (r: ReviewUpdateKind)
        ensures
            r.says(*self),
    {
        match self {
            ReviewUpdateKind::Chunk { text } => ReviewUpdateKind::Chunk { text: text.clone() },
            ReviewUpdateKind::PromptComplete => ReviewUpdateKind::PromptComplete,
            ReviewUpdateKind::ReviewComplete { results } => ReviewUpdateKind::ReviewComplete {
                results: clone_results(results),
            },
        }
    }
}

impl Clone for ReviewUpdate {
    fn clone(&self) -> (r: ReviewUpdate)
        ensures
            r.review_id == self.review_id,
            r.prompt_name == self.prompt_name,
            r.kind.says(self.kind),
    {
        ReviewUpdate {
            review_id: self.review_id,
            prompt_name: self.prompt_name.clone(),
            kind: self.kind.clone(),
        }
    }
}

/// Updates that say the same are of the same kind, with the same text and the same results.
pub proof fn same_updates_are_alike(a: ReviewUpdateKind, b: ReviewUpdateKind)
    requires
        a.says(b),
    ensures
        a is Chunk <==> b is Chunk,
        a is PromptComplete <==> b is PromptComplete,
        a is ReviewComplete <==> b is ReviewComplete,
        a is Chunk ==> a->text == b->text,
        a is ReviewComplete ==> a->results@ == b->results@,
{
}

} // verus!
