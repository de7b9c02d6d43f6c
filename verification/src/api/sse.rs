//! Server-sent events that follow a review.

use vstd::prelude::*;

use crate::api::error::{is_database, is_not_found, ApiError};
use crate::db::reviews::{
    are_results_of, get_by_id, has_review, is_over_row, is_review_at, results_for, review_row_error,
    status_texts_differ,
};
use crate::db::Database;
use crate::domain::ids::ReviewId;
use crate::domain::review::PromptResult;
use crate::{ReviewUpdate, ReviewUpdateKind};

verus! {

/// How often a connection without events gets a sign of life, in seconds.
pub const KEEP_ALIVE_SECS: u64 = 15;

/// What that sign is.
pub const KEEP_ALIVE_TEXT: &'static str = "ping";

/// An event for a client.
#[derive(Debug)]
pub enum SseEvent {
    /// A chunk of text.
    Chunk {
        /// The prompt that is answered.
        prompt_name: String,
        /// The text.
        text: String,
    },
    /// A prompt is done.
    PromptComplete {
        /// The prompt.
        prompt_name: String,
    },
    /// The review is over.
    Complete {
        /// Its results.
        results: Vec<PromptResult>,
    },
}

/// How a client follows a review.
#[derive(Debug)]
pub enum StreamStart {
    /// The review is over: this event is all there is.
    Over(SseEvent),
    /// The updates of the review follow.
    Subscribe(ReviewId),
}

/// How a client follows a review: if the review is over, whether it completed or failed, the
/// results are sent immediately, else its updates are.
pub fn review_stream(db: &Database, id: i64) -> (r: Result<StreamStart, ApiError>)
    ensures
        match r {
            Ok(StreamStart::Over(event)) => exists|k: int| #[trigger]
                is_review_at(db.reviews@, ReviewId(id), k) && review_row_error(db.reviews@[k])
                    is None && is_over_row(db.reviews@[k]) && (
                event matches SseEvent::Complete { results } && are_results_of(
                    results@,
                    results_for(db.results@, ReviewId(id)),
                )),
            Ok(StreamStart::Subscribe(review_id)) => review_id == ReviewId(id) && exists|k: int|
             #[trigger]
                is_review_at(db.reviews@, ReviewId(id), k) && !is_over_row(db.reviews@[k])
                    && review_row_error(db.reviews@[k]) is None,
            Err(e) => if has_review(db.reviews@, ReviewId(id)) {
                exists|k: int| #[trigger]
                    is_review_at(db.reviews@, ReviewId(id), k) && review_row_error(db.reviews@[k])
                        is Some && is_database(e, review_row_error(db.reviews@[k])->Some_0)
            } else {
                is_not_found(e, "Review not found"@)
            },
        },
{
    let review_id = ReviewId::new(id);
    proof {
        status_texts_differ();
    }
    match get_by_id(&db.reviews, &db.results, review_id) {
        Ok(Some(review)) => if review.status.is_terminal() {
            Ok(StreamStart::Over(SseEvent::Complete { results: review.results }))
        } else {
            Ok(StreamStart::Subscribe(review_id))
        },
        Ok(None) => Err(ApiError::NotFound("Review not found".to_owned())),
        Err(e) => Err(ApiError::Database(e.to_owned())),
    }
}

/// The event that an update is for those who follow a review.
pub open spec fn event_for(update: ReviewUpdate, review_id: ReviewId) -> Option<SseEvent> {
    if update.review_id != review_id {
        None
    } else {
        Some(
            match update.kind {
                ReviewUpdateKind::Chunk { text } => SseEvent::Chunk {
                    prompt_name: update.prompt_name,
                    text,
                },
                ReviewUpdateKind::PromptComplete => SseEvent::PromptComplete {
                    prompt_name: update.prompt_name,
                },
                ReviewUpdateKind::ReviewComplete { results } => SseEvent::Complete { results },
            },
        )
    }
}

/// The event that an update is for those who follow a review. Updates of other reviews are none.
pub fn event_of(update: ReviewUpdate, review_id: ReviewId) -> (r: Option<SseEvent>)
    ensures
        r == if update.review_id == review_id {
            Some(
                match update.kind {
                    ReviewUpdateKind::Chunk { text } => SseEvent::Chunk {
                        prompt_name: update.prompt_name,
                        text,
                    },
                    ReviewUpdateKind::PromptComplete => SseEvent::PromptComplete {
                        prompt_name: update.prompt_name,
                    },
                    ReviewUpdateKind::ReviewComplete { results } => SseEvent::Complete { results },
                },
            )
        } else {
            None
        },
        r == event_for(update, review_id),
{
    if update.review_id == review_id {
        match update.kind {
            ReviewUpdateKind::Chunk { text } => Some(
                SseEvent::Chunk { prompt_name: update.prompt_name, text },
            ),
            ReviewUpdateKind::PromptComplete => Some(
                SseEvent::PromptComplete { prompt_name: update.prompt_name },
            ),
            ReviewUpdateKind::ReviewComplete { results } => Some(SseEvent::Complete { results }),
        }
    } else {
        None
    }
}

/// The type of an event, as clients see it.
pub open spec fn event_type(event: SseEvent) -> Seq<char> {
    match event {
        SseEvent::Chunk { .. } => "chunk"@,
        SseEvent::PromptComplete { .. } => "prompt_complete"@,
        SseEvent::Complete { .. } => "complete"@,
    }
}

impl SseEvent {
    /// The type of the event, as clients see it.
    pub fn kind(&self) -> (r: &'static str)
        ensures
            r@ == event_type(*self),
    {
        match self {
            SseEvent::Chunk { .. } => "chunk",
            SseEvent::PromptComplete { .. } => "prompt_complete",
            SseEvent::Complete { .. } => "complete",
        }
    }
}

/// Clients tell the events apart by their types.
pub proof fn events_have_their_types(event: SseEvent)
    ensures
        event is Chunk ==> event_type(event) == "chunk"@,
        event is PromptComplete ==> event_type(event) == "prompt_complete"@,
        event is Complete ==> event_type(event) == "complete"@,
{
}

/// Who follows a review is told of its updates, of all of them, and of those of no other review; each
/// as it is, with its prompt and its text, or with the results.
pub proof fn updates_reach_their_followers(update: ReviewUpdate, review_id: ReviewId)
    ensures
        event_for(update, review_id) is Some <==> update.review_id == review_id,
        update.review_id == review_id ==> {
            let event = event_for(update, review_id)->Some_0;
            &&& event is Chunk <==> update.kind is Chunk
            &&& event is PromptComplete <==> update.kind is PromptComplete
            &&& event is Complete <==> update.kind is ReviewComplete
            &&& event is Chunk ==> event == (SseEvent::Chunk {
                prompt_name: update.prompt_name,
                text: update.kind->text,
            })
            &&& event is PromptComplete ==> event == (SseEvent::PromptComplete {
                prompt_name: update.prompt_name,
            })
            &&& event is Complete ==> event->results == update.kind->results
        },
{
}

} // verus!
