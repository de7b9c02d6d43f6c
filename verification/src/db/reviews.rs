//! The reviews and what came out of them.

use vstd::prelude::*;

use crate::db::order::{
    descending_text_key, is_order, is_text_before, key_values, keys_are_totally_ordered,
    order_lists_each_row_once, order_of, row_before, rows_have_an_order, text_key,
    text_keys_follow_text, the_order,
};
use crate::db::{next_id, next_id_is_higher, raise_next_id, DbError};
use crate::domain::ids::{PromptId, RepoId, ReviewId};
use crate::domain::job::clone_text;
use crate::domain::repo::{is_sha, option_text, CommitSha};
use crate::domain::review::{
    review_trigger_text_roundtrips, NewReview, PromptResult, Review, ReviewOutput, ReviewStatus,
    ReviewTrigger,
};
use crate::domain::untrusted::UntrustedString;
use crate::text::{lowered, same_text};
use crate::time::{
    is_readable_column, is_stored_as, is_stored_in, is_writable, parse_datetime, read_column,
    rfc3339_text, stored_instant, Column, Timestamp, INVALID_DATE, RFC3339_MAX_SECS,
    RFC3339_MIN_SECS,
};

verus! {

// --- Rows ---

/// Database row for the reviews table.
#[derive(Debug)]
pub struct ReviewRow {
    /// The review's id.
    pub id: i64,
    /// The repository that is reviewed.
    pub repo_id: i64,
    /// The commit that is reviewed.
    pub commit_sha: String,
    /// How the review was triggered.
    pub trigger: String,
    /// Where the review stands.
    pub status: String,
    /// When it started.
    pub started_at: Option<String>,
    /// When it completed or failed.
    pub completed_at: Option<String>,
    /// How long it took.
    pub duration_secs: Option<i64>,
    /// Why it failed.
    pub error: Option<String>,
    /// When it was created.
    pub created_at: String,
}

impl Clone for ReviewRow {
    fn clone(&self) -> (r: ReviewRow)
        ensures
            r == *self,
    {
        ReviewRow {
            id: self.id,
            repo_id: self.repo_id,
            commit_sha: self.commit_sha.clone(),
            trigger: self.trigger.clone(),
            status: self.status.clone(),
            started_at: clone_text(&self.started_at),
            completed_at: clone_text(&self.completed_at),
            duration_secs: self.duration_secs,
            error: clone_text(&self.error),
            created_at: self.created_at.clone(),
        }
    }
}

/// Database row for the review_results table.
#[derive(Debug)]
pub struct ReviewResultRow {
    /// The review that the result belongs to.
    pub review_id: i64,
    /// The prompt that was run.
    pub prompt_id: i64,
    /// Its name at the time.
    pub prompt_name: String,
    /// Internal reasoning.
    pub detailed_reasoning: String,
    /// Whether action is required.
    pub action_required: bool,
    /// User-facing comments.
    pub user_visible_comments: String,
}

/// What is wrong with the status of a row, where it cannot be read.
pub open spec fn status_error(row: ReviewRow) -> Option<Seq<char>> {
    if row.status@ == "pending"@ {
        None
    } else if row.status@ == "in_progress"@ {
        if row.started_at is None {
            Some("in_progress status without started_at"@)
        } else if !is_readable_column(row.started_at) {
            Some(INVALID_DATE@)
        } else {
            None
        }
    } else if row.status@ == "completed"@ {
        if row.started_at is None {
            Some("completed status without started_at"@)
        } else if row.completed_at is None {
            Some("completed status without completed_at"@)
        } else if !is_readable_column(row.started_at) || !is_readable_column(row.completed_at) {
            Some(INVALID_DATE@)
        } else {
            None
        }
    } else if row.status@ == "failed"@ {
        if row.completed_at is None {
            Some("failed status without completed_at"@)
        } else if !is_readable_column(row.started_at) || !is_readable_column(row.completed_at) {
            Some(INVALID_DATE@)
        } else {
            None
        }
    } else {
        Some("unknown status"@)
    }
}

/// The status is what the row holds. A duration that is missing counts as zero, an error that is
/// missing as empty.
pub open spec fn is_status_of(status: ReviewStatus, row: ReviewRow) -> bool {
    &&& row.status@ == status.text()
    &&& match status {
        ReviewStatus::Pending => true,
        ReviewStatus::InProgress { started_at } => is_stored_in(Some(started_at), row.started_at),
        ReviewStatus::Completed { started_at, completed_at, duration_secs } => {
            &&& is_stored_in(Some(started_at), row.started_at)
            &&& is_stored_in(Some(completed_at), row.completed_at)
            &&& duration_secs == match row.duration_secs {
                Some(secs) => secs as u32,
                None => 0,
            }
        },
        ReviewStatus::Failed { started_at, failed_at, error } => {
            &&& is_stored_in(started_at, row.started_at)
            &&& is_stored_in(Some(failed_at), row.completed_at)
            &&& error@ == match row.error {
                Some(text) => text@,
                None => Seq::empty(),
            }
        },
    }
}

/// What is wrong with a status and its columns, where they make none.
pub open spec fn status_columns_error(
    status: Seq<char>,
    started: Column,
    completed: Column,
) -> Option<Seq<char>> {
    if status == "pending"@ {
        None
    } else if status == "in_progress"@ {
        if started == Column::Empty {
            Some("in_progress status without started_at"@)
        } else if !started.readable() {
            Some(INVALID_DATE@)
        } else {
            None
        }
    } else if status == "completed"@ {
        if started == Column::Empty {
            Some("completed status without started_at"@)
        } else if completed == Column::Empty {
            Some("completed status without completed_at"@)
        } else if !started.readable() || !completed.readable() {
            Some(INVALID_DATE@)
        } else {
            None
        }
    } else if status == "failed"@ {
        if completed == Column::Empty {
            Some("failed status without completed_at"@)
        } else if !started.readable() || !completed.readable() {
            Some(INVALID_DATE@)
        } else {
            None
        }
    } else {
        Some("unknown status"@)
    }
}

/// Where a review stands, by the text of its status and what its columns hold.
pub fn status_of_columns(
    status: &str,
    started: Column,
    completed: Column,
    duration_secs: Option<i64>,
    error: &Option<String>,
) -> (r: Result<ReviewStatus, &'static str>)
    ensures
        match r {
            Ok(read) => {
                &&& status_columns_error(status@, started, completed) is None
                &&& read.text() == status@
                &&& match read {
                    ReviewStatus::Pending => true,
                    ReviewStatus::InProgress { started_at } => started == Column::At(started_at),
                    ReviewStatus::Completed { started_at, completed_at, duration_secs: secs } => {
                        &&& started == Column::At(started_at)
                        &&& completed == Column::At(completed_at)
                        &&& secs == match duration_secs {
                            Some(secs) => secs as u32,
                            None => 0,
                        }
                    },
                    ReviewStatus::Failed { started_at, failed_at, error: text } => {
                        &&& started_at == started.instant()
                        &&& completed == Column::At(failed_at)
                        &&& text@ == match *error {
                            Some(error) => error@,
                            None => Seq::empty(),
                        }
                    },
                }
            },
            Err(e) => status_columns_error(status@, started, completed) == Some(e@),
        },
{
    proof {
        status_texts_differ();
    }
    if same_text(status, "pending") {
        Ok(ReviewStatus::Pending)
    } else if same_text(status, "in_progress") {
        match started {
            Column::Empty => Err("in_progress status without started_at"),
            Column::At(started_at) => Ok(ReviewStatus::InProgress { started_at }),
            Column::Unreadable => Err(INVALID_DATE),
        }
    } else if same_text(status, "completed") {
        match (started, completed) {
            (Column::Empty, _) => Err("completed status without started_at"),
            (_, Column::Empty) => Err("completed status without completed_at"),
            (Column::At(started_at), Column::At(completed_at)) => {
                let duration_secs: u32 = match duration_secs {
                    Some(secs) => secs as u32,
                    None => 0,
                };
                Ok(ReviewStatus::Completed { started_at, completed_at, duration_secs })
            },
            _ => Err(INVALID_DATE),
        }
    } else if same_text(status, "failed") {
        match (started.optional_time(), completed) {
            (_, Column::Empty) => Err("failed status without completed_at"),
            (Ok(started_at), Column::At(failed_at)) => {
                let error = match error {
                    Some(text) => text.clone(),
                    None => String::new(),
                };
                Ok(ReviewStatus::Failed { started_at, failed_at, error })
            },
            _ => Err(INVALID_DATE),
        }
    } else {
        Err("unknown status")
    }
}

/// Reads where a review stands.
pub fn parse_status(row: &ReviewRow) -> (r: Result<ReviewStatus, &'static str>)
    ensures
        match r {
            Ok(status) => status_error(*row) is None && is_status_of(status, *row),
            Err(e) => status_error(*row) == Some(e@),
        },
{
    proof {
        status_texts_differ();
    }
    status_of_columns(
        row.status.as_str(),
        read_column(&row.started_at),
        read_column(&row.completed_at),
        row.duration_secs,
        &row.error,
    )
}

/// The review in the row is over: it completed or failed.
pub open spec fn is_over_row(row: ReviewRow) -> bool {
    row.status@ == "completed"@ || row.status@ == "failed"@
}

/// The texts of the four statuses are different.
pub proof fn status_texts_differ()
    ensures
        "pending"@ != "in_progress"@,
        "pending"@ != "completed"@,
        "pending"@ != "failed"@,
        "in_progress"@ != "completed"@,
        "in_progress"@ != "failed"@,
        "completed"@ != "failed"@,
{
    reveal_strlit("pending");
    reveal_strlit("in_progress");
    reveal_strlit("completed");
    reveal_strlit("failed");
    assert("pending"@[0] == 'p');
    assert("in_progress"@[0] == 'i');
    assert("completed"@[0] == 'c');
    assert("failed"@[0] == 'f');
}

/// What is wrong with a row, where it is no review: the first of its columns that cannot be read.
pub open spec fn review_row_error(row: ReviewRow) -> Option<Seq<char>> {
    if !is_sha(row.commit_sha@) {
        Some("invalid commit SHA"@)
    } else if ReviewTrigger::of_text(row.trigger@) is None {
        Some("invalid trigger"@)
    } else if status_error(row) is Some {
        status_error(row)
    } else if stored_instant(row.created_at@) is None {
        Some(INVALID_DATE@)
    } else {
        None
    }
}

/// The result is what the row holds.
pub open spec fn is_result_of(result: PromptResult, row: ReviewResultRow) -> bool {
    &&& result.prompt_id.0 == row.prompt_id
    &&& result.prompt_name@ == row.prompt_name@
    &&& result.output.detailed_reasoning@ == row.detailed_reasoning@
    &&& result.output.action_required == row.action_required
    &&& result.output.user_visible_comments@ == row.user_visible_comments@
}

/// The results are what the rows hold.
pub open spec fn are_results_of(results: Seq<PromptResult>, rows: Seq<ReviewResultRow>) -> bool {
    &&& results.len() == rows.len()
    &&& forall|i: int| 0 <= i < rows.len() ==> is_result_of(#[trigger] results[i], rows[i])
}

/// The review is what the row holds, with the given results.
pub open spec fn is_review_of(
    review: Review,
    row: ReviewRow,
    results: Seq<ReviewResultRow>,
) -> bool {
    &&& review.id.0 == row.id
    &&& review.repo_id.0 == row.repo_id
    &&& review.commit_sha@ == lowered(row.commit_sha@)
    &&& ReviewTrigger::of_text(row.trigger@) == Some(review.trigger)
    &&& is_status_of(review.status, row)
    &&& are_results_of(review.results@, results)
    &&& is_stored_as(review.created_at, row.created_at@)
}

fn results_of(rows: &Vec<ReviewResultRow>) -> (r: Vec<PromptResult>)
    ensures
        are_results_of(r@, rows@),
{
    let mut out: Vec<PromptResult> = Vec::new();
    let mut i: usize = 0;
    while i < rows.len()
        invariant
            i <= rows@.len(),
            out@.len() == i,
            forall|j: int| 0 <= j < i ==> is_result_of(#[trigger] out@[j], rows@[j]),
        decreases rows.len() - i,
    {
        let row = &rows[i];
        out.push(
            PromptResult {
                prompt_id: PromptId::new(row.prompt_id),
                prompt_name: row.prompt_name.clone(),
                output: ReviewOutput {
                    detailed_reasoning: UntrustedString::new(row.detailed_reasoning.as_str()),
                    action_required: row.action_required,
                    user_visible_comments: UntrustedString::new(row.user_visible_comments.as_str()),
                },
            },
        );
        i += 1;
    }
    out
}

/// The review that a row holds, with the given results.
pub fn review_of_row(row: &ReviewRow, results: &Vec<ReviewResultRow>) -> (r: Result<
    Review,
    &'static str,
>)
    ensures
        match r {
            Ok(review) => review_row_error(*row) is None && is_review_of(review, *row, results@),
            Err(e) => review_row_error(*row) == Some(e@),
        },
{
    let commit_sha = match CommitSha::parse(row.commit_sha.as_str()) {
        Some(sha) => sha,
        None => {
            return Err("invalid commit SHA");
        },
    };
    let trigger = match ReviewTrigger::from_str(row.trigger.as_str()) {
        Some(trigger) => trigger,
        None => {
            return Err("invalid trigger");
        },
    };
    let status = match parse_status(row) {
        Ok(status) => status,
        Err(e) => {
            return Err(e);
        },
    };
    let created_at = match parse_datetime(row.created_at.as_str()) {
        Ok(t) => t,
        Err(e) => {
            return Err(e);
        },
    };
    Ok(
        Review {
            id: ReviewId::new(row.id),
            repo_id: RepoId::new(row.repo_id),
            commit_sha,
            trigger,
            status,
            results: results_of(results),
            created_at,
        },
    )
}

// --- Creating ---

/// The ids of a list of reviews.
pub open spec fn review_ids(rows: Seq<ReviewRow>) -> Seq<i64> {
    rows.map_values(|r: ReviewRow| r.id)
}

/// All reviews have different ids.
pub open spec fn unique_review_ids(rows: Seq<ReviewRow>) -> bool {
    forall|i: int, j: int| 0 <= i < j < rows.len() ==> rows[i].id != rows[j].id
}

fn fresh_id(rows: &Vec<ReviewRow>) -> (r: Option<i64>)
    ensures
        r matches Some(n) ==> next_id(review_ids(rows@)) == n,
        r is None ==> next_id(review_ids(rows@)) > i64::MAX,
{
    let mut next: Option<i64> = Some(1);
    let mut i: usize = 0;
    assert(review_ids(rows@).take(0) =~= Seq::<i64>::empty());
    while i < rows.len()
        invariant
            i <= rows@.len(),
            next matches Some(n) ==> next_id(review_ids(rows@).take(i as int)) == n,
            next is None ==> next_id(review_ids(rows@).take(i as int)) > i64::MAX,
        decreases rows.len() - i,
    {
        let ghost ids = review_ids(rows@);
        assert(ids.take(i + 1) =~= ids.take(i as int).push(rows@[i as int].id));
        next = raise_next_id(next, rows[i].id);
        i += 1;
    }
    assert(review_ids(rows@).take(i as int) =~= review_ids(rows@));
    next
}

/// The text is how the start of a time's second is stored. It is read back as that, within the
/// years that can be written.
pub open spec fn is_second_text(text: Seq<char>, now: Timestamp) -> bool {
    &&& text == rfc3339_text(now.secs(), 0)
    &&& is_writable(Some(now)) ==> stored_instant(text) == Some((now.secs(), 0u32))
}

fn second_text(now: &Timestamp) -> (r: String)
    ensures
        is_second_text(r@, *now),
{
    now.whole_second().to_rfc3339()
}

/// The row of a review as it is created: it waits.
pub open spec fn is_created_row(row: ReviewRow, new_review: NewReview, now: Timestamp) -> bool {
    &&& row.repo_id == new_review.repo_id.0
    &&& row.commit_sha@ == new_review.commit_sha@
    &&& row.trigger@ == new_review.trigger.text()
    &&& row.status@ == "pending"@
    &&& row.started_at is None
    &&& row.completed_at is None
    &&& row.duration_secs is None
    &&& row.error is None
    &&& is_second_text(row.created_at@, now)
}

/// Creates a new review, under a new id. It waits, and has no results yet.
pub fn create(rows: &mut Vec<ReviewRow>, new_review: NewReview, now: Timestamp) -> (r: Result<
    Review,
    DbError,
>)
    ensures
        match r {
            Ok(review) => {
                &&& review.id.0 == next_id(review_ids(old(rows)@))
                &&& review.repo_id == new_review.repo_id
                &&& review.commit_sha == new_review.commit_sha
                &&& review.trigger == new_review.trigger
                &&& review.status == ReviewStatus::Pending
                &&& review.results@.len() == 0
                &&& review.created_at.secs() == now.secs()
                &&& review.created_at.nanos() == 0
                &&& final(rows)@.len() == old(rows)@.len() + 1
                &&& final(rows)@.drop_last() == old(rows)@
                &&& final(rows)@.last().id == review.id.0
                &&& is_created_row(final(rows)@.last(), new_review, now)
                &&& is_writable(Some(now)) ==> review_row_error(final(rows)@.last()) is None
                    && is_review_of(review, final(rows)@.last(), Seq::empty())
                &&& unique_review_ids(old(rows)@) ==> unique_review_ids(final(rows)@)
            },
            Err(e) => e == DbError::TableFull && next_id(review_ids(old(rows)@)) > i64::MAX
                && final(rows)@ == old(rows)@,
        },
{
    match fresh_id(rows) {
        Some(id) => {
            let sha = new_review.commit_sha.as_str();
            proof {
                next_id_is_higher(review_ids(rows@));
                assert forall|i: int| 0 <= i < rows@.len() implies rows@[i].id != id by {
                    assert(review_ids(rows@)[i] == rows@[i].id);
                }
                review_trigger_text_roundtrips(new_review.trigger, new_review.trigger.text());
                status_texts_differ();
            }
            let row = ReviewRow {
                id,
                repo_id: new_review.repo_id.0,
                commit_sha: sha.to_owned(),
                trigger: new_review.trigger.as_str().to_owned(),
                status: "pending".to_owned(),
                started_at: None,
                completed_at: None,
                duration_secs: None,
                error: None,
                created_at: second_text(&now),
            };
            let ghost before = rows@;
            rows.push(row);
            assert(rows@.drop_last() =~= before);
            Ok(
                Review {
                    id: ReviewId::new(id),
                    repo_id: new_review.repo_id,
                    commit_sha: new_review.commit_sha,
                    trigger: new_review.trigger,
                    status: ReviewStatus::Pending,
                    results: Vec::new(),
                    created_at: now.whole_second(),
                },
            )
        },
        None => Err(DbError::TableFull),
    }
}

// --- Reading ---

/// Some review has the given id.
pub open spec fn has_review(rows: Seq<ReviewRow>, id: ReviewId) -> bool {
    exists|k: int| 0 <= k < rows.len() && (#[trigger] rows[k]).id == id.0
}

/// The review at `k` is the first with the given id.
pub open spec fn is_review_at(rows: Seq<ReviewRow>, id: ReviewId, k: int) -> bool {
    &&& 0 <= k < rows.len()
    &&& rows[k].id == id.0
    &&& forall|j: int| 0 <= j < k ==> (#[trigger] rows[j]).id != id.0
}

/// A review that was created is found under its id.
pub proof fn created_review_is_found(rows: Seq<ReviewRow>, row: ReviewRow)
    requires
        row.id == next_id(review_ids(rows)),
    ensures
        is_review_at(rows.push(row), ReviewId(row.id), rows.len() as int),
        has_review(rows.push(row), ReviewId(row.id)),
{
    next_id_is_higher(review_ids(rows));
    assert forall|j: int| 0 <= j < rows.len() implies (#[trigger] rows.push(row)[j]).id
        != row.id by {
        assert(review_ids(rows)[j] == rows[j].id);
    }
    assert(rows.push(row)[rows.len() as int].id == row.id);
}

/// The results of a review, in the order in which they were added.
pub open spec fn results_for(results: Seq<ReviewResultRow>, id: ReviewId) -> Seq<ReviewResultRow> {
    results.filter(|r: ReviewResultRow| r.review_id == id.0)
}

impl Clone for ReviewResultRow {
    fn clone(&self) -> (r: ReviewResultRow)
        ensures
            r == *self,
    {
        ReviewResultRow {
            review_id: self.review_id,
            prompt_id: self.prompt_id,
            prompt_name: self.prompt_name.clone(),
            detailed_reasoning: self.detailed_reasoning.clone(),
            action_required: self.action_required,
            user_visible_comments: self.user_visible_comments.clone(),
        }
    }
}

fn select_results(results: &Vec<ReviewResultRow>, id: ReviewId) -> (r: Vec<ReviewResultRow>)
    ensures
        r@ == results_for(results@, id),
{
    let mut rows: Vec<ReviewResultRow> = Vec::new();
    let mut i: usize = 0;
    proof {
        reveal(Seq::filter);
    }
    assert(results@.take(0) =~= Seq::<ReviewResultRow>::empty());
    while i < results.len()
        invariant
            i <= results@.len(),
            rows@ == results_for(results@.take(i as int), id),
        decreases results.len() - i,
    {
        proof {
            reveal(Seq::filter);
        }
        assert(results@.take(i + 1).drop_last() =~= results@.take(i as int));
        if results[i].review_id == id.0 {
            rows.push(results[i].clone());
        }
        i += 1;
    }
    assert(results@.take(i as int) =~= results@);
    rows
}

/// Gets a review by ID with its results.
pub fn get_by_id(rows: &Vec<ReviewRow>, results: &Vec<ReviewResultRow>, id: ReviewId) -> (r: Result<
    Option<Review>,
    &'static str,
>)
    ensures
        match r {
            Ok(Some(review)) => has_review(rows@, id) && exists|k: int| #[trigger]
                is_review_at(rows@, id, k) && review_row_error(rows@[k]) is None && is_review_of(
                    review,
                    rows@[k],
                    results_for(results@, id),
                ),
            Ok(None) => !has_review(rows@, id),
            Err(e) => has_review(rows@, id) && exists|k: int| #[trigger]
                is_review_at(rows@, id, k) && review_row_error(rows@[k]) == Some(e@),
        },
{
    let mut i: usize = 0;
    while i < rows.len()
        invariant
            i <= rows@.len(),
            forall|j: int| 0 <= j < i ==> (#[trigger] rows@[j]).id != id.0,
        decreases rows.len() - i,
    {
        if rows[i].id == id.0 {
            assert(is_review_at(rows@, id, i as int));
            let own = select_results(results, id);
            return match review_of_row(&rows[i], &own) {
                Ok(review) => Ok(Some(review)),
                Err(e) => Err(e),
            };
        }
        i += 1;
    }
    Ok(None)
}

/// The reviews of a repository, in the order of the table.
pub open spec fn reviews_of(rows: Seq<ReviewRow>, repo_id: RepoId) -> Seq<ReviewRow> {
    rows.filter(|r: ReviewRow| r.repo_id == repo_id.0)
}

/// The sort keys that put reviews in descending order of their creation.
pub open spec fn newest_keys(rows: Seq<ReviewRow>) -> Seq<Seq<i64>> {
    rows.map_values(|r: ReviewRow| text_key(r.created_at@))
}

/// The rows of a list, taken in the given order.
pub open spec fn in_order(rows: Seq<ReviewRow>, order: Seq<usize>) -> Seq<ReviewRow> {
    order.map_values(|i: usize| rows[i as int])
}

/// The reviews of a repository, the newest first.
pub open spec fn listing_of(rows: Seq<ReviewRow>, repo_id: RepoId) -> Seq<ReviewRow> {
    in_order(reviews_of(rows, repo_id), the_order(newest_keys(reviews_of(rows, repo_id))))
}

/// The reviews of a repository, the newest first.
fn listing(rows: &Vec<ReviewRow>, repo_id: RepoId) -> (r: Vec<ReviewRow>)
    ensures
        r@ == listing_of(rows@, repo_id),
        r@.len() == reviews_of(rows@, repo_id).len(),
{
    let mut own: Vec<ReviewRow> = Vec::new();
    let mut i: usize = 0;
    proof {
        reveal(Seq::filter);
    }
    assert(rows@.take(0) =~= Seq::<ReviewRow>::empty());
    while i < rows.len()
        invariant
            i <= rows@.len(),
            own@ == reviews_of(rows@.take(i as int), repo_id),
        decreases rows.len() - i,
    {
        proof {
            reveal(Seq::filter);
        }
        assert(rows@.take(i + 1).drop_last() =~= rows@.take(i as int));
        if rows[i].repo_id == repo_id.0 {
            own.push(rows[i].clone());
        }
        i += 1;
    }
    assert(rows@.take(i as int) =~= rows@);
    let mut keys: Vec<Vec<i64>> = Vec::new();
    let mut j: usize = 0;
    while j < own.len()
        invariant
            j <= own@.len(),
            keys@.len() == j,
            forall|k: int| 0 <= k < j ==> (#[trigger] keys@[k])@ == text_key(own@[k].created_at@),
        decreases own.len() - j,
    {
        keys.push(descending_text_key(own[j].created_at.as_str()));
        j += 1;
    }
    assert(key_values(keys@) =~= newest_keys(own@));
    let order = order_of(&keys);
    let mut out: Vec<ReviewRow> = Vec::new();
    let mut k: usize = 0;
    while k < order.len()
        invariant
            k <= order@.len(),
            is_order(newest_keys(own@), order@),
            out@.len() == k,
            forall|n: int| 0 <= n < k ==> #[trigger] out@[n] == own@[order@[n] as int],
        decreases order.len() - k,
    {
        assert(order@[k as int] < newest_keys(own@).len());
        out.push(own[order[k]].clone());
        k += 1;
    }
    assert(out@ =~= in_order(own@, order@));
    out
}

/// Lists reviews for a repository (without results for efficiency), the newest first. If some of
/// them cannot be read, the error is that of the first such.
pub fn list_by_repo(rows: &Vec<ReviewRow>, repo_id: RepoId) -> (r: Result<
    Vec<Review>,
    &'static str,
>)
    ensures
        ({
            let listed = listing_of(rows@, repo_id);
            match r {
                Ok(list) => {
                    &&& list@.len() == listed.len()
                    &&& forall|i: int|
                        0 <= i < listed.len() ==> is_review_of(
                            #[trigger] list@[i],
                            listed[i],
                            Seq::empty(),
                        )
                    &&& forall|i: int|
                        0 <= i < listed.len() ==> review_row_error(#[trigger] listed[i]) is None
                },
                Err(e) => exists|i: int|
                    0 <= i < listed.len() && review_row_error(#[trigger] listed[i]) == Some(e@)
                        && forall|j: int|
                        0 <= j < i ==> review_row_error(#[trigger] listed[j]) is None,
            }
        }),
{
    let listed = listing(rows, repo_id);
    let none: Vec<ReviewResultRow> = Vec::new();
    let mut list: Vec<Review> = Vec::new();
    let mut i: usize = 0;
    while i < listed.len()
        invariant
            i <= listed@.len(),
            list@.len() == i,
            none@ == Seq::<ReviewResultRow>::empty(),
            listed@ == listing_of(rows@, repo_id),
            forall|j: int|
                0 <= j < i ==> is_review_of(#[trigger] list@[j], listed@[j], Seq::empty()),
            forall|j: int| 0 <= j < i ==> review_row_error(#[trigger] listed@[j]) is None,
        decreases listed.len() - i,
    {
        match review_of_row(&listed[i], &none) {
            Ok(review) => {
                list.push(review);
            },
            Err(e) => {
                assert(review_row_error(listed@[i as int]) == Some(e@));
                return Err(e);
            },
        }
        i += 1;
    }
    Ok(list)
}

/// Gets the most recent review for a repository, without its results.
pub fn get_latest_for_repo(rows: &Vec<ReviewRow>, repo_id: RepoId) -> (r: Result<
    Option<Review>,
    &'static str,
>)
    ensures
        ({
            let listed = listing_of(rows@, repo_id);
            match r {
                Ok(Some(review)) => listed.len() > 0 && review_row_error(listed[0]) is None
                    && is_review_of(review, listed[0], Seq::empty()),
                Ok(None) => listed.len() == 0,
                Err(e) => listed.len() > 0 && review_row_error(listed[0]) == Some(e@),
            }
        }),
{
    let listed = listing(rows, repo_id);
    if listed.len() == 0 {
        return Ok(None);
    }
    let none: Vec<ReviewResultRow> = Vec::new();
    assert(none@ =~= Seq::<ReviewResultRow>::empty());
    match review_of_row(&listed[0], &none) {
        Ok(review) => Ok(Some(review)),
        Err(e) => Err(e),
    }
}

// --- Changing ---

/// The row after its review has started.
pub open spec fn is_in_progress_row(before: ReviewRow, after: ReviewRow, now: Timestamp) -> bool {
    &&& after.status@ == "in_progress"@
    &&& after.started_at is Some
    &&& is_second_text(after.started_at->Some_0@, now)
    &&& after == (ReviewRow { status: after.status, started_at: after.started_at, ..before })
}

/// The row after its review has completed.
pub open spec fn is_completed_row(
    before: ReviewRow,
    after: ReviewRow,
    duration_secs: u32,
    now: Timestamp,
) -> bool {
    &&& after.status@ == "completed"@
    &&& after.completed_at is Some
    &&& is_second_text(after.completed_at->Some_0@, now)
    &&& after == (ReviewRow {
        status: after.status,
        completed_at: after.completed_at,
        duration_secs: Some(duration_secs as i64),
        ..before
    })
}

/// The row after its review has failed.
pub open spec fn is_failed_row(
    before: ReviewRow,
    after: ReviewRow,
    error: Seq<char>,
    now: Timestamp,
) -> bool {
    &&& after.status@ == "failed"@
    &&& after.completed_at is Some
    &&& is_second_text(after.completed_at->Some_0@, now)
    &&& option_text(after.error) == Some(error)
    &&& after == (ReviewRow {
        status: after.status,
        completed_at: after.completed_at,
        error: after.error,
        ..before
    })
}

proof fn same_rows_keep_ids(before: Seq<ReviewRow>, after: Seq<ReviewRow>)
    requires
        before.len() == after.len(),
        forall|i: int| 0 <= i < before.len() ==> (#[trigger] after[i]).id == before[i].id,
    ensures
        unique_review_ids(before) ==> unique_review_ids(after),
{
    if unique_review_ids(before) {
        assert forall|i: int, j: int| 0 <= i < j < after.len() implies after[i].id
            != after[j].id by {
            assert(before[i].id != before[j].id);
        }
    }
}

/// Marks a review as in progress.
pub fn mark_in_progress(rows: &mut Vec<ReviewRow>, id: ReviewId, now: Timestamp)
    ensures
        final(rows)@.len() == old(rows)@.len(),
        forall|i: int|
            0 <= i < old(rows)@.len() ==> if old(rows)@[i].id == id.0 {
                is_in_progress_row(old(rows)@[i], #[trigger] final(rows)@[i], now)
            } else {
                final(rows)@[i] == old(rows)@[i]
            },
        unique_review_ids(old(rows)@) ==> unique_review_ids(final(rows)@),
{
    let ghost before = rows@;
    let mut i: usize = 0;
    while i < rows.len()
        invariant
            i <= rows@.len(),
            rows@.len() == before.len(),
            forall|j: int|
                0 <= j < i ==> if before[j].id == id.0 {
                    is_in_progress_row(before[j], #[trigger] rows@[j], now)
                } else {
                    rows@[j] == before[j]
                },
            forall|j: int| i <= j < rows@.len() ==> #[trigger] rows@[j] == before[j],
        decreases rows.len() - i,
    {
        if rows[i].id == id.0 {
            let mut row = rows[i].clone();
            row.status = "in_progress".to_owned();
            row.started_at = Some(second_text(&now));
            rows.set(i, row);
        }
        i += 1;
    }
    proof {
        same_rows_keep_ids(before, rows@);
    }
}

/// Marks a review as completed.
pub fn mark_completed(rows: &mut Vec<ReviewRow>, id: ReviewId, duration_secs: u32, now: Timestamp)
    ensures
        final(rows)@.len() == old(rows)@.len(),
        forall|i: int|
            0 <= i < old(rows)@.len() ==> if old(rows)@[i].id == id.0 {
                is_completed_row(old(rows)@[i], #[trigger] final(rows)@[i], duration_secs, now)
            } else {
                final(rows)@[i] == old(rows)@[i]
            },
        unique_review_ids(old(rows)@) ==> unique_review_ids(final(rows)@),
{
    let ghost before = rows@;
    let mut i: usize = 0;
    while i < rows.len()
        invariant
            i <= rows@.len(),
            rows@.len() == before.len(),
            forall|j: int|
                0 <= j < i ==> if before[j].id == id.0 {
                    is_completed_row(before[j], #[trigger] rows@[j], duration_secs, now)
                } else {
                    rows@[j] == before[j]
                },
            forall|j: int| i <= j < rows@.len() ==> #[trigger] rows@[j] == before[j],
        decreases rows.len() - i,
    {
        if rows[i].id == id.0 {
            let mut row = rows[i].clone();
            row.status = "completed".to_owned();
            row.completed_at = Some(second_text(&now));
            row.duration_secs = Some(duration_secs as i64);
            rows.set(i, row);
        }
        i += 1;
    }
    proof {
        same_rows_keep_ids(before, rows@);
    }
}

/// Marks a review as failed.
pub fn mark_failed(rows: &mut Vec<ReviewRow>, id: ReviewId, error: &str, now: Timestamp)
    ensures
        final(rows)@.len() == old(rows)@.len(),
        forall|i: int|
            0 <= i < old(rows)@.len() ==> if old(rows)@[i].id == id.0 {
                is_failed_row(old(rows)@[i], #[trigger] final(rows)@[i], error@, now)
            } else {
                final(rows)@[i] == old(rows)@[i]
            },
        unique_review_ids(old(rows)@) ==> unique_review_ids(final(rows)@),
{
    let ghost before = rows@;
    let mut i: usize = 0;
    while i < rows.len()
        invariant
            i <= rows@.len(),
            rows@.len() == before.len(),
            forall|j: int|
                0 <= j < i ==> if before[j].id == id.0 {
                    is_failed_row(before[j], #[trigger] rows@[j], error@, now)
                } else {
                    rows@[j] == before[j]
                },
            forall|j: int| i <= j < rows@.len() ==> #[trigger] rows@[j] == before[j],
        decreases rows.len() - i,
    {
        if rows[i].id == id.0 {
            let mut row = rows[i].clone();
            row.status = "failed".to_owned();
            row.completed_at = Some(second_text(&now));
            row.error = Some(error.to_owned());
            rows.set(i, row);
        }
        i += 1;
    }
    proof {
        same_rows_keep_ids(before, rows@);
    }
}

/// Adds a result for a prompt.
pub fn add_result(
    results: &mut Vec<ReviewResultRow>,
    review_id: ReviewId,
    prompt_id: PromptId,
    prompt_name: &str,
    output: &ReviewOutput,
)
    ensures
        final(results)@.len() == old(results)@.len() + 1,
        final(results)@.drop_last() == old(results)@,
        final(results)@.last().review_id == review_id.0,
        final(results)@.last().prompt_id == prompt_id.0,
        final(results)@.last().prompt_name@ == prompt_name@,
        final(results)@.last().detailed_reasoning@ == output.detailed_reasoning@,
        final(results)@.last().action_required == output.action_required,
        final(results)@.last().user_visible_comments@ == output.user_visible_comments@,
        results_for(final(results)@, review_id) == results_for(old(results)@, review_id).push(
            final(results)@.last(),
        ),
{
    let ghost before = results@;
    results.push(
        ReviewResultRow {
            review_id: review_id.0,
            prompt_id: prompt_id.0,
            prompt_name: prompt_name.to_owned(),
            detailed_reasoning: output.detailed_reasoning.as_raw().to_owned(),
            action_required: output.action_required,
            user_visible_comments: output.user_visible_comments.as_raw().to_owned(),
        },
    );
    assert(results@.drop_last() =~= before);
    proof {
        reveal(Seq::filter);
    }
}

// --- What is read back of what was written ---

/// A review that was started is read back as in progress since then.
pub proof fn started_review_reads_back(
    before: ReviewRow,
    after: ReviewRow,
    now: Timestamp,
    status: ReviewStatus,
)
    requires
        is_in_progress_row(before, after, now),
        RFC3339_MIN_SECS <= now.secs() <= RFC3339_MAX_SECS,
    ensures
        status_error(after) is None,
        is_status_of(status, after) ==> (status matches ReviewStatus::InProgress { started_at }
            && started_at.secs() == now.secs() && started_at.nanos() == 0),
{
    status_texts_differ();
}

/// A review that was in progress and was completed is read back as completed, with the times of
/// both and the duration.
pub proof fn completed_review_reads_back(
    before: ReviewRow,
    after: ReviewRow,
    started: Timestamp,
    duration: u32,
    now: Timestamp,
    status: ReviewStatus,
)
    requires
        is_stored_in(Some(started), before.started_at),
        is_completed_row(before, after, duration, now),
        RFC3339_MIN_SECS <= now.secs() <= RFC3339_MAX_SECS,
    ensures
        status_error(after) is None,
        is_status_of(status, after) ==> (status matches ReviewStatus::Completed {
            started_at,
            completed_at,
            duration_secs,
        } && started_at == started && completed_at.secs() == now.secs() && completed_at.nanos()
            == 0 && duration_secs == duration),
{
    status_texts_differ();
    if is_status_of(status, after) {
        match status {
            ReviewStatus::Completed { started_at, completed_at, duration_secs } => {
                crate::time::stored_once_in(Some(started_at), Some(started), before.started_at);
            },
            _ => {},
        }
    }
}

/// A review that was marked as failed is read back as failed, with that very error; it is no
/// longer in progress, whatever it was before.
pub proof fn failed_review_reads_back(
    before: ReviewRow,
    after: ReviewRow,
    error: Seq<char>,
    now: Timestamp,
    status: ReviewStatus,
)
    requires
        is_failed_row(before, after, error, now),
        is_readable_column(before.started_at),
        RFC3339_MIN_SECS <= now.secs() <= RFC3339_MAX_SECS,
    ensures
        status_error(after) is None,
        is_status_of(status, after) ==> (status matches ReviewStatus::Failed {
            started_at,
            failed_at,
            error: text,
        } && text@ == error && failed_at.secs() == now.secs() && failed_at.nanos() == 0),
{
    status_texts_differ();
}

// --- What listings hold ---

/// The results of a review are exactly those that were added for it, in the order in which they
/// were added.
pub proof fn results_are_those_of_the_review(
    results: Seq<ReviewResultRow>,
    more: ReviewResultRow,
    id: ReviewId,
)
    ensures
        results_for(Seq::empty(), id).len() == 0,
        results_for(results.push(more), id) == if more.review_id == id.0 {
            results_for(results, id).push(more)
        } else {
            results_for(results, id)
        },
{
    reveal(Seq::filter);
    assert(results.push(more).drop_last() =~= results);
    assert(Seq::<ReviewResultRow>::empty().filter(|r: ReviewResultRow| r.review_id == id.0).len()
        == 0);
}

/// The reviews of a repository are exactly those that were created for it.
pub proof fn reviews_are_those_of_the_repo(rows: Seq<ReviewRow>, more: ReviewRow, repo_id: RepoId)
    ensures
        reviews_of(Seq::empty(), repo_id).len() == 0,
        reviews_of(rows.push(more), repo_id) == if more.repo_id == repo_id.0 {
            reviews_of(rows, repo_id).push(more)
        } else {
            reviews_of(rows, repo_id)
        },
{
    reveal(Seq::filter);
    assert(rows.push(more).drop_last() =~= rows);
    assert(Seq::<ReviewRow>::empty().filter(|r: ReviewRow| r.repo_id == repo_id.0).len() == 0);
}

proof fn own_reviews_are_all(rows: Seq<ReviewRow>, repo_id: RepoId)
    ensures
        reviews_of(rows, repo_id).len() <= rows.len(),
        forall|m: int|
            0 <= m < rows.len() && (#[trigger] rows[m]).repo_id == repo_id.0 ==> reviews_of(
                rows,
                repo_id,
            ).contains(rows[m]),
        forall|k: int|
            0 <= k < reviews_of(rows, repo_id).len() ==> (#[trigger] reviews_of(
                rows,
                repo_id,
            )[k]).repo_id == repo_id.0 && rows.contains(reviews_of(rows, repo_id)[k]),
    decreases rows.len(),
{
    if rows.len() > 0 {
        let fewer = rows.drop_last();
        let last = rows.last();
        own_reviews_are_all(fewer, repo_id);
        reviews_are_those_of_the_repo(fewer, last, repo_id);
        assert(rows =~= fewer.push(last));
        let own = reviews_of(rows, repo_id);
        let before = reviews_of(fewer, repo_id);
        assert forall|m: int|
            0 <= m < rows.len() && (#[trigger] rows[m]).repo_id == repo_id.0 implies own.contains(
            rows[m],
        ) by {
            if m < fewer.len() {
                assert(fewer[m] == rows[m]);
                let k = choose|k: int| 0 <= k < before.len() && before[k] == rows[m];
                assert(own[k] == rows[m]);
            } else {
                assert(own[own.len() - 1] == last);
            }
        }
        assert forall|k: int| 0 <= k < own.len() implies (#[trigger] own[k]).repo_id == repo_id.0
            && rows.contains(own[k]) by {
            if k < before.len() {
                assert(own[k] == before[k]);
                let m = choose|m: int| 0 <= m < fewer.len() && fewer[m] == before[k];
                assert(rows[m] == own[k]);
            } else {
                assert(rows[rows.len() - 1] == last);
            }
        }
    } else {
        reviews_are_those_of_the_repo(rows, arbitrary(), repo_id);
        assert(rows =~= Seq::<ReviewRow>::empty());
    }
}

/// The listing of a repository holds exactly its reviews, each as often as the table does, and none
/// that was created later stands behind one that was created earlier.
pub proof fn listing_is_newest_first(rows: Seq<ReviewRow>, repo_id: RepoId)
    requires
        rows.len() <= usize::MAX,
    ensures
        ({
            let listed = listing_of(rows, repo_id);
            &&& listed.len() == reviews_of(rows, repo_id).len()
            &&& forall|k: int|
                0 <= k < listed.len() ==> (#[trigger] listed[k]).repo_id == repo_id.0
                    && rows.contains(listed[k])
            &&& forall|m: int|
                0 <= m < rows.len() && (#[trigger] rows[m]).repo_id == repo_id.0
                    ==> listed.contains(rows[m])
            &&& forall|i: int, j: int|
                0 <= i < j < listed.len() ==> !is_text_before(
                    (#[trigger] listed[i]).created_at@,
                    (#[trigger] listed[j]).created_at@,
                )
        }),
{
    let own = reviews_of(rows, repo_id);
    let keys = newest_keys(own);
    let order = the_order(keys);
    let listed = listing_of(rows, repo_id);
    own_reviews_are_all(rows, repo_id);
    rows_have_an_order(keys);
    assert forall|k: int| 0 <= k < listed.len() implies (#[trigger] listed[k]).repo_id == repo_id.0
        && rows.contains(listed[k]) by {
        assert(order[k] < keys.len());
        assert(listed[k] == own[order[k] as int]);
    }
    assert forall|m: int|
        0 <= m < rows.len() && (#[trigger] rows[m]).repo_id == repo_id.0 implies listed.contains(
        rows[m],
    ) by {
        let k = choose|k: int| 0 <= k < own.len() && own[k] == rows[m];
        order_lists_each_row_once(keys, order, k);
        let i = choose|i: int| 0 <= i < order.len() && order[i] == k;
        assert(listed[i] == rows[m]);
    }
    assert forall|i: int, j: int| 0 <= i < j < listed.len() implies !is_text_before(
        (#[trigger] listed[i]).created_at@,
        (#[trigger] listed[j]).created_at@,
    ) by {
        let a = order[i] as int;
        let b = order[j] as int;
        assert(row_before(keys, a, b));
        assert(a < keys.len() && b < keys.len());
        keys_are_totally_ordered(keys[a], keys[b]);
        text_keys_follow_text(own[b].created_at@, own[a].created_at@);
    }
}

/// Which rows can be read, by their status: a review that waits always can; one in progress needs
/// the time of its start; one that completed needs the times of its start and its end; one that
/// failed needs the time of its end, and its start may be missing. No other status can be read.
pub proof fn readable_statuses(row: ReviewRow)
    ensures
        row.status@ == "pending"@ ==> status_error(row) is None,
        row.status@ == "in_progress"@ ==> (status_error(row) is None <==> row.started_at is Some
            && stored_instant(row.started_at->Some_0@) is Some),
        row.status@ == "completed"@ ==> (status_error(row) is None <==> row.started_at is Some
            && row.completed_at is Some && stored_instant(row.started_at->Some_0@) is Some
            && stored_instant(row.completed_at->Some_0@) is Some),
        row.status@ == "failed"@ ==> (status_error(row) is None <==> row.completed_at is Some
            && stored_instant(row.completed_at->Some_0@) is Some && (row.started_at is None
            || stored_instant(row.started_at->Some_0@) is Some)),
        row.status@ != "pending"@ && row.status@ != "in_progress"@ && row.status@ != "completed"@
            && row.status@ != "failed"@ ==> status_error(row) == Some("unknown status"@),
        status_error(row) is Some && row.status@ == "in_progress"@ && row.started_at is None
            ==> status_error(row) == Some("in_progress status without started_at"@),
        status_error(row) is Some && row.status@ == "completed"@ && row.started_at is None
            ==> status_error(row) == Some("completed status without started_at"@),
        status_error(row) is Some && row.status@ == "failed"@ && row.completed_at is None
            ==> status_error(row) == Some("failed status without completed_at"@),
{
    status_texts_differ();
}

/// The status that is read is the one that the text names, and it is over exactly if that text is
/// `completed` or `failed`.
pub proof fn status_is_that_of_the_text(status: ReviewStatus, row: ReviewRow)
    requires
        is_status_of(status, row),
    ensures
        status is Pending <==> row.status@ == "pending"@,
        status is InProgress <==> row.status@ == "in_progress"@,
        status is Completed <==> row.status@ == "completed"@,
        status is Failed <==> row.status@ == "failed"@,
        is_over_row(row) <==> status is Completed || status is Failed,
{
    status_texts_differ();
}

/// A row is a review exactly if its SHA is one, its trigger is known, its status can be read, and
/// so can the time of its creation.
pub proof fn readable_rows(row: ReviewRow)
    ensures
        review_row_error(row) is None <==> {
            &&& is_sha(row.commit_sha@)
            &&& row.trigger@ == "scheduled"@ || row.trigger@ == "manual"@
            &&& status_error(row) is None
            &&& stored_instant(row.created_at@) is Some
        },
{
    reveal_strlit("scheduled");
    reveal_strlit("manual");
    assert("scheduled"@.len() == 9 && "manual"@.len() == 6);
}

/// A review that is read has the id, the repository, the commit, the trigger and the results that
/// are stored, each result under its prompt.
pub proof fn review_is_what_is_stored(
    review: Review,
    row: ReviewRow,
    results: Seq<ReviewResultRow>,
    k: int,
)
    requires
        is_review_of(review, row, results),
    ensures
        review.id == ReviewId(row.id),
        review.repo_id == RepoId(row.repo_id),
        review.commit_sha@ == lowered(row.commit_sha@),
        review.trigger == ReviewTrigger::Manual <==> row.trigger@ == "manual"@,
        review.trigger == ReviewTrigger::Scheduled <==> row.trigger@ == "scheduled"@,
        review.results@.len() == results.len(),
        stored_instant(row.created_at@) == Some(
            (review.created_at.secs(), review.created_at.nanos()),
        ),
        0 <= k < results.len() ==> {
            let result = review.results@[k];
            &&& result.prompt_id == PromptId(results[k].prompt_id)
            &&& result.prompt_name@ == results[k].prompt_name@
            &&& result.output.detailed_reasoning@ == results[k].detailed_reasoning@
            &&& result.output.action_required == results[k].action_required
            &&& result.output.user_visible_comments@ == results[k].user_visible_comments@
        },
{
    reveal_strlit("scheduled");
    reveal_strlit("manual");
    assert("scheduled"@.len() == 9 && "manual"@.len() == 6);
    if 0 <= k < results.len() {
        assert(is_result_of(review.results@[k], results[k]));
    }
}

/// Whatever becomes of a review, its row keeps its id, its repository, its commit, its trigger and
/// the time of its creation.
pub proof fn marking_keeps_what_is_reviewed(
    before: ReviewRow,
    after: ReviewRow,
    duration_secs: u32,
    error: Seq<char>,
    now: Timestamp,
)
    requires
        is_in_progress_row(before, after, now) || is_completed_row(before, after, duration_secs, now)
            || is_failed_row(before, after, error, now),
    ensures
        after.id == before.id,
        after.repo_id == before.repo_id,
        after.commit_sha == before.commit_sha,
        after.trigger == before.trigger,
        after.created_at == before.created_at,
        after.status@ == "in_progress"@ || after.started_at == before.started_at,
{
}

/// A review is found under an id exactly if some row has it, and the first such row counts.
pub proof fn first_row_with_the_id_counts(rows: Seq<ReviewRow>, id: ReviewId, k: int)
    ensures
        has_review(rows, id) <==> exists|i: int|
            #![trigger rows[i]]
            0 <= i < rows.len() && rows[i].id == id.0,
        is_review_at(rows, id, k) <==> 0 <= k < rows.len() && rows[k].id == id.0 && forall|i: int|
            #![trigger rows[i]]
            0 <= i < k ==> rows[i].id != id.0,
{
}

/// A new review waits: its row has what was asked for, the time of its creation to the second, and
/// nothing else.
pub proof fn created_row_waits(row: ReviewRow, new_review: NewReview, now: Timestamp)
    requires
        is_created_row(row, new_review, now),
    ensures
        row.repo_id == new_review.repo_id.0,
        row.commit_sha@ == new_review.commit_sha@,
        new_review.trigger is Manual ==> row.trigger@ == "manual"@,
        new_review.trigger is Scheduled ==> row.trigger@ == "scheduled"@,
        row.status@ == "pending"@,
        row.started_at is None,
        row.completed_at is None,
        row.duration_secs is None,
        row.error is None,
        row.created_at@ == rfc3339_text(now.secs(), 0),
{
}

/// What a review is marked with is stored in its row: the times to the second, the duration and the
/// error.
pub proof fn marks_are_stored(
    before: ReviewRow,
    after: ReviewRow,
    duration_secs: u32,
    error: Seq<char>,
    now: Timestamp,
)
    ensures
        is_in_progress_row(before, after, now) ==> after.status@ == "in_progress"@
            && after.started_at is Some && after.started_at->Some_0@ == rfc3339_text(now.secs(), 0)
            && after.completed_at == before.completed_at && after.error == before.error
            && after.duration_secs == before.duration_secs,
        is_completed_row(before, after, duration_secs, now) ==> after.status@ == "completed"@
            && after.completed_at is Some && after.completed_at->Some_0@ == rfc3339_text(
            now.secs(),
            0,
        ) && after.duration_secs == Some(duration_secs as i64) && after.error == before.error
            && after.started_at == before.started_at,
        is_failed_row(before, after, error, now) ==> after.status@ == "failed"@
            && after.completed_at is Some && after.completed_at->Some_0@ == rfc3339_text(
            now.secs(),
            0,
        ) && after.error is Some && after.error->Some_0@ == error && after.duration_secs
            == before.duration_secs && after.started_at == before.started_at,
{
}

} // verus!
