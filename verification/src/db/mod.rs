//! The tables of the database, held as plain rows, and every operation on them.

use vstd::prelude::*;

use crate::db::reviews::{ReviewResultRow, ReviewRow};
use crate::domain::job::Job;
use crate::domain::prompt::Prompt;
use crate::domain::repo::Repo;

pub mod jobs;
pub mod order;
pub mod prompts;
pub mod repos;
pub mod reviews;

verus! {

/// Why an operation on a table failed.
#[derive(Debug, Clone, Copy, PartialEq, Eq, Structural)]
pub enum DbError {
    /// There is no row with the given id.
    RowNotFound,
    /// No id is left for a new row.
    TableFull,
}

/// All tables.
#[derive(Debug)]
pub struct Database {
    /// The repositories.
    pub repos: Vec<Repo>,
    /// The prompts.
    pub prompts: Vec<Prompt>,
    /// The reviews.
    pub reviews: Vec<ReviewRow>,
    /// The results of the reviews.
    pub results: Vec<ReviewResultRow>,
    /// The job queue.
    pub jobs: Vec<Job>,
}

/// The id of a new row: one more than the highest id so far, and 1 in an empty table.
pub open spec fn next_id(ids: Seq<i64>) -> int
    decreases ids.len(),
{
    if ids.len() == 0 {
        1
    } else if ids.last() + 1 > next_id(ids.drop_last()) {
        ids.last() + 1
    } else {
        next_id(ids.drop_last())
    }
}

/// A new id is higher than all ids so far.
pub proof fn next_id_is_higher(ids: Seq<i64>)
    ensures
        next_id(ids) >= 1,
        forall|i: int| 0 <= i < ids.len() ==> (#[trigger] ids[i]) < next_id(ids),
    decreases ids.len(),
{
    if ids.len() > 0 {
        next_id_is_higher(ids.drop_last());
        assert forall|i: int| 0 <= i < ids.len() implies (#[trigger] ids[i]) < next_id(ids) by {
            if i < ids.len() - 1 {
                assert(ids[i] == ids.drop_last()[i]);
            }
        }
    }
}

/// The higher of the next ids so far and after one more id, where it is still an id.
pub fn raise_next_id(next: Option<i64>, id: i64) -> (r: Option<i64>)
    ensures
        forall|ids: Seq<i64>|
            (next matches Some(n) ==> next_id(ids) == n) && (next is None ==> next_id(ids)
                > i64::MAX) ==> {
                &&& r matches Some(n) ==> #[trigger] next_id(ids.push(id)) == n
                &&& r is None ==> next_id(ids.push(id)) > i64::MAX
            },
{
    let r = match next {
        Some(n) => if id < n {
            Some(n)
        } else if id < i64::MAX {
            Some(id + 1)
        } else {
            None
        },
        None => None,
    };
    assert forall|ids: Seq<i64>|
        (next matches Some(n) ==> next_id(ids) == n) && (next is None ==> next_id(ids)
            > i64::MAX) implies {
        &&& r matches Some(n) ==> #[trigger] next_id(ids.push(id)) == n
        &&& r is None ==> next_id(ids.push(id)) > i64::MAX
    } by {
        assert(ids.push(id).drop_last() =~= ids);
    }
    r
}

/// A new id is the least that is higher than all ids so far, from 1 on.
pub proof fn next_id_is_least(ids: Seq<i64>)
    ensures
        next_id(ids) == 1 || exists|i: int| 0 <= i < ids.len() && #[trigger] ids[i] == next_id(ids)
            - 1,
    decreases ids.len(),
{
    if ids.len() > 0 {
        let fewer = ids.drop_last();
        next_id_is_least(fewer);
        if next_id(ids) == ids.last() + 1 {
            assert(ids[ids.len() - 1] == next_id(ids) - 1);
        } else if next_id(fewer) != 1 {
            let i = choose|i: int|
                0 <= i < fewer.len() && #[trigger] fewer[i] == next_id(fewer) - 1;
            assert(ids[i] == fewer[i]);
        }
    }
}

} // verus!
