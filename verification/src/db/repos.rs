//! The repositories.

use vstd::prelude::*;

use crate::db::order::{
    is_order, key_values, keys_are_totally_ordered, newest_first_key, newest_key,
    order_lists_each_row_once, order_of, row_before, rows_have_an_order, the_order,
    time_keys_follow_time,
};
use crate::db::{next_id, next_id_is_higher, raise_next_id, DbError};
use crate::domain::ids::RepoId;
use crate::domain::repo::{
    is_repo_url, is_sha, CommitSha, GitHubRepoUrl, NewRepo, Repo,
};
use crate::text::{lowered, same_text};
use crate::time::{
    is_readable_column, is_stored_as, is_stored_in, is_writable, optional_rfc3339, read_column,
    read_text, stored_instant, Column, Timestamp, INVALID_DATE,
};

verus! {

/// The ids of a list of repositories.
pub open spec fn repo_ids(repos: Seq<Repo>) -> Seq<i64> {
    repos.map_values(|r: Repo| r.id.0)
}

/// All repositories have different ids.
pub open spec fn unique_repo_ids(repos: Seq<Repo>) -> bool {
    forall|i: int, j: int| 0 <= i < j < repos.len() ==> repos[i].id != repos[j].id
}

fn fresh_id(repos: &Vec<Repo>) -> (r: Option<i64>)
    ensures
        r matches Some(n) ==> next_id(repo_ids(repos@)) == n,
        r is None ==> next_id(repo_ids(repos@)) > i64::MAX,
{
    let mut next: Option<i64> = Some(1);
    let mut i: usize = 0;
    assert(repo_ids(repos@).take(0) =~= Seq::<i64>::empty());
    while i < repos.len()
        invariant
            i <= repos@.len(),
            next matches Some(n) ==> next_id(repo_ids(repos@).take(i as int)) == n,
            next is None ==> next_id(repo_ids(repos@).take(i as int)) > i64::MAX,
        decreases repos.len() - i,
    {
        let ghost ids = repo_ids(repos@);
        assert(ids.take(i + 1) =~= ids.take(i as int).push(repos@[i as int].id.0));
        next = raise_next_id(next, repos[i].id.0);
        i += 1;
    }
    assert(repo_ids(repos@).take(i as int) =~= repo_ids(repos@));
    next
}

/// Creates a new repository, under a new id, with no commit reviewed and no check made yet. Its
/// creation is noted to the second.
pub fn create(repos: &mut Vec<Repo>, new_repo: NewRepo, now: Timestamp) -> (r: Result<
    Repo,
    DbError,
>)
    ensures
        match r {
            Ok(repo) => {
                &&& repo == (Repo {
                    id: repo.id,
                    url: new_repo.url,
                    last_commit_sha: None,
                    last_checked_at: None,
                    created_at: now.at_second(),
                })
                &&& repo.created_at.secs() == now.secs()
                &&& repo.created_at.nanos() == 0
                &&& repo.id.0 == next_id(repo_ids(old(repos)@))
                &&& final(repos)@ == old(repos)@.push(repo)
                &&& unique_repo_ids(old(repos)@) ==> unique_repo_ids(final(repos)@)
            },
            Err(e) => e == DbError::TableFull && next_id(repo_ids(old(repos)@)) > i64::MAX
                && final(repos)@ == old(repos)@,
        },
{
    match fresh_id(repos) {
        Some(id) => {
            proof {
                next_id_is_higher(repo_ids(repos@));
                assert forall|i: int| 0 <= i < repos@.len() implies repos@[i].id.0 != id by {
                    assert(repo_ids(repos@)[i] == repos@[i].id.0);
                }
            }
            let repo = Repo {
                id: RepoId::new(id),
                url: new_repo.url,
                last_commit_sha: None,
                last_checked_at: None,
                created_at: now.whole_second(),
            };
            repos.push(repo.clone());
            Ok(repo)
        },
        None => Err(DbError::TableFull),
    }
}

/// The repository at `k` is the first with the given id.
pub open spec fn is_repo_at(repos: Seq<Repo>, id: RepoId, k: int) -> bool {
    &&& 0 <= k < repos.len()
    &&& repos[k].id == id
    &&& forall|j: int| 0 <= j < k ==> (#[trigger] repos[j]).id != id
}

/// Some repository has the given id.
pub open spec fn has_repo(repos: Seq<Repo>, id: RepoId) -> bool {
    exists|k: int| 0 <= k < repos.len() && (#[trigger] repos[k]).id == id
}

/// Gets a repository by ID.
pub fn get_by_id(repos: &Vec<Repo>, id: RepoId) -> (r: Option<Repo>)
    ensures
        match r {
            Some(repo) => has_repo(repos@, id) && exists|k: int| #[trigger]
                is_repo_at(repos@, id, k) && repo == repos@[k],
            None => !has_repo(repos@, id),
        },
{
    let mut i: usize = 0;
    while i < repos.len()
        invariant
            i <= repos@.len(),
            forall|j: int| 0 <= j < i ==> (#[trigger] repos@[j]).id != id,
        decreases repos.len() - i,
    {
        if repos[i].id == id {
            assert(is_repo_at(repos@, id, i as int));
            return Some(repos[i].clone());
        }
        i += 1;
    }
    None
}

/// A repository that was created is found under its id.
pub proof fn created_repo_is_found(repos: Seq<Repo>, repo: Repo)
    requires
        repo.id.0 == next_id(repo_ids(repos)),
    ensures
        is_repo_at(repos.push(repo), repo.id, repos.len() as int),
        has_repo(repos.push(repo), repo.id),
{
    next_id_is_higher(repo_ids(repos));
    assert forall|j: int| 0 <= j < repos.len() implies (#[trigger] repos.push(repo)[j]).id
        != repo.id by {
        assert(repo_ids(repos)[j] == repos[j].id.0);
    }
    assert(repos.push(repo)[repos.len() as int].id == repo.id);
}

/// The sort keys that put repositories in descending order of their creation.
pub open spec fn newest_keys(repos: Seq<Repo>) -> Seq<Seq<i64>> {
    repos.map_values(|r: Repo| newest_key(r.created_at))
}

/// The rows of a list, taken in the given order.
pub open spec fn in_order(repos: Seq<Repo>, order: Seq<usize>) -> Seq<Repo> {
    order.map_values(|i: usize| repos[i as int])
}

/// All repositories, the newest first.
pub open spec fn newest_first(repos: Seq<Repo>) -> Seq<Repo> {
    in_order(repos, the_order(newest_keys(repos)))
}

/// Gets all repositories, the newest first.
pub fn list_all(repos: &Vec<Repo>) -> (r: Vec<Repo>)
    ensures
        r@ == newest_first(repos@),
        is_order(newest_keys(repos@), the_order(newest_keys(repos@))),
{
    let mut keys: Vec<Vec<i64>> = Vec::new();
    let mut i: usize = 0;
    while i < repos.len()
        invariant
            i <= repos@.len(),
            keys@.len() == i,
            forall|j: int|
                0 <= j < i ==> (#[trigger] keys@[j])@ == newest_key(repos@[j].created_at),
        decreases repos.len() - i,
    {
        keys.push(newest_first_key(&repos[i].created_at));
        i += 1;
    }
    assert(key_values(keys@) =~= newest_keys(repos@));
    let order = order_of(&keys);
    let mut out: Vec<Repo> = Vec::new();
    let mut k: usize = 0;
    while k < order.len()
        invariant
            k <= order@.len(),
            is_order(newest_keys(repos@), order@),
            out@.len() == k,
            forall|j: int| 0 <= j < k ==> #[trigger] out@[j] == repos@[order@[j] as int],
        decreases order.len() - k,
    {
        assert(order@[k as int] < newest_keys(repos@).len());
        out.push(repos[order[k]].clone());
        k += 1;
    }
    assert(out@ =~= in_order(repos@, order@));
    out
}

/// Deletes a repository by ID. Tells whether there was one.
pub fn delete(repos: &mut Vec<Repo>, id: RepoId) -> (r: bool)
    ensures
        final(repos)@ == old(repos)@.filter(|x: Repo| x.id != id),
        r == has_repo(old(repos)@, id),
        !has_repo(final(repos)@, id),
        unique_repo_ids(old(repos)@) ==> unique_repo_ids(final(repos)@),
{
    let mut kept: Vec<Repo> = Vec::new();
    let mut found = false;
    let mut i: usize = 0;
    proof {
        reveal(Seq::filter);
    }
    assert(repos@.take(0) =~= Seq::<Repo>::empty());
    while i < repos.len()
        invariant
            i <= repos@.len(),
            repos@ == old(repos)@,
            kept@ == repos@.take(i as int).filter(|x: Repo| x.id != id),
            found == exists|k: int| 0 <= k < i && (#[trigger] repos@[k]).id == id,
            forall|k: int| 0 <= k < kept@.len() ==> (#[trigger] kept@[k]).id != id,
            unique_repo_ids(repos@) ==> unique_repo_ids(kept@),
            unique_repo_ids(repos@) ==> forall|k: int, j: int|
                0 <= k < kept@.len() && i <= j < repos@.len() ==> kept@[k].id != repos@[j].id,
        decreases repos.len() - i,
    {
        proof {
            reveal(Seq::filter);
        }
        assert(repos@.take(i + 1).drop_last() =~= repos@.take(i as int));
        if repos[i].id == id {
            found = true;
        } else {
            kept.push(repos[i].clone());
        }
        i += 1;
    }
    assert(repos@.take(i as int) =~= repos@);
    *repos = kept;
    found
}

proof fn same_rows_keep_ids(before: Seq<Repo>, after: Seq<Repo>)
    requires
        before.len() == after.len(),
        forall|i: int| 0 <= i < before.len() ==> (#[trigger] after[i]).id == before[i].id,
    ensures
        unique_repo_ids(before) ==> unique_repo_ids(after),
{
    if unique_repo_ids(before) {
        assert forall|i: int, j: int| 0 <= i < j < after.len() implies after[i].id
            != after[j].id by {
            assert(before[i].id != before[j].id);
        }
    }
}

/// Updates the last commit SHA for a repository.
pub fn update_last_commit(repos: &mut Vec<Repo>, id: RepoId, sha: &CommitSha)
    ensures
        final(repos)@.len() == old(repos)@.len(),
        forall|i: int|
            0 <= i < old(repos)@.len() ==> #[trigger] final(repos)@[i] == if old(repos)@[i].id
                == id {
                Repo { last_commit_sha: Some(*sha), ..old(repos)@[i] }
            } else {
                old(repos)@[i]
            },
        unique_repo_ids(old(repos)@) ==> unique_repo_ids(final(repos)@),
{
    let ghost before = repos@;
    let mut i: usize = 0;
    while i < repos.len()
        invariant
            i <= repos@.len(),
            repos@.len() == before.len(),
            forall|j: int|
                0 <= j < i ==> #[trigger] repos@[j] == if before[j].id == id {
                    Repo { last_commit_sha: Some(*sha), ..before[j] }
                } else {
                    before[j]
                },
            forall|j: int| i <= j < repos@.len() ==> #[trigger] repos@[j] == before[j],
        decreases repos.len() - i,
    {
        if repos[i].id == id {
            let mut repo = repos[i].clone();
            repo.last_commit_sha = Some(sha.clone());
            repos.set(i, repo);
        }
        i += 1;
    }
    proof {
        same_rows_keep_ids(before, repos@);
    }
}

/// Checks if a repository exists by URL.
pub fn exists_by_url(repos: &Vec<Repo>, url: &GitHubRepoUrl) -> (r: bool)
    ensures
        r == exists|k: int|
            0 <= k < repos@.len() && (#[trigger] repos@[k]).url.url_text() == url.url_text(),
{
    let mut i: usize = 0;
    while i < repos.len()
        invariant
            i <= repos@.len(),
            forall|j: int|
                0 <= j < i ==> (#[trigger] repos@[j]).url.url_text() != url.url_text(),
        decreases repos.len() - i,
    {
        if same_text(repos[i].url.as_str(), url.as_str()) {
            return true;
        }
        i += 1;
    }
    false
}

/// Updates the last_checked_at timestamp to now.
/// Call this after checking a repo for changes, even if no changes were found.
pub fn update_last_checked(repos: &mut Vec<Repo>, id: RepoId, now: Timestamp)
    ensures
        final(repos)@.len() == old(repos)@.len(),
        forall|i: int|
            0 <= i < old(repos)@.len() ==> #[trigger] final(repos)@[i] == if old(repos)@[i].id
                == id {
                Repo { last_checked_at: Some(now), ..old(repos)@[i] }
            } else {
                old(repos)@[i]
            },
        unique_repo_ids(old(repos)@) ==> unique_repo_ids(final(repos)@),
{
    let ghost before = repos@;
    let mut i: usize = 0;
    while i < repos.len()
        invariant
            i <= repos@.len(),
            repos@.len() == before.len(),
            forall|j: int|
                0 <= j < i ==> #[trigger] repos@[j] == if before[j].id == id {
                    Repo { last_checked_at: Some(now), ..before[j] }
                } else {
                    before[j]
                },
            forall|j: int| i <= j < repos@.len() ==> #[trigger] repos@[j] == before[j],
        decreases repos.len() - i,
    {
        if repos[i].id == id {
            let mut repo = repos[i].clone();
            repo.last_checked_at = Some(now);
            repos.set(i, repo);
        }
        i += 1;
    }
    proof {
        same_rows_keep_ids(before, repos@);
    }
}

/// A repository that was never checked, or whose last check lies more than `interval_hours` hours
/// back, in whole seconds.
pub open spec fn is_check_due(repo: Repo, interval_hours: i64, now: Timestamp) -> bool {
    match repo.last_checked_at {
        Some(checked) => checked.secs() + interval_hours * 3600 < now.secs(),
        None => true,
    }
}

/// Checks if a repository needs to be checked for updates.
///
/// This is so if:
/// - The repo has never been checked (last_checked_at is empty), OR
/// - More than `interval_hours` have passed since the last check
///
/// This is used by the scheduler to determine if a new review job should be created.
pub fn needs_check(repos: &Vec<Repo>, id: RepoId, interval_hours: i64, now: Timestamp) -> (r: bool)
    ensures
        r == exists|k: int|
            0 <= k < repos@.len() && (#[trigger] repos@[k]).id == id && is_check_due(
                repos@[k],
                interval_hours,
                now,
            ),
{
    let mut i: usize = 0;
    while i < repos.len()
        invariant
            i <= repos@.len(),
            forall|j: int|
                0 <= j < i ==> !((#[trigger] repos@[j]).id == id && is_check_due(
                    repos@[j],
                    interval_hours,
                    now,
                )),
        decreases repos.len() - i,
    {
        if repos[i].id == id {
            let due = match repos[i].last_checked_at {
                Some(checked) => checked.seconds() as i128 + interval_hours as i128 * 3600
                    < now.seconds() as i128,
                None => true,
            };
            if due {
                return true;
            }
        }
        i += 1;
    }
    false
}

/// A repository that was just checked needs no further check until the interval has passed.
pub proof fn checked_repo_is_left_alone(
    repo: Repo,
    checked: Timestamp,
    interval_hours: i64,
    now: Timestamp,
)
    requires
        now.secs() <= checked.secs() + interval_hours * 3600,
    ensures
        !is_check_due(Repo { last_checked_at: Some(checked), ..repo }, interval_hours, now),
{
}

// --- Rows ---

/// Database row for the repos table.
#[derive(Debug)]
pub struct RepoRow {
    /// The repository's id.
    pub id: i64,
    /// Its URL.
    pub url: String,
    /// The commit that was reviewed last.
    pub last_commit_sha: Option<String>,
    /// When it was last checked.
    pub last_checked_at: Option<String>,
    /// When it was registered.
    pub created_at: String,
}

/// What is wrong with a row, where it is no repository: the first of its columns that cannot be
/// read.
pub open spec fn repo_row_error(row: RepoRow) -> Option<Seq<char>> {
    if !is_repo_url(row.url@) {
        Some("invalid URL in database"@)
    } else if row.last_commit_sha is Some && !is_sha(row.last_commit_sha->Some_0@) {
        Some("invalid commit SHA in database"@)
    } else if !is_readable_column(row.last_checked_at) || stored_instant(row.created_at@) is None {
        Some(INVALID_DATE@)
    } else {
        None
    }
}

/// The SHA is what an optional column holds.
pub open spec fn is_sha_in(sha: Option<CommitSha>, column: Option<String>) -> bool {
    match (sha, column) {
        (Some(sha), Some(text)) => sha@ == lowered(text@),
        (None, None) => true,
        _ => false,
    }
}

/// The repository is what the row holds.
pub open spec fn is_repo_of_row(repo: Repo, row: RepoRow) -> bool {
    &&& repo.id.0 == row.id
    &&& repo.url.is_named_by(row.url@)
    &&& is_sha_in(repo.last_commit_sha, row.last_commit_sha)
    &&& is_stored_in(repo.last_checked_at, row.last_checked_at)
    &&& is_stored_as(repo.created_at, row.created_at@)
}

/// The columns of a row, as values.
#[derive(Debug)]
pub struct RepoColumns {
    /// The repository's id.
    pub id: i64,
    /// What its URL reads as.
    pub url: Option<GitHubRepoUrl>,
    /// The commit that was reviewed last.
    pub last_commit_sha: Option<String>,
    /// When it was last checked.
    pub last_checked_at: Column,
    /// When it was registered.
    pub created_at: Column,
}

/// What is wrong with columns that make no repository: the first of them that cannot be read.
pub open spec fn repo_columns_error(columns: RepoColumns) -> Option<Seq<char>> {
    if columns.url is None {
        Some("invalid URL in database"@)
    } else if columns.last_commit_sha is Some && !is_sha(columns.last_commit_sha->Some_0@) {
        Some("invalid commit SHA in database"@)
    } else if !columns.last_checked_at.readable() || columns.created_at.instant() is None {
        Some(INVALID_DATE@)
    } else {
        None
    }
}

/// The repository that the columns of a row make.
pub fn repo_of_columns(columns: RepoColumns) -> (r: Result<Repo, &'static str>)
    ensures
        match r {
            Ok(repo) => {
                &&& repo_columns_error(columns) is None
                &&& repo.id.0 == columns.id
                &&& Some(repo.url) == columns.url
                &&& is_sha_in(repo.last_commit_sha, columns.last_commit_sha)
                &&& repo.last_checked_at == columns.last_checked_at.instant()
                &&& Some(repo.created_at) == columns.created_at.instant()
            },
            Err(e) => repo_columns_error(columns) == Some(e@),
        },
{
    let url = match columns.url {
        Some(url) => url,
        None => {
            return Err("invalid URL in database");
        },
    };
    let last_commit_sha = match &columns.last_commit_sha {
        Some(text) => match CommitSha::parse(text.as_str()) {
            Some(sha) => Some(sha),
            None => {
                return Err("invalid commit SHA in database");
            },
        },
        None => None,
    };
    match (columns.last_checked_at.optional_time(), columns.created_at.time()) {
        (Ok(last_checked_at), Ok(created_at)) => Ok(
            Repo { id: RepoId::new(columns.id), url, last_commit_sha, last_checked_at, created_at },
        ),
        _ => Err(INVALID_DATE),
    }
}

/// The repository that a row holds.
pub fn repo_of_row(row: RepoRow) -> (r: Result<Repo, &'static str>)
    ensures
        match r {
            Ok(repo) => repo_row_error(row) is None && is_repo_of_row(repo, row),
            Err(e) => repo_row_error(row) == Some(e@),
        },
{
    repo_of_columns(
        RepoColumns {
            id: row.id,
            url: GitHubRepoUrl::parse(row.url.as_str()),
            last_commit_sha: row.last_commit_sha,
            last_checked_at: read_column(&row.last_checked_at),
            created_at: read_text(row.created_at.as_str()),
        },
    )
}

/// The row that holds a repository. It is read back from it, where its times can be written and
/// its URL names it in its normal form.
pub fn row_of_repo(repo: &Repo) -> (r: RepoRow)
    ensures
        r.id == repo.id.0,
        r.url@ == repo.url.url_text(),
        is_writable(repo.last_checked_at) && is_writable(Some(repo.created_at))
            && repo.url.is_named_by(repo.url.url_text()) ==> repo_row_error(r) is None
            && is_repo_of_row(*repo, r),
{
    let last_commit_sha = match &repo.last_commit_sha {
        Some(sha) => Some(sha.as_str().to_owned()),
        None => None,
    };
    RepoRow {
        id: repo.id.0,
        url: repo.url.as_str().to_owned(),
        last_commit_sha,
        last_checked_at: optional_rfc3339(&repo.last_checked_at),
        created_at: repo.created_at.to_rfc3339(),
    }
}

// --- What listings and checks mean ---

/// The listing holds all repositories and nothing else, and none that was registered later stands
/// behind one that was registered earlier.
pub proof fn repos_are_listed_newest_first(repos: Seq<Repo>)
    requires
        repos.len() <= usize::MAX,
        forall|k: int| 0 <= k < repos.len() ==> (#[trigger] repos[k]).created_at.secs() > i64::MIN,
    ensures
        ({
            let listed = newest_first(repos);
            &&& listed.len() == repos.len()
            &&& forall|k: int| 0 <= k < listed.len() ==> repos.contains(#[trigger] listed[k])
            &&& forall|m: int| 0 <= m < repos.len() ==> listed.contains(#[trigger] repos[m])
            &&& forall|i: int, j: int|
                0 <= i < j < listed.len() ==> !(#[trigger] listed[i]).created_at.before(
                    (#[trigger] listed[j]).created_at,
                )
        }),
{
    let keys = newest_keys(repos);
    let order = the_order(keys);
    let listed = newest_first(repos);
    rows_have_an_order(keys);
    assert forall|k: int| 0 <= k < listed.len() implies repos.contains(#[trigger] listed[k]) by {
        assert(order[k] < keys.len());
        assert(listed[k] == repos[order[k] as int]);
    }
    assert forall|m: int| 0 <= m < repos.len() implies listed.contains(#[trigger] repos[m]) by {
        order_lists_each_row_once(keys, order, m);
        let i = choose|i: int| 0 <= i < order.len() && order[i] == m;
        assert(listed[i] == repos[m]);
    }
    assert forall|i: int, j: int| 0 <= i < j < listed.len() implies !(
    #[trigger] listed[i]).created_at.before((#[trigger] listed[j]).created_at) by {
        let a = order[i] as int;
        let b = order[j] as int;
        assert(row_before(keys, a, b));
        assert(a < keys.len() && b < keys.len());
        keys_are_totally_ordered(keys[a], keys[b]);
        assert(repos[a].created_at.secs() > i64::MIN);
        assert(repos[b].created_at.secs() > i64::MIN);
        time_keys_follow_time(repos[b].created_at, repos[a].created_at);
    }
}

/// A check is due for a repository that was never checked, and else exactly when the seconds of the
/// interval have passed since its last check. Once due it stays so.
pub proof fn check_is_due_after_the_interval(
    repo: Repo,
    checked: Timestamp,
    interval_hours: i64,
    now: Timestamp,
    later: Timestamp,
)
    ensures
        repo.last_checked_at is None ==> is_check_due(repo, interval_hours, now),
        repo.last_checked_at == Some(checked) ==> (is_check_due(repo, interval_hours, now)
            <==> now.secs() - checked.secs() > 3600 * interval_hours),
        now.secs() <= later.secs() && is_check_due(repo, interval_hours, now) ==> is_check_due(
            repo,
            interval_hours,
            later,
        ),
{
}

/// A row is a repository exactly if its URL names one, its SHA is one where there is one, and its
/// times can be read.
pub proof fn readable_rows(row: RepoRow)
    ensures
        repo_row_error(row) is None <==> {
            &&& is_repo_url(row.url@)
            &&& row.last_commit_sha is None || is_sha(row.last_commit_sha->Some_0@)
            &&& row.last_checked_at is None || stored_instant(row.last_checked_at->Some_0@) is Some
            &&& stored_instant(row.created_at@) is Some
        },
        !is_repo_url(row.url@) ==> repo_row_error(row) == Some("invalid URL in database"@),
{
}

/// A repository that is read has the id, the URL, the last commit and the times that are stored.
pub proof fn repo_is_what_is_stored(repo: Repo, row: RepoRow)
    requires
        is_repo_of_row(repo, row),
    ensures
        repo.id == RepoId(row.id),
        repo.url.is_named_by(row.url@),
        repo.last_commit_sha is None <==> row.last_commit_sha is None,
        row.last_commit_sha is Some ==> repo.last_commit_sha->Some_0@ == lowered(
            row.last_commit_sha->Some_0@,
        ),
        repo.last_checked_at is None <==> row.last_checked_at is None,
        row.last_checked_at is Some ==> stored_instant(row.last_checked_at->Some_0@) == Some(
            (repo.last_checked_at->Some_0.secs(), repo.last_checked_at->Some_0.nanos()),
        ),
        stored_instant(row.created_at@) == Some((repo.created_at.secs(), repo.created_at.nanos())),
{
}

/// A repository is found under an id exactly if some row has it, and the first such row counts.
pub proof fn first_row_with_the_id_counts(repos: Seq<Repo>, id: RepoId, k: int)
    ensures
        has_repo(repos, id) <==> exists|i: int|
            #![trigger repos[i]]
            0 <= i < repos.len() && repos[i].id == id,
        is_repo_at(repos, id, k) <==> 0 <= k < repos.len() && repos[k].id == id && forall|i: int|
            #![trigger repos[i]]
            0 <= i < k ==> repos[i].id != id,
{
}

} // verus!
