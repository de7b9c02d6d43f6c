//! What the API does with each request.

use vstd::prelude::*;

use crate::api::error::{is_bad_request, is_conflict, is_database, is_not_found, ApiError};
use crate::api::stream_token::{generated, is_token_text, StreamTokenStore, TOKEN_TTL};
use crate::db::jobs::{created_job, has_pending_review, job_ids, review_is_pending};
use crate::db::prompts::{
    has_prompt, is_owned, is_prompt_at, is_updated, listing_of, prompt_ids,
    prompts_of,
};
use crate::db::repos::{has_repo, is_repo_at, newest_first, repo_ids};
use crate::db::reviews::{
    has_review, is_result_of, is_review_at, is_status_of, results_for, review_row_error,
    ReviewResultRow, ReviewRow,
};
use crate::db::{jobs, next_id, prompts, repos, reviews, Database, DbError};
use crate::domain::ids::{JobId, PromptId, RepoId, ReviewId};
use crate::domain::job::{JobPayload, NewJob, DEFAULT_MAX_ATTEMPTS};
use crate::domain::prompt::{
    default_prompt_is_valid, NewPrompt, Prompt, PromptText, DEFAULT_REVIEW_PROMPT,
};
use crate::domain::repo::{is_repo_url, url_parts, GitHubRepoUrl, NewRepo, Repo};
use crate::domain::review::{
    review_trigger_text_roundtrips, PromptResult, Review, ReviewStatus,
};
use crate::text::{is_blank, lowered, trimmed};
use crate::time::{rfc3339_text, stored_instant, Timestamp};

verus! {

// --- Health Check ---

/// The HTTP status of a server that runs.
pub fn health_check() -> (r: u16)
    ensures
        r == 200,
{
    200
}

// --- Repos ---

/// A repository in a response.
#[derive(Debug)]
pub struct RepoResponse {
    /// The repository's id.
    pub id: i64,
    /// Its URL.
    pub url: String,
    /// Its owner.
    pub owner: String,
    /// Its name.
    pub name: String,
    /// The commit that was reviewed last.
    pub last_commit_sha: Option<String>,
    /// How many prompts it has.
    pub prompt_count: u64,
    /// Its last review.
    pub last_review: Option<ReviewSummary>,
    /// When it was registered.
    pub created_at: String,
}

/// A review in a response about its repository.
#[derive(Debug)]
pub struct ReviewSummary {
    /// The review's id.
    pub id: i64,
    /// Where it stands.
    pub status: String,
    /// How it was triggered.
    pub trigger: String,
    /// Whether action is required, where that is known.
    pub action_required: Option<bool>,
    /// When it was created.
    pub created_at: String,
}

/// A request to register a repository.
#[derive(Debug)]
pub struct CreateRepoRequest {
    /// Its URL.
    pub url: String,
}

/// The summary is that of the review in the row.
pub open spec fn is_summary_of(summary: ReviewSummary, row: ReviewRow) -> bool {
    &&& summary.id == row.id
    &&& summary.status@ == row.status@
    &&& summary.trigger@ == row.trigger@
    &&& summary.action_required is None
    &&& stored_instant(row.created_at@) matches Some(t) && summary.created_at@ == rfc3339_text(
        t.0,
        t.1,
    )
}

/// The summary, if any, is that of the first of the listed reviews, if any.
pub open spec fn is_last_review(summary: Option<ReviewSummary>, listed: Seq<ReviewRow>) -> bool {
    match summary {
        Some(summary) => listed.len() > 0 && is_summary_of(summary, listed[0]),
        None => listed.len() == 0,
    }
}

/// The response shows the repository, its number of prompts and its last review.
pub open spec fn is_repo_response(
    response: RepoResponse,
    repo: Repo,
    prompts: Seq<Prompt>,
    reviews: Seq<ReviewRow>,
) -> bool {
    &&& response.id == repo.id.0
    &&& response.url@ == repo.url.url_text()
    &&& response.owner@ == repo.url.owner_text()
    &&& response.name@ == repo.url.name_text()
    &&& match (response.last_commit_sha, repo.last_commit_sha) {
        (Some(text), Some(sha)) => text@ == sha@,
        (None, None) => true,
        _ => false,
    }
    &&& response.prompt_count == prompts_of(prompts, repo.id, false).len()
    &&& is_last_review(response.last_review, reviews::listing_of(reviews, repo.id))
    &&& response.created_at@ == rfc3339_text(repo.created_at.secs(), repo.created_at.nanos())
}

/// What is wrong with the last review of a repository, where it cannot be read.
pub open spec fn last_review_error(reviews: Seq<ReviewRow>, repo_id: RepoId) -> Option<Seq<char>> {
    let listed = reviews::listing_of(reviews, repo_id);
    if listed.len() > 0 {
        review_row_error(listed[0])
    } else {
        None
    }
}

fn repo_response(db: &Database, repo: &Repo) -> (r: Result<RepoResponse, ApiError>)
    ensures
        match r {
            Ok(response) => last_review_error(db.reviews@, repo.id) is None && is_repo_response(
                response,
                *repo,
                db.prompts@,
                db.reviews@,
            ),
            Err(e) => last_review_error(db.reviews@, repo.id) is Some && is_database(
                e,
                last_review_error(db.reviews@, repo.id)->Some_0,
            ),
        },
{
    let prompt_count = prompts::count_by_repo(&db.prompts, repo.id) as u64;
    let last_review = match reviews::get_latest_for_repo(&db.reviews, repo.id) {
        Ok(Some(review)) => {
            let ghost row = reviews::listing_of(db.reviews@, repo.id)[0];
            proof {
                review_trigger_text_roundtrips(review.trigger, row.trigger@);
            }
            assert(is_status_of(review.status, row));
            Some(
                ReviewSummary {
                    id: review.id.into_inner(),
                    status: review.status.status_str().to_owned(),
                    trigger: review.trigger.as_str().to_owned(),
                    action_required: None,
                    created_at: review.created_at.to_rfc3339(),
                },
            )
        },
        Ok(None) => None,
        Err(e) => {
            return Err(ApiError::Database(e.to_owned()));
        },
    };
    let last_commit_sha = match &repo.last_commit_sha {
        Some(sha) => Some(sha.as_str().to_owned()),
        None => None,
    };
    Ok(
        RepoResponse {
            id: repo.id.into_inner(),
            url: repo.url.as_str().to_owned(),
            owner: repo.url.owner().to_owned(),
            name: repo.url.name().to_owned(),
            last_commit_sha,
            prompt_count,
            last_review,
            created_at: repo.created_at.to_rfc3339(),
        },
    )
}

/// All repositories, the newest first. If the last review of some of them cannot be read, the
/// error is that of the first such.
pub fn list_repos(db: &Database) -> (r: Result<Vec<RepoResponse>, ApiError>)
    ensures
        ({
            let listed = newest_first(db.repos@);
            match r {
                Ok(list) => {
                    &&& list@.len() == listed.len()
                    &&& forall|i: int|
                        0 <= i < listed.len() ==> is_repo_response(
                            #[trigger] list@[i],
                            listed[i],
                            db.prompts@,
                            db.reviews@,
                        )
                    &&& forall|i: int|
                        0 <= i < listed.len() ==> last_review_error(
                            db.reviews@,
                            (#[trigger] listed[i]).id,
                        ) is None
                },
                Err(e) => exists|i: int|
                    0 <= i < listed.len() && last_review_error(
                        db.reviews@,
                        (#[trigger] listed[i]).id,
                    ) is Some && is_database(
                        e,
                        last_review_error(db.reviews@, listed[i].id)->Some_0,
                    ) && forall|j: int|
                        0 <= j < i ==> last_review_error(db.reviews@, (#[trigger] listed[j]).id)
                            is None,
            }
        }),
{
    let repos_list = repos::list_all(&db.repos);
    let mut responses: Vec<RepoResponse> = Vec::new();
    let mut i: usize = 0;
    while i < repos_list.len()
        invariant
            i <= repos_list@.len(),
            repos_list@ == newest_first(db.repos@),
            responses@.len() == i,
            forall|j: int|
                0 <= j < i ==> is_repo_response(
                    #[trigger] responses@[j],
                    repos_list@[j],
                    db.prompts@,
                    db.reviews@,
                ),
            forall|j: int|
                0 <= j < i ==> last_review_error(db.reviews@, (#[trigger] repos_list@[j]).id)
                    is None,
        decreases repos_list.len() - i,
    {
        match repo_response(db, &repos_list[i]) {
            Ok(response) => {
                responses.push(response);
            },
            Err(e) => {
                assert(last_review_error(db.reviews@, newest_first(db.repos@)[i as int].id)
                    is Some);
                return Err(e);
            },
        }
        i += 1;
    }
    Ok(responses)
}

/// What the database says of a failed operation.
pub open spec fn db_error_text(e: DbError) -> Seq<char> {
    match e {
        DbError::RowNotFound => "no rows returned by a query that expected to return at least one row"@,
        DbError::TableFull => "database or disk is full"@,
    }
}

/// The error of a request whose database operation failed.
pub fn database_error(e: DbError) -> (r: ApiError)
    ensures
        is_database(r, db_error_text(e)),
{
    match e {
        DbError::RowNotFound => ApiError::Database(
            "no rows returned by a query that expected to return at least one row".to_owned(),
        ),
        DbError::TableFull => ApiError::Database("database or disk is full".to_owned()),
    }
}

/// Some registered repository has the same URL.
pub open spec fn is_registered(repos: Seq<Repo>, url: Seq<char>) -> bool {
    exists|k: int| 0 <= k < repos.len() && (#[trigger] repos[k]).url.url_text() == url
}

/// The normal form of a URL.
pub open spec fn normal_url(url: Seq<char>) -> Seq<char> {
    (url_parts(url)->Some_0).5
}

/// The repository is a new one with the given URL.
pub open spec fn is_new_repo(repo: Repo, url: Seq<char>, repos: Seq<Repo>, now: Timestamp) -> bool {
    &&& repo.id.0 == next_id(repo_ids(repos))
    &&& repo.url.is_named_by(url)
    &&& repo.last_commit_sha is None
    &&& repo.last_checked_at is None
    &&& repo.created_at.secs() == now.secs()
    &&& repo.created_at.nanos() == 0
}

/// The repository is a new one under the given URL.
pub open spec fn is_registered_as(
    repo: Repo,
    url: GitHubRepoUrl,
    repos: Seq<Repo>,
    now: Timestamp,
) -> bool {
    &&& repo.id.0 == next_id(repo_ids(repos))
    &&& repo.url == url
    &&& repo.last_commit_sha is None
    &&& repo.last_checked_at is None
    &&& repo.created_at.secs() == now.secs()
    &&& repo.created_at.nanos() == 0
}

/// The prompt is the default prompt of a new repository.
pub open spec fn is_default_prompt(
    prompt: Prompt,
    repo_id: RepoId,
    prompts: Seq<Prompt>,
    now: Timestamp,
) -> bool {
    &&& prompt.id.0 == next_id(prompt_ids(prompts))
    &&& prompt.repo_id == repo_id
    &&& prompt.name@ == "Comprehensive Review"@
    &&& prompt.text@ == DEFAULT_REVIEW_PROMPT@
    &&& prompt.enabled
    &&& prompt.is_default
    &&& prompt.created_at.secs() == now.secs()
    &&& prompt.created_at.nanos() == 0
}

/// Only the repositories and the prompts differ.
pub open spec fn same_reviews_and_jobs(a: Database, b: Database) -> bool {
    a.reviews == b.reviews && a.results == b.results && a.jobs == b.jobs
}

/// Registers a repository and gives it the default prompt. A URL that is not that of a GitHub
/// repository is turned down, and so is one that is already registered.
pub fn create_repo(db: &mut Database, req: CreateRepoRequest, now: Timestamp) -> (r: Result<
    RepoResponse,
    ApiError,
>)
    ensures
        same_reviews_and_jobs(*final(db), *old(db)),
        match r {
            Ok(response) => {
                &&& is_repo_url(req.url@)
                &&& !is_registered(old(db).repos@, normal_url(req.url@))
                &&& final(db).repos@.len() == old(db).repos@.len() + 1
                &&& final(db).repos@.drop_last() == old(db).repos@
                &&& final(db).prompts@.len() == old(db).prompts@.len() + 1
                &&& final(db).prompts@.drop_last() == old(db).prompts@
                &&& ({
                    let repo = final(db).repos@.last();
                    let prompt = final(db).prompts@.last();
                    &&& is_new_repo(repo, req.url@, old(db).repos@, now)
                    &&& is_default_prompt(prompt, repo.id, old(db).prompts@, now)
                    &&& response.id == repo.id.0
                    &&& response.url@ == repo.url.url_text()
                    &&& response.owner@ == repo.url.owner_text()
                    &&& response.name@ == repo.url.name_text()
                    &&& response.last_commit_sha is None
                    &&& response.prompt_count == 1
                    &&& response.last_review is None
                    &&& response.created_at@ == rfc3339_text(now.secs(), 0)
                })
            },
            Err(e) => {
                if !is_repo_url(req.url@) {
                    &&& is_bad_request(e, "Invalid GitHub URL"@)
                    &&& final(db).repos@ == old(db).repos@
                    &&& final(db).prompts@ == old(db).prompts@
                } else if is_registered(old(db).repos@, normal_url(req.url@)) {
                    &&& is_conflict(e, "Repository already registered"@)
                    &&& final(db).repos@ == old(db).repos@
                    &&& final(db).prompts@ == old(db).prompts@
                } else if next_id(repo_ids(old(db).repos@)) > i64::MAX {
                    &&& is_database(e, db_error_text(DbError::TableFull))
                    &&& final(db).repos@ == old(db).repos@
                    &&& final(db).prompts@ == old(db).prompts@
                } else {
                    &&& is_database(e, db_error_text(DbError::TableFull))
                    &&& next_id(prompt_ids(old(db).prompts@)) > i64::MAX
                    &&& final(db).prompts@ == old(db).prompts@
                    &&& final(db).repos@.len() == old(db).repos@.len() + 1
                    &&& final(db).repos@.drop_last() == old(db).repos@
                    &&& is_new_repo(final(db).repos@.last(), req.url@, old(db).repos@, now)
                }
            },
        },
{
    register_repo(db, GitHubRepoUrl::parse(req.url.as_str()), now)
}

/// Registers the repository that a URL names, if it names one, and gives it the default prompt.
/// One that is already registered is turned down.
pub fn register_repo(db: &mut Database, url: Option<GitHubRepoUrl>, now: Timestamp) -> (r: Result<
    RepoResponse,
    ApiError,
>)
    ensures
        same_reviews_and_jobs(*final(db), *old(db)),
        match r {
            Ok(response) => {
                &&& url is Some
                &&& !is_registered(old(db).repos@, url->Some_0.url_text())
                &&& final(db).repos@.len() == old(db).repos@.len() + 1
                &&& final(db).repos@.drop_last() == old(db).repos@
                &&& final(db).prompts@.len() == old(db).prompts@.len() + 1
                &&& final(db).prompts@.drop_last() == old(db).prompts@
                &&& ({
                    let repo = final(db).repos@.last();
                    let prompt = final(db).prompts@.last();
                    &&& is_registered_as(repo, url->Some_0, old(db).repos@, now)
                    &&& is_default_prompt(prompt, repo.id, old(db).prompts@, now)
                    &&& response.id == repo.id.0
                    &&& response.url@ == repo.url.url_text()
                    &&& response.owner@ == repo.url.owner_text()
                    &&& response.name@ == repo.url.name_text()
                    &&& response.last_commit_sha is None
                    &&& response.prompt_count == 1
                    &&& response.last_review is None
                    &&& response.created_at@ == rfc3339_text(now.secs(), 0)
                })
            },
            Err(e) => {
                if url is None {
                    &&& is_bad_request(e, "Invalid GitHub URL"@)
                    &&& final(db).repos@ == old(db).repos@
                    &&& final(db).prompts@ == old(db).prompts@
                } else if is_registered(old(db).repos@, url->Some_0.url_text()) {
                    &&& is_conflict(e, "Repository already registered"@)
                    &&& final(db).repos@ == old(db).repos@
                    &&& final(db).prompts@ == old(db).prompts@
                } else if next_id(repo_ids(old(db).repos@)) > i64::MAX {
                    &&& is_database(e, db_error_text(DbError::TableFull))
                    &&& final(db).repos@ == old(db).repos@
                    &&& final(db).prompts@ == old(db).prompts@
                } else {
                    &&& is_database(e, db_error_text(DbError::TableFull))
                    &&& next_id(prompt_ids(old(db).prompts@)) > i64::MAX
                    &&& final(db).prompts@ == old(db).prompts@
                    &&& final(db).repos@.len() == old(db).repos@.len() + 1
                    &&& final(db).repos@.drop_last() == old(db).repos@
                    &&& is_registered_as(final(db).repos@.last(), url->Some_0, old(db).repos@, now)
                }
            },
        },
{
    let parsed = match url {
        Some(parsed) => parsed,
        None => {
            return Err(ApiError::BadRequest("Invalid GitHub URL".to_owned()));
        },
    };
    // Check if already exists
    if repos::exists_by_url(&db.repos, &parsed) {
        return Err(ApiError::Conflict("Repository already registered".to_owned()));
    }
    let repo = match repos::create(&mut db.repos, NewRepo { url: parsed }, now) {
        Ok(repo) => repo,
        Err(e) => {
            return Err(database_error(e));
        },
    };
    assert(db.repos@.drop_last() =~= old(db).repos@);
    // Create default prompt
    proof {
        default_prompt_is_valid();
    }
    let text = PromptText::new(DEFAULT_REVIEW_PROMPT.to_owned()).unwrap();
    let new_prompt = NewPrompt {
        repo_id: repo.id,
        name: "Comprehensive Review".to_owned(),
        text,
        is_default: true,
    };
    match prompts::create(&mut db.prompts, new_prompt, now) {
        Ok(_) => {
            assert(db.prompts@.drop_last() =~= old(db).prompts@);
        },
        Err(e) => {
            return Err(database_error(e));
        },
    }
    Ok(
        RepoResponse {
            id: repo.id.into_inner(),
            url: repo.url.as_str().to_owned(),
            owner: repo.url.owner().to_owned(),
            name: repo.url.name().to_owned(),
            last_commit_sha: None,
            prompt_count: 1,
            last_review: None,
            created_at: repo.created_at.to_rfc3339(),
        },
    )
}

/// One repository.
pub fn get_repo(db: &Database, id: i64) -> (r: Result<RepoResponse, ApiError>)
    ensures
        match r {
            Ok(response) => exists|k: int| #[trigger]
                is_repo_at(db.repos@, RepoId(id), k) && last_review_error(db.reviews@, RepoId(id))
                    is None && is_repo_response(
                    response,
                    db.repos@[k],
                    db.prompts@,
                    db.reviews@,
                ),
            Err(e) => if has_repo(db.repos@, RepoId(id)) {
                last_review_error(db.reviews@, RepoId(id)) is Some && is_database(
                    e,
                    last_review_error(db.reviews@, RepoId(id))->Some_0,
                )
            } else {
                is_not_found(e, "Repository not found"@)
            },
        },
{
    match repos::get_by_id(&db.repos, RepoId::new(id)) {
        Some(repo) => repo_response(db, &repo),
        None => Err(ApiError::NotFound("Repository not found".to_owned())),
    }
}

/// Deletes a repository.
pub fn delete_repo(db: &mut Database, id: i64) -> (r: Result<(), ApiError>)
    ensures
        same_reviews_and_jobs(*final(db), *old(db)),
        final(db).prompts == old(db).prompts,
        final(db).repos@ == old(db).repos@.filter(|x: Repo| x.id != RepoId(id)),
        !has_repo(final(db).repos@, RepoId(id)),
        match r {
            Ok(_) => has_repo(old(db).repos@, RepoId(id)),
            Err(e) => !has_repo(old(db).repos@, RepoId(id)) && is_not_found(
                e,
                "Repository not found"@,
            ),
        },
{
    if repos::delete(&mut db.repos, RepoId::new(id)) {
        Ok(())
    } else {
        Err(ApiError::NotFound("Repository not found".to_owned()))
    }
}

fn verify_repo(db: &Database, repo_id: RepoId) -> (r: Result<(), ApiError>)
    ensures
        match r {
            Ok(_) => has_repo(db.repos@, repo_id),
            Err(e) => !has_repo(db.repos@, repo_id) && is_not_found(e, "Repository not found"@),
        },
{
    match repos::get_by_id(&db.repos, repo_id) {
        Some(_) => Ok(()),
        None => Err(ApiError::NotFound("Repository not found".to_owned())),
    }
}

// --- Prompts ---

/// A prompt in a response.
#[derive(Debug)]
pub struct PromptResponse {
    /// The prompt's id.
    pub id: i64,
    /// Its name.
    pub name: String,
    /// Its text.
    pub text: String,
    /// Whether reviews run it.
    pub enabled: bool,
    /// Whether it is the repository's default prompt.
    pub is_default: bool,
    /// When it was created.
    pub created_at: String,
}

/// A request to add a prompt.
#[derive(Debug)]
pub struct CreatePromptRequest {
    /// Its name.
    pub name: String,
    /// Its text.
    pub text: String,
}

/// A request to change a prompt.
#[derive(Debug)]
pub struct UpdatePromptRequest {
    /// Its name.
    pub name: String,
    /// Its text.
    pub text: String,
    /// Whether reviews run it.
    pub enabled: bool,
}

/// The response shows the prompt.
pub open spec fn is_prompt_response(response: PromptResponse, prompt: Prompt) -> bool {
    &&& response.id == prompt.id.0
    &&& response.name@ == prompt.name@
    &&& response.text@ == prompt.text@
    &&& response.enabled == prompt.enabled
    &&& response.is_default == prompt.is_default
    &&& response.created_at@ == rfc3339_text(prompt.created_at.secs(), prompt.created_at.nanos())
}

fn prompt_response(prompt: &Prompt) -> (r: PromptResponse)
    ensures
        is_prompt_response(r, *prompt),
{
    PromptResponse {
        id: prompt.id.into_inner(),
        name: prompt.name.clone(),
        text: prompt.text.as_str().to_owned(),
        enabled: prompt.enabled,
        is_default: prompt.is_default,
        created_at: prompt.created_at.to_rfc3339(),
    }
}

/// The prompts of a repository.
pub fn list_prompts(db: &Database, repo_id: i64) -> (r: Result<Vec<PromptResponse>, ApiError>)
    ensures
        match r {
            Ok(list) => {
                let listed = listing_of(prompts_of(db.prompts@, RepoId(repo_id), false));
                has_repo(db.repos@, RepoId(repo_id)) && list@.len() == listed.len() && forall|
                    i: int,
                |
                    0 <= i < listed.len() ==> is_prompt_response(#[trigger] list@[i], listed[i])
            },
            Err(e) => !has_repo(db.repos@, RepoId(repo_id)) && is_not_found(
                e,
                "Repository not found"@,
            ),
        },
{
    let repo_id = RepoId::new(repo_id);
    match verify_repo(db, repo_id) {
        Ok(_) => {},
        Err(e) => {
            return Err(e);
        },
    }
    let prompts_list = prompts::list_by_repo(&db.prompts, repo_id);
    let mut responses: Vec<PromptResponse> = Vec::new();
    let mut i: usize = 0;
    while i < prompts_list.len()
        invariant
            i <= prompts_list@.len(),
            responses@.len() == i,
            forall|j: int|
                0 <= j < i ==> is_prompt_response(#[trigger] responses@[j], prompts_list@[j]),
        decreases prompts_list.len() - i,
    {
        responses.push(prompt_response(&prompts_list[i]));
        i += 1;
    }
    Ok(responses)
}

/// Only the prompts differ.
pub open spec fn same_but_prompts(a: Database, b: Database) -> bool {
    same_reviews_and_jobs(a, b) && a.repos == b.repos
}

/// Adds a prompt to a repository. A text of white space alone is turned down.
pub fn create_prompt(
    db: &mut Database,
    repo_id: i64,
    req: CreatePromptRequest,
    now: Timestamp,
) -> (r: Result<PromptResponse, ApiError>)
    ensures
        same_but_prompts(*final(db), *old(db)),
        match r {
            Ok(response) => {
                &&& has_repo(old(db).repos@, RepoId(repo_id))
                &&& !is_blank(req.text@)
                &&& final(db).prompts@.len() == old(db).prompts@.len() + 1
                &&& final(db).prompts@.drop_last() == old(db).prompts@
                &&& ({
                    let prompt = final(db).prompts@.last();
                    &&& is_prompt_response(response, prompt)
                    &&& prompt.id.0 == next_id(prompt_ids(old(db).prompts@))
                    &&& prompt.repo_id == RepoId(repo_id)
                    &&& prompt.name == req.name
                    &&& prompt.text@ == trimmed(req.text@)
                    &&& prompt.enabled
                    &&& !prompt.is_default
                    &&& prompt.created_at.secs() == now.secs()
                    &&& prompt.created_at.nanos() == 0
                })
            },
            Err(e) => {
                &&& final(db).prompts@ == old(db).prompts@
                &&& if !has_repo(old(db).repos@, RepoId(repo_id)) {
                    is_not_found(e, "Repository not found"@)
                } else if is_blank(req.text@) {
                    is_bad_request(e, "Prompt text cannot be empty"@)
                } else {
                    is_database(e, db_error_text(DbError::TableFull)) && next_id(
                        prompt_ids(old(db).prompts@),
                    ) > i64::MAX
                }
            },
        },
{
    let repo_id = RepoId::new(repo_id);
    match verify_repo(db, repo_id) {
        Ok(_) => {},
        Err(e) => {
            return Err(e);
        },
    }
    let text = match PromptText::new(req.text) {
        Some(text) => text,
        None => {
            return Err(ApiError::BadRequest("Prompt text cannot be empty".to_owned()));
        },
    };
    let new_prompt = NewPrompt { repo_id, name: req.name, text, is_default: false };
    match prompts::create(&mut db.prompts, new_prompt, now) {
        Ok(prompt) => {
            assert(db.prompts@.drop_last() =~= old(db).prompts@);
            Ok(prompt_response(&prompt))
        },
        Err(e) => Err(database_error(e)),
    }
}

/// Some prompt with the id belongs to the repository.
pub open spec fn owns_prompt(prompts: Seq<Prompt>, id: PromptId, repo_id: RepoId) -> bool {
    exists|k: int| 0 <= k < prompts.len() && is_owned(#[trigger] prompts[k], id, repo_id)
}

/// Changes a prompt of a repository. A prompt of another repository is not found.
pub fn update_prompt(
    db: &mut Database,
    repo_id: i64,
    prompt_id: i64,
    req: UpdatePromptRequest,
) -> (r: Result<PromptResponse, ApiError>)
    ensures
        same_but_prompts(*final(db), *old(db)),
        match r {
            Ok(response) => {
                &&& has_repo(old(db).repos@, RepoId(repo_id))
                &&& owns_prompt(old(db).prompts@, PromptId(prompt_id), RepoId(repo_id))
                &&& !is_blank(req.text@)
                &&& final(db).prompts@.len() == old(db).prompts@.len()
                &&& forall|i: int|
                    0 <= i < old(db).prompts@.len() ==> if old(db).prompts@[i].id == PromptId(
                        prompt_id,
                    ) {
                        is_updated(
                            old(db).prompts@[i],
                            #[trigger] final(db).prompts@[i],
                            req.name@,
                            final(db).prompts@[i].text,
                            req.enabled,
                        ) && final(db).prompts@[i].text@ == trimmed(req.text@)
                    } else {
                        final(db).prompts@[i] == old(db).prompts@[i]
                    }
                &&& exists|k: int| #[trigger]
                    is_prompt_at(final(db).prompts@, PromptId(prompt_id), k) && is_prompt_response(
                        response,
                        final(db).prompts@[k],
                    )
            },
            Err(e) => {
                &&& final(db).prompts@ == old(db).prompts@
                &&& if !has_repo(old(db).repos@, RepoId(repo_id)) {
                    is_not_found(e, "Repository not found"@)
                } else if !owns_prompt(old(db).prompts@, PromptId(prompt_id), RepoId(repo_id)) {
                    is_not_found(e, "Prompt not found"@)
                } else {
                    is_blank(req.text@) && is_bad_request(e, "Prompt text cannot be empty"@)
                }
            },
        },
{
    let repo_id = RepoId::new(repo_id);
    let prompt_id = PromptId::new(prompt_id);
    match verify_repo(db, repo_id) {
        Ok(_) => {},
        Err(e) => {
            return Err(e);
        },
    }
    // Verify prompt exists AND belongs to this repo (ownership check)
    match prompts::get_by_id_and_repo(&db.prompts, prompt_id, repo_id) {
        Some(_) => {},
        None => {
            return Err(ApiError::NotFound("Prompt not found".to_owned()));
        },
    }
    assert(owns_prompt(db.prompts@, prompt_id, repo_id));
    let text = match PromptText::new(req.text) {
        Some(text) => text,
        None => {
            return Err(ApiError::BadRequest("Prompt text cannot be empty".to_owned()));
        },
    };
    let ghost k = choose|k: int|
        0 <= k < db.prompts@.len() && is_owned(#[trigger] db.prompts@[k], prompt_id, repo_id);
    assert(db.prompts@[k].id == prompt_id);
    prompts::update(&mut db.prompts, prompt_id, req.name.as_str(), &text, req.enabled);
    assert(is_updated(old(db).prompts@[k], db.prompts@[k], req.name@, text, req.enabled));
    assert(db.prompts@[k].id == prompt_id);
    assert(has_prompt(db.prompts@, prompt_id));
    let prompt = prompts::get_by_id(&db.prompts, prompt_id).unwrap();
    Ok(prompt_response(&prompt))
}

/// Deletes a prompt of a repository. A prompt of another repository is not found, and a default
/// prompt stays.
pub fn delete_prompt(db: &mut Database, repo_id: i64, prompt_id: i64) -> (r: Result<(), ApiError>)
    ensures
        same_but_prompts(*final(db), *old(db)),
        match r {
            Ok(_) => {
                &&& has_repo(old(db).repos@, RepoId(repo_id))
                &&& exists|k: int|
                    0 <= k < old(db).prompts@.len() && is_owned(
                        #[trigger] old(db).prompts@[k],
                        PromptId(prompt_id),
                        RepoId(repo_id),
                    ) && !old(db).prompts@[k].is_default
                &&& final(db).prompts@ == old(db).prompts@.filter(
                    |x: Prompt| x.id != PromptId(prompt_id),
                )
                &&& !has_prompt(final(db).prompts@, PromptId(prompt_id))
            },
            Err(e) => {
                &&& final(db).prompts@ == old(db).prompts@
                &&& if !has_repo(old(db).repos@, RepoId(repo_id)) {
                    is_not_found(e, "Repository not found"@)
                } else if !owns_prompt(old(db).prompts@, PromptId(prompt_id), RepoId(repo_id)) {
                    is_not_found(e, "Prompt not found"@)
                } else {
                    is_bad_request(e, "Cannot delete default prompt"@) && exists|k: int|
                        0 <= k < old(db).prompts@.len() && is_owned(
                            #[trigger] old(db).prompts@[k],
                            PromptId(prompt_id),
                            RepoId(repo_id),
                        ) && old(db).prompts@[k].is_default
                }
            },
        },
{
    let repo_id = RepoId::new(repo_id);
    let prompt_id = PromptId::new(prompt_id);
    match verify_repo(db, repo_id) {
        Ok(_) => {},
        Err(e) => {
            return Err(e);
        },
    }
    // Verify prompt exists AND belongs to this repo (ownership check)
    // Also check if it's a default prompt
    let prompt = match prompts::get_by_id_and_repo(&db.prompts, prompt_id, repo_id) {
        Some(prompt) => prompt,
        None => {
            return Err(ApiError::NotFound("Prompt not found".to_owned()));
        },
    };
    assert(owns_prompt(db.prompts@, prompt_id, repo_id));
    if prompt.is_default {
        return Err(ApiError::BadRequest("Cannot delete default prompt".to_owned()));
    }
    prompts::delete(&mut db.prompts, prompt_id);
    Ok(())
}

// --- Reviews ---

/// A review in a response.
#[derive(Debug)]
pub struct ReviewResponse {
    /// The review's id.
    pub id: i64,
    /// The repository that is reviewed.
    pub repo_id: i64,
    /// The commit that is reviewed.
    pub commit_sha: String,
    /// How the review was triggered.
    pub trigger: String,
    /// Where it stands.
    pub status: ReviewStatus,
    /// What came out, prompt by prompt.
    pub results: Vec<ReviewResultResponse>,
    /// When it was created.
    pub created_at: String,
}

/// The result of a prompt in a response.
#[derive(Debug)]
pub struct ReviewResultResponse {
    /// The prompt that was run.
    pub prompt_id: i64,
    /// Its name at the time.
    pub prompt_name: String,
    /// Whether action is required.
    pub action_required: bool,
    /// User-facing comments.
    pub user_visible_comments: String,
    /// Internal reasoning.
    pub detailed_reasoning: String,
}

/// The response shows the result in the row.
pub open spec fn is_result_response(response: ReviewResultResponse, row: ReviewResultRow) -> bool {
    &&& response.prompt_id == row.prompt_id
    &&& response.prompt_name@ == row.prompt_name@
    &&& response.action_required == row.action_required
    &&& response.user_visible_comments@ == row.user_visible_comments@
    &&& response.detailed_reasoning@ == row.detailed_reasoning@
}

/// The response shows the review in the row, with the given results.
pub open spec fn is_review_response(
    response: ReviewResponse,
    row: ReviewRow,
    results: Seq<ReviewResultRow>,
) -> bool {
    &&& response.id == row.id
    &&& response.repo_id == row.repo_id
    &&& response.commit_sha@ == lowered(row.commit_sha@)
    &&& response.trigger@ == row.trigger@
    &&& is_status_of(response.status, row)
    &&& response.results@.len() == results.len()
    &&& forall|i: int|
        0 <= i < results.len() ==> is_result_response(#[trigger] response.results@[i], results[i])
    &&& stored_instant(row.created_at@) matches Some(t) && response.created_at@ == rfc3339_text(
        t.0,
        t.1,
    )
}

fn review_response(review: &Review, Ghost(row): Ghost<ReviewRow>, Ghost(rows): Ghost<
    Seq<ReviewResultRow>,
>) -> (r: ReviewResponse)
    requires
        reviews::is_review_of(*review, row, rows),
    ensures
        is_review_response(r, row, rows),
{
    proof {
        review_trigger_text_roundtrips(review.trigger, row.trigger@);
    }
    let mut results: Vec<ReviewResultResponse> = Vec::new();
    let mut i: usize = 0;
    while i < review.results.len()
        invariant
            i <= review.results@.len(),
            reviews::are_results_of(review.results@, rows),
            results@.len() == i,
            forall|j: int| 0 <= j < i ==> is_result_response(#[trigger] results@[j], rows[j]),
        decreases review.results.len() - i,
    {
        let result: &PromptResult = &review.results[i];
        assert(is_result_of(review.results@[i as int], rows[i as int]));
        results.push(
            ReviewResultResponse {
                prompt_id: result.prompt_id.into_inner(),
                prompt_name: result.prompt_name.clone(),
                action_required: result.output.action_required,
                // Content is sent as JSON (safe), frontend must escape for HTML
                user_visible_comments: result.output.user_visible_comments.as_raw().to_owned(),
                detailed_reasoning: result.output.detailed_reasoning.as_raw().to_owned(),
            },
        );
        i += 1;
    }
    ReviewResponse {
        id: review.id.into_inner(),
        repo_id: review.repo_id.into_inner(),
        commit_sha: review.commit_sha.as_str().to_owned(),
        trigger: review.trigger.as_str().to_owned(),
        status: review.status.clone(),
        results,
        created_at: review.created_at.to_rfc3339(),
    }
}

/// The reviews of a repository, the newest first, without their results for efficiency. If some
/// of them cannot be read, the error is that of the first such.
pub fn list_reviews(db: &Database, repo_id: i64) -> (r: Result<Vec<ReviewResponse>, ApiError>)
    ensures
        ({
            let listed = reviews::listing_of(db.reviews@, RepoId(repo_id));
            match r {
                Ok(list) => {
                    &&& has_repo(db.repos@, RepoId(repo_id))
                    &&& list@.len() == listed.len()
                    &&& forall|i: int|
                        0 <= i < listed.len() ==> is_review_response(
                            #[trigger] list@[i],
                            listed[i],
                            Seq::empty(),
                        )
                    &&& forall|i: int|
                        0 <= i < listed.len() ==> review_row_error(#[trigger] listed[i]) is None
                },
                Err(e) => if has_repo(db.repos@, RepoId(repo_id)) {
                    exists|i: int|
                        0 <= i < listed.len() && review_row_error(#[trigger] listed[i]) is Some
                            && is_database(e, review_row_error(listed[i])->Some_0) && forall|
                            j: int,
                        |
                            0 <= j < i ==> review_row_error(#[trigger] listed[j]) is None
                } else {
                    is_not_found(e, "Repository not found"@)
                },
            }
        }),
{
    let repo_id = RepoId::new(repo_id);
    match verify_repo(db, repo_id) {
        Ok(_) => {},
        Err(e) => {
            return Err(e);
        },
    }
    let ghost listed = reviews::listing_of(db.reviews@, repo_id);
    let reviews_list = match reviews::list_by_repo(&db.reviews, repo_id) {
        Ok(list) => list,
        Err(e) => {
            return Err(ApiError::Database(e.to_owned()));
        },
    };
    let mut responses: Vec<ReviewResponse> = Vec::new();
    let mut i: usize = 0;
    while i < reviews_list.len()
        invariant
            i <= reviews_list@.len(),
            reviews_list@.len() == listed.len(),
            forall|j: int| 0 <= j < listed.len() ==> review_row_error(#[trigger] listed[j]) is None,
            forall|j: int|
                0 <= j < listed.len() ==> reviews::is_review_of(
                    #[trigger] reviews_list@[j],
                    listed[j],
                    Seq::empty(),
                ),
            responses@.len() == i,
            forall|j: int|
                0 <= j < i ==> is_review_response(
                    #[trigger] responses@[j],
                    listed[j],
                    Seq::empty(),
                ),
        decreases reviews_list.len() - i,
    {
        responses.push(
            review_response(&reviews_list[i], Ghost(listed[i as int]), Ghost(Seq::empty())),
        );
        i += 1;
    }
    Ok(responses)
}

/// Schedules a review of a repository, which runs even if there are no changes. Gives the id of
/// its job. While a review is scheduled or in progress, no other is.
pub fn trigger_review(db: &mut Database, repo_id: i64, now: Timestamp) -> (r: Result<
    JobId,
    ApiError,
>)
    ensures
        final(db).repos == old(db).repos,
        final(db).prompts == old(db).prompts,
        final(db).reviews == old(db).reviews,
        final(db).results == old(db).results,
        match r {
            Ok(id) => {
                &&& has_repo(old(db).repos@, RepoId(repo_id))
                &&& !review_is_pending(old(db).jobs@, RepoId(repo_id))
                &&& id.0 == next_id(job_ids(old(db).jobs@))
                &&& final(db).jobs@ == old(db).jobs@.push(
                    created_job(
                        NewJob {
                            payload: JobPayload::ReviewRepo {
                                repo_id: RepoId(repo_id),
                                force: true,
                            },
                            scheduled_at: now,
                            max_attempts: DEFAULT_MAX_ATTEMPTS,
                        },
                        id,
                        now,
                    ),
                )
                &&& review_is_pending(final(db).jobs@, RepoId(repo_id))
            },
            Err(e) => {
                &&& final(db).jobs@ == old(db).jobs@
                &&& if !has_repo(old(db).repos@, RepoId(repo_id)) {
                    is_not_found(e, "Repository not found"@)
                } else if review_is_pending(old(db).jobs@, RepoId(repo_id)) {
                    is_conflict(e, "Review already in progress or scheduled"@)
                } else {
                    is_database(e, db_error_text(DbError::TableFull)) && next_id(
                        job_ids(old(db).jobs@),
                    ) > i64::MAX
                }
            },
        },
{
    let repo_id = RepoId::new(repo_id);
    match verify_repo(db, repo_id) {
        Ok(_) => {},
        Err(e) => {
            return Err(e);
        },
    }
    // Check if there's already a pending review
    if has_pending_review(&db.jobs, repo_id) {
        return Err(ApiError::Conflict("Review already in progress or scheduled".to_owned()));
    }
    // Create job with force=true (manual trigger)

    match jobs::create(&mut db.jobs, NewJob::review_repo_at(repo_id, true, now), now) {
        Ok(job) => {
            assert(db.jobs@[old(db).jobs@.len() as int] == job);
            assert(jobs::awaits_review(db.jobs@[old(db).jobs@.len() as int], repo_id));
            Ok(job.id)
        },
        Err(e) => Err(database_error(e)),
    }
}

/// One review with its results.
pub fn get_review(db: &Database, id: i64) -> (r: Result<ReviewResponse, ApiError>)
    ensures
        match r {
            Ok(response) => exists|k: int| #[trigger]
                is_review_at(db.reviews@, ReviewId(id), k) && review_row_error(db.reviews@[k])
                    is None && is_review_response(
                    response,
                    db.reviews@[k],
                    results_for(db.results@, ReviewId(id)),
                ),
            Err(e) => if has_review(db.reviews@, ReviewId(id)) {
                exists|k: int| #[trigger]
                    is_review_at(db.reviews@, ReviewId(id), k) && review_row_error(db.reviews@[k])
                        is Some && is_database(e, review_row_error(db.reviews@[k])->Some_0)
            } else {
                is_not_found(e, "Review not found"@)
            },
        },
{
    let review_id = ReviewId::new(id);
    match reviews::get_by_id(&db.reviews, &db.results, review_id) {
        Ok(Some(review)) => {
            let ghost k = choose|k: int| #[trigger]
                is_review_at(db.reviews@, review_id, k) && review_row_error(db.reviews@[k]) is None
                    && reviews::is_review_of(
                    review,
                    db.reviews@[k],
                    results_for(db.results@, review_id),
                );
            Ok(
                review_response(
                    &review,
                    Ghost(db.reviews@[k]),
                    Ghost(results_for(db.results@, review_id)),
                ),
            )
        },
        Ok(None) => Err(ApiError::NotFound("Review not found".to_owned())),
        Err(e) => Err(ApiError::Database(e.to_owned())),
    }
}

// --- Stream Tokens ---

/// A stream token in a response.
#[derive(Debug)]
pub struct StreamTokenResponse {
    /// The token.
    pub token: String,
}

/// Generates a short-lived stream token for SSE authentication.
///
/// This exchanges the API key (sent in the Authorization header) for a short-lived token that can
/// be safely used in query strings for SSE connections. The token is valid for 30 seconds and can
/// only be used once.
pub fn create_stream_token(store: &mut StreamTokenStore, now: u64) -> (r: StreamTokenResponse)
    requires
        now + TOKEN_TTL <= u64::MAX,
    ensures
        is_token_text(r.token@),
        final(store)@ == generated(old(store)@, r.token@, now),
{
    StreamTokenResponse { token: store.generate(now) }
}

// --- What responses show ---

/// The response about a repository shows its own data, counts its prompts, and shows the first of
/// its reviews in the listing, if there is one.
pub proof fn repo_response_shows_the_repo(
    response: RepoResponse,
    repo: Repo,
    prompts: Seq<Prompt>,
    rows: Seq<ReviewRow>,
)
    requires
        is_repo_response(response, repo, prompts, rows),
    ensures
        response.id == repo.id.0,
        response.url@ == repo.url.url_text(),
        response.owner@ == repo.url.owner_text(),
        response.name@ == repo.url.name_text(),
        response.last_commit_sha is None <==> repo.last_commit_sha is None,
        response.last_commit_sha is Some ==> response.last_commit_sha->Some_0@
            == repo.last_commit_sha->Some_0@,
        response.prompt_count == prompts_of(prompts, repo.id, false).len(),
        response.created_at@ == rfc3339_text(repo.created_at.secs(), repo.created_at.nanos()),
        response.last_review is None <==> reviews::listing_of(rows, repo.id).len() == 0,
        response.last_review is Some ==> {
            let summary = response.last_review->Some_0;
            let row = reviews::listing_of(rows, repo.id)[0];
            &&& summary.id == row.id
            &&& summary.status@ == row.status@
            &&& summary.trigger@ == row.trigger@
            &&& summary.action_required is None
            &&& stored_instant(row.created_at@) is Some && summary.created_at@ == rfc3339_text(
                (stored_instant(row.created_at@)->Some_0).0,
                (stored_instant(row.created_at@)->Some_0).1,
            )
        },
{
}

/// The response about a prompt shows the prompt.
pub proof fn prompt_response_shows_the_prompt(response: PromptResponse, prompt: Prompt)
    requires
        is_prompt_response(response, prompt),
    ensures
        response.id == prompt.id.0,
        response.name@ == prompt.name@,
        response.text@ == prompt.text@,
        response.enabled == prompt.enabled,
        response.is_default == prompt.is_default,
        response.created_at@ == rfc3339_text(prompt.created_at.secs(), prompt.created_at.nanos()),
{
}

/// The response about a review shows what is stored of it, and each of its results under its
/// prompt.
pub proof fn review_response_shows_the_review(
    response: ReviewResponse,
    row: ReviewRow,
    results: Seq<ReviewResultRow>,
    k: int,
)
    requires
        is_review_response(response, row, results),
    ensures
        response.id == row.id,
        response.repo_id == row.repo_id,
        response.commit_sha@ == lowered(row.commit_sha@),
        response.trigger@ == row.trigger@,
        response.status.text() == row.status@,
        response.results@.len() == results.len(),
        0 <= k < results.len() ==> {
            let shown = response.results@[k];
            &&& shown.prompt_id == results[k].prompt_id
            &&& shown.prompt_name@ == results[k].prompt_name@
            &&& shown.action_required == results[k].action_required
            &&& shown.user_visible_comments@ == results[k].user_visible_comments@
            &&& shown.detailed_reasoning@ == results[k].detailed_reasoning@
        },
{
    if 0 <= k < results.len() {
        assert(is_result_response(response.results@[k], results[k]));
    }
}

/// A new repository has the URL that was asked for and the next id, was never checked, and has the
/// comprehensive prompt as its default, which is enabled.
pub proof fn new_repo_is_what_was_asked(
    repo: Repo,
    url: Seq<char>,
    prompt: Prompt,
    repo_rows: Seq<Repo>,
    prompt_rows: Seq<Prompt>,
    now: Timestamp,
)
    requires
        is_new_repo(repo, url, repo_rows, now),
        is_default_prompt(prompt, repo.id, prompt_rows, now),
    ensures
        repo.url.is_named_by(url),
        repo.id.0 == next_id(repo_ids(repo_rows)),
        repo.last_commit_sha is None,
        repo.last_checked_at is None,
        repo.created_at.secs() == now.secs() && repo.created_at.nanos() == 0,
        prompt.id.0 == next_id(prompt_ids(prompt_rows)),
        prompt.repo_id == repo.id,
        prompt.name@ == "Comprehensive Review"@,
        prompt.text@ == DEFAULT_REVIEW_PROMPT@,
        prompt.enabled,
        prompt.is_default,
        prompt.created_at.secs() == now.secs() && prompt.created_at.nanos() == 0,
{
}

/// A URL is registered exactly if some repository has it, and a prompt belongs to the one
/// repository that it names.
pub proof fn what_is_found_is_there(
    repo_rows: Seq<Repo>,
    url: Seq<char>,
    prompt_rows: Seq<Prompt>,
    id: PromptId,
    repo_id: RepoId,
)
    ensures
        is_registered(repo_rows, url) <==> exists|k: int|
            #![trigger repo_rows[k]]
            0 <= k < repo_rows.len() && repo_rows[k].url.url_text() == url,
        owns_prompt(prompt_rows, id, repo_id) <==> exists|k: int|
            #![trigger prompt_rows[k]]
            0 <= k < prompt_rows.len() && prompt_rows[k].id == id && prompt_rows[k].repo_id
                == repo_id,
        normal_url(url) == (url_parts(url)->Some_0).5,
{
    if owns_prompt(prompt_rows, id, repo_id) {
        let k = choose|k: int|
            0 <= k < prompt_rows.len() && is_owned(#[trigger] prompt_rows[k], id, repo_id);
        assert(prompt_rows[k].id == id);
    }
    if exists|k: int|
        #![trigger prompt_rows[k]]
        0 <= k < prompt_rows.len() && prompt_rows[k].id == id && prompt_rows[k].repo_id == repo_id {
        let k = choose|k: int|
            #![trigger prompt_rows[k]]
            0 <= k < prompt_rows.len() && prompt_rows[k].id == id && prompt_rows[k].repo_id
                == repo_id;
        assert(is_owned(prompt_rows[k], id, repo_id));
    }
}

/// What a request about repositories leaves alone, and what one about prompts does.
pub proof fn requests_change_their_tables_only(a: Database, b: Database)
    ensures
        same_reviews_and_jobs(a, b) <==> a.reviews == b.reviews && a.results == b.results && a.jobs
            == b.jobs,
        same_but_prompts(a, b) <==> a.reviews == b.reviews && a.results == b.results && a.jobs
            == b.jobs && a.repos == b.repos,
{
}

/// The last review of a repository stands in the way exactly if it is there and cannot be read.
pub proof fn last_review_is_the_first_listed(rows: Seq<ReviewRow>, repo_id: RepoId)
    ensures
        reviews::listing_of(rows, repo_id).len() == 0 ==> last_review_error(rows, repo_id) is None,
        reviews::listing_of(rows, repo_id).len() > 0 ==> last_review_error(rows, repo_id)
            == review_row_error(reviews::listing_of(rows, repo_id)[0]),
{
}

} // verus!
