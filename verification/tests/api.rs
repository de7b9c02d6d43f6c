use panopticon_server::api::auth::{
    extract_api_key_from_header, extract_token_from_query, require_api_key, require_stream_token,
};
use panopticon_server::api::error::ApiError;
use panopticon_server::api::handlers::{
    self, CreatePromptRequest, CreateRepoRequest, PromptResponse, RepoResponse,
    UpdatePromptRequest,
};
use panopticon_server::api::sse::{event_of, review_stream, SseEvent, StreamStart};
use panopticon_server::api::stream_token::{StreamTokenStore, TOKEN_TTL};
use panopticon_server::config::{
    default_host, default_poll_interval, default_port, default_review_interval, DatabaseConfig,
    GitHubConfig, SchedulerConfig, ServerConfig,
};
use panopticon_server::db::reviews;
use panopticon_server::db::Database;
use panopticon_server::domain::ids::{JobId, PromptId, RepoId, ReviewId};
use panopticon_server::domain::job::JobPayload;
use panopticon_server::domain::prompt::DEFAULT_REVIEW_PROMPT;
use panopticon_server::domain::repo::{CommitSha, GitHubRepoUrl};
use panopticon_server::domain::review::{NewReview, ReviewOutput, ReviewStatus, ReviewTrigger};
use panopticon_server::domain::untrusted::UntrustedString;
use panopticon_server::static_files::{asset_name, serve_static, StaticAnswer};
use panopticon_server::time::Timestamp;
use panopticon_server::{ReviewUpdate, ReviewUpdateKind};

fn at(secs: i64) -> Timestamp {
    Timestamp::new(secs, 0).unwrap()
}

fn text(s: &str) -> Option<String> {
    Some(s.to_string())
}

/// Tables with one registered repository.
fn database() -> Database {
    let mut db = Database {
        repos: Vec::new(),
        prompts: Vec::new(),
        reviews: Vec::new(),
        results: Vec::new(),
        jobs: Vec::new(),
    };
    create_repo(&mut db, "https://github.com/Owner/Repo", at(100)).unwrap();
    db
}

fn create_repo(db: &mut Database, url: &str, now: Timestamp) -> Result<RepoResponse, ApiError> {
    handlers::create_repo(
        db,
        CreateRepoRequest {
            url: url.to_string(),
        },
        now,
    )
}

fn create_prompt(
    db: &mut Database,
    repo_id: i64,
    name: &str,
    text: &str,
    now: Timestamp,
) -> Result<PromptResponse, ApiError> {
    let req = CreatePromptRequest {
        name: name.to_string(),
        text: text.to_string(),
    };
    handlers::create_prompt(db, repo_id, req, now)
}

fn update_prompt(
    db: &mut Database,
    repo_id: i64,
    id: i64,
    name: &str,
    text: &str,
    enabled: bool,
) -> Result<PromptResponse, ApiError> {
    let req = UpdatePromptRequest {
        name: name.to_string(),
        text: text.to_string(),
        enabled,
    };
    handlers::update_prompt(db, repo_id, id, req)
}

fn add_review(db: &mut Database) -> ReviewId {
    let new_review = NewReview {
        repo_id: RepoId::new(1),
        commit_sha: CommitSha::parse(&"ab".repeat(20)).unwrap(),
        trigger: ReviewTrigger::Manual,
    };
    reviews::create(&mut db.reviews, new_review, at(200)).unwrap().id
}

fn check(e: ApiError, status: u16, message: &str) {
    assert_eq!((e.status(), e.message()), (status, message));
}

// --- Configuration ---

#[test]
fn default_values_are_sane() {
    assert_eq!(default_host(), "127.0.0.1");
    assert_eq!(default_port(), 3000);
    assert_eq!(default_poll_interval(), 60);
    assert_eq!(default_review_interval(), 24);
}

#[test]
fn defaults_fill_the_configuration() {
    assert_eq!(ServerConfig::default().address(), "127.0.0.1:3000");
    assert_eq!(
        DatabaseConfig::default().url(),
        "sqlite:panopticon.db?mode=rwc"
    );
    assert_eq!(GitHubConfig::default().repos_dir, "./repos");
    let scheduler = SchedulerConfig::default();
    assert_eq!(scheduler.job_timeout_minutes, 30);
    assert_eq!(scheduler.llm_timeout_secs, 600);
}

// --- Stream tokens ---

#[test]
fn generated_token_should_be_valid() {
    let mut store = StreamTokenStore::new();
    let token = store.generate(0);
    assert!(
        store.validate_and_consume(&token, 0),
        "Freshly generated token should be valid"
    );
}

#[test]
fn token_can_only_be_used_once() {
    let mut store = StreamTokenStore::new();
    let token = store.generate(0);
    assert!(
        store.validate_and_consume(&token, 0),
        "First use should succeed"
    );
    assert!(
        !store.validate_and_consume(&token, 0),
        "Second use should fail"
    );
}

#[test]
fn invalid_token_should_fail() {
    let mut store = StreamTokenStore::new();
    assert!(
        !store.validate_and_consume("invalid-token", 0),
        "Invalid token should fail"
    );
}

#[test]
fn stream_tokens_are_single_use() {
    let mut store = StreamTokenStore::new();
    let token = store.generate(0);
    assert!(
        store.validate_and_consume(&token, 0),
        "First use of stream token should succeed"
    );
    assert!(
        !store.validate_and_consume(&token, 0),
        "Second use of stream token should fail (single-use)"
    );
}

#[test]
fn invalid_tokens_are_rejected() {
    let mut store = StreamTokenStore::new();
    let _valid = store.generate(0);
    assert!(
        !store.validate_and_consume("invalid-token", 0),
        "Invalid token should be rejected"
    );
}

#[test]
fn different_tokens_are_independent() {
    let mut store = StreamTokenStore::default();
    let token1 = store.generate(0);
    let token2 = store.generate(0);
    assert!(store.validate_and_consume(&token1, 0));
    assert!(
        store.validate_and_consume(&token2, 0),
        "Using one token should not invalidate another"
    );
}

#[test]
fn tokens_expire() {
    let mut store = StreamTokenStore::new();
    let early = store.generate(1000);
    let late = store.generate(1000);
    assert!(store.validate_and_consume(&early, 999 + TOKEN_TTL));
    assert!(!store.validate_and_consume(&late, 1000 + TOKEN_TTL));
    assert_eq!(TOKEN_TTL, 30_000_000_000);
    store.insert("again", 5);
    store.insert("again", 7);
    assert!(store.validate_and_consume("again", 6 + TOKEN_TTL));
}

#[test]
fn token_is_accepted_once_in_its_history() {
    let mut store = StreamTokenStore::new();
    let second = 1_000_000_000;
    assert!(!store.validate_and_consume("a", 0));
    store.insert("a", 0);
    store.insert("b", 10 * second);
    assert!(store.validate_and_consume("a", 20 * second));
    assert!(!store.validate_and_consume("a", 20 * second));
    store.insert("c", 25 * second);
    assert!(!store.validate_and_consume("a", 29 * second));
    assert!(store.validate_and_consume("b", 40 * second - 1));
    assert!(!store.validate_and_consume("b", 40 * second - 1));
    assert!(!store.validate_and_consume("c", 55 * second));
    // A text that is drawn again is a new token
    store.insert("a", 60 * second);
    assert!(store.validate_and_consume("a", 60 * second));
}

#[test]
fn tokens_are_random_letters_and_digits() {
    let mut store = StreamTokenStore::new();
    let mut seen = Vec::new();
    for _ in 0..100 {
        let token = store.generate(0);
        assert_eq!(token.len(), 32);
        assert!(token.chars().all(|c| c.is_ascii_alphanumeric()));
        assert!(!seen.contains(&token));
        seen.push(token);
    }
}

#[test]
fn tokens_are_handed_out() {
    let mut store = StreamTokenStore::new();
    let response = handlers::create_stream_token(&mut store, 3);
    assert_eq!(response.token.len(), 32);
    assert!(store.validate_and_consume(&response.token, 4));
    assert_eq!(handlers::health_check(), 200);
}

// --- Authorization ---

#[test]
fn api_key_is_required() {
    assert_eq!(require_api_key(&text("Bearer secret"), "secret"), Ok(()));
    for header in [
        None,
        text("secret"),
        text("Bearer wrong"),
        text("bearer secret"),
        text("Bearer secret "),
    ] {
        assert_eq!(require_api_key(&header, "secret"), Err(401));
    }
    assert_eq!(extract_api_key_from_header(&text("Bearer ")), text(""));
}

#[test]
fn token_is_taken_from_the_query() {
    for (query, token) in [
        (text("token=abc"), text("abc")),
        (text("a=b&token=x&token=y"), text("x")),
        (text("token"), text("")),
        (text("t%6Fken=%41+%2B"), text("A +")),
        (text("tokens=1"), None),
        (text(""), None),
        (None, None),
    ] {
        assert_eq!(extract_token_from_query(&query), token, "{:?}", query);
    }
}

#[test]
fn stream_token_opens_one_stream() {
    let mut store = StreamTokenStore::new();
    let token = store.generate(0);
    let query = Some(format!("token={}", token));
    assert_eq!(require_stream_token(&None, &mut store, 0), Err(401));
    assert_eq!(require_stream_token(&query, &mut store, 1), Ok(()));
    assert_eq!(require_stream_token(&query, &mut store, 2), Err(401));
}

// --- Repositories ---

#[test]
fn repo_is_registered_with_the_default_prompt() {
    let db = database();
    let list = handlers::list_repos(&db).unwrap();
    assert_eq!(list.len(), 1);
    assert_eq!(list[0].url, "https://github.com/Owner/Repo");
    assert_eq!((list[0].owner.as_str(), list[0].name.as_str()), ("owner", "repo"));
    assert_eq!(list[0].prompt_count, 1);
    assert!(list[0].last_review.is_none());
    assert_eq!(list[0].created_at, "1970-01-01T00:01:40+00:00");
    assert_eq!(db.prompts[0].name, "Comprehensive Review");
    assert_eq!(db.prompts[0].text.as_str(), DEFAULT_REVIEW_PROMPT);
    assert!(db.prompts[0].is_default);
}

#[test]
fn repo_is_registered_once() {
    let mut db = database();
    check(
        create_repo(&mut db, "https://github.com/Owner/Repo", at(1)).unwrap_err(),
        409,
        "Repository already registered",
    );
    check(
        create_repo(&mut db, "https://example.com/a/b", at(1)).unwrap_err(),
        400,
        "Invalid GitHub URL",
    );
    assert_eq!(db.repos.len(), 1);
}

#[test]
fn parsed_urls_are_registered() {
    let mut db = database();
    let url = || GitHubRepoUrl::parse("https://github.com/a/b");
    assert_eq!(handlers::register_repo(&mut db, url(), at(1)).unwrap().id, 2);
    check(
        handlers::register_repo(&mut db, url(), at(1)).unwrap_err(),
        409,
        "Repository already registered",
    );
    check(
        handlers::register_repo(&mut db, None, at(1)).unwrap_err(),
        400,
        "Invalid GitHub URL",
    );
}

#[test]
fn creation_is_shown_to_the_second() {
    let mut db = database();
    let now = Timestamp::new(100, 250_000_000).unwrap();
    let repo = create_repo(&mut db, "https://github.com/a/b", now).unwrap();
    assert_eq!(repo.created_at, "1970-01-01T00:01:40+00:00");
    let prompt = create_prompt(&mut db, repo.id, "name", "text", now).unwrap();
    assert_eq!(prompt.created_at, "1970-01-01T00:01:40+00:00");
    assert!(db.prompts.iter().all(|p| p.created_at == at(100)));
}

#[test]
fn repo_shows_its_last_review() {
    let mut db = database();
    let id = add_review(&mut db);
    reviews::mark_in_progress(&mut db.reviews, id, at(201));
    let summary = handlers::get_repo(&db, 1).unwrap().last_review.unwrap();
    assert_eq!(summary.status, "in_progress");
    assert_eq!(summary.trigger, "manual");
    assert_eq!(summary.action_required, None);
    assert_eq!(summary.created_at, "1970-01-01T00:03:20+00:00");
    db.reviews[0].status = "x".to_string();
    check(
        handlers::get_repo(&db, 1).unwrap_err(),
        500,
        "unknown status",
    );
    check(
        handlers::list_repos(&db).unwrap_err(),
        500,
        "unknown status",
    );
    check(
        handlers::get_repo(&db, 2).unwrap_err(),
        404,
        "Repository not found",
    );
}

#[test]
fn repo_is_deleted() {
    let mut db = database();
    handlers::delete_repo(&mut db, 1).unwrap();
    check(
        handlers::delete_repo(&mut db, 1).unwrap_err(),
        404,
        "Repository not found",
    );
}

// --- Prompts ---

#[test]
fn prompts_are_created_and_listed() {
    let mut db = database();
    let created = create_prompt(&mut db, 1, "mine", "  look  ", at(300)).unwrap();
    assert_eq!(created.text, "look");
    assert!(created.enabled && !created.is_default);
    let names: Vec<String> = handlers::list_prompts(&db, 1)
        .unwrap()
        .into_iter()
        .map(|p| p.name)
        .collect();
    assert_eq!(names, ["Comprehensive Review", "mine"]);
    check(
        create_prompt(&mut db, 1, "x", " ", at(0)).unwrap_err(),
        400,
        "Prompt text cannot be empty",
    );
    check(
        create_prompt(&mut db, 9, "x", "y", at(0)).unwrap_err(),
        404,
        "Repository not found",
    );
    check(
        handlers::list_prompts(&db, 9).unwrap_err(),
        404,
        "Repository not found",
    );
}

#[test]
fn prompts_of_other_repos_are_out_of_reach() {
    let mut db = database();
    create_repo(&mut db, "https://github.com/other/repo", at(1)).unwrap();
    check(
        update_prompt(&mut db, 2, 1, "x", "y", false).unwrap_err(),
        404,
        "Prompt not found",
    );
    check(
        handlers::delete_prompt(&mut db, 2, 1).unwrap_err(),
        404,
        "Prompt not found",
    );
    check(
        update_prompt(&mut db, 9, 1, "x", "y", false).unwrap_err(),
        404,
        "Repository not found",
    );
    check(
        handlers::delete_prompt(&mut db, 9, 1).unwrap_err(),
        404,
        "Repository not found",
    );
    assert!(db.prompts[0].enabled);
}

#[test]
fn prompts_are_changed_and_deleted() {
    let mut db = database();
    create_prompt(&mut db, 1, "mine", "look", at(3)).unwrap();
    let changed =
        update_prompt(&mut db, 1, 2, "new", " text ", false).unwrap();
    assert_eq!((changed.name.as_str(), changed.text.as_str()), ("new", "text"));
    assert!(!changed.enabled);
    check(
        update_prompt(&mut db, 1, 2, "new", "", true).unwrap_err(),
        400,
        "Prompt text cannot be empty",
    );
    check(
        handlers::delete_prompt(&mut db, 1, 1).unwrap_err(),
        400,
        "Cannot delete default prompt",
    );
    handlers::delete_prompt(&mut db, 1, 2).unwrap();
    assert_eq!(db.prompts.len(), 1);
}

// --- Reviews ---

#[test]
fn review_is_triggered_once() {
    let mut db = database();
    assert_eq!(
        handlers::trigger_review(&mut db, 1, at(5)).unwrap(),
        JobId::new(1)
    );
    assert_eq!(
        db.jobs[0].payload,
        JobPayload::ReviewRepo {
            repo_id: RepoId::new(1),
            force: true
        }
    );
    check(
        handlers::trigger_review(&mut db, 1, at(5)).unwrap_err(),
        409,
        "Review already in progress or scheduled",
    );
    check(
        handlers::trigger_review(&mut db, 2, at(5)).unwrap_err(),
        404,
        "Repository not found",
    );
}

#[test]
fn full_tables_are_reported() {
    let mut db = database();
    db.prompts[0].id = PromptId::new(i64::MAX);
    check(
        create_prompt(&mut db, 1, "x", "y", at(0)).unwrap_err(),
        500,
        "database or disk is full",
    );
    db.repos[0].id = RepoId::new(i64::MAX);
    check(
        create_repo(&mut db, "https://github.com/a/b", at(0)).unwrap_err(),
        500,
        "database or disk is full",
    );
}

#[test]
fn reviews_are_shown_with_their_results() {
    let mut db = database();
    let id = add_review(&mut db);
    let output = ReviewOutput {
        detailed_reasoning: UntrustedString::new("why"),
        action_required: true,
        user_visible_comments: UntrustedString::new("<i>"),
    };
    reviews::add_result(&mut db.results, id, PromptId::new(1), "p", &output);
    let shown = handlers::get_review(&db, 1).unwrap();
    assert_eq!(shown.commit_sha, "ab".repeat(20));
    assert!(matches!(shown.status, ReviewStatus::Pending));
    assert_eq!(shown.results.len(), 1);
    assert_eq!(shown.results[0].user_visible_comments, "<i>");
    assert_eq!(shown.results[0].detailed_reasoning, "why");
    let list = handlers::list_reviews(&db, 1).unwrap();
    assert_eq!(list.len(), 1);
    assert!(list[0].results.is_empty());
    check(
        handlers::get_review(&db, 2).unwrap_err(),
        404,
        "Review not found",
    );
    check(
        handlers::list_reviews(&db, 2).unwrap_err(),
        404,
        "Repository not found",
    );
    db.reviews[0].created_at = "x".to_string();
    check(handlers::get_review(&db, 1).unwrap_err(), 500, "invalid date");
    check(handlers::list_reviews(&db, 1).unwrap_err(), 500, "invalid date");
}

// --- Server-sent events ---

#[test]
fn ended_reviews_are_answered_immediately() {
    let mut db = database();
    let id = add_review(&mut db);
    assert!(matches!(
        review_stream(&db, 1),
        Ok(StreamStart::Subscribe(review_id)) if review_id == id
    ));
    reviews::mark_in_progress(&mut db.reviews, id, at(201));
    assert!(matches!(
        review_stream(&db, 1),
        Ok(StreamStart::Subscribe(_))
    ));
    reviews::mark_failed(&mut db.reviews, id, "e", at(202));
    assert!(matches!(
        review_stream(&db, 1),
        Ok(StreamStart::Over(SseEvent::Complete { .. }))
    ));
    reviews::mark_completed(&mut db.reviews, id, 1, at(203));
    assert!(matches!(
        review_stream(&db, 1),
        Ok(StreamStart::Over(SseEvent::Complete { .. }))
    ));
    check(review_stream(&db, 2).unwrap_err(), 404, "Review not found");
    db.reviews[0].trigger = "x".to_string();
    check(review_stream(&db, 1).unwrap_err(), 500, "invalid trigger");
}

#[test]
fn updates_become_events_of_their_review() {
    let update = |kind: ReviewUpdateKind| ReviewUpdate {
        review_id: ReviewId::new(1),
        prompt_name: "p".to_string(),
        kind,
    };
    let chunk = ReviewUpdateKind::Chunk {
        text: "t".to_string(),
    };
    assert!(event_of(update(chunk.clone()), ReviewId::new(2)).is_none());
    let event = event_of(update(chunk), ReviewId::new(1)).unwrap();
    assert_eq!(event.kind(), "chunk");
    match event {
        SseEvent::Chunk { prompt_name, text } => {
            assert_eq!((prompt_name.as_str(), text.as_str()), ("p", "t"))
        }
        other => panic!("unexpected: {:?}", other),
    }
    let done = event_of(update(ReviewUpdateKind::PromptComplete), ReviewId::new(1)).unwrap();
    assert_eq!(done.kind(), "prompt_complete");
    let over = ReviewUpdateKind::ReviewComplete {
        results: Vec::new(),
    };
    assert_eq!(
        event_of(update(over), ReviewId::new(1)).unwrap().kind(),
        "complete"
    );
}

// --- Static files ---

#[test]
fn files_are_served_with_their_media_type() {
    assert_eq!(asset_name("//static/app.js"), "static/app.js");
    match serve_static("/static/app.css", true, true) {
        StaticAnswer::File { name, media_type } => {
            assert_eq!((name.as_str(), media_type.as_str()), ("static/app.css", "text/css"))
        }
        other => panic!("unexpected: {:?}", other),
    }
    match serve_static("/blob", true, false) {
        StaticAnswer::File { media_type, .. } => {
            assert_eq!(media_type, "application/octet-stream")
        }
        other => panic!("unexpected: {:?}", other),
    }
    assert!(matches!(
        serve_static("/static/missing.js", false, true),
        StaticAnswer::NotFound
    ));
    assert!(matches!(
        serve_static("/repos/1", false, true),
        StaticAnswer::Index
    ));
    assert!(matches!(
        serve_static("/repos/1", false, false),
        StaticAnswer::NotFound
    ));
}
