use panopticon_server::domain::repo::GitHubRepoUrl;
use panopticon_server::github::concat::{
    chunk_contents, estimate_tokens, format_for_llm, ChunkingStrategy,
};
use panopticon_server::github::fetch::{
    get_contents, head_sha, join_path, DirEntry, EntryKind, FetchError, FetchProgress,
    FileContent, FileRead, GitHubFetcher, GitOutput, GitStep, Walk,
};
use panopticon_server::github::filter::{has_hidden, FileFilter, DEFAULT_EXCLUDES};

fn make_file(name: &str, content: &str) -> FileContent {
    FileContent {
        path: name.to_string(),
        content: content.to_string(),
    }
}

// --- Chunking ---

#[test]
fn format_includes_file_headers() {
    let files = vec![
        make_file("main.rs", "fn main() {}"),
        make_file("lib.rs", "pub mod foo;"),
    ];
    let output = format_for_llm(&files);
    assert!(output.contains("=== main.rs ==="));
    assert!(output.contains("fn main() {}"));
    assert!(output.contains("=== lib.rs ==="));
    assert!(output.contains("pub mod foo;"));
}

#[test]
fn format_is_exact() {
    let files = vec![make_file("a", "x"), make_file("b", "y\n"), make_file("c", "")];
    assert_eq!(
        format_for_llm(&files),
        "=== a ===\nx\n\n=== b ===\ny\n\n=== c ===\n\n\n"
    );
    assert_eq!(format_for_llm(&[]), "");
}

#[test]
fn estimate_tokens_approximates() {
    assert_eq!(estimate_tokens(""), 0);
    assert_eq!(estimate_tokens("abcd"), 1);
    assert_eq!(estimate_tokens("abcdefgh"), 2);
}

#[test]
fn tokens_are_estimated_by_bytes() {
    assert_eq!(estimate_tokens("abc"), 0);
    assert_eq!(estimate_tokens("éé"), 1);
}

#[test]
fn chunking_respects_token_limit() {
    let files: Vec<FileContent> = (0..10)
        .map(|i| make_file(&format!("file{}.rs", i), &"x".repeat(100)))
        .collect();
    let strategy = ChunkingStrategy::ByFile {
        max_tokens_per_chunk: 100,
    };
    let chunks = chunk_contents(&files, &strategy);
    assert!(chunks.len() > 1);
    for chunk in &chunks {
        assert!(
            chunk.estimated_tokens <= 150,
            "Chunk has {} tokens",
            chunk.estimated_tokens
        );
    }
    // Each file counts 29 tokens, so three fit
    let counts: Vec<usize> = chunks.iter().map(|c| c.file_count).collect();
    assert_eq!(counts, [3, 3, 3, 1]);
    assert_eq!(chunks[0].estimated_tokens, 87);
}

#[test]
fn chunking_preserves_all_files() {
    let files: Vec<FileContent> = (0..5)
        .map(|i| make_file(&format!("file{}.rs", i), "content"))
        .collect();
    let strategy = ChunkingStrategy::ByFile {
        max_tokens_per_chunk: 50,
    };
    let chunks = chunk_contents(&files, &strategy);
    let total_files: usize = chunks.iter().map(|c| c.file_count).sum();
    assert_eq!(total_files, 5);
    let text: String = chunks.iter().map(|c| c.content.as_str()).collect();
    assert_eq!(text, format_for_llm(&files));
}

#[test]
fn no_chunking_returns_single_chunk() {
    let files = vec![make_file("a.rs", "a"), make_file("b.rs", "b")];
    let chunks = chunk_contents(&files, &ChunkingStrategy::NoChunking);
    assert_eq!(chunks.len(), 1);
    assert_eq!(chunks[0].file_count, 2);
}

#[test]
fn oversized_file_gets_its_own_chunk() {
    let files = vec![
        make_file("a", "x"),
        make_file("big", &"y".repeat(1000)),
        make_file("b", "z"),
    ];
    let chunks = chunk_contents(&files, &ChunkingStrategy::with_max_tokens(10));
    let counts: Vec<usize> = chunks.iter().map(|c| c.file_count).collect();
    assert_eq!(counts, [1, 1, 1]);
    assert!(chunks[1].estimated_tokens > 10);
    assert!(chunk_contents(&[], &ChunkingStrategy::with_max_tokens(10)).is_empty());
    assert_eq!(
        chunk_contents(&files, &ChunkingStrategy::with_max_tokens(0)).len(),
        3
    );
}

#[test]
fn chunking_strategy_should_use_model_context_limit() {
    let strategy = ChunkingStrategy::with_max_tokens(50_000);
    match strategy {
        ChunkingStrategy::ByFile {
            max_tokens_per_chunk,
        } => {
            assert_eq!(max_tokens_per_chunk, 50_000);
        }
        _ => panic!("Expected ByFile strategy"),
    }
}

#[test]
fn default_strategy_should_have_reasonable_limit() {
    let strategy = ChunkingStrategy::default();
    match strategy {
        ChunkingStrategy::ByFile {
            max_tokens_per_chunk,
        } => {
            assert!(
                max_tokens_per_chunk <= 200_000,
                "Default limit {} is too high",
                max_tokens_per_chunk
            );
            assert_eq!(max_tokens_per_chunk, 100_000);
        }
        _ => panic!("Expected ByFile strategy"),
    }
}

// --- The filter ---

#[test]
fn excludes_lock_files() {
    let filter = FileFilter::default();
    assert!(!filter.should_include("package-lock.json", 100));
    assert!(!filter.should_include("yarn.lock", 100));
    assert!(!filter.should_include("Cargo.lock", 100));
    assert!(!filter.should_include("sub/dir/package-lock.json", 100));
}

#[test]
fn excludes_generated_directories() {
    let filter = FileFilter::default();
    assert!(!filter.should_include("node_modules/foo/index.js", 100));
    assert!(!filter.should_include("target/debug/main", 100));
    assert!(!filter.should_include(".git/objects/abc", 100));
}

#[test]
fn excludes_binary_files() {
    let filter = FileFilter::default();
    assert!(!filter.should_include("image.png", 100));
    assert!(!filter.should_include("font.woff2", 100));
    assert!(!filter.should_include("archive.zip", 100));
}

#[test]
fn excludes_large_files() {
    let filter = FileFilter::default();
    assert!(filter.should_include("small.rs", 1000));
    assert!(!filter.should_include("big.rs", 200_000));
}

#[test]
fn includes_source_files() {
    let filter = FileFilter::default();
    assert!(filter.should_include("main.rs", 100));
    assert!(filter.should_include("src/lib.rs", 100));
    assert!(filter.should_include("index.js", 100));
    assert!(filter.should_include("style.css", 100));
    assert!(filter.should_include("README.md", 100));
}

#[test]
fn includes_special_dotfiles() {
    let filter = FileFilter::default();
    assert!(filter.should_include(".gitignore", 100));
    assert!(filter.should_include(".editorconfig", 100));
    assert!(filter.should_include(".github/workflows/ci.yml", 100));
}

#[test]
fn excludes_other_hidden_files() {
    let filter = FileFilter::default();
    assert!(!filter.should_include(".secret", 100));
    assert!(!filter.should_include(".hidden/file", 100));
}

#[test]
fn size_limit_is_inclusive_and_can_be_changed() {
    let filter = FileFilter::default();
    assert!(filter.should_include("a.rs", 100_000));
    assert!(!filter.should_include("a.rs", 100_001));
    let small = FileFilter::default().with_max_file_size(10);
    assert!(small.should_include("a.rs", 10));
    assert!(!small.should_include("a.rs", 11));
    assert!(!small.should_include("a.png", 1));
}

#[test]
fn further_patterns_are_added_and_broken_ones_ignored() {
    let filter = FileFilter::default().with_exclude_patterns(&["**/*.rs", "a**b", "[", "docs/**"]);
    assert!(!filter.should_include("src/lib.rs", 1));
    assert!(!filter.should_include("docs/guide.md", 1));
    assert!(filter.should_include("README.md", 1));
}

#[test]
fn dot_components_hide_nothing() {
    let filter = FileFilter::default();
    assert!(filter.should_include("./src/./main.rs", 1));
    assert!(filter.should_include("../main.rs", 1));
    assert!(filter.should_include("a//b.rs", 1));
    assert!(!filter.should_include(".env", 1));
    assert!(filter.should_include(".env.example", 1));
    assert!(filter.should_include("sub/.dockerignore", 1));
}

#[test]
fn all_default_patterns_compile() {
    for pattern in DEFAULT_EXCLUDES {
        assert!(glob::Pattern::new(pattern).is_ok(), "{}", pattern);
    }
}

// --- Clones ---

fn repo() -> GitHubRepoUrl {
    GitHubRepoUrl::parse("https://github.com/Owner/Repo").unwrap()
}

fn output(success: bool, stdout: &[u8], stderr: &[u8]) -> GitOutput {
    GitOutput {
        success,
        stdout: stdout.to_vec(),
        stderr: stderr.to_vec(),
    }
}

#[test]
fn clones_lie_below_their_directory() {
    assert_eq!(
        GitHubFetcher::new("./repos".to_string()).repo_path(&repo()),
        "./repos/owner/repo"
    );
    assert_eq!(
        GitHubFetcher::new("/srv/".to_string()).repo_path(&repo()),
        "/srv/owner/repo"
    );
    assert_eq!(
        GitHubFetcher::new(String::new()).repo_path(&repo()),
        "owner/repo"
    );
    for dir in ["", "a", "a/", "/", "/a/b"] {
        let expected = std::path::Path::new(dir).join("c");
        assert_eq!(join_path(dir, "c"), expected.to_str().unwrap());
    }
}

#[test]
fn different_repos_have_different_paths() {
    let fetcher = GitHubFetcher::new("repos".to_string());
    let other = GitHubRepoUrl::parse("https://github.com/ownerr/epo").unwrap();
    assert_ne!(fetcher.repo_path(&repo()), fetcher.repo_path(&other));
}

#[test]
fn git_is_called_with_these_arguments() {
    assert_eq!(GitStep::first(false), GitStep::Clone);
    assert_eq!(GitStep::first(true), GitStep::Fetch);
    assert!(!GitStep::Clone.runs_in_clone());
    assert!(GitStep::RevParse.runs_in_clone());
    assert_eq!(
        GitStep::Clone.args(&repo(), "p"),
        ["clone", "--depth", "1", "https://github.com/owner/repo.git", "p"]
    );
    assert_eq!(
        GitStep::Fetch.args(&repo(), "p"),
        ["fetch", "--depth", "1", "origin"]
    );
    assert_eq!(
        GitStep::Reset.args(&repo(), "p"),
        ["reset", "--hard", "origin/HEAD"]
    );
    assert_eq!(GitStep::RevParse.args(&repo(), "p"), ["rev-parse", "HEAD"]);
}

#[test]
fn git_steps_follow_each_other() {
    let done = output(true, b"", b"");
    assert!(matches!(
        GitStep::Clone.after(&done),
        Ok(FetchProgress::Next(GitStep::RevParse))
    ));
    assert!(matches!(
        GitStep::Fetch.after(&done),
        Ok(FetchProgress::Next(GitStep::Reset))
    ));
    assert!(matches!(
        GitStep::Reset.after(&done),
        Ok(FetchProgress::Next(GitStep::RevParse))
    ));
    let sha = "ABCDEF1234".repeat(4);
    match GitStep::RevParse.after(&output(true, format!("{}\n", sha).as_bytes(), b"")) {
        Ok(FetchProgress::Head(head)) => assert_eq!(head.as_str(), "abcdef1234".repeat(4)),
        other => panic!("unexpected: {:?}", other),
    }
}

#[test]
fn git_failures_are_reported() {
    let cases = [
        (GitStep::Clone, "Git error: no such repo \u{fffd}"),
        (GitStep::Fetch, "Git error: fetch failed: no such repo \u{fffd}"),
        (GitStep::Reset, "Git error: reset failed: no such repo \u{fffd}"),
        (
            GitStep::RevParse,
            "Git error: rev-parse failed: no such repo \u{fffd}",
        ),
    ];
    for (step, expected) in cases {
        match step.after(&output(false, b"", b"no such repo \xff")) {
            Err(e) => assert_eq!(e.to_text(), expected),
            Ok(progress) => panic!("unexpected: {:?}", progress),
        }
    }
    match GitStep::RevParse.after(&output(true, b" HEAD \n", b"")) {
        Err(e) => assert_eq!(e.to_text(), "Invalid commit SHA: HEAD"),
        Ok(progress) => panic!("unexpected: {:?}", progress),
    }
    assert_eq!(
        FetchError::IoError("disk".to_string()).to_text(),
        "IO error: disk"
    );
    assert_eq!(FetchError::NotFound.to_text(), "Repository not found");
}

#[test]
fn head_is_read_from_what_git_says() {
    let sha = "0123456789".repeat(4);
    assert_eq!(head_sha(&format!("\t{}\r\n", sha)).unwrap().as_str(), sha);
    assert_eq!(head_sha("").unwrap_err().to_text(), "Invalid commit SHA: ");
    assert_eq!(
        GitStep::Reset.failure("x").to_text(),
        "Git error: reset failed: x"
    );
}

#[test]
fn hidden_components_are_found() {
    assert!(has_hidden("a/.b/c"));
    assert!(!has_hidden("a/.github/c"));
    assert!(!has_hidden("a/./../c."));
    assert!(has_hidden("..."));
}

// --- Walking ---

fn entry(name: &str, kind: EntryKind, size: u64) -> DirEntry {
    DirEntry {
        name: name.to_string(),
        kind,
        size,
    }
}

/// Walks a tree that is given as directories with their entries.
fn walk(tree: &[(&str, Vec<DirEntry>)], filter: &FileFilter) -> Vec<String> {
    let mut walk = Walk::start();
    while let Some(dir) = walk.next_dir() {
        for (path, entries) in tree {
            if *path == dir {
                for entry in entries {
                    walk.visit(&dir, entry, filter);
                }
            }
        }
    }
    walk.finish()
}

#[test]
fn walk_lists_admitted_files_in_order() {
    let tree = [
        (
            "",
            vec![
                entry("src", EntryKind::Dir, 0),
                entry("target", EntryKind::Dir, 0),
                entry("src.rs", EntryKind::File, 10),
                entry("big.rs", EntryKind::File, 1_000_000),
                entry("a.rs", EntryKind::File, 10),
                entry("socket", EntryKind::Other, 0),
            ],
        ),
        (
            "src",
            vec![
                entry("main.rs", EntryKind::File, 10),
                entry(".hidden.rs", EntryKind::File, 10),
            ],
        ),
        ("target", vec![entry("x.rs", EntryKind::File, 10)]),
    ];
    // A directory itself does not match the pattern for what lies in it, but its files do
    assert_eq!(
        walk(&tree, &FileFilter::default()),
        ["a.rs", "src/main.rs", "src.rs"]
    );
}

#[test]
fn walk_lists_each_reached_file_once() {
    let file = || entry("x.rs", EntryKind::File, 10);
    let tree = [
        (
            "",
            vec![
                entry("a", EntryKind::Dir, 0),
                file(),
                entry(".git", EntryKind::Dir, 0),
                entry("link", EntryKind::Symlink, 0),
            ],
        ),
        (
            "a",
            vec![entry("a", EntryKind::Dir, 0), file(), entry("b", EntryKind::Dir, 0)],
        ),
        ("a/a", vec![file()]),
        ("a/b", vec![file(), entry("a", EntryKind::Dir, 0)]),
        ("a/b/a", vec![]),
        (".git", vec![file()]),
        ("link", vec![file()]),
        ("unreached", vec![file()]),
    ];
    assert_eq!(
        walk(&tree, &FileFilter::default()),
        ["a/a/x.rs", "a/b/x.rs", "a/x.rs", "x.rs"]
    );
}

#[test]
fn paths_are_ordered_by_components() {
    let names = ["a.b/x", "a/x", "a/b/c", "a-b", "a", "b", "A"];
    let mut expected: Vec<std::path::PathBuf> =
        names.iter().map(std::path::PathBuf::from).collect();
    expected.sort();
    let mut walk = Walk::start();
    for name in names {
        walk.files.push(name.to_string());
    }
    let sorted: Vec<std::path::PathBuf> =
        walk.finish().iter().map(std::path::PathBuf::from).collect();
    assert_eq!(sorted, expected);
}

#[test]
fn symlink_to_file_outside_repo_should_be_skipped() {
    let tree = [(
        "",
        vec![
            entry("README.md", EntryKind::File, 11),
            entry("symlink_to_secret.txt", EntryKind::Symlink, 22),
            entry("symlink_to_secret_dir", EntryKind::Symlink, 4096),
        ],
    )];
    let files = walk(&tree, &FileFilter::default());
    assert!(
        files.iter().all(|p| !p.contains("secret")),
        "Symlinks to files outside repo should be skipped. Found: {:?}",
        files
    );
    assert_eq!(files, ["README.md"]);
}

#[test]
fn symlink_to_directory_outside_repo_should_not_be_traversed() {
    let tree = [
        (
            "",
            vec![
                entry("README.md", EntryKind::File, 11),
                entry("symlink_to_secret.txt", EntryKind::Symlink, 22),
                entry("symlink_to_secret_dir", EntryKind::Symlink, 4096),
            ],
        ),
        (
            "symlink_to_secret_dir",
            vec![entry("passwords.txt", EntryKind::File, 9)],
        ),
    ];
    let files = walk(&tree, &FileFilter::default());
    assert!(
        files.iter().all(|p| !p.contains("passwords")),
        "Directory symlinks should not be traversed. Found: {:?}",
        files
    );
}

#[test]
fn contents_are_those_that_could_be_read() {
    let reads = vec![
        FileRead {
            path: "a".to_string(),
            content: Some("été".to_string()),
        },
        FileRead {
            path: "binary".to_string(),
            content: None,
        },
        FileRead {
            path: "b".to_string(),
            content: Some("xy".to_string()),
        },
    ];
    let contents = get_contents(true, reads).unwrap();
    assert_eq!(contents.total_size, 7);
    let paths: Vec<&str> = contents.files.iter().map(|f| f.path.as_str()).collect();
    assert_eq!(paths, ["a", "b"]);
    assert!(matches!(
        get_contents(false, Vec::new()),
        Err(FetchError::NotFound)
    ));
}
