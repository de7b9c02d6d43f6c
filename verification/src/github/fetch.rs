//! Local clones of GitHub repositories: where they lie, the git commands that keep them current,
//! and which of their files are read.

use vstd::prelude::*;

use crate::domain::repo::{is_safe_component, is_sha, CommitSha, GitHubRepoUrl};
use crate::github::filter::{slice_texts, string_texts, FileFilter};
use crate::text::{from_utf8_lossy, lossy_text, lowered, to_chars, trim, trimmed};

verus! {

/// Error type for GitHub fetching operations.
#[derive(Debug)]
pub enum FetchError {
    /// A git command failed.
    GitError(String),
    /// A file or a process could not be used.
    IoError(String),
    /// Git reported something that is no commit SHA.
    InvalidSha(String),
    /// There is no local clone.
    NotFound,
}

impl FetchError {
    /// What the error says.
    pub open spec fn text(self) -> Seq<char> {
        match self {
            FetchError::GitError(detail) => "Git error: "@ + detail@,
            FetchError::IoError(detail) => "IO error: "@ + detail@,
            FetchError::InvalidSha(sha) => "Invalid commit SHA: "@ + sha@,
            FetchError::NotFound => "Repository not found"@,
        }
    }

    /// What the error says.
    pub fn to_text(&self) -> (r: String)
        ensures
            r@ == self.text(),
    {
        match self {
            FetchError::GitError(detail) => labelled("Git error: ", detail.as_str()),
            FetchError::IoError(detail) => labelled("IO error: ", detail.as_str()),
            FetchError::InvalidSha(sha) => labelled("Invalid commit SHA: ", sha.as_str()),
            FetchError::NotFound => "Repository not found".to_owned(),
        }
    }
}

fn labelled(label: &str, detail: &str) -> (r: String)
    ensures
        r@ == label@ + detail@,
{
    let mut out: String = label.to_owned();
    out.push_str(detail);
    out
}

/// A file's content from a repository.
#[derive(Debug)]
pub struct FileContent {
    /// The file's path within the repository.
    pub path: String,
    /// The file's text.
    pub content: String,
}

impl Clone for FileContent {
    fn clone(&self) -> (r: FileContent)
        ensures
            r == *self,
    {
        FileContent { path: self.path.clone(), content: self.content.clone() }
    }
}

/// Contents of a repository.
#[derive(Debug)]
pub struct RepoContents {
    /// The files.
    pub files: Vec<FileContent>,
    /// The length of all their texts in bytes.
    pub total_size: usize,
}

// --- Paths ---

/// A directory and a name in it, joined to a path.
pub open spec fn joined_path(dir: Seq<char>, name: Seq<char>) -> Seq<char> {
    if dir.len() == 0 || dir.last() == '/' {
        dir + name
    } else {
        dir + seq!['/'] + name
    }
}

/// Joins a directory and a name in it to a path.
pub fn join_path(dir: &str, name: &str) -> (r: String)
    ensures
        r@ == joined_path(dir@, name@),
{
    let n = dir.unicode_len();
    let mut out: String = dir.to_owned();
    if n > 0 && dir.get_char(n - 1) != '/' {
        out.push('/');
    }
    out.push_str(name);
    assert(out@ =~= joined_path(dir@, name@));
    out
}

/// Fetches and manages local clones of GitHub repositories.
#[derive(Debug)]
pub struct GitHubFetcher {
    repos_dir: String,
}

impl GitHubFetcher {
    /// The directory of the clones.
    pub closed spec fn dir(self) -> Seq<char> {
        self.repos_dir@
    }

    /// Where the clone of a repository lies.
    pub open spec fn path_of(self, owner: Seq<char>, name: Seq<char>) -> Seq<char> {
        joined_path(joined_path(self.dir(), owner), name)
    }

    /// A fetcher that keeps its clones in the given directory.
    pub fn new(repos_dir: String) -> (r: GitHubFetcher)
        ensures
            r.dir() == repos_dir@,
    {
        GitHubFetcher { repos_dir }
    }

    /// The local path for a repo.
    pub fn repo_path(&self, url: &GitHubRepoUrl) -> (r: String)
        ensures
            r@ == self.path_of(url.owner_text(), url.name_text()),
    {
        let owner_dir = join_path(self.repos_dir.as_str(), url.owner());
        join_path(owner_dir.as_str(), url.name())
    }
}

/// Different repositories have different local paths, each two levels below the directory of the
/// clones.
pub proof fn repo_paths_are_distinct(
    fetcher: GitHubFetcher,
    owner1: Seq<char>,
    name1: Seq<char>,
    owner2: Seq<char>,
    name2: Seq<char>,
)
    requires
        is_safe_component(owner1),
        is_safe_component(name1),
        is_safe_component(owner2),
        is_safe_component(name2),
    ensures
        fetcher.path_of(owner1, name1) == joined_path(
            fetcher.dir(),
            owner1 + seq!['/'] + name1,
        ),
        fetcher.path_of(owner1, name1) == fetcher.path_of(owner2, name2) ==> owner1 == owner2
            && name1 == name2,
{
    path_below(fetcher.dir(), owner1, name1);
    path_below(fetcher.dir(), owner2, name2);
    if fetcher.path_of(owner1, name1) == fetcher.path_of(owner2, name2) {
        let base = joined_path(fetcher.dir(), Seq::<char>::empty());
        let a = owner1 + seq!['/'] + name1;
        let b = owner2 + seq!['/'] + name2;
        assert(joined_path(fetcher.dir(), a) =~= base + a);
        assert(joined_path(fetcher.dir(), b) =~= base + b);
        assert((base + a).skip(base.len() as int) =~= a);
        assert((base + b).skip(base.len() as int) =~= b);
        assert(a == b);
        assert(a[owner1.len() as int] == '/');
        assert(b[owner2.len() as int] == '/');
        if owner1.len() < owner2.len() {
            assert(b[owner1.len() as int] == owner2[owner1.len() as int]);
            assert(owner2.contains('/'));
        }
        if owner2.len() < owner1.len() {
            assert(a[owner2.len() as int] == owner1[owner2.len() as int]);
            assert(owner1.contains('/'));
        }
        assert(a.take(owner1.len() as int) =~= owner1);
        assert(b.take(owner2.len() as int) =~= owner2);
        assert(a.skip(owner1.len() as int + 1) =~= name1);
        assert(b.skip(owner2.len() as int + 1) =~= name2);
    }
}

proof fn path_below(dir: Seq<char>, owner: Seq<char>, name: Seq<char>)
    requires
        is_safe_component(owner),
    ensures
        joined_path(joined_path(dir, owner), name) == joined_path(
            dir,
            owner + seq!['/'] + name,
        ),
{
    let owner_dir = joined_path(dir, owner);
    assert(owner_dir.last() == owner.last());
    if owner.last() == '/' {
        assert(owner[owner.len() - 1] == '/');
        assert(owner.contains('/'));
    }
    assert(joined_path(owner_dir, name) =~= joined_path(dir, owner + seq!['/'] + name));
}

// --- Git ---

/// The git commands that bring a clone up to date.
#[derive(Debug, Clone, Copy, PartialEq, Eq, Structural)]
pub enum GitStep {
    /// Make the clone.
    Clone,
    /// Fetch the latest commit into an existing clone.
    Fetch,
    /// Reset an existing clone to what was fetched.
    Reset,
    /// Ask for the current commit.
    RevParse,
}

/// What a git command left behind.
#[derive(Debug)]
pub struct GitOutput {
    /// Whether it succeeded.
    pub success: bool,
    /// Its output.
    pub stdout: Vec<u8>,
    /// Its error output.
    pub stderr: Vec<u8>,
}

/// What to do after a git command succeeded.
#[derive(Debug)]
pub enum FetchProgress {
    /// Run another command.
    Next(GitStep),
    /// The clone is current, at this commit.
    Head(CommitSha),
}

/// The command that follows one that succeeded, where one does.
pub open spec fn step_after(step: GitStep) -> Option<GitStep> {
    match step {
        GitStep::Clone => Some(GitStep::RevParse),
        GitStep::Fetch => Some(GitStep::Reset),
        GitStep::Reset => Some(GitStep::RevParse),
        GitStep::RevParse => None,
    }
}

impl GitStep {
    /// What precedes git's own words when the command fails.
    pub open spec fn failure_label(self) -> Seq<char> {
        match self {
            GitStep::Clone => ""@,
            GitStep::Fetch => "fetch failed: "@,
            GitStep::Reset => "reset failed: "@,
            GitStep::RevParse => "rev-parse failed: "@,
        }
    }

    /// The arguments of the command.
    pub open spec fn arg_texts(self, clone_url: Seq<char>, path: Seq<char>) -> Seq<Seq<char>> {
        match self {
            GitStep::Clone => seq!["clone"@, "--depth"@, "1"@, clone_url, path],
            GitStep::Fetch => seq!["fetch"@, "--depth"@, "1"@, "origin"@],
            GitStep::Reset => seq!["reset"@, "--hard"@, "origin/HEAD"@],
            GitStep::RevParse => seq!["rev-parse"@, "HEAD"@],
        }
    }

    /// The command that starts an update: an existing clone is fetched into, a missing one is
    /// made.
    pub fn first(clone_exists: bool) -> (r: GitStep)
        ensures
            r == if clone_exists {
                GitStep::Fetch
            } else {
                GitStep::Clone
            },
    {
        if clone_exists {
            GitStep::Fetch
        } else {
            GitStep::Clone
        }
    }

    /// Whether the command runs inside the clone.
    pub fn runs_in_clone(&self) -> (r: bool)
        ensures
            r == (*self != GitStep::Clone),
    {
        match self {
            GitStep::Clone => false,
            _ => true,
        }
    }

    /// The arguments of the command.
    pub fn args(&self, url: &GitHubRepoUrl, path: &str) -> (r: Vec<String>)
        ensures
            string_texts(r@) == self.arg_texts(
                "https://github.com/"@ + url.owner_text() + seq!['/'] + url.name_text() + ".git"@,
                path@,
            ),
    {
        match self {
            GitStep::Clone => {
                let clone_url = url.clone_url();
                let args = owned(["clone", "--depth", "1", clone_url.as_str(), path].as_slice());
                assert(string_texts(args@) =~= self.arg_texts(clone_url@, path@));
                args
            },
            GitStep::Fetch => {
                let args = owned(["fetch", "--depth", "1", "origin"].as_slice());
                assert(string_texts(args@) =~= self.arg_texts(Seq::empty(), path@));
                args
            },
            GitStep::Reset => {
                let args = owned(["reset", "--hard", "origin/HEAD"].as_slice());
                assert(string_texts(args@) =~= self.arg_texts(Seq::empty(), path@));
                args
            },
            GitStep::RevParse => {
                let args = owned(["rev-parse", "HEAD"].as_slice());
                assert(string_texts(args@) =~= self.arg_texts(Seq::empty(), path@));
                args
            },
        }
    }

    /// What follows once the command has ended.
    pub fn after(self, output: &GitOutput) -> (r: Result<FetchProgress, FetchError>)
        ensures
            !output.success ==> (r matches Err(FetchError::GitError(detail)) && detail@
                == self.failure_label() + lossy_text(output.stderr@)),
            output.success && (self == GitStep::Clone || self == GitStep::Reset) ==> r == Ok::<
                FetchProgress,
                FetchError,
            >(FetchProgress::Next(GitStep::RevParse)),
            output.success && self == GitStep::Fetch ==> r == Ok::<FetchProgress, FetchError>(
                FetchProgress::Next(GitStep::Reset),
            ),
            output.success && step_after(self) is Some ==> r == Ok::<FetchProgress, FetchError>(
                FetchProgress::Next(step_after(self)->Some_0),
            ),
            output.success && self == GitStep::RevParse ==> {
                let sha = trimmed(lossy_text(output.stdout@));
                match r {
                    Ok(FetchProgress::Head(head)) => is_sha(sha) && head@ == lowered(sha),
                    Ok(FetchProgress::Next(_)) => false,
                    Err(FetchError::InvalidSha(reported)) => !is_sha(sha) && reported@ == sha,
                    Err(_) => false,
                }
            },
    {
        if !output.success {
            let stderr = from_utf8_lossy(output.stderr.as_slice());
            return Err(self.failure(stderr.as_str()));
        }
        match self {
            GitStep::Clone | GitStep::Reset => Ok(FetchProgress::Next(GitStep::RevParse)),
            GitStep::Fetch => Ok(FetchProgress::Next(GitStep::Reset)),
            GitStep::RevParse => {
                let stdout = from_utf8_lossy(output.stdout.as_slice());
                match head_sha(stdout.as_str()) {
                    Ok(head) => Ok(FetchProgress::Head(head)),
                    Err(e) => Err(e),
                }
            },
        }
    }

    /// The error of a command that failed, by what it said.
    pub fn failure(self, stderr: &str) -> (r: FetchError)
        ensures
            r matches FetchError::GitError(detail) && detail@ == self.failure_label() + stderr@,
    {
        let label = match self {
            GitStep::Clone => "",
            GitStep::Fetch => "fetch failed: ",
            GitStep::Reset => "reset failed: ",
            GitStep::RevParse => "rev-parse failed: ",
        };
        FetchError::GitError(labelled(label, stderr))
    }
}

/// The commit that git reports as the current one.
pub fn head_sha(reported: &str) -> (r: Result<CommitSha, FetchError>)
    ensures
        match r {
            Ok(head) => is_sha(trimmed(reported@)) && head@ == lowered(trimmed(reported@)),
            Err(FetchError::InvalidSha(sha)) => !is_sha(trimmed(reported@)) && sha@ == trimmed(
                reported@,
            ),
            Err(_) => false,
        },
{
    let chars = to_chars(reported);
    let sha = trim(chars.as_slice());
    match CommitSha::parse(sha.as_str()) {
        Some(head) => Ok(head),
        None => Err(FetchError::InvalidSha(sha)),
    }
}

fn owned(list: &[&str]) -> (r: Vec<String>)
    ensures
        string_texts(r@) == slice_texts(list@),
{
    let mut out: Vec<String> = Vec::new();
    let mut i: usize = 0;
    while i < list.len()
        invariant
            i <= list@.len(),
            out@.len() == i,
            forall|j: int| 0 <= j < i ==> #[trigger] out@[j]@ == list@[j]@,
        decreases list.len() - i,
    {
        out.push(list[i].to_owned());
        i += 1;
    }
    assert(string_texts(out@) =~= slice_texts(list@));
    out
}

// --- Walking a clone ---

/// What a directory entry is, itself and not what it may point to.
#[derive(Debug, Clone, Copy, PartialEq, Eq, Structural)]
pub enum EntryKind {
    /// A directory.
    Dir,
    /// A regular file.
    File,
    /// A symbolic link.
    Symlink,
    /// Something else.
    Other,
}

/// An entry of a directory.
#[derive(Debug)]
pub struct DirEntry {
    /// Its name.
    pub name: String,
    /// What it is.
    pub kind: EntryKind,
    /// Its size in bytes.
    pub size: u64,
}

/// How far a walk through a clone has come: the paths of the directories still to be read, and of
/// the files found so far.
pub struct WalkState {
    /// The directories still to be read.
    pub pending: Seq<Seq<char>>,
    /// The files found so far.
    pub files: Seq<Seq<char>>,
}

/// A walk that has everything before it: the clone itself is still to be read.
pub open spec fn walk_start() -> WalkState {
    WalkState { pending: seq![Seq::empty()], files: Seq::empty() }
}

/// A directory entry that is to be read: a directory that the filter admits.
pub open spec fn enters(filter: FileFilter, dir: Seq<char>, entry: DirEntry) -> bool {
    entry.kind == EntryKind::Dir && filter.admits(joined_path(dir, entry.name@), 0)
}

/// A directory entry that is to be listed: a regular file that the filter admits.
pub open spec fn lists(filter: FileFilter, dir: Seq<char>, entry: DirEntry) -> bool {
    entry.kind == EntryKind::File && filter.admits(joined_path(dir, entry.name@), entry.size)
}

/// The walk after an entry of a directory was noted.
pub open spec fn noted(
    walk: WalkState,
    filter: FileFilter,
    dir: Seq<char>,
    entry: DirEntry,
) -> WalkState {
    let path = joined_path(dir, entry.name@);
    WalkState {
        pending: if enters(filter, dir, entry) {
            walk.pending.push(path)
        } else {
            walk.pending
        },
        files: if lists(filter, dir, entry) {
            walk.files.push(path)
        } else {
            walk.files
        },
    }
}

/// The state of a walk through a clone. Paths are relative to the clone, whose own path is
/// empty.
#[derive(Debug)]
pub struct Walk {
    /// The directories still to be read.
    pub pending: Vec<String>,
    /// The files found so far.
    pub files: Vec<String>,
}

impl View for Walk {
    type V = WalkState;

    open spec fn view(&self) -> WalkState {
        WalkState { pending: string_texts(self.pending@), files: string_texts(self.files@) }
    }
}

impl Walk {
    /// A directory that the walk may enter: the clone itself, or one that the filter admits.
    pub open spec fn may_enter(filter: FileFilter, dir: Seq<char>) -> bool {
        dir.len() == 0 || filter.admits(dir, 0)
    }

    /// Nothing that the walk has noted is excluded by the filter or hidden: no directory to be
    /// read, and no file.
    pub open spec fn keeps_to(self, filter: FileFilter) -> bool {
        &&& forall|i: int|
            0 <= i < self.pending@.len() ==> Walk::may_enter(filter, #[trigger] self.pending@[i]@)
        &&& forall|i: int|
            0 <= i < self.files@.len() ==> filter.admits(#[trigger] self.files@[i]@, 0)
    }

    /// A walk that has everything before it.
    pub fn start() -> (r: Walk)
        ensures
            r@ == walk_start(),
            forall|filter: FileFilter| #[trigger] r.keeps_to(filter),
    {
        let mut pending: Vec<String> = Vec::new();
        pending.push(String::new());
        assert(pending@[0]@ =~= Seq::<char>::empty());
        assert(string_texts(pending@) =~= seq![Seq::<char>::empty()]);
        let files: Vec<String> = Vec::new();
        assert(string_texts(files@) =~= Seq::<Seq<char>>::empty());
        Walk { pending, files }
    }

    /// The next directory to read: the one that was noted last.
    pub fn next_dir(&mut self) -> (r: Option<String>)
        ensures
            final(self)@.files == old(self)@.files,
            match r {
                Some(dir) => old(self)@.pending.len() > 0 && dir@ == old(self)@.pending.last()
                    && final(self)@.pending == old(self)@.pending.drop_last(),
                None => old(self)@.pending.len() == 0 && final(self)@.pending
                    == old(self)@.pending,
            },
            forall|filter: FileFilter| #[trigger]
                old(self).keeps_to(filter) ==> final(self).keeps_to(filter) && (
                r matches Some(dir) ==> Walk::may_enter(filter, dir@)),
    {
        let ghost dirs = self.pending@;
        let dir = self.pending.pop();
        assert(dirs.len() > 0 ==> string_texts(self.pending@) =~= string_texts(dirs).drop_last());
        dir
    }

    /// Takes note of a directory entry: a directory that the filter admits is read later, a file
    /// that it admits is listed. A symbolic link is neither followed nor listed.
    pub fn visit(&mut self, dir: &str, entry: &DirEntry, filter: &FileFilter)
        ensures
            final(self)@ == noted(old(self)@, *filter, dir@, *entry),
            old(self).keeps_to(*filter) ==> final(self).keeps_to(*filter),
    {
        let path = join_path(dir, entry.name.as_str());
        let ghost dirs = self.pending@;
        let ghost listed = self.files@;
        match entry.kind {
            EntryKind::Dir => {
                if filter.should_include(path.as_str(), 0) {
                    self.pending.push(path);
                    assert(string_texts(self.pending@) =~= string_texts(dirs).push(path@));
                }
            },
            EntryKind::File => {
                if filter.should_include(path.as_str(), entry.size) {
                    self.files.push(path);
                    assert(string_texts(self.files@) =~= string_texts(listed).push(path@));
                }
            },
            EntryKind::Symlink | EntryKind::Other => {},
        }
    }

    /// The files that were found, in the order of their paths.
    pub fn finish(self) -> (r: Vec<String>)
        ensures
            is_sorted(string_texts(r@)),
            string_texts(r@).to_multiset() == self@.files.to_multiset(),
    {
        sort_paths(self.files)
    }
}

// --- The order of paths ---

/// The rank of a character in a path: the slash comes before all others, so that paths are
/// ordered by their components.
pub open spec fn path_rank(c: char) -> int {
    if c == '/' {
        0
    } else {
        c as u32 + 1
    }
}

/// The first path comes before the second, or they are the same.
pub open spec fn path_at_most(a: Seq<char>, b: Seq<char>) -> bool
    decreases a.len(),
{
    if a.len() == 0 {
        true
    } else if b.len() == 0 {
        false
    } else if path_rank(a[0]) != path_rank(b[0]) {
        path_rank(a[0]) < path_rank(b[0])
    } else {
        path_at_most(a.skip(1), b.skip(1))
    }
}

/// A list of paths in order.
pub open spec fn is_sorted(paths: Seq<Seq<char>>) -> bool {
    forall|i: int, j: int| 0 <= i <= j < paths.len() ==> path_at_most(paths[i], paths[j])
}

/// The order of paths is total, and only the same path comes both before and after another.
pub proof fn path_order_is_total(a: Seq<char>, b: Seq<char>)
    ensures
        path_at_most(a, b) || path_at_most(b, a),
        path_at_most(a, b) && path_at_most(b, a) ==> a == b,
    decreases a.len(),
{
    if a.len() > 0 && b.len() > 0 && path_rank(a[0]) == path_rank(b[0]) {
        path_order_is_total(a.skip(1), b.skip(1));
        vstd::utf8::char_u32_cast(a[0], a[0] as u32);
        vstd::utf8::char_u32_cast(b[0], b[0] as u32);
        assert(a[0] == b[0]);
        if a.skip(1) == b.skip(1) {
            assert(a =~= seq![a[0]] + a.skip(1));
            assert(b =~= seq![b[0]] + b.skip(1));
        }
    } else if a.len() == 0 && b.len() == 0 {
        assert(a =~= b);
    }
}

/// The order of paths is transitive.
pub proof fn path_order_is_transitive(a: Seq<char>, b: Seq<char>, c: Seq<char>)
    requires
        path_at_most(a, b),
        path_at_most(b, c),
    ensures
        path_at_most(a, c),
    decreases a.len(),
{
    if a.len() > 0 && b.len() > 0 && c.len() > 0 && path_rank(a[0]) == path_rank(b[0])
        && path_rank(b[0]) == path_rank(c[0]) {
        path_order_is_transitive(a.skip(1), b.skip(1), c.skip(1));
    }
}

fn rank_of(c: char) -> (r: u32)
    ensures
        r == path_rank(c),
{
    if c == '/' {
        0
    } else {
        let code: u32 = c as u32;
        proof {
            vstd::utf8::char_is_scalar(c);
        }
        code + 1
    }
}

fn at_most(a: &str, b: &str) -> (r: bool)
    ensures
        r == path_at_most(a@, b@),
{
    let x = to_chars(a);
    let y = to_chars(b);
    let mut i: usize = 0;
    assert(a@.skip(0) =~= a@);
    assert(b@.skip(0) =~= b@);
    while i < x.len() && i < y.len()
        invariant
            x@ == a@,
            y@ == b@,
            i <= x@.len(),
            i <= y@.len(),
            path_at_most(a@, b@) == path_at_most(a@.skip(i as int), b@.skip(i as int)),
        decreases x.len() - i,
    {
        let p = rank_of(x[i]);
        let q = rank_of(y[i]);
        if p != q {
            return p < q;
        }
        assert(a@.skip(i as int).skip(1) =~= a@.skip(i + 1));
        assert(b@.skip(i as int).skip(1) =~= b@.skip(i + 1));
        i += 1;
    }
    i == x.len()
}

/// Inserting a path into a sorted list before the first path that does not come before it.
proof fn insertion_keeps_order(paths: Seq<Seq<char>>, path: Seq<char>, at: int)
    requires
        is_sorted(paths),
        0 <= at <= paths.len(),
        forall|i: int| 0 <= i < at ==> path_at_most(#[trigger] paths[i], path),
        at < paths.len() ==> path_at_most(path, paths[at]),
    ensures
        is_sorted(paths.insert(at, path)),
        paths.insert(at, path).to_multiset() == paths.to_multiset().insert(path),
{
    let longer = paths.insert(at, path);
    assert forall|i: int, j: int| 0 <= i <= j < longer.len() implies path_at_most(
        longer[i],
        longer[j],
    ) by {
        if i == j {
            path_order_is_total(longer[i], longer[i]);
        } else if i == at {
            path_order_is_transitive(path, paths[at], paths[j - 1]);
        } else if j < at {
            assert(path_at_most(paths[i], paths[j]));
        } else if j > at && i < at {
            assert(path_at_most(paths[i], paths[j - 1]));
        } else if i > at {
            assert(path_at_most(paths[i - 1], paths[j - 1]));
        }
    }
    paths.to_multiset_ensures();
    vstd::seq_lib::to_multiset_insert(paths, at, path);
}

fn sort_paths(paths: Vec<String>) -> (r: Vec<String>)
    ensures
        is_sorted(string_texts(r@)),
        string_texts(r@).to_multiset() == string_texts(paths@).to_multiset(),
{
    let mut out: Vec<String> = Vec::new();
    let mut i: usize = 0;
    assert(string_texts(paths@).take(0) =~= Seq::<Seq<char>>::empty());
    assert(string_texts(out@) =~= Seq::<Seq<char>>::empty());
    while i < paths.len()
        invariant
            i <= paths@.len(),
            is_sorted(string_texts(out@)),
            string_texts(out@).to_multiset() == string_texts(paths@).take(i as int).to_multiset(),
        decreases paths.len() - i,
    {
        let path = &paths[i];
        let mut at: usize = 0;
        while at < out.len() && !at_most(path.as_str(), out[at].as_str())
            invariant
                at <= out@.len(),
                forall|k: int|
                    0 <= k < at ==> path_at_most(#[trigger] string_texts(out@)[k], path@),
            decreases out.len() - at,
        {
            proof {
                path_order_is_total(path@, out@[at as int]@);
            }
            at += 1;
        }
        let ghost before = out@;
        let ghost texts = string_texts(paths@);
        proof {
            insertion_keeps_order(string_texts(before), path@, at as int);
            texts.take(i as int).to_multiset_ensures();
            assert(texts.take(i + 1) =~= texts.take(i as int).push(path@));
        }
        out.insert(at, path.clone());
        assert(string_texts(out@) =~= string_texts(before).insert(at as int, path@));
        i += 1;
    }
    assert(string_texts(paths@).take(i as int) =~= string_texts(paths@));
    out
}

// --- Reading the files ---

/// What came of reading a file.
#[derive(Debug)]
pub struct FileRead {
    /// The file's path within the repository.
    pub path: String,
    /// Its text, where it could be read as text.
    pub content: Option<String>,
}

/// The files that could be read as text, in their order.
pub open spec fn readable(reads: Seq<FileRead>) -> Seq<(Seq<char>, Seq<char>)>
    decreases reads.len(),
{
    if reads.len() == 0 {
        Seq::empty()
    } else {
        match reads.last().content {
            Some(content) => readable(reads.drop_last()).push((reads.last().path@, content@)),
            None => readable(reads.drop_last()),
        }
    }
}

/// The length in bytes of all that could be read.
pub open spec fn readable_bytes(reads: Seq<FileRead>) -> nat
    decreases reads.len(),
{
    if reads.len() == 0 {
        0
    } else {
        match reads.last().content {
            Some(content) => readable_bytes(reads.drop_last()) + (vstd::utf8::encode_utf8(
                content@,
            ).len() as usize) as nat,
            None => readable_bytes(reads.drop_last()),
        }
    }
}

/// Paths and texts of a list of files.
pub open spec fn file_views(files: Seq<FileContent>) -> Seq<(Seq<char>, Seq<char>)> {
    files.map_values(|f: FileContent| (f.path@, f.content@))
}

proof fn fewer_reads_fewer_bytes(reads: Seq<FileRead>, n: int)
    requires
        0 <= n <= reads.len(),
    ensures
        readable_bytes(reads.take(n)) <= readable_bytes(reads),
    decreases reads.len() - n,
{
    if n < reads.len() {
        fewer_reads_fewer_bytes(reads, n + 1);
        assert(reads.take(n + 1).drop_last() =~= reads.take(n));
    } else {
        assert(reads.take(n) =~= reads);
    }
}

/// The contents of a repo as a list of files, from what came of reading each listed file. Files
/// that could not be read as text (binary, permissions, etc.) are skipped.
pub fn get_contents(clone_exists: bool, reads: Vec<FileRead>) -> (r: Result<
    RepoContents,
    FetchError,
>)
    requires
        readable_bytes(reads@) <= usize::MAX,
    ensures
        match r {
            Ok(contents) => clone_exists && file_views(contents.files@) == readable(reads@)
                && contents.total_size == readable_bytes(reads@),
            Err(e) => !clone_exists && e == FetchError::NotFound,
        },
{
    if !clone_exists {
        return Err(FetchError::NotFound);
    }
    let mut files: Vec<FileContent> = Vec::new();
    let mut total_size: usize = 0;
    let mut i: usize = 0;
    assert(reads@.take(0) =~= Seq::<FileRead>::empty());
    assert(file_views(files@) =~= Seq::<(Seq<char>, Seq<char>)>::empty());
    while i < reads.len()
        invariant
            i <= reads@.len(),
            readable_bytes(reads@) <= usize::MAX,
            file_views(files@) == readable(reads@.take(i as int)),
            total_size == readable_bytes(reads@.take(i as int)),
        decreases reads.len() - i,
    {
        let ghost before = files@;
        assert(reads@.take(i + 1).drop_last() =~= reads@.take(i as int));
        proof {
            fewer_reads_fewer_bytes(reads@, i + 1);
        }
        match &reads[i].content {
            Some(content) => {
                total_size += content.as_str().len();
                files.push(FileContent { path: reads[i].path.clone(), content: content.clone() });
                assert(file_views(files@) =~= file_views(before).push(
                    (reads@[i as int].path@, content@),
                ));
            },
            None => {},
        }
        i += 1;
    }
    assert(reads@.take(i as int) =~= reads@);
    Ok(RepoContents { files, total_size })
}

// --- What is walked, listed and read ---

/// A name stands below its directory, with one slash between them; in the clone itself it stands
/// alone.
pub proof fn name_stands_below_its_directory(dir: Seq<char>, name: Seq<char>)
    ensures
        joined_path(Seq::empty(), name) == name,
        dir.len() > 0 && dir.last() != '/' ==> joined_path(dir, name) == dir + "/"@ + name,
        dir.len() > 0 && dir.last() == '/' ==> joined_path(dir, name) == dir + name,
{
    reveal_strlit("/");
    assert("/"@ =~= seq!['/']);
    assert(Seq::<char>::empty() + name =~= name);
}

/// Of the entries of a directory, a walk enters directories alone and lists regular files alone,
/// and of these those that the filter admits by their path and, for files, their size. Links are
/// never followed nor listed.
pub proof fn links_are_left_alone(filter: FileFilter, dir: Seq<char>, entry: DirEntry)
    ensures
        enters(filter, dir, entry) <==> entry.kind is Dir && filter.admits(
            joined_path(dir, entry.name@),
            0,
        ),
        lists(filter, dir, entry) <==> entry.kind is File && filter.admits(
            joined_path(dir, entry.name@),
            entry.size,
        ),
        entry.kind is Symlink || entry.kind is Other ==> !enters(filter, dir, entry) && !lists(
            filter,
            dir,
            entry,
        ),
{
}

/// Noting an entry adds its path at the end of the list that it belongs to, and changes nothing
/// else.
pub proof fn entry_is_noted_once(
    walk: WalkState,
    filter: FileFilter,
    dir: Seq<char>,
    entry: DirEntry,
)
    ensures
        ({
            let after = noted(walk, filter, dir, entry);
            let path = joined_path(dir, entry.name@);
            &&& entry.kind is Dir && filter.admits(path, 0) ==> after.pending == walk.pending.push(
                path,
            ) && after.files == walk.files
            &&& entry.kind is File && filter.admits(path, entry.size) ==> after.files
                == walk.files.push(path) && after.pending == walk.pending
            &&& entry.kind is Symlink || entry.kind is Other ==> after == walk
            &&& !filter.admits(path, 0) && !filter.admits(path, entry.size) ==> after == walk
        }),
{
}

/// A walk keeps to what the filter admits, with the clone itself as its start.
pub proof fn walk_enters_what_is_admitted(filter: FileFilter, dir: Seq<char>)
    ensures
        Walk::may_enter(filter, dir) <==> dir.len() == 0 || filter.admits(dir, 0),
{
}

/// Paths are ordered by their components: at the first place where two differ, the path that ends
/// there comes first, then the one whose component ends there, and else the lower character
/// decides.
pub proof fn paths_are_ordered_by_component(a: Seq<char>, b: Seq<char>, n: int)
    requires
        0 <= n <= a.len(),
        n <= b.len(),
        forall|i: int| 0 <= i < n ==> #[trigger] a[i] == b[i],
        n < a.len() && n < b.len() ==> a[n] != b[n],
    ensures
        path_at_most(a, b) <==> {
            ||| n == a.len()
            ||| n < b.len() && a[n] == '/'
            ||| n < b.len() && b[n] != '/' && (a[n] as u32) < (b[n] as u32)
        },
    decreases n,
{
    if n > 0 {
        assert(a[0] == b[0]);
        assert forall|i: int| 0 <= i < n - 1 implies #[trigger] a.skip(1)[i] == b.skip(1)[i] by {
            assert(a[i + 1] == b[i + 1]);
        }
        paths_are_ordered_by_component(a.skip(1), b.skip(1), n - 1);
    } else if a.len() > 0 && b.len() > 0 {
        vstd::utf8::char_u32_cast(a[0], a[0] as u32);
        vstd::utf8::char_u32_cast(b[0], b[0] as u32);
    }
}

/// Exactly the files that could be read as text are shown, in their order, with their texts; and
/// their bytes add up.
pub proof fn readable_files_are_shown(reads: Seq<FileRead>, more: FileRead)
    ensures
        readable(Seq::empty()).len() == 0,
        readable_bytes(Seq::empty()) == 0,
        more.content is None ==> readable(reads.push(more)) == readable(reads) && readable_bytes(
            reads.push(more),
        ) == readable_bytes(reads),
        more.content is Some ==> readable(reads.push(more)) == readable(reads).push(
            (more.path@, more.content->Some_0@),
        ),
        more.content is Some && vstd::utf8::encode_utf8(more.content->Some_0@).len() <= usize::MAX
            ==> readable_bytes(reads.push(more)) == readable_bytes(reads)
            + vstd::utf8::encode_utf8(more.content->Some_0@).len(),
{
    assert(reads.push(more).drop_last() =~= reads);
}

/// The commands of git: a clone and a fetch take one commit, a reset takes what was fetched, and
/// the current commit is asked for.
pub proof fn git_is_asked_for_one_commit(url: Seq<char>, path: Seq<char>)
    ensures
        GitStep::Clone.arg_texts(url, path) == seq!["clone"@, "--depth"@, "1"@, url, path],
        GitStep::Fetch.arg_texts(url, path) == seq!["fetch"@, "--depth"@, "1"@, "origin"@],
        GitStep::Reset.arg_texts(url, path) == seq!["reset"@, "--hard"@, "origin/HEAD"@],
        GitStep::RevParse.arg_texts(url, path) == seq!["rev-parse"@, "HEAD"@],
        GitStep::Clone.failure_label().len() == 0,
        GitStep::Fetch.failure_label() == "fetch failed: "@,
        GitStep::Reset.failure_label() == "reset failed: "@,
        GitStep::RevParse.failure_label() == "rev-parse failed: "@,
{
    reveal_strlit("");
}

/// What an error says ends in its detail, and tells the kinds of errors apart.
pub proof fn fetch_errors_say_their_detail(detail: String)
    ensures
        FetchError::GitError(detail).text() == "Git error: "@ + detail@,
        FetchError::IoError(detail).text() == "IO error: "@ + detail@,
        FetchError::InvalidSha(detail).text() == "Invalid commit SHA: "@ + detail@,
        FetchError::NotFound.text() == "Repository not found"@,
{
}

/// A list of files is told by the path and the text of each.
pub proof fn files_are_told_one_by_one(files: Seq<FileContent>, i: int)
    requires
        0 <= i < files.len(),
    ensures
        file_views(files).len() == files.len(),
        file_views(files)[i].0 == files[i].path@,
        file_views(files)[i].1 == files[i].content@,
{
}

/// A walk that keeps to a filter has noted nothing that the filter does not admit.
pub proof fn noted_paths_are_admitted(walk: Walk, filter: FileFilter, i: int)
    requires
        walk.keeps_to(filter),
    ensures
        0 <= i < walk.pending@.len() ==> walk.pending@[i]@.len() == 0 || filter.admits(
            walk.pending@[i]@,
            0,
        ),
        0 <= i < walk.files@.len() ==> filter.admits(walk.files@[i]@, 0),
{
    if 0 <= i < walk.pending@.len() {
        assert(Walk::may_enter(filter, walk.pending@[i]@));
    }
}

/// What was fetched is checked out before the current commit is asked for, and that is asked last, of
/// a new clone as of an old one.
pub proof fn clone_is_current_at_the_end(step: GitStep)
    ensures
        step_after(step) is None <==> step is RevParse,
        step_after(GitStep::Fetch) == Some(GitStep::Reset),
        step is Clone || step is Reset ==> step_after(step) == Some(GitStep::RevParse),
{
}

} // verus!
