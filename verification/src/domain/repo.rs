//! Repositories, their GitHub URLs and their commits.

use vstd::prelude::*;

use crate::domain::ids::RepoId;
use crate::text::{
    ascii_lower, chars_of, contains, find, find_from, find_from_is_least, has_text,
    index_or_len_is_first, lowered, occurs_at, same_text, split, split_parts, to_chars,
    trim_end_text, trim_start_char, without_leading, without_trailing,
};
use crate::time::Timestamp;

verus! {

// --- URLs ---

/// The parts of a URL.
#[derive(Debug)]
pub struct UrlParts {
    /// The scheme, without the colon.
    pub scheme: String,
    /// The host, where there is one.
    pub host: Option<String>,
    /// The path, percent-encoded.
    pub path: String,
    /// The query, where there is one, without the question mark.
    pub query: Option<String>,
    /// The fragment, where there is one, without the number sign.
    pub fragment: Option<String>,
    /// The whole URL in its normal form.
    pub serialization: String,
}

/// The characters of an optional text.
pub open spec fn option_text(s: Option<String>) -> Option<Seq<char>> {
    match s {
        Some(t) => Some(t@),
        None => None,
    }
}

impl View for UrlParts {
    type V = (
        Seq<char>,
        Option<Seq<char>>,
        Seq<char>,
        Option<Seq<char>>,
        Option<Seq<char>>,
        Seq<char>,
    );

    open spec fn view(&self) -> Self::V {
        (
            self.scheme@,
            option_text(self.host),
            self.path@,
            option_text(self.query),
            option_text(self.fragment),
            self.serialization@,
        )
    }
}

/// What `url::Url::parse` makes of a text: scheme, host, path, query, fragment and the whole URL
/// in normal form, or nothing where it rejects the text.
pub uninterp spec fn url_parts(s: Seq<char>) -> Option<
    (Seq<char>, Option<Seq<char>>, Seq<char>, Option<Seq<char>>, Option<Seq<char>>, Seq<char>),
>;

/// A path segment that no URL parser rewrites: ASCII letters, digits, `-`, `_` and `.`, the first
/// of them a letter.
pub open spec fn is_plain_segment(s: Seq<char>) -> bool {
    &&& s.len() > 0
    &&& is_letter(s[0])
    &&& forall|i: int| 0 <= i < s.len() ==> is_plain_char(#[trigger] s[i])
}

/// An ASCII letter.
pub open spec fn is_letter(c: char) -> bool {
    'a' <= c <= 'z' || 'A' <= c <= 'Z'
}

/// A character that stands for itself in a URL path.
pub open spec fn is_plain_char(c: char) -> bool {
    is_letter(c) || '0' <= c <= '9' || c == '-' || c == '_' || c == '.'
}

/// The text of a repository URL with nothing special in it.
pub open spec fn plain_repo_url(owner: Seq<char>, name: Seq<char>) -> Seq<char> {
    "https://github.com/"@ + owner + seq!['/'] + name
}

/// If `s` is the URL of a plain owner and a plain name on `https://github.com`, then `r` has just
/// these parts and no others.
pub open spec fn keeps_plain_url(s: Seq<char>, r: Option<UrlParts>) -> bool {
    forall|owner: Seq<char>, name: Seq<char>|
        is_plain_segment(owner) && is_plain_segment(name) && s == #[trigger] plain_repo_url(
            owner,
            name,
        ) ==> (r matches Some(parts) && parts@ == (
            "https"@,
            Some("github.com"@),
            seq!['/'] + owner + seq!['/'] + name,
            None::<Seq<char>>,
            None::<Seq<char>>,
            s,
        ))
}

/// `url::Url::parse` and the accessors of `url::Url`: the parts of an absolute URL. They depend
/// on the text alone. The path is ASCII. The URL of a plain owner and a plain name on
/// `https://github.com` has just these parts and no others.
#[verifier::external_body]
fn parse_url(s: &str) -> (r: Option<UrlParts>)
    ensures
        r matches Some(parts) ==> url_parts(s@) == Some(parts@),
        r is None ==> url_parts(s@) is None,
        r matches Some(parts) ==> vstd::utf8::is_ascii_chars(parts.path@),
        keeps_plain_url(s@, r),
{
    let url = url::Url::parse(s).ok()?;
    Some(UrlParts {
        scheme: url.scheme().to_string(),
        host: url.host_str().map(|h| h.to_string()),
        path: url.path().to_string(),
        query: url.query().map(|q| q.to_string()),
        fragment: url.fragment().map(|f| f.to_string()),
        serialization: url.as_str().to_string(),
    })
}

// --- GitHub repositories ---

/// A validated GitHub repository URL.
///
/// Owner and name are in lowercase, since GitHub does not tell `Owner/Repo` from `owner/repo`,
/// and neither do some file systems.
#[derive(Debug, PartialEq, Eq)]
pub struct GitHubRepoUrl {
    owner: String,
    name: String,
    url: String,
}

/// A name that stays within its directory when it is joined to a path: not empty, not a dot
/// segment, and without a path separator.
pub open spec fn is_safe_component(s: Seq<char>) -> bool {
    &&& s.len() > 0
    &&& s != "."@
    &&& s != ".."@
    &&& !s.contains('/')
    &&& !s.contains('\\')
}

/// Two slashes follow each other somewhere after the first `github.com`.
pub open spec fn has_empty_segment(s: Seq<char>) -> bool {
    match find_from(s, "github.com"@, 0) {
        Some(i) => has_text(s.skip(i + 10), "//"@),
        None => false,
    }
}

/// The owner and the name that a URL path gives, each in lowercase, the name without `.git`;
/// nothing where the path is not that of a repository.
pub open spec fn repo_of_path(path: Seq<char>) -> Option<(Seq<char>, Seq<char>)> {
    let parts = split_parts(without_leading(path, '/'), '/');
    let owner = lowered(parts[0]);
    let name = lowered(without_trailing(parts[1], ".git"@));
    if parts.len() < 2 || !is_safe_component(owner) || !is_safe_component(name) || (parts.len() > 2
        && parts[2].len() > 0) {
        None
    } else {
        Some((owner, name))
    }
}

/// The owner and the name of the repository that a URL names, where it names one: the scheme is
/// `https`, the host `github.com`, there is no query and no fragment, and the path is that of a
/// repository.
pub open spec fn repo_of_url(
    url: (
        Seq<char>,
        Option<Seq<char>>,
        Seq<char>,
        Option<Seq<char>>,
        Option<Seq<char>>,
        Seq<char>,
    ),
) -> Option<(Seq<char>, Seq<char>)> {
    if url.0 == "https"@ && url.1 == Some("github.com"@) && url.3 is None && url.4 is None {
        repo_of_path(url.2)
    } else {
        None
    }
}

/// The text is the URL of a GitHub repository.
pub open spec fn is_repo_url(s: Seq<char>) -> bool {
    &&& !has_empty_segment(s)
    &&& url_parts(s) is Some
    &&& repo_of_url(url_parts(s)->Some_0) is Some
}

impl GitHubRepoUrl {
    /// The owner.
    pub closed spec fn owner_text(self) -> Seq<char> {
        self.owner@
    }

    /// The repository's name.
    pub closed spec fn name_text(self) -> Seq<char> {
        self.name@
    }

    /// The URL.
    pub closed spec fn url_text(self) -> Seq<char> {
        self.url@
    }

    #[verifier::type_invariant]
    spec fn is_valid(self) -> bool {
        is_safe_component(self.owner@) && is_safe_component(self.name@)
    }

    /// The text is a URL of this repository, with `url_text` as its normal form.
    pub open spec fn is_named_by(self, s: Seq<char>) -> bool {
        &&& is_repo_url(s)
        &&& repo_of_url(url_parts(s)->Some_0) == Some((self.owner_text(), self.name_text()))
        &&& self.url_text() == (url_parts(s)->Some_0).5
    }

    /// Parses a URL into a validated GitHub repository URL. Gives none where it is not the URL of
    /// a GitHub repository.
    pub fn parse(s: &str) -> (r: Option<GitHubRepoUrl>)
        ensures
            match r {
                Some(u) => u.is_named_by(s@),
                None => !is_repo_url(s@),
            },
            r matches Some(u) ==> is_safe_component(u.owner_text()) && is_safe_component(
                u.name_text(),
            ),
            forall|owner: Seq<char>, name: Seq<char>|
                is_plain_segment(owner) && is_plain_segment(name) && s@
                    == #[trigger] plain_repo_url(owner, name) ==> (r matches Some(u)
                    && u.owner_text() == lowered(owner) && u.name_text() == lowered(
                    without_trailing(name, ".git"@),
                ) && u.url_text() == s@),
    {
        if double_slash_after_host(s) {
            proof {
                assert forall|owner: Seq<char>, name: Seq<char>|
                    is_plain_segment(owner) && is_plain_segment(name) && s@
                        == #[trigger] plain_repo_url(owner, name) implies false by {
                    plain_url_has_no_empty_segment(owner, name);
                }
            }
            return None;
        }
        let parsed = match parse_url(s) {
            Some(parts) => GitHubRepoUrl::from_parts(&parts),
            None => None,
        };
        proof {
            assert forall|owner: Seq<char>, name: Seq<char>|
                is_plain_segment(owner) && is_plain_segment(name) && s@
                    == #[trigger] plain_repo_url(owner, name) implies (parsed matches Some(u)
                && u.owner_text() == lowered(owner) && u.name_text() == lowered(
                without_trailing(name, ".git"@),
            ) && u.url_text() == s@) by {
                plain_path_names_repo(owner, name);
            }
        }
        parsed
    }

    /// The validated GitHub repository URL with the given parts, where they are those of one.
    pub fn from_parts(parts: &UrlParts) -> (r: Option<GitHubRepoUrl>)
        requires
            vstd::utf8::is_ascii_chars(parts.path@),
        ensures
            match r {
                Some(u) => repo_of_url(parts@) == Some((u.owner_text(), u.name_text()))
                    && u.url_text() == parts.serialization@,
                None => repo_of_url(parts@) is None,
            },
            r matches Some(u) ==> is_safe_component(u.owner_text()) && is_safe_component(
                u.name_text(),
            ),
    {
        // Must be HTTPS
        if !same_text(parts.scheme.as_str(), "https") {
            return None;
        }
        // Must be github.com
        match &parts.host {
            Some(host) => {
                if !same_text(host.as_str(), "github.com") {
                    return None;
                }
            },
            None => {
                return None;
            },
        }
        // Only clean repository URLs are accepted
        if parts.query.is_some() || parts.fragment.is_some() {
            return None;
        }
        let path = to_chars(parts.path.as_str());
        let trimmed_path = trim_start_char(&path, '/');
        let segments = split(&trimmed_path, '/');
        let ghost texts = split_parts(without_leading(parts.path@, '/'), '/');
        assert(segments@.len() == texts.len());
        assert(forall|i: int|
            0 <= i < segments@.len() ==> (#[trigger] segments@[i])@ == texts[i]) by {
            assert(forall|i: int|
                0 <= i < segments@.len() ==> (#[trigger] segments@[i])@ == segments@.map_values(
                    |v: Vec<char>| v@,
                )[i]);
        }
        if segments.len() < 2 {
            return None;
        }
        let owner = ascii_lower(&segments[0]);
        let name = ascii_lower(&trim_end_text(&segments[1], &to_chars(".git")));
        // Neither may lead out of the directory that the clone is kept in
        if !safe_component(owner.as_str()) || !safe_component(name.as_str()) {
            return None;
        }
        // A longer path points into the repository, such as owner/repo/blob/main/file.rs
        if segments.len() > 2 && segments[2].len() > 0 {
            return None;
        }
        Some(GitHubRepoUrl { owner, name, url: parts.serialization.clone() })
    }

    /// The owner, in lowercase.
    pub fn owner(&self) -> (r: &str)
        ensures
            r@ == self.owner_text(),
            is_safe_component(r@),
    {
        proof {
            use_type_invariant(self);
        }
        self.owner.as_str()
    }

    /// The repository's name, in lowercase.
    pub fn name(&self) -> (r: &str)
        ensures
            r@ == self.name_text(),
            is_safe_component(r@),
    {
        proof {
            use_type_invariant(self);
        }
        self.name.as_str()
    }

    /// The HTTPS clone URL for git operations.
    pub fn clone_url(&self) -> (r: String)
        ensures
            r@ == "https://github.com/"@ + self.owner_text() + seq!['/'] + self.name_text()
                + ".git"@,
    {
        let mut out: String = String::new();
        out.push_str("https://github.com/");
        out.push_str(self.owner.as_str());
        out.push('/');
        out.push_str(self.name.as_str());
        out.push_str(".git");
        assert(out@ =~= "https://github.com/"@ + self.owner@ + seq!['/'] + self.name@ + ".git"@);
        out
    }

    /// The URL, in its normal form.
    pub fn as_str(&self) -> (r: &str)
        ensures
            r@ == self.url_text(),
    {
        self.url.as_str()
    }
}

impl Clone for GitHubRepoUrl {
    fn clone(&self) -> (r: GitHubRepoUrl)
        ensures
            r == *self,
    {
        proof {
            use_type_invariant(self);
        }
        GitHubRepoUrl {
            owner: self.owner.clone(),
            name: self.name.clone(),
            url: self.url.clone(),
        }
    }
}

fn has_char(s: &[char], c: char) -> (r: bool)
    ensures
        r == s@.contains(c),
{
    let mut i: usize = 0;
    while i < s.len()
        invariant
            i <= s@.len(),
            forall|j: int| 0 <= j < i ==> s@[j] != c,
        decreases s.len() - i,
    {
        if s[i] == c {
            return true;
        }
        i += 1;
    }
    false
}

/// Whether a name stays within its directory when it is joined to a path.
pub fn safe_component(s: &str) -> (r: bool)
    ensures
        r == is_safe_component(s@),
{
    let chars = to_chars(s);
    chars.len() > 0 && !same_text(s, ".") && !same_text(s, "..") && !has_char(&chars, '/')
        && !has_char(&chars, '\\')
}

fn double_slash_after_host(s: &str) -> (r: bool)
    ensures
        r == has_empty_segment(s@),
{
    let chars = to_chars(s);
    let host = to_chars("github.com");
    proof {
        reveal_strlit("github.com");
    }
    match find(&chars, &host, 0) {
        Some(i) => {
            assert(i + 10 <= chars.len());
            let after = chars_of(&chars, i + 10, chars.len());
            assert(after@ =~= s@.skip(i + 10));
            contains(&after, &to_chars("//"))
        },
        None => false,
    }
}

// --- Plain URLs ---

proof fn plain_segment_is_unsplit(s: Seq<char>)
    requires
        is_plain_segment(s),
    ensures
        !s.contains('/'),
        !s.contains('\\'),
        is_safe_component(lowered(s)),
{
    reveal_strlit(".");
    reveal_strlit("..");
    if s.contains('/') {
        let j = choose|j: int| 0 <= j < s.len() && s[j] == '/';
        assert(is_plain_char(s[j]));
    }
    if s.contains('\\') {
        let j = choose|j: int| 0 <= j < s.len() && s[j] == '\\';
        assert(is_plain_char(s[j]));
    }
    let t = lowered(s);
    assert(t[0] == crate::text::lower_char(s[0]));
    assert(is_letter(s[0]));
    assert(t[0] != '.');
    assert("."@[0] == '.');
    assert(".."@[0] == '.');
    assert forall|j: int| 0 <= j < t.len() implies t[j] != '/' && t[j] != '\\' by {
        assert(is_plain_char(s[j]));
        assert(t[j] == crate::text::lower_char(s[j]));
    }
}

proof fn plain_name_keeps_a_plain_start(s: Seq<char>)
    requires
        is_plain_segment(s),
    ensures
        is_plain_segment(without_trailing(s, ".git"@)),
    decreases s.len(),
{
    reveal_strlit(".git");
    if ".git"@.is_suffix_of(s) {
        let t = s.take(s.len() - 4);
        assert(s.subrange(s.len() - 4, s.len() as int)[0] == s[s.len() - 4]);
        assert(s[s.len() - 4] == '.');
        assert(t.len() > 0) by {
            if t.len() == 0 {
                assert(s[0] == '.');
            }
        }
        assert(forall|i: int| 0 <= i < t.len() ==> #[trigger] t[i] == s[i]);
        plain_name_keeps_a_plain_start(t);
    }
}

proof fn one_separator(a: Seq<char>, b: Seq<char>, sep: char)
    requires
        !a.contains(sep),
        !b.contains(sep),
    ensures
        split_parts(a + seq![sep] + b, sep) == seq![a, b],
{
    let s = a + seq![sep] + b;
    crate::text::index_or_len_is_first(s, sep);
    let i = crate::text::index_or_len(s, sep);
    assert(s[a.len() as int] == sep);
    if i < a.len() {
        assert(a[i] == sep);
    }
    assert(i == a.len());
    assert(s.take(i) =~= a);
    assert(s.skip(i + 1) =~= b);
    crate::text::index_or_len_is_first(b, sep);
    let k = crate::text::index_or_len(b, sep);
    if k < b.len() {
        assert(b[k] == sep);
    }
    assert(split_parts(b, sep) =~= seq![b]);
    assert(seq![a] + seq![b] =~= seq![a, b]);
}

proof fn plain_path_names_repo(owner: Seq<char>, name: Seq<char>)
    requires
        is_plain_segment(owner),
        is_plain_segment(name),
    ensures
        repo_of_path(seq!['/'] + owner + seq!['/'] + name) == Some(
            (lowered(owner), lowered(without_trailing(name, ".git"@))),
        ),
{
    let path = seq!['/'] + owner + seq!['/'] + name;
    let rest = owner + seq!['/'] + name;
    plain_segment_is_unsplit(owner);
    plain_segment_is_unsplit(name);
    plain_name_keeps_a_plain_start(name);
    plain_segment_is_unsplit(without_trailing(name, ".git"@));
    assert(path.drop_first() =~= rest);
    assert(rest[0] == owner[0]);
    assert(is_plain_char(owner[0]));
    assert(without_leading(rest, '/') == rest);
    assert(without_leading(path, '/') == rest);
    one_separator(owner, name, '/');
}

proof fn plain_url_has_no_empty_segment(owner: Seq<char>, name: Seq<char>)
    requires
        is_plain_segment(owner),
        is_plain_segment(name),
    ensures
        !has_empty_segment(plain_repo_url(owner, name)),
{
    reveal_strlit("https://github.com/");
    reveal_strlit("github.com");
    reveal_strlit("//");
    let s = plain_repo_url(owner, name);
    find_from_is_least(s, "github.com"@, 0);
    plain_segment_is_unsplit(owner);
    plain_segment_is_unsplit(name);
    assert(s.subrange(8, 18) =~= "github.com"@);
    assert(occurs_at(s, "github.com"@, 8));
    let i = find_from(s, "github.com"@, 0).unwrap();
    assert(i <= 8);
    assert(s.subrange(i, i + 10)[0] == s[i]);
    assert(s[i] == 'g');
    assert(i == 8);
    let after = s.skip(18);
    if has_text(after, "//"@) {
        let j = choose|j: int| occurs_at(after, "//"@, j);
        assert(after.subrange(j, j + 2)[0] == after[j]);
        assert(after.subrange(j, j + 2)[1] == after[j + 1]);
        assert(after[j] == '/' && after[j + 1] == '/');
        let n = owner.len();
        assert(forall|k: int| 1 <= k <= n ==> after[k] == owner[k - 1]);
        assert(forall|k: int| n + 2 <= k < after.len() ==> after[k] == name[k - n - 2]);
        assert(after[0] == '/');
        if j < n {
            assert(after[j + 1] == owner[j]);
            assert(owner.contains('/'));
        } else if j == n {
            assert(after[j] == owner[j - 1]);
            assert(owner.contains('/'));
        } else {
            assert(after[j + 1] == name[j + 1 - n - 2]);
            assert(name.contains('/'));
        }
    }
}

// --- Commits ---

/// A commit SHA - exactly 40 hex characters, in lowercase.
#[derive(Debug, PartialEq, Eq)]
pub struct CommitSha(String);

/// An ASCII hexadecimal digit.
pub open spec fn is_hex_digit(c: char) -> bool {
    '0' <= c <= '9' || 'a' <= c <= 'f' || 'A' <= c <= 'F'
}

/// Forty hexadecimal digits.
pub open spec fn is_sha(s: Seq<char>) -> bool {
    s.len() == 40 && forall|i: int| 0 <= i < s.len() ==> is_hex_digit(#[trigger] s[i])
}

impl View for CommitSha {
    type V = Seq<char>;

    closed spec fn view(&self) -> Seq<char> {
        self.0@
    }
}

impl CommitSha {
    #[verifier::type_invariant]
    spec fn is_valid(self) -> bool {
        is_sha(self.0@) && lowered(self.0@) == self.0@
    }

    /// Parses a string into a validated commit SHA. Gives none where it is not exactly 40 hex
    /// characters.
    pub fn parse(s: &str) -> (r: Option<CommitSha>)
        ensures
            match r {
                Some(sha) => is_sha(s@) && sha@ == lowered(s@),
                None => !is_sha(s@),
            },
    {
        let chars = to_chars(s);
        if chars.len() != 40 {
            return None;
        }
        let mut i: usize = 0;
        while i < chars.len()
            invariant
                chars@ == s@,
                i <= chars@.len(),
                forall|j: int| 0 <= j < i ==> is_hex_digit(#[trigger] s@[j]),
            decreases chars.len() - i,
        {
            let c = chars[i];
            if !(('0' <= c && c <= '9') || ('a' <= c && c <= 'f') || ('A' <= c && c <= 'F')) {
                assert(!is_hex_digit(s@[i as int]));
                return None;
            }
            i += 1;
        }
        let lower = ascii_lower(&chars);
        proof {
            lowered_sha_is_sha(s@);
        }
        Some(CommitSha(lower))
    }

    /// The SHA's text.
    pub fn as_str(&self) -> (r: &str)
        ensures
            r@ == self@,
            is_sha(r@),
            lowered(r@) == r@,
    {
        proof {
            use_type_invariant(self);
        }
        self.0.as_str()
    }

    /// Whether two SHAs are those of the same commit.
    pub fn same_as(&self, other: &CommitSha) -> (r: bool)
        ensures
            r == (self@ == other@),
    {
        same_text(self.0.as_str(), other.0.as_str())
    }
}

impl Clone for CommitSha {
    fn clone(&self) -> (r: CommitSha)
        ensures
            r == *self,
    {
        proof {
            use_type_invariant(self);
        }
        CommitSha(self.0.clone())
    }
}

proof fn lowered_sha_is_sha(s: Seq<char>)
    requires
        is_sha(s),
    ensures
        is_sha(lowered(s)),
        lowered(lowered(s)) == lowered(s),
{
    let t = lowered(s);
    assert forall|i: int| 0 <= i < t.len() implies is_hex_digit(#[trigger] t[i])
        && crate::text::lower_char(t[i]) == t[i] by {
        assert(is_hex_digit(s[i]));
        assert(t[i] == crate::text::lower_char(s[i]));
    }
    assert(lowered(t) =~= t);
}

/// The same SHA in letters of either case is the same commit.
pub proof fn sha_case_does_not_matter(a: Seq<char>, b: Seq<char>)
    requires
        lowered(a) == lowered(b),
    ensures
        is_sha(a) <==> is_sha(b),
{
    assert(a.len() == lowered(a).len());
    assert(b.len() == lowered(b).len());
    assert forall|i: int| 0 <= i < a.len() implies is_hex_digit(a[i]) == is_hex_digit(b[i]) by {
        assert(lowered(a)[i] == crate::text::lower_char(a[i]));
        assert(lowered(b)[i] == crate::text::lower_char(b[i]));
    }
    if is_sha(a) {
        assert forall|i: int| 0 <= i < b.len() implies is_hex_digit(#[trigger] b[i]) by {
            assert(is_hex_digit(a[i]));
        }
    }
    if is_sha(b) {
        assert forall|i: int| 0 <= i < a.len() implies is_hex_digit(#[trigger] a[i]) by {
            assert(is_hex_digit(b[i]));
        }
    }
}

// --- Repositories ---

/// A registered repository with its metadata.
#[derive(Debug)]
pub struct Repo {
    /// The repository's id.
    pub id: RepoId,
    /// Its URL.
    pub url: GitHubRepoUrl,
    /// The commit that was reviewed last.
    pub last_commit_sha: Option<CommitSha>,
    /// When the repository was last checked for changes. This keeps a repository without changes
    /// from being scheduled at every poll.
    pub last_checked_at: Option<Timestamp>,
    /// When the repository was registered.
    pub created_at: Timestamp,
}

/// A copy of an optional SHA.
pub fn clone_sha(sha: &Option<CommitSha>) -> (r: Option<CommitSha>)
    ensures
        r == *sha,
{
    match sha {
        Some(s) => Some(s.clone()),
        None => None,
    }
}

impl Clone for Repo {
    fn clone(&self) -> (r: Repo)
        ensures
            r == *self,
    {
        Repo {
            id: self.id,
            url: self.url.clone(),
            last_commit_sha: clone_sha(&self.last_commit_sha),
            last_checked_at: self.last_checked_at,
            created_at: self.created_at,
        }
    }
}

/// Input for creating a new repository.
#[derive(Debug)]
pub struct NewRepo {
    /// The repository's URL.
    pub url: GitHubRepoUrl,
}

// --- Which URLs name a repository ---

/// A name is safe exactly if it has a character, is no dot segment, and no character of it
/// separates paths.
pub proof fn safe_names_hold_no_separator(s: Seq<char>)
    ensures
        is_safe_component(s) <==> {
            &&& s.len() > 0
            &&& !(s.len() == 1 && s[0] == '.')
            &&& !(s.len() == 2 && s[0] == '.' && s[1] == '.')
            &&& forall|i: int| 0 <= i < s.len() ==> #[trigger] s[i] != '/' && s[i] != '\\'
        },
{
    reveal_strlit(".");
    reveal_strlit("..");
    if s.len() == 1 && s[0] == '.' {
        assert(s =~= "."@);
    }
    if s.len() == 2 && s[0] == '.' && s[1] == '.' {
        assert(s =~= ".."@);
    }
    if s.contains('/') {
        let i = choose|i: int| 0 <= i < s.len() && s[i] == '/';
        assert(s[i] == '/');
    }
    if s.contains('\\') {
        let i = choose|i: int| 0 <= i < s.len() && s[i] == '\\';
        assert(s[i] == '\\');
    }
}

proof fn separator_splits_off(a: Seq<char>, rest: Seq<char>, sep: char)
    requires
        !a.contains(sep),
    ensures
        split_parts(a, sep) == seq![a],
        split_parts(a + seq![sep] + rest, sep) == seq![a] + split_parts(rest, sep),
{
    crate::text::index_or_len_is_first(a, sep);
    let n = crate::text::index_or_len(a, sep);
    if n < a.len() {
        assert(a.contains(a[n]));
    }
    let s = a + seq![sep] + rest;
    crate::text::index_or_len_is_first(s, sep);
    let i = crate::text::index_or_len(s, sep);
    assert(s[a.len() as int] == sep);
    if i < a.len() {
        assert(s[i] == a[i]);
        assert(a.contains(a[i]));
    }
    assert(s.take(i) =~= a);
    assert(s.skip(i + 1) =~= rest);
}

/// The path of a repository is its owner and its name, with a slash before each and perhaps one
/// behind. Both are taken in lowercase, the name without `.git`, and both have to be safe. A path
/// with an owner alone, or with something behind the name, is that of no repository.
pub proof fn repository_path_is_owner_and_name(
    owner: Seq<char>,
    name: Seq<char>,
    more: Seq<char>,
)
    requires
        owner.len() > 0,
        !owner.contains('/'),
        !name.contains('/'),
        more.len() > 0,
        more[0] != '/',
    ensures
        ({
            let path = seq!['/'] + owner + seq!['/'] + name;
            let wanted = (lowered(owner), lowered(without_trailing(name, ".git"@)));
            &&& is_safe_component(wanted.0) && is_safe_component(wanted.1) ==> repo_of_path(path)
                == Some(wanted)
            &&& !is_safe_component(wanted.0) || !is_safe_component(wanted.1) ==> repo_of_path(path)
                is None
            &&& repo_of_path(path + seq!['/']) == repo_of_path(path)
            &&& repo_of_path(path + seq!['/', '/'] + more) == repo_of_path(path)
            &&& repo_of_path(path + seq!['/'] + more) is None
            &&& repo_of_path(seq!['/'] + owner) is None
        }),
{
    let none = Seq::<char>::empty();
    let path = seq!['/'] + owner + seq!['/'] + name;
    let rest = owner + seq!['/'] + name;
    let ended = owner + seq!['/'] + (name + seq!['/'] + none);
    let longer = owner + seq!['/'] + (name + seq!['/'] + more);
    assert(owner.contains(owner[0]));
    assert(!none.contains('/'));
    leading_slash_is_dropped(rest);
    leading_slash_is_dropped(ended);
    leading_slash_is_dropped(longer);
    leading_slash_is_dropped(owner);
    assert(path =~= seq!['/'] + rest);
    assert(path + seq!['/'] =~= seq!['/'] + ended);
    assert(path + seq!['/'] + more =~= seq!['/'] + longer);
    separator_splits_off(owner, name, '/');
    separator_splits_off(name, none, '/');
    separator_splits_off(name, more, '/');
    separator_splits_off(none, none, '/');
    index_or_len_is_first(more, '/');
    let apart = owner + seq!['/'] + (name + seq!['/'] + (none + seq!['/'] + more));
    leading_slash_is_dropped(apart);
    assert(path + seq!['/', '/'] + more =~= seq!['/'] + apart);
    separator_splits_off(none, more, '/');
    separator_splits_off(name, none + seq!['/'] + more, '/');
    separator_splits_off(owner, name + seq!['/'] + (none + seq!['/'] + more), '/');
    assert(split_parts(apart, '/') =~= seq![owner, name, none] + split_parts(more, '/'));
    separator_splits_off(owner, name + seq!['/'] + none, '/');
    separator_splits_off(owner, name + seq!['/'] + more, '/');
    assert(split_parts(rest, '/') =~= seq![owner, name]);
    assert(split_parts(ended, '/') =~= seq![owner, name, none]);
    assert(split_parts(longer, '/') =~= seq![owner, name] + split_parts(more, '/'));
    assert(split_parts(more, '/').len() > 0 && split_parts(more, '/')[0].len() > 0);
    assert(split_parts(longer, '/')[2] == split_parts(more, '/')[0]);
}

proof fn leading_slash_is_dropped(rest: Seq<char>)
    requires
        rest.len() > 0,
        rest[0] != '/',
    ensures
        without_leading(seq!['/'] + rest, '/') == rest,
{
    assert((seq!['/'] + rest).drop_first() =~= rest);
    assert(without_leading(rest, '/') == rest);
}

/// Only a secure URL of GitHub, without a query or a fragment, names a repository.
pub proof fn only_plain_github_urls_count(
    scheme: Seq<char>,
    host: Option<Seq<char>>,
    path: Seq<char>,
    query: Option<Seq<char>>,
    fragment: Option<Seq<char>>,
    whole: Seq<char>,
)
    ensures
        repo_of_url((scheme, host, path, query, fragment, whole)) is Some ==> scheme == "https"@
            && host == Some("github.com"@) && query is None && fragment is None,
        repo_of_url(("https"@, Some("github.com"@), path, None, None, whole)) == repo_of_path(path),
{
}

/// Two slashes in a row are turned down where they stand behind the host, and only there.
pub proof fn empty_segments_are_turned_down(before: Seq<char>, after: Seq<char>)
    requires
        forall|i: int|
            0 <= i < before.len() ==> !occurs_at(before + "github.com"@ + after, "github.com"@, i),
    ensures
        has_empty_segment(before + "github.com"@ + after) <==> has_text(after, "//"@),
{
    reveal_strlit("github.com");
    let s = before + "github.com"@ + after;
    let n = before.len() as int;
    assert(s.subrange(n, n + 10) =~= "github.com"@);
    assert(occurs_at(s, "github.com"@, n));
    find_from_is_least(s, "github.com"@, 0);
    assert(s.skip(n + 10) =~= after);
}

/// A text is the URL of a repository exactly if it has no empty segment and its parts name one.
pub proof fn repository_urls(s: Seq<char>)
    ensures
        is_repo_url(s) <==> !has_empty_segment(s) && url_parts(s) is Some && repo_of_url(
            url_parts(s)->Some_0,
        ) is Some,
        !has_text(s, "github.com"@) ==> !has_empty_segment(s),
{
    find_from_is_least(s, "github.com"@, 0);
}

/// A SHA has forty characters, each a hexadecimal digit in either case.
pub proof fn sha_is_forty_hex_digits(s: Seq<char>)
    ensures
        is_sha(s) <==> s.len() == 40 && forall|i: int|
            #![trigger s[i]]
            0 <= i < s.len() ==> 48 <= s[i] as u32 <= 57 || 65 <= s[i] as u32 <= 70 || 97
                <= s[i] as u32 <= 102,
{
    assert forall|i: int|
        #![trigger s[i]]
        0 <= i < s.len() implies (is_hex_digit(s[i]) <==> 48 <= s[i] as u32 <= 57 || 65 <= s[i] as u32
        <= 70 || 97 <= s[i] as u32 <= 102) by {
        vstd::utf8::char_is_scalar(s[i]);
        vstd::utf8::char_u32_cast(s[i], s[i] as u32);
    }
}

/// A repository that is named by a text has the owner and the name that its parts give, and is
/// known under its normal form.
pub proof fn named_repository_is_that_of_the_url(repo: GitHubRepoUrl, s: Seq<char>)
    requires
        repo.is_named_by(s),
    ensures
        url_parts(s) is Some,
        repo_of_path((url_parts(s)->Some_0).2) == Some((repo.owner_text(), repo.name_text())),
        repo.url_text() == (url_parts(s)->Some_0).5,
        (url_parts(s)->Some_0).0 == "https"@,
        (url_parts(s)->Some_0).1 == Some("github.com"@),
{
}

/// An optional text is told by its characters.
pub proof fn optional_text_is_told(text: String)
    ensures
        option_text(Some(text)) == Some(text@),
        option_text(None) is None,
{
}

} // verus!
