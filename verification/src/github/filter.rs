//! Which files of a repository are worth showing to the LLM.

use vstd::prelude::*;

use crate::text::{
    is_part_at, same_text, split, split_gives_the_parts, split_parts, text_of, to_chars,
};

verus! {

/// What is left out unless a caller says otherwise.
pub const DEFAULT_EXCLUDES: [&'static str; 83] = [
    // Lock files
    "**/package-lock.json",
    "**/yarn.lock",
    "**/Cargo.lock",
    "**/Gemfile.lock",
    "**/poetry.lock",
    "**/pnpm-lock.yaml",
    "**/flake.lock",
    "**/composer.lock",
    "**/Pipfile.lock",
    // Generated directories
    "**/node_modules/**",
    "**/target/**",
    "**/dist/**",
    "**/build/**",
    "**/.git/**",
    "**/__pycache__/**",
    "**/.venv/**",
    "**/venv/**",
    "**/.tox/**",
    "**/.mypy_cache/**",
    "**/.pytest_cache/**",
    "**/coverage/**",
    "**/.next/**",
    "**/.nuxt/**",
    "**/vendor/**",
    "**/deps/**",
    "**/_build/**",
    // Binary and media files
    "**/*.png",
    "**/*.jpg",
    "**/*.jpeg",
    "**/*.gif",
    "**/*.ico",
    "**/*.webp",
    "**/*.svg",
    "**/*.bmp",
    "**/*.woff",
    "**/*.woff2",
    "**/*.ttf",
    "**/*.eot",
    "**/*.otf",
    "**/*.pdf",
    "**/*.zip",
    "**/*.tar",
    "**/*.tar.gz",
    "**/*.tgz",
    "**/*.rar",
    "**/*.7z",
    "**/*.exe",
    "**/*.dll",
    "**/*.so",
    "**/*.dylib",
    "**/*.a",
    "**/*.o",
    "**/*.obj",
    "**/*.pyc",
    "**/*.pyo",
    "**/*.class",
    "**/*.jar",
    "**/*.war",
    "**/*.ear",
    "**/*.wasm",
    "**/*.mp3",
    "**/*.mp4",
    "**/*.avi",
    "**/*.mov",
    "**/*.wav",
    "**/*.ogg",
    "**/*.webm",
    // Minified files
    "**/*.min.js",
    "**/*.min.css",
    "**/*.bundle.js",
    "**/*.bundle.css",
    // Source maps
    "**/*.map",
    // Database files
    "**/*.db",
    "**/*.sqlite",
    "**/*.sqlite3",
    // IDE and editor files
    "**/.idea/**",
    "**/.vscode/**",
    "**/.vs/**",
    "**/*.swp",
    "**/*.swo",
    "**/*~",
    // OS files
    "**/.DS_Store",
    "**/Thumbs.db",
];

/// The largest file, in bytes, that is shown unless a caller says otherwise.
pub const DEFAULT_MAX_FILE_SIZE: u64 = 100_000;

// --- Glob patterns ---

/// Whether `glob::Pattern::new` compiles the text.
pub uninterp spec fn glob_compiles(pattern: Seq<char>) -> bool;

/// Whether `glob::Pattern::matches`, of the pattern that the first text compiles to, matches the
/// second text.
pub uninterp spec fn glob_matches(pattern: Seq<char>, path: Seq<char>) -> bool;

/// Calls `glob::Pattern::new` and tells whether it succeeded, which the text alone decides.
#[verifier::external_body]
fn compiles(pattern: &str) -> (r: bool)
    ensures
        r == glob_compiles(pattern@),
{
    glob::Pattern::new(pattern).is_ok()
}

/// Calls `glob::Pattern::matches` on a pattern that compiles. The answer depends on the two texts
/// alone, on every system whose only path separator is the slash.
#[verifier::external_body]
fn matches(pattern: &str, path: &str) -> (r: bool)
    requires
        glob_compiles(pattern@),
    ensures
        r == glob_matches(pattern@, path@),
{
    match glob::Pattern::new(pattern) {
        Ok(compiled) => compiled.matches(path),
        Err(_) => false,
    }
}

/// Those of the patterns that compile, in their order.
pub open spec fn compiling(patterns: Seq<Seq<char>>) -> Seq<Seq<char>>
    decreases patterns.len(),
{
    if patterns.len() == 0 {
        Seq::empty()
    } else if glob_compiles(patterns.last()) {
        compiling(patterns.drop_last()).push(patterns.last())
    } else {
        compiling(patterns.drop_last())
    }
}

/// The texts of a list of string slices.
pub open spec fn slice_texts(list: Seq<&str>) -> Seq<Seq<char>> {
    list.map_values(|s: &str| s@)
}

/// The texts of a list of strings.
pub open spec fn string_texts(list: Seq<String>) -> Seq<Seq<char>> {
    list.map_values(|s: String| s@)
}

// --- Hidden files ---

/// A hidden name that is shown all the same.
pub open spec fn is_shown_dotfile(name: Seq<char>) -> bool {
    ||| name == ".github"@
    ||| name == ".gitignore"@
    ||| name == ".gitattributes"@
    ||| name == ".editorconfig"@
    ||| name == ".env.example"@
    ||| name == ".dockerignore"@
}

/// A path component that hides what lies under it. The components `.` and `..` name no file.
pub open spec fn is_hidden(name: Seq<char>) -> bool {
    &&& name.len() > 0
    &&& name[0] == '.'
    &&& name != "."@
    &&& name != ".."@
    &&& !is_shown_dotfile(name)
}

/// A path with a hidden component.
pub open spec fn has_hidden_component(path: Seq<char>) -> bool {
    exists|i: int|
        0 <= i < split_parts(path, '/').len() && is_hidden(#[trigger] split_parts(path, '/')[i])
}

fn hidden(name: &str) -> (r: bool)
    ensures
        r == is_hidden(name@),
{
    if name.unicode_len() == 0 || name.get_char(0) != '.' {
        return false;
    }
    !same_text(name, ".") && !same_text(name, "..") && !same_text(name, ".github") && !same_text(
        name,
        ".gitignore",
    ) && !same_text(name, ".gitattributes") && !same_text(name, ".editorconfig") && !same_text(
        name,
        ".env.example",
    ) && !same_text(name, ".dockerignore")
}

/// Whether some component of the path hides it.
pub fn has_hidden(path: &str) -> (r: bool)
    ensures
        r == has_hidden_component(path@),
{
    let chars = to_chars(path);
    let parts = split(chars.as_slice(), '/');
    let ghost texts = split_parts(path@, '/');
    let mut i: usize = 0;
    while i < parts.len()
        invariant
            i <= parts@.len(),
            parts@.map_values(|v: Vec<char>| v@) == texts,
            texts == split_parts(path@, '/'),
            forall|j: int| 0 <= j < i ==> !is_hidden(#[trigger] texts[j]),
        decreases parts.len() - i,
    {
        let name = text_of(parts[i].as_slice(), 0, parts[i].len());
        assert(parts@.map_values(|v: Vec<char>| v@)[i as int] == parts@[i as int]@);
        assert(name@ =~= texts[i as int]);
        if hidden(name.as_str()) {
            assert(is_hidden(split_parts(path@, '/')[i as int]));
            return true;
        }
        i += 1;
    }
    assert(parts@.map_values(|v: Vec<char>| v@).len() == parts@.len());
    false
}

// --- The filter ---

/// File filter configuration for excluding files from repo content.
#[derive(Debug)]
pub struct FileFilter {
    exclude_patterns: Vec<String>,
    max_file_size: u64,
}

impl FileFilter {
    /// The glob patterns of what is left out.
    pub closed spec fn excludes(self) -> Seq<Seq<char>> {
        string_texts(self.exclude_patterns@)
    }

    /// The largest file, in bytes, that is shown.
    pub closed spec fn max_size(self) -> u64 {
        self.max_file_size
    }

    #[verifier::type_invariant]
    spec fn patterns_compile(self) -> bool {
        forall|i: int|
            0 <= i < self.exclude_patterns@.len() ==> glob_compiles(
                #[trigger] self.exclude_patterns@[i]@,
            )
    }

    /// Some pattern of the filter matches the path.
    pub open spec fn is_excluded(self, path: Seq<char>) -> bool {
        exists|i: int|
            0 <= i < self.excludes().len() && glob_matches(#[trigger] self.excludes()[i], path)
    }

    /// What the filter lets through: files that are not too large, that no pattern excludes and
    /// that are not hidden.
    pub open spec fn admits(self, path: Seq<char>, size: u64) -> bool {
        &&& size <= self.max_size()
        &&& !self.is_excluded(path)
        &&& !has_hidden_component(path)
    }

    /// Whether a file should be shown as part of the repo content. The path is relative to the
    /// repository, with slashes between its components.
    pub fn should_include(&self, path: &str, size: u64) -> (r: bool)
        ensures
            r == self.admits(path@, size),
    {
        proof {
            use_type_invariant(self);
        }
        // Check size first (cheap)
        if size > self.max_file_size {
            return false;
        }
        let mut i: usize = 0;
        while i < self.exclude_patterns.len()
            invariant
                i <= self.exclude_patterns@.len(),
                self.patterns_compile(),
                forall|j: int| 0 <= j < i ==> !glob_matches(#[trigger] self.excludes()[j], path@),
            decreases self.exclude_patterns.len() - i,
        {
            let pattern = &self.exclude_patterns[i];
            assert(self.excludes()[i as int] == pattern@);
            if matches(pattern.as_str(), path) {
                return false;
            }
            i += 1;
        }
        // Exclude hidden files and directories (except .github, .gitignore, etc.)
        !has_hidden(path)
    }

    /// The same filter with a custom max file size.
    pub fn with_max_file_size(self, size: u64) -> (r: FileFilter)
        ensures
            r.excludes() == self.excludes(),
            r.max_size() == size,
    {
        proof {
            use_type_invariant(&self);
        }
        FileFilter { exclude_patterns: self.exclude_patterns, max_file_size: size }
    }

    /// The same filter with additional exclude patterns. A text that is no glob pattern adds
    /// nothing.
    pub fn with_exclude_patterns(self, patterns: &[&str]) -> (r: FileFilter)
        ensures
            r.excludes() == self.excludes() + compiling(slice_texts(patterns@)),
            r.max_size() == self.max_size(),
    {
        proof {
            use_type_invariant(&self);
        }
        let ghost before = self.excludes();
        let max_file_size = self.max_file_size;
        let mut list = self.exclude_patterns;
        let mut i: usize = 0;
        assert(slice_texts(patterns@).take(0) =~= Seq::<Seq<char>>::empty());
        assert(before + Seq::<Seq<char>>::empty() =~= before);
        while i < patterns.len()
            invariant
                i <= patterns@.len(),
                string_texts(list@) == before + compiling(slice_texts(patterns@).take(i as int)),
                forall|k: int| 0 <= k < list@.len() ==> glob_compiles(#[trigger] list@[k]@),
            decreases patterns.len() - i,
        {
            let ghost texts = slice_texts(patterns@);
            assert(texts.take(i + 1).drop_last() =~= texts.take(i as int));
            assert(texts[i as int] == patterns@[i as int]@);
            if compiles(patterns[i]) {
                let ghost listed = list@;
                list.push(patterns[i].to_owned());
                assert(string_texts(list@) =~= string_texts(listed).push(texts[i as int]));
                assert(before + compiling(texts.take(i as int)).push(texts[i as int]) =~= (before
                    + compiling(texts.take(i as int))).push(texts[i as int]));
            }
            i += 1;
        }
        assert(slice_texts(patterns@).take(i as int) =~= slice_texts(patterns@));
        FileFilter { exclude_patterns: list, max_file_size }
    }
}

impl Default for FileFilter {
    fn default() -> (r: FileFilter)
        ensures
            r.excludes() == compiling(slice_texts(DEFAULT_EXCLUDES@)),
            r.max_size() == DEFAULT_MAX_FILE_SIZE,
    {
        let none = FileFilter {
            exclude_patterns: Vec::new(),
            max_file_size: DEFAULT_MAX_FILE_SIZE,
        };
        assert(none.excludes() =~= Seq::<Seq<char>>::empty());
        let all = DEFAULT_EXCLUDES;
        let filter = none.with_exclude_patterns(all.as_slice());
        assert(filter.excludes() =~= compiling(slice_texts(DEFAULT_EXCLUDES@)));
        filter
    }
}

// --- What filters keep ---

/// A further pattern only ever leaves out more: what the larger list admits, the smaller one
/// does.
pub proof fn more_patterns_admit_less(
    filter: FileFilter,
    stricter: FileFilter,
    more: Seq<Seq<char>>,
    path: Seq<char>,
    size: u64,
)
    requires
        stricter.excludes() == filter.excludes() + more,
        stricter.max_size() == filter.max_size(),
        stricter.admits(path, size),
    ensures
        filter.admits(path, size),
{
    assert forall|i: int| 0 <= i < filter.excludes().len() implies !glob_matches(
        #[trigger] filter.excludes()[i],
        path,
    ) by {
        assert(stricter.excludes()[i] == filter.excludes()[i]);
    }
}

/// A file that is admitted at some size is admitted at every smaller size.
pub proof fn smaller_files_are_admitted(
    filter: FileFilter,
    path: Seq<char>,
    size: u64,
    smaller: u64,
)
    requires
        smaller <= size,
        filter.admits(path, size),
    ensures
        filter.admits(path, smaller),
{
}

// --- What is shown ---

/// A name that begins with a dot and is shown all the same, or names no file.
pub open spec fn is_allowed_dot_name(name: Seq<char>) -> bool {
    seq![
        "."@,
        ".."@,
        ".github"@,
        ".gitignore"@,
        ".gitattributes"@,
        ".editorconfig"@,
        ".env.example"@,
        ".dockerignore"@,
    ].contains(name)
}

/// The component of the path from `i` to `j` begins with a dot and is none of the allowed names.
pub open spec fn is_dot_component_at(path: Seq<char>, i: int, j: int) -> bool {
    &&& is_part_at(path, '/', i, j)
    &&& i < j
    &&& path[i] == '.'
    &&& !is_allowed_dot_name(path.subrange(i, j))
}

/// A path is hidden exactly by a component that begins with a dot and is none of the few names
/// that are shown all the same. No other name hides a path.
pub proof fn only_dot_names_hide(path: Seq<char>)
    ensures
        has_hidden_component(path) <==> exists|i: int, j: int| is_dot_component_at(path, i, j),
{
    let parts = split_parts(path, '/');
    if has_hidden_component(path) {
        let k = choose|k: int| 0 <= k < parts.len() && is_hidden(#[trigger] parts[k]);
        let name = parts[k];
        assert(parts.contains(name));
        split_gives_the_parts(path, '/', name);
        let (i, j) = choose|i: int, j: int| #[trigger]
            is_part_at(path, '/', i, j) && path.subrange(i, j) == name;
        dot_names_are_listed(name);
        assert(path[i] == name[0]);
        assert(is_dot_component_at(path, i, j));
    }
    if exists|i: int, j: int| is_dot_component_at(path, i, j) {
        let (i, j) = choose|i: int, j: int| is_dot_component_at(path, i, j);
        let name = path.subrange(i, j);
        split_gives_the_parts(path, '/', name);
        assert(parts.contains(name));
        let k = choose|k: int| 0 <= k < parts.len() && parts[k] == name;
        dot_names_are_listed(name);
        assert(name[0] == path[i]);
        assert(is_hidden(parts[k]));
    }
}

proof fn dot_names_are_listed(name: Seq<char>)
    ensures
        is_hidden(name) <==> name.len() > 0 && name[0] == '.' && !is_allowed_dot_name(name),
{
    let allowed = seq![
        "."@,
        ".."@,
        ".github"@,
        ".gitignore"@,
        ".gitattributes"@,
        ".editorconfig"@,
        ".env.example"@,
        ".dockerignore"@,
    ];
    assert(allowed[0] == "."@ && allowed[1] == ".."@ && allowed[2] == ".github"@ && allowed[3]
        == ".gitignore"@ && allowed[4] == ".gitattributes"@ && allowed[5] == ".editorconfig"@
        && allowed[6] == ".env.example"@ && allowed[7] == ".dockerignore"@);
}

/// A path none of whose components begins with a dot is not hidden, whatever else its names hold.
pub proof fn names_without_leading_dot_are_shown(path: Seq<char>)
    requires
        forall|i: int|
            0 <= i < path.len() && (i == 0 || path[i - 1] == '/') ==> #[trigger] path[i] != '.',
    ensures
        !has_hidden_component(path),
{
    only_dot_names_hide(path);
}

/// A file is included exactly where its size is within the limit, no pattern of the filter matches
/// its path, and no component of the path begins with a dot, but for the names that are shown all
/// the same.
pub proof fn filter_admits_exactly(filter: FileFilter, path: Seq<char>, size: u64)
    ensures
        filter.admits(path, size) <==> {
            &&& size <= filter.max_size()
            &&& forall|k: int|
                0 <= k < filter.excludes().len() ==> !glob_matches(
                    #[trigger] filter.excludes()[k],
                    path,
                )
            &&& forall|i: int, j: int| !is_dot_component_at(path, i, j)
        },
{
    only_dot_names_hide(path);
}

/// A pattern is in the list of a filter exactly if it was there before or is among those added and
/// compiles.
pub proof fn compiling_patterns_are_kept(patterns: Seq<Seq<char>>, pattern: Seq<char>)
    ensures
        compiling(patterns).contains(pattern) <==> patterns.contains(pattern) && glob_compiles(
            pattern,
        ),
    decreases patterns.len(),
{
    if patterns.len() > 0 {
        let fewer = patterns.drop_last();
        let last = patterns.last();
        compiling_patterns_are_kept(fewer, pattern);
        assert(patterns =~= fewer.push(last));
        let kept = compiling(fewer);
        if fewer.contains(pattern) {
            let k = choose|k: int| 0 <= k < fewer.len() && fewer[k] == pattern;
            assert(patterns[k] == pattern);
        }
        assert(patterns[patterns.len() - 1] == last);
        if kept.contains(pattern) {
            let k = choose|k: int| 0 <= k < kept.len() && kept[k] == pattern;
            assert(kept.push(last)[k] == pattern);
        }
        assert(kept.push(last)[kept.len() as int] == last);
        if patterns.contains(pattern) && pattern != last {
            let k = choose|k: int| 0 <= k < patterns.len() && patterns[k] == pattern;
            assert(fewer[k] == pattern);
        }
        if compiling(patterns).contains(pattern) && pattern != last {
            let k = choose|k: int|
                0 <= k < compiling(patterns).len() && compiling(patterns)[k] == pattern;
            assert(kept[k] == pattern);
        }
    } else {
        assert(compiling(patterns) =~= Seq::<Seq<char>>::empty());
    }
}

/// A list of texts is told by the characters of each.
pub proof fn texts_are_told_one_by_one(slices: Seq<&str>, strings: Seq<String>, i: int)
    ensures
        slice_texts(slices).len() == slices.len(),
        string_texts(strings).len() == strings.len(),
        0 <= i < slices.len() ==> slice_texts(slices)[i] == slices[i]@,
        0 <= i < strings.len() ==> string_texts(strings)[i] == strings[i]@,
{
}

// --- What is left out by default ---

/// The pattern of the files with the given name, wherever they lie.
pub open spec fn named(name: Seq<char>) -> Seq<char> {
    "**/"@ + name
}

/// The pattern of all that lies below a directory with the given name.
pub open spec fn below(name: Seq<char>) -> Seq<char> {
    "**/"@ + name + "/**"@
}

/// The pattern of the files with the given extension.
pub open spec fn with_extension(extension: Seq<char>) -> Seq<char> {
    "**/*."@ + extension
}

/// The names of lock files.
pub open spec fn lock_files() -> Seq<Seq<char>> {
    seq![
        "package-lock.json"@,
        "yarn.lock"@,
        "Cargo.lock"@,
        "Gemfile.lock"@,
        "poetry.lock"@,
        "pnpm-lock.yaml"@,
        "flake.lock"@,
        "composer.lock"@,
        "Pipfile.lock"@,
    ]
}

/// The names of directories whose content is generated.
pub open spec fn generated_dirs() -> Seq<Seq<char>> {
    seq![
        "node_modules"@,
        "target"@,
        "dist"@,
        "build"@,
        ".git"@,
        "__pycache__"@,
        ".venv"@,
        "venv"@,
        ".tox"@,
        ".mypy_cache"@,
        ".pytest_cache"@,
        "coverage"@,
        ".next"@,
        ".nuxt"@,
        "vendor"@,
        "deps"@,
        "_build"@,
    ]
}

/// The extensions of files that are no text, or not written by hand.
pub open spec fn binary_extensions() -> Seq<Seq<char>> {
    seq![
        "png"@,
        "jpg"@,
        "jpeg"@,
        "gif"@,
        "ico"@,
        "webp"@,
        "svg"@,
        "bmp"@,
        "woff"@,
        "woff2"@,
        "ttf"@,
        "eot"@,
        "otf"@,
        "pdf"@,
        "zip"@,
        "tar"@,
        "tar.gz"@,
        "tgz"@,
        "rar"@,
        "7z"@,
        "exe"@,
        "dll"@,
        "so"@,
        "dylib"@,
        "a"@,
        "o"@,
        "obj"@,
        "pyc"@,
        "pyo"@,
        "class"@,
        "jar"@,
        "war"@,
        "ear"@,
        "wasm"@,
        "mp3"@,
        "mp4"@,
        "avi"@,
        "mov"@,
        "wav"@,
        "ogg"@,
        "webm"@,
        "min.js"@,
        "min.css"@,
        "bundle.js"@,
        "bundle.css"@,
        "map"@,
        "db"@,
        "sqlite"@,
        "sqlite3"@,
    ]
}

/// The names of directories that editors keep.
pub open spec fn editor_dirs() -> Seq<Seq<char>> {
    seq![
        ".idea"@,
        ".vscode"@,
        ".vs"@,
    ]
}

/// The extensions of files that editors leave behind.
pub open spec fn editor_extensions() -> Seq<Seq<char>> {
    seq![
        "swp"@,
        "swo"@,
    ]
}

/// The names of files that editors and systems leave behind.
pub open spec fn system_files() -> Seq<Seq<char>> {
    seq![
        "*~"@,
        ".DS_Store"@,
        "Thumbs.db"@,
    ]
}

/// By default are left out: lock files by their names, what lies in generated directories and in
/// those of editors, and files that are no text, or that no one wrote by hand, by their
/// extensions. Nothing else is.
pub proof fn default_patterns_are()
    ensures
        slice_texts(DEFAULT_EXCLUDES@) == lock_files().map_values(|n: Seq<char>| named(n))
            + generated_dirs().map_values(|n: Seq<char>| below(n)) + binary_extensions().map_values(
            |n: Seq<char>| with_extension(n),
        ) + editor_dirs().map_values(|n: Seq<char>| below(n)) + editor_extensions().map_values(
            |n: Seq<char>| with_extension(n),
        ) + system_files().map_values(|n: Seq<char>| named(n)),
        DEFAULT_MAX_FILE_SIZE == 100_000,
{
    lock_files_are_left_out();
    generated_dirs_from_0();
    generated_dirs_from_10();
    binary_extensions_from_0();
    binary_extensions_from_10();
    binary_extensions_from_20();
    binary_extensions_from_30();
    binary_extensions_from_40();
    editor_dirs_are_left_out();
    editor_extensions_are_left_out();
    system_files_are_left_out();
    let listed = slice_texts(DEFAULT_EXCLUDES@);
    let wanted = lock_files().map_values(|n: Seq<char>| named(n)) + generated_dirs().map_values(
        |n: Seq<char>| below(n),
    ) + binary_extensions().map_values(|n: Seq<char>| with_extension(n)) + editor_dirs().map_values(
        |n: Seq<char>| below(n),
    ) + editor_extensions().map_values(|n: Seq<char>| with_extension(n))
        + system_files().map_values(|n: Seq<char>| named(n));
    assert(listed =~= wanted);
}

proof fn lock_files_are_left_out()
    ensures
        DEFAULT_EXCLUDES@[0]@ == named(lock_files()[0]),
        DEFAULT_EXCLUDES@[1]@ == named(lock_files()[1]),
        DEFAULT_EXCLUDES@[2]@ == named(lock_files()[2]),
        DEFAULT_EXCLUDES@[3]@ == named(lock_files()[3]),
        DEFAULT_EXCLUDES@[4]@ == named(lock_files()[4]),
        DEFAULT_EXCLUDES@[5]@ == named(lock_files()[5]),
        DEFAULT_EXCLUDES@[6]@ == named(lock_files()[6]),
        DEFAULT_EXCLUDES@[7]@ == named(lock_files()[7]),
        DEFAULT_EXCLUDES@[8]@ == named(lock_files()[8]),
{
    reveal_strlit("**/");
    reveal_strlit("package-lock.json");
    reveal_strlit("**/package-lock.json");
    assert("**/package-lock.json"@ =~= named("package-lock.json"@));
    reveal_strlit("yarn.lock");
    reveal_strlit("**/yarn.lock");
    assert("**/yarn.lock"@ =~= named("yarn.lock"@));
    reveal_strlit("Cargo.lock");
    reveal_strlit("**/Cargo.lock");
    assert("**/Cargo.lock"@ =~= named("Cargo.lock"@));
    reveal_strlit("Gemfile.lock");
    reveal_strlit("**/Gemfile.lock");
    assert("**/Gemfile.lock"@ =~= named("Gemfile.lock"@));
    reveal_strlit("poetry.lock");
    reveal_strlit("**/poetry.lock");
    assert("**/poetry.lock"@ =~= named("poetry.lock"@));
    reveal_strlit("pnpm-lock.yaml");
    reveal_strlit("**/pnpm-lock.yaml");
    assert("**/pnpm-lock.yaml"@ =~= named("pnpm-lock.yaml"@));
    reveal_strlit("flake.lock");
    reveal_strlit("**/flake.lock");
    assert("**/flake.lock"@ =~= named("flake.lock"@));
    reveal_strlit("composer.lock");
    reveal_strlit("**/composer.lock");
    assert("**/composer.lock"@ =~= named("composer.lock"@));
    reveal_strlit("Pipfile.lock");
    reveal_strlit("**/Pipfile.lock");
    assert("**/Pipfile.lock"@ =~= named("Pipfile.lock"@));
}

proof fn generated_dirs_from_0()
    ensures
        DEFAULT_EXCLUDES@[9]@ == below(generated_dirs()[0]),
        DEFAULT_EXCLUDES@[10]@ == below(generated_dirs()[1]),
        DEFAULT_EXCLUDES@[11]@ == below(generated_dirs()[2]),
        DEFAULT_EXCLUDES@[12]@ == below(generated_dirs()[3]),
        DEFAULT_EXCLUDES@[13]@ == below(generated_dirs()[4]),
        DEFAULT_EXCLUDES@[14]@ == below(generated_dirs()[5]),
        DEFAULT_EXCLUDES@[15]@ == below(generated_dirs()[6]),
        DEFAULT_EXCLUDES@[16]@ == below(generated_dirs()[7]),
        DEFAULT_EXCLUDES@[17]@ == below(generated_dirs()[8]),
        DEFAULT_EXCLUDES@[18]@ == below(generated_dirs()[9]),
{
    reveal_strlit("**/");
    reveal_strlit("/**");
    reveal_strlit("node_modules");
    reveal_strlit("**/node_modules/**");
    assert("**/node_modules/**"@ =~= below("node_modules"@));
    reveal_strlit("target");
    reveal_strlit("**/target/**");
    assert("**/target/**"@ =~= below("target"@));
    reveal_strlit("dist");
    reveal_strlit("**/dist/**");
    assert("**/dist/**"@ =~= below("dist"@));
    reveal_strlit("build");
    reveal_strlit("**/build/**");
    assert("**/build/**"@ =~= below("build"@));
    reveal_strlit(".git");
    reveal_strlit("**/.git/**");
    assert("**/.git/**"@ =~= below(".git"@));
    reveal_strlit("__pycache__");
    reveal_strlit("**/__pycache__/**");
    assert("**/__pycache__/**"@ =~= below("__pycache__"@));
    reveal_strlit(".venv");
    reveal_strlit("**/.venv/**");
    assert("**/.venv/**"@ =~= below(".venv"@));
    reveal_strlit("venv");
    reveal_strlit("**/venv/**");
    assert("**/venv/**"@ =~= below("venv"@));
    reveal_strlit(".tox");
    reveal_strlit("**/.tox/**");
    assert("**/.tox/**"@ =~= below(".tox"@));
    reveal_strlit(".mypy_cache");
    reveal_strlit("**/.mypy_cache/**");
    assert("**/.mypy_cache/**"@ =~= below(".mypy_cache"@));
}

proof fn generated_dirs_from_10()
    ensures
        DEFAULT_EXCLUDES@[19]@ == below(generated_dirs()[10]),
        DEFAULT_EXCLUDES@[20]@ == below(generated_dirs()[11]),
        DEFAULT_EXCLUDES@[21]@ == below(generated_dirs()[12]),
        DEFAULT_EXCLUDES@[22]@ == below(generated_dirs()[13]),
        DEFAULT_EXCLUDES@[23]@ == below(generated_dirs()[14]),
        DEFAULT_EXCLUDES@[24]@ == below(generated_dirs()[15]),
        DEFAULT_EXCLUDES@[25]@ == below(generated_dirs()[16]),
{
    reveal_strlit("**/");
    reveal_strlit("/**");
    reveal_strlit(".pytest_cache");
    reveal_strlit("**/.pytest_cache/**");
    assert("**/.pytest_cache/**"@ =~= below(".pytest_cache"@));
    reveal_strlit("coverage");
    reveal_strlit("**/coverage/**");
    assert("**/coverage/**"@ =~= below("coverage"@));
    reveal_strlit(".next");
    reveal_strlit("**/.next/**");
    assert("**/.next/**"@ =~= below(".next"@));
    reveal_strlit(".nuxt");
    reveal_strlit("**/.nuxt/**");
    assert("**/.nuxt/**"@ =~= below(".nuxt"@));
    reveal_strlit("vendor");
    reveal_strlit("**/vendor/**");
    assert("**/vendor/**"@ =~= below("vendor"@));
    reveal_strlit("deps");
    reveal_strlit("**/deps/**");
    assert("**/deps/**"@ =~= below("deps"@));
    reveal_strlit("_build");
    reveal_strlit("**/_build/**");
    assert("**/_build/**"@ =~= below("_build"@));
}

proof fn binary_extensions_from_0()
    ensures
        DEFAULT_EXCLUDES@[26]@ == with_extension(binary_extensions()[0]),
        DEFAULT_EXCLUDES@[27]@ == with_extension(binary_extensions()[1]),
        DEFAULT_EXCLUDES@[28]@ == with_extension(binary_extensions()[2]),
        DEFAULT_EXCLUDES@[29]@ == with_extension(binary_extensions()[3]),
        DEFAULT_EXCLUDES@[30]@ == with_extension(binary_extensions()[4]),
        DEFAULT_EXCLUDES@[31]@ == with_extension(binary_extensions()[5]),
        DEFAULT_EXCLUDES@[32]@ == with_extension(binary_extensions()[6]),
        DEFAULT_EXCLUDES@[33]@ == with_extension(binary_extensions()[7]),
        DEFAULT_EXCLUDES@[34]@ == with_extension(binary_extensions()[8]),
        DEFAULT_EXCLUDES@[35]@ == with_extension(binary_extensions()[9]),
{
    reveal_strlit("**/*.");
    reveal_strlit("png");
    reveal_strlit("**/*.png");
    assert("**/*.png"@ =~= with_extension("png"@));
    reveal_strlit("jpg");
    reveal_strlit("**/*.jpg");
    assert("**/*.jpg"@ =~= with_extension("jpg"@));
    reveal_strlit("jpeg");
    reveal_strlit("**/*.jpeg");
    assert("**/*.jpeg"@ =~= with_extension("jpeg"@));
    reveal_strlit("gif");
    reveal_strlit("**/*.gif");
    assert("**/*.gif"@ =~= with_extension("gif"@));
    reveal_strlit("ico");
    reveal_strlit("**/*.ico");
    assert("**/*.ico"@ =~= with_extension("ico"@));
    reveal_strlit("webp");
    reveal_strlit("**/*.webp");
    assert("**/*.webp"@ =~= with_extension("webp"@));
    reveal_strlit("svg");
    reveal_strlit("**/*.svg");
    assert("**/*.svg"@ =~= with_extension("svg"@));
    reveal_strlit("bmp");
    reveal_strlit("**/*.bmp");
    assert("**/*.bmp"@ =~= with_extension("bmp"@));
    reveal_strlit("woff");
    reveal_strlit("**/*.woff");
    assert("**/*.woff"@ =~= with_extension("woff"@));
    reveal_strlit("woff2");
    reveal_strlit("**/*.woff2");
    assert("**/*.woff2"@ =~= with_extension("woff2"@));
}

proof fn binary_extensions_from_10()
    ensures
        DEFAULT_EXCLUDES@[36]@ == with_extension(binary_extensions()[10]),
        DEFAULT_EXCLUDES@[37]@ == with_extension(binary_extensions()[11]),
        DEFAULT_EXCLUDES@[38]@ == with_extension(binary_extensions()[12]),
        DEFAULT_EXCLUDES@[39]@ == with_extension(binary_extensions()[13]),
        DEFAULT_EXCLUDES@[40]@ == with_extension(binary_extensions()[14]),
        DEFAULT_EXCLUDES@[41]@ == with_extension(binary_extensions()[15]),
        DEFAULT_EXCLUDES@[42]@ == with_extension(binary_extensions()[16]),
        DEFAULT_EXCLUDES@[43]@ == with_extension(binary_extensions()[17]),
        DEFAULT_EXCLUDES@[44]@ == with_extension(binary_extensions()[18]),
        DEFAULT_EXCLUDES@[45]@ == with_extension(binary_extensions()[19]),
{
    reveal_strlit("**/*.");
    reveal_strlit("ttf");
    reveal_strlit("**/*.ttf");
    assert("**/*.ttf"@ =~= with_extension("ttf"@));
    reveal_strlit("eot");
    reveal_strlit("**/*.eot");
    assert("**/*.eot"@ =~= with_extension("eot"@));
    reveal_strlit("otf");
    reveal_strlit("**/*.otf");
    assert("**/*.otf"@ =~= with_extension("otf"@));
    reveal_strlit("pdf");
    reveal_strlit("**/*.pdf");
    assert("**/*.pdf"@ =~= with_extension("pdf"@));
    reveal_strlit("zip");
    reveal_strlit("**/*.zip");
    assert("**/*.zip"@ =~= with_extension("zip"@));
    reveal_strlit("tar");
    reveal_strlit("**/*.tar");
    assert("**/*.tar"@ =~= with_extension("tar"@));
    reveal_strlit("tar.gz");
    reveal_strlit("**/*.tar.gz");
    assert("**/*.tar.gz"@ =~= with_extension("tar.gz"@));
    reveal_strlit("tgz");
    reveal_strlit("**/*.tgz");
    assert("**/*.tgz"@ =~= with_extension("tgz"@));
    reveal_strlit("rar");
    reveal_strlit("**/*.rar");
    assert("**/*.rar"@ =~= with_extension("rar"@));
    reveal_strlit("7z");
    reveal_strlit("**/*.7z");
    assert("**/*.7z"@ =~= with_extension("7z"@));
}

proof fn binary_extensions_from_20()
    ensures
        DEFAULT_EXCLUDES@[46]@ == with_extension(binary_extensions()[20]),
        DEFAULT_EXCLUDES@[47]@ == with_extension(binary_extensions()[21]),
        DEFAULT_EXCLUDES@[48]@ == with_extension(binary_extensions()[22]),
        DEFAULT_EXCLUDES@[49]@ == with_extension(binary_extensions()[23]),
        DEFAULT_EXCLUDES@[50]@ == with_extension(binary_extensions()[24]),
        DEFAULT_EXCLUDES@[51]@ == with_extension(binary_extensions()[25]),
        DEFAULT_EXCLUDES@[52]@ == with_extension(binary_extensions()[26]),
        DEFAULT_EXCLUDES@[53]@ == with_extension(binary_extensions()[27]),
        DEFAULT_EXCLUDES@[54]@ == with_extension(binary_extensions()[28]),
        DEFAULT_EXCLUDES@[55]@ == with_extension(binary_extensions()[29]),
{
    reveal_strlit("**/*.");
    reveal_strlit("exe");
    reveal_strlit("**/*.exe");
    assert("**/*.exe"@ =~= with_extension("exe"@));
    reveal_strlit("dll");
    reveal_strlit("**/*.dll");
    assert("**/*.dll"@ =~= with_extension("dll"@));
    reveal_strlit("so");
    reveal_strlit("**/*.so");
    assert("**/*.so"@ =~= with_extension("so"@));
    reveal_strlit("dylib");
    reveal_strlit("**/*.dylib");
    assert("**/*.dylib"@ =~= with_extension("dylib"@));
    reveal_strlit("a");
    reveal_strlit("**/*.a");
    assert("**/*.a"@ =~= with_extension("a"@));
    reveal_strlit("o");
    reveal_strlit("**/*.o");
    assert("**/*.o"@ =~= with_extension("o"@));
    reveal_strlit("obj");
    reveal_strlit("**/*.obj");
    assert("**/*.obj"@ =~= with_extension("obj"@));
    reveal_strlit("pyc");
    reveal_strlit("**/*.pyc");
    assert("**/*.pyc"@ =~= with_extension("pyc"@));
    reveal_strlit("pyo");
    reveal_strlit("**/*.pyo");
    assert("**/*.pyo"@ =~= with_extension("pyo"@));
    reveal_strlit("class");
    reveal_strlit("**/*.class");
    assert("**/*.class"@ =~= with_extension("class"@));
}

proof fn binary_extensions_from_30()
    ensures
        DEFAULT_EXCLUDES@[56]@ == with_extension(binary_extensions()[30]),
        DEFAULT_EXCLUDES@[57]@ == with_extension(binary_extensions()[31]),
        DEFAULT_EXCLUDES@[58]@ == with_extension(binary_extensions()[32]),
        DEFAULT_EXCLUDES@[59]@ == with_extension(binary_extensions()[33]),
        DEFAULT_EXCLUDES@[60]@ == with_extension(binary_extensions()[34]),
        DEFAULT_EXCLUDES@[61]@ == with_extension(binary_extensions()[35]),
        DEFAULT_EXCLUDES@[62]@ == with_extension(binary_extensions()[36]),
        DEFAULT_EXCLUDES@[63]@ == with_extension(binary_extensions()[37]),
        DEFAULT_EXCLUDES@[64]@ == with_extension(binary_extensions()[38]),
        DEFAULT_EXCLUDES@[65]@ == with_extension(binary_extensions()[39]),
{
    reveal_strlit("**/*.");
    reveal_strlit("jar");
    reveal_strlit("**/*.jar");
    assert("**/*.jar"@ =~= with_extension("jar"@));
    reveal_strlit("war");
    reveal_strlit("**/*.war");
    assert("**/*.war"@ =~= with_extension("war"@));
    reveal_strlit("ear");
    reveal_strlit("**/*.ear");
    assert("**/*.ear"@ =~= with_extension("ear"@));
    reveal_strlit("wasm");
    reveal_strlit("**/*.wasm");
    assert("**/*.wasm"@ =~= with_extension("wasm"@));
    reveal_strlit("mp3");
    reveal_strlit("**/*.mp3");
    assert("**/*.mp3"@ =~= with_extension("mp3"@));
    reveal_strlit("mp4");
    reveal_strlit("**/*.mp4");
    assert("**/*.mp4"@ =~= with_extension("mp4"@));
    reveal_strlit("avi");
    reveal_strlit("**/*.avi");
    assert("**/*.avi"@ =~= with_extension("avi"@));
    reveal_strlit("mov");
    reveal_strlit("**/*.mov");
    assert("**/*.mov"@ =~= with_extension("mov"@));
    reveal_strlit("wav");
    reveal_strlit("**/*.wav");
    assert("**/*.wav"@ =~= with_extension("wav"@));
    reveal_strlit("ogg");
    reveal_strlit("**/*.ogg");
    assert("**/*.ogg"@ =~= with_extension("ogg"@));
}

proof fn binary_extensions_from_40()
    ensures
        DEFAULT_EXCLUDES@[66]@ == with_extension(binary_extensions()[40]),
        DEFAULT_EXCLUDES@[67]@ == with_extension(binary_extensions()[41]),
        DEFAULT_EXCLUDES@[68]@ == with_extension(binary_extensions()[42]),
        DEFAULT_EXCLUDES@[69]@ == with_extension(binary_extensions()[43]),
        DEFAULT_EXCLUDES@[70]@ == with_extension(binary_extensions()[44]),
        DEFAULT_EXCLUDES@[71]@ == with_extension(binary_extensions()[45]),
        DEFAULT_EXCLUDES@[72]@ == with_extension(binary_extensions()[46]),
        DEFAULT_EXCLUDES@[73]@ == with_extension(binary_extensions()[47]),
        DEFAULT_EXCLUDES@[74]@ == with_extension(binary_extensions()[48]),
{
    reveal_strlit("**/*.");
    reveal_strlit("webm");
    reveal_strlit("**/*.webm");
    assert("**/*.webm"@ =~= with_extension("webm"@));
    reveal_strlit("min.js");
    reveal_strlit("**/*.min.js");
    assert("**/*.min.js"@ =~= with_extension("min.js"@));
    reveal_strlit("min.css");
    reveal_strlit("**/*.min.css");
    assert("**/*.min.css"@ =~= with_extension("min.css"@));
    reveal_strlit("bundle.js");
    reveal_strlit("**/*.bundle.js");
    assert("**/*.bundle.js"@ =~= with_extension("bundle.js"@));
    reveal_strlit("bundle.css");
    reveal_strlit("**/*.bundle.css");
    assert("**/*.bundle.css"@ =~= with_extension("bundle.css"@));
    reveal_strlit("map");
    reveal_strlit("**/*.map");
    assert("**/*.map"@ =~= with_extension("map"@));
    reveal_strlit("db");
    reveal_strlit("**/*.db");
    assert("**/*.db"@ =~= with_extension("db"@));
    reveal_strlit("sqlite");
    reveal_strlit("**/*.sqlite");
    assert("**/*.sqlite"@ =~= with_extension("sqlite"@));
    reveal_strlit("sqlite3");
    reveal_strlit("**/*.sqlite3");
    assert("**/*.sqlite3"@ =~= with_extension("sqlite3"@));
}

proof fn editor_dirs_are_left_out()
    ensures
        DEFAULT_EXCLUDES@[75]@ == below(editor_dirs()[0]),
        DEFAULT_EXCLUDES@[76]@ == below(editor_dirs()[1]),
        DEFAULT_EXCLUDES@[77]@ == below(editor_dirs()[2]),
{
    reveal_strlit("**/");
    reveal_strlit("/**");
    reveal_strlit(".idea");
    reveal_strlit("**/.idea/**");
    assert("**/.idea/**"@ =~= below(".idea"@));
    reveal_strlit(".vscode");
    reveal_strlit("**/.vscode/**");
    assert("**/.vscode/**"@ =~= below(".vscode"@));
    reveal_strlit(".vs");
    reveal_strlit("**/.vs/**");
    assert("**/.vs/**"@ =~= below(".vs"@));
}

proof fn editor_extensions_are_left_out()
    ensures
        DEFAULT_EXCLUDES@[78]@ == with_extension(editor_extensions()[0]),
        DEFAULT_EXCLUDES@[79]@ == with_extension(editor_extensions()[1]),
{
    reveal_strlit("**/*.");
    reveal_strlit("swp");
    reveal_strlit("**/*.swp");
    assert("**/*.swp"@ =~= with_extension("swp"@));
    reveal_strlit("swo");
    reveal_strlit("**/*.swo");
    assert("**/*.swo"@ =~= with_extension("swo"@));
}

proof fn system_files_are_left_out()
    ensures
        DEFAULT_EXCLUDES@[80]@ == named(system_files()[0]),
        DEFAULT_EXCLUDES@[81]@ == named(system_files()[1]),
        DEFAULT_EXCLUDES@[82]@ == named(system_files()[2]),
{
    reveal_strlit("**/");
    reveal_strlit("*~");
    reveal_strlit("**/*~");
    assert("**/*~"@ =~= named("*~"@));
    reveal_strlit(".DS_Store");
    reveal_strlit("**/.DS_Store");
    assert("**/.DS_Store"@ =~= named(".DS_Store"@));
    reveal_strlit("Thumbs.db");
    reveal_strlit("**/Thumbs.db");
    assert("**/Thumbs.db"@ =~= named("Thumbs.db"@));
}

} // verus!
