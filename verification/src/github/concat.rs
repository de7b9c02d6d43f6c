//! Repository contents as text for the LLM, in pieces that fit a token limit.

use vstd::prelude::*;

use crate::github::fetch::FileContent;

verus! {

/// How one file is shown: a header line with its path, its content with a line feed at the end,
/// and an empty line.
pub open spec fn file_text(file: FileContent) -> Seq<char> {
    "=== "@ + file.path@ + " ===\n"@ + file.content@ + (if file.content@.len() > 0
        && file.content@.last() == '\n' {
        Seq::<char>::empty()
    } else {
        seq!['\n']
    }) + seq!['\n']
}

/// How a list of files is shown: one after the other.
pub open spec fn files_text(files: Seq<FileContent>) -> Seq<char>
    decreases files.len(),
{
    if files.len() == 0 {
        Seq::empty()
    } else {
        files_text(files.drop_last()) + file_text(files.last())
    }
}

/// The estimate of a text's tokens: a quarter of its length in bytes, as 32 bits hold it.
pub open spec fn token_estimate(text: Seq<char>) -> u32 {
    (vstd::utf8::encode_utf8(text).len() as usize / 4) as u32
}

/// The sum of the estimates of a list of files.
pub open spec fn total_tokens(files: Seq<FileContent>) -> nat
    decreases files.len(),
{
    if files.len() == 0 {
        0
    } else {
        total_tokens(files.drop_last()) + token_estimate(file_text(files.last())) as nat
    }
}

fn ends_with_newline(s: &str) -> (r: bool)
    ensures
        r == (s@.len() > 0 && s@.last() == '\n'),
{
    let n = s.unicode_len();
    n > 0 && s.get_char(n - 1) == '\n'
}

fn push_file(output: &mut String, file: &FileContent)
    ensures
        final(output)@ == old(output)@ + file_text(*file),
{
    output.push_str("=== ");
    output.push_str(file.path.as_str());
    output.push_str(" ===\n");
    output.push_str(file.content.as_str());
    if !ends_with_newline(file.content.as_str()) {
        output.push('\n');
    }
    output.push('\n');
    assert(output@ =~= old(output)@ + file_text(*file));
}

/// Formats repository contents for the LLM: each file with a header that shows its path,
/// followed by its content.
pub fn format_for_llm(contents: &[FileContent]) -> (r: String)
    ensures
        r@ == files_text(contents@),
{
    let mut output: String = String::new();
    let mut i: usize = 0;
    while i < contents.len()
        invariant
            i <= contents@.len(),
            output@ == files_text(contents@.take(i as int)),
        decreases contents.len() - i,
    {
        push_file(&mut output, &contents[i]);
        assert(contents@.take(i + 1).drop_last() =~= contents@.take(i as int));
        i += 1;
    }
    assert(contents@.take(i as int) =~= contents@);
    output
}

/// Estimates a token count by the rule of thumb of four characters per token.
pub fn estimate_tokens(text: &str) -> (r: u32)
    ensures
        r == token_estimate(text@),
{
    (text.len() / 4) as u32
}

/// A piece of a repository that is sent to the LLM at once.
#[derive(Debug)]
pub struct Chunk {
    /// The text.
    pub content: String,
    /// How many files the text shows.
    pub file_count: usize,
    /// The estimated number of tokens.
    pub estimated_tokens: u32,
}

/// What a chunk holds.
pub struct ChunkView {
    /// The text.
    pub content: Seq<char>,
    /// How many files the text shows.
    pub file_count: nat,
    /// The estimated number of tokens.
    pub tokens: nat,
}

impl View for Chunk {
    type V = ChunkView;

    open spec fn view(&self) -> ChunkView {
        ChunkView {
            content: self.content@,
            file_count: self.file_count as nat,
            tokens: self.estimated_tokens as nat,
        }
    }
}

/// What each of a list of chunks holds.
pub open spec fn chunk_views(chunks: Seq<Chunk>) -> Seq<ChunkView> {
    chunks.map_values(|c: Chunk| c@)
}

/// Chunking strategy for large repositories.
#[derive(Debug, Clone, Copy, PartialEq, Eq, Structural)]
pub enum ChunkingStrategy {
    /// Send everything in one request (fail if too large).
    NoChunking,
    /// Split by files, grouping until the token limit is reached.
    ByFile {
        /// The most tokens that a chunk of several files may have.
        max_tokens_per_chunk: u32,
    },
}

impl Default for ChunkingStrategy {
    fn default() -> (r: ChunkingStrategy)
        ensures
            r == (ChunkingStrategy::ByFile { max_tokens_per_chunk: 100_000 }),
    {
        ChunkingStrategy::ByFile { max_tokens_per_chunk: 100_000 }
    }
}

impl ChunkingStrategy {
    /// Splitting by files with the given token limit.
    pub fn with_max_tokens(max_tokens: u32) -> (r: ChunkingStrategy)
        ensures
            r == (ChunkingStrategy::ByFile { max_tokens_per_chunk: max_tokens }),
    {
        ChunkingStrategy::ByFile { max_tokens_per_chunk: max_tokens }
    }
}

/// How far a chunk that already holds the first `n` of the files can be filled: as long as the
/// next file still fits the limit, it is taken in.
pub open spec fn filled_from(files: Seq<FileContent>, max_tokens: nat, n: int) -> int
    decreases files.len() - n,
{
    if 0 <= n < files.len() && total_tokens(files.take(n + 1)) <= max_tokens {
        filled_from(files, max_tokens, n + 1)
    } else {
        n
    }
}

/// How many of the files the first chunk takes: always the first file, however large, and then as
/// many as fit the limit.
pub open spec fn first_chunk_len(files: Seq<FileContent>, max_tokens: nat) -> int {
    filled_from(files, max_tokens, 1)
}

/// The chunk of all the given files.
pub open spec fn chunk_of(files: Seq<FileContent>) -> ChunkView {
    ChunkView {
        content: files_text(files),
        file_count: files.len(),
        tokens: total_tokens(files),
    }
}

/// The chunks of a list of files under a token limit, each as full as the order of the files
/// allows.
pub open spec fn chunks_by_file(files: Seq<FileContent>, max_tokens: nat) -> Seq<ChunkView>
    decreases files.len(),
    via chunks_by_file_decreases
{
    if files.len() == 0 {
        Seq::empty()
    } else {
        let n = first_chunk_len(files, max_tokens);
        seq![chunk_of(files.take(n))] + chunks_by_file(files.skip(n), max_tokens)
    }
}

#[via_fn]
proof fn chunks_by_file_decreases(files: Seq<FileContent>, max_tokens: nat) {
    if files.len() > 0 {
        filled_from_is_maximal(files, max_tokens, 1);
    }
}

/// The chunks of a list of files under a strategy.
pub open spec fn chunks_under(files: Seq<FileContent>, strategy: ChunkingStrategy) -> Seq<
    ChunkView,
> {
    match strategy {
        ChunkingStrategy::NoChunking => seq![
            ChunkView {
                content: files_text(files),
                file_count: files.len(),
                tokens: token_estimate(files_text(files)) as nat,
            },
        ],
        ChunkingStrategy::ByFile { max_tokens_per_chunk } => chunks_by_file(
            files,
            max_tokens_per_chunk as nat,
        ),
    }
}

/// A chunk is filled to the last file that still fits: it stays within the limit unless nothing
/// was added, and the file after it, if there is one, would exceed the limit.
pub proof fn filled_from_is_maximal(files: Seq<FileContent>, max_tokens: nat, n: int)
    requires
        0 <= n <= files.len(),
    ensures
        n <= filled_from(files, max_tokens, n) <= files.len(),
        filled_from(files, max_tokens, n) > n ==> total_tokens(
            files.take(filled_from(files, max_tokens, n)),
        ) <= max_tokens,
        filled_from(files, max_tokens, n) < files.len() ==> total_tokens(
            files.take(filled_from(files, max_tokens, n) + 1),
        ) > max_tokens,
    decreases files.len() - n,
{
    if n < files.len() && total_tokens(files.take(n + 1)) <= max_tokens {
        filled_from_is_maximal(files, max_tokens, n + 1);
    }
}

proof fn total_of_one_more(files: Seq<FileContent>, n: int)
    requires
        0 <= n < files.len(),
    ensures
        total_tokens(files.take(n + 1)) == total_tokens(files.take(n)) + token_estimate(
            file_text(files[n]),
        ),
        files_text(files.take(n + 1)) == files_text(files.take(n)) + file_text(files[n]),
{
    assert(files.take(n + 1).drop_last() =~= files.take(n));
}

/// Splits files into chunks based on a strategy.
pub fn chunk_contents(files: &[FileContent], strategy: &ChunkingStrategy) -> (r: Vec<Chunk>)
    ensures
        chunk_views(r@) == chunks_under(files@, *strategy),
{
    match strategy {
        ChunkingStrategy::NoChunking => {
            let content = format_for_llm(files);
            let estimated_tokens = estimate_tokens(content.as_str());
            let mut chunks: Vec<Chunk> = Vec::new();
            chunks.push(Chunk { content, file_count: files.len(), estimated_tokens });
            assert(chunk_views(chunks@) =~= chunks_under(files@, *strategy));
            chunks
        },
        ChunkingStrategy::ByFile { max_tokens_per_chunk } => chunk_by_file(
            files,
            *max_tokens_per_chunk,
        ),
    }
}

fn format_single_file(file: &FileContent) -> (r: String)
    ensures
        r@ == file_text(*file),
{
    let mut output: String = String::new();
    push_file(&mut output, file);
    assert(output@ =~= file_text(*file));
    output
}

/// The chunk under construction: the files from `from` to `i` are in it.
spec fn is_open_chunk(
    files: Seq<FileContent>,
    max_tokens: nat,
    from: int,
    i: int,
    content: Seq<char>,
    count: int,
    tokens: int,
) -> bool {
    let run = files.skip(from);
    &&& 0 <= from <= i <= files.len()
    &&& count == i - from
    &&& content == files_text(run.take(count))
    &&& tokens == total_tokens(run.take(count))
    &&& tokens <= max_tokens
    &&& count > 0 ==> first_chunk_len(run, max_tokens) == filled_from(run, max_tokens, count)
}

/// Closing a chunk that cannot take in the next file, or that no file follows.
proof fn close_chunk(
    files: Seq<FileContent>,
    max_tokens: nat,
    before: Seq<ChunkView>,
    from: int,
    i: int,
    content: Seq<char>,
    count: int,
    tokens: int,
)
    requires
        is_open_chunk(files, max_tokens, from, i, content, count, tokens),
        count > 0,
        i < files.len() ==> tokens + token_estimate(file_text(files[i])) > max_tokens,
        before + chunks_by_file(files.skip(from), max_tokens) == chunks_by_file(files, max_tokens),
    ensures
        before.push(ChunkView { content, file_count: count as nat, tokens: tokens as nat })
            + chunks_by_file(files.skip(i), max_tokens) == chunks_by_file(files, max_tokens),
{
    let run = files.skip(from);
    if i < files.len() {
        total_of_one_more(run, count);
        assert(run[count] == files[i]);
    }
    assert(filled_from(run, max_tokens, count) == count);
    assert(run.skip(count) =~= files.skip(i));
    let chunk = ChunkView { content, file_count: count as nat, tokens: tokens as nat };
    assert(chunk_of(run.take(count)) == chunk);
    assert(before + (seq![chunk] + chunks_by_file(files.skip(i), max_tokens)) =~= before.push(
        chunk,
    ) + chunks_by_file(files.skip(i), max_tokens));
}

proof fn solo_chunk(files: Seq<FileContent>, max_tokens: nat, before: Seq<ChunkView>, i: int)
    requires
        0 <= i < files.len(),
        token_estimate(file_text(files[i])) > max_tokens,
        before + chunks_by_file(files.skip(i), max_tokens) == chunks_by_file(files, max_tokens),
    ensures
        before.push(
            ChunkView {
                content: file_text(files[i]),
                file_count: 1,
                tokens: token_estimate(file_text(files[i])) as nat,
            },
        ) + chunks_by_file(files.skip(i + 1), max_tokens) == chunks_by_file(files, max_tokens),
{
    let run = files.skip(i);
    total_of_one_more(run, 0);
    assert(run.take(0) =~= Seq::<FileContent>::empty());
    assert(files_text(run.take(0)) + file_text(files[i]) =~= file_text(files[i]));
    if 1 < run.len() {
        total_of_one_more(run, 1);
    }
    assert(first_chunk_len(run, max_tokens) == 1);
    assert(run.skip(1) =~= files.skip(i + 1));
    let chunk = chunk_of(run.take(1));
    assert(before + (seq![chunk] + chunks_by_file(files.skip(i + 1), max_tokens)) =~= before.push(
        chunk,
    ) + chunks_by_file(files.skip(i + 1), max_tokens));
}

proof fn grow_chunk(
    files: Seq<FileContent>,
    max_tokens: nat,
    from: int,
    i: int,
    content: Seq<char>,
    count: int,
    tokens: int,
)
    requires
        is_open_chunk(files, max_tokens, from, i, content, count, tokens),
        i < files.len(),
        tokens + token_estimate(file_text(files[i])) <= max_tokens,
    ensures
        is_open_chunk(
            files,
            max_tokens,
            from,
            i + 1,
            content + file_text(files[i]),
            count + 1,
            tokens + token_estimate(file_text(files[i])),
        ),
{
    let run = files.skip(from);
    total_of_one_more(run, count);
    assert(run[count] == files[i]);
}

proof fn empty_chunk(files: Seq<FileContent>, max_tokens: nat, i: int)
    requires
        0 <= i <= files.len(),
    ensures
        is_open_chunk(files, max_tokens, i, i, Seq::empty(), 0, 0),
{
    assert(files.skip(i).take(0) =~= Seq::<FileContent>::empty());
}

fn chunk_by_file(files: &[FileContent], max_tokens: u32) -> (r: Vec<Chunk>)
    ensures
        chunk_views(r@) == chunks_by_file(files@, max_tokens as nat),
{
    let mut chunks: Vec<Chunk> = Vec::new();
    let mut current_content: String = String::new();
    let mut current_files: usize = 0;
    let mut current_tokens: u32 = 0;
    let mut i: usize = 0;
    let ghost mut from: int = 0;
    proof {
        empty_chunk(files@, max_tokens as nat, 0);
        assert(files@.skip(0) =~= files@);
        assert(chunk_views(chunks@) =~= Seq::<ChunkView>::empty());
        assert(Seq::<ChunkView>::empty() + chunks_by_file(files@, max_tokens as nat)
            =~= chunks_by_file(files@, max_tokens as nat));
        assert(current_content@ =~= Seq::<char>::empty());
    }
    while i < files.len()
        invariant
            i <= files@.len(),
            is_open_chunk(
                files@,
                max_tokens as nat,
                from,
                i as int,
                current_content@,
                current_files as int,
                current_tokens as int,
            ),
            chunk_views(chunks@) + chunks_by_file(files@.skip(from), max_tokens as nat)
                == chunks_by_file(files@, max_tokens as nat),
        decreases files.len() - i,
    {
        let file_content = format_single_file(&files[i]);
        let file_tokens = estimate_tokens(file_content.as_str());

        // A file that does not fit closes the chunk before it
        if file_tokens > max_tokens - current_tokens && current_files > 0 {
            let ghost before = chunk_views(chunks@);
            let ghost closed = ChunkView {
                content: current_content@,
                file_count: current_files as nat,
                tokens: current_tokens as nat,
            };
            proof {
                close_chunk(
                    files@,
                    max_tokens as nat,
                    before,
                    from,
                    i as int,
                    current_content@,
                    current_files as int,
                    current_tokens as int,
                );
            }
            chunks.push(
                Chunk {
                    content: current_content,
                    file_count: current_files,
                    estimated_tokens: current_tokens,
                },
            );
            assert(chunk_views(chunks@) =~= before.push(closed));
            current_content = String::new();
            current_files = 0;
            current_tokens = 0;
            proof {
                from = i as int;
                empty_chunk(files@, max_tokens as nat, i as int);
                assert(current_content@ =~= Seq::<char>::empty());
            }
        }
        // A file that exceeds the limit gets its own chunk

        if file_tokens > max_tokens {
            let ghost before = chunk_views(chunks@);
            proof {
                assert(current_files == 0);
                assert(from == i);
                solo_chunk(files@, max_tokens as nat, before, i as int);
                empty_chunk(files@, max_tokens as nat, i + 1);
            }
            chunks.push(
                Chunk { content: file_content, file_count: 1, estimated_tokens: file_tokens },
            );
            proof {
                assert(chunk_views(chunks@) =~= before.push(
                    ChunkView {
                        content: file_text(files@[i as int]),
                        file_count: 1,
                        tokens: file_tokens as nat,
                    },
                ));
                assert(files@.skip(from).take(0) =~= Seq::<FileContent>::empty());
                assert(current_content@ =~= Seq::<char>::empty());
                from = i + 1;
            }
        } else {
            proof {
                grow_chunk(
                    files@,
                    max_tokens as nat,
                    from,
                    i as int,
                    current_content@,
                    current_files as int,
                    current_tokens as int,
                );
            }
            current_content.push_str(file_content.as_str());
            current_files += 1;
            current_tokens += file_tokens;
        }
        i += 1;
    }
    assert(files@.skip(i as int) =~= Seq::<FileContent>::empty());
    if current_files > 0 {
        let ghost before = chunk_views(chunks@);
        let ghost closed = ChunkView {
            content: current_content@,
            file_count: current_files as nat,
            tokens: current_tokens as nat,
        };
        proof {
            close_chunk(
                files@,
                max_tokens as nat,
                before,
                from,
                i as int,
                current_content@,
                current_files as int,
                current_tokens as int,
            );
            assert(before.push(closed) + Seq::<ChunkView>::empty() =~= before.push(closed));
        }
        chunks.push(
            Chunk {
                content: current_content,
                file_count: current_files,
                estimated_tokens: current_tokens,
            },
        );
        assert(chunk_views(chunks@) =~= before.push(closed));
    } else {
        assert(chunk_views(chunks@) + Seq::<ChunkView>::empty() =~= chunk_views(chunks@));
    }
    chunks
}

// --- What chunking keeps ---

/// The texts of a list of chunks, one after the other.
pub open spec fn chunks_text(chunks: Seq<ChunkView>) -> Seq<char>
    decreases chunks.len(),
{
    if chunks.len() == 0 {
        Seq::empty()
    } else {
        chunks[0].content + chunks_text(chunks.drop_first())
    }
}

/// How many files a list of chunks shows.
pub open spec fn chunks_file_count(chunks: Seq<ChunkView>) -> nat
    decreases chunks.len(),
{
    if chunks.len() == 0 {
        0
    } else {
        chunks[0].file_count + chunks_file_count(chunks.drop_first())
    }
}

/// The text of a list of files is the text of its first part followed by that of the rest,
/// wherever it is divided.
pub proof fn files_text_splits(files: Seq<FileContent>, n: int)
    requires
        0 <= n <= files.len(),
    ensures
        files_text(files) == files_text(files.take(n)) + files_text(files.skip(n)),
    decreases files.len() - n,
{
    if n == files.len() {
        assert(files.take(n) =~= files);
        assert(files.skip(n) =~= Seq::<FileContent>::empty());
        assert(files_text(files) + Seq::<char>::empty() =~= files_text(files));
    } else {
        let shorter = files.drop_last();
        files_text_splits(shorter, n);
        assert(shorter.take(n) =~= files.take(n));
        assert(shorter.skip(n) =~= files.skip(n).drop_last());
        assert(files.skip(n).last() == files.last());
        assert(files_text(files.take(n)) + (files_text(shorter.skip(n)) + file_text(files.last()))
            =~= (files_text(files.take(n)) + files_text(shorter.skip(n))) + file_text(
            files.last(),
        ));
    }
}

/// Chunking neither loses, repeats nor reorders anything: the chunks one after the other are the
/// files one after the other, and together they show as many files as there are.
pub proof fn chunking_preserves_all_files(files: Seq<FileContent>, strategy: ChunkingStrategy)
    ensures
        chunks_text(chunks_under(files, strategy)) == files_text(files),
        chunks_file_count(chunks_under(files, strategy)) == files.len(),
{
    match strategy {
        ChunkingStrategy::NoChunking => {
            let chunks = chunks_under(files, strategy);
            assert(chunks.drop_first() =~= Seq::<ChunkView>::empty());
            assert(chunks_text(chunks.drop_first()) =~= Seq::<char>::empty());
            assert(chunks_file_count(chunks.drop_first()) == 0);
            assert(chunks_text(chunks) =~= chunks[0].content);
        },
        ChunkingStrategy::ByFile { max_tokens_per_chunk } => {
            chunking_by_file_preserves(files, max_tokens_per_chunk as nat);
        },
    }
}

proof fn chunking_by_file_preserves(files: Seq<FileContent>, max_tokens: nat)
    ensures
        chunks_text(chunks_by_file(files, max_tokens)) == files_text(files),
        chunks_file_count(chunks_by_file(files, max_tokens)) == files.len(),
    decreases files.len(),
{
    if files.len() > 0 {
        let n = first_chunk_len(files, max_tokens);
        filled_from_is_maximal(files, max_tokens, 1);
        chunking_by_file_preserves(files.skip(n), max_tokens);
        files_text_splits(files, n);
        let chunks = chunks_by_file(files, max_tokens);
        assert(chunks.drop_first() =~= chunks_by_file(files.skip(n), max_tokens));
    }
}

/// No chunk that holds more than one file exceeds the token limit, and no chunk is empty.
pub proof fn chunking_respects_token_limit(files: Seq<FileContent>, max_tokens: nat)
    ensures
        forall|k: int|
            0 <= k < chunks_by_file(files, max_tokens).len() ==> {
                let chunk = #[trigger] chunks_by_file(files, max_tokens)[k];
                chunk.file_count >= 1 && (chunk.file_count > 1 ==> chunk.tokens <= max_tokens)
            },
    decreases files.len(),
{
    if files.len() > 0 {
        let n = first_chunk_len(files, max_tokens);
        filled_from_is_maximal(files, max_tokens, 1);
        chunking_respects_token_limit(files.skip(n), max_tokens);
        let chunks = chunks_by_file(files, max_tokens);
        assert forall|k: int| 0 <= k < chunks.len() implies {
            let chunk = #[trigger] chunks[k];
            chunk.file_count >= 1 && (chunk.file_count > 1 ==> chunk.tokens <= max_tokens)
        } by {
            if k > 0 {
                assert(chunks[k] == chunks_by_file(files.skip(n), max_tokens)[k - 1]);
            } else {
                assert(chunks[0] == chunk_of(files.take(n)));
            }
        }
    }
}

// --- What chunks show ---

/// A file is shown under a line with its path, with its very content, and with an empty line behind
/// it, whether or not the content ends its last line.
pub proof fn file_is_shown_with_path_and_content(file: FileContent)
    ensures
        ({
            let shown = "=== "@ + file.path@ + " ===\n"@ + file.content@;
            let text = file_text(file);
            &&& shown.is_prefix_of(text)
            &&& file.content@.len() > 0 && file.content@.last() == '\n' ==> text == shown + "\n"@
            &&& file.content@.len() == 0 || file.content@.last() != '\n' ==> text == shown
                + "\n\n"@
        }),
{
    reveal_strlit("\n");
    reveal_strlit("\n\n");
    let shown = "=== "@ + file.path@ + " ===\n"@ + file.content@;
    let text = file_text(file);
    if file.content@.len() > 0 && file.content@.last() == '\n' {
        assert(text =~= shown + "\n"@);
    } else {
        assert(text =~= shown + "\n\n"@);
    }
}

/// Files are shown one after the other, and their estimates add up.
pub proof fn files_are_shown_in_order(files: Seq<FileContent>, more: FileContent)
    ensures
        files_text(Seq::empty()).len() == 0,
        total_tokens(Seq::empty()) == 0,
        files_text(files.push(more)) == files_text(files) + file_text(more),
        total_tokens(files.push(more)) == total_tokens(files) + token_estimate(file_text(more)),
{
    assert(files.push(more).drop_last() =~= files);
}

/// The estimate of a text is a quarter of its length in bytes, rounded down.
pub proof fn four_bytes_make_a_token(text: Seq<char>)
    requires
        vstd::utf8::encode_utf8(text).len() <= 0xffff_ffff,
    ensures
        4 * token_estimate(text) <= vstd::utf8::encode_utf8(text).len() < 4 * token_estimate(text)
            + 4,
{
}

/// Each chunk shows a run of files that follows the run of the chunk before, with their texts,
/// their number and the sum of their estimates. It is as full as the limit allows: the file behind
/// it would not fit in.
pub proof fn chunks_are_full_runs_of_files(files: Seq<FileContent>, max_tokens: nat, k: int)
    requires
        0 <= k < chunks_by_file(files, max_tokens).len(),
    ensures
        ({
            let chunks = chunks_by_file(files, max_tokens);
            let from = chunks_file_count(chunks.take(k));
            let to = from + chunks[k].file_count;
            &&& from < to <= files.len()
            &&& chunks[k].content == files_text(files.subrange(from as int, to as int))
            &&& chunks[k].tokens == total_tokens(files.subrange(from as int, to as int))
            &&& k + 1 < chunks.len() <==> to < files.len()
            &&& to < files.len() ==> chunks[k].tokens + token_estimate(file_text(files[to as int]))
                > max_tokens
        }),
    decreases files.len(),
{
    let n = first_chunk_len(files, max_tokens);
    filled_from_is_maximal(files, max_tokens, 1);
    let chunks = chunks_by_file(files, max_tokens);
    let rest = chunks_by_file(files.skip(n), max_tokens);
    assert(chunks[0] == chunk_of(files.take(n)));
    assert(chunks.drop_first() =~= rest);
    if k == 0 {
        assert(chunks.take(0) =~= Seq::<ChunkView>::empty());
        assert(chunks_file_count(chunks.take(0)) == 0);
        assert(files.subrange(0, n) =~= files.take(n));
        if n < files.len() {
            total_of_one_more(files, n);
        }
        if n == files.len() {
            assert(files.skip(n) =~= Seq::<FileContent>::empty());
        }
    } else {
        chunks_are_full_runs_of_files(files.skip(n), max_tokens, k - 1);
        assert(chunks.take(k).drop_first() =~= rest.take(k - 1));
        assert(chunks.take(k)[0] == chunks[0]);
        let from = chunks_file_count(rest.take(k - 1));
        let to = from + rest[k - 1].file_count;
        assert(chunks[k] == rest[k - 1]);
        assert(files.skip(n).subrange(from as int, to as int) =~= files.subrange(
            (n + from) as int,
            (n + to) as int,
        ));
    }
}

/// Without a limit all files are one chunk. With one, there is no chunk exactly where there is no
/// file.
pub proof fn chunks_cover_what_there_is(files: Seq<FileContent>, max_tokens: u32)
    ensures
        chunks_under(files, ChunkingStrategy::NoChunking).len() == 1,
        chunks_under(files, ChunkingStrategy::NoChunking)[0].content == files_text(files),
        chunks_under(files, ChunkingStrategy::NoChunking)[0].tokens == token_estimate(
            files_text(files),
        ),
        chunks_under(
            files,
            ChunkingStrategy::ByFile { max_tokens_per_chunk: max_tokens },
        ).len() == 0 <==> files.len() == 0,
        total_tokens(files) <= max_tokens && files.len() > 0 ==> chunks_under(
            files,
            ChunkingStrategy::ByFile { max_tokens_per_chunk: max_tokens },
        ) == seq![
            ChunkView {
                content: files_text(files),
                file_count: files.len(),
                tokens: total_tokens(files),
            },
        ],
{
    if total_tokens(files) <= max_tokens && files.len() > 0 {
        let n = first_chunk_len(files, max_tokens as nat);
        filled_from_is_maximal(files, max_tokens as nat, 1);
        if n < files.len() {
            fewer_files_have_fewer_tokens(files, n + 1);
        }
        assert(files.take(n) =~= files);
        assert(files.skip(n) =~= Seq::<FileContent>::empty());
        assert(chunks_by_file(files.skip(n), max_tokens as nat) =~= Seq::<ChunkView>::empty());
        assert(chunks_by_file(files, max_tokens as nat) =~= seq![chunk_of(files)]);
    }
}

proof fn fewer_files_have_fewer_tokens(files: Seq<FileContent>, n: int)
    requires
        0 <= n <= files.len(),
    ensures
        total_tokens(files.take(n)) <= total_tokens(files),
    decreases files.len(),
{
    if n < files.len() {
        fewer_files_have_fewer_tokens(files.drop_last(), n);
        assert(files.drop_last().take(n) =~= files.take(n));
    } else {
        assert(files.take(n) =~= files);
    }
}

/// A list of chunks is told by the text, the number of files and the estimate of each.
pub proof fn chunks_are_told_one_by_one(chunks: Seq<Chunk>, i: int)
    requires
        0 <= i < chunks.len(),
    ensures
        chunk_views(chunks).len() == chunks.len(),
        chunk_views(chunks)[i].content == chunks[i].content@,
        chunk_views(chunks)[i].file_count == chunks[i].file_count,
        chunk_views(chunks)[i].tokens == chunks[i].estimated_tokens,
{
}

} // verus!
