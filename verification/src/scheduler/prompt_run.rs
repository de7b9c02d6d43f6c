//! Running one prompt on a repository: what is asked of the LLM, piece by piece, and how the
//! answers become one output.

use vstd::prelude::*;

use crate::domain::ids::ReviewId;
use crate::domain::prompt::Prompt;
use crate::domain::review::ReviewOutput;
use crate::domain::untrusted::UntrustedString;
use crate::github::concat::Chunk;
use crate::llm::provider::{LlmError, LlmRequest, StreamChunk};
use crate::llm::schema::{
    build_system_prompt, json_of_markdown, may_parse_to, may_reject, parse_review_output,
    PROMPT_GUIDELINES, PROMPT_OPENING, PROMPT_SCHEMA_INTRO, REVIEW_OUTPUT_SCHEMA,
};
use crate::text::{decimal, format_u64};
use crate::{ReviewUpdate, ReviewUpdateKind};

verus! {

// --- Token budget ---

/// How the context window of a model is divided.
#[derive(Debug, Clone, Copy, PartialEq, Eq, Structural)]
pub struct ContextBudget {
    /// The most tokens of an answer to a repository that fits one request.
    pub single_chunk_output: u32,
    /// The most tokens of an answer to a part of a repository.
    pub multi_chunk_output: u32,
    /// What is kept free for the system prompt and for formatting.
    pub prompt_overhead: u32,
    /// The most tokens of a chunk.
    pub input_budget: u32,
}

/// The lesser of two numbers.
pub open spec fn lesser(a: int, b: int) -> int {
    if a < b {
        a
    } else {
        b
    }
}

/// Divides the context window of a model, which has to fit the system prompt, the user prompt and
/// the output.
///
/// Space is reserved for output tokens, capped at reasonable values that work across models, and
/// for about 10k tokens of system prompt and formatting overhead. The larger output counts for
/// the size of chunks.
pub fn context_budget(model_context: u32) -> (r: ContextBudget)
    ensures
        r.single_chunk_output == lesser(16_000, model_context as int / 4),
        r.multi_chunk_output == lesser(8_000, model_context as int / 8),
        r.prompt_overhead == lesser(10_000, model_context as int / 10),
        r.input_budget + r.single_chunk_output + r.prompt_overhead == model_context,
        r.multi_chunk_output <= r.single_chunk_output,
        r.single_chunk_output <= 16_000 && 4 * r.single_chunk_output <= model_context,
        r.single_chunk_output == 16_000 || 4 * (r.single_chunk_output + 1) > model_context,
        r.multi_chunk_output <= 8_000 && 8 * r.multi_chunk_output <= model_context,
        r.multi_chunk_output == 8_000 || 8 * (r.multi_chunk_output + 1) > model_context,
        r.prompt_overhead <= 10_000 && 10 * r.prompt_overhead <= model_context,
        r.prompt_overhead == 10_000 || 10 * (r.prompt_overhead + 1) > model_context,
{
    let quarter: u32 = model_context / 4;
    let eighth: u32 = model_context / 8;
    let tenth: u32 = model_context / 10;
    let single_chunk_output: u32 = if quarter < 16_000 {
        quarter
    } else {
        16_000
    };
    let multi_chunk_output: u32 = if eighth < 8_000 {
        eighth
    } else {
        8_000
    };
    let prompt_overhead: u32 = if tenth < 10_000 {
        tenth
    } else {
        10_000
    };
    let input_budget: u32 = model_context - single_chunk_output - prompt_overhead;
    ContextBudget { single_chunk_output, multi_chunk_output, prompt_overhead, input_budget }
}

// --- Requests ---

/// What is asked about part `i` of `n`.
pub open spec fn user_prompt(content: Seq<char>, i: int, n: int) -> Seq<char> {
    if n == 1 {
        "Please review the following codebase:\n\n"@ + content
    } else {
        "Please review part "@ + decimal((i + 1) as nat) + " of "@ + decimal(n as nat)
            + " of this codebase:\n\n"@ + content
    }
}

/// The system prompt for a custom prompt.
pub open spec fn system_prompt(custom: Seq<char>) -> Seq<char> {
    PROMPT_OPENING@ + custom + PROMPT_SCHEMA_INTRO@ + REVIEW_OUTPUT_SCHEMA@ + PROMPT_GUIDELINES@
}

/// The request is what a prompt asks about a chunk, part `i` of all chunks.
pub open spec fn is_request_for(
    request: LlmRequest,
    prompt: Prompt,
    chunks: Seq<Chunk>,
    i: int,
    budget: ContextBudget,
) -> bool {
    &&& request.system_prompt@ == system_prompt(prompt.text@)
    &&& request.user_prompt@ == user_prompt(chunks[i].content@, i, chunks.len() as int)
    &&& request.max_tokens == if chunks.len() == 1 {
        budget.single_chunk_output
    } else {
        budget.multi_chunk_output
    }
}

/// What a prompt asks about a chunk, part `i` of all chunks.
pub fn prompt_request(prompt: &Prompt, chunks: &Vec<Chunk>, i: usize, budget: &ContextBudget) -> (r:
    LlmRequest)
    requires
        i < chunks@.len(),
    ensures
        is_request_for(r, *prompt, chunks@, i as int, *budget),
{
    let system_prompt = build_system_prompt(prompt.text.as_str());
    let mut user_prompt: String = String::new();
    let max_tokens: u32 = if chunks.len() == 1 {
        // If single chunk, just run it
        user_prompt.push_str("Please review the following codebase:\n\n");
        budget.single_chunk_output
    } else {
        user_prompt.push_str("Please review part ");
        user_prompt.push_str(format_u64(i as u64 + 1).as_str());
        user_prompt.push_str(" of ");
        user_prompt.push_str(format_u64(chunks.len() as u64).as_str());
        user_prompt.push_str(" of this codebase:\n\n");
        budget.multi_chunk_output
    };
    user_prompt.push_str(chunks[i].content.as_str());
    assert(user_prompt@ =~= self::user_prompt(
        chunks@[i as int].content@,
        i as int,
        chunks@.len() as int,
    ));
    LlmRequest { system_prompt, user_prompt, max_tokens }
}

// --- Answers ---

/// The heading and the text of part `i`.
pub open spec fn part_text(text: Seq<char>, i: int) -> Seq<char> {
    "## Part "@ + decimal((i + 1) as nat) + "\n"@ + text
}

/// The parts of a list of texts, with an empty line between them.
pub open spec fn joined_parts(texts: Seq<Seq<char>>) -> Seq<char>
    decreases texts.len(),
{
    if texts.len() == 0 {
        Seq::empty()
    } else if texts.len() == 1 {
        part_text(texts[0], 0)
    } else {
        joined_parts(texts.drop_last()) + "\n\n"@ + part_text(texts.last(), texts.len() - 1)
    }
}

/// The reasonings of a list of outputs.
pub open spec fn reasonings(outputs: Seq<ReviewOutput>) -> Seq<Seq<char>> {
    outputs.map_values(|o: ReviewOutput| o.detailed_reasoning@)
}

/// The comments of a list of outputs.
pub open spec fn comments(outputs: Seq<ReviewOutput>) -> Seq<Seq<char>> {
    outputs.map_values(|o: ReviewOutput| o.user_visible_comments@)
}

/// Some output requires action.
pub open spec fn any_action(outputs: Seq<ReviewOutput>) -> bool {
    exists|i: int| 0 <= i < outputs.len() && (#[trigger] outputs[i]).action_required
}

/// The output of a prompt, from the answers about the chunks: the one answer about the only
/// chunk, else all of them, part by part.
pub open spec fn is_combined(output: ReviewOutput, outputs: Seq<ReviewOutput>) -> bool {
    if outputs.len() == 1 {
        output == outputs[0]
    } else {
        &&& output.detailed_reasoning@ == joined_parts(reasonings(outputs))
        &&& output.action_required == any_action(outputs)
        &&& output.user_visible_comments@ == joined_parts(comments(outputs))
    }
}

fn push_part(out: &mut String, text: &str, i: usize)
    requires
        i < usize::MAX,
    ensures
        final(out)@ == old(out)@ + (if i == 0 {
            Seq::<char>::empty()
        } else {
            "\n\n"@
        }) + part_text(text@, i as int),
{
    if i > 0 {
        out.push_str("\n\n");
    }
    out.push_str("## Part ");
    out.push_str(format_u64(i as u64 + 1).as_str());
    out.push_str("\n");
    out.push_str(text);
    assert(out@ =~= old(out)@ + (if i == 0 {
        Seq::<char>::empty()
    } else {
        "\n\n"@
    }) + part_text(text@, i as int));
}

fn combine(outputs: &Vec<ReviewOutput>) -> (r: ReviewOutput)
    ensures
        is_combined(r, outputs@),
{
    if outputs.len() == 1 {
        return outputs[0].clone();
    }
    let mut all_reasoning: String = String::new();
    let mut any_action_required: bool = false;
    let mut all_comments: String = String::new();
    let mut i: usize = 0;
    assert(all_reasoning@ =~= Seq::<char>::empty());
    assert(all_comments@ =~= Seq::<char>::empty());
    while i < outputs.len()
        invariant
            i <= outputs@.len(),
            all_reasoning@ == joined_parts(reasonings(outputs@).take(i as int)),
            all_comments@ == joined_parts(comments(outputs@).take(i as int)),
            any_action_required == exists|j: int|
                0 <= j < i && (#[trigger] outputs@[j]).action_required,
        decreases outputs.len() - i,
    {
        let output = &outputs[i];
        push_part(&mut all_reasoning, output.detailed_reasoning.as_raw(), i);
        push_part(&mut all_comments, output.user_visible_comments.as_raw(), i);
        if output.action_required {
            any_action_required = true;
        }
        proof {
            let texts = reasonings(outputs@).take(i + 1);
            assert(texts.drop_last() =~= reasonings(outputs@).take(i as int));
            assert(texts.last() == output.detailed_reasoning@);
            assert(all_reasoning@ =~= joined_parts(texts));
            let texts = comments(outputs@).take(i + 1);
            assert(texts.drop_last() =~= comments(outputs@).take(i as int));
            assert(texts.last() == output.user_visible_comments@);
            assert(all_comments@ =~= joined_parts(texts));
        }
        i += 1;
    }
    assert(reasonings(outputs@).take(i as int) =~= reasonings(outputs@));
    assert(comments(outputs@).take(i as int) =~= comments(outputs@));
    // Content is from the LLM
    ReviewOutput {
        detailed_reasoning: UntrustedString::new(all_reasoning.as_str()),
        action_required: any_action_required,
        user_visible_comments: UntrustedString::new(all_comments.as_str()),
    }
}

/// The state of running one prompt: the answers so far, one for each chunk from the first on.
#[derive(Debug)]
pub struct PromptRun {
    /// The answers so far.
    pub outputs: Vec<ReviewOutput>,
}

impl PromptRun {
    /// A run without answers.
    pub fn new() -> (r: PromptRun)
        ensures
            r.outputs@.len() == 0,
    {
        PromptRun { outputs: Vec::new() }
    }

    /// The next request: about the first chunk that has no answer yet.
    pub fn next_request(&self, prompt: &Prompt, chunks: &Vec<Chunk>, budget: &ContextBudget) -> (r:
        Option<LlmRequest>)
        ensures
            match r {
                Some(request) => self.outputs@.len() < chunks@.len() && is_request_for(
                    request,
                    *prompt,
                    chunks@,
                    self.outputs@.len() as int,
                    *budget,
                ),
                None => self.outputs@.len() >= chunks@.len(),
            },
    {
        if self.outputs.len() < chunks.len() {
            Some(prompt_request(prompt, chunks, self.outputs.len(), budget))
        } else {
            None
        }
    }

    /// Takes in the answer to the last request.
    pub fn accept(&mut self, output: ReviewOutput)
        ensures
            final(self).outputs@ == old(self).outputs@.push(output),
    {
        self.outputs.push(output);
    }

    /// The output of the prompt, and the message that the prompt is done, once for all chunks.
    pub fn finish(self, review_id: ReviewId, prompt: &Prompt) -> (r: (ReviewOutput, ReviewUpdate))
        ensures
            is_combined(r.0, self.outputs@),
            r.0.action_required <==> exists|i: int|
                0 <= i < self.outputs@.len() && (#[trigger] self.outputs@[i]).action_required,
            r.1 == (ReviewUpdate {
                review_id,
                prompt_name: prompt.name,
                kind: ReviewUpdateKind::PromptComplete,
            }),
    {
        let output = combine(&self.outputs);
        proof {
            combined_requires_action_if_any_does(output, self.outputs@);
        }
        let update = ReviewUpdate {
            review_id,
            prompt_name: prompt.name.clone(),
            kind: ReviewUpdateKind::PromptComplete,
        };
        (output, update)
    }
}

// --- Streaming ---

/// A streamed answer as it arrives.
#[derive(Debug)]
pub struct StreamedAnswer {
    /// The text so far.
    pub full_text: String,
}

impl StreamedAnswer {
    /// An answer of which nothing has arrived.
    pub fn new() -> (r: StreamedAnswer)
        ensures
            r.full_text@ == Seq::<char>::empty(),
    {
        StreamedAnswer { full_text: String::new() }
    }

    /// Takes in what the stream delivers. A chunk is added to the text, and gives a message for
    /// those who follow the review if there is text in it. An error stands, and changes nothing.
    pub fn take(
        &mut self,
        item: Result<StreamChunk, LlmError>,
        review_id: ReviewId,
        prompt_name: &str,
    ) -> (r: Result<Option<ReviewUpdate>, LlmError>)
        ensures
            match item {
                Ok(chunk) => {
                    &&& final(self).full_text@ == old(self).full_text@ + chunk.text@
                    &&& match r {
                        Ok(Some(update)) => chunk.text@.len() > 0 && update.review_id == review_id
                            && update.prompt_name@ == prompt_name@ && update.kind == (
                        ReviewUpdateKind::Chunk { text: chunk.text }),
                        Ok(None) => chunk.text@.len() == 0,
                        Err(_) => false,
                    }
                },
                Err(e) => r == Err::<Option<ReviewUpdate>, LlmError>(e) && final(self).full_text
                    == old(self).full_text,
            },
    {
        match item {
            Ok(chunk) => {
                self.full_text.push_str(chunk.text.as_str());
                // Only if there's text
                if chunk.text.as_str().unicode_len() == 0 {
                    Ok(None)
                } else {
                    Ok(
                        Some(
                            ReviewUpdate {
                                review_id,
                                prompt_name: prompt_name.to_owned(),
                                kind: ReviewUpdateKind::Chunk { text: chunk.text },
                            },
                        ),
                    )
                }
            },
            Err(e) => Err(e),
        }
    }

    /// The output that the whole answer holds.
    pub fn finish<F: Fn(&str) -> Result<ReviewOutput, String>>(self, parse: F) -> (r: Result<
        ReviewOutput,
        String,
    >)
        requires
            forall|s: &str| parse.requires((s,)),
        ensures
            match r {
                Ok(output) => may_parse_to(parse, self.full_text@, Ok(output)) || (may_reject(
                    parse,
                    self.full_text@,
                ) && may_parse_to(parse, json_of_markdown(self.full_text@), Ok(output))),
                Err(e) => may_reject(parse, self.full_text@) && exists|message: String| #[trigger]
                    may_parse_to(parse, json_of_markdown(self.full_text@), Err(message)) && e@
                        == "Failed to parse LLM response: "@ + ("Invalid JSON response: "@
                        + message@),
            },
    {
        match parse_review_output(self.full_text.as_str(), parse) {
            Ok(output) => Ok(output),
            Err(e) => {
                let mut text: String = "Failed to parse LLM response: ".to_owned();
                let detail = e.to_text();
                text.push_str(detail.as_str());
                Err(text)
            },
        }
    }
}

// --- What is asked and answered ---

/// The output of a prompt requires action exactly if the answer about some chunk does, wherever
/// that chunk stands.
pub proof fn combined_requires_action_if_any_does(output: ReviewOutput, outputs: Seq<ReviewOutput>)
    requires
        is_combined(output, outputs),
    ensures
        output.action_required <==> exists|i: int|
            0 <= i < outputs.len() && (#[trigger] outputs[i]).action_required,
{
    if outputs.len() == 1 {
        assert(outputs[0] == output);
    }
}

/// The answer about one more chunk keeps all that was said of the others: action stays required,
/// and the reasoning and the comments of the new part are added under its heading.
pub proof fn one_more_answer_only_adds(
    outputs: Seq<ReviewOutput>,
    more: ReviewOutput,
    before: ReviewOutput,
    after: ReviewOutput,
)
    requires
        outputs.len() >= 2,
        is_combined(before, outputs),
        is_combined(after, outputs.push(more)),
    ensures
        ({
            let heading = "\n\n## Part "@ + decimal(outputs.len() + 1) + "\n"@;
            &&& after.action_required == (before.action_required || more.action_required)
            &&& after.detailed_reasoning@ == before.detailed_reasoning@ + heading
                + more.detailed_reasoning@
            &&& after.user_visible_comments@ == before.user_visible_comments@ + heading
                + more.user_visible_comments@
        }),
{
    let longer = outputs.push(more);
    combined_requires_action_if_any_does(before, outputs);
    combined_requires_action_if_any_does(after, longer);
    assert(longer[outputs.len() as int] == more);
    if before.action_required {
        let i = choose|i: int| 0 <= i < outputs.len() && (#[trigger] outputs[i]).action_required;
        assert(longer[i].action_required);
    }
    assert(reasonings(longer).drop_last() =~= reasonings(outputs));
    assert(comments(longer).drop_last() =~= comments(outputs));
    heading_follows_break(outputs.len() + 1);
    let heading = "\n\n## Part "@ + decimal(outputs.len() + 1) + "\n"@;
    assert(after.detailed_reasoning@ =~= before.detailed_reasoning@ + heading
        + more.detailed_reasoning@);
    assert(after.user_visible_comments@ =~= before.user_visible_comments@ + heading
        + more.user_visible_comments@);
}

proof fn heading_follows_break(n: nat)
    ensures
        "\n\n## Part "@ + decimal(n) + "\n"@ == "\n\n"@ + ("## Part "@ + decimal(n) + "\n"@),
{
    reveal_strlit("\n\n## Part ");
    reveal_strlit("\n\n");
    reveal_strlit("## Part ");
    assert("\n\n## Part "@ =~= "\n\n"@ + "## Part "@);
    assert("\n\n## Part "@ + decimal(n) + "\n"@ =~= "\n\n"@ + ("## Part "@ + decimal(n) + "\n"@));
}

/// The answer about the only chunk is the output as it is. Of two answers, the second follows the
/// first, each under the heading of its part.
pub proof fn few_answers_are_combined(output: ReviewOutput, outputs: Seq<ReviewOutput>)
    requires
        is_combined(output, outputs),
    ensures
        outputs.len() == 0 ==> output.detailed_reasoning@.len() == 0
            && output.user_visible_comments@.len() == 0 && !output.action_required,
        outputs.len() == 1 ==> output == outputs[0],
        outputs.len() == 2 ==> output.detailed_reasoning@ == "## Part 1\n"@
            + outputs[0].detailed_reasoning@ + "\n\n## Part 2\n"@ + outputs[1].detailed_reasoning@,
        outputs.len() == 2 ==> output.user_visible_comments@ == "## Part 1\n"@
            + outputs[0].user_visible_comments@ + "\n\n## Part 2\n"@
            + outputs[1].user_visible_comments@,
{
    if outputs.len() == 2 {
        let a = reasonings(outputs);
        let b = comments(outputs);
        assert(a.drop_last().len() == 1 && a.drop_last()[0] == outputs[0].detailed_reasoning@);
        assert(b.drop_last().len() == 1 && b.drop_last()[0] == outputs[0].user_visible_comments@);
        reveal_with_fuel(joined_parts, 3);
        heading_follows_break(2);
        reveal_strlit("## Part 1\n");
        reveal_strlit("\n\n## Part 2\n");
        reveal_strlit("\n\n## Part ");
        reveal_strlit("## Part ");
        reveal_strlit("\n");
        assert(decimal(1) =~= seq!['1']);
        assert(decimal(2) =~= seq!['2']);
        assert("## Part 1\n"@ =~= "## Part "@ + decimal(1) + "\n"@);
        assert("\n\n## Part 2\n"@ =~= "\n\n## Part "@ + decimal(2) + "\n"@);
        assert(output.detailed_reasoning@ =~= "## Part 1\n"@ + outputs[0].detailed_reasoning@
            + "\n\n## Part 2\n"@ + outputs[1].detailed_reasoning@);
        assert(output.user_visible_comments@ =~= "## Part 1\n"@ + outputs[0].user_visible_comments@
            + "\n\n## Part 2\n"@ + outputs[1].user_visible_comments@);
    }
}

/// A request ends in the very content of its chunk. Where the repository is one chunk it says so
/// and asks for the longer answer; else it tells the part and the number of parts and asks for the
/// shorter one. The text of the prompt stands in the system prompt, between what is said to every
/// model and the schema of the answer.
pub proof fn request_asks_about_its_chunk(
    request: LlmRequest,
    prompt: Prompt,
    chunks: Seq<Chunk>,
    i: int,
    budget: ContextBudget,
)
    requires
        0 <= i < chunks.len(),
        is_request_for(request, prompt, chunks, i, budget),
    ensures
        chunks.len() == 1 ==> {
            &&& request.user_prompt@ == "Please review the following codebase:\n\n"@
                + chunks[0].content@
            &&& request.max_tokens == budget.single_chunk_output
        },
        chunks.len() > 1 ==> {
            &&& request.user_prompt@ == "Please review part "@ + decimal((i + 1) as nat) + " of "@
                + decimal(chunks.len()) + " of this codebase:\n\n"@ + chunks[i].content@
            &&& request.max_tokens == budget.multi_chunk_output
        },
        exists|before: Seq<char>, after: Seq<char>|
            request.system_prompt@ == #[trigger] (before + prompt.text@ + after) && before
                == PROMPT_OPENING@ && REVIEW_OUTPUT_SCHEMA@ == after.subrange(
                PROMPT_SCHEMA_INTRO@.len() as int,
                (PROMPT_SCHEMA_INTRO@.len() + REVIEW_OUTPUT_SCHEMA@.len()) as int,
            ),
{
    let after = PROMPT_SCHEMA_INTRO@ + REVIEW_OUTPUT_SCHEMA@ + PROMPT_GUIDELINES@;
    assert(request.system_prompt@ =~= PROMPT_OPENING@ + prompt.text@ + after);
    assert(REVIEW_OUTPUT_SCHEMA@ =~= after.subrange(
        PROMPT_SCHEMA_INTRO@.len() as int,
        (PROMPT_SCHEMA_INTRO@.len() + REVIEW_OUTPUT_SCHEMA@.len()) as int,
    ));
}

} // verus!
