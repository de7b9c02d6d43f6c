//! The structured answer that is asked of the LLM.

use vstd::prelude::*;

use crate::domain::review::ReviewOutput;
use crate::text::{
    find, find_from, find_from_is_least, has_text, index_or_len, index_or_len_is_first, occurs_at,
    position, text_of, to_chars, trim, trimmed,
};

verus! {

/// JSON Schema for structured LLM output.
///
/// This schema is used to enforce structured output from the LLM, ensuring we always get the
/// three fields we need.
pub const REVIEW_OUTPUT_SCHEMA: &'static str = r#"{
    "type": "object",
    "properties": {
        "detailed_reasoning": {
            "type": "string",
            "description": "Your detailed internal reasoning and analysis process. This will be stored but not shown to users by default."
        },
        "action_required": {
            "type": "boolean",
            "description": "Whether this review identifies issues that require attention or action from the developer."
        },
        "user_visible_comments": {
            "type": "string",
            "description": "The user-facing review comments in Markdown format. Be clear, specific, and actionable. Reference files and line numbers where applicable."
        }
    },
    "required": ["detailed_reasoning", "action_required", "user_visible_comments"],
    "additionalProperties": false
}"#;

/// What precedes the custom prompt.
pub const PROMPT_OPENING: &'static str = r#"You are a code review assistant. Your task is to review the provided codebase and provide feedback.

"#;

/// What stands between the custom prompt and the schema.
pub const PROMPT_SCHEMA_INTRO: &'static str = r#"

IMPORTANT: You must respond with a JSON object matching this exact schema:
"#;

/// What follows the schema.
pub const PROMPT_GUIDELINES: &'static str = r#"

Guidelines for your response:
- detailed_reasoning: Write out your complete analysis process here. Consider architecture, code quality, potential bugs, security, performance, and testing.
- action_required: Set to true if you found issues that should be addressed. Set to false if the code looks good or only has minor suggestions.
- user_visible_comments: Write clear, actionable feedback in Markdown. Use headings, bullet points, and code blocks for clarity. Reference specific files and line numbers.

Do not include any text outside the JSON object."#;

/// Why an answer could not be used.
#[derive(Debug)]
pub enum ParseError {
    /// The answer holds no JSON of the wanted shape.
    InvalidJson {
        /// What the JSON parser said.
        message: String,
        /// The answer.
        raw: String,
    },
}

impl ParseError {
    /// What the error says.
    pub open spec fn text(self) -> Seq<char> {
        match self {
            ParseError::InvalidJson { message, raw } => "Invalid JSON response: "@ + message@,
        }
    }

    /// What the error says.
    pub fn to_text(&self) -> (r: String)
        ensures
            r@ == self.text(),
    {
        match self {
            ParseError::InvalidJson { message, raw } => {
                let mut out: String = "Invalid JSON response: ".to_owned();
                out.push_str(message.as_str());
                out
            },
        }
    }
}

/// The content of the first block that a ```` ```json ```` fence opens and a later fence closes.
pub open spec fn json_block(text: Seq<char>) -> Option<Seq<char>> {
    match find_from(text, "```json"@, 0) {
        Some(start) => match find_from(text, "```"@, start + 7) {
            Some(end) => Some(text.subrange(start + 7, end)),
            None => None,
        },
        None => None,
    }
}

/// The content of the block that the first fence opens and a later fence closes. The rest of the
/// opening fence's line is its language, and no part of the content.
pub open spec fn any_block(text: Seq<char>) -> Option<Seq<char>> {
    match find_from(text, "```"@, 0) {
        Some(open) => {
            let newline = open + 3 + index_or_len(text.skip(open + 3), '\n');
            let start = if newline < text.len() {
                newline + 1
            } else {
                open + 3
            };
            match find_from(text, "```"@, start) {
                Some(end) => Some(text.subrange(start, end)),
                None => None,
            }
        },
        None => None,
    }
}

/// The JSON of an answer: the content of its first JSON block, else of its first block, else all
/// of it.
pub open spec fn json_of_markdown(text: Seq<char>) -> Seq<char> {
    match json_block(text) {
        Some(block) => trimmed(block),
        None => match any_block(text) {
            Some(block) => trimmed(block),
            None => text,
        },
    }
}

/// What a parser may answer to a text.
pub open spec fn may_parse_to<F: Fn(&str) -> Result<ReviewOutput, String>>(
    parse: F,
    text: Seq<char>,
    answer: Result<ReviewOutput, String>,
) -> bool {
    exists|s: &str| s@ == text && #[trigger] parse.ensures((s,), answer)
}

/// The parser may reject a text.
pub open spec fn may_reject<F: Fn(&str) -> Result<ReviewOutput, String>>(
    parse: F,
    text: Seq<char>,
) -> bool {
    exists|message: String| #[trigger] may_parse_to(parse, text, Err(message))
}

/// Reads the LLM's JSON response as a review output. The whole response is given to the parser
/// first; if the parser rejects it, the JSON in its Markdown code blocks is, and what the parser
/// then says stands.
pub fn parse_review_output<F: Fn(&str) -> Result<ReviewOutput, String>>(
    json: &str,
    parse: F,
) -> (r: Result<ReviewOutput, ParseError>)
    requires
        forall|s: &str| parse.requires((s,)),
    ensures
        match r {
            Ok(output) => may_parse_to(parse, json@, Ok(output)) || (may_reject(parse, json@)
                && may_parse_to(parse, json_of_markdown(json@), Ok(output))),
            Err(ParseError::InvalidJson { message, raw }) => raw@ == json@ && may_reject(
                parse,
                json@,
            ) && may_parse_to(parse, json_of_markdown(json@), Err(message)),
        },
{
    // First try direct parse
    let direct = parse(json);
    assert(may_parse_to(parse, json@, direct));
    match direct {
        Ok(output) => Ok(output),
        Err(_) => {
            // Try to extract JSON from markdown code blocks
            let cleaned = extract_json_from_markdown(json);
            let answer = parse(cleaned.as_str());
            assert(may_parse_to(parse, cleaned@, answer));
            match answer {
                Ok(output) => Ok(output),
                Err(message) => Err(ParseError::InvalidJson { message, raw: json.to_owned() }),
            }
        },
    }
}

/// Extracts JSON from Markdown code blocks if present.
pub fn extract_json_from_markdown(text: &str) -> (r: String)
    ensures
        r@ == json_of_markdown(text@),
{
    let chars = to_chars(text);
    let json_fence = to_chars("```json");
    let fence = to_chars("```");
    proof {
        reveal_strlit("```json");
        reveal_strlit("```");
    }
    // Look for ```json ... ``` blocks
    if let Some(start) = find(chars.as_slice(), json_fence.as_slice(), 0) {
        assert(start + 7 <= chars.len());
        let content_start: usize = start + 7;
        if let Some(end) = find(chars.as_slice(), fence.as_slice(), content_start) {
            let block = to_chars(text_of(chars.as_slice(), content_start, end).as_str());
            return trim(block.as_slice());
        }
    }
    // Look for ``` ... ``` blocks

    if let Some(open) = find(chars.as_slice(), fence.as_slice(), 0) {
        assert(open + 3 <= chars.len());
        // Skip language identifier if present
        let newline = position(chars.as_slice(), '\n', open + 3);
        let content_start: usize = if newline < chars.len() {
            newline + 1
        } else {
            open + 3
        };
        if let Some(end) = find(chars.as_slice(), fence.as_slice(), content_start) {
            let block = to_chars(text_of(chars.as_slice(), content_start, end).as_str());
            return trim(block.as_slice());
        }
    }
    text.to_owned()
}

/// An answer that wraps its JSON into a fenced block, with no backquotes before or within it,
/// gives that JSON, whatever follows the block.
pub proof fn fenced_json_is_extracted(before: Seq<char>, json: Seq<char>, after: Seq<char>)
    requires
        !before.contains('`'),
        !json.contains('`'),
    ensures
        json_of_markdown(before + "```json"@ + json + "```"@ + after) == trimmed(json),
{
    reveal_strlit("```json");
    reveal_strlit("```");
    let text = before + "```json"@ + json + "```"@ + after;
    let open = before.len() as int;
    let close = open + 7 + json.len();
    assert(occurs_at(text, "```json"@, open)) by {
        assert(text.subrange(open, open + 7) =~= "```json"@);
    }
    assert(occurs_at(text, "```"@, close)) by {
        assert(text.subrange(close, close + 3) =~= "```"@);
    }
    assert forall|i: int| 0 <= i < open implies !occurs_at(text, "```json"@, i) by {
        if occurs_at(text, "```json"@, i) {
            assert(text.subrange(i, i + 7)[0] == '`');
            assert(before[i] == '`');
        }
    }
    assert forall|i: int| open + 7 <= i < close implies !occurs_at(text, "```"@, i) by {
        if occurs_at(text, "```"@, i) {
            assert(text.subrange(i, i + 3)[0] == '`');
            assert(json[i - open - 7] == '`');
        }
    }
    find_from_is_least(text, "```json"@, 0);
    find_from_is_least(text, "```"@, open + 7);
    assert(find_from(text, "```json"@, 0) == Some(open));
    assert(find_from(text, "```"@, open + 7) == Some(close));
    assert(text.subrange(open + 7, close) =~= json);
}

/// Builds the system prompt for a review, incorporating the user's custom prompt.
pub fn build_system_prompt(custom_prompt: &str) -> (r: String)
    ensures
        r@ == PROMPT_OPENING@ + custom_prompt@ + PROMPT_SCHEMA_INTRO@ + REVIEW_OUTPUT_SCHEMA@
            + PROMPT_GUIDELINES@,
{
    let mut out: String = PROMPT_OPENING.to_owned();
    out.push_str(custom_prompt);
    out.push_str(PROMPT_SCHEMA_INTRO);
    out.push_str(REVIEW_OUTPUT_SCHEMA);
    out.push_str(PROMPT_GUIDELINES);
    assert(out@ =~= PROMPT_OPENING@ + custom_prompt@ + PROMPT_SCHEMA_INTRO@ + REVIEW_OUTPUT_SCHEMA@
        + PROMPT_GUIDELINES@);
    out
}

/// An answer without a fence is taken as it is.
pub proof fn bare_answer_is_kept(text: Seq<char>)
    requires
        !has_text(text, "```"@),
    ensures
        json_of_markdown(text) == text,
{
    reveal_strlit("```json");
    reveal_strlit("```");
    find_from_is_least(text, "```json"@, 0);
    find_from_is_least(text, "```"@, 0);
    if find_from(text, "```json"@, 0) is Some {
        let i = find_from(text, "```json"@, 0)->Some_0;
        assert(text.subrange(i, i + 3) =~= "```json"@.take(3)) by {
            assert(text.subrange(i, i + 7).take(3) =~= text.subrange(i, i + 3));
        }
        assert("```json"@.take(3) =~= "```"@);
        assert(occurs_at(text, "```"@, i));
    }
}

/// Where no fence is one of JSON, the content of the first block counts, without the line of its
/// opening fence, which may name a language.
pub proof fn other_block_is_extracted(
    before: Seq<char>,
    language: Seq<char>,
    body: Seq<char>,
    after: Seq<char>,
)
    requires
        !before.contains('`'),
        !language.contains('`'),
        !language.contains('\n'),
        !body.contains('`'),
        !has_text(before + "```"@ + language + seq!['\n'] + body + "```"@ + after, "```json"@),
    ensures
        json_of_markdown(before + "```"@ + language + seq!['\n'] + body + "```"@ + after) == trimmed(
            body,
        ),
{
    reveal_strlit("```json");
    reveal_strlit("```");
    let text = before + "```"@ + language + seq!['\n'] + body + "```"@ + after;
    let open = before.len() as int;
    let start = open + 3 + language.len() + 1;
    let close = start + body.len();
    find_from_is_least(text, "```json"@, 0);
    assert(occurs_at(text, "```"@, open)) by {
        assert(text.subrange(open, open + 3) =~= "```"@);
    }
    assert(occurs_at(text, "```"@, close)) by {
        assert(text.subrange(close, close + 3) =~= "```"@);
    }
    assert forall|i: int| 0 <= i < open implies !occurs_at(text, "```"@, i) by {
        if occurs_at(text, "```"@, i) {
            assert(text.subrange(i, i + 3)[0] == '`');
            assert(before[i] == '`');
        }
    }
    find_from_is_least(text, "```"@, 0);
    assert(find_from(text, "```"@, 0) == Some(open));
    let tail = text.skip(open + 3);
    index_or_len_is_first(tail, '\n');
    let n = index_or_len(tail, '\n');
    assert(tail[language.len() as int] == '\n');
    if n < language.len() {
        assert(tail[n] == language[n]);
        assert(language.contains(language[n]));
    }
    assert(n == language.len());
    assert forall|i: int| start <= i < close implies !occurs_at(text, "```"@, i) by {
        if occurs_at(text, "```"@, i) {
            assert(text.subrange(i, i + 3)[0] == '`');
            assert(body[i - start] == '`');
        }
    }
    find_from_is_least(text, "```"@, start);
    assert(find_from(text, "```"@, start) == Some(close));
    assert(text.subrange(start, close) =~= body);
}

/// The error says what the parser said.
pub proof fn parse_error_says_the_message(message: String, raw: String)
    ensures
        (ParseError::InvalidJson { message, raw }).text() == "Invalid JSON response: "@ + message@,
{
}

} // verus!
