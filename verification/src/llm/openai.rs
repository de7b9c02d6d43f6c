//! OpenAI's Responses API: what is sent, and how the streamed answer is read.

use vstd::prelude::*;

use crate::domain::repo::option_text;
use crate::llm::provider::{LlmError, LlmProvider, LlmRequest, StreamChunk};
use crate::llm::schema::REVIEW_OUTPUT_SCHEMA;
use crate::text::{
    ascii_is_utf8, ascii_text, chars_of, from_utf8_lossy, index_or_len, index_or_len_is_first,
    is_ascii, lossy_text, parse_u32, position, same_text, strip_prefix, text_of, to_chars, trim,
    trimmed, unsigned_value, without_prefix,
};

verus! {

/// Where the API is found unless configured otherwise.
pub const DEFAULT_BASE_URL: &'static str = "https://api.openai.com/v1";

/// The context length, in tokens, unless configured otherwise.
pub const DEFAULT_CONTEXT_LIMIT: u32 = 1_000_000;

/// How long a request may take, in seconds, unless configured otherwise. Reasoning models can be
/// slow.
pub const DEFAULT_REQUEST_TIMEOUT_SECS: u64 = 600;

/// How long a connection may take to be made, in seconds.
pub const CONNECT_TIMEOUT_SECS: u64 = 30;

/// How long to wait, in seconds, where a rate limit does not say.
pub const DEFAULT_RETRY_AFTER_SECS: u32 = 60;

// --- The request ---

/// OpenAI API provider using the Responses API.
#[derive(Debug)]
pub struct OpenAiProvider {
    api_key: String,
    model: String,
    base_url: String,
    reasoning_effort: String,
    context_limit: u32,
    timeout_secs: u64,
}

/// Reasoning configuration for the Responses API.
#[derive(Debug)]
pub struct ReasoningConfig {
    /// How hard to think.
    pub effort: String,
}

/// Text format configuration for structured output.
#[derive(Debug)]
pub struct TextFormat {
    /// The format.
    pub format: TextFormatType,
}

/// Text format type for JSON schema output.
#[derive(Debug)]
pub struct TextFormatType {
    /// The kind of format.
    pub format_type: String,
    /// The schema, as JSON text.
    pub schema: String,
    /// The schema's name.
    pub name: String,
    /// Whether the answer has to match the schema exactly.
    pub strict: bool,
}

/// Request body for the Responses API.
#[derive(Debug)]
pub struct ResponsesRequest {
    /// The model.
    pub model: String,
    /// The system prompt.
    pub instructions: String,
    /// The user's input. For the Responses API, this can be a simple string when there's only one
    /// user message, which is our use case.
    pub input: String,
    /// How hard to think.
    pub reasoning: ReasoningConfig,
    /// The format of the answer.
    pub text: TextFormat,
    /// The most tokens of the answer.
    pub max_output_tokens: Option<u32>,
    /// Whether the answer is streamed.
    pub stream: bool,
}

impl OpenAiProvider {
    /// The API key.
    pub closed spec fn key_text(self) -> Seq<char> {
        self.api_key@
    }

    /// The model.
    pub closed spec fn model_text(self) -> Seq<char> {
        self.model@
    }

    /// Where the API is found.
    pub closed spec fn base_text(self) -> Seq<char> {
        self.base_url@
    }

    /// The reasoning effort.
    pub closed spec fn effort_text(self) -> Seq<char> {
        self.reasoning_effort@
    }

    /// How long a request may take, in seconds.
    pub closed spec fn timeout(self) -> u64 {
        self.timeout_secs
    }

    /// A provider with the given settings, and the defaults for those that are missing.
    pub fn new(
        api_key: String,
        model: String,
        base_url: Option<String>,
        reasoning_effort: String,
        context_limit: Option<u32>,
        request_timeout_secs: Option<u64>,
    ) -> (r: OpenAiProvider)
        ensures
            r.key_text() == api_key@,
            r.model_text() == model@,
            r.base_text() == match base_url {
                Some(url) => url@,
                None => DEFAULT_BASE_URL@,
            },
            r.effort_text() == reasoning_effort@,
            r.context_tokens() == match context_limit {
                Some(limit) => limit,
                None => DEFAULT_CONTEXT_LIMIT,
            },
            r.timeout() == match request_timeout_secs {
                Some(secs) => secs,
                None => DEFAULT_REQUEST_TIMEOUT_SECS,
            },
    {
        let timeout_secs = match request_timeout_secs {
            Some(secs) => secs,
            None => DEFAULT_REQUEST_TIMEOUT_SECS,
        };
        let base_url = match base_url {
            Some(url) => url,
            None => DEFAULT_BASE_URL.to_owned(),
        };
        let context_limit = match context_limit {
            Some(limit) => limit,
            None => DEFAULT_CONTEXT_LIMIT,
        };
        OpenAiProvider { api_key, model, base_url, reasoning_effort, context_limit, timeout_secs }
    }

    /// How long a request may take, in seconds.
    pub fn request_timeout_secs(&self) -> (r: u64)
        ensures
            r == self.timeout(),
    {
        self.timeout_secs
    }

    /// The URL that requests are posted to.
    pub fn endpoint(&self) -> (r: String)
        ensures
            r@ == self.base_text() + "/responses"@,
    {
        let mut out = self.base_url.clone();
        out.push_str("/responses");
        out
    }

    /// The value of the `Authorization` header.
    pub fn authorization(&self) -> (r: String)
        ensures
            r@ == "Bearer "@ + self.key_text(),
    {
        let mut out: String = "Bearer ".to_owned();
        out.push_str(self.api_key.as_str());
        out
    }

    /// The body of a request.
    pub fn request_body(&self, request: LlmRequest) -> (r: ResponsesRequest)
        ensures
            r.model@ == self.model_text(),
            r.instructions == request.system_prompt,
            r.input == request.user_prompt,
            r.reasoning.effort@ == self.effort_text(),
            r.text.format.format_type@ == "json_schema"@,
            r.text.format.schema@ == REVIEW_OUTPUT_SCHEMA@,
            r.text.format.name@ == "review_output"@,
            r.text.format.strict,
            r.max_output_tokens == Some(request.max_tokens),
            r.stream,
    {
        ResponsesRequest {
            model: self.model.clone(),
            instructions: request.system_prompt,
            // The Responses API accepts either a string or an array of input items.
            // Since we have a single user message, a string is simpler and correct.
            input: request.user_prompt,
            reasoning: ReasoningConfig { effort: self.reasoning_effort.clone() },
            text: TextFormat {
                format: TextFormatType {
                    format_type: "json_schema".to_owned(),
                    schema: REVIEW_OUTPUT_SCHEMA.to_owned(),
                    name: "review_output".to_owned(),
                    strict: true,
                },
            },
            // Controls output length and prevents budget overruns
            max_output_tokens: Some(request.max_tokens),
            stream: true,
        }
    }
}

impl LlmProvider for OpenAiProvider {
    open spec fn provider_name(&self) -> Seq<char> {
        "openai"@
    }

    closed spec fn context_tokens(&self) -> u32 {
        self.context_limit
    }

    fn name(&self) -> (r: &'static str) {
        "openai"
    }

    fn max_context_tokens(&self) -> (r: u32) {
        self.context_limit
    }
}

// --- The status ---

/// What the status of a response says.
#[derive(Debug, Clone, Copy, PartialEq, Eq, Structural)]
pub enum StatusClass {
    /// The answer follows.
    Success,
    /// Too many requests.
    RateLimited,
    /// An error.
    Failure,
}

/// What the status of a response says.
pub open spec fn class_of(status: u16) -> StatusClass {
    if status == 429 {
        StatusClass::RateLimited
    } else if 200 <= status < 300 {
        StatusClass::Success
    } else {
        StatusClass::Failure
    }
}

/// What the status of a response says.
pub fn classify_status(status: u16) -> (r: StatusClass)
    ensures
        r == if status == 429 {
            StatusClass::RateLimited
        } else if 200 <= status < 300 {
            StatusClass::Success
        } else {
            StatusClass::Failure
        },
        r == class_of(status),
{
    if status == 429 {
        StatusClass::RateLimited
    } else if 200 <= status && status < 300 {
        StatusClass::Success
    } else {
        StatusClass::Failure
    }
}

/// The seconds to wait that a `retry-after` header gives: those that it writes as a number, else
/// the default.
pub open spec fn retry_after(header: Option<Seq<char>>) -> u32 {
    match header {
        Some(value) => match unsigned_value(value) {
            Some(secs) => if secs <= u32::MAX {
                secs as u32
            } else {
                DEFAULT_RETRY_AFTER_SECS
            },
            None => DEFAULT_RETRY_AFTER_SECS,
        },
        None => DEFAULT_RETRY_AFTER_SECS,
    }
}

/// The error that a response over the rate limit stands for, by its `retry-after` header.
pub fn rate_limit_error(header: &Option<String>) -> (r: LlmError)
    ensures
        r == (LlmError::RateLimited { retry_after_secs: retry_after(option_text(*header)) }),
{
    let retry_after_secs = match header {
        Some(value) => match parse_u32(value.as_str()) {
            Some(secs) => secs,
            None => DEFAULT_RETRY_AFTER_SECS,
        },
        None => DEFAULT_RETRY_AFTER_SECS,
    };
    LlmError::RateLimited { retry_after_secs }
}

/// The error object in the body of a response.
#[derive(Debug)]
pub struct ApiErrorBody {
    /// What went wrong.
    pub message: String,
    /// The kind of error, where it is given.
    pub error_type: Option<String>,
}

/// The error that a response with a failure status stands for.
pub open spec fn failure_of(status: u16, text: String, body: Option<ApiErrorBody>) -> LlmError {
    match body {
        Some(error) => if option_text(error.error_type) == Some("context_length_exceeded"@) {
            LlmError::ContextLengthExceeded(error.message)
        } else {
            LlmError::ApiError { status, message: error.message }
        },
        None => LlmError::ApiError { status, message: text },
    }
}

/// The error that a response with a failure status stands for: the one that its body describes,
/// where the body holds an error object, else the body itself.
pub fn failure_error(status: u16, text: String, body: Option<ApiErrorBody>) -> (r: LlmError)
    ensures
        r == match body {
            Some(error) => if option_text(error.error_type) == Some("context_length_exceeded"@) {
                LlmError::ContextLengthExceeded(error.message)
            } else {
                LlmError::ApiError { status, message: error.message }
            },
            None => LlmError::ApiError { status, message: text },
        },
        r == failure_of(status, text, body),
{
    match body {
        Some(error) => {
            let too_long = match &error.error_type {
                Some(kind) => same_text(kind.as_str(), "context_length_exceeded"),
                None => false,
            };
            if too_long {
                LlmError::ContextLengthExceeded(error.message)
            } else {
                LlmError::ApiError { status, message: error.message }
            }
        },
        None => LlmError::ApiError { status, message: text },
    }
}

// --- The stream ---

/// Streaming event from the Responses API.
#[derive(Debug)]
pub struct StreamEvent {
    /// What the event is.
    pub event_type: String,
    /// The text that it adds, where it adds some.
    pub delta: Option<String>,
}

/// What a line of the stream carries.
pub enum SseItem {
    /// The end of the stream.
    Done,
    /// The data of an event.
    Data(Seq<char>),
}

/// What a line of the stream carries, if anything: data follows `data: `, other lines carry
/// nothing.
pub open spec fn line_item(line: Seq<char>) -> Option<SseItem> {
    match without_prefix(trimmed(line), "data: "@) {
        Some(data) => if data == "[DONE]"@ {
            Some(SseItem::Done)
        } else {
            Some(SseItem::Data(data))
        },
        None => None,
    }
}

/// The first item that the complete lines of a buffer carry, and what is left of the buffer after
/// it. Without such an item, the complete lines are used up.
pub open spec fn next_item(buffer: Seq<char>) -> (Option<SseItem>, Seq<char>)
    decreases buffer.len(),
    via next_item_decreases
{
    let end = index_or_len(buffer, '\n');
    if end < buffer.len() {
        let rest = buffer.skip(end + 1);
        match line_item(buffer.take(end)) {
            Some(item) => (Some(item), rest),
            None => next_item(rest),
        }
    } else {
        (None, buffer)
    }
}

#[via_fn]
proof fn next_item_decreases(buffer: Seq<char>) {
    index_or_len_is_first(buffer, '\n');
}

/// What an event adds to the answer: the text of a delta, or the end; other events add nothing.
pub open spec fn chunk_of_event(event: StreamEvent) -> Option<(Seq<char>, bool)> {
    if event.event_type@ == "response.output_text.delta"@ {
        match event.delta {
            Some(delta) => Some((delta@, false)),
            None => None,
        }
    } else if event.event_type@ == "response.completed"@ || event.event_type@
        == "response.done"@ {
        Some((Seq::empty(), true))
    } else {
        None
    }
}

/// What data that a parser has read adds to the answer. Data that is no event adds nothing.
pub open spec fn chunk_of_parsed(event: Option<StreamEvent>) -> Option<(Seq<char>, bool)> {
    match event {
        Some(event) => chunk_of_event(event),
        None => None,
    }
}

/// Text and finality of each of a list of chunks.
pub open spec fn chunk_contents_of(chunks: Seq<StreamChunk>) -> Seq<(Seq<char>, bool)> {
    chunks.map_values(|c: StreamChunk| (c.text@, c.is_final))
}

/// What the parser may make of the data of an event.
pub open spec fn may_read_as<F: Fn(&str) -> Option<StreamEvent>>(
    parse: F,
    data: Seq<char>,
    event: Option<StreamEvent>,
) -> bool {
    exists|s: &str| s@ == data && #[trigger] parse.ensures((s,), event)
}

/// The complete lines of a buffer may give these chunks and leave this rest, by what the parser
/// makes of their data. Nothing is read beyond a final chunk.
pub open spec fn may_decode_to<F: Fn(&str) -> Option<StreamEvent>>(
    parse: F,
    buffer: Seq<char>,
    chunks: Seq<(Seq<char>, bool)>,
    rest: Seq<char>,
) -> bool
    decreases buffer.len(),
    via may_decode_to_decreases::<F>
{
    let (item, left) = next_item(buffer);
    match item {
        None => chunks.len() == 0 && rest == left,
        Some(SseItem::Done) => chunks == seq![(Seq::<char>::empty(), true)] && rest == left,
        Some(SseItem::Data(data)) => exists|event: Option<StreamEvent>| #[trigger]
            may_read_as(parse, data, event) && match chunk_of_parsed(event) {
                None => may_decode_to(parse, left, chunks, rest),
                Some(chunk) => chunks.len() > 0 && chunks[0] == chunk && if chunk.1 {
                    chunks.len() == 1 && rest == left
                } else {
                    may_decode_to(parse, left, chunks.drop_first(), rest)
                },
            },
    }
}

#[via_fn]
proof fn may_decode_to_decreases<F: Fn(&str) -> Option<StreamEvent>>(
    parse: F,
    buffer: Seq<char>,
    chunks: Seq<(Seq<char>, bool)>,
    rest: Seq<char>,
) {
    next_item_uses_lines(buffer);
}

/// The chunks that follow once the data of the first event was read.
spec fn decodes_after<F: Fn(&str) -> Option<StreamEvent>>(
    parse: F,
    event: Option<StreamEvent>,
    left: Seq<char>,
    chunks: Seq<(Seq<char>, bool)>,
    rest: Seq<char>,
) -> bool {
    match chunk_of_parsed(event) {
        None => may_decode_to(parse, left, chunks, rest),
        Some(chunk) => chunks.len() > 0 && chunks[0] == chunk && if chunk.1 {
            chunks.len() == 1 && rest == left
        } else {
            may_decode_to(parse, left, chunks.drop_first(), rest)
        },
    }
}

proof fn decode_event<F: Fn(&str) -> Option<StreamEvent>>(
    parse: F,
    buffer: Seq<char>,
    event: Option<StreamEvent>,
    chunks: Seq<(Seq<char>, bool)>,
    rest: Seq<char>,
)
    requires
        next_item(buffer).0 is Some,
        next_item(buffer).0->Some_0 is Data,
        may_read_as(parse, next_item(buffer).0->Some_0->Data_0, event),
        decodes_after(parse, event, next_item(buffer).1, chunks, rest),
    ensures
        may_decode_to(parse, buffer, chunks, rest),
{
    let (item, left) = next_item(buffer);
    let data = item->Some_0->Data_0;
    assert(item == Some(SseItem::Data(data)));
    assert(may_read_as(parse, data, event) && match chunk_of_parsed(event) {
        None => may_decode_to(parse, left, chunks, rest),
        Some(chunk) => chunks.len() > 0 && chunks[0] == chunk && if chunk.1 {
            chunks.len() == 1 && rest == left
        } else {
            may_decode_to(parse, left, chunks.drop_first(), rest)
        },
    });
}

proof fn next_item_uses_lines(buffer: Seq<char>)
    ensures
        next_item(buffer).0 is Some ==> next_item(buffer).1.len() < buffer.len(),
        next_item(buffer).1.len() <= buffer.len(),
    decreases buffer.len(),
{
    index_or_len_is_first(buffer, '\n');
    let end = index_or_len(buffer, '\n');
    if end < buffer.len() && line_item(buffer.take(end)) is None {
        next_item_uses_lines(buffer.skip(end + 1));
    }
}

/// Where the stream is cut into pieces does not matter: an item that is complete stays the first
/// when more text follows, and what carried no item before more text came is as if it had never
/// been there.
pub proof fn cuts_do_not_matter(buffer: Seq<char>, more: Seq<char>)
    ensures
        next_item(buffer).0 is Some ==> next_item(buffer + more) == (
            next_item(buffer).0,
            next_item(buffer).1 + more,
        ),
        next_item(buffer).0 is None ==> next_item(buffer + more) == next_item(
            next_item(buffer).1 + more,
        ),
    decreases buffer.len(),
{
    let end = index_or_len(buffer, '\n');
    index_or_len_is_first(buffer, '\n');
    if end < buffer.len() {
        index_or_len_is_first(buffer + more, '\n');
        assert((buffer + more)[end] == '\n');
        assert(forall|j: int| 0 <= j < end ==> (buffer + more)[j] == buffer[j]);
        assert(index_or_len(buffer + more, '\n') == end);
        assert((buffer + more).take(end) =~= buffer.take(end));
        assert((buffer + more).skip(end + 1) =~= buffer.skip(end + 1) + more);
        if line_item(buffer.take(end)) is None {
            cuts_do_not_matter(buffer.skip(end + 1), more);
        }
    }
}

/// The event that was read first where a buffer decodes to chunks.
spec fn event_read<F: Fn(&str) -> Option<StreamEvent>>(
    parse: F,
    buffer: Seq<char>,
    chunks: Seq<(Seq<char>, bool)>,
    rest: Seq<char>,
) -> Option<StreamEvent> {
    let (item, left) = next_item(buffer);
    let data = item->Some_0->Data_0;
    choose|event: Option<StreamEvent>| #[trigger]
        may_read_as(parse, data, event) && match chunk_of_parsed(event) {
            None => may_decode_to(parse, left, chunks, rest),
            Some(chunk) => chunks.len() > 0 && chunks[0] == chunk && if chunk.1 {
                chunks.len() == 1 && rest == left
            } else {
                may_decode_to(parse, left, chunks.drop_first(), rest)
            },
        }
}

proof fn event_was_read<F: Fn(&str) -> Option<StreamEvent>>(
    parse: F,
    buffer: Seq<char>,
    chunks: Seq<(Seq<char>, bool)>,
    rest: Seq<char>,
)
    requires
        may_decode_to(parse, buffer, chunks, rest),
        next_item(buffer).0 is Some,
        next_item(buffer).0->Some_0 is Data,
    ensures
        may_read_as(
            parse,
            next_item(buffer).0->Some_0->Data_0,
            event_read(parse, buffer, chunks, rest),
        ),
        decodes_after(
            parse,
            event_read(parse, buffer, chunks, rest),
            next_item(buffer).1,
            chunks,
            rest,
        ),
{
    let (item, left) = next_item(buffer);
    let data = item->Some_0->Data_0;
    assert(item == Some(SseItem::Data(data)));
    assert(exists|event: Option<StreamEvent>| #[trigger]
        may_read_as(parse, data, event) && match chunk_of_parsed(event) {
            None => may_decode_to(parse, left, chunks, rest),
            Some(chunk) => chunks.len() > 0 && chunks[0] == chunk && if chunk.1 {
                chunks.len() == 1 && rest == left
            } else {
                may_decode_to(parse, left, chunks.drop_first(), rest)
            },
        });
}

/// The chunks end in a final one.
pub open spec fn has_end(chunks: Seq<(Seq<char>, bool)>) -> bool {
    chunks.len() > 0 && chunks.last().1
}

/// Only the last chunk of a decoded answer is final, and a final chunk has no text.
pub proof fn only_last_chunk_is_final<F: Fn(&str) -> Option<StreamEvent>>(
    parse: F,
    buffer: Seq<char>,
    chunks: Seq<(Seq<char>, bool)>,
    rest: Seq<char>,
)
    requires
        may_decode_to(parse, buffer, chunks, rest),
    ensures
        forall|i: int| 0 <= i < chunks.len() - 1 ==> !(#[trigger] chunks[i]).1,
        has_end(chunks) ==> chunks.last().0 == Seq::<char>::empty(),
    decreases buffer.len(),
{
    next_item_uses_lines(buffer);
    let (item, left) = next_item(buffer);
    if let Some(SseItem::Data(data)) = item {
        event_was_read(parse, buffer, chunks, rest);
        match chunk_of_parsed(event_read(parse, buffer, chunks, rest)) {
            None => {
                only_last_chunk_is_final(parse, left, chunks, rest);
            },
            Some(chunk) => {
                if !chunk.1 {
                    let later = chunks.drop_first();
                    only_last_chunk_is_final(parse, left, later, rest);
                    assert forall|i: int| 0 <= i < chunks.len() - 1 implies !(
                    #[trigger] chunks[i]).1 by {
                        if i > 0 {
                            assert(chunks[i] == later[i - 1]);
                        }
                    }
                    if chunks.len() > 1 {
                        assert(chunks.last() == later.last());
                    }
                }
            },
        }
    }
}

proof fn rest_holds_no_item(buffer: Seq<char>)
    ensures
        next_item(buffer).0 is None ==> next_item(next_item(buffer).1) == next_item(buffer),
    decreases buffer.len(),
{
    index_or_len_is_first(buffer, '\n');
    let end = index_or_len(buffer, '\n');
    if end < buffer.len() && line_item(buffer.take(end)) is None {
        rest_holds_no_item(buffer.skip(end + 1));
    }
}

/// Without a final chunk, all complete lines are read.
pub proof fn all_lines_are_read<F: Fn(&str) -> Option<StreamEvent>>(
    parse: F,
    buffer: Seq<char>,
    chunks: Seq<(Seq<char>, bool)>,
    rest: Seq<char>,
)
    requires
        may_decode_to(parse, buffer, chunks, rest),
        !has_end(chunks),
    ensures
        next_item(rest) == (None::<SseItem>, rest),
    decreases buffer.len(),
{
    next_item_uses_lines(buffer);
    let (item, left) = next_item(buffer);
    match item {
        None => {
            rest_holds_no_item(buffer);
        },
        Some(SseItem::Done) => {},
        Some(SseItem::Data(data)) => {
            event_was_read(parse, buffer, chunks, rest);
            match chunk_of_parsed(event_read(parse, buffer, chunks, rest)) {
                None => {
                    all_lines_are_read(parse, left, chunks, rest);
                },
                Some(chunk) => {
                    let later = chunks.drop_first();
                    if later.len() > 0 {
                        assert(chunks.last() == later.last());
                    }
                    all_lines_are_read(parse, left, later, rest);
                },
            }
        },
    }
}

/// Reading a part of the stream, and then what was left of it together with what came after, is
/// reading the whole: the chunks of the whole are those of the part followed by the others. Where
/// the part has a final chunk, it has all the chunks.
pub proof fn parts_give_the_whole<F: Fn(&str) -> Option<StreamEvent>>(
    parse: F,
    a: Seq<char>,
    b: Seq<char>,
    first: Seq<(Seq<char>, bool)>,
    left: Seq<char>,
    second: Seq<(Seq<char>, bool)>,
    rest: Seq<char>,
)
    requires
        may_decode_to(parse, a, first, left),
    ensures
        has_end(first) ==> may_decode_to(parse, a + b, first, left + b),
        !has_end(first) && may_decode_to(parse, left + b, second, rest) ==> may_decode_to(
            parse,
            a + b,
            first + second,
            rest,
        ),
    decreases a.len(),
{
    next_item_uses_lines(a);
    cuts_do_not_matter(a, b);
    let (item, after) = next_item(a);
    match item {
        None => {
            assert(first + second =~= second);
        },
        Some(SseItem::Done) => {},
        Some(SseItem::Data(data)) => {
            event_was_read(parse, a, first, left);
            let event = event_read(parse, a, first, left);
            match chunk_of_parsed(event) {
                None => {
                    parts_give_the_whole(parse, after, b, first, left, second, rest);
                    if has_end(first) {
                        decode_event(parse, a + b, event, first, left + b);
                    } else if may_decode_to(parse, left + b, second, rest) {
                        decode_event(parse, a + b, event, first + second, rest);
                    }
                },
                Some(chunk) => {
                    if chunk.1 {
                        decode_event(parse, a + b, event, first, left + b);
                    } else {
                        let later = first.drop_first();
                        if later.len() > 0 {
                            assert(first.last() == later.last());
                        }
                        parts_give_the_whole(parse, after, b, later, left, second, rest);
                        if has_end(first) {
                            decode_event(parse, a + b, event, first, left + b);
                        } else if may_decode_to(parse, left + b, second, rest) {
                            assert((first + second).drop_first() =~= later + second);
                            decode_event(parse, a + b, event, first + second, rest);
                        }
                    }
                },
            }
        },
    }
}

/// The chunks of a stream come from its two parts: those of the first, up to the final one, and
/// where there is no final one among them, those of what was left together with the second.
pub open spec fn come_from_parts<F: Fn(&str) -> Option<StreamEvent>>(
    parse: F,
    a: Seq<char>,
    b: Seq<char>,
    chunks: Seq<(Seq<char>, bool)>,
    rest: Seq<char>,
    first: Seq<(Seq<char>, bool)>,
    left: Seq<char>,
) -> bool {
    &&& may_decode_to(parse, a, first, left)
    &&& first.is_prefix_of(chunks)
    &&& if has_end(first) {
        chunks == first && rest == left + b
    } else {
        may_decode_to(parse, left + b, chunks.skip(first.len() as int), rest)
    }
}

/// Whatever is read from the whole of a stream is read from it in two parts, wherever it is cut.
pub proof fn the_whole_gives_parts<F: Fn(&str) -> Option<StreamEvent>>(
    parse: F,
    a: Seq<char>,
    b: Seq<char>,
    chunks: Seq<(Seq<char>, bool)>,
    rest: Seq<char>,
)
    requires
        may_decode_to(parse, a + b, chunks, rest),
    ensures
        exists|first: Seq<(Seq<char>, bool)>, left: Seq<char>|
            come_from_parts(parse, a, b, chunks, rest, first, left),
    decreases a.len(),
{
    next_item_uses_lines(a);
    cuts_do_not_matter(a, b);
    let (item, after) = next_item(a);
    match item {
        None => {
            let none = Seq::<(Seq<char>, bool)>::empty();
            assert(chunks.skip(0) =~= chunks);
            assert(may_decode_to(parse, after + b, chunks, rest));
            assert(come_from_parts(parse, a, b, chunks, rest, none, after));
        },
        Some(SseItem::Done) => {
            assert(come_from_parts(parse, a, b, chunks, rest, chunks, after));
        },
        Some(SseItem::Data(data)) => {
            event_was_read(parse, a + b, chunks, rest);
            let event = event_read(parse, a + b, chunks, rest);
            match chunk_of_parsed(event) {
                None => {
                    the_whole_gives_parts(parse, after, b, chunks, rest);
                    let (first, left) = choose|first: Seq<(Seq<char>, bool)>, left: Seq<char>|
                        come_from_parts(parse, after, b, chunks, rest, first, left);
                    decode_event(parse, a, event, first, left);
                    assert(come_from_parts(parse, a, b, chunks, rest, first, left));
                },
                Some(chunk) => {
                    if chunk.1 {
                        decode_event(parse, a, event, chunks, after);
                        assert(come_from_parts(parse, a, b, chunks, rest, chunks, after));
                    } else {
                        let later = chunks.drop_first();
                        the_whole_gives_parts(parse, after, b, later, rest);
                        let (first, left) = choose|first: Seq<(Seq<char>, bool)>, left: Seq<char>|
                            come_from_parts(parse, after, b, later, rest, first, left);
                        let longer = seq![chunk] + first;
                        assert(longer.drop_first() =~= first);
                        if first.len() > 0 {
                            assert(longer.last() == first.last());
                        }
                        decode_event(parse, a, event, longer, left);
                        assert(chunks =~= seq![chunk] + later);
                        assert(chunks.skip(longer.len() as int) =~= later.skip(first.len() as int));
                        assert(longer.is_prefix_of(chunks));
                        if has_end(first) {
                            assert(chunks =~= longer);
                        }
                        assert(come_from_parts(parse, a, b, chunks, rest, longer, left));
                    }
                },
            }
        },
    }
}

/// The final chunk, which has no text.
pub open spec fn end_chunk() -> (Seq<char>, bool) {
    (Seq::empty(), true)
}

/// The chunks, with a final one added where there is none.
pub open spec fn with_end(chunks: Seq<(Seq<char>, bool)>) -> Seq<(Seq<char>, bool)> {
    if has_end(chunks) {
        chunks
    } else {
        chunks.push(end_chunk())
    }
}

/// The text of a body that arrives in pieces.
pub open spec fn joined_pieces(pieces: Seq<Seq<char>>) -> Seq<char>
    decreases pieces.len(),
{
    if pieces.len() == 0 {
        Seq::empty()
    } else {
        pieces[0] + joined_pieces(pieces.drop_first())
    }
}

/// The answer that a decoder with the given buffer may give to a body that arrives in pieces: each
/// piece is pushed and the buffer drained, up to a final chunk, and at the end of the body the
/// decoder is finished.
pub open spec fn may_answer<F: Fn(&str) -> Option<StreamEvent>>(
    parse: F,
    buffer: Seq<char>,
    pieces: Seq<Seq<char>>,
    answer: Seq<(Seq<char>, bool)>,
) -> bool
    decreases pieces.len(),
{
    if pieces.len() == 0 {
        answer == seq![end_chunk()]
    } else {
        exists|got: Seq<(Seq<char>, bool)>, rest: Seq<char>| #[trigger]
            may_decode_to(parse, buffer + pieces[0], got, rest) && got.is_prefix_of(answer)
                && if has_end(got) {
                answer == got
            } else {
                may_answer(parse, rest, pieces.drop_first(), answer.skip(got.len() as int))
            }
    }
}

/// The answer is what the whole body decodes to, with an end.
pub open spec fn is_answer_to<F: Fn(&str) -> Option<StreamEvent>>(
    parse: F,
    body: Seq<char>,
    answer: Seq<(Seq<char>, bool)>,
) -> bool {
    exists|got: Seq<(Seq<char>, bool)>, rest: Seq<char>| #[trigger]
        may_decode_to(parse, body, got, rest) && answer == with_end(got)
}

/// How a body is cut into pieces makes no difference to the answer, which is what the whole body
/// decodes to, with a final chunk where the body had none.
pub proof fn answer_is_that_of_the_body<F: Fn(&str) -> Option<StreamEvent>>(
    parse: F,
    pieces: Seq<Seq<char>>,
    answer: Seq<(Seq<char>, bool)>,
)
    ensures
        may_answer(parse, Seq::empty(), pieces, answer) <==> is_answer_to(
            parse,
            joined_pieces(pieces),
            answer,
        ),
{
    let none = Seq::<char>::empty();
    assert(none + joined_pieces(pieces) =~= joined_pieces(pieces));
    if may_answer(parse, none, pieces, answer) {
        pieces_answer_as_whole(parse, none, pieces, answer);
    }
    if is_answer_to(parse, joined_pieces(pieces), answer) {
        whole_answers_as_pieces(parse, none, pieces, answer);
    }
}

proof fn pieces_answer_as_whole<F: Fn(&str) -> Option<StreamEvent>>(
    parse: F,
    buffer: Seq<char>,
    pieces: Seq<Seq<char>>,
    answer: Seq<(Seq<char>, bool)>,
)
    requires
        next_item(buffer) == (None::<SseItem>, buffer),
        may_answer(parse, buffer, pieces, answer),
    ensures
        is_answer_to(parse, buffer + joined_pieces(pieces), answer),
    decreases pieces.len(),
{
    let whole = buffer + joined_pieces(pieces);
    if pieces.len() == 0 {
        let none = Seq::<(Seq<char>, bool)>::empty();
        assert(whole =~= buffer);
        assert(may_decode_to(parse, whole, none, buffer));
        assert(answer =~= with_end(none));
    } else {
        let (got, rest) = choose|got: Seq<(Seq<char>, bool)>, rest: Seq<char>| #[trigger]
            may_decode_to(parse, buffer + pieces[0], got, rest) && got.is_prefix_of(answer)
                && if has_end(got) {
                answer == got
            } else {
                may_answer(parse, rest, pieces.drop_first(), answer.skip(got.len() as int))
            };
        let more = joined_pieces(pieces.drop_first());
        assert(whole =~= buffer + pieces[0] + more);
        if has_end(got) {
            parts_give_the_whole(parse, buffer + pieces[0], more, got, rest, got, rest);
            assert(may_decode_to(parse, whole, got, rest + more));
        } else {
            let later = answer.skip(got.len() as int);
            all_lines_are_read(parse, buffer + pieces[0], got, rest);
            pieces_answer_as_whole(parse, rest, pieces.drop_first(), later);
            let (second, end) = choose|second: Seq<(Seq<char>, bool)>, end: Seq<char>| #[trigger]
                may_decode_to(parse, rest + more, second, end) && later == with_end(second);
            parts_give_the_whole(parse, buffer + pieces[0], more, got, rest, second, end);
            assert(may_decode_to(parse, whole, got + second, end));
            if second.len() > 0 {
                assert((got + second).last() == second.last());
            } else {
                assert(got + second =~= got);
            }
            assert(answer =~= got + later);
            assert(answer =~= with_end(got + second));
        }
    }
}

proof fn whole_answers_as_pieces<F: Fn(&str) -> Option<StreamEvent>>(
    parse: F,
    buffer: Seq<char>,
    pieces: Seq<Seq<char>>,
    answer: Seq<(Seq<char>, bool)>,
)
    requires
        next_item(buffer) == (None::<SseItem>, buffer),
        is_answer_to(parse, buffer + joined_pieces(pieces), answer),
    ensures
        may_answer(parse, buffer, pieces, answer),
    decreases pieces.len(),
{
    let whole = buffer + joined_pieces(pieces);
    let (all, end) = choose|all: Seq<(Seq<char>, bool)>, end: Seq<char>| #[trigger]
        may_decode_to(parse, whole, all, end) && answer == with_end(all);
    if pieces.len() == 0 {
        assert(whole =~= buffer);
        assert(answer =~= seq![end_chunk()]);
    } else {
        let part = buffer + pieces[0];
        let more = joined_pieces(pieces.drop_first());
        assert(whole =~= part + more);
        the_whole_gives_parts(parse, part, more, all, end);
        let (got, rest) = choose|got: Seq<(Seq<char>, bool)>, rest: Seq<char>|
            come_from_parts(parse, part, more, all, end, got, rest);
        if !has_end(got) {
            let second = all.skip(got.len() as int);
            assert(may_decode_to(parse, rest + more, second, end));
            all_lines_are_read(parse, part, got, rest);
            if second.len() > 0 {
                assert(all.last() == second.last());
            } else {
                assert(all =~= got);
            }
            assert(answer.skip(got.len() as int) =~= with_end(second));
            assert(is_answer_to(parse, rest + more, with_end(second)));
            whole_answers_as_pieces(parse, rest, pieces.drop_first(), with_end(second));
        }
        assert(got.is_prefix_of(answer));
        assert(may_decode_to(parse, buffer + pieces[0], got, rest));
    }
}

/// Every answer ends in one final chunk, which has no text, and holds no other.
pub proof fn answer_ends_once<F: Fn(&str) -> Option<StreamEvent>>(
    parse: F,
    pieces: Seq<Seq<char>>,
    answer: Seq<(Seq<char>, bool)>,
)
    requires
        may_answer(parse, Seq::empty(), pieces, answer),
    ensures
        answer.len() > 0,
        answer.last() == end_chunk(),
        forall|i: int| 0 <= i < answer.len() - 1 ==> !(#[trigger] answer[i]).1,
{
    answer_is_that_of_the_body(parse, pieces, answer);
    let (got, rest) = choose|got: Seq<(Seq<char>, bool)>, rest: Seq<char>| #[trigger]
        may_decode_to(parse, joined_pieces(pieces), got, rest) && answer == with_end(got);
    only_last_chunk_is_final(parse, joined_pieces(pieces), got, rest);
}

/// What to do next with a streamed response.
#[derive(Debug)]
pub enum SseStep {
    /// Wait for more bytes.
    NeedBytes,
    /// Read the data of an event.
    Data(String),
    /// The stream is over.
    Done,
}

/// The part of a streamed response that has arrived and was not yet read.
#[derive(Debug)]
pub struct ResponseDecoder {
    buffer: String,
}

impl View for ResponseDecoder {
    type V = Seq<char>;

    closed spec fn view(&self) -> Seq<char> {
        self.buffer@
    }
}

impl ResponseDecoder {
    /// A decoder at the start of a stream.
    pub fn new() -> (r: ResponseDecoder)
        ensures
            r@ == Seq::<char>::empty(),
    {
        ResponseDecoder { buffer: String::new() }
    }

    /// Takes in bytes that have arrived. Where they are UTF-8, and so where they are ASCII, the
    /// text that they encode arrives.
    pub fn push(&mut self, bytes: &[u8])
        ensures
            final(self)@ == old(self)@ + lossy_text(bytes@),
            vstd::utf8::valid_utf8(bytes@) ==> final(self)@ == old(self)@
                + vstd::utf8::decode_utf8(bytes@),
            is_ascii(bytes@) ==> final(self)@ == old(self)@ + ascii_text(bytes@),
    {
        let text = from_utf8_lossy(bytes);
        proof {
            if is_ascii(bytes@) {
                ascii_is_utf8(bytes@);
            }
        }
        self.push_text(text.as_str());
    }

    /// Takes in text that has arrived.
    pub fn push_text(&mut self, text: &str)
        ensures
            final(self)@ == old(self)@ + text@,
    {
        self.buffer.push_str(text);
    }

    /// Reads up to the next item.
    pub fn next_step(&mut self) -> (r: SseStep)
        ensures
            final(self)@ == next_item(old(self)@).1,
            match r {
                SseStep::NeedBytes => next_item(old(self)@).0 is None,
                SseStep::Data(data) => next_item(old(self)@).0 == Some(SseItem::Data(data@)),
                SseStep::Done => next_item(old(self)@).0 == Some(SseItem::Done),
            },
    {
        let chars = to_chars(self.buffer.as_str());
        let mut at: usize = 0;
        assert(chars@.skip(0) =~= chars@);
        loop
            invariant
                chars@ == old(self)@,
                at <= chars@.len(),
                next_item(chars@) == next_item(chars@.skip(at as int)),
            decreases chars.len() - at,
        {
            let end = position(chars.as_slice(), '\n', at);
            let ghost left = chars@.skip(at as int);
            proof {
                index_or_len_is_first(left, '\n');
            }
            if end == chars.len() {
                self.buffer = text_of(chars.as_slice(), at, chars.len());
                assert(self.buffer@ =~= left);
                return SseStep::NeedBytes;
            }
            let line = trim(chars_of(chars.as_slice(), at, end).as_slice());
            assert(chars@.subrange(at as int, end as int) =~= left.take(end - at));
            assert(left.skip(end - at + 1) =~= chars@.skip(end + 1));
            match strip_prefix(line.as_str(), "data: ") {
                Some(data) => {
                    self.buffer = text_of(chars.as_slice(), end + 1, chars.len());
                    assert(self.buffer@ =~= chars@.skip(end + 1));
                    if same_text(data.as_str(), "[DONE]") {
                        return SseStep::Done;
                    }
                    return SseStep::Data(data);
                },
                None => {},
            }
            at = end + 1;
        }
    }

    /// Reads all complete lines, up to a final chunk, and gives the chunks that they carry.
    pub fn drain<F: Fn(&str) -> Option<StreamEvent>>(&mut self, parse: F) -> (r: Vec<StreamChunk>)
        requires
            forall|s: &str| parse.requires((s,)),
        ensures
            may_decode_to(parse, old(self)@, chunk_contents_of(r@), final(self)@),
    {
        let mut out: Vec<StreamChunk> = Vec::new();
        let ghost start = self@;
        assert(chunk_contents_of(out@) =~= Seq::<(Seq<char>, bool)>::empty());
        assert forall|x: Seq<(Seq<char>, bool)>, rest: Seq<char>|
            may_decode_to(parse, self@, x, rest) implies #[trigger] may_decode_to(
            parse,
            start,
            chunk_contents_of(out@) + x,
            rest,
        ) by {
            assert(chunk_contents_of(out@) + x =~= x);
        }
        loop
            invariant
                forall|s: &str| parse.requires((s,)),
                start == old(self)@,
                forall|x: Seq<(Seq<char>, bool)>, rest: Seq<char>|
                    may_decode_to(parse, self@, x, rest) ==> #[trigger] may_decode_to(
                        parse,
                        start,
                        chunk_contents_of(out@) + x,
                        rest,
                    ),
            decreases self@.len(),
        {
            let ghost buffer = self@;
            let ghost before = chunk_contents_of(out@);
            proof {
                next_item_uses_lines(buffer);
            }
            match self.next_step() {
                SseStep::NeedBytes => {
                    let ghost none = Seq::<(Seq<char>, bool)>::empty();
                    assert(may_decode_to(parse, buffer, none, self@));
                    assert(may_decode_to(parse, start, before + none, self@));
                    assert(before + none =~= before);
                    return out;
                },
                SseStep::Done => {
                    let ghost last = seq![(Seq::<char>::empty(), true)];
                    out.push(StreamChunk { text: String::new(), is_final: true });
                    assert(may_decode_to(parse, buffer, last, self@));
                    assert(may_decode_to(parse, start, before + last, self@));
                    assert(chunk_contents_of(out@) =~= before + last);
                    return out;
                },
                SseStep::Data(data) => {
                    let event = parse(data.as_str());
                    assert(may_read_as(parse, data@, event));
                    match chunk_of(event) {
                        None => {
                            assert forall|x: Seq<(Seq<char>, bool)>, rest: Seq<char>|
                                may_decode_to(parse, self@, x, rest) implies #[trigger]
                            may_decode_to(parse, start, before + x, rest) by {
                                decode_event(parse, buffer, event, x, rest);
                            }
                        },
                        Some(chunk) => {
                            let is_final = chunk.is_final;
                            let ghost head = (chunk.text@, chunk.is_final);
                            out.push(chunk);
                            assert(chunk_contents_of(out@) =~= before.push(head));
                            if is_final {
                                let ghost last = seq![head];
                                proof {
                                    decode_event(parse, buffer, event, last, self@);
                                }
                                assert(may_decode_to(parse, start, before + last, self@));
                                assert(before + last =~= before.push(head));
                                return out;
                            }
                            assert forall|x: Seq<(Seq<char>, bool)>, rest: Seq<char>|
                                may_decode_to(parse, self@, x, rest) implies #[trigger]
                            may_decode_to(parse, start, chunk_contents_of(out@) + x, rest) by {
                                let longer = seq![head] + x;
                                assert(longer.drop_first() =~= x);
                                decode_event(parse, buffer, event, longer, rest);
                                assert(may_decode_to(parse, start, before + longer, rest));
                                assert(before + longer =~= before.push(head) + x);
                            }
                        },
                    }
                },
            }
        }
    }

    /// Ends the stream when no more bytes come: the final chunk, unless there already was one. A
    /// line that was not completed carries nothing.
    pub fn finish(self, seen_final: bool) -> (r: Option<StreamChunk>)
        ensures
            match r {
                Some(chunk) => !seen_final && chunk.text@ == Seq::<char>::empty() && chunk.is_final,
                None => seen_final,
            },
    {
        if seen_final {
            None
        } else {
            let text: String = String::new();
            assert(text@ =~= Seq::<char>::empty());
            Some(StreamChunk { text, is_final: true })
        }
    }
}

/// What data that a parser has read adds to the answer.
pub fn chunk_of(event: Option<StreamEvent>) -> (r: Option<StreamChunk>)
    ensures
        match r {
            Some(chunk) => chunk_of_parsed(event) == Some((chunk.text@, chunk.is_final)),
            None => chunk_of_parsed(event) is None,
        },
        r is Some && r->Some_0.is_final <==> event is Some && ends_answer(event->Some_0),
        r is Some && !r->Some_0.is_final <==> event is Some && adds_text(event->Some_0),
        event is Some && adds_text(event->Some_0) ==> r is Some && Some(r->Some_0.text)
            == event->Some_0.delta,
{
    proof {
        event_types_differ();
    }
    match event {
        Some(event) => {
            if same_text(event.event_type.as_str(), "response.output_text.delta") {
                match event.delta {
                    Some(delta) => Some(StreamChunk { text: delta, is_final: false }),
                    None => None,
                }
            } else if same_text(event.event_type.as_str(), "response.completed") || same_text(
                event.event_type.as_str(),
                "response.done",
            ) {
                let text: String = String::new();
                assert(text@ =~= Seq::<char>::empty());
                Some(StreamChunk { text, is_final: true })
            } else {
                // Ignore other event types (reasoning, metadata, etc.)
                None
            }
        },
        None => None,
    }
}

// --- What the events of a stream give ---

/// The event ends the answer: its type is one of the two that say so.
pub open spec fn ends_answer(event: StreamEvent) -> bool {
    seq!["response.completed"@, "response.done"@].contains(event.event_type@)
}

/// The event adds text to the answer: its type is that of a delta, and it has one.
pub open spec fn adds_text(event: StreamEvent) -> bool {
    event.event_type@ == "response.output_text.delta"@ && event.delta is Some
}

proof fn event_types_differ()
    ensures
        "response.output_text.delta"@ != "response.completed"@,
        "response.output_text.delta"@ != "response.done"@,
        forall|event: StreamEvent| #[trigger]
            ends_answer(event) <==> event.event_type@ == "response.completed"@ || event.event_type@
                == "response.done"@,
{
    reveal_strlit("response.output_text.delta");
    reveal_strlit("response.completed");
    reveal_strlit("response.done");
    assert("response.output_text.delta"@.len() == 26);
    assert("response.completed"@.len() == 18);
    assert("response.done"@.len() == 13);
    let ends = seq!["response.completed"@, "response.done"@];
    assert(ends[0] == "response.completed"@ && ends[1] == "response.done"@);
}

/// An event gives a final chunk exactly if its type is one of the two that end the answer, and its
/// delta exactly if it adds text. All other events give nothing.
pub proof fn event_gives_text_or_end_or_nothing(event: StreamEvent)
    ensures
        ends_answer(event) ==> chunk_of_event(event) == Some((Seq::<char>::empty(), true)),
        adds_text(event) ==> chunk_of_event(event) == Some((event.delta->Some_0@, false)),
        !ends_answer(event) && !adds_text(event) ==> chunk_of_event(event) is None,
{
    event_types_differ();
}

/// What a line carries by its text alone: nothing, unless it begins with `data: ` once the white
/// space around it is gone; and then what follows, or the end where that is `[DONE]`.
pub proof fn line_carries_what_follows_data(line: Seq<char>)
    ensures
        ({
            let text = trimmed(line);
            &&& line_item(line) is None <==> text.len() < 6 || text.take(6) != seq![
                'd',
                'a',
                't',
                'a',
                ':',
                ' ',
            ]
            &&& line_item(line) == Some(SseItem::Done) <==> text == "data: [DONE]"@
            &&& forall|data: Seq<char>|
                line_item(line) == Some(SseItem::Data(data)) <==> text == #[trigger] ("data: "@
                    + data) && data != "[DONE]"@
        }),
{
    let text = trimmed(line);
    reveal_strlit("data: ");
    reveal_strlit("[DONE]");
    reveal_strlit("data: [DONE]");
    let prefix = "data: "@;
    assert(prefix =~= seq!['d', 'a', 't', 'a', ':', ' ']);
    assert("data: [DONE]"@ =~= prefix + "[DONE]"@);
    if text.len() >= 6 && text.take(6) == prefix {
        assert(prefix.is_prefix_of(text));
        assert(text =~= prefix + text.skip(6));
    }
    if prefix.is_prefix_of(text) {
        assert(text.take(6) =~= prefix);
        assert(text =~= prefix + text.skip(6));
    }
    assert forall|data: Seq<char>|
        line_item(line) == Some(SseItem::Data(data)) <==> text == #[trigger] ("data: "@ + data)
            && data != "[DONE]"@ by {
        if text == prefix + data {
            assert(prefix.is_prefix_of(text));
            assert(text.skip(6) =~= data);
        }
    }
    if text == "data: [DONE]"@ {
        assert(prefix.is_prefix_of(text));
        assert(text.skip(6) =~= "[DONE]"@);
    }
}

/// The first complete line of a buffer is read first: where it carries something, that is the next
/// item and the rest of the buffer is left; else the next item is that of the rest. A buffer
/// without a complete line has no item, and stays.
pub proof fn lines_are_read_in_order(line: Seq<char>, rest: Seq<char>)
    requires
        !line.contains('\n'),
    ensures
        next_item(line) == (None::<SseItem>, line),
        next_item(line + seq!['\n'] + rest) == match line_item(line) {
            Some(item) => (Some(item), rest),
            None => next_item(rest),
        },
{
    index_or_len_is_first(line, '\n');
    let end = index_or_len(line, '\n');
    if end < line.len() {
        assert(line[end] == '\n');
        assert(line.contains('\n'));
    }
    let buffer = line + seq!['\n'] + rest;
    index_or_len_is_first(buffer, '\n');
    let at = index_or_len(buffer, '\n');
    assert(buffer[line.len() as int] == '\n');
    if at < line.len() {
        assert(buffer[at] == line[at]);
        assert(line.contains('\n'));
    }
    assert(at == line.len());
    assert(buffer.take(at) =~= line);
    assert(buffer.skip(at + 1) =~= rest);
}

/// The items that the complete lines of a buffer carry.
pub open spec fn items_of(buffer: Seq<char>) -> Seq<SseItem>
    decreases buffer.len(),
    via items_of_decreases
{
    match next_item(buffer).0 {
        Some(item) => seq![item] + items_of(next_item(buffer).1),
        None => Seq::empty(),
    }
}

#[via_fn]
proof fn items_of_decreases(buffer: Seq<char>) {
    next_item_uses_lines(buffer);
}

/// The item ends the answer: it is the end marker, or an event whose type says so.
pub open spec fn item_ends(
    item: SseItem,
    reads: spec_fn(Seq<char>) -> Option<StreamEvent>,
) -> bool {
    match item {
        SseItem::Done => true,
        SseItem::Data(data) => reads(data) is Some && ends_answer(reads(data)->Some_0),
    }
}

/// The text that an item adds to the answer.
pub open spec fn item_text(item: SseItem, reads: spec_fn(Seq<char>) -> Option<StreamEvent>) -> Seq<
    char,
> {
    match item {
        SseItem::Done => Seq::empty(),
        SseItem::Data(data) => if reads(data) is Some && adds_text(reads(data)->Some_0) {
            reads(data)->Some_0.delta->Some_0@
        } else {
            Seq::empty()
        },
    }
}

/// The deltas of all items before the first that ends the answer, one after the other.
pub open spec fn text_before_end(
    items: Seq<SseItem>,
    reads: spec_fn(Seq<char>) -> Option<StreamEvent>,
) -> Seq<char>
    decreases items.len(),
{
    if items.len() == 0 || item_ends(items[0], reads) {
        Seq::empty()
    } else {
        item_text(items[0], reads) + text_before_end(items.drop_first(), reads)
    }
}

/// The texts of chunks, one after the other.
pub open spec fn chunks_text(chunks: Seq<(Seq<char>, bool)>) -> Seq<char>
    decreases chunks.len(),
{
    if chunks.len() == 0 {
        Seq::empty()
    } else {
        chunks[0].0 + chunks_text(chunks.drop_first())
    }
}

/// The text of a decoded answer is that of the deltas of all events before the first that ends the
/// answer, in their order, and the answer is ended exactly if there is such an event. This goes by
/// whatever the parser makes of the data of an event.
pub proof fn answer_is_the_deltas_before_the_end<F: Fn(&str) -> Option<StreamEvent>>(
    parse: F,
    reads: spec_fn(Seq<char>) -> Option<StreamEvent>,
    buffer: Seq<char>,
    chunks: Seq<(Seq<char>, bool)>,
    rest: Seq<char>,
)
    requires
        forall|data: Seq<char>, event: Option<StreamEvent>| #[trigger]
            may_read_as(parse, data, event) ==> event == reads(data),
        may_decode_to(parse, buffer, chunks, rest),
    ensures
        chunks_text(chunks) == text_before_end(items_of(buffer), reads),
        has_end(chunks) <==> exists|i: int|
            0 <= i < items_of(buffer).len() && item_ends(#[trigger] items_of(buffer)[i], reads),
    decreases buffer.len(),
{
    next_item_uses_lines(buffer);
    let items = items_of(buffer);
    let (item, left) = next_item(buffer);
    match item {
        None => {},
        Some(SseItem::Done) => {
            assert(items[0] == SseItem::Done);
            assert(chunks.drop_first() =~= Seq::<(Seq<char>, bool)>::empty());
            assert(chunks_text(chunks.drop_first()) =~= Seq::<char>::empty());
            assert(chunks_text(chunks) =~= Seq::<char>::empty());
        },
        Some(SseItem::Data(data)) => {
            event_was_read(parse, buffer, chunks, rest);
            let event = event_read(parse, buffer, chunks, rest);
            assert(event == reads(data));
            assert(items[0] == SseItem::Data(data));
            let later = items_of(left);
            assert(items.drop_first() =~= later);
            assert(forall|i: int| 0 < i < items.len() ==> items[i] == #[trigger] later[i - 1]);
            assert(forall|i: int| 0 <= i < later.len() ==> items[i + 1] == #[trigger] later[i]);
            if event is Some {
                event_gives_text_or_end_or_nothing(event->Some_0);
            }
            match chunk_of_parsed(event) {
                None => {
                    answer_is_the_deltas_before_the_end(parse, reads, left, chunks, rest);
                    assert(item_text(items[0], reads) + text_before_end(later, reads)
                        =~= text_before_end(later, reads));
                },
                Some(chunk) => {
                    let others = chunks.drop_first();
                    if chunk.1 {
                        assert(others =~= Seq::<(Seq<char>, bool)>::empty());
                        assert(chunks_text(others) =~= Seq::<char>::empty());
                        assert(chunks_text(chunks) =~= Seq::<char>::empty());
                    } else {
                        answer_is_the_deltas_before_the_end(parse, reads, left, others, rest);
                        if others.len() > 0 {
                            assert(chunks.last() == others.last());
                        }
                    }
                },
            }
            if !item_ends(items[0], reads) {
                if exists|i: int| 0 <= i < items.len() && item_ends(#[trigger] items[i], reads) {
                    let i = choose|i: int|
                        0 <= i < items.len() && item_ends(#[trigger] items[i], reads);
                    assert(item_ends(later[i - 1], reads));
                }
                if exists|i: int| 0 <= i < later.len() && item_ends(#[trigger] later[i], reads) {
                    let i = choose|i: int|
                        0 <= i < later.len() && item_ends(#[trigger] later[i], reads);
                    assert(item_ends(items[i + 1], reads));
                }
            }
        },
    }
}

/// An item that ends the answer gives the one final chunk, and nothing is read beyond it.
pub proof fn nothing_is_read_beyond_the_end<F: Fn(&str) -> Option<StreamEvent>>(
    parse: F,
    reads: spec_fn(Seq<char>) -> Option<StreamEvent>,
    buffer: Seq<char>,
    chunks: Seq<(Seq<char>, bool)>,
    rest: Seq<char>,
)
    requires
        forall|data: Seq<char>, event: Option<StreamEvent>| #[trigger]
            may_read_as(parse, data, event) ==> event == reads(data),
        may_decode_to(parse, buffer, chunks, rest),
        next_item(buffer).0 is Some,
        item_ends(next_item(buffer).0->Some_0, reads),
    ensures
        chunks.len() == 1,
        chunks[0] == (Seq::<char>::empty(), true),
        rest == next_item(buffer).1,
{
    if let Some(SseItem::Data(data)) = next_item(buffer).0 {
        event_was_read(parse, buffer, chunks, rest);
        let event = event_read(parse, buffer, chunks, rest);
        event_gives_text_or_end_or_nothing(event->Some_0);
    }
}

/// How long a response asks to wait: a `retry-after` header that is a number of seconds is obeyed,
/// and any other, or none, stands for a minute.
pub proof fn rate_limit_is_obeyed(value: Seq<char>)
    ensures
        retry_after(None) == 60,
        unsigned_value(value) is None ==> retry_after(Some(value)) == 60,
        unsigned_value(value) is Some && unsigned_value(value)->Some_0 <= 0xffff_ffff
            ==> retry_after(Some(value)) == unsigned_value(value)->Some_0,
        unsigned_value(value) is Some && unsigned_value(value)->Some_0 > 0xffff_ffff
            ==> retry_after(Some(value)) == 60,
{
}

/// A list of chunks is told by the text of each and by which of them is final.
pub proof fn chunks_are_told_one_by_one(chunks: Seq<StreamChunk>, i: int)
    requires
        0 <= i < chunks.len(),
    ensures
        chunk_contents_of(chunks).len() == chunks.len(),
        chunk_contents_of(chunks)[i].0 == chunks[i].text@,
        chunk_contents_of(chunks)[i].1 == chunks[i].is_final,
{
}

/// What is taken where nothing is configured.
pub proof fn provider_defaults()
    ensures
        DEFAULT_BASE_URL@ == "https://api.openai.com/v1"@,
        DEFAULT_CONTEXT_LIMIT == 1_000_000,
        DEFAULT_REQUEST_TIMEOUT_SECS == 10 * 60,
        CONNECT_TIMEOUT_SECS == 30,
        DEFAULT_RETRY_AFTER_SECS == 60,
{
}

/// An answer follows exactly the statuses from 200 to 299; 429 asks to come back later, and all
/// others are failures.
pub proof fn statuses_are_told_apart(status: u16)
    ensures
        class_of(status) is Success <==> status as int / 100 == 2,
        class_of(status) is RateLimited <==> status == 429,
        class_of(status) is Failure <==> status as int / 100 != 2 && status != 429,
{
}

/// A failure says what the error object in the body says, and without one what the body says. Only
/// an object that says so stands for a request that is too long; any other failure keeps its status.
pub proof fn failures_say_what_the_body_says(
    status: u16,
    text: String,
    message: String,
    kind: String,
)
    ensures
        ({
            let plain = failure_of(status, text, None);
            let untyped = failure_of(status, text, Some(ApiErrorBody { message, error_type: None }));
            let typed = failure_of(
                status,
                text,
                Some(ApiErrorBody { message, error_type: Some(kind) }),
            );
            &&& plain == (LlmError::ApiError { status, message: text })
            &&& untyped == (LlmError::ApiError { status, message })
            &&& kind@ == "context_length_exceeded"@ ==> typed == LlmError::ContextLengthExceeded(
                message,
            )
            &&& kind@ != "context_length_exceeded"@ ==> typed == (LlmError::ApiError {
                status,
                message,
            })
        }),
{
}

} // verus!
