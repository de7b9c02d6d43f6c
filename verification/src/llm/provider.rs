//! What every LLM provider has in common.

use vstd::prelude::*;

use crate::domain::review::ReviewOutput;
use crate::llm::schema::{
    json_of_markdown, may_parse_to, may_reject, parse_review_output, ParseError,
};
use crate::text::{decimal, format_u64};

verus! {

/// A chunk of streaming LLM output.
#[derive(Debug)]
pub struct StreamChunk {
    /// The text content of this chunk.
    pub text: String,
    /// Whether this is the final chunk.
    pub is_final: bool,
}

impl Clone for StreamChunk {
    fn clone(&self) -> (r: StreamChunk)
        ensures
            r == *self,
    {
        StreamChunk { text: self.text.clone(), is_final: self.is_final }
    }
}

/// Error type for LLM operations.
#[derive(Debug)]
pub enum LlmError {
    /// The provider asks to come back later.
    RateLimited {
        /// After so many seconds.
        retry_after_secs: u32,
    },
    /// The request is longer than the model takes.
    ContextLengthExceeded(String),
    /// The response has not the expected form.
    InvalidResponse(String),
    /// The provider reported an error.
    ApiError {
        /// The HTTP status.
        status: u16,
        /// What the provider said.
        message: String,
    },
    /// The provider could not be reached.
    NetworkError(String),
    /// The answer could not be read.
    ParseError(String),
}

impl LlmError {
    /// What the error says.
    pub open spec fn text(self) -> Seq<char> {
        match self {
            LlmError::RateLimited { retry_after_secs } => "Rate limited, retry after "@ + decimal(
                retry_after_secs as nat,
            ) + "s"@,
            LlmError::ContextLengthExceeded(detail) => "Context length exceeded: "@ + detail@,
            LlmError::InvalidResponse(detail) => "Invalid response format: "@ + detail@,
            LlmError::ApiError { status, message } => "API error: "@ + decimal(status as nat)
                + " - "@ + message@,
            LlmError::NetworkError(detail) => "Network error: "@ + detail@,
            LlmError::ParseError(detail) => "Parse error: "@ + detail@,
        }
    }

    /// What the error says.
    pub fn to_text(&self) -> (r: String)
        ensures
            r@ == self.text(),
    {
        let mut out: String = String::new();
        match self {
            LlmError::RateLimited { retry_after_secs } => {
                out.push_str("Rate limited, retry after ");
                out.push_str(format_u64(*retry_after_secs as u64).as_str());
                out.push_str("s");
            },
            LlmError::ContextLengthExceeded(detail) => {
                out.push_str("Context length exceeded: ");
                out.push_str(detail.as_str());
            },
            LlmError::InvalidResponse(detail) => {
                out.push_str("Invalid response format: ");
                out.push_str(detail.as_str());
            },
            LlmError::ApiError { status, message } => {
                out.push_str("API error: ");
                out.push_str(format_u64(*status as u64).as_str());
                out.push_str(" - ");
                out.push_str(message.as_str());
            },
            LlmError::NetworkError(detail) => {
                out.push_str("Network error: ");
                out.push_str(detail.as_str());
            },
            LlmError::ParseError(detail) => {
                out.push_str("Parse error: ");
                out.push_str(detail.as_str());
            },
        }
        assert(out@ =~= self.text());
        out
    }
}

impl Clone for LlmError {
    fn clone(&self) -> (r: LlmError)
        ensures
            r == *self,
    {
        match self {
            LlmError::RateLimited { retry_after_secs } => LlmError::RateLimited {
                retry_after_secs: *retry_after_secs,
            },
            LlmError::ContextLengthExceeded(detail) => LlmError::ContextLengthExceeded(
                detail.clone(),
            ),
            LlmError::InvalidResponse(detail) => LlmError::InvalidResponse(detail.clone()),
            LlmError::ApiError { status, message } => LlmError::ApiError {
                status: *status,
                message: message.clone(),
            },
            LlmError::NetworkError(detail) => LlmError::NetworkError(detail.clone()),
            LlmError::ParseError(detail) => LlmError::ParseError(detail.clone()),
        }
    }
}

/// Request to send to the LLM.
#[derive(Debug)]
pub struct LlmRequest {
    /// System prompt (sets behavior/context).
    pub system_prompt: String,
    /// User prompt (the actual content to review).
    pub user_prompt: String,
    /// Maximum tokens to generate.
    pub max_tokens: u32,
}

impl Clone for LlmRequest {
    fn clone(&self) -> (r: LlmRequest)
        ensures
            r == *self,
    {
        LlmRequest {
            system_prompt: self.system_prompt.clone(),
            user_prompt: self.user_prompt.clone(),
            max_tokens: self.max_tokens,
        }
    }
}

/// The LLM provider trait.
///
/// This trait abstracts over different LLM providers to allow easy switching between them.
pub trait LlmProvider {
    /// The provider's name.
    spec fn provider_name(&self) -> Seq<char>;

    /// The longest context in tokens.
    spec fn context_tokens(&self) -> u32;

    /// Get the provider name for logging.
    fn name(&self) -> (r: &'static str)
        ensures
            r@ == self.provider_name(),
    ;

    /// Get the maximum context length in tokens.
    fn max_context_tokens(&self) -> (r: u32)
        ensures
            r == self.context_tokens(),
    ;
}

// --- Collecting a streamed answer ---

/// What a stream delivers, one after the other.
pub type StreamItem = Result<StreamChunk, LlmError>;

/// Some item of the list is an error.
pub open spec fn has_error(items: Seq<StreamItem>) -> bool {
    exists|i: int| 0 <= i < items.len() && (#[trigger] items[i]) is Err
}

/// The texts of the chunks, one after the other.
pub open spec fn stream_text(items: Seq<StreamItem>) -> Seq<char>
    decreases items.len(),
{
    if items.len() == 0 {
        Seq::empty()
    } else {
        match items.last() {
            Ok(chunk) => stream_text(items.drop_last()) + chunk.text@,
            Err(_) => stream_text(items.drop_last()),
        }
    }
}

/// `i` is the first item that is an error.
pub open spec fn is_first_error(items: Seq<StreamItem>, i: int) -> bool {
    &&& 0 <= i < items.len()
    &&& items[i] is Err
    &&& forall|j: int| 0 <= j < i ==> (#[trigger] items[j]) is Ok
}

/// The whole text of a streamed answer, or the first error that came.
pub fn collect_stream(items: &Vec<StreamItem>) -> (r: Result<String, LlmError>)
    ensures
        match r {
            Ok(text) => !has_error(items@) && text@ == stream_text(items@),
            Err(e) => exists|i: int| #[trigger]
                is_first_error(items@, i) && items@[i] == Err::<StreamChunk, LlmError>(e),
        },
{
    let mut full_text: String = String::new();
    let mut i: usize = 0;
    assert(items@.take(0) =~= Seq::<StreamItem>::empty());
    assert(full_text@ =~= Seq::<char>::empty());
    while i < items.len()
        invariant
            i <= items@.len(),
            forall|j: int| 0 <= j < i ==> (#[trigger] items@[j]) is Ok,
            full_text@ == stream_text(items@.take(i as int)),
        decreases items.len() - i,
    {
        assert(items@.take(i + 1).drop_last() =~= items@.take(i as int));
        match &items[i] {
            Ok(chunk) => {
                full_text.push_str(chunk.text.as_str());
            },
            Err(e) => {
                assert(is_first_error(items@, i as int));
                return Err(e.clone());
            },
        }
        i += 1;
    }
    assert(items@.take(i as int) =~= items@);
    Ok(full_text)
}

/// The structured output of a streamed answer. An error in the stream stands; else the collected
/// text is read as a review output, and what cannot be read is reported as a parse error.
pub fn complete_structured<F: Fn(&str) -> Result<ReviewOutput, String>>(
    items: &Vec<StreamItem>,
    parse: F,
) -> (r: Result<ReviewOutput, LlmError>)
    requires
        forall|s: &str| parse.requires((s,)),
    ensures
        has_error(items@) ==> exists|i: int| #[trigger]
            is_first_error(items@, i) && r is Err && items@[i] == Err::<StreamChunk, LlmError>(
                r->Err_0,
            ),
        !has_error(items@) ==> {
            let text = stream_text(items@);
            match r {
                Ok(output) => may_parse_to(parse, text, Ok(output)) || (may_reject(parse, text)
                    && may_parse_to(parse, json_of_markdown(text), Ok(output))),
                Err(LlmError::ParseError(detail)) => may_reject(parse, text) && exists|
                    message: String,
                | #[trigger]
                    may_parse_to(parse, json_of_markdown(text), Err(message)) && detail@
                        == "Invalid JSON response: "@ + message@,
                Err(_) => false,
            }
        },
{
    match collect_stream(items) {
        Ok(text) => match parse_review_output(text.as_str(), parse) {
            Ok(output) => Ok(output),
            Err(e) => Err(LlmError::ParseError(e.to_text())),
        },
        Err(e) => Err(e),
    }
}

/// A chunk that arrives adds its text at the end of the answer.
pub proof fn chunks_are_collected_in_order(items: Seq<StreamItem>, chunk: StreamChunk)
    ensures
        stream_text(Seq::<StreamItem>::empty()).len() == 0,
        stream_text(items.push(Ok(chunk))) == stream_text(items) + chunk.text@,
{
    assert(items.push(Ok(chunk)).drop_last() =~= items);
}

/// What an error says ends in its detail, and tells the kinds of errors apart.
pub proof fn errors_say_their_detail(detail: String, status: u16, secs: u32)
    ensures
        (LlmError::RateLimited { retry_after_secs: secs }).text() == "Rate limited, retry after "@
            + decimal(secs as nat) + "s"@,
        LlmError::ContextLengthExceeded(detail).text() == "Context length exceeded: "@ + detail@,
        LlmError::InvalidResponse(detail).text() == "Invalid response format: "@ + detail@,
        (LlmError::ApiError { status, message: detail }).text() == "API error: "@ + decimal(
            status as nat,
        ) + " - "@ + detail@,
        LlmError::NetworkError(detail).text() == "Network error: "@ + detail@,
        LlmError::ParseError(detail).text() == "Parse error: "@ + detail@,
{
}

/// A stream fails exactly if some item is an error, and then with the first.
pub proof fn first_error_counts(items: Seq<StreamItem>, i: int)
    ensures
        is_first_error(items, i) <==> 0 <= i < items.len() && items[i] is Err && forall|j: int|
            #![trigger items[j]]
            0 <= j < i ==> !(items[j] is Err),
        is_first_error(items, i) ==> has_error(items),
        (forall|j: int| #![trigger items[j]] 0 <= j < items.len() ==> items[j] is Ok)
            <==> !has_error(items),
{
}

} // verus!
