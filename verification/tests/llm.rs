use panopticon_server::domain::review::ReviewOutput;
use panopticon_server::domain::untrusted::UntrustedString;
use panopticon_server::llm::openai::{
    chunk_of, classify_status, failure_error, rate_limit_error, ApiErrorBody, OpenAiProvider,
    ResponseDecoder, SseStep, StatusClass, StreamEvent,
};
use panopticon_server::llm::provider::{
    collect_stream, complete_structured, LlmError, LlmProvider, LlmRequest, StreamChunk,
};
use panopticon_server::llm::schema::{
    build_system_prompt, extract_json_from_markdown, parse_review_output, ParseError,
    REVIEW_OUTPUT_SCHEMA,
};

/// Reads a review output as JSON.
fn parse(json: &str) -> Result<ReviewOutput, String> {
    let value: serde_json::Value = serde_json::from_str(json).map_err(|e| e.to_string())?;
    let text = |key: &str| {
        value[key]
            .as_str()
            .map(UntrustedString::new)
            .ok_or_else(|| format!("missing {}", key))
    };
    Ok(ReviewOutput {
        detailed_reasoning: text("detailed_reasoning")?,
        action_required: value["action_required"]
            .as_bool()
            .ok_or("missing action_required")?,
        user_visible_comments: text("user_visible_comments")?,
    })
}

fn event(data: &str) -> Option<StreamEvent> {
    let value: serde_json::Value = serde_json::from_str(data).ok()?;
    Some(StreamEvent {
        event_type: value["type"].as_str()?.to_string(),
        delta: value["delta"].as_str().map(|s| s.to_string()),
    })
}

fn provider(context_limit: Option<u32>) -> OpenAiProvider {
    OpenAiProvider::new(
        "test-key".to_string(),
        "gpt-5.2-2025-12-11".to_string(),
        None,
        "high".to_string(),
        context_limit,
        None,
    )
}

// --- Schema ---

#[test]
fn parses_valid_json() {
    let json = r#"{
            "detailed_reasoning": "The code looks good overall.",
            "action_required": false,
            "user_visible_comments": "No issues found."
        }"#;
    let output = parse_review_output(json, parse).unwrap();
    assert_eq!(
        output.detailed_reasoning.as_raw(),
        "The code looks good overall."
    );
    assert!(!output.action_required);
    assert_eq!(output.user_visible_comments.as_raw(), "No issues found.");
}

#[test]
fn extracts_json_from_markdown() {
    let markdown = r#"Here's my analysis:

```json
{
    "detailed_reasoning": "Found issues.",
    "action_required": true,
    "user_visible_comments": "Fix the bug."
}
```

Hope this helps!"#;
    let output = parse_review_output(markdown, parse).unwrap();
    assert!(output.action_required);
}

#[test]
fn build_system_prompt_includes_custom() {
    let prompt = build_system_prompt("Focus on security.");
    assert!(prompt.contains("Focus on security."));
    assert!(prompt.contains("detailed_reasoning"));
    assert!(prompt.starts_with("You are a code review assistant."));
    assert!(prompt.ends_with("outside the JSON object."));
    assert!(prompt.contains(REVIEW_OUTPUT_SCHEMA));
}

#[test]
fn schema_is_json() {
    let schema: serde_json::Value = serde_json::from_str(REVIEW_OUTPUT_SCHEMA).unwrap();
    assert_eq!(schema["type"], "object");
    assert_eq!(schema["required"].as_array().unwrap().len(), 3);
    assert_eq!(schema["additionalProperties"], false);
}

#[test]
fn code_blocks_are_unwrapped() {
    let cases = [
        ("no block", "no block"),
        ("a ```json {x} ``` b", "{x}"),
        ("```\n{x}\n```", "{x}"),
        ("```rust\n{x}\n``` ```json {y} ```", "{y}"),
        ("```js\n{x}\n```", "{x}"),
        ("``` {x} ```", "{x}"),
        ("```json {x}", "```json {x}"),
        ("```\n{x}", "```\n{x}"),
        ("é```json é ```", "é"),
    ];
    for (markdown, json) in cases {
        assert_eq!(extract_json_from_markdown(markdown), json, "{}", markdown);
    }
}

#[test]
fn unreadable_answers_are_reported() {
    match parse_review_output("```json {} ```", parse) {
        Err(e) => {
            assert_eq!(
                e.to_text(),
                "Invalid JSON response: missing detailed_reasoning"
            );
            let ParseError::InvalidJson { raw, .. } = e;
            assert_eq!(raw, "```json {} ```");
        }
        Ok(output) => panic!("unexpected: {:?}", output),
    }
}

// --- Requests ---

#[test]
fn llm_request_has_max_tokens() {
    let request = LlmRequest {
        system_prompt: "You are a code review assistant".to_string(),
        user_prompt: "Review this code".to_string(),
        max_tokens: 4096,
    };
    assert_eq!(request.max_tokens, 4096);
    let body = provider(None).request_body(request);
    assert_eq!(body.max_output_tokens, Some(4096));
}

#[test]
fn provider_has_correct_name() {
    let provider = OpenAiProvider::new(
        "test-key".to_string(),
        "gpt-5.2-2025-12-11".to_string(),
        None,
        "high".to_string(),
        None,
        None,
    );
    assert_eq!(provider.name(), "openai");
}

#[test]
fn provider_uses_default_context_limit() {
    let provider = OpenAiProvider::new(
        "test-key".to_string(),
        "gpt-5.2-2025-12-11".to_string(),
        None,
        "high".to_string(),
        None,
        None,
    );
    assert_eq!(provider.max_context_tokens(), 1_000_000);
}

#[test]
fn provider_uses_custom_context_limit() {
    let provider = OpenAiProvider::new(
        "test-key".to_string(),
        "gpt-4o".to_string(),
        None,
        "high".to_string(),
        Some(128_000),
        None,
    );
    assert_eq!(provider.max_context_tokens(), 128_000);
}

#[test]
fn responses_api_request_uses_string_input() {
    let provider = OpenAiProvider::new(
        "test-key".to_string(),
        "gpt-5.2".to_string(),
        None,
        "high".to_string(),
        None,
        None,
    );
    let body = provider.request_body(LlmRequest {
        system_prompt: "You are a helpful assistant".to_string(),
        user_prompt: "Hello, how are you?".to_string(),
        max_tokens: 1000,
    });
    assert_eq!(body.input, "Hello, how are you?");
    assert_eq!(body.model, "gpt-5.2");
    assert_eq!(body.instructions, "You are a helpful assistant");
    assert_eq!(body.reasoning.effort, "high");
    assert_eq!(body.text.format.format_type, "json_schema");
    assert_eq!(body.text.format.name, "review_output");
    assert!(body.text.format.strict);
    assert!(body.stream);
    assert_eq!(body.max_output_tokens, Some(1000));
}

#[test]
fn responses_api_uses_string_input_format() {
    fn assert_is_provider<T: LlmProvider>(_: &T) {}
    assert_is_provider(&provider(None));
}

#[test]
fn requests_go_to_the_configured_place() {
    let own = OpenAiProvider::new(
        "key".to_string(),
        "m".to_string(),
        Some("http://localhost".to_string()),
        "low".to_string(),
        None,
        Some(5),
    );
    assert_eq!(own.endpoint(), "http://localhost/responses");
    assert_eq!(own.authorization(), "Bearer key");
    assert_eq!(own.request_timeout_secs(), 5);
    assert_eq!(
        provider(None).endpoint(),
        "https://api.openai.com/v1/responses"
    );
    assert_eq!(provider(None).request_timeout_secs(), 600);
}

// --- Responses ---

#[test]
fn statuses_are_classified() {
    for (status, class) in [
        (200, StatusClass::Success),
        (299, StatusClass::Success),
        (199, StatusClass::Failure),
        (300, StatusClass::Failure),
        (429, StatusClass::RateLimited),
        (500, StatusClass::Failure),
    ] {
        assert_eq!(classify_status(status), class);
    }
}

#[test]
fn rate_limits_say_when_to_come_back() {
    for (header, secs) in [
        (Some("5"), 5),
        (Some("soon"), 60),
        (Some("4294967296"), 60),
        (None, 60),
    ] {
        match rate_limit_error(&header.map(|h| h.to_string())) {
            LlmError::RateLimited { retry_after_secs } => assert_eq!(retry_after_secs, secs),
            other => panic!("unexpected: {:?}", other),
        }
    }
}

#[test]
fn failures_are_described_by_their_bodies() {
    let body = |kind: Option<&str>| {
        Some(ApiErrorBody {
            message: "too long".to_string(),
            error_type: kind.map(|k| k.to_string()),
        })
    };
    assert_eq!(
        failure_error(400, "raw".to_string(), body(Some("context_length_exceeded"))).to_text(),
        "Context length exceeded: too long"
    );
    assert_eq!(
        failure_error(400, "raw".to_string(), body(Some("other"))).to_text(),
        "API error: 400 - too long"
    );
    assert_eq!(
        failure_error(401, "raw".to_string(), body(None)).to_text(),
        "API error: 401 - too long"
    );
    assert_eq!(
        failure_error(503, "raw".to_string(), None).to_text(),
        "API error: 503 - raw"
    );
}

#[test]
fn errors_have_their_texts() {
    assert_eq!(
        LlmError::RateLimited {
            retry_after_secs: 7
        }
        .to_text(),
        "Rate limited, retry after 7s"
    );
    assert_eq!(
        LlmError::InvalidResponse("x".to_string()).to_text(),
        "Invalid response format: x"
    );
    assert_eq!(
        LlmError::NetworkError("x".to_string()).to_text(),
        "Network error: x"
    );
    assert_eq!(
        LlmError::ParseError("x".to_string()).to_text(),
        "Parse error: x"
    );
}

const STREAM: &str = "event: x\ndata: {\"type\":\"response.created\"}\n\n\
data: {\"type\":\"response.output_text.delta\",\"delta\":\"Hel\"}\r\n\
data: {\"type\":\"response.output_text.delta\"}\n\
data: not json\n\
  data: {\"type\":\"response.output_text.delta\",\"delta\":\"lo\"}  \n\
data: {\"type\":\"response.completed\"}\n\
data: {\"type\":\"response.output_text.delta\",\"delta\":\"late\"}\n";

#[test]
fn stream_is_decoded() {
    let mut decoder = ResponseDecoder::new();
    decoder.push(STREAM.as_bytes());
    let chunks = decoder.drain(event);
    let texts: Vec<&str> = chunks.iter().map(|c| c.text.as_str()).collect();
    assert_eq!(texts, ["Hel", "lo", ""]);
    let finals: Vec<bool> = chunks.iter().map(|c| c.is_final).collect();
    assert_eq!(finals, [false, false, true]);
}

#[test]
fn cuts_in_the_stream_do_not_matter() {
    for cut in 1..40 {
        let mut decoder = ResponseDecoder::new();
        let mut texts = Vec::new();
        for piece in STREAM.as_bytes().chunks(cut) {
            decoder.push(piece);
            let mut over = false;
            for chunk in decoder.drain(event) {
                over = chunk.is_final;
                texts.push(chunk.text);
            }
            if over {
                break;
            }
        }
        assert_eq!(texts, ["Hel", "lo", ""], "{}", cut);
    }
}

#[test]
fn body_without_terminator_gets_its_end() {
    let body = "data: {\"type\":\"response.output_text.delta\",\"delta\":\"a\"}\n\
data: {\"type\":\"response.output_text.delta\",\"delta\":\"b\"}\n\
data: {\"type\":\"response.output_text.delta\",\"delta\":\"cut\"}";
    for cut in 1..40 {
        let mut decoder = ResponseDecoder::new();
        let mut chunks = Vec::new();
        for piece in body.as_bytes().chunks(cut) {
            decoder.push(piece);
            chunks.extend(decoder.drain(event));
        }
        chunks.extend(decoder.finish(false));
        let texts: Vec<&str> = chunks.iter().map(|c| c.text.as_str()).collect();
        assert_eq!(texts, ["a", "b", ""], "{}", cut);
        let finals: Vec<bool> = chunks.iter().map(|c| c.is_final).collect();
        assert_eq!(finals, [false, false, true]);
    }
    assert!(ResponseDecoder::new().finish(true).is_none());
    let end = ResponseDecoder::new().finish(false).unwrap();
    assert!(end.text.is_empty() && end.is_final);
}

#[test]
fn bytes_arrive_as_the_text_that_they_encode() {
    let mut decoder = ResponseDecoder::new();
    decoder.push(b"data: ~ plain");
    decoder.push(" \u{e9}\u{20ac}\n".as_bytes());
    match decoder.next_step() {
        SseStep::Data(data) => assert_eq!(data, "~ plain \u{e9}\u{20ac}"),
        other => panic!("unexpected: {:?}", other),
    }
}

#[test]
fn done_marker_ends_the_stream() {
    let mut decoder = ResponseDecoder::new();
    decoder.push(b"data: [DONE]\ndata: rest\n");
    assert!(matches!(decoder.next_step(), SseStep::Done));
    match decoder.next_step() {
        SseStep::Data(data) => assert_eq!(data, "rest"),
        other => panic!("unexpected: {:?}", other),
    }
    assert!(matches!(decoder.next_step(), SseStep::NeedBytes));
    decoder.push(b"data: unfinished \xff");
    assert!(matches!(decoder.next_step(), SseStep::NeedBytes));
    decoder.push(b"\n");
    match decoder.next_step() {
        SseStep::Data(data) => assert_eq!(data, "unfinished \u{fffd}"),
        other => panic!("unexpected: {:?}", other),
    }
}

#[test]
fn other_events_add_nothing() {
    let other = |kind: &str| {
        Some(StreamEvent {
            event_type: kind.to_string(),
            delta: Some("x".to_string()),
        })
    };
    assert!(chunk_of(None).is_none());
    assert!(chunk_of(other("response.reasoning.delta")).is_none());
    assert!(chunk_of(other("response.done")).unwrap().is_final);
    assert_eq!(
        chunk_of(other("response.output_text.delta")).unwrap().text,
        "x"
    );
}

#[test]
fn streams_are_collected() {
    let chunk = |text: &str| {
        Ok(StreamChunk {
            text: text.to_string(),
            is_final: false,
        })
    };
    assert_eq!(
        collect_stream(&vec![chunk("a"), chunk("b")]).unwrap(),
        "ab"
    );
    let broken = vec![
        chunk("a"),
        Err(LlmError::NetworkError("first".to_string())),
        Err(LlmError::NetworkError("second".to_string())),
    ];
    assert_eq!(
        collect_stream(&broken).unwrap_err().to_text(),
        "Network error: first"
    );
    let answer = vec![
        chunk("```json {\"detailed_reasoning\":\"r\","),
        chunk("\"action_required\":true,\"user_visible_comments\":\"c\"} ```"),
    ];
    assert!(complete_structured(&answer, parse).unwrap().action_required);
    assert_eq!(
        complete_structured(&vec![chunk("{}")], parse)
            .unwrap_err()
            .to_text(),
        "Parse error: Invalid JSON response: missing detailed_reasoning"
    );
}
