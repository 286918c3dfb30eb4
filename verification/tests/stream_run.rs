use alchemy_llm::providers::shared::chunk::{
    ReasoningDetail, StreamChoice, StreamChunk, StreamDelta,
};
use alchemy_llm::providers::shared::sse::SseLineReader;
use alchemy_llm::providers::shared::stream_blocks::{
    OpenAiLikeFunctionDelta, OpenAiLikeStreamUsage, OpenAiLikeToolCallDelta,
};
use alchemy_llm::providers::shared::stream_run::{StreamPhase, StreamRun};
use alchemy_llm::types::{
    Api, AssistantMessageEvent, Content, KnownProvider, Provider, StopReason, StopReasonError,
    StopReasonSuccess,
};
use alchemy_llm::Error;

fn delta() -> StreamDelta {
    StreamDelta {
        content: None,
        reasoning_details: None,
        reasoning_content: None,
        reasoning: None,
        reasoning_text: None,
        tool_calls: None,
    }
}

fn chunk_of(delta: Option<StreamDelta>, finish_reason: Option<&str>) -> StreamChunk {
    StreamChunk {
        choices: vec![StreamChoice {
            delta,
            finish_reason: finish_reason.map(|reason| reason.to_string()),
        }],
        usage: None,
    }
}

fn content_chunk(content: &str, finish_reason: Option<&str>) -> StreamChunk {
    let mut d = delta();
    d.content = Some(content.to_string());
    chunk_of(Some(d), finish_reason)
}

fn openai_run() -> StreamRun {
    StreamRun::new(
        Api::OpenAICompletions,
        Provider::Known(KnownProvider::OpenAI),
        "gpt-4o-mini".to_string(),
        0,
    )
}

fn minimax_run() -> StreamRun {
    StreamRun::new(
        Api::MinimaxCompletions,
        Provider::Known(KnownProvider::Minimax),
        "MiniMax-M2.5".to_string(),
        0,
    )
}

fn json(text: &str) -> serde_json::Value {
    serde_json::from_str(text).expect("valid JSON")
}

#[test]
fn plain_text_stream() {
    let body = "data: {\"choices\":[{\"delta\":{\"content\":\"Hello\"}}]}\n\ndata: {\"choices\":[{\"delta\":{\"content\":\" world\"},\"finish_reason\":\"stop\"}]}\n\ndata: [DONE]\n\n";
    let mut reader = SseLineReader::new();
    let payloads = reader.feed(body.as_bytes());
    assert_eq!(
        payloads,
        vec![
            "{\"choices\":[{\"delta\":{\"content\":\"Hello\"}}]}".to_string(),
            "{\"choices\":[{\"delta\":{\"content\":\" world\"},\"finish_reason\":\"stop\"}]}"
                .to_string(),
        ]
    );
    assert!(reader.is_done());

    let mut run = openai_run();
    run.start();
    run.on_chunk(&content_chunk("Hello", None));
    run.on_chunk(&content_chunk(" world", Some("stop")));
    run.complete();

    let events = run.take_events();
    assert_eq!(events.len(), 6);
    match &events[0] {
        AssistantMessageEvent::Start { partial } => assert!(partial.content.is_empty()),
        _ => panic!("expected start"),
    }
    assert!(matches!(
        events[1],
        AssistantMessageEvent::TextStart { content_index: 0, .. }
    ));
    match &events[2] {
        AssistantMessageEvent::TextDelta {
            content_index,
            delta,
            ..
        } => {
            assert_eq!(*content_index, 0);
            assert_eq!(delta, "Hello");
        }
        _ => panic!("expected text delta"),
    }
    match &events[3] {
        AssistantMessageEvent::TextDelta {
            content_index,
            delta,
            ..
        } => {
            assert_eq!(*content_index, 0);
            assert_eq!(delta, " world");
        }
        _ => panic!("expected text delta"),
    }
    match &events[4] {
        AssistantMessageEvent::TextEnd {
            content_index,
            content,
            ..
        } => {
            assert_eq!(*content_index, 0);
            assert_eq!(content, "Hello world");
        }
        _ => panic!("expected text end"),
    }
    match &events[5] {
        AssistantMessageEvent::Done { reason, message } => {
            assert_eq!(*reason, StopReasonSuccess::Stop);
            assert_eq!(message.content.len(), 1);
            match &message.content[0] {
                Content::Text { inner } => assert_eq!(inner.text, "Hello world"),
                _ => panic!("expected text content"),
            }
        }
        _ => panic!("expected done"),
    }
    assert_eq!(run.phase(), StreamPhase::Finished);
    assert_eq!(run.result().unwrap().content.len(), 1);
}

#[test]
fn minimax_inline_think_tag() {
    let mut run = minimax_run();
    run.start();
    run.on_chunk(&content_chunk("<think>reason</think>answer", None));
    run.complete();

    let events = run.take_events();
    assert!(matches!(events[0], AssistantMessageEvent::Start { .. }));
    assert!(matches!(
        events[1],
        AssistantMessageEvent::ThinkingStart { content_index: 0, .. }
    ));
    match &events[2] {
        AssistantMessageEvent::ThinkingDelta {
            content_index,
            delta,
            ..
        } => {
            assert_eq!(*content_index, 0);
            assert_eq!(delta, "reason");
        }
        _ => panic!("expected thinking delta"),
    }
    match &events[3] {
        AssistantMessageEvent::ThinkingEnd {
            content_index,
            content,
            ..
        } => {
            assert_eq!(*content_index, 0);
            assert_eq!(content, "reason");
        }
        _ => panic!("expected thinking end"),
    }
    assert!(matches!(
        events[4],
        AssistantMessageEvent::TextStart { content_index: 1, .. }
    ));
    match &events[5] {
        AssistantMessageEvent::TextDelta {
            content_index,
            delta,
            ..
        } => {
            assert_eq!(*content_index, 1);
            assert_eq!(delta, "answer");
        }
        _ => panic!("expected text delta"),
    }
    match &events[6] {
        AssistantMessageEvent::TextEnd {
            content_index,
            content,
            ..
        } => {
            assert_eq!(*content_index, 1);
            assert_eq!(content, "answer");
        }
        _ => panic!("expected text end"),
    }
    assert!(matches!(events[7], AssistantMessageEvent::Done { .. }));
    assert_eq!(events.len(), 8);

    let result = run.result().unwrap();
    assert_eq!(result.content.len(), 2);
    match &result.content[0] {
        Content::Thinking { inner } => {
            assert_eq!(inner.thinking, "reason");
            assert_eq!(inner.thinking_signature.as_deref(), Some("think_tag"));
        }
        _ => panic!("expected thinking content"),
    }
    match &result.content[1] {
        Content::Text { inner } => assert_eq!(inner.text, "answer"),
        _ => panic!("expected text content"),
    }
}

#[test]
fn openai_run_does_not_read_think_tags() {
    let mut run = openai_run();
    run.start();
    run.on_chunk(&content_chunk("<think>reason</think>answer", None));
    run.complete();
    let result = run.result().unwrap();
    assert_eq!(result.content.len(), 1);
    match &result.content[0] {
        Content::Text { inner } => assert_eq!(inner.text, "<think>reason</think>answer"),
        _ => panic!("expected text content"),
    }
}

#[test]
fn minimax_reasoning_details_split() {
    let mut first = delta();
    first.reasoning_details = Some(vec![ReasoningDetail {
        text: Some("step one".to_string()),
    }]);
    let usage_only = StreamChunk {
        choices: vec![],
        usage: Some(OpenAiLikeStreamUsage {
            prompt_tokens: 12,
            completion_tokens: 8,
            total_tokens: Some(20),
            cache_read_input_tokens: None,
            cache_creation_input_tokens: None,
            prompt_tokens_details: None,
            completion_tokens_details: None,
        }),
    };

    let mut run = minimax_run();
    run.start();
    run.on_chunk(&chunk_of(Some(first), None));
    run.on_chunk(&content_chunk("answer", Some("stop")));
    run.on_chunk(&usage_only);
    run.complete();

    let result = run.result().unwrap();
    assert_eq!(result.content.len(), 2);
    match &result.content[0] {
        Content::Thinking { inner } => {
            assert_eq!(inner.thinking, "step one");
            assert_eq!(
                inner.thinking_signature.as_deref(),
                Some("reasoning_details")
            );
        }
        _ => panic!("expected thinking content"),
    }
    match &result.content[1] {
        Content::Text { inner } => assert_eq!(inner.text, "answer"),
        _ => panic!("expected text content"),
    }
    assert_eq!(result.usage.input, 12);
    assert_eq!(result.usage.output, 8);
    assert_eq!(result.usage.total_tokens, 20);
    assert_eq!(result.stop_reason, StopReason::Stop);
}

#[test]
fn tool_call_continuation_without_id() {
    let mut first = delta();
    first.tool_calls = Some(vec![OpenAiLikeToolCallDelta {
        id: Some("call_123".to_string()),
        function: Some(OpenAiLikeFunctionDelta {
            name: Some("multiply".to_string()),
            arguments: Some("{\"a\":15,\"b\":".to_string()),
        }),
    }]);
    let mut second = delta();
    second.tool_calls = Some(vec![OpenAiLikeToolCallDelta {
        id: None,
        function: Some(OpenAiLikeFunctionDelta {
            name: None,
            arguments: Some("3}".to_string()),
        }),
    }]);

    let mut run = openai_run();
    run.start();
    run.on_chunk(&chunk_of(Some(first), None));
    run.on_chunk(&chunk_of(Some(second), None));
    run.on_chunk(&chunk_of(None, Some("tool_calls")));
    run.complete();

    let result = run.result().unwrap();
    assert_eq!(result.stop_reason, StopReason::ToolUse);
    assert_eq!(result.content.len(), 1);
    match &result.content[0] {
        Content::ToolCall { inner } => {
            assert_eq!(inner.id.as_str(), "call_123");
            assert_eq!(inner.name, "multiply");
            assert_eq!(inner.arguments, json(r#"{"a":15,"b":3}"#));
        }
        _ => panic!("expected tool call content"),
    }
    let events = run.take_events();
    assert!(matches!(
        events.last().unwrap(),
        AssistantMessageEvent::Done {
            reason: StopReasonSuccess::ToolUse,
            ..
        }
    ));
}

#[test]
fn orphan_argument_delta() {
    let mut orphan = delta();
    orphan.tool_calls = Some(vec![OpenAiLikeToolCallDelta {
        id: None,
        function: Some(OpenAiLikeFunctionDelta {
            name: None,
            arguments: Some("{\"a\": 15".to_string()),
        }),
    }]);
    let mut run = openai_run();
    run.start();
    assert_eq!(run.take_events().len(), 1);
    run.on_chunk(&chunk_of(Some(orphan), None));
    assert!(run.take_events().is_empty());
    assert!(run.output().content.is_empty());
}

#[test]
fn a_run_ends_exactly_once() {
    let mut run = openai_run();
    assert_eq!(run.phase(), StreamPhase::Pending);
    run.on_chunk(&content_chunk("early", None));
    run.complete();
    assert!(run.take_events().is_empty());
    assert_eq!(run.phase(), StreamPhase::Pending);

    run.start();
    run.start();
    run.on_chunk(&content_chunk("partial", None));
    run.fail(&Error::RequestError("connection reset".to_string()));
    run.fail(&Error::Aborted);
    run.complete();
    run.on_chunk(&content_chunk("late", None));
    run.start();

    let events = run.take_events();
    assert_eq!(events.len(), 4);
    assert!(matches!(events[0], AssistantMessageEvent::Start { .. }));
    assert!(matches!(events[1], AssistantMessageEvent::TextStart { .. }));
    assert!(matches!(events[2], AssistantMessageEvent::TextDelta { .. }));
    match &events[3] {
        AssistantMessageEvent::Error { reason, error } => {
            assert_eq!(*reason, StopReasonError::Error);
            assert_eq!(error.stop_reason, StopReason::Error);
            assert_eq!(
                error.error_message.as_deref(),
                Some("HTTP request failed: connection reset")
            );
        }
        _ => panic!("expected error"),
    }
    let result = run.result().unwrap();
    assert_eq!(result.stop_reason, StopReason::Error);
}

#[test]
fn a_run_that_fails_before_it_starts_emits_only_the_error() {
    let mut run = minimax_run();
    run.fail(&Error::ApiError {
        status_code: 401,
        message: "unauthorized".to_string(),
    });
    let events = run.take_events();
    assert_eq!(events.len(), 1);
    match &events[0] {
        AssistantMessageEvent::Error { error, .. } => {
            assert_eq!(error.api, Api::MinimaxCompletions);
            assert_eq!(
                error.error_message.as_deref(),
                Some("API returned error: 401 - unauthorized")
            );
        }
        _ => panic!("expected error"),
    }
    assert_eq!(run.phase(), StreamPhase::Finished);
}

#[test]
fn content_beside_explicit_reasoning_bypasses_the_scanner() {
    let mut both = delta();
    both.reasoning_content = Some("why".to_string());
    both.reasoning = Some("ignored".to_string());
    both.content = Some("<think>kept</think>".to_string());
    let mut run = minimax_run();
    run.start();
    run.on_chunk(&chunk_of(Some(both), None));
    run.complete();
    let result = run.result().unwrap();
    assert_eq!(result.content.len(), 2);
    match &result.content[0] {
        Content::Thinking { inner } => {
            assert_eq!(inner.thinking, "why");
            assert_eq!(
                inner.thinking_signature.as_deref(),
                Some("reasoning_content")
            );
        }
        _ => panic!("expected thinking content"),
    }
    match &result.content[1] {
        Content::Text { inner } => assert_eq!(inner.text, "<think>kept</think>"),
        _ => panic!("expected text content"),
    }
}

#[test]
fn the_first_non_empty_reasoning_field_wins() {
    let mut d = delta();
    d.reasoning_content = Some(String::new());
    d.reasoning_text = Some("third".to_string());
    let mut run = openai_run();
    run.start();
    run.on_chunk(&chunk_of(Some(d), None));
    run.complete();
    match &run.result().unwrap().content[0] {
        Content::Thinking { inner } => {
            assert_eq!(inner.thinking, "third");
            assert_eq!(inner.thinking_signature.as_deref(), Some("reasoning_text"));
        }
        _ => panic!("expected thinking content"),
    }
}

#[test]
fn a_dangling_tag_prefix_is_flushed_at_the_end() {
    let mut run = minimax_run();
    run.start();
    run.on_chunk(&content_chunk("hello <thi", None));
    run.complete();
    match &run.result().unwrap().content[0] {
        Content::Text { inner } => assert_eq!(inner.text, "hello <thi"),
        _ => panic!("expected text content"),
    }
}

#[test]
fn sse_reader_joins_lines_across_chunks() {
    let mut reader = SseLineReader::new();
    assert!(reader.feed(b": keep-alive\n\nda").is_empty());
    assert!(reader.feed(b"ta: {\"a\"").is_empty());
    assert_eq!(reader.feed(b":1}\r\n"), vec!["{\"a\":1}".to_string()]);
    assert!(reader.feed(b"event: ping\nid: 7\ndata:no-space\n").is_empty());
    assert_eq!(
        reader.feed(b"  data: x  \ndata: [DONE]\ndata: after\n"),
        vec!["x".to_string()]
    );
    assert!(reader.is_done());
    assert!(reader.feed(b"data: more\n").is_empty());
}

#[test]
fn sse_reader_replaces_invalid_utf8() {
    let mut reader = SseLineReader::new();
    assert_eq!(
        reader.feed(b"data: a\xFFb\n"),
        vec!["a\u{FFFD}b".to_string()]
    );
    assert!(!reader.is_done());
}
