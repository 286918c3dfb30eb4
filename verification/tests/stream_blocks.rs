use alchemy_llm::providers::shared::openai_like_runtime::{
    done_reason_from_stop_reason, initialize_output, output_at, push_stream_done,
    push_stream_error, push_stream_start, require_api_key, response_error,
};
use alchemy_llm::types::OpenAICompletionsOptions;
use alchemy_llm::providers::shared::stream_blocks::{
    finish_current_block, handle_reasoning_delta, handle_text_delta, handle_tool_calls,
    has_tool_call_identity, map_stop_reason, should_start_new_tool_call,
    update_openai_usage_from_chunk, update_usage_from_chunk, CompletionTokensDetails,
    CurrentBlock, OpenAiLikeFunctionDelta, OpenAiLikeStreamUsage, OpenAiLikeToolCallDelta,
    PromptTokensDetails, ReasoningDelta,
};
use alchemy_llm::providers::shared::timestamp::timestamp_from_reading;
use alchemy_llm::providers::shared::unix_timestamp_millis;
use alchemy_llm::types::{
    Api, AssistantMessage, AssistantMessageEvent, Content, EventStreamSender, KnownProvider,
    Provider, StopReason, StopReasonError, StopReasonSuccess, Usage,
};
use alchemy_llm::Error;

fn make_output_message() -> AssistantMessage {
    AssistantMessage {
        content: vec![],
        api: Api::OpenAICompletions,
        provider: Provider::Known(KnownProvider::OpenAI),
        model: "test-model".to_string(),
        usage: Usage::default(),
        stop_reason: StopReason::Stop,
        error_message: None,
        timestamp: 0,
    }
}

fn usage(prompt_tokens: u32, completion_tokens: u32) -> OpenAiLikeStreamUsage {
    OpenAiLikeStreamUsage {
        prompt_tokens,
        completion_tokens,
        total_tokens: None,
        cache_read_input_tokens: None,
        cache_creation_input_tokens: None,
        prompt_tokens_details: None,
        completion_tokens_details: None,
    }
}

fn json(text: &str) -> serde_json::Value {
    serde_json::from_str(text).expect("valid JSON")
}

#[test]
fn map_stop_reason_matches_openai_contract() {
    assert_eq!(map_stop_reason("stop"), StopReason::Stop);
    assert_eq!(map_stop_reason("length"), StopReason::Length);
    assert_eq!(map_stop_reason("tool_calls"), StopReason::ToolUse);
    assert_eq!(map_stop_reason("function_call"), StopReason::ToolUse);
    assert_eq!(map_stop_reason("content_filter"), StopReason::Error);
    assert_eq!(map_stop_reason("unknown"), StopReason::Stop);
}

#[test]
fn test_map_stop_reason() {
    assert_eq!(map_stop_reason("stop"), StopReason::Stop);
    assert_eq!(map_stop_reason("length"), StopReason::Length);
    assert_eq!(map_stop_reason("tool_calls"), StopReason::ToolUse);
    assert_eq!(map_stop_reason("function_call"), StopReason::ToolUse);
    assert_eq!(map_stop_reason("content_filter"), StopReason::Error);
    assert_eq!(map_stop_reason("unknown"), StopReason::Stop);
}

#[test]
fn stop_reason_maps_to_done_reason() {
    assert_eq!(
        done_reason_from_stop_reason(StopReason::Stop),
        StopReasonSuccess::Stop
    );
    assert_eq!(
        done_reason_from_stop_reason(StopReason::Length),
        StopReasonSuccess::Length
    );
    assert_eq!(
        done_reason_from_stop_reason(StopReason::ToolUse),
        StopReasonSuccess::ToolUse
    );
    assert_eq!(
        done_reason_from_stop_reason(StopReason::Error),
        StopReasonSuccess::Stop
    );
}

#[test]
fn aborted_counts_as_stop_for_the_success_channel() {
    assert_eq!(
        done_reason_from_stop_reason(StopReason::Aborted),
        StopReasonSuccess::Stop
    );
}

#[test]
fn timestamp_is_recent() {
    let ts = unix_timestamp_millis();
    // Should be after 2020-01-01 (1577836800000 ms)
    assert!(ts > 1_577_836_800_000);
}

#[test]
fn handle_tool_calls_ignores_orphan_argument_delta_without_identity() {
    let mut sender = EventStreamSender::new();
    let mut output = make_output_message();
    let mut current_block: Option<CurrentBlock> = None;

    let orphan_delta = OpenAiLikeToolCallDelta {
        id: None,
        function: Some(OpenAiLikeFunctionDelta {
            name: None,
            arguments: Some("{\"a\": 15, \"b\": ".to_string()),
        }),
    };

    handle_tool_calls(
        &[orphan_delta],
        &mut output,
        &mut sender,
        &mut current_block,
    );

    assert!(current_block.is_none());
    assert!(output.content.is_empty());
    assert!(sender.take_events().is_empty());
}

#[test]
fn handle_tool_calls_merges_idless_continuation_into_active_tool_call() {
    let mut sender = EventStreamSender::new();
    let mut output = make_output_message();
    let mut current_block: Option<CurrentBlock> = None;

    let start_delta = OpenAiLikeToolCallDelta {
        id: Some("call_123".to_string()),
        function: Some(OpenAiLikeFunctionDelta {
            name: Some("multiply".to_string()),
            arguments: Some("{\"a\": 15, \"b\": ".to_string()),
        }),
    };

    let continuation_delta = OpenAiLikeToolCallDelta {
        id: None,
        function: Some(OpenAiLikeFunctionDelta {
            name: None,
            arguments: Some("3}".to_string()),
        }),
    };

    handle_tool_calls(&[start_delta], &mut output, &mut sender, &mut current_block);
    handle_tool_calls(
        &[continuation_delta],
        &mut output,
        &mut sender,
        &mut current_block,
    );
    finish_current_block(&mut current_block, &mut output, &mut sender);

    assert_eq!(output.content.len(), 1);
    match &output.content[0] {
        Content::ToolCall { inner } => {
            assert_eq!(inner.id.as_str(), "call_123");
            assert_eq!(inner.name, "multiply");
            assert_eq!(inner.arguments, json(r#"{"a": 15, "b": 3}"#));
        }
        _ => panic!("expected tool call content"),
    }

    let events = sender.take_events();
    assert_eq!(events.len(), 4);
    assert!(matches!(
        events[0],
        AssistantMessageEvent::ToolCallStart { content_index: 0, .. }
    ));
    match &events[1] {
        AssistantMessageEvent::ToolCallDelta { delta, .. } => {
            assert_eq!(delta, "{\"a\": 15, \"b\": ")
        }
        _ => panic!("expected tool call delta"),
    }
    match &events[2] {
        AssistantMessageEvent::ToolCallDelta { delta, partial, .. } => {
            assert_eq!(delta, "3}");
            match &partial.content[0] {
                Content::ToolCall { inner } => assert_eq!(inner.arguments, json("{}")),
                _ => panic!("expected tool call stub"),
            }
        }
        _ => panic!("expected tool call delta"),
    }
    match &events[3] {
        AssistantMessageEvent::ToolCallEnd {
            content_index,
            tool_call,
            ..
        } => {
            assert_eq!(*content_index, 0);
            assert_eq!(tool_call.arguments, json(r#"{"a": 15, "b": 3}"#));
            assert!(tool_call.thought_signature.is_none());
        }
        _ => panic!("expected tool call end"),
    }
}

#[test]
fn unparseable_tool_arguments_become_the_empty_object() {
    let mut sender = EventStreamSender::new();
    let mut output = make_output_message();
    let mut current_block: Option<CurrentBlock> = None;

    let delta = OpenAiLikeToolCallDelta {
        id: Some("call_1".to_string()),
        function: Some(OpenAiLikeFunctionDelta {
            name: Some("f".to_string()),
            arguments: Some("{\"a\": ".to_string()),
        }),
    };
    handle_tool_calls(&[delta], &mut output, &mut sender, &mut current_block);
    finish_current_block(&mut current_block, &mut output, &mut sender);

    match &output.content[0] {
        Content::ToolCall { inner } => assert_eq!(inner.arguments, json("{}")),
        _ => panic!("expected tool call content"),
    }
}

#[test]
fn a_different_id_starts_the_next_tool_call() {
    let mut sender = EventStreamSender::new();
    let mut output = make_output_message();
    let mut current_block: Option<CurrentBlock> = None;

    let first = OpenAiLikeToolCallDelta {
        id: Some("a".to_string()),
        function: Some(OpenAiLikeFunctionDelta {
            name: Some("f".to_string()),
            arguments: Some("{}".to_string()),
        }),
    };
    let same = OpenAiLikeToolCallDelta {
        id: Some("a".to_string()),
        function: None,
    };
    let empty_id = OpenAiLikeToolCallDelta {
        id: Some(String::new()),
        function: None,
    };
    let second = OpenAiLikeToolCallDelta {
        id: Some("b".to_string()),
        function: Some(OpenAiLikeFunctionDelta {
            name: Some("g".to_string()),
            arguments: None,
        }),
    };

    assert!(should_start_new_tool_call(&current_block, &first));
    handle_tool_calls(&[first], &mut output, &mut sender, &mut current_block);
    assert!(!should_start_new_tool_call(&current_block, &same));
    assert!(!should_start_new_tool_call(&current_block, &empty_id));
    assert!(should_start_new_tool_call(&current_block, &second));
    handle_tool_calls(&[second], &mut output, &mut sender, &mut current_block);
    finish_current_block(&mut current_block, &mut output, &mut sender);

    assert_eq!(output.content.len(), 2);
    let events = sender.take_events();
    assert!(matches!(events[0], AssistantMessageEvent::ToolCallStart { content_index: 0, .. }));
    assert!(matches!(events[1], AssistantMessageEvent::ToolCallDelta { content_index: 0, .. }));
    assert!(matches!(events[2], AssistantMessageEvent::ToolCallEnd { content_index: 0, .. }));
    assert!(matches!(events[3], AssistantMessageEvent::ToolCallStart { content_index: 1, .. }));
    assert!(matches!(events[4], AssistantMessageEvent::ToolCallEnd { content_index: 1, .. }));
    assert_eq!(events.len(), 5);
    match &output.content[1] {
        Content::ToolCall { inner } => {
            assert_eq!(inner.id.as_str(), "b");
            assert_eq!(inner.name, "g");
            assert_eq!(inner.arguments, json("{}"));
        }
        _ => panic!("expected tool call content"),
    }
}

#[test]
fn a_name_that_arrives_later_overwrites_the_placeholder() {
    let mut sender = EventStreamSender::new();
    let mut output = make_output_message();
    let mut current_block: Option<CurrentBlock> = None;

    let id_only = OpenAiLikeToolCallDelta {
        id: Some("call_9".to_string()),
        function: None,
    };
    let name_only = OpenAiLikeToolCallDelta {
        id: None,
        function: Some(OpenAiLikeFunctionDelta {
            name: Some("late".to_string()),
            arguments: None,
        }),
    };
    assert!(has_tool_call_identity(&id_only));
    assert!(has_tool_call_identity(&name_only));
    handle_tool_calls(
        &[id_only, name_only],
        &mut output,
        &mut sender,
        &mut current_block,
    );
    finish_current_block(&mut current_block, &mut output, &mut sender);
    assert_eq!(output.content.len(), 1);
    match &output.content[0] {
        Content::ToolCall { inner } => {
            assert_eq!(inner.id.as_str(), "call_9");
            assert_eq!(inner.name, "late");
        }
        _ => panic!("expected tool call content"),
    }
}

#[test]
fn text_then_reasoning_closes_the_text_block() {
    let mut sender = EventStreamSender::new();
    let mut output = make_output_message();
    let mut current_block: Option<CurrentBlock> = None;

    handle_text_delta("", &mut output, &mut sender, &mut current_block);
    assert!(current_block.is_none());
    handle_text_delta("Hel", &mut output, &mut sender, &mut current_block);
    handle_text_delta("lo", &mut output, &mut sender, &mut current_block);
    handle_reasoning_delta(
        ReasoningDelta {
            text: "hm",
            signature: "reasoning",
        },
        &mut output,
        &mut sender,
        &mut current_block,
    );
    handle_reasoning_delta(
        ReasoningDelta {
            text: "",
            signature: "other",
        },
        &mut output,
        &mut sender,
        &mut current_block,
    );
    finish_current_block(&mut current_block, &mut output, &mut sender);
    finish_current_block(&mut current_block, &mut output, &mut sender);

    let events = sender.take_events();
    assert_eq!(events.len(), 7);
    assert!(matches!(events[0], AssistantMessageEvent::TextStart { content_index: 0, .. }));
    assert!(matches!(events[1], AssistantMessageEvent::TextDelta { content_index: 0, .. }));
    assert!(matches!(events[2], AssistantMessageEvent::TextDelta { content_index: 0, .. }));
    match &events[3] {
        AssistantMessageEvent::TextEnd {
            content_index,
            content,
            partial,
        } => {
            assert_eq!(*content_index, 0);
            assert_eq!(content, "Hello");
            assert_eq!(partial.content.len(), 1);
        }
        _ => panic!("expected text end"),
    }
    assert!(matches!(events[4], AssistantMessageEvent::ThinkingStart { content_index: 1, .. }));
    assert!(matches!(events[5], AssistantMessageEvent::ThinkingDelta { content_index: 1, .. }));
    match &events[6] {
        AssistantMessageEvent::ThinkingEnd { content, .. } => assert_eq!(content, "hm"),
        _ => panic!("expected thinking end"),
    }
    match &output.content[1] {
        Content::Thinking { inner } => {
            assert_eq!(inner.thinking, "hm");
            assert_eq!(inner.thinking_signature.as_deref(), Some("reasoning"));
        }
        _ => panic!("expected thinking content"),
    }
}

#[test]
fn update_usage_uses_provider_raw_totals() {
    let mut payload = usage(79, 114);
    payload.completion_tokens_details = Some(CompletionTokensDetails {
        reasoning_tokens: Some(91),
    });
    payload.total_tokens = Some(193);

    let mut output = make_output_message();
    update_usage_from_chunk(&payload, &mut output);

    assert_eq!(output.usage.input, 79);
    assert_eq!(output.usage.output, 114);
    assert_eq!(output.usage.total_tokens, 193);
}

#[test]
fn update_usage_uses_provider_cache_tokens_when_present() {
    let mut payload = usage(100, 25);
    payload.total_tokens = Some(125);
    payload.cache_read_input_tokens = Some(12);
    payload.cache_creation_input_tokens = Some(9);
    payload.prompt_tokens_details = Some(PromptTokensDetails {
        cached_tokens: Some(7),
        cache_write_tokens: Some(5),
    });

    let mut output = make_output_message();
    update_usage_from_chunk(&payload, &mut output);

    assert_eq!(output.usage.cache_read, 12);
    assert_eq!(output.usage.cache_write, 9);
}

#[test]
fn update_usage_falls_back_to_prompt_details() {
    let mut payload = usage(80, 20);
    payload.prompt_tokens_details = Some(PromptTokensDetails {
        cached_tokens: Some(15),
        cache_write_tokens: Some(4),
    });

    let mut output = make_output_message();
    update_usage_from_chunk(&payload, &mut output);

    assert_eq!(output.usage.cache_read, 15);
    assert_eq!(output.usage.cache_write, 4);
    assert_eq!(output.usage.total_tokens, 100);
}

#[test]
fn openai_usage_moves_cached_and_reasoning_tokens() {
    let mut payload = usage(100, 25);
    payload.total_tokens = Some(999);
    payload.prompt_tokens_details = Some(PromptTokensDetails {
        cached_tokens: Some(30),
        cache_write_tokens: Some(5),
    });
    payload.completion_tokens_details = Some(CompletionTokensDetails {
        reasoning_tokens: Some(7),
    });

    let mut output = make_output_message();
    update_openai_usage_from_chunk(&payload, &mut output);

    assert_eq!(output.usage.input, 70);
    assert_eq!(output.usage.output, 32);
    assert_eq!(output.usage.cache_read, 30);
    assert_eq!(output.usage.cache_write, 5);
    assert_eq!(output.usage.total_tokens, 132);

    let mut more_cached = usage(10, 1);
    more_cached.prompt_tokens_details = Some(PromptTokensDetails {
        cached_tokens: Some(30),
        cache_write_tokens: None,
    });
    update_openai_usage_from_chunk(&more_cached, &mut output);
    assert_eq!(output.usage.input, 0);
    assert_eq!(output.usage.output, 1);
    assert_eq!(output.usage.total_tokens, 31);

    let mut top_level = usage(50, 2);
    top_level.cache_read_input_tokens = Some(20);
    top_level.cache_creation_input_tokens = Some(3);
    top_level.prompt_tokens_details = Some(PromptTokensDetails {
        cached_tokens: Some(1),
        cache_write_tokens: Some(1),
    });
    update_openai_usage_from_chunk(&top_level, &mut output);
    assert_eq!(output.usage.input, 30);
    assert_eq!(output.usage.cache_read, 20);
    assert_eq!(output.usage.cache_write, 3);
    assert_eq!(output.usage.total_tokens, 52);
}

#[test]
fn usage_sums_do_not_wrap() {
    let payload = usage(u32::MAX, u32::MAX);
    let mut output = make_output_message();
    update_usage_from_chunk(&payload, &mut output);
    assert_eq!(output.usage.total_tokens, 2 * (u32::MAX as u64));
}

#[test]
fn the_first_terminal_event_fills_the_result_slot() {
    let mut sender = EventStreamSender::new();
    let mut output = initialize_output(
        Api::MinimaxCompletions,
        Provider::Known(KnownProvider::Minimax),
        "MiniMax-M2.5".to_string(),
    );
    assert!(output.timestamp > 1_577_836_800_000);
    assert!(sender.result().is_none());
    push_stream_start(&output, &mut sender);
    assert!(sender.result().is_none());
    output.stop_reason = StopReason::Length;
    push_stream_done(&output, &mut sender);
    assert_eq!(sender.result().unwrap().stop_reason, StopReason::Length);
    push_stream_error(&mut output, &mut sender, &Error::Aborted);
    assert_eq!(sender.result().unwrap().stop_reason, StopReason::Length);
    assert_eq!(sender.queued_len(), 3);
    let events = sender.take_events();
    assert!(matches!(events[0], AssistantMessageEvent::Start { .. }));
    assert!(matches!(
        events[1],
        AssistantMessageEvent::Done {
            reason: StopReasonSuccess::Length,
            ..
        }
    ));
    match &events[2] {
        AssistantMessageEvent::Error { reason, error } => {
            assert_eq!(*reason, StopReasonError::Error);
            assert_eq!(error.stop_reason, StopReason::Error);
            assert_eq!(error.error_message.as_deref(), Some("Stream aborted"));
        }
        _ => panic!("expected error event"),
    }
    assert_eq!(sender.queued_len(), 0);
    sender.end();
}

#[test]
fn output_at_starts_empty() {
    let output = output_at(
        Api::OpenAICompletions,
        Provider::Custom("x".to_string()),
        "m".to_string(),
        42,
    );
    assert!(output.content.is_empty());
    assert_eq!(output.usage, Usage::default());
    assert_eq!(output.stop_reason, StopReason::Stop);
    assert!(output.error_message.is_none());
    assert_eq!(output.timestamp, 42);
    assert_eq!(output.model, "m");
}

fn make_test_message() -> AssistantMessage {
    AssistantMessage {
        content: vec![],
        api: Api::OpenAICompletions,
        provider: Provider::Known(KnownProvider::OpenAI),
        model: "gpt-4".to_string(),
        usage: Usage::default(),
        stop_reason: StopReason::Stop,
        error_message: None,
        timestamp: 0,
    }
}

#[test]
fn test_stream_events() {
    let mut sender = EventStreamSender::new();

    let msg = make_test_message();

    // Push events
    sender.push(AssistantMessageEvent::Start {
        partial: msg.clone(),
    });
    sender.push(AssistantMessageEvent::TextDelta {
        content_index: 0,
        delta: "Hello".to_string(),
        partial: msg.clone(),
    });
    sender.push(AssistantMessageEvent::Done {
        reason: StopReasonSuccess::Stop,
        message: msg.clone(),
    });

    // Collect events
    let events = sender.take_events();
    assert_eq!(events.len(), 3);
    assert!(matches!(events[0], AssistantMessageEvent::Start { .. }));
    assert!(matches!(events[1], AssistantMessageEvent::TextDelta { .. }));
    assert!(matches!(events[2], AssistantMessageEvent::Done { .. }));
}

#[test]
fn test_result() {
    let mut sender = EventStreamSender::new();

    let msg = make_test_message();

    sender.push(AssistantMessageEvent::Done {
        reason: StopReasonSuccess::Stop,
        message: msg.clone(),
    });

    let result = sender.result().unwrap();
    assert_eq!(result.model, "gpt-4");
}

#[test]
fn a_clock_reading_becomes_a_timestamp() {
    assert_eq!(timestamp_from_reading(None), 0);
    assert_eq!(timestamp_from_reading(Some(0)), 0);
    assert_eq!(
        timestamp_from_reading(Some(1_577_836_800_000)),
        1_577_836_800_000
    );
    assert_eq!(timestamp_from_reading(Some(i64::MAX as u128)), i64::MAX);
    assert_eq!(timestamp_from_reading(Some(1u128 << 63)), i64::MIN);
    assert_eq!(timestamp_from_reading(Some(u128::MAX)), -1);
    assert_eq!(timestamp_from_reading(Some((1u128 << 64) + 7)), 7);
}

#[test]
fn a_driver_needs_a_key_and_a_success_status() {
    let provider = Provider::Known(KnownProvider::Minimax);
    let mut options = OpenAICompletionsOptions::default();
    match require_api_key(&options, &provider) {
        Err(Error::NoApiKey(name)) => assert_eq!(name, "minimax"),
        other => panic!("expected NoApiKey, got {other:?}"),
    }
    options.api_key = Some("secret".to_string());
    assert_eq!(require_api_key(&options, &provider).unwrap(), "secret");

    for status in [200u16, 204, 299] {
        assert!(response_error(status, "ignored".to_string()).is_none());
    }
    for status in [0u16, 199, 300, 404, 500, u16::MAX] {
        match response_error(status, "the body".to_string()) {
            Some(Error::ApiError {
                status_code,
                message,
            }) => {
                assert_eq!(status_code, status);
                assert_eq!(message, "the body");
            }
            other => panic!("expected ApiError, got {other:?}"),
        }
    }
}

#[test]
fn whitespace_is_the_unicode_white_space_property() {
    use_blank_thinking_check();
}

fn use_blank_thinking_check() {
    let white = [
        '\u{0009}', '\u{000A}', '\u{000B}', '\u{000C}', '\u{000D}', '\u{0020}', '\u{0085}',
        '\u{00A0}', '\u{1680}', '\u{2000}', '\u{2005}', '\u{200A}', '\u{2028}', '\u{2029}',
        '\u{202F}', '\u{205F}', '\u{3000}',
    ];
    let not_white = ['\u{0008}', '\u{000E}', '\u{001F}', '\u{200B}', '\u{180E}', 'a', '\u{FEFF}'];
    for c in white {
        let mut reader = alchemy_llm::providers::shared::sse::SseLineReader::new();
        let line = format!("{c}data: x{c}\n");
        assert_eq!(reader.feed(line.as_bytes()), vec!["x".to_string()]);
    }
    for c in not_white {
        let mut reader = alchemy_llm::providers::shared::sse::SseLineReader::new();
        let line = format!("{c}data: x\n");
        assert!(reader.feed(line.as_bytes()).is_empty());
    }
}
