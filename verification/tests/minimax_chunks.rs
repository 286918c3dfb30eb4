use alchemy_llm::providers::minimax::{flush_think_tag_parser, process_chunk};
use alchemy_llm::providers::shared::chunk::{
    ReasoningDetail, StreamChoice, StreamChunk, StreamDelta,
};
use alchemy_llm::providers::shared::stream_blocks::{
    finish_current_block, CurrentBlock, OpenAiLikeStreamUsage,
};
use alchemy_llm::types::{
    Api, AssistantMessage, AssistantMessageEvent, Content, EventStreamSender, KnownProvider,
    Provider, StopReason, Usage,
};
use alchemy_llm::utils::ThinkTagParser;

fn make_output_message() -> AssistantMessage {
    AssistantMessage {
        content: vec![],
        api: Api::MinimaxCompletions,
        provider: Provider::Known(KnownProvider::Minimax),
        model: "MiniMax-M2.5".to_string(),
        usage: Usage::default(),
        stop_reason: StopReason::Stop,
        error_message: None,
        timestamp: 0,
    }
}

fn delta() -> StreamDelta {
    StreamDelta {
        content: None,
        reasoning_details: None,
        reasoning_content: None,
        reasoning: None,
        reasoning_text: None,
        tool_calls: None,
    }
}

fn process_chunks_for_test(
    chunks: Vec<StreamChunk>,
) -> (Vec<AssistantMessageEvent>, AssistantMessage) {
    let mut sender = EventStreamSender::new();
    let mut output = make_output_message();
    let mut current_block: Option<CurrentBlock> = None;
    let mut parser = ThinkTagParser::new();

    for chunk in chunks {
        process_chunk(
            &chunk,
            &mut output,
            &mut sender,
            &mut current_block,
            &mut parser,
        );
    }

    flush_think_tag_parser(&mut parser, &mut output, &mut sender, &mut current_block);
    finish_current_block(&mut current_block, &mut output, &mut sender);

    (sender.take_events(), output)
}

#[test]
fn process_chunk_maps_reasoning_details_to_thinking_events() {
    let mut d = delta();
    d.reasoning_details = Some(vec![ReasoningDetail {
        text: Some("step one".to_string()),
    }]);
    let chunk = StreamChunk {
        choices: vec![StreamChoice {
            delta: Some(d),
            finish_reason: None,
        }],
        usage: None,
    };

    let (events, output) = process_chunks_for_test(vec![chunk]);

    assert!(matches!(
        events[0],
        AssistantMessageEvent::ThinkingStart { .. }
    ));
    assert!(matches!(
        events[1],
        AssistantMessageEvent::ThinkingDelta { .. }
    ));
    assert!(matches!(
        events[2],
        AssistantMessageEvent::ThinkingEnd { .. }
    ));

    match &output.content[0] {
        Content::Thinking { inner } => {
            assert_eq!(inner.thinking, "step one");
            assert_eq!(
                inner.thinking_signature.as_deref(),
                Some("reasoning_details")
            );
        }
        _ => panic!("expected thinking content"),
    }
}

#[test]
fn process_chunk_with_inline_think_tags_emits_expected_event_order() {
    let mut d = delta();
    d.content = Some("<think>reason</think>answer".to_string());
    let chunk = StreamChunk {
        choices: vec![StreamChoice {
            delta: Some(d),
            finish_reason: None,
        }],
        usage: None,
    };

    let (events, output) = process_chunks_for_test(vec![chunk]);

    assert!(matches!(
        events[0],
        AssistantMessageEvent::ThinkingStart { .. }
    ));
    assert!(matches!(
        events[1],
        AssistantMessageEvent::ThinkingDelta { .. }
    ));
    assert!(matches!(
        events[2],
        AssistantMessageEvent::ThinkingEnd { .. }
    ));
    assert!(matches!(events[3], AssistantMessageEvent::TextStart { .. }));
    assert!(matches!(events[4], AssistantMessageEvent::TextDelta { .. }));
    assert!(matches!(events[5], AssistantMessageEvent::TextEnd { .. }));

    assert_eq!(output.content.len(), 2);
    match &output.content[0] {
        Content::Thinking { inner } => {
            assert_eq!(inner.thinking, "reason");
            assert_eq!(inner.thinking_signature.as_deref(), Some("think_tag"));
        }
        _ => panic!("expected thinking content"),
    }
    match &output.content[1] {
        Content::Text { inner } => {
            assert_eq!(inner.text, "answer");
        }
        _ => panic!("expected text content"),
    }
}

#[test]
fn usage_only_chunk_updates_output_usage() {
    let chunk = StreamChunk {
        choices: vec![],
        usage: Some(OpenAiLikeStreamUsage {
            prompt_tokens: 12,
            completion_tokens: 8,
            total_tokens: Some(20),
            cache_read_input_tokens: None,
            cache_creation_input_tokens: None,
            prompt_tokens_details: None,
            completion_tokens_details: None,
        }),
    };

    let (_events, output) = process_chunks_for_test(vec![chunk]);

    assert_eq!(output.usage.input, 12);
    assert_eq!(output.usage.output, 8);
    assert_eq!(output.usage.total_tokens, 20);
}

#[test]
fn think_tags_cut_by_chunk_boundaries_are_recognized() {
    let pieces = ["<th", "ink>rea", "son</thi", "nk>ans", "wer"];
    let chunks = pieces
        .iter()
        .map(|piece| {
            let mut d = delta();
            d.content = Some(piece.to_string());
            StreamChunk {
                choices: vec![StreamChoice {
                    delta: Some(d),
                    finish_reason: None,
                }],
                usage: None,
            }
        })
        .collect();
    let (events, output) = process_chunks_for_test(chunks);
    assert_eq!(output.content.len(), 2);
    match &output.content[0] {
        Content::Thinking { inner } => assert_eq!(inner.thinking, "reason"),
        _ => panic!("expected thinking content"),
    }
    match &output.content[1] {
        Content::Text { inner } => assert_eq!(inner.text, "answer"),
        _ => panic!("expected text content"),
    }
    let deltas: Vec<&str> = events
        .iter()
        .filter_map(|event| match event {
            AssistantMessageEvent::ThinkingDelta { delta, .. } => Some(delta.as_str()),
            AssistantMessageEvent::TextDelta { delta, .. } => Some(delta.as_str()),
            _ => None,
        })
        .collect();
    assert_eq!(deltas, vec!["rea", "son", "ans", "wer"]);
}

#[test]
fn details_without_text_fall_back_to_the_scalar_fields() {
    let mut d = delta();
    d.reasoning_details = Some(vec![
        ReasoningDetail { text: None },
        ReasoningDetail {
            text: Some(String::new()),
        },
    ]);
    d.reasoning = Some("scalar".to_string());
    let chunk = StreamChunk {
        choices: vec![StreamChoice {
            delta: Some(d),
            finish_reason: Some("length".to_string()),
        }],
        usage: None,
    };
    let (_events, output) = process_chunks_for_test(vec![chunk]);
    assert_eq!(output.stop_reason, StopReason::Length);
    match &output.content[0] {
        Content::Thinking { inner } => {
            assert_eq!(inner.thinking, "scalar");
            assert_eq!(inner.thinking_signature.as_deref(), Some("reasoning"));
        }
        _ => panic!("expected thinking content"),
    }
}
