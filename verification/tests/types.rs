use alchemy_llm::types::{
    AnthropicMessages, Api, ApiType, AssistantMessage, BedrockConverseStream, Content, Context,
    GoogleGenerativeAi, GoogleVertex, ImageContent, InputType, KnownProvider, Message,
    MinimaxCompletions, Model, OpenAICompletions, OpenAIResponses, Provider,
    StopReason, StopReasonError, StopReasonSuccess, TextContent, Tool, ToolCall, ToolCallId,
    ToolResultContent, ToolResultMessage, Usage, UserContent, UserMessage,
};
use alchemy_llm::Error;

#[test]
fn stop_reason_conversion_contract_is_unchanged() {
    assert_eq!(StopReason::from(StopReasonSuccess::Stop), StopReason::Stop);
    assert_eq!(StopReason::from(StopReasonError::Error), StopReason::Error);
}

#[test]
fn google_vertex_and_bedrock_do_not_require_api_key() {
    let vertex_needs_key = !matches!(
        Api::GoogleVertex,
        Api::GoogleVertex | Api::BedrockConverseStream
    );
    let bedrock_needs_key = !matches!(
        Api::BedrockConverseStream,
        Api::GoogleVertex | Api::BedrockConverseStream
    );

    assert!(!vertex_needs_key);
    assert!(!bedrock_needs_key);
}

#[test]
fn tool_call_id_round_trip() {
    let id = ToolCallId::from("call-123");
    assert_eq!(id.as_str(), "call-123");
    assert_eq!(id.to_string(), "call-123");
    assert_eq!(id.into_inner(), "call-123");
}

#[test]
fn tool_call_id_creation_from_string() {
    let id: ToolCallId = "call_123".into();
    assert_eq!(id.as_str(), "call_123");
    assert_eq!(id.to_string(), "call_123");
}

#[test]
fn tool_call_id_creation_from_str() {
    let id = ToolCallId::from("valid_id-123");
    assert_eq!(id.as_str(), "valid_id-123");

    let another_valid = ToolCallId::from("abcABC_012");
    assert_eq!(another_valid.as_str(), "abcABC_012");
}

#[test]
fn tool_call_id_round_trip_conversion() {
    let original = "test-id-456";
    let id: ToolCallId = original.into();
    let back_to_string: String = id.into();
    assert_eq!(back_to_string, original);
}

#[test]
fn tool_call_id_emptiness_is_flagged() {
    assert!(ToolCallId::from("").is_empty());
    assert!(!ToolCallId::from("x").is_empty());
    assert_eq!(ToolCallId::from(String::from("abc")), ToolCallId::from("abc"));
}

#[test]
fn provider_custom_creation() {
    let provider = Provider::Custom("custom-provider".to_string());
    assert_eq!(provider.to_string(), "custom-provider");
}

#[test]
fn stop_reason_mapping_contract() {
    assert_eq!(StopReason::from(StopReasonSuccess::Stop), StopReason::Stop);
    assert_eq!(
        StopReason::from(StopReasonSuccess::Length),
        StopReason::Length
    );
    assert_eq!(
        StopReason::from(StopReasonSuccess::ToolUse),
        StopReason::ToolUse
    );
    assert_eq!(StopReason::from(StopReasonError::Error), StopReason::Error);
    assert_eq!(
        StopReason::from(StopReasonError::Aborted),
        StopReason::Aborted
    );
}

#[test]
fn user_content_text_creation() {
    let content = UserContent::Text("Hello, world!".to_string());

    match content {
        UserContent::Text(text) => assert_eq!(text, "Hello, world!"),
        _ => panic!("Expected text content"),
    }
}

#[test]
fn provider_string_representation() {
    let openai = Provider::Known(KnownProvider::OpenAI);
    let anthropic = Provider::Known(KnownProvider::Anthropic);
    let google = Provider::Known(KnownProvider::Google);

    assert_eq!(openai.to_string(), "openai");
    assert_eq!(anthropic.to_string(), "anthropic");
    assert_eq!(google.to_string(), "google");
}

#[test]
fn api_type_consistency() {
    assert_eq!(Api::OpenAICompletions.to_string(), "openai-completions");
    assert_eq!(Api::AnthropicMessages.to_string(), "anthropic-messages");
    assert_eq!(Api::GoogleGenerativeAi.to_string(), "google-generative-ai");
}

#[test]
fn stop_reason_error_variants_exist() {
    let _err = StopReasonError::Error;
    let _aborted = StopReasonError::Aborted;
}

#[test]
fn stop_reason_success_variants_exist() {
    let _stop = StopReasonSuccess::Stop;
    let _length = StopReasonSuccess::Length;
    let _tool_use = StopReasonSuccess::ToolUse;
}

#[test]
fn stop_reason_enum_variants_exist() {
    let _stop = StopReason::Stop;
    let _length = StopReason::Length;
    let _tool_use = StopReason::ToolUse;
    let _error = StopReason::Error;
    let _aborted = StopReason::Aborted;
}

#[test]
fn tool_call_id_in_tool_result() {
    let id: ToolCallId = "test-call-id".into();
    let result = ToolResultMessage {
        tool_call_id: id,
        tool_name: "test".to_string(),
        content: vec![],
        details: None,
        is_error: false,
        timestamp: 0,
    };

    assert_eq!(result.tool_call_id.as_str(), "test-call-id");
}

#[test]
fn content_text_creation() {
    let content = Content::text("Hello world");
    match content {
        Content::Text { inner } => assert_eq!(inner.text, "Hello world"),
        _ => panic!("Expected text content"),
    }
}

#[test]
fn context_default_is_empty() {
    let ctx = Context::default();
    assert!(ctx.system_prompt.is_none());
    assert!(ctx.messages.is_empty());
    assert!(ctx.tools.is_none());
}

#[test]
fn usage_default_is_zero() {
    let usage = Usage::default();
    assert_eq!(usage.input, 0);
    assert_eq!(usage.output, 0);
    assert_eq!(usage.cache_read, 0);
    assert_eq!(usage.cache_write, 0);
    assert_eq!(usage.total_tokens, 0);
}

fn arguments(text: &str) -> serde_json::Value {
    serde_json::from_str(text).expect("valid JSON")
}

#[test]
fn tool_call_construction_with_all_fields() {
    let tool_call = ToolCall {
        id: "call_abc123".into(),
        name: "get_weather".to_string(),
        arguments: arguments(r#"{"location": "Tokyo", "units": "celsius"}"#),
        thought_signature: None,
    };

    assert_eq!(tool_call.id.as_str(), "call_abc123");
    assert_eq!(tool_call.name, "get_weather");
    assert_eq!(tool_call.arguments["location"], "Tokyo");
}

#[test]
fn tool_result_message_construction() {
    let tool_call_id: ToolCallId = "call_123".into();
    let content = vec![ToolResultContent::Text(TextContent {
        text: "Sunny, 22C".to_string(),
        text_signature: None,
    })];

    let result = ToolResultMessage {
        tool_call_id,
        tool_name: "get_weather".to_string(),
        content,
        details: None,
        is_error: false,
        timestamp: 1234567890,
    };

    assert_eq!(result.tool_call_id.as_str(), "call_123");
    assert_eq!(result.tool_name, "get_weather");
    assert!(!result.is_error);
}

#[test]
fn tool_result_with_error_flag() {
    let result = ToolResultMessage {
        tool_call_id: "call_456".into(),
        tool_name: "search".to_string(),
        content: vec![ToolResultContent::Text(TextContent {
            text: "Search failed: timeout".to_string(),
            text_signature: None,
        })],
        details: None,
        is_error: true,
        timestamp: 0,
    };

    assert!(result.is_error);
    match &result.content[0] {
        ToolResultContent::Text(t) => assert!(t.text.contains("failed")),
        _ => panic!("Expected text content"),
    }
}

fn create_test_tool(name: &str, description: &str) -> Tool {
    Tool::new(
        name,
        description,
        arguments(
            r#"{"type": "object", "properties": {"query": {"type": "string", "description": "Search query"}}, "required": ["query"]}"#,
        ),
    )
}

#[test]
fn context_with_tools_constructs_correctly() {
    let tools = vec![
        create_test_tool("search", "Search documents"),
        create_test_tool("get_weather", "Get weather information for a location"),
    ];

    let context = Context {
        system_prompt: Some("You can use tools to help.".to_string()),
        messages: vec![Message::User(UserMessage {
            content: UserContent::Text("What's the weather?".to_string()),
            timestamp: 0,
        })],
        tools: Some(tools),
    };

    assert!(context.tools.is_some());
    assert_eq!(context.tools.as_ref().unwrap().len(), 2);
}

#[test]
fn assistant_message_with_content() {
    let assistant_msg = AssistantMessage {
        content: vec![Content::text("The weather in Paris is sunny.")],
        api: Api::OpenAICompletions,
        provider: Provider::Custom("test-provider".to_string()),
        model: "gpt-4".to_string(),
        usage: Usage::default(),
        stop_reason: StopReason::Stop,
        error_message: None,
        timestamp: 0,
    };

    assert_eq!(assistant_msg.content.len(), 1);
    assert_eq!(assistant_msg.stop_reason, StopReason::Stop);
}

#[test]
fn message_sequence_with_user_and_assistant() {
    let messages: Vec<Message> = vec![
        Message::User(UserMessage {
            content: UserContent::Text("What's 2 + 2?".to_string()),
            timestamp: 0,
        }),
        Message::Assistant(AssistantMessage {
            content: vec![Content::text("2 + 2 = 4")],
            api: Api::OpenAICompletions,
            provider: Provider::Custom("test-provider".to_string()),
            model: "gpt-4".to_string(),
            usage: Usage::default(),
            stop_reason: StopReason::Stop,
            error_message: None,
            timestamp: 1,
        }),
        Message::User(UserMessage {
            content: UserContent::Text("What about 3 + 3?".to_string()),
            timestamp: 2,
        }),
    ];

    assert_eq!(messages.len(), 3);

    match &messages[0] {
        Message::User(msg) => match &msg.content {
            UserContent::Text(text) => assert_eq!(text, "What's 2 + 2?"),
            _ => panic!("Expected text content"),
        },
        _ => panic!("Expected user message"),
    }

    match &messages[1] {
        Message::Assistant(msg) => {
            assert_eq!(msg.content.len(), 1);
            assert_eq!(msg.stop_reason, StopReason::Stop);
        }
        _ => panic!("Expected assistant message"),
    }

    match &messages[2] {
        Message::User(msg) => match &msg.content {
            UserContent::Text(text) => assert_eq!(text, "What about 3 + 3?"),
            _ => panic!("Expected text content"),
        },
        _ => panic!("Expected user message"),
    }
}

#[test]
fn tool_result_in_message_sequence() {
    let tool_result = ToolResultMessage {
        tool_call_id: "call_calc".into(),
        tool_name: "calculate".to_string(),
        content: vec![ToolResultContent::Text(TextContent {
            text: "4".to_string(),
            text_signature: None,
        })],
        details: None,
        is_error: false,
        timestamp: 2,
    };

    let message = Message::ToolResult(tool_result);

    match &message {
        Message::ToolResult(msg) => {
            assert_eq!(msg.tool_call_id.as_str(), "call_calc");
            assert_eq!(msg.tool_name, "calculate");
            assert!(!msg.is_error);
        }
        _ => panic!("Expected tool result message"),
    }
}

#[test]
fn context_with_multiple_messages_validates() {
    let context = Context {
        system_prompt: Some("System prompt".to_string()),
        messages: vec![
            Message::User(UserMessage {
                content: UserContent::Text("First message".to_string()),
                timestamp: 0,
            }),
            Message::User(UserMessage {
                content: UserContent::Text("Second message".to_string()),
                timestamp: 1,
            }),
        ],
        tools: None,
    };

    assert_eq!(context.messages.len(), 2);
    assert!(context.system_prompt.is_some());
}

#[test]
fn provider_names_round_trip() {
    let names = [
        "amazon-bedrock",
        "anthropic",
        "google",
        "google-vertex",
        "openai",
        "xai",
        "groq",
        "cerebras",
        "openrouter",
        "vercel-ai-gateway",
        "zai",
        "mistral",
        "minimax",
        "minimax-cn",
    ];
    for name in names {
        let provider = Provider::from_name(name);
        assert!(matches!(provider, Provider::Known(_)));
        assert_eq!(provider.as_str(), name);
        assert_eq!(KnownProvider::from_name(name).unwrap().to_string(), name);
    }
    assert_eq!(
        Provider::from_name("my-own"),
        Provider::Custom("my-own".to_string())
    );
    assert!(KnownProvider::from_name("my-own").is_none());
    assert_eq!(
        Provider::from(KnownProvider::Zai),
        Provider::Known(KnownProvider::Zai)
    );
}

#[test]
fn api_names_round_trip() {
    let names = [
        "anthropic-messages",
        "bedrock-converse-stream",
        "openai-completions",
        "minimax-completions",
        "openai-responses",
        "google-generative-ai",
        "google-vertex",
    ];
    for name in names {
        assert_eq!(Api::from_name(name).unwrap().as_str(), name);
    }
    assert!(Api::from_name("openai").is_none());
}

#[test]
fn dialect_tags_name_their_dialect() {
    assert_eq!(OpenAICompletions.api(), Api::OpenAICompletions);
    assert_eq!(MinimaxCompletions.api(), Api::MinimaxCompletions);
    assert_eq!(AnthropicMessages.api(), Api::AnthropicMessages);
    assert_eq!(BedrockConverseStream.api(), Api::BedrockConverseStream);
    assert_eq!(OpenAIResponses.api(), Api::OpenAIResponses);
    assert_eq!(GoogleGenerativeAi.api(), Api::GoogleGenerativeAi);
    assert_eq!(GoogleVertex.api(), Api::GoogleVertex);
    assert_eq!(
        Provider::Known(KnownProvider::OpenAI).to_string(),
        "openai"
    );
}

#[test]
fn unknown_names_are_refused() {
    assert_eq!(Api::from_str("google-vertex").unwrap(), Api::GoogleVertex);
    match Api::from_str("smoke-signals") {
        Err(Error::UnknownApi(name)) => assert_eq!(name, "smoke-signals"),
        other => panic!("expected UnknownApi, got {other:?}"),
    }
    assert_eq!(
        KnownProvider::from_str("minimax-cn").unwrap(),
        KnownProvider::MinimaxCn
    );
    match KnownProvider::from_str("nobody") {
        Err(Error::UnknownProvider(name)) => assert_eq!(name, "nobody"),
        other => panic!("expected UnknownProvider, got {other:?}"),
    }
    assert_eq!(
        Provider::from_str("nobody").unwrap(),
        Provider::Custom("nobody".to_string())
    );
    assert_eq!(
        Provider::from_str("xai").unwrap(),
        Provider::Known(KnownProvider::Xai)
    );
}

#[test]
fn image_base64_round_trip() {
    let image = ImageContent {
        data: vec![1, 2, 3],
        mime_type: "image/png".to_string(),
    };
    assert_eq!(image.to_base64(), "AQID");
    let decoded = ImageContent::from_base64("AQID", "image/png".to_string()).unwrap();
    assert_eq!(decoded.data, vec![1, 2, 3]);
    assert_eq!(decoded.mime_type, "image/png");
    assert!(ImageContent::from_base64("not base64!", "image/png".to_string()).is_err());
}

#[test]
fn error_texts() {
    assert_eq!(
        Error::NoApiKey("openai".to_string()).to_string(),
        "No API key provided for provider: openai"
    );
    assert_eq!(
        Error::RequestError("connection refused".to_string()).to_string(),
        "HTTP request failed: connection refused"
    );
    assert_eq!(
        Error::ApiError {
            status_code: 429,
            message: "slow down".to_string()
        }
        .to_string(),
        "API returned error: 429 - slow down"
    );
    assert_eq!(
        Error::ApiError {
            status_code: 0,
            message: String::new()
        }
        .to_string(),
        "API returned error: 0 - "
    );
    assert_eq!(Error::Aborted.to_string(), "Stream aborted");
    assert_eq!(
        Error::InvalidResponse("x".to_string()).to_string(),
        "Invalid response: x"
    );
    assert_eq!(
        Error::InvalidJson("eof".to_string()).to_string(),
        "Invalid JSON: eof"
    );
    assert_eq!(
        Error::ModelNotFound {
            provider: "p".to_string(),
            model_id: "m".to_string()
        }
        .to_string(),
        "Model not found: provider=p, model_id=m"
    );
    assert_eq!(
        Error::UnknownProvider("p".to_string()).to_string(),
        "Unknown provider: p"
    );
    assert_eq!(
        Error::UnknownApi("a".to_string()).to_string(),
        "Unknown API: a"
    );
    assert_eq!(
        Error::ToolValidationFailed("bad".to_string()).to_string(),
        "Tool validation failed: bad"
    );
    assert_eq!(
        Error::ToolNotFound("t".to_string()).to_string(),
        "Tool not found: t"
    );
    assert_eq!(
        Error::ContextOverflow.to_string(),
        "Context overflow: model context window exceeded"
    );
    assert_eq!(
        Error::InvalidHeader("h".to_string()).to_string(),
        "Invalid header: h"
    );
}

#[test]
fn message_context_with_multiple_types() {
    let tool = Tool::new(
        "test_tool",
        "A test tool",
        arguments(r#"{"type": "object", "properties": {}}"#),
    );

    let context = Context {
        system_prompt: Some("System".to_string()),
        messages: vec![
            Message::User(UserMessage {
                content: UserContent::Text("Hello".to_string()),
                timestamp: 0,
            }),
            Message::Assistant(AssistantMessage {
                content: vec![Content::text("Response")],
                api: Api::OpenAICompletions,
                provider: Provider::Custom("test".to_string()),
                model: "gpt-4".to_string(),
                usage: Usage::default(),
                stop_reason: StopReason::Stop,
                error_message: None,
                timestamp: 1,
            }),
            Message::ToolResult(ToolResultMessage {
                tool_call_id: "call_1".into(),
                tool_name: "test_tool".to_string(),
                content: vec![ToolResultContent::Text(TextContent {
                    text: "Result".to_string(),
                    text_signature: None,
                })],
                details: None,
                is_error: false,
                timestamp: 2,
            }),
        ],
        tools: Some(vec![tool]),
    };

    assert_eq!(context.messages.len(), 3);
    assert!(context.system_prompt.is_some());
    let copy = context.clone();
    assert_eq!(copy.messages.len(), 3);
    assert_eq!(copy.tools.unwrap()[0].name, "test_tool");
}

#[test]
fn usage_with_values_calculates_total() {
    let usage = Usage {
        input: 10,
        output: 20,
        cache_read: 5,
        cache_write: 3,
        total_tokens: 38,
    };

    assert_eq!(usage.total_tokens, 38);
    assert_eq!(usage.input, 10);
    assert_eq!(usage.output, 20);
}

fn create_test_model(base_url: &str) -> Model {
    Model {
        id: "gpt-4o-mini".to_string(),
        name: "GPT-4o Mini".to_string(),
        api: Api::OpenAICompletions,
        provider: Provider::Known(KnownProvider::OpenAI),
        base_url: base_url.to_string(),
        reasoning: false,
        input: vec![InputType::Text],
        context_window: 128_000,
        max_tokens: 16_384,
        headers: None,
        compat: None,
    }
}

#[test]
fn model_provider_matches_api_type() {
    let model = create_test_model("https://api.openai.com/v1");
    assert_eq!(model.api.api(), Api::OpenAICompletions);
    assert_eq!(model.provider.to_string(), "openai");
}

#[test]
fn model_creation_with_all_fields() {
    let model = Model {
        id: "test-model".to_string(),
        name: "Test Model".to_string(),
        api: Api::OpenAICompletions,
        provider: Provider::Known(KnownProvider::OpenAI),
        base_url: "https://api.openai.com/v1".to_string(),
        reasoning: true,
        input: vec![InputType::Text, InputType::Image],
        context_window: 128_000,
        max_tokens: 4096,
        headers: None,
        compat: None,
    };

    assert_eq!(model.id, "test-model");
    assert!(model.reasoning);
    assert_eq!(model.input.len(), 2);
}
