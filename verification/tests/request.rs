use alchemy_llm::providers::minimax;
use alchemy_llm::providers::openai_completions::{
    build_params, detect_compat, resolve_compat, tool_choice_to_json,
};
use alchemy_llm::providers::shared::openai_like_messages::{
    assistant_text_parts, convert_messages, convert_tools, map_thinking_content,
    AssistantThinkingMode, OpenAiLikeMessageOptions, SystemPromptRole,
};
use alchemy_llm::types::{
    Api, AssistantMessage, Content, Context, ImageContent, InputType, KnownProvider,
    MaxTokensField, Message, Model, ModelCompat, OpenAICompletionsCompat,
    OpenAICompletionsOptions, OpenAIResponsesCompat, Provider, ReasoningEffort, ResolvedCompat,
    StopReason, TextContent, ThinkingFormat, Tool, ToolCall,
    ToolChoice, ToolResultContent, ToolResultMessage, Usage, UserContent, UserContentBlock,
    UserMessage,
};
use alchemy_llm::utils::json_doc::Json;

const TEST_BASE_URL: &str = "https://api.minimax.io/v1/chat/completions";

fn to_value(json: &Json) -> serde_json::Value {
    match json {
        Json::Null => serde_json::Value::Null,
        Json::Bool(b) => serde_json::Value::Bool(*b),
        Json::Number(n) => serde_json::Value::from(*n),
        Json::String(s) => serde_json::Value::String(s.clone()),
        Json::Array(items) => serde_json::Value::Array(items.iter().map(to_value).collect()),
        Json::Object(members) => {
            let mut map = serde_json::Map::new();
            for (name, value) in members {
                assert!(
                    map.insert(name.clone(), to_value(value)).is_none(),
                    "member {name} occurs twice"
                );
            }
            serde_json::Value::Object(map)
        }
        Json::Raw(value) => value.clone(),
    }
}

fn json(text: &str) -> serde_json::Value {
    serde_json::from_str(text).expect("valid JSON")
}

fn make_model(input: Vec<InputType>) -> Model {
    Model {
        id: "test-model".to_string(),
        name: "Test model".to_string(),
        api: Api::OpenAICompletions,
        provider: Provider::Known(KnownProvider::OpenAI),
        base_url: "https://example.com/v1/chat/completions".to_string(),
        reasoning: false,
        input,
        context_window: 128_000,
        max_tokens: 4_096,
        headers: None,
        compat: None,
    }
}

fn make_test_model(id: &str, name: &str, provider: KnownProvider, base_url: &str) -> Model {
    Model {
        id: id.to_string(),
        name: name.to_string(),
        api: Api::OpenAICompletions,
        provider: Provider::Known(provider),
        base_url: base_url.to_string(),
        reasoning: false,
        input: vec![InputType::Text],
        context_window: 128000,
        max_tokens: 4096,
        headers: None,
        compat: None,
    }
}

fn make_minimax_model(reasoning: bool) -> Model {
    Model {
        id: "MiniMax-M2.5".to_string(),
        name: "MiniMax M2.5".to_string(),
        api: Api::MinimaxCompletions,
        provider: Provider::Known(KnownProvider::Minimax),
        base_url: TEST_BASE_URL.to_string(),
        reasoning,
        input: vec![InputType::Text],
        context_window: 204_800,
        max_tokens: 16_384,
        headers: None,
        compat: None,
    }
}

fn make_context() -> Context {
    Context {
        system_prompt: Some("You are concise".to_string()),
        messages: vec![Message::User(UserMessage {
            content: UserContent::Text("Hello".to_string()),
            timestamp: 0,
        })],
        tools: None,
    }
}

fn make_assistant_message(content: Vec<Content>) -> AssistantMessage {
    AssistantMessage {
        content,
        api: Api::OpenAICompletions,
        provider: Provider::Known(KnownProvider::OpenAI),
        model: "test-model".to_string(),
        usage: Usage {
            input: 0,
            output: 0,
            cache_read: 0,
            cache_write: 0,
            total_tokens: 0,
        },
        stop_reason: StopReason::Stop,
        error_message: None,
        timestamp: 0,
    }
}

fn options(mode: AssistantThinkingMode) -> OpenAiLikeMessageOptions {
    OpenAiLikeMessageOptions {
        system_role: SystemPromptRole::System,
        requires_tool_result_name: false,
        assistant_thinking_mode: mode,
    }
}

fn convert_assistant_with_thinking(mode: AssistantThinkingMode) -> serde_json::Value {
    let model = make_model(vec![InputType::Text]);
    let context = Context {
        system_prompt: None,
        messages: vec![Message::Assistant(make_assistant_message(vec![
            Content::thinking("internal"),
            Content::text("answer"),
        ]))],
        tools: None,
    };

    to_value(&convert_messages(
        model.accepts_images(),
        &context,
        &options(mode),
    ))
}

#[test]
fn convert_messages_uses_system_role_option() {
    let model = make_model(vec![InputType::Text]);
    let context = Context {
        system_prompt: Some("sys".to_string()),
        messages: vec![],
        tools: None,
    };

    let params = to_value(&convert_messages(
        model.accepts_images(),
        &context,
        &OpenAiLikeMessageOptions {
            system_role: SystemPromptRole::Developer,
            requires_tool_result_name: false,
            assistant_thinking_mode: AssistantThinkingMode::Omit,
        },
    ));

    assert_eq!(params[0]["role"], "developer");
    assert_eq!(params[0]["content"], "sys");
}

#[test]
fn convert_messages_drops_images_for_text_only_model() {
    let model = make_model(vec![InputType::Text]);
    let context = Context {
        system_prompt: None,
        messages: vec![Message::User(UserMessage {
            content: UserContent::Multi(vec![UserContentBlock::Image(ImageContent {
                data: vec![1, 2, 3],
                mime_type: "image/png".to_string(),
            })]),
            timestamp: 0,
        })],
        tools: None,
    };

    let params = to_value(&convert_messages(
        model.accepts_images(),
        &context,
        &options(AssistantThinkingMode::Omit),
    ));

    assert_eq!(params[0]["content"], json("[]"));
}

#[test]
fn convert_messages_sends_images_to_a_model_that_accepts_them() {
    let model = make_model(vec![InputType::Text, InputType::Image]);
    let context = Context {
        system_prompt: None,
        messages: vec![Message::User(UserMessage {
            content: UserContent::Multi(vec![
                UserContentBlock::Text(TextContent {
                    text: "look".to_string(),
                    text_signature: None,
                }),
                UserContentBlock::Image(ImageContent {
                    data: vec![1, 2, 3],
                    mime_type: "image/png".to_string(),
                }),
            ]),
            timestamp: 0,
        })],
        tools: None,
    };

    let params = to_value(&convert_messages(
        model.accepts_images(),
        &context,
        &options(AssistantThinkingMode::Omit),
    ));

    assert_eq!(
        params,
        json(
            r#"[{"role": "user", "content": [
                {"type": "text", "text": "look"},
                {"type": "image_url", "image_url": {"url": "data:image/png;base64,AQID"}}
            ]}]"#
        )
    );
}

#[test]
fn convert_messages_includes_assistant_text_content() {
    let model = make_model(vec![InputType::Text]);
    let context = Context {
        system_prompt: None,
        messages: vec![Message::Assistant(make_assistant_message(vec![
            Content::text("hello"),
        ]))],
        tools: None,
    };

    let params = to_value(&convert_messages(
        model.accepts_images(),
        &context,
        &options(AssistantThinkingMode::Omit),
    ));

    assert_eq!(params[0]["role"], "assistant");
    assert_eq!(params[0]["content"][0]["text"], "hello");
}

#[test]
fn convert_messages_omits_assistant_thinking_in_omit_mode() {
    let model = make_model(vec![InputType::Text]);
    let context = Context {
        system_prompt: None,
        messages: vec![Message::Assistant(make_assistant_message(vec![
            Content::thinking("internal"),
        ]))],
        tools: None,
    };

    let params = to_value(&convert_messages(
        model.accepts_images(),
        &context,
        &options(AssistantThinkingMode::Omit),
    ));

    assert_eq!(params, json("[]"));
}

#[test]
fn convert_messages_includes_assistant_thinking_as_plain_text() {
    let params = convert_assistant_with_thinking(AssistantThinkingMode::PlainText);

    assert_eq!(params[0]["content"][0]["text"], "internal");
    assert_eq!(params[0]["content"][1]["text"], "answer");
}

#[test]
fn convert_messages_wraps_assistant_thinking_in_think_tags() {
    let params = convert_assistant_with_thinking(AssistantThinkingMode::ThinkTags);

    assert_eq!(params[0]["content"][0]["text"], "<think>internal</think>");
    assert_eq!(params[0]["content"][1]["text"], "answer");
}

#[test]
fn thinking_modes() {
    assert_eq!(map_thinking_content("t", AssistantThinkingMode::Omit), None);
    assert_eq!(
        map_thinking_content("t", AssistantThinkingMode::PlainText),
        Some("t".to_string())
    );
    assert_eq!(
        map_thinking_content("t", AssistantThinkingMode::ThinkTags),
        Some("<think>t</think>".to_string())
    );
    let assistant = make_assistant_message(vec![
        Content::text(""),
        Content::thinking(""),
        Content::thinking("a"),
        Content::text("b"),
    ]);
    assert_eq!(
        assistant_text_parts(&assistant, AssistantThinkingMode::ThinkTags),
        vec!["<think>a</think>".to_string(), "b".to_string()]
    );
    assert_eq!(SystemPromptRole::System.as_str(), "system");
    assert_eq!(SystemPromptRole::Developer.as_str(), "developer");
}

#[test]
fn convert_messages_converts_tool_calls_and_results() {
    let model = make_model(vec![InputType::Text]);
    let call = ToolCall {
        id: "call-1".into(),
        name: "search".to_string(),
        arguments: json(r#"{"query": "rust"}"#),
        thought_signature: Some("sig".to_string()),
    };
    let result = ToolResultMessage {
        tool_call_id: "call-1".into(),
        tool_name: "search".to_string(),
        content: vec![
            ToolResultContent::Text(TextContent {
                text: "first".to_string(),
                text_signature: None,
            }),
            ToolResultContent::Image(ImageContent {
                data: vec![0],
                mime_type: "image/png".to_string(),
            }),
            ToolResultContent::Text(TextContent {
                text: "second".to_string(),
                text_signature: None,
            }),
        ],
        details: None,
        is_error: false,
        timestamp: 0,
    };
    let context = Context {
        system_prompt: None,
        messages: vec![
            Message::Assistant(make_assistant_message(vec![
                Content::ToolCall { inner: call },
            ])),
            Message::ToolResult(result),
            Message::Assistant(make_assistant_message(vec![])),
        ],
        tools: None,
    };

    let without_name = to_value(&convert_messages(
        model.accepts_images(),
        &context,
        &options(AssistantThinkingMode::Omit),
    ));
    assert_eq!(
        without_name,
        json(
            r#"[
                {"role": "assistant", "tool_calls": [
                    {"id": "call-1", "type": "function",
                     "function": {"name": "search", "arguments": "{\"query\":\"rust\"}"}}
                ]},
                {"role": "tool", "tool_call_id": "call-1", "content": "first\nsecond"}
            ]"#
        )
    );

    let with_name = to_value(&convert_messages(
        model.accepts_images(),
        &context,
        &OpenAiLikeMessageOptions {
            system_role: SystemPromptRole::System,
            requires_tool_result_name: true,
            assistant_thinking_mode: AssistantThinkingMode::Omit,
        },
    ));
    assert_eq!(with_name[1]["name"], "search");
}

#[test]
fn convert_tools_marks_functions_as_not_strict() {
    let tools = vec![Tool::new(
        "search",
        "Search documents",
        json(r#"{"type": "object", "properties": {}}"#),
    )];
    assert_eq!(
        to_value(&convert_tools(&tools)),
        json(
            r#"[{"type": "function", "function": {
                "name": "search", "description": "Search documents",
                "parameters": {"type": "object", "properties": {}}, "strict": false}}]"#
        )
    );
}

#[test]
fn build_params_for_reasoning_model_uses_minimax_semantics() {
    let model = make_minimax_model(true);
    let context = make_context();
    let options = OpenAICompletionsOptions {
        temperature: Some(serde_json::Value::from(1.2)),
        max_tokens: Some(512),
        ..OpenAICompletionsOptions::default()
    };

    let params = to_value(&minimax::build_params(&model, &context, &options));

    assert_eq!(params["stream"], true);
    assert_eq!(params["stream_options"]["include_usage"], true);
    assert_eq!(params["reasoning_split"], true);
    assert_eq!(params["max_tokens"], 512);
    assert_eq!(params["temperature"], 1.2);
    assert_eq!(params["messages"][0]["role"], "system");
    assert_eq!(params["messages"][0]["content"], "You are concise");
    assert!(params.get("n").is_none());
    assert!(params.get("max_completion_tokens").is_none());
}

#[test]
fn build_params_for_non_reasoning_model_omits_reasoning_split() {
    let model = make_minimax_model(false);
    let context = make_context();
    let options = OpenAICompletionsOptions::default();

    let params = to_value(&minimax::build_params(&model, &context, &options));

    assert!(params.get("reasoning_split").is_none());
}

#[test]
fn test_detect_compat_openai() {
    let model = make_test_model(
        "gpt-4",
        "GPT-4",
        KnownProvider::OpenAI,
        "https://api.openai.com/v1/chat/completions",
    );

    let compat = detect_compat(&model);
    assert!(compat.supports_store);
    assert!(compat.supports_developer_role);
    assert!(compat.supports_reasoning_effort);
    assert_eq!(compat.max_tokens_field, MaxTokensField::MaxCompletionTokens);
    assert!(!compat.requires_mistral_tool_ids);
}

#[test]
fn test_detect_compat_mistral() {
    let model = make_test_model(
        "mistral-large",
        "Mistral Large",
        KnownProvider::Mistral,
        "https://api.mistral.ai/v1/chat/completions",
    );

    let compat = detect_compat(&model);
    assert!(!compat.supports_store);
    assert!(!compat.supports_developer_role);
    assert_eq!(compat.max_tokens_field, MaxTokensField::MaxTokens);
    assert!(compat.requires_mistral_tool_ids);
    assert!(compat.requires_tool_result_name);
}

#[test]
fn mistral_defaults_do_not_depend_on_the_base_url() {
    let model = make_test_model(
        "mistral-large",
        "Mistral Large",
        KnownProvider::Mistral,
        "https://proxy.example.com/v1",
    );
    let compat = resolve_compat(&model);
    assert_eq!(compat.max_tokens_field, MaxTokensField::MaxTokens);
    assert!(compat.requires_tool_result_name);
    assert!(!compat.supports_store);
    assert!(!compat.supports_developer_role);
}

#[test]
fn detection_reads_provider_and_url_only() {
    let by_url = Model {
        provider: Provider::Custom("gateway".to_string()),
        ..make_test_model("m", "M", KnownProvider::OpenAI, "https://api.z.ai/v4")
    };
    let compat = detect_compat(&by_url);
    assert_eq!(compat.thinking_format, ThinkingFormat::Zai);
    assert!(!compat.supports_reasoning_effort);
    assert!(!compat.supports_store);
    assert_eq!(compat.max_tokens_field, MaxTokensField::MaxCompletionTokens);

    let other_model = Model {
        id: "other".to_string(),
        name: "Other".to_string(),
        reasoning: true,
        input: vec![InputType::Image],
        context_window: 1,
        max_tokens: 1,
        ..by_url.clone()
    };
    assert_eq!(detect_compat(&other_model), compat);

    let grok = make_test_model("g", "G", KnownProvider::Xai, "https://api.x.ai/v1");
    let compat = detect_compat(&grok);
    assert!(!compat.supports_reasoning_effort);
    assert_eq!(compat.thinking_format, ThinkingFormat::Openai);
    assert!(compat.supports_usage_in_streaming);
    assert!(!compat.requires_assistant_after_tool_result);

    let chutes = make_test_model("c", "C", KnownProvider::OpenAI, "https://llm.chutes.ai/v1");
    let compat = detect_compat(&chutes);
    assert_eq!(compat.max_tokens_field, MaxTokensField::MaxTokens);
    assert!(!compat.supports_store);
    assert!(!compat.requires_tool_result_name);
}

#[test]
fn explicit_settings_replace_detected_ones_field_by_field() {
    let mut model = make_test_model(
        "mistral-large",
        "Mistral Large",
        KnownProvider::Mistral,
        "https://api.mistral.ai/v1/chat/completions",
    );
    let detected = detect_compat(&model);
    model.compat = Some(ModelCompat::OpenAIResponses(OpenAIResponsesCompat));
    assert_eq!(resolve_compat(&model), detected);
    model.compat = Some(ModelCompat::OpenAICompletions(
        OpenAICompletionsCompat::default(),
    ));
    assert_eq!(resolve_compat(&model), detected);

    model.compat = Some(ModelCompat::OpenAICompletions(OpenAICompletionsCompat {
        supports_store: Some(true),
        max_tokens_field: Some(MaxTokensField::MaxCompletionTokens),
        thinking_format: Some(ThinkingFormat::Zai),
        requires_assistant_after_tool_result: Some(true),
        ..OpenAICompletionsCompat::default()
    }));
    assert_eq!(
        resolve_compat(&model),
        ResolvedCompat {
            supports_store: true,
            max_tokens_field: MaxTokensField::MaxCompletionTokens,
            thinking_format: ThinkingFormat::Zai,
            requires_assistant_after_tool_result: true,
            ..detected
        }
    );
}

#[test]
fn openai_params_follow_the_resolved_settings() {
    let mut model = make_test_model(
        "o4",
        "O4",
        KnownProvider::OpenAI,
        "https://api.openai.com/v1/chat/completions",
    );
    model.reasoning = true;
    let mut context = make_context();
    context.tools = Some(vec![Tool::new("t", "d", json("{}"))]);
    let options = OpenAICompletionsOptions {
        temperature: Some(serde_json::Value::from(0.5)),
        max_tokens: Some(64),
        tool_choice: Some(ToolChoice::Function {
            name: "t".to_string(),
        }),
        reasoning_effort: Some(ReasoningEffort::High),
        ..OpenAICompletionsOptions::default()
    };
    let compat = resolve_compat(&model);
    let params = to_value(&build_params(&model, &context, &options, &compat));
    assert_eq!(
        params,
        json(
            r#"{
                "model": "o4",
                "stream": true,
                "messages": [
                    {"role": "developer", "content": "You are concise"},
                    {"role": "user", "content": "Hello"}
                ],
                "stream_options": {"include_usage": true},
                "store": false,
                "max_completion_tokens": 64,
                "temperature": 0.5,
                "tools": [{"type": "function", "function": {
                    "name": "t", "description": "d", "parameters": {}, "strict": false}}],
                "tool_choice": {"function": {"name": "t"}},
                "reasoning_effort": "high"
            }"#
        )
    );

    let zai = ResolvedCompat {
        thinking_format: ThinkingFormat::Zai,
        supports_store: false,
        supports_usage_in_streaming: false,
        supports_developer_role: false,
        max_tokens_field: MaxTokensField::MaxTokens,
        ..compat
    };
    let bare = OpenAICompletionsOptions {
        max_tokens: Some(1),
        reasoning_effort: Some(ReasoningEffort::Minimal),
        ..OpenAICompletionsOptions::default()
    };
    let params = to_value(&build_params(&model, &make_context(), &bare, &zai));
    assert_eq!(
        params,
        json(
            r#"{
                "model": "o4",
                "stream": true,
                "messages": [
                    {"role": "system", "content": "You are concise"},
                    {"role": "user", "content": "Hello"}
                ],
                "max_tokens": 1,
                "thinking": {"type": "enabled"}
            }"#
        )
    );

    model.reasoning = false;
    let params = to_value(&build_params(&model, &make_context(), &bare, &compat));
    assert!(params.get("reasoning_effort").is_none());
    assert_eq!(params["messages"][0]["role"], "system");
}

#[test]
fn tool_choices_are_written_as_words() {
    assert_eq!(to_value(&tool_choice_to_json(&ToolChoice::Auto)), "auto");
    assert_eq!(to_value(&tool_choice_to_json(&ToolChoice::NoTool)), "none");
    assert_eq!(
        to_value(&tool_choice_to_json(&ToolChoice::Required)),
        "required"
    );
    assert_eq!(ReasoningEffort::Xhigh.as_str(), "xhigh");
    assert_eq!(ReasoningEffort::Low.as_str(), "low");
    assert_eq!(ReasoningEffort::Medium.as_str(), "medium");
}
