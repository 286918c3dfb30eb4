use alchemy_llm::types::{
    Api, AssistantMessage, KnownProvider, Provider, StopReason, Tool, ToolCall, Usage,
};
use alchemy_llm::utils::overflow::get_overflow_patterns;
use alchemy_llm::utils::validation::conclude_validation;
use alchemy_llm::utils::validation::{find_tool, holds_no_reference};
use alchemy_llm::{
    is_context_overflow, minimax_cn_m2_1_highspeed, minimax_m2_5, parse_streaming_json,
    parse_streaming_json_smart, try_validate_tool_arguments, try_validate_tool_call,
    validate_tool_arguments, validate_tool_call, Error,
};

fn json(text: &str) -> serde_json::Value {
    serde_json::from_str(text).expect("valid JSON")
}

#[test]
fn test_complete_json() {
    let result = parse_streaming_json(r#"{"name": "test"}"#);
    assert_eq!(result, json(r#"{"name": "test"}"#));
}

#[test]
fn test_missing_closing_brace() {
    let result = parse_streaming_json(r#"{"name": "test""#);
    assert_eq!(result, json(r#"{"name": "test"}"#));
}

#[test]
fn test_nested_missing_braces() {
    let result = parse_streaming_json(r#"{"outer": {"inner": 1"#);
    assert_eq!(result, json(r#"{"outer": {"inner": 1}}"#));
}

#[test]
fn test_empty_input() {
    let result = parse_streaming_json("");
    assert_eq!(result, json("{}"));
}

#[test]
fn test_with_number_value() {
    let result = parse_streaming_json(r#"{"count": 42"#);
    assert_eq!(result, json(r#"{"count": 42}"#));
}

#[test]
fn test_with_null_value() {
    let result = parse_streaming_json(r#"{"value": null}"#);
    assert_eq!(result, json(r#"{"value": null}"#));
}

#[test]
fn test_incomplete_string_value() {
    // When string is incomplete, basic parser may not handle it
    let result = parse_streaming_json(r#"{"name": "test"#);
    // Should return empty object since string isn't complete
    assert!(result.is_object());
}

#[test]
fn common_endings_are_tried_in_order() {
    assert_eq!(
        parse_streaming_json(r#"{"name": "te"#),
        json(r#"{"name": "te"}"#)
    );
    assert_eq!(
        parse_streaming_json(r#"{"a": {"b": "c"#),
        json(r#"{"a": {"b": "c"}}"#)
    );
    assert_eq!(parse_streaming_json(r#"{"a": "#), json(r#"{"a": null}"#));
    assert_eq!(
        parse_streaming_json(r#"{"a": [1, 2"#),
        json(r#"{"a": [1, 2]}"#)
    );
    assert_eq!(parse_streaming_json("[1, 2"), json("{}"));
    assert_eq!(parse_streaming_json("[1, 2]"), json("[1, 2]"));
}

#[test]
fn test_smart_parser_complete() {
    let result = parse_streaming_json_smart(r#"{"name": "test"}"#);
    assert_eq!(result, json(r#"{"name": "test"}"#));
}

#[test]
fn test_smart_parser_array() {
    let result = parse_streaming_json_smart(r#"{"items": [1, 2, 3"#);
    assert_eq!(result, json(r#"{"items": [1, 2, 3]}"#));
}

#[test]
fn test_smart_parser_nested() {
    let result = parse_streaming_json_smart(r#"{"a": {"b": {"c": 1"#);
    assert_eq!(result, json(r#"{"a": {"b": {"c": 1}}}"#));
}

#[test]
fn test_smart_parser_mixed() {
    let result = parse_streaming_json_smart(r#"{"list": [{"id": 1}, {"id": 2"#);
    assert_eq!(result, json(r#"{"list": [{"id": 1}, {"id": 2}]}"#));
}

#[test]
fn test_smart_parser_unclosed_string() {
    let result = parse_streaming_json_smart(r#"{"name": "test"#);
    // Smart parser can close the string
    assert_eq!(result, json(r#"{"name": "test"}"#));
}

#[test]
fn test_smart_parser_escaped_quotes() {
    let result = parse_streaming_json_smart(r#"{"text": "hello \"world\""}"#);
    assert_eq!(result, json(r#"{"text": "hello \"world\""}"#));
}

#[test]
fn test_smart_parser_deeply_nested() {
    let result = parse_streaming_json_smart(r#"{"a": [{"b": [{"c": 1"#);
    assert_eq!(result, json(r#"{"a": [{"b": [{"c": 1}]}]}"#));
}

#[test]
fn test_smart_parser_empty() {
    let result = parse_streaming_json_smart("");
    assert_eq!(result, json("{}"));
}

#[test]
fn test_smart_parser_just_brace() {
    let result = parse_streaming_json_smart("{");
    assert_eq!(result, json("{}"));
}

#[test]
fn test_smart_parser_partial_key() {
    // Partial key won't parse even with smart parser
    let result = parse_streaming_json_smart(r#"{"na"#);
    // Should fall back to empty object
    assert!(result.is_object());
}

#[test]
fn smart_parser_reads_brackets_inside_strings_as_text() {
    assert_eq!(
        parse_streaming_json_smart(r#"{"a": "[{\"x"#),
        json(r#"{"a": "[{\"x"}"#)
    );
    assert_eq!(
        parse_streaming_json_smart(r#"[{"a": "}]"#),
        json(r#"[{"a": "}]"}]"#)
    );
    assert_eq!(parse_streaming_json_smart("[1, [2, {"), json("[1, [2, {}]]"));
}

fn make_message(
    stop_reason: StopReason,
    error_message: Option<&str>,
    input: u64,
) -> AssistantMessage {
    AssistantMessage {
        content: vec![],
        api: Api::AnthropicMessages,
        provider: Provider::Known(KnownProvider::Anthropic),
        model: "test".to_string(),
        usage: Usage {
            input,
            output: 0,
            cache_read: 0,
            cache_write: 0,
            total_tokens: input,
        },
        stop_reason,
        error_message: error_message.map(String::from),
        timestamp: 0,
    }
}

#[test]
fn test_anthropic_overflow() {
    let msg = make_message(
        StopReason::Error,
        Some("prompt is too long: 213462 tokens > 200000 maximum"),
        213462,
    );
    assert!(is_context_overflow(&msg, None));
}

#[test]
fn test_openai_overflow() {
    let msg = make_message(
        StopReason::Error,
        Some("Your input exceeds the context window of this model"),
        100000,
    );
    assert!(is_context_overflow(&msg, None));
}

#[test]
fn test_bedrock_overflow() {
    let msg = make_message(
        StopReason::Error,
        Some("The input is too long for requested model"),
        150000,
    );
    assert!(is_context_overflow(&msg, None));
}

#[test]
fn test_gemini_overflow() {
    let msg = make_message(
        StopReason::Error,
        Some("Input token count (150000) exceeds the maximum allowed (128000)"),
        150000,
    );
    assert!(is_context_overflow(&msg, None));
}

#[test]
fn test_groq_overflow() {
    let msg = make_message(
        StopReason::Error,
        Some("Please reduce the length of the messages"),
        100000,
    );
    assert!(is_context_overflow(&msg, None));
}

#[test]
fn test_openrouter_overflow() {
    let msg = make_message(
        StopReason::Error,
        Some("This model's maximum context length is 8192 tokens"),
        10000,
    );
    assert!(is_context_overflow(&msg, None));
}

#[test]
fn test_llamacpp_overflow() {
    let msg = make_message(
        StopReason::Error,
        Some("The request exceeds the available context size"),
        50000,
    );
    assert!(is_context_overflow(&msg, None));
}

#[test]
fn test_generic_overflow() {
    let msg = make_message(StopReason::Error, Some("context_length_exceeded"), 100000);
    assert!(is_context_overflow(&msg, None));

    let msg2 = make_message(
        StopReason::Error,
        Some("Error: too many tokens in request"),
        100000,
    );
    assert!(is_context_overflow(&msg2, None));
}

#[test]
fn test_status_code_overflow() {
    let msg = make_message(StopReason::Error, Some("413 status code (no body)"), 100000);
    assert!(is_context_overflow(&msg, None));

    let msg2 = make_message(StopReason::Error, Some("400 (no body)"), 100000);
    assert!(is_context_overflow(&msg2, None));
}

#[test]
fn test_silent_overflow() {
    let msg = make_message(StopReason::Stop, None, 250000);
    assert!(is_context_overflow(&msg, Some(200000)));
    assert!(!is_context_overflow(&msg, Some(300000)));
    assert!(!is_context_overflow(&msg, None));
}

#[test]
fn test_silent_overflow_with_cache() {
    let mut msg = make_message(StopReason::Stop, None, 100000);
    msg.usage.cache_read = 150000;
    // input + cache_read = 250000 > 200000
    assert!(is_context_overflow(&msg, Some(200000)));
}

#[test]
fn test_no_overflow() {
    let msg = make_message(StopReason::Stop, None, 50000);
    assert!(!is_context_overflow(&msg, Some(200000)));
    assert!(!is_context_overflow(&msg, None));
}

#[test]
fn test_error_without_overflow_message() {
    let msg = make_message(StopReason::Error, Some("Rate limit exceeded"), 50000);
    assert!(!is_context_overflow(&msg, None));
}

#[test]
fn test_overflow_patterns_not_empty() {
    let patterns = get_overflow_patterns();
    assert!(!patterns.is_empty());
    assert!(patterns.len() >= 10);
}

#[test]
fn overflow_needs_the_fitting_stop_reason() {
    let stopped = make_message(StopReason::Stop, Some("prompt is too long"), 10);
    assert!(!is_context_overflow(&stopped, None));
    let failed = make_message(StopReason::Error, None, 250000);
    assert!(!is_context_overflow(&failed, Some(200000)));
    let exact = make_message(StopReason::Stop, None, 200000);
    assert!(!is_context_overflow(&exact, Some(200000)));
    let mut huge = make_message(StopReason::Stop, None, u64::MAX);
    huge.usage.cache_read = u64::MAX;
    assert!(is_context_overflow(&huge, Some(u32::MAX)));
    let status = make_message(StopReason::Error, Some("see 413 (no body)"), 0);
    assert!(!is_context_overflow(&status, None));
}

fn make_tool(name: &str, schema: serde_json::Value) -> Tool {
    Tool {
        name: name.to_string(),
        description: "Test tool".to_string(),
        parameters: schema,
    }
}

fn make_tool_call(name: &str, arguments: serde_json::Value) -> ToolCall {
    ToolCall {
        id: "test-id".into(),
        name: name.to_string(),
        arguments,
        thought_signature: None,
    }
}

const WEATHER_SCHEMA: &str = r#"{
    "type": "object",
    "properties": {"location": {"type": "string"}},
    "required": ["location"]
}"#;

#[test]
fn test_validate_valid_args() {
    let tool = make_tool("get_weather", json(WEATHER_SCHEMA));

    let tool_call = make_tool_call("get_weather", json(r#"{"location": "NYC"}"#));
    let result = validate_tool_arguments(&tool, &tool_call);
    assert!(result.is_ok());
    assert_eq!(result.unwrap(), json(r#"{"location": "NYC"}"#));
}

#[test]
fn test_validate_missing_required() {
    let tool = make_tool("get_weather", json(WEATHER_SCHEMA));

    let tool_call = make_tool_call("get_weather", json("{}"));
    let result = validate_tool_arguments(&tool, &tool_call);
    assert!(result.is_err());

    let err = result.unwrap_err();
    assert!(matches!(err, Error::ToolValidationFailed(_)));
    let text = err.to_string();
    assert!(text.starts_with(
        "Tool validation failed: Validation failed for tool \"get_weather\":\n  - root: "
    ));
    assert!(text.ends_with("\n\nReceived arguments:\n{}"));
}

#[test]
fn test_validate_wrong_type() {
    let tool = make_tool("get_weather", json(WEATHER_SCHEMA));

    let tool_call = make_tool_call("get_weather", json(r#"{"location": 123}"#));
    let result = validate_tool_arguments(&tool, &tool_call);
    assert!(result.is_err());
    match result.unwrap_err() {
        Error::ToolValidationFailed(report) => {
            assert!(report.contains("\n  - /location: "));
            assert!(report.ends_with("\n\nReceived arguments:\n{\n  \"location\": 123\n}"));
        }
        other => panic!("expected ToolValidationFailed, got {other:?}"),
    }
}

#[test]
fn test_validate_tool_call_not_found() {
    let tools = vec![make_tool(
        "get_weather",
        json(r#"{"type": "object", "properties": {}}"#),
    )];

    let tool_call = make_tool_call("unknown_tool", json("{}"));
    let result = validate_tool_call(&tools, &tool_call);
    assert!(result.is_err());
    match result.unwrap_err() {
        Error::ToolNotFound(name) => assert_eq!(name, "unknown_tool"),
        other => panic!("expected ToolNotFound, got {other:?}"),
    }
}

#[test]
fn test_validate_tool_call_success() {
    let tools = vec![make_tool(
        "search",
        json(
            r#"{"type": "object", "properties": {"query": {"type": "string"}}, "required": ["query"]}"#,
        ),
    )];

    let tool_call = make_tool_call("search", json(r#"{"query": "rust programming"}"#));
    let result = validate_tool_call(&tools, &tool_call);
    assert!(result.is_ok());
}

#[test]
fn test_validate_nested_object() {
    let tool = make_tool(
        "create_user",
        json(
            r#"{
                "type": "object",
                "properties": {
                    "name": {"type": "string"},
                    "address": {
                        "type": "object",
                        "properties": {"city": {"type": "string"}, "zip": {"type": "string"}},
                        "required": ["city"]
                    }
                },
                "required": ["name", "address"]
            }"#,
        ),
    );

    let tool_call = make_tool_call(
        "create_user",
        json(r#"{"name": "Alice", "address": {"city": "Boston"}}"#),
    );
    let result = validate_tool_arguments(&tool, &tool_call);
    assert!(result.is_ok());

    // Missing nested required field
    let tool_call_bad = make_tool_call("create_user", json(r#"{"name": "Bob", "address": {}}"#));
    let result_bad = validate_tool_arguments(&tool, &tool_call_bad);
    assert!(result_bad.is_err());
}

#[test]
fn a_schema_that_does_not_compile_is_reported() {
    let tool = make_tool("broken", json(r#"{"type": 12}"#));
    let tool_call = make_tool_call("broken", json("{}"));
    match validate_tool_arguments(&tool, &tool_call) {
        Err(Error::ToolValidationFailed(report)) => {
            assert!(report.starts_with("Schema compile error: "))
        }
        other => panic!("expected ToolValidationFailed, got {other:?}"),
    }
}

#[test]
fn validation_reports_list_every_violation() {
    let tool_call = make_tool_call("f", json(r#"{"a": 1}"#));
    let found = vec![
        (String::new(), "top".to_string()),
        ("/a".to_string(), "inner".to_string()),
    ];
    match conclude_validation(&tool_call, Ok(found)) {
        Err(Error::ToolValidationFailed(report)) => assert_eq!(
            report,
            "Validation failed for tool \"f\":\n  - root: top\n  - /a: inner\n\nReceived arguments:\n{\n  \"a\": 1\n}"
        ),
        other => panic!("expected ToolValidationFailed, got {other:?}"),
    }
    assert_eq!(
        conclude_validation(&tool_call, Ok(vec![])).unwrap(),
        json(r#"{"a": 1}"#)
    );
    match conclude_validation(&tool_call, Err("bad".to_string())) {
        Err(Error::ToolValidationFailed(report)) => {
            assert_eq!(report, "Schema compile error: bad")
        }
        other => panic!("expected ToolValidationFailed, got {other:?}"),
    }
}

#[test]
fn minimax_model_has_first_class_api() {
    let model = minimax_m2_5();
    assert_eq!(model.api, Api::MinimaxCompletions);
    assert_eq!(model.provider, Provider::Known(KnownProvider::Minimax));
    assert_eq!(model.base_url, "https://api.minimax.io/v1/chat/completions");
}

#[test]
fn minimax_cn_model_uses_cn_provider_and_url() {
    let model = minimax_cn_m2_1_highspeed();
    assert_eq!(model.api, Api::MinimaxCompletions);
    assert_eq!(model.provider, Provider::Known(KnownProvider::MinimaxCn));
    assert_eq!(model.base_url, "https://api.minimax.chat/v1/chat/completions");
    assert_eq!(model.id, "MiniMax-M2.1-highspeed");
    assert_eq!(model.name, "MiniMax M2.1 Highspeed (CN)");
    assert!(model.reasoning);
    assert_eq!(model.context_window, 204_800);
    assert_eq!(model.max_tokens, 16_384);
    assert!(!model.accepts_images());
}

#[test]
fn schemas_with_a_reference_are_not_validated() {
    let call = make_tool_call("loop", json("{}"));
    for schema in [
        r##"{"$ref": "#"}"##,
        r##"{"allOf": [{"$ref": "#"}]}"##,
        r##"{"definitions": {"a": {"type": "string"}}, "properties": {"x": {"$ref": "#/definitions/a"}}}"##,
        r##"{"description": "see $ref"}"##,
    ] {
        let tool = make_tool("loop", json(schema));
        assert!(!holds_no_reference(&tool.parameters));
        assert!(try_validate_tool_arguments(&tool, &call).is_none());
        assert!(try_validate_tool_call(&[tool], &call).is_none());
    }
}

#[test]
fn schemas_without_a_reference_are_validated() {
    let tool = make_tool("get_weather", json(WEATHER_SCHEMA));
    assert!(holds_no_reference(&tool.parameters));
    let good = make_tool_call("get_weather", json(r#"{"location": "NYC"}"#));
    let bad = make_tool_call("get_weather", json("{}"));
    assert_eq!(
        try_validate_tool_arguments(&tool, &good).unwrap().unwrap(),
        json(r#"{"location": "NYC"}"#)
    );
    assert!(matches!(
        try_validate_tool_arguments(&tool, &bad),
        Some(Err(Error::ToolValidationFailed(_)))
    ));
    let looping = make_tool("other", json(r##"{"$ref": "#"}"##));
    let tools = vec![looping, tool];
    assert_eq!(find_tool(&tools, "get_weather"), Some(1));
    assert_eq!(find_tool(&tools, "nobody"), None);
    assert!(try_validate_tool_call(&tools, &good).unwrap().is_ok());
    let unknown = make_tool_call("nobody", json("{}"));
    assert!(matches!(
        try_validate_tool_call(&tools, &unknown),
        Some(Err(Error::ToolNotFound(_)))
    ));
}
