use alchemy_llm::providers::env::{get_env_api_key, EnvSnapshot};
use alchemy_llm::stream::{dispatch, StreamDriver};
use alchemy_llm::types::{
    Api, InputType, KnownProvider, Model, OpenAICompletionsOptions, Provider,
};
use alchemy_llm::Error;

fn env(variables: &[(&str, &str)]) -> EnvSnapshot {
    EnvSnapshot {
        variables: variables
            .iter()
            .map(|(name, value)| (name.to_string(), value.to_string()))
            .collect(),
        google_credentials_file_exists: false,
        default_adc_file_exists: false,
    }
}

fn model(api: Api, provider: Provider) -> Model {
    Model {
        id: "m".to_string(),
        name: "M".to_string(),
        api,
        provider,
        base_url: "http://127.0.0.1:1/v1/chat/completions".to_string(),
        reasoning: true,
        input: vec![InputType::Text],
        context_window: 204_800,
        max_tokens: 16_384,
        headers: None,
        compat: None,
    }
}

#[test]
fn test_get_env_api_key_openai() {
    let key = "test-openai-key-12345";
    let result = get_env_api_key(
        &Provider::Known(KnownProvider::OpenAI),
        &env(&[("OPENAI_API_KEY", key)]),
    );
    assert_eq!(result, Some(key.to_string()));
}

#[test]
fn test_get_env_api_key_anthropic_api_key() {
    let key = "test-anthropic-api-key";
    let result = get_env_api_key(
        &Provider::Known(KnownProvider::Anthropic),
        &env(&[("ANTHROPIC_API_KEY", key)]),
    );
    assert_eq!(result, Some(key.to_string()));
}

#[test]
fn test_get_env_api_key_anthropic_oauth_takes_precedence() {
    let api_key = "api-key";
    let oauth_token = "oauth-token";
    let result = get_env_api_key(
        &Provider::Known(KnownProvider::Anthropic),
        &env(&[
            ("ANTHROPIC_API_KEY", api_key),
            ("ANTHROPIC_OAUTH_TOKEN", oauth_token),
        ]),
    );
    assert_eq!(result, Some(oauth_token.to_string()));
}

#[test]
fn test_get_env_api_key_custom_provider_returns_none() {
    let result = get_env_api_key(
        &Provider::Custom("my-custom-provider".to_string()),
        &env(&[("OPENAI_API_KEY", "x")]),
    );
    assert_eq!(result, None);
}

#[test]
fn test_get_env_api_key_missing_returns_none() {
    let result = get_env_api_key(&Provider::Known(KnownProvider::Groq), &env(&[]));
    assert_eq!(result, None);
}

#[test]
fn every_provider_has_its_variable() {
    let table = [
        (KnownProvider::Google, "GEMINI_API_KEY"),
        (KnownProvider::Groq, "GROQ_API_KEY"),
        (KnownProvider::Cerebras, "CEREBRAS_API_KEY"),
        (KnownProvider::Xai, "XAI_API_KEY"),
        (KnownProvider::OpenRouter, "OPENROUTER_API_KEY"),
        (KnownProvider::VercelAiGateway, "AI_GATEWAY_API_KEY"),
        (KnownProvider::Zai, "ZAI_API_KEY"),
        (KnownProvider::Mistral, "MISTRAL_API_KEY"),
        (KnownProvider::Minimax, "MINIMAX_API_KEY"),
        (KnownProvider::MinimaxCn, "MINIMAX_CN_API_KEY"),
    ];
    for (provider, name) in table {
        assert_eq!(
            get_env_api_key(&Provider::Known(provider), &env(&[("OTHER", "o"), (name, "k")])),
            Some("k".to_string())
        );
        assert_eq!(
            get_env_api_key(&Provider::Known(provider), &env(&[("OTHER", "o")])),
            None
        );
    }
}

#[test]
fn ambient_cloud_credentials_give_the_sentinel() {
    let vertex = Provider::Known(KnownProvider::GoogleVertex);
    let bedrock = Provider::Known(KnownProvider::AmazonBedrock);
    let sentinel = Some("<authenticated>".to_string());

    assert_eq!(get_env_api_key(&vertex, &env(&[])), None);
    let mut named = env(&[("GOOGLE_APPLICATION_CREDENTIALS", "/tmp/creds.json")]);
    assert_eq!(get_env_api_key(&vertex, &named), None);
    named.google_credentials_file_exists = true;
    assert_eq!(get_env_api_key(&vertex, &named), sentinel);

    let mut default_adc = env(&[("GCLOUD_PROJECT", "p")]);
    default_adc.default_adc_file_exists = true;
    assert_eq!(get_env_api_key(&vertex, &default_adc), None);
    let mut default_adc = env(&[("GCLOUD_PROJECT", "p"), ("GOOGLE_CLOUD_LOCATION", "l")]);
    assert_eq!(get_env_api_key(&vertex, &default_adc), None);
    default_adc.default_adc_file_exists = true;
    assert_eq!(get_env_api_key(&vertex, &default_adc), sentinel);

    assert_eq!(get_env_api_key(&bedrock, &env(&[])), None);
    assert_eq!(get_env_api_key(&bedrock, &env(&[("AWS_ACCESS_KEY_ID", "a")])), None);
    assert_eq!(
        get_env_api_key(
            &bedrock,
            &env(&[("AWS_ACCESS_KEY_ID", "a"), ("AWS_SECRET_ACCESS_KEY", "s")])
        ),
        sentinel
    );
    assert_eq!(get_env_api_key(&bedrock, &env(&[("AWS_PROFILE", "p")])), sentinel);
}

#[test]
fn stream_creation_fails_without_api_key() {
    let m = model(Api::OpenAICompletions, Provider::Known(KnownProvider::OpenAI));
    match dispatch(&m, None, &env(&[])) {
        Err(Error::NoApiKey(provider)) => assert_eq!(provider, "openai"),
        other => panic!("expected NoApiKey, got {other:?}"),
    }
}

#[test]
fn stream_creation_succeeds_with_api_key_in_options() {
    let m = model(Api::OpenAICompletions, Provider::Known(KnownProvider::OpenAI));
    let options = OpenAICompletionsOptions {
        api_key: Some("test-key".to_string()),
        max_tokens: Some(100),
        ..OpenAICompletionsOptions::default()
    };
    let plan = dispatch(&m, Some(options), &env(&[("OPENAI_API_KEY", "from-env")])).unwrap();
    assert_eq!(plan.driver, StreamDriver::OpenAICompletions);
    assert_eq!(plan.options.api_key.as_deref(), Some("test-key"));
    assert_eq!(plan.options.max_tokens, Some(100));
}

#[test]
fn stream_dispatches_to_minimax_provider() {
    let m = model(
        Api::MinimaxCompletions,
        Provider::Known(KnownProvider::Minimax),
    );
    let plan = dispatch(&m, None, &env(&[("MINIMAX_API_KEY", "from-env")])).unwrap();
    assert_eq!(plan.driver, StreamDriver::MinimaxCompletions);
    assert_eq!(plan.options.api_key.as_deref(), Some("from-env"));
}

#[test]
fn dialects_without_a_driver_are_refused() {
    let cases = [
        (
            Api::AnthropicMessages,
            KnownProvider::Anthropic,
            "Anthropic provider not yet implemented",
        ),
        (
            Api::OpenAIResponses,
            KnownProvider::OpenAI,
            "OpenAI Responses provider not yet implemented",
        ),
        (
            Api::GoogleGenerativeAi,
            KnownProvider::Google,
            "Google Generative AI provider not yet implemented",
        ),
    ];
    for (api, provider, message) in cases {
        let m = model(api, Provider::Known(provider));
        let options = OpenAICompletionsOptions {
            api_key: Some("k".to_string()),
            ..OpenAICompletionsOptions::default()
        };
        match dispatch(&m, Some(options), &env(&[])) {
            Err(Error::InvalidResponse(text)) => assert_eq!(text, message),
            other => panic!("expected InvalidResponse, got {other:?}"),
        }
        assert!(matches!(
            dispatch(&m, None, &env(&[])),
            Err(Error::NoApiKey(_))
        ));
    }
    let vertex = model(Api::GoogleVertex, Provider::Known(KnownProvider::GoogleVertex));
    match dispatch(&vertex, None, &env(&[])) {
        Err(Error::InvalidResponse(text)) => {
            assert_eq!(text, "Google Vertex provider not yet implemented")
        }
        other => panic!("expected InvalidResponse, got {other:?}"),
    }
    let bedrock = model(
        Api::BedrockConverseStream,
        Provider::Custom("aws".to_string()),
    );
    match dispatch(&bedrock, None, &env(&[])) {
        Err(Error::InvalidResponse(text)) => {
            assert_eq!(text, "Bedrock provider not yet implemented")
        }
        other => panic!("expected InvalidResponse, got {other:?}"),
    }
}
