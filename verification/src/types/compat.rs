//! Compatibility settings of OpenAI-compatible endpoints.

use vstd::prelude::*;

verus! {

/// The name of the field that caps the completion's length.
#[derive(Clone, Copy, Debug, PartialEq, Eq, Structural)]
pub enum MaxTokensField {
    MaxCompletionTokens,
    MaxTokens,
}

/// How a request asks for thinking.
#[derive(Clone, Copy, Debug, PartialEq, Eq, Structural)]
pub enum ThinkingFormat {
    Openai,
    Zai,
}

/// Explicit compatibility settings of a model. A field that is set replaces
/// what would be detected for it; the others leave detection alone.
#[derive(Clone, Copy, Debug, PartialEq, Eq, Structural)]
pub struct OpenAICompletionsCompat {
    pub supports_store: Option<bool>,
    pub supports_developer_role: Option<bool>,
    pub supports_reasoning_effort: Option<bool>,
    pub supports_usage_in_streaming: Option<bool>,
    pub max_tokens_field: Option<MaxTokensField>,
    pub requires_tool_result_name: Option<bool>,
    pub requires_assistant_after_tool_result: Option<bool>,
    pub requires_thinking_as_text: Option<bool>,
    pub requires_mistral_tool_ids: Option<bool>,
    pub thinking_format: Option<ThinkingFormat>,
}

impl Default for OpenAICompletionsCompat {
    fn default() -> (compat: Self)
        ensures
            compat == no_overrides(),
    {
        OpenAICompletionsCompat {
            supports_store: None,
            supports_developer_role: None,
            supports_reasoning_effort: None,
            supports_usage_in_streaming: None,
            max_tokens_field: None,
            requires_tool_result_name: None,
            requires_assistant_after_tool_result: None,
            requires_thinking_as_text: None,
            requires_mistral_tool_ids: None,
            thinking_format: None,
        }
    }
}

/// Settings that set nothing.
pub open spec fn no_overrides() -> OpenAICompletionsCompat {
    OpenAICompletionsCompat {
        supports_store: None,
        supports_developer_role: None,
        supports_reasoning_effort: None,
        supports_usage_in_streaming: None,
        max_tokens_field: None,
        requires_tool_result_name: None,
        requires_assistant_after_tool_result: None,
        requires_thinking_as_text: None,
        requires_mistral_tool_ids: None,
        thinking_format: None,
    }
}

/// Compatibility settings of the OpenAI responses dialect: none so far.
#[derive(Clone, Copy, Debug, PartialEq, Eq, Structural)]
pub struct OpenAIResponsesCompat;

/// The explicit compatibility settings a model may carry, by dialect.
#[derive(Clone, Copy, Debug, PartialEq, Eq, Structural)]
pub enum ModelCompat {
    OpenAICompletions(OpenAICompletionsCompat),
    OpenAIResponses(OpenAIResponsesCompat),
}

/// The settings a model carries for the chat-completions dialect, if any.
pub open spec fn completions_overrides(compat: Option<ModelCompat>) -> Option<
    OpenAICompletionsCompat,
> {
    match compat {
        Some(ModelCompat::OpenAICompletions(explicit)) => Some(explicit),
        _ => None,
    }
}

/// Compatibility settings with every field decided.
#[derive(Clone, Copy, Debug, PartialEq, Eq, Structural)]
pub struct ResolvedCompat {
    pub supports_store: bool,
    pub supports_developer_role: bool,
    pub supports_reasoning_effort: bool,
    pub supports_usage_in_streaming: bool,
    pub max_tokens_field: MaxTokensField,
    pub requires_tool_result_name: bool,
    /// Reserved: carried through and read by nothing.
    pub requires_assistant_after_tool_result: bool,
    pub requires_thinking_as_text: bool,
    pub requires_mistral_tool_ids: bool,
    pub thinking_format: ThinkingFormat,
}

} // verus!
