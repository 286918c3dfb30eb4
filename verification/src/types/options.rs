//! Options of a completion request.

use vstd::prelude::*;

verus! {

/// How much a model should think.
#[derive(Clone, Copy, Debug, PartialEq, Eq, Structural)]
pub enum ThinkingLevel {
    Minimal,
    Low,
    Medium,
    High,
    Xhigh,
}

/// Token budgets per thinking level.
#[derive(Clone, Copy, Debug, PartialEq, Eq, Structural)]
pub struct ThinkingBudgets {
    pub minimal: Option<u32>,
    pub low: Option<u32>,
    pub medium: Option<u32>,
    pub high: Option<u32>,
}

/// Which tool, if any, the model is to call.
#[derive(Debug)]
pub enum ToolChoice {
    Auto,
    /// No tool may be called. Written `none` on the wire.
    NoTool,
    Required,
    Function { name: String },
}

/// What a value of [`ToolChoice`] says, with strings as character sequences.
pub enum ToolChoiceView {
    Auto,
    NoTool,
    Required,
    Function { name: Seq<char> },
}

impl DeepView for ToolChoice {
    type V = ToolChoiceView;

    open spec fn deep_view(&self) -> ToolChoiceView {
        match self {
            ToolChoice::Auto => ToolChoiceView::Auto,
            ToolChoice::NoTool => ToolChoiceView::NoTool,
            ToolChoice::Required => ToolChoiceView::Required,
            ToolChoice::Function { name } => ToolChoiceView::Function { name: name@ },
        }
    }
}

impl Clone for ToolChoice {
    fn clone(&self) -> (copy: Self)
        ensures
            copy.deep_view() == self.deep_view(),
    {
        match self {
            ToolChoice::Auto => ToolChoice::Auto,
            ToolChoice::NoTool => ToolChoice::NoTool,
            ToolChoice::Required => ToolChoice::Required,
            ToolChoice::Function { name } => ToolChoice::Function { name: name.clone() },
        }
    }
}

/// The reasoning effort a request asks for.
#[derive(Clone, Copy, Debug, PartialEq, Eq, Structural)]
pub enum ReasoningEffort {
    Minimal,
    Low,
    Medium,
    High,
    Xhigh,
}

/// The word a reasoning effort is written as.
pub open spec fn effort_name(effort: ReasoningEffort) -> Seq<char> {
    match effort {
        ReasoningEffort::Minimal => "minimal"@,
        ReasoningEffort::Low => "low"@,
        ReasoningEffort::Medium => "medium"@,
        ReasoningEffort::High => "high"@,
        ReasoningEffort::Xhigh => "xhigh"@,
    }
}

impl ReasoningEffort {
    /// The word the effort is written as.
    pub fn as_str(&self) -> (name: &'static str)
        ensures
            name@ == effort_name(*self),
    {
        match self {
            ReasoningEffort::Minimal => "minimal",
            ReasoningEffort::Low => "low",
            ReasoningEffort::Medium => "medium",
            ReasoningEffort::High => "high",
            ReasoningEffort::Xhigh => "xhigh",
        }
    }
}

/// Options of a request in the chat-completions dialects.
#[derive(Debug)]
pub struct OpenAICompletionsOptions {
    pub api_key: Option<String>,
    /// The sampling temperature, as the JSON number to send.
    pub temperature: Option<serde_json::Value>,
    pub max_tokens: Option<u32>,
    pub tool_choice: Option<ToolChoice>,
    pub reasoning_effort: Option<ReasoningEffort>,
    pub headers: Option<Vec<(String, String)>>,
}

/// What a value of [`OpenAICompletionsOptions`] says, with strings as character sequences.
pub struct OpenAICompletionsOptionsView {
    pub api_key: Option<Seq<char>>,
    pub temperature: Option<serde_json::Value>,
    pub max_tokens: Option<u32>,
    pub tool_choice: Option<ToolChoiceView>,
    pub reasoning_effort: Option<ReasoningEffort>,
    pub headers: Option<Seq<(Seq<char>, Seq<char>)>>,
}

impl DeepView for OpenAICompletionsOptions {
    type V = OpenAICompletionsOptionsView;

    open spec fn deep_view(&self) -> OpenAICompletionsOptionsView {
        OpenAICompletionsOptionsView {
            api_key: self.api_key.deep_view(),
            temperature: self.temperature,
            max_tokens: self.max_tokens,
            tool_choice: self.tool_choice.deep_view(),
            reasoning_effort: self.reasoning_effort,
            headers: self.headers.deep_view(),
        }
    }
}

/// Options that set nothing.
pub open spec fn no_options() -> OpenAICompletionsOptionsView {
    OpenAICompletionsOptionsView {
        api_key: None,
        temperature: None,
        max_tokens: None,
        tool_choice: None,
        reasoning_effort: None,
        headers: None,
    }
}

impl Default for OpenAICompletionsOptions {
    fn default() -> (options: Self)
        ensures
            options.deep_view() == no_options(),
    {
        OpenAICompletionsOptions {
            api_key: None,
            temperature: None,
            max_tokens: None,
            tool_choice: None,
            reasoning_effort: None,
            headers: None,
        }
    }
}

} // verus!
