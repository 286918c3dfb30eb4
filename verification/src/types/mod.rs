//! The data model: descriptors, messages, content blocks and events.

pub mod api;
pub mod compat;
pub mod content;
pub mod event;
pub mod event_stream;
pub mod message;
pub mod model;
pub mod options;
pub mod tool;
pub mod tool_call_id;
pub mod usage;

pub use api::{Api, KnownProvider, Provider};
pub use compat::{
    MaxTokensField, ModelCompat, OpenAICompletionsCompat, OpenAIResponsesCompat, ResolvedCompat,
    ThinkingFormat,
};
pub use content::{Content, ImageContent, TextContent, ThinkingContent, ToolCall};
pub use event::{AssistantMessageEvent, StopReasonError, StopReasonSuccess};
pub use event_stream::EventStreamSender;
pub use message::{
    AssistantMessage, Context, Message, ToolResultContent, ToolResultMessage, UserContent,
    UserContentBlock, UserMessage,
};
pub use model::{
    AnthropicMessages, ApiType, BedrockConverseStream, GoogleGenerativeAi, GoogleVertex, InputType,
    MinimaxCompletions, Model, OpenAICompletions, OpenAIResponses,
};
pub use options::{
    OpenAICompletionsOptions, ReasoningEffort, ThinkingBudgets, ThinkingLevel, ToolChoice,
};
pub use tool::Tool;
pub use tool_call_id::ToolCallId;
pub use usage::{StopReason, Usage};
