//! Messages of a conversation and the context sent to a model.

use vstd::prelude::*;
use crate::types::api::{Api, Provider, ProviderView};
use crate::types::content::{
    clone_contents, Content, ContentView, ImageContent, ImageContentView, TextContent,
    TextContentView,
};
use crate::types::tool::Tool;
use crate::types::tool_call_id::ToolCallId;
use crate::types::usage::{StopReason, Usage};

verus! {

/// One block of a user message.
#[derive(Debug)]
pub enum UserContentBlock {
    Text(TextContent),
    Image(ImageContent),
}

/// What a value of [`UserContentBlock`] says, with strings as character sequences.
pub enum UserContentBlockView {
    Text(TextContentView),
    Image(ImageContentView),
}

impl DeepView for UserContentBlock {
    type V = UserContentBlockView;

    open spec fn deep_view(&self) -> UserContentBlockView {
        match self {
            UserContentBlock::Text(text) => UserContentBlockView::Text(text.deep_view()),
            UserContentBlock::Image(image) => UserContentBlockView::Image(image.deep_view()),
        }
    }
}

impl Clone for UserContentBlock {
    fn clone(&self) -> (copy: Self)
        ensures
            copy.deep_view() == self.deep_view(),
    {
        match self {
            UserContentBlock::Text(text) => UserContentBlock::Text(text.clone()),
            UserContentBlock::Image(image) => UserContentBlock::Image(image.clone()),
        }
    }
}

/// What a user said: plain text, or a mix of text and images.
#[derive(Debug)]
pub enum UserContent {
    Text(String),
    Multi(Vec<UserContentBlock>),
}

/// What a value of [`UserContent`] says, with strings as character sequences.
pub enum UserContentView {
    Text(Seq<char>),
    Multi(Seq<UserContentBlockView>),
}

impl DeepView for UserContent {
    type V = UserContentView;

    open spec fn deep_view(&self) -> UserContentView {
        match self {
            UserContent::Text(text) => UserContentView::Text(text@),
            UserContent::Multi(blocks) => UserContentView::Multi(blocks.deep_view()),
        }
    }
}

impl Clone for UserContent {
    fn clone(&self) -> (copy: Self)
        ensures
            copy.deep_view() == self.deep_view(),
    {
        match self {
            UserContent::Text(text) => UserContent::Text(text.clone()),
            UserContent::Multi(blocks) => {
                let copy = blocks.clone();
                assert(copy.deep_view() =~= blocks.deep_view());
                UserContent::Multi(copy)
            },
        }
    }
}

/// What a user said, and when.
#[derive(Debug)]
pub struct UserMessage {
    pub content: UserContent,
    pub timestamp: i64,
}

/// What a value of [`UserMessage`] says, with strings as character sequences.
pub struct UserMessageView {
    pub content: UserContentView,
    pub timestamp: i64,
}

impl DeepView for UserMessage {
    type V = UserMessageView;

    open spec fn deep_view(&self) -> UserMessageView {
        UserMessageView { content: self.content.deep_view(), timestamp: self.timestamp }
    }
}

impl Clone for UserMessage {
    fn clone(&self) -> (copy: Self)
        ensures
            copy.deep_view() == self.deep_view(),
    {
        UserMessage { content: self.content.clone(), timestamp: self.timestamp }
    }
}

/// The model's output for one turn.
#[derive(Debug)]
pub struct AssistantMessage {
    pub content: Vec<Content>,
    pub api: Api,
    pub provider: Provider,
    pub model: String,
    pub usage: Usage,
    pub stop_reason: StopReason,
    pub error_message: Option<String>,
    pub timestamp: i64,
}

/// What a value of [`AssistantMessage`] says, with strings as character sequences.
pub struct AssistantMessageView {
    pub content: Seq<ContentView>,
    pub api: Api,
    pub provider: ProviderView,
    pub model: Seq<char>,
    pub usage: Usage,
    pub stop_reason: StopReason,
    pub error_message: Option<Seq<char>>,
    pub timestamp: i64,
}

impl DeepView for AssistantMessage {
    type V = AssistantMessageView;

    open spec fn deep_view(&self) -> AssistantMessageView {
        AssistantMessageView {
            content: self.content.deep_view(),
            api: self.api,
            provider: self.provider.deep_view(),
            model: self.model@,
            usage: self.usage,
            stop_reason: self.stop_reason,
            error_message: self.error_message.deep_view(),
            timestamp: self.timestamp,
        }
    }
}

impl Clone for AssistantMessage {
    fn clone(&self) -> (copy: Self)
        ensures
            copy.deep_view() == self.deep_view(),
    {
        AssistantMessage {
            content: clone_contents(&self.content),
            api: self.api,
            provider: self.provider.clone(),
            model: self.model.clone(),
            usage: self.usage,
            stop_reason: self.stop_reason,
            error_message: self.error_message.clone(),
            timestamp: self.timestamp,
        }
    }
}

/// One block of a tool result.
#[derive(Debug)]
pub enum ToolResultContent {
    Text(TextContent),
    Image(ImageContent),
}

/// What a value of [`ToolResultContent`] says, with strings as character sequences.
pub enum ToolResultContentView {
    Text(TextContentView),
    Image(ImageContentView),
}

impl DeepView for ToolResultContent {
    type V = ToolResultContentView;

    open spec fn deep_view(&self) -> ToolResultContentView {
        match self {
            ToolResultContent::Text(text) => ToolResultContentView::Text(text.deep_view()),
            ToolResultContent::Image(image) => ToolResultContentView::Image(image.deep_view()),
        }
    }
}

impl Clone for ToolResultContent {
    fn clone(&self) -> (copy: Self)
        ensures
            copy.deep_view() == self.deep_view(),
    {
        match self {
            ToolResultContent::Text(text) => ToolResultContent::Text(text.clone()),
            ToolResultContent::Image(image) => ToolResultContent::Image(image.clone()),
        }
    }
}

/// The answer to one tool call.
#[derive(Debug)]
pub struct ToolResultMessage {
    pub tool_call_id: ToolCallId,
    pub tool_name: String,
    pub content: Vec<ToolResultContent>,
    pub details: Option<serde_json::Value>,
    pub is_error: bool,
    pub timestamp: i64,
}

/// What a value of [`ToolResultMessage`] says, with strings as character sequences.
pub struct ToolResultMessageView {
    pub tool_call_id: Seq<char>,
    pub tool_name: Seq<char>,
    pub content: Seq<ToolResultContentView>,
    pub details: Option<serde_json::Value>,
    pub is_error: bool,
    pub timestamp: i64,
}

impl DeepView for ToolResultMessage {
    type V = ToolResultMessageView;

    open spec fn deep_view(&self) -> ToolResultMessageView {
        ToolResultMessageView {
            tool_call_id: self.tool_call_id@,
            tool_name: self.tool_name@,
            content: self.content.deep_view(),
            details: self.details,
            is_error: self.is_error,
            timestamp: self.timestamp,
        }
    }
}

impl Clone for ToolResultMessage {
    fn clone(&self) -> (copy: Self)
        ensures
            copy.deep_view() == self.deep_view(),
    {
        let content = self.content.clone();
        assert(content.deep_view() =~= self.content.deep_view());
        ToolResultMessage {
            tool_call_id: self.tool_call_id.clone(),
            tool_name: self.tool_name.clone(),
            content,
            details: self.details.clone(),
            is_error: self.is_error,
            timestamp: self.timestamp,
        }
    }
}

/// One message of a conversation.
#[derive(Debug)]
pub enum Message {
    User(UserMessage),
    Assistant(AssistantMessage),
    ToolResult(ToolResultMessage),
}

/// What a value of [`Message`] says, with strings as character sequences.
pub enum MessageView {
    User(UserMessageView),
    Assistant(AssistantMessageView),
    ToolResult(ToolResultMessageView),
}

impl DeepView for Message {
    type V = MessageView;

    open spec fn deep_view(&self) -> MessageView {
        match self {
            Message::User(user) => MessageView::User(user.deep_view()),
            Message::Assistant(assistant) => MessageView::Assistant(assistant.deep_view()),
            Message::ToolResult(result) => MessageView::ToolResult(result.deep_view()),
        }
    }
}

impl Clone for Message {
    fn clone(&self) -> (copy: Self)
        ensures
            copy.deep_view() == self.deep_view(),
    {
        match self {
            Message::User(user) => Message::User(user.clone()),
            Message::Assistant(assistant) => Message::Assistant(assistant.clone()),
            Message::ToolResult(result) => Message::ToolResult(result.clone()),
        }
    }
}

/// What is sent to a model: an optional system prompt, the conversation so
/// far, and the tools on offer.
#[derive(Debug)]
pub struct Context {
    pub system_prompt: Option<String>,
    pub messages: Vec<Message>,
    pub tools: Option<Vec<Tool>>,
}

impl Default for Context {
    fn default() -> (context: Self)
        ensures
            context.system_prompt.is_none(),
            context.messages@.len() == 0,
            context.tools.is_none(),
    {
        Context { system_prompt: None, messages: Vec::new(), tools: None }
    }
}

impl Clone for Context {
    fn clone(&self) -> (copy: Self)
        ensures
            copy.system_prompt.deep_view() == self.system_prompt.deep_view(),
            copy.messages.deep_view() == self.messages.deep_view(),
            copy.tools.deep_view() == self.tools.deep_view(),
    {
        let messages = self.messages.clone();
        assert(messages.deep_view() =~= self.messages.deep_view());
        let tools = match &self.tools {
            Some(tools) => {
                let copy = tools.clone();
                assert(copy.deep_view() =~= tools.deep_view());
                Some(copy)
            },
            None => None,
        };
        Context { system_prompt: self.system_prompt.clone(), messages, tools }
    }
}

} // verus!
