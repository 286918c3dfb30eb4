//! Conversion of a conversation into the messages and tools of a
//! chat-completions request.

use vstd::prelude::*;
use vstd::string::StringExecFns;
use crate::types::content::{
    base64_text, Content, ContentView, ImageContent, ImageContentView,
};
use crate::types::message::{
    AssistantMessage, AssistantMessageView, Context, Message, MessageView, ToolResultContent,
    ToolResultContentView, ToolResultMessage, ToolResultMessageView, UserContent,
    UserContentBlock, UserContentBlockView, UserContentView, UserMessage,
};
use crate::types::tool::{Tool, ToolView};
use crate::utils::json::{json_text, json_to_text};
use crate::utils::json_doc::{json_array, json_object, json_string, Json, JsonView};

verus! {

/// The role a system prompt is sent under.
#[derive(Clone, Copy, Debug, PartialEq, Eq, Structural)]
pub enum SystemPromptRole {
    System,
    Developer,
}

/// The word a system-prompt role is written as.
pub open spec fn role_name(role: SystemPromptRole) -> Seq<char> {
    match role {
        SystemPromptRole::System => "system"@,
        SystemPromptRole::Developer => "developer"@,
    }
}

impl SystemPromptRole {
    /// The word the role is written as.
    pub fn as_str(&self) -> (name: &'static str)
        ensures
            name@ == role_name(*self),
    {
        match self {
            SystemPromptRole::System => "system",
            SystemPromptRole::Developer => "developer",
        }
    }
}

/// What becomes of an assistant's thinking blocks in a request.
#[derive(Clone, Copy, Debug, PartialEq, Eq, Structural)]
pub enum AssistantThinkingMode {
    /// They are left out.
    Omit,
    /// They are sent as text.
    PlainText,
    /// They are sent as text between `<think>` and `</think>`.
    ThinkTags,
}

/// How messages are converted for an endpoint.
#[derive(Clone, Copy, Debug, PartialEq, Eq, Structural)]
pub struct OpenAiLikeMessageOptions {
    pub system_role: SystemPromptRole,
    pub requires_tool_result_name: bool,
    pub assistant_thinking_mode: AssistantThinkingMode,
}

/// A JSON string member.
pub open spec fn text_member(name: Seq<char>, text: Seq<char>) -> (Seq<char>, JsonView) {
    (name, JsonView::String(text))
}

/// `{"type": "text", "text": text}`.
pub open spec fn text_part(text: Seq<char>) -> JsonView {
    JsonView::Object(Seq::empty().push(text_member("type"@, "text"@)).push(text_member("text"@, text)))
}

/// The data URL of an image.
pub open spec fn image_url(image: ImageContentView) -> Seq<char> {
    "data:"@ + image.mime_type + ";base64,"@ + base64_text(image.data)
}

/// `{"type": "image_url", "image_url": {"url": <data URL>}}`.
pub open spec fn image_part(image: ImageContentView) -> JsonView {
    JsonView::Object(
        Seq::empty().push(text_member("type"@, "image_url"@)).push(("image_url"@, JsonView::Object(Seq::empty().push(text_member("url"@, image_url(image)))))),
    )
}

/// The parts of a mixed user message. Image parts are dropped for a model that
/// does not accept images.
pub open spec fn user_parts(blocks: Seq<UserContentBlockView>, accepts_images: bool) -> Seq<
    JsonView,
>
    decreases blocks.len(),
{
    if blocks.len() == 0 {
        Seq::empty()
    } else {
        let front = user_parts(blocks.drop_last(), accepts_images);
        match blocks.last() {
            UserContentBlockView::Text(text) => front.push(text_part(text.text)),
            UserContentBlockView::Image(image) => if accepts_images {
                front.push(image_part(image))
            } else {
                front
            },
        }
    }
}

/// The content of a user message: the string itself for plain text, else the
/// array of its parts.
pub open spec fn user_content_json(content: UserContentView, accepts_images: bool) -> JsonView {
    match content {
        UserContentView::Text(text) => JsonView::String(text),
        UserContentView::Multi(blocks) => JsonView::Array(user_parts(blocks, accepts_images)),
    }
}

/// `{"role": "user", "content": <content>}`.
pub open spec fn user_message_json(content: UserContentView, accepts_images: bool) -> JsonView {
    JsonView::Object(
        Seq::empty().push(text_member("role"@, "user"@)).push(("content"@, user_content_json(content, accepts_images))),
    )
}

/// What a thinking block is sent as, if it is sent at all.
pub open spec fn mapped_thinking(thinking: Seq<char>, mode: AssistantThinkingMode) -> Option<
    Seq<char>,
> {
    match mode {
        AssistantThinkingMode::Omit => None,
        AssistantThinkingMode::PlainText => Some(thinking),
        AssistantThinkingMode::ThinkTags => Some("<think>"@ + thinking + "</think>"@),
    }
}

/// The texts an assistant message is sent with: its non-empty text blocks, and
/// its non-empty thinking blocks as the mode maps them, in order.
pub open spec fn text_parts(content: Seq<ContentView>, mode: AssistantThinkingMode) -> Seq<
    Seq<char>,
>
    decreases content.len(),
{
    if content.len() == 0 {
        Seq::empty()
    } else {
        let front = text_parts(content.drop_last(), mode);
        match content.last() {
            ContentView::Text(inner) => if inner.text.len() > 0 {
                front.push(inner.text)
            } else {
                front
            },
            ContentView::Thinking(inner) => if inner.thinking.len() > 0 {
                match mapped_thinking(inner.thinking, mode) {
                    Some(text) => front.push(text),
                    None => front,
                }
            } else {
                front
            },
            _ => front,
        }
    }
}

/// `{"id", "type": "function", "function": {"name", "arguments"}}`, the
/// arguments as JSON text.
pub open spec fn tool_call_json(
    id: Seq<char>,
    name: Seq<char>,
    arguments: serde_json::Value,
) -> JsonView {
    JsonView::Object(
        Seq::empty().push(text_member("id"@, id)).push(text_member("type"@, "function"@)).push((
                "function"@,
                JsonView::Object(
                    Seq::empty().push(text_member("name"@, name)).push(text_member("arguments"@, json_text(arguments))),
                ),
            )),
    )
}

/// The tool calls of an assistant message, in order.
pub open spec fn tool_calls_json(content: Seq<ContentView>) -> Seq<JsonView>
    decreases content.len(),
{
    if content.len() == 0 {
        Seq::empty()
    } else {
        let front = tool_calls_json(content.drop_last());
        match content.last() {
            ContentView::ToolCall(call) => front.push(
                tool_call_json(call.id, call.name, call.arguments),
            ),
            _ => front,
        }
    }
}

/// Every text as a text part.
pub open spec fn as_text_parts(texts: Seq<Seq<char>>) -> Seq<JsonView> {
    texts.map_values(|text: Seq<char>| text_part(text))
}

/// An assistant message: role `assistant`, its texts as `content` where there
/// are any, its tool calls as `tool_calls` where there are any. A message with
/// neither is not sent.
pub open spec fn assistant_message_json(
    content: Seq<ContentView>,
    mode: AssistantThinkingMode,
) -> Option<JsonView> {
    let texts = text_parts(content, mode);
    let calls = tool_calls_json(content);
    let role = Seq::empty().push(text_member("role"@, "assistant"@));
    let with_texts = if texts.len() > 0 {
        role.push(("content"@, JsonView::Array(as_text_parts(texts))))
    } else {
        role
    };
    let with_calls = if calls.len() > 0 {
        with_texts.push(("tool_calls"@, JsonView::Array(calls)))
    } else {
        with_texts
    };
    if texts.len() == 0 && calls.len() == 0 {
        None
    } else {
        Some(JsonView::Object(with_calls))
    }
}

/// The texts of a tool result, in order. Images are dropped.
pub open spec fn result_texts(content: Seq<ToolResultContentView>) -> Seq<Seq<char>>
    decreases content.len(),
{
    if content.len() == 0 {
        Seq::empty()
    } else {
        let front = result_texts(content.drop_last());
        match content.last() {
            ToolResultContentView::Text(text) => front.push(text.text),
            ToolResultContentView::Image(_) => front,
        }
    }
}

/// The lines joined with a line feed between any two.
pub open spec fn join_lines(lines: Seq<Seq<char>>) -> Seq<char>
    decreases lines.len(),
{
    if lines.len() == 0 {
        Seq::empty()
    } else if lines.len() == 1 {
        lines[0]
    } else {
        join_lines(lines.drop_last()) + seq!['\n'] + lines.last()
    }
}

/// A tool result: role `tool`, the id of the call it answers, its texts
/// joined by line feeds, and the tool's name where the endpoint requires it.
pub open spec fn tool_result_json(result: ToolResultMessageView, with_name: bool) -> JsonView {
    let members = Seq::empty().push(text_member("role"@, "tool"@)).push(text_member("tool_call_id"@, result.tool_call_id)).push(text_member("content"@, join_lines(result_texts(result.content))));
    if with_name {
        JsonView::Object(members.push(text_member("name"@, result.tool_name)))
    } else {
        JsonView::Object(members)
    }
}

/// The system message of a context, if it has a system prompt.
pub open spec fn system_messages(system_prompt: Option<Seq<char>>, role: SystemPromptRole) -> Seq<
    JsonView,
> {
    match system_prompt {
        Some(prompt) => Seq::empty().push(JsonView::Object(
                Seq::empty().push(text_member("role"@, role_name(role))).push(text_member("content"@, prompt)),
            )),
        None => Seq::empty(),
    }
}

/// The messages of a conversation, converted in order.
pub open spec fn converted_messages(
    messages: Seq<MessageView>,
    accepts_images: bool,
    options: OpenAiLikeMessageOptions,
) -> Seq<JsonView>
    decreases messages.len(),
{
    if messages.len() == 0 {
        Seq::empty()
    } else {
        let front = converted_messages(messages.drop_last(), accepts_images, options);
        match messages.last() {
            MessageView::User(user) => front.push(user_message_json(user.content, accepts_images)),
            MessageView::Assistant(assistant) => match assistant_message_json(
                assistant.content,
                options.assistant_thinking_mode,
            ) {
                Some(message) => front.push(message),
                None => front,
            },
            MessageView::ToolResult(result) => front.push(
                tool_result_json(result, options.requires_tool_result_name),
            ),
        }
    }
}

/// The `messages` of a request: the system message, where the context has a
/// system prompt, then the conversation.
pub open spec fn request_messages(
    system_prompt: Option<Seq<char>>,
    messages: Seq<MessageView>,
    accepts_images: bool,
    options: OpenAiLikeMessageOptions,
) -> JsonView {
    JsonView::Array(
        system_messages(system_prompt, options.system_role) + converted_messages(
            messages,
            accepts_images,
            options,
        ),
    )
}

/// `{"type": "function", "function": {"name", "description", "parameters",
/// "strict": false}}`.
pub open spec fn tool_json(tool: ToolView) -> JsonView {
    JsonView::Object(
        Seq::empty().push(text_member("type"@, "function"@)).push((
                "function"@,
                JsonView::Object(
                    Seq::empty().push(text_member("name"@, tool.name)).push(text_member("description"@, tool.description)).push(("parameters"@, JsonView::Raw(tool.parameters))).push(("strict"@, JsonView::Bool(false))),
                ),
            )),
    )
}

/// The `tools` of a request.
pub open spec fn request_tools(tools: Seq<ToolView>) -> JsonView {
    JsonView::Array(tools.map_values(|tool: ToolView| tool_json(tool)))
}

/// Appends a member to the members of an object.
pub fn push_member(members: &mut Vec<(String, Json)>, name: &str, value: Json)
    ensures
        final(members).deep_view() == old(members).deep_view().push((name@, value.deep_view())),
{
    let ghost view = value.deep_view();
    members.push((name.to_owned(), value));
    assert(members.deep_view() =~= old(members).deep_view().push((name@, view)));
}

/// Appends a string member to the members of an object.
pub fn push_text_member(members: &mut Vec<(String, Json)>, name: &str, text: &str)
    ensures
        final(members).deep_view() == old(members).deep_view().push(text_member(name@, text@)),
{
    push_member(members, name, json_string(text));
}

/// Appends an item to the items of an array.
pub fn push_item(items: &mut Vec<Json>, item: Json)
    ensures
        final(items).deep_view() == old(items).deep_view().push(item.deep_view()),
{
    let ghost view = item.deep_view();
    items.push(item);
    assert(items.deep_view() =~= old(items).deep_view().push(view));
}

/// No members yet.
pub fn no_members() -> (members: Vec<(String, Json)>)
    ensures
        members.deep_view() == Seq::<(Seq<char>, JsonView)>::empty(),
{
    let members: Vec<(String, Json)> = Vec::new();
    assert(members.deep_view() =~= Seq::<(Seq<char>, JsonView)>::empty());
    members
}

/// No items yet.
pub fn no_items() -> (items: Vec<Json>)
    ensures
        items.deep_view() == Seq::<JsonView>::empty(),
{
    let items: Vec<Json> = Vec::new();
    assert(items.deep_view() =~= Seq::<JsonView>::empty());
    items
}

fn text_part_json(text: &str) -> (part: Json)
    ensures
        part.deep_view() == text_part(text@),
{
    let mut members = no_members();
    push_text_member(&mut members, "type", "text");
    push_text_member(&mut members, "text", text);
    json_object(members)
}

fn image_part_json(image: &ImageContent) -> (part: Json)
    ensures
        part.deep_view() == image_part(image.deep_view()),
{
    let mut url = "data:".to_owned();
    url.append(image.mime_type.as_str());
    url.append(";base64,");
    url.append(image.to_base64().as_str());
    let mut inner = no_members();
    push_text_member(&mut inner, "url", url.as_str());
    let mut members = no_members();
    push_text_member(&mut members, "type", "image_url");
    push_member(&mut members, "image_url", json_object(inner));
    json_object(members)
}

/// The content of a user message as JSON.
pub fn user_content_to_json(accepts_images: bool, content: &UserContent) -> (json: Json)
    ensures
        json.deep_view() == user_content_json(content.deep_view(), accepts_images),
{
    match content {
        UserContent::Text(text) => json_string(text.as_str()),
        UserContent::Multi(blocks) => {
            let ghost views = blocks.deep_view();
            let mut parts = no_items();
            let mut i: usize = 0;
            while i < blocks.len()
                invariant
                    i <= blocks.len(),
                    views == blocks.deep_view(),
                    parts.deep_view() == user_parts(views.take(i as int), accepts_images),
                decreases blocks.len() - i,
            {
                proof {
                    assert(views.take(i + 1).drop_last() =~= views.take(i as int));
                    assert(views.take(i + 1).last() == blocks[i as int].deep_view());
                }
                match &blocks[i] {
                    UserContentBlock::Text(text) => {
                        push_item(&mut parts, text_part_json(text.text.as_str()));
                    },
                    UserContentBlock::Image(image) => {
                        if accepts_images {
                            push_item(&mut parts, image_part_json(image));
                        }
                    },
                }
                i += 1;
            }
            assert(views.take(blocks.len() as int) =~= views);
            json_array(parts)
        },
    }
}

/// A user message as JSON.
pub fn convert_user_message(accepts_images: bool, user: &UserMessage) -> (json: Json)
    ensures
        json.deep_view() == user_message_json(user.content.deep_view(), accepts_images),
{
    let content = user_content_to_json(accepts_images, &user.content);
    let mut members = no_members();
    push_text_member(&mut members, "role", "user");
    push_member(&mut members, "content", content);
    json_object(members)
}

/// What a thinking block is sent as, if it is sent at all.
pub fn map_thinking_content(thinking: &str, mode: AssistantThinkingMode) -> (text: Option<String>)
    ensures
        text.deep_view() == mapped_thinking(thinking@, mode),
{
    match mode {
        AssistantThinkingMode::Omit => None,
        AssistantThinkingMode::PlainText => Some(thinking.to_owned()),
        AssistantThinkingMode::ThinkTags => {
            let mut text = "<think>".to_owned();
            text.append(thinking);
            text.append("</think>");
            Some(text)
        },
    }
}

/// The texts an assistant message is sent with.
pub fn assistant_text_parts(
    assistant: &AssistantMessage,
    thinking_mode: AssistantThinkingMode,
) -> (parts: Vec<String>)
    ensures
        parts.deep_view() == text_parts(assistant.deep_view().content, thinking_mode),
{
    let ghost views = assistant.content.deep_view();
    let mut parts: Vec<String> = Vec::new();
    assert(parts.deep_view() =~= Seq::<Seq<char>>::empty());
    let mut i: usize = 0;
    while i < assistant.content.len()
        invariant
            i <= assistant.content.len(),
            views == assistant.content.deep_view(),
            parts.deep_view() == text_parts(views.take(i as int), thinking_mode),
        decreases assistant.content.len() - i,
    {
        proof {
            assert(views.take(i + 1).drop_last() =~= views.take(i as int));
            assert(views.take(i + 1).last() == assistant.content[i as int].deep_view());
        }
        let ghost before = parts.deep_view();
        match &assistant.content[i] {
            Content::Text { inner } => {
                if !inner.text.as_str().is_empty() {
                    parts.push(inner.text.clone());
                    assert(parts.deep_view() =~= before.push(inner.text@));
                }
            },
            Content::Thinking { inner } => {
                if !inner.thinking.as_str().is_empty() {
                    if let Some(text) = map_thinking_content(
                        inner.thinking.as_str(),
                        thinking_mode,
                    ) {
                        let ghost view = text@;
                        parts.push(text);
                        assert(parts.deep_view() =~= before.push(view));
                    }
                }
            },
            _ => {},
        }
        i += 1;
    }
    assert(views.take(assistant.content.len() as int) =~= views);
    parts
}

/// The tool calls of an assistant message as JSON.
pub fn assistant_tool_calls(assistant: &AssistantMessage) -> (calls: Vec<Json>)
    ensures
        calls.deep_view() == tool_calls_json(assistant.deep_view().content),
{
    let ghost views = assistant.content.deep_view();
    let mut calls = no_items();
    let mut i: usize = 0;
    while i < assistant.content.len()
        invariant
            i <= assistant.content.len(),
            views == assistant.content.deep_view(),
            calls.deep_view() == tool_calls_json(views.take(i as int)),
        decreases assistant.content.len() - i,
    {
        proof {
            assert(views.take(i + 1).drop_last() =~= views.take(i as int));
            assert(views.take(i + 1).last() == assistant.content[i as int].deep_view());
        }
        match &assistant.content[i] {
            Content::ToolCall { inner } => {
                let mut function = no_members();
                push_text_member(&mut function, "name", inner.name.as_str());
                push_text_member(
                    &mut function,
                    "arguments",
                    json_to_text(&inner.arguments).as_str(),
                );
                let mut members = no_members();
                push_text_member(&mut members, "id", inner.id.as_str());
                push_text_member(&mut members, "type", "function");
                push_member(&mut members, "function", json_object(function));
                push_item(&mut calls, json_object(members));
            },
            _ => {},
        }
        i += 1;
    }
    assert(views.take(assistant.content.len() as int) =~= views);
    calls
}

/// An assistant message as JSON, or `None` for one with neither text nor tool
/// calls to send.
pub fn convert_assistant_message(
    assistant: &AssistantMessage,
    options: &OpenAiLikeMessageOptions,
) -> (json: Option<Json>)
    ensures
        json.deep_view() == assistant_message_json(
            assistant.deep_view().content,
            options.assistant_thinking_mode,
        ),
{
    let texts = assistant_text_parts(assistant, options.assistant_thinking_mode);
    let calls = assistant_tool_calls(assistant);
    if texts.len() == 0 && calls.len() == 0 {
        return None;
    }
    let mut members = no_members();
    push_text_member(&mut members, "role", "assistant");
    if texts.len() > 0 {
        let ghost views = texts.deep_view();
        let mut parts = no_items();
        let mut i: usize = 0;
        while i < texts.len()
            invariant
                i <= texts.len(),
                views == texts.deep_view(),
                parts.deep_view() == as_text_parts(views.take(i as int)),
            decreases texts.len() - i,
        {
            push_item(&mut parts, text_part_json(texts[i].as_str()));
            assert(as_text_parts(views.take(i + 1)) =~= as_text_parts(views.take(i as int)).push(
                text_part(views[i as int]),
            ));
            i += 1;
        }
        assert(views.take(texts.len() as int) =~= views);
        push_member(&mut members, "content", json_array(parts));
    }
    if calls.len() > 0 {
        push_member(&mut members, "tool_calls", json_array(calls));
    }
    Some(json_object(members))
}

/// The texts of a tool result joined by line feeds.
fn joined_result_text(result: &ToolResultMessage) -> (text: String)
    ensures
        text@ == join_lines(result_texts(result.deep_view().content)),
{
    let ghost views = result.content.deep_view();
    let mut text = String::new();
    let mut first = true;
    let mut i: usize = 0;
    while i < result.content.len()
        invariant
            i <= result.content.len(),
            views == result.content.deep_view(),
            first == (result_texts(views.take(i as int)).len() == 0),
            text@ == join_lines(result_texts(views.take(i as int))),
        decreases result.content.len() - i,
    {
        proof {
            assert(views.take(i + 1).drop_last() =~= views.take(i as int));
            assert(views.take(i + 1).last() == result.content[i as int].deep_view());
        }
        match &result.content[i] {
            ToolResultContent::Text(part) => {
                let ghost before = result_texts(views.take(i as int));
                if !first {
                    text.append("\n");
                    proof {
                        reveal_strlit("\n");
                        assert("\n"@ =~= seq!['\n']);
                    }
                }
                text.append(part.text.as_str());
                first = false;
                proof {
                    let now = before.push(part.text@);
                    assert(now.drop_last() =~= before);
                    if before.len() == 0 {
                        assert(Seq::<char>::empty() + part.text@ =~= part.text@);
                    }
                }
            },
            ToolResultContent::Image(_) => {},
        }
        i += 1;
    }
    assert(views.take(result.content.len() as int) =~= views);
    text
}

/// A tool result as JSON.
pub fn convert_tool_result(result: &ToolResultMessage, requires_tool_result_name: bool) -> (json:
    Json)
    ensures
        json.deep_view() == tool_result_json(result.deep_view(), requires_tool_result_name),
{
    let content = joined_result_text(result);
    let mut members = no_members();
    push_text_member(&mut members, "role", "tool");
    push_text_member(&mut members, "tool_call_id", result.tool_call_id.as_str());
    push_text_member(&mut members, "content", content.as_str());
    if requires_tool_result_name {
        push_text_member(&mut members, "name", result.tool_name.as_str());
    }
    json_object(members)
}

/// Appends the system message, where the context has a system prompt.
pub fn push_system_prompt(messages: &mut Vec<Json>, context: &Context, role: SystemPromptRole)
    ensures
        final(messages).deep_view() == old(messages).deep_view() + system_messages(
            context.system_prompt.deep_view(),
            role,
        ),
{
    match &context.system_prompt {
        None => {
            assert(messages.deep_view() + Seq::<JsonView>::empty() =~= messages.deep_view());
        },
        Some(system_prompt) => {
            let mut members = no_members();
            push_text_member(&mut members, "role", role.as_str());
            push_text_member(&mut members, "content", system_prompt.as_str());
            let ghost before = messages.deep_view();
            push_item(messages, json_object(members));
            assert(messages.deep_view() =~= before + system_messages(
                context.system_prompt.deep_view(),
                role,
            ));
        },
    }
}

/// Converts a context into the `messages` of a request.
pub fn convert_messages(
    accepts_images: bool,
    context: &Context,
    options: &OpenAiLikeMessageOptions,
) -> (json: Json)
    ensures
        json.deep_view() == request_messages(
            context.system_prompt.deep_view(),
            context.messages.deep_view(),
            accepts_images,
            *options,
        ),
{
    let mut messages = no_items();
    push_system_prompt(&mut messages, context, options.system_role);
    let ghost head = system_messages(context.system_prompt.deep_view(), options.system_role);
    assert(Seq::<JsonView>::empty() + head =~= head);
    let ghost views = context.messages.deep_view();
    let mut i: usize = 0;
    proof {
        assert(head + Seq::<JsonView>::empty() =~= head);
    }
    while i < context.messages.len()
        invariant
            i <= context.messages.len(),
            views == context.messages.deep_view(),
            messages.deep_view() == head + converted_messages(
                views.take(i as int),
                accepts_images,
                *options,
            ),
        decreases context.messages.len() - i,
    {
        proof {
            assert(views.take(i + 1).drop_last() =~= views.take(i as int));
            assert(views.take(i + 1).last() == context.messages[i as int].deep_view());
        }
        let ghost front = converted_messages(views.take(i as int), accepts_images, *options);
        match &context.messages[i] {
            Message::User(user) => {
                let converted = convert_user_message(accepts_images, user);
                let ghost view = converted.deep_view();
                push_item(&mut messages, converted);
                assert((head + front).push(view) =~= head + front.push(view));
            },
            Message::Assistant(assistant) => {
                if let Some(converted) = convert_assistant_message(assistant, options) {
                    let ghost view = converted.deep_view();
                    push_item(&mut messages, converted);
                    assert((head + front).push(view) =~= head + front.push(view));
                }
            },
            Message::ToolResult(result) => {
                let converted = convert_tool_result(result, options.requires_tool_result_name);
                let ghost view = converted.deep_view();
                push_item(&mut messages, converted);
                assert((head + front).push(view) =~= head + front.push(view));
            },
        }
        i += 1;
    }
    assert(views.take(context.messages.len() as int) =~= views);
    json_array(messages)
}

/// Converts tool definitions into the `tools` of a request.
pub fn convert_tools(tools: &[Tool]) -> (json: Json)
    ensures
        json.deep_view() == request_tools(tools.deep_view()),
{
    let ghost views = tools.deep_view();
    let mut converted = no_items();
    let mut i: usize = 0;
    while i < tools.len()
        invariant
            i <= tools.len(),
            views == tools.deep_view(),
            converted.deep_view() == views.take(i as int).map_values(
                |tool: ToolView| tool_json(tool),
            ),
        decreases tools.len() - i,
    {
        let tool = &tools[i];
        let mut function = no_members();
        push_text_member(&mut function, "name", tool.name.as_str());
        push_text_member(&mut function, "description", tool.description.as_str());
        push_member(&mut function, "parameters", Json::Raw(tool.parameters.clone()));
        push_member(&mut function, "strict", Json::Bool(false));
        let mut members = no_members();
        push_text_member(&mut members, "type", "function");
        push_member(&mut members, "function", json_object(function));
        push_item(&mut converted, json_object(members));
        assert(views.take(i + 1).map_values(|tool: ToolView| tool_json(tool)) =~= views.take(
            i as int,
        ).map_values(|tool: ToolView| tool_json(tool)).push(tool_json(views[i as int])));
        i += 1;
    }
    assert(views.take(tools.len() as int) =~= views);
    json_array(converted)
}

} // verus!
