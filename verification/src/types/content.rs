//! Content blocks: the atomic pieces of a message.

use vstd::prelude::*;
use crate::types::tool_call_id::ToolCallId;

verus! {

/// `base64::DecodeError`: why a text is not base64, carried to the caller
/// without being looked into.
#[verifier::external_type_specification]
#[verifier::external_body]
pub struct ExDecodeError(base64::DecodeError);

/// The text that standard base64 (RFC 4648, with padding) writes for `data`.
pub uninterp spec fn base64_text(data: Seq<u8>) -> Seq<char>;

/// The bytes that `text` stands for in standard base64, or `None` where `text`
/// is not valid base64.
pub uninterp spec fn base64_bytes(text: Seq<char>) -> Option<Seq<u8>>;

/// Standard base64 of `data`, as `Engine::encode` of `base64`'s `STANDARD`
/// engine writes it. `encode` fails only where the encoded length does not fit
/// `usize`, at input lengths in the top quarter of the range of `usize`; a
/// slice holds at most `isize::MAX` bytes and so never reaches them.
#[verifier::external_body]
fn encode_base64(data: &[u8]) -> (text: String)
    ensures
        text@ == base64_text(data@),
{
    base64::Engine::encode(&base64::engine::general_purpose::STANDARD, data)
}

/// Decodes standard base64 with `base64`'s `STANDARD` engine; text that it
/// rejects gives its error.
#[verifier::external_body]
fn decode_base64(text: &str) -> (data: Result<Vec<u8>, base64::DecodeError>)
    ensures
        match data {
            Ok(bytes) => base64_bytes(text@) == Some(bytes@),
            Err(_) => base64_bytes(text@).is_none(),
        },
{
    base64::Engine::decode(&base64::engine::general_purpose::STANDARD, text)
}

/// Plain text, with the provider's signature over it where there is one.
#[derive(Debug)]
pub struct TextContent {
    pub text: String,
    pub text_signature: Option<String>,
}

/// What a value of [`TextContent`] says, with strings as character sequences.
pub struct TextContentView {
    pub text: Seq<char>,
    pub text_signature: Option<Seq<char>>,
}

impl DeepView for TextContent {
    type V = TextContentView;

    open spec fn deep_view(&self) -> TextContentView {
        TextContentView { text: self.text@, text_signature: self.text_signature.deep_view() }
    }
}

impl Clone for TextContent {
    fn clone(&self) -> (copy: Self)
        ensures
            copy.deep_view() == self.deep_view(),
    {
        TextContent { text: self.text.clone(), text_signature: self.text_signature.clone() }
    }
}

/// The model's deliberation, with the label of the channel it came through.
#[derive(Debug)]
pub struct ThinkingContent {
    pub thinking: String,
    pub thinking_signature: Option<String>,
}

/// What a value of [`ThinkingContent`] says, with strings as character sequences.
pub struct ThinkingContentView {
    pub thinking: Seq<char>,
    pub thinking_signature: Option<Seq<char>>,
}

impl DeepView for ThinkingContent {
    type V = ThinkingContentView;

    open spec fn deep_view(&self) -> ThinkingContentView {
        ThinkingContentView {
            thinking: self.thinking@,
            thinking_signature: self.thinking_signature.deep_view(),
        }
    }
}

impl Clone for ThinkingContent {
    fn clone(&self) -> (copy: Self)
        ensures
            copy.deep_view() == self.deep_view(),
    {
        ThinkingContent {
            thinking: self.thinking.clone(),
            thinking_signature: self.thinking_signature.clone(),
        }
    }
}

/// An image: raw bytes and their MIME type.
#[derive(Debug)]
pub struct ImageContent {
    pub data: Vec<u8>,
    pub mime_type: String,
}

/// What a value of [`ImageContent`] says, with strings as character sequences.
pub struct ImageContentView {
    pub data: Seq<u8>,
    pub mime_type: Seq<char>,
}

impl DeepView for ImageContent {
    type V = ImageContentView;

    open spec fn deep_view(&self) -> ImageContentView {
        ImageContentView { data: self.data@, mime_type: self.mime_type@ }
    }
}

impl Clone for ImageContent {
    fn clone(&self) -> (copy: Self)
        ensures
            copy.deep_view() == self.deep_view(),
    {
        let data = self.data.clone();
        assert(data@ =~= self.data@);
        ImageContent { data, mime_type: self.mime_type.clone() }
    }
}

impl ImageContent {
    /// The image whose bytes `data` encodes in standard base64.
    pub fn from_base64(data: &str, mime_type: String) -> (image: Result<Self, base64::DecodeError>)
        ensures
            match image {
                Ok(decoded) => base64_bytes(data@) == Some(decoded.data@) && decoded.mime_type@
                    == mime_type@,
                Err(_) => base64_bytes(data@).is_none(),
            },
    {
        match decode_base64(data) {
            Ok(bytes) => Ok(ImageContent { data: bytes, mime_type }),
            Err(error) => Err(error),
        }
    }

    /// The image's bytes in standard base64.
    pub fn to_base64(&self) -> (text: String)
        ensures
            text@ == base64_text(self.data@),
    {
        encode_base64(self.data.as_slice())
    }
}

/// A request by the assistant to run a function.
#[derive(Debug)]
pub struct ToolCall {
    pub id: ToolCallId,
    pub name: String,
    pub arguments: serde_json::Value,
    pub thought_signature: Option<String>,
}

/// What a value of [`ToolCall`] says, with strings as character sequences.
pub struct ToolCallView {
    pub id: Seq<char>,
    pub name: Seq<char>,
    pub arguments: serde_json::Value,
    pub thought_signature: Option<Seq<char>>,
}

impl DeepView for ToolCall {
    type V = ToolCallView;

    open spec fn deep_view(&self) -> ToolCallView {
        ToolCallView {
            id: self.id@,
            name: self.name@,
            arguments: self.arguments,
            thought_signature: self.thought_signature.deep_view(),
        }
    }
}

impl Clone for ToolCall {
    fn clone(&self) -> (copy: Self)
        ensures
            copy.deep_view() == self.deep_view(),
    {
        ToolCall {
            id: self.id.clone(),
            name: self.name.clone(),
            arguments: self.arguments.clone(),
            thought_signature: self.thought_signature.clone(),
        }
    }
}

/// One block of message content.
#[derive(Debug)]
#[allow(inconsistent_fields)]
pub enum Content {
    Text { inner: TextContent },
    Thinking { inner: ThinkingContent },
    Image { inner: ImageContent },
    ToolCall { inner: ToolCall },
}

/// What a value of [`Content`] says, with strings as character sequences.
#[allow(inconsistent_fields)]
pub enum ContentView {
    Text(TextContentView),
    Thinking(ThinkingContentView),
    Image(ImageContentView),
    ToolCall(ToolCallView),
}

impl DeepView for Content {
    type V = ContentView;

    open spec fn deep_view(&self) -> ContentView {
        match self {
            Content::Text { inner } => ContentView::Text(inner.deep_view()),
            Content::Thinking { inner } => ContentView::Thinking(inner.deep_view()),
            Content::Image { inner } => ContentView::Image(inner.deep_view()),
            Content::ToolCall { inner } => ContentView::ToolCall(inner.deep_view()),
        }
    }
}

impl Clone for Content {
    fn clone(&self) -> (copy: Self)
        ensures
            copy.deep_view() == self.deep_view(),
    {
        match self {
            Content::Text { inner } => Content::Text { inner: inner.clone() },
            Content::Thinking { inner } => Content::Thinking { inner: inner.clone() },
            Content::Image { inner } => Content::Image { inner: inner.clone() },
            Content::ToolCall { inner } => Content::ToolCall { inner: inner.clone() },
        }
    }
}

/// A text block without signature.
pub open spec fn text_block(text: Seq<char>) -> ContentView {
    ContentView::Text(TextContentView { text, text_signature: None })
}

/// A thinking block without signature.
pub open spec fn thinking_block(thinking: Seq<char>) -> ContentView {
    ContentView::Thinking(ThinkingContentView { thinking, thinking_signature: None })
}

/// A tool-call block without thought signature.
pub open spec fn tool_call_block(
    id: Seq<char>,
    name: Seq<char>,
    arguments: serde_json::Value,
) -> ContentView {
    ContentView::ToolCall(ToolCallView { id, name, arguments, thought_signature: None })
}

impl Content {
    /// A text block without signature.
    pub fn text(text: &str) -> (block: Self)
        ensures
            block.deep_view() == text_block(text@),
    {
        Content::Text { inner: TextContent { text: text.to_owned(), text_signature: None } }
    }

    /// A thinking block without signature.
    pub fn thinking(thinking: &str) -> (block: Self)
        ensures
            block.deep_view() == thinking_block(thinking@),
    {
        Content::Thinking {
            inner: ThinkingContent { thinking: thinking.to_owned(), thinking_signature: None },
        }
    }

    /// A tool-call block without thought signature.
    pub fn tool_call(id: &str, name: &str, arguments: serde_json::Value) -> (block: Self)
        ensures
            block.deep_view() == tool_call_block(id@, name@, arguments),
    {
        Content::ToolCall {
            inner: ToolCall {
                id: ToolCallId(id.to_owned()),
                name: name.to_owned(),
                arguments,
                thought_signature: None,
            },
        }
    }
}

/// A deep copy of a content list.
pub fn clone_contents(content: &Vec<Content>) -> (copy: Vec<Content>)
    ensures
        copy.deep_view() == content.deep_view(),
{
    let copy = content.clone();
    assert(copy.deep_view() =~= content.deep_view());
    copy
}

} // verus!
