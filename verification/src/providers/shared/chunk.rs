//! The chunk envelope of OpenAI-compatible streams.

use vstd::prelude::*;
use crate::providers::shared::stream_blocks::{
    present, OpenAiLikeStreamUsage, OpenAiLikeToolCallDelta, ToolCallDeltaView,
};

verus! {

/// One entry of a delta's `reasoning_details`.
#[derive(Debug)]
pub struct ReasoningDetail {
    pub text: Option<String>,
}

impl DeepView for ReasoningDetail {
    type V = Option<Seq<char>>;

    open spec fn deep_view(&self) -> Option<Seq<char>> {
        self.text.deep_view()
    }
}

/// What one chunk adds to the turn. Every field may be absent.
#[derive(Debug)]
pub struct StreamDelta {
    pub content: Option<String>,
    pub reasoning_details: Option<Vec<ReasoningDetail>>,
    pub reasoning_content: Option<String>,
    pub reasoning: Option<String>,
    pub reasoning_text: Option<String>,
    pub tool_calls: Option<Vec<OpenAiLikeToolCallDelta>>,
}

/// What a value of [`StreamDelta`] says, with strings as character sequences.
pub struct StreamDeltaView {
    pub content: Option<Seq<char>>,
    pub reasoning_details: Option<Seq<Option<Seq<char>>>>,
    pub reasoning_content: Option<Seq<char>>,
    pub reasoning: Option<Seq<char>>,
    pub reasoning_text: Option<Seq<char>>,
    pub tool_calls: Option<Seq<ToolCallDeltaView>>,
}

impl DeepView for StreamDelta {
    type V = StreamDeltaView;

    open spec fn deep_view(&self) -> StreamDeltaView {
        StreamDeltaView {
            content: self.content.deep_view(),
            reasoning_details: self.reasoning_details.deep_view(),
            reasoning_content: self.reasoning_content.deep_view(),
            reasoning: self.reasoning.deep_view(),
            reasoning_text: self.reasoning_text.deep_view(),
            tool_calls: self.tool_calls.deep_view(),
        }
    }
}

/// One choice of a chunk.
#[derive(Debug)]
pub struct StreamChoice {
    pub delta: Option<StreamDelta>,
    pub finish_reason: Option<String>,
}

/// What a value of [`StreamChoice`] says, with strings as character sequences.
pub struct StreamChoiceView {
    pub delta: Option<StreamDeltaView>,
    pub finish_reason: Option<Seq<char>>,
}

impl DeepView for StreamChoice {
    type V = StreamChoiceView;

    open spec fn deep_view(&self) -> StreamChoiceView {
        StreamChoiceView {
            delta: self.delta.deep_view(),
            finish_reason: self.finish_reason.deep_view(),
        }
    }
}

/// One parsed record of the stream.
#[derive(Debug)]
pub struct StreamChunk {
    pub choices: Vec<StreamChoice>,
    pub usage: Option<OpenAiLikeStreamUsage>,
}

/// What a value of [`StreamChunk`] says, with strings as character sequences.
pub struct StreamChunkView {
    pub choices: Seq<StreamChoiceView>,
    pub usage: Option<OpenAiLikeStreamUsage>,
}

impl DeepView for StreamChunk {
    type V = StreamChunkView;

    open spec fn deep_view(&self) -> StreamChunkView {
        StreamChunkView { choices: self.choices.deep_view(), usage: self.usage }
    }
}

/// The first non-empty of a delta's scalar reasoning fields, in the order
/// `reasoning_content`, `reasoning`, `reasoning_text`, with the name of the
/// field as its signature label.
pub open spec fn first_reasoning(delta: StreamDeltaView) -> Option<(Seq<char>, Seq<char>)> {
    if present(delta.reasoning_content) {
        Some((delta.reasoning_content.unwrap(), "reasoning_content"@))
    } else if present(delta.reasoning) {
        Some((delta.reasoning.unwrap(), "reasoning"@))
    } else if present(delta.reasoning_text) {
        Some((delta.reasoning_text.unwrap(), "reasoning_text"@))
    } else {
        None
    }
}

} // verus!
