//! The normalized events of a streamed assistant turn.

use vstd::prelude::*;
use vstd::std_specs::convert::FromSpecImpl;
use crate::types::content::{ToolCall, ToolCallView};
use crate::types::message::{AssistantMessage, AssistantMessageView};
use crate::types::usage::StopReason;

verus! {

/// A stop reason of a turn that ended well.
#[derive(Clone, Copy, Debug, PartialEq, Eq, Structural)]
pub enum StopReasonSuccess {
    Stop,
    Length,
    ToolUse,
}

/// A stop reason of a turn that did not.
#[derive(Clone, Copy, Debug, PartialEq, Eq, Structural)]
pub enum StopReasonError {
    Error,
    Aborted,
}

impl From<StopReasonSuccess> for StopReason {
    fn from(value: StopReasonSuccess) -> (reason: Self)
    {
        match value {
            StopReasonSuccess::Stop => StopReason::Stop,
            StopReasonSuccess::Length => StopReason::Length,
            StopReasonSuccess::ToolUse => StopReason::ToolUse,
        }
    }
}

impl FromSpecImpl<StopReasonSuccess> for StopReason {
    open spec fn obeys_from_spec() -> bool {
        true
    }

    open spec fn from_spec(value: StopReasonSuccess) -> Self {
        match value {
            StopReasonSuccess::Stop => StopReason::Stop,
            StopReasonSuccess::Length => StopReason::Length,
            StopReasonSuccess::ToolUse => StopReason::ToolUse,
        }
    }
}

impl From<StopReasonError> for StopReason {
    fn from(value: StopReasonError) -> (reason: Self)
    {
        match value {
            StopReasonError::Error => StopReason::Error,
            StopReasonError::Aborted => StopReason::Aborted,
        }
    }
}

impl FromSpecImpl<StopReasonError> for StopReason {
    open spec fn obeys_from_spec() -> bool {
        true
    }

    open spec fn from_spec(value: StopReasonError) -> Self {
        match value {
            StopReasonError::Error => StopReason::Error,
            StopReasonError::Aborted => StopReason::Aborted,
        }
    }
}

/// One event of a streamed turn. Every event but the two terminal ones carries
/// the message as it stands once the event has happened.
#[derive(Debug)]
#[allow(inconsistent_fields)]
pub enum AssistantMessageEvent {
    Start { partial: AssistantMessage },
    TextStart { content_index: usize, partial: AssistantMessage },
    TextDelta { content_index: usize, delta: String, partial: AssistantMessage },
    TextEnd { content_index: usize, content: String, partial: AssistantMessage },
    ThinkingStart { content_index: usize, partial: AssistantMessage },
    ThinkingDelta { content_index: usize, delta: String, partial: AssistantMessage },
    ThinkingEnd { content_index: usize, content: String, partial: AssistantMessage },
    ToolCallStart { content_index: usize, partial: AssistantMessage },
    ToolCallDelta { content_index: usize, delta: String, partial: AssistantMessage },
    ToolCallEnd { content_index: usize, tool_call: ToolCall, partial: AssistantMessage },
    Done { reason: StopReasonSuccess, message: AssistantMessage },
    Error { reason: StopReasonError, error: AssistantMessage },
}

/// What an [`AssistantMessageEvent`] says, with strings as character sequences.
#[allow(inconsistent_fields)]
pub enum EventView {
    Start { partial: AssistantMessageView },
    TextStart { content_index: int, partial: AssistantMessageView },
    TextDelta { content_index: int, delta: Seq<char>, partial: AssistantMessageView },
    TextEnd { content_index: int, content: Seq<char>, partial: AssistantMessageView },
    ThinkingStart { content_index: int, partial: AssistantMessageView },
    ThinkingDelta { content_index: int, delta: Seq<char>, partial: AssistantMessageView },
    ThinkingEnd { content_index: int, content: Seq<char>, partial: AssistantMessageView },
    ToolCallStart { content_index: int, partial: AssistantMessageView },
    ToolCallDelta { content_index: int, delta: Seq<char>, partial: AssistantMessageView },
    ToolCallEnd { content_index: int, tool_call: ToolCallView, partial: AssistantMessageView },
    Done { reason: StopReasonSuccess, message: AssistantMessageView },
    Error { reason: StopReasonError, error: AssistantMessageView },
}

impl DeepView for AssistantMessageEvent {
    type V = EventView;

    open spec fn deep_view(&self) -> EventView {
        match self {
            AssistantMessageEvent::Start { partial } => EventView::Start {
                partial: partial.deep_view(),
            },
            AssistantMessageEvent::TextStart { content_index, partial } => EventView::TextStart {
                content_index: *content_index as int,
                partial: partial.deep_view(),
            },
            AssistantMessageEvent::TextDelta { content_index, delta, partial } => {
                EventView::TextDelta {
                    content_index: *content_index as int,
                    delta: delta@,
                    partial: partial.deep_view(),
                }
            },
            AssistantMessageEvent::TextEnd { content_index, content, partial } => {
                EventView::TextEnd {
                    content_index: *content_index as int,
                    content: content@,
                    partial: partial.deep_view(),
                }
            },
            AssistantMessageEvent::ThinkingStart { content_index, partial } => {
                EventView::ThinkingStart {
                    content_index: *content_index as int,
                    partial: partial.deep_view(),
                }
            },
            AssistantMessageEvent::ThinkingDelta { content_index, delta, partial } => {
                EventView::ThinkingDelta {
                    content_index: *content_index as int,
                    delta: delta@,
                    partial: partial.deep_view(),
                }
            },
            AssistantMessageEvent::ThinkingEnd { content_index, content, partial } => {
                EventView::ThinkingEnd {
                    content_index: *content_index as int,
                    content: content@,
                    partial: partial.deep_view(),
                }
            },
            AssistantMessageEvent::ToolCallStart { content_index, partial } => {
                EventView::ToolCallStart {
                    content_index: *content_index as int,
                    partial: partial.deep_view(),
                }
            },
            AssistantMessageEvent::ToolCallDelta { content_index, delta, partial } => {
                EventView::ToolCallDelta {
                    content_index: *content_index as int,
                    delta: delta@,
                    partial: partial.deep_view(),
                }
            },
            AssistantMessageEvent::ToolCallEnd { content_index, tool_call, partial } => {
                EventView::ToolCallEnd {
                    content_index: *content_index as int,
                    tool_call: tool_call.deep_view(),
                    partial: partial.deep_view(),
                }
            },
            AssistantMessageEvent::Done { reason, message } => EventView::Done {
                reason: *reason,
                message: message.deep_view(),
            },
            AssistantMessageEvent::Error { reason, error } => EventView::Error {
                reason: *reason,
                error: error.deep_view(),
            },
        }
    }
}

impl EventView {
    /// The message snapshot the event carries.
    pub open spec fn snapshot(self) -> AssistantMessageView {
        match self {
            EventView::Start { partial } => partial,
            EventView::TextStart { partial, .. } => partial,
            EventView::TextDelta { partial, .. } => partial,
            EventView::TextEnd { partial, .. } => partial,
            EventView::ThinkingStart { partial, .. } => partial,
            EventView::ThinkingDelta { partial, .. } => partial,
            EventView::ThinkingEnd { partial, .. } => partial,
            EventView::ToolCallStart { partial, .. } => partial,
            EventView::ToolCallDelta { partial, .. } => partial,
            EventView::ToolCallEnd { partial, .. } => partial,
            EventView::Done { message, .. } => message,
            EventView::Error { error, .. } => error,
        }
    }

    /// Whether the event ends a stream.
    pub open spec fn is_terminal(self) -> bool {
        self is Done || self is Error
    }
}

} // verus!
