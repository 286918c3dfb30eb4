//! Assembly of streamed deltas into content blocks and events.
//!
//! A stream delivers text, reasoning and tool-call deltas. At most one block
//! is in flight at a time; a delta of another kind closes it and opens the
//! next. Each function here says exactly what it does to the message, to the
//! block in flight and to the events pushed, as a function on [`Blocks`], and
//! keeps the three in step with one another ([`in_sync`]).

use vstd::prelude::*;
use vstd::string::StringExecFns;
use crate::providers::shared::trace::{
    fits, is_tool_call_stub, lemma_replay_push, replay, step, BlockKind, Replay,
};
use crate::types::content::{
    text_block, thinking_block, tool_call_block, Content, ContentView, TextContent,
    TextContentView, ThinkingContent, ThinkingContentView, ToolCall, ToolCallView,
};
use crate::types::event::{AssistantMessageEvent, EventView};
use crate::types::event_stream::EventStreamSender;
use crate::types::message::{AssistantMessage, AssistantMessageView};
use crate::types::tool_call_id::ToolCallId;
use crate::types::usage::{StopReason, Usage};
use crate::utils::json::{empty_json_object, empty_object, json_or_empty, parse_json_or_empty};
use crate::utils::text::str_eq;

verus! {

/// The block in flight.
#[derive(Debug)]
pub enum CurrentBlock {
    Text { text: String },
    Thinking { thinking: String, signature: String },
    ToolCall { id: String, name: String, partial_args: String },
}

/// What a value of [`CurrentBlock`] says, with strings as character sequences.
pub enum CurrentBlockView {
    Text { text: Seq<char> },
    Thinking { thinking: Seq<char>, signature: Seq<char> },
    ToolCall { id: Seq<char>, name: Seq<char>, partial_args: Seq<char> },
}

impl DeepView for CurrentBlock {
    type V = CurrentBlockView;

    open spec fn deep_view(&self) -> CurrentBlockView {
        match self {
            CurrentBlock::Text { text } => CurrentBlockView::Text { text: text@ },
            CurrentBlock::Thinking { thinking, signature } => CurrentBlockView::Thinking {
                thinking: thinking@,
                signature: signature@,
            },
            CurrentBlock::ToolCall { id, name, partial_args } => CurrentBlockView::ToolCall {
                id: id@,
                name: name@,
                partial_args: partial_args@,
            },
        }
    }
}

/// A reasoning delta with the label of the field it arrived in.
pub struct ReasoningDelta<'a> {
    pub text: &'a str,
    pub signature: &'a str,
}

/// The function part of a tool-call delta.
#[derive(Debug)]
pub struct OpenAiLikeFunctionDelta {
    pub name: Option<String>,
    pub arguments: Option<String>,
}

/// One tool-call delta of a chunk. Any field may be absent.
#[derive(Debug)]
pub struct OpenAiLikeToolCallDelta {
    pub id: Option<String>,
    pub function: Option<OpenAiLikeFunctionDelta>,
}

/// A tool-call delta as the assembler reads it.
pub struct ToolCallDeltaView {
    pub id: Option<Seq<char>>,
    pub name: Option<Seq<char>>,
    pub arguments: Option<Seq<char>>,
}

impl DeepView for OpenAiLikeToolCallDelta {
    type V = ToolCallDeltaView;

    open spec fn deep_view(&self) -> ToolCallDeltaView {
        ToolCallDeltaView {
            id: self.id.deep_view(),
            name: match self.function {
                Some(function) => function.name.deep_view(),
                None => None,
            },
            arguments: match self.function {
                Some(function) => function.arguments.deep_view(),
                None => None,
            },
        }
    }
}

/// The message, the block in flight, and the events emitted so far by the
/// operation that is being described.
pub struct Blocks {
    pub output: AssistantMessageView,
    pub current: Option<CurrentBlockView>,
    pub emitted: Seq<EventView>,
}

/// The state an operation starts from.
pub open spec fn blocks_of(
    output: AssistantMessageView,
    current: Option<CurrentBlockView>,
) -> Blocks {
    Blocks { output, current, emitted: Seq::empty() }
}

/// `output` with another content list.
pub open spec fn with_content(
    output: AssistantMessageView,
    content: Seq<ContentView>,
) -> AssistantMessageView {
    AssistantMessageView {
        content,
        api: output.api,
        provider: output.provider,
        model: output.model,
        usage: output.usage,
        stop_reason: output.stop_reason,
        error_message: output.error_message,
        timestamp: output.timestamp,
    }
}

/// The index of the last content block, or zero where there is none.
pub open spec fn last_index(content: Seq<ContentView>) -> int {
    if content.len() == 0 {
        0
    } else {
        content.len() - 1
    }
}

/// The content list once the block in flight has been written into its stub.
///
/// The stub is the last content block. It takes the accumulated text, or the
/// tool call's identity and parsed arguments, where it is of the block's kind.
pub open spec fn finished_content(
    content: Seq<ContentView>,
    block: CurrentBlockView,
) -> Seq<ContentView> {
    let index = last_index(content);
    if content.len() == 0 {
        content
    } else {
        match (block, content[index]) {
            (CurrentBlockView::Text { text }, ContentView::Text(stub)) => content.update(
                index,
                ContentView::Text(TextContentView { text, text_signature: stub.text_signature }),
            ),
            (
                CurrentBlockView::Thinking { thinking, signature },
                ContentView::Thinking(_),
            ) => content.update(
                index,
                ContentView::Thinking(
                    ThinkingContentView { thinking, thinking_signature: Some(signature) },
                ),
            ),
            (
                CurrentBlockView::ToolCall { id, name, partial_args },
                ContentView::ToolCall(stub),
            ) => content.update(
                index,
                ContentView::ToolCall(
                    ToolCallView {
                        id,
                        name,
                        arguments: json_or_empty(partial_args),
                        thought_signature: stub.thought_signature,
                    },
                ),
            ),
            _ => content,
        }
    }
}

/// The event that closes `block` at `index`.
pub open spec fn end_event(
    block: CurrentBlockView,
    index: int,
    partial: AssistantMessageView,
) -> EventView {
    match block {
        CurrentBlockView::Text { text } => EventView::TextEnd {
            content_index: index,
            content: text,
            partial,
        },
        CurrentBlockView::Thinking { thinking, .. } => EventView::ThinkingEnd {
            content_index: index,
            content: thinking,
            partial,
        },
        CurrentBlockView::ToolCall { id, name, partial_args } => EventView::ToolCallEnd {
            content_index: index,
            tool_call: ToolCallView {
                id,
                name,
                arguments: json_or_empty(partial_args),
                thought_signature: None,
            },
            partial,
        },
    }
}

/// Closes the block in flight, if there is one: writes it into its stub and
/// emits its end event.
pub open spec fn finish_current(s: Blocks) -> Blocks {
    match s.current {
        None => s,
        Some(block) => {
            let output = with_content(s.output, finished_content(s.output.content, block));
            Blocks {
                output,
                current: None,
                emitted: s.emitted.push(end_event(block, last_index(s.output.content), output)),
            }
        },
    }
}

/// A text delta: continues the text block in flight, or closes what is in
/// flight and opens a text block. An empty delta does nothing.
pub open spec fn text_delta(s: Blocks, content: Seq<char>) -> Blocks {
    if content.len() == 0 {
        s
    } else {
        match s.current {
            Some(CurrentBlockView::Text { text }) => Blocks {
                output: s.output,
                current: Some(CurrentBlockView::Text { text: text + content }),
                emitted: s.emitted.push(
                    EventView::TextDelta {
                        content_index: last_index(s.output.content),
                        delta: content,
                        partial: s.output,
                    },
                ),
            },
            _ => {
                let closed = finish_current(s);
                let index = closed.output.content.len() as int;
                let output = with_content(
                    closed.output,
                    closed.output.content.push(text_block(Seq::empty())),
                );
                Blocks {
                    output,
                    current: Some(CurrentBlockView::Text { text: content }),
                    emitted: closed.emitted.push(
                        EventView::TextStart { content_index: index, partial: output },
                    ).push(
                        EventView::TextDelta {
                            content_index: index,
                            delta: content,
                            partial: output,
                        },
                    ),
                }
            },
        }
    }
}

/// A reasoning delta: continues the thinking block in flight, or closes what
/// is in flight and opens a thinking block under the given signature label. An
/// empty delta does nothing.
pub open spec fn reasoning_delta(s: Blocks, text: Seq<char>, signature: Seq<char>) -> Blocks {
    if text.len() == 0 {
        s
    } else {
        match s.current {
            Some(CurrentBlockView::Thinking { thinking, signature: label }) => Blocks {
                output: s.output,
                current: Some(
                    CurrentBlockView::Thinking { thinking: thinking + text, signature: label },
                ),
                emitted: s.emitted.push(
                    EventView::ThinkingDelta {
                        content_index: last_index(s.output.content),
                        delta: text,
                        partial: s.output,
                    },
                ),
            },
            _ => {
                let closed = finish_current(s);
                let index = closed.output.content.len() as int;
                let output = with_content(
                    closed.output,
                    closed.output.content.push(thinking_block(Seq::empty())),
                );
                Blocks {
                    output,
                    current: Some(CurrentBlockView::Thinking { thinking: text, signature }),
                    emitted: closed.emitted.push(
                        EventView::ThinkingStart { content_index: index, partial: output },
                    ).push(
                        EventView::ThinkingDelta {
                            content_index: index,
                            delta: text,
                            partial: output,
                        },
                    ),
                }
            },
        }
    }
}

/// Whether a string is there and not empty.
pub open spec fn present(text: Option<Seq<char>>) -> bool {
    text.is_some() && text.unwrap().len() > 0
}

/// Whether a tool-call delta names its call: by a non-empty id or a non-empty
/// function name.
pub open spec fn has_identity(delta: ToolCallDeltaView) -> bool {
    present(delta.id) || present(delta.name)
}

/// Whether a tool-call delta opens a new tool call.
///
/// While a tool call with a non-empty id is in flight, a delta opens the next
/// one when it carries another non-empty id. While no tool call is in flight,
/// a delta opens one when it names its call.
pub open spec fn starts_new_tool_call(
    current: Option<CurrentBlockView>,
    delta: ToolCallDeltaView,
) -> bool {
    match current {
        Some(CurrentBlockView::ToolCall { id, .. }) => present(delta.id) && id.len() > 0
            && delta.id.unwrap() != id,
        _ => has_identity(delta),
    }
}

/// What is there, or the empty string.
pub open spec fn or_empty(text: Option<Seq<char>>) -> Seq<char> {
    match text {
        Some(chars) => chars,
        None => Seq::empty(),
    }
}

/// Opens a tool call: closes what is in flight, records the delta's id and
/// name, appends a stub with empty-object arguments and emits `ToolCallStart`.
pub open spec fn start_tool_call(s: Blocks, delta: ToolCallDeltaView) -> Blocks {
    let closed = finish_current(s);
    let id = or_empty(delta.id);
    let name = or_empty(delta.name);
    let index = closed.output.content.len() as int;
    let output = with_content(
        closed.output,
        closed.output.content.push(tool_call_block(id, name, empty_object())),
    );
    Blocks {
        output,
        current: Some(CurrentBlockView::ToolCall { id, name, partial_args: Seq::empty() }),
        emitted: closed.emitted.push(
            EventView::ToolCallStart { content_index: index, partial: output },
        ),
    }
}

/// Applies a delta to the tool call in flight: an id or name that arrives
/// replaces the stored one, and arguments that arrive are appended and emitted
/// as `ToolCallDelta`. Does nothing while no tool call is in flight.
pub open spec fn apply_tool_call(s: Blocks, delta: ToolCallDeltaView) -> Blocks {
    match s.current {
        Some(CurrentBlockView::ToolCall { id, name, partial_args }) => {
            let id = if delta.id.is_some() {
                delta.id.unwrap()
            } else {
                id
            };
            let name = if delta.name.is_some() {
                delta.name.unwrap()
            } else {
                name
            };
            match delta.arguments {
                Some(arguments) => Blocks {
                    output: s.output,
                    current: Some(
                        CurrentBlockView::ToolCall {
                            id,
                            name,
                            partial_args: partial_args + arguments,
                        },
                    ),
                    emitted: s.emitted.push(
                        EventView::ToolCallDelta {
                            content_index: last_index(s.output.content),
                            delta: arguments,
                            partial: s.output,
                        },
                    ),
                },
                None => Blocks {
                    output: s.output,
                    current: Some(CurrentBlockView::ToolCall { id, name, partial_args }),
                    emitted: s.emitted,
                },
            }
        },
        _ => s,
    }
}

/// One tool-call delta: opens a tool call where the delta starts one, then
/// applies the delta.
pub open spec fn tool_call_delta(s: Blocks, delta: ToolCallDeltaView) -> Blocks {
    if starts_new_tool_call(s.current, delta) {
        apply_tool_call(start_tool_call(s, delta), delta)
    } else {
        apply_tool_call(s, delta)
    }
}

/// The tool-call deltas of one chunk, in order.
pub open spec fn tool_calls(s: Blocks, deltas: Seq<ToolCallDeltaView>) -> Blocks
    decreases deltas.len(),
{
    if deltas.len() == 0 {
        s
    } else {
        tool_call_delta(tool_calls(s, deltas.drop_last()), deltas.last())
    }
}

/// Whether a message and a block in flight agree with the events pushed so
/// far.
///
/// The events are well formed and not terminated, the message holds the
/// content list they imply, and the block in flight is the block they leave
/// open: at the last content index, with the deltas received so far, over an
/// untouched stub.
pub open spec fn in_sync(
    history: Seq<EventView>,
    output: AssistantMessageView,
    current: Option<CurrentBlockView>,
) -> bool {
    let state = replay(history);
    let content = output.content;
    &&& state.ok
    &&& !state.terminated
    &&& state.content == content
    &&& match current {
        None => state.open.is_none(),
        Some(block) => {
            &&& state.open.is_some()
            &&& content.len() > 0
            &&& state.open.unwrap().index == content.len() - 1
            &&& match block {
                CurrentBlockView::Text { text } => {
                    &&& state.open.unwrap().kind == BlockKind::Text
                    &&& state.open.unwrap().deltas == text
                    &&& state.open.unwrap().count >= 1
                    &&& content.last() == text_block(Seq::empty())
                },
                CurrentBlockView::Thinking { thinking, .. } => {
                    &&& state.open.unwrap().kind == BlockKind::Thinking
                    &&& state.open.unwrap().deltas == thinking
                    &&& state.open.unwrap().count >= 1
                    &&& content.last() == thinking_block(Seq::empty())
                },
                CurrentBlockView::ToolCall { partial_args, .. } => {
                    &&& state.open.unwrap().kind == BlockKind::ToolCall
                    &&& state.open.unwrap().deltas == partial_args
                    &&& is_tool_call_stub(content.last())
                },
            }
        },
    }
}

/// A message without content and no block in flight are in step with no
/// events at all.
pub proof fn lemma_fresh_in_sync(output: AssistantMessageView)
    requires
        output.content.len() == 0,
    ensures
        in_sync(Seq::empty(), output, None),
{
    assert(output.content =~= Seq::<ContentView>::empty());
}

/// Whether the state `s`, reached after the events `history` and those that
/// `s` emitted, is in step with them.
pub open spec fn synced(history: Seq<EventView>, s: Blocks) -> bool {
    in_sync(history + s.emitted, s.output, s.current)
}

/// Closing the block in flight keeps message and events in step.
pub proof fn lemma_finish_current_synced(history: Seq<EventView>, s: Blocks)
    requires
        synced(history, s),
    ensures
        synced(history, finish_current(s)),
        finish_current(s).current.is_none(),
{
    match s.current {
        None => {},
        Some(block) => {
            let t = finish_current(s);
            let before = history + s.emitted;
            let event = t.emitted.last();
            assert(history + t.emitted =~= before.push(event));
            lemma_replay_push(before, event);
            let content = s.output.content;
            let index = last_index(content);
            assert(content.last() == content[index]);
            match block {
                CurrentBlockView::Text { text } => {
                    assert(t.output.content == content.update(index, text_block(text)));
                },
                CurrentBlockView::Thinking { thinking, signature } => {
                    assert(t.output.content =~= content.update(index, t.output.content[index]));
                },
                CurrentBlockView::ToolCall { id, name, partial_args } => {
                    assert(is_tool_call_stub(content[index]));
                },
            }
            assert(fits(replay(before), event));
        },
    }
}

/// A text delta keeps message and events in step.
pub proof fn lemma_text_delta_synced(history: Seq<EventView>, s: Blocks, content: Seq<char>)
    requires
        synced(history, s),
    ensures
        synced(history, text_delta(s, content)),
{
    if content.len() > 0 {
        let t = text_delta(s, content);
        match s.current {
            Some(CurrentBlockView::Text { text }) => {
                let before = history + s.emitted;
                let event = t.emitted.last();
                assert(history + t.emitted =~= before.push(event));
                lemma_replay_push(before, event);
            },
            _ => {
                let closed = finish_current(s);
                lemma_finish_current_synced(history, s);
                let before = history + closed.emitted;
                let first = t.emitted[t.emitted.len() - 2];
                let second = t.emitted.last();
                assert(history + t.emitted =~= before.push(first).push(second));
                lemma_replay_push(before, first);
                lemma_replay_push(before.push(first), second);
                assert(fits(replay(before), first));
                assert(Seq::<char>::empty() + content =~= content);
                assert(fits(replay(before.push(first)), second));
            },
        }
    }
}

/// A reasoning delta keeps message and events in step.
pub proof fn lemma_reasoning_delta_synced(
    history: Seq<EventView>,
    s: Blocks,
    text: Seq<char>,
    signature: Seq<char>,
)
    requires
        synced(history, s),
    ensures
        synced(history, reasoning_delta(s, text, signature)),
{
    if text.len() > 0 {
        let t = reasoning_delta(s, text, signature);
        match s.current {
            Some(CurrentBlockView::Thinking { thinking, signature: label }) => {
                let before = history + s.emitted;
                let event = t.emitted.last();
                assert(history + t.emitted =~= before.push(event));
                lemma_replay_push(before, event);
            },
            _ => {
                let closed = finish_current(s);
                lemma_finish_current_synced(history, s);
                let before = history + closed.emitted;
                let first = t.emitted[t.emitted.len() - 2];
                let second = t.emitted.last();
                assert(history + t.emitted =~= before.push(first).push(second));
                lemma_replay_push(before, first);
                lemma_replay_push(before.push(first), second);
                assert(fits(replay(before), first));
                assert(Seq::<char>::empty() + text =~= text);
                assert(fits(replay(before.push(first)), second));
            },
        }
    }
}

/// Opening a tool call keeps message and events in step.
pub proof fn lemma_start_tool_call_synced(
    history: Seq<EventView>,
    s: Blocks,
    delta: ToolCallDeltaView,
)
    requires
        synced(history, s),
    ensures
        synced(history, start_tool_call(s, delta)),
{
    let t = start_tool_call(s, delta);
    let closed = finish_current(s);
    lemma_finish_current_synced(history, s);
    let before = history + closed.emitted;
    let event = t.emitted.last();
    assert(history + t.emitted =~= before.push(event));
    lemma_replay_push(before, event);
    let index = closed.output.content.len() as int;
    assert(t.output.content[index] == tool_call_block(
        or_empty(delta.id),
        or_empty(delta.name),
        empty_object(),
    ));
    assert(fits(replay(before), event));
}

/// Applying a tool-call delta keeps message and events in step.
pub proof fn lemma_apply_tool_call_synced(
    history: Seq<EventView>,
    s: Blocks,
    delta: ToolCallDeltaView,
)
    requires
        synced(history, s),
    ensures
        synced(history, apply_tool_call(s, delta)),
{
    let t = apply_tool_call(s, delta);
    match s.current {
        Some(CurrentBlockView::ToolCall { id, name, partial_args }) => {
            if delta.arguments.is_some() {
                let before = history + s.emitted;
                let event = t.emitted.last();
                assert(history + t.emitted =~= before.push(event));
                lemma_replay_push(before, event);
            }
        },
        _ => {},
    }
}

/// A tool-call delta keeps message and events in step.
pub proof fn lemma_tool_call_delta_synced(
    history: Seq<EventView>,
    s: Blocks,
    delta: ToolCallDeltaView,
)
    requires
        synced(history, s),
    ensures
        synced(history, tool_call_delta(s, delta)),
{
    if starts_new_tool_call(s.current, delta) {
        lemma_start_tool_call_synced(history, s, delta);
        lemma_apply_tool_call_synced(history, start_tool_call(s, delta), delta);
    } else {
        lemma_apply_tool_call_synced(history, s, delta);
    }
}

/// The tool-call deltas of a chunk keep message and events in step.
pub proof fn lemma_tool_calls_synced(
    history: Seq<EventView>,
    s: Blocks,
    deltas: Seq<ToolCallDeltaView>,
)
    requires
        synced(history, s),
    ensures
        synced(history, tool_calls(s, deltas)),
    decreases deltas.len(),
{
    if deltas.len() > 0 {
        lemma_tool_calls_synced(history, s, deltas.drop_last());
        lemma_tool_call_delta_synced(history, tool_calls(s, deltas.drop_last()), deltas.last());
    }
}

/// Whether an operation that was to reach `after` has done so: the message and
/// the block in flight are as `after` says, and the sender has been pushed
/// exactly the events that `after` emitted.
pub open spec fn arrived(
    after: Blocks,
    output: AssistantMessage,
    current: Option<CurrentBlock>,
    before: EventStreamSender,
    sender: EventStreamSender,
) -> bool {
    &&& output.deep_view() == after.output
    &&& current.deep_view() == after.current
    &&& sender.history() == before.history() + after.emitted
    &&& sender.queued() == before.queued() + after.emitted
    &&& sender.result_slot() == before.result_slot()
}

/// Replaces the content block at `index`.
fn set_content(content: &mut Vec<Content>, index: usize, block: Content)
    requires
        index < old(content).len(),
    ensures
        final(content).deep_view() == old(content).deep_view().update(
            index as int,
            block.deep_view(),
        ),
        final(content).len() == old(content).len(),
{
    let ghost view = block.deep_view();
    content[index] = block;
    assert(content.deep_view() =~= old(content).deep_view().update(index as int, view));
}

/// Appends a content block.
fn push_content(content: &mut Vec<Content>, block: Content)
    ensures
        final(content).deep_view() == old(content).deep_view().push(block.deep_view()),
        final(content).len() == old(content).len() + 1,
{
    let ghost view = block.deep_view();
    content.push(block);
    assert(content.deep_view() =~= old(content).deep_view().push(view));
}

/// The index of the last content block, or zero where there is none.
fn last_content_index(output: &AssistantMessage) -> (index: usize)
    ensures
        index == last_index(output.deep_view().content),
{
    if output.content.len() == 0 {
        0
    } else {
        output.content.len() - 1
    }
}

/// Closes the block in flight, if there is one: writes what it accumulated
/// into its content stub and pushes its end event. Tool-call arguments that do
/// not parse as JSON become the empty object.
pub fn finish_current_block(
    current_block: &mut Option<CurrentBlock>,
    output: &mut AssistantMessage,
    sender: &mut EventStreamSender,
)
    ensures
        arrived(
            finish_current(blocks_of(old(output).deep_view(), old(current_block).deep_view())),
            *final(output),
            *final(current_block),
            *old(sender),
            *final(sender),
        ),
        final(current_block).is_none(),
        in_sync(old(sender).history(), old(output).deep_view(), old(current_block).deep_view())
            ==> in_sync(
            final(sender).history(),
            final(output).deep_view(),
            final(current_block).deep_view(),
        ),
{
    let ghost start = blocks_of(old(output).deep_view(), old(current_block).deep_view());
    proof {
        assert(old(sender).history() + start.emitted =~= old(sender).history());
        assert(old(sender).queued() + start.emitted =~= old(sender).queued());
        if synced(old(sender).history(), start) {
            lemma_finish_current_synced(old(sender).history(), start);
        }
    }
    let block = match current_block.take() {
        Some(block) => block,
        None => {
            return ;
        },
    };
    let content_index = last_content_index(output);
    let ghost goal = finish_current(start);
    match block {
        CurrentBlock::Text { text } => {
            if output.content.len() > 0 {
                let stub_signature = match &output.content[content_index] {
                    Content::Text { inner } => Some(inner.text_signature.clone()),
                    _ => None,
                };
                if let Some(text_signature) = stub_signature {
                    set_content(
                        &mut output.content,
                        content_index,
                        Content::Text { inner: TextContent { text: text.clone(), text_signature } },
                    );
                }
            }
            assert(output.deep_view() == goal.output);
            let partial = output.clone();
            sender.push(AssistantMessageEvent::TextEnd { content_index, content: text, partial });
        },
        CurrentBlock::Thinking { thinking, signature } => {
            if output.content.len() > 0 {
                let is_thinking = match &output.content[content_index] {
                    Content::Thinking { .. } => true,
                    _ => false,
                };
                if is_thinking {
                    set_content(
                        &mut output.content,
                        content_index,
                        Content::Thinking {
                            inner: ThinkingContent {
                                thinking: thinking.clone(),
                                thinking_signature: Some(signature),
                            },
                        },
                    );
                }
            }
            assert(output.deep_view() == goal.output);
            let partial = output.clone();
            sender.push(
                AssistantMessageEvent::ThinkingEnd { content_index, content: thinking, partial },
            );
        },
        CurrentBlock::ToolCall { id, name, partial_args } => {
            let arguments = parse_json_or_empty(partial_args.as_str());
            if output.content.len() > 0 {
                let stub_signature = match &output.content[content_index] {
                    Content::ToolCall { inner } => Some(inner.thought_signature.clone()),
                    _ => None,
                };
                if let Some(thought_signature) = stub_signature {
                    set_content(
                        &mut output.content,
                        content_index,
                        Content::ToolCall {
                            inner: ToolCall {
                                id: ToolCallId(id.clone()),
                                name: name.clone(),
                                arguments: arguments.clone(),
                                thought_signature,
                            },
                        },
                    );
                }
            }
            assert(output.deep_view() == goal.output);
            let partial = output.clone();
            sender.push(
                AssistantMessageEvent::ToolCallEnd {
                    content_index,
                    tool_call: ToolCall {
                        id: ToolCallId(id),
                        name,
                        arguments,
                        thought_signature: None,
                    },
                    partial,
                },
            );
        },
    }
    proof {
        assert(sender.history() =~= old(sender).history() + goal.emitted);
        assert(sender.queued() =~= old(sender).queued() + goal.emitted);
    }
}

/// Handles a text delta: continues the text block in flight, or closes what is
/// in flight and opens a text block. An empty delta is ignored.
pub fn handle_text_delta(
    content: &str,
    output: &mut AssistantMessage,
    sender: &mut EventStreamSender,
    current_block: &mut Option<CurrentBlock>,
)
    ensures
        arrived(
            text_delta(
                blocks_of(old(output).deep_view(), old(current_block).deep_view()),
                content@,
            ),
            *final(output),
            *final(current_block),
            *old(sender),
            *final(sender),
        ),
        in_sync(old(sender).history(), old(output).deep_view(), old(current_block).deep_view())
            ==> in_sync(
            final(sender).history(),
            final(output).deep_view(),
            final(current_block).deep_view(),
        ),
{
    let ghost start = blocks_of(old(output).deep_view(), old(current_block).deep_view());
    let ghost goal = text_delta(start, content@);
    proof {
        assert(old(sender).history() + start.emitted =~= old(sender).history());
        assert(old(sender).queued() + start.emitted =~= old(sender).queued());
        if synced(old(sender).history(), start) {
            lemma_text_delta_synced(old(sender).history(), start, content@);
        }
    }
    if content.is_empty() {
        return ;
    }
    match current_block.take() {
        Some(CurrentBlock::Text { text }) => {
            let mut text = text;
            text.append(content);
            *current_block = Some(CurrentBlock::Text { text });
            let content_index = last_content_index(output);
            let partial = output.clone();
            sender.push(
                AssistantMessageEvent::TextDelta {
                    content_index,
                    delta: content.to_owned(),
                    partial,
                },
            );
        },
        other => {
            *current_block = other;
            finish_current_block(current_block, output, sender);
            *current_block = Some(CurrentBlock::Text { text: content.to_owned() });
            push_content(&mut output.content, Content::text(""));
            let content_index = output.content.len() - 1;
            proof {
                reveal_strlit("");
                assert(""@ =~= Seq::<char>::empty());
            }
            assert(output.deep_view() == goal.output);
            let partial = output.clone();
            sender.push(AssistantMessageEvent::TextStart { content_index, partial });
            let partial = output.clone();
            sender.push(
                AssistantMessageEvent::TextDelta {
                    content_index,
                    delta: content.to_owned(),
                    partial,
                },
            );
        },
    }
    proof {
        assert(sender.history() =~= old(sender).history() + goal.emitted);
        assert(sender.queued() =~= old(sender).queued() + goal.emitted);
    }
}

/// Handles a reasoning delta: continues the thinking block in flight, or closes
/// what is in flight and opens a thinking block that keeps the delta's
/// signature label until it ends. An empty delta is ignored.
pub fn handle_reasoning_delta(
    reasoning: ReasoningDelta<'_>,
    output: &mut AssistantMessage,
    sender: &mut EventStreamSender,
    current_block: &mut Option<CurrentBlock>,
)
    ensures
        arrived(
            reasoning_delta(
                blocks_of(old(output).deep_view(), old(current_block).deep_view()),
                reasoning.text@,
                reasoning.signature@,
            ),
            *final(output),
            *final(current_block),
            *old(sender),
            *final(sender),
        ),
        in_sync(old(sender).history(), old(output).deep_view(), old(current_block).deep_view())
            ==> in_sync(
            final(sender).history(),
            final(output).deep_view(),
            final(current_block).deep_view(),
        ),
{
    let ghost start = blocks_of(old(output).deep_view(), old(current_block).deep_view());
    let ghost goal = reasoning_delta(start, reasoning.text@, reasoning.signature@);
    proof {
        assert(old(sender).history() + start.emitted =~= old(sender).history());
        assert(old(sender).queued() + start.emitted =~= old(sender).queued());
        if synced(old(sender).history(), start) {
            lemma_reasoning_delta_synced(
                old(sender).history(),
                start,
                reasoning.text@,
                reasoning.signature@,
            );
        }
    }
    if reasoning.text.is_empty() {
        return ;
    }
    match current_block.take() {
        Some(CurrentBlock::Thinking { thinking, signature }) => {
            let mut thinking = thinking;
            thinking.append(reasoning.text);
            *current_block = Some(CurrentBlock::Thinking { thinking, signature });
            let content_index = last_content_index(output);
            let partial = output.clone();
            sender.push(
                AssistantMessageEvent::ThinkingDelta {
                    content_index,
                    delta: reasoning.text.to_owned(),
                    partial,
                },
            );
        },
        other => {
            *current_block = other;
            finish_current_block(current_block, output, sender);
            *current_block = Some(
                CurrentBlock::Thinking {
                    thinking: reasoning.text.to_owned(),
                    signature: reasoning.signature.to_owned(),
                },
            );
            push_content(&mut output.content, Content::thinking(""));
            let content_index = output.content.len() - 1;
            proof {
                reveal_strlit("");
                assert(""@ =~= Seq::<char>::empty());
            }
            assert(output.deep_view() == goal.output);
            let partial = output.clone();
            sender.push(AssistantMessageEvent::ThinkingStart { content_index, partial });
            let partial = output.clone();
            sender.push(
                AssistantMessageEvent::ThinkingDelta {
                    content_index,
                    delta: reasoning.text.to_owned(),
                    partial,
                },
            );
        },
    }
    proof {
        assert(sender.history() =~= old(sender).history() + goal.emitted);
        assert(sender.queued() =~= old(sender).queued() + goal.emitted);
    }
}

/// Whether an optional string is there and not empty.
pub fn is_present(text: &Option<String>) -> (there: bool)
    ensures
        there == present(text.deep_view()),
{
    match text {
        Some(text) => !text.as_str().is_empty(),
        None => false,
    }
}

/// The function name a tool-call delta carries, if any.
fn delta_name(tool_call: &OpenAiLikeToolCallDelta) -> (name: &Option<String>)
    ensures
        name.deep_view() == tool_call.deep_view().name,
{
    match &tool_call.function {
        Some(function) => &function.name,
        None => &None,
    }
}

/// The arguments a tool-call delta carries, if any.
fn delta_arguments(tool_call: &OpenAiLikeToolCallDelta) -> (arguments: &Option<String>)
    ensures
        arguments.deep_view() == tool_call.deep_view().arguments,
{
    match &tool_call.function {
        Some(function) => &function.arguments,
        None => &None,
    }
}

/// Whether a tool-call delta names its call: by a non-empty id or a non-empty
/// function name. A delta that carries arguments only does not.
pub fn has_tool_call_identity(tool_call: &OpenAiLikeToolCallDelta) -> (named: bool)
    ensures
        named == has_identity(tool_call.deep_view()),
{
    if is_present(&tool_call.id) {
        return true;
    }
    is_present(delta_name(tool_call))
}

/// Whether a tool-call delta opens a new tool call, given the block in flight.
pub fn should_start_new_tool_call(
    current_block: &Option<CurrentBlock>,
    tool_call: &OpenAiLikeToolCallDelta,
) -> (start: bool)
    ensures
        start == starts_new_tool_call(current_block.deep_view(), tool_call.deep_view()),
{
    match current_block {
        Some(CurrentBlock::ToolCall { id, .. }) => {
            match &tool_call.id {
                Some(new_id) => !new_id.as_str().is_empty() && !id.as_str().is_empty() && !(*new_id
                    == *id),
                None => false,
            }
        },
        _ => has_tool_call_identity(tool_call),
    }
}

/// A copy of an optional string, or the empty string.
fn cloned_or_empty(text: &Option<String>) -> (copy: String)
    ensures
        copy@ == or_empty(text.deep_view()),
{
    match text {
        Some(text) => text.clone(),
        None => String::new(),
    }
}

/// Opens a tool call from a delta: closes what is in flight, records the
/// delta's id and name (either may be missing and is then empty), appends a
/// tool-call stub with empty-object arguments and pushes `ToolCallStart`.
pub fn start_tool_call_block(
    tool_call: &OpenAiLikeToolCallDelta,
    output: &mut AssistantMessage,
    sender: &mut EventStreamSender,
    current_block: &mut Option<CurrentBlock>,
)
    ensures
        arrived(
            start_tool_call(
                blocks_of(old(output).deep_view(), old(current_block).deep_view()),
                tool_call.deep_view(),
            ),
            *final(output),
            *final(current_block),
            *old(sender),
            *final(sender),
        ),
        in_sync(old(sender).history(), old(output).deep_view(), old(current_block).deep_view())
            ==> in_sync(
            final(sender).history(),
            final(output).deep_view(),
            final(current_block).deep_view(),
        ),
{
    let ghost start = blocks_of(old(output).deep_view(), old(current_block).deep_view());
    let ghost goal = start_tool_call(start, tool_call.deep_view());
    proof {
        assert(old(sender).history() + start.emitted =~= old(sender).history());
        assert(old(sender).queued() + start.emitted =~= old(sender).queued());
        if synced(old(sender).history(), start) {
            lemma_start_tool_call_synced(old(sender).history(), start, tool_call.deep_view());
        }
    }
    finish_current_block(current_block, output, sender);
    let id = cloned_or_empty(&tool_call.id);
    let name = cloned_or_empty(delta_name(tool_call));
    let stub = Content::tool_call(id.as_str(), name.as_str(), empty_json_object());
    *current_block = Some(CurrentBlock::ToolCall { id, name, partial_args: String::new() });
    push_content(&mut output.content, stub);
    assert(output.deep_view() == goal.output);
    let content_index = output.content.len() - 1;
    let partial = output.clone();
    sender.push(AssistantMessageEvent::ToolCallStart { content_index, partial });
    proof {
        assert(sender.history() =~= old(sender).history() + goal.emitted);
        assert(sender.queued() =~= old(sender).queued() + goal.emitted);
    }
}

/// Applies a delta to the tool call in flight: an id or a name that arrives
/// replaces the stored one, and arguments that arrive are appended to the
/// argument text and pushed as `ToolCallDelta`. Does nothing while no tool
/// call is in flight.
pub fn apply_tool_call_delta(
    tool_call: &OpenAiLikeToolCallDelta,
    output: &mut AssistantMessage,
    sender: &mut EventStreamSender,
    current_block: &mut Option<CurrentBlock>,
)
    ensures
        arrived(
            apply_tool_call(
                blocks_of(old(output).deep_view(), old(current_block).deep_view()),
                tool_call.deep_view(),
            ),
            *final(output),
            *final(current_block),
            *old(sender),
            *final(sender),
        ),
        in_sync(old(sender).history(), old(output).deep_view(), old(current_block).deep_view())
            ==> in_sync(
            final(sender).history(),
            final(output).deep_view(),
            final(current_block).deep_view(),
        ),
{
    let ghost start = blocks_of(old(output).deep_view(), old(current_block).deep_view());
    let ghost goal = apply_tool_call(start, tool_call.deep_view());
    proof {
        assert(old(sender).history() + start.emitted =~= old(sender).history());
        assert(old(sender).queued() + start.emitted =~= old(sender).queued());
        if synced(old(sender).history(), start) {
            lemma_apply_tool_call_synced(old(sender).history(), start, tool_call.deep_view());
        }
    }
    match current_block.take() {
        Some(CurrentBlock::ToolCall { id, name, partial_args }) => {
            let id = match &tool_call.id {
                Some(new_id) => new_id.clone(),
                None => id,
            };
            let name = match delta_name(tool_call) {
                Some(new_name) => new_name.clone(),
                None => name,
            };
            let mut partial_args = partial_args;
            match delta_arguments(tool_call) {
                Some(arguments) => {
                    partial_args.append(arguments.as_str());
                    *current_block = Some(CurrentBlock::ToolCall { id, name, partial_args });
                    let content_index = last_content_index(output);
                    let partial = output.clone();
                    sender.push(
                        AssistantMessageEvent::ToolCallDelta {
                            content_index,
                            delta: arguments.clone(),
                            partial,
                        },
                    );
                },
                None => {
                    *current_block = Some(CurrentBlock::ToolCall { id, name, partial_args });
                },
            }
        },
        other => {
            *current_block = other;
        },
    }
    proof {
        assert(sender.history() =~= old(sender).history() + goal.emitted);
        assert(sender.queued() =~= old(sender).queued() + goal.emitted);
    }
}

/// Handles the tool-call deltas of one chunk in order: each opens a tool call
/// where it starts one, and is then applied.
pub fn handle_tool_calls(
    tool_calls: &[OpenAiLikeToolCallDelta],
    output: &mut AssistantMessage,
    sender: &mut EventStreamSender,
    current_block: &mut Option<CurrentBlock>,
)
    ensures
        arrived(
            self::tool_calls(
                blocks_of(old(output).deep_view(), old(current_block).deep_view()),
                tool_calls.deep_view(),
            ),
            *final(output),
            *final(current_block),
            *old(sender),
            *final(sender),
        ),
        in_sync(old(sender).history(), old(output).deep_view(), old(current_block).deep_view())
            ==> in_sync(
            final(sender).history(),
            final(output).deep_view(),
            final(current_block).deep_view(),
        ),
{
    let ghost start = blocks_of(old(output).deep_view(), old(current_block).deep_view());
    let ghost views = tool_calls.deep_view();
    proof {
        assert(old(sender).history() + start.emitted =~= old(sender).history());
        assert(old(sender).queued() + start.emitted =~= old(sender).queued());
    }
    let mut i: usize = 0;
    while i < tool_calls.len()
        invariant
            i <= tool_calls.len(),
            views == tool_calls.deep_view(),
            views.len() == tool_calls.len(),
            start == blocks_of(old(output).deep_view(), old(current_block).deep_view()),
            arrived(
                self::tool_calls(start, views.take(i as int)),
                *output,
                *current_block,
                *old(sender),
                *sender,
            ),
            in_sync(old(sender).history(), old(output).deep_view(), old(current_block).deep_view())
                ==> in_sync(sender.history(), output.deep_view(), current_block.deep_view()),
        decreases tool_calls.len() - i,
    {
        let tool_call = &tool_calls[i];
        let ghost delta = tool_call.deep_view();
        let ghost front = self::tool_calls(start, views.take(i as int));
        let ghost here = blocks_of(output.deep_view(), current_block.deep_view());
        let ghost first_sender = *sender;
        if should_start_new_tool_call(current_block, tool_call) {
            start_tool_call_block(tool_call, output, sender, current_block);
        }
        let ghost opened = if starts_new_tool_call(here.current, delta) {
            start_tool_call(here, delta)
        } else {
            here
        };
        let ghost opened_sender = *sender;
        proof {
            assert(first_sender.history() + here.emitted =~= first_sender.history());
            assert(first_sender.queued() + here.emitted =~= first_sender.queued());
            assert(arrived(opened, *output, *current_block, first_sender, opened_sender));
        }
        apply_tool_call_delta(tool_call, output, sender, current_block);
        proof {
            assert(views.take(i + 1).drop_last() =~= views.take(i as int));
            assert(views.take(i + 1).last() == delta);
            assert(settled(front) == here);
            lemma_tool_call_delta_continues(front, delta);
            lemma_apply_tool_call_continues(opened, delta);
            lemma_arrived_continues(
                opened,
                apply_tool_call(settled(opened), delta),
                *output,
                *current_block,
                first_sender,
                opened_sender,
                *sender,
            );
            assert(tool_call_delta(here, delta) == apply_tool_call(opened, delta));
            lemma_arrived_continues(
                front,
                tool_call_delta(here, delta),
                *output,
                *current_block,
                *old(sender),
                first_sender,
                *sender,
            );
        }
        i += 1;
    }
    proof {
        assert(views.take(tool_calls.len() as int) =~= views);
    }
}

/// The state `next`, reached from where `s` stands, with the events of `s` in
/// front of its own.
pub open spec fn continues(s: Blocks, next: Blocks) -> Blocks {
    Blocks { output: next.output, current: next.current, emitted: s.emitted + next.emitted }
}

/// `s` without the events it emitted.
pub open spec fn settled(s: Blocks) -> Blocks {
    blocks_of(s.output, s.current)
}

/// What an operation does and emits does not depend on what was emitted
/// before it: the earlier events stay in front.
pub proof fn lemma_finish_current_continues(s: Blocks)
    ensures
        finish_current(s) == continues(s, finish_current(settled(s))),
{
    assert(finish_current(s).emitted =~= s.emitted + finish_current(settled(s)).emitted);
}

/// What a text delta emits follows whatever was emitted before it.
pub proof fn lemma_text_delta_continues(s: Blocks, content: Seq<char>)
    ensures
        text_delta(s, content) == continues(s, text_delta(settled(s), content)),
{
    lemma_finish_current_continues(s);
    assert(text_delta(s, content).emitted =~= s.emitted + text_delta(
        settled(s),
        content,
    ).emitted);
}

/// What a reasoning delta emits follows whatever was emitted before it.
pub proof fn lemma_reasoning_delta_continues(s: Blocks, text: Seq<char>, signature: Seq<char>)
    ensures
        reasoning_delta(s, text, signature) == continues(
            s,
            reasoning_delta(settled(s), text, signature),
        ),
{
    lemma_finish_current_continues(s);
    assert(reasoning_delta(s, text, signature).emitted =~= s.emitted + reasoning_delta(
        settled(s),
        text,
        signature,
    ).emitted);
}

/// What opening a tool call emits follows whatever was emitted before it.
pub proof fn lemma_start_tool_call_continues(s: Blocks, delta: ToolCallDeltaView)
    ensures
        start_tool_call(s, delta) == continues(s, start_tool_call(settled(s), delta)),
{
    lemma_finish_current_continues(s);
    assert(start_tool_call(s, delta).emitted =~= s.emitted + start_tool_call(
        settled(s),
        delta,
    ).emitted);
}

/// What applying a tool-call delta emits follows whatever was emitted before
/// it.
pub proof fn lemma_apply_tool_call_continues(s: Blocks, delta: ToolCallDeltaView)
    ensures
        apply_tool_call(s, delta) == continues(s, apply_tool_call(settled(s), delta)),
{
    assert(apply_tool_call(s, delta).emitted =~= s.emitted + apply_tool_call(
        settled(s),
        delta,
    ).emitted);
}

/// What a tool-call delta emits follows whatever was emitted before it.
pub proof fn lemma_tool_call_delta_continues(s: Blocks, delta: ToolCallDeltaView)
    ensures
        tool_call_delta(s, delta) == continues(s, tool_call_delta(settled(s), delta)),
{
    if starts_new_tool_call(s.current, delta) {
        lemma_start_tool_call_continues(s, delta);
        let opened = start_tool_call(s, delta);
        let opened_alone = start_tool_call(settled(s), delta);
        lemma_apply_tool_call_continues(opened, delta);
        lemma_apply_tool_call_continues(opened_alone, delta);
        assert(settled(opened) == settled(opened_alone));
        assert(tool_call_delta(s, delta).emitted =~= s.emitted + tool_call_delta(
            settled(s),
            delta,
        ).emitted);
    } else {
        lemma_apply_tool_call_continues(s, delta);
    }
}

/// What the tool-call deltas of a chunk emit follows whatever was emitted
/// before them.
pub proof fn lemma_tool_calls_continues(s: Blocks, deltas: Seq<ToolCallDeltaView>)
    ensures
        tool_calls(s, deltas) == continues(s, tool_calls(settled(s), deltas)),
    decreases deltas.len(),
{
    if deltas.len() == 0 {
        assert(s.emitted + settled(s).emitted =~= s.emitted);
    } else {
        lemma_tool_calls_continues(s, deltas.drop_last());
        let front = tool_calls(s, deltas.drop_last());
        let front_alone = tool_calls(settled(s), deltas.drop_last());
        lemma_tool_call_delta_continues(front, deltas.last());
        lemma_tool_call_delta_continues(front_alone, deltas.last());
        assert(settled(front) == settled(front_alone));
        assert(tool_calls(s, deltas).emitted =~= s.emitted + tool_calls(
            settled(s),
            deltas,
        ).emitted);
    }
}

/// An operation whose events follow whatever was emitted before carries an
/// earlier state's events through unchanged.
pub proof fn lemma_continues_through(op: spec_fn(Blocks) -> Blocks, s: Blocks, t: Blocks)
    requires
        forall|x: Blocks| #[trigger] op(x) == continues(x, op(settled(x))),
    ensures
        op(continues(s, t)) == continues(s, op(t)),
{
    let joined = continues(s, t);
    assert(settled(joined) == settled(t));
    assert(op(joined) == continues(joined, op(settled(t))));
    assert(op(t) == continues(t, op(settled(t))));
    assert((s.emitted + t.emitted) + op(settled(t)).emitted =~= s.emitted + (t.emitted + op(
        settled(t),
    ).emitted));
}

/// An operation that arrives where `next` says, started where an earlier one
/// arrived at `s`, has arrived at `next` after `s`.
pub proof fn lemma_arrived_continues(
    s: Blocks,
    next: Blocks,
    output: AssistantMessage,
    current: Option<CurrentBlock>,
    before: EventStreamSender,
    between: EventStreamSender,
    sender: EventStreamSender,
)
    requires
        between.history() == before.history() + s.emitted,
        between.queued() == before.queued() + s.emitted,
        between.result_slot() == before.result_slot(),
        arrived(next, output, current, between, sender),
    ensures
        arrived(continues(s, next), output, current, before, sender),
{
    assert((before.history() + s.emitted) + next.emitted =~= before.history() + (s.emitted
        + next.emitted));
    assert((before.queued() + s.emitted) + next.emitted =~= before.queued() + (s.emitted
        + next.emitted));
}

/// Token details of the prompt, as some providers report them.
#[derive(Clone, Copy, Debug, PartialEq, Eq, Structural)]
pub struct PromptTokensDetails {
    pub cached_tokens: Option<u32>,
    pub cache_write_tokens: Option<u32>,
}

/// Token details of the completion, as some providers report them.
#[derive(Clone, Copy, Debug, PartialEq, Eq, Structural)]
pub struct CompletionTokensDetails {
    pub reasoning_tokens: Option<u32>,
}

/// The token counts of a provider's usage payload.
#[derive(Clone, Copy, Debug, PartialEq, Eq, Structural)]
pub struct OpenAiLikeStreamUsage {
    pub prompt_tokens: u32,
    pub completion_tokens: u32,
    pub total_tokens: Option<u32>,
    pub cache_read_input_tokens: Option<u32>,
    pub cache_creation_input_tokens: Option<u32>,
    pub prompt_tokens_details: Option<PromptTokensDetails>,
    pub completion_tokens_details: Option<CompletionTokensDetails>,
}

/// The cached prompt tokens that the prompt details report, if any.
pub open spec fn detail_cached_tokens(usage: OpenAiLikeStreamUsage) -> Option<u32> {
    match usage.prompt_tokens_details {
        Some(details) => details.cached_tokens,
        None => None,
    }
}

/// The cache-write tokens that the prompt details report, if any.
pub open spec fn detail_cache_write_tokens(usage: OpenAiLikeStreamUsage) -> Option<u32> {
    match usage.prompt_tokens_details {
        Some(details) => details.cache_write_tokens,
        None => None,
    }
}

/// The reasoning tokens that the completion details report, if any.
pub open spec fn detail_reasoning_tokens(usage: OpenAiLikeStreamUsage) -> Option<u32> {
    match usage.completion_tokens_details {
        Some(details) => details.reasoning_tokens,
        None => None,
    }
}

/// The first count that is there, or zero.
pub open spec fn first_count(first: Option<u32>, second: Option<u32>) -> int {
    match first {
        Some(count) => count as int,
        None => match second {
            Some(count) => count as int,
            None => 0,
        },
    }
}

/// Usage as a provider reports it: the raw prompt and completion counts, the
/// cache counts from the top level or else from the prompt details, and the
/// reported total or else the sum of input and output.
pub open spec fn raw_usage(usage: OpenAiLikeStreamUsage) -> Usage {
    Usage {
        input: usage.prompt_tokens as u64,
        output: usage.completion_tokens as u64,
        cache_read: first_count(usage.cache_read_input_tokens, detail_cached_tokens(usage)) as u64,
        cache_write: first_count(
            usage.cache_creation_input_tokens,
            detail_cache_write_tokens(usage),
        ) as u64,
        total_tokens: match usage.total_tokens {
            Some(total) => total as u64,
            None => (usage.prompt_tokens + usage.completion_tokens) as u64,
        },
    }
}

/// Usage in the OpenAI dialect, where the prompt count includes the cached
/// tokens and the completion count leaves out the reasoning tokens.
///
/// The cache counts are read as for any provider. The cached tokens are taken
/// out of the input, never below zero; the reasoning tokens, where they are
/// reported, are added to the output; and the total is the sum of input,
/// output and cached tokens, whatever total the payload reports.
pub open spec fn openai_usage(usage: OpenAiLikeStreamUsage) -> Usage {
    let cached = first_count(usage.cache_read_input_tokens, detail_cached_tokens(usage));
    let reasoning = first_count(detail_reasoning_tokens(usage), None);
    let input = if usage.prompt_tokens >= cached {
        usage.prompt_tokens - cached
    } else {
        0
    };
    let output = usage.completion_tokens + reasoning;
    Usage {
        input: input as u64,
        output: output as u64,
        cache_read: cached as u64,
        cache_write: first_count(
            usage.cache_creation_input_tokens,
            detail_cache_write_tokens(usage),
        ) as u64,
        total_tokens: (input + output + cached) as u64,
    }
}

/// `output` with another usage record.
pub open spec fn with_usage(output: AssistantMessageView, usage: Usage) -> AssistantMessageView {
    AssistantMessageView {
        content: output.content,
        api: output.api,
        provider: output.provider,
        model: output.model,
        usage,
        stop_reason: output.stop_reason,
        error_message: output.error_message,
        timestamp: output.timestamp,
    }
}

/// `output` with another stop reason.
pub open spec fn with_stop_reason(
    output: AssistantMessageView,
    stop_reason: StopReason,
) -> AssistantMessageView {
    AssistantMessageView {
        content: output.content,
        api: output.api,
        provider: output.provider,
        model: output.model,
        usage: output.usage,
        stop_reason,
        error_message: output.error_message,
        timestamp: output.timestamp,
    }
}

fn count_or_zero(first: Option<u32>, second: Option<u32>) -> (count: u64)
    ensures
        count == first_count(first, second),
{
    match first {
        Some(count) => count as u64,
        None => match second {
            Some(count) => count as u64,
            None => 0,
        },
    }
}

/// Replaces the message's usage by what a provider's usage payload reports.
pub fn update_usage_from_chunk(usage: &OpenAiLikeStreamUsage, output: &mut AssistantMessage)
    ensures
        final(output).deep_view() == with_usage(old(output).deep_view(), raw_usage(*usage)),
{
    let (cached, cache_write) = match usage.prompt_tokens_details {
        Some(details) => (details.cached_tokens, details.cache_write_tokens),
        None => (None, None),
    };
    let input_tokens = usage.prompt_tokens as u64;
    let output_tokens = usage.completion_tokens as u64;
    let total_tokens = match usage.total_tokens {
        Some(total) => total as u64,
        None => input_tokens + output_tokens,
    };
    output.usage = Usage {
        input: input_tokens,
        output: output_tokens,
        cache_read: count_or_zero(usage.cache_read_input_tokens, cached),
        cache_write: count_or_zero(usage.cache_creation_input_tokens, cache_write),
        total_tokens,
    };
}

/// Replaces the message's usage by what a usage payload reports in the OpenAI
/// dialect.
pub fn update_openai_usage_from_chunk(usage: &OpenAiLikeStreamUsage, output: &mut AssistantMessage)
    ensures
        final(output).deep_view() == with_usage(old(output).deep_view(), openai_usage(*usage)),
{
    let (cached, cache_write) = match usage.prompt_tokens_details {
        Some(details) => (details.cached_tokens, details.cache_write_tokens),
        None => (None, None),
    };
    let cached_tokens = count_or_zero(usage.cache_read_input_tokens, cached);
    let reasoning_tokens = count_or_zero(
        match usage.completion_tokens_details {
            Some(details) => details.reasoning_tokens,
            None => None,
        },
        None,
    );
    let prompt_tokens = usage.prompt_tokens as u64;
    let input = if prompt_tokens >= cached_tokens {
        prompt_tokens - cached_tokens
    } else {
        0
    };
    let output_tokens = usage.completion_tokens as u64 + reasoning_tokens;
    output.usage = Usage {
        input,
        output: output_tokens,
        cache_read: cached_tokens,
        cache_write: count_or_zero(usage.cache_creation_input_tokens, cache_write),
        total_tokens: input + output_tokens + cached_tokens,
    };
}

/// The stop reason a provider's finish reason stands for. A finish reason that
/// is not known counts as a plain stop.
pub open spec fn mapped_stop_reason(reason: Seq<char>) -> StopReason {
    if reason == "stop"@ {
        StopReason::Stop
    } else if reason == "length"@ {
        StopReason::Length
    } else if reason == "function_call"@ || reason == "tool_calls"@ {
        StopReason::ToolUse
    } else if reason == "content_filter"@ {
        StopReason::Error
    } else {
        StopReason::Stop
    }
}

/// Maps a provider's finish reason to a stop reason.
pub fn map_stop_reason(reason: &str) -> (stop_reason: StopReason)
    ensures
        stop_reason == mapped_stop_reason(reason@),
{
    if str_eq(reason, "stop") {
        StopReason::Stop
    } else if str_eq(reason, "length") {
        StopReason::Length
    } else if str_eq(reason, "function_call") || str_eq(reason, "tool_calls") {
        StopReason::ToolUse
    } else if str_eq(reason, "content_filter") {
        StopReason::Error
    } else {
        StopReason::Stop
    }
}

} // verus!
