//! What a well-formed event sequence is.
//!
//! An event sequence is read from left to right by [`replay`], which keeps the
//! content list the events imply and the block that is open. The sequence is
//! well formed when every event fits the state it arrives in:
//!
//! - `Start` comes first or not at all, and nothing follows a `Done` or an
//!   `Error`;
//! - a block is opened by its `*Start` at the next free content index, only
//!   while no block is open; it then takes `*Delta` events of its own kind and
//!   index, at least one for text and thinking, and is closed by its `*End`;
//! - each event's snapshot holds the content list as it stands after the
//!   event;
//! - a text or thinking block ends with the concatenation of its deltas, and a
//!   tool call with the JSON value its deltas spell, or the empty object where
//!   they spell none.

use vstd::prelude::*;
use crate::types::content::{text_block, thinking_block, ContentView};
use crate::types::event::EventView;
use crate::utils::json::{empty_object, json_or_empty};

verus! {

/// The kind of a streamed block.
pub enum BlockKind {
    Text,
    Thinking,
    ToolCall,
}

/// The block that is open while events are replayed.
pub struct OpenBlock {
    pub kind: BlockKind,
    pub index: int,
    /// The deltas received so far, joined.
    pub deltas: Seq<char>,
    /// How many deltas were received.
    pub count: nat,
}

/// The state that replaying an event sequence leaves.
pub struct Replay {
    /// Whether every event so far fitted.
    pub ok: bool,
    /// How many events were read.
    pub seen: nat,
    /// The content list the events imply.
    pub content: Seq<ContentView>,
    pub open: Option<OpenBlock>,
    /// Whether a terminal event was read.
    pub terminated: bool,
}

/// The state before any event.
pub open spec fn replay_start() -> Replay {
    Replay { ok: true, seen: 0, content: Seq::empty(), open: None, terminated: false }
}

/// Whether `open` is a block of the given kind at the given index.
pub open spec fn is_open(open: Option<OpenBlock>, kind: BlockKind, index: int) -> bool {
    open.is_some() && open.unwrap().kind == kind && open.unwrap().index == index
}

/// `open` with one more delta.
pub open spec fn with_delta(open: Option<OpenBlock>, delta: Seq<char>) -> Option<OpenBlock> {
    match open {
        Some(block) => Some(
            OpenBlock {
                kind: block.kind,
                index: block.index,
                deltas: block.deltas + delta,
                count: block.count + 1,
            },
        ),
        None => None,
    }
}

/// Whether `block` is a tool-call stub: empty-object arguments and no thought
/// signature.
pub open spec fn is_tool_call_stub(block: ContentView) -> bool {
    match block {
        ContentView::ToolCall(call) => call.arguments == empty_object()
            && call.thought_signature.is_none(),
        _ => false,
    }
}

/// Whether `block` is a thinking block with the given text and a signature
/// label.
pub open spec fn is_signed_thinking(block: ContentView, thinking: Seq<char>) -> bool {
    match block {
        ContentView::Thinking(inner) => inner.thinking == thinking
            && inner.thinking_signature.is_some(),
        _ => false,
    }
}

/// Whether `event` fits the state `before`.
pub open spec fn fits(before: Replay, event: EventView) -> bool {
    let content = before.content;
    let after = event.snapshot().content;
    &&& before.ok
    &&& !before.terminated
    &&& match event {
        EventView::Start { .. } => before.seen == 0 && after == content,
        EventView::TextStart { content_index, .. } => {
            &&& before.open.is_none()
            &&& content_index == content.len()
            &&& after == content.push(text_block(Seq::empty()))
        },
        EventView::TextDelta { content_index, delta, .. } => {
            &&& is_open(before.open, BlockKind::Text, content_index)
            &&& delta.len() > 0
            &&& after == content
        },
        EventView::TextEnd { content_index, content: text, .. } => {
            &&& is_open(before.open, BlockKind::Text, content_index)
            &&& before.open.unwrap().count >= 1
            &&& text == before.open.unwrap().deltas
            &&& 0 <= content_index < content.len()
            &&& after == content.update(content_index, text_block(text))
        },
        EventView::ThinkingStart { content_index, .. } => {
            &&& before.open.is_none()
            &&& content_index == content.len()
            &&& after == content.push(thinking_block(Seq::empty()))
        },
        EventView::ThinkingDelta { content_index, delta, .. } => {
            &&& is_open(before.open, BlockKind::Thinking, content_index)
            &&& delta.len() > 0
            &&& after == content
        },
        EventView::ThinkingEnd { content_index, content: thinking, .. } => {
            &&& is_open(before.open, BlockKind::Thinking, content_index)
            &&& before.open.unwrap().count >= 1
            &&& thinking == before.open.unwrap().deltas
            &&& 0 <= content_index < content.len()
            &&& after.len() == content.len()
            &&& is_signed_thinking(after[content_index], thinking)
            &&& after == content.update(content_index, after[content_index])
        },
        EventView::ToolCallStart { content_index, .. } => {
            &&& before.open.is_none()
            &&& content_index == content.len()
            &&& after.len() == content.len() + 1
            &&& is_tool_call_stub(after[content_index])
            &&& after == content.push(after[content_index])
        },
        EventView::ToolCallDelta { content_index, .. } => {
            &&& is_open(before.open, BlockKind::ToolCall, content_index)
            &&& after == content
        },
        EventView::ToolCallEnd { content_index, tool_call, .. } => {
            &&& is_open(before.open, BlockKind::ToolCall, content_index)
            &&& tool_call.arguments == json_or_empty(before.open.unwrap().deltas)
            &&& tool_call.thought_signature.is_none()
            &&& 0 <= content_index < content.len()
            &&& after == content.update(content_index, ContentView::ToolCall(tool_call))
        },
        EventView::Done { .. } => before.open.is_none() && after == content,
        EventView::Error { .. } => after == content,
    }
}

/// The block that is open after `event`.
pub open spec fn open_after(before: Replay, event: EventView) -> Option<OpenBlock> {
    match event {
        EventView::TextStart { content_index, .. } => Some(
            OpenBlock { kind: BlockKind::Text, index: content_index, deltas: Seq::empty(), count: 0 },
        ),
        EventView::ThinkingStart { content_index, .. } => Some(
            OpenBlock {
                kind: BlockKind::Thinking,
                index: content_index,
                deltas: Seq::empty(),
                count: 0,
            },
        ),
        EventView::ToolCallStart { content_index, .. } => Some(
            OpenBlock {
                kind: BlockKind::ToolCall,
                index: content_index,
                deltas: Seq::empty(),
                count: 0,
            },
        ),
        EventView::TextDelta { delta, .. } => with_delta(before.open, delta),
        EventView::ThinkingDelta { delta, .. } => with_delta(before.open, delta),
        EventView::ToolCallDelta { delta, .. } => with_delta(before.open, delta),
        EventView::TextEnd { .. } => None,
        EventView::ThinkingEnd { .. } => None,
        EventView::ToolCallEnd { .. } => None,
        _ => before.open,
    }
}

/// The state after `event`.
pub open spec fn step(before: Replay, event: EventView) -> Replay {
    Replay {
        ok: fits(before, event),
        seen: before.seen + 1,
        content: event.snapshot().content,
        open: open_after(before, event),
        terminated: before.terminated || event.is_terminal(),
    }
}

/// The state that reading `trace` from its first event leaves.
pub open spec fn replay(trace: Seq<EventView>) -> Replay
    decreases trace.len(),
{
    if trace.len() == 0 {
        replay_start()
    } else {
        step(replay(trace.drop_last()), trace.last())
    }
}

/// Whether `trace` is a well-formed event sequence.
pub open spec fn well_formed(trace: Seq<EventView>) -> bool {
    replay(trace).ok
}

/// Reading one more event is one more step.
pub proof fn lemma_replay_push(trace: Seq<EventView>, event: EventView)
    ensures
        replay(trace.push(event)) == step(replay(trace), event),
{
    assert(trace.push(event).drop_last() =~= trace);
}

/// Replay counts the events it reads, and a sequence that is well formed was
/// well formed at every point.
pub proof fn lemma_replay_prefix(trace: Seq<EventView>, k: int)
    requires
        0 <= k <= trace.len(),
    ensures
        replay(trace.take(k)).seen == k,
        well_formed(trace) ==> well_formed(trace.take(k)),
        replay(trace.take(k)).terminated ==> replay(trace).terminated,
    decreases trace.len() - k,
{
    if k == trace.len() {
        assert(trace.take(k) =~= trace);
        lemma_replay_seen(trace);
    } else {
        lemma_replay_prefix(trace, k + 1);
        assert(trace.take(k + 1).drop_last() =~= trace.take(k));
    }
}

proof fn lemma_replay_seen(trace: Seq<EventView>)
    ensures
        replay(trace).seen == trace.len(),
    decreases trace.len(),
{
    if trace.len() > 0 {
        lemma_replay_seen(trace.drop_last());
    }
}

/// In a well-formed sequence `Start` stands first or nowhere, and a terminal
/// event stands last or nowhere: so there is at most one terminal event, and
/// every other event precedes it.
pub proof fn lemma_start_first_terminal_last(trace: Seq<EventView>)
    requires
        well_formed(trace),
    ensures
        forall|k: int| 0 <= k < trace.len() && trace[k] is Start ==> k == 0,
        forall|k: int| 0 <= k < trace.len() && trace[k].is_terminal() ==> k == trace.len() - 1,
        replay(trace).terminated <==> (trace.len() > 0 && trace.last().is_terminal()),
    decreases trace.len(),
{
    if trace.len() > 0 {
        let front = trace.drop_last();
        lemma_start_first_terminal_last(front);
        lemma_replay_seen(front);
        assert forall|k: int| 0 <= k < trace.len() && trace[k] is Start implies k == 0 by {
            if k < front.len() {
                assert(front[k] == trace[k]);
            }
        }
        assert forall|k: int| 0 <= k < trace.len() && trace[k].is_terminal() implies k
            == trace.len() - 1 by {
            if k < front.len() {
                assert(front[k] == trace[k]);
                assert(front.last().is_terminal());
            }
        }
    }
}

/// In a well-formed sequence every event's snapshot holds the content list
/// that replaying the sequence up to and including that event gives.
pub proof fn lemma_snapshots_follow_replay(trace: Seq<EventView>, k: int)
    requires
        well_formed(trace),
        0 <= k < trace.len(),
    ensures
        trace[k].snapshot().content == replay(trace.take(k + 1)).content,
        fits(replay(trace.take(k)), trace[k]),
{
    lemma_replay_prefix(trace, k + 1);
    assert(trace.take(k + 1).drop_last() =~= trace.take(k));
    assert(trace.take(k + 1).last() == trace[k]);
}

/// Whether an event opens a block.
pub open spec fn is_block_start(event: EventView) -> bool {
    event is TextStart || event is ThinkingStart || event is ToolCallStart
}

/// Whether an event is a delta of a block.
pub open spec fn is_block_delta(event: EventView) -> bool {
    event is TextDelta || event is ThinkingDelta || event is ToolCallDelta
}

/// Whether an event closes a block.
pub open spec fn is_block_end(event: EventView) -> bool {
    event is TextEnd || event is ThinkingEnd || event is ToolCallEnd
}

/// The kind and content index of the block an event belongs to.
pub open spec fn block_of(event: EventView) -> Option<(BlockKind, int)> {
    match event {
        EventView::TextStart { content_index, .. } => Some((BlockKind::Text, content_index)),
        EventView::TextDelta { content_index, .. } => Some((BlockKind::Text, content_index)),
        EventView::TextEnd { content_index, .. } => Some((BlockKind::Text, content_index)),
        EventView::ThinkingStart { content_index, .. } => Some(
            (BlockKind::Thinking, content_index),
        ),
        EventView::ThinkingDelta { content_index, .. } => Some(
            (BlockKind::Thinking, content_index),
        ),
        EventView::ThinkingEnd { content_index, .. } => Some((BlockKind::Thinking, content_index)),
        EventView::ToolCallStart { content_index, .. } => Some(
            (BlockKind::ToolCall, content_index),
        ),
        EventView::ToolCallDelta { content_index, .. } => Some(
            (BlockKind::ToolCall, content_index),
        ),
        EventView::ToolCallEnd { content_index, .. } => Some((BlockKind::ToolCall, content_index)),
        _ => None,
    }
}

/// The text a delta carries.
pub open spec fn delta_text(event: EventView) -> Seq<char> {
    match event {
        EventView::TextDelta { delta, .. } => delta,
        EventView::ThinkingDelta { delta, .. } => delta,
        EventView::ToolCallDelta { delta, .. } => delta,
        _ => Seq::empty(),
    }
}

/// The block that is open after a well-formed sequence is the block of its
/// last event, which then is a start or a delta; and no block is open after
/// any other last event but `Error`.
proof fn lemma_open_is_last(trace: Seq<EventView>)
    requires
        well_formed(trace),
        trace.len() > 0,
    ensures
        ({
            let state = replay(trace);
            let last = trace.last();
            &&& state.open.is_some() && !(last is Error) ==> {
                &&& is_block_start(last) || is_block_delta(last)
                &&& block_of(last) == Some((state.open.unwrap().kind, state.open.unwrap().index))
                &&& is_block_start(last) ==> state.open.unwrap().count == 0
                &&& is_block_delta(last) ==> state.open.unwrap().count >= 1
            }
            &&& state.open.is_none() ==> last is Start || is_block_end(last) || last.is_terminal()
        }),
{
    let before = replay(trace.drop_last());
    assert(fits(before, trace.last()));
    if trace.last() is Start {
        lemma_replay_seen(trace.drop_last());
        assert(trace.drop_last().len() == 0);
    }
}

/// In a well-formed sequence the events of a block stand together: a delta or
/// an end follows a start or a delta of its own block, and a text or thinking
/// block ends behind at least one delta. A block is opened, and a stream is
/// done, only where no block is open: first, or behind `Start` or the end of
/// a block.
pub proof fn lemma_blocks_are_contiguous(trace: Seq<EventView>, k: int)
    requires
        well_formed(trace),
        0 <= k < trace.len(),
    ensures
        is_block_delta(trace[k]) || is_block_end(trace[k]) ==> {
            &&& k > 0
            &&& is_block_start(trace[k - 1]) || is_block_delta(trace[k - 1])
            &&& block_of(trace[k - 1]) == block_of(trace[k])
        },
        trace[k] is TextEnd || trace[k] is ThinkingEnd ==> k > 0 && is_block_delta(trace[k - 1]),
        is_block_start(trace[k]) || trace[k] is Done ==> k == 0 || trace[k - 1] is Start
            || is_block_end(trace[k - 1]),
        is_block_start(trace[k]) ==> block_of(trace[k]).unwrap().1 == replay(
            trace.take(k),
        ).content.len(),
{
    lemma_snapshots_follow_replay(trace, k);
    lemma_replay_prefix(trace, k);
    let front = trace.take(k);
    if k > 0 {
        assert(front.last() == trace[k - 1]);
        lemma_open_is_last(front);
        lemma_start_first_terminal_last(trace);
    }
}

/// The deltas of the events from index `from` up to, but not including,
/// index `to`, joined in order.
pub open spec fn joined_deltas(trace: Seq<EventView>, from: int, to: int) -> Seq<char>
    decreases to - from,
{
    if to <= from {
        Seq::empty()
    } else {
        joined_deltas(trace, from, to - 1) + delta_text(trace[to - 1])
    }
}

/// Behind the start of a block and the deltas that follow it, the open block
/// holds exactly those deltas, joined in order.
pub proof fn lemma_open_block_holds_its_deltas(trace: Seq<EventView>, start: int, k: int)
    requires
        well_formed(trace),
        0 <= start < k <= trace.len(),
        is_block_start(trace[start]),
        forall|j: int| start < j < k ==> is_block_delta(#[trigger] trace[j]),
    ensures
        replay(trace.take(k)).open == Some(
            OpenBlock {
                kind: block_of(trace[start]).unwrap().0,
                index: block_of(trace[start]).unwrap().1,
                deltas: joined_deltas(trace, start + 1, k),
                count: (k - start - 1) as nat,
            },
        ),
    decreases k - start,
{
    lemma_snapshots_follow_replay(trace, k - 1);
    assert(trace.take(k).drop_last() =~= trace.take(k - 1));
    assert(trace.take(k).last() == trace[k - 1]);
    if k == start + 1 {
        assert(joined_deltas(trace, start + 1, k) =~= Seq::<char>::empty());
    } else {
        lemma_open_block_holds_its_deltas(trace, start, k - 1);
        assert(is_block_delta(trace[k - 1]));
    }
}

/// A block ends with what its deltas spell: a text or thinking block with
/// the deltas joined, and a tool call with the JSON value that the joined
/// deltas parse to, or the empty object where they do not parse.
pub proof fn lemma_block_ends_with_its_deltas(trace: Seq<EventView>, start: int, end: int)
    requires
        well_formed(trace),
        0 <= start < end < trace.len(),
        is_block_start(trace[start]),
        forall|j: int| start < j < end ==> is_block_delta(#[trigger] trace[j]),
        is_block_end(trace[end]),
    ensures
        match trace[end] {
            EventView::TextEnd { content, .. } => content == joined_deltas(trace, start + 1, end),
            EventView::ThinkingEnd { content, .. } => content == joined_deltas(
                trace,
                start + 1,
                end,
            ),
            EventView::ToolCallEnd { tool_call, .. } => tool_call.arguments == json_or_empty(
                joined_deltas(trace, start + 1, end),
            ),
            _ => true,
        },
{
    lemma_open_block_holds_its_deltas(trace, start, end);
    lemma_snapshots_follow_replay(trace, end);
}

} // verus!
