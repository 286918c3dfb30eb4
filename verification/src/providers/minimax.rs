//! The MiniMax chat-completions dialect.
//!
//! MiniMax speaks the OpenAI envelope with two additions: reasoning may arrive
//! in `reasoning_details`, and where a delta carries no explicit reasoning its
//! content may hold reasoning inline between `<think>` and `</think>`.

use vstd::prelude::*;
use crate::providers::openai_completions::{
    handle_scalar_reasoning, include_usage, push_include_usage,
    push_request_options, request_head, start_params, with_member, with_output,
    with_request_options,
};
use crate::providers::shared::openai_like_messages::{
    push_member, AssistantThinkingMode, OpenAiLikeMessageOptions, SystemPromptRole,
};
use crate::types::message::{Context, MessageView};
use crate::types::model::{Model, ModelView};
use crate::types::options::OpenAICompletionsOptions;
use crate::types::tool::ToolView;
use crate::utils::json_doc::{json_object, Json, JsonView};
use crate::providers::shared::chunk::{
    first_reasoning, ReasoningDetail, StreamChunk, StreamChunkView, StreamDelta, StreamDeltaView,
};
use crate::providers::shared::stream_blocks::{
    arrived, blocks_of, continues, handle_reasoning_delta, handle_text_delta, handle_tool_calls,
    in_sync, is_present, lemma_arrived_continues, lemma_continues_through,
    lemma_reasoning_delta_continues,
    lemma_text_delta_continues,
    lemma_tool_calls_continues, map_stop_reason, mapped_stop_reason, present, raw_usage,
    reasoning_delta, settled, text_delta, tool_calls, update_usage_from_chunk, with_stop_reason,
    with_usage, Blocks, CurrentBlock, ReasoningDelta,
};
use crate::types::event_stream::EventStreamSender;
use crate::types::message::AssistantMessage;
use crate::utils::think_tag_parser::{piece, scan, ThinkFragment, ThinkFragmentView, ThinkTagParser};

verus! {

/// The signature label of reasoning that arrived in `reasoning_details`.
pub open spec fn details_signature() -> Seq<char> {
    "reasoning_details"@
}

/// The signature label of reasoning that was found between think tags.
pub open spec fn think_tag_signature() -> Seq<char> {
    "think_tag"@
}

/// Whether any entry of `details` carries non-empty text.
pub open spec fn any_detail_text(details: Seq<Option<Seq<char>>>) -> bool {
    exists|i: int| 0 <= i < details.len() && present(#[trigger] details[i])
}

/// The entries of `details` in order, each text a reasoning delta under the
/// `reasoning_details` label. Entries without text, or with empty text, do
/// nothing.
pub open spec fn detail_deltas(s: Blocks, details: Seq<Option<Seq<char>>>) -> Blocks
    decreases details.len(),
{
    if details.len() == 0 {
        s
    } else {
        let front = detail_deltas(s, details.drop_last());
        match details.last() {
            Some(text) => reasoning_delta(front, text, details_signature()),
            None => front,
        }
    }
}

/// Whether a delta carries explicit reasoning: non-empty text in its
/// `reasoning_details`, or a non-empty scalar reasoning field.
pub open spec fn has_explicit_reasoning(delta: StreamDeltaView) -> bool {
    (delta.reasoning_details.is_some() && any_detail_text(delta.reasoning_details.unwrap()))
        || first_reasoning(delta).is_some()
}

/// What a delta's explicit reasoning does. Where `reasoning_details` yields
/// text, its entries are the reasoning and the scalar fields are passed over;
/// otherwise the first non-empty scalar field is.
pub open spec fn explicit_reasoning(s: Blocks, delta: StreamDeltaView) -> Blocks {
    if delta.reasoning_details.is_some() && any_detail_text(delta.reasoning_details.unwrap()) {
        detail_deltas(s, delta.reasoning_details.unwrap())
    } else {
        match first_reasoning(delta) {
            Some((text, signature)) => reasoning_delta(s, text, signature),
            None => s,
        }
    }
}

/// Scanned fragments in order: text as text deltas, thinking as reasoning
/// deltas under the `think_tag` label.
pub open spec fn fragments_applied(s: Blocks, fragments: Seq<ThinkFragmentView>) -> Blocks
    decreases fragments.len(),
{
    if fragments.len() == 0 {
        s
    } else {
        let front = fragments_applied(s, fragments.drop_last());
        match fragments.last() {
            ThinkFragmentView::Text(text) => text_delta(front, text),
            ThinkFragmentView::Thinking(thinking) => reasoning_delta(
                front,
                thinking,
                think_tag_signature(),
            ),
        }
    }
}

/// A MiniMax stream: the blocks, and the state of the tag scanner.
pub struct MinimaxStream {
    pub blocks: Blocks,
    pub in_thinking: bool,
    pub pending: Seq<char>,
}

/// What a chunk's envelope does before its delta is read: usage from the
/// chunk replaces the message's, and the first choice's finish reason, where
/// it has one, sets the stop reason.
pub open spec fn minimax_envelope(s: Blocks, chunk: StreamChunkView) -> Blocks {
    let counted = match chunk.usage {
        Some(usage) => with_output(s, with_usage(s.output, raw_usage(usage))),
        None => s,
    };
    if chunk.choices.len() == 0 {
        counted
    } else {
        match chunk.choices[0].finish_reason {
            Some(reason) => with_output(
                counted,
                with_stop_reason(counted.output, mapped_stop_reason(reason)),
            ),
            None => counted,
        }
    }
}

/// What a delta's content does. Beside explicit reasoning it is a text delta
/// as it stands; otherwise it goes through the tag scanner, and the fragments
/// the scanner releases are applied.
pub open spec fn minimax_content(
    stream: MinimaxStream,
    content: Seq<char>,
    explicit: bool,
) -> MinimaxStream {
    if explicit {
        MinimaxStream {
            blocks: text_delta(stream.blocks, content),
            in_thinking: stream.in_thinking,
            pending: stream.pending,
        }
    } else {
        let scanned = scan(stream.in_thinking, stream.pending + content);
        MinimaxStream {
            blocks: fragments_applied(stream.blocks, scanned.fragments),
            in_thinking: scanned.in_thinking,
            pending: scanned.rest,
        }
    }
}

/// What a delta does: explicit reasoning first, then the content, then the
/// tool calls.
pub open spec fn minimax_delta(stream: MinimaxStream, delta: StreamDeltaView) -> MinimaxStream {
    let reasoned = MinimaxStream {
        blocks: explicit_reasoning(stream.blocks, delta),
        in_thinking: stream.in_thinking,
        pending: stream.pending,
    };
    let spoken = match delta.content {
        Some(content) => minimax_content(reasoned, content, has_explicit_reasoning(delta)),
        None => reasoned,
    };
    match delta.tool_calls {
        Some(calls) => MinimaxStream {
            blocks: tool_calls(spoken.blocks, calls),
            in_thinking: spoken.in_thinking,
            pending: spoken.pending,
        },
        None => spoken,
    }
}

/// What one chunk of the MiniMax dialect does. Only the first choice is read.
pub open spec fn minimax_chunk(stream: MinimaxStream, chunk: StreamChunkView) -> MinimaxStream {
    let framed = MinimaxStream {
        blocks: minimax_envelope(stream.blocks, chunk),
        in_thinking: stream.in_thinking,
        pending: stream.pending,
    };
    if chunk.choices.len() == 0 {
        framed
    } else {
        match chunk.choices[0].delta {
            Some(delta) => minimax_delta(framed, delta),
            None => framed,
        }
    }
}

/// What the end of the input does to the scanner: what it holds back is
/// released in the kind of the mode it is in, and applied.
pub open spec fn minimax_flush(stream: MinimaxStream) -> MinimaxStream {
    MinimaxStream {
        blocks: fragments_applied(stream.blocks, piece(stream.in_thinking, stream.pending)),
        in_thinking: false,
        pending: Seq::empty(),
    }
}

/// What the entries of `reasoning_details` emit follows whatever was emitted
/// before them.
pub proof fn lemma_detail_deltas_continues(s: Blocks, details: Seq<Option<Seq<char>>>)
    ensures
        detail_deltas(s, details) == continues(s, detail_deltas(settled(s), details)),
    decreases details.len(),
{
    if details.len() == 0 {
        assert(s.emitted + settled(s).emitted =~= s.emitted);
    } else {
        lemma_detail_deltas_continues(s, details.drop_last());
        let front = detail_deltas(s, details.drop_last());
        let front_alone = detail_deltas(settled(s), details.drop_last());
        match details.last() {
            Some(text) => {
                lemma_reasoning_delta_continues(front, text, details_signature());
                lemma_reasoning_delta_continues(front_alone, text, details_signature());
                assert(settled(front) == settled(front_alone));
                assert(detail_deltas(s, details).emitted =~= s.emitted + detail_deltas(
                    settled(s),
                    details,
                ).emitted);
            },
            None => {},
        }
    }
}

/// What scanned fragments emit follows whatever was emitted before them.
pub proof fn lemma_fragments_applied_continues(s: Blocks, fragments: Seq<ThinkFragmentView>)
    ensures
        fragments_applied(s, fragments) == continues(
            s,
            fragments_applied(settled(s), fragments),
        ),
    decreases fragments.len(),
{
    if fragments.len() == 0 {
        assert(s.emitted + settled(s).emitted =~= s.emitted);
    } else {
        lemma_fragments_applied_continues(s, fragments.drop_last());
        let front = fragments_applied(s, fragments.drop_last());
        let front_alone = fragments_applied(settled(s), fragments.drop_last());
        assert(settled(front) == settled(front_alone));
        match fragments.last() {
            ThinkFragmentView::Text(text) => {
                lemma_text_delta_continues(front, text);
                lemma_text_delta_continues(front_alone, text);
            },
            ThinkFragmentView::Thinking(thinking) => {
                lemma_reasoning_delta_continues(front, thinking, think_tag_signature());
                lemma_reasoning_delta_continues(front_alone, thinking, think_tag_signature());
            },
        }
        assert(fragments_applied(s, fragments).emitted =~= s.emitted + fragments_applied(
            settled(s),
            fragments,
        ).emitted);
    }
}

/// Handles every entry of `reasoning_details` that carries text as a
/// reasoning delta. Returns whether any entry carried non-empty text.
fn handle_reasoning_details(
    details: &[ReasoningDetail],
    output: &mut AssistantMessage,
    sender: &mut EventStreamSender,
    current_block: &mut Option<CurrentBlock>,
) -> (emitted: bool)
    ensures
        emitted == any_detail_text(details.deep_view()),
        arrived(
            detail_deltas(
                blocks_of(old(output).deep_view(), old(current_block).deep_view()),
                details.deep_view(),
            ),
            *final(output),
            *final(current_block),
            *old(sender),
            *final(sender),
        ),
        in_sync(old(sender).history(), old(output).deep_view(), old(current_block).deep_view())
            ==> in_sync(
            final(sender).history(),
            final(output).deep_view(),
            final(current_block).deep_view(),
        ),
{
    let ghost start = blocks_of(old(output).deep_view(), old(current_block).deep_view());
    let ghost views = details.deep_view();
    proof {
        assert(old(sender).history() + start.emitted =~= old(sender).history());
        assert(old(sender).queued() + start.emitted =~= old(sender).queued());
    }
    let mut emitted_reasoning = false;
    let mut i: usize = 0;
    while i < details.len()
        invariant
            i <= details.len(),
            views == details.deep_view(),
            views.len() == details.len(),
            start == blocks_of(old(output).deep_view(), old(current_block).deep_view()),
            emitted_reasoning == any_detail_text(views.take(i as int)),
            arrived(
                detail_deltas(start, views.take(i as int)),
                *output,
                *current_block,
                *old(sender),
                *sender,
            ),
            in_sync(old(sender).history(), old(output).deep_view(), old(current_block).deep_view())
                ==> in_sync(sender.history(), output.deep_view(), current_block.deep_view()),
        decreases details.len() - i,
    {
        let ghost front = detail_deltas(start, views.take(i as int));
        let ghost between = *sender;
        let ghost taken = views.take(i as int);
        let ghost next = views.take(i + 1);
        proof {
            assert(next.drop_last() =~= taken);
            assert(next.last() == views[i as int]);
            assert(views[i as int] == details[i as int].deep_view());
            if any_detail_text(taken) {
                let j = choose|j: int| 0 <= j < taken.len() && present(#[trigger] taken[j]);
                assert(next[j] == taken[j]);
            }
            if any_detail_text(next) && !present(views[i as int]) {
                let j = choose|j: int| 0 <= j < next.len() && present(#[trigger] next[j]);
                assert(taken[j] == next[j]);
            }
            if present(views[i as int]) {
                assert(present(next[i as int]));
            }
        }
        if let Some(text) = &details[i].text {
            if !text.as_str().is_empty() {
                emitted_reasoning = true;
            }
            handle_reasoning_delta(
                ReasoningDelta { text: text.as_str(), signature: "reasoning_details" },
                output,
                sender,
                current_block,
            );
            proof {
                lemma_reasoning_delta_continues(front, text@, details_signature());
                lemma_arrived_continues(
                    front,
                    reasoning_delta(settled(front), text@, details_signature()),
                    *output,
                    *current_block,
                    *old(sender),
                    between,
                    *sender,
                );
            }
        }
        i += 1;
    }
    proof {
        assert(views.take(details.len() as int) =~= views);
    }
    emitted_reasoning
}

/// Handles a delta's explicit reasoning: the entries of `reasoning_details`
/// where they yield text, otherwise the first non-empty scalar reasoning
/// field. Returns whether the delta carried explicit reasoning.
pub fn emit_explicit_reasoning(
    delta: &StreamDelta,
    output: &mut AssistantMessage,
    sender: &mut EventStreamSender,
    current_block: &mut Option<CurrentBlock>,
) -> (emitted: bool)
    ensures
        emitted == has_explicit_reasoning(delta.deep_view()),
        arrived(
            explicit_reasoning(
                blocks_of(old(output).deep_view(), old(current_block).deep_view()),
                delta.deep_view(),
            ),
            *final(output),
            *final(current_block),
            *old(sender),
            *final(sender),
        ),
        in_sync(old(sender).history(), old(output).deep_view(), old(current_block).deep_view())
            ==> in_sync(
            final(sender).history(),
            final(output).deep_view(),
            final(current_block).deep_view(),
        ),
{
    let ghost start = blocks_of(old(output).deep_view(), old(current_block).deep_view());
    if let Some(details) = &delta.reasoning_details {
        let detail_slice = details.as_slice();
        assert(detail_slice.deep_view() =~= delta.deep_view().reasoning_details.unwrap());
        if any_detail_has_text(detail_slice) {
            handle_reasoning_details(detail_slice, output, sender, current_block);
            return true;
        }
    }
    handle_scalar_reasoning(delta, output, sender, current_block)
}

/// Whether any entry of `details` carries non-empty text.
fn any_detail_has_text(details: &[ReasoningDetail]) -> (any: bool)
    ensures
        any == any_detail_text(details.deep_view()),
{
    let ghost views = details.deep_view();
    let mut i: usize = 0;
    while i < details.len()
        invariant
            i <= details.len(),
            views == details.deep_view(),
            views.len() == details.len(),
            forall|j: int| 0 <= j < i ==> !present(#[trigger] views[j]),
        decreases details.len() - i,
    {
        assert(views[i as int] == details[i as int].deep_view());
        if is_present(&details[i].text) {
            return true;
        }
        i += 1;
    }
    false
}

/// Applies scanned fragments in order: text as text deltas, thinking as
/// reasoning deltas under the `think_tag` label.
fn apply_fragments(
    fragments: &[ThinkFragment],
    output: &mut AssistantMessage,
    sender: &mut EventStreamSender,
    current_block: &mut Option<CurrentBlock>,
)
    ensures
        arrived(
            fragments_applied(
                blocks_of(old(output).deep_view(), old(current_block).deep_view()),
                fragments.deep_view(),
            ),
            *final(output),
            *final(current_block),
            *old(sender),
            *final(sender),
        ),
        in_sync(old(sender).history(), old(output).deep_view(), old(current_block).deep_view())
            ==> in_sync(
            final(sender).history(),
            final(output).deep_view(),
            final(current_block).deep_view(),
        ),
{
    let ghost start = blocks_of(old(output).deep_view(), old(current_block).deep_view());
    let ghost views = fragments.deep_view();
    proof {
        assert(old(sender).history() + start.emitted =~= old(sender).history());
        assert(old(sender).queued() + start.emitted =~= old(sender).queued());
    }
    let mut i: usize = 0;
    while i < fragments.len()
        invariant
            i <= fragments.len(),
            views == fragments.deep_view(),
            views.len() == fragments.len(),
            start == blocks_of(old(output).deep_view(), old(current_block).deep_view()),
            arrived(
                fragments_applied(start, views.take(i as int)),
                *output,
                *current_block,
                *old(sender),
                *sender,
            ),
            in_sync(old(sender).history(), old(output).deep_view(), old(current_block).deep_view())
                ==> in_sync(sender.history(), output.deep_view(), current_block.deep_view()),
        decreases fragments.len() - i,
    {
        let ghost front = fragments_applied(start, views.take(i as int));
        let ghost between = *sender;
        proof {
            assert(views.take(i + 1).drop_last() =~= views.take(i as int));
            assert(views.take(i + 1).last() == views[i as int]);
            assert(views[i as int] == fragments[i as int].deep_view());
        }
        match &fragments[i] {
            ThinkFragment::Text(text) => {
                handle_text_delta(text.as_str(), output, sender, current_block);
                proof {
                    lemma_text_delta_continues(front, text@);
                    lemma_arrived_continues(
                        front,
                        text_delta(settled(front), text@),
                        *output,
                        *current_block,
                        *old(sender),
                        between,
                        *sender,
                    );
                }
            },
            ThinkFragment::Thinking(thinking) => {
                handle_reasoning_delta(
                    ReasoningDelta { text: thinking.as_str(), signature: "think_tag" },
                    output,
                    sender,
                    current_block,
                );
                proof {
                    lemma_reasoning_delta_continues(front, thinking@, think_tag_signature());
                    lemma_arrived_continues(
                        front,
                        reasoning_delta(settled(front), thinking@, think_tag_signature()),
                        *output,
                        *current_block,
                        *old(sender),
                        between,
                        *sender,
                    );
                }
            },
        }
        i += 1;
    }
    proof {
        assert(views.take(fragments.len() as int) =~= views);
    }
}

/// Routes content through the tag scanner and applies what the scanner
/// releases.
pub fn process_content_with_fallback(
    content: &str,
    think_tag_parser: &mut ThinkTagParser,
    output: &mut AssistantMessage,
    sender: &mut EventStreamSender,
    current_block: &mut Option<CurrentBlock>,
)
    ensures
        ({
            let scanned = scan(
                old(think_tag_parser).in_thinking(),
                old(think_tag_parser).pending() + content@,
            );
            &&& final(think_tag_parser).in_thinking() == scanned.in_thinking
            &&& final(think_tag_parser).pending() == scanned.rest
            &&& arrived(
                fragments_applied(
                    blocks_of(old(output).deep_view(), old(current_block).deep_view()),
                    scanned.fragments,
                ),
                *final(output),
                *final(current_block),
                *old(sender),
                *final(sender),
            )
        }),
        in_sync(old(sender).history(), old(output).deep_view(), old(current_block).deep_view())
            ==> in_sync(
            final(sender).history(),
            final(output).deep_view(),
            final(current_block).deep_view(),
        ),
{
    let fragments = think_tag_parser.feed(content);
    let fragment_slice = fragments.as_slice();
    assert(fragment_slice.deep_view() =~= fragments.deep_view());
    apply_fragments(fragment_slice, output, sender, current_block);
}

/// Flushes the tag scanner at the end of the input and applies what it
/// releases.
pub fn flush_think_tag_parser(
    think_tag_parser: &mut ThinkTagParser,
    output: &mut AssistantMessage,
    sender: &mut EventStreamSender,
    current_block: &mut Option<CurrentBlock>,
)
    ensures
        !final(think_tag_parser).in_thinking(),
        final(think_tag_parser).pending() == Seq::<char>::empty(),
        arrived(
            fragments_applied(
                blocks_of(old(output).deep_view(), old(current_block).deep_view()),
                piece(old(think_tag_parser).in_thinking(), old(think_tag_parser).pending()),
            ),
            *final(output),
            *final(current_block),
            *old(sender),
            *final(sender),
        ),
        in_sync(old(sender).history(), old(output).deep_view(), old(current_block).deep_view())
            ==> in_sync(
            final(sender).history(),
            final(output).deep_view(),
            final(current_block).deep_view(),
        ),
{
    let fragments = think_tag_parser.flush();
    let fragment_slice = fragments.as_slice();
    assert(fragment_slice.deep_view() =~= fragments.deep_view());
    apply_fragments(fragment_slice, output, sender, current_block);
}

/// The scanner's state beside the blocks.
pub open spec fn stream_of(blocks: Blocks, parser: ThinkTagParser) -> MinimaxStream {
    MinimaxStream { blocks, in_thinking: parser.in_thinking(), pending: parser.pending() }
}

/// Handles one chunk of the MiniMax dialect: usage, finish reason, then the
/// delta's explicit reasoning, content and tool calls.
pub fn process_chunk(
    chunk: &StreamChunk,
    output: &mut AssistantMessage,
    sender: &mut EventStreamSender,
    current_block: &mut Option<CurrentBlock>,
    think_tag_parser: &mut ThinkTagParser,
)
    ensures
        ({
            let after = minimax_chunk(
                stream_of(
                    blocks_of(old(output).deep_view(), old(current_block).deep_view()),
                    *old(think_tag_parser),
                ),
                chunk.deep_view(),
            );
            &&& final(think_tag_parser).in_thinking() == after.in_thinking
            &&& final(think_tag_parser).pending() == after.pending
            &&& arrived(
                after.blocks,
                *final(output),
                *final(current_block),
                *old(sender),
                *final(sender),
            )
        }),
        in_sync(old(sender).history(), old(output).deep_view(), old(current_block).deep_view())
            ==> in_sync(
            final(sender).history(),
            final(output).deep_view(),
            final(current_block).deep_view(),
        ),
{
    let ghost start = blocks_of(old(output).deep_view(), old(current_block).deep_view());
    let ghost view = chunk.deep_view();
    proof {
        assert(old(sender).history() + start.emitted =~= old(sender).history());
        assert(old(sender).queued() + start.emitted =~= old(sender).queued());
    }
    if let Some(usage) = &chunk.usage {
        update_usage_from_chunk(usage, output);
    }
    if chunk.choices.len() == 0 {
        return ;
    }
    let choice = &chunk.choices[0];
    assert(view.choices[0] == choice.deep_view());
    if let Some(reason) = &choice.finish_reason {
        output.stop_reason = map_stop_reason(reason.as_str());
    }
    let ghost framed = minimax_envelope(start, view);
    assert(output.deep_view() == framed.output);
    let delta = match &choice.delta {
        Some(delta) => delta,
        None => {
            return ;
        },
    };
    let ghost dv = delta.deep_view();

    let explicit = emit_explicit_reasoning(delta, output, sender, current_block);
    let ghost reasoned = explicit_reasoning(framed, dv);
    proof {
        assert(settled(framed) == framed);
        assert(arrived(reasoned, *output, *current_block, *old(sender), *sender));
    }

    let ghost second_sender = *sender;
    if let Some(content) = &delta.content {
        if explicit {
            handle_text_delta(content.as_str(), output, sender, current_block);
            proof {
                lemma_text_delta_continues(reasoned, content@);
                lemma_arrived_continues(
                    reasoned,
                    text_delta(settled(reasoned), content@),
                    *output,
                    *current_block,
                    *old(sender),
                    second_sender,
                    *sender,
                );
            }
        } else {
            process_content_with_fallback(
                content.as_str(),
                think_tag_parser,
                output,
                sender,
                current_block,
            );
            proof {
                let scanned = scan(
                    old(think_tag_parser).in_thinking(),
                    old(think_tag_parser).pending() + content@,
                );
                lemma_fragments_applied_continues(reasoned, scanned.fragments);
                lemma_arrived_continues(
                    reasoned,
                    fragments_applied(settled(reasoned), scanned.fragments),
                    *output,
                    *current_block,
                    *old(sender),
                    second_sender,
                    *sender,
                );
            }
        }
    }
    let ghost spoken = match dv.content {
        Some(content) => minimax_content(
            stream_of(reasoned, *old(think_tag_parser)),
            content,
            has_explicit_reasoning(dv),
        ),
        None => stream_of(reasoned, *old(think_tag_parser)),
    };
    assert(arrived(spoken.blocks, *output, *current_block, *old(sender), *sender));

    let ghost third_sender = *sender;
    if let Some(calls) = &delta.tool_calls {
        let call_slice = calls.as_slice();
        handle_tool_calls(call_slice, output, sender, current_block);
        proof {
            let calls_view = dv.tool_calls.unwrap();
            assert(call_slice.deep_view() =~= calls_view);
            lemma_tool_calls_continues(spoken.blocks, calls_view);
            lemma_arrived_continues(
                spoken.blocks,
                tool_calls(settled(spoken.blocks), calls_view),
                *output,
                *current_block,
                *old(sender),
                third_sender,
                *sender,
            );
        }
    }
}

/// `stream` with the events of `s` in front of its own.
pub open spec fn stream_continues(s: Blocks, stream: MinimaxStream) -> MinimaxStream {
    MinimaxStream {
        blocks: continues(s, stream.blocks),
        in_thinking: stream.in_thinking,
        pending: stream.pending,
    }
}

/// What a delta's explicit reasoning emits follows whatever was emitted before
/// it.
pub proof fn lemma_explicit_reasoning_continues(s: Blocks, t: Blocks, delta: StreamDeltaView)
    ensures
        explicit_reasoning(continues(s, t), delta) == continues(s, explicit_reasoning(t, delta)),
{
    if delta.reasoning_details.is_some() && any_detail_text(delta.reasoning_details.unwrap()) {
        let details = delta.reasoning_details.unwrap();
        assert forall|x: Blocks| #[trigger] detail_deltas(x, details) == continues(
            x,
            detail_deltas(settled(x), details),
        ) by {
            lemma_detail_deltas_continues(x, details);
        }
        lemma_continues_through(|x: Blocks| detail_deltas(x, details), s, t);
    } else {
        match first_reasoning(delta) {
            Some((text, signature)) => {
                assert forall|x: Blocks| #[trigger]
                    reasoning_delta(x, text, signature) == continues(
                        x,
                        reasoning_delta(settled(x), text, signature),
                    ) by {
                    lemma_reasoning_delta_continues(x, text, signature);
                }
                lemma_continues_through(|x: Blocks| reasoning_delta(x, text, signature), s, t);
            },
            None => {},
        }
    }
}

/// What a delta emits follows whatever was emitted before it.
pub proof fn lemma_minimax_delta_continues(s: Blocks, stream: MinimaxStream, delta: StreamDeltaView)
    ensures
        minimax_delta(stream_continues(s, stream), delta) == stream_continues(
            s,
            minimax_delta(stream, delta),
        ),
{
    let t = stream.blocks;
    lemma_explicit_reasoning_continues(s, t, delta);
    let reasoned = explicit_reasoning(t, delta);
    let spoken = match delta.content {
        Some(content) => minimax_content(
            MinimaxStream {
                blocks: reasoned,
                in_thinking: stream.in_thinking,
                pending: stream.pending,
            },
            content,
            has_explicit_reasoning(delta),
        ),
        None => MinimaxStream {
            blocks: reasoned,
            in_thinking: stream.in_thinking,
            pending: stream.pending,
        },
    };
    if delta.content.is_some() {
        let content = delta.content.unwrap();
        if has_explicit_reasoning(delta) {
            assert forall|x: Blocks| #[trigger] text_delta(x, content) == continues(
                x,
                text_delta(settled(x), content),
            ) by {
                lemma_text_delta_continues(x, content);
            }
            lemma_continues_through(|x: Blocks| text_delta(x, content), s, reasoned);
        } else {
            let fragments = scan(stream.in_thinking, stream.pending + content).fragments;
            assert forall|x: Blocks| #[trigger] fragments_applied(x, fragments) == continues(
                x,
                fragments_applied(settled(x), fragments),
            ) by {
                lemma_fragments_applied_continues(x, fragments);
            }
            lemma_continues_through(|x: Blocks| fragments_applied(x, fragments), s, reasoned);
        }
    }
    if delta.tool_calls.is_some() {
        let calls = delta.tool_calls.unwrap();
        assert forall|x: Blocks| #[trigger] tool_calls(x, calls) == continues(
            x,
            tool_calls(settled(x), calls),
        ) by {
            lemma_tool_calls_continues(x, calls);
        }
        lemma_continues_through(|x: Blocks| tool_calls(x, calls), s, spoken.blocks);
    }
}

/// What a chunk emits follows whatever was emitted before it.
pub proof fn lemma_minimax_chunk_continues(s: Blocks, stream: MinimaxStream, chunk: StreamChunkView)
    requires
        stream.blocks == settled(s),
    ensures
        minimax_chunk(stream_continues(s, stream), chunk) == stream_continues(
            s,
            minimax_chunk(stream, chunk),
        ),
{
    let joined = stream_continues(s, stream);
    let framed = minimax_envelope(joined.blocks, chunk);
    let framed_alone = minimax_envelope(stream.blocks, chunk);
    assert(framed == continues(s, framed_alone));
    if chunk.choices.len() > 0 && chunk.choices[0].delta.is_some() {
        let delta = chunk.choices[0].delta.unwrap();
        lemma_minimax_delta_continues(
            s,
            MinimaxStream {
                blocks: framed_alone,
                in_thinking: stream.in_thinking,
                pending: stream.pending,
            },
            delta,
        );
    }
}

/// What the final flush emits follows whatever was emitted before it.
pub proof fn lemma_minimax_flush_continues(s: Blocks, stream: MinimaxStream)
    ensures
        minimax_flush(stream_continues(s, stream)) == stream_continues(s, minimax_flush(stream)),
{
    let fragments = piece(stream.in_thinking, stream.pending);
    assert forall|x: Blocks| #[trigger] fragments_applied(x, fragments) == continues(
        x,
        fragments_applied(settled(x), fragments),
    ) by {
        lemma_fragments_applied_continues(x, fragments);
    }
    lemma_continues_through(|x: Blocks| fragments_applied(x, fragments), s, stream.blocks);
}

/// How the MiniMax dialect converts messages: the system prompt always goes
/// under the system role, tool results carry no tool name, and thinking
/// blocks are left out.
pub open spec fn minimax_message_options() -> OpenAiLikeMessageOptions {
    OpenAiLikeMessageOptions {
        system_role: SystemPromptRole::System,
        requires_tool_result_name: false,
        assistant_thinking_mode: AssistantThinkingMode::Omit,
    }
}

/// The request body of the MiniMax dialect. Usage is always asked for, a
/// reasoning model is asked to split its reasoning off, and the completion is
/// capped with `max_tokens`.
pub open spec fn minimax_params(
    model: ModelView,
    system_prompt: Option<Seq<char>>,
    messages: Seq<MessageView>,
    tools: Option<Seq<ToolView>>,
    options: OpenAICompletionsOptions,
) -> JsonView {
    let head = request_head(model, system_prompt, messages, minimax_message_options());
    let with_usage = head.push(("stream_options"@, include_usage()));
    let with_split = with_member(
        with_usage,
        model.reasoning,
        "reasoning_split"@,
        JsonView::Bool(true),
    );
    JsonView::Object(
        with_request_options(
            with_split,
            "max_tokens"@,
            options.max_tokens,
            options.temperature,
            tools,
            options.tool_choice.deep_view(),
        ),
    )
}

/// Builds the request body of the MiniMax dialect.
pub fn build_params(model: &Model, context: &Context, options: &OpenAICompletionsOptions) -> (params:
    Json)
    ensures
        params.deep_view() == minimax_params(
            model.deep_view(),
            context.system_prompt.deep_view(),
            context.messages.deep_view(),
            context.tools.deep_view(),
            *options,
        ),
{
    let message_options = OpenAiLikeMessageOptions {
        system_role: SystemPromptRole::System,
        requires_tool_result_name: false,
        assistant_thinking_mode: AssistantThinkingMode::Omit,
    };
    let mut members = start_params(model, context, &message_options);
    push_include_usage(&mut members);
    if model.reasoning {
        push_member(&mut members, "reasoning_split", Json::Bool(true));
    }
    push_request_options(&mut members, "max_tokens", context, options);
    json_object(members)
}

} // verus!
