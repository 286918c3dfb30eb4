//! One stream from its first event to its last.
//!
//! A run is pending until the endpoint has accepted the request, streams while
//! chunks arrive, and is finished by its one terminal event. Whoever performs
//! the request drives the run: it opens it, hands it every parsed chunk, and
//! completes or fails it; after each step it takes the events to forward.
//! Steps that do not fit the phase of the run do nothing.

use vstd::prelude::*;
use crate::error::{error_text, Error};
use crate::providers::minimax::{
    lemma_minimax_chunk_continues, lemma_minimax_flush_continues, minimax_chunk, minimax_flush,
    stream_continues, MinimaxStream,
};
use crate::providers::openai_completions::{lemma_openai_chunk_continues, openai_chunk};
use crate::providers::shared::chunk::{StreamChunk, StreamChunkView};
use crate::providers::shared::openai_like_runtime::{
    done_reason, failed_output, fresh_output, output_at, push_stream_done, push_stream_error,
    push_stream_start,
};
use crate::providers::shared::stream_blocks::{
    blocks_of, continues, finish_current, finish_current_block, in_sync,
    lemma_finish_current_continues, settled, Blocks, CurrentBlock,
};
use crate::providers::shared::trace::{lemma_start_first_terminal_last, replay, well_formed};
use crate::types::api::{Api, Provider};
use crate::types::event::{AssistantMessageEvent, EventView, StopReasonError};
use crate::types::event_stream::{slot_after, terminal_message, EventStreamSender};
use crate::types::message::{AssistantMessage, AssistantMessageView};
use crate::utils::think_tag_parser::ThinkTagParser;

verus! {

/// Where a run stands.
#[derive(Clone, Copy, Debug, PartialEq, Eq, Structural)]
pub enum StreamPhase {
    /// Nothing was emitted yet.
    Pending,
    /// `Start` was emitted and no terminal event.
    Streaming,
    /// The terminal event was emitted.
    Finished,
}

/// A stream run.
pub struct StreamRun {
    output: AssistantMessage,
    current_block: Option<CurrentBlock>,
    think_tag_parser: ThinkTagParser,
    sender: EventStreamSender,
    phase: StreamPhase,
}

/// A run as its contracts see it. The events that `stream.blocks` lists are
/// all the events of the run so far.
pub struct RunView {
    pub phase: StreamPhase,
    pub stream: MinimaxStream,
    /// The events emitted and not yet taken.
    pub queued: Seq<EventView>,
    /// The final message, once the run is finished.
    pub result: Option<AssistantMessageView>,
}

impl RunView {
    /// All events of the run so far.
    pub open spec fn history(self) -> Seq<EventView> {
        self.stream.blocks.emitted
    }

    /// The message as it stands.
    pub open spec fn output(self) -> AssistantMessageView {
        self.stream.blocks.output
    }
}

/// Whether a dialect reads inline think tags and `reasoning_details`.
pub open spec fn is_minimax(api: Api) -> bool {
    api == Api::MinimaxCompletions
}

/// The run `before` after a step that has led to `stream` in `phase`: what the
/// step emitted is queued behind what was queued.
pub open spec fn advanced(before: RunView, phase: StreamPhase, stream: MinimaxStream) -> RunView {
    RunView {
        phase,
        stream,
        queued: before.queued + stream.blocks.emitted.skip(before.history().len() as int),
        result: before.result,
    }
}

/// `stream` with `event` emitted.
pub open spec fn emitting(stream: MinimaxStream, event: EventView) -> MinimaxStream {
    MinimaxStream {
        blocks: Blocks {
            output: stream.blocks.output,
            current: stream.blocks.current,
            emitted: stream.blocks.emitted.push(event),
        },
        in_thinking: stream.in_thinking,
        pending: stream.pending,
    }
}

/// A new run.
pub open spec fn run_new(api: Api, provider: Provider, model: String, timestamp: i64) -> RunView {
    RunView {
        phase: StreamPhase::Pending,
        stream: MinimaxStream {
            blocks: blocks_of(fresh_output(api, provider, model, timestamp), None),
            in_thinking: false,
            pending: Seq::empty(),
        },
        queued: Seq::empty(),
        result: None,
    }
}

/// Opening a pending run emits `Start` with the message as it stands.
pub open spec fn run_started(run: RunView) -> RunView {
    if run.phase == StreamPhase::Pending {
        advanced(
            run,
            StreamPhase::Streaming,
            emitting(run.stream, EventView::Start { partial: run.output() }),
        )
    } else {
        run
    }
}

/// A chunk is handled in the run's dialect while the run streams.
pub open spec fn run_chunk(run: RunView, chunk: StreamChunkView) -> RunView {
    if run.phase == StreamPhase::Streaming {
        if is_minimax(run.output().api) {
            advanced(run, StreamPhase::Streaming, minimax_chunk(run.stream, chunk))
        } else {
            advanced(
                run,
                StreamPhase::Streaming,
                MinimaxStream {
                    blocks: openai_chunk(run.stream.blocks, chunk),
                    in_thinking: run.stream.in_thinking,
                    pending: run.stream.pending,
                },
            )
        }
    } else {
        run
    }
}

/// The stream at its normal end, before `Done`: a MiniMax run flushes its tag
/// scanner, and the block in flight is closed.
pub open spec fn wound_up(stream: MinimaxStream) -> MinimaxStream {
    let flushed = if is_minimax(stream.blocks.output.api) {
        minimax_flush(stream)
    } else {
        stream
    };
    MinimaxStream {
        blocks: finish_current(flushed.blocks),
        in_thinking: flushed.in_thinking,
        pending: flushed.pending,
    }
}

/// The `Done` event of a stream.
pub open spec fn done_event(stream: MinimaxStream) -> EventView {
    EventView::Done {
        reason: done_reason(stream.blocks.output.stop_reason),
        message: stream.blocks.output,
    }
}

/// Completing a streaming run winds the stream up and emits `Done` with the
/// final message, which is also the run's result.
pub open spec fn run_completed(run: RunView) -> RunView {
    if run.phase == StreamPhase::Streaming {
        let ended = wound_up(run.stream);
        let after = advanced(run, StreamPhase::Finished, emitting(ended, done_event(ended)));
        RunView {
            phase: after.phase,
            stream: after.stream,
            queued: after.queued,
            result: slot_after(run.result, done_event(ended)),
        }
    } else {
        run
    }
}

/// The `Error` event of a stream that failed with the given error text.
pub open spec fn error_event(stream: MinimaxStream, message: Seq<char>) -> EventView {
    EventView::Error {
        reason: StopReasonError::Error,
        error: failed_output(stream.blocks.output, message),
    }
}

/// Failing a run that is not finished marks the message with stop reason
/// `Error` and the error's text and emits `Error` with it; the message is also
/// the run's result. A block in flight stays as it is.
pub open spec fn run_failed(run: RunView, message: Seq<char>) -> RunView {
    if run.phase != StreamPhase::Finished {
        let event = error_event(run.stream, message);
        let marked = MinimaxStream {
            blocks: Blocks {
                output: failed_output(run.output(), message),
                current: run.stream.blocks.current,
                emitted: run.history(),
            },
            in_thinking: run.stream.in_thinking,
            pending: run.stream.pending,
        };
        let after = advanced(run, StreamPhase::Finished, emitting(marked, event));
        RunView {
            phase: after.phase,
            stream: after.stream,
            queued: after.queued,
            result: slot_after(run.result, event),
        }
    } else {
        run
    }
}

/// Whether a run's state fits its phase.
///
/// A pending run has emitted nothing. A streaming run has emitted `Start`
/// first, and its message and block in flight are in step with its events;
/// neither has a result yet. A finished run's events are well formed and end
/// with the terminal event, and its result is the message that event carries.
pub open spec fn run_wf(run: RunView) -> bool {
    let history = run.history();
    match run.phase {
        StreamPhase::Pending => {
            &&& history.len() == 0
            &&& run.output().content.len() == 0
            &&& run.stream.blocks.current.is_none()
            &&& run.result.is_none()
        },
        StreamPhase::Streaming => {
            &&& history.len() > 0
            &&& history[0] is Start
            &&& in_sync(history, run.output(), run.stream.blocks.current)
            &&& run.result.is_none()
        },
        StreamPhase::Finished => {
            &&& well_formed(history)
            &&& replay(history).terminated
            &&& history.len() > 0
            &&& run.result == terminal_message(history.last())
        },
    }
}

/// A finished run has emitted exactly one terminal event, as its last event,
/// and `Start` as its first event or not at all; and its result is the
/// message that the terminal event carries.
pub proof fn lemma_finished_run(run: RunView)
    requires
        run_wf(run),
        run.phase == StreamPhase::Finished,
    ensures
        run.history().len() > 0,
        run.history().last().is_terminal(),
        run.result == terminal_message(run.history().last()),
        run.result.is_some(),
        forall|k: int| 0 <= k < run.history().len() - 1 ==> !run.history()[k].is_terminal(),
        forall|k: int| 0 < k < run.history().len() ==> !(run.history()[k] is Start),
{
    lemma_start_first_terminal_last(run.history());
}

impl StreamRun {
    /// The run as its contracts see it.
    pub closed spec fn view(&self) -> RunView {
        RunView {
            phase: self.phase,
            stream: MinimaxStream {
                blocks: Blocks {
                    output: self.output.deep_view(),
                    current: self.current_block.deep_view(),
                    emitted: self.sender.history(),
                },
                in_thinking: self.think_tag_parser.in_thinking(),
                pending: self.think_tag_parser.pending(),
            },
            queued: self.sender.queued(),
            result: self.sender.result_slot(),
        }
    }

    /// Whether the run's state fits its phase. Every run does: `new`
    /// establishes it and every step keeps it.
    pub open spec fn wf(&self) -> bool {
        run_wf(self.view())
    }

    /// A pending run for the given model, stamped with the given time.
    pub fn new(api: Api, provider: Provider, model: String, timestamp: i64) -> (run: Self)
        ensures
            run.view() == run_new(api, provider, model, timestamp),
            run.wf(),
    {
        StreamRun {
            output: output_at(api, provider, model, timestamp),
            current_block: None,
            think_tag_parser: ThinkTagParser::new(),
            sender: EventStreamSender::new(),
            phase: StreamPhase::Pending,
        }
    }

    /// Where the run stands.
    pub fn phase(&self) -> (phase: StreamPhase)
        ensures
            phase == self.view().phase,
    {
        self.phase
    }

    /// The message as it stands.
    pub fn output(&self) -> (output: &AssistantMessage)
        ensures
            output.deep_view() == self.view().output(),
    {
        &self.output
    }

    /// Opens the run once the endpoint has accepted the request.
    pub fn start(&mut self)
        requires
            old(self).wf(),
        ensures
            final(self).view() == run_started(old(self).view()),
            final(self).wf(),
    {
        match self.phase {
            StreamPhase::Pending => {
                push_stream_start(&self.output, &mut self.sender);
                self.phase = StreamPhase::Streaming;
                proof {
                    let before = old(self).view();
                    let event = EventView::Start { partial: before.output() };
                    assert(before.history().push(event).skip(before.history().len() as int)
                        =~= seq![event]);
                    assert(before.queued + seq![event] =~= before.queued.push(event));
                }
            },
            _ => {},
        }
    }

    /// Handles one parsed chunk.
    pub fn on_chunk(&mut self, chunk: &StreamChunk)
        requires
            old(self).wf(),
        ensures
            final(self).view() == run_chunk(old(self).view(), chunk.deep_view()),
            final(self).wf(),
    {
        match self.phase {
            StreamPhase::Streaming => {
                let ghost before = old(self).view();
                let ghost s = before.stream.blocks;
                if is_minimax_api(self.output.api) {
                    crate::providers::minimax::process_chunk(
                        chunk,
                        &mut self.output,
                        &mut self.sender,
                        &mut self.current_block,
                        &mut self.think_tag_parser,
                    );
                    proof {
                        let alone = MinimaxStream {
                            blocks: settled(s),
                            in_thinking: before.stream.in_thinking,
                            pending: before.stream.pending,
                        };
                        lemma_minimax_chunk_continues(s, alone, chunk.deep_view());
                        assert(s.emitted + settled(s).emitted =~= s.emitted);
                        assert(stream_continues(s, alone) == before.stream);
                        let step = minimax_chunk(alone, chunk.deep_view()).blocks;
                        assert((s.emitted + step.emitted).skip(s.emitted.len() as int)
                            =~= step.emitted);
                    }
                } else {
                    crate::providers::openai_completions::process_chunk(
                        chunk,
                        &mut self.output,
                        &mut self.sender,
                        &mut self.current_block,
                    );
                    proof {
                        lemma_openai_chunk_continues(s, chunk.deep_view());
                        let step = openai_chunk(settled(s), chunk.deep_view());
                        assert((s.emitted + step.emitted).skip(s.emitted.len() as int)
                            =~= step.emitted);
                    }
                }
                proof {
                    assert(self.view().history().len() > 0);
                    assert(self.view().history()[0] == before.history()[0]);
                }
            },
            _ => {},
        }
    }

    /// Completes the run at the normal end of the input.
    pub fn complete(&mut self)
        requires
            old(self).wf(),
        ensures
            final(self).view() == run_completed(old(self).view()),
            final(self).wf(),
            old(self).view().phase == StreamPhase::Streaming ==> final(self).view().phase
                == StreamPhase::Finished,
    {
        match self.phase {
            StreamPhase::Streaming => {
                let ghost before = old(self).view();
                let ghost s = before.stream.blocks;
                let ghost alone = MinimaxStream {
                    blocks: settled(s),
                    in_thinking: before.stream.in_thinking,
                    pending: before.stream.pending,
                };
                proof {
                    assert(s.emitted + settled(s).emitted =~= s.emitted);
                    assert(stream_continues(s, alone) == before.stream);
                }
                if is_minimax_api(self.output.api) {
                    crate::providers::minimax::flush_think_tag_parser(
                        &mut self.think_tag_parser,
                        &mut self.output,
                        &mut self.sender,
                        &mut self.current_block,
                    );
                    proof {
                        lemma_minimax_flush_continues(s, alone);
                    }
                }
                let ghost flushed = if is_minimax(before.output().api) {
                    minimax_flush(before.stream)
                } else {
                    before.stream
                };
                assert(self.sender.history() == flushed.blocks.emitted);
                assert(self.output.deep_view() == flushed.blocks.output);
                assert(self.current_block.deep_view() == flushed.blocks.current);
                let ghost mid_queued = self.sender.queued();
                finish_current_block(&mut self.current_block, &mut self.output, &mut self.sender);
                proof {
                    lemma_finish_current_continues(flushed.blocks);
                }
                let ghost ended = wound_up(before.stream);
                assert(self.sender.history() == ended.blocks.emitted);
                push_stream_done(&self.output, &mut self.sender);
                self.phase = StreamPhase::Finished;
                proof {
                    let event = done_event(ended);
                    let total = ended.blocks.emitted.push(event);
                    let h = s.emitted.len() as int;
                    assert(self.sender.queued() =~= before.queued + total.skip(h)) by {
                        let x = flushed.blocks.emitted.skip(h);
                        let y = finish_current(settled(flushed.blocks)).emitted;
                        assert(flushed.blocks.emitted =~= s.emitted + x);
                        assert(mid_queued =~= before.queued + x);
                        assert(ended.blocks.emitted =~= (s.emitted + x) + y);
                        assert(total.skip(h) =~= (x + y).push(event));
                    }
                }
            },
            _ => {},
        }
    }

    /// Fails the run with the given error.
    pub fn fail(&mut self, error: &Error)
        requires
            old(self).wf(),
        ensures
            final(self).view() == run_failed(old(self).view(), error_text(error.deep_view())),
            final(self).wf(),
            final(self).view().phase == StreamPhase::Finished,
    {
        match self.phase {
            StreamPhase::Finished => {},
            _ => {
                let ghost before = old(self).view();
                proof {
                    if before.phase == StreamPhase::Pending {
                        assert(before.output().content =~= Seq::empty());
                    }
                }
                push_stream_error(&mut self.output, &mut self.sender, error);
                self.phase = StreamPhase::Finished;
                proof {
                    let event = error_event(before.stream, error_text(error.deep_view()));
                    assert(before.history().push(event).skip(before.history().len() as int)
                        =~= seq![event]);
                    assert(before.queued + seq![event] =~= before.queued.push(event));
                }
            },
        }
    }

    /// Hands over the events emitted since they were last taken, oldest first.
    pub fn take_events(&mut self) -> (events: Vec<AssistantMessageEvent>)
        requires
            old(self).wf(),
        ensures
            events.deep_view() == old(self).view().queued,
            final(self).view() == (RunView {
                phase: old(self).view().phase,
                stream: old(self).view().stream,
                queued: Seq::empty(),
                result: old(self).view().result,
            }),
            final(self).wf(),
    {
        self.sender.take_events()
    }

    /// The final message, once the run is finished.
    pub fn result(&self) -> (message: Option<AssistantMessage>)
        ensures
            message.deep_view() == self.view().result,
    {
        self.sender.result()
    }
}

/// Whether a dialect reads inline think tags and `reasoning_details`.
pub fn is_minimax_api(api: Api) -> (minimax: bool)
    ensures
        minimax == is_minimax(api),
{
    api == Api::MinimaxCompletions
}

} // verus!
