//! What holds of every rewritten conversation.

use vstd::prelude::*;
use crate::transform::{
    assistant_with, block_step, blocks_step, calls_of, failed, mend_step, mended, message_step,
    messages_step, orphan_results, rewritten, same_model, synthetic_result, transformed,
    with_synthetic_results, IdRewrites, Mending, Normalizer, TargetModelView,
};
use crate::types::api::{Api, ProviderView};
use crate::types::usage::{StopReason, Usage};
use crate::types::content::{ContentView, ThinkingContentView, ToolCallView};
use crate::types::message::{AssistantMessageView, MessageView};

verus! {

/// Whether no message of `messages` is an assistant turn that failed.
pub open spec fn no_failed_turn(messages: Seq<MessageView>) -> bool {
    forall|i: int|
        0 <= i < messages.len() ==> match #[trigger] messages[i] {
            MessageView::Assistant(assistant) => !failed(assistant.stop_reason),
            _ => true,
        }
}

proof fn lemma_first_pass_drops_failed(
    messages: Seq<MessageView>,
    target: TargetModelView,
    normalizer: Option<Normalizer>,
    rewrites: IdRewrites,
)
    ensures
        no_failed_turn(messages_step(messages, target, normalizer, rewrites).0),
    decreases messages.len(),
{
    if messages.len() > 0 {
        lemma_first_pass_drops_failed(messages.drop_last(), target, normalizer, rewrites);
    }
}

proof fn lemma_orphans_are_results(pending: Seq<ToolCallView>, answered: Seq<Seq<char>>, now: i64)
    ensures
        forall|i: int|
            0 <= i < orphan_results(pending, answered, now).len() ==> #[trigger] orphan_results(
                pending,
                answered,
                now,
            )[i] is ToolResult,
        orphan_results(pending, answered, now).len() <= pending.len(),
    decreases pending.len(),
{
    if pending.len() > 0 {
        lemma_orphans_are_results(pending.drop_last(), answered, now);
    }
}

/// The second pass adds no failed assistant turn.
pub proof fn lemma_mending_keeps_no_failed(messages: Seq<MessageView>, now: i64)
    requires
        no_failed_turn(messages),
    ensures
        no_failed_turn(mended(messages, now).result),
        no_failed_turn(with_synthetic_results(messages, now)),
    decreases messages.len(),
{
    let whole = mended(messages, now);
    lemma_orphans_are_results(whole.pending, whole.answered, now);
    if messages.len() > 0 {
        let front = messages.drop_last();
        assert forall|i: int| 0 <= i < front.len() implies match #[trigger] front[i] {
            MessageView::Assistant(assistant) => !failed(assistant.stop_reason),
            _ => true,
        } by {
            assert(front[i] == messages[i]);
        }
        lemma_mending_keeps_no_failed(front, now);
        let state = mended(front, now);
        lemma_orphans_are_results(state.pending, state.answered, now);
        assert(messages.last() == messages[messages.len() - 1]);
    }
}

/// No assistant turn that ended in `error` or `aborted` is part of a rewritten
/// conversation.
pub proof fn lemma_failed_turns_dropped(
    messages: Seq<MessageView>,
    target: TargetModelView,
    normalizer: Option<Normalizer>,
    now: i64,
)
    ensures
        no_failed_turn(transformed(messages, target, normalizer, now)),
{
    let first = messages_step(messages, target, normalizer, Seq::empty()).0;
    lemma_first_pass_drops_failed(messages, target, normalizer, Seq::empty());
    lemma_mending_keeps_no_failed(first, now);
    let state = mended(first, now);
    lemma_orphans_are_results(state.pending, state.answered, now);
}

/// The thinking blocks with a signature among content blocks, in order.
pub open spec fn signed_thinking(content: Seq<ContentView>) -> Seq<ThinkingContentView>
    decreases content.len(),
{
    if content.len() == 0 {
        Seq::empty()
    } else {
        let front = signed_thinking(content.drop_last());
        match content.last() {
            ContentView::Thinking(inner) => if inner.thinking_signature.is_some() {
                front.push(inner)
            } else {
                front
            },
            _ => front,
        }
    }
}

/// For the model that thought, a thinking block with a signature stays exactly
/// as it is.
pub proof fn lemma_signed_thinking_kept(
    block: ThinkingContentView,
    target: TargetModelView,
    assistant: AssistantMessageView,
    normalizer: Option<Normalizer>,
    rewrites: IdRewrites,
)
    requires
        block.thinking_signature.is_some(),
    ensures
        block_step(ContentView::Thinking(block), true, target, assistant, normalizer, rewrites)
            == (Some(ContentView::Thinking(block)), rewrites),
{
}

/// For the model that thought, the thinking blocks with a signature of a
/// message are the same before and after, one for one and in order.
pub proof fn lemma_signed_thinking_preserved(
    content: Seq<ContentView>,
    target: TargetModelView,
    assistant: AssistantMessageView,
    normalizer: Option<Normalizer>,
    rewrites: IdRewrites,
)
    ensures
        signed_thinking(blocks_step(content, true, target, assistant, normalizer, rewrites).0)
            == signed_thinking(content),
    decreases content.len(),
{
    if content.len() > 0 {
        lemma_signed_thinking_preserved(
            content.drop_last(),
            target,
            assistant,
            normalizer,
            rewrites,
        );
        let front = blocks_step(content.drop_last(), true, target, assistant, normalizer, rewrites);
        let last = block_step(content.last(), true, target, assistant, normalizer, front.1);
        match last.0 {
            Some(block) => {
                assert(front.0.push(block).drop_last() =~= front.0);
            },
            None => {},
        }
    }
}

/// Whether a normalizer gives back what it is given once it has been applied.
pub open spec fn idempotent(normalizer: Normalizer, target: TargetModelView) -> bool {
    forall|id: Seq<char>, first: AssistantMessageView, second: AssistantMessageView|
        #[trigger] normalizer(normalizer(id, target, first), target, second) == normalizer(
            id,
            target,
            first,
        )
}

/// With an idempotent normalizer, a tool call that was rewritten for another
/// model is left as it is when it is rewritten for that model again, and no
/// further rewrite of its id is recorded.
pub proof fn lemma_normalization_idempotent(
    call: ToolCallView,
    target: TargetModelView,
    first: AssistantMessageView,
    second: AssistantMessageView,
    normalizer: Normalizer,
    rewrites: IdRewrites,
    later: IdRewrites,
)
    requires
        idempotent(normalizer, target),
    ensures
        ({
            let once = block_step(
                ContentView::ToolCall(call),
                false,
                target,
                first,
                Some(normalizer),
                rewrites,
            ).0;
            &&& once.is_some()
            &&& block_step(once.unwrap(), false, target, second, Some(normalizer), later) == (
                once,
                later,
            )
        }),
{
}

/// Whether `message` is the result of the tool call `id`.
pub open spec fn is_result_for(message: MessageView, id: Seq<char>) -> bool {
    match message {
        MessageView::ToolResult(result) => result.tool_call_id == id,
        _ => false,
    }
}

/// Whether only tool results stand behind index `from` up to and including
/// index `to`.
pub open spec fn only_results(messages: Seq<MessageView>, from: int, to: int) -> bool {
    forall|k: int| from < k <= to ==> (#[trigger] messages[k]) is ToolResult
}

/// Whether the tool call `id` of the message at index `at` is answered: a
/// result for it stands behind the message, with nothing but tool results in
/// between, so before the next user or assistant turn.
pub open spec fn answered_after(messages: Seq<MessageView>, at: int, id: Seq<char>) -> bool {
    exists|j: int|
        at < j < messages.len() && is_result_for(#[trigger] messages[j], id) && only_results(
            messages,
            at,
            j,
        )
}

/// Whether every tool call of the message at index `at`, if that is an
/// assistant message, is answered.
pub open spec fn calls_answered(messages: Seq<MessageView>, at: int) -> bool {
    match messages[at] {
        MessageView::Assistant(assistant) => forall|c: int|
            0 <= c < calls_of(assistant.content).len() ==> answered_after(
                messages,
                at,
                (#[trigger] calls_of(assistant.content)[c]).id,
            ),
        _ => true,
    }
}

/// Whether every tool call of every assistant message is answered.
pub open spec fn every_call_answered(messages: Seq<MessageView>) -> bool {
    forall|i: int| 0 <= i < messages.len() ==> #[trigger] calls_answered(messages, i)
}

proof fn lemma_answered_stays(
    messages: Seq<MessageView>,
    more: Seq<MessageView>,
    at: int,
    id: Seq<char>,
)
    requires
        0 <= at < messages.len(),
        answered_after(messages, at, id),
    ensures
        answered_after(messages + more, at, id),
{
    let j = choose|j: int|
        at < j < messages.len() && is_result_for(#[trigger] messages[j], id) && only_results(
            messages,
            at,
            j,
        );
    let longer = messages + more;
    assert(longer[j] == messages[j]);
    assert forall|k: int| at < k <= j implies (#[trigger] longer[k]) is ToolResult by {
        assert(longer[k] == messages[k]);
    }
    assert(only_results(longer, at, j));
}

proof fn lemma_calls_answered_stays(messages: Seq<MessageView>, more: Seq<MessageView>, at: int)
    requires
        0 <= at < messages.len(),
        calls_answered(messages, at),
    ensures
        calls_answered(messages + more, at),
{
    let longer = messages + more;
    assert(longer[at] == messages[at]);
    match messages[at] {
        MessageView::Assistant(assistant) => {
            assert forall|c: int| 0 <= c < calls_of(assistant.content).len() implies answered_after(
                longer,
                at,
                (#[trigger] calls_of(assistant.content)[c]).id,
            ) by {
                lemma_answered_stays(messages, more, at, calls_of(assistant.content)[c].id);
            }
        },
        _ => {},
    }
}

proof fn lemma_every_call_answered_stays(messages: Seq<MessageView>, last: MessageView)
    requires
        every_call_answered(messages),
        !(last is Assistant) || calls_of(last->Assistant_0.content).len() == 0,
    ensures
        every_call_answered(messages.push(last)),
{
    let longer = messages.push(last);
    assert(longer =~= messages + seq![last]);
    assert forall|i: int| 0 <= i < longer.len() implies #[trigger] calls_answered(longer, i) by {
        if i < messages.len() {
            assert(calls_answered(messages, i));
            lemma_calls_answered_stays(messages, seq![last], i);
        }
    }
}

/// The synthetic results for pending calls are tool results, and every pending
/// call that no result answered has one among them.
proof fn lemma_orphans_cover(pending: Seq<ToolCallView>, answered: Seq<Seq<char>>, now: i64)
    ensures
        forall|k: int|
            0 <= k < orphan_results(pending, answered, now).len() ==> (#[trigger] orphan_results(
                pending,
                answered,
                now,
            )[k]) is ToolResult,
        forall|c: int|
            0 <= c < pending.len() && !answered.contains((#[trigger] pending[c]).id) ==> exists|
                k: int,
            |
                0 <= k < orphan_results(pending, answered, now).len() && is_result_for(
                    #[trigger] orphan_results(pending, answered, now)[k],
                    pending[c].id,
                ),
    decreases pending.len(),
{
    if pending.len() > 0 {
        let front = pending.drop_last();
        lemma_orphans_cover(front, answered, now);
        let before = orphan_results(front, answered, now);
        let all = orphan_results(pending, answered, now);
        assert forall|c: int|
            0 <= c < pending.len() && !answered.contains((#[trigger] pending[c]).id) implies exists|
            k: int,
        | 0 <= k < all.len() && is_result_for(#[trigger] all[k], pending[c].id) by {
            if c < front.len() {
                assert(front[c] == pending[c]);
                let k = choose|k: int|
                    0 <= k < before.len() && is_result_for(#[trigger] before[k], front[c].id);
                assert(all[k] == before[k]);
            } else {
                assert(pending[c] == pending.last());
                let k = all.len() - 1;
                assert(all[k] == synthetic_result(pending.last(), now));
                assert(is_result_for(all[k], pending[c].id));
            }
        }
    }
}

/// Whether the second pass stands at the assistant message at index `at`: that
/// message's calls are pending, only tool results stand behind it, every id
/// counted as answered has its result there, and the calls of earlier
/// messages are answered.
pub open spec fn tracking(state: Mending, at: int) -> bool {
    &&& 0 <= at < state.result.len()
    &&& state.result[at] is Assistant
    &&& calls_of(state.result[at]->Assistant_0.content) == state.pending
    &&& only_results(state.result, at, state.result.len() - 1)
    &&& forall|id: Seq<char>| #[trigger]
        state.answered.contains(id) ==> exists|k: int|
            at < k < state.result.len() && is_result_for(#[trigger] state.result[k], id)
    &&& forall|i: int| 0 <= i < at ==> #[trigger] calls_answered(state.result, i)
}

/// What holds of the second pass at every point: no call is pending and
/// every call so far is answered, or the pass stands at an assistant message.
pub open spec fn mending_inv(state: Mending) -> bool {
    ||| (state.pending.len() == 0 && every_call_answered(state.result))
    ||| exists|at: int| tracking(state, at)
}

/// At a boundary, and at the end, every call so far is answered once the
/// synthetic results are in place.
proof fn lemma_flush_answers(state: Mending, now: i64)
    requires
        mending_inv(state),
    ensures
        every_call_answered(state.result + orphan_results(state.pending, state.answered, now)),
{
    let orphans = orphan_results(state.pending, state.answered, now);
    let all = state.result + orphans;
    lemma_orphans_cover(state.pending, state.answered, now);
    if state.pending.len() == 0 && every_call_answered(state.result) {
        assert(orphans.len() == 0);
        assert(all =~= state.result);
    } else {
        let at = choose|at: int| tracking(state, at);
        let n = state.result.len() as int;
        assert forall|i: int| 0 <= i < all.len() implies #[trigger] calls_answered(all, i) by {
            if i < at {
                assert(calls_answered(state.result, i));
                lemma_calls_answered_stays(state.result, orphans, i);
            } else if i > at {
                if i < n {
                    assert(all[i] == state.result[i]);
                    assert(state.result[i] is ToolResult);
                } else {
                    assert(all[i] == orphans[i - n]);
                }
            } else {
                assert(all[at] == state.result[at]);
                let assistant = state.result[at]->Assistant_0;
                assert forall|c: int| 0 <= c < calls_of(assistant.content).len() implies answered_after(
                    all,
                    at,
                    (#[trigger] calls_of(assistant.content)[c]).id,
                ) by {
                    let id = state.pending[c].id;
                    if state.answered.contains(id) {
                        let k = choose|k: int|
                            at < k < n && is_result_for(#[trigger] state.result[k], id);
                        assert(all[k] == state.result[k]);
                        assert forall|m: int| at < m <= k implies (#[trigger] all[m]) is ToolResult by {
                            assert(all[m] == state.result[m]);
                        }
                        assert(only_results(all, at, k));
                    } else {
                        let k = choose|k: int|
                            0 <= k < orphans.len() && is_result_for(#[trigger] orphans[k], id);
                        let j = n + k;
                        assert(all[j] == orphans[k]);
                        assert forall|m: int| at < m <= j implies (#[trigger] all[m]) is ToolResult by {
                            if m < n {
                                assert(all[m] == state.result[m]);
                            } else {
                                assert(all[m] == orphans[m - n]);
                            }
                        }
                        assert(only_results(all, at, j));
                    }
                }
            }
        }
    }
}

proof fn lemma_mend_step_keeps_inv(state: Mending, message: MessageView, now: i64)
    requires
        mending_inv(state),
    ensures
        mending_inv(mend_step(state, message, now)),
{
    let after = mend_step(state, message, now);
    match message {
        MessageView::ToolResult(result) => {
            if state.pending.len() == 0 && every_call_answered(state.result) {
                lemma_every_call_answered_stays(state.result, message);
            } else {
                let at = choose|at: int| tracking(state, at);
                let n = state.result.len() as int;
                assert(after.result[at] == state.result[at]);
                assert forall|k: int| at < k <= after.result.len() - 1 implies (
                #[trigger] after.result[k]) is ToolResult by {
                    if k < n {
                        assert(after.result[k] == state.result[k]);
                    }
                }
                assert forall|id: Seq<char>| #[trigger] after.answered.contains(id) implies exists|
                    k: int,
                | at < k < after.result.len() && is_result_for(#[trigger] after.result[k], id) by {
                    let w = choose|w: int| 0 <= w < after.answered.len() && after.answered[w] == id;
                    if w < state.answered.len() {
                        assert(state.answered[w] == id);
                        assert(state.answered.contains(id));
                        let k = choose|k: int|
                            at < k < n && is_result_for(#[trigger] state.result[k], id);
                        assert(after.result[k] == state.result[k]);
                    } else {
                        assert(after.result[n] == message);
                        assert(is_result_for(after.result[n], id));
                    }
                }
                assert forall|i: int| 0 <= i < at implies #[trigger] calls_answered(
                    after.result,
                    i,
                ) by {
                    assert(calls_answered(state.result, i));
                    assert(after.result =~= state.result + seq![message]);
                    lemma_calls_answered_stays(state.result, seq![message], i);
                }
                assert(tracking(after, at));
            }
        },
        MessageView::Assistant(assistant) => {
            let base = state.result + orphan_results(state.pending, state.answered, now);
            lemma_flush_answers(state, now);
            let at = base.len() as int;
            assert(after.result[at] == message);
            assert forall|i: int| 0 <= i < at implies #[trigger] calls_answered(after.result, i) by {
                assert(calls_answered(base, i));
                assert(after.result =~= base + seq![message]);
                lemma_calls_answered_stays(base, seq![message], i);
            }
            assert forall|id: Seq<char>| #[trigger] after.answered.contains(id) implies exists|
                k: int,
            | at < k < after.result.len() && is_result_for(#[trigger] after.result[k], id) by {
                let w = choose|w: int| 0 <= w < after.answered.len() && after.answered[w] == id;
            }
            assert(tracking(after, at));
        },
        MessageView::User(_) => {
            let base = state.result + orphan_results(state.pending, state.answered, now);
            lemma_flush_answers(state, now);
            lemma_every_call_answered_stays(base, message);
        },
    }
}

proof fn lemma_mended_inv(messages: Seq<MessageView>, now: i64)
    ensures
        mending_inv(mended(messages, now)),
    decreases messages.len(),
{
    if messages.len() > 0 {
        lemma_mended_inv(messages.drop_last(), now);
        lemma_mend_step_keeps_inv(mended(messages.drop_last(), now), messages.last(), now);
    }
}

/// After the second pass, every tool call of every assistant message has a
/// result behind it with nothing but tool results in between: no call is left
/// unanswered when the next user or assistant turn comes, or when the
/// conversation ends.
pub proof fn lemma_synthetic_results_answer_every_call(messages: Seq<MessageView>, now: i64)
    ensures
        every_call_answered(with_synthetic_results(messages, now)),
{
    lemma_mended_inv(messages, now);
    lemma_flush_answers(mended(messages, now), now);
}

/// In a rewritten conversation every tool call of every assistant message is
/// answered before the next user turn or the end of the conversation.
pub proof fn lemma_every_tool_call_answered(
    messages: Seq<MessageView>,
    target: TargetModelView,
    normalizer: Option<Normalizer>,
    now: i64,
)
    ensures
        every_call_answered(transformed(messages, target, normalizer, now)),
{
    lemma_synthetic_results_answer_every_call(
        messages_step(messages, target, normalizer, Seq::empty()).0,
        now,
    );
}

/// What an assistant turn is apart from its content.
pub struct TurnHeader {
    pub api: Api,
    pub provider: ProviderView,
    pub model: Seq<char>,
    pub usage: Usage,
    pub stop_reason: StopReason,
    pub error_message: Option<Seq<char>>,
    pub timestamp: i64,
}

/// The header of an assistant turn.
pub open spec fn header_of(assistant: AssistantMessageView) -> TurnHeader {
    TurnHeader {
        api: assistant.api,
        provider: assistant.provider,
        model: assistant.model,
        usage: assistant.usage,
        stop_reason: assistant.stop_reason,
        error_message: assistant.error_message,
        timestamp: assistant.timestamp,
    }
}

/// The headers of the assistant turns that did not fail, in order.
pub open spec fn surviving_turns(messages: Seq<MessageView>) -> Seq<TurnHeader>
    decreases messages.len(),
{
    if messages.len() == 0 {
        Seq::empty()
    } else {
        let front = surviving_turns(messages.drop_last());
        match messages.last() {
            MessageView::Assistant(assistant) => if failed(assistant.stop_reason) {
                front
            } else {
                front.push(header_of(assistant))
            },
            _ => front,
        }
    }
}

/// Whether `after` is what the first pass may make of `before` as far as
/// turns go: a failed assistant turn is dropped, any other assistant turn is
/// kept with its header, and user messages and tool results stay what they
/// are.
pub open spec fn turn_kept(before: MessageView, after: Option<MessageView>) -> bool {
    match before {
        MessageView::Assistant(assistant) => if failed(assistant.stop_reason) {
            after.is_none()
        } else {
            &&& after.is_some()
            &&& after.unwrap() is Assistant
            &&& header_of(after.unwrap()->Assistant_0) == header_of(assistant)
        },
        MessageView::User(_) => after.is_some() && after.unwrap() is User,
        MessageView::ToolResult(_) => after.is_some() && after.unwrap() is ToolResult,
    }
}

/// The surviving turns of a list with one more message.
pub proof fn lemma_surviving_turns_push(messages: Seq<MessageView>, last: MessageView)
    ensures
        surviving_turns(messages.push(last)) == match last {
            MessageView::Assistant(assistant) => if failed(assistant.stop_reason) {
                surviving_turns(messages)
            } else {
                surviving_turns(messages).push(header_of(assistant))
            },
            _ => surviving_turns(messages),
        },
{
    assert(messages.push(last).drop_last() =~= messages);
}

/// The surviving turns of two lists joined are those of the one followed by
/// those of the other.
pub proof fn lemma_surviving_turns_concat(a: Seq<MessageView>, b: Seq<MessageView>)
    ensures
        surviving_turns(a + b) == surviving_turns(a) + surviving_turns(b),
    decreases b.len(),
{
    if b.len() == 0 {
        assert(a + b =~= a);
        assert(surviving_turns(a) + surviving_turns(b) =~= surviving_turns(a));
    } else {
        lemma_surviving_turns_concat(a, b.drop_last());
        assert((a + b).drop_last() =~= a + b.drop_last());
        assert((a + b).last() == b.last());
        let front = surviving_turns(a) + surviving_turns(b.drop_last());
        match b.last() {
            MessageView::Assistant(assistant) => {
                if !failed(assistant.stop_reason) {
                    assert(front.push(header_of(assistant)) =~= surviving_turns(a)
                        + surviving_turns(b.drop_last()).push(header_of(assistant)));
                }
            },
            _ => {},
        }
    }
}

proof fn lemma_orphans_hold_no_turn(pending: Seq<ToolCallView>, answered: Seq<Seq<char>>, now: i64)
    ensures
        surviving_turns(orphan_results(pending, answered, now)) == Seq::<TurnHeader>::empty(),
    decreases pending.len(),
{
    if pending.len() > 0 {
        lemma_orphans_hold_no_turn(pending.drop_last(), answered, now);
        let front = orphan_results(pending.drop_last(), answered, now);
        if !answered.contains(pending.last().id) {
            lemma_surviving_turns_push(front, synthetic_result(pending.last(), now));
        }
    }
}

proof fn lemma_mended_keeps_turns(messages: Seq<MessageView>, now: i64)
    ensures
        surviving_turns(mended(messages, now).result) == surviving_turns(messages),
    decreases messages.len(),
{
    if messages.len() > 0 {
        let front = messages.drop_last();
        lemma_mended_keeps_turns(front, now);
        let state = mended(front, now);
        let orphans = orphan_results(state.pending, state.answered, now);
        lemma_orphans_hold_no_turn(state.pending, state.answered, now);
        lemma_surviving_turns_concat(state.result, orphans);
        assert(surviving_turns(state.result) + Seq::<TurnHeader>::empty() =~= surviving_turns(
            state.result,
        ));
        lemma_surviving_turns_push(state.result + orphans, messages.last());
        lemma_surviving_turns_push(state.result, messages.last());
    }
}

/// The second pass keeps every assistant turn that did not fail, with its
/// header and in order, and adds none.
pub proof fn lemma_synthetic_results_keep_turns(messages: Seq<MessageView>, now: i64)
    ensures
        surviving_turns(with_synthetic_results(messages, now)) == surviving_turns(messages),
{
    let state = mended(messages, now);
    lemma_mended_keeps_turns(messages, now);
    lemma_orphans_hold_no_turn(state.pending, state.answered, now);
    lemma_surviving_turns_concat(
        state.result,
        orphan_results(state.pending, state.answered, now),
    );
    assert(surviving_turns(state.result) + Seq::<TurnHeader>::empty() =~= surviving_turns(
        state.result,
    ));
}

/// Whether a normalizer, where there is one, is idempotent.
pub open spec fn idempotent_if_given(normalizer: Option<Normalizer>, target: TargetModelView) -> bool {
    normalizer.is_some() ==> idempotent(normalizer.unwrap(), target)
}

/// Whether the first pass leaves a block as it is, and records no rewrite for
/// it, in whatever assistant message it stands.
pub open spec fn settled_block(
    block: ContentView,
    same: bool,
    target: TargetModelView,
    normalizer: Option<Normalizer>,
) -> bool {
    forall|assistant: AssistantMessageView, rewrites: IdRewrites| #[trigger]
        block_step(block, same, target, assistant, normalizer, rewrites) == (Some(block), rewrites)
}

/// Whether the first pass leaves a message as it is: any user message and
/// tool result whose id was not rewritten, and an assistant turn that did
/// not fail and whose blocks are all settled.
pub open spec fn settled_message(
    message: MessageView,
    target: TargetModelView,
    normalizer: Option<Normalizer>,
) -> bool {
    match message {
        MessageView::Assistant(assistant) => {
            &&& !failed(assistant.stop_reason)
            &&& forall|i: int|
                0 <= i < assistant.content.len() ==> settled_block(
                    #[trigger] assistant.content[i],
                    same_model(assistant, target),
                    target,
                    normalizer,
                )
        },
        _ => true,
    }
}

/// Whether the first pass leaves every message as it is.
pub open spec fn all_settled(
    messages: Seq<MessageView>,
    target: TargetModelView,
    normalizer: Option<Normalizer>,
) -> bool {
    forall|i: int| 0 <= i < messages.len() ==> settled_message(#[trigger] messages[i], target, normalizer)
}

/// What the first pass makes of a block is settled.
proof fn lemma_step_settles_block(
    block: ContentView,
    same: bool,
    target: TargetModelView,
    assistant: AssistantMessageView,
    normalizer: Option<Normalizer>,
    rewrites: IdRewrites,
)
    requires
        idempotent_if_given(normalizer, target),
    ensures
        match block_step(block, same, target, assistant, normalizer, rewrites).0 {
            Some(out) => settled_block(out, same, target, normalizer),
            None => true,
        },
{
    match block_step(block, same, target, assistant, normalizer, rewrites).0 {
        Some(out) => {
            assert forall|second: AssistantMessageView, later: IdRewrites| #[trigger]
                block_step(out, same, target, second, normalizer, later) == (
                    Some(out),
                    later,
                ) by {
                match block {
                    ContentView::ToolCall(call) => {
                        if !same && normalizer.is_some() {
                            let n = normalizer.unwrap();
                            let once = n(call.id, target, assistant);
                            assert(n(n(call.id, target, assistant), target, second) == once);
                        }
                    },
                    _ => {},
                }
            }
        },
        None => {},
    }
}

/// What the first pass makes of the blocks of a message is settled.
proof fn lemma_blocks_step_settles(
    content: Seq<ContentView>,
    same: bool,
    target: TargetModelView,
    assistant: AssistantMessageView,
    normalizer: Option<Normalizer>,
    rewrites: IdRewrites,
)
    requires
        idempotent_if_given(normalizer, target),
    ensures
        forall|i: int|
            0 <= i < blocks_step(content, same, target, assistant, normalizer, rewrites).0.len()
                ==> settled_block(
                #[trigger] blocks_step(content, same, target, assistant, normalizer, rewrites).0[i],
                same,
                target,
                normalizer,
            ),
    decreases content.len(),
{
    if content.len() > 0 {
        lemma_blocks_step_settles(
            content.drop_last(),
            same,
            target,
            assistant,
            normalizer,
            rewrites,
        );
        let front = blocks_step(content.drop_last(), same, target, assistant, normalizer, rewrites);
        lemma_step_settles_block(content.last(), same, target, assistant, normalizer, front.1);
        let out = blocks_step(content, same, target, assistant, normalizer, rewrites).0;
        assert forall|i: int| 0 <= i < out.len() implies settled_block(
            #[trigger] out[i],
            same,
            target,
            normalizer,
        ) by {
            if i < front.0.len() {
                assert(out[i] == front.0[i]);
            }
        }
    }
}

/// The first pass leaves settled blocks as they are and records no rewrite.
proof fn lemma_settled_blocks_stay(
    content: Seq<ContentView>,
    same: bool,
    target: TargetModelView,
    assistant: AssistantMessageView,
    normalizer: Option<Normalizer>,
    rewrites: IdRewrites,
)
    requires
        forall|i: int|
            0 <= i < content.len() ==> settled_block(
                #[trigger] content[i],
                same,
                target,
                normalizer,
            ),
    ensures
        blocks_step(content, same, target, assistant, normalizer, rewrites) == (content, rewrites),
    decreases content.len(),
{
    if content.len() == 0 {
        assert(content =~= Seq::<ContentView>::empty());
    } else {
        let front = content.drop_last();
        assert forall|i: int| 0 <= i < front.len() implies settled_block(
            #[trigger] front[i],
            same,
            target,
            normalizer,
        ) by {
            assert(front[i] == content[i]);
        }
        lemma_settled_blocks_stay(front, same, target, assistant, normalizer, rewrites);
        assert(settled_block(content[content.len() - 1], same, target, normalizer));
        assert(block_step(content.last(), same, target, assistant, normalizer, rewrites) == (
            Some(content.last()),
            rewrites,
        ));
        assert(front.push(content.last()) =~= content);
    }
}

/// What the first pass makes of a message is settled.
proof fn lemma_step_settles_message(
    message: MessageView,
    target: TargetModelView,
    normalizer: Option<Normalizer>,
    rewrites: IdRewrites,
)
    requires
        idempotent_if_given(normalizer, target),
    ensures
        match message_step(message, target, normalizer, rewrites).0 {
            Some(out) => settled_message(out, target, normalizer),
            None => true,
        },
{
    match message {
        MessageView::Assistant(assistant) => {
            if !failed(assistant.stop_reason) {
                lemma_blocks_step_settles(
                    assistant.content,
                    same_model(assistant, target),
                    target,
                    assistant,
                    normalizer,
                    rewrites,
                );
            }
        },
        _ => {},
    }
}

/// The first pass, started without rewrites, leaves a settled message as it
/// is and records no rewrite.
proof fn lemma_settled_message_stays(
    message: MessageView,
    target: TargetModelView,
    normalizer: Option<Normalizer>,
)
    requires
        settled_message(message, target, normalizer),
    ensures
        message_step(message, target, normalizer, Seq::empty()) == (
            Some(message),
            Seq::<(Seq<char>, Seq<char>)>::empty(),
        ),
{
    let none = Seq::<(Seq<char>, Seq<char>)>::empty();
    match message {
        MessageView::Assistant(assistant) => {
            lemma_settled_blocks_stay(
                assistant.content,
                same_model(assistant, target),
                target,
                assistant,
                normalizer,
                none,
            );
            assert(assistant_with(assistant, assistant.content) == assistant);
        },
        MessageView::ToolResult(result) => {
            assert(rewritten(none, result.tool_call_id).is_none());
        },
        MessageView::User(_) => {},
    }
}

/// What the first pass makes of a conversation is settled.
proof fn lemma_first_pass_settles(
    messages: Seq<MessageView>,
    target: TargetModelView,
    normalizer: Option<Normalizer>,
    rewrites: IdRewrites,
)
    requires
        idempotent_if_given(normalizer, target),
    ensures
        all_settled(messages_step(messages, target, normalizer, rewrites).0, target, normalizer),
    decreases messages.len(),
{
    if messages.len() > 0 {
        lemma_first_pass_settles(messages.drop_last(), target, normalizer, rewrites);
        let front = messages_step(messages.drop_last(), target, normalizer, rewrites);
        lemma_step_settles_message(messages.last(), target, normalizer, front.1);
        let out = messages_step(messages, target, normalizer, rewrites).0;
        assert forall|i: int| 0 <= i < out.len() implies settled_message(
            #[trigger] out[i],
            target,
            normalizer,
        ) by {
            if i < front.0.len() {
                assert(out[i] == front.0[i]);
            }
        }
    }
}

/// The first pass, started without rewrites, leaves a settled conversation as
/// it is and records no rewrite.
proof fn lemma_settled_conversation_stays(
    messages: Seq<MessageView>,
    target: TargetModelView,
    normalizer: Option<Normalizer>,
)
    requires
        all_settled(messages, target, normalizer),
    ensures
        messages_step(messages, target, normalizer, Seq::empty()) == (
            messages,
            Seq::<(Seq<char>, Seq<char>)>::empty(),
        ),
    decreases messages.len(),
{
    if messages.len() == 0 {
        assert(messages =~= Seq::<MessageView>::empty());
    } else {
        let front = messages.drop_last();
        assert forall|i: int| 0 <= i < front.len() implies settled_message(
            #[trigger] front[i],
            target,
            normalizer,
        ) by {
            assert(front[i] == messages[i]);
        }
        lemma_settled_conversation_stays(front, target, normalizer);
        assert(settled_message(messages[messages.len() - 1], target, normalizer));
        lemma_settled_message_stays(messages.last(), target, normalizer);
        assert(front.push(messages.last()) =~= messages);
    }
}

proof fn lemma_mended_stays_settled(
    messages: Seq<MessageView>,
    target: TargetModelView,
    normalizer: Option<Normalizer>,
    now: i64,
)
    requires
        all_settled(messages, target, normalizer),
    ensures
        all_settled(mended(messages, now).result, target, normalizer),
        all_settled(with_synthetic_results(messages, now), target, normalizer),
    decreases messages.len(),
{
    let whole = mended(messages, now);
    lemma_orphans_are_results(whole.pending, whole.answered, now);
    if messages.len() > 0 {
        let front = messages.drop_last();
        assert forall|i: int| 0 <= i < front.len() implies settled_message(
            #[trigger] front[i],
            target,
            normalizer,
        ) by {
            assert(front[i] == messages[i]);
        }
        lemma_mended_stays_settled(front, target, normalizer, now);
        let state = mended(front, now);
        lemma_orphans_are_results(state.pending, state.answered, now);
        assert(settled_message(messages[messages.len() - 1], target, normalizer));
        let orphans = orphan_results(state.pending, state.answered, now);
        assert forall|i: int| 0 <= i < whole.result.len() implies settled_message(
            #[trigger] whole.result[i],
            target,
            normalizer,
        ) by {
            if i < state.result.len() {
                assert(whole.result[i] == state.result[i]);
            } else if i < whole.result.len() - 1 {
                assert(whole.result[i] == orphans[i - state.result.len()]);
            }
        }
    }
    let last = orphan_results(whole.pending, whole.answered, now);
    let all = with_synthetic_results(messages, now);
    assert forall|i: int| 0 <= i < all.len() implies settled_message(
        #[trigger] all[i],
        target,
        normalizer,
    ) by {
        if i < whole.result.len() {
            assert(all[i] == whole.result[i]);
        } else {
            assert(all[i] == last[i - whole.result.len()]);
        }
    }
}

/// No synthetic result is made where every pending call is answered.
proof fn lemma_no_orphans(pending: Seq<ToolCallView>, answered: Seq<Seq<char>>, now: i64)
    requires
        forall|c: int| 0 <= c < pending.len() ==> answered.contains((#[trigger] pending[c]).id),
    ensures
        orphan_results(pending, answered, now) == Seq::<MessageView>::empty(),
    decreases pending.len(),
{
    if pending.len() > 0 {
        assert forall|c: int| 0 <= c < pending.drop_last().len() implies answered.contains(
            (#[trigger] pending.drop_last()[c]).id,
        ) by {
            assert(pending.drop_last()[c] == pending[c]);
        }
        lemma_no_orphans(pending.drop_last(), answered, now);
        assert(answered.contains(pending[pending.len() - 1].id));
    }
}

/// Where the second pass stands in a conversation whose calls are all
/// answered, after `upto` messages: it has put out those messages as they
/// are, and where calls are pending they are those of an assistant message
/// behind which only tool results stand, all counted as answered.
pub open spec fn mending_in_step(state: Mending, messages: Seq<MessageView>, upto: int) -> bool {
    &&& state.result == messages.take(upto)
    &&& state.pending.len() > 0 ==> exists|at: int|
        #![trigger messages[at]]
        {
            &&& 0 <= at < upto
            &&& messages[at] is Assistant
            &&& calls_of(messages[at]->Assistant_0.content) == state.pending
            &&& only_results(messages, at, upto - 1)
            &&& forall|j: int|
                at < j < upto ==> state.answered.contains(
                    (#[trigger] messages[j])->ToolResult_0.tool_call_id,
                )
        }
}

/// At a boundary, and at the end, of a conversation whose calls are all
/// answered, no pending call is unanswered.
proof fn lemma_pending_is_answered(state: Mending, messages: Seq<MessageView>, upto: int, now: i64)
    requires
        every_call_answered(messages),
        0 <= upto <= messages.len(),
        mending_in_step(state, messages, upto),
        upto < messages.len() ==> !(messages[upto] is ToolResult),
    ensures
        orphan_results(state.pending, state.answered, now) == Seq::<MessageView>::empty(),
{
    if state.pending.len() > 0 {
        let at = choose|at: int|
            #![trigger messages[at]]
            {
                &&& 0 <= at < upto
                &&& messages[at] is Assistant
                &&& calls_of(messages[at]->Assistant_0.content) == state.pending
                &&& only_results(messages, at, upto - 1)
                &&& forall|j: int|
                    at < j < upto ==> state.answered.contains(
                        (#[trigger] messages[j])->ToolResult_0.tool_call_id,
                    )
            };
        assert(calls_answered(messages, at));
        assert forall|c: int| 0 <= c < state.pending.len() implies state.answered.contains(
            (#[trigger] state.pending[c]).id,
        ) by {
            let id = state.pending[c].id;
            assert(answered_after(messages, at, id));
            let j = choose|j: int|
                at < j < messages.len() && is_result_for(#[trigger] messages[j], id)
                    && only_results(messages, at, j);
            if j >= upto {
                assert(messages[upto] is ToolResult);
            }
            assert(state.answered.contains(messages[j]->ToolResult_0.tool_call_id));
        }
        lemma_no_orphans(state.pending, state.answered, now);
    }
}

proof fn lemma_mended_in_step(messages: Seq<MessageView>, upto: int, now: i64)
    requires
        every_call_answered(messages),
        0 <= upto <= messages.len(),
    ensures
        mending_in_step(mended(messages.take(upto), now), messages, upto),
    decreases upto,
{
    let prefix = messages.take(upto);
    if upto == 0 {
        assert(mended(prefix, now).result =~= messages.take(0));
    } else {
        lemma_mended_in_step(messages, upto - 1, now);
        assert(prefix.drop_last() =~= messages.take(upto - 1));
        assert(prefix.last() == messages[upto - 1]);
        let state = mended(messages.take(upto - 1), now);
        let message = messages[upto - 1];
        let after = mend_step(state, message, now);
        assert(after == mended(prefix, now));
        match message {
            MessageView::ToolResult(result) => {
                assert(after.result =~= messages.take(upto));
                if after.pending.len() > 0 {
                    let at = choose|at: int|
                        #![trigger messages[at]]
                        {
                            &&& 0 <= at < upto - 1
                            &&& messages[at] is Assistant
                            &&& calls_of(messages[at]->Assistant_0.content) == state.pending
                            &&& only_results(messages, at, upto - 2)
                            &&& forall|j: int|
                                at < j < upto - 1 ==> state.answered.contains(
                                    (#[trigger] messages[j])->ToolResult_0.tool_call_id,
                                )
                        };
                    assert forall|j: int| at < j < upto implies after.answered.contains(
                        (#[trigger] messages[j])->ToolResult_0.tool_call_id,
                    ) by {
                        let id = messages[j]->ToolResult_0.tool_call_id;
                        if j < upto - 1 {
                            let w = choose|w: int|
                                0 <= w < state.answered.len() && state.answered[w] == id;
                            assert(after.answered[w] == id);
                        } else {
                            assert(after.answered[after.answered.len() - 1] == id);
                        }
                    }
                    assert(only_results(messages, at, upto - 1));
                    assert(messages[at] is Assistant);
                }
            },
            _ => {
                lemma_pending_is_answered(state, messages, upto - 1, now);
                assert(after.result =~= messages.take(upto));
                if after.pending.len() > 0 {
                    let at = upto - 1;
                    assert(messages[at] is Assistant);
                    assert(only_results(messages, at, upto - 1));
                }
            },
        }
    }
}

/// The second pass leaves a conversation as it is where every tool call in it
/// is answered: no further synthetic result is added.
pub proof fn lemma_answered_conversation_stays(messages: Seq<MessageView>, now: i64)
    requires
        every_call_answered(messages),
    ensures
        with_synthetic_results(messages, now) == messages,
{
    let n = messages.len() as int;
    lemma_mended_in_step(messages, n, now);
    assert(messages.take(n) =~= messages);
    let state = mended(messages, now);
    lemma_pending_is_answered(state, messages, n, now);
    assert(state.result + Seq::<MessageView>::empty() =~= messages);
}

/// Rewriting a conversation for a model and rewriting the result for that
/// model again gives the same conversation as rewriting it once, where the
/// normalizer is idempotent: no message is dropped or added the second time,
/// no block changes, and no tool-call id changes again.
pub proof fn lemma_transform_idempotent(
    messages: Seq<MessageView>,
    target: TargetModelView,
    normalizer: Option<Normalizer>,
    now: i64,
    again: i64,
)
    requires
        idempotent_if_given(normalizer, target),
    ensures
        transformed(transformed(messages, target, normalizer, now), target, normalizer, again)
            == transformed(messages, target, normalizer, now),
{
    let first = messages_step(messages, target, normalizer, Seq::empty()).0;
    let once = transformed(messages, target, normalizer, now);
    lemma_first_pass_settles(messages, target, normalizer, Seq::empty());
    lemma_mended_stays_settled(first, target, normalizer, now);
    lemma_settled_conversation_stays(once, target, normalizer);
    lemma_synthetic_results_answer_every_call(first, now);
    lemma_answered_conversation_stays(once, again);
}

} // verus!
