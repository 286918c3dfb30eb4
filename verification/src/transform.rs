//! Rewriting a conversation for another model.
//!
//! A conversation recorded with one model is made fit for another in two
//! passes. The first drops the turns that failed, turns thinking into text
//! where the target is not the model that thought, strips signatures that only
//! their own model can read, and rewrites tool-call ids where a normalizer is
//! given. The second answers every tool call that was left without a result
//! with a synthetic error result, so that the conversation can go on.

use vstd::prelude::*;
use crate::providers::shared::timestamp::unix_timestamp_millis;
use crate::transform_laws::{
    every_call_answered, lemma_mending_keeps_no_failed, lemma_surviving_turns_push,
    lemma_synthetic_results_answer_every_call, lemma_synthetic_results_keep_turns,
    no_failed_turn, surviving_turns, turn_kept,
};
use crate::types::api::{Api, Provider, ProviderView};
use crate::types::content::{
    text_block, Content, ContentView, TextContent, TextContentView, ThinkingContentView, ToolCall,
    ToolCallView,
};
use crate::types::message::{
    AssistantMessage, AssistantMessageView, Message, MessageView, ToolResultContent,
    ToolResultContentView, ToolResultMessage, ToolResultMessageView,
};
use crate::types::tool_call_id::ToolCallId;
use crate::types::usage::StopReason;
use crate::utils::text::{is_blank, str_is_blank};

verus! {

/// The model a conversation is rewritten for.
#[derive(Debug)]
pub struct TargetModel {
    pub api: Api,
    pub provider: Provider,
    pub model_id: String,
}

/// What a value of [`TargetModel`] says, with strings as character sequences.
pub struct TargetModelView {
    pub api: Api,
    pub provider: ProviderView,
    pub model_id: Seq<char>,
}

impl DeepView for TargetModel {
    type V = TargetModelView;

    open spec fn deep_view(&self) -> TargetModelView {
        TargetModelView {
            api: self.api,
            provider: self.provider.deep_view(),
            model_id: self.model_id@,
        }
    }
}

impl Clone for TargetModel {
    fn clone(&self) -> (copy: Self)
        ensures
            copy.deep_view() == self.deep_view(),
    {
        TargetModel {
            api: self.api,
            provider: self.provider.clone(),
            model_id: self.model_id.clone(),
        }
    }
}

/// A tool-call-id normalizer as a function of what it is given.
pub type Normalizer = spec_fn(Seq<char>, TargetModelView, AssistantMessageView) -> Seq<char>;

/// The rewrites of tool-call ids recorded so far, oldest first. Where an id was
/// rewritten more than once, the latest rewrite counts.
pub type IdRewrites = Seq<(Seq<char>, Seq<char>)>;

/// What `id` was last rewritten to, if it was rewritten.
pub open spec fn rewritten(rewrites: IdRewrites, id: Seq<char>) -> Option<Seq<char>>
    decreases rewrites.len(),
{
    if rewrites.len() == 0 {
        None
    } else if rewrites.last().0 == id {
        Some(rewrites.last().1)
    } else {
        rewritten(rewrites.drop_last(), id)
    }
}

/// Whether an assistant message was produced by the target model: same
/// provider, same dialect, same model id.
pub open spec fn same_model(assistant: AssistantMessageView, target: TargetModelView) -> bool {
    assistant.provider == target.provider && assistant.api == target.api && assistant.model
        == target.model_id
}

/// Whether a turn failed.
pub open spec fn failed(stop_reason: StopReason) -> bool {
    stop_reason == StopReason::Error || stop_reason == StopReason::Aborted
}

/// What becomes of a thinking block.
///
/// For the model that thought, a block with a signature is kept as it is. A
/// block of whitespace is dropped otherwise. What is left is kept as it is for
/// the model that thought, and becomes a plain text block for any other.
pub open spec fn thinking_step(
    thinking: Seq<char>,
    signature: Option<Seq<char>>,
    same: bool,
) -> Option<ContentView> {
    let kept = Some(
        ContentView::Thinking(
            ThinkingContentView { thinking, thinking_signature: signature },
        ),
    );
    if same && signature.is_some() {
        kept
    } else if is_blank(thinking) {
        None
    } else if same {
        kept
    } else {
        Some(text_block(thinking))
    }
}

/// The id a tool call gets: for another model and with a normalizer, what the
/// normalizer makes of the id; the id itself otherwise.
pub open spec fn call_id_step(
    id: Seq<char>,
    same: bool,
    target: TargetModelView,
    assistant: AssistantMessageView,
    normalizer: Option<Normalizer>,
) -> Seq<char> {
    if !same && normalizer.is_some() {
        (normalizer.unwrap())(id, target, assistant)
    } else {
        id
    }
}

/// What becomes of one content block, and of the recorded rewrites.
///
/// Text loses its signature for another model. A tool call loses its thought
/// signature for another model and gets its id normalized; a rewrite is
/// recorded where the id changes. Images stay as they are.
pub open spec fn block_step(
    block: ContentView,
    same: bool,
    target: TargetModelView,
    assistant: AssistantMessageView,
    normalizer: Option<Normalizer>,
    rewrites: IdRewrites,
) -> (Option<ContentView>, IdRewrites) {
    match block {
        ContentView::Thinking(inner) => (
            thinking_step(inner.thinking, inner.thinking_signature, same),
            rewrites,
        ),
        ContentView::Text(inner) => if same {
            (Some(block), rewrites)
        } else {
            (Some(text_block(inner.text)), rewrites)
        },
        ContentView::ToolCall(call) => {
            let id = call_id_step(call.id, same, target, assistant, normalizer);
            (
                Some(
                    ContentView::ToolCall(
                        ToolCallView {
                            id,
                            name: call.name,
                            arguments: call.arguments,
                            thought_signature: if same {
                                call.thought_signature
                            } else {
                                None
                            },
                        },
                    ),
                ),
                if id != call.id {
                    rewrites.push((call.id, id))
                } else {
                    rewrites
                },
            )
        },
        ContentView::Image(_) => (Some(block), rewrites),
    }
}

/// The blocks of one assistant message in order, with the rewrites threaded
/// through.
pub open spec fn blocks_step(
    content: Seq<ContentView>,
    same: bool,
    target: TargetModelView,
    assistant: AssistantMessageView,
    normalizer: Option<Normalizer>,
    rewrites: IdRewrites,
) -> (Seq<ContentView>, IdRewrites)
    decreases content.len(),
{
    if content.len() == 0 {
        (Seq::empty(), rewrites)
    } else {
        let front = blocks_step(content.drop_last(), same, target, assistant, normalizer, rewrites);
        let last = block_step(content.last(), same, target, assistant, normalizer, front.1);
        match last.0 {
            Some(block) => (front.0.push(block), last.1),
            None => (front.0, last.1),
        }
    }
}

/// `assistant` with another content list.
pub open spec fn assistant_with(
    assistant: AssistantMessageView,
    content: Seq<ContentView>,
) -> AssistantMessageView {
    AssistantMessageView {
        content,
        api: assistant.api,
        provider: assistant.provider,
        model: assistant.model,
        usage: assistant.usage,
        stop_reason: assistant.stop_reason,
        error_message: assistant.error_message,
        timestamp: assistant.timestamp,
    }
}

/// `result` answering another id.
pub open spec fn result_for(result: ToolResultMessageView, id: Seq<char>) -> ToolResultMessageView {
    ToolResultMessageView {
        tool_call_id: id,
        tool_name: result.tool_name,
        content: result.content,
        details: result.details,
        is_error: result.is_error,
        timestamp: result.timestamp,
    }
}

/// What becomes of one message, and of the recorded rewrites.
///
/// A user message stays as it is. A tool result follows its call where the
/// call's id was rewritten. An assistant message is dropped where its turn
/// failed; otherwise its blocks are transformed in order.
pub open spec fn message_step(
    message: MessageView,
    target: TargetModelView,
    normalizer: Option<Normalizer>,
    rewrites: IdRewrites,
) -> (Option<MessageView>, IdRewrites) {
    match message {
        MessageView::User(_) => (Some(message), rewrites),
        MessageView::ToolResult(result) => (
            Some(
                MessageView::ToolResult(
                    match rewritten(rewrites, result.tool_call_id) {
                        Some(id) => result_for(result, id),
                        None => result,
                    },
                ),
            ),
            rewrites,
        ),
        MessageView::Assistant(assistant) => if failed(assistant.stop_reason) {
            (None, rewrites)
        } else {
            let blocks = blocks_step(
                assistant.content,
                same_model(assistant, target),
                target,
                assistant,
                normalizer,
                rewrites,
            );
            (Some(MessageView::Assistant(assistant_with(assistant, blocks.0))), blocks.1)
        },
    }
}

/// The first pass: every message transformed in order, with the rewrites
/// threaded through.
pub open spec fn messages_step(
    messages: Seq<MessageView>,
    target: TargetModelView,
    normalizer: Option<Normalizer>,
    rewrites: IdRewrites,
) -> (Seq<MessageView>, IdRewrites)
    decreases messages.len(),
{
    if messages.len() == 0 {
        (Seq::empty(), rewrites)
    } else {
        let front = messages_step(messages.drop_last(), target, normalizer, rewrites);
        let last = message_step(messages.last(), target, normalizer, front.1);
        match last.0 {
            Some(message) => (front.0.push(message), last.1),
            None => (front.0, last.1),
        }
    }
}

/// The tool calls among content blocks, in order.
pub open spec fn calls_of(content: Seq<ContentView>) -> Seq<ToolCallView>
    decreases content.len(),
{
    if content.len() == 0 {
        Seq::empty()
    } else {
        let front = calls_of(content.drop_last());
        match content.last() {
            ContentView::ToolCall(call) => front.push(call),
            _ => front,
        }
    }
}

/// The result that stands in for a missing one: an error saying that no result
/// was provided, under the call's id and name.
pub open spec fn synthetic_result(call: ToolCallView, now: i64) -> MessageView {
    MessageView::ToolResult(
        ToolResultMessageView {
            tool_call_id: call.id,
            tool_name: call.name,
            content: Seq::empty().push(
                ToolResultContentView::Text(
                    TextContentView { text: "No result provided"@, text_signature: None },
                ),
            ),
            details: None,
            is_error: true,
            timestamp: now,
        },
    )
}

/// Synthetic results for the pending calls that no result answered, in the
/// order of the calls.
pub open spec fn orphan_results(
    pending: Seq<ToolCallView>,
    answered: Seq<Seq<char>>,
    now: i64,
) -> Seq<MessageView>
    decreases pending.len(),
{
    if pending.len() == 0 {
        Seq::empty()
    } else {
        let front = orphan_results(pending.drop_last(), answered, now);
        if answered.contains(pending.last().id) {
            front
        } else {
            front.push(synthetic_result(pending.last(), now))
        }
    }
}

/// Where the second pass stands: the messages put out so far, the tool calls
/// of the latest assistant message, and the ids that results have answered
/// since.
pub struct Mending {
    pub result: Seq<MessageView>,
    pub pending: Seq<ToolCallView>,
    pub answered: Seq<Seq<char>>,
}

/// One message of the second pass. An assistant or a user message is a
/// boundary: the pending calls that are unanswered get their synthetic results
/// in front of it. An assistant message then makes its own calls pending.
pub open spec fn mend_step(state: Mending, message: MessageView, now: i64) -> Mending {
    match message {
        MessageView::Assistant(assistant) => Mending {
            result: (state.result + orphan_results(state.pending, state.answered, now)).push(
                message,
            ),
            pending: calls_of(assistant.content),
            answered: Seq::empty(),
        },
        MessageView::ToolResult(result) => Mending {
            result: state.result.push(message),
            pending: state.pending,
            answered: state.answered.push(result.tool_call_id),
        },
        MessageView::User(_) => Mending {
            result: (state.result + orphan_results(state.pending, state.answered, now)).push(
                message,
            ),
            pending: Seq::empty(),
            answered: Seq::empty(),
        },
    }
}

/// The second pass over all messages but for the final flush.
pub open spec fn mended(messages: Seq<MessageView>, now: i64) -> Mending
    decreases messages.len(),
{
    if messages.len() == 0 {
        Mending { result: Seq::empty(), pending: Seq::empty(), answered: Seq::empty() }
    } else {
        mend_step(mended(messages.drop_last(), now), messages.last(), now)
    }
}

/// The second pass: the messages with a synthetic result inserted for every
/// tool call that was left unanswered at the next boundary or at the end.
pub open spec fn with_synthetic_results(messages: Seq<MessageView>, now: i64) -> Seq<MessageView> {
    let state = mended(messages, now);
    state.result + orphan_results(state.pending, state.answered, now)
}

/// The conversation rewritten for `target`, with synthetic results stamped
/// `now`.
pub open spec fn transformed(
    messages: Seq<MessageView>,
    target: TargetModelView,
    normalizer: Option<Normalizer>,
    now: i64,
) -> Seq<MessageView> {
    with_synthetic_results(messages_step(messages, target, normalizer, Seq::empty()).0, now)
}

/// Whether `normalizer` says what the given function returns: whatever the
/// function may return for some arguments is what `normalizer` gives for them.
pub open spec fn describes<F: Fn(&str, &TargetModel, &AssistantMessage) -> String>(
    normalize: Option<&F>,
    normalizer: Option<Normalizer>,
) -> bool {
    match normalize {
        None => normalizer.is_none(),
        Some(f) => normalizer.is_some() && forall|
            id: &str,
            target: &TargetModel,
            assistant: &AssistantMessage,
            result: String,
        | #[trigger]
            f.ensures((id, target, assistant), result) ==> result@ == (normalizer.unwrap())(
                id@,
                target.deep_view(),
                assistant.deep_view(),
            ),
    }
}

/// The function an option holds, borrowed.
pub open spec fn borrowed<F>(normalize: &Option<F>) -> Option<&F> {
    match normalize {
        Some(f) => Some(f),
        None => None,
    }
}

/// Whether the given function may be called on everything.
pub open spec fn callable<F: Fn(&str, &TargetModel, &AssistantMessage) -> String>(
    normalize: Option<&F>,
) -> bool {
    match normalize {
        None => true,
        Some(f) => forall|id: &str, target: &TargetModel, assistant: &AssistantMessage|
            #[trigger] f.requires((id, target, assistant)),
    }
}

/// Whether an assistant message was produced by the target model.
pub fn is_same_model_provider(msg: &AssistantMessage, target: &TargetModel) -> (same: bool)
    ensures
        same == same_model(msg.deep_view(), target.deep_view()),
{
    msg.provider == target.provider && msg.api == target.api && msg.model == target.model_id
}

/// What `id` was last rewritten to, if it was rewritten.
fn lookup_rewrite(id_map: &Vec<(ToolCallId, ToolCallId)>, id: &ToolCallId) -> (found: Option<
    ToolCallId,
>)
    ensures
        found.deep_view() == rewritten(id_map.deep_view(), id@),
{
    let ghost pairs = id_map.deep_view();
    let mut i: usize = id_map.len();
    assert(pairs.take(i as int) =~= pairs);
    while i > 0
        invariant
            i <= id_map.len(),
            pairs == id_map.deep_view(),
            rewritten(pairs, id@) == rewritten(pairs.take(i as int), id@),
        decreases i,
    {
        proof {
            assert(pairs.take(i as int).drop_last() =~= pairs.take(i - 1));
            assert(pairs.take(i as int).last() == id_map[i - 1].deep_view());
        }
        if id_map[i - 1].0 == *id {
            return Some(id_map[i - 1].1.clone());
        }
        i -= 1;
    }
    proof {
        assert(pairs.take(0).len() == 0);
    }
    None
}

/// Transforms one content block.
pub fn transform_content_block<F: Fn(&str, &TargetModel, &AssistantMessage) -> String>(
    block: &Content,
    is_same_model: bool,
    target: &TargetModel,
    assistant: &AssistantMessage,
    normalize_fn: Option<&F>,
    id_map: &mut Vec<(ToolCallId, ToolCallId)>,
) -> (transformed: Option<Content>)
    requires
        callable(normalize_fn),
    ensures
        forall|normalizer: Option<Normalizer>| #[trigger]
            describes(normalize_fn, normalizer) ==> (
                transformed.deep_view(),
                final(id_map).deep_view(),
            ) == block_step(
                block.deep_view(),
                is_same_model,
                target.deep_view(),
                assistant.deep_view(),
                normalizer,
                old(id_map).deep_view(),
            ),
{
    match block {
        Content::Thinking { inner } => {
            if is_same_model && inner.thinking_signature.is_some() {
                return Some(block.clone());
            }
            if str_is_blank(inner.thinking.as_str()) {
                return None;
            }
            if is_same_model {
                return Some(block.clone());
            }
            Some(Content::text(inner.thinking.as_str()))
        },
        Content::Text { inner } => {
            if is_same_model {
                Some(block.clone())
            } else {
                Some(
                    Content::Text {
                        inner: TextContent { text: inner.text.clone(), text_signature: None },
                    },
                )
            }
        },
        Content::ToolCall { inner } => {
            let mut new_call = inner.clone();
            if !is_same_model {
                new_call.thought_signature = None;
            }
            if !is_same_model {
                if let Some(normalize) = normalize_fn {
                    let normalized_id = ToolCallId(normalize(inner.id.as_str(), target, assistant));
                    if normalized_id != inner.id {
                        let ghost before = id_map.deep_view();
                        id_map.push((inner.id.clone(), normalized_id.clone()));
                        assert(id_map.deep_view() =~= before.push((inner.id@, normalized_id@)));
                        new_call.id = normalized_id;
                    }
                }
            }
            Some(Content::ToolCall { inner: new_call })
        },
        Content::Image { .. } => Some(block.clone()),
    }
}

/// Transforms one message.
pub fn transform_message<F: Fn(&str, &TargetModel, &AssistantMessage) -> String>(
    msg: &Message,
    target: &TargetModel,
    normalize_fn: Option<&F>,
    id_map: &mut Vec<(ToolCallId, ToolCallId)>,
) -> (transformed: Option<Message>)
    requires
        callable(normalize_fn),
    ensures
        forall|normalizer: Option<Normalizer>| #[trigger]
            describes(normalize_fn, normalizer) ==> (
                transformed.deep_view(),
                final(id_map).deep_view(),
            ) == message_step(
                msg.deep_view(),
                target.deep_view(),
                normalizer,
                old(id_map).deep_view(),
            ),
        match transformed {
            Some(Message::Assistant(assistant)) => !failed(assistant.stop_reason),
            _ => true,
        },
        turn_kept(msg.deep_view(), transformed.deep_view()),
{
    match msg {
        Message::User(user) => Some(Message::User(user.clone())),
        Message::ToolResult(result) => {
            let tool_call_id = match lookup_rewrite(id_map, &result.tool_call_id) {
                Some(id) => id,
                None => result.tool_call_id.clone(),
            };
            let copy = result.clone();
            Some(
                Message::ToolResult(
                    ToolResultMessage {
                        tool_call_id,
                        tool_name: copy.tool_name,
                        content: copy.content,
                        details: copy.details,
                        is_error: copy.is_error,
                        timestamp: copy.timestamp,
                    },
                ),
            )
        },
        Message::Assistant(assistant) => {
            if assistant.stop_reason == StopReason::Error || assistant.stop_reason
                == StopReason::Aborted {
                return None;
            }
            let is_same_model = is_same_model_provider(assistant, target);
            let ghost views = assistant.content.deep_view();
            let mut content: Vec<Content> = Vec::new();
            assert(content.deep_view() =~= Seq::<ContentView>::empty());
            let mut i: usize = 0;
            while i < assistant.content.len()
                invariant
                    i <= assistant.content.len(),
                    callable(normalize_fn),
                    views == assistant.content.deep_view(),
                    forall|normalizer: Option<Normalizer>| #[trigger]
                        describes(normalize_fn, normalizer) ==> (
                            content.deep_view(),
                            id_map.deep_view(),
                        ) == blocks_step(
                            views.take(i as int),
                            is_same_model,
                            target.deep_view(),
                            assistant.deep_view(),
                            normalizer,
                            old(id_map).deep_view(),
                        ),
                decreases assistant.content.len() - i,
            {
                let ghost before = content.deep_view();
                let ghost map_before = id_map.deep_view();
                let block = transform_content_block(
                    &assistant.content[i],
                    is_same_model,
                    target,
                    assistant,
                    normalize_fn,
                    id_map,
                );
                let ghost block_view = block.deep_view();
                if let Some(block) = block {
                    content.push(block);
                    assert(content.deep_view() =~= before.push(block_view.unwrap()));
                }
                proof {
                    assert(views.take(i + 1).drop_last() =~= views.take(i as int));
                    assert(views.take(i + 1).last() == assistant.content[i as int].deep_view());
                    assert forall|normalizer: Option<Normalizer>| #[trigger]
                        describes(normalize_fn, normalizer) implies (
                        content.deep_view(),
                        id_map.deep_view(),
                    ) == blocks_step(
                        views.take(i + 1),
                        is_same_model,
                        target.deep_view(),
                        assistant.deep_view(),
                        normalizer,
                        old(id_map).deep_view(),
                    ) by {
                        let front = blocks_step(
                            views.take(i as int),
                            is_same_model,
                            target.deep_view(),
                            assistant.deep_view(),
                            normalizer,
                            old(id_map).deep_view(),
                        );
                        assert(front == (before, map_before));
                    }
                }
                i += 1;
            }
            assert(views.take(assistant.content.len() as int) =~= views);
            Some(
                Message::Assistant(
                    AssistantMessage {
                        content,
                        api: assistant.api,
                        provider: assistant.provider.clone(),
                        model: assistant.model.clone(),
                        usage: assistant.usage,
                        stop_reason: assistant.stop_reason,
                        error_message: assistant.error_message.clone(),
                        timestamp: assistant.timestamp,
                    },
                ),
            )
        },
    }
}

/// The views of tool-call ids.
pub open spec fn id_views(ids: Seq<ToolCallId>) -> Seq<Seq<char>> {
    ids.map_values(|id: ToolCallId| id@)
}

/// Whether `id` is among `ids`.
fn contains_id(ids: &Vec<ToolCallId>, id: &ToolCallId) -> (found: bool)
    ensures
        found == ids.deep_view().contains(id@),
{
    let ghost views = ids.deep_view();
    let mut i: usize = 0;
    while i < ids.len()
        invariant
            i <= ids.len(),
            views == ids.deep_view(),
            forall|j: int| 0 <= j < i ==> views[j] != id@,
        decreases ids.len() - i,
    {
        if ids[i] == *id {
            assert(views[i as int] == id@);
            return true;
        }
        i += 1;
    }
    false
}

/// Appends a message.
fn push_message(messages: &mut Vec<Message>, message: Message)
    ensures
        final(messages).deep_view() == old(messages).deep_view().push(message.deep_view()),
{
    let ghost view = message.deep_view();
    messages.push(message);
    assert(messages.deep_view() =~= old(messages).deep_view().push(view));
}

/// The result that stands in for a missing one.
fn synthetic_result_for(call: &ToolCall, now: i64) -> (message: Message)
    ensures
        message.deep_view() == synthetic_result(call.deep_view(), now),
{
    let mut content: Vec<ToolResultContent> = Vec::new();
    content.push(
        ToolResultContent::Text(
            TextContent { text: "No result provided".to_owned(), text_signature: None },
        ),
    );
    assert(content.deep_view() =~= Seq::empty().push(
        ToolResultContentView::Text(
            TextContentView { text: "No result provided"@, text_signature: None },
        ),
    ));
    Message::ToolResult(
        ToolResultMessage {
            tool_call_id: call.id.clone(),
            tool_name: call.name.clone(),
            content,
            details: None,
            is_error: true,
            timestamp: now,
        },
    )
}

/// Appends a synthetic result for every pending call that no result answered.
pub fn insert_orphaned_results(
    result: &mut Vec<Message>,
    pending: &Vec<ToolCall>,
    existing: &Vec<ToolCallId>,
    now: i64,
)
    ensures
        final(result).deep_view() == old(result).deep_view() + orphan_results(
            pending.deep_view(),
            existing.deep_view(),
            now,
        ),
{
    let ghost calls = pending.deep_view();
    let ghost answered = existing.deep_view();
    let ghost start = result.deep_view();
    assert(start + Seq::<MessageView>::empty() =~= start);
    let mut i: usize = 0;
    while i < pending.len()
        invariant
            i <= pending.len(),
            calls == pending.deep_view(),
            answered == existing.deep_view(),
            result.deep_view() == start + orphan_results(calls.take(i as int), answered, now),
        decreases pending.len() - i,
    {
        proof {
            assert(calls.take(i + 1).drop_last() =~= calls.take(i as int));
            assert(calls.take(i + 1).last() == pending[i as int].deep_view());
        }
        let ghost front = orphan_results(calls.take(i as int), answered, now);
        if !contains_id(existing, &pending[i].id) {
            let synthetic = synthetic_result_for(&pending[i], now);
            let ghost view = synthetic.deep_view();
            push_message(result, synthetic);
            assert((start + front).push(view) =~= start + front.push(view));
        }
        i += 1;
    }
    assert(calls.take(pending.len() as int) =~= calls);
}

/// The tool calls of an assistant message, in order.
fn tool_calls_of(assistant: &AssistantMessage) -> (calls: Vec<ToolCall>)
    ensures
        calls.deep_view() == calls_of(assistant.deep_view().content),
{
    let ghost views = assistant.content.deep_view();
    let mut calls: Vec<ToolCall> = Vec::new();
    assert(calls.deep_view() =~= Seq::<ToolCallView>::empty());
    let mut i: usize = 0;
    while i < assistant.content.len()
        invariant
            i <= assistant.content.len(),
            views == assistant.content.deep_view(),
            calls.deep_view() == calls_of(views.take(i as int)),
        decreases assistant.content.len() - i,
    {
        proof {
            assert(views.take(i + 1).drop_last() =~= views.take(i as int));
            assert(views.take(i + 1).last() == assistant.content[i as int].deep_view());
        }
        if let Content::ToolCall { inner } = &assistant.content[i] {
            let ghost before = calls.deep_view();
            calls.push(inner.clone());
            assert(calls.deep_view() =~= before.push(inner.deep_view()));
        }
        i += 1;
    }
    assert(views.take(assistant.content.len() as int) =~= views);
    calls
}

/// The second pass: inserts a synthetic error result, stamped `now`, for every
/// tool call that is still unanswered when the next assistant or user message
/// comes, or when the conversation ends.
pub fn insert_synthetic_tool_results(messages: Vec<Message>, now: i64) -> (result: Vec<Message>)
    ensures
        result.deep_view() == with_synthetic_results(messages.deep_view(), now),
        every_call_answered(result.deep_view()),
        no_failed_turn(messages.deep_view()) ==> no_failed_turn(result.deep_view()),
        surviving_turns(result.deep_view()) == surviving_turns(messages.deep_view()),
{
    proof {
        lemma_synthetic_results_keep_turns(messages.deep_view(), now);
        lemma_synthetic_results_answer_every_call(messages.deep_view(), now);
        if no_failed_turn(messages.deep_view()) {
            lemma_mending_keeps_no_failed(messages.deep_view(), now);
        }
    }
    let ghost views = messages.deep_view();
    let mut result: Vec<Message> = Vec::new();
    let mut pending_tool_calls: Vec<ToolCall> = Vec::new();
    let mut existing_result_ids: Vec<ToolCallId> = Vec::new();
    proof {
        assert(result.deep_view() =~= Seq::<MessageView>::empty());
        assert(pending_tool_calls.deep_view() =~= Seq::<ToolCallView>::empty());
        assert(existing_result_ids.deep_view() =~= Seq::<Seq<char>>::empty());
    }
    let mut i: usize = 0;
    while i < messages.len()
        invariant
            i <= messages.len(),
            views == messages.deep_view(),
            mended(views.take(i as int), now) == (Mending {
                result: result.deep_view(),
                pending: pending_tool_calls.deep_view(),
                answered: existing_result_ids.deep_view(),
            }),
        decreases messages.len() - i,
    {
        proof {
            assert(views.take(i + 1).drop_last() =~= views.take(i as int));
            assert(views.take(i + 1).last() == messages[i as int].deep_view());
        }
        let msg = messages[i].clone();
        match &msg {
            Message::Assistant(assistant) => {
                insert_orphaned_results(
                    &mut result,
                    &pending_tool_calls,
                    &existing_result_ids,
                    now,
                );
                pending_tool_calls = tool_calls_of(assistant);
                existing_result_ids = Vec::new();
                assert(existing_result_ids.deep_view() =~= Seq::<Seq<char>>::empty());
            },
            Message::ToolResult(tool_result) => {
                let ghost before = existing_result_ids.deep_view();
                existing_result_ids.push(tool_result.tool_call_id.clone());
                assert(existing_result_ids.deep_view() =~= before.push(tool_result.tool_call_id@));
            },
            Message::User(_) => {
                insert_orphaned_results(
                    &mut result,
                    &pending_tool_calls,
                    &existing_result_ids,
                    now,
                );
                pending_tool_calls = Vec::new();
                existing_result_ids = Vec::new();
                assert(pending_tool_calls.deep_view() =~= Seq::<ToolCallView>::empty());
                assert(existing_result_ids.deep_view() =~= Seq::<Seq<char>>::empty());
            },
        }
        push_message(&mut result, msg);
        i += 1;
    }
    assert(views.take(messages.len() as int) =~= views);
    insert_orphaned_results(&mut result, &pending_tool_calls, &existing_result_ids, now);
    result
}

/// Rewrites a conversation for `target`, with synthetic results stamped
/// `now`.
pub fn transform_messages_at<F: Fn(&str, &TargetModel, &AssistantMessage) -> String>(
    messages: &[Message],
    target: &TargetModel,
    normalize_tool_call_id: Option<&F>,
    now: i64,
) -> (result: Vec<Message>)
    requires
        callable(normalize_tool_call_id),
    ensures
        forall|normalizer: Option<Normalizer>| #[trigger]
            describes(normalize_tool_call_id, normalizer) ==> result.deep_view() == transformed(
                messages.deep_view(),
                target.deep_view(),
                normalizer,
                now,
            ),
        no_failed_turn(result.deep_view()),
        every_call_answered(result.deep_view()),
        surviving_turns(result.deep_view()) == surviving_turns(messages.deep_view()),
{
    let ghost views = messages.deep_view();
    let mut tool_call_id_map: Vec<(ToolCallId, ToolCallId)> = Vec::new();
    let mut first_pass: Vec<Message> = Vec::new();
    proof {
        assert(tool_call_id_map.deep_view() =~= Seq::<(Seq<char>, Seq<char>)>::empty());
        assert(first_pass.deep_view() =~= Seq::<MessageView>::empty());
    }
    let mut i: usize = 0;
    while i < messages.len()
        invariant
            i <= messages.len(),
            callable(normalize_tool_call_id),
            views == messages.deep_view(),
            no_failed_turn(first_pass.deep_view()),
            surviving_turns(first_pass.deep_view()) == surviving_turns(views.take(i as int)),
            forall|normalizer: Option<Normalizer>| #[trigger]
                describes(normalize_tool_call_id, normalizer) ==> (
                    first_pass.deep_view(),
                    tool_call_id_map.deep_view(),
                ) == messages_step(
                    views.take(i as int),
                    target.deep_view(),
                    normalizer,
                    Seq::empty(),
                ),
        decreases messages.len() - i,
    {
        let ghost before = first_pass.deep_view();
        let ghost map_before = tool_call_id_map.deep_view();
        let message = transform_message(
            &messages[i],
            target,
            normalize_tool_call_id,
            &mut tool_call_id_map,
        );
        proof {
            assert(views.take(i + 1) =~= views.take(i as int).push(views[i as int]));
            assert(views[i as int] == messages[i as int].deep_view());
            lemma_surviving_turns_push(views.take(i as int), views[i as int]);
            if message.is_some() {
                lemma_surviving_turns_push(before, message.unwrap().deep_view());
            }
        }
        if let Some(message) = message {
            push_message(&mut first_pass, message);
            assert forall|k: int| 0 <= k < first_pass.deep_view().len() implies match #[trigger] first_pass.deep_view()[k] {
                MessageView::Assistant(assistant) => !failed(assistant.stop_reason),
                _ => true,
            } by {
                if k < before.len() {
                    assert(first_pass.deep_view()[k] == before[k]);
                }
            }
        }
        proof {
            assert(views.take(i + 1).drop_last() =~= views.take(i as int));
            assert(views.take(i + 1).last() == messages[i as int].deep_view());
            assert forall|normalizer: Option<Normalizer>| #[trigger]
                describes(normalize_tool_call_id, normalizer) implies (
                first_pass.deep_view(),
                tool_call_id_map.deep_view(),
            ) == messages_step(views.take(i + 1), target.deep_view(), normalizer, Seq::empty()) by {
                let front = messages_step(
                    views.take(i as int),
                    target.deep_view(),
                    normalizer,
                    Seq::empty(),
                );
                assert(front == (before, map_before));
            }
        }
        i += 1;
    }
    assert(views.take(messages.len() as int) =~= views);
    insert_synthetic_tool_results(first_pass, now)
}

/// Rewrites a conversation for `target`: drops failed turns, converts thinking
/// blocks, strips foreign signatures, normalizes tool-call ids where a
/// normalizer is given, and answers unanswered tool calls with synthetic
/// error results stamped with the current time.
///
/// Whatever the normalizer does, the result holds no failed assistant turn,
/// holds every other assistant turn with its api, provider, model, usage, stop
/// reason and timestamp, in order, and leaves no tool call unanswered. Where the normalizer is a function of what
/// it is given, the result is exactly the rewritten conversation.
pub fn transform_messages<F: Fn(&str, &TargetModel, &AssistantMessage) -> String>(
    messages: &[Message],
    target: &TargetModel,
    normalize_tool_call_id: Option<F>,
) -> (result: Vec<Message>)
    requires
        callable(borrowed(&normalize_tool_call_id)),
    ensures
        forall|normalizer: Option<Normalizer>| #[trigger]
            describes(borrowed(&normalize_tool_call_id), normalizer) ==> exists|now: i64|
                result.deep_view() == transformed(
                    messages.deep_view(),
                    target.deep_view(),
                    normalizer,
                    now,
                ),
        no_failed_turn(result.deep_view()),
        every_call_answered(result.deep_view()),
        surviving_turns(result.deep_view()) == surviving_turns(messages.deep_view()),
{
    let now = unix_timestamp_millis();
    let result = transform_messages_at(messages, target, normalize_tool_call_id.as_ref(), now);
    proof {
        assert forall|normalizer: Option<Normalizer>| #[trigger]
            describes(borrowed(&normalize_tool_call_id), normalizer) implies exists|now: i64|
            result.deep_view() == transformed(
                messages.deep_view(),
                target.deep_view(),
                normalizer,
                now,
            ) by {
            assert(result.deep_view() == transformed(
                messages.deep_view(),
                target.deep_view(),
                normalizer,
                now,
            ));
        }
    }
    result
}

/// A normalizer that leaves every id as it is.
fn keep_tool_call_id(id: &str, target: &TargetModel, assistant: &AssistantMessage) -> (same: String)
    ensures
        same@ == id@,
{
    id.to_owned()
}

/// No normalizer, of the kind of the given one.
fn no_normalizer<F: Fn(&str, &TargetModel, &AssistantMessage) -> String>(kind: F) -> (none: Option<
    F,
>)
    ensures
        none.is_none(),
{
    None
}

/// Rewrites a conversation for `target` without normalizing tool-call ids.
pub fn transform_messages_simple(messages: &[Message], target: &TargetModel) -> (result: Vec<
    Message,
>)
    ensures
        exists|now: i64|
            result.deep_view() == transformed(
                messages.deep_view(),
                target.deep_view(),
                None,
                now,
            ),
        no_failed_turn(result.deep_view()),
        every_call_answered(result.deep_view()),
        surviving_turns(result.deep_view()) == surviving_turns(messages.deep_view()),
{
    let normalize = no_normalizer(keep_tool_call_id);
    assert(describes(borrowed(&normalize), None));
    transform_messages(messages, target, normalize)
}

} // verus!
