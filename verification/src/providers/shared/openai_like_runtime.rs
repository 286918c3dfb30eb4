//! The frame of a stream: the message a stream starts from and its terminal
//! events.

use vstd::prelude::*;
use crate::error::{error_text, Error, ErrorView};
use crate::providers::shared::stream_blocks::in_sync;
use crate::providers::shared::timestamp::unix_timestamp_millis;
use crate::providers::shared::trace::{fits, lemma_replay_push, replay, well_formed};
use crate::types::api::{provider_name, Api, Provider};
use crate::types::content::ContentView;
use crate::types::event::{AssistantMessageEvent, EventView, StopReasonError, StopReasonSuccess};
use crate::types::event_stream::{slot_after, EventStreamSender};
use crate::types::message::{AssistantMessage, AssistantMessageView};
use crate::types::options::OpenAICompletionsOptions;
use crate::types::usage::{StopReason, Usage};

verus! {

/// The message a stream starts from: no content, no usage, stop reason `Stop`.
pub open spec fn fresh_output(
    api: Api,
    provider: Provider,
    model: String,
    timestamp: i64,
) -> AssistantMessageView {
    AssistantMessageView {
        content: Seq::empty(),
        api,
        provider: provider.deep_view(),
        model: model@,
        usage: Usage { input: 0, output: 0, cache_read: 0, cache_write: 0, total_tokens: 0 },
        stop_reason: StopReason::Stop,
        error_message: None,
        timestamp,
    }
}

/// The message a stream starts from, stamped with the given time.
pub fn output_at(api: Api, provider: Provider, model: String, timestamp: i64) -> (output:
    AssistantMessage)
    ensures
        output.deep_view() == fresh_output(api, provider, model, timestamp),
{
    let content = Vec::new();
    assert(content.deep_view() =~= Seq::<ContentView>::empty());
    AssistantMessage {
        content,
        api,
        provider,
        model,
        usage: Usage::default(),
        stop_reason: StopReason::Stop,
        error_message: None,
        timestamp,
    }
}

/// The message a stream starts from, stamped with the current time.
pub fn initialize_output(api: Api, provider: Provider, model: String) -> (output: AssistantMessage)
    ensures
        output.deep_view() == fresh_output(api, provider, model, output.timestamp),
{
    output_at(api, provider, model, unix_timestamp_millis())
}

/// The success reason a stop reason is reported as: `error` and `aborted`
/// count as a plain stop.
pub open spec fn done_reason(stop_reason: StopReason) -> StopReasonSuccess {
    match stop_reason {
        StopReason::Stop => StopReasonSuccess::Stop,
        StopReason::Length => StopReasonSuccess::Length,
        StopReason::ToolUse => StopReasonSuccess::ToolUse,
        _ => StopReasonSuccess::Stop,
    }
}

/// The success reason a stop reason is reported as.
pub fn done_reason_from_stop_reason(stop_reason: StopReason) -> (reason: StopReasonSuccess)
    ensures
        reason == done_reason(stop_reason),
{
    match stop_reason {
        StopReason::Stop => StopReasonSuccess::Stop,
        StopReason::Length => StopReasonSuccess::Length,
        StopReason::ToolUse => StopReasonSuccess::ToolUse,
        _ => StopReasonSuccess::Stop,
    }
}

/// `output` marked as failed with the given error text.
pub open spec fn failed_output(
    output: AssistantMessageView,
    message: Seq<char>,
) -> AssistantMessageView {
    AssistantMessageView {
        content: output.content,
        api: output.api,
        provider: output.provider,
        model: output.model,
        usage: output.usage,
        stop_reason: StopReason::Error,
        error_message: Some(message),
        timestamp: output.timestamp,
    }
}

/// Whether `sender` is `before` with `event` pushed.
pub open spec fn pushed(
    before: EventStreamSender,
    sender: EventStreamSender,
    event: EventView,
) -> bool {
    &&& sender.history() == before.history().push(event)
    &&& sender.queued() == before.queued().push(event)
    &&& sender.result_slot() == slot_after(before.result_slot(), event)
}

/// Pushes `Start` with the message as it stands.
pub fn push_stream_start(output: &AssistantMessage, sender: &mut EventStreamSender)
    ensures
        pushed(*old(sender), *final(sender), EventView::Start { partial: output.deep_view() }),
        old(sender).history().len() == 0 && output.deep_view().content.len() == 0 ==> in_sync(
            final(sender).history(),
            output.deep_view(),
            None,
        ),
{
    sender.push(AssistantMessageEvent::Start { partial: output.clone() });
    proof {
        let event = EventView::Start { partial: output.deep_view() };
        lemma_replay_push(old(sender).history(), event);
        if old(sender).history().len() == 0 && output.deep_view().content.len() == 0 {
            assert(output.deep_view().content =~= Seq::<ContentView>::empty());
        }
    }
}

/// Ends a stream in failure: marks the message with stop reason `Error` and
/// the error's text, and pushes `Error` with the message.
pub fn push_stream_error(
    output: &mut AssistantMessage,
    sender: &mut EventStreamSender,
    error: &Error,
)
    ensures
        final(output).deep_view() == failed_output(
            old(output).deep_view(),
            error_text(error.deep_view()),
        ),
        pushed(
            *old(sender),
            *final(sender),
            EventView::Error { reason: StopReasonError::Error, error: final(output).deep_view() },
        ),
        replay(old(sender).history()).ok && !replay(old(sender).history()).terminated && replay(
            old(sender).history(),
        ).content == old(output).deep_view().content ==> well_formed(final(sender).history())
            && replay(final(sender).history()).terminated,
{
    output.stop_reason = StopReason::Error;
    output.error_message = Some(error.to_string());
    sender.push(
        AssistantMessageEvent::Error { reason: StopReasonError::Error, error: output.clone() },
    );
    proof {
        let event = EventView::Error {
            reason: StopReasonError::Error,
            error: output.deep_view(),
        };
        lemma_replay_push(old(sender).history(), event);
    }
}

/// Ends a stream in success: pushes `Done` with the message and the success
/// reason its stop reason is reported as.
pub fn push_stream_done(output: &AssistantMessage, sender: &mut EventStreamSender)
    ensures
        pushed(
            *old(sender),
            *final(sender),
            EventView::Done {
                reason: done_reason(output.stop_reason),
                message: output.deep_view(),
            },
        ),
        in_sync(old(sender).history(), output.deep_view(), None) ==> well_formed(
            final(sender).history(),
        ) && replay(final(sender).history()).terminated,
{
    sender.push(
        AssistantMessageEvent::Done {
            reason: done_reason_from_stop_reason(output.stop_reason),
            message: output.clone(),
        },
    );
    proof {
        let event = EventView::Done {
            reason: done_reason(output.stop_reason),
            message: output.deep_view(),
        };
        lemma_replay_push(old(sender).history(), event);
    }
}

/// The API key a driver runs with: the one in the options. A driver that is
/// handed none fails with `NoApiKey` for the model's provider.
pub fn require_api_key(options: &OpenAICompletionsOptions, provider: &Provider) -> (key: Result<
    String,
    Error,
>)
    ensures
        match options.api_key {
            Some(given) => key.is_ok() && key.unwrap()@ == given@,
            None => key.is_err() && key.unwrap_err().deep_view() == ErrorView::NoApiKey(
                provider_name(provider.deep_view()),
            ),
        },
{
    match &options.api_key {
        Some(given) => Ok(given.clone()),
        None => Err(Error::NoApiKey(provider.to_string())),
    }
}

/// Whether a status code says that the request succeeded: 200 to 299.
pub open spec fn is_success(status_code: u16) -> bool {
    200 <= status_code < 300
}

/// Whether a status code says that the request succeeded.
pub fn status_is_success(status_code: u16) -> (success: bool)
    ensures
        success == is_success(status_code),
{
    200 <= status_code && status_code < 300
}

/// The error that an endpoint's answer amounts to: none for a status from 200
/// to 299, and otherwise `ApiError` with the status and the body as it came.
pub fn response_error(status_code: u16, body: String) -> (error: Option<Error>)
    ensures
        error.deep_view() == if is_success(status_code) {
            None
        } else {
            Some(ErrorView::ApiError { status_code, message: body@ })
        },
{
    if status_is_success(status_code) {
        None
    } else {
        Some(Error::ApiError { status_code, message: body })
    }
}

} // verus!
