//! The OpenAI-compatible chat-completions dialect.

use vstd::prelude::*;
use crate::providers::shared::chunk::{
    first_reasoning, StreamChunk, StreamChunkView, StreamDelta, StreamDeltaView,
};
use crate::providers::shared::stream_blocks::{
    arrived, blocks_of, continues, handle_reasoning_delta, handle_text_delta, handle_tool_calls,
    in_sync, is_present, lemma_arrived_continues, lemma_continues_through,
    lemma_reasoning_delta_continues,
    lemma_text_delta_continues,
    lemma_tool_calls_continues, map_stop_reason, mapped_stop_reason, openai_usage, present,
    reasoning_delta, settled, text_delta, tool_calls, update_openai_usage_from_chunk,
    with_stop_reason, with_usage, Blocks, CurrentBlock, OpenAiLikeStreamUsage, ReasoningDelta,
};
use crate::types::api::{KnownProvider, Provider, ProviderView};
use crate::types::compat::{
    completions_overrides, no_overrides, MaxTokensField, ModelCompat, OpenAICompletionsCompat,
    ResolvedCompat, ThinkingFormat,
};
use crate::types::event_stream::EventStreamSender;
use crate::providers::shared::openai_like_messages::{
    convert_messages, convert_tools, no_members, push_member, push_text_member, request_messages,
    request_tools, text_member, AssistantThinkingMode, OpenAiLikeMessageOptions, SystemPromptRole,
};
use crate::types::message::{Context, MessageView};
use crate::types::model::{accepts_images, Model, ModelView};
use crate::types::options::{
    effort_name, OpenAICompletionsOptions, ReasoningEffort, ToolChoice, ToolChoiceView,
};
use crate::types::tool::ToolView;
use crate::utils::json_doc::{json_object, json_string, Json, JsonView};
use crate::utils::text::{contains_seq, str_contains};
use crate::types::message::{AssistantMessage, AssistantMessageView};

verus! {

/// `s` with another message.
pub open spec fn with_output(s: Blocks, output: AssistantMessageView) -> Blocks {
    Blocks { output, current: s.current, emitted: s.emitted }
}

/// What a chunk's envelope does before its delta is read: usage from the
/// chunk replaces the message's, and the first choice's finish reason, where
/// it has one, sets the stop reason.
pub open spec fn openai_envelope(s: Blocks, chunk: StreamChunkView) -> Blocks {
    let counted = match chunk.usage {
        Some(usage) => with_output(s, with_usage(s.output, openai_usage(usage))),
        None => s,
    };
    if chunk.choices.len() == 0 {
        counted
    } else {
        match chunk.choices[0].finish_reason {
            Some(reason) => with_output(
                counted,
                with_stop_reason(counted.output, mapped_stop_reason(reason)),
            ),
            None => counted,
        }
    }
}

/// What a delta does: its content is a text delta, the first non-empty of its
/// reasoning fields a reasoning delta under that field's name, and its tool
/// calls are handled in order.
pub open spec fn openai_delta(s: Blocks, delta: StreamDeltaView) -> Blocks {
    let texted = match delta.content {
        Some(content) => text_delta(s, content),
        None => s,
    };
    let reasoned = match first_reasoning(delta) {
        Some((text, signature)) => reasoning_delta(texted, text, signature),
        None => texted,
    };
    match delta.tool_calls {
        Some(calls) => tool_calls(reasoned, calls),
        None => reasoned,
    }
}

/// What one chunk of the OpenAI dialect does. Only the first choice is read.
pub open spec fn openai_chunk(s: Blocks, chunk: StreamChunkView) -> Blocks {
    let framed = openai_envelope(s, chunk);
    if chunk.choices.len() == 0 {
        framed
    } else {
        match chunk.choices[0].delta {
            Some(delta) => openai_delta(framed, delta),
            None => framed,
        }
    }
}

/// Handles the first non-empty scalar reasoning field of a delta, if any, as a
/// reasoning delta under the field's name. Returns whether there was one.
pub fn handle_scalar_reasoning(
    delta: &StreamDelta,
    output: &mut AssistantMessage,
    sender: &mut EventStreamSender,
    current_block: &mut Option<CurrentBlock>,
) -> (emitted: bool)
    ensures
        emitted == first_reasoning(delta.deep_view()).is_some(),
        arrived(
            match first_reasoning(delta.deep_view()) {
                Some((text, signature)) => reasoning_delta(
                    blocks_of(old(output).deep_view(), old(current_block).deep_view()),
                    text,
                    signature,
                ),
                None => blocks_of(old(output).deep_view(), old(current_block).deep_view()),
            },
            *final(output),
            *final(current_block),
            *old(sender),
            *final(sender),
        ),
        in_sync(old(sender).history(), old(output).deep_view(), old(current_block).deep_view())
            ==> in_sync(
            final(sender).history(),
            final(output).deep_view(),
            final(current_block).deep_view(),
        ),
{
    proof {
        let start = blocks_of(old(output).deep_view(), old(current_block).deep_view());
        assert(old(sender).history() + start.emitted =~= old(sender).history());
        assert(old(sender).queued() + start.emitted =~= old(sender).queued());
    }
    if is_present(&delta.reasoning_content) {
        if let Some(text) = &delta.reasoning_content {
            handle_reasoning_delta(
                ReasoningDelta { text: text.as_str(), signature: "reasoning_content" },
                output,
                sender,
                current_block,
            );
        }
        true
    } else if is_present(&delta.reasoning) {
        if let Some(text) = &delta.reasoning {
            handle_reasoning_delta(
                ReasoningDelta { text: text.as_str(), signature: "reasoning" },
                output,
                sender,
                current_block,
            );
        }
        true
    } else if is_present(&delta.reasoning_text) {
        if let Some(text) = &delta.reasoning_text {
            handle_reasoning_delta(
                ReasoningDelta { text: text.as_str(), signature: "reasoning_text" },
                output,
                sender,
                current_block,
            );
        }
        true
    } else {
        false
    }
}

/// Handles one chunk of the OpenAI dialect: usage, finish reason, then the
/// delta's text, reasoning and tool calls.
pub fn process_chunk(
    chunk: &StreamChunk,
    output: &mut AssistantMessage,
    sender: &mut EventStreamSender,
    current_block: &mut Option<CurrentBlock>,
)
    ensures
        arrived(
            openai_chunk(
                blocks_of(old(output).deep_view(), old(current_block).deep_view()),
                chunk.deep_view(),
            ),
            *final(output),
            *final(current_block),
            *old(sender),
            *final(sender),
        ),
        in_sync(old(sender).history(), old(output).deep_view(), old(current_block).deep_view())
            ==> in_sync(
            final(sender).history(),
            final(output).deep_view(),
            final(current_block).deep_view(),
        ),
{
    let ghost start = blocks_of(old(output).deep_view(), old(current_block).deep_view());
    let ghost view = chunk.deep_view();
    proof {
        assert(old(sender).history() + start.emitted =~= old(sender).history());
        assert(old(sender).queued() + start.emitted =~= old(sender).queued());
    }
    if let Some(usage) = &chunk.usage {
        update_openai_usage_from_chunk(usage, output);
    }
    if chunk.choices.len() == 0 {
        return ;
    }
    let choice = &chunk.choices[0];
    assert(view.choices[0] == choice.deep_view());
    if let Some(reason) = &choice.finish_reason {
        output.stop_reason = map_stop_reason(reason.as_str());
    }
    let ghost framed = openai_envelope(start, view);
    assert(output.deep_view() == framed.output);
    let delta = match &choice.delta {
        Some(delta) => delta,
        None => {
            return ;
        },
    };
    let ghost dv = delta.deep_view();

    let ghost first_sender = *sender;
    if let Some(content) = &delta.content {
        handle_text_delta(content.as_str(), output, sender, current_block);
    }
    let ghost texted = match dv.content {
        Some(content) => text_delta(framed, content),
        None => framed,
    };
    proof {
        if dv.content.is_some() {
            lemma_text_delta_continues(framed, dv.content.unwrap());
            lemma_arrived_continues(
                framed,
                text_delta(settled(framed), dv.content.unwrap()),
                *output,
                *current_block,
                *old(sender),
                first_sender,
                *sender,
            );
        }
        assert(arrived(texted, *output, *current_block, *old(sender), *sender));
    }

    let ghost second_sender = *sender;
    handle_scalar_reasoning(delta, output, sender, current_block);
    let ghost reasoned = match first_reasoning(dv) {
        Some((text, signature)) => reasoning_delta(texted, text, signature),
        None => texted,
    };
    proof {
        match first_reasoning(dv) {
            Some((text, signature)) => {
                lemma_reasoning_delta_continues(texted, text, signature);
                lemma_arrived_continues(
                    texted,
                    reasoning_delta(settled(texted), text, signature),
                    *output,
                    *current_block,
                    *old(sender),
                    second_sender,
                    *sender,
                );
            },
            None => {
                lemma_arrived_continues(
                    texted,
                    settled(texted),
                    *output,
                    *current_block,
                    *old(sender),
                    second_sender,
                    *sender,
                );
                assert(continues(texted, settled(texted)).emitted =~= texted.emitted);
            },
        }
        assert(arrived(reasoned, *output, *current_block, *old(sender), *sender));
    }

    let ghost third_sender = *sender;
    if let Some(calls) = &delta.tool_calls {
        let call_slice = calls.as_slice();
        handle_tool_calls(call_slice, output, sender, current_block);
        proof {
            let calls_view = dv.tool_calls.unwrap();
            assert(call_slice.deep_view() =~= calls_view);
            lemma_tool_calls_continues(reasoned, calls_view);
            lemma_arrived_continues(
                reasoned,
                tool_calls(settled(reasoned), calls_view),
                *output,
                *current_block,
                *old(sender),
                third_sender,
                *sender,
            );
        }
    }
}

/// What a chunk emits follows whatever was emitted before it.
pub proof fn lemma_openai_chunk_continues(s: Blocks, chunk: StreamChunkView)
    ensures
        openai_chunk(s, chunk) == continues(s, openai_chunk(settled(s), chunk)),
{
    let framed = openai_envelope(s, chunk);
    let framed_alone = openai_envelope(settled(s), chunk);
    assert(framed == continues(s, framed_alone)) by {
        assert(s.emitted + framed_alone.emitted =~= s.emitted);
    }
    if chunk.choices.len() > 0 && chunk.choices[0].delta.is_some() {
        let delta = chunk.choices[0].delta.unwrap();
        lemma_openai_delta_continues(s, framed_alone, delta);
    }
}

/// What a delta emits follows whatever was emitted before it.
pub proof fn lemma_openai_delta_continues(s: Blocks, t: Blocks, delta: StreamDeltaView)
    ensures
        openai_delta(continues(s, t), delta) == continues(s, openai_delta(t, delta)),
{
    let texted = match delta.content {
        Some(content) => text_delta(t, content),
        None => t,
    };
    let joined_texted = match delta.content {
        Some(content) => text_delta(continues(s, t), content),
        None => continues(s, t),
    };
    if delta.content.is_some() {
        let content = delta.content.unwrap();
        assert forall|x: Blocks| #[trigger] text_delta(x, content) == continues(
            x,
            text_delta(settled(x), content),
        ) by {
            lemma_text_delta_continues(x, content);
        }
        lemma_continues_through(|x: Blocks| text_delta(x, content), s, t);
    }
    assert(joined_texted == continues(s, texted));
    let reasoned = match first_reasoning(delta) {
        Some((text, signature)) => reasoning_delta(texted, text, signature),
        None => texted,
    };
    let joined_reasoned = match first_reasoning(delta) {
        Some((text, signature)) => reasoning_delta(joined_texted, text, signature),
        None => joined_texted,
    };
    match first_reasoning(delta) {
        Some((text, signature)) => {
            assert forall|x: Blocks| #[trigger]
                reasoning_delta(x, text, signature) == continues(
                    x,
                    reasoning_delta(settled(x), text, signature),
                ) by {
                lemma_reasoning_delta_continues(x, text, signature);
            }
            lemma_continues_through(|x: Blocks| reasoning_delta(x, text, signature), s, texted);
        },
        None => {},
    }
    assert(joined_reasoned == continues(s, reasoned));
    if delta.tool_calls.is_some() {
        let calls = delta.tool_calls.unwrap();
        assert forall|x: Blocks| #[trigger] tool_calls(x, calls) == continues(
            x,
            tool_calls(settled(x), calls),
        ) by {
            lemma_tool_calls_continues(x, calls);
        }
        lemma_continues_through(|x: Blocks| tool_calls(x, calls), s, reasoned);
    }
}

/// Whether an endpoint is z.ai's.
pub open spec fn is_zai(provider: ProviderView, base_url: Seq<char>) -> bool {
    provider == ProviderView::Known(KnownProvider::Zai) || contains_seq(base_url, "api.z.ai"@)
}

/// Whether an endpoint departs from OpenAI's own in what it accepts.
pub open spec fn is_non_standard(provider: ProviderView, base_url: Seq<char>) -> bool {
    ||| provider == ProviderView::Known(KnownProvider::Cerebras)
    ||| provider == ProviderView::Known(KnownProvider::Xai)
    ||| provider == ProviderView::Known(KnownProvider::Mistral)
    ||| provider == ProviderView::Known(KnownProvider::Zai)
    ||| contains_seq(base_url, "cerebras.ai"@)
    ||| contains_seq(base_url, "api.x.ai"@)
    ||| contains_seq(base_url, "mistral.ai"@)
    ||| contains_seq(base_url, "chutes.ai"@)
    ||| is_zai(provider, base_url)
}

/// Whether an endpoint caps the completion with `max_tokens`.
pub open spec fn uses_max_tokens(provider: ProviderView, base_url: Seq<char>) -> bool {
    ||| provider == ProviderView::Known(KnownProvider::Mistral)
    ||| contains_seq(base_url, "mistral.ai"@)
    ||| contains_seq(base_url, "chutes.ai"@)
}

/// Whether an endpoint is xAI's.
pub open spec fn is_grok(provider: ProviderView, base_url: Seq<char>) -> bool {
    provider == ProviderView::Known(KnownProvider::Xai) || contains_seq(base_url, "api.x.ai"@)
}

/// Whether an endpoint is Mistral's.
pub open spec fn is_mistral(provider: ProviderView, base_url: Seq<char>) -> bool {
    provider == ProviderView::Known(KnownProvider::Mistral) || contains_seq(
        base_url,
        "mistral.ai"@,
    )
}

/// The compatibility settings that a provider identity and a base URL imply.
pub open spec fn detected_compat(provider: ProviderView, base_url: Seq<char>) -> ResolvedCompat {
    ResolvedCompat {
        supports_store: !is_non_standard(provider, base_url),
        supports_developer_role: !is_non_standard(provider, base_url),
        supports_reasoning_effort: !is_grok(provider, base_url) && !is_zai(provider, base_url),
        supports_usage_in_streaming: true,
        max_tokens_field: if uses_max_tokens(provider, base_url) {
            MaxTokensField::MaxTokens
        } else {
            MaxTokensField::MaxCompletionTokens
        },
        requires_tool_result_name: is_mistral(provider, base_url),
        requires_assistant_after_tool_result: false,
        requires_thinking_as_text: is_mistral(provider, base_url),
        requires_mistral_tool_ids: is_mistral(provider, base_url),
        thinking_format: if is_zai(provider, base_url) {
            ThinkingFormat::Zai
        } else {
            ThinkingFormat::Openai
        },
    }
}

/// `explicit` where it is set, `detected` otherwise.
pub open spec fn or_detected<T>(explicit: Option<T>, detected: T) -> T {
    match explicit {
        Some(value) => value,
        None => detected,
    }
}

/// Detected settings with every explicitly set field put in place of the
/// detected one, and no other field touched.
pub open spec fn overridden(
    detected: ResolvedCompat,
    explicit: Option<OpenAICompletionsCompat>,
) -> ResolvedCompat {
    match explicit {
        None => detected,
        Some(explicit) => ResolvedCompat {
            supports_store: or_detected(explicit.supports_store, detected.supports_store),
            supports_developer_role: or_detected(
                explicit.supports_developer_role,
                detected.supports_developer_role,
            ),
            supports_reasoning_effort: or_detected(
                explicit.supports_reasoning_effort,
                detected.supports_reasoning_effort,
            ),
            supports_usage_in_streaming: or_detected(
                explicit.supports_usage_in_streaming,
                detected.supports_usage_in_streaming,
            ),
            max_tokens_field: or_detected(explicit.max_tokens_field, detected.max_tokens_field),
            requires_tool_result_name: or_detected(
                explicit.requires_tool_result_name,
                detected.requires_tool_result_name,
            ),
            requires_assistant_after_tool_result: or_detected(
                explicit.requires_assistant_after_tool_result,
                detected.requires_assistant_after_tool_result,
            ),
            requires_thinking_as_text: or_detected(
                explicit.requires_thinking_as_text,
                detected.requires_thinking_as_text,
            ),
            requires_mistral_tool_ids: or_detected(
                explicit.requires_mistral_tool_ids,
                detected.requires_mistral_tool_ids,
            ),
            thinking_format: or_detected(explicit.thinking_format, detected.thinking_format),
        },
    }
}

/// Whether `provider` is the given known provider.
fn is_known(provider: &Provider, known: KnownProvider) -> (same: bool)
    ensures
        same == (provider.deep_view() == ProviderView::Known(known)),
{
    match provider {
        Provider::Known(this) => *this == known,
        Provider::Custom(_) => false,
    }
}

/// Detects compatibility settings from the model's provider and base URL.
/// Nothing else about the model is read.
pub fn detect_compat(model: &Model) -> (compat: ResolvedCompat)
    ensures
        compat == detected_compat(model.provider.deep_view(), model.base_url@),
{
    let provider = &model.provider;
    let base_url = model.base_url.as_str();
    let is_zai = is_known(provider, KnownProvider::Zai) || str_contains(base_url, "api.z.ai");
    let is_non_standard = is_known(provider, KnownProvider::Cerebras) || is_known(
        provider,
        KnownProvider::Xai,
    ) || is_known(provider, KnownProvider::Mistral) || is_known(provider, KnownProvider::Zai)
        || str_contains(base_url, "cerebras.ai") || str_contains(base_url, "api.x.ai")
        || str_contains(base_url, "mistral.ai") || str_contains(base_url, "chutes.ai") || is_zai;
    let use_max_tokens = is_known(provider, KnownProvider::Mistral) || str_contains(
        base_url,
        "mistral.ai",
    ) || str_contains(base_url, "chutes.ai");
    let is_grok = is_known(provider, KnownProvider::Xai) || str_contains(base_url, "api.x.ai");
    let is_mistral = is_known(provider, KnownProvider::Mistral) || str_contains(
        base_url,
        "mistral.ai",
    );
    ResolvedCompat {
        supports_store: !is_non_standard,
        supports_developer_role: !is_non_standard,
        supports_reasoning_effort: !is_grok && !is_zai,
        supports_usage_in_streaming: true,
        max_tokens_field: if use_max_tokens {
            MaxTokensField::MaxTokens
        } else {
            MaxTokensField::MaxCompletionTokens
        },
        requires_tool_result_name: is_mistral,
        requires_assistant_after_tool_result: false,
        requires_thinking_as_text: is_mistral,
        requires_mistral_tool_ids: is_mistral,
        thinking_format: if is_zai {
            ThinkingFormat::Zai
        } else {
            ThinkingFormat::Openai
        },
    }
}

fn bool_or(explicit: Option<bool>, detected: bool) -> (value: bool)
    ensures
        value == or_detected(explicit, detected),
{
    match explicit {
        Some(value) => value,
        None => detected,
    }
}

/// Resolves the model's compatibility settings: what is detected from its
/// provider and base URL, with each field that the model sets explicitly for
/// the chat-completions dialect put in place of the detected one.
pub fn resolve_compat(model: &Model) -> (compat: ResolvedCompat)
    ensures
        compat == overridden(
            detected_compat(model.provider.deep_view(), model.base_url@),
            completions_overrides(model.compat),
        ),
{
    let detected = detect_compat(model);
    let explicit = match model.compat {
        Some(ModelCompat::OpenAICompletions(explicit)) => explicit,
        _ => {
            return detected;
        },
    };
    ResolvedCompat {
        supports_store: bool_or(explicit.supports_store, detected.supports_store),
        supports_developer_role: bool_or(
            explicit.supports_developer_role,
            detected.supports_developer_role,
        ),
        supports_reasoning_effort: bool_or(
            explicit.supports_reasoning_effort,
            detected.supports_reasoning_effort,
        ),
        supports_usage_in_streaming: bool_or(
            explicit.supports_usage_in_streaming,
            detected.supports_usage_in_streaming,
        ),
        max_tokens_field: match explicit.max_tokens_field {
            Some(field) => field,
            None => detected.max_tokens_field,
        },
        requires_tool_result_name: bool_or(
            explicit.requires_tool_result_name,
            detected.requires_tool_result_name,
        ),
        requires_assistant_after_tool_result: bool_or(
            explicit.requires_assistant_after_tool_result,
            detected.requires_assistant_after_tool_result,
        ),
        requires_thinking_as_text: bool_or(
            explicit.requires_thinking_as_text,
            detected.requires_thinking_as_text,
        ),
        requires_mistral_tool_ids: bool_or(
            explicit.requires_mistral_tool_ids,
            detected.requires_mistral_tool_ids,
        ),
        thinking_format: match explicit.thinking_format {
            Some(format) => format,
            None => detected.thinking_format,
        },
    }
}

/// For Mistral without overrides, whatever the base URL: the completion is
/// capped with `max_tokens`, tool results carry the tool's name, and neither
/// `store` nor the developer role is supported.
pub proof fn lemma_mistral_defaults(base_url: Seq<char>)
    ensures
        ({
            let compat = overridden(
                detected_compat(ProviderView::Known(KnownProvider::Mistral), base_url),
                None,
            );
            &&& compat.max_tokens_field == MaxTokensField::MaxTokens
            &&& compat.requires_tool_result_name
            &&& !compat.supports_store
            &&& !compat.supports_developer_role
        }),
{
}

/// Overrides act field by field: a field that is set decides the resolved
/// field, whatever was detected, and a field that is not set leaves the
/// detected one in place, whatever the other fields are set to.
pub proof fn lemma_override_one_for_one(
    detected: ResolvedCompat,
    explicit: OpenAICompletionsCompat,
)
    ensures
        ({
            let compat = overridden(detected, Some(explicit));
            &&& compat.supports_store == or_detected(explicit.supports_store, detected.supports_store)
            &&& compat.supports_developer_role == or_detected(
                explicit.supports_developer_role,
                detected.supports_developer_role,
            )
            &&& compat.supports_reasoning_effort == or_detected(
                explicit.supports_reasoning_effort,
                detected.supports_reasoning_effort,
            )
            &&& compat.supports_usage_in_streaming == or_detected(
                explicit.supports_usage_in_streaming,
                detected.supports_usage_in_streaming,
            )
            &&& compat.max_tokens_field == or_detected(
                explicit.max_tokens_field,
                detected.max_tokens_field,
            )
            &&& compat.requires_tool_result_name == or_detected(
                explicit.requires_tool_result_name,
                detected.requires_tool_result_name,
            )
            &&& compat.requires_assistant_after_tool_result == or_detected(
                explicit.requires_assistant_after_tool_result,
                detected.requires_assistant_after_tool_result,
            )
            &&& compat.requires_thinking_as_text == or_detected(
                explicit.requires_thinking_as_text,
                detected.requires_thinking_as_text,
            )
            &&& compat.requires_mistral_tool_ids == or_detected(
                explicit.requires_mistral_tool_ids,
                detected.requires_mistral_tool_ids,
            )
            &&& compat.thinking_format == or_detected(
                explicit.thinking_format,
                detected.thinking_format,
            )
        }),
        overridden(detected, Some(no_overrides())) == detected,
        overridden(detected, None) == detected,
{
}

/// Models that agree in provider and base URL resolve to the same settings
/// where they carry the same overrides, whatever else tells them apart.
pub proof fn lemma_detection_reads_provider_and_url(first: ModelView, second: ModelView)
    requires
        first.provider == second.provider,
        first.base_url == second.base_url,
    ensures
        detected_compat(first.provider, first.base_url) == detected_compat(
            second.provider,
            second.base_url,
        ),
        first.compat == second.compat ==> overridden(
            detected_compat(first.provider, first.base_url),
            completions_overrides(first.compat),
        ) == overridden(
            detected_compat(second.provider, second.base_url),
            completions_overrides(second.compat),
        ),
{
}

/// A tool choice as JSON: the word for `auto`, `none` and `required`, and
/// `{"function": {"name": <name>}}` for a named function.
pub open spec fn tool_choice_json(choice: ToolChoiceView) -> JsonView {
    match choice {
        ToolChoiceView::Auto => JsonView::String("auto"@),
        ToolChoiceView::NoTool => JsonView::String("none"@),
        ToolChoiceView::Required => JsonView::String("required"@),
        ToolChoiceView::Function { name } => JsonView::Object(
            Seq::empty().push(
                ("function"@, JsonView::Object(Seq::empty().push(text_member("name"@, name)))),
            ),
        ),
    }
}

/// `members` with one more member where `present` holds.
pub open spec fn with_member(
    members: Seq<(Seq<char>, JsonView)>,
    present: bool,
    name: Seq<char>,
    value: JsonView,
) -> Seq<(Seq<char>, JsonView)> {
    if present {
        members.push((name, value))
    } else {
        members
    }
}

/// The name of the field that caps the completion's length.
pub open spec fn max_tokens_name(field: MaxTokensField) -> Seq<char> {
    match field {
        MaxTokensField::MaxTokens => "max_tokens"@,
        MaxTokensField::MaxCompletionTokens => "max_completion_tokens"@,
    }
}

/// How the OpenAI dialect converts messages for a model: the system prompt
/// goes under the developer role for a reasoning model where the endpoint
/// supports that role, tool results carry the tool's name where the endpoint
/// requires it, and thinking blocks are left out.
pub open spec fn openai_message_options(
    reasoning: bool,
    compat: ResolvedCompat,
) -> OpenAiLikeMessageOptions {
    OpenAiLikeMessageOptions {
        system_role: if reasoning && compat.supports_developer_role {
            SystemPromptRole::Developer
        } else {
            SystemPromptRole::System
        },
        requires_tool_result_name: compat.requires_tool_result_name,
        assistant_thinking_mode: AssistantThinkingMode::Omit,
    }
}

/// The members that every chat-completions request starts with: the model's
/// id, `stream: true`, and the converted messages.
pub open spec fn request_head(
    model: ModelView,
    system_prompt: Option<Seq<char>>,
    messages: Seq<MessageView>,
    message_options: OpenAiLikeMessageOptions,
) -> Seq<(Seq<char>, JsonView)> {
    Seq::empty().push(text_member("model"@, model.id)).push(("stream"@, JsonView::Bool(true))).push(
        (
            "messages"@,
            request_messages(system_prompt, messages, accepts_images(model), message_options),
        ),
    )
}

/// `{"include_usage": true}`.
pub open spec fn include_usage() -> JsonView {
    JsonView::Object(Seq::empty().push(("include_usage"@, JsonView::Bool(true))))
}

/// The members that sampling options, tools and tool choice add to a request,
/// each only where it is supplied.
pub open spec fn with_request_options(
    members: Seq<(Seq<char>, JsonView)>,
    max_tokens_field: Seq<char>,
    max_tokens: Option<u32>,
    temperature: Option<serde_json::Value>,
    tools: Option<Seq<ToolView>>,
    tool_choice: Option<ToolChoiceView>,
) -> Seq<(Seq<char>, JsonView)> {
    let capped = match max_tokens {
        Some(limit) => members.push((max_tokens_field, JsonView::Number(limit as u64))),
        None => members,
    };
    let heated = match temperature {
        Some(value) => capped.push(("temperature"@, JsonView::Raw(value))),
        None => capped,
    };
    let tooled = match tools {
        Some(tools) => heated.push(("tools"@, request_tools(tools))),
        None => heated,
    };
    match tool_choice {
        Some(choice) => tooled.push(("tool_choice"@, tool_choice_json(choice))),
        None => tooled,
    }
}

/// What asking for reasoning adds to a request: nothing unless an effort is
/// supplied for a reasoning model on an endpoint that supports it; then
/// `thinking: {"type": "enabled"}` in the z.ai format, and `reasoning_effort`
/// with the effort's word otherwise.
pub open spec fn with_reasoning(
    members: Seq<(Seq<char>, JsonView)>,
    reasoning: bool,
    compat: ResolvedCompat,
    effort: Option<ReasoningEffort>,
) -> Seq<(Seq<char>, JsonView)> {
    if effort.is_some() && reasoning && compat.supports_reasoning_effort {
        if compat.thinking_format == ThinkingFormat::Zai {
            members.push(
                (
                    "thinking"@,
                    JsonView::Object(Seq::empty().push(text_member("type"@, "enabled"@))),
                ),
            )
        } else {
            members.push(text_member("reasoning_effort"@, effort_name(effort.unwrap())))
        }
    } else {
        members
    }
}

/// The request body of the OpenAI dialect.
pub open spec fn openai_params(
    model: ModelView,
    system_prompt: Option<Seq<char>>,
    messages: Seq<MessageView>,
    tools: Option<Seq<ToolView>>,
    options: OpenAICompletionsOptions,
    compat: ResolvedCompat,
) -> JsonView {
    let head = request_head(
        model,
        system_prompt,
        messages,
        openai_message_options(model.reasoning, compat),
    );
    let with_usage = with_member(
        head,
        compat.supports_usage_in_streaming,
        "stream_options"@,
        include_usage(),
    );
    let with_store = with_member(with_usage, compat.supports_store, "store"@, JsonView::Bool(false));
    let with_options = with_request_options(
        with_store,
        max_tokens_name(compat.max_tokens_field),
        options.max_tokens,
        options.temperature,
        tools,
        options.tool_choice.deep_view(),
    );
    JsonView::Object(
        with_reasoning(with_options, model.reasoning, compat, options.reasoning_effort),
    )
}

/// A tool choice as JSON.
pub fn tool_choice_to_json(choice: &ToolChoice) -> (json: Json)
    ensures
        json.deep_view() == tool_choice_json(choice.deep_view()),
{
    match choice {
        ToolChoice::Auto => json_string("auto"),
        ToolChoice::NoTool => json_string("none"),
        ToolChoice::Required => json_string("required"),
        ToolChoice::Function { name } => {
            let mut inner = no_members();
            push_text_member(&mut inner, "name", name.as_str());
            let mut members = no_members();
            push_member(&mut members, "function", json_object(inner));
            json_object(members)
        },
    }
}

/// Starts a request body: the model's id, `stream: true`, and the converted
/// messages.
pub fn start_params(
    model: &Model,
    context: &Context,
    message_options: &OpenAiLikeMessageOptions,
) -> (members: Vec<(String, Json)>)
    ensures
        members.deep_view() == request_head(
            model.deep_view(),
            context.system_prompt.deep_view(),
            context.messages.deep_view(),
            *message_options,
        ),
{
    let mut members = no_members();
    push_text_member(&mut members, "model", model.id.as_str());
    push_member(&mut members, "stream", Json::Bool(true));
    push_member(
        &mut members,
        "messages",
        convert_messages(model.accepts_images(), context, message_options),
    );
    members
}

/// Adds `stream_options: {"include_usage": true}`.
pub fn push_include_usage(members: &mut Vec<(String, Json)>)
    ensures
        final(members).deep_view() == old(members).deep_view().push(
            ("stream_options"@, include_usage()),
        ),
{
    let mut stream_options = no_members();
    push_member(&mut stream_options, "include_usage", Json::Bool(true));
    push_member(members, "stream_options", json_object(stream_options));
}

/// Adds what sampling options, tools and tool choice contribute to a request.
pub fn push_request_options(
    members: &mut Vec<(String, Json)>,
    max_tokens_field: &str,
    context: &Context,
    options: &OpenAICompletionsOptions,
)
    ensures
        final(members).deep_view() == with_request_options(
            old(members).deep_view(),
            max_tokens_field@,
            options.max_tokens,
            options.temperature,
            context.tools.deep_view(),
            options.tool_choice.deep_view(),
        ),
{
    if let Some(max_tokens) = options.max_tokens {
        push_member(members, max_tokens_field, Json::Number(max_tokens as u64));
    }
    if let Some(temperature) = &options.temperature {
        push_member(members, "temperature", Json::Raw(temperature.clone()));
    }
    if let Some(tools) = &context.tools {
        let tool_slice = tools.as_slice();
        assert(tool_slice.deep_view() =~= tools.deep_view());
        push_member(members, "tools", convert_tools(tool_slice));
    }
    if let Some(tool_choice) = &options.tool_choice {
        push_member(members, "tool_choice", tool_choice_to_json(tool_choice));
    }
}

/// Builds the request body of the OpenAI dialect.
pub fn build_params(
    model: &Model,
    context: &Context,
    options: &OpenAICompletionsOptions,
    compat: &ResolvedCompat,
) -> (params: Json)
    ensures
        params.deep_view() == openai_params(
            model.deep_view(),
            context.system_prompt.deep_view(),
            context.messages.deep_view(),
            context.tools.deep_view(),
            *options,
            *compat,
        ),
{
    let message_options = OpenAiLikeMessageOptions {
        system_role: if model.reasoning && compat.supports_developer_role {
            SystemPromptRole::Developer
        } else {
            SystemPromptRole::System
        },
        requires_tool_result_name: compat.requires_tool_result_name,
        assistant_thinking_mode: AssistantThinkingMode::Omit,
    };
    let mut members = start_params(model, context, &message_options);
    if compat.supports_usage_in_streaming {
        push_include_usage(&mut members);
    }
    if compat.supports_store {
        push_member(&mut members, "store", Json::Bool(false));
    }
    let max_tokens_field = match compat.max_tokens_field {
        MaxTokensField::MaxTokens => "max_tokens",
        MaxTokensField::MaxCompletionTokens => "max_completion_tokens",
    };
    push_request_options(&mut members, max_tokens_field, context, options);
    if let Some(effort) = options.reasoning_effort {
        if model.reasoning && compat.supports_reasoning_effort {
            if compat.thinking_format == ThinkingFormat::Zai {
                let mut thinking = no_members();
                push_text_member(&mut thinking, "type", "enabled");
                push_member(&mut members, "thinking", json_object(thinking));
            } else {
                push_text_member(&mut members, "reasoning_effort", effort.as_str());
            }
        }
    }
    json_object(members)
}

} // verus!
