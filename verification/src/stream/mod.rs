//! The entry point of a stream: which driver serves a model, and under which
//! API key.

use vstd::prelude::*;
use crate::error::{Error, ErrorView};
use crate::providers::env::{env_api_key, get_env_api_key, EnvSnapshot, EnvView};
use crate::types::api::{provider_name, Api};
use crate::types::model::{Model, ModelView};
use crate::types::options::{
    no_options, OpenAICompletionsOptions, OpenAICompletionsOptionsView,
};

verus! {

/// The driver that serves a dialect.
#[derive(Clone, Copy, Debug, PartialEq, Eq, Structural)]
pub enum StreamDriver {
    OpenAICompletions,
    MinimaxCompletions,
}

/// What a stream is to be run with.
#[derive(Debug)]
pub struct StreamPlan {
    pub driver: StreamDriver,
    /// The caller's options with the resolved API key written in.
    pub options: OpenAICompletionsOptions,
}

/// What a value of [`StreamPlan`] says, with strings as character sequences.
pub struct StreamPlanView {
    pub driver: StreamDriver,
    pub options: OpenAICompletionsOptionsView,
}

impl DeepView for StreamPlan {
    type V = StreamPlanView;

    open spec fn deep_view(&self) -> StreamPlanView {
        StreamPlanView { driver: self.driver, options: self.options.deep_view() }
    }
}

/// Whether a dialect takes a bearer token. Vertex and Bedrock rely on ambient
/// cloud credentials instead.
pub open spec fn needs_api_key(api: Api) -> bool {
    api != Api::GoogleVertex && api != Api::BedrockConverseStream
}

/// The options a stream is run with: the caller's, or none.
pub open spec fn given_options(
    options: Option<OpenAICompletionsOptionsView>,
) -> OpenAICompletionsOptionsView {
    match options {
        Some(options) => options,
        None => no_options(),
    }
}

/// The API key of a stream: the one in the options, or else the one the
/// environment holds for the provider.
pub open spec fn resolved_api_key(
    model: ModelView,
    options: Option<OpenAICompletionsOptionsView>,
    env: EnvView,
) -> Option<Seq<char>> {
    match given_options(options).api_key {
        Some(key) => Some(key),
        None => env_api_key(model.provider, env),
    }
}

/// `options` with the resolved key in place of its own, where one was
/// resolved.
pub open spec fn with_api_key(
    options: OpenAICompletionsOptionsView,
    key: Option<Seq<char>>,
) -> OpenAICompletionsOptionsView {
    OpenAICompletionsOptionsView {
        api_key: if key.is_some() {
            key
        } else {
            options.api_key
        },
        temperature: options.temperature,
        max_tokens: options.max_tokens,
        tool_choice: options.tool_choice,
        reasoning_effort: options.reasoning_effort,
        headers: options.headers,
    }
}

/// The driver of a dialect, or the error that says that there is none yet.
pub open spec fn driver_of(api: Api) -> Result<StreamDriver, ErrorView> {
    match api {
        Api::OpenAICompletions => Ok(StreamDriver::OpenAICompletions),
        Api::MinimaxCompletions => Ok(StreamDriver::MinimaxCompletions),
        Api::AnthropicMessages => Err(
            ErrorView::InvalidResponse("Anthropic provider not yet implemented"@),
        ),
        Api::BedrockConverseStream => Err(
            ErrorView::InvalidResponse("Bedrock provider not yet implemented"@),
        ),
        Api::OpenAIResponses => Err(
            ErrorView::InvalidResponse("OpenAI Responses provider not yet implemented"@),
        ),
        Api::GoogleGenerativeAi => Err(
            ErrorView::InvalidResponse("Google Generative AI provider not yet implemented"@),
        ),
        Api::GoogleVertex => Err(
            ErrorView::InvalidResponse("Google Vertex provider not yet implemented"@),
        ),
    }
}

/// What dispatching a stream comes to.
///
/// A dialect that takes a bearer token fails with `NoApiKey` where no key is
/// resolved. Otherwise the dialect's driver is chosen, or the stream fails
/// with `InvalidResponse` where the dialect has no driver yet.
pub open spec fn dispatched(
    model: ModelView,
    options: Option<OpenAICompletionsOptionsView>,
    env: EnvView,
) -> Result<StreamPlanView, ErrorView> {
    let key = resolved_api_key(model, options, env);
    if needs_api_key(model.api) && key.is_none() {
        Err(ErrorView::NoApiKey(provider_name(model.provider)))
    } else {
        match driver_of(model.api) {
            Ok(driver) => Ok(
                StreamPlanView { driver, options: with_api_key(given_options(options), key) },
            ),
            Err(error) => Err(error),
        }
    }
}

/// The views of a result.
pub open spec fn plan_view(plan: Result<StreamPlan, Error>) -> Result<StreamPlanView, ErrorView> {
    match plan {
        Ok(plan) => Ok(plan.deep_view()),
        Err(error) => Err(error.deep_view()),
    }
}

/// Decides how a stream for `model` is to be run: resolves the API key from
/// the options or else from the environment, and selects the driver by the
/// model's dialect.
pub fn dispatch(model: &Model, options: Option<OpenAICompletionsOptions>, env: &EnvSnapshot) -> (plan:
    Result<StreamPlan, Error>)
    ensures
        plan_view(plan) == dispatched(model.deep_view(), options.deep_view(), env.deep_view()),
{
    let api = model.api;
    let mut resolved_options = match options {
        Some(options) => options,
        None => OpenAICompletionsOptions::default(),
    };
    let api_key = match &resolved_options.api_key {
        Some(key) => Some(key.clone()),
        None => get_env_api_key(&model.provider, env),
    };
    let needs_key = api != Api::GoogleVertex && api != Api::BedrockConverseStream;
    if needs_key && api_key.is_none() {
        return Err(Error::NoApiKey(model.provider.to_string()));
    }
    if let Some(key) = api_key {
        resolved_options.api_key = Some(key);
    }
    match api {
        Api::OpenAICompletions => Ok(
            StreamPlan { driver: StreamDriver::OpenAICompletions, options: resolved_options },
        ),
        Api::MinimaxCompletions => Ok(
            StreamPlan { driver: StreamDriver::MinimaxCompletions, options: resolved_options },
        ),
        Api::AnthropicMessages => Err(
            Error::InvalidResponse("Anthropic provider not yet implemented".to_owned()),
        ),
        Api::BedrockConverseStream => Err(
            Error::InvalidResponse("Bedrock provider not yet implemented".to_owned()),
        ),
        Api::OpenAIResponses => Err(
            Error::InvalidResponse("OpenAI Responses provider not yet implemented".to_owned()),
        ),
        Api::GoogleGenerativeAi => Err(
            Error::InvalidResponse("Google Generative AI provider not yet implemented".to_owned()),
        ),
        Api::GoogleVertex => Err(
            Error::InvalidResponse("Google Vertex provider not yet implemented".to_owned()),
        ),
    }
}

} // verus!
