//! The errors of this crate.

use vstd::prelude::*;
use vstd::string::StringExecFns;
use crate::utils::text::{decimal, decimal_string};

verus! {

/// What can go wrong around a stream.
#[derive(Debug)]
pub enum Error {
    /// No key was supplied for the provider and none could be found.
    NoApiKey(String),
    /// The HTTP request failed; the text is the transport's own.
    RequestError(String),
    /// The endpoint answered outside 2xx; the body is kept as it came.
    ApiError { status_code: u16, message: String },
    Aborted,
    InvalidResponse(String),
    InvalidJson(String),
    ModelNotFound { provider: String, model_id: String },
    UnknownProvider(String),
    UnknownApi(String),
    ToolValidationFailed(String),
    ToolNotFound(String),
    ContextOverflow,
    InvalidHeader(String),
}

/// What a value of [`Error`] says, with strings as character sequences.
#[allow(inconsistent_fields)]
pub enum ErrorView {
    NoApiKey(Seq<char>),
    RequestError(Seq<char>),
    ApiError { status_code: u16, message: Seq<char> },
    Aborted,
    InvalidResponse(Seq<char>),
    InvalidJson(Seq<char>),
    ModelNotFound { provider: Seq<char>, model_id: Seq<char> },
    UnknownProvider(Seq<char>),
    UnknownApi(Seq<char>),
    ToolValidationFailed(Seq<char>),
    ToolNotFound(Seq<char>),
    ContextOverflow,
    InvalidHeader(Seq<char>),
}

impl DeepView for Error {
    type V = ErrorView;

    open spec fn deep_view(&self) -> ErrorView {
        match self {
            Error::NoApiKey(provider) => ErrorView::NoApiKey(provider@),
            Error::RequestError(cause) => ErrorView::RequestError(cause@),
            Error::ApiError { status_code, message } => ErrorView::ApiError {
                status_code: *status_code,
                message: message@,
            },
            Error::Aborted => ErrorView::Aborted,
            Error::InvalidResponse(cause) => ErrorView::InvalidResponse(cause@),
            Error::InvalidJson(cause) => ErrorView::InvalidJson(cause@),
            Error::ModelNotFound { provider, model_id } => ErrorView::ModelNotFound {
                provider: provider@,
                model_id: model_id@,
            },
            Error::UnknownProvider(name) => ErrorView::UnknownProvider(name@),
            Error::UnknownApi(name) => ErrorView::UnknownApi(name@),
            Error::ToolValidationFailed(cause) => ErrorView::ToolValidationFailed(cause@),
            Error::ToolNotFound(name) => ErrorView::ToolNotFound(name@),
            Error::ContextOverflow => ErrorView::ContextOverflow,
            Error::InvalidHeader(cause) => ErrorView::InvalidHeader(cause@),
        }
    }
}

/// The text an error is reported as.
pub open spec fn error_text(error: ErrorView) -> Seq<char> {
    match error {
        ErrorView::NoApiKey(provider) => "No API key provided for provider: "@ + provider,
        ErrorView::RequestError(cause) => "HTTP request failed: "@ + cause,
        ErrorView::ApiError { status_code, message } => "API returned error: "@ + decimal(
            status_code as nat,
        ) + " - "@ + message,
        ErrorView::Aborted => "Stream aborted"@,
        ErrorView::InvalidResponse(cause) => "Invalid response: "@ + cause,
        ErrorView::InvalidJson(cause) => "Invalid JSON: "@ + cause,
        ErrorView::ModelNotFound { provider, model_id } => "Model not found: provider="@ + provider
            + ", model_id="@ + model_id,
        ErrorView::UnknownProvider(name) => "Unknown provider: "@ + name,
        ErrorView::UnknownApi(name) => "Unknown API: "@ + name,
        ErrorView::ToolValidationFailed(cause) => "Tool validation failed: "@ + cause,
        ErrorView::ToolNotFound(name) => "Tool not found: "@ + name,
        ErrorView::ContextOverflow => "Context overflow: model context window exceeded"@,
        ErrorView::InvalidHeader(cause) => "Invalid header: "@ + cause,
    }
}

/// `prefix` followed by `rest`.
fn prefixed(prefix: &str, rest: &str) -> (text: String)
    ensures
        text@ == prefix@ + rest@,
{
    let mut text = prefix.to_owned();
    text.append(rest);
    text
}

impl Error {
    /// The text the error is reported as.
    pub fn to_string(&self) -> (text: String)
        ensures
            text@ == error_text(self.deep_view()),
    {
        match self {
            Error::NoApiKey(provider) => prefixed(
                "No API key provided for provider: ",
                provider.as_str(),
            ),
            Error::RequestError(cause) => prefixed("HTTP request failed: ", cause.as_str()),
            Error::ApiError { status_code, message } => {
                let code = decimal_string(*status_code as u64);
                let mut text = prefixed("API returned error: ", code.as_str());
                text.append(" - ");
                text.append(message.as_str());
                text
            },
            Error::Aborted => "Stream aborted".to_owned(),
            Error::InvalidResponse(cause) => prefixed("Invalid response: ", cause.as_str()),
            Error::InvalidJson(cause) => prefixed("Invalid JSON: ", cause.as_str()),
            Error::ModelNotFound { provider, model_id } => {
                let mut text = prefixed("Model not found: provider=", provider.as_str());
                text.append(", model_id=");
                text.append(model_id.as_str());
                text
            },
            Error::UnknownProvider(name) => prefixed("Unknown provider: ", name.as_str()),
            Error::UnknownApi(name) => prefixed("Unknown API: ", name.as_str()),
            Error::ToolValidationFailed(cause) => prefixed(
                "Tool validation failed: ",
                cause.as_str(),
            ),
            Error::ToolNotFound(name) => prefixed("Tool not found: ", name.as_str()),
            Error::ContextOverflow => "Context overflow: model context window exceeded".to_owned(),
            Error::InvalidHeader(cause) => prefixed("Invalid header: ", cause.as_str()),
        }
    }
}

} // verus!
