//! Utilities shared across providers.

pub mod json;
pub mod json_doc;
pub mod json_parse;
pub mod overflow;
pub mod sanitize;
pub mod text;
pub mod think_tag_parser;
pub mod validation;

pub use json_parse::{parse_streaming_json, parse_streaming_json_smart};
pub use overflow::{get_overflow_patterns, is_context_overflow};
pub use sanitize::{sanitize_for_api, sanitize_surrogates};
pub use think_tag_parser::{ThinkFragment, ThinkTagParser};
pub use validation::{
    try_validate_tool_arguments, try_validate_tool_call, validate_tool_arguments,
    validate_tool_call,
};
