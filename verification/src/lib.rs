//! A provider-agnostic core for streaming chat completions: it turns the
//! dialects of OpenAI-compatible endpoints into one ordered vocabulary of
//! assistant-message events.

pub mod error;
pub mod models;
pub mod providers;
pub mod stream;
pub mod transform;
pub mod transform_laws;
pub mod types;
pub mod utils;

pub use error::Error;
pub use models::{
    minimax_cn_m2, minimax_cn_m2_1, minimax_cn_m2_1_highspeed, minimax_cn_m2_5,
    minimax_cn_m2_5_highspeed, minimax_m2, minimax_m2_1, minimax_m2_1_highspeed, minimax_m2_5,
    minimax_m2_5_highspeed,
};
pub use providers::get_env_api_key;
pub use transform::{transform_messages, transform_messages_simple, TargetModel};
pub use utils::{
    is_context_overflow, parse_streaming_json, parse_streaming_json_smart, sanitize_for_api,
    sanitize_surrogates, try_validate_tool_arguments, try_validate_tool_call,
    validate_tool_arguments, validate_tool_call, ThinkFragment, ThinkTagParser,
};
