//! Provider drivers.

pub mod env;
pub mod minimax;
pub mod openai_completions;
pub mod shared;

pub use env::get_env_api_key;
