//! What the provider drivers share.

pub mod chunk;
pub mod openai_like_messages;
pub mod openai_like_runtime;
pub mod sse;
pub mod stream_blocks;
pub mod stream_run;
pub mod timestamp;
pub mod trace;

pub use timestamp::unix_timestamp_millis;
