//! Token accounting and stop reasons.

use vstd::prelude::*;

verus! {

/// Token counts of one assistant turn.
#[derive(Clone, Copy, Debug, PartialEq, Eq, Structural)]
pub struct Usage {
    pub input: u64,
    pub output: u64,
    pub cache_read: u64,
    pub cache_write: u64,
    pub total_tokens: u64,
}

impl Default for Usage {
    fn default() -> (usage: Self)
        ensures
            usage == (Usage { input: 0, output: 0, cache_read: 0, cache_write: 0, total_tokens: 0 }),
    {
        Usage { input: 0, output: 0, cache_read: 0, cache_write: 0, total_tokens: 0 }
    }
}

/// Why an assistant turn ended.
#[derive(Clone, Copy, Debug, PartialEq, Eq, Structural)]
pub enum StopReason {
    Stop,
    Length,
    ToolUse,
    Error,
    Aborted,
}

} // verus!
