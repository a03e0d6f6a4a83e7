//! A terminal coding agent's core: an incremental stream decoder for a
//! blank-line-delimited frame protocol, a tolerant event parser, a
//! conversation reducer, a bounded agent loop, and a set of tool
//! executors with uniform output truncation.
use vstd::prelude::*;

pub mod agent;
pub mod auth;
pub mod json;
pub mod cli;
pub mod prompt;
pub mod session;
pub mod text;
pub mod tools;

verus! {

/// Hard ceiling on the number of request/stream/reduce rounds one
/// agent-loop run may perform.
pub const MAX_TOOL_CALLS: u64 = 20;

pub fn max_tool_calls() -> (r: u64)
    ensures
        r == MAX_TOOL_CALLS,
{
    MAX_TOOL_CALLS
}

} // verus!
