//! Defaults of the Python streams binding.

use vstd::prelude::*;

verus! {

/// How errors raised inside Python stream callbacks are handled.
#[derive(Debug, Clone, Copy, PartialEq, Eq, Structural)]
pub enum CallbackErrorPolicy {
    /// Replace the offending element with `None` and continue.
    SubstituteNone,
    /// Drop the element silently.
    Drop,
    /// Stop the stream.
    Stop,
}

impl Default for CallbackErrorPolicy {
    fn default() -> (p: Self)
        ensures
            p == CallbackErrorPolicy::SubstituteNone,
    {
        CallbackErrorPolicy::SubstituteNone
    }
}

/// Suggested buffer size of a `BroadcastHub` when the caller gives none.
pub const DEFAULT_HUB_BUFFER: usize = 16;

/// Suggested parallelism of `Flow.map_async` when not specified.
pub const DEFAULT_MAP_ASYNC_PARALLELISM: usize = 1;

} // verus!
