//! The error taxonomy of the engine: configuration, load, compute,
//! transport and cache-consistency failures, each fatal to a different
//! scope (startup, node, or session).
use vstd::prelude::*;

verus! {

/// A malformed or inconsistent topology description; fatal at startup.
#[derive(Debug, Clone, Copy, PartialEq, Eq, Structural)]
pub enum ConfigError {
    /// The description names no shard at all.
    EmptyPlan,
    /// A shard's layer range has its last layer before its first.
    BadRange,
    /// A shard does not start right after the one before it, or the first
    /// shard does not start at layer zero.
    NotContiguous,
    /// The last shard does not end at the model's last layer.
    WrongLayerCount,
    /// One address owns two ranges that are not adjacent, so ownership of
    /// the layers between them is ambiguous.
    AmbiguousOwnership,
}

/// A malformed wire envelope; fatal to the hop that received it.
#[derive(Debug, Clone, Copy, PartialEq, Eq, Structural)]
pub enum ProtocolError {
    /// The buffer ends before the announced contents.
    Truncated,
    /// The datatype tag names no known datatype.
    BadDtype,
    /// Bytes follow the announced contents.
    TrailingBytes,
    /// An announced count does not fit in this machine's address space.
    Oversize,
}

/// A session-fatal failure raised while driving generation.
#[derive(Debug, Clone, Copy, PartialEq, Eq, Structural)]
pub enum SessionError {
    /// Shard weights were missing or corrupt on the owning node.
    Load,
    /// A shape or numeric failure inside a layer's computation.
    Compute,
    /// A remote hop could not be reached or never answered.
    Transport,
    /// A position index gap or rewind: a protocol or ordering bug.
    CacheConsistency,
}

/// A position index that is neither the entry's successor nor a re-read
/// of its current step; the cache rejects it and stays unchanged.
#[derive(Debug, Clone, Copy, PartialEq, Eq, Structural)]
pub struct CacheConsistencyError {
    /// The index the caller presented.
    pub presented: u64,
    /// The index the entry would have accepted as its next step.
    pub expected: u64,
}

} // verus!
