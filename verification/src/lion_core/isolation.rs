//! The kinds of resource limit that isolation enforces.

use vstd::prelude::*;

verus! {

/// A kind of resource limit.
#[derive(Debug, Clone, Copy, PartialEq, Eq, Structural, Hash)]
pub enum ResourceLimitType {
    /// Memory, in bytes.
    Memory,
    /// CPU time.
    CpuTime,
    /// Time for one function call.
    FunctionTimeout,
    /// Instructions executed.
    InstructionCount,
    /// Function calls made.
    FunctionCallCount,
}

} // verus!
