//! Span status and the tracer that records nothing.

use vstd::prelude::*;

verus! {

/// Status of a span.
#[derive(Debug, Clone, Copy, PartialEq, Eq, Structural)]
pub enum SpanStatus {
    /// No status was set.
    Unset,
    /// The span completed successfully.
    Success,
    /// The span failed.
    Error,
}

/// A tracer that records nothing.
#[derive(Debug, Clone)]
pub struct NoopTracer {
    name: String,
}

impl NoopTracer {
    /// The tracer's name.
    pub closed spec fn spec_name(self) -> Seq<char> {
        self.name@
    }

    /// A tracer named `noop_tracer`.
    pub fn new() -> (r: Self)
        ensures
            r.spec_name() == "noop_tracer"@,
    {
        Self { name: String::from_str("noop_tracer") }
    }

    /// The tracer's name.
    pub fn name(&self) -> (r: &str)
        ensures
            r@ == self.spec_name(),
    {
        self.name.as_str()
    }
}

impl Default for NoopTracer {
    /// A tracer named `noop_tracer`.
    fn default() -> (r: Self)
        ensures
            r.spec_name() == "noop_tracer"@,
    {
        Self::new()
    }
}

} // verus!
