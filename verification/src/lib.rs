//! The Lion microkernel: its core types, the isolation of plugins, and their observability.

pub mod lion_core;
pub mod lion_isolation;
pub mod lion_observability;
pub mod text;
