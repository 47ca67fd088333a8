//! Observability of plugins: capabilities, span contexts, and the errors of the system.

pub mod error;
pub mod capability;
pub mod context;
pub mod config;
pub mod logging;
pub mod plugin;
pub mod tracing_system;
