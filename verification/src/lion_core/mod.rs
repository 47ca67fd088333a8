//! Core types of the Lion microkernel.

pub mod access;
pub mod capability;
pub mod config;
pub mod error;
pub mod id;
pub mod isolation;
pub mod json;
pub mod logging;
pub mod memory;
pub mod plugin;
pub mod version;
pub mod workflow;
