//! Isolation of plugins: capability checks, resource limits and plugin lifecycles.

pub mod resource;
pub mod capability;
pub mod lifecycle;
pub mod hostcall;
pub mod pool;
pub mod backend;
pub mod linear_memory;
