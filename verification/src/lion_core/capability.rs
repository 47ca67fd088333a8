//! Constraints that narrow a capability.

use vstd::prelude::*;

verus! {

/// A constraint that narrows what a capability permits.
#[derive(Debug, Clone)]
pub enum Constraint {
    /// Restrict file access to a path.
    FilePath(String),
    /// Restrict the file operations.
    FileOperation {
        /// Whether reading stays allowed.
        read: bool,
        /// Whether writing stays allowed.
        write: bool,
        /// Whether executing stays allowed.
        execute: bool,
    },
    /// Restrict network access to a host.
    NetworkHost(String),
    /// Restrict network access to a port.
    NetworkPort(u16),
    /// Restrict the network operations.
    NetworkOperation {
        /// Whether connecting stays allowed.
        connect: bool,
        /// Whether listening stays allowed.
        listen: bool,
    },
    /// A custom constraint.
    Custom {
        /// Type of the constraint.
        constraint_type: String,
        /// Value of the constraint.
        value: String,
    },
}

} // verus!
