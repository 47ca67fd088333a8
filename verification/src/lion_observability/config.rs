//! Configuration of logging, and the trace propagation formats.

use std::path::PathBuf;
use vstd::prelude::*;

verus! {

/// A file system path.
#[verifier::external_type_specification]
#[verifier::external_body]
pub struct ExPathBuf(std::path::PathBuf);

/// `Clone` of a path; nothing is stated of the copy.
pub assume_specification[ <std::path::PathBuf as Clone>::clone ](p: &PathBuf) -> PathBuf;

/// Configuration of logging.
#[derive(Debug, Clone)]
pub struct LoggingConfig {
    /// Whether logging is enabled.
    pub enabled: bool,
    /// The minimum level to log, by name.
    pub level: String,
    /// Whether to log structured (JSON) events.
    pub structured: bool,
    /// The file to log to, if any.
    pub file_path: Option<PathBuf>,
    /// Maximum size of a log file in bytes.
    pub max_file_size: usize,
    /// Maximum number of log files to keep.
    pub max_files: usize,
    /// Whether to log to standard output.
    pub log_to_stdout: bool,
    /// Whether to log to standard error.
    pub log_to_stderr: bool,
    /// Whether to include the plugin ID in log events.
    pub include_plugin_id: bool,
    /// Whether to include the trace context in log events.
    pub include_trace_context: bool,
}

impl Default for LoggingConfig {
    /// Enabled at level `info`, structured, to standard output only, in files of at most
    /// 50 MiB with five kept, with plugin IDs and trace context.
    fn default() -> (r: Self)
        ensures
            r.enabled,
            r.level@ == "info"@,
            r.structured,
            r.file_path is None,
            r.max_file_size == 52_428_800usize,
            r.max_files == 5usize,
            r.log_to_stdout,
            !r.log_to_stderr,
            r.include_plugin_id,
            r.include_trace_context,
    {
        Self {
            enabled: true,
            level: String::from_str("info"),
            structured: true,
            file_path: None,
            max_file_size: 50 * 1024 * 1024,
            max_files: 5,
            log_to_stdout: true,
            log_to_stderr: false,
            include_plugin_id: true,
            include_trace_context: true,
        }
    }
}

/// How trace context is propagated between services.
#[derive(Debug, Clone, Copy, PartialEq, Eq, Structural)]
pub enum TracePropagation {
    /// W3C Trace Context.
    W3C,
    /// B3, in one header.
    B3Single,
    /// B3, in several headers.
    B3Multi,
    /// Jaeger.
    Jaeger,
    /// A custom format.
    Custom,
}

} // verus!
