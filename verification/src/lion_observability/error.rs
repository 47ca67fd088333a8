//! Errors of the observability system, with their messages.

use vstd::prelude::*;

use crate::lion_core::error::{io_error_text, prefixed};

verus! {

/// Errors of the observability system.
#[derive(Debug)]
pub enum ObservabilityError {
    /// An observability component failed to initialize.
    InitializationError(String),
    /// An observability component failed to shut down.
    ShutdownError(String),
    /// Writing a log failed.
    LoggingError(String),
    /// Creating or recording a span failed.
    TracingError(String),
    /// Recording a metric failed.
    MetricError(String),
    /// A capability for an observability operation is missing.
    CapabilityError(String),
    /// The configuration is invalid.
    ConfigurationError(String),
    /// A plugin ID is invalid.
    InvalidPluginId(String),
    /// An I/O error.
    IoError(std::io::Error),
    /// Serialization failed.
    SerializationError(String),
    /// The tracing subscriber failed.
    TracingSubscriberError(String),
    /// OpenTelemetry failed.
    OpenTelemetryError(String),
    /// The metrics system failed.
    MetricsError(String),
    /// Any other error.
    Unknown(String),
}

impl ObservabilityError {
    /// The prefix of an error's message.
    pub open spec fn prefix(self) -> Seq<char> {
        match self {
            Self::InitializationError(_) => "Failed to initialize observability component: "@,
            Self::ShutdownError(_) => "Failed to shutdown observability component: "@,
            Self::LoggingError(_) => "Failed to write log: "@,
            Self::TracingError(_) => "Failed to create or record span: "@,
            Self::MetricError(_) => "Failed to record metric: "@,
            Self::CapabilityError(_) => "Missing capability for observability operation: "@,
            Self::ConfigurationError(_) => "Invalid configuration: "@,
            Self::InvalidPluginId(_) => "Invalid plugin ID: "@,
            Self::IoError(_) => "I/O error: "@,
            Self::SerializationError(_) => "Serialization error: "@,
            Self::TracingSubscriberError(_) => "Tracing subscriber error: "@,
            Self::OpenTelemetryError(_) => "OpenTelemetry error: "@,
            Self::MetricsError(_) => "Metrics error: "@,
            Self::Unknown(_) => "Unknown error: "@,
        }
    }

    /// The detail of an error's message, where it is text.
    pub open spec fn detail(self) -> Option<Seq<char>> {
        match self {
            Self::IoError(_) => None,
            Self::InitializationError(s) => Some(s@),
            Self::ShutdownError(s) => Some(s@),
            Self::LoggingError(s) => Some(s@),
            Self::TracingError(s) => Some(s@),
            Self::MetricError(s) => Some(s@),
            Self::CapabilityError(s) => Some(s@),
            Self::ConfigurationError(s) => Some(s@),
            Self::InvalidPluginId(s) => Some(s@),
            Self::SerializationError(s) => Some(s@),
            Self::TracingSubscriberError(s) => Some(s@),
            Self::OpenTelemetryError(s) => Some(s@),
            Self::MetricsError(s) => Some(s@),
            Self::Unknown(s) => Some(s@),
        }
    }

    /// The message of this error: its prefix, then its detail (for an I/O error, the error's
    /// own text).
    pub fn to_string(&self) -> (r: String)
        ensures
            r@.len() >= self.prefix().len(),
            r@.subrange(0, self.prefix().len() as int) == self.prefix(),
            self.detail() matches Some(d) ==> r@ == self.prefix() + d,
    {
        let r = match self {
            Self::InitializationError(s) => prefixed("Failed to initialize observability component: ", s),
            Self::ShutdownError(s) => prefixed("Failed to shutdown observability component: ", s),
            Self::LoggingError(s) => prefixed("Failed to write log: ", s),
            Self::TracingError(s) => prefixed("Failed to create or record span: ", s),
            Self::MetricError(s) => prefixed("Failed to record metric: ", s),
            Self::CapabilityError(s) => prefixed("Missing capability for observability operation: ", s),
            Self::ConfigurationError(s) => prefixed("Invalid configuration: ", s),
            Self::InvalidPluginId(s) => prefixed("Invalid plugin ID: ", s),
            Self::IoError(e) => prefixed("I/O error: ", &io_error_text(e)),
            Self::SerializationError(s) => prefixed("Serialization error: ", s),
            Self::TracingSubscriberError(s) => prefixed("Tracing subscriber error: ", s),
            Self::OpenTelemetryError(s) => prefixed("OpenTelemetry error: ", s),
            Self::MetricsError(s) => prefixed("Metrics error: ", s),
            Self::Unknown(s) => prefixed("Unknown error: ", s),
        };
        assert(r@.subrange(0, self.prefix().len() as int) =~= self.prefix());
        r
    }
}

impl From<String> for ObservabilityError {
    fn from(err: String) -> (r: Self) {
        ObservabilityError::Unknown(err)
    }
}

impl vstd::std_specs::convert::FromSpecImpl<String> for ObservabilityError {
    open spec fn obeys_from_spec() -> bool {
        true
    }

    open spec fn from_spec(v: String) -> Self {
        ObservabilityError::Unknown(v)
    }
}

} // verus!
