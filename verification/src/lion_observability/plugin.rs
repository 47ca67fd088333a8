//! The capability gate in front of each observability operation of a plugin.

use vstd::prelude::*;

use crate::lion_observability::capability::{LogLevel, ObservabilityCapability};
use crate::lion_observability::context::{opt_view, SpanContext};
use crate::lion_observability::error::ObservabilityError;

verus! {

/// The name of a level as `Debug` prints it.
pub open spec fn level_debug_name(level: LogLevel) -> Seq<char> {
    match level {
        LogLevel::Trace => "Trace"@,
        LogLevel::Debug => "Debug"@,
        LogLevel::Info => "Info"@,
        LogLevel::Warn => "Warn"@,
        LogLevel::Error => "Error"@,
    }
}

/// The message for a plugin that lacks the capability for an operation.
pub open spec fn missing_message(capability: ObservabilityCapability) -> Seq<char> {
    match capability {
        ObservabilityCapability::Log(level) => "Missing capability to log at "@ + level_debug_name(
            level,
        ) + " level"@,
        ObservabilityCapability::Metrics => "Missing metrics capability"@,
        _ => "Missing tracing capability"@,
    }
}

/// The capabilities that plugin operations ask for: tracing, metrics, and logging.
pub open spec fn gated(capability: ObservabilityCapability) -> bool {
    capability is Tracing || capability is Metrics || capability is Log
}

/// The name of a level as `Debug` prints it.
fn level_debug_text(level: LogLevel) -> (r: &'static str)
    ensures
        r@ == level_debug_name(level),
{
    match level {
        LogLevel::Trace => "Trace",
        LogLevel::Debug => "Debug",
        LogLevel::Info => "Info",
        LogLevel::Warn => "Warn",
        LogLevel::Error => "Error",
    }
}

/// The decision in front of a plugin's observability operation. Where capabilities are
/// enforced and a checker answered (`checked` is its answer), the operation goes ahead only if
/// the checker granted the capability: a failed check is passed on, a denial becomes a
/// `CapabilityError` naming what is missing. Without enforcement, or without a checker, the
/// operation goes ahead.
pub fn capability_gate(
    enforce: bool,
    checked: Option<Result<bool, ObservabilityError>>,
    capability: ObservabilityCapability,
) -> (r: Result<(), ObservabilityError>)
    requires
        gated(capability),
    ensures
        !enforce ==> r is Ok,
        enforce ==> match checked {
            None => r is Ok,
            Some(Ok(true)) => r is Ok,
            Some(Ok(false)) => r matches Err(ObservabilityError::CapabilityError(s)) && s@
                == missing_message(capability),
            Some(Err(e)) => r == Err::<(), ObservabilityError>(e),
        },
{
    if !enforce {
        return Ok(());
    }
    match checked {
        None => Ok(()),
        Some(Ok(true)) => Ok(()),
        Some(Err(e)) => Err(e),
        Some(Ok(false)) => {
            let message = match capability {
                ObservabilityCapability::Log(level) => {
                    let mut s = String::from_str("Missing capability to log at ");
                    s.append(level_debug_text(level));
                    s.append(" level");
                    s
                },
                ObservabilityCapability::Metrics => String::from_str("Missing metrics capability"),
                _ => String::from_str("Missing tracing capability"),
            };
            Err(ObservabilityError::CapabilityError(message))
        },
    }
}

/// A plugin's observability is made only for a plugin with a name: an empty identifier is
/// refused.
pub fn check_plugin_id(plugin_id: &str) -> (r: Result<(), ObservabilityError>)
    ensures
        plugin_id@.len() == 0 <==> r is Err,
        r is Err ==> (r matches Err(ObservabilityError::InvalidPluginId(s)) && s@
            == "Plugin ID cannot be empty"@),
{
    if plugin_id.is_empty() {
        Err(ObservabilityError::InvalidPluginId(String::from_str("Plugin ID cannot be empty")))
    } else {
        Ok(())
    }
}

/// The decision of a logger that checks capabilities, on the checker's answer `checked` for
/// the event's plugin and level: a failed check is passed on, a denial names the plugin (as
/// `plugin_text`, the event's plugin as `Debug` shows it) and the level.
pub fn capability_log_gate(
    checked: Result<bool, ObservabilityError>,
    plugin_text: &str,
    level: LogLevel,
) -> (r: Result<(), ObservabilityError>)
    ensures
        match checked {
            Ok(true) => r is Ok,
            Ok(false) => r matches Err(ObservabilityError::CapabilityError(s)) && s@ == "Plugin "@
                + plugin_text@ + " does not have the capability to log at "@ + level_debug_name(
                level,
            ) + " level"@,
            Err(e) => r == Err::<(), ObservabilityError>(e),
        },
{
    match checked {
        Ok(true) => Ok(()),
        Ok(false) => {
            let mut s = String::from_str("Plugin ");
            s.append(plugin_text);
            s.append(" does not have the capability to log at ");
            s.append(level_debug_text(level));
            s.append(" level");
            Err(ObservabilityError::CapabilityError(s))
        },
        Err(e) => Err(e),
    }
}

/// The identifiers that a plugin's log event carries: the event's plugin identifier, else the
/// plugin's own; and the trace and span identifiers of the current span where there is one,
/// else those the event had. The parts are, in order, the plugin, trace and span identifiers.
pub fn event_ids(
    event_plugin: Option<String>,
    event_trace: Option<String>,
    event_span: Option<String>,
    plugin_id: &str,
    current_span: &Option<SpanContext>,
) -> (r: (Option<String>, Option<String>, Option<String>))
    ensures
        opt_view(r.0) == match event_plugin {
            Some(p) => Some(p@),
            None => Some(plugin_id@),
        },
        match current_span {
            Some(c) => opt_view(r.1) == Some(c.trace_id@) && opt_view(r.2) == Some(c.span_id@),
            None => opt_view(r.1) == opt_view(event_trace) && opt_view(r.2) == opt_view(event_span),
        },
{
    let plugin = match event_plugin {
        Some(p) => Some(p),
        None => Some(String::from_str(plugin_id)),
    };
    match current_span {
        Some(c) => (plugin, Some(c.trace_id.clone()), Some(c.span_id.clone())),
        None => (plugin, event_trace, event_span),
    }
}

} // verus!
