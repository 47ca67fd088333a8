//! The loggers of the observability system that hold data of their own.

use vstd::prelude::*;

use crate::lion_observability::capability::LogLevel;
use crate::lion_observability::config::LoggingConfig;
use crate::lion_observability::error::ObservabilityError;

verus! {

/// A logger that discards every event.
#[derive(Debug, Clone)]
pub struct NoopLogger {
    name: String,
}

impl NoopLogger {
    /// The logger's name.
    pub closed spec fn spec_name(self) -> Seq<char> {
        self.name@
    }

    /// A logger named `noop_logger`.
    pub fn new() -> (r: Self)
        ensures
            r.spec_name() == "noop_logger"@,
    {
        Self { name: String::from_str("noop_logger") }
    }

    /// The logger's name.
    pub fn name(&self) -> (r: &str)
        ensures
            r@ == self.spec_name(),
    {
        self.name.as_str()
    }
}

impl Default for NoopLogger {
    /// A logger named `noop_logger`.
    fn default() -> (r: Self)
        ensures
            r.spec_name() == "noop_logger"@,
    {
        Self::new()
    }
}

/// A logger that writes events as its configuration says.
#[derive(Debug, Clone)]
pub struct SimpleLogger {
    name: String,
    config: LoggingConfig,
}

impl SimpleLogger {
    /// The logger's name.
    pub closed spec fn spec_name(self) -> Seq<char> {
        self.name@
    }

    /// The logger's configuration.
    pub closed spec fn spec_config(self) -> LoggingConfig {
        self.config
    }

    /// A logger named `simple_logger` with a copy of the configuration.
    pub fn new(config: &LoggingConfig) -> (r: Self)
        ensures
            r.spec_name() == "simple_logger"@,
            r.spec_config().enabled == config.enabled,
            r.spec_config().structured == config.structured,
            r.spec_config().log_to_stdout == config.log_to_stdout,
            r.spec_config().log_to_stderr == config.log_to_stderr,
            r.spec_config().level@ == config.level@,
    {
        Self {
            name: String::from_str("simple_logger"),
            config: LoggingConfig {
                enabled: config.enabled,
                level: config.level.clone(),
                structured: config.structured,
                file_path: config.file_path.clone(),
                max_file_size: config.max_file_size,
                max_files: config.max_files,
                log_to_stdout: config.log_to_stdout,
                log_to_stderr: config.log_to_stderr,
                include_plugin_id: config.include_plugin_id,
                include_trace_context: config.include_trace_context,
            },
        }
    }

    /// The logger's name.
    pub fn name(&self) -> (r: &str)
        ensures
            r@ == self.spec_name(),
    {
        self.name.as_str()
    }

    /// The logger's configuration.
    pub fn config(&self) -> (r: &LoggingConfig)
        ensures
            *r == self.spec_config(),
    {
        &self.config
    }
}

/// The name of a level in an event's text.
pub open spec fn level_label(level: LogLevel) -> Seq<char> {
    match level {
        LogLevel::Trace => "TRACE"@,
        LogLevel::Debug => "DEBUG"@,
        LogLevel::Info => "INFO"@,
        LogLevel::Warn => "WARN"@,
        LogLevel::Error => "ERROR"@,
    }
}

/// Attributes as `key:value` items separated by `, `.
pub open spec fn attributes_text(attributes: Seq<(Seq<char>, Seq<char>)>) -> Seq<char>
    decreases attributes.len(),
{
    if attributes.len() == 0 {
        Seq::empty()
    } else if attributes.len() == 1 {
        attributes[0].0 + ":"@ + attributes[0].1
    } else {
        attributes_text(attributes.drop_last()) + ", "@ + attributes.last().0 + ":"@
            + attributes.last().1
    }
}

/// The text of a log event: timestamp in brackets, level, message, then the plugin, the
/// request, the trace and span (only where both are known) and the attributes in braces,
/// each where there is one.
pub open spec fn event_display(
    timestamp: Seq<char>,
    level: LogLevel,
    message: Seq<char>,
    plugin_id: Option<Seq<char>>,
    request_id: Option<Seq<char>>,
    trace_id: Option<Seq<char>>,
    span_id: Option<Seq<char>>,
    attributes: Seq<(Seq<char>, Seq<char>)>,
) -> Seq<char> {
    let head = "["@ + timestamp + "] "@ + level_label(level) + " - "@ + message;
    let plugin = tagged(" [plugin:"@, plugin_id);
    let request = tagged(" [request:"@, request_id);
    let trace = match (trace_id, span_id) {
        (Some(t), Some(s)) => " [trace:"@ + t + ",span:"@ + s + "]"@,
        _ => Seq::empty(),
    };
    head + plugin + request + trace + attributes_part(attributes)
}

/// The text of an optional value.
pub open spec fn opt_text(v: Option<String>) -> Option<Seq<char>> {
    match v {
        Some(s) => Some(s@),
        None => None,
    }
}

/// The text of a part that is there only with a value: the tag, the value and `]`.
pub open spec fn tagged(tag: Seq<char>, v: Option<Seq<char>>) -> Seq<char> {
    match v {
        Some(s) => tag + s + "]"@,
        None => Seq::empty(),
    }
}

fn append_tagged(r: &mut String, tag: &str, v: &Option<String>)
    ensures
        final(r)@ == old(r)@ + tagged(tag@, opt_text(*v)),
{
    if let Some(s) = v {
        r.append(tag);
        r.append(s.as_str());
        r.append("]");
    }
    assert(final(r)@ =~= old(r)@ + tagged(tag@, opt_text(*v)));
}

/// The attributes' part of an event's text: nothing, or the attributes in braces.
pub open spec fn attributes_part(attributes: Seq<(Seq<char>, Seq<char>)>) -> Seq<char> {
    if attributes.len() == 0 {
        Seq::empty()
    } else {
        " {"@ + attributes_text(attributes) + "}"@
    }
}

fn append_attributes(r: &mut String, attributes: &Vec<(String, String)>)
    ensures
        final(r)@ == old(r)@ + attributes_part(
            attributes@.map_values(|a: (String, String)| (a.0@, a.1@)),
        ),
{
    let ghost attrs = attributes@.map_values(|a: (String, String)| (a.0@, a.1@));
    if attributes.len() == 0 {
        assert(final(r)@ =~= old(r)@ + attributes_part(attrs));
        return;
    }
    r.append(" {");
    let ghost open = r@;
    let mut i: usize = 0;
    while i < attributes.len()
        invariant
            i <= attributes@.len(),
            attributes@.len() > 0,
            attrs == attributes@.map_values(|a: (String, String)| (a.0@, a.1@)),
            r@ == open + attributes_text(attrs.take(i as int)),
        decreases attributes@.len() - i,
    {
        let ghost prefix = attrs.take(i as int);
        if i > 0 {
            r.append(", ");
        }
        r.append(attributes[i].0.as_str());
        r.append(":");
        r.append(attributes[i].1.as_str());
        proof {
            let next = attrs.take(i + 1);
            assert(next.drop_last() =~= prefix);
            assert(next.last() == attrs[i as int]);
            if i == 0 {
                assert(r@ =~= open + attributes_text(next));
            } else {
                assert(r@ =~= open + (attributes_text(prefix) + ", "@ + attrs[i as int].0 + ":"@
                    + attrs[i as int].1));
            }
        }
        i = i + 1;
    }
    assert(attrs.take(i as int) =~= attrs);
    r.append("}");
    assert(final(r)@ =~= old(r)@ + attributes_part(attrs));
}

/// The text of a log event, its attributes' values already rendered as text.
pub fn event_text(
    timestamp: &str,
    level: LogLevel,
    message: &str,
    plugin_id: &Option<String>,
    request_id: &Option<String>,
    trace_id: &Option<String>,
    span_id: &Option<String>,
    attributes: &Vec<(String, String)>,
) -> (r: String)
    ensures
        r@ == event_display(
            timestamp@,
            level,
            message@,
            opt_text(*plugin_id),
            opt_text(*request_id),
            opt_text(*trace_id),
            opt_text(*span_id),
            attributes@.map_values(|a: (String, String)| (a.0@, a.1@)),
        ),
{
    let mut r = String::from_str("[");
    r.append(timestamp);
    r.append("] ");
    r.append(
        match level {
            LogLevel::Trace => "TRACE",
            LogLevel::Debug => "DEBUG",
            LogLevel::Info => "INFO",
            LogLevel::Warn => "WARN",
            LogLevel::Error => "ERROR",
        },
    );
    r.append(" - ");
    r.append(message);
    let ghost head = r@;
    append_tagged(&mut r, " [plugin:", plugin_id);
    append_tagged(&mut r, " [request:", request_id);
    let ghost with_request = r@;
    if let (Some(t), Some(s)) = (trace_id, span_id) {
        r.append(" [trace:");
        r.append(t.as_str());
        r.append(",span:");
        r.append(s.as_str());
        r.append("]");
    }
    let ghost with_trace = r@;
    append_attributes(&mut r, attributes);
    proof {
        let attrs = attributes@.map_values(|a: (String, String)| (a.0@, a.1@));
        let trace = match (opt_text(*trace_id), opt_text(*span_id)) {
            (Some(t), Some(s)) => " [trace:"@ + t + ",span:"@ + s + "]"@,
            _ => Seq::empty(),
        };
        assert(with_trace =~= with_request + trace);
        assert(head =~= "["@ + timestamp@ + "] "@ + level_label(level) + " - "@ + message@);
        assert(r@ =~= head + tagged(" [plugin:"@, opt_text(*plugin_id)) + tagged(
            " [request:"@,
            opt_text(*request_id),
        ) + trace + attributes_part(attrs));
    }
    r
}

/// What a buffering logger does with an event after the logger in front of it answered
/// `logged`, with `buffered` events of the event's plugin already kept: `Ok(false)` where the
/// event was written, `Ok(true)` where it is to be kept because a capability was missing and
/// there is room, the buffer-full error where there is none, and any other error passed on.
pub fn buffered_log_outcome(
    logged: Result<(), ObservabilityError>,
    buffered: usize,
    max_buffer_size: usize,
) -> (r: Result<bool, ObservabilityError>)
    ensures
        match logged {
            Ok(_) => r == Ok::<bool, ObservabilityError>(false),
            Err(ObservabilityError::CapabilityError(_)) => if buffered < max_buffer_size {
                r == Ok::<bool, ObservabilityError>(true)
            } else {
                r matches Err(ObservabilityError::LoggingError(s)) && s@
                    == "Buffer full, log event dropped"@
            },
            Err(e) => r == Err::<bool, ObservabilityError>(e),
        },
{
    match logged {
        Ok(_) => Ok(false),
        Err(ObservabilityError::CapabilityError(_)) => {
            if buffered < max_buffer_size {
                Ok(true)
            } else {
                Err(ObservabilityError::LoggingError(String::from_str("Buffer full, log event dropped")))
            }
        },
        Err(e) => Err(e),
    }
}

} // verus!
