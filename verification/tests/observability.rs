use lion::lion_observability::capability::{
    AllowAllCapabilityChecker, DenyAllCapabilityChecker, LogLevel, ObservabilityCapability,
    ObservabilityCapabilityChecker, SelectiveCapabilityChecker,
};
use lion::lion_observability::config::LoggingConfig;
use lion::lion_observability::context::{format_id, Context, SpanContext};
use lion::lion_observability::error::ObservabilityError;
use lion::lion_observability::logging::{buffered_log_outcome, NoopLogger, SimpleLogger};
use lion::lion_observability::plugin::{
    capability_gate, capability_log_gate, check_plugin_id, event_ids,
};
use lion::lion_observability::tracing_system::NoopTracer;

#[test]
fn test_allow_all_checker() {
    let checker = AllowAllCapabilityChecker;
    assert!(checker
        .check_capability("plugin1", ObservabilityCapability::Log(LogLevel::Debug))
        .unwrap());
    assert!(checker
        .check_capability("plugin1", ObservabilityCapability::Metrics)
        .unwrap());
}

#[test]
fn test_deny_all_checker() {
    let checker = DenyAllCapabilityChecker;
    assert!(!checker
        .check_capability("plugin1", ObservabilityCapability::Log(LogLevel::Debug))
        .unwrap());
    assert!(!checker
        .check_capability("plugin1", ObservabilityCapability::Metrics)
        .unwrap());
}

#[test]
fn test_selective_checker() {
    let checker = SelectiveCapabilityChecker::new("test")
        .allow("plugin1", ObservabilityCapability::Log(LogLevel::Info))
        .allow("plugin2", ObservabilityCapability::Metrics);

    // plugin1 can log at Info level or higher (Error)
    assert!(checker
        .check_capability("plugin1", ObservabilityCapability::Log(LogLevel::Info))
        .unwrap());
    assert!(checker
        .check_capability("plugin1", ObservabilityCapability::Log(LogLevel::Error))
        .unwrap());

    // plugin1 cannot log at Debug or Trace (more verbose than Info)
    assert!(!checker
        .check_capability("plugin1", ObservabilityCapability::Log(LogLevel::Debug))
        .unwrap());
    assert!(!checker
        .check_capability("plugin1", ObservabilityCapability::Log(LogLevel::Trace))
        .unwrap());

    // plugin1 cannot use metrics
    assert!(!checker
        .check_capability("plugin1", ObservabilityCapability::Metrics)
        .unwrap());

    // plugin2 can use metrics
    assert!(checker
        .check_capability("plugin2", ObservabilityCapability::Metrics)
        .unwrap());

    // plugin2 cannot log
    assert!(!checker
        .check_capability("plugin2", ObservabilityCapability::Log(LogLevel::Error))
        .unwrap());
}

#[test]
fn selective_checker_consults_every_log_grant() {
    let checker = SelectiveCapabilityChecker::new("t")
        .allow("p", ObservabilityCapability::Log(LogLevel::Error))
        .allow("p", ObservabilityCapability::Log(LogLevel::Trace));
    assert!(checker
        .check_capability("p", ObservabilityCapability::Log(LogLevel::Debug))
        .unwrap());
    assert!(checker
        .check_capability("p", ObservabilityCapability::Log(LogLevel::Trace))
        .unwrap());
    assert!(!checker
        .check_capability("q", ObservabilityCapability::Log(LogLevel::Error))
        .unwrap());
    let only_warn = SelectiveCapabilityChecker::new("w")
        .allow("p", ObservabilityCapability::Metrics)
        .allow("p", ObservabilityCapability::Log(LogLevel::Warn));
    assert!(!only_warn
        .check_capability("p", ObservabilityCapability::Log(LogLevel::Info))
        .unwrap());
    assert!(only_warn
        .check_capability("p", ObservabilityCapability::Log(LogLevel::Warn))
        .unwrap());
}

#[test]
fn checker_names_and_capability_text() {
    assert_eq!(AllowAllCapabilityChecker.name(), "allow_all");
    assert_eq!(DenyAllCapabilityChecker.name(), "deny_all");
    assert_eq!(SelectiveCapabilityChecker::new("mine").name(), "mine");
    assert_eq!(ObservabilityCapability::Log(LogLevel::Warn).to_string(), "log:WARN");
    assert_eq!(ObservabilityCapability::ViewTraces.to_string(), "view_traces");
    assert_eq!(LogLevel::from("WARNING"), LogLevel::Warn);
    assert_eq!(LogLevel::from("nonsense"), LogLevel::Info);
    assert!(LogLevel::Warn > LogLevel::Info);
}

#[test]
fn test_span_context() {
    let root = SpanContext::new_root("root");
    assert_eq!(root.name, "root");
    assert!(root.parent_span_id.is_none());

    let child = root.new_child("child");
    assert_eq!(child.name, "child");
    assert_eq!(child.trace_id, root.trace_id);
    assert_eq!(child.parent_span_id, Some(root.span_id.clone()));
}

#[test]
fn child_span_keeps_baggage() {
    let root = SpanContext::new_root("root").with_baggage("user", "42");
    let child = root.new_child("child");
    assert_eq!(child.baggage, root.baggage);
    assert_eq!(child.sampled, root.sampled);
    assert_ne!(child.span_id, root.span_id);
    // A parent whose identifier is the one the clock is about to give still gets a child
    // with another identifier.
    let mut twin = root.clone();
    for _ in 0..50 {
        let c = twin.new_child("c");
        assert_ne!(c.span_id, twin.span_id);
        twin.span_id = c.span_id;
    }

    let under = SpanContext::span_for(&Some(root.clone()), "under");
    assert_eq!(under.trace_id, root.trace_id);
    assert_eq!(under.parent_span_id, Some(root.span_id.clone()));
    assert_eq!(under.baggage, root.baggage);
    assert_eq!(under.name, "under");
    let fresh = SpanContext::span_for(&None, "fresh");
    assert!(fresh.parent_span_id.is_none());
    assert!(fresh.sampled);
    assert!(fresh.baggage.is_empty());
}

#[test]
fn test_w3c_conversion() {
    let root = SpanContext::new_root("root");
    let w3c = root.to_w3c();
    assert!(w3c.starts_with("00-"));

    let parsed = SpanContext::from_w3c(&w3c, "parsed").unwrap();
    assert_eq!(parsed.trace_id, root.trace_id);
    assert_eq!(parsed.span_id, root.span_id);
    assert_eq!(parsed.name, "parsed");
}

#[test]
fn w3c_text_and_flags() {
    let ctx = SpanContext::new_root("s").with_baggage("k", "v");
    assert_eq!(ctx.baggage.get("k"), Some(&"v".to_string()));
    let text = ctx.to_w3c();
    assert!(text.ends_with("-01"));
    let back = SpanContext::from_w3c(&text, "again").unwrap();
    assert!(back.sampled);
    assert_eq!(back.trace_id, ctx.trace_id);
    assert_eq!(back.span_id, ctx.span_id);
    assert!(back.parent_span_id.is_none());
    assert!(back.baggage.is_empty());
    assert!(SpanContext::from_w3c("00-abc-def-03", "n").unwrap().sampled);
    assert!(SpanContext::from_w3c("00-abc-def-0B", "n").unwrap().sampled);
    assert!(!SpanContext::from_w3c("00-abc-def-10", "n").unwrap().sampled);
    assert!(!SpanContext::from_w3c("00-abc-def-", "n").unwrap().sampled);
    assert!(SpanContext::from_w3c("01-abc-def-00", "n").is_none());
    assert!(SpanContext::from_w3c("00-abc-def", "n").is_none());
    assert_eq!(format_id(255), "00000000000000ff");
    assert_eq!(format_id(0x1234_5678_9abc_def0_1), "123456789abcdef01");
}

#[test]
fn noop_and_simple_logger_names() {
    assert_eq!(NoopLogger::new().name(), "noop_logger");
    assert_eq!(NoopTracer::new().name(), "noop_tracer");
    let config = LoggingConfig::default();
    assert_eq!(config.level, "info");
    assert_eq!(config.max_file_size, 50 * 1024 * 1024);
    let logger = SimpleLogger::new(&config);
    assert_eq!(logger.name(), "simple_logger");
    assert!(logger.config().log_to_stdout);
}

#[test]
fn capability_gate_decisions() {
    assert!(capability_gate(false, Some(Ok(false)), ObservabilityCapability::Tracing).is_ok());
    assert!(capability_gate(true, None, ObservabilityCapability::Tracing).is_ok());
    assert!(capability_gate(true, Some(Ok(true)), ObservabilityCapability::Metrics).is_ok());
    match capability_gate(true, Some(Ok(false)), ObservabilityCapability::Log(LogLevel::Debug)) {
        Err(ObservabilityError::CapabilityError(m)) => {
            assert_eq!(m, "Missing capability to log at Debug level")
        }
        _ => panic!("expected a capability error"),
    }
    match capability_gate(true, Some(Ok(false)), ObservabilityCapability::Metrics) {
        Err(ObservabilityError::CapabilityError(m)) => assert_eq!(m, "Missing metrics capability"),
        _ => panic!("expected a capability error"),
    }
    match capability_gate(
        true,
        Some(Err(ObservabilityError::Unknown("boom".to_string()))),
        ObservabilityCapability::Tracing,
    ) {
        Err(ObservabilityError::Unknown(m)) => assert_eq!(m, "boom"),
        _ => panic!("expected the checker's error"),
    }
    assert_eq!(
        ObservabilityError::CapabilityError("x".to_string()).to_string(),
        "Missing capability for observability operation: x"
    );
}

#[test]
fn test_child_context() {
    let parent = Context::new()
        .with_plugin_id("plugin1")
        .with_span_context(SpanContext::new_root("parent"));

    let child = parent.create_child_span("child");

    assert_eq!(child.plugin_id, parent.plugin_id);

    let parent_span = parent.span_context.unwrap();
    let child_span = child.span_context.unwrap();

    assert_eq!(child_span.trace_id, parent_span.trace_id);
    assert_eq!(child_span.parent_span_id, Some(parent_span.span_id));
    assert_eq!(child_span.name, "child");
}

#[test]
fn context_attributes_and_map() {
    let ctx = Context::new()
        .with_plugin_id("p")
        .with_request_id("r")
        .with_attribute("k", "1")
        .with_attribute("plugin_id", "override")
        .with_attribute("k", "2");
    assert_eq!(ctx.attribute("k"), Some(&"2".to_string()));
    assert_eq!(ctx.attribute("missing"), None);
    assert!(ctx.to_trace_context().is_none());

    let pairs = ctx.to_attribute_map();
    let map: std::collections::HashMap<String, String> = pairs.into_iter().collect();
    assert_eq!(map.get("plugin_id"), Some(&"override".to_string()));
    assert_eq!(map.get("request_id"), Some(&"r".to_string()));
    assert_eq!(map.get("k"), Some(&"2".to_string()));
    assert_eq!(map.len(), 3);

    let root = Context::new().create_child_span("root");
    let span = root.span_context.clone().unwrap();
    assert!(span.parent_span_id.is_none());
    let traced = Context::from_trace_context(&root.to_trace_context().unwrap(), "remote");
    let remote = traced.span_context.unwrap();
    assert_eq!(remote.trace_id, span.trace_id);
    assert_eq!(remote.span_id, span.span_id);
    assert!(Context::from_trace_context("bogus", "x").span_context.is_none());
}

#[test]
fn buffered_log_outcomes() {
    assert!(matches!(buffered_log_outcome(Ok(()), 5, 1), Ok(false)));
    let refused = || Err(ObservabilityError::CapabilityError("no".to_string()));
    assert!(matches!(buffered_log_outcome(refused(), 0, 2), Ok(true)));
    assert!(matches!(buffered_log_outcome(refused(), 1, 2), Ok(true)));
    match buffered_log_outcome(refused(), 2, 2) {
        Err(ObservabilityError::LoggingError(s)) => assert_eq!(s, "Buffer full, log event dropped"),
        other => panic!("unexpected {:?}", other),
    }
    match buffered_log_outcome(Err(ObservabilityError::TracingError("t".to_string())), 0, 2) {
        Err(ObservabilityError::TracingError(s)) => assert_eq!(s, "t"),
        other => panic!("unexpected {:?}", other),
    }
}

#[test]
fn plugin_ids_must_not_be_empty() {
    assert!(check_plugin_id("p").is_ok());
    match check_plugin_id("") {
        Err(ObservabilityError::InvalidPluginId(s)) => assert_eq!(s, "Plugin ID cannot be empty"),
        other => panic!("unexpected {:?}", other),
    }
}

#[test]
fn capability_log_gate_decisions() {
    assert!(capability_log_gate(Ok(true), "None", LogLevel::Info).is_ok());
    match capability_log_gate(Ok(false), &format!("{:?}", Some("p1".to_string())), LogLevel::Warn) {
        Err(ObservabilityError::CapabilityError(s)) => assert_eq!(
            s,
            "Plugin Some(\"p1\") does not have the capability to log at Warn level"
        ),
        other => panic!("unexpected {:?}", other),
    }
    match capability_log_gate(Err(ObservabilityError::Unknown("x".to_string())), "None", LogLevel::Error) {
        Err(ObservabilityError::Unknown(s)) => assert_eq!(s, "x"),
        other => panic!("unexpected {:?}", other),
    }
}

#[test]
fn log_event_identifiers() {
    let span = SpanContext::new_root("s");
    let (p, t, s) = event_ids(None, None, None, "plug", &Some(span.clone()));
    assert_eq!(p, Some("plug".to_string()));
    assert_eq!(t, Some(span.trace_id.clone()));
    assert_eq!(s, Some(span.span_id.clone()));
    let (p, t, s) = event_ids(
        Some("own".to_string()),
        Some("t0".to_string()),
        None,
        "plug",
        &None,
    );
    assert_eq!(p, Some("own".to_string()));
    assert_eq!(t, Some("t0".to_string()));
    assert_eq!(s, None);
}
