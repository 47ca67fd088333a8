use lion::lion_core::error::{
    CapabilityError, ConcurrencyError, IsolationError, ObservabilityError, PluginError, PolicyError,
    SystemError, WorkflowError,
};
use lion::lion_core::id::{CapabilityId, PluginId, WorkflowId};
use lion::lion_core::plugin::PluginState;
use lion::lion_core::logging::{event_message, LogLevel};
use lion::lion_core::version::Version;

#[test]
fn test_log_level_ordering() {
    assert!(LogLevel::Error > LogLevel::Warning);
    assert!(LogLevel::Warning > LogLevel::Info);
    assert!(LogLevel::Info > LogLevel::Debug);
    assert!(LogLevel::Debug > LogLevel::Trace);
}

#[test]
fn test_log_level_from_str() {
    assert_eq!("trace".parse::<LogLevel>().unwrap(), LogLevel::Trace);
    assert_eq!("TRACE".parse::<LogLevel>().unwrap(), LogLevel::Trace);
    assert_eq!("debug".parse::<LogLevel>().unwrap(), LogLevel::Debug);
    assert_eq!("DEBUG".parse::<LogLevel>().unwrap(), LogLevel::Debug);
    assert_eq!("info".parse::<LogLevel>().unwrap(), LogLevel::Info);
    assert_eq!("INFO".parse::<LogLevel>().unwrap(), LogLevel::Info);
    assert_eq!("warning".parse::<LogLevel>().unwrap(), LogLevel::Warning);
    assert_eq!("warn".parse::<LogLevel>().unwrap(), LogLevel::Warning);
    assert_eq!("WARNING".parse::<LogLevel>().unwrap(), LogLevel::Warning);
    assert_eq!("error".parse::<LogLevel>().unwrap(), LogLevel::Error);
    assert_eq!("err".parse::<LogLevel>().unwrap(), LogLevel::Error);
    assert_eq!("ERROR".parse::<LogLevel>().unwrap(), LogLevel::Error);
    assert!("invalid".parse::<LogLevel>().is_err());
}

#[test]
fn test_log_level_as_str() {
    assert_eq!(LogLevel::Trace.as_str(), "TRACE");
    assert_eq!(LogLevel::Debug.as_str(), "DEBUG");
    assert_eq!(LogLevel::Info.as_str(), "INFO");
    assert_eq!(LogLevel::Warning.as_str(), "WARNING");
    assert_eq!(LogLevel::Error.as_str(), "ERROR");
}

#[test]
fn test_log_level_as_number() {
    assert_eq!(LogLevel::Trace.as_number(), 0);
    assert_eq!(LogLevel::Debug.as_number(), 1);
    assert_eq!(LogLevel::Info.as_number(), 2);
    assert_eq!(LogLevel::Warning.as_number(), 3);
    assert_eq!(LogLevel::Error.as_number(), 4);
}

#[test]
fn test_log_level_is_at_least() {
    assert!(LogLevel::Error.is_at_least(LogLevel::Error));
    assert!(LogLevel::Error.is_at_least(LogLevel::Warning));
    assert!(LogLevel::Error.is_at_least(LogLevel::Info));
    assert!(LogLevel::Error.is_at_least(LogLevel::Debug));
    assert!(LogLevel::Error.is_at_least(LogLevel::Trace));

    assert!(!LogLevel::Trace.is_at_least(LogLevel::Debug));
    assert!(!LogLevel::Debug.is_at_least(LogLevel::Info));
    assert!(!LogLevel::Info.is_at_least(LogLevel::Warning));
    assert!(!LogLevel::Warning.is_at_least(LogLevel::Error));
}

#[test]
fn test_log_level_display() {
    assert_eq!(LogLevel::Trace.to_string(), "TRACE");
    assert_eq!(LogLevel::Debug.to_string(), "DEBUG");
    assert_eq!(LogLevel::Info.to_string(), "INFO");
    assert_eq!(LogLevel::Warning.to_string(), "WARNING");
    assert_eq!(LogLevel::Error.to_string(), "ERROR");
}

#[test]
fn log_level_names_parse_back() {
    for level in [LogLevel::Trace, LogLevel::Debug, LogLevel::Info, LogLevel::Warning, LogLevel::Error] {
        assert_eq!(level.as_str().parse::<LogLevel>().unwrap(), level);
        assert_eq!(LogLevel::from_lowercase_name(&level.as_str().to_lowercase()), Ok(level));
    }
    assert_eq!(LogLevel::from_lowercase_name("WARN"), Err(()));
    assert_eq!(LogLevel::from_str("Warn"), Ok(LogLevel::Warning));
}

#[test]
fn test_log_event_macro() {
    let plain = event_message("lion_core::macros::tests", "Test message", &vec![]);
    assert_eq!(plain, "[lion_core::macros::tests] Test message");
    let with_fields = event_message(
        "lion_core::macros::tests",
        "Test message with fields",
        &vec![
            ("field1".to_string(), "value1".to_string()),
            ("field2".to_string(), 42.to_string()),
        ],
    );
    assert_eq!(
        with_fields,
        "[lion_core::macros::tests] Test message with fields: field1=value1 field2=42"
    );
}

#[test]
fn test_version_parsing() {
    // Test basic version
    let version = Version::from_str("1.2.3").unwrap();
    assert_eq!(version.major, 1);
    assert_eq!(version.minor, 2);
    assert_eq!(version.patch, 3);
    assert_eq!(version.prerelease, None);
    assert_eq!(version.build, None);

    // Test version with prerelease
    let version = Version::from_str("1.2.3-alpha.1").unwrap();
    assert_eq!(version.major, 1);
    assert_eq!(version.minor, 2);
    assert_eq!(version.patch, 3);
    assert_eq!(version.prerelease, Some("alpha.1".to_string()));
    assert_eq!(version.build, None);

    // Test version with build metadata
    let version = Version::from_str("1.2.3+build.456").unwrap();
    assert_eq!(version.major, 1);
    assert_eq!(version.minor, 2);
    assert_eq!(version.patch, 3);
    assert_eq!(version.prerelease, None);
    assert_eq!(version.build, Some("build.456".to_string()));

    // Test version with prerelease and build metadata
    let version = Version::from_str("1.2.3-alpha.1+build.456").unwrap();
    assert_eq!(version.major, 1);
    assert_eq!(version.minor, 2);
    assert_eq!(version.patch, 3);
    assert_eq!(version.prerelease, Some("alpha.1".to_string()));
    assert_eq!(version.build, Some("build.456".to_string()));

    // Test invalid versions
    assert!(Version::from_str("").is_err());
    assert!(Version::from_str("1").is_err());
    assert!(Version::from_str("1.2").is_err());
    assert!(Version::from_str("1.2.3.4").is_err());
    assert!(Version::from_str("a.b.c").is_err());
    assert!(Version::from_str("1.2.3-").is_err());
    assert!(Version::from_str("1.2.3+").is_err());
}

#[test]
fn test_version_display() {
    assert_eq!(Version::new(1, 2, 3).to_string(), "1.2.3");
    assert_eq!(
        Version::new(1, 2, 3).with_prerelease("alpha.1").to_string(),
        "1.2.3-alpha.1"
    );
    assert_eq!(
        Version::new(1, 2, 3).with_build("build.456").to_string(),
        "1.2.3+build.456"
    );
    assert_eq!(
        Version::new(1, 2, 3)
            .with_prerelease("alpha.1")
            .with_build("build.456")
            .to_string(),
        "1.2.3-alpha.1+build.456"
    );
}

#[test]
fn test_version_comparison() {
    // Basic version comparison
    assert!(Version::new(1, 2, 3) < Version::new(1, 2, 4));
    assert!(Version::new(1, 2, 3) < Version::new(1, 3, 0));
    assert!(Version::new(1, 2, 3) < Version::new(2, 0, 0));

    // Prerelease is less than non-prerelease
    assert!(Version::new(1, 2, 3).with_prerelease("alpha") < Version::new(1, 2, 3));

    // Prerelease comparison
    assert!(
        Version::new(1, 2, 3).with_prerelease("alpha")
            < Version::new(1, 2, 3).with_prerelease("beta")
    );

    assert!(
        Version::new(1, 2, 3).with_prerelease("alpha.1")
            < Version::new(1, 2, 3).with_prerelease("alpha.2")
    );

    assert!(
        Version::new(1, 2, 3).with_prerelease("alpha.1")
            < Version::new(1, 2, 3).with_prerelease("alpha.1.1")
    );

    // Numeric vs non-numeric prerelease identifiers
    assert!(
        Version::new(1, 2, 3).with_prerelease("1")
            < Version::new(1, 2, 3).with_prerelease("alpha")
    );

    assert!(
        Version::new(1, 2, 3).with_prerelease("alpha.1")
            < Version::new(1, 2, 3).with_prerelease("alpha.beta")
    );

    // Build metadata is ignored in version precedence
    let v1 = Version::new(1, 2, 3);
    let v2 = Version::new(1, 2, 3).with_build("build.1");

    assert!(!(v1 < v2));
    assert!(!(v1 > v2));

    let v3 = Version::new(1, 2, 3).with_build("build.1");
    let v4 = Version::new(1, 2, 3).with_build("build.2");

    assert!(!(v3 < v4));
    assert!(!(v3 > v4));
}

#[test]
fn test_version_compatibility() {
    let v1_2_3 = Version::new(1, 2, 3);
    assert!(v1_2_3.is_compatible_with(&Version::new(1, 2, 3)));
    assert!(v1_2_3.is_compatible_with(&Version::new(1, 2, 4)));
    assert!(v1_2_3.is_compatible_with(&Version::new(1, 3, 0)));
    assert!(!v1_2_3.is_compatible_with(&Version::new(2, 0, 0)));
    assert!(!v1_2_3.is_compatible_with(&Version::new(1, 1, 0)));

    let v0_1_2 = Version::new(0, 1, 2);
    assert!(v0_1_2.is_compatible_with(&Version::new(0, 1, 2)));
    assert!(v0_1_2.is_compatible_with(&Version::new(0, 1, 3)));
    assert!(!v0_1_2.is_compatible_with(&Version::new(0, 2, 0)));
    assert!(!v0_1_2.is_compatible_with(&Version::new(1, 0, 0)));
}

#[test]
fn test_version_increment() {
    let v1_2_3 = Version::new(1, 2, 3);
    let v1_2_4 = v1_2_3.increment_patch();
    assert_eq!(v1_2_4, Version::new(1, 2, 4));

    let v1_3_0 = v1_2_3.increment_minor();
    assert_eq!(v1_3_0, Version::new(1, 3, 0));

    let v2_0_0 = v1_2_3.increment_major();
    assert_eq!(v2_0_0, Version::new(2, 0, 0));

    // Prerelease and build metadata are dropped
    let v1_2_3_alpha = v1_2_3.with_prerelease("alpha").with_build("build.1");
    assert_eq!(v1_2_3_alpha.increment_patch(), Version::new(1, 2, 4));
    assert_eq!(v1_2_3_alpha.increment_minor(), Version::new(1, 3, 0));
    assert_eq!(v1_2_3_alpha.increment_major(), Version::new(2, 0, 0));
}

#[test]
fn version_text_parses_back() {
    let v = Version::new(10, 0, 7).with_prerelease("rc.1").with_build("sha.5114f85");
    let text = v.to_string();
    assert_eq!(text, "10.0.7-rc.1+sha.5114f85");
    assert_eq!(Version::from_str(&text).unwrap(), v);
    let err = Version::from_str("1.x.3").unwrap_err();
    assert_eq!(err.version, "1.x.3");
}

#[test]
fn error_messages() {
    assert_eq!(
        PolicyError::Violation("no".to_string()).to_string(),
        "Policy violation: no"
    );
    assert_eq!(
        ObservabilityError::SpanCreationFailed("x".to_string()).to_string(),
        "Span creation failed: x"
    );
    assert_eq!(
        IsolationError::ResourceExhausted("cpu".to_string()).to_string(),
        "Resource limits exceeded: cpu"
    );
    let id = PluginId::from_str("550e8400-e29b-41d4-a716-446655440000").unwrap();
    assert_eq!(
        IsolationError::PluginNotLoaded(id).to_string(),
        "Plugin not loaded: 550e8400-e29b-41d4-a716-446655440000"
    );
}

#[test]
fn test_error_conversion() {

    let plugin_err = PluginError::NotFound(PluginId::new());
    let error: SystemError = plugin_err.into();
    assert!(matches!(error, SystemError::Plugin(_)));

    let cap_err = CapabilityError::NotFound(CapabilityId::new());
    let error: SystemError = cap_err.into();
    assert!(matches!(error, SystemError::Capability(_)));

    let wf_err = WorkflowError::WorkflowNotFound(WorkflowId::new());
    let error: SystemError = wf_err.into();
    assert!(matches!(error, SystemError::Workflow(_)));
}

#[test]
fn test_error_display() {

    let plugin_id = PluginId::new();
    let plugin_err = PluginError::NotFound(plugin_id);
    let error: SystemError = plugin_err.into();
    let display = error.to_string();
    assert!(display.contains(&format!("Plugin not found: {}", plugin_id.to_string())));
}

#[test]
fn test_error_hierarchy() {

    let capability_error = CapabilityError::PermissionDenied("Access denied".to_string());
    let error: SystemError = capability_error.into();

    match &error {
        SystemError::Capability(e) => match e {
            CapabilityError::PermissionDenied(msg) => assert_eq!(msg, "Access denied"),
            _ => panic!("Expected PermissionDenied error"),
        },
        _ => panic!("Expected Capability error"),
    }

    let error_str = error.to_string();
    assert!(error_str.contains("Permission denied"));
    assert!(error_str.contains("Access denied"));
}

#[test]
fn error_messages_with_numbers_and_states() {

    assert_eq!(
        PluginError::Timeout(250).to_string(),
        "Function call timed out after 250ms"
    );
    assert_eq!(
        PluginError::InvalidState(PluginState::Paused).to_string(),
        "Plugin is in invalid state: Paused"
    );
    let id = PluginId::from_str("550e8400-e29b-41d4-a716-446655440000").unwrap();
    assert_eq!(
        ConcurrencyError::AcquisitionTimeout(7, id).to_string(),
        "Acquisition timeout after 7ms for plugin 550e8400-e29b-41d4-a716-446655440000"
    );
    assert_eq!(
        CapabilityError::TypeMismatch { expected: "file".to_string(), actual: "net".to_string() }
            .to_string(),
        "Capability type mismatch: expected file, got net"
    );
    let io = std::io::Error::new(std::io::ErrorKind::Other, "disk");
    let error: SystemError = io.into();
    assert_eq!(error.to_string(), "I/O error: disk");
}

#[test]
fn version_order_is_transitive_on_a_chain() {
    let texts = [
        "1.0.0-alpha",
        "1.0.0-alpha.1",
        "1.0.0-alpha.beta",
        "1.0.0-beta.2",
        "1.0.0-beta.11",
        "1.0.0-rc.1",
        "1.0.0",
        "1.0.1",
        "1.2.0",
        "2.0.0",
    ];
    let versions: Vec<Version> = texts.iter().map(|t| Version::from_str(t).unwrap()).collect();
    for i in 0..versions.len() {
        for j in 0..versions.len() {
            let expected = i.cmp(&j);
            assert_eq!(versions[i].compare(&versions[j]), expected, "{} vs {}", texts[i], texts[j]);
        }
    }
}

#[test]
fn numeric_prerelease_identifiers_compare_by_value() {
    let v = |p: &str| Version::new(1, 2, 3).with_prerelease(p);
    assert!(v("2") < v("10"));
    assert!(v("alpha.2") < v("alpha.10"));
    assert!(v("10") > v("9"));
    assert_eq!(v("007").compare(&v("7")), std::cmp::Ordering::Equal);
    assert_eq!(v("18446744073709551615").compare(&v("1")), std::cmp::Ordering::Greater);
}
