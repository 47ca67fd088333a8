use std::sync::Arc;
use std::time::{Duration, Instant};

use lion::lion_core::error::IsolationError;
use lion::lion_core::id::PluginId;
use lion::lion_isolation::capability::{CapabilityChecker, DefaultCapabilityChecker};
use lion::lion_isolation::lifecycle::{PluginLifecycle, PluginState};
use lion::lion_isolation::resource::{
    aggregate_usage, average_call_time, DefaultResourceLimiter, ResourceLimiter,
    ResourceMetering, ResourceUsage,
};

#[test]
fn test_default_capability_checker() {
    let mut checker = DefaultCapabilityChecker::new();

    // Check that operations are not allowed by default
    assert!(checker.check_capability("test", "read_file", &[]).is_err());

    // Grant a capability
    checker.grant_capability("test", "read_file");

    // Check that the operation is now allowed
    assert!(checker.check_capability("test", "read_file", &[]).is_ok());

    // Check that other operations are still not allowed
    assert!(checker.check_capability("test", "write_file", &[]).is_err());

    // Revoke the capability
    checker.revoke_capability("test", "read_file");

    // Check that the operation is no longer allowed
    assert!(checker.check_capability("test", "read_file", &[]).is_err());
}

#[test]
fn capability_grants_are_per_plugin_and_idempotent() {
    let mut checker = DefaultCapabilityChecker::default();
    checker.grant_capability("a", "x");
    checker.grant_capability("a", "x");
    checker.grant_capability("b", "y");
    checker.revoke_capability("a", "x");
    assert_eq!(
        checker.check_capability("a", "x", b"params"),
        Err("Operation 'x' not allowed for plugin 'a'".to_string())
    );
    assert!(checker.check_capability("b", "y", &[]).is_ok());
    assert!(checker.check_capability("b", "x", &[]).is_err());
    checker.revoke_capability("nobody", "x");
}

#[test]
fn test_default_resource_limiter() {
    let limiter = DefaultResourceLimiter::default();

    assert_eq!(limiter.memory_limit, Some(100 * 1024 * 1024));
    assert_eq!(limiter.cpu_time_limit, Some(10 * 1000 * 1000));
    assert_eq!(limiter.function_timeout, Some(5000));
}

#[test]
fn test_check_limits() {
    let limiter = DefaultResourceLimiter::new(Some(100), Some(100), Some(100));

    let usage = ResourceUsage {
        memory_bytes: 50,
        cpu_time_us: 50,
        function_calls: 1,
        function_start_time: Instant::now(),
    };
    assert!(limiter.check_limits(&usage).is_ok());

    let usage = ResourceUsage {
        memory_bytes: 200,
        cpu_time_us: 50,
        function_calls: 1,
        function_start_time: Instant::now(),
    };
    assert!(limiter.check_limits(&usage).is_err());

    let usage = ResourceUsage {
        memory_bytes: 50,
        cpu_time_us: 200,
        function_calls: 1,
        function_start_time: Instant::now(),
    };
    assert!(limiter.check_limits(&usage).is_err());

    let usage = ResourceUsage {
        memory_bytes: 50,
        cpu_time_us: 50,
        function_calls: 1,
        function_start_time: Instant::now() - Duration::from_millis(200),
    };
    assert!(limiter.check_limits(&usage).is_err());
}

#[test]
fn limit_messages() {
    let limiter = DefaultResourceLimiter::new(Some(100), Some(100), Some(100));
    let usage = ResourceUsage {
        memory_bytes: 200,
        cpu_time_us: 300,
        function_calls: 1,
        function_start_time: Instant::now(),
    };
    assert_eq!(
        limiter.check_limits_at(&usage, 0),
        Err(IsolationError::ResourceExhausted(
            "Memory usage (200 bytes) exceeds limit (100 bytes)".to_string()
        ))
    );
    let usage = ResourceUsage { memory_bytes: 10, ..usage };
    assert_eq!(
        limiter.check_limits_at(&usage, 0),
        Err(IsolationError::ResourceExhausted(
            "CPU time (300 us) exceeds limit (100 us)".to_string()
        ))
    );
    let usage = ResourceUsage { cpu_time_us: 10, ..usage };
    assert_eq!(
        limiter.check_limits_at(&usage, 101),
        Err(IsolationError::ResourceExhausted(
            "Function timeout (100 ms) exceeded".to_string()
        ))
    );
    assert_eq!(limiter.check_limits_at(&usage, 100), Ok(()));
    let unlimited = DefaultResourceLimiter::new(None, None, None);
    assert_eq!(unlimited.check_limits_at(&usage, u64::MAX), Ok(()));
}

#[test]
fn test_default() {
    let usage = ResourceUsage::default();

    assert_eq!(usage.memory_bytes, 0);
    assert_eq!(usage.cpu_time_us, 0);
    assert_eq!(usage.function_calls, 0);
}

#[test]
fn test_record_usage() {
    let limiter = Arc::new(DefaultResourceLimiter::default());
    let mut metering = ResourceMetering::new(limiter);

    metering.record_usage(100, 100);
    assert_eq!(metering.usage().cpu_time_us, 100);
    assert_eq!(metering.usage().memory_bytes, 100);

    metering.record_usage(100, 200);
    assert_eq!(metering.usage().cpu_time_us, 200);
    assert_eq!(metering.usage().memory_bytes, 200);

    metering.record_usage(100, 150);
    assert_eq!(metering.usage().cpu_time_us, 300);
    assert_eq!(metering.usage().memory_bytes, 200);
}

#[test]
fn test_increment_function_calls() {
    let limiter = Arc::new(DefaultResourceLimiter::default());
    let mut metering = ResourceMetering::new(limiter);

    assert_eq!(metering.usage().function_calls, 0);
    metering.increment_function_calls();
    assert_eq!(metering.usage().function_calls, 1);
}

#[test]
fn test_is_within_limits() {
    let limiter = Arc::new(DefaultResourceLimiter::new(Some(100), Some(100), Some(100)));
    let mut metering = ResourceMetering::new(limiter);

    assert!(metering.is_within_limits());

    metering.record_usage(50, 50);
    assert!(metering.is_within_limits());

    metering.record_usage(0, 150);
    assert!(!metering.is_within_limits());
}

#[test]
fn usage_totals_over_instances() {
    let now = Instant::now();
    let usages = vec![
        Some(ResourceUsage { memory_bytes: 10, cpu_time_us: 100, function_calls: 2, function_start_time: now }),
        None,
        Some(ResourceUsage { memory_bytes: 30, cpu_time_us: 200, function_calls: 1, function_start_time: now }),
    ];
    let totals = aggregate_usage(&usages);
    assert_eq!(totals.memory_bytes, 30);
    assert_eq!(totals.cpu_time_us, 300);
    assert_eq!(totals.function_calls, 3);
    assert_eq!(totals.active_instances, 3);
    assert_eq!(average_call_time(totals.cpu_time_us, totals.function_calls), 100);
    assert_eq!(average_call_time(5, 0), 0);
}

#[test]
fn lifecycle_transitions() {
    let plugin_id = PluginId::new();
    let mut lifecycle = PluginLifecycle::new(plugin_id, PluginState::Loading);

    assert_eq!(*lifecycle.plugin_id(), plugin_id);
    assert_eq!(lifecycle.state(), PluginState::Loading);
    assert_eq!(lifecycle.function_calls(), 0);
    assert!(!lifecycle.can_call_function());

    lifecycle.transition_to(PluginState::Loaded);
    assert_eq!(lifecycle.state(), PluginState::Loaded);
    assert!(lifecycle.last_state_change() >= lifecycle.created_at());
    assert!(lifecycle.can_call_function());

    lifecycle.increment_function_calls();
    assert_eq!(lifecycle.function_calls(), 1);

    lifecycle.transition_to(PluginState::Running);
    assert!(lifecycle.can_call_function());

    lifecycle.transition_to(PluginState::Failed);
    assert!(!lifecycle.can_call_function());
}

#[test]
fn test_to_core_resource_usage() {
    let usage = ResourceUsage {
        memory_bytes: 100,
        cpu_time_us: 200,
        function_calls: 3,
        function_start_time: Instant::now(),
    };

    let core_usage = usage.to_core_resource_usage();

    assert_eq!(core_usage.memory_bytes, 100);
    assert_eq!(core_usage.cpu_time_us, 200);
    assert_eq!(core_usage.function_calls, 3);
    assert_eq!(core_usage.active_instances, 1);
    assert_eq!(core_usage.avg_function_call_us, 66);
    assert_eq!(core_usage.peak_memory_bytes, 100);
}

#[test]
fn totals_in_core_form() {
    let totals = aggregate_usage(&vec![
        Some(ResourceUsage {
            memory_bytes: 10,
            cpu_time_us: 100,
            function_calls: 4,
            function_start_time: Instant::now(),
        }),
        None,
    ]);
    let core = totals.to_core_resource_usage();
    assert_eq!(core.active_instances, 2);
    assert_eq!(core.avg_function_call_us, 25);
    assert_eq!(core.function_calls, 4);
}
