use lion::lion_core::error::{IsolationError, SystemError};
use lion::lion_core::id::PluginId;
use lion::lion_core::logging::{record_text, LogLevel};
use lion::lion_isolation::backend::{already_loaded, begin_call};
use lion::lion_isolation::hostcall::{host_log, received_bytes, signed_text, HostCall};
use lion::lion_isolation::lifecycle::{PluginLifecycle, PluginState};
use lion::lion_isolation::linear_memory::{null_terminated_len, read_region, write_region};
use lion::lion_isolation::pool::{call_outcome, InstancePool};
use lion::lion_observability::capability::LogLevel as ObsLevel;
use lion::lion_observability::logging::event_text;

#[test]
fn host_call_operations_and_params() {
    let read = HostCall::ReadFile("test.txt".to_string());
    assert_eq!(read.operation(), "read_file");
    assert_eq!(read.capability_params(), b"test.txt".to_vec());

    let connect = HostCall::Connect("example.com".to_string(), 8080);
    assert_eq!(connect.operation(), "connect");
    assert_eq!(connect.capability_params(), b"example.com:8080".to_vec());

    assert_eq!(HostCall::Send(-3, 4).capability_params(), b"-3".to_vec());
    assert_eq!(HostCall::Close(7).operation(), "close");
    assert_eq!(HostCall::Log(2, "hi".to_string()).capability_params(), b"2".to_vec());
    assert!(HostCall::GetTime.capability_params().is_empty());
    assert_eq!(HostCall::Exit(0).capability_params(), b"0".to_vec());
}

#[test]
fn host_call_result_codes() {
    let allowed: Option<Result<(), String>> = Some(Ok(()));
    let denied: Option<Result<(), String>> = Some(Err("no".to_string()));
    let unchecked: Option<Result<(), String>> = None;

    assert_eq!(HostCall::ReadFile("a".to_string()).result_code(&allowed, 0), 0);
    assert_eq!(HostCall::WriteFile("a".to_string(), 12).result_code(&unchecked, 0), 12);
    assert_eq!(HostCall::Connect("h".to_string(), 1).result_code(&allowed, 0), 3);
    assert_eq!(HostCall::Send(1, 5).result_code(&allowed, 0), 5);
    assert_eq!(HostCall::Recv(1, 5).result_code(&allowed, 0), 5);
    assert_eq!(HostCall::Recv(1, 100).result_code(&allowed, 0), 16);
    assert_eq!(HostCall::Close(1).result_code(&allowed, 0), 0);
    assert_eq!(HostCall::Log(9, "m".to_string()).result_code(&allowed, 0), 0);
    assert_eq!(HostCall::GetTime.result_code(&allowed, 1234), 1234);
    assert_eq!(HostCall::Exit(42).result_code(&allowed, 0), 42);

    assert_eq!(HostCall::WriteFile("a".to_string(), 12).result_code(&denied, 0), -2);
    assert_eq!(HostCall::GetTime.result_code(&denied, 1234), -1);
}

#[test]
fn recv_hands_out_the_greeting() {
    assert_eq!(received_bytes(5), b"Hello".to_vec());
    assert_eq!(received_bytes(64), b"Hello from host!".to_vec());
    assert!(received_bytes(0).is_empty());
}

#[test]
fn host_log_levels_and_lines() {
    let (level, line) = host_log("p1", 2, "started");
    assert_eq!(level, LogLevel::Info);
    assert_eq!(line, "[Plugin p1] started");
    let (level, line) = host_log("p1", 3, "careful");
    assert_eq!(level, LogLevel::Warning);
    assert_eq!(line, "[Plugin p1] careful");
    let (level, line) = host_log("p1", 7, "ignored");
    assert_eq!(level, LogLevel::Error);
    assert_eq!(line, "[Plugin p1] Unknown log level: 7");
    let (_, line) = host_log("p1", -1, "ignored");
    assert_eq!(line, "[Plugin p1] Unknown log level: -1");
}

#[test]
fn signed_text_matches_to_string() {
    for n in [0, 7, -7, 42, i32::MAX, i32::MIN] {
        assert_eq!(signed_text(n), n.to_string());
    }
}

#[test]
fn pool_returns_then_hands_out_last_in() {
    let id = PluginId::new();
    let other = PluginId::new();
    let mut pool: InstancePool<u32> = InstancePool::new();
    assert!(pool.get_instance(&id).is_none());
    assert!(pool.plugin_instances(&id).is_none());

    pool.return_instance(id, 1);
    pool.return_instance(id, 2);
    pool.return_instance(other, 9);
    assert_eq!(pool.plugin_instances(&id), Some(&vec![1, 2]));
    assert_eq!(pool.get_instance(&id), Some(2));
    assert_eq!(pool.get_instance(&id), Some(1));
    assert_eq!(pool.get_instance(&id), None);
    assert_eq!(pool.plugin_instances(&id), Some(&Vec::new()));
    assert_eq!(pool.get_instance(&other), Some(9));
}

#[test]
fn pool_keeps_at_most_the_bound() {
    let id = PluginId::new();
    let mut pool: InstancePool<u32> = InstancePool::default();
    pool.set_max_instances_per_plugin(2);
    pool.return_instance(id, 1);
    pool.return_instance(id, 2);
    pool.return_instance(id, 3);
    assert_eq!(pool.plugin_instances(&id), Some(&vec![1, 2]));

    pool.remove_plugin_instances(&id);
    assert!(pool.plugin_instances(&id).is_none());

    pool.ensure_plugin(id);
    assert_eq!(pool.plugin_instances(&id), Some(&Vec::new()));
}

fn isolation_error(e: SystemError) -> IsolationError {
    match e {
        SystemError::Isolation(i) => i,
        other => panic!("not an isolation error: {:?}", other),
    }
}

#[test]
fn call_outcomes() {
    let id = PluginId::nil();
    let nil = "00000000-0000-0000-0000-000000000000";

    let r = call_outcome("run", &id, false, &Ok(0), Ok(()));
    assert_eq!(
        isolation_error(r.unwrap_err()),
        IsolationError::LinkingFailed(format!("Function 'run' not found in plugin {}", nil))
    );

    let r = call_outcome("run", &id, true, &Err("trap".to_string()), Ok(()));
    assert_eq!(
        isolation_error(r.unwrap_err()),
        IsolationError::ExecutionTrap(format!(
            "Failed to call function 'run' in plugin {}: trap",
            nil
        ))
    );

    let r = call_outcome("run", &id, true, &Ok(-5), Ok(()));
    assert_eq!(
        isolation_error(r.unwrap_err()),
        IsolationError::ExecutionTrap("Function 'run' returned error code -5".to_string())
    );

    let limit = IsolationError::ResourceExhausted("too much".to_string());
    let r = call_outcome("run", &id, true, &Ok(42), Err(limit.clone()));
    assert_eq!(isolation_error(r.unwrap_err()), limit);

    let r = call_outcome("run", &id, true, &Ok(42), Ok(()));
    assert_eq!(r.unwrap(), Vec::<u8>::new());
}

#[test]
fn backend_decisions() {
    let id = PluginId::nil();
    let nil = "00000000-0000-0000-0000-000000000000";
    assert_eq!(
        isolation_error(already_loaded(&id)),
        IsolationError::LoadFailed(format!("Plugin {} already exists", nil))
    );

    let mut lifecycle = PluginLifecycle::new(id, PluginState::Loaded);
    assert!(begin_call(&mut lifecycle).is_ok());
    assert_eq!(lifecycle.state(), PluginState::Running);
    assert!(begin_call(&mut lifecycle).is_ok());
    assert_eq!(lifecycle.state(), PluginState::Running);

    let mut paused = PluginLifecycle::new(id, PluginState::Paused);
    assert_eq!(
        isolation_error(begin_call(&mut paused).unwrap_err()),
        IsolationError::ExecutionTrap(format!("Plugin {} is not in a runnable state", nil))
    );
    assert_eq!(paused.state(), PluginState::Paused);
}

#[test]
fn memory_read_after_write() {
    let mut memory = vec![0u8; 16];
    assert!(write_region(&mut memory, 0, b"hello"));
    assert_eq!(read_region(&memory, 0, 5), Some(b"hello".to_vec()));
    assert!(write_region(&mut memory, 6, b"world"));
    assert_eq!(read_region(&memory, 0, 11), Some(b"hello\0world".to_vec()));
    assert_eq!(null_terminated_len(&memory, 0), 5);
    assert_eq!(null_terminated_len(&memory, 6), 5);
    assert_eq!(null_terminated_len(&memory, 16), 0);
    assert_eq!(null_terminated_len(&memory, 40), 0);

    assert!(!write_region(&mut memory, 14, b"abc"));
    assert_eq!(memory[14], 0);
    assert_eq!(read_region(&memory, 14, 3), None);
    assert_eq!(read_region(&memory, usize::MAX, 2), None);
    assert_eq!(read_region(&memory, 16, 0), Some(Vec::new()));
}

#[test]
fn log_event_and_record_texts() {
    let text = event_text(
        "2024-01-01T00:00:00Z",
        ObsLevel::Info,
        "hello",
        &Some("p".to_string()),
        &None,
        &Some("t".to_string()),
        &Some("s".to_string()),
        &vec![("a".to_string(), "1".to_string()), ("b".to_string(), "\"x\"".to_string())],
    );
    assert_eq!(
        text,
        "[2024-01-01T00:00:00Z] INFO - hello [plugin:p] [trace:t,span:s] {a:1, b:\"x\"}"
    );
    let plain = event_text("ts", ObsLevel::Warn, "m", &None, &Some("r".to_string()), &Some(
        "t".to_string(),
    ), &None, &Vec::new());
    assert_eq!(plain, "[ts] WARN - m [request:r]");

    let record = record_text(
        "2024-01-01 00:00:00.000",
        LogLevel::Error,
        "boom",
        "main.rs",
        42,
        &vec![("k".to_string(), "v".to_string()), ("x".to_string(), "y".to_string())],
    );
    assert_eq!(record, "2024-01-01 00:00:00.000 [ERROR] - boom [main.rs:42] - k=v x=y");
    let bare = record_text("t", LogLevel::Debug, "m", "f.rs", 1, &Vec::new());
    assert_eq!(bare, "t [DEBUG] - m [f.rs:1]");
}
