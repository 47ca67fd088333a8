use lion::lion_core::access::{AccessRequest, AccessRequestType};
use lion::lion_core::id::{CapabilityId, PluginId};
use lion::lion_core::memory::{MemoryAccess, MemoryRegion, MemoryRegionType};
use lion::lion_core::plugin::{
    rolling_average, PluginMetadata, PluginState, PluginType, ResourceUsage,
};

#[test]
fn test_memory_region_type() {
    // Test is_shareable
    assert!(!MemoryRegionType::Private.is_shareable());
    assert!(MemoryRegionType::Shared.is_shareable());
    assert!(MemoryRegionType::ReadOnly.is_shareable());
    assert!(MemoryRegionType::RingBuffer.is_shareable());
    assert!(MemoryRegionType::Direct.is_shareable());

    // Test allows_write
    assert!(MemoryRegionType::Private.allows_write());
    assert!(MemoryRegionType::Shared.allows_write());
    assert!(!MemoryRegionType::ReadOnly.allows_write());
    assert!(MemoryRegionType::RingBuffer.allows_write());
    assert!(MemoryRegionType::Direct.allows_write());

    // Test as_str
    assert_eq!(MemoryRegionType::Private.as_str(), "Private");
    assert_eq!(MemoryRegionType::Shared.as_str(), "Shared");
    assert_eq!(MemoryRegionType::ReadOnly.as_str(), "ReadOnly");
    assert_eq!(MemoryRegionType::RingBuffer.as_str(), "RingBuffer");
    assert_eq!(MemoryRegionType::Direct.as_str(), "Direct");
}

#[test]
fn test_memory_region() {
    // Test new
    let region = MemoryRegion::new(1024, MemoryRegionType::Shared);
    assert_eq!(region.size, 1024);
    assert_eq!(region.region_type, MemoryRegionType::Shared);

    // Test factory methods
    let private = MemoryRegion::new_private(1024);
    assert_eq!(private.region_type, MemoryRegionType::Private);

    let shared = MemoryRegion::new_shared(1024);
    assert_eq!(shared.region_type, MemoryRegionType::Shared);

    let read_only = MemoryRegion::new_read_only(1024);
    assert_eq!(read_only.region_type, MemoryRegionType::ReadOnly);

    let ring_buffer = MemoryRegion::new_ring_buffer(1024);
    assert_eq!(ring_buffer.region_type, MemoryRegionType::RingBuffer);

    // Test is_shareable
    assert!(!private.is_shareable());
    assert!(shared.is_shareable());

    // Test allows_write
    assert!(private.allows_write());
    assert!(shared.allows_write());
    assert!(!read_only.allows_write());
}

#[test]
fn test_memory_access() {
    // Test can_read
    assert!(MemoryAccess::ReadOnly.can_read());
    assert!(MemoryAccess::ReadWrite.can_read());

    // Test can_write
    assert!(!MemoryAccess::ReadOnly.can_write());
    assert!(MemoryAccess::ReadWrite.can_write());
}

#[test]
fn test_plugin_type_display() {
    assert_eq!(PluginType::Wasm.to_string(), "WebAssembly");
    assert_eq!(PluginType::Native.to_string(), "Native");
    assert_eq!(PluginType::JavaScript.to_string(), "JavaScript");
    assert_eq!(PluginType::Remote.to_string(), "Remote");
}

#[test]
fn test_plugin_state_display() {
    assert_eq!(PluginState::Created.to_string(), "Created");
    assert_eq!(PluginState::Ready.to_string(), "Ready");
    assert_eq!(PluginState::Running.to_string(), "Running");
    assert_eq!(PluginState::Paused.to_string(), "Paused");
    assert_eq!(PluginState::Failed.to_string(), "Failed");
    assert_eq!(PluginState::Terminated.to_string(), "Terminated");
    assert_eq!(PluginState::Upgrading.to_string(), "Upgrading");
}

#[test]
fn test_plugin_state_methods() {
    // Test is_active
    assert!(!PluginState::Created.is_active());
    assert!(PluginState::Ready.is_active());
    assert!(PluginState::Running.is_active());
    assert!(PluginState::Paused.is_active());
    assert!(!PluginState::Failed.is_active());
    assert!(!PluginState::Terminated.is_active());
    assert!(PluginState::Upgrading.is_active());

    // Test allows_calls
    assert!(!PluginState::Created.allows_calls());
    assert!(!PluginState::Ready.allows_calls());
    assert!(PluginState::Running.allows_calls());
    assert!(!PluginState::Paused.allows_calls());
    assert!(!PluginState::Failed.allows_calls());
    assert!(!PluginState::Terminated.allows_calls());
    assert!(!PluginState::Upgrading.allows_calls());

    // Test allows_transitions
    assert!(PluginState::Created.allows_transitions());
    assert!(PluginState::Ready.allows_transitions());
    assert!(PluginState::Running.allows_transitions());
    assert!(PluginState::Paused.allows_transitions());
    assert!(!PluginState::Failed.allows_transitions());
    assert!(!PluginState::Terminated.allows_transitions());
    assert!(PluginState::Upgrading.allows_transitions());

    // Test valid_next_states
    assert!(PluginState::Created
        .valid_next_states()
        .contains(&PluginState::Ready));
    assert!(PluginState::Ready
        .valid_next_states()
        .contains(&PluginState::Running));
    assert!(PluginState::Running
        .valid_next_states()
        .contains(&PluginState::Paused));
    assert!(PluginState::Paused
        .valid_next_states()
        .contains(&PluginState::Running));
    assert!(PluginState::Failed
        .valid_next_states()
        .contains(&PluginState::Terminated));
    assert!(PluginState::Terminated.valid_next_states().is_empty());

    // Test can_transition_to
    assert!(PluginState::Created.can_transition_to(PluginState::Ready));
    assert!(PluginState::Ready.can_transition_to(PluginState::Running));
    assert!(PluginState::Running.can_transition_to(PluginState::Paused));
    assert!(PluginState::Paused.can_transition_to(PluginState::Running));
    assert!(PluginState::Failed.can_transition_to(PluginState::Terminated));

    assert!(!PluginState::Created.can_transition_to(PluginState::Running));
    assert!(!PluginState::Ready.can_transition_to(PluginState::Paused));
    assert!(!PluginState::Terminated.can_transition_to(PluginState::Ready));
}

#[test]
fn test_plugin_metadata() {
    // Test constructor
    let metadata = PluginMetadata::new("Test Plugin", "1.0.0", "A test plugin", PluginType::Wasm);

    assert_eq!(metadata.name, "Test Plugin");
    assert_eq!(metadata.version, "1.0.0");
    assert_eq!(metadata.description, "A test plugin");
    assert_eq!(metadata.plugin_type, PluginType::Wasm);
    assert_eq!(metadata.state, PluginState::Created);
    assert!(metadata.functions.is_empty());

    // Test update_state
    let mut metadata = metadata.clone();
    assert!(metadata.update_state(PluginState::Ready));
    assert_eq!(metadata.state, PluginState::Ready);

    // Test invalid state transition
    assert!(!metadata.update_state(PluginState::Paused));
    assert_eq!(metadata.state, PluginState::Ready);

    // Test add_function and set_functions
    let mut metadata = metadata.clone();
    metadata.add_function("test_function");
    assert_eq!(metadata.functions, vec!["test_function"]);

    metadata.set_functions(vec!["function1".to_string(), "function2".to_string()]);
    assert_eq!(metadata.functions, vec!["function1", "function2"]);
}

#[test]
fn plugin_state_terminated_has_no_successor() {
    for next in [
        PluginState::Created,
        PluginState::Ready,
        PluginState::Running,
        PluginState::Paused,
        PluginState::Failed,
        PluginState::Terminated,
        PluginState::Upgrading,
    ] {
        assert!(!PluginState::Terminated.can_transition_to(next));
        assert!(!next.can_transition_to(PluginState::Created));
        if next != PluginState::Terminated {
            assert!(next.can_transition_to(PluginState::Terminated));
        }
    }
}

#[test]
fn rolling_average_of_call_durations() {
    assert_eq!(rolling_average(0, 1, 1000), 1000);
    assert_eq!(rolling_average(1000, 2, 3000), 2000);
    assert_eq!(rolling_average(2000, 3, 1000), 1666);
}

#[test]
fn test_id_new() {
    let id1 = PluginId::new();
    let id2 = PluginId::new();
    assert_ne!(id1, id2, "Generated IDs should be unique");
}

#[test]
fn test_id_display() {
    let id = PluginId::new();
    let display = id.to_string();
    assert_eq!(display.len(), 36, "UUID string should be 36 characters");
}

#[test]
fn test_id_from_str() {
    let uuid_str = "550e8400-e29b-41d4-a716-446655440000";
    let id = PluginId::from_str(uuid_str).unwrap();
    assert_eq!(id.to_string(), uuid_str);
}

#[test]
fn test_id_from_uuid() {
    let uuid = uuid::Uuid::new_v4();
    let id = PluginId::from_uuid(uuid);
    assert_eq!(id.uuid(), uuid);
}

#[test]
fn test_id_nil() {
    let nil_id = PluginId::nil();
    assert_eq!(nil_id.to_string(), "00000000-0000-0000-0000-000000000000");
    assert!(nil_id.is_nil());
}

#[test]
fn test_type_safety() {
    let _plugin_id = PluginId::new();
    let _capability_id = CapabilityId::new();

    let same_uuid = uuid::Uuid::new_v4();
    let plugin_id = PluginId::from_uuid(same_uuid);
    let capability_id = CapabilityId::from_uuid(same_uuid);

    assert_eq!(plugin_id.uuid(), capability_id.uuid());
}

#[test]
fn id_bytes_are_big_endian_uuid_bytes() {
    let id = PluginId::from_str("550e8400-e29b-41d4-a716-446655440000").unwrap();
    assert_eq!(
        id.to_bytes(),
        vec![0x55, 0x0e, 0x84, 0x00, 0xe2, 0x9b, 0x41, 0xd4, 0xa7, 0x16, 0x44, 0x66, 0x55, 0x44, 0x00, 0x00]
    );
    assert!(PluginId::from_str("not-a-uuid").is_err());
}

#[test]
fn test_access_type() {
    // Test file access request
    let request = AccessRequest::file_read("/tmp/test.txt");
    assert_eq!(request.access_type(), AccessRequestType::File);

    // Test network access request
    let request = AccessRequest::network_connect("example.com", 80);
    assert_eq!(request.access_type(), AccessRequestType::Network);

    // Test plugin call access request
    let request = AccessRequest::plugin_call("plugin1", "function1");
    assert_eq!(request.access_type(), AccessRequestType::PluginCall);

    // Test memory access request
    let request = AccessRequest::memory_read("region1");
    assert_eq!(request.access_type(), AccessRequestType::Memory);

    // Test message access request
    let request = AccessRequest::message_send("plugin1", "topic1");
    assert_eq!(request.access_type(), AccessRequestType::Message);

    // Test custom access request
    let request = AccessRequest::Custom {
        resource_type: "custom".to_string(),
        operation: "operation".to_string(),
        params: serde_json::Value::Object(serde_json::Map::new()),
    };
    match request.access_type() {
        AccessRequestType::Custom(kind) => assert_eq!(kind, "custom"),
        _ => panic!("Expected AccessRequestType::Custom"),
    }
}

#[test]
fn test_file_access_constructors() {
    let request = AccessRequest::file_read("/tmp/test.txt");
    match request {
        AccessRequest::File { path, read, write, execute } => {
            assert_eq!(path, "/tmp/test.txt");
            assert!(read);
            assert!(!write);
            assert!(!execute);
        }
        _ => panic!("Expected AccessRequest::File"),
    }

    let request = AccessRequest::file_write("/tmp/test.txt");
    match request {
        AccessRequest::File { path, read, write, execute } => {
            assert_eq!(path, "/tmp/test.txt");
            assert!(!read);
            assert!(write);
            assert!(!execute);
        }
        _ => panic!("Expected AccessRequest::File"),
    }

    let request = AccessRequest::file_execute("/tmp/test.txt");
    match request {
        AccessRequest::File { path, read, write, execute } => {
            assert_eq!(path, "/tmp/test.txt");
            assert!(!read);
            assert!(!write);
            assert!(execute);
        }
        _ => panic!("Expected AccessRequest::File"),
    }

    let request = AccessRequest::file_read_write("/tmp/test.txt");
    match request {
        AccessRequest::File { path, read, write, execute } => {
            assert_eq!(path, "/tmp/test.txt");
            assert!(read);
            assert!(write);
            assert!(!execute);
        }
        _ => panic!("Expected AccessRequest::File"),
    }
}

#[test]
fn test_network_access_constructors() {
    let request = AccessRequest::network_connect("example.com", 80);
    match request {
        AccessRequest::Network { host, port, connect, listen } => {
            assert_eq!(host, "example.com");
            assert_eq!(port, 80);
            assert!(connect);
            assert!(!listen);
        }
        _ => panic!("Expected AccessRequest::Network"),
    }

    let request = AccessRequest::network_listen("0.0.0.0", 8080);
    match request {
        AccessRequest::Network { host, port, connect, listen } => {
            assert_eq!(host, "0.0.0.0");
            assert_eq!(port, 8080);
            assert!(!connect);
            assert!(listen);
        }
        _ => panic!("Expected AccessRequest::Network"),
    }
}

#[test]
fn test_plugin_call_constructor() {
    let request = AccessRequest::plugin_call("plugin1", "function1");
    match request {
        AccessRequest::PluginCall { plugin_id, function } => {
            assert_eq!(plugin_id, "plugin1");
            assert_eq!(function, "function1");
        }
        _ => panic!("Expected AccessRequest::PluginCall"),
    }
}

#[test]
fn test_memory_access_constructors() {
    let request = AccessRequest::memory_read("region1");
    match request {
        AccessRequest::Memory { region_id, read, write } => {
            assert_eq!(region_id, "region1");
            assert!(read);
            assert!(!write);
        }
        _ => panic!("Expected AccessRequest::Memory"),
    }

    let request = AccessRequest::memory_write("region1");
    match request {
        AccessRequest::Memory { region_id, read, write } => {
            assert_eq!(region_id, "region1");
            assert!(!read);
            assert!(write);
        }
        _ => panic!("Expected AccessRequest::Memory"),
    }
}

#[test]
fn test_message_send_constructor() {
    let request = AccessRequest::message_send("plugin1", "topic1");
    match request {
        AccessRequest::Message { recipient, topic } => {
            assert_eq!(recipient, "plugin1");
            assert_eq!(topic, "topic1");
        }
        _ => panic!("Expected AccessRequest::Message"),
    }
}

#[test]
fn test_resource_usage() {
    // Test constructor
    let usage = ResourceUsage::new();
    assert_eq!(usage.memory_bytes, 0);
    assert_eq!(usage.cpu_time_us, 0);
    assert_eq!(usage.function_calls, 0);

    // Test update_memory
    let mut usage = usage.clone();
    usage.update_memory(1024);
    assert_eq!(usage.memory_bytes, 1024);
    assert_eq!(usage.peak_memory_bytes, 1024);

    usage.update_memory(2048);
    assert_eq!(usage.memory_bytes, 2048);
    assert_eq!(usage.peak_memory_bytes, 2048);

    usage.update_memory(1024);
    assert_eq!(usage.memory_bytes, 1024);
    assert_eq!(usage.peak_memory_bytes, 2048);

    // Test update_cpu_time
    let mut usage = usage.clone();
    usage.update_cpu_time(1000);
    assert_eq!(usage.cpu_time_us, 1000);
    assert_eq!(usage.peak_cpu_time_us, 1000);

    usage.update_cpu_time(2000);
    assert_eq!(usage.cpu_time_us, 2000);
    assert_eq!(usage.peak_cpu_time_us, 2000);

    // Test record_function_call
    let mut usage = usage.clone();
    usage.record_function_call(1000);
    assert_eq!(usage.function_calls, 1);
    assert_eq!(usage.avg_function_call_us, 1000);

    usage.record_function_call(3000);
    assert_eq!(usage.function_calls, 2);
    assert_eq!(usage.avg_function_call_us, 2000);

    // Test set_active_instances
    let mut usage = usage.clone();
    usage.set_active_instances(5);
    assert_eq!(usage.active_instances, 5);

    // Test custom metrics (values are kept as the bits of their f64)
    let mut usage = usage.clone();
    usage.set_custom_metric("test_metric", 42.0f64.to_bits());
    assert_eq!(usage.get_custom_metric("test_metric").map(f64::from_bits), Some(42.0));
    assert_eq!(usage.get_custom_metric("nonexistent"), None);

    // Test reset
    let mut usage = usage.clone();
    usage.update_memory(1024);
    usage.update_cpu_time(1000);
    usage.record_function_call(1000);
    usage.set_active_instances(5);
    usage.set_custom_metric("test_metric", 42.0f64.to_bits());

    usage.reset();
    assert_eq!(usage.memory_bytes, 0);
    assert_eq!(usage.cpu_time_us, 0);
    assert_eq!(usage.function_calls, 0);
    assert_eq!(usage.active_instances, 0);
    assert_eq!(usage.peak_memory_bytes, 0);
    assert_eq!(usage.peak_cpu_time_us, 0);
    assert_eq!(usage.avg_function_call_us, 0);
    assert!(usage.custom_metrics.is_empty());
}

#[test]
fn custom_metric_set_twice_keeps_the_last_value() {
    let mut usage = ResourceUsage::default();
    usage.set_custom_metric("a", 1.5f64.to_bits());
    usage.set_custom_metric("b", 2.5f64.to_bits());
    usage.set_custom_metric("a", 3.5f64.to_bits());
    assert_eq!(usage.get_custom_metric("a").map(f64::from_bits), Some(3.5));
    assert_eq!(usage.get_custom_metric("b").map(f64::from_bits), Some(2.5));
    assert_eq!(usage.custom_metrics.len(), 2);
}

#[test]
fn new_ids_are_random_version_4() {
    for _ in 0..16 {
        let id = PluginId::new();
        let uuid = id.uuid();
        assert_eq!(uuid.get_version_num(), 4);
        assert_eq!(uuid.as_u128() >> 62 & 0b11, 0b10);
        assert_eq!(PluginId::from_uuid(uuid), id);
    }
}
