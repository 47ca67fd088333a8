use std::collections::HashMap;

use lion::lion_core::id::NodeId;
use lion::lion_core::workflow::{ErrorPolicy, ExecutionOptions, NodeType, Workflow, WorkflowNode};

fn create_test_workflow() -> Workflow {
    let mut workflow = Workflow::new("Test Workflow", "A test workflow");

    let node1 = WorkflowNode::new_plugin_call("Node 1", "plugin1", "function1");
    let node1_id = node1.id;
    workflow.add_node(node1);

    let node2 = WorkflowNode::new_plugin_call("Node 2", "plugin2", "function2");
    let node2_id = node2.id;
    workflow.add_node(node2);

    let mut node3 = WorkflowNode::new_plugin_call("Node 3", "plugin3", "function3");
    node3.add_dependency(node1_id);
    node3.add_dependency(node2_id);
    workflow.add_node(node3);

    workflow
}

#[test]
fn test_workflow_creation() {
    let workflow = Workflow::new("Test Workflow", "A test workflow");
    assert_eq!(workflow.name, "Test Workflow");
    assert_eq!(workflow.description, "A test workflow");
    assert!(workflow.nodes.is_empty());
}

#[test]
fn test_add_get_remove_node() {
    let mut workflow = Workflow::new("Test Workflow", "A test workflow");

    let node = WorkflowNode::new_plugin_call("Test Node", "plugin1", "function1");
    let node_id = node.id;
    workflow.add_node(node);

    let retrieved = workflow.get_node(&node_id).unwrap();
    assert_eq!(retrieved.name, "Test Node");

    let retrieved_mut = workflow.get_node_mut(&node_id).unwrap();
    retrieved_mut.name = "Updated Node".to_string();

    let retrieved = workflow.get_node(&node_id).unwrap();
    assert_eq!(retrieved.name, "Updated Node");

    let removed = workflow.remove_node(&node_id).unwrap();
    assert_eq!(removed.id, node_id);

    assert!(workflow.get_node(&node_id).is_none());
}

#[test]
fn test_dependencies() {
    let workflow = create_test_workflow();

    let entry_nodes = workflow.entry_nodes();
    assert_eq!(entry_nodes.len(), 2);
    assert!(entry_nodes.iter().any(|n| n.name == "Node 1"));
    assert!(entry_nodes.iter().any(|n| n.name == "Node 2"));

    let node1 = workflow.nodes.iter().find(|n| n.name == "Node 1").unwrap();
    let dependents = workflow.get_dependents(&node1.id);
    assert_eq!(dependents.len(), 1);
    assert_eq!(dependents[0].name, "Node 3");
}

#[test]
fn test_workflow_validation() {
    let mut workflow = create_test_workflow();

    // Valid workflow should validate successfully
    assert!(workflow.validate().is_ok());

    // Adding an invalid dependency should fail validation
    let node3 = workflow
        .nodes
        .iter_mut()
        .find(|n| n.name == "Node 3")
        .unwrap();
    node3.dependencies.push(NodeId::new());
    assert!(workflow.validate().is_err());

    // Create a workflow with a cycle
    let mut workflow = Workflow::new("Cycle Workflow", "A workflow with a cycle");

    let node1 = WorkflowNode::new_plugin_call("Node 1", "plugin1", "function1");
    let node1_id = node1.id;
    workflow.add_node(node1);

    let mut node2 = WorkflowNode::new_plugin_call("Node 2", "plugin2", "function2");
    node2.add_dependency(node1_id);
    let node2_id = node2.id;
    workflow.add_node(node2);

    let mut node3 = WorkflowNode::new_plugin_call("Node 3", "plugin3", "function3");
    node3.add_dependency(node2_id);
    let node3_id = node3.id;
    workflow.add_node(node3);

    // Create a cycle by making node1 depend on node3
    let node1 = workflow.get_node_mut(&node1_id).unwrap();
    node1.add_dependency(node3_id);

    // Validation should fail due to the cycle
    assert!(workflow.validate().is_err());
}

#[test]
fn validation_messages() {
    let mut workflow = Workflow::new("W", "messages");
    let a = WorkflowNode::new_plugin_call("A", "p", "f");
    let a_id = a.id;
    workflow.add_node(a);
    let missing = NodeId::from_str("00000000-0000-0000-0000-00000000000a").unwrap();
    workflow.get_node_mut(&a_id).unwrap().add_dependency(missing);
    assert_eq!(
        workflow.validate(),
        Err(format!(
            "Node {} depends on non-existent node 00000000-0000-0000-0000-00000000000a",
            a_id.to_string()
        ))
    );

    let mut workflow = Workflow::new("W", "self loop");
    let b = WorkflowNode::new_plugin_call("B", "p", "f");
    let b_id = b.id;
    workflow.add_node(b);
    workflow.get_node_mut(&b_id).unwrap().add_dependency(b_id);
    assert_eq!(
        workflow.validate(),
        Err(format!(
            "Cycle detected in workflow: {} -> {}",
            b_id.to_string(),
            b_id.to_string()
        ))
    );
}

#[test]
fn test_node_creation() {
    let node = WorkflowNode::new(
        "Test Node",
        NodeType::PluginCall {
            plugin_id: "plugin1".to_string(),
            function: "function1".to_string(),
        },
    );
    assert_eq!(node.name, "Test Node");
    assert!(node.dependencies.is_empty());
    assert_eq!(node.error_policy, ErrorPolicy::Fail);

    let node = WorkflowNode::new_plugin_call("Test Node", "plugin1", "function1");
    match node.node_type {
        NodeType::PluginCall { plugin_id, function } => {
            assert_eq!(plugin_id, "plugin1");
            assert_eq!(function, "function1");
        }
        _ => panic!("Expected NodeType::PluginCall"),
    }

    let node = WorkflowNode::new_map("Test Node", "plugin1", "function1");
    match node.node_type {
        NodeType::MapOver { plugin_id, function } => {
            assert_eq!(plugin_id, "plugin1");
            assert_eq!(function, "function1");
        }
        _ => panic!("Expected NodeType::MapOver"),
    }
}

#[test]
fn test_node_dependencies() {
    let mut node = WorkflowNode::new_plugin_call("Test Node", "plugin1", "function1");

    let dep_id = NodeId::new();
    node.add_dependency(dep_id);
    assert_eq!(node.dependencies.len(), 1);
    assert_eq!(node.dependencies[0], dep_id);

    node.add_dependency(dep_id);
    assert_eq!(node.dependencies.len(), 1);

    let dep_id2 = NodeId::new();
    node.add_dependency(dep_id2);
    assert_eq!(node.dependencies.len(), 2);
    assert_eq!(node.dependencies[1], dep_id2);
}

#[test]
fn test_error_policy() {
    let mut node = WorkflowNode::new_plugin_call("Test Node", "plugin1", "function1");

    assert_eq!(node.error_policy, ErrorPolicy::Fail);

    node.set_error_policy(ErrorPolicy::Retry { max_attempts: 3 });
    match node.error_policy {
        ErrorPolicy::Retry { max_attempts } => assert_eq!(max_attempts, 3),
        _ => panic!("Expected ErrorPolicy::Retry"),
    }
}

#[test]
fn test_execution_options() {
    let options = ExecutionOptions::default();
    assert_eq!(options.timeout_ms, Some(300_000));
    assert_eq!(options.max_concurrency, Some(4));
    assert!(!options.enable_checkpointing);

    let mut input = serde_json::Map::new();
    input.insert("key".to_string(), serde_json::Value::String("value".to_string()));
    let mut options = ExecutionOptions {
        input: Some(serde_json::Value::Object(input)),
        timeout_ms: Some(60_000),
        max_concurrency: Some(10),
        enable_checkpointing: true,
        tags: HashMap::new(),
        callback_url: Some("https://example.com/callback".to_string()),
    };

    options
        .tags
        .insert("environment".to_string(), "production".to_string());

    assert_eq!(options.timeout_ms, Some(60_000));
    assert_eq!(options.max_concurrency, Some(10));
    assert!(options.enable_checkpointing);
    assert_eq!(options.tags.get("environment").unwrap(), "production");
    assert_eq!(
        options.callback_url,
        Some("https://example.com/callback".to_string())
    );
}

#[test]
fn validation_reports_the_first_cycle_the_search_closes() {
    let mut workflow = Workflow::new("W", "two cycles");
    let n1 = WorkflowNode::new_plugin_call("N1", "p", "f");
    let n2 = WorkflowNode::new_plugin_call("N2", "p", "f");
    let n3 = WorkflowNode::new_plugin_call("N3", "p", "f");
    let (id1, id2, id3) = (n1.id, n2.id, n3.id);
    workflow.add_node(n1);
    workflow.add_node(n2);
    workflow.add_node(n3);
    workflow.get_node_mut(&id1).unwrap().add_dependency(id2);
    workflow.get_node_mut(&id2).unwrap().add_dependency(id3);
    workflow.get_node_mut(&id2).unwrap().add_dependency(id1);
    workflow.get_node_mut(&id3).unwrap().add_dependency(id2);
    assert_eq!(
        workflow.validate(),
        Err(format!(
            "Cycle detected in workflow: {} -> {} -> {}",
            id2.to_string(),
            id3.to_string(),
            id2.to_string()
        ))
    );
}
