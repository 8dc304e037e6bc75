use ocluster::api::{
    check_add_node, check_remove_node, model_summaries, node_not_found, node_operation,
    parse_model_mode, readiness, sync_operation,
};
use ocluster::circuit_breaker::CircuitState;
use ocluster::config::default_config;
use ocluster::discovery::{apply_discovery_to_runtime, discovery_result, TagModel};
use ocluster::health::{begin_recovery, mark_unavailable, record_failure, record_success, recovery_delay_ms};
use ocluster::model_mode::ModelMode;
use ocluster::protocol::AddNodeRequest;
use ocluster::runtime::ClusterRuntime;
use ocluster::state::{AdminState, NodeRuntimeState};
use ocluster::store::{parse_runtime_state, NodeRecord, StoredModel};

fn record(name: &str, url: &str) -> NodeRecord {
    NodeRecord {
        id: format!("id-{name}"),
        name: name.into(),
        url: url.into(),
        admin_state: AdminState::Enabled,
        runtime_state: NodeRuntimeState::Ready,
        ollama_version: None,
        model_mode: ModelMode::Discover,
        configured_models: vec![],
        max_concurrent: 8,
        priority: 0,
        labels: vec![],
        inventory_fingerprint: None,
    }
}

fn runtime_with(names: &[&str]) -> ClusterRuntime {
    let records = names.iter().map(|n| record(n, "http://10.0.0.1:11434")).collect();
    ClusterRuntime::from_records(default_config(), records)
}

fn tag(name: &str, digest: &str) -> TagModel {
    TagModel {
        name: name.into(),
        digest: Some(digest.into()),
        size: Some(100),
        modified_at: Some("2026-01-01".into()),
        details: None,
    }
}

#[test]
fn later_record_replaces_earlier() {
    let mut second = record("a", "http://10.0.0.9:11434");
    second.id = "id-second".into();
    let rt = ClusterRuntime::from_records(
        default_config(),
        vec![record("a", "http://10.0.0.1:11434"), record("b", "http://10.0.0.2:11434"), second],
    );
    assert_eq!(rt.nodes.len(), 2);
    assert_eq!(rt.nodes[0].record.name, "a");
    assert_eq!(rt.nodes[0].record.url, "http://10.0.0.9:11434");
    assert_eq!(rt.nodes[1].record.name, "b");
    assert!(rt.has_node("b"));
    assert!(!rt.has_node("c"));
}

#[test]
fn discovery_makes_model_routable() {
    let mut rt = runtime_with(&["gpu-01"]);
    let result = discovery_result(Some("0.5.0".into()), vec![tag("llama3.2:latest", "abc")], vec![]);
    assert_eq!(result.discovered, vec!["llama3.2:latest".to_string()]);
    let write = apply_discovery_to_runtime(&mut rt, "gpu-01", &result).unwrap();
    let inventory = write.inventory.unwrap();
    assert_eq!(inventory.models.len(), 1);
    assert_eq!(inventory.event_message, "discovered 1 models");
    assert_eq!(write.record.ollama_version.as_deref(), Some("0.5.0"));
    assert_eq!(write.record.runtime_state, NodeRuntimeState::Ready);
    // the same inventory again rewrites no model rows
    assert!(apply_discovery_to_runtime(&mut rt, "gpu-01", &result).unwrap().inventory.is_none());
    assert!(apply_discovery_to_runtime(&mut rt, "nope", &result).is_err());

    let snapshot = rt.routing_snapshot("llama3.2:latest");
    assert_eq!(snapshot.candidates.len(), 1);
    assert!(snapshot.candidates[0].has_model);
    assert_eq!(ocluster::routing::select_node(&snapshot).as_deref(), Some("gpu-01"));
    let other = rt.routing_snapshot("qwen");
    assert_eq!(ocluster::routing::select_node(&other), None);
}

#[test]
fn denied_model_is_never_selected() {
    let mut config = default_config();
    config.denied_models.push("llama3.2:latest".into());
    let mut rt = ClusterRuntime::from_records(config, vec![record("gpu-01", "http://10.0.0.1:11434")]);
    let result = discovery_result(None, vec![tag("llama3.2:latest", "abc")], vec![]);
    apply_discovery_to_runtime(&mut rt, "gpu-01", &result).unwrap();
    let snapshot = rt.routing_snapshot("llama3.2:latest");
    assert!(snapshot.candidates[0].model_denied);
    assert_eq!(ocluster::routing::select_node(&snapshot), None);
}

#[test]
fn track_then_finish_restores_load() {
    let mut rt = runtime_with(&["gpu-01"]);
    let id = rt.track_request("llama".into(), "gpu-01".into(), false);
    assert_eq!(rt.nodes[0].active_requests, 1);
    assert_eq!(rt.requests.len(), 1);
    assert!(rt.node_has_active_requests("gpu-01"));
    assert!(check_remove_node(&rt, "gpu-01").is_err());
    rt.finish_request(&id);
    assert_eq!(rt.nodes[0].active_requests, 0);
    assert_eq!(rt.requests.len(), 0);
    assert!(check_remove_node(&rt, "gpu-01").is_ok());
    assert!(rt.remove_runtime_node("gpu-01"));
    assert!(!rt.has_node("gpu-01"));
}

#[test]
fn rotation_wraps() {
    let mut rt = runtime_with(&[]);
    rt.rotation_index = usize::MAX;
    rt.advance_rotation();
    assert_eq!(rt.rotation_index, 0);
    rt.advance_rotation();
    assert_eq!(rt.rotation_index, 1);
}

#[test]
fn failures_open_circuit_and_mark_unavailable() {
    let mut rt = runtime_with(&["gpu-01"]);
    assert!(!record_failure(&mut rt, "gpu-01", Some(503), "http_server_error"));
    assert_eq!(rt.nodes[0].record.runtime_state, NodeRuntimeState::Ready);
    assert_eq!(rt.nodes[0].recent_failures, 1);
    assert!(!record_failure(&mut rt, "gpu-01", None, "connection_refused"));
    assert!(record_failure(&mut rt, "gpu-01", None, "connection_refused"));
    assert_eq!(rt.nodes[0].circuit.state, CircuitState::Open);
    assert_eq!(rt.nodes[0].record.runtime_state, NodeRuntimeState::Unavailable);
    let rec = mark_unavailable(&mut rt, "gpu-01").unwrap();
    assert_eq!(rec.runtime_state, NodeRuntimeState::Unavailable);
    begin_recovery(&mut rt, "gpu-01");
    assert_eq!(rt.nodes[0].record.runtime_state, NodeRuntimeState::Recovering);
    assert_eq!(rt.nodes[0].circuit.state, CircuitState::HalfOpen);
    record_success(&mut rt, "gpu-01");
    record_success(&mut rt, "gpu-01");
    assert_eq!(rt.nodes[0].circuit.state, CircuitState::Closed);
    assert_eq!(rt.nodes[0].record.runtime_state, NodeRuntimeState::Ready);
    assert_eq!(rt.nodes[0].recent_failures, 0);
}

#[test]
fn application_errors_do_not_count() {
    let mut rt = runtime_with(&["gpu-01"]);
    assert!(!record_failure(&mut rt, "gpu-01", Some(400), "application_error"));
    assert_eq!(rt.nodes[0].record.runtime_state, NodeRuntimeState::Ready);
    assert_eq!(rt.nodes[0].recent_failures, 0);
}

#[test]
fn recovery_backoff_doubles_up_to_limit() {
    let rt = runtime_with(&[]);
    assert_eq!(recovery_delay_ms(&rt, 0), 1_000);
    assert_eq!(recovery_delay_ms(&rt, 1), 2_000);
    assert_eq!(recovery_delay_ms(&rt, 3), 8_000);
    assert_eq!(recovery_delay_ms(&rt, 6), 60_000);
    assert_eq!(recovery_delay_ms(&rt, 200), 60_000);
}

#[test]
fn drains_complete_without_requests() {
    let mut rt = runtime_with(&["a", "b"]);
    rt.set_admin_state("a", AdminState::Draining).unwrap();
    rt.set_admin_state("b", AdminState::Draining).unwrap();
    let id = rt.track_request("m".into(), "b".into(), false);
    let changed = rt.complete_drains();
    assert_eq!(changed.len(), 1);
    assert_eq!(changed[0].name, "a");
    assert_eq!(rt.nodes[0].record.admin_state, AdminState::Drained);
    assert_eq!(rt.nodes[1].record.admin_state, AdminState::Draining);
    rt.finish_request(&id);
    assert_eq!(rt.complete_drains().len(), 1);
    assert!(rt.set_admin_state("zz", AdminState::Enabled).is_none());
}

#[test]
fn add_node_checks() {
    let rt = runtime_with(&["gpu-01"]);
    let req = |name: &str, url: &str| AddNodeRequest {
        name: name.into(),
        url: url.into(),
        model_mode: Some("static".into()),
        max_concurrent: None,
    };
    let e = check_add_node(&rt, &req("x", "not a url")).unwrap_err();
    assert_eq!((e.status, e.code.as_str(), e.message.as_str()), (400, "INVALID_URL", "Invalid node URL"));
    let e = check_add_node(&rt, &req("gpu-01", "http://10.0.0.2:11434")).unwrap_err();
    assert_eq!(e.status, 409);
    assert_eq!(e.message, "Node 'gpu-01' already exists");
    assert!(check_add_node(&rt, &req("gpu-02", "http://127.0.0.1:11434")).is_ok());
    let rec = ocluster::api::new_node_record(&req("gpu-02", "http://10.0.0.2:11434"));
    assert_eq!(rec.model_mode, ModelMode::Static);
    assert_eq!(rec.max_concurrent, 8);
    assert_eq!(rec.runtime_state, NodeRuntimeState::Warming);
    assert_eq!(rec.id.len(), 36);
    assert_eq!(rec.id.chars().nth(14), Some('4'));
    assert!(rec.id.chars().enumerate().all(|(i, c)| if [8, 13, 18, 23].contains(&i) {
        c == '-'
    } else {
        c.is_ascii_hexdigit() && !c.is_ascii_uppercase()
    }));
    let e = node_not_found("zz");
    assert_eq!((e.status, e.message.as_str()), (404, "Node 'zz' not found"));
    assert_eq!(parse_model_mode(Some("allow")), ModelMode::Allow);
    assert_eq!(parse_model_mode(Some("other")), ModelMode::Discover);
    assert_eq!(node_operation("a", "enabled").message, "Node 'a' enabled");
    assert_eq!(sync_operation(3).message, "Synchronised 3 node(s)");
}

#[test]
fn readiness_follows_shutdown() {
    let mut rt = runtime_with(&[]);
    assert_eq!(readiness(&rt), (200, "ready"));
    rt.shutting_down = true;
    assert_eq!(readiness(&rt), (503, "not_ready"));
}

fn stored(node: &str, model: &str, available: bool, loaded: bool) -> StoredModel {
    StoredModel {
        id: format!("{node}-{model}"),
        node_id: node.into(),
        model_name: model.into(),
        digest: None,
        size: None,
        family: None,
        parameter_size: None,
        quantisation: None,
        modified_at: None,
        discovered: true,
        configured: false,
        permitted: true,
        available,
        loaded,
    }
}

#[test]
fn model_summaries_count_per_model() {
    let models = vec![
        stored("n1", "llama", true, true),
        stored("n2", "qwen", true, false),
        stored("n2", "llama", false, false),
    ];
    let s = model_summaries(&models);
    assert_eq!(s.len(), 2);
    assert_eq!(s[0].name, "llama");
    assert_eq!((s[0].node_count, s[0].ready_nodes, s[0].loaded_instances), (2, 1, 1));
    assert_eq!(s[1].name, "qwen");
    assert_eq!((s[1].node_count, s[1].ready_nodes, s[1].loaded_instances), (1, 1, 0));
}

#[test]
fn stored_state_names_round_trip() {
    for s in [
        NodeRuntimeState::Ready,
        NodeRuntimeState::Suspect,
        NodeRuntimeState::Unavailable,
        NodeRuntimeState::Recovering,
        NodeRuntimeState::Warming,
    ] {
        assert_eq!(parse_runtime_state(s.as_str()), s);
    }
    assert_eq!(parse_runtime_state("bogus"), NodeRuntimeState::Ready);
}

#[test]
fn disabled_node_never_selected() {
    let mut rt = runtime_with(&["node-a", "node-b"]);
    for name in ["node-a", "node-b"] {
        let result = discovery_result(None, vec![tag("llama3.2:latest", "abc")], vec![]);
        apply_discovery_to_runtime(&mut rt, name, &result).unwrap();
    }
    rt.set_admin_state("node-a", AdminState::Disabled).unwrap();
    for rotation in 0..4 {
        rt.rotation_index = rotation;
        let snapshot = rt.routing_snapshot("llama3.2:latest");
        assert_eq!(ocluster::routing::select_node(&snapshot).as_deref(), Some("node-b"));
    }
}

#[test]
fn discovery_after_restart_restores_models() {
    // a stored record that already carries the fingerprint, as after a restart
    let result = discovery_result(None, vec![tag("llama3.2:latest", "abc")], vec!["llama3.2:latest".into()]);
    let mut rec = record("gpu-01", "http://10.0.0.1:11434");
    rec.inventory_fingerprint = Some(result.fingerprint.clone());
    rec.runtime_state = NodeRuntimeState::Warming;
    let mut rt = ClusterRuntime::from_records(default_config(), vec![rec]);
    assert!(rt.nodes[0].discovered_models.is_empty());
    let write = apply_discovery_to_runtime(&mut rt, "gpu-01", &result).unwrap();
    assert!(write.inventory.is_none());
    assert_eq!(rt.nodes[0].discovered_models, vec!["llama3.2:latest".to_string()]);
    assert_eq!(rt.nodes[0].loaded_models, vec!["llama3.2:latest".to_string()]);
    assert_eq!(rt.nodes[0].record.runtime_state, NodeRuntimeState::Ready);
    let snapshot = rt.routing_snapshot("llama3.2:latest");
    assert_eq!(ocluster::routing::select_node(&snapshot).as_deref(), Some("gpu-01"));
}
