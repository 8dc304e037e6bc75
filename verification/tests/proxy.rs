use ocluster::circuit_breaker::CircuitState;
use ocluster::config::default_config;
use ocluster::proxy::{
    admit_request, extract_model, is_stream_content_type, is_streaming, upstream_error_kind,
    upstream_url, ProxyAttempts, ProxyRefusal, ProxyStep,
};
use ocluster::routing::{RoutingCandidate, RoutingConfig, RoutingSnapshot};
use ocluster::runtime::ClusterRuntime;
use ocluster::state::{AdminState, NodeRuntimeState};

fn candidate(name: &str, active: u32) -> RoutingCandidate {
    RoutingCandidate {
        node_id: format!("id-{name}"),
        node_name: name.into(),
        admin_state: AdminState::Enabled,
        runtime_state: NodeRuntimeState::Ready,
        circuit_state: CircuitState::Closed,
        has_model: true,
        model_loaded: true,
        model_denied: false,
        active_requests: active,
        queued_requests: 0,
        max_concurrent: 10,
        priority: 0,
        recent_failures: 0,
    }
}

#[test]
fn request_body_fields() {
    let body = br#"{"model":"llama3.2:latest","prompt":"hi","stream":true}"#;
    assert_eq!(extract_model(body).as_deref(), Some("llama3.2:latest"));
    assert!(is_streaming(body));
    assert!(!is_streaming(br#"{"model":"x","stream":false}"#));
    assert!(!is_streaming(br#"{"model":"x"}"#));
    assert_eq!(extract_model(br#"{"model":5}"#), None);
    assert_eq!(extract_model(b"not json"), None);
}

#[test]
fn admission_order() {
    let mut config = default_config();
    config.denied_models.push("bad".into());
    config.proxy.request_body_buffer_bytes = 10;
    let mut rt = ClusterRuntime::from_records(config, vec![]);
    assert_eq!(admit_request(&rt, &Some("bad".into()), 100), Err(ProxyRefusal::ModelDenied));
    assert_eq!(admit_request(&rt, &Some("ok".into()), 11), Err(ProxyRefusal::BodyTooLarge));
    assert_eq!(admit_request(&rt, &None, 5), Err(ProxyRefusal::ModelNotSpecified));
    assert_eq!(admit_request(&rt, &Some("ok".into()), 10), Ok(()));
    rt.shutting_down = true;
    assert_eq!(admit_request(&rt, &Some("ok".into()), 1), Err(ProxyRefusal::ShuttingDown));
    let r = ProxyRefusal::BodyTooLarge;
    assert_eq!((r.status(), r.message().as_str()), (413, "request body too large"));
    let r = ProxyRefusal::ModelDenied;
    assert_eq!((r.status(), r.message().as_str()), (403, "model denied"));
    let r = ProxyRefusal::ShuttingDown;
    assert_eq!((r.status(), r.message().as_str()), (503, "cluster shutting down"));
    let r = ProxyRefusal::ModelNotSpecified;
    assert_eq!((r.status(), r.message().as_str()), (400, "model not specified in request"));
}

#[test]
fn retries_go_to_untried_nodes() {
    let snapshot = RoutingSnapshot {
        model: "llama".into(),
        candidates: vec![candidate("a", 0), candidate("b", 1)],
        config: RoutingConfig::default(),
        rotation_index: 0,
    };
    let mut attempts = ProxyAttempts::new(5);
    match attempts.next_target(&snapshot) {
        ProxyStep::Forward { node_name } => assert_eq!(node_name, "a"),
        other => panic!("unexpected {other:?}"),
    }
    assert_eq!(attempts.after_failure("boom".into(), None, "connection_refused", false), None);
    match attempts.next_target(&snapshot) {
        ProxyStep::Forward { node_name } => assert_eq!(node_name, "b"),
        other => panic!("unexpected {other:?}"),
    }
    assert_eq!(attempts.after_failure("bust".into(), None, "connection_refused", false), None);
    match attempts.next_target(&snapshot) {
        ProxyStep::Fail { status, message } => {
            assert_eq!(status, 503);
            assert_eq!(message, "bust");
        }
        other => panic!("unexpected {other:?}"),
    }
    assert_eq!(attempts.tried, vec!["a".to_string(), "b".to_string()]);
}

#[test]
fn no_eligible_node_fails_with_default_message() {
    let snapshot = RoutingSnapshot {
        model: "llama".into(),
        candidates: vec![],
        config: RoutingConfig::default(),
        rotation_index: 0,
    };
    let mut attempts = ProxyAttempts::new(2);
    match attempts.next_target(&snapshot) {
        ProxyStep::Fail { status, message } => {
            assert_eq!(status, 503);
            assert_eq!(message, "no eligible nodes");
        }
        other => panic!("unexpected {other:?}"),
    }
}

#[test]
fn retry_limit_and_partial_answers() {
    let mut attempts = ProxyAttempts::new(2);
    assert_eq!(attempts.after_failure("one".into(), None, "connection_refused", false), None);
    assert_eq!(attempts.after_failure("two".into(), None, "connection_refused", false), Some((502, "two".to_string())));
    let mut streamed = ProxyAttempts::new(5);
    assert_eq!(streamed.after_failure("cut".into(), None, "connection_refused", true), Some((502, "cut".to_string())));
    assert_eq!(streamed.attempts, 0);
    let mut app_error = ProxyAttempts::new(5);
    assert_eq!(
        app_error.after_failure("not found".into(), Some(404), "application_error", false),
        Some((502, "not found".to_string()))
    );
    assert_eq!(app_error.attempts, 1);
    let mut server_error = ProxyAttempts::new(5);
    assert_eq!(server_error.after_failure("busy".into(), Some(503), "http_server_error", false), None);
    let mut none = ProxyAttempts::new(0);
    assert_eq!(none.after_failure("x".into(), None, "connection_refused", false), Some((502, "x".to_string())));
}

#[test]
fn upstream_helpers() {
    assert_eq!(upstream_error_kind(503), "http_server_error");
    assert_eq!(upstream_error_kind(404), "application_error");
    assert!(is_stream_content_type("application/x-ndjson"));
    assert!(is_stream_content_type("text/event-stream"));
    assert!(!is_stream_content_type("application/json"));
    assert_eq!(upstream_url("http://h:1//", "/api/chat"), "http://h:1/api/chat");
    assert_eq!(upstream_url("http://h:1", "/api/chat"), "http://h:1/api/chat");
}
