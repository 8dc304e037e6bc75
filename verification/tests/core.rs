use ocluster::circuit_breaker::{CircuitBreaker, CircuitState};
use ocluster::fingerprint::{inventory_fingerprint, ModelInventoryEntry};
use ocluster::model_mode::{effective_models, ModelMode};
use ocluster::retry::{classify_error, RetryPolicy, RetryableError};
use ocluster::routing::{
    explain_routing, filter_candidates, score_node, select_node, RejectionReason, RoutingCandidate,
    RoutingConfig, RoutingSnapshot,
};
use ocluster::state::{validate_runtime_transition, AdminState, CoreError, NodeRuntimeState};

#[test]
fn opens_after_threshold_failures() {
    let mut cb = CircuitBreaker::new(3, 2);
    cb.record_failure();
    cb.record_failure();
    assert_eq!(cb.state, CircuitState::Closed);
    cb.record_failure();
    assert_eq!(cb.state, CircuitState::Open);
    assert!(!cb.allows_routing());
}

#[test]
fn recovers_after_success_threshold() {
    let mut cb = CircuitBreaker::new(2, 2);
    cb.record_failure();
    cb.record_failure();
    assert_eq!(cb.state, CircuitState::Open);
    cb.begin_recovery();
    assert_eq!(cb.state, CircuitState::HalfOpen);
    cb.record_success();
    cb.record_success();
    assert_eq!(cb.state, CircuitState::Closed);
    assert!(cb.allows_routing());
}

#[test]
fn success_clears_failure_count() {
    let mut cb = CircuitBreaker::new(3, 2);
    cb.record_failure();
    cb.record_failure();
    cb.record_success();
    assert_eq!(cb.failure_count, 0);
    cb.record_failure();
    cb.record_failure();
    assert_eq!(cb.state, CircuitState::Closed);
}

#[test]
fn success_while_open_half_opens() {
    let mut cb = CircuitBreaker::new(1, 3);
    cb.record_failure();
    assert_eq!(cb.state, CircuitState::Open);
    cb.record_success();
    assert_eq!(cb.state, CircuitState::HalfOpen);
    assert_eq!(cb.consecutive_successes, 1);
    cb.record_failure();
    assert_eq!(cb.state, CircuitState::Open);
    assert_eq!(cb.consecutive_successes, 0);
}

#[test]
fn begin_recovery_only_from_open() {
    let mut cb = CircuitBreaker::new(3, 2);
    cb.begin_recovery();
    assert_eq!(cb.state, CircuitState::Closed);
}

fn entry(name: &str, digest: &str) -> ModelInventoryEntry {
    ModelInventoryEntry {
        name: name.into(),
        digest: digest.into(),
        size: 100,
        modified_at: "2026-01-01".into(),
    }
}

#[test]
fn fingerprint_stable_for_same_inventory() {
    let a = vec![entry("llama", "abc"), entry("qwen", "def")];
    let b = vec![entry("qwen", "def"), entry("llama", "abc")];
    assert_eq!(inventory_fingerprint(&a), inventory_fingerprint(&b));
}

#[test]
fn fingerprint_changes_on_digest_change() {
    let a = vec![entry("llama", "abc")];
    let b = vec![entry("llama", "xyz")];
    assert_ne!(inventory_fingerprint(&a), inventory_fingerprint(&b));
}

#[test]
fn fingerprint_is_sha256_of_sorted_entries() {
    // sha256 of "llama|abc|100|2026-01-01;qwen|def|100|2026-01-01;"
    let a = vec![entry("qwen", "def"), entry("llama", "abc")];
    let fp = inventory_fingerprint(&a);
    assert_eq!(fp.len(), 64);
    assert!(fp.chars().all(|c| c.is_ascii_hexdigit() && !c.is_ascii_uppercase()));
    let empty = inventory_fingerprint(&[]);
    assert_eq!(empty, "e3b0c44298fc1c149afbf4c8996fb92427ae41e4649b934ca495991b7852b855");
}

#[test]
fn discover_mode_uses_all_discovered() {
    let discovered: Vec<String> = vec!["a".into(), "b".into()];
    let configured: Vec<String> = vec!["b".into()];
    let effective = effective_models(ModelMode::Discover, &discovered, &configured);
    assert_eq!(effective, discovered);
}

#[test]
fn allow_mode_intersects() {
    let discovered: Vec<String> = vec!["a".into(), "b".into(), "c".into()];
    let configured: Vec<String> = vec!["b".into(), "d".into()];
    let effective = effective_models(ModelMode::Allow, &discovered, &configured);
    assert_eq!(effective, vec!["b".to_string()]);
}

#[test]
fn static_mode_uses_configured_only() {
    let discovered: Vec<String> = vec!["a".into()];
    let configured: Vec<String> = vec!["x".into(), "y".into()];
    let effective = effective_models(ModelMode::Static, &discovered, &configured);
    assert_eq!(effective, configured);
}

#[test]
fn connection_errors_are_retryable() {
    assert!(classify_error(None, "connection_refused").is_retryable());
    assert!(classify_error(Some(503), "http").is_retryable());
}

#[test]
fn client_cancellation_not_node_failure() {
    let err = classify_error(None, "client_cancellation");
    assert!(!err.is_retryable());
    assert!(!err.counts_as_node_failure());
}

#[test]
fn application_error_not_node_failure() {
    let err = classify_error(Some(400), "application_error");
    assert!(!err.counts_as_node_failure());
}

#[test]
fn retry_policy_respects_limit() {
    let policy = RetryPolicy { max_attempts: 2, retry_timeout_ms: 1000 };
    assert!(policy.allows_retry(0));
    assert!(policy.allows_retry(1));
    assert!(!policy.allows_retry(2));
}

#[test]
fn classify_unknown_kind_by_status() {
    assert_eq!(classify_error(Some(500), "other"), RetryableError::HttpServerError);
    assert_eq!(classify_error(Some(499), "other"), RetryableError::ApplicationError);
    assert_eq!(classify_error(None, "other"), RetryableError::ApplicationError);
    assert_eq!(
        classify_error(None, "upstream_disconnect_stream"),
        RetryableError::UpstreamDisconnectDuringStream
    );
    assert!(!RetryableError::UpstreamDisconnectDuringStream.is_retryable());
    assert!(RetryableError::UpstreamDisconnectDuringStream.counts_as_node_failure());
    let d = RetryPolicy::default();
    assert_eq!(d.max_attempts, 2);
    assert_eq!(d.retry_timeout_ms, 30_000);
}

#[test]
fn valid_runtime_transitions() {
    assert!(validate_runtime_transition(NodeRuntimeState::Ready, NodeRuntimeState::Suspect).is_ok());
    assert!(
        validate_runtime_transition(NodeRuntimeState::Unavailable, NodeRuntimeState::Recovering)
            .is_ok()
    );
    assert!(validate_runtime_transition(NodeRuntimeState::Recovering, NodeRuntimeState::Ready).is_ok());
}

#[test]
fn invalid_runtime_transitions_rejected() {
    assert!(validate_runtime_transition(NodeRuntimeState::Ready, NodeRuntimeState::Recovering).is_err());
}

#[test]
fn invalid_transition_error_names_states() {
    let err = validate_runtime_transition(NodeRuntimeState::Warming, NodeRuntimeState::Suspect)
        .unwrap_err();
    assert_eq!(
        err,
        CoreError::InvalidStateTransition { from: "warming".into(), to: "suspect".into() }
    );
    assert_eq!(err.message(), "invalid state transition from warming to suspect");
    let e2 = CoreError::NoEligibleNodes { model: "llama".into() };
    assert_eq!(e2.message(), "no eligible nodes for model 'llama'");
    assert!(validate_runtime_transition(NodeRuntimeState::Suspect, NodeRuntimeState::Suspect).is_ok());
}

#[test]
fn disabled_admin_state_blocks_routing() {
    assert!(!AdminState::Disabled.accepts_new_requests());
    assert!(!AdminState::Draining.accepts_new_requests());
    assert!(AdminState::Enabled.accepts_new_requests());
}

fn candidate(name: &str, active: u32, loaded: bool) -> RoutingCandidate {
    RoutingCandidate {
        node_id: format!("id-{name}"),
        node_name: name.into(),
        admin_state: AdminState::Enabled,
        runtime_state: NodeRuntimeState::Ready,
        circuit_state: CircuitState::Closed,
        has_model: true,
        model_loaded: loaded,
        model_denied: false,
        active_requests: active,
        queued_requests: 0,
        max_concurrent: 10,
        priority: 0,
        recent_failures: 0,
    }
}

#[test]
fn filters_disabled_and_unavailable() {
    let mut disabled = candidate("a", 0, true);
    disabled.admin_state = AdminState::Disabled;
    let mut unavailable = candidate("b", 0, true);
    unavailable.runtime_state = NodeRuntimeState::Unavailable;
    let ready = candidate("c", 0, true);

    let candidates = [disabled, unavailable, ready];
    let (eligible, rejected) = filter_candidates(&candidates);
    assert_eq!(eligible.len(), 1);
    assert_eq!(eligible[0].node_name, "c");
    assert_eq!(rejected.len(), 2);
}

#[test]
fn least_active_request_wins() {
    let config = RoutingConfig::default();
    let a = candidate("busy", 5, true);
    let b = candidate("idle", 1, true);
    let snapshot = RoutingSnapshot {
        model: "llama".into(),
        candidates: vec![a, b],
        config,
        rotation_index: 0,
    };
    assert_eq!(select_node(&snapshot).unwrap(), "idle");
}

#[test]
fn loaded_model_preference() {
    let config = RoutingConfig::default();
    let cold = candidate("cold", 2, false);
    let warm = candidate("warm", 2, true);
    let snapshot = RoutingSnapshot {
        model: "llama".into(),
        candidates: vec![cold, warm],
        config,
        rotation_index: 0,
    };
    assert_eq!(select_node(&snapshot).unwrap(), "warm");
}

#[test]
fn explain_includes_rejections() {
    let mut denied = candidate("denied", 0, true);
    denied.model_denied = true;
    let ok = candidate("ok", 0, true);
    let snapshot = RoutingSnapshot {
        model: "llama".into(),
        candidates: vec![denied, ok],
        config: RoutingConfig::default(),
        rotation_index: 0,
    };
    let explanation = explain_routing(&snapshot);
    assert_eq!(explanation.rejected.len(), 1);
    assert_eq!(explanation.eligible.len(), 1);
    assert_eq!(explanation.preferred, Some("ok".into()));
}

#[test]
fn rejection_reasons_in_order() {
    let mut c = candidate("x", 10, true);
    assert_eq!(filter_candidates(&[c.clone()]).1[0].reason, RejectionReason::OverConcurrencyLimit);
    c.model_denied = true;
    assert_eq!(filter_candidates(&[c.clone()]).1[0].reason, RejectionReason::ModelDenied);
    c.has_model = false;
    assert_eq!(filter_candidates(&[c.clone()]).1[0].reason, RejectionReason::ModelMissing);
    c.circuit_state = CircuitState::Open;
    assert_eq!(filter_candidates(&[c.clone()]).1[0].reason, RejectionReason::CircuitOpen);
    c.runtime_state = NodeRuntimeState::Recovering;
    assert_eq!(filter_candidates(&[c.clone()]).1[0].reason, RejectionReason::Recovering);
    c.runtime_state = NodeRuntimeState::Warming;
    assert_eq!(filter_candidates(&[c.clone()]).1[0].reason, RejectionReason::Unavailable);
    c.admin_state = AdminState::Drained;
    assert_eq!(filter_candidates(&[c.clone()]).1[0].reason, RejectionReason::Drained);
    c.admin_state = AdminState::Draining;
    assert_eq!(filter_candidates(&[c.clone()]).1[0].reason, RejectionReason::Draining);
    c.admin_state = AdminState::Disabled;
    assert_eq!(filter_candidates(&[c]).1[0].reason, RejectionReason::Disabled);
}

#[test]
fn score_in_thousandths() {
    let config = RoutingConfig::default();
    let mut c = candidate("x", 2, false);
    c.queued_requests = 3;
    c.recent_failures = 1;
    c.priority = 4;
    // 2*1000 + 3*500 + 1*3000 + 2000 (cold) - 4*100 = 8100
    assert_eq!(score_node(&c, &config), 8100);
    let warm = candidate("y", 1, true);
    // 1000 - 5000 = -4000
    assert_eq!(score_node(&warm, &config), -4000);
}

#[test]
fn tie_rotates_among_best_only() {
    let snapshot = |rot: usize| RoutingSnapshot {
        model: "llama".into(),
        candidates: vec![candidate("b", 1, true), candidate("a", 1, true), candidate("c", 3, true)],
        config: RoutingConfig::default(),
        rotation_index: rot,
    };
    assert_eq!(select_node(&snapshot(0)).unwrap(), "a");
    assert_eq!(select_node(&snapshot(1)).unwrap(), "b");
    assert_eq!(select_node(&snapshot(2)).unwrap(), "a");
    assert_eq!(select_node(&snapshot(3)).unwrap(), "b");
}

#[test]
fn no_eligible_candidate_selects_nothing() {
    let mut c = candidate("x", 0, true);
    c.admin_state = AdminState::Disabled;
    let snapshot = RoutingSnapshot {
        model: "llama".into(),
        candidates: vec![c],
        config: RoutingConfig::default(),
        rotation_index: 0,
    };
    assert_eq!(select_node(&snapshot), None);
    let e = explain_routing(&snapshot);
    assert_eq!(e.preferred, None);
    assert_eq!(e.eligible.len(), 0);
    assert_eq!(e.rejected[0].reason, RejectionReason::Disabled);
}
