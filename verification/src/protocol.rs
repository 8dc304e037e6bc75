//! Management API payloads. Times are milliseconds since the Unix epoch.

use vstd::prelude::*;
use crate::routing::RoutingExplanation;
use crate::state::{AdminState, NodeRuntimeState};

verus! {

/// The management API version.
pub const API_VERSION: &'static str = "v1";

/// The application version.
pub const APP_VERSION: &'static str = "0.1.0";

/// Cluster status summary.
#[derive(Debug)]
pub struct ClusterStatusResponse {
    pub version: String,
    pub api_version: String,
    pub state: String,
    pub uptime_seconds: u64,
    pub nodes_total: usize,
    pub nodes_ready: usize,
    pub nodes_unavailable: usize,
    pub nodes_draining: usize,
    pub models_total: usize,
    pub active_requests: usize,
    pub queued_requests: usize,
}

/// Version and capability information.
#[derive(Debug)]
pub struct VersionResponse {
    pub app_version: String,
    pub api_version: String,
    pub features: Vec<String>,
}

/// Node summary for list endpoints.
#[derive(Debug)]
pub struct NodeSummary {
    pub name: String,
    pub url: String,
    pub admin_state: AdminState,
    pub runtime_state: NodeRuntimeState,
    pub ollama_version: Option<String>,
    pub active_requests: u32,
    pub model_count: usize,
    pub loaded_models: usize,
    pub last_contact: Option<i64>,
}

/// Detailed node inspection response.
#[derive(Debug)]
pub struct NodeDetailResponse {
    pub summary: NodeSummary,
    pub labels: Vec<(String, String)>,
    pub max_concurrent: u32,
    pub models: Vec<String>,
}

/// Request to register a node.
#[derive(Debug)]
pub struct AddNodeRequest {
    pub name: String,
    pub url: String,
    pub model_mode: Option<String>,
    pub max_concurrent: Option<u32>,
}

/// Request to update an existing node.
#[derive(Debug)]
pub struct UpdateNodeRequest {
    pub url: Option<String>,
    pub model_mode: Option<String>,
    pub max_concurrent: Option<u32>,
}

/// Model summary across the cluster.
#[derive(Debug)]
pub struct ModelSummary {
    pub name: String,
    pub node_count: usize,
    pub ready_nodes: usize,
    pub loaded_instances: usize,
    pub active_requests: u32,
}

/// Model inspection response.
#[derive(Debug)]
pub struct ModelDetailResponse {
    pub name: String,
    pub nodes: Vec<ModelNodeDetail>,
}

/// Per-node model detail.
#[derive(Debug)]
pub struct ModelNodeDetail {
    pub node: String,
    pub available: bool,
    pub loaded: bool,
    pub digest: Option<String>,
    pub size: Option<u64>,
}

/// Active request summary.
#[derive(Debug)]
pub struct RequestSummary {
    pub id: String,
    pub model: String,
    pub node: String,
    pub started_at_ms: i64,
    pub duration_ms: u64,
    pub streaming: bool,
    pub state: String,
}

/// Cluster event response; `created_at` is an RFC 3339 timestamp.
#[derive(Debug)]
pub struct EventResponse {
    pub id: String,
    pub event_type: String,
    pub target: Option<String>,
    pub message: String,
    pub created_at: String,
}

/// Explain routing response.
#[derive(Debug)]
pub struct ExplainResponse {
    pub explanation: RoutingExplanation,
}

/// Generic operation result.
#[derive(Debug)]
pub struct OperationResponse {
    pub success: bool,
    pub message: String,
}

/// Health summary response.
#[derive(Debug)]
pub struct HealthSummaryResponse {
    pub unavailable_nodes: Vec<String>,
    pub suspect_nodes: Vec<String>,
    pub models_without_nodes: Vec<String>,
    pub drift_detected: bool,
}

/// Structured management API error response.
#[derive(Debug)]
pub struct ApiErrorBody {
    pub error: ApiErrorDetail,
}

/// Error detail payload; `details` is JSON text when present.
#[derive(Debug)]
pub struct ApiErrorDetail {
    pub code: String,
    pub message: String,
    pub details: Option<String>,
}

impl ApiErrorBody {
    /// Create a new API error body.
    pub fn new(code: &str, message: String) -> (r: Self)
        ensures
            r.error.code@ == code@,
            r.error.message == message,
            r.error.details is None,
    {
        ApiErrorBody { error: ApiErrorDetail { code: code.to_owned(), message, details: None } }
    }
}

} // verus!
