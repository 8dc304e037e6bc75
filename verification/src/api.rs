//! What the management API computes: summaries, node registration and
//! updates, and the texts of its answers.

use vstd::prelude::*;
use crate::config::NodeConfig;
use crate::model_mode::{ModelMode, copy_strings};
use crate::protocol::{
    AddNodeRequest, UpdateNodeRequest, VersionResponse, NodeSummary, NodeDetailResponse,
    HealthSummaryResponse, RequestSummary, OperationResponse, API_VERSION, APP_VERSION,
};
use crate::runtime::{ClusterRuntime, RuntimeNode, node_slot, first_named, lemma_first_named, new_id};
use crate::state::{AdminState, NodeRuntimeState};
use crate::store::{NodeRecord, NodeRecordView, copy_opt, copy_pairs};
use crate::text::{str_eq, opt_view, strings_view, pairs_view};

verus! {

/// The model mode a requested mode name selects: `allow`, `static`, or
/// discovery for anything else (or nothing).
pub open spec fn model_mode_named(name: Option<Seq<char>>) -> ModelMode {
    match name {
        Some(n) => if n == "allow"@ {
            ModelMode::Allow
        } else if n == "static"@ {
            ModelMode::Static
        } else {
            ModelMode::Discover
        },
        None => ModelMode::Discover,
    }
}

/// Read a requested model mode name.
pub fn parse_model_mode(name: Option<&str>) -> (r: ModelMode)
    ensures
        r == model_mode_named(match name {
            Some(n) => Some(n@),
            None => None,
        }),
{
    match name {
        Some(n) => if str_eq(n, "allow") {
            ModelMode::Allow
        } else if str_eq(n, "static") {
            ModelMode::Static
        } else {
            ModelMode::Discover
        },
        None => ModelMode::Discover,
    }
}

/// The version and feature list the API reports.
pub fn version_response() -> (r: VersionResponse)
    ensures
        r.app_version@ == APP_VERSION@,
        r.api_version@ == API_VERSION@,
        strings_view(r.features@) == seq!["routing"@, "discovery"@, "streaming_proxy"@, "metrics"@],
{
    let mut features: Vec<String> = Vec::new();
    features.push("routing".to_owned());
    features.push("discovery".to_owned());
    features.push("streaming_proxy".to_owned());
    features.push("metrics".to_owned());
    assert(strings_view(features@) =~= seq!["routing"@, "discovery"@, "streaming_proxy"@, "metrics"@]);
    VersionResponse {
        app_version: APP_VERSION.to_owned(),
        api_version: API_VERSION.to_owned(),
        features,
    }
}

/// The record of a node registered through the API: enabled, warming up,
/// with the requested model mode and concurrency limit (8 by default), no
/// configured models or labels, and a fresh id.
pub fn new_node_record(req: &AddNodeRequest) -> (r: NodeRecord)
    ensures
        crate::runtime::is_uuid_v4_text(r.id@),
        r.name@ == req.name@,
        r.url@ == req.url@,
        r.admin_state == AdminState::Enabled,
        r.runtime_state == NodeRuntimeState::Warming,
        r.ollama_version is None,
        r.model_mode == model_mode_named(opt_view(req.model_mode)),
        r.configured_models@.len() == 0,
        r.max_concurrent == (match req.max_concurrent {
            Some(m) => m,
            None => 8,
        }),
        r.priority == 0,
        r.labels@.len() == 0,
        r.inventory_fingerprint is None,
{
    let mode = match &req.model_mode {
        Some(m) => parse_model_mode(Some(m.as_str())),
        None => parse_model_mode(None),
    };
    NodeRecord {
        id: new_id(),
        name: req.name.clone(),
        url: req.url.clone(),
        admin_state: AdminState::Enabled,
        runtime_state: NodeRuntimeState::Warming,
        ollama_version: None,
        model_mode: mode,
        configured_models: Vec::new(),
        max_concurrent: match req.max_concurrent {
            Some(m) => m,
            None => 8,
        },
        priority: 0,
        labels: Vec::new(),
        inventory_fingerprint: None,
    }
}

/// The record of a node seeded from configuration: enabled, warming up,
/// with the configured settings and a fresh id.
pub fn node_record_from_config(cfg: &NodeConfig) -> (r: NodeRecord)
    ensures
        crate::runtime::is_uuid_v4_text(r.id@),
        r.name@ == cfg.name@,
        r.url@ == cfg.url@,
        r.admin_state == AdminState::Enabled,
        r.runtime_state == NodeRuntimeState::Warming,
        r.ollama_version is None,
        r.model_mode == cfg.model_mode,
        r.configured_models@ == cfg.configured_models@,
        r.max_concurrent == cfg.max_concurrent,
        r.priority == cfg.priority,
        r.labels@ == cfg.labels@,
        r.inventory_fingerprint is None,
{
    NodeRecord {
        id: new_id(),
        name: cfg.name.clone(),
        url: cfg.url.clone(),
        admin_state: AdminState::Enabled,
        runtime_state: NodeRuntimeState::Warming,
        ollama_version: None,
        model_mode: cfg.model_mode,
        configured_models: copy_strings(cfg.configured_models.as_slice()),
        max_concurrent: cfg.max_concurrent,
        priority: cfg.priority,
        labels: copy_pairs(cfg.labels.as_slice()),
        inventory_fingerprint: None,
    }
}

/// A node record after an update request: a new URL (which sends the node
/// back to warming up), model mode or concurrency limit, where given.
pub open spec fn updated_record(r: NodeRecordView, req: UpdateNodeRequest) -> NodeRecordView {
    NodeRecordView {
        url: match req.url {
            Some(u) => u@,
            None => r.url,
        },
        model_mode: match req.model_mode {
            Some(m) => model_mode_named(Some(m@)),
            None => r.model_mode,
        },
        max_concurrent: match req.max_concurrent {
            Some(m) => m,
            None => r.max_concurrent,
        },
        runtime_state: if req.url is Some {
            NodeRuntimeState::Warming
        } else {
            r.runtime_state
        },
        ..r
    }
}

/// Apply an update request to the named node. Returns the updated record
/// (to be persisted) and whether its URL changed, or `None` when no such
/// node exists.
pub fn apply_node_update(runtime: &mut ClusterRuntime, name: &str, req: &UpdateNodeRequest) -> (r:
    Option<(NodeRecord, bool)>)
    ensures
        crate::runtime::names_distinct(old(runtime).nodes@) ==> crate::runtime::names_distinct(final(runtime).nodes@),
        match node_slot(*old(runtime), name@) {
            Some(k) => {
                &&& final(runtime).nodes@.len() == old(runtime).nodes@.len()
                &&& forall|j: int|
                    0 <= j < old(runtime).nodes@.len() && j != k ==> #[trigger] final(runtime).nodes@[j]
                        == old(runtime).nodes@[j]
                &&& final(runtime).nodes@[k].record@ == updated_record(
                    old(runtime).nodes@[k].record@,
                    *req,
                )
                &&& final(runtime).nodes@[k].circuit == old(runtime).nodes@[k].circuit
                &&& final(runtime).nodes@[k].active_requests == old(runtime).nodes@[k].active_requests
                &&& (r matches Some((rec, changed)) && rec@ == final(runtime).nodes@[k].record@
                    && changed == req.url is Some)
            },
            None => final(runtime).nodes == old(runtime).nodes && r is None,
        },
        final(runtime).requests == old(runtime).requests,
        final(runtime).config == old(runtime).config,
{
    let slot = runtime.find_node(name);
    proof {
        lemma_first_named(runtime.nodes@, name@, 0);
    }
    match slot {
        Some(k) => {
            let ghost before = runtime.nodes@;
            let mut node = runtime.nodes.remove(k);
            let url_changed = match &req.url {
                Some(u) => {
                    node.record.url = u.clone();
                    true
                },
                None => false,
            };
            if let Some(m) = &req.model_mode {
                node.record.model_mode = parse_model_mode(Some(m.as_str()));
            }
            if let Some(max) = req.max_concurrent {
                node.record.max_concurrent = max;
            }
            if url_changed {
                node.record.runtime_state = NodeRuntimeState::Warming;
            }
            let rec = node.record.clone();
            runtime.nodes.insert(k, node);
            assert(runtime.nodes@ =~= before.update(k as int, runtime.nodes@[k as int]));
            Some((rec, url_changed))
        },
        None => None,
    }
}

/// Summarise a node for list endpoints.
pub fn node_summary(n: &RuntimeNode) -> (r: NodeSummary)
    ensures
        r.name@ == n.record.name@,
        r.url@ == n.record.url@,
        r.admin_state == n.record.admin_state,
        r.runtime_state == n.record.runtime_state,
        opt_view(r.ollama_version) == opt_view(n.record.ollama_version),
        r.active_requests == n.active_requests,
        r.model_count == n.discovered_models@.len(),
        r.loaded_models == n.loaded_models@.len(),
        r.last_contact == n.last_contact,
{
    NodeSummary {
        name: n.record.name.clone(),
        url: n.record.url.clone(),
        admin_state: n.record.admin_state,
        runtime_state: n.record.runtime_state,
        ollama_version: copy_opt(&n.record.ollama_version),
        active_requests: n.active_requests,
        model_count: n.discovered_models.len(),
        loaded_models: n.loaded_models.len(),
        last_contact: n.last_contact,
    }
}

/// Describe a node in detail: its summary, labels, limit and models.
pub fn node_detail(n: &RuntimeNode) -> (r: NodeDetailResponse)
    ensures
        r.summary.name@ == n.record.name@,
        r.summary.active_requests == n.active_requests,
        r.summary.model_count == n.discovered_models@.len(),
        pairs_view(r.labels@) == pairs_view(n.record.labels@),
        r.max_concurrent == n.record.max_concurrent,
        r.models@ == n.discovered_models@,
{
    NodeDetailResponse {
        summary: node_summary(n),
        labels: copy_pairs(n.record.labels.as_slice()),
        max_concurrent: n.record.max_concurrent,
        models: copy_strings(n.discovered_models.as_slice()),
    }
}

/// Summarise every node, in runtime order.
pub fn node_summaries(runtime: &ClusterRuntime) -> (r: Vec<NodeSummary>)
    ensures
        r@.len() == runtime.nodes@.len(),
        forall|i: int|
            0 <= i < r@.len() ==> (#[trigger] r@[i]).name@ == runtime.nodes@[i].record.name@
                && r@[i].admin_state == runtime.nodes@[i].record.admin_state
                && r@[i].runtime_state == runtime.nodes@[i].record.runtime_state
                && r@[i].active_requests == runtime.nodes@[i].active_requests,
{
    let mut out: Vec<NodeSummary> = Vec::new();
    let mut i: usize = 0;
    while i < runtime.nodes.len()
        invariant
            0 <= i <= runtime.nodes@.len(),
            out@.len() == i,
            forall|k: int|
                0 <= k < i ==> (#[trigger] out@[k]).name@ == runtime.nodes@[k].record.name@
                    && out@[k].admin_state == runtime.nodes@[k].record.admin_state
                    && out@[k].runtime_state == runtime.nodes@[k].record.runtime_state
                    && out@[k].active_requests == runtime.nodes@[k].active_requests,
        decreases runtime.nodes@.len() - i,
    {
        out.push(node_summary(&runtime.nodes[i]));
        i = i + 1;
    }
    out
}

/// The names of the nodes in a runtime state, in runtime order.
pub open spec fn names_in_state(nodes: Seq<RuntimeNode>, s: NodeRuntimeState) -> Seq<Seq<char>> {
    nodes.filter(|n: RuntimeNode| n.record.runtime_state == s).map_values(
        |n: RuntimeNode| n.record.name@,
    )
}

/// Collect the names of nodes in a runtime state.
fn names_with_state(runtime: &ClusterRuntime, s: NodeRuntimeState) -> (r: Vec<String>)
    ensures
        strings_view(r@) == names_in_state(runtime.nodes@, s),
{
    let ghost p = |n: RuntimeNode| n.record.runtime_state == s;
    let ghost f = |n: RuntimeNode| n.record.name@;
    let mut out: Vec<String> = Vec::new();
    let mut i: usize = 0;
    while i < runtime.nodes.len()
        invariant
            0 <= i <= runtime.nodes@.len(),
            p == (|n: RuntimeNode| n.record.runtime_state == s),
            f == (|n: RuntimeNode| n.record.name@),
            strings_view(out@) == runtime.nodes@.take(i as int).filter(p).map_values(f),
        decreases runtime.nodes@.len() - i,
    {
        let ghost prefix = runtime.nodes@.take(i as int);
        proof {
            assert(runtime.nodes@.take(i + 1) =~= prefix.push(runtime.nodes@[i as int]));
            prefix.lemma_filter_push(runtime.nodes@[i as int], p);
        }
        if runtime.nodes[i].record.runtime_state == s {
            let ghost before = out@;
            out.push(runtime.nodes[i].record.name.clone());
            assert(strings_view(out@) =~= strings_view(before).push(runtime.nodes@[i as int].record.name@));
            assert(prefix.filter(p).push(runtime.nodes@[i as int]).map_values(f) =~= prefix.filter(p).map_values(f).push(runtime.nodes@[i as int].record.name@));
        }
        i = i + 1;
    }
    assert(runtime.nodes@.take(runtime.nodes@.len() as int) =~= runtime.nodes@);
    out
}

/// Health summary: the unavailable and suspect nodes, in runtime order.
pub fn health_summary(runtime: &ClusterRuntime) -> (r: HealthSummaryResponse)
    ensures
        strings_view(r.unavailable_nodes@) == names_in_state(
            runtime.nodes@,
            NodeRuntimeState::Unavailable,
        ),
        strings_view(r.suspect_nodes@) == names_in_state(runtime.nodes@, NodeRuntimeState::Suspect),
        r.models_without_nodes@.len() == 0,
        !r.drift_detected,
{
    HealthSummaryResponse {
        unavailable_nodes: names_with_state(runtime, NodeRuntimeState::Unavailable),
        suspect_nodes: names_with_state(runtime, NodeRuntimeState::Suspect),
        models_without_nodes: Vec::new(),
        drift_detected: false,
    }
}

/// How long a request has been running at `now_ms`, never negative.
pub open spec fn duration_since(now_ms: i64, started_ms: i64) -> u64 {
    if now_ms - started_ms <= 0 {
        0
    } else if now_ms - started_ms > u64::MAX {
        u64::MAX
    } else {
        (now_ms - started_ms) as u64
    }
}

/// Summarise the active requests at time `now_ms`, in runtime order.
pub fn request_summaries(runtime: &ClusterRuntime, now_ms: i64) -> (r: Vec<RequestSummary>)
    ensures
        r@.len() == runtime.requests@.len(),
        forall|i: int|
            0 <= i < r@.len() ==> {
                let q = runtime.requests@[i];
                &&& (#[trigger] r@[i]).id@ == q.id@
                &&& r@[i].model@ == q.model@
                &&& r@[i].node@ == q.node_name@
                &&& r@[i].started_at_ms == q.started_at_ms
                &&& r@[i].duration_ms == duration_since(now_ms, q.started_at_ms)
                &&& r@[i].streaming == q.streaming
                &&& r@[i].state@ == q.state@
            },
{
    let mut out: Vec<RequestSummary> = Vec::new();
    let mut i: usize = 0;
    while i < runtime.requests.len()
        invariant
            0 <= i <= runtime.requests@.len(),
            out@.len() == i,
            forall|k: int|
                0 <= k < i ==> {
                    let q = runtime.requests@[k];
                    &&& (#[trigger] out@[k]).id@ == q.id@
                    &&& out@[k].model@ == q.model@
                    &&& out@[k].node@ == q.node_name@
                    &&& out@[k].started_at_ms == q.started_at_ms
                    &&& out@[k].duration_ms == duration_since(now_ms, q.started_at_ms)
                    &&& out@[k].streaming == q.streaming
                    &&& out@[k].state@ == q.state@
                },
        decreases runtime.requests@.len() - i,
    {
        let q = &runtime.requests[i];
        let d: i128 = now_ms as i128 - q.started_at_ms as i128;
        let duration: u64 = if d <= 0 {
            0
        } else if d > u64::MAX as i128 {
            u64::MAX
        } else {
            d as u64
        };
        out.push(
            RequestSummary {
                id: q.id.clone(),
                model: q.model.clone(),
                node: q.node_name.clone(),
                started_at_ms: q.started_at_ms,
                duration_ms: duration,
                streaming: q.streaming,
                state: q.state.clone(),
            },
        );
        i = i + 1;
    }
    out
}

/// The text `Node '<name>' <what>`.
pub open spec fn node_message_text(name: Seq<char>, what: Seq<char>) -> Seq<char> {
    "Node '"@ + name + "' "@ + what
}

/// A successful operation on a node, described as `Node '<name>' <what>`.
pub fn node_operation(name: &str, what: &str) -> (r: OperationResponse)
    ensures
        r.success,
        r.message@ == node_message_text(name@, what@),
{
    let mut m = "Node '".to_owned();
    m.append(name);
    m.append("' ");
    m.append(what);
    OperationResponse { success: true, message: m }
}

} // verus!

verus! {

/// The distinct elements of a sequence, in order of first appearance.
pub open spec fn distinct_in_order(s: Seq<Seq<char>>) -> Seq<Seq<char>>
    decreases s.len(),
{
    if s.len() == 0 {
        s
    } else {
        let d = distinct_in_order(s.drop_last());
        if d.contains(s.last()) {
            d
        } else {
            d.push(s.last())
        }
    }
}

/// The distinct elements have no duplicates and are exactly the elements.
pub proof fn lemma_distinct_in_order(s: Seq<Seq<char>>)
    ensures
        distinct_in_order(s).no_duplicates(),
        forall|x: Seq<char>| distinct_in_order(s).contains(x) <==> s.contains(x),
        distinct_in_order(s).len() == s.to_set().len(),
    decreases s.len(),
{
    let d = distinct_in_order(s);
    if s.len() > 0 {
        let t = s.drop_last();
        let dt = distinct_in_order(t);
        lemma_distinct_in_order(t);
        assert(s =~= t.push(s.last()));
        assert forall|x: Seq<char>| s.contains(x) <==> (t.contains(x) || x == s.last()) by {
            if s.contains(x) {
                let i = choose|i: int| 0 <= i < s.len() && s[i] == x;
                if i < s.len() - 1 {
                    assert(t[i] == x);
                }
            }
            if t.contains(x) {
                let i = choose|i: int| 0 <= i < t.len() && t[i] == x;
                assert(s[i] == x);
            }
            if x == s.last() {
                assert(s[s.len() - 1] == x);
            }
        }
        if dt.contains(s.last()) {
            assert(d == dt);
        } else {
            assert(d == dt.push(s.last()));
            assert forall|x: Seq<char>| d.contains(x) <==> (dt.contains(x) || x == s.last()) by {
                if d.contains(x) {
                    let i = choose|i: int| 0 <= i < d.len() && d[i] == x;
                    if i < d.len() - 1 {
                        assert(dt[i] == x);
                    }
                }
                if dt.contains(x) {
                    let i = choose|i: int| 0 <= i < dt.len() && dt[i] == x;
                    assert(d[i] == x);
                }
                if x == s.last() {
                    assert(d[d.len() - 1] == x);
                }
            }
            assert forall|i: int, j: int| 0 <= i < d.len() && 0 <= j < d.len() && i != j implies d[i] != d[j] by {
                if i < dt.len() && j < dt.len() {
                } else if i == dt.len() {
                    assert(dt.contains(d[j]));
                } else {
                    assert(dt.contains(d[i]));
                }
            }
        }
    }
    d.unique_seq_to_set();
    assert forall|x: Seq<char>| d.to_set().contains(x) <==> s.to_set().contains(x) by {}
    assert(d.to_set() =~= s.to_set());
}

/// The model names of stored model records.
pub open spec fn model_names(models: Seq<crate::store::StoredModel>) -> Seq<Seq<char>> {
    models.map_values(|m: crate::store::StoredModel| m.model_name@)
}

/// Records of a model.
pub open spec fn named(name: Seq<char>) -> spec_fn(crate::store::StoredModel) -> bool {
    |m: crate::store::StoredModel| m.model_name@ == name
}

/// Records of a model that are available.
pub open spec fn named_available(name: Seq<char>) -> spec_fn(crate::store::StoredModel) -> bool {
    |m: crate::store::StoredModel| m.model_name@ == name && m.available
}

/// Records of a model that are loaded.
pub open spec fn named_loaded(name: Seq<char>) -> spec_fn(crate::store::StoredModel) -> bool {
    |m: crate::store::StoredModel| m.model_name@ == name && m.loaded
}

/// Whether a model summary counts the records of its model correctly.
pub open spec fn summary_counts(
    s: crate::protocol::ModelSummary,
    models: Seq<crate::store::StoredModel>,
) -> bool {
    &&& s.node_count == models.filter(named(s.name@)).len()
    &&& s.ready_nodes == models.filter(named_available(s.name@)).len()
    &&& s.loaded_instances == models.filter(named_loaded(s.name@)).len()
    &&& s.active_requests == 0
}

/// A filter that nothing in the sequence passes is empty.
proof fn lemma_filter_none<T>(s: Seq<T>, p: spec_fn(T) -> bool)
    requires
        forall|i: int| 0 <= i < s.len() ==> !#[trigger] p(s[i]),
    ensures
        s.filter(p).len() == 0,
{
    if s.filter(p).len() > 0 {
        s.lemma_filter_pred(p, 0);
        assert(s.filter(p).contains(s.filter(p)[0]));
        s.lemma_filter_contains_rev(p, s.filter(p)[0]);
    }
}

/// Summarise the stored models per model name, in order of first appearance:
/// how many nodes list each model, on how many it is available, and on how
/// many it is loaded.
pub fn model_summaries(models: &[crate::store::StoredModel]) -> (r: Vec<crate::protocol::ModelSummary>)
    ensures
        r@.len() == distinct_in_order(model_names(models@)).len(),
        forall|i: int|
            0 <= i < r@.len() ==> (#[trigger] r@[i]).name@ == distinct_in_order(model_names(models@))[i]
                && summary_counts(r@[i], models@),
{
    let mut out: Vec<crate::protocol::ModelSummary> = Vec::new();
    let mut i: usize = 0;
    while i < models.len()
        invariant
            0 <= i <= models@.len(),
            out@.len() == distinct_in_order(model_names(models@.take(i as int))).len(),
            forall|k: int|
                0 <= k < out@.len() ==> (#[trigger] out@[k]).name@ == distinct_in_order(
                    model_names(models@.take(i as int)),
                )[k] && summary_counts(out@[k], models@.take(i as int)),
        decreases models@.len() - i,
    {
        let m = &models[i];
        let ghost prefix = models@.take(i as int);
        let ghost next = models@.take(i + 1);
        let ghost names = model_names(prefix);
        proof {
            assert(next =~= prefix.push(*m));
            assert(model_names(next) =~= names.push(m.model_name@));
            lemma_distinct_in_order(names);
            assert forall|k: int| 0 <= k < out@.len() implies {
                let nm = (#[trigger] out@[k]).name@;
                &&& next.filter(named(nm)).len() == prefix.filter(named(nm)).len() + (if m.model_name@ == nm { 1int } else { 0 })
                &&& next.filter(named_available(nm)).len() == prefix.filter(named_available(nm)).len() + (if m.model_name@ == nm && m.available { 1int } else { 0 })
                &&& next.filter(named_loaded(nm)).len() == prefix.filter(named_loaded(nm)).len() + (if m.model_name@ == nm && m.loaded { 1int } else { 0 })
            } by {
                let nm = out@[k].name@;
                prefix.lemma_filter_push(*m, named(nm));
                prefix.lemma_filter_push(*m, named_available(nm));
                prefix.lemma_filter_push(*m, named_loaded(nm));
            }
        }
        let mut j: usize = 0;
        let mut found = false;
        while j < out.len()
            invariant_except_break
                !found,
            invariant
                0 <= j <= out@.len(),
                forall|k: int| 0 <= k < j ==> (#[trigger] out@[k]).name@ != m.model_name@,
            ensures
                found ==> j < out@.len() && out@[j as int].name@ == m.model_name@,
                !found ==> forall|k: int| 0 <= k < out@.len() ==> (#[trigger] out@[k]).name@ != m.model_name@,
            decreases out@.len() - j,
        {
            if str_eq(out[j].name.as_str(), m.model_name.as_str()) {
                found = true;
                break ;
            }
            j = j + 1;
        }
        if found {
            let ghost before = out@;
            let mut s = out.remove(j);
            proof {
                assert(s.node_count <= prefix.len()) by {
                    prefix.lemma_filter_len(named(s.name@));
                }
                prefix.lemma_filter_len(named_available(s.name@));
                prefix.lemma_filter_len(named_loaded(s.name@));
            }
            s.node_count = s.node_count + 1;
            if m.available {
                s.ready_nodes = s.ready_nodes + 1;
            }
            if m.loaded {
                s.loaded_instances = s.loaded_instances + 1;
            }
            out.insert(j, s);
            proof {
                assert(out@ =~= before.update(j as int, out@[j as int]));
                assert(names.contains(m.model_name@)) by {
                    assert(distinct_in_order(names).contains(m.model_name@)) by {
                        assert(distinct_in_order(names)[j as int] == m.model_name@);
                    }
                }
                assert(distinct_in_order(model_names(next)) == distinct_in_order(names)) by {
                    assert(model_names(next).drop_last() =~= names);
                }
            }
        } else {
            proof {
                assert(!distinct_in_order(names).contains(m.model_name@)) by {
                    if distinct_in_order(names).contains(m.model_name@) {
                        let k = choose|k: int| 0 <= k < distinct_in_order(names).len() && distinct_in_order(names)[k] == m.model_name@;
                        assert(out@[k].name@ != m.model_name@);
                    }
                }
                assert(model_names(next).drop_last() =~= names);
                assert(distinct_in_order(model_names(next)) == distinct_in_order(names).push(m.model_name@));
                assert forall|q: int| 0 <= q < prefix.len() implies !#[trigger] named(m.model_name@)(prefix[q]) by {
                    assert(names[q] == prefix[q].model_name@);
                    assert(names.contains(names[q]));
                }
                lemma_filter_none(prefix, named(m.model_name@));
                assert forall|q: int| 0 <= q < prefix.len() implies !#[trigger] named_available(m.model_name@)(prefix[q]) by {
                    assert(names[q] == prefix[q].model_name@);
                    assert(names.contains(names[q]));
                }
                lemma_filter_none(prefix, named_available(m.model_name@));
                assert forall|q: int| 0 <= q < prefix.len() implies !#[trigger] named_loaded(m.model_name@)(prefix[q]) by {
                    assert(names[q] == prefix[q].model_name@);
                    assert(names.contains(names[q]));
                }
                lemma_filter_none(prefix, named_loaded(m.model_name@));
                prefix.lemma_filter_push(*m, named(m.model_name@));
                prefix.lemma_filter_push(*m, named_available(m.model_name@));
                prefix.lemma_filter_push(*m, named_loaded(m.model_name@));
            }
            out.push(
                crate::protocol::ModelSummary {
                    name: m.model_name.clone(),
                    node_count: 1,
                    ready_nodes: if m.available {
                        1
                    } else {
                        0
                    },
                    loaded_instances: if m.loaded {
                        1
                    } else {
                        0
                    },
                    active_requests: 0,
                },
            );
        }
        i = i + 1;
    }
    assert(models@.take(models@.len() as int) =~= models@);
    out
}

} // verus!

verus! {

/// The node counts the cluster status reports, by kind: routable,
/// unavailable, draining.
pub open spec fn node_kind(which: u8) -> spec_fn(RuntimeNode) -> bool {
    if which == 0 {
        |n: RuntimeNode| crate::runtime::routable(n)
    } else if which == 1 {
        |n: RuntimeNode| n.record.runtime_state == NodeRuntimeState::Unavailable
    } else {
        |n: RuntimeNode| n.record.admin_state == AdminState::Draining
    }
}

/// Count the nodes of a kind.
fn count_nodes(runtime: &ClusterRuntime, which: u8) -> (r: usize)
    ensures
        r == runtime.nodes@.filter(node_kind(which)).len(),
{
    let ghost p = node_kind(which);
    let mut count: usize = 0;
    let mut i: usize = 0;
    while i < runtime.nodes.len()
        invariant
            0 <= i <= runtime.nodes@.len(),
            p == node_kind(which),
            count == runtime.nodes@.take(i as int).filter(p).len(),
            count <= i,
        decreases runtime.nodes@.len() - i,
    {
        let ghost prefix = runtime.nodes@.take(i as int);
        proof {
            assert(runtime.nodes@.take(i + 1) =~= prefix.push(runtime.nodes@[i as int]));
            prefix.lemma_filter_push(runtime.nodes@[i as int], p);
        }
        let n = &runtime.nodes[i];
        let hit = if which == 0 {
            n.is_routable()
        } else if which == 1 {
            n.record.runtime_state == NodeRuntimeState::Unavailable
        } else {
            n.record.admin_state == AdminState::Draining
        };
        if hit {
            count = count + 1;
        }
        i = i + 1;
    }
    assert(runtime.nodes@.take(runtime.nodes@.len() as int) =~= runtime.nodes@);
    count
}

/// The cluster status at an uptime, given the stored model records.
pub fn cluster_status(
    runtime: &ClusterRuntime,
    uptime_seconds: u64,
    models: &[crate::store::StoredModel],
) -> (r: crate::protocol::ClusterStatusResponse)
    ensures
        r.version@ == APP_VERSION@,
        r.api_version@ == API_VERSION@,
        r.state@ == (if runtime.shutting_down {
            "shutting_down"@
        } else {
            "running"@
        }),
        r.uptime_seconds == uptime_seconds,
        r.nodes_total == runtime.nodes@.len(),
        r.nodes_ready == runtime.nodes@.filter(node_kind(0)).len(),
        r.nodes_unavailable == runtime.nodes@.filter(node_kind(1)).len(),
        r.nodes_draining == runtime.nodes@.filter(node_kind(2)).len(),
        r.models_total == model_names(models@).to_set().len(),
        r.active_requests == runtime.requests@.len(),
        r.queued_requests == runtime.queued_requests,
{
    let summaries = model_summaries(models);
    proof {
        lemma_distinct_in_order(model_names(models@));
    }
    crate::protocol::ClusterStatusResponse {
        version: APP_VERSION.to_owned(),
        api_version: API_VERSION.to_owned(),
        state: if runtime.shutting_down {
            "shutting_down".to_owned()
        } else {
            "running".to_owned()
        },
        uptime_seconds,
        nodes_total: runtime.nodes.len(),
        nodes_ready: count_nodes(runtime, 0),
        nodes_unavailable: count_nodes(runtime, 1),
        nodes_draining: count_nodes(runtime, 2),
        models_total: summaries.len(),
        active_requests: runtime.requests.len(),
        queued_requests: runtime.queued_requests,
    }
}

/// The name of the node with a given id (the first such node), or empty
/// text when no node has it.
pub open spec fn node_name_by_id(nodes: Seq<RuntimeNode>, id: Seq<char>, i: int) -> Seq<char>
    decreases nodes.len() - i,
{
    if i < 0 || i >= nodes.len() {
        Seq::empty()
    } else if nodes[i].record.id@ == id {
        nodes[i].record.name@
    } else {
        node_name_by_id(nodes, id, i + 1)
    }
}

/// Find the name of the node with a given id, or empty text.
fn name_for_node_id(runtime: &ClusterRuntime, id: &str) -> (r: String)
    ensures
        r@ == node_name_by_id(runtime.nodes@, id@, 0),
{
    let mut i: usize = 0;
    while i < runtime.nodes.len()
        invariant
            0 <= i <= runtime.nodes@.len(),
            node_name_by_id(runtime.nodes@, id@, 0) == node_name_by_id(runtime.nodes@, id@, i as int),
        decreases runtime.nodes@.len() - i,
    {
        if str_eq(runtime.nodes[i].record.id.as_str(), id) {
            return runtime.nodes[i].record.name.clone();
        }
        i = i + 1;
    }
    String::new()
}

/// Describe a model from its stored records: `None` when there are none,
/// otherwise one entry per record, naming the node that holds it.
pub fn model_detail(
    runtime: &ClusterRuntime,
    name: &str,
    models: &[crate::store::StoredModel],
) -> (r: Option<crate::protocol::ModelDetailResponse>)
    ensures
        models@.len() == 0 <==> r is None,
        r matches Some(d) ==> d.name@ == name@ && d.nodes@.len() == models@.len() && forall|i: int|
            0 <= i < models@.len() ==> {
                &&& (#[trigger] d.nodes@[i]).node@ == node_name_by_id(runtime.nodes@, models@[i].node_id@, 0)
                &&& d.nodes@[i].available == models@[i].available
                &&& d.nodes@[i].loaded == models@[i].loaded
                &&& opt_view(d.nodes@[i].digest) == opt_view(models@[i].digest)
                &&& d.nodes@[i].size == models@[i].size
            },
{
    if models.len() == 0 {
        return None;
    }
    let mut nodes: Vec<crate::protocol::ModelNodeDetail> = Vec::new();
    let mut i: usize = 0;
    while i < models.len()
        invariant
            0 <= i <= models@.len(),
            nodes@.len() == i,
            forall|k: int|
                0 <= k < i ==> {
                    &&& (#[trigger] nodes@[k]).node@ == node_name_by_id(runtime.nodes@, models@[k].node_id@, 0)
                    &&& nodes@[k].available == models@[k].available
                    &&& nodes@[k].loaded == models@[k].loaded
                    &&& opt_view(nodes@[k].digest) == opt_view(models@[k].digest)
                    &&& nodes@[k].size == models@[k].size
                },
        decreases models@.len() - i,
    {
        let m = &models[i];
        nodes.push(
            crate::protocol::ModelNodeDetail {
                node: name_for_node_id(runtime, m.node_id.as_str()),
                available: m.available,
                loaded: m.loaded,
                digest: copy_opt(&m.digest),
                size: m.size,
            },
        );
        i = i + 1;
    }
    Some(crate::protocol::ModelDetailResponse { name: name.to_owned(), nodes })
}

} // verus!

verus! {

/// A management API error answer: HTTP status, error code and message.
#[derive(Debug)]
pub struct ApiFailure {
    pub status: u16,
    pub code: String,
    pub message: String,
}

/// The answer for a node that does not exist.
pub fn node_not_found(name: &str) -> (r: ApiFailure)
    ensures
        r.status == 404,
        r.code@ == "NODE_NOT_FOUND"@,
        r.message@ == node_message_text(name@, "not found"@),
{
    let mut m = "Node '".to_owned();
    m.append(name);
    m.append("' ");
    m.append("not found");
    ApiFailure { status: 404, code: "NODE_NOT_FOUND".to_owned(), message: m }
}

/// The answer for a model no node holds.
pub fn model_not_found(name: &str) -> (r: ApiFailure)
    ensures
        r.status == 404,
        r.code@ == "MODEL_NOT_FOUND"@,
        r.message@ == "Model '"@ + name@ + "' not found"@,
{
    let mut m = "Model '".to_owned();
    m.append(name);
    m.append("' not found");
    ApiFailure { status: 404, code: "MODEL_NOT_FOUND".to_owned(), message: m }
}

/// The answer for a request that is not in flight.
pub fn request_not_found(id: &str) -> (r: ApiFailure)
    ensures
        r.status == 404,
        r.code@ == "REQUEST_NOT_FOUND"@,
        r.message@ == "Request '"@ + id@ + "' not found"@,
{
    let mut m = "Request '".to_owned();
    m.append(id);
    m.append("' not found");
    ApiFailure { status: 404, code: "REQUEST_NOT_FOUND".to_owned(), message: m }
}

/// The answer to a cancelled request.
pub fn request_cancelled(id: &str) -> (r: OperationResponse)
    ensures
        r.success,
        r.message@ == "Request '"@ + id@ + "' cancelled"@,
{
    let mut m = "Request '".to_owned();
    m.append(id);
    m.append("' cancelled");
    OperationResponse { success: true, message: m }
}

/// The answer for a node URL the API does not accept.
pub fn invalid_url() -> (r: ApiFailure)
    ensures
        r.status == 400,
        r.code@ == "INVALID_URL"@,
        r.message@ == "Invalid node URL"@,
{
    ApiFailure { status: 400, code: "INVALID_URL".to_owned(), message: "Invalid node URL".to_owned() }
}

/// Whether a node may be registered: its URL must parse (loopback allowed)
/// and no node of that name may exist yet.
pub fn check_add_node(runtime: &ClusterRuntime, req: &AddNodeRequest) -> (r: Result<(), ApiFailure>)
    ensures
        crate::config::url_refusal(req.url@, false) is Some ==> (r matches Err(f) && f.status == 400
            && f.code@ == "INVALID_URL"@),
        crate::config::url_refusal(req.url@, false) is None && node_slot(*runtime, req.name@) is Some
            ==> (r matches Err(f) && f.status == 409 && f.code@ == "NODE_EXISTS"@ && f.message@
            == node_message_text(req.name@, "already exists"@)),
        r is Ok <==> (crate::config::url_refusal(req.url@, false) is None && node_slot(
            *runtime,
            req.name@,
        ) is None),
{
    if crate::config::is_url_allowed(req.url.as_str(), false).is_err() {
        return Err(invalid_url());
    }
    if runtime.has_node(req.name.as_str()) {
        let mut m = "Node '".to_owned();
        m.append(req.name.as_str());
        m.append("' ");
        m.append("already exists");
        return Err(ApiFailure { status: 409, code: "NODE_EXISTS".to_owned(), message: m });
    }
    Ok(())
}

/// Whether an update request's new URL, if any, is accepted.
pub fn check_update_url(req: &UpdateNodeRequest) -> (r: Result<(), ApiFailure>)
    ensures
        r is Ok <==> (req.url matches Some(u) ==> crate::config::url_refusal(u@, false) is None),
        r matches Err(f) ==> f.status == 400 && f.code@ == "INVALID_URL"@,
{
    if let Some(u) = &req.url {
        if crate::config::is_url_allowed(u.as_str(), false).is_err() {
            return Err(invalid_url());
        }
    }
    Ok(())
}

/// Whether a node may be removed: it must exist and serve no request.
pub fn check_remove_node(runtime: &ClusterRuntime, name: &str) -> (r: Result<(), ApiFailure>)
    ensures
        node_slot(*runtime, name@) is None ==> (r matches Err(f) && f.status == 404 && f.code@
            == "NODE_NOT_FOUND"@),
        node_slot(*runtime, name@) is Some && crate::runtime::node_busy(runtime.requests@, name@)
            ==> (r matches Err(f) && f.status == 409 && f.code@ == "NODE_BUSY"@ && f.message@
            == "Node has active requests; use force removal"@),
        r is Ok <==> (node_slot(*runtime, name@) is Some && !crate::runtime::node_busy(
            runtime.requests@,
            name@,
        )),
{
    if !runtime.has_node(name) {
        return Err(node_not_found(name));
    }
    if runtime.node_has_active_requests(name) {
        return Err(
            ApiFailure {
                status: 409,
                code: "NODE_BUSY".to_owned(),
                message: "Node has active requests; use force removal".to_owned(),
            },
        );
    }
    Ok(())
}

/// The readiness answer: 200 and `ready` unless the cluster is shutting
/// down, then 503 and `not_ready`.
pub fn readiness(runtime: &ClusterRuntime) -> (r: (u16, &'static str))
    ensures
        !runtime.shutting_down ==> r.0 == 200 && r.1@ == "ready"@,
        runtime.shutting_down ==> r.0 == 503 && r.1@ == "not_ready"@,
{
    if runtime.shutting_down {
        (503, "not_ready")
    } else {
        (200, "ready")
    }
}

/// The answer to a model synchronisation that refreshed `updated` nodes.
pub fn sync_operation(updated: u64) -> (r: OperationResponse)
    ensures
        r.success,
        r.message@ == "Synchronised "@ + crate::text::decimal_text(updated as nat) + " node(s)"@,
{
    let mut m = "Synchronised ".to_owned();
    crate::text::push_decimal_text(&mut m, updated);
    m.append(" node(s)");
    OperationResponse { success: true, message: m }
}

} // verus!

verus! {

/// Whether a record is the one seeded for a configured node.
pub open spec fn seeded_from(r: NodeRecord, cfg: NodeConfig) -> bool {
    &&& r.name@ == cfg.name@
    &&& r.url@ == cfg.url@
    &&& r.admin_state == AdminState::Enabled
    &&& r.runtime_state == NodeRuntimeState::Warming
    &&& r.ollama_version is None
    &&& r.model_mode == cfg.model_mode
    &&& r.configured_models@ == cfg.configured_models@
    &&& r.max_concurrent == cfg.max_concurrent
    &&& r.priority == cfg.priority
    &&& r.labels@ == cfg.labels@
    &&& r.inventory_fingerprint is None
}

/// Register every configured node whose name is not registered yet, in
/// configuration order, after the nodes already known; returns the new
/// records, to be persisted. Nodes already registered are left as they are.
pub fn seed_nodes_from_config(runtime: &mut ClusterRuntime) -> (r: Vec<NodeRecord>)
    ensures
        crate::runtime::names_distinct(old(runtime).nodes@) ==> crate::runtime::names_distinct(final(runtime).nodes@),
        crate::health::same_except_nodes(*final(runtime), *old(runtime)),
        old(runtime).nodes@.len() <= final(runtime).nodes@.len(),
        final(runtime).nodes@.take(old(runtime).nodes@.len() as int) == old(runtime).nodes@,
        forall|k: int|
            0 <= k < old(runtime).config.nodes@.len() ==> node_slot(
                *final(runtime),
                #[trigger] old(runtime).config.nodes@[k].name@,
            ) is Some,
        r@.len() == final(runtime).nodes@.len() - old(runtime).nodes@.len(),
        forall|m: int| 0 <= m < r@.len() ==> (#[trigger] r@[m])@ == final(runtime).nodes@[old(runtime).nodes@.len() + m].record@,
        forall|j: int|
            old(runtime).nodes@.len() <= j < final(runtime).nodes@.len() ==> {
                &&& node_slot(*old(runtime), (#[trigger] final(runtime).nodes@[j]).record.name@) is None
                &&& exists|k: int|
                    0 <= k < old(runtime).config.nodes@.len() && #[trigger] seeded_from(
                        final(runtime).nodes@[j].record,
                        old(runtime).config.nodes@[k],
                    )
                &&& crate::runtime::fresh_node_ok(
                    final(runtime).nodes@[j],
                    final(runtime).nodes@[j].record,
                    old(runtime).config,
                )
            },
{
    let ghost old_rt = *runtime;
    let ghost n0 = runtime.nodes@.len();
    let mut out: Vec<NodeRecord> = Vec::new();
    let mut i: usize = 0;
    while i < runtime.config.nodes.len()
        invariant
            crate::health::same_except_nodes(*runtime, old_rt),
            crate::runtime::names_distinct(old_rt.nodes@) ==> crate::runtime::names_distinct(runtime.nodes@),
            0 <= i <= runtime.config.nodes@.len(),
            n0 == old_rt.nodes@.len(),
            n0 <= runtime.nodes@.len(),
            runtime.nodes@.take(n0 as int) == old_rt.nodes@,
            forall|k: int| 0 <= k < i ==> node_slot(*runtime, #[trigger] old_rt.config.nodes@[k].name@) is Some,
            out@.len() == runtime.nodes@.len() - n0,
            forall|m: int| 0 <= m < out@.len() ==> (#[trigger] out@[m])@ == runtime.nodes@[n0 + m].record@,
            forall|j: int|
                n0 <= j < runtime.nodes@.len() ==> {
                    &&& node_slot(old_rt, (#[trigger] runtime.nodes@[j]).record.name@) is None
                    &&& exists|k: int|
                        0 <= k < old_rt.config.nodes@.len() && #[trigger] seeded_from(
                            runtime.nodes@[j].record,
                            old_rt.config.nodes@[k],
                        )
                    &&& crate::runtime::fresh_node_ok(runtime.nodes@[j], runtime.nodes@[j].record, old_rt.config)
                },
        decreases runtime.config.nodes@.len() - i,
    {
        let ghost before = runtime.nodes@;
        let ghost nm = runtime.config.nodes@[i as int].name@;
        if !runtime.has_node(runtime.config.nodes[i].name.as_str()) {
            let rec = node_record_from_config(&runtime.config.nodes[i]);
            assert(seeded_from(rec, old_rt.config.nodes@[i as int]));
            out.push(rec.clone());
            proof {
                lemma_first_named(before, nm, 0);
                lemma_first_named(old_rt.nodes@, nm, 0);
                assert forall|w: int| 0 <= w < old_rt.nodes@.len() implies #[trigger] old_rt.nodes@[w].record.name@ != nm by {
                    assert(old_rt.nodes@[w] == before.take(n0 as int)[w]);
                }
            }
            runtime.upsert_runtime_node(rec);
            proof {
                let after = runtime.nodes@;
                assert(after.drop_last() == before);
                assert(after.take(n0 as int) =~= before.take(n0 as int));
                assert forall|k: int| 0 <= k < i + 1 implies node_slot(*runtime, #[trigger] old_rt.config.nodes@[k].name@) is Some by {
                    let kn = old_rt.config.nodes@[k].name@;
                    lemma_first_named(after, kn, 0);
                    if k < i {
                        lemma_first_named(before, kn, 0);
                        let w = first_named(before, kn, 0)->0;
                        assert(after[w] == after.drop_last()[w]);
                    } else {
                        assert(after[before.len() as int].record.name@ == kn);
                    }
                }
                assert forall|j: int| n0 <= j < after.len() implies {
                    &&& node_slot(old_rt, (#[trigger] after[j]).record.name@) is None
                    &&& exists|k: int|
                        0 <= k < old_rt.config.nodes@.len() && #[trigger] seeded_from(
                            after[j].record,
                            old_rt.config.nodes@[k],
                        )
                    &&& crate::runtime::fresh_node_ok(after[j], after[j].record, old_rt.config)
                } by {
                    if j < before.len() {
                        assert(after[j] == after.drop_last()[j]);
                    } else {
                        lemma_first_named(old_rt.nodes@, nm, 0);
                        assert(seeded_from(after[j].record, old_rt.config.nodes@[i as int]));
                    }
                }
                assert forall|m: int| 0 <= m < out@.len() implies (#[trigger] out@[m])@ == after[n0 + m].record@ by {
                    if n0 + m < before.len() {
                        assert(after[n0 + m] == after.drop_last()[n0 + m]);
                    }
                }
            }
        }
        i = i + 1;
    }
    out
}

} // verus!
