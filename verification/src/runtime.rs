//! In-memory cluster runtime: nodes with their health, and active requests.

use vstd::prelude::*;
use crate::circuit_breaker::{CircuitBreaker, CircuitState};
use crate::config::{ClusterConfig, resolved_model};
use crate::model_mode::{contains_string, effective, effective_models};
use crate::routing::{RoutingCandidate, RoutingConfig, RoutingSnapshot, default_routing_config};
use crate::state::{AdminState, NodeRuntimeState};
use crate::store::NodeRecord;
use crate::text::{str_eq, strings_view};

verus! {

/// The current time in milliseconds since the Unix epoch.
#[verifier::external_body]
pub(crate) fn now_millis() -> (r: i64) {
    chrono::Utc::now().timestamp_millis()
}

/// Whether a character is a lower-case hexadecimal digit.
pub open spec fn is_lower_hex(c: char) -> bool {
    ('0' <= c && c <= '9') || ('a' <= c && c <= 'f')
}

/// Whether a text is a version-4 UUID in hyphenated lower-case form:
/// 36 characters, hyphens at positions 8, 13, 18 and 23, hex digits
/// elsewhere, and the version digit `4` at position 14.
pub open spec fn is_uuid_v4_text(s: Seq<char>) -> bool {
    &&& s.len() == 36
    &&& forall|i: int|
        0 <= i < 36 ==> if i == 8 || i == 13 || i == 18 || i == 23 {
            #[trigger] s[i] == '-'
        } else {
            is_lower_hex(s[i])
        }
    &&& s[14] == '4'
}

/// A fresh random identifier: `uuid::Uuid::new_v4` formatted by its
/// `Display` (hyphenated, lower-case). The contract claims the text's form,
/// not which identifier comes out.
#[verifier::external_body]
pub(crate) fn new_id() -> (r: String)
    ensures
        is_uuid_v4_text(r@),
{
    uuid::Uuid::new_v4().to_string()
}

/// Runtime view of an active inference request; `started_at_ms` is in
/// milliseconds since the Unix epoch.
#[derive(Debug)]
pub struct ActiveRequest {
    pub id: String,
    pub model: String,
    pub node_name: String,
    pub started_at_ms: i64,
    pub streaming: bool,
    pub state: String,
}

/// In-memory runtime state for a node; `last_contact` is in milliseconds
/// since the Unix epoch.
#[derive(Debug)]
pub struct RuntimeNode {
    pub record: NodeRecord,
    pub circuit: CircuitBreaker,
    pub active_requests: u32,
    pub queued_requests: u32,
    pub recent_failures: u32,
    pub loaded_models: Vec<String>,
    pub discovered_models: Vec<String>,
    pub last_contact: Option<i64>,
}

/// Whether a node may take new requests: enabled, ready or suspect, and with
/// a circuit that is not open.
pub open spec fn routable(n: RuntimeNode) -> bool {
    &&& n.record.admin_state == AdminState::Enabled
    &&& (n.record.runtime_state == NodeRuntimeState::Ready || n.record.runtime_state
        == NodeRuntimeState::Suspect)
    &&& n.circuit.state != CircuitState::Open
}

impl RuntimeNode {
    /// Whether this node is routable for new requests.
    pub fn is_routable(&self) -> (r: bool)
        ensures
            r == routable(*self),
    {
        self.record.admin_state.accepts_new_requests() && match self.record.runtime_state {
            NodeRuntimeState::Ready | NodeRuntimeState::Suspect => true,
            _ => false,
        } && self.circuit.allows_routing()
    }
}

/// Shared cluster runtime state. Nodes are looked up by name; the first node
/// with a name is the one that name refers to.
#[derive(Debug)]
pub struct ClusterRuntime {
    pub config: ClusterConfig,
    pub nodes: Vec<RuntimeNode>,
    pub requests: Vec<ActiveRequest>,
    pub queued_requests: usize,
    pub rotation_index: usize,
    pub shutting_down: bool,
}

/// The index of the first node named `name`, searching from `i`.
pub open spec fn first_named(nodes: Seq<RuntimeNode>, name: Seq<char>, i: int) -> Option<int>
    decreases nodes.len() - i,
{
    if i < 0 || i >= nodes.len() {
        None
    } else if nodes[i].record.name@ == name {
        Some(i)
    } else {
        first_named(nodes, name, i + 1)
    }
}

/// The slot of the node a name refers to.
pub open spec fn node_slot(rt: ClusterRuntime, name: Seq<char>) -> Option<int> {
    first_named(rt.nodes@, name, 0)
}

/// What `first_named` finds is in range and named so, with no earlier match.
pub proof fn lemma_first_named(nodes: Seq<RuntimeNode>, name: Seq<char>, i: int)
    requires
        0 <= i,
    ensures
        first_named(nodes, name, i) matches Some(k) ==> i <= k < nodes.len() && nodes[k].record.name@
            == name && forall|j: int| i <= j < k ==> #[trigger] nodes[j].record.name@ != name,
        first_named(nodes, name, i) is None ==> forall|j: int|
            i <= j < nodes.len() ==> #[trigger] nodes[j].record.name@ != name,
    decreases nodes.len() - i,
{
    if i < nodes.len() && nodes[i].record.name@ != name {
        lemma_first_named(nodes, name, i + 1);
    }
}

/// A fresh runtime node for a record: closed circuit, no load, no models.
pub open spec fn fresh_node_ok(n: RuntimeNode, record: NodeRecord, config: ClusterConfig) -> bool {
    &&& n.record == record
    &&& n.circuit == CircuitBreaker {
        state: CircuitState::Closed,
        failure_count: 0,
        failure_threshold: config.health.failure_threshold,
        success_threshold: config.health.recovery_success_threshold,
        consecutive_successes: 0,
    }
    &&& n.active_requests == 0
    &&& n.queued_requests == 0
    &&& n.recent_failures == 0
    &&& n.loaded_models@.len() == 0
    &&& n.discovered_models@.len() == 0
    &&& n.last_contact is None
}

/// Whether no two nodes share a name.
pub open spec fn names_distinct(nodes: Seq<RuntimeNode>) -> bool {
    forall|a: int, b: int| 0 <= a < b < nodes.len() ==> nodes[a].record.name@ != nodes[b].record.name@
}

/// Whether no two requests share an id.
pub open spec fn ids_distinct(reqs: Seq<ActiveRequest>) -> bool {
    forall|a: int, b: int| 0 <= a < b < reqs.len() ==> reqs[a].id@ != reqs[b].id@
}

/// The index of the last record with a name.
pub open spec fn last_record_named(recs: Seq<NodeRecord>, name: Seq<char>) -> Option<int>
    decreases recs.len(),
{
    if recs.len() == 0 {
        None
    } else if recs.last().name@ == name {
        Some(recs.len() - 1)
    } else {
        last_record_named(recs.drop_last(), name)
    }
}

impl ClusterRuntime {
    /// Find the node a name refers to.
    pub fn find_node(&self, name: &str) -> (r: Option<usize>)
        ensures
            r matches Some(i) ==> node_slot(*self, name@) == Some(i as int),
            r is None ==> node_slot(*self, name@) is None,
    {
        let mut i: usize = 0;
        while i < self.nodes.len()
            invariant
                0 <= i <= self.nodes@.len(),
                node_slot(*self, name@) == first_named(self.nodes@, name@, i as int),
            decreases self.nodes@.len() - i,
        {
            if str_eq(self.nodes[i].record.name.as_str(), name) {
                return Some(i);
            }
            i = i + 1;
        }
        None
    }

    /// Whether a node of that name is registered.
    pub fn has_node(&self, name: &str) -> (r: bool)
        ensures
            r == node_slot(*self, name@) is Some,
    {
        self.find_node(name).is_some()
    }

    /// Upsert a node from configuration and discovery data: a node of the same
    /// name is replaced in place, otherwise the node is appended. The node
    /// starts with a closed circuit and no load.
    pub fn upsert_runtime_node(&mut self, record: NodeRecord)
        ensures
            crate::runtime::names_distinct(old(self).nodes@) ==> crate::runtime::names_distinct(final(self).nodes@),
            final(self).config == old(self).config,
            final(self).requests == old(self).requests,
            final(self).queued_requests == old(self).queued_requests,
            final(self).rotation_index == old(self).rotation_index,
            final(self).shutting_down == old(self).shutting_down,
            match node_slot(*old(self), record.name@) {
                Some(k) => final(self).nodes@.len() == old(self).nodes@.len() && final(self).nodes@
                    == old(self).nodes@.update(k, final(self).nodes@[k]) && fresh_node_ok(
                    final(self).nodes@[k],
                    record,
                    old(self).config,
                ),
                None => final(self).nodes@.len() == old(self).nodes@.len() + 1
                    && final(self).nodes@.drop_last() == old(self).nodes@ && fresh_node_ok(
                    final(self).nodes@.last(),
                    record,
                    old(self).config,
                ),
            },
    {
        let circuit = CircuitBreaker::new(
            self.config.health.failure_threshold,
            self.config.health.recovery_success_threshold,
        );
        let slot = self.find_node(record.name.as_str());
        proof {
            lemma_first_named(self.nodes@, record.name@, 0);
        }
        let node = RuntimeNode {
            record,
            circuit,
            active_requests: 0,
            queued_requests: 0,
            recent_failures: 0,
            loaded_models: Vec::new(),
            discovered_models: Vec::new(),
            last_contact: None,
        };
        match slot {
            Some(k) => {
                let ghost before = self.nodes@;
                self.nodes.remove(k);
                self.nodes.insert(k, node);
                assert(self.nodes@ =~= before.update(k as int, self.nodes@[k as int]));
            },
            None => {
                let ghost before = self.nodes@;
                self.nodes.push(node);
                assert(self.nodes@.drop_last() =~= before);
            },
        }
    }

    /// Build the runtime from persisted node records and the configuration:
    /// one fresh node per distinct name, holding the last record of that
    /// name (a later record replaces an earlier one).
    pub fn from_records(config: ClusterConfig, records: Vec<NodeRecord>) -> (r: ClusterRuntime)
        ensures
            r.config == config,
            r.requests@.len() == 0,
            r.queued_requests == 0,
            r.rotation_index == 0,
            !r.shutting_down,
            names_distinct(r.nodes@),
            forall|k: int| 0 <= k < records@.len() ==> node_slot(r, #[trigger] records@[k].name@) is Some,
            forall|i: int|
                0 <= i < r.nodes@.len() ==> (last_record_named(records@, #[trigger] r.nodes@[i].record.name@)
                    matches Some(k) && fresh_node_ok(r.nodes@[i], records@[k], config)),
    {
        let mut rt = ClusterRuntime {
            config,
            nodes: Vec::new(),
            requests: Vec::new(),
            queued_requests: 0,
            rotation_index: 0,
            shutting_down: false,
        };
        let ghost orig = records@;
        let mut records = records;
        let ghost mut j: int = 0;
        while records.len() > 0
            invariant
                rt.config == config,
                rt.requests@.len() == 0,
                rt.queued_requests == 0,
                rt.rotation_index == 0,
                !rt.shutting_down,
                0 <= j <= orig.len(),
                records@ == orig.skip(j),
                names_distinct(rt.nodes@),
                forall|k: int| 0 <= k < j ==> node_slot(rt, #[trigger] orig[k].name@) is Some,
                forall|i: int|
                    0 <= i < rt.nodes@.len() ==> (last_record_named(orig.take(j), #[trigger] rt.nodes@[i].record.name@)
                        matches Some(k) && fresh_node_ok(rt.nodes@[i], orig[k], config)),
            decreases records@.len(),
        {
            let rec = records.remove(0);
            assert(rec == orig[j]);
            let ghost before = rt.nodes@;
            let ghost name = rec.name@;
            let ghost before_rt = rt;
            proof {
                lemma_first_named(before, name, 0);
                assert(orig.take(j + 1).drop_last() =~= orig.take(j));
                assert(orig.take(j + 1).last() == orig[j]);
                assert(records@ =~= orig.skip(j + 1));
            }
            rt.upsert_runtime_node(rec);
            proof {
                let after = rt.nodes@;
                match first_named(before, name, 0) {
                    Some(k0) => {
                        assert forall|i: int| 0 <= i < after.len() implies (last_record_named(
                            orig.take(j + 1),
                            #[trigger] after[i].record.name@,
                        ) matches Some(k) && fresh_node_ok(after[i], orig[k], config)) by {
                            if i != k0 {
                                assert(after[i] == before[i]);
                                assert(before[i].record.name@ != name);
                            }
                        }
                        assert forall|k: int| 0 <= k < j + 1 implies node_slot(rt, #[trigger] orig[k].name@) is Some by {
                            let nm = orig[k].name@;
                            lemma_first_named(after, nm, 0);
                            if k < j {
                                lemma_first_named(before, nm, 0);
                                let w = first_named(before, nm, 0)->0;
                                if w == k0 {
                                    assert(after[k0].record.name@ == nm);
                                } else {
                                    assert(after[w] == before[w]);
                                }
                            } else {
                                assert(after[k0].record.name@ == nm);
                            }
                        }
                        assert forall|a: int, b: int| 0 <= a < b < after.len() implies after[a].record.name@
                            != after[b].record.name@ by {
                            if a != k0 {
                                assert(after[a] == before[a]);
                            }
                            if b != k0 {
                                assert(after[b] == before[b]);
                            }
                        }
                    },
                    None => {
                        assert forall|i: int| 0 <= i < after.len() implies (last_record_named(
                            orig.take(j + 1),
                            #[trigger] after[i].record.name@,
                        ) matches Some(k) && fresh_node_ok(after[i], orig[k], config)) by {
                            if i < before.len() {
                                assert(after[i] == after.drop_last()[i]);
                                assert(before[i].record.name@ != name);
                            }
                        }
                        assert forall|k: int| 0 <= k < j + 1 implies node_slot(rt, #[trigger] orig[k].name@) is Some by {
                            let nm = orig[k].name@;
                            lemma_first_named(after, nm, 0);
                            if k < j {
                                lemma_first_named(before, nm, 0);
                                let w = first_named(before, nm, 0)->0;
                                assert(after[w] == after.drop_last()[w]);
                            } else {
                                assert(after[before.len() as int].record.name@ == nm);
                            }
                        }
                        assert forall|a: int, b: int| 0 <= a < b < after.len() implies after[a].record.name@
                            != after[b].record.name@ by {
                            assert(after[a] == after.drop_last()[a]);
                            if b < before.len() {
                                assert(after[b] == after.drop_last()[b]);
                            } else {
                                assert(before[a].record.name@ != name);
                            }
                        }
                    },
                }
                j = j + 1;
            }
        }
        proof {
            assert(orig.take(j) =~= orig);
        }
        rt
    }

    /// Build routing configuration from cluster config: the default weights,
    /// with the configured loaded-model preference.
    pub fn routing_config(&self) -> (r: RoutingConfig)
        ensures
            r == (RoutingConfig {
                loaded_model_preference: self.config.routing.loaded_model_preference,
                ..default_routing_config()
            }),
    {
        let mut c = RoutingConfig::default();
        c.loaded_model_preference = self.config.routing.loaded_model_preference;
        c
    }
}

} // verus!

verus! {

impl Clone for ActiveRequest {
    fn clone(&self) -> (r: Self)
        ensures
            r == *self,
    {
        ActiveRequest {
            id: self.id.clone(),
            model: self.model.clone(),
            node_name: self.node_name.clone(),
            started_at_ms: self.started_at_ms,
            streaming: self.streaming,
            state: self.state.clone(),
        }
    }
}

/// The routing candidate a node presents for a (canonical) model.
pub open spec fn candidate_matches(
    c: RoutingCandidate,
    n: RuntimeNode,
    model: Seq<char>,
    denied: Seq<Seq<char>>,
) -> bool {
    &&& c.node_id@ == n.record.id@
    &&& c.node_name@ == n.record.name@
    &&& c.admin_state == n.record.admin_state
    &&& c.runtime_state == n.record.runtime_state
    &&& c.circuit_state == n.circuit.state
    &&& c.has_model == effective(
        n.record.model_mode,
        strings_view(n.discovered_models@),
        strings_view(n.record.configured_models@),
    ).contains(model)
    &&& c.model_loaded == strings_view(n.loaded_models@).contains(model)
    &&& c.model_denied == denied.contains(model)
    &&& c.active_requests == n.active_requests
    &&& c.queued_requests == n.queued_requests
    &&& c.max_concurrent == n.record.max_concurrent
    &&& c.priority == n.record.priority
    &&& c.recent_failures == n.recent_failures
}

/// The request-id predicate for "not this id".
pub open spec fn other_id(id: Seq<char>) -> spec_fn(ActiveRequest) -> bool {
    |q: ActiveRequest| q.id@ != id
}

/// The index of the first request with an id, searching from `i`.
pub open spec fn first_request(reqs: Seq<ActiveRequest>, id: Seq<char>, i: int) -> Option<int>
    decreases reqs.len() - i,
{
    if i < 0 || i >= reqs.len() {
        None
    } else if reqs[i].id@ == id {
        Some(i)
    } else {
        first_request(reqs, id, i + 1)
    }
}

/// Dropping the requests with an id keeps ids distinct and leaves none with
/// that id.
pub proof fn lemma_without_id(reqs: Seq<ActiveRequest>, id: Seq<char>)
    ensures
        ids_distinct(reqs) ==> ids_distinct(reqs.filter(other_id(id))),
        forall|j: int| 0 <= j < reqs.filter(other_id(id)).len() ==> (#[trigger] reqs.filter(other_id(id))[j]).id@ != id,
    decreases reqs.len(),
{
    let p = other_id(id);
    let f = reqs.filter(p);
    assert forall|j: int| 0 <= j < f.len() implies (#[trigger] f[j]).id@ != id by {
        reqs.lemma_filter_pred(p, j);
    }
    if reqs.len() > 0 {
        let pre = reqs.drop_last();
        lemma_without_id(pre, id);
        assert(reqs =~= pre.push(reqs.last()));
        pre.lemma_filter_push(reqs.last(), p);
        if ids_distinct(reqs) {
            assert(ids_distinct(pre));
            let fp = pre.filter(p);
            if p(reqs.last()) {
                assert forall|a: int, b: int| 0 <= a < b < f.len() implies f[a].id@ != f[b].id@ by {
                    if b == f.len() - 1 {
                        assert(fp.contains(fp[a]));
                        pre.lemma_filter_contains_rev(p, fp[a]);
                        let w = choose|w: int| 0 <= w < pre.len() && pre[w] == fp[a];
                        assert(reqs[w] == pre[w]);
                        assert(f[b] == reqs.last());
                    } else {
                        assert(f[a] == fp[a] && f[b] == fp[b]);
                    }
                }
            }
        }
    }
}

/// What `first_request` finds is in range and has that id.
pub proof fn lemma_first_request(reqs: Seq<ActiveRequest>, id: Seq<char>, i: int)
    requires
        0 <= i,
    ensures
        first_request(reqs, id, i) matches Some(k) ==> i <= k < reqs.len() && reqs[k].id@ == id,
    decreases reqs.len() - i,
{
    if i < reqs.len() && reqs[i].id@ != id {
        lemma_first_request(reqs, id, i + 1);
    }
}

/// The requests without those of a given id.
fn without_request(reqs: &Vec<ActiveRequest>, id: &str) -> (r: Vec<ActiveRequest>)
    ensures
        r@ == reqs@.filter(other_id(id@)),
{
    let ghost p = other_id(id@);
    let mut kept: Vec<ActiveRequest> = Vec::new();
    let mut i: usize = 0;
    while i < reqs.len()
        invariant
            0 <= i <= reqs@.len(),
            p == other_id(id@),
            kept@ == reqs@.take(i as int).filter(p),
        decreases reqs@.len() - i,
    {
        proof {
            assert(reqs@.take(i + 1) =~= reqs@.take(i as int).push(reqs@[i as int]));
            reqs@.take(i as int).lemma_filter_push(reqs@[i as int], p);
        }
        if !str_eq(reqs[i].id.as_str(), id) {
            kept.push(reqs[i].clone());
        }
        i = i + 1;
    }
    assert(reqs@.take(reqs@.len() as int) =~= reqs@);
    kept
}

/// What registering a request does: the request is stored under its id
/// (replacing any request with that id), and the node it runs on, if
/// registered, counts one more active request.
pub open spec fn track_post(
    rt0: ClusterRuntime,
    rt1: ClusterRuntime,
    id: Seq<char>,
    model: String,
    node_name: String,
    streaming: bool,
) -> bool {
    &&& rt1.requests@.len() > 0
    &&& rt1.requests@.drop_last() == rt0.requests@.filter(other_id(id))
    &&& rt1.requests@.last().id@ == id
    &&& rt1.requests@.last().model == model
    &&& rt1.requests@.last().node_name == node_name
    &&& rt1.requests@.last().streaming == streaming
    &&& rt1.requests@.last().state@ == "active"@
    &&& match node_slot(rt0, node_name@) {
        Some(k) => rt1.nodes@ == rt0.nodes@.update(
            k,
            RuntimeNode { active_requests: (rt0.nodes@[k].active_requests + 1) as u32, ..rt0.nodes@[k] },
        ),
        None => rt1.nodes == rt0.nodes,
    }
    &&& rt1.config == rt0.config
    &&& rt1.rotation_index == rt0.rotation_index
    &&& rt1.queued_requests == rt0.queued_requests
    &&& rt1.shutting_down == rt0.shutting_down
}

/// What completing a request does: requests with that id are removed, and
/// the node the first of them ran on counts one active request less (not
/// below zero).
pub open spec fn finish_post(rt1: ClusterRuntime, rt2: ClusterRuntime, id: Seq<char>) -> bool {
    &&& rt2.requests@ == rt1.requests@.filter(other_id(id))
    &&& match first_request(rt1.requests@, id, 0) {
        Some(q) => match node_slot(rt1, rt1.requests@[q].node_name@) {
            Some(k) => rt2.nodes@ == rt1.nodes@.update(
                k,
                RuntimeNode {
                    active_requests: if rt1.nodes@[k].active_requests == 0 {
                        0
                    } else {
                        (rt1.nodes@[k].active_requests - 1) as u32
                    },
                    ..rt1.nodes@[k]
                },
            ),
            None => rt2.nodes == rt1.nodes,
        },
        None => rt2.nodes == rt1.nodes,
    }
    &&& rt2.config == rt1.config
    &&& rt2.rotation_index == rt1.rotation_index
    &&& rt2.queued_requests == rt1.queued_requests
    &&& rt2.shutting_down == rt1.shutting_down
}

impl ClusterRuntime {
    /// Build an immutable routing snapshot for a model: the alias-resolved
    /// model name and, for every node in order, its routing candidate.
    pub fn routing_snapshot(&self, model: &str) -> (r: RoutingSnapshot)
        ensures
            r.model@ == resolved_model(self.config, model@),
            r.candidates@.len() == self.nodes@.len(),
            forall|i: int|
                0 <= i < self.nodes@.len() ==> candidate_matches(
                    #[trigger] r.candidates@[i],
                    self.nodes@[i],
                    resolved_model(self.config, model@),
                    strings_view(self.config.denied_models@),
                ),
            r.config == self.routing_config_spec(),
            r.rotation_index == self.rotation_index,
    {
        let canonical = self.config.resolve_model(model);
        let mut candidates: Vec<RoutingCandidate> = Vec::new();
        let mut i: usize = 0;
        while i < self.nodes.len()
            invariant
                0 <= i <= self.nodes@.len(),
                canonical@ == resolved_model(self.config, model@),
                candidates@.len() == i,
                forall|k: int|
                    0 <= k < i ==> candidate_matches(
                        #[trigger] candidates@[k],
                        self.nodes@[k],
                        canonical@,
                        strings_view(self.config.denied_models@),
                    ),
            decreases self.nodes@.len() - i,
        {
            let node = &self.nodes[i];
            let effective = effective_models(
                node.record.model_mode,
                node.discovered_models.as_slice(),
                node.record.configured_models.as_slice(),
            );
            let has_model = contains_string(effective.as_slice(), canonical);
            let model_loaded = contains_string(node.loaded_models.as_slice(), canonical);
            let model_denied = contains_string(self.config.denied_models.as_slice(), canonical);
            candidates.push(
                RoutingCandidate {
                    node_id: node.record.id.clone(),
                    node_name: node.record.name.clone(),
                    admin_state: node.record.admin_state,
                    runtime_state: node.record.runtime_state,
                    circuit_state: node.circuit.state,
                    has_model,
                    model_loaded,
                    model_denied,
                    active_requests: node.active_requests,
                    queued_requests: node.queued_requests,
                    max_concurrent: node.record.max_concurrent,
                    priority: node.record.priority,
                    recent_failures: node.recent_failures,
                },
            );
            i = i + 1;
        }
        RoutingSnapshot {
            model: canonical.to_owned(),
            candidates,
            config: self.routing_config(),
            rotation_index: self.rotation_index,
        }
    }

    /// The routing configuration the runtime uses.
    pub open spec fn routing_config_spec(&self) -> RoutingConfig {
        RoutingConfig {
            loaded_model_preference: self.config.routing.loaded_model_preference,
            ..default_routing_config()
        }
    }

    /// Increment rotation index after routing decision (wrapping around).
    pub fn advance_rotation(&mut self)
        ensures
            crate::runtime::names_distinct(old(self).nodes@) ==> crate::runtime::names_distinct(final(self).nodes@),
            final(self).rotation_index == (if old(self).rotation_index == usize::MAX {
                0
            } else {
                (old(self).rotation_index + 1) as usize
            }),
            final(self).nodes == old(self).nodes,
            final(self).requests == old(self).requests,
            final(self).config == old(self).config,
            final(self).queued_requests == old(self).queued_requests,
            final(self).shutting_down == old(self).shutting_down,
    {
        self.rotation_index = if self.rotation_index == usize::MAX {
            0
        } else {
            self.rotation_index + 1
        };
    }

    /// Register a new active request: it gets a fresh id (replacing any
    /// request that had that id), and its node's active count goes up by one.
    pub fn track_request(&mut self, model: String, node_name: String, streaming: bool) -> (r:
        String)
        requires
            node_slot(*old(self), node_name@) matches Some(k) ==> old(self).nodes@[k].active_requests
                < u32::MAX,
        ensures
            crate::runtime::names_distinct(old(self).nodes@) ==> crate::runtime::names_distinct(final(self).nodes@),
            crate::runtime::ids_distinct(old(self).requests@) ==> crate::runtime::ids_distinct(final(self).requests@),
            track_post(*old(self), *final(self), r@, model, node_name, streaming),
            is_uuid_v4_text(r@),
    {
        let id = new_id();
        let started = now_millis();
        let slot = self.find_node(node_name.as_str());
        proof {
            lemma_first_named(self.nodes@, node_name@, 0);
        }
        if let Some(k) = slot {
            let ghost before = self.nodes@;
            let mut node = self.nodes.remove(k);
            node.active_requests = node.active_requests + 1;
            self.nodes.insert(k, node);
            assert(self.nodes@ =~= before.update(
                k as int,
                RuntimeNode { active_requests: (before[k as int].active_requests + 1) as u32, ..before[k as int] },
            ));
        }
        let mut kept = without_request(&self.requests, id.as_str());
        let ghost kept_v = kept@;
        proof {
            lemma_without_id(self.requests@, id@);
        }
        kept.push(
            ActiveRequest {
                id: id.clone(),
                model,
                node_name,
                started_at_ms: started,
                streaming,
                state: "active".to_owned(),
            },
        );
        assert(kept@.drop_last() =~= kept_v);
        assert(kept@[kept@.len() - 1].id@ == id@);
        self.requests = kept;
        id
    }

    /// Whether a request with this id is in flight.
    pub fn has_request(&self, id: &str) -> (r: bool)
        ensures
            r == first_request(self.requests@, id@, 0) is Some,
    {
        let mut i: usize = 0;
        while i < self.requests.len()
            invariant
                0 <= i <= self.requests@.len(),
                first_request(self.requests@, id@, 0) == first_request(self.requests@, id@, i as int),
            decreases self.requests@.len() - i,
        {
            if str_eq(self.requests[i].id.as_str(), id) {
                return true;
            }
            i = i + 1;
        }
        false
    }

    /// Complete or cancel a tracked request: it is removed, and its node's
    /// active count goes down by one (not below zero).
    pub fn finish_request(&mut self, request_id: &str)
        ensures
            crate::runtime::names_distinct(old(self).nodes@) ==> crate::runtime::names_distinct(final(self).nodes@),
            crate::runtime::ids_distinct(old(self).requests@) ==> crate::runtime::ids_distinct(final(self).requests@),
            finish_post(*old(self), *final(self), request_id@),
    {
        let mut q: usize = 0;
        let mut found: Option<usize> = None;
        while q < self.requests.len()
            invariant_except_break
                found is None,
            invariant
                0 <= q <= self.requests@.len(),
                first_request(self.requests@, request_id@, 0) == first_request(
                    self.requests@,
                    request_id@,
                    q as int,
                ),
            ensures
                found matches Some(f) ==> first_request(self.requests@, request_id@, 0) == Some(f as int),
                found is None ==> first_request(self.requests@, request_id@, 0) is None,
            decreases self.requests@.len() - q,
        {
            if str_eq(self.requests[q].id.as_str(), request_id) {
                found = Some(q);
                break ;
            }
            q = q + 1;
        }
        proof {
            lemma_first_request(self.requests@, request_id@, 0);
            lemma_without_id(self.requests@, request_id@);
        }
        if let Some(f) = found {
            let slot = self.find_node(self.requests[f].node_name.as_str());
            proof {
                lemma_first_named(self.nodes@, self.requests@[f as int].node_name@, 0);
            }
            if let Some(k) = slot {
                let ghost before = self.nodes@;
                let mut node = self.nodes.remove(k);
                node.active_requests = if node.active_requests == 0 {
                    0
                } else {
                    node.active_requests - 1
                };
                self.nodes.insert(k, node);
                assert(self.nodes@ =~= before.update(k as int, self.nodes@[k as int]));
            }
        }
        let kept = without_request(&self.requests, request_id);
        self.requests = kept;
    }
}

} // verus!

verus! {

/// A node after discovery results are applied.
pub open spec fn discovered_node(
    n: RuntimeNode,
    discovered: Vec<String>,
    loaded: Vec<String>,
    fingerprint: Option<String>,
    contact: i64,
) -> RuntimeNode {
    RuntimeNode {
        discovered_models: discovered,
        loaded_models: loaded,
        last_contact: Some(contact),
        record: NodeRecord {
            inventory_fingerprint: fingerprint,
            runtime_state: NodeRuntimeState::Ready,
            ..n.record
        },
        ..n
    }
}

/// Whether any active request is placed on a node.
pub open spec fn node_busy(reqs: Seq<ActiveRequest>, name: Seq<char>) -> bool {
    exists|i: int| 0 <= i < reqs.len() && #[trigger] reqs[i].node_name@ == name
}

impl ClusterRuntime {
    /// Apply discovered models to a node: its model lists, fingerprint and
    /// contact time are replaced and it becomes ready. Returns the updated
    /// record, to be persisted, or `None` when no such node exists.
    pub fn apply_discovery(
        &mut self,
        node_name: &str,
        discovered: Vec<String>,
        loaded: Vec<String>,
        fingerprint: Option<String>,
    ) -> (r: Option<NodeRecord>)
        ensures
            crate::runtime::names_distinct(old(self).nodes@) ==> crate::runtime::names_distinct(final(self).nodes@),
            match node_slot(*old(self), node_name@) {
                Some(k) => final(self).nodes@[k].last_contact is Some && final(self).nodes@
                    == old(self).nodes@.update(
                    k,
                    discovered_node(
                        old(self).nodes@[k],
                        discovered,
                        loaded,
                        fingerprint,
                        final(self).nodes@[k].last_contact->0,
                    ),
                ) && (r matches Some(rec) && rec@ == final(self).nodes@[k].record@),
                None => final(self).nodes == old(self).nodes && r is None,
            },
            final(self).requests == old(self).requests,
            final(self).config == old(self).config,
            final(self).rotation_index == old(self).rotation_index,
            final(self).queued_requests == old(self).queued_requests,
            final(self).shutting_down == old(self).shutting_down,
    {
        let slot = self.find_node(node_name);
        proof {
            lemma_first_named(self.nodes@, node_name@, 0);
        }
        match slot {
            Some(k) => {
                let now = now_millis();
                let ghost before = self.nodes@;
                let mut node = self.nodes.remove(k);
                node.discovered_models = discovered;
                node.loaded_models = loaded;
                node.last_contact = Some(now);
                node.record.inventory_fingerprint = fingerprint;
                node.record.runtime_state = NodeRuntimeState::Ready;
                let rec = node.record.clone();
                self.nodes.insert(k, node);
                assert(self.nodes@ =~= before.update(k as int, self.nodes@[k as int]));
                Some(rec)
            },
            None => None,
        }
    }

    /// Whether any active request is placed on the named node.
    pub fn node_has_active_requests(&self, name: &str) -> (r: bool)
        ensures
            r == node_busy(self.requests@, name@),
    {
        let mut i: usize = 0;
        while i < self.requests.len()
            invariant
                0 <= i <= self.requests@.len(),
                forall|k: int| 0 <= k < i ==> #[trigger] self.requests@[k].node_name@ != name@,
            decreases self.requests@.len() - i,
        {
            if str_eq(self.requests[i].node_name.as_str(), name) {
                return true;
            }
            i = i + 1;
        }
        false
    }

    /// Remove the named node from the runtime; returns whether it existed.
    pub fn remove_runtime_node(&mut self, name: &str) -> (r: bool)
        ensures
            crate::runtime::names_distinct(old(self).nodes@) ==> crate::runtime::names_distinct(final(self).nodes@),
            r == node_slot(*old(self), name@) is Some,
            match node_slot(*old(self), name@) {
                Some(k) => final(self).nodes@ == old(self).nodes@.remove(k),
                None => final(self).nodes == old(self).nodes,
            },
            final(self).requests == old(self).requests,
            final(self).config == old(self).config,
    {
        let slot = self.find_node(name);
        proof {
            lemma_first_named(self.nodes@, name@, 0);
        }
        match slot {
            Some(k) => {
                self.nodes.remove(k);
                true
            },
            None => false,
        }
    }

    /// Set the named node's administrative state; returns the updated record
    /// to be persisted, or `None` when no such node exists.
    pub fn set_admin_state(&mut self, name: &str, state: AdminState) -> (r: Option<NodeRecord>)
        ensures
            crate::runtime::names_distinct(old(self).nodes@) ==> crate::runtime::names_distinct(final(self).nodes@),
            match node_slot(*old(self), name@) {
                Some(k) => final(self).nodes@ == old(self).nodes@.update(
                    k,
                    RuntimeNode {
                        record: NodeRecord { admin_state: state, ..old(self).nodes@[k].record },
                        ..old(self).nodes@[k]
                    },
                ) && (r matches Some(rec) && rec@ == final(self).nodes@[k].record@),
                None => final(self).nodes == old(self).nodes && r is None,
            },
            final(self).requests == old(self).requests,
            final(self).config == old(self).config,
            final(self).rotation_index == old(self).rotation_index,
            final(self).queued_requests == old(self).queued_requests,
            final(self).shutting_down == old(self).shutting_down,
    {
        let slot = self.find_node(name);
        proof {
            lemma_first_named(self.nodes@, name@, 0);
        }
        match slot {
            Some(k) => {
                let ghost before = self.nodes@;
                let mut node = self.nodes.remove(k);
                node.record.admin_state = state;
                let rec = node.record.clone();
                self.nodes.insert(k, node);
                assert(self.nodes@ =~= before.update(k as int, self.nodes@[k as int]));
                Some(rec)
            },
            None => None,
        }
    }

    /// Finish draining: every draining node without active requests becomes
    /// drained. Returns the records that changed, in node order, to be
    /// persisted.
    pub fn complete_drains(&mut self) -> (r: Vec<NodeRecord>)
        ensures
            crate::runtime::names_distinct(old(self).nodes@) ==> crate::runtime::names_distinct(final(self).nodes@),
            final(self).nodes@.len() == old(self).nodes@.len(),
            forall|i: int|
                0 <= i < old(self).nodes@.len() ==> #[trigger] final(self).nodes@[i] == (if drain_done(
                    old(self).requests@,
                )(old(self).nodes@[i]) {
                    drained(old(self).nodes@[i])
                } else {
                    old(self).nodes@[i]
                }),
            r@.map_values(|rec: NodeRecord| rec@) == old(self).nodes@.filter(
                drain_done(old(self).requests@),
            ).map_values(|n: RuntimeNode| drained(n).record@),
            final(self).requests == old(self).requests,
            final(self).config == old(self).config,
            final(self).rotation_index == old(self).rotation_index,
            final(self).queued_requests == old(self).queued_requests,
            final(self).shutting_down == old(self).shutting_down,
    {
        let ghost start = self.nodes@;
        let ghost p = drain_done(self.requests@);
        let mut changed: Vec<NodeRecord> = Vec::new();
        let mut i: usize = 0;
        while i < self.nodes.len()
            invariant
                0 <= i <= self.nodes@.len(),
                self.nodes@.len() == start.len(),
                self.requests == old(self).requests,
                self.config == old(self).config,
                self.rotation_index == old(self).rotation_index,
                self.queued_requests == old(self).queued_requests,
                self.shutting_down == old(self).shutting_down,
                start == old(self).nodes@,
                p == drain_done(old(self).requests@),
                forall|k: int| i <= k < start.len() ==> #[trigger] self.nodes@[k] == start[k],
                forall|k: int|
                    0 <= k < i ==> #[trigger] self.nodes@[k] == (if p(start[k]) {
                        drained(start[k])
                    } else {
                        start[k]
                    }),
                changed@.map_values(|rec: NodeRecord| rec@) == start.take(i as int).filter(
                    p,
                ).map_values(|n: RuntimeNode| drained(n).record@),
            decreases start.len() - i,
        {
            proof {
                assert(start.take(i + 1) =~= start.take(i as int).push(start[i as int]));
                start.take(i as int).lemma_filter_push(start[i as int], p);
            }
            let draining = self.nodes[i].record.admin_state == AdminState::Draining;
            let mut done = false;
            if draining {
                let busy = self.node_has_active_requests(self.nodes[i].record.name.as_str());
                done = !busy;
            }
            if done {
                let ghost before = self.nodes@;
                let ghost old_changed = changed@;
                let mut node = self.nodes.remove(i);
                node.record.admin_state = AdminState::Drained;
                let rec = node.record.clone();
                self.nodes.insert(i, node);
                assert(self.nodes@ =~= before.update(i as int, drained(start[i as int])));
                changed.push(rec);
                assert(changed@.map_values(|rec: NodeRecord| rec@) =~= old_changed.map_values(
                    |rec: NodeRecord| rec@,
                ).push(drained(start[i as int]).record@));
            }
            i = i + 1;
        }
        assert(start.take(start.len() as int) =~= start);
        changed
    }
}

/// Whether a node has finished draining: it is draining and carries no
/// active request.
pub open spec fn drain_done(reqs: Seq<ActiveRequest>) -> spec_fn(RuntimeNode) -> bool {
    |n: RuntimeNode| n.record.admin_state == AdminState::Draining && !node_busy(reqs, n.record.name@)
}

/// A node marked drained.
pub open spec fn drained(n: RuntimeNode) -> RuntimeNode {
    RuntimeNode { record: NodeRecord { admin_state: AdminState::Drained, ..n.record }, ..n }
}

} // verus!

verus! {

/// A filter keeps a sequence whose elements all pass it.
pub proof fn lemma_filter_all<T>(s: Seq<T>, p: spec_fn(T) -> bool)
    requires
        forall|i: int| 0 <= i < s.len() ==> #[trigger] p(s[i]),
    ensures
        s.filter(p) == s,
    decreases s.len(),
{
    reveal(Seq::filter);
    if s.len() > 0 {
        lemma_filter_all(s.drop_last(), p);
        assert(s.drop_last().push(s.last()) =~= s);
    }
}

/// Renaming nothing keeps name lookups: updating a node with one of the
/// same name leaves every lookup where it was.
pub proof fn lemma_first_named_update(nodes: Seq<RuntimeNode>, k: int, n: RuntimeNode, name: Seq<char>, i: int)
    requires
        0 <= k < nodes.len(),
        n.record.name@ == nodes[k].record.name@,
    ensures
        first_named(nodes.update(k, n), name, i) == first_named(nodes, name, i),
    decreases nodes.len() - i,
{
    if 0 <= i < nodes.len() {
        lemma_first_named_update(nodes, k, n, name, i + 1);
    }
}

/// Registering a request and then completing it leaves every node's load as
/// it was, and leaves no request under that id.
pub proof fn lemma_track_then_finish(
    rt0: ClusterRuntime,
    rt1: ClusterRuntime,
    rt2: ClusterRuntime,
    id: Seq<char>,
    model: String,
    node_name: String,
    streaming: bool,
)
    requires
        node_slot(rt0, node_name@) matches Some(k) ==> rt0.nodes@[k].active_requests < u32::MAX,
        track_post(rt0, rt1, id, model, node_name, streaming),
        finish_post(rt1, rt2, id),
    ensures
        rt2.nodes@ == rt0.nodes@,
        rt2.requests@ == rt0.requests@.filter(other_id(id)),
        rt2.config == rt0.config,
{
    let p = other_id(id);
    let kept = rt0.requests@.filter(p);
    let r1 = rt1.requests@;
    assert(r1 == kept.push(r1.last())) by {
        assert(r1 =~= r1.drop_last().push(r1.last()));
    }
    assert forall|i: int| 0 <= i < kept.len() implies #[trigger] p(kept[i]) by {
        rt0.requests@.lemma_filter_pred(p, i);
    }
    lemma_filter_all(kept, p);
    kept.lemma_filter_push(r1.last(), p);
    assert(rt2.requests@ == kept);
    // the completed request is the one just registered
    assert(first_request(r1, id, 0) == Some((r1.len() - 1) as int)) by {
        assert forall|j: int| 0 <= j < r1.len() - 1 implies #[trigger] r1[j].id@ != id by {
            assert(r1[j] == kept[j]);
        }
        lemma_first_request_last(r1, id, 0);
    }
    lemma_first_named(rt0.nodes@, node_name@, 0);
    match node_slot(rt0, node_name@) {
        Some(k) => {
            let n1 = RuntimeNode { active_requests: (rt0.nodes@[k].active_requests + 1) as u32, ..rt0.nodes@[k] };
            lemma_first_named_update(rt0.nodes@, k, n1, node_name@, 0);
            assert(rt2.nodes@ =~= rt0.nodes@);
        },
        None => {},
    }
}

/// A request id found nowhere but at the end is found at the end.
pub proof fn lemma_first_request_last(reqs: Seq<ActiveRequest>, id: Seq<char>, i: int)
    requires
        0 <= i < reqs.len(),
        reqs.last().id@ == id,
        forall|j: int| 0 <= j < reqs.len() - 1 ==> #[trigger] reqs[j].id@ != id,
    ensures
        first_request(reqs, id, i) == Some((reqs.len() - 1) as int),
    decreases reqs.len() - i,
{
    if i < reqs.len() - 1 {
        lemma_first_request_last(reqs, id, i + 1);
    }
}

} // verus!

verus! {

/// A node's routing candidate is eligible only if the node is routable:
/// routing never sends work to a node that is not enabled, not ready or
/// suspect, or whose circuit is open.
pub proof fn lemma_eligible_implies_routable(
    c: RoutingCandidate,
    n: RuntimeNode,
    model: Seq<char>,
    denied: Seq<Seq<char>>,
)
    requires
        candidate_matches(c, n, model, denied),
    ensures
        crate::routing::is_eligible(c) ==> routable(n),
{
}

/// A denied model is never routed: in a snapshot whose candidates all
/// mark the model denied, selection finds no node.
pub proof fn lemma_denied_model_never_selected(snapshot: RoutingSnapshot, rt: ClusterRuntime, model: Seq<char>)
    requires
        snapshot.candidates@.len() == rt.nodes@.len(),
        forall|i: int|
            0 <= i < rt.nodes@.len() ==> candidate_matches(
                #[trigger] snapshot.candidates@[i],
                rt.nodes@[i],
                model,
                strings_view(rt.config.denied_models@),
            ),
        strings_view(rt.config.denied_models@).contains(model),
    ensures
        crate::routing::selection(snapshot) is None,
{
    crate::routing::lemma_selection_is_eligible(snapshot);
    assert forall|i: int| 0 <= i < snapshot.candidates@.len() implies !crate::routing::is_eligible(
        #[trigger] snapshot.candidates@[i],
    ) by {
        assert(candidate_matches(snapshot.candidates@[i], rt.nodes@[i], model, strings_view(rt.config.denied_models@)));
    }
}

/// Routing only ever chooses a routable node that offers the model: the node
/// a snapshot of the runtime selects is enabled, ready or suspect, has a
/// closed or half-open circuit, and has the model among its effective
/// models.
pub proof fn lemma_selected_node_routable(snapshot: RoutingSnapshot, rt: ClusterRuntime, model: Seq<char>)
    requires
        snapshot.candidates@.len() == rt.nodes@.len(),
        forall|i: int|
            0 <= i < rt.nodes@.len() ==> candidate_matches(
                #[trigger] snapshot.candidates@[i],
                rt.nodes@[i],
                model,
                strings_view(rt.config.denied_models@),
            ),
    ensures
        crate::routing::selection(snapshot) matches Some(name) ==> exists|i: int|
            0 <= i < rt.nodes@.len() && (#[trigger] rt.nodes@[i]).record.name@ == name && routable(rt.nodes@[i])
                && effective(
                rt.nodes@[i].record.model_mode,
                strings_view(rt.nodes@[i].discovered_models@),
                strings_view(rt.nodes@[i].record.configured_models@),
            ).contains(model),
{
    crate::routing::lemma_selection_is_eligible(snapshot);
    if let Some(name) = crate::routing::selection(snapshot) {
        let i = choose|i: int|
            0 <= i < snapshot.candidates@.len() && crate::routing::is_eligible(#[trigger] snapshot.candidates@[i])
                && snapshot.candidates@[i].node_name@ == name;
        assert(candidate_matches(snapshot.candidates@[i], rt.nodes@[i], model, strings_view(rt.config.denied_models@)));
        assert(rt.nodes@[i].record.name@ == name && routable(rt.nodes@[i]));
    }
}

} // verus!
