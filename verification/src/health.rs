//! Passive health tracking: outcomes of upstream interactions move nodes
//! between runtime states and drive their circuit breakers.

use vstd::prelude::*;
use crate::circuit_breaker::{
    after_success, after_failure, after_begin_recovery, can_record_success, can_record_failure,
    CircuitState,
};
use crate::retry::{classify, classify_error, node_failure};
use crate::runtime::{ClusterRuntime, RuntimeNode, node_slot, lemma_first_named, now_millis};
use crate::state::{NodeRuntimeState, is_valid_transition};
use crate::store::NodeRecord;

verus! {

/// A node after a successful interaction at time `t`.
pub open spec fn succeeded(n: RuntimeNode, t: i64) -> RuntimeNode {
    RuntimeNode {
        recent_failures: 0,
        circuit: after_success(n.circuit),
        record: NodeRecord { runtime_state: NodeRuntimeState::Ready, ..n.record },
        last_contact: Some(t),
        ..n
    }
}

/// A node after an interaction failure that counts against it.
pub open spec fn failed(n: RuntimeNode) -> RuntimeNode {
    let c = after_failure(n.circuit);
    RuntimeNode {
        recent_failures: (n.recent_failures + 1) as u32,
        circuit: c,
        record: if c.state == CircuitState::Open {
            NodeRecord { runtime_state: NodeRuntimeState::Unavailable, ..n.record }
        } else {
            n.record
        },
        ..n
    }
}

/// A node whose state is set to `s`.
pub open spec fn with_state(n: RuntimeNode, s: NodeRuntimeState) -> RuntimeNode {
    RuntimeNode { record: NodeRecord { runtime_state: s, ..n.record }, ..n }
}

/// A node entering recovery probing.
pub open spec fn recovering(n: RuntimeNode) -> RuntimeNode {
    RuntimeNode {
        record: NodeRecord { runtime_state: NodeRuntimeState::Recovering, ..n.record },
        circuit: after_begin_recovery(n.circuit),
        ..n
    }
}

/// Whether the runtime's other parts are as before.
pub open spec fn same_except_nodes(a: ClusterRuntime, b: ClusterRuntime) -> bool {
    &&& a.config == b.config
    &&& a.requests == b.requests
    &&& a.queued_requests == b.queued_requests
    &&& a.rotation_index == b.rotation_index
    &&& a.shutting_down == b.shutting_down
}

/// Record a successful upstream interaction: the node's failures are cleared,
/// its circuit records the success, it becomes ready and is contacted now.
pub fn record_success(runtime: &mut ClusterRuntime, node_name: &str)
    requires
        node_slot(*old(runtime), node_name@) matches Some(k) ==> can_record_success(
            old(runtime).nodes@[k].circuit,
        ),
    ensures
        crate::runtime::names_distinct(old(runtime).nodes@) ==> crate::runtime::names_distinct(final(runtime).nodes@),
        same_except_nodes(*final(runtime), *old(runtime)),
        match node_slot(*old(runtime), node_name@) {
            Some(k) => final(runtime).nodes@[k].last_contact is Some && final(runtime).nodes@
                == old(runtime).nodes@.update(
                k,
                succeeded(old(runtime).nodes@[k], final(runtime).nodes@[k].last_contact->0),
            ),
            None => final(runtime).nodes == old(runtime).nodes,
        },
{
    let slot = runtime.find_node(node_name);
    proof {
        lemma_first_named(runtime.nodes@, node_name@, 0);
    }
    if let Some(k) = slot {
        let now = now_millis();
        let ghost before = runtime.nodes@;
        let mut node = runtime.nodes.remove(k);
        node.recent_failures = 0;
        node.circuit.record_success();
        node.record.runtime_state = NodeRuntimeState::Ready;
        node.last_contact = Some(now);
        runtime.nodes.insert(k, node);
        assert(runtime.nodes@ =~= before.update(k as int, succeeded(before[k as int], now)));
    }
}

/// Record an upstream failure for health tracking. Errors that do not count
/// against the node change nothing. Otherwise the node's failure count and
/// circuit advance, and a node whose circuit is open becomes unavailable;
/// the result says whether the node is now ejected (an event is due).
pub fn record_failure(runtime: &mut ClusterRuntime, node_name: &str, status: Option<u16>, kind: &str) -> (r:
    bool)
    requires
        node_slot(*old(runtime), node_name@) matches Some(k) ==> can_record_failure(
            old(runtime).nodes@[k].circuit,
        ) && old(runtime).nodes@[k].recent_failures < u32::MAX,
    ensures
        crate::runtime::names_distinct(old(runtime).nodes@) ==> crate::runtime::names_distinct(final(runtime).nodes@),
        same_except_nodes(*final(runtime), *old(runtime)),
        !node_failure(classify(status, kind@)) ==> final(runtime).nodes == old(runtime).nodes && !r,
        node_failure(classify(status, kind@)) ==> match node_slot(*old(runtime), node_name@) {
            Some(k) => final(runtime).nodes@ == old(runtime).nodes@.update(k, failed(old(runtime).nodes@[k]))
                && r == (failed(old(runtime).nodes@[k]).circuit.state == CircuitState::Open),
            None => final(runtime).nodes == old(runtime).nodes && !r,
        },
{
    let error = classify_error(status, kind);
    if !error.counts_as_node_failure() {
        return false;
    }
    let slot = runtime.find_node(node_name);
    proof {
        lemma_first_named(runtime.nodes@, node_name@, 0);
    }
    match slot {
        Some(k) => {
            let ghost before = runtime.nodes@;
            let mut node = runtime.nodes.remove(k);
            node.recent_failures = node.recent_failures + 1;
            node.circuit.record_failure();
            let ejected = !node.circuit.allows_routing();
            if ejected {
                node.record.runtime_state = NodeRuntimeState::Unavailable;
            }
            runtime.nodes.insert(k, node);
            assert(runtime.nodes@ =~= before.update(k as int, failed(before[k as int])));
            ejected
        },
        None => false,
    }
}

/// Mark a node unavailable explicitly; returns its record to be persisted
/// (with an event carrying the reason), or `None` when no such node exists.
pub fn mark_unavailable(runtime: &mut ClusterRuntime, node_name: &str) -> (r: Option<NodeRecord>)
    ensures
        crate::runtime::names_distinct(old(runtime).nodes@) ==> crate::runtime::names_distinct(final(runtime).nodes@),
        same_except_nodes(*final(runtime), *old(runtime)),
        match node_slot(*old(runtime), node_name@) {
            Some(k) => final(runtime).nodes@ == old(runtime).nodes@.update(
                k,
                with_state(old(runtime).nodes@[k], NodeRuntimeState::Unavailable),
            ) && (r matches Some(rec) && rec@ == final(runtime).nodes@[k].record@),
            None => final(runtime).nodes == old(runtime).nodes && r is None,
        },
{
    let slot = runtime.find_node(node_name);
    proof {
        lemma_first_named(runtime.nodes@, node_name@, 0);
    }
    match slot {
        Some(k) => {
            let ghost before = runtime.nodes@;
            let mut node = runtime.nodes.remove(k);
            node.record.runtime_state = NodeRuntimeState::Unavailable;
            let rec = node.record.clone();
            runtime.nodes.insert(k, node);
            assert(runtime.nodes@ =~= before.update(
                k as int,
                with_state(before[k as int], NodeRuntimeState::Unavailable),
            ));
            Some(rec)
        },
        None => None,
    }
}

/// Begin recovery probing: the node becomes recovering and an open circuit
/// becomes half-open.
pub fn begin_recovery(runtime: &mut ClusterRuntime, node_name: &str)
    ensures
        crate::runtime::names_distinct(old(runtime).nodes@) ==> crate::runtime::names_distinct(final(runtime).nodes@),
        same_except_nodes(*final(runtime), *old(runtime)),
        match node_slot(*old(runtime), node_name@) {
            Some(k) => final(runtime).nodes@ == old(runtime).nodes@.update(
                k,
                recovering(old(runtime).nodes@[k]),
            ),
            None => final(runtime).nodes == old(runtime).nodes,
        },
{
    let slot = runtime.find_node(node_name);
    proof {
        lemma_first_named(runtime.nodes@, node_name@, 0);
    }
    if let Some(k) = slot {
        let ghost before = runtime.nodes@;
        let mut node = runtime.nodes.remove(k);
        node.record.runtime_state = NodeRuntimeState::Recovering;
        node.circuit.begin_recovery();
        runtime.nodes.insert(k, node);
        assert(runtime.nodes@ =~= before.update(k as int, recovering(before[k as int])));
    }
}

/// The recovery delay for an attempt: the base backoff doubled per attempt
/// (at most ten doublings, saturating), capped at the maximum backoff.
pub open spec fn recovery_delay(base: u64, max: u64, attempt: u32) -> u64 {
    let doublings: nat = if attempt < 10 { attempt as nat } else { 10 };
    let raw = base * vstd::arithmetic::power2::pow2(doublings);
    let sat: u64 = if raw > u64::MAX { u64::MAX } else { raw as u64 };
    if sat < max { sat } else { max }
}

/// Compute exponential backoff delay for recovery.
pub fn recovery_delay_ms(runtime: &ClusterRuntime, attempt: u32) -> (r: u64)
    ensures
        r == recovery_delay(
            runtime.config.health.recovery_backoff_ms,
            runtime.config.health.recovery_max_backoff_ms,
            attempt,
        ),
{
    let base = runtime.config.health.recovery_backoff_ms;
    let max = runtime.config.health.recovery_max_backoff_ms;
    let n: u32 = if attempt < 10 { attempt } else { 10 };
    let mut factor: u64 = 1;
    let mut i: u32 = 0;
    proof {
        vstd::arithmetic::power2::lemma2_to64();
    }
    while i < n
        invariant
            0 <= i <= n <= 10,
            factor == vstd::arithmetic::power2::pow2(i as nat),
        decreases n - i,
    {
        proof {
            vstd::arithmetic::power2::lemma_pow2_unfold((i + 1) as nat);
            vstd::arithmetic::power2::lemma_pow2_strictly_increases(i as nat, 10);
            vstd::arithmetic::power2::lemma2_to64();
        }
        factor = factor * 2;
        i = i + 1;
    }
    let delay: u64 = match base.checked_mul(factor) {
        Some(d) => d,
        None => u64::MAX,
    };
    proof {
        assert(n as nat == (if attempt < 10 { attempt as nat } else { 10nat }));
    }
    if delay < max { delay } else { max }
}

/// The recovery delay never exceeds the configured maximum, and never
/// shrinks as attempts grow.
pub proof fn lemma_recovery_delay_bounded_monotone(base: u64, max: u64, a: u32, b: u32)
    requires
        a <= b,
    ensures
        recovery_delay(base, max, a) <= max,
        recovery_delay(base, max, a) <= recovery_delay(base, max, b),
{
    let da: nat = if a < 10 { a as nat } else { 10 };
    let db: nat = if b < 10 { b as nat } else { 10 };
    if da < db {
        vstd::arithmetic::power2::lemma_pow2_strictly_increases(da, db);
    }
    let pa = vstd::arithmetic::power2::pow2(da);
    let pb = vstd::arithmetic::power2::pow2(db);
    assert(pa <= pb);
    assert(base * pa <= base * pb) by (nonlinear_arith)
        requires
            pa <= pb,
            base >= 0,
    ;
}

/// Health changes move a node's runtime state only along valid transitions,
/// except that a success marks even an unavailable node ready, and recovery
/// may start from any state (both as the controller does).
pub proof fn lemma_health_transitions(n: RuntimeNode, t: i64)
    ensures
        is_valid_transition(n.record.runtime_state, failed(n).record.runtime_state),
        is_valid_transition(
            n.record.runtime_state,
            with_state(n, NodeRuntimeState::Unavailable).record.runtime_state,
        ),
        n.record.runtime_state != NodeRuntimeState::Unavailable ==> is_valid_transition(
            n.record.runtime_state,
            succeeded(n, t).record.runtime_state,
        ),
        (n.record.runtime_state == NodeRuntimeState::Unavailable || n.record.runtime_state
            == NodeRuntimeState::Recovering) ==> is_valid_transition(
            n.record.runtime_state,
            recovering(n).record.runtime_state,
        ),
{
}

/// A success never leaves a node's circuit open, and clears its failures.
pub proof fn lemma_success_reopens_routing(n: RuntimeNode, t: i64)
    requires
        can_record_success(n.circuit),
    ensures
        succeeded(n, t).circuit.state != CircuitState::Open,
        succeeded(n, t).recent_failures == 0,
        succeeded(n, t).circuit.failure_count == 0,
        succeeded(n, t).record.runtime_state == NodeRuntimeState::Ready,
{
}

} // verus!
