//! Model-aware request routing: candidate filtering, scoring, selection and
//! explanation.
//!
//! Scores are exact integers in thousandths of a score point: a weight of
//! `1000` counts one point per active request, and each unit of node priority
//! lowers the score by `100` (a tenth of a point).

use vstd::prelude::*;
use vstd::relations::*;
use vstd::utf8::*;
use crate::circuit_breaker::CircuitState;
use crate::order::{
    lex_le, bytes_le, insert_by, sort_by_insertion, lemma_sort_multiset, lemma_sort_contains,
    lemma_sort_sorted, total_preorder, lemma_lex_total, lemma_lex_transitive,
};
use crate::state::{AdminState, NodeRuntimeState};

verus! {

/// Supported routing policies.
#[derive(Debug, Clone, Copy, PartialEq, Eq, Structural)]
pub enum RoutingPolicy {
    LeastActiveRequests,
    RoundRobin,
    LeastQueuedRequests,
    Weighted,
    Priority,
}

impl Default for RoutingPolicy {
    fn default() -> (r: Self)
        ensures
            r == RoutingPolicy::LeastActiveRequests,
    {
        RoutingPolicy::LeastActiveRequests
    }
}

/// Routing weights and preferences, in thousandths of a score point.
#[derive(Debug, Clone, Copy, PartialEq, Eq, Structural)]
pub struct RoutingConfig {
    pub policy: RoutingPolicy,
    pub loaded_model_preference: bool,
    pub loaded_model_bonus: i64,
    pub active_weight: i64,
    pub queue_weight: i64,
    pub cold_model_penalty: i64,
    pub failure_penalty: i64,
}

/// The default routing weights: a loaded-model bonus of 5 points, 1 point per
/// active request, half a point per queued request, 2 points for a cold model
/// and 3 points per recent failure.
pub open spec fn default_routing_config() -> RoutingConfig {
    RoutingConfig {
        policy: RoutingPolicy::LeastActiveRequests,
        loaded_model_preference: true,
        loaded_model_bonus: 5000,
        active_weight: 1000,
        queue_weight: 500,
        cold_model_penalty: 2000,
        failure_penalty: 3000,
    }
}

impl Default for RoutingConfig {
    fn default() -> (r: Self)
        ensures
            r == default_routing_config(),
    {
        RoutingConfig {
            policy: RoutingPolicy::LeastActiveRequests,
            loaded_model_preference: true,
            loaded_model_bonus: 5000,
            active_weight: 1000,
            queue_weight: 500,
            cold_model_penalty: 2000,
            failure_penalty: 3000,
        }
    }
}

/// Node candidate for routing decisions.
#[derive(Debug)]
pub struct RoutingCandidate {
    pub node_id: String,
    pub node_name: String,
    pub admin_state: AdminState,
    pub runtime_state: NodeRuntimeState,
    pub circuit_state: CircuitState,
    pub has_model: bool,
    pub model_loaded: bool,
    pub model_denied: bool,
    pub active_requests: u32,
    pub queued_requests: u32,
    pub max_concurrent: u32,
    pub priority: i32,
    pub recent_failures: u32,
}

impl Clone for RoutingCandidate {
    fn clone(&self) -> (r: Self)
        ensures
            r == *self,
    {
        RoutingCandidate {
            node_id: self.node_id.clone(),
            node_name: self.node_name.clone(),
            admin_state: self.admin_state,
            runtime_state: self.runtime_state,
            circuit_state: self.circuit_state,
            has_model: self.has_model,
            model_loaded: self.model_loaded,
            model_denied: self.model_denied,
            active_requests: self.active_requests,
            queued_requests: self.queued_requests,
            max_concurrent: self.max_concurrent,
            priority: self.priority,
            recent_failures: self.recent_failures,
        }
    }
}

/// Immutable snapshot for consistent routing.
#[derive(Debug)]
pub struct RoutingSnapshot {
    pub model: String,
    pub candidates: Vec<RoutingCandidate>,
    pub config: RoutingConfig,
    pub rotation_index: usize,
}

/// Rejection reason for explain output.
#[derive(Debug, Clone, Copy, PartialEq, Eq, Structural)]
pub enum RejectionReason {
    Disabled,
    Draining,
    Drained,
    Unavailable,
    Recovering,
    CircuitOpen,
    OverConcurrencyLimit,
    ModelMissing,
    ModelDenied,
}

/// Routing explanation for a model.
#[derive(Debug)]
pub struct RoutingExplanation {
    pub model: String,
    pub eligible: Vec<ScoredCandidate>,
    pub rejected: Vec<RejectedCandidate>,
    pub preferred: Option<String>,
}

/// Scored eligible candidate; the score is in thousandths of a point.
#[derive(Debug)]
pub struct ScoredCandidate {
    pub node_name: String,
    pub score: i128,
}

/// Rejected candidate with reason.
#[derive(Debug)]
pub struct RejectedCandidate {
    pub node_name: String,
    pub reason: RejectionReason,
}

/// Why a candidate cannot take the request, checked in this order:
/// administrative state, runtime state, circuit, model presence, model
/// denial, concurrency limit.
pub open spec fn rejection(c: RoutingCandidate) -> Option<RejectionReason> {
    if c.admin_state == AdminState::Disabled {
        Some(RejectionReason::Disabled)
    } else if c.admin_state == AdminState::Draining {
        Some(RejectionReason::Draining)
    } else if c.admin_state == AdminState::Drained {
        Some(RejectionReason::Drained)
    } else if c.runtime_state == NodeRuntimeState::Unavailable || c.runtime_state
        == NodeRuntimeState::Warming {
        Some(RejectionReason::Unavailable)
    } else if c.runtime_state == NodeRuntimeState::Recovering {
        Some(RejectionReason::Recovering)
    } else if c.circuit_state == CircuitState::Open {
        Some(RejectionReason::CircuitOpen)
    } else if !c.has_model {
        Some(RejectionReason::ModelMissing)
    } else if c.model_denied {
        Some(RejectionReason::ModelDenied)
    } else if c.active_requests >= c.max_concurrent {
        Some(RejectionReason::OverConcurrencyLimit)
    } else {
        None
    }
}

/// Whether a candidate may take the request.
pub open spec fn is_eligible(c: RoutingCandidate) -> bool {
    rejection(c) is None
}

/// Eligibility as a predicate.
pub open spec fn eligible_pred() -> spec_fn(RoutingCandidate) -> bool {
    |c: RoutingCandidate| is_eligible(c)
}

/// Ineligibility as a predicate.
pub open spec fn rejected_pred() -> spec_fn(RoutingCandidate) -> bool {
    |c: RoutingCandidate| !is_eligible(c)
}

/// The eligible candidates, in snapshot order.
pub open spec fn eligible_candidates(cands: Seq<RoutingCandidate>) -> Seq<RoutingCandidate> {
    cands.filter(eligible_pred())
}

/// The rejected candidates with their reasons, in snapshot order.
pub open spec fn rejected_candidates(cands: Seq<RoutingCandidate>) -> Seq<RejectedCandidate> {
    cands.filter(rejected_pred()).map_values(
        |c: RoutingCandidate| RejectedCandidate { node_name: c.node_name, reason: rejection(c)->0 },
    )
}

/// Decide whether a candidate is rejected, and why.
pub fn rejection_reason(c: &RoutingCandidate) -> (r: Option<RejectionReason>)
    ensures
        r == rejection(*c),
{
    match c.admin_state {
        AdminState::Disabled => return Some(RejectionReason::Disabled),
        AdminState::Draining => return Some(RejectionReason::Draining),
        AdminState::Drained => return Some(RejectionReason::Drained),
        AdminState::Enabled => {},
    }
    match c.runtime_state {
        NodeRuntimeState::Unavailable | NodeRuntimeState::Warming => {
            return Some(RejectionReason::Unavailable);
        },
        NodeRuntimeState::Recovering => return Some(RejectionReason::Recovering),
        _ => {},
    }
    if c.circuit_state == CircuitState::Open {
        return Some(RejectionReason::CircuitOpen);
    }
    if !c.has_model {
        return Some(RejectionReason::ModelMissing);
    }
    if c.model_denied {
        return Some(RejectionReason::ModelDenied);
    }
    if c.active_requests >= c.max_concurrent {
        return Some(RejectionReason::OverConcurrencyLimit);
    }
    None
}

/// Filter candidates to those eligible for routing; the others are returned
/// with the reason they were rejected.
pub fn filter_candidates(candidates: &[RoutingCandidate]) -> (r: (
    Vec<&RoutingCandidate>,
    Vec<RejectedCandidate>,
))
    ensures
        r.0@.map_values(|c: &RoutingCandidate| *c) == eligible_candidates(candidates@),
        r.1@ == rejected_candidates(candidates@),
{
    let mut eligible: Vec<&RoutingCandidate> = Vec::new();
    let mut rejected: Vec<RejectedCandidate> = Vec::new();
    let ghost elig_pred = eligible_pred();
    let ghost rej_pred = rejected_pred();
    let ghost to_rej = |c: RoutingCandidate|
        RejectedCandidate { node_name: c.node_name, reason: rejection(c)->0 };
    let mut i: usize = 0;
    while i < candidates.len()
        invariant
            0 <= i <= candidates@.len(),
            elig_pred == eligible_pred(),
            rej_pred == rejected_pred(),
            to_rej == (|c: RoutingCandidate|
                RejectedCandidate { node_name: c.node_name, reason: rejection(c)->0 }),
            eligible@.map_values(|c: &RoutingCandidate| *c) == candidates@.take(i as int).filter(
                elig_pred,
            ),
            rejected@ == candidates@.take(i as int).filter(rej_pred).map_values(to_rej),
        decreases candidates@.len() - i,
    {
        let c = &candidates[i];
        let ghost prefix = candidates@.take(i as int);
        proof {
            assert(candidates@.take(i + 1) =~= prefix.push(*c));
            prefix.lemma_filter_push(*c, elig_pred);
            prefix.lemma_filter_push(*c, rej_pred);
        }
        match rejection_reason(c) {
            Some(reason) => {
                let ghost before = rejected@;
                rejected.push(RejectedCandidate { node_name: c.node_name.clone(), reason });
                assert(rejected@ =~= prefix.filter(rej_pred).push(*c).map_values(to_rej));
            },
            None => {
                let ghost before = eligible@;
                eligible.push(c);
                assert(eligible@.map_values(|c: &RoutingCandidate| *c) =~= before.map_values(
                    |c: &RoutingCandidate| *c,
                ).push(*c));
            },
        }
        i = i + 1;
    }
    assert(candidates@.take(candidates@.len() as int) =~= candidates@);
    (eligible, rejected)
}

/// The routing score of a candidate (lower is better), in thousandths.
pub open spec fn score(c: RoutingCandidate, config: RoutingConfig) -> int {
    c.active_requests * config.active_weight + c.queued_requests * config.queue_weight
        + c.recent_failures * config.failure_penalty + (if !c.model_loaded {
        config.cold_model_penalty as int
    } else {
        0
    }) - (if config.loaded_model_preference && c.model_loaded {
        config.loaded_model_bonus as int
    } else {
        0
    }) - c.priority * 100
}

/// Calculate routing score (lower is better), in thousandths of a point.
pub fn score_node(candidate: &RoutingCandidate, config: &RoutingConfig) -> (r: i128)
    ensures
        r == score(*candidate, *config),
{
    proof {
        assert(0 <= candidate.active_requests * config.active_weight
            <= 0xffff_ffff * 0x7fff_ffff_ffff_ffff || 0 >= candidate.active_requests
            * config.active_weight >= 0xffff_ffff * (-0x8000_0000_0000_0000)) by (nonlinear_arith);
        assert(0 <= candidate.queued_requests * config.queue_weight
            <= 0xffff_ffff * 0x7fff_ffff_ffff_ffff || 0 >= candidate.queued_requests
            * config.queue_weight >= 0xffff_ffff * (-0x8000_0000_0000_0000)) by (nonlinear_arith);
        assert(0 <= candidate.recent_failures * config.failure_penalty
            <= 0xffff_ffff * 0x7fff_ffff_ffff_ffff || 0 >= candidate.recent_failures
            * config.failure_penalty >= 0xffff_ffff * (-0x8000_0000_0000_0000)) by (nonlinear_arith);
    }
    let mut s: i128 = (candidate.active_requests as i128) * (config.active_weight as i128)
        + (candidate.queued_requests as i128) * (config.queue_weight as i128)
        + (candidate.recent_failures as i128) * (config.failure_penalty as i128);
    if !candidate.model_loaded {
        s = s + config.cold_model_penalty as i128;
    }
    if config.loaded_model_preference && candidate.model_loaded {
        s = s - config.loaded_model_bonus as i128;
    }
    s = s - (candidate.priority as i128) * 100;
    s
}

} // verus!

verus! {

impl Clone for ScoredCandidate {
    fn clone(&self) -> (r: Self)
        ensures
            r == *self,
    {
        ScoredCandidate { node_name: self.node_name.clone(), score: self.score }
    }
}

/// Ranking order for selection: by score, then by node name (byte order).
pub open spec fn rank_le(a: ScoredCandidate, b: ScoredCandidate) -> bool {
    a.score < b.score || (a.score == b.score && lex_le(
        encode_utf8(a.node_name@),
        encode_utf8(b.node_name@),
    ))
}

/// Ranking order for explanations: by score only.
pub open spec fn score_le(a: ScoredCandidate, b: ScoredCandidate) -> bool {
    a.score <= b.score
}

/// The order used to sort scored candidates, by name as a tie-break or not.
pub open spec fn scored_order(by_name: bool) -> spec_fn(ScoredCandidate, ScoredCandidate) -> bool {
    if by_name {
        |a: ScoredCandidate, b: ScoredCandidate| rank_le(a, b)
    } else {
        |a: ScoredCandidate, b: ScoredCandidate| score_le(a, b)
    }
}

/// A candidate paired with its score.
pub open spec fn scored_candidate(c: RoutingCandidate, config: RoutingConfig) -> ScoredCandidate {
    ScoredCandidate { node_name: c.node_name, score: score(c, config) as i128 }
}

/// The eligible candidates of a snapshot with their scores, in snapshot order.
pub open spec fn scored_eligible(cands: Seq<RoutingCandidate>, config: RoutingConfig) -> Seq<
    ScoredCandidate,
> {
    eligible_candidates(cands).map_values(|c: RoutingCandidate| scored_candidate(c, config))
}

/// The eligible candidates ranked by score, then name.
pub open spec fn ranked_of(cands: Seq<RoutingCandidate>, config: RoutingConfig) -> Seq<ScoredCandidate> {
    sort_by_insertion(scored_eligible(cands, config), scored_order(true))
}

/// The eligible candidates of a snapshot ranked by score, then name.
pub open spec fn ranked(snapshot: RoutingSnapshot) -> Seq<ScoredCandidate> {
    ranked_of(snapshot.candidates@, snapshot.config)
}

/// The end of the run of ranked candidates, from position `i`, that share the
/// best score: the number of best-scored candidates when `i` is 1.
pub open spec fn leading_ties(r: Seq<ScoredCandidate>, i: int) -> int
    decreases r.len() - i,
{
    if 0 < i < r.len() && r[i].score == r[0].score {
        leading_ties(r, i + 1)
    } else {
        i
    }
}

/// Which ranked candidate is chosen: the best one, or, when several share
/// the best score, the one the rotation index picks round-robin among them.
pub open spec fn pick_index(r: Seq<ScoredCandidate>, rotation_index: usize) -> int {
    let t = leading_ties(r, 1);
    if t > 1 {
        rotation_index as int % t
    } else {
        0
    }
}

/// The best-scored run is a prefix of the ranking: every candidate before
/// `leading_ties(r, i)` shares the best score.
pub proof fn lemma_leading_ties(r: Seq<ScoredCandidate>, i: int)
    requires
        1 <= i <= r.len(),
        forall|j: int| 0 <= j < i ==> #[trigger] r[j].score == r[0].score,
    ensures
        i <= leading_ties(r, i) <= r.len(),
        forall|j: int| 0 <= j < leading_ties(r, i) ==> #[trigger] r[j].score == r[0].score,
    decreases r.len() - i,
{
    if i < r.len() && r[i].score == r[0].score {
        lemma_leading_ties(r, i + 1);
    }
}

/// The chosen candidate is in the ranking and shares the best score.
pub proof fn lemma_pick_is_best(r: Seq<ScoredCandidate>, rotation_index: usize)
    requires
        r.len() > 0,
    ensures
        0 <= pick_index(r, rotation_index) < r.len(),
        r[pick_index(r, rotation_index)].score == r[0].score,
{
    lemma_leading_ties(r, 1);
}

/// The node chosen among candidates, if any is eligible.
pub open spec fn selection_of(
    cands: Seq<RoutingCandidate>,
    config: RoutingConfig,
    rotation_index: usize,
) -> Option<Seq<char>> {
    let r = ranked_of(cands, config);
    if r.len() == 0 {
        None
    } else {
        Some(r[pick_index(r, rotation_index)].node_name@)
    }
}

/// The node chosen for a snapshot, if any candidate is eligible.
pub open spec fn selection(snapshot: RoutingSnapshot) -> Option<Seq<char>> {
    selection_of(snapshot.candidates@, snapshot.config, snapshot.rotation_index)
}

/// The view of an optional string.
pub open spec fn opt_string_view(o: Option<String>) -> Option<Seq<char>> {
    match o {
        Some(s) => Some(s@),
        None => None,
    }
}

/// Compare two scored candidates in the given order.
fn scored_le(a: &ScoredCandidate, b: &ScoredCandidate, by_name: bool) -> (r: bool)
    ensures
        r == scored_order(by_name)(*a, *b),
{
    if a.score < b.score {
        true
    } else if a.score > b.score {
        false
    } else if by_name {
        bytes_le(a.node_name.as_str().as_bytes(), b.node_name.as_str().as_bytes())
    } else {
        true
    }
}

/// Insert `x` behind every element that precedes it in the given order.
fn insert_scored(v: &mut Vec<ScoredCandidate>, x: ScoredCandidate, by_name: bool)
    ensures
        final(v)@ == insert_by(old(v)@, x, scored_order(by_name)),
{
    let ghost le = scored_order(by_name);
    let ghost s = v@;
    let mut j: usize = v.len();
    assert(s.take(j as int) =~= s);
    assert(s.skip(j as int) =~= Seq::<ScoredCandidate>::empty());
    loop
        invariant
            v@ == s,
            le == scored_order(by_name),
            0 <= j <= s.len(),
            insert_by(s, x, le) == insert_by(s.take(j as int), x, le) + s.skip(j as int),
        ensures
            v@ == s,
            0 <= j <= s.len(),
            insert_by(s, x, le) == insert_by(s.take(j as int), x, le) + s.skip(j as int),
            j == 0 || le(s[j - 1], x),
        decreases j,
    {
        if j == 0 {
            break ;
        }
        let prev_le = scored_le(&v[j - 1], &x, by_name);
        if prev_le {
            break ;
        }
        proof {
            let t = s.take(j as int);
            assert(t.last() == s[j - 1]);
            assert(t.drop_last() =~= s.take(j - 1));
            assert(insert_by(t, x, le) == insert_by(s.take(j - 1), x, le).push(s[j - 1]));
            assert(s.skip(j - 1) =~= seq![s[j - 1]] + s.skip(j as int));
            assert(insert_by(s.take(j - 1), x, le).push(s[j - 1]) + s.skip(j as int) =~= insert_by(
                s.take(j - 1),
                x,
                le,
            ) + s.skip(j - 1));
        }
        j = j - 1;
    }
    proof {
        let t = s.take(j as int);
        if j == 0 {
            assert(insert_by(t, x, le) == seq![x]);
        } else {
            assert(t.last() == s[j - 1]);
            assert(insert_by(t, x, le) == t.push(x));
        }
    }
    v.insert(j, x);
    assert(v@ =~= insert_by(s.take(j as int), x, le) + s.skip(j as int));
}

/// Stable insertion sort of scored candidates in the given order.
fn sort_scored(items: &[ScoredCandidate], by_name: bool) -> (r: Vec<ScoredCandidate>)
    ensures
        r@ == sort_by_insertion(items@, scored_order(by_name)),
{
    let ghost le = scored_order(by_name);
    let mut out: Vec<ScoredCandidate> = Vec::new();
    let mut i: usize = 0;
    while i < items.len()
        invariant
            0 <= i <= items@.len(),
            le == scored_order(by_name),
            out@ == sort_by_insertion(items@.take(i as int), le),
        decreases items@.len() - i,
    {
        let x = items[i].clone();
        proof {
            let t = items@.take(i + 1);
            assert(t.drop_last() =~= items@.take(i as int));
            assert(t.last() == items@[i as int]);
        }
        insert_scored(&mut out, x, by_name);
        i = i + 1;
    }
    assert(items@.take(items@.len() as int) =~= items@);
    out
}

/// Score every eligible candidate, keeping their order.
fn score_all(eligible: &[&RoutingCandidate], config: &RoutingConfig) -> (r: Vec<ScoredCandidate>)
    ensures
        r@ == eligible@.map_values(|c: &RoutingCandidate| *c).map_values(
            |c: RoutingCandidate| scored_candidate(c, *config),
        ),
{
    let ghost src = eligible@.map_values(|c: &RoutingCandidate| *c);
    let mut out: Vec<ScoredCandidate> = Vec::new();
    let mut i: usize = 0;
    while i < eligible.len()
        invariant
            0 <= i <= eligible@.len(),
            src == eligible@.map_values(|c: &RoutingCandidate| *c),
            out@ == src.take(i as int).map_values(
                |c: RoutingCandidate| scored_candidate(c, *config),
            ),
        decreases eligible@.len() - i,
    {
        let c: &RoutingCandidate = eligible[i];
        let s = score_node(c, config);
        let ghost before = out@;
        out.push(ScoredCandidate { node_name: c.node_name.clone(), score: s });
        assert(src.take(i + 1) =~= src.take(i as int).push(src[i as int]));
        assert(out@ =~= src.take(i + 1).map_values(
            |c: RoutingCandidate| scored_candidate(c, *config),
        ));
        i = i + 1;
    }
    assert(src.take(src.len() as int) =~= src);
    out
}

/// Select the best node from a snapshot.
pub fn select_node(snapshot: &RoutingSnapshot) -> (r: Option<String>)
    ensures
        opt_string_view(r) == selection(*snapshot),
{
    let (eligible, _) = filter_candidates(snapshot.candidates.as_slice());
    let scored = score_all(eligible.as_slice(), &snapshot.config);
    let ranked = sort_scored(scored.as_slice(), true);
    proof {
        lemma_sort_multiset(scored@, scored_order(true));
    }
    if ranked.len() == 0 {
        return None;
    }
    let mut ties: usize = 1;
    while ties < ranked.len() && ranked[ties].score == ranked[0].score
        invariant
            1 <= ties <= ranked@.len(),
            leading_ties(ranked@, 1) == leading_ties(ranked@, ties as int),
        decreases ranked@.len() - ties,
    {
        ties = ties + 1;
    }
    proof {
        lemma_pick_is_best(ranked@, snapshot.rotation_index);
    }
    let idx = if ties > 1 {
        snapshot.rotation_index % ties
    } else {
        0
    };
    Some(ranked[idx].node_name.clone())
}

/// Build routing explanation for a model: eligible candidates ordered by
/// score (ties keep snapshot order), rejected candidates with reasons, and
/// the node that selection would choose.
pub fn explain_routing(snapshot: &RoutingSnapshot) -> (r: RoutingExplanation)
    ensures
        r.model@ == snapshot.model@,
        r.eligible@ == sort_by_insertion(
            scored_eligible(snapshot.candidates@, snapshot.config),
            scored_order(false),
        ),
        r.rejected@ == rejected_candidates(snapshot.candidates@),
        opt_string_view(r.preferred) == selection(*snapshot),
        forall|i: int, j: int|
            0 <= i < j < r.eligible@.len() ==> #[trigger] r.eligible@[i].score <= #[trigger] r.eligible@[j].score,
{
    proof {
        lemma_explanation_ascending(*snapshot);
    }
    let (eligible, rejected) = filter_candidates(snapshot.candidates.as_slice());
    let scored = score_all(eligible.as_slice(), &snapshot.config);
    let sorted = sort_scored(scored.as_slice(), false);
    let preferred = select_node(snapshot);
    RoutingExplanation { model: snapshot.model.clone(), eligible: sorted, rejected, preferred }
}

} // verus!

verus! {

/// Both candidate orders are total preorders.
pub proof fn lemma_scored_orders_total(by_name: bool)
    ensures
        total_preorder(scored_order(by_name)),
{
    let le = scored_order(by_name);
    assert forall|a: ScoredCandidate, b: ScoredCandidate| #[trigger] le(a, b) || le(b, a) by {
        lemma_lex_total(encode_utf8(a.node_name@), encode_utf8(b.node_name@));
    }
    assert forall|a: ScoredCandidate, b: ScoredCandidate, c: ScoredCandidate|
        #[trigger] le(a, b) && #[trigger] le(b, c) implies le(a, c) by {
        if by_name && a.score == b.score && b.score == c.score {
            lemma_lex_transitive(
                encode_utf8(a.node_name@),
                encode_utf8(b.node_name@),
                encode_utf8(c.node_name@),
            );
        }
    }
}

/// A filter and its complement split a sequence.
pub proof fn lemma_filter_split<T>(s: Seq<T>, p: spec_fn(T) -> bool)
    ensures
        s.filter(p).len() + s.filter(|x: T| !p(x)).len() == s.len(),
    decreases s.len(),
{
    if s.len() > 0 {
        let t = s.drop_last();
        lemma_filter_split(t, p);
        assert(s =~= t.push(s.last()));
        t.lemma_filter_push(s.last(), p);
        t.lemma_filter_push(s.last(), |x: T| !p(x));
    }
}

/// Selection finds a node exactly when some candidate is eligible, and the
/// node it finds is always an eligible candidate of the snapshot: routing
/// never chooses a disabled, draining, unavailable, recovering, circuit-open,
/// over-limit, model-missing or model-denied node.
pub proof fn lemma_selection_is_eligible(snapshot: RoutingSnapshot)
    ensures
        selection(snapshot) is Some <==> exists|i: int|
            0 <= i < snapshot.candidates@.len() && is_eligible(#[trigger] snapshot.candidates@[i]),
        selection(snapshot) matches Some(n) ==> exists|i: int|
            0 <= i < snapshot.candidates@.len() && is_eligible(#[trigger] snapshot.candidates@[i])
                && snapshot.candidates@[i].node_name@ == n,
{
    lemma_selection_of_is_eligible(snapshot.candidates@, snapshot.config, snapshot.rotation_index);
}

/// Selection among candidates finds a node exactly when one of them is
/// eligible, and the node it finds is an eligible one.
pub proof fn lemma_selection_of_is_eligible(
    cands: Seq<RoutingCandidate>,
    config: RoutingConfig,
    rotation_index: usize,
)
    ensures
        selection_of(cands, config, rotation_index) is Some <==> exists|i: int|
            0 <= i < cands.len() && is_eligible(#[trigger] cands[i]),
        selection_of(cands, config, rotation_index) matches Some(n) ==> exists|i: int|
            0 <= i < cands.len() && is_eligible(#[trigger] cands[i]) && cands[i].node_name@ == n,
{
    let pred = eligible_pred();
    let elig = eligible_candidates(cands);
    let scored = scored_eligible(cands, config);
    let r = ranked_of(cands, config);
    lemma_sort_multiset(scored, scored_order(true));
    if exists|i: int| 0 <= i < cands.len() && is_eligible(#[trigger] cands[i]) {
        let i = choose|i: int| 0 <= i < cands.len() && is_eligible(#[trigger] cands[i]);
        cands.lemma_filter_contains(pred, i);
        assert(elig.len() > 0);
    }
    if r.len() > 0 {
        let k = pick_index(r, rotation_index);
        lemma_pick_is_best(r, rotation_index);
        assert(0 <= k < r.len());
        let x = r[k];
        assert(r.contains(x));
        lemma_sort_contains(scored, scored_order(true), x);
        let j = choose|j: int| 0 <= j < scored.len() && scored[j] == x;
        let c = elig[j];
        cands.lemma_filter_pred(pred, j);
        assert(elig.contains(c));
        cands.lemma_filter_contains_rev(pred, c);
        let i = choose|i: int| 0 <= i < cands.len() && cands[i] == c;
        assert(is_eligible(cands[i]) && cands[i].node_name@ == x.node_name@);
    } else {
        if exists|i: int| 0 <= i < cands.len() && is_eligible(#[trigger] cands[i]) {
            assert(false);
        }
    }
}

/// Selection picks a best node: the node it returns is an eligible
/// candidate whose score is no higher than that of any eligible candidate
/// (lower scores are better).
pub proof fn lemma_selection_is_best(snapshot: RoutingSnapshot)
    ensures
        selection(snapshot) matches Some(n) ==> exists|i: int|
            0 <= i < snapshot.candidates@.len() && is_eligible(#[trigger] snapshot.candidates@[i])
                && snapshot.candidates@[i].node_name@ == n && forall|j: int|
                0 <= j < snapshot.candidates@.len() && is_eligible(#[trigger] snapshot.candidates@[j])
                    ==> score(snapshot.candidates@[i], snapshot.config) <= score(
                    snapshot.candidates@[j],
                    snapshot.config,
                ),
{
    let cands = snapshot.candidates@;
    let pred = eligible_pred();
    let elig = eligible_candidates(cands);
    let scored = scored_eligible(cands, snapshot.config);
    let r = ranked(snapshot);
    lemma_scored_orders_total(true);
    lemma_sort_sorted(scored, scored_order(true));
    lemma_sort_multiset(scored, scored_order(true));
    if r.len() > 0 {
        assert forall|i: int|
            0 <= i < cands.len() && is_eligible(#[trigger] cands[i]) implies r[0].score <= score(
            cands[i],
            snapshot.config,
        ) by {
            cands.lemma_filter_contains(pred, i);
            let j = choose|j: int| 0 <= j < elig.len() && elig[j] == cands[i];
            let x = scored[j];
            assert(x == scored_candidate(cands[i], snapshot.config));
            assert(scored.contains(x));
            lemma_sort_contains(scored, scored_order(true), x);
            let k = choose|k: int| 0 <= k < r.len() && r[k] == x;
            if k > 0 {
                assert(scored_order(true)(r[0], r[k]));
            }
            lemma_score_in_range(cands[i], snapshot.config);
        }
        let k = pick_index(r, snapshot.rotation_index);
        lemma_pick_is_best(r, snapshot.rotation_index);
        let x = r[k];
        assert(r.contains(x));
        lemma_sort_contains(scored, scored_order(true), x);
        let j = choose|j: int| 0 <= j < scored.len() && scored[j] == x;
        let c = elig[j];
        cands.lemma_filter_pred(pred, j);
        assert(elig.contains(c));
        cands.lemma_filter_contains_rev(pred, c);
        let i = choose|i: int| 0 <= i < cands.len() && cands[i] == c;
        lemma_score_in_range(c, snapshot.config);
        assert(is_eligible(cands[i]) && cands[i].node_name@ == x.node_name@);
        assert(score(cands[i], snapshot.config) == r[0].score);
    }
}

/// Scores always fit the 128-bit score type.
pub proof fn lemma_score_in_range(c: RoutingCandidate, config: RoutingConfig)
    ensures
        i128::MIN <= score(c, config) <= i128::MAX,
        scored_candidate(c, config).score == score(c, config),
{
    assert(-0xffff_ffff * 0x8000_0000_0000_0000 <= c.active_requests * config.active_weight
        <= 0xffff_ffff * 0x7fff_ffff_ffff_ffff) by (nonlinear_arith);
    assert(-0xffff_ffff * 0x8000_0000_0000_0000 <= c.queued_requests * config.queue_weight
        <= 0xffff_ffff * 0x7fff_ffff_ffff_ffff) by (nonlinear_arith);
    assert(-0xffff_ffff * 0x8000_0000_0000_0000 <= c.recent_failures * config.failure_penalty
        <= 0xffff_ffff * 0x7fff_ffff_ffff_ffff) by (nonlinear_arith);
}

/// An explanation lists every candidate once, either as eligible or as
/// rejected, and orders the eligible ones by ascending score.
pub proof fn lemma_explanation_complete(snapshot: RoutingSnapshot)
    ensures
        sort_by_insertion(scored_eligible(snapshot.candidates@, snapshot.config), scored_order(false)).len()
            + rejected_candidates(snapshot.candidates@).len() == snapshot.candidates@.len(),
        sorted_by(
            sort_by_insertion(scored_eligible(snapshot.candidates@, snapshot.config), scored_order(false)),
            |a: ScoredCandidate, b: ScoredCandidate| score_le(a, b),
        ),
{
    let cands = snapshot.candidates@;
    let scored = scored_eligible(cands, snapshot.config);
    lemma_sort_multiset(scored, scored_order(false));
    lemma_scored_orders_total(false);
    lemma_sort_sorted(scored, scored_order(false));
    let p = eligible_pred();
    lemma_filter_split(cands, p);
    assert((|x: RoutingCandidate| !p(x)) =~= rejected_pred());
}

/// An explanation lists the eligible candidates best first: their scores
/// never decrease along the list.
pub proof fn lemma_explanation_ascending(snapshot: RoutingSnapshot)
    ensures
        forall|i: int, j: int|
            0 <= i < j < sort_by_insertion(scored_eligible(snapshot.candidates@, snapshot.config), scored_order(false)).len()
                ==> #[trigger] sort_by_insertion(
                scored_eligible(snapshot.candidates@, snapshot.config),
                scored_order(false),
            )[i].score <= #[trigger] sort_by_insertion(
                scored_eligible(snapshot.candidates@, snapshot.config),
                scored_order(false),
            )[j].score,
{
    let e = sort_by_insertion(scored_eligible(snapshot.candidates@, snapshot.config), scored_order(false));
    lemma_scored_orders_total(false);
    lemma_sort_sorted(scored_eligible(snapshot.candidates@, snapshot.config), scored_order(false));
    assert forall|i: int, j: int| 0 <= i < j < e.len() implies e[i].score <= e[j].score by {
        assert(scored_order(false)(e[i], e[j]));
    }
}

/// With the loaded-model preference off, the loaded-model bonus plays no
/// part: any other bonus gives the same score, which is the load, queue and
/// failure weights, the cold-model penalty for a model not loaded, less a
/// tenth of a point per priority step.
pub proof fn lemma_bonus_ignored_without_preference(c: RoutingCandidate, config: RoutingConfig, bonus: i64)
    requires
        !config.loaded_model_preference,
    ensures
        score(c, config) == score(c, RoutingConfig { loaded_model_bonus: bonus, ..config }),
        score(c, config) == c.active_requests * config.active_weight + c.queued_requests
            * config.queue_weight + c.recent_failures * config.failure_penalty + (if c.model_loaded {
            0
        } else {
            config.cold_model_penalty as int
        }) - 100 * c.priority,
{
}

/// Turning the loaded-model preference on lowers the score of a candidate
/// whose model is loaded by exactly the bonus, and leaves every other score
/// as it was.
pub proof fn lemma_preference_grants_bonus(c: RoutingCandidate, config: RoutingConfig)
    ensures
        score(c, RoutingConfig { loaded_model_preference: true, ..config }) == score(
            c,
            RoutingConfig { loaded_model_preference: false, ..config },
        ) - (if c.model_loaded {
            config.loaded_model_bonus as int
        } else {
            0
        }),
{
}

} // verus!
