//! Decisions of the inference proxy: what a request body asks for, whether a
//! request is admitted, which node each attempt goes to, and when to give up.

use vstd::prelude::*;
use crate::text::{opt_view, strings_view, contains_text, text_contains};
use crate::model_mode::contains_string;
use crate::routing::{RoutingCandidate, RoutingConfig, RoutingSnapshot, select_node, selection_of,
    lemma_selection_of_is_eligible, is_eligible};
use crate::runtime::ClusterRuntime;
use crate::retry::{classify, classify_error, retryable};
use crate::store::StoredModel;

verus! {

/// What the JSON text `body` holds as a string under the top-level key
/// `key`; `None` when the body is no JSON object or the member is absent or
/// no string.
pub uninterp spec fn json_string_member(body: Seq<u8>, key: Seq<char>) -> Option<Seq<char>>;

/// What the JSON text `body` holds as a boolean under the top-level key
/// `key`; `None` when the body is no JSON object or the member is absent or
/// no boolean.
pub uninterp spec fn json_bool_member(body: Seq<u8>, key: Seq<char>) -> Option<bool>;

/// Parses `body` with `serde_json::from_slice` into a `serde_json::Value` and
/// reads the member `key` with `Value::get` and `Value::as_str`. The contract
/// claims only that the result is a function of the body and the key.
#[verifier::external_body]
fn string_member(body: &[u8], key: &str) -> (r: Option<String>)
    ensures
        opt_view(r) == json_string_member(body@, key@),
{
    let value: serde_json::Value = serde_json::from_slice(body).ok()?;
    value.get(key).and_then(|m| m.as_str()).map(String::from)
}

/// Parses `body` with `serde_json::from_slice` into a `serde_json::Value` and
/// reads the member `key` with `Value::get` and `Value::as_bool`. The
/// contract claims only that the result is a function of the body and the
/// key.
#[verifier::external_body]
fn bool_member(body: &[u8], key: &str) -> (r: Option<bool>)
    ensures
        r == json_bool_member(body@, key@),
{
    let value: serde_json::Value = serde_json::from_slice(body).ok()?;
    value.get(key).and_then(|m| m.as_bool())
}

/// The model a request body names in its `model` member.
pub fn extract_model(body: &[u8]) -> (r: Option<String>)
    ensures
        opt_view(r) == json_string_member(body@, "model"@),
{
    string_member(body, "model")
}

/// Whether a request body asks for a streamed answer: its `stream` member is
/// `true`.
pub fn is_streaming(body: &[u8]) -> (r: bool)
    ensures
        r == (json_bool_member(body@, "stream"@) == Some(true)),
{
    match bool_member(body, "stream") {
        Some(b) => b,
        None => false,
    }
}

/// Why the proxy refuses a request before routing it.
#[derive(Debug, Clone, Copy, PartialEq, Eq, Structural)]
pub enum ProxyRefusal {
    ShuttingDown,
    ModelDenied,
    BodyTooLarge,
    ModelNotSpecified,
}

/// The HTTP status of a refusal.
pub open spec fn refusal_status(r: ProxyRefusal) -> u16 {
    match r {
        ProxyRefusal::ShuttingDown => 503,
        ProxyRefusal::ModelDenied => 403,
        ProxyRefusal::BodyTooLarge => 413,
        ProxyRefusal::ModelNotSpecified => 400,
    }
}

/// The error message of a refusal.
pub open spec fn refusal_message(r: ProxyRefusal) -> Seq<char> {
    match r {
        ProxyRefusal::ShuttingDown => "cluster shutting down"@,
        ProxyRefusal::ModelDenied => "model denied"@,
        ProxyRefusal::BodyTooLarge => "request body too large"@,
        ProxyRefusal::ModelNotSpecified => "model not specified in request"@,
    }
}

impl ProxyRefusal {
    /// The HTTP status answered for this refusal.
    pub fn status(&self) -> (r: u16)
        ensures
            r == refusal_status(*self),
    {
        match self {
            ProxyRefusal::ShuttingDown => 503,
            ProxyRefusal::ModelDenied => 403,
            ProxyRefusal::BodyTooLarge => 413,
            ProxyRefusal::ModelNotSpecified => 400,
        }
    }

    /// The error message answered for this refusal.
    pub fn message(&self) -> (r: String)
        ensures
            r@ == refusal_message(*self),
    {
        match self {
            ProxyRefusal::ShuttingDown => "cluster shutting down".to_owned(),
            ProxyRefusal::ModelDenied => "model denied".to_owned(),
            ProxyRefusal::BodyTooLarge => "request body too large".to_owned(),
            ProxyRefusal::ModelNotSpecified => "model not specified in request".to_owned(),
        }
    }
}

/// Whether the proxy takes a request, checked in this order: the cluster is
/// not shutting down, the named model is not denied, the body fits the
/// buffer, and a model is named.
pub open spec fn admission(rt: ClusterRuntime, model: Option<Seq<char>>, body_len: nat) -> Result<
    (),
    ProxyRefusal,
> {
    if rt.shutting_down {
        Err(ProxyRefusal::ShuttingDown)
    } else if model is Some && strings_view(rt.config.denied_models@).contains(model->0) {
        Err(ProxyRefusal::ModelDenied)
    } else if body_len > rt.config.proxy.request_body_buffer_bytes {
        Err(ProxyRefusal::BodyTooLarge)
    } else if model is None {
        Err(ProxyRefusal::ModelNotSpecified)
    } else {
        Ok(())
    }
}

/// Decide whether the proxy takes a request naming `model` with a body of
/// `body_len` bytes.
pub fn admit_request(rt: &ClusterRuntime, model: &Option<String>, body_len: usize) -> (r: Result<
    (),
    ProxyRefusal,
>)
    ensures
        r == admission(*rt, opt_view(*model), body_len as nat),
{
    if rt.shutting_down {
        return Err(ProxyRefusal::ShuttingDown);
    }
    if let Some(m) = model {
        if contains_string(rt.config.denied_models.as_slice(), m.as_str()) {
            return Err(ProxyRefusal::ModelDenied);
        }
    }
    if body_len > rt.config.proxy.request_body_buffer_bytes {
        return Err(ProxyRefusal::BodyTooLarge);
    }
    if model.is_none() {
        return Err(ProxyRefusal::ModelNotSpecified);
    }
    Ok(())
}

} // verus!

verus! {

/// The candidates whose node has not been tried yet.
pub open spec fn untried(cands: Seq<RoutingCandidate>, tried: Seq<Seq<char>>) -> Seq<RoutingCandidate> {
    cands.filter(|c: RoutingCandidate| !tried.contains(c.node_name@))
}

/// The attempts the proxy has made for one request.
#[derive(Debug)]
pub struct ProxyAttempts {
    /// Nodes tried so far, in order.
    pub tried: Vec<String>,
    /// Upstream failures counted so far.
    pub attempts: u32,
    /// Failures after which the proxy gives up.
    pub max_retries: u32,
    /// The message of the last failure.
    pub last_error: String,
}

/// What the proxy does next for a request.
#[derive(Debug)]
pub enum ProxyStep {
    /// Send the request to this node.
    Forward { node_name: String },
    /// Answer the client with this error.
    Fail { status: u16, message: String },
}

impl ProxyAttempts {
    /// No attempt made yet; the error to answer if no node is found is
    /// "no eligible nodes".
    pub fn new(max_retries: u32) -> (r: ProxyAttempts)
        ensures
            r.tried@.len() == 0,
            r.attempts == 0,
            r.max_retries == max_retries,
            r.last_error@ == "no eligible nodes"@,
    {
        ProxyAttempts {
            tried: Vec::new(),
            attempts: 0,
            max_retries,
            last_error: "no eligible nodes".to_owned(),
        }
    }

    /// Choose the node for the next attempt among the candidates not tried
    /// yet, and note it as tried; with none left, fail with 503 and the last
    /// error.
    pub fn next_target(&mut self, snapshot: &RoutingSnapshot) -> (r: ProxyStep)
        ensures
            final(self).attempts == old(self).attempts,
            final(self).max_retries == old(self).max_retries,
            final(self).last_error@ == old(self).last_error@,
            match selection_of(
                untried(snapshot.candidates@, strings_view(old(self).tried@)),
                snapshot.config,
                snapshot.rotation_index,
            ) {
                None => {
                    &&& r matches ProxyStep::Fail { status, message }
                    &&& status == 503
                    &&& message@ == old(self).last_error@
                    &&& final(self).tried@ == old(self).tried@
                },
                Some(n) => {
                    &&& r matches ProxyStep::Forward { node_name }
                    &&& node_name@ == n
                    &&& strings_view(final(self).tried@) == strings_view(old(self).tried@).push(n)
                },
            },
    {
        let ghost tv = strings_view(self.tried@);
        let ghost pred = |c: RoutingCandidate| !tv.contains(c.node_name@);
        let mut rest: Vec<RoutingCandidate> = Vec::new();
        let mut i: usize = 0;
        while i < snapshot.candidates.len()
            invariant
                0 <= i <= snapshot.candidates@.len(),
                tv == strings_view(self.tried@),
                pred == (|c: RoutingCandidate| !tv.contains(c.node_name@)),
                rest@ == snapshot.candidates@.take(i as int).filter(pred),
            decreases snapshot.candidates@.len() - i,
        {
            let c = &snapshot.candidates[i];
            let seen = contains_string(self.tried.as_slice(), c.node_name.as_str());
            proof {
                let s = snapshot.candidates@;
                assert(s.take(i + 1) =~= s.take(i as int).push(s[i as int]));
                s.take(i as int).lemma_filter_push(s[i as int], pred);
            }
            if !seen {
                rest.push(c.clone());
            }
            i = i + 1;
        }
        proof {
            assert(snapshot.candidates@.take(snapshot.candidates@.len() as int) =~= snapshot.candidates@);
        }
        let narrowed = RoutingSnapshot {
            model: snapshot.model.clone(),
            candidates: rest,
            config: snapshot.config,
            rotation_index: snapshot.rotation_index,
        };
        match select_node(&narrowed) {
            None => ProxyStep::Fail { status: 503, message: self.last_error.clone() },
            Some(name) => {
                self.tried.push(name.clone());
                proof {
                    assert(strings_view(self.tried@) =~= tv.push(name@));
                }
                ProxyStep::Forward { node_name: name }
            },
        }
    }

    /// Take note of a failed attempt, with the upstream status (if any) and
    /// the failure kind. A failure after part of the answer reached the
    /// client is answered with 502 and its message at once. Otherwise the
    /// failure is counted; a failure that may not be retried on another node
    /// (see `RetryableError::is_retryable`) is answered with 502 and its
    /// message at once, and so is any failure once `max_retries` failures are
    /// counted. `None` means: try another node.
    pub fn after_failure(
        &mut self,
        message: String,
        status: Option<u16>,
        kind: &str,
        bytes_sent: bool,
    ) -> (r: Option<(u16, String)>)
        requires
            old(self).attempts < u32::MAX,
        ensures
            final(self).tried@ == old(self).tried@,
            final(self).max_retries == old(self).max_retries,
            final(self).last_error@ == message@,
            bytes_sent ==> final(self).attempts == old(self).attempts,
            !bytes_sent ==> final(self).attempts == old(self).attempts + 1,
            r is Some <==> (bytes_sent || !retryable(classify(status, kind@)) || final(self).attempts
                >= final(self).max_retries),
            r matches Some((code, text)) ==> code == 502 && text@ == message@,
    {
        self.last_error = message.clone();
        if bytes_sent {
            return Some((502, message));
        }
        self.attempts = self.attempts + 1;
        if !classify_error(status, kind).is_retryable() {
            return Some((502, message));
        }
        if self.attempts >= self.max_retries {
            return Some((502, message));
        }
        None
    }
}

/// Every node the proxy forwards a request to is an eligible candidate of
/// the snapshot that was not tried before for that request; so the tried
/// nodes of a request never repeat.
pub proof fn lemma_next_target_fresh(
    cands: Seq<RoutingCandidate>,
    config: RoutingConfig,
    rotation_index: usize,
    tried: Seq<Seq<char>>,
)
    ensures
        selection_of(untried(cands, tried), config, rotation_index) matches Some(n) ==> {
            &&& !tried.contains(n)
            &&& exists|i: int|
                0 <= i < cands.len() && is_eligible(#[trigger] cands[i]) && cands[i].node_name@ == n
            &&& tried.no_duplicates() ==> tried.push(n).no_duplicates()
        },
{
    let pred = |c: RoutingCandidate| !tried.contains(c.node_name@);
    let rest = untried(cands, tried);
    lemma_selection_of_is_eligible(rest, config, rotation_index);
    if let Some(n) = selection_of(rest, config, rotation_index) {
        let j = choose|j: int| 0 <= j < rest.len() && is_eligible(#[trigger] rest[j]) && rest[j].node_name@ == n;
        cands.lemma_filter_pred(pred, j);
        assert(rest.contains(rest[j]));
        cands.lemma_filter_contains_rev(pred, rest[j]);
        let i = choose|i: int| 0 <= i < cands.len() && cands[i] == rest[j];
        assert(is_eligible(cands[i]) && cands[i].node_name@ == n);
        if tried.no_duplicates() {
            let t2 = tried.push(n);
            assert forall|a: int, b: int| 0 <= a < t2.len() && 0 <= b < t2.len() && a != b implies t2[a] != t2[b] by {
                if a == tried.len() as int {
                    assert(t2[b] == tried[b]);
                    assert(tried.contains(tried[b]));
                } else if b == tried.len() as int {
                    assert(t2[a] == tried[a]);
                    assert(tried.contains(tried[a]));
                } else {
                    assert(t2[a] == tried[a] && t2[b] == tried[b]);
                }
            }
        }
    }
}

/// A text without its trailing slashes.
pub open spec fn trim_trailing_slashes(s: Seq<char>) -> Seq<char>
    decreases s.len(),
{
    if s.len() > 0 && s.last() == '/' {
        trim_trailing_slashes(s.drop_last())
    } else {
        s
    }
}

/// The upstream address of a request: the node's base address without
/// trailing slashes, followed by the request path.
pub fn upstream_url(node_url: &str, path: &str) -> (r: String)
    ensures
        r@ == trim_trailing_slashes(node_url@) + path@,
{
    let mut end = node_url.unicode_len();
    assert(node_url@.take(end as int) =~= node_url@);
    while end > 0 && node_url.get_char(end - 1) == '/'
        invariant
            end <= node_url@.len(),
            trim_trailing_slashes(node_url@) == trim_trailing_slashes(node_url@.take(end as int)),
        decreases end,
    {
        proof {
            assert(node_url@.take(end as int).drop_last() =~= node_url@.take(end - 1));
        }
        end = end - 1;
    }
    let mut out = node_url.substring_char(0, end).to_owned();
    out.append(path);
    out
}

/// The failure kind of an upstream answer with a non-success status.
pub open spec fn upstream_kind(status: u16) -> Seq<char> {
    if 500 <= status && status <= 599 {
        "http_server_error"@
    } else {
        "application_error"@
    }
}

/// Classify an upstream answer with a non-success status: server errors
/// (5xx) count against the node, other statuses are the application's.
pub fn upstream_error_kind(status: u16) -> (r: &'static str)
    ensures
        r@ == upstream_kind(status),
{
    if 500 <= status && status <= 599 {
        "http_server_error"
    } else {
        "application_error"
    }
}

/// Whether an upstream content type announces a stream.
pub open spec fn is_stream_type(content_type: Seq<char>) -> bool {
    contains_text(content_type, "ndjson"@) || contains_text(content_type, "stream"@)
}

/// Whether an upstream answer with this content type is relayed as a stream.
pub fn is_stream_content_type(content_type: &str) -> (r: bool)
    ensures
        r == is_stream_type(content_type@),
{
    text_contains(content_type, "ndjson") || text_contains(content_type, "stream")
}

} // verus!

verus! {

/// The names of the loaded models among stored model records, in order.
pub open spec fn loaded_names(models: Seq<StoredModel>) -> Seq<Seq<char>> {
    models.filter(|m: StoredModel| m.loaded).map_values(|m: StoredModel| m.model_name@)
}

/// The models the cluster reports as loaded (`/api/ps`): the names of the
/// loaded model records, in order.
pub fn loaded_model_names(models: &[StoredModel]) -> (r: Vec<String>)
    ensures
        strings_view(r@) == loaded_names(models@),
{
    let ghost pred = |m: StoredModel| m.loaded;
    let ghost f = |m: StoredModel| m.model_name@;
    let mut out: Vec<String> = Vec::new();
    let mut i: usize = 0;
    while i < models.len()
        invariant
            0 <= i <= models@.len(),
            pred == (|m: StoredModel| m.loaded),
            f == (|m: StoredModel| m.model_name@),
            strings_view(out@) == models@.take(i as int).filter(pred).map_values(f),
        decreases models@.len() - i,
    {
        proof {
            let s = models@;
            assert(s.take(i + 1) =~= s.take(i as int).push(s[i as int]));
            s.take(i as int).lemma_filter_push(s[i as int], pred);
        }
        if models[i].loaded {
            let ghost before = out@;
            out.push(models[i].model_name.clone());
            proof {
                let s = models@;
                assert(strings_view(out@) =~= strings_view(before).push(f(s[i as int])));
                assert(s.take(i + 1).filter(pred).map_values(f) =~= s.take(i as int).filter(pred).map_values(
                    f,
                ).push(f(s[i as int])));
            }
        }
        i = i + 1;
    }
    proof {
        assert(models@.take(models@.len() as int) =~= models@);
    }
    out
}

} // verus!
