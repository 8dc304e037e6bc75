//! Model discovery: turning a node's reported inventory into runtime state
//! and stored model records.

use vstd::prelude::*;
use crate::fingerprint::{ModelInventoryEntry, fingerprint_of, inventory_fingerprint};
use crate::model_mode::{contains_string, copy_strings, effective, effective_models};
use crate::runtime::{
    ClusterRuntime, RuntimeNode, node_slot, lemma_first_named, lemma_first_named_update, new_id,
};
use crate::state::NodeRuntimeState;
use crate::store::{NodeRecord, StoredModel, copy_opt};
use crate::text::{opt_view, strings_view, push_decimal_text, decimal_text};

verus! {

/// Model details reported by a node.
#[derive(Debug)]
pub struct TagDetails {
    pub family: Option<String>,
    pub parameter_size: Option<String>,
    pub quantization_level: Option<String>,
}

/// One model of a node's `/api/tags` listing.
#[derive(Debug)]
pub struct TagModel {
    pub name: String,
    pub digest: Option<String>,
    pub size: Option<u64>,
    pub modified_at: Option<String>,
    pub details: Option<TagDetails>,
}

/// Result of model discovery against a node.
#[derive(Debug)]
pub struct DiscoveryResult {
    pub ollama_version: Option<String>,
    pub discovered: Vec<String>,
    pub loaded: Vec<String>,
    pub tags: Vec<TagModel>,
    pub fingerprint: String,
}

/// The text of an optional string, or empty text.
pub open spec fn text_or_empty(o: Option<String>) -> Seq<char> {
    match o {
        Some(s) => s@,
        None => Seq::empty(),
    }
}

/// Whether inventory entries carry the names, digests, sizes and dates of
/// the tags (absent digests and dates as empty text, absent sizes as 0).
pub open spec fn inventory_of_tags(inv: Seq<ModelInventoryEntry>, tags: Seq<TagModel>) -> bool {
    &&& inv.len() == tags.len()
    &&& forall|i: int|
        0 <= i < tags.len() ==> {
            &&& #[trigger] inv[i].name@ == tags[i].name@
            &&& inv[i].digest@ == text_or_empty(tags[i].digest)
            &&& inv[i].size == (match tags[i].size {
                Some(s) => s,
                None => 0,
            })
            &&& inv[i].modified_at@ == text_or_empty(tags[i].modified_at)
        }
}

/// An optional string's text, or an empty string.
fn string_or_empty(o: &Option<String>) -> (r: String)
    ensures
        r@ == text_or_empty(*o),
{
    match o {
        Some(s) => s.clone(),
        None => String::new(),
    }
}

/// Assemble a discovery result from what a node reported: its version, its
/// model listing and its loaded models. The discovered names are the listed
/// names in order, and the fingerprint is that of the listed inventory.
pub fn discovery_result(
    ollama_version: Option<String>,
    tags: Vec<TagModel>,
    loaded: Vec<String>,
) -> (r: DiscoveryResult)
    ensures
        r.ollama_version == ollama_version,
        r.loaded == loaded,
        r.tags == tags,
        strings_view(r.discovered@) == tags@.map_values(|t: TagModel| t.name@),
        exists|inv: Seq<ModelInventoryEntry>|
            inventory_of_tags(inv, tags@) && r.fingerprint@ == fingerprint_of(inv),
{
    let mut discovered: Vec<String> = Vec::new();
    let mut inventory: Vec<ModelInventoryEntry> = Vec::new();
    let mut i: usize = 0;
    while i < tags.len()
        invariant
            0 <= i <= tags@.len(),
            strings_view(discovered@) == tags@.take(i as int).map_values(|t: TagModel| t.name@),
            inventory_of_tags(inventory@, tags@.take(i as int)),
        decreases tags@.len() - i,
    {
        let t = &tags[i];
        let ghost before = discovered@;
        discovered.push(t.name.clone());
        inventory.push(
            ModelInventoryEntry {
                name: t.name.clone(),
                digest: string_or_empty(&t.digest),
                size: match t.size {
                    Some(s) => s,
                    None => 0,
                },
                modified_at: string_or_empty(&t.modified_at),
            },
        );
        assert(tags@.take(i + 1) =~= tags@.take(i as int).push(tags@[i as int]));
        assert(strings_view(discovered@) =~= strings_view(before).push(tags@[i as int].name@));
        i = i + 1;
    }
    assert(tags@.take(tags@.len() as int) =~= tags@);
    let fingerprint = inventory_fingerprint(inventory.as_slice());
    DiscoveryResult { ollama_version, discovered, loaded, tags, fingerprint }
}

/// What applying a discovery result asks to persist: the node's record and,
/// when its inventory changed, its new model list and an event.
#[derive(Debug)]
pub struct DiscoveryWrite {
    pub record: NodeRecord,
    pub inventory: Option<InventoryWrite>,
}

/// A node's changed inventory: its full model list and the event message.
#[derive(Debug)]
pub struct InventoryWrite {
    pub models: Vec<StoredModel>,
    pub event_message: String,
}

/// Whether a stored model record describes a listed tag for a node.
pub open spec fn stored_model_of(
    m: StoredModel,
    t: TagModel,
    node_id: Seq<char>,
    configured: Seq<Seq<char>>,
    effective_models: Seq<Seq<char>>,
    loaded: Seq<Seq<char>>,
) -> bool {
    &&& crate::runtime::is_uuid_v4_text(m.id@)
    &&& m.node_id@ == node_id
    &&& m.model_name@ == t.name@
    &&& opt_view(m.digest) == opt_view(t.digest)
    &&& m.size == t.size
    &&& opt_view(m.family) == (match t.details {
        Some(d) => opt_view(d.family),
        None => None,
    })
    &&& opt_view(m.parameter_size) == (match t.details {
        Some(d) => opt_view(d.parameter_size),
        None => None,
    })
    &&& opt_view(m.quantisation) == (match t.details {
        Some(d) => opt_view(d.quantization_level),
        None => None,
    })
    &&& opt_view(m.modified_at) == opt_view(t.modified_at)
    &&& m.discovered
    &&& m.configured == configured.contains(t.name@)
    &&& m.permitted == effective_models.contains(t.name@)
    &&& m.available == m.permitted
    &&& m.loaded == loaded.contains(t.name@)
}

/// Copy an optional detail field.
fn detail_field(d: &Option<TagDetails>, which: u8) -> (r: Option<String>)
    ensures
        opt_view(r) == (match *d {
            Some(x) => opt_view(
                if which == 0 {
                    x.family
                } else if which == 1 {
                    x.parameter_size
                } else {
                    x.quantization_level
                },
            ),
            None => None,
        }),
{
    match d {
        Some(x) => {
            if which == 0 {
                copy_opt(&x.family)
            } else if which == 1 {
                copy_opt(&x.parameter_size)
            } else {
                copy_opt(&x.quantization_level)
            }
        },
        None => None,
    }
}

/// The message of a discovery event.
pub open spec fn discovery_message(n: nat) -> Seq<char> {
    "discovered "@ + decimal_text(n) + " models"@
}

/// The model rows and event message for a node's new inventory.
fn inventory_write(node: &RuntimeNode, result: &DiscoveryResult) -> (r: InventoryWrite)
    ensures
        r.event_message@ == discovery_message(result.discovered@.len() as nat),
        r.models@.len() == result.tags@.len(),
        forall|j: int| 0 <= j < result.tags@.len() ==> stored_model_of(
            #[trigger] r.models@[j],
            result.tags@[j],
            node.record.id@,
            strings_view(node.record.configured_models@),
            effective(node.record.model_mode, strings_view(result.discovered@), strings_view(node.record.configured_models@)),
            strings_view(result.loaded@),
        ),
{
    let ghost n = *node;
    let node_id = node.record.id.clone();
    let mode = node.record.model_mode;
    let configured = copy_strings(node.record.configured_models.as_slice());
    let eff = effective_models(mode, result.discovered.as_slice(), configured.as_slice());
    let mut stored: Vec<StoredModel> = Vec::new();
    let mut i: usize = 0;
    while i < result.tags.len()
        invariant
            0 <= i <= result.tags@.len(),
            stored@.len() == i,
            node_id@ == n.record.id@,
            configured@ == n.record.configured_models@,
            strings_view(eff@) == effective(mode, strings_view(result.discovered@), strings_view(configured@)),
            mode == n.record.model_mode,
            forall|j: int| 0 <= j < i ==> stored_model_of(
                #[trigger] stored@[j],
                result.tags@[j],
                n.record.id@,
                strings_view(n.record.configured_models@),
                effective(n.record.model_mode, strings_view(result.discovered@), strings_view(n.record.configured_models@)),
                strings_view(result.loaded@),
            ),
        decreases result.tags@.len() - i,
    {
        let t = &result.tags[i];
        let permitted = contains_string(eff.as_slice(), t.name.as_str());
        stored.push(
            StoredModel {
                id: new_id(),
                node_id: node_id.clone(),
                model_name: t.name.clone(),
                digest: copy_opt(&t.digest),
                size: t.size,
                family: detail_field(&t.details, 0),
                parameter_size: detail_field(&t.details, 1),
                quantisation: detail_field(&t.details, 2),
                modified_at: copy_opt(&t.modified_at),
                discovered: true,
                configured: contains_string(configured.as_slice(), t.name.as_str()),
                permitted,
                available: permitted,
                loaded: contains_string(result.loaded.as_slice(), t.name.as_str()),
            },
        );
        i = i + 1;
    }
    let mut msg = "discovered ".to_owned();
    push_decimal_text(&mut msg, result.discovered.len() as u64);
    msg.append(" models");
    InventoryWrite { models: stored, event_message: msg }
}

/// What applying a discovery result to the node `name` does: `rt0` and
/// `rt1` are the runtime before and after, `r` the outcome.
pub open spec fn discovery_post(
    rt0: ClusterRuntime,
    rt1: ClusterRuntime,
    name: Seq<char>,
    result: DiscoveryResult,
    r: Result<DiscoveryWrite, String>,
) -> bool {
    &&& (node_slot(rt0, name) is None ==> (r matches Err(e) && e@ == "node "@ + name + " missing"@)
        && rt1.nodes == rt0.nodes)
    &&& (node_slot(rt0, name) matches Some(k) ==> {
        let n = rt0.nodes@[k];
        let m = rt1.nodes@[k];
        &&& r matches Ok(w)
        &&& rt1.nodes@.len() == rt0.nodes@.len()
        &&& forall|j: int| 0 <= j < rt0.nodes@.len() && j != k ==> #[trigger] rt1.nodes@[j] == rt0.nodes@[j]
        &&& m.last_contact is Some
        &&& m.record == (NodeRecord {
            ollama_version: result.ollama_version,
            inventory_fingerprint: Some(result.fingerprint),
            runtime_state: NodeRuntimeState::Ready,
            ..n.record
        })
        &&& strings_view(m.discovered_models@) == strings_view(result.discovered@)
        &&& strings_view(m.loaded_models@) == strings_view(result.loaded@)
        &&& m.circuit == n.circuit
        &&& m.active_requests == n.active_requests
        &&& m.queued_requests == n.queued_requests
        &&& m.recent_failures == n.recent_failures
        &&& w.record@ == m.record@
        &&& (w.inventory is Some <==> opt_view(n.record.inventory_fingerprint) != Some(result.fingerprint@))
        &&& (w.inventory matches Some(iw) ==> {
            &&& iw.event_message@ == discovery_message(result.discovered@.len() as nat)
            &&& iw.models@.len() == result.tags@.len()
            &&& forall|j: int| 0 <= j < result.tags@.len() ==> stored_model_of(
                #[trigger] iw.models@[j],
                result.tags@[j],
                n.record.id@,
                strings_view(n.record.configured_models@),
                effective(n.record.model_mode, strings_view(result.discovered@), strings_view(n.record.configured_models@)),
                strings_view(result.loaded@),
            )
        })
    })
    &&& rt1.requests == rt0.requests
    &&& rt1.config == rt0.config
}

/// Apply discovery to runtime. Fails when the node is not registered.
/// Otherwise the node takes the reported version, models, loaded models and
/// fingerprint and becomes ready, whatever it held before, and its record is
/// returned to be persisted. When its inventory fingerprint changed, the
/// model rows to store are returned too: every listed model, with whether it
/// is configured, permitted by the node's model mode, and loaded.
pub fn apply_discovery_to_runtime(
    runtime: &mut ClusterRuntime,
    node_name: &str,
    result: &DiscoveryResult,
) -> (r: Result<DiscoveryWrite, String>)
    ensures
        crate::runtime::names_distinct(old(runtime).nodes@) ==> crate::runtime::names_distinct(final(runtime).nodes@),
        discovery_post(*old(runtime), *final(runtime), node_name@, *result, r),
{
    let slot = runtime.find_node(node_name);
    proof {
        lemma_first_named(runtime.nodes@, node_name@, 0);
    }
    let k = match slot {
        Some(k) => k,
        None => {
            let mut e = "node ".to_owned();
            e.append(node_name);
            e.append(" missing");
            return Err(e);
        },
    };
    let same = match &runtime.nodes[k].record.inventory_fingerprint {
        Some(f) => crate::text::str_eq(f.as_str(), result.fingerprint.as_str()),
        None => false,
    };
    let inventory = if same {
        None
    } else {
        Some(inventory_write(&runtime.nodes[k], result))
    };
    let ghost before = runtime.nodes@;
    let mut node = runtime.nodes.remove(k);
    node.record.ollama_version = copy_opt(&result.ollama_version);
    runtime.nodes.insert(k, node);
    proof {
        assert(runtime.nodes@ =~= before.update(k as int, runtime.nodes@[k as int]));
        assert(runtime.nodes@[k as int].record.name == before[k as int].record.name);
        crate::runtime::lemma_first_named_update(before, k as int, runtime.nodes@[k as int], node_name@, 0);
    }
    let rec = runtime.apply_discovery(
        node_name,
        copy_strings(result.discovered.as_slice()),
        copy_strings(result.loaded.as_slice()),
        Some(result.fingerprint.clone()),
    );
    let record = match rec {
        Some(r) => r,
        None => {
            return Err("node missing".to_owned());
        },
    };
    Ok(DiscoveryWrite { record, inventory })
}

} // verus!

verus! {

/// Applying the same discovery result twice changes nothing the second
/// time but the contact time: the node already carries the result's
/// inventory fingerprint, so no model rows are rewritten, and the node keeps
/// its record, models and load.
pub proof fn lemma_discovery_idempotent(
    rt0: ClusterRuntime,
    rt1: ClusterRuntime,
    rt2: ClusterRuntime,
    name: Seq<char>,
    result: DiscoveryResult,
    r1: Result<DiscoveryWrite, String>,
    r2: Result<DiscoveryWrite, String>,
)
    requires
        discovery_post(rt0, rt1, name, result, r1),
        discovery_post(rt1, rt2, name, result, r2),
    ensures
        r1 is Ok ==> {
            &&& r2 matches Ok(w) && w.inventory is None
            &&& rt2.nodes@.len() == rt1.nodes@.len()
            &&& forall|j: int| 0 <= j < rt1.nodes@.len() ==> {
                &&& (#[trigger] rt2.nodes@[j]).record == rt1.nodes@[j].record
                &&& strings_view(rt2.nodes@[j].discovered_models@) == strings_view(rt1.nodes@[j].discovered_models@)
                &&& strings_view(rt2.nodes@[j].loaded_models@) == strings_view(rt1.nodes@[j].loaded_models@)
                &&& rt2.nodes@[j].circuit == rt1.nodes@[j].circuit
                &&& rt2.nodes@[j].active_requests == rt1.nodes@[j].active_requests
            }
        },
{
    lemma_first_named(rt0.nodes@, name, 0);
    if let Some(k) = node_slot(rt0, name) {
        assert(rt1.nodes@ =~= rt0.nodes@.update(k, rt1.nodes@[k]));
        assert(rt1.nodes@[k].record.name@ == rt0.nodes@[k].record.name@);
        lemma_first_named_update(rt0.nodes@, k, rt1.nodes@[k], name, 0);
        assert(node_slot(rt1, name) == Some(k));
    }
}

} // verus!
