//! Persisted records of nodes and their models.

use vstd::prelude::*;
use crate::model_mode::ModelMode;
use crate::state::{AdminState, NodeRuntimeState};
use crate::text::{str_eq, opt_view, strings_view, pairs_view, decimal_text, push_decimal_text};

verus! {

/// Persisted node record; labels are `(key, value)` pairs.
#[derive(Debug)]
pub struct NodeRecord {
    pub id: String,
    pub name: String,
    pub url: String,
    pub admin_state: AdminState,
    pub runtime_state: NodeRuntimeState,
    pub ollama_version: Option<String>,
    pub model_mode: ModelMode,
    pub configured_models: Vec<String>,
    pub max_concurrent: u32,
    pub priority: i32,
    pub labels: Vec<(String, String)>,
    pub inventory_fingerprint: Option<String>,
}

/// The content of a node record.
pub struct NodeRecordView {
    pub id: Seq<char>,
    pub name: Seq<char>,
    pub url: Seq<char>,
    pub admin_state: AdminState,
    pub runtime_state: NodeRuntimeState,
    pub ollama_version: Option<Seq<char>>,
    pub model_mode: ModelMode,
    pub configured_models: Seq<Seq<char>>,
    pub max_concurrent: u32,
    pub priority: i32,
    pub labels: Seq<(Seq<char>, Seq<char>)>,
    pub inventory_fingerprint: Option<Seq<char>>,
}

impl View for NodeRecord {
    type V = NodeRecordView;

    open spec fn view(&self) -> NodeRecordView {
        NodeRecordView {
            id: self.id@,
            name: self.name@,
            url: self.url@,
            admin_state: self.admin_state,
            runtime_state: self.runtime_state,
            ollama_version: opt_view(self.ollama_version),
            model_mode: self.model_mode,
            configured_models: strings_view(self.configured_models@),
            max_concurrent: self.max_concurrent,
            priority: self.priority,
            labels: pairs_view(self.labels@),
            inventory_fingerprint: opt_view(self.inventory_fingerprint),
        }
    }
}

/// Copy a list of label pairs.
pub fn copy_pairs(pairs: &[(String, String)]) -> (r: Vec<(String, String)>)
    ensures
        r@ == pairs@,
{
    let mut out: Vec<(String, String)> = Vec::new();
    let mut i: usize = 0;
    while i < pairs.len()
        invariant
            0 <= i <= pairs@.len(),
            out@ == pairs@.take(i as int),
        decreases pairs@.len() - i,
    {
        out.push((pairs[i].0.clone(), pairs[i].1.clone()));
        assert(pairs@.take(i + 1) =~= pairs@.take(i as int).push(pairs@[i as int]));
        i = i + 1;
    }
    assert(pairs@.take(pairs@.len() as int) =~= pairs@);
    out
}

/// Copy an optional string.
pub fn copy_opt(o: &Option<String>) -> (r: Option<String>)
    ensures
        r == *o,
{
    match o {
        Some(s) => Some(s.clone()),
        None => None,
    }
}

impl Clone for NodeRecord {
    fn clone(&self) -> (r: Self)
        ensures
            r@ == self@,
    {
        NodeRecord {
            id: self.id.clone(),
            name: self.name.clone(),
            url: self.url.clone(),
            admin_state: self.admin_state,
            runtime_state: self.runtime_state,
            ollama_version: copy_opt(&self.ollama_version),
            model_mode: self.model_mode,
            configured_models: crate::model_mode::copy_strings(self.configured_models.as_slice()),
            max_concurrent: self.max_concurrent,
            priority: self.priority,
            labels: copy_pairs(self.labels.as_slice()),
            inventory_fingerprint: copy_opt(&self.inventory_fingerprint),
        }
    }
}

/// Persisted model record.
#[derive(Debug)]
pub struct StoredModel {
    pub id: String,
    pub node_id: String,
    pub model_name: String,
    pub digest: Option<String>,
    pub size: Option<u64>,
    pub family: Option<String>,
    pub parameter_size: Option<String>,
    pub quantisation: Option<String>,
    pub modified_at: Option<String>,
    pub discovered: bool,
    pub configured: bool,
    pub permitted: bool,
    pub available: bool,
    pub loaded: bool,
}

/// The runtime state a stored state name stands for; unknown names read as
/// ready.
pub open spec fn runtime_state_from_name(raw: Seq<char>) -> NodeRuntimeState {
    if raw == "suspect"@ {
        NodeRuntimeState::Suspect
    } else if raw == "unavailable"@ {
        NodeRuntimeState::Unavailable
    } else if raw == "recovering"@ {
        NodeRuntimeState::Recovering
    } else if raw == "warming"@ {
        NodeRuntimeState::Warming
    } else {
        NodeRuntimeState::Ready
    }
}

/// Read a stored runtime state name.
pub fn parse_runtime_state(raw: &str) -> (r: NodeRuntimeState)
    ensures
        r == runtime_state_from_name(raw@),
{
    if str_eq(raw, "suspect") {
        NodeRuntimeState::Suspect
    } else if str_eq(raw, "unavailable") {
        NodeRuntimeState::Unavailable
    } else if str_eq(raw, "recovering") {
        NodeRuntimeState::Recovering
    } else if str_eq(raw, "warming") {
        NodeRuntimeState::Warming
    } else {
        NodeRuntimeState::Ready
    }
}

/// Reading back the stored name of a runtime state gives the same state.
pub proof fn lemma_runtime_state_name_round_trip(s: NodeRuntimeState)
    ensures
        runtime_state_from_name(crate::state::runtime_state_name(s)) == s,
{
    reveal_strlit("ready");
    reveal_strlit("suspect");
    reveal_strlit("unavailable");
    reveal_strlit("recovering");
    reveal_strlit("warming");
    assert("ready"@.len() != "suspect"@.len());
    assert("ready"@.len() != "unavailable"@.len());
    assert("ready"@.len() != "recovering"@.len());
    assert("ready"@.len() != "warming"@.len());
    assert("suspect"@.len() != "unavailable"@.len());
    assert("suspect"@.len() != "recovering"@.len());
    assert("suspect"@[0] != "warming"@[0]);
    assert("unavailable"@.len() != "recovering"@.len());
    assert("unavailable"@.len() != "warming"@.len());
    assert("recovering"@.len() != "warming"@.len());
}

} // verus!

verus! {

/// The database schema version this build writes.
pub const CURRENT_SCHEMA_VERSION: i32 = 1;

/// What opening a database must do about its schema.
#[derive(Debug, Clone, Copy, PartialEq, Eq, Structural)]
pub enum MigrationPlan {
    /// A new database: create the tables and record the current version.
    CreateSchema,
    /// The schema is current.
    UpToDate,
}

/// The decimal text of a signed number.
pub open spec fn signed_decimal(v: int) -> Seq<char> {
    if v < 0 {
        seq!['-'] + decimal_text((-v) as nat)
    } else {
        decimal_text(v as nat)
    }
}

/// Decide the migration for a database at schema `version` (0 for a new
/// database); other versions are refused.
pub fn plan_migration(version: i32) -> (r: Result<MigrationPlan, String>)
    ensures
        version == 0 ==> r == Ok::<MigrationPlan, String>(MigrationPlan::CreateSchema),
        version == CURRENT_SCHEMA_VERSION ==> r == Ok::<MigrationPlan, String>(MigrationPlan::UpToDate),
        version != 0 && version != CURRENT_SCHEMA_VERSION ==> (r matches Err(m) && m@
            == "unsupported schema version "@ + signed_decimal(version as int)),
{
    if version == 0 {
        return Ok(MigrationPlan::CreateSchema);
    }
    if version == CURRENT_SCHEMA_VERSION {
        return Ok(MigrationPlan::UpToDate);
    }
    let mut m = "unsupported schema version ".to_owned();
    let magnitude: u64 = if version < 0 {
        m.append("-");
        proof {
            reveal_strlit("-");
        }
        (-(version as i64)) as u64
    } else {
        version as u64
    };
    push_decimal_text(&mut m, magnitude);
    Err(m)
}

} // verus!
