//! Administrative and runtime node states.

use vstd::prelude::*;

verus! {

/// Administrative node state persisted across restarts.
#[derive(Debug, Clone, Copy, PartialEq, Eq, Structural)]
pub enum AdminState {
    Enabled,
    Disabled,
    Draining,
    Drained,
}

impl Default for AdminState {
    fn default() -> (r: Self)
        ensures
            r == AdminState::Enabled,
    {
        AdminState::Enabled
    }
}

impl AdminState {
    /// Whether the node may receive new routing assignments.
    pub fn accepts_new_requests(&self) -> (r: bool)
        ensures
            r == (*self == AdminState::Enabled),
    {
        match self {
            AdminState::Enabled => true,
            _ => false,
        }
    }
}

} // verus!

verus! {

/// Runtime health state rebuilt from probes and request outcomes.
#[derive(Debug, Clone, Copy, PartialEq, Eq, Structural)]
pub enum NodeRuntimeState {
    Ready,
    Suspect,
    Unavailable,
    Recovering,
    Warming,
}

impl Default for NodeRuntimeState {
    fn default() -> (r: Self)
        ensures
            r == NodeRuntimeState::Ready,
    {
        NodeRuntimeState::Ready
    }
}

/// The lower-case name under which a runtime state is shown and stored.
pub open spec fn runtime_state_name(s: NodeRuntimeState) -> Seq<char> {
    match s {
        NodeRuntimeState::Ready => "ready"@,
        NodeRuntimeState::Suspect => "suspect"@,
        NodeRuntimeState::Unavailable => "unavailable"@,
        NodeRuntimeState::Recovering => "recovering"@,
        NodeRuntimeState::Warming => "warming"@,
    }
}

impl NodeRuntimeState {
    /// The state's display name (`ready`, `suspect`, ...).
    pub fn as_str(&self) -> (r: &'static str)
        ensures
            r@ == runtime_state_name(*self),
    {
        match self {
            NodeRuntimeState::Ready => "ready",
            NodeRuntimeState::Suspect => "suspect",
            NodeRuntimeState::Unavailable => "unavailable",
            NodeRuntimeState::Recovering => "recovering",
            NodeRuntimeState::Warming => "warming",
        }
    }

    /// The state's display name as an owned string.
    pub fn to_display_string(&self) -> (r: String)
        ensures
            r@ == runtime_state_name(*self),
    {
        self.as_str().to_owned()
    }
}

/// The runtime transitions a node may take, besides staying where it is.
pub open spec fn is_valid_transition(from: NodeRuntimeState, to: NodeRuntimeState) -> bool {
    ||| from == to
    ||| (from == NodeRuntimeState::Ready && to == NodeRuntimeState::Suspect)
    ||| (from == NodeRuntimeState::Ready && to == NodeRuntimeState::Unavailable)
    ||| (from == NodeRuntimeState::Suspect && to == NodeRuntimeState::Ready)
    ||| (from == NodeRuntimeState::Suspect && to == NodeRuntimeState::Unavailable)
    ||| (from == NodeRuntimeState::Unavailable && to == NodeRuntimeState::Recovering)
    ||| (from == NodeRuntimeState::Recovering && to == NodeRuntimeState::Ready)
    ||| (from == NodeRuntimeState::Recovering && to == NodeRuntimeState::Unavailable)
    ||| (from == NodeRuntimeState::Warming && to == NodeRuntimeState::Ready)
    ||| (from == NodeRuntimeState::Warming && to == NodeRuntimeState::Unavailable)
}

/// Check a runtime state transition; an invalid one is reported with both
/// state names.
pub fn validate_runtime_transition(from: NodeRuntimeState, to: NodeRuntimeState) -> (r: Result<
    (),
    CoreError,
>)
    ensures
        r is Ok <==> is_valid_transition(from, to),
        r matches Err(e) ==> e matches CoreError::InvalidStateTransition { from: f, to: t }
            && f@ == runtime_state_name(from) && t@ == runtime_state_name(to),
{
    if from == to {
        return Ok(());
    }
    let valid = match (from, to) {
        (NodeRuntimeState::Ready, NodeRuntimeState::Suspect) => true,
        (NodeRuntimeState::Ready, NodeRuntimeState::Unavailable) => true,
        (NodeRuntimeState::Suspect, NodeRuntimeState::Ready) => true,
        (NodeRuntimeState::Suspect, NodeRuntimeState::Unavailable) => true,
        (NodeRuntimeState::Unavailable, NodeRuntimeState::Recovering) => true,
        (NodeRuntimeState::Recovering, NodeRuntimeState::Ready) => true,
        (NodeRuntimeState::Recovering, NodeRuntimeState::Unavailable) => true,
        (NodeRuntimeState::Warming, NodeRuntimeState::Ready) => true,
        (NodeRuntimeState::Warming, NodeRuntimeState::Unavailable) => true,
        _ => false,
    };
    if valid {
        Ok(())
    } else {
        Err(CoreError::InvalidStateTransition { from: from.to_display_string(), to: to.to_display_string() })
    }
}

/// Runtime state transition helper.
pub struct RuntimeStateTransition;

/// Domain-level errors.
#[derive(Debug, Clone, PartialEq, Eq)]
pub enum CoreError {
    InvalidStateTransition { from: String, to: String },
    NoEligibleNodes { model: String },
}

impl CoreError {
    /// The error's message text.
    pub fn message(&self) -> (r: String)
        ensures
            r@ == core_error_message(*self),
    {
        match self {
            CoreError::InvalidStateTransition { from, to } => {
                let mut s = "invalid state transition from ".to_owned();
                s.append(from.as_str());
                s.append(" to ");
                s.append(to.as_str());
                s
            },
            CoreError::NoEligibleNodes { model } => {
                let mut s = "no eligible nodes for model '".to_owned();
                s.append(model.as_str());
                s.append("'");
                s
            },
        }
    }
}

/// The message text of a domain error.
pub open spec fn core_error_message(e: CoreError) -> Seq<char> {
    match e {
        CoreError::InvalidStateTransition { from, to } => "invalid state transition from "@ + from@
            + " to "@ + to@,
        CoreError::NoEligibleNodes { model } => "no eligible nodes for model '"@ + model@ + "'"@,
    }
}

} // verus!
