//! Errors of the cluster controller.

use vstd::prelude::*;
use crate::config::{ConfigError, config_error_message};

verus! {

/// Controller runtime errors; storage and other failures carry their
/// message text.
#[derive(Debug)]
pub enum ControllerError {
    Config(ConfigError),
    Storage(String),
    NodeNotFound(String),
    RequestNotFound(String),
    Rejected(String),
    Upstream(String),
    Other(String),
}

/// The message text of a controller error.
pub open spec fn controller_error_message(e: ControllerError) -> Seq<char> {
    match e {
        ControllerError::Config(c) => "configuration error: "@ + config_error_message(c@),
        ControllerError::Storage(m) => "storage error: "@ + m@,
        ControllerError::NodeNotFound(m) => "node not found: "@ + m@,
        ControllerError::RequestNotFound(m) => "request not found: "@ + m@,
        ControllerError::Rejected(m) => "operation rejected: "@ + m@,
        ControllerError::Upstream(m) => "upstream error: "@ + m@,
        ControllerError::Other(m) => m@,
    }
}

impl ControllerError {
    /// The error's message text.
    pub fn message(&self) -> (r: String)
        ensures
            r@ == controller_error_message(*self),
    {
        let (prefix, detail) = match self {
            ControllerError::Config(c) => ("configuration error: ", c.message()),
            ControllerError::Storage(m) => ("storage error: ", m.clone()),
            ControllerError::NodeNotFound(m) => ("node not found: ", m.clone()),
            ControllerError::RequestNotFound(m) => ("request not found: ", m.clone()),
            ControllerError::Rejected(m) => ("operation rejected: ", m.clone()),
            ControllerError::Upstream(m) => ("upstream error: ", m.clone()),
            ControllerError::Other(m) => {
                return m.clone();
            },
        };
        let mut s = prefix.to_owned();
        s.append(detail.as_str());
        s
    }
}

} // verus!
