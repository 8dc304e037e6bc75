//! Classification of upstream errors for retry and health decisions.

use vstd::prelude::*;
use crate::text::str_eq;

verus! {

/// Classification of upstream errors for retry decisions.
#[derive(Debug, Clone, Copy, PartialEq, Eq, Structural)]
pub enum RetryableError {
    ConnectionRefused,
    ConnectionTimeout,
    DnsFailure,
    NetworkUnreachable,
    HttpServerError,
    MalformedResponse,
    UpstreamDisconnectBeforeResponse,
    UpstreamDisconnectDuringStream,
    ClientCancellation,
    ApplicationError,
}

/// Retry policy configuration.
#[derive(Debug, Clone, Copy, PartialEq, Eq, Structural)]
pub struct RetryPolicy {
    pub max_attempts: u32,
    pub retry_timeout_ms: u64,
}

impl Default for RetryPolicy {
    fn default() -> (r: Self)
        ensures
            r == (RetryPolicy { max_attempts: 2, retry_timeout_ms: 30_000 }),
    {
        RetryPolicy { max_attempts: 2, retry_timeout_ms: 30_000 }
    }
}

impl RetryPolicy {
    /// Whether another retry attempt is allowed.
    pub fn allows_retry(&self, attempts: u32) -> (r: bool)
        ensures
            r == (attempts < self.max_attempts),
    {
        attempts < self.max_attempts
    }
}

/// The classification of an error kind name and optional HTTP status.
pub open spec fn classify(status: Option<u16>, kind: Seq<char>) -> RetryableError {
    if kind == "connection_refused"@ {
        RetryableError::ConnectionRefused
    } else if kind == "connection_timeout"@ {
        RetryableError::ConnectionTimeout
    } else if kind == "dns_failure"@ {
        RetryableError::DnsFailure
    } else if kind == "network_unreachable"@ {
        RetryableError::NetworkUnreachable
    } else if kind == "malformed_response"@ {
        RetryableError::MalformedResponse
    } else if kind == "upstream_disconnect_before"@ {
        RetryableError::UpstreamDisconnectBeforeResponse
    } else if kind == "upstream_disconnect_stream"@ {
        RetryableError::UpstreamDisconnectDuringStream
    } else if kind == "client_cancellation"@ {
        RetryableError::ClientCancellation
    } else if kind == "application_error"@ {
        RetryableError::ApplicationError
    } else if status matches Some(s) && s >= 500 {
        RetryableError::HttpServerError
    } else {
        RetryableError::ApplicationError
    }
}

/// Classify an error for retry and health tracking.
pub fn classify_error(status: Option<u16>, kind: &str) -> (r: RetryableError)
    ensures
        r == classify(status, kind@),
{
    if str_eq(kind, "connection_refused") {
        RetryableError::ConnectionRefused
    } else if str_eq(kind, "connection_timeout") {
        RetryableError::ConnectionTimeout
    } else if str_eq(kind, "dns_failure") {
        RetryableError::DnsFailure
    } else if str_eq(kind, "network_unreachable") {
        RetryableError::NetworkUnreachable
    } else if str_eq(kind, "malformed_response") {
        RetryableError::MalformedResponse
    } else if str_eq(kind, "upstream_disconnect_before") {
        RetryableError::UpstreamDisconnectBeforeResponse
    } else if str_eq(kind, "upstream_disconnect_stream") {
        RetryableError::UpstreamDisconnectDuringStream
    } else if str_eq(kind, "client_cancellation") {
        RetryableError::ClientCancellation
    } else if str_eq(kind, "application_error") {
        RetryableError::ApplicationError
    } else {
        match status {
            Some(s) if s >= 500 => RetryableError::HttpServerError,
            _ => RetryableError::ApplicationError,
        }
    }
}

/// Errors on which the proxy may retry on another node before streaming.
pub open spec fn retryable(e: RetryableError) -> bool {
    ||| e == RetryableError::ConnectionRefused
    ||| e == RetryableError::ConnectionTimeout
    ||| e == RetryableError::DnsFailure
    ||| e == RetryableError::NetworkUnreachable
    ||| e == RetryableError::HttpServerError
    ||| e == RetryableError::MalformedResponse
    ||| e == RetryableError::UpstreamDisconnectBeforeResponse
}

/// Errors that count against a node's health.
pub open spec fn node_failure(e: RetryableError) -> bool {
    e != RetryableError::ClientCancellation && e != RetryableError::ApplicationError
}

impl RetryableError {
    /// Whether the proxy may retry on another node before streaming begins.
    pub fn is_retryable(&self) -> (r: bool)
        ensures
            r == retryable(*self),
    {
        match self {
            RetryableError::ConnectionRefused => true,
            RetryableError::ConnectionTimeout => true,
            RetryableError::DnsFailure => true,
            RetryableError::NetworkUnreachable => true,
            RetryableError::HttpServerError => true,
            RetryableError::MalformedResponse => true,
            RetryableError::UpstreamDisconnectBeforeResponse => true,
            _ => false,
        }
    }

    /// Whether this should count as a node health failure.
    pub fn counts_as_node_failure(&self) -> (r: bool)
        ensures
            r == node_failure(*self),
    {
        match self {
            RetryableError::ClientCancellation => false,
            RetryableError::ApplicationError => false,
            _ => true,
        }
    }
}

/// Every retryable error also counts as a node failure: the proxy never
/// retries away from a node without charging that node's health.
pub proof fn lemma_retryable_is_node_failure(e: RetryableError)
    ensures
        retryable(e) ==> node_failure(e),
{
}

/// Client cancellations and application errors are neither retried nor
/// charged to the node, whatever status accompanies them.
pub proof fn lemma_client_side_errors_are_neutral(status: Option<u16>)
    ensures
        !retryable(classify(status, "client_cancellation"@)),
        !node_failure(classify(status, "client_cancellation"@)),
        !retryable(classify(status, "application_error"@)),
        !node_failure(classify(status, "application_error"@)),
{
    reveal_strlit("connection_refused");
    reveal_strlit("connection_timeout");
    reveal_strlit("dns_failure");
    reveal_strlit("network_unreachable");
    reveal_strlit("malformed_response");
    reveal_strlit("upstream_disconnect_before");
    reveal_strlit("upstream_disconnect_stream");
    reveal_strlit("client_cancellation");
    reveal_strlit("application_error");
    let cc = "client_cancellation"@;
    let ae = "application_error"@;
    assert(cc.len() != "connection_refused"@.len());
    assert(cc.len() != "connection_timeout"@.len());
    assert(cc.len() != "dns_failure"@.len());
    assert(cc[0] != "network_unreachable"@[0]);
    assert(cc.len() != "malformed_response"@.len());
    assert(cc.len() != "upstream_disconnect_before"@.len());
    assert(cc.len() != "upstream_disconnect_stream"@.len());
    assert(ae.len() != "connection_refused"@.len());
    assert(ae.len() != "connection_timeout"@.len());
    assert(ae.len() != "dns_failure"@.len());
    assert(ae.len() != "network_unreachable"@.len());
    assert(ae.len() != "malformed_response"@.len());
    assert(ae.len() != "upstream_disconnect_before"@.len());
    assert(ae.len() != "upstream_disconnect_stream"@.len());
    assert(ae.len() != cc.len());
}

/// An unrecognised error kind with a 5xx status is retryable; with any other
/// status (or none) it is an application error.
pub proof fn lemma_unknown_kind_by_status(status: Option<u16>, kind: Seq<char>)
    requires
        kind != "connection_refused"@,
        kind != "connection_timeout"@,
        kind != "dns_failure"@,
        kind != "network_unreachable"@,
        kind != "malformed_response"@,
        kind != "upstream_disconnect_before"@,
        kind != "upstream_disconnect_stream"@,
        kind != "client_cancellation"@,
        kind != "application_error"@,
    ensures
        (status matches Some(s) && s >= 500) ==> classify(status, kind) == RetryableError::HttpServerError
            && retryable(classify(status, kind)),
        !(status matches Some(s) && s >= 500) ==> classify(status, kind) == RetryableError::ApplicationError,
{
}

/// Exactly the failures that happen before any answer reached the client
/// and are the node's doing are retried on another node: connection refused,
/// timed out, name resolution, unreachable network, server errors, malformed
/// answers and disconnects before the answer. Disconnects during a stream,
/// client cancellations and application errors are never retried.
pub proof fn lemma_retryable_errors(e: RetryableError)
    ensures
        retryable(e) <==> (e != RetryableError::UpstreamDisconnectDuringStream && e
            != RetryableError::ClientCancellation && e != RetryableError::ApplicationError),
{
}

/// The failure kinds of the connection level are classified as themselves,
/// whatever status accompanies them, and so are retried.
pub proof fn lemma_connection_kinds_retried(status: Option<u16>)
    ensures
        classify(status, "connection_refused"@) == RetryableError::ConnectionRefused,
        classify(status, "connection_timeout"@) == RetryableError::ConnectionTimeout,
        classify(status, "dns_failure"@) == RetryableError::DnsFailure,
        classify(status, "network_unreachable"@) == RetryableError::NetworkUnreachable,
        classify(status, "malformed_response"@) == RetryableError::MalformedResponse,
        classify(status, "upstream_disconnect_before"@) == RetryableError::UpstreamDisconnectBeforeResponse,
        retryable(classify(status, "connection_refused"@)),
        retryable(classify(status, "connection_timeout"@)),
        retryable(classify(status, "dns_failure"@)),
        retryable(classify(status, "network_unreachable"@)),
        retryable(classify(status, "malformed_response"@)),
        retryable(classify(status, "upstream_disconnect_before"@)),
{
    reveal_strlit("connection_refused");
    reveal_strlit("connection_timeout");
    reveal_strlit("dns_failure");
    reveal_strlit("network_unreachable");
    reveal_strlit("malformed_response");
    reveal_strlit("upstream_disconnect_before");
    assert("connection_timeout"@ != "connection_refused"@) by { assert("connection_timeout"@[11] != "connection_refused"@[11]); }
    assert("dns_failure"@ != "connection_refused"@) by { assert("dns_failure"@.len() != "connection_refused"@.len()); }
    assert("dns_failure"@ != "connection_timeout"@) by { assert("dns_failure"@.len() != "connection_timeout"@.len()); }
    assert("network_unreachable"@ != "connection_refused"@) by { assert("network_unreachable"@.len() != "connection_refused"@.len()); }
    assert("network_unreachable"@ != "connection_timeout"@) by { assert("network_unreachable"@.len() != "connection_timeout"@.len()); }
    assert("network_unreachable"@ != "dns_failure"@) by { assert("network_unreachable"@.len() != "dns_failure"@.len()); }
    assert("malformed_response"@ != "connection_refused"@) by { assert("malformed_response"@[0] != "connection_refused"@[0]); }
    assert("malformed_response"@ != "connection_timeout"@) by { assert("malformed_response"@[0] != "connection_timeout"@[0]); }
    assert("malformed_response"@ != "dns_failure"@) by { assert("malformed_response"@.len() != "dns_failure"@.len()); }
    assert("malformed_response"@ != "network_unreachable"@) by { assert("malformed_response"@.len() != "network_unreachable"@.len()); }
    assert("upstream_disconnect_before"@ != "connection_refused"@) by { assert("upstream_disconnect_before"@.len() != "connection_refused"@.len()); }
    assert("upstream_disconnect_before"@ != "connection_timeout"@) by { assert("upstream_disconnect_before"@.len() != "connection_timeout"@.len()); }
    assert("upstream_disconnect_before"@ != "dns_failure"@) by { assert("upstream_disconnect_before"@.len() != "dns_failure"@.len()); }
    assert("upstream_disconnect_before"@ != "network_unreachable"@) by { assert("upstream_disconnect_before"@.len() != "network_unreachable"@.len()); }
    assert("upstream_disconnect_before"@ != "malformed_response"@) by { assert("upstream_disconnect_before"@.len() != "malformed_response"@.len()); }
}

} // verus!
