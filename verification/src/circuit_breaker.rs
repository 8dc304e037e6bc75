//! Per-node circuit breaker tracking consecutive failures.

use vstd::prelude::*;

verus! {

/// Circuit breaker states per node.
#[derive(Debug, Clone, Copy, PartialEq, Eq, Structural)]
pub enum CircuitState {
    Closed,
    Open,
    HalfOpen,
}

impl Default for CircuitState {
    fn default() -> (r: Self)
        ensures
            r == CircuitState::Closed,
    {
        CircuitState::Closed
    }
}

/// Per-node circuit breaker tracking consecutive failures.
#[derive(Debug, Clone, Copy, PartialEq, Eq, Structural)]
pub struct CircuitBreaker {
    pub state: CircuitState,
    pub failure_count: u32,
    pub failure_threshold: u32,
    pub success_threshold: u32,
    pub consecutive_successes: u32,
}

/// The breaker after one recorded success.
pub open spec fn after_success(cb: CircuitBreaker) -> CircuitBreaker {
    match cb.state {
        CircuitState::HalfOpen => {
            let n = (cb.consecutive_successes + 1) as u32;
            if n >= cb.success_threshold {
                CircuitBreaker {
                    state: CircuitState::Closed,
                    failure_count: 0,
                    consecutive_successes: 0,
                    ..cb
                }
            } else {
                CircuitBreaker { failure_count: 0, consecutive_successes: n, ..cb }
            }
        },
        CircuitState::Open => CircuitBreaker {
            state: CircuitState::HalfOpen,
            failure_count: 0,
            consecutive_successes: 1,
            ..cb
        },
        CircuitState::Closed => CircuitBreaker { failure_count: 0, ..cb },
    }
}

/// The breaker after one recorded failure.
pub open spec fn after_failure(cb: CircuitBreaker) -> CircuitBreaker {
    let n = (cb.failure_count + 1) as u32;
    CircuitBreaker {
        state: if n >= cb.failure_threshold {
            CircuitState::Open
        } else {
            cb.state
        },
        failure_count: n,
        consecutive_successes: 0,
        ..cb
    }
}

/// The breaker after recovery probing begins.
pub open spec fn after_begin_recovery(cb: CircuitBreaker) -> CircuitBreaker {
    if cb.state == CircuitState::Open {
        CircuitBreaker { state: CircuitState::HalfOpen, consecutive_successes: 0, ..cb }
    } else {
        cb
    }
}

/// Whether a breaker may record one more success without its counter overflowing.
pub open spec fn can_record_success(cb: CircuitBreaker) -> bool {
    cb.state == CircuitState::HalfOpen ==> cb.consecutive_successes < u32::MAX
}

/// Whether a breaker may record one more failure without its counter overflowing.
pub open spec fn can_record_failure(cb: CircuitBreaker) -> bool {
    cb.failure_count < u32::MAX
}

impl CircuitBreaker {
    /// Create a new circuit breaker with the given thresholds.
    pub fn new(failure_threshold: u32, success_threshold: u32) -> (r: Self)
        ensures
            r == (CircuitBreaker {
                state: CircuitState::Closed,
                failure_count: 0,
                failure_threshold,
                success_threshold,
                consecutive_successes: 0,
            }),
    {
        CircuitBreaker {
            state: CircuitState::Closed,
            failure_count: 0,
            failure_threshold,
            success_threshold,
            consecutive_successes: 0,
        }
    }

    /// Whether the node is eligible for routing.
    pub fn allows_routing(&self) -> (r: bool)
        ensures
            r == (self.state != CircuitState::Open),
    {
        match self.state {
            CircuitState::Open => false,
            _ => true,
        }
    }

    /// Record a successful request or probe.
    pub fn record_success(&mut self)
        requires
            can_record_success(*old(self)),
        ensures
            *final(self) == after_success(*old(self)),
    {
        self.failure_count = 0;
        match self.state {
            CircuitState::HalfOpen => {
                self.consecutive_successes = self.consecutive_successes + 1;
                if self.consecutive_successes >= self.success_threshold {
                    self.state = CircuitState::Closed;
                    self.consecutive_successes = 0;
                }
            },
            CircuitState::Open => {
                self.state = CircuitState::HalfOpen;
                self.consecutive_successes = 1;
            },
            CircuitState::Closed => {},
        }
    }

    /// Record a failure from upstream.
    pub fn record_failure(&mut self)
        requires
            can_record_failure(*old(self)),
        ensures
            *final(self) == after_failure(*old(self)),
    {
        self.consecutive_successes = 0;
        self.failure_count = self.failure_count + 1;
        if self.failure_count >= self.failure_threshold {
            self.state = CircuitState::Open;
        }
    }

    /// Begin recovery probing (half-open).
    pub fn begin_recovery(&mut self)
        ensures
            *final(self) == after_begin_recovery(*old(self)),
    {
        if self.state == CircuitState::Open {
            self.state = CircuitState::HalfOpen;
            self.consecutive_successes = 0;
        }
    }
}

/// The breaker after `n` consecutive recorded failures.
pub open spec fn failures(cb: CircuitBreaker, n: nat) -> CircuitBreaker
    decreases n,
{
    if n == 0 {
        cb
    } else {
        after_failure(failures(cb, (n - 1) as nat))
    }
}

/// The breaker after `n` consecutive recorded successes.
pub open spec fn successes(cb: CircuitBreaker, n: nat) -> CircuitBreaker
    decreases n,
{
    if n == 0 {
        cb
    } else {
        after_success(successes(cb, (n - 1) as nat))
    }
}

/// A closed breaker with no failures stays closed for fewer than
/// `failure_threshold` consecutive failures, and opens on exactly that many.
pub proof fn lemma_opens_after_threshold_failures(cb: CircuitBreaker, n: nat)
    requires
        cb.state == CircuitState::Closed,
        cb.failure_count == 0,
        n <= cb.failure_threshold,
    ensures
        failures(cb, n).failure_count == n,
        n < cb.failure_threshold ==> failures(cb, n).state == CircuitState::Closed,
        n == cb.failure_threshold && n > 0 ==> failures(cb, n).state == CircuitState::Open,
        n > 0 ==> failures(cb, n).consecutive_successes == 0,
        failures(cb, n).failure_threshold == cb.failure_threshold,
        failures(cb, n).success_threshold == cb.success_threshold,
    decreases n,
{
    if n > 0 {
        let m = (n - 1) as nat;
        lemma_opens_after_threshold_failures(cb, m);
    }
}

/// Once a breaker is open, further failures keep it open (while the counter
/// does not overflow).
pub proof fn lemma_failures_keep_open(cb: CircuitBreaker, n: nat)
    requires
        cb.state == CircuitState::Open,
        cb.failure_count + n <= u32::MAX,
    ensures
        failures(cb, n).state == CircuitState::Open,
        failures(cb, n).failure_count == cb.failure_count + n,
        failures(cb, n).failure_threshold == cb.failure_threshold,
    decreases n,
{
    if n > 0 {
        lemma_failures_keep_open(cb, (n - 1) as nat);
    }
}

/// A half-open breaker that starts recovery with no successes closes after
/// exactly `success_threshold` consecutive successes, and stays half-open
/// before that.
pub proof fn lemma_recovers_after_success_threshold(cb: CircuitBreaker, n: nat)
    requires
        cb.state == CircuitState::HalfOpen,
        cb.consecutive_successes == 0,
        cb.success_threshold >= 1,
        n <= cb.success_threshold,
    ensures
        n < cb.success_threshold ==> successes(cb, n).state == CircuitState::HalfOpen
            && successes(cb, n).consecutive_successes == n,
        n == cb.success_threshold ==> successes(cb, n).state == CircuitState::Closed
            && successes(cb, n).consecutive_successes == 0,
        successes(cb, n).failure_threshold == cb.failure_threshold,
        successes(cb, n).success_threshold == cb.success_threshold,
    decreases n,
{
    if n > 0 {
        lemma_recovers_after_success_threshold(cb, (n - 1) as nat);
    }
}

/// Any success clears the failure count, and a success never opens the breaker.
pub proof fn lemma_success_clears_failures(cb: CircuitBreaker)
    requires
        can_record_success(cb),
    ensures
        after_success(cb).failure_count == 0,
        after_success(cb).state != CircuitState::Open,
        after_success(cb).failure_threshold == cb.failure_threshold,
        after_success(cb).success_threshold == cb.success_threshold,
{
}

/// Beginning recovery only moves an open breaker to half-open; it never
/// changes a closed or half-open one.
pub proof fn lemma_begin_recovery_only_from_open(cb: CircuitBreaker)
    ensures
        cb.state == CircuitState::Open ==> after_begin_recovery(cb).state == CircuitState::HalfOpen
            && after_begin_recovery(cb).consecutive_successes == 0,
        cb.state != CircuitState::Open ==> after_begin_recovery(cb) == cb,
{
}

/// A recorded failure never closes a breaker and never half-opens it: the
/// breaker either opens or keeps its state; it counts one more failure and
/// forgets its run of successes, and it opens exactly when the failure count
/// reaches the threshold.
pub proof fn lemma_failure_never_closes(cb: CircuitBreaker)
    requires
        can_record_failure(cb),
    ensures
        after_failure(cb).state == CircuitState::Open || after_failure(cb).state == cb.state,
        after_failure(cb).state == CircuitState::Closed ==> cb.state == CircuitState::Closed,
        after_failure(cb).state == CircuitState::HalfOpen ==> cb.state == CircuitState::HalfOpen,
        after_failure(cb).failure_count == cb.failure_count + 1,
        after_failure(cb).consecutive_successes == 0,
        (after_failure(cb).state == CircuitState::Open) == (cb.failure_count + 1 >= cb.failure_threshold
            || cb.state == CircuitState::Open),
{
}

} // verus!
