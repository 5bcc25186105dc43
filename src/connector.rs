//! The upstream retry policy: how many connection attempts a forward may
//! make, and what is reported when all of them fail. The attempts
//! themselves (connect with a timeout, handshake, exchange) are made by the
//! caller, which reports each failure back.
use vstd::prelude::*;
use crate::dispatch::ProxyError;

verus! {

/// Seconds one connection attempt may take.
pub const CONNECT_TIMEOUT_SECS: u64 = 10;

/// Attempts a forward makes when not configured otherwise.
pub const DEFAULT_MAX_RETRIES: u32 = 3;

/// The header added to every forwarded response, and its value.
pub const POWERED_BY_HEADER: &'static str = "x-powered-by";

pub const POWERED_BY_VALUE: &'static str = "sheldx Services";

pub const TIMED_OUT_REASON: &'static str = "Connection timed out";

pub const NO_ATTEMPT_REASON: &'static str = "No connection attempt is allowed";

/// Why one attempt to reach the backend failed.
#[derive(Debug, Clone)]
pub enum AttemptFailure {
    /// The connection was not made within the timeout.
    TimedOut,
    /// The connection was refused or failed, for this reason.
    ConnectFailed(String),
    /// The protocol handshake failed.
    Handshake,
    /// Sending the request or reading the response failed.
    Exchange,
}

/// What the forward does next.
#[derive(Debug, Clone)]
pub enum ForwardStep {
    /// Make one more attempt.
    Attempt,
    /// Stop, and answer with this error.
    GiveUp(ProxyError),
}

/// The error a forward ends with when its last attempt failed with `f`.
pub open spec fn failure_error(f: AttemptFailure, e: ProxyError) -> bool {
    match f {
        AttemptFailure::TimedOut => e matches ProxyError::ConnectionError(m) && m@
            == TIMED_OUT_REASON@,
        AttemptFailure::ConnectFailed(reason) => e matches ProxyError::ConnectionError(m) && m@
            == reason@,
        _ => e is HttpCommError,
    }
}

/// The attempts made by one forward.
pub struct ForwardRetry {
    max_retries: u32,
    attempts: u32,
}

/// `after` and `step` follow from `before` when the attempt in flight fails
/// with `f`: another attempt while fewer than the maximum were made, else
/// giving up with the error of `f`.
pub open spec fn failure_step(
    before: ForwardRetry,
    after: ForwardRetry,
    f: AttemptFailure,
    step: ForwardStep,
) -> bool {
    &&& after.max() == before.max()
    &&& before.attempts() < before.max() ==> after.attempts() == before.attempts() + 1
        && step is Attempt
    &&& before.attempts() >= before.max() ==> after.attempts() == before.attempts() && (
    step matches ForwardStep::GiveUp(e) && failure_error(f, e))
}

/// `s` is a forward that has made no attempt yet but the first, which it
/// makes when at least one is allowed.
pub open spec fn fresh_forward(s: ForwardRetry, max_retries: u32) -> bool {
    s.max() == max_retries && s.attempts() == (if max_retries > 0 { 1nat } else { 0nat })
}

impl ForwardRetry {
    pub closed spec fn max(&self) -> nat {
        self.max_retries as nat
    }

    pub closed spec fn attempts(&self) -> nat {
        self.attempts as nat
    }

    pub closed spec fn wf(&self) -> bool {
        self.attempts <= self.max_retries
    }

    /// Starts a forward allowed `max_retries` attempts: the first attempt,
    /// or giving up at once when none is allowed.
    pub fn new(max_retries: u32) -> (r: (ForwardRetry, ForwardStep))
        ensures
            r.0.wf(),
            fresh_forward(r.0, max_retries),
            max_retries > 0 ==> r.1 is Attempt,
            max_retries == 0 ==> (r.1 matches ForwardStep::GiveUp(e) && e matches ProxyError::ConnectionError(m) && m@ == NO_ATTEMPT_REASON@),
    {
        if max_retries > 0 {
            (ForwardRetry { max_retries, attempts: 1 }, ForwardStep::Attempt)
        } else {
            (
                ForwardRetry { max_retries, attempts: 0 },
                ForwardStep::GiveUp(ProxyError::ConnectionError(String::from_str(NO_ATTEMPT_REASON))),
            )
        }
    }

    /// Attempts made so far.
    pub fn attempts_made(&self) -> (r: u32)
        ensures
            r == self.attempts(),
    {
        self.attempts
    }

    /// The attempt in flight failed with `f`: decides whether to try again.
    pub fn on_failure(&mut self, f: AttemptFailure) -> (step: ForwardStep)
        requires
            old(self).wf(),
        ensures
            final(self).wf(),
            failure_step(*old(self), *final(self), f, step),
    {
        if self.attempts < self.max_retries {
            self.attempts = self.attempts + 1;
            ForwardStep::Attempt
        } else {
            let e = match f {
                AttemptFailure::TimedOut => ProxyError::ConnectionError(
                    String::from_str(TIMED_OUT_REASON),
                ),
                AttemptFailure::ConnectFailed(reason) => ProxyError::ConnectionError(reason),
                _ => ProxyError::HttpCommError,
            };
            ForwardStep::GiveUp(e)
        }
    }
}

proof fn lemma_attempts_counted(
    max_retries: u32,
    states: Seq<ForwardRetry>,
    failures: Seq<AttemptFailure>,
    steps: Seq<ForwardStep>,
    k: int,
)
    requires
        fresh_forward(states[0], max_retries),
        states.len() == steps.len() + 1,
        failures.len() == steps.len(),
        forall|j: int|
            0 <= j < steps.len() ==> failure_step(
                states[j],
                states[j + 1],
                failures[j],
                #[trigger] steps[j],
            ),
        0 <= k < states.len(),
    ensures
        states[k].max() == max_retries,
        states[k].attempts() == if k + 1 <= max_retries {
            k + 1
        } else {
            max_retries as int
        },
    decreases k,
{
    if k > 0 {
        lemma_attempts_counted(max_retries, states, failures, steps, k - 1);
        assert(failure_step(states[k - 1], states[k], failures[k - 1], steps[k - 1]));
    }
}

/// Retry bound: a forward allowed `max_retries` attempts, whose attempts
/// keep failing, never makes more than `max_retries` of them, and gives up,
/// with the error of the last failure, exactly when the failure of its
/// last allowed attempt is reported.
pub proof fn lemma_retry_bound(
    max_retries: u32,
    states: Seq<ForwardRetry>,
    failures: Seq<AttemptFailure>,
    steps: Seq<ForwardStep>,
)
    requires
        fresh_forward(states[0], max_retries),
        max_retries > 0,
        states.len() == steps.len() + 1,
        failures.len() == steps.len(),
        forall|j: int|
            0 <= j < steps.len() ==> failure_step(
                states[j],
                states[j + 1],
                failures[j],
                #[trigger] steps[j],
            ),
    ensures
        forall|k: int| 0 <= k < states.len() ==> #[trigger] states[k].attempts() <= max_retries,
        forall|j: int| 0 <= j < steps.len() && j + 1 < max_retries ==> #[trigger] steps[j] is Attempt,
        forall|j: int|
            0 <= j < steps.len() && j + 1 >= max_retries ==> (#[trigger] steps[j] matches ForwardStep::GiveUp(e)
                && failure_error(failures[j], e)),
{
    assert forall|k: int| 0 <= k < states.len() implies #[trigger] states[k].attempts()
        <= max_retries by {
        lemma_attempts_counted(max_retries, states, failures, steps, k);
    }
    assert forall|j: int| 0 <= j < steps.len() && j + 1 < max_retries implies #[trigger] steps[j] is Attempt by {
        lemma_attempts_counted(max_retries, states, failures, steps, j);
        assert(failure_step(states[j], states[j + 1], failures[j], steps[j]));
    }
    assert forall|j: int| 0 <= j < steps.len() && j + 1 >= max_retries implies (
    #[trigger] steps[j] matches ForwardStep::GiveUp(e) && failure_error(failures[j], e)) by {
        lemma_attempts_counted(max_retries, states, failures, steps, j);
        assert(failure_step(states[j], states[j + 1], failures[j], steps[j]));
    }
}

} // verus!
