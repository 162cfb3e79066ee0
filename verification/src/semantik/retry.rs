//! When to retry, and after how long.

use crate::semantik::code::{CodeView, ErrorCode};
use crate::semantik::duration;
use crate::semantik::duration::Duration;
use crate::semantik::error;
use crate::semantik::error::{Error, ErrorView};
use crate::semantik::limits::MAX_RETRY_AFTER_SECS;
use vstd::prelude::*;

verus! {

/// Decide whether a failed request should be retried and how long to
/// wait before the next attempt.
///
/// `attempt` is the zero-based attempt number (`0` for the first retry
/// decision after the initial failure). `Some(d)` means to wait `d` and
/// retry; `None` aborts the call with the error. A policy is asked about
/// [`Error::Api`] alone: any other error aborts the call.
pub trait RetryPolicy: Send + Sync + 'static {
    /// Is `decision` one that the policy may make? Where a policy does not
    /// say, any is.
    open spec fn decides(&self, attempt: u32, err: &Error, decision: Option<Duration>) -> bool {
        true
    }

    fn should_retry(&self, attempt: u32, err: &Error) -> (res: Option<Duration>)
        ensures
            self.decides(attempt, err, res),
    ;
}

/// Disables retry entirely.
#[derive(Debug, Clone, Copy)]
pub struct NoRetry;

impl Default for NoRetry {
    fn default() -> (res: Self)
        ensures
            res == NoRetry,
    {
        NoRetry
    }
}

impl RetryPolicy for NoRetry {
    open spec fn decides(&self, attempt: u32, err: &Error, decision: Option<Duration>) -> bool {
        decision is None
    }

    fn should_retry(&self, attempt: u32, err: &Error) -> (res: Option<Duration>) {
        None
    }
}

/// Retries up to `max_attempts` times on transient server conditions the
/// API documents as safe to re-issue: `backpressure`, `unavailable`,
/// `namespace_unavailable` and `metering_unavailable`.
///
/// The server's retry hint is honoured when present; when it is missing
/// the fallback is a `100ms, 2s, 5s, 10s` schedule, saturating at 10s.
/// Errors outside this set are never retried. `max_attempts == 0`
/// disables retry.
#[derive(Debug, Clone, Copy)]
pub struct TransientRetry {
    max_attempts: u32,
}

/// Is the code one that a retry can cure?
pub open spec fn is_transient(code: CodeView) -> bool {
    code is Backpressure || code is Unavailable || code is NamespaceUnavailable
        || code is MeteringUnavailable
}

/// The fallback delay of an attempt, in nanoseconds.
pub open spec fn backoff(attempt: int) -> nat {
    if attempt == 0 {
        duration::millis(100)
    } else if attempt == 1 {
        duration::secs(2)
    } else if attempt == 2 {
        duration::secs(5)
    } else {
        duration::secs(10)
    }
}

/// The decision of a policy of at most `max_attempts` retries. An error
/// that is wrapped is not looked into.
pub open spec fn transient_delay(max_attempts: nat, attempt: nat, err: ErrorView) -> Option<nat> {
    match err {
        ErrorView::Api { code, retry_after, .. } => if attempt < max_attempts && is_transient(
            code,
        ) {
            Some(
                match retry_after {
                    Some(hint) => hint,
                    None => backoff(attempt as int),
                },
            )
        } else {
            None
        },
        _ => None,
    }
}

/// Fallback backoff when the server omits a retry hint. A 100ms first
/// step keeps the common-case latency low when a transient hiccup clears
/// immediately, then the schedule widens and saturates at 10s.
pub fn fallback_backoff(attempt: u32) -> (res: Duration)
    ensures
        res@ == backoff(attempt as int),
{
    match attempt {
        0 => Duration::from_millis(100),
        1 => Duration::from_secs(2),
        2 => Duration::from_secs(5),
        _ => Duration::from_secs(10),
    }
}

impl TransientRetry {
    /// How many retries the policy allows.
    pub closed spec fn limit(&self) -> nat {
        self.max_attempts as nat
    }

    pub fn new(max_attempts: u32) -> (res: Self)
        ensures
            res.limit() == max_attempts,
    {
        TransientRetry { max_attempts }
    }
}

impl RetryPolicy for TransientRetry {
    open spec fn decides(&self, attempt: u32, err: &Error, decision: Option<Duration>) -> bool {
        error::opt_nanos(decision) == transient_delay(self.limit(), attempt as nat, err@)
    }

    fn should_retry(&self, attempt: u32, err: &Error) -> (res: Option<Duration>) {
        if attempt >= self.max_attempts {
            return None;
        }
        match err {
            Error::Api { code, retry_after, .. } => match code {
                ErrorCode::Backpressure
                | ErrorCode::Unavailable
                | ErrorCode::NamespaceUnavailable
                | ErrorCode::MeteringUnavailable => match retry_after {
                    Some(hint) => Some(*hint),
                    None => Some(fallback_backoff(attempt)),
                },
                _ => None,
            },
            _ => None,
        }
    }
}

/// The state of a call's retry loop: how many retries were made.
#[derive(Debug, Clone, Copy, PartialEq, Eq, Structural)]
pub struct RetryLoop {
    pub attempt: u32,
}

/// What to do after a failed attempt.
#[derive(Debug, Clone, Copy)]
pub enum AfterFailure {
    /// Hand the error to the caller.
    GiveUp,
    /// Wait, then try again.
    RetryAfter(Duration),
}

/// The shorter of a delay and the longest accepted one.
pub open spec fn capped_delay(nanos: nat) -> nat {
    if nanos <= duration::secs(MAX_RETRY_AFTER_SECS as nat) {
        nanos
    } else {
        duration::secs(MAX_RETRY_AFTER_SECS as nat)
    }
}

/// How long an action waits; `None` where it gives up.
pub open spec fn waits(action: AfterFailure) -> Option<nat> {
    match action {
        AfterFailure::GiveUp => None,
        AfterFailure::RetryAfter(d) => Some(d@),
    }
}

/// How long a policy's decision makes a call wait; `None` where it gives
/// up.
pub open spec fn followed(decision: Option<Duration>) -> Option<nat> {
    match decision {
        Some(d) => Some(capped_delay(d@)),
        None => None,
    }
}

impl RetryLoop {
    /// The start of a call.
    pub fn new() -> (res: Self)
        ensures
            res.attempt == 0,
    {
        RetryLoop { attempt: 0 }
    }

    /// What to do on a policy's decision about a failed attempt. The
    /// delay is capped at one hour whatever the policy says.
    pub fn on_decision(&mut self, decision: Option<Duration>) -> (res: AfterFailure)
        requires
            old(self).attempt < u32::MAX,
        ensures
            waits(res) == followed(decision),
            final(self).attempt == old(self).attempt + if decision is Some {
                1int
            } else {
                0int
            },
    {
        match decision {
            None => AfterFailure::GiveUp,
            Some(delay) => {
                self.attempt = self.attempt + 1;
                AfterFailure::RetryAfter(
                    delay.shorter(Duration::from_secs(MAX_RETRY_AFTER_SECS)),
                )
            },
        }
    }

    /// Ask `policy` about a failed attempt, and follow it. An error that is
    /// not [`Error::Api`] aborts the call without asking.
    pub fn on_failure<P: RetryPolicy + ?Sized>(&mut self, policy: &P, err: &Error) -> (res:
        AfterFailure)
        requires
            old(self).attempt < u32::MAX,
        ensures
            !(err@ is Api) ==> waits(res) is None,
            err@ is Api ==> exists|decision: Option<Duration>|
                {
                    &&& #[trigger] policy.decides(old(self).attempt, err, decision)
                    &&& waits(res) == followed(decision)
                },
            final(self).attempt == old(self).attempt + if waits(res) is Some {
                1int
            } else {
                0int
            },
    {
        match err {
            Error::Api { .. } => {
                let decision = policy.should_retry(self.attempt, err);
                self.on_decision(decision)
            },
            _ => AfterFailure::GiveUp,
        }
    }
}

/// Where a call has failed and was retried after each failure, as often as
/// there are `failures`, a policy allowed as many retries: it makes at most
/// one attempt more than it allows retries.
pub proof fn law_attempts_are_bounded(max_attempts: nat, failures: Seq<ErrorView>)
    requires
        forall|i: int|
            0 <= i < failures.len() ==> transient_delay(
                max_attempts,
                i as nat,
                #[trigger] failures[i],
            ) is Some,
    ensures
        failures.len() <= max_attempts,
{
    if failures.len() > max_attempts {
        assert(transient_delay(max_attempts, max_attempts, failures[max_attempts as int]) is None);
    }
}

/// A policy retries a transient failure as long as it has retries left,
/// and none after that.
pub proof fn law_retries_are_bounded(max_attempts: nat, attempt: nat, err: ErrorView)
    ensures
        attempt >= max_attempts ==> transient_delay(max_attempts, attempt, err) is None,
        err is Api && is_transient(err->Api_code) ==> (transient_delay(max_attempts, attempt, err)
            is Some <==> attempt < max_attempts),
{
}

/// A failure that is not transient is never retried.
pub proof fn law_terminal_failures_are_not_retried(
    max_attempts: nat,
    attempt: nat,
    err: ErrorView,
)
    requires
        !(err is Api && is_transient(err->Api_code)),
    ensures
        transient_delay(max_attempts, attempt, err) is None,
{
}

/// The server's hint wins over the fallback schedule.
pub proof fn law_server_hint_wins(max_attempts: nat, attempt: nat, err: ErrorView)
    requires
        err is Api,
        is_transient(err->Api_code),
        attempt < max_attempts,
        err->Api_retry_after is Some,
    ensures
        transient_delay(max_attempts, attempt, err) == err->Api_retry_after,
{
}

/// Later attempts never wait for less on the fallback schedule, which
/// stays between 100ms and 10s.
pub proof fn law_backoff_widens(a: int, b: int)
    requires
        0 <= a <= b,
    ensures
        duration::millis(100) <= backoff(a) <= backoff(b) <= duration::secs(10),
{
}

/// Whatever a policy decides, no wait is longer than one hour.
pub proof fn law_waits_are_bounded(decision: Option<Duration>)
    ensures
        followed(decision) is Some <==> decision is Some,
        followed(decision) matches Some(nanos) ==> nanos <= duration::secs(3600),
{
}

/// What a [`TransientRetry`] decides, in numbers. It retries exactly the
/// four transient codes, as long as it has retries left. The server's hint
/// is the delay where there is one; else it is 100ms, 2s, 5s and then 10s,
/// the same for all four codes.
pub proof fn law_what_transient_retry_decides(
    policy: TransientRetry,
    attempt: u32,
    err: Error,
    decision: Option<Duration>,
)
    requires
        policy.decides(attempt, &err, decision),
    ensures
        decision is Some <==> attempt < policy.limit() && (err matches Error::Api { code, .. }
            && (code is Backpressure || code is Unavailable || code is NamespaceUnavailable
            || code is MeteringUnavailable)),
        decision matches Some(delay) ==> {
            &&& err->Api_retry_after matches Some(hint) ==> delay@ == hint@
            &&& err->Api_retry_after is None ==> {
                &&& attempt == 0 ==> delay@ == 100_000_000
                &&& attempt == 1 ==> delay@ == 2_000_000_000
                &&& attempt == 2 ==> delay@ == 5_000_000_000
                &&& attempt >= 3 ==> delay@ == 10_000_000_000
            }
        },
{
}

/// Two transient failures without a hint wait for as long at the same
/// attempt, whatever their codes, messages and statuses.
pub proof fn law_transient_codes_wait_alike(
    policy: TransientRetry,
    attempt: u32,
    a: Error,
    b: Error,
    da: Option<Duration>,
    db: Option<Duration>,
)
    requires
        policy.decides(attempt, &a, da),
        policy.decides(attempt, &b, db),
        a matches Error::Api { retry_after, .. } && retry_after is None,
        b matches Error::Api { retry_after, .. } && retry_after is None,
        da is Some,
        db is Some,
    ensures
        da->0@ == db->0@,
{
}

/// [`NoRetry`] never retries.
pub proof fn law_no_retry_never_retries(attempt: u32, err: Error, decision: Option<Duration>)
    requires
        NoRetry.decides(attempt, &err, decision),
    ensures
        decision is None,
{
}

/// A decision is followed to the nanosecond up to one hour, and no longer;
/// only where there is none is the call given up.
pub proof fn law_decisions_are_followed(decision: Option<Duration>, action: AfterFailure)
    requires
        waits(action) == followed(decision),
    ensures
        action is GiveUp <==> decision is None,
        action matches AfterFailure::RetryAfter(wait) ==> (decision matches Some(delay) && (
        delay@ <= 3_600_000_000_000 ==> wait@ == delay@) && (delay@ > 3_600_000_000_000
            ==> wait@ == 3_600_000_000_000)),
{
}

} // verus!
