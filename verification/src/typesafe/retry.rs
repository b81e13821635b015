//! When a failed attempt is repeated, and after how long.

use std::time::Duration;

use vstd::arithmetic::power2::{lemma2_to64, lemma_pow2_pos, lemma_pow2_unfold, pow2};
use vstd::prelude::*;

use crate::double::Double;
use crate::text::digits_value;
use crate::time::{in_whole_millis, nanos, no_longer};
use crate::typesafe::error::{
    is_success, law_headers_decide_the_requested_delay, law_milliseconds_are_read, optional_nanos,
    status_number, ApiErrorView, Error, ErrorView,
};

verus! {

/// Retry configuration, mirroring `RetryPolicy` in the official SDKs.
///
/// A request is retried when the API returns one of `retry_statuses` (by
/// default 408, 429, and 500–599) or the transport fails (connection error or
/// per-attempt timeout). Between attempts the client waits with exponential
/// backoff: the first retry waits `backoff_initial`, doubling on every
/// subsequent retry up to `backoff_max`, with a random fraction of up to
/// `backoff_jitter` subtracted to avoid thundering herds. When the server asks
/// for a specific delay with `Retry-After` / `retry-after-ms`, that delay is
/// used instead, unless it is longer than `max_retry_after`.
#[derive(Debug)]
pub struct RetryPolicy {
    /// Maximum retries after the initial attempt; `0` disables retries.
    pub max_retries: u32,
    /// Delay before the first retry; doubled on every subsequent retry.
    pub backoff_initial: Duration,
    /// Upper bound on the backoff delay.
    pub backoff_max: Duration,
    /// Fraction (0.0–1.0) of each backoff delay that is randomly subtracted.
    pub backoff_jitter: Double,
    /// Whether to honor the `Retry-After` / `retry-after-ms` headers.
    pub respect_retry_after: bool,
    /// Upper bound on server-requested delays; longer ones fall back to
    /// backoff.
    pub max_retry_after: Duration,
    /// Whether to retry connection failures.
    pub retry_connection_errors: bool,
    /// Whether to retry per-attempt timeouts.
    pub retry_timeout_errors: bool,
    /// HTTP status codes that are retried.
    pub retry_statuses: Vec<u16>,
}

/// What a [`RetryPolicy`] says, durations in nanoseconds.
pub struct RetryPolicyView {
    pub max_retries: u32,
    pub backoff_initial: nat,
    pub backoff_max: nat,
    pub backoff_jitter: Double,
    pub respect_retry_after: bool,
    pub max_retry_after: nat,
    pub retry_connection_errors: bool,
    pub retry_timeout_errors: bool,
    pub retry_statuses: Seq<u16>,
}

impl View for RetryPolicy {
    type V = RetryPolicyView;

    open spec fn view(&self) -> RetryPolicyView {
        RetryPolicyView {
            max_retries: self.max_retries,
            backoff_initial: nanos(self.backoff_initial),
            backoff_max: nanos(self.backoff_max),
            backoff_jitter: self.backoff_jitter,
            respect_retry_after: self.respect_retry_after,
            max_retry_after: nanos(self.max_retry_after),
            retry_connection_errors: self.retry_connection_errors,
            retry_timeout_errors: self.retry_timeout_errors,
            retry_statuses: self.retry_statuses@,
        }
    }
}

impl Clone for RetryPolicy {
    fn clone(&self) -> (copy: Self)
        ensures
            copy@ == self@,
    {
        RetryPolicy {
            max_retries: self.max_retries,
            backoff_initial: self.backoff_initial,
            backoff_max: self.backoff_max,
            backoff_jitter: self.backoff_jitter,
            respect_retry_after: self.respect_retry_after,
            max_retry_after: self.max_retry_after,
            retry_connection_errors: self.retry_connection_errors,
            retry_timeout_errors: self.retry_timeout_errors,
            retry_statuses: self.retry_statuses.clone(),
        }
    }
}

/// The status codes that are retried by default: 408, 429, and 500 to 599.
pub open spec fn default_statuses() -> Seq<u16> {
    seq![408u16, 429u16] + Seq::new(100, |i: int| (500 + i) as u16)
}

/// The policy of a client that sets none.
pub open spec fn default_policy() -> RetryPolicyView {
    RetryPolicyView {
        max_retries: 2,
        backoff_initial: 500_000_000,
        backoff_max: 5_000_000_000,
        backoff_jitter: Double { bits: 0x3FD0_0000_0000_0000 },
        respect_retry_after: true,
        max_retry_after: 60_000_000_000,
        retry_connection_errors: true,
        retry_timeout_errors: true,
        retry_statuses: default_statuses(),
    }
}

impl Default for RetryPolicy {
    fn default() -> (r: Self)
        ensures
            r@ == default_policy(),
    {
        RetryPolicy {
            max_retries: 2,
            backoff_initial: Duration::from_millis(500),
            backoff_max: Duration::from_millis(5_000),
            backoff_jitter: Double { bits: 0x3FD0_0000_0000_0000 },
            respect_retry_after: true,
            max_retry_after: Duration::from_secs(60),
            retry_connection_errors: true,
            retry_timeout_errors: true,
            retry_statuses: default_retry_statuses(),
        }
    }
}

/// How long to wait before the next attempt.
#[derive(Debug)]
pub enum Delay {
    /// This long, as the server asked.
    Requested(Duration),
    /// This long, less a random fraction of up to `backoff_jitter`.
    Backoff(Duration),
}

/// What a [`Delay`] says, in nanoseconds.
pub enum DelayView {
    Requested(nat),
    Backoff(nat),
}

impl View for Delay {
    type V = DelayView;

    open spec fn view(&self) -> DelayView {
        match *self {
            Delay::Requested(delay) => DelayView::Requested(nanos(delay)),
            Delay::Backoff(delay) => DelayView::Backoff(nanos(delay)),
        }
    }
}

/// What to do after a failed attempt.
#[derive(Debug)]
pub enum Step {
    /// Report the error.
    GiveUp,
    /// Wait, then make retry number `retry`.
    Retry { delay: Delay, retry: u32 },
}

/// What a [`Step`] says.
pub enum StepView {
    GiveUp,
    Retry { delay: DelayView, retry: nat },
}

impl View for Step {
    type V = StepView;

    open spec fn view(&self) -> StepView {
        match *self {
            Step::GiveUp => StepView::GiveUp,
            Step::Retry { delay, retry } => StepView::Retry { delay: delay@, retry: retry as nat },
        }
    }
}

impl RetryPolicyView {
    /// Whether an error is one that is retried.
    pub open spec fn retries(self, error: ErrorView) -> bool {
        match error {
            ErrorView::Api(error) => self.retry_statuses.contains(error.status),
            ErrorView::Connection(_) => self.retry_connection_errors,
            ErrorView::Timeout { .. } => self.retry_timeout_errors,
            ErrorView::Config(_) => false,
            ErrorView::InvalidRequest(_) => false,
            ErrorView::Json(_) => false,
        }
    }

    /// The backoff before retry number `retry`, jitter not yet subtracted: the
    /// whole milliseconds of the doubled delay.
    pub open spec fn backoff(self, retry: nat) -> nat {
        self.doubled(retry) / 1_000_000 * 1_000_000
    }

    /// The initial delay, doubled on every retry after the first, up to the
    /// upper bound.
    pub open spec fn doubled(self, retry: nat) -> nat {
        if self.backoff_initial * pow2(retry) <= self.backoff_max {
            self.backoff_initial * pow2(retry)
        } else {
            self.backoff_max
        }
    }

    /// The delay before retry number `retry` after an error. `seconds` is what
    /// the `Retry-After` header of the response says.
    pub open spec fn delay(self, retry: nat, error: ErrorView, seconds: Option<nat>) -> DelayView {
        let requested = match error {
            ErrorView::Api(error) => error.requested_delay(seconds),
            _ => None,
        };
        match requested {
            Some(delay) if self.respect_retry_after && delay <= self.max_retry_after =>
                DelayView::Requested(delay),
            _ => DelayView::Backoff(self.backoff(retry)),
        }
    }

    /// What follows the failure of retry number `retry`, where 0 is the first
    /// attempt.
    pub open spec fn step(self, retry: nat, error: ErrorView, seconds: Option<nat>) -> StepView {
        if retry < self.max_retries && self.retries(error) {
            StepView::Retry { delay: self.delay(retry, error, seconds), retry: retry + 1 }
        } else {
            StepView::GiveUp
        }
    }

    /// How many attempts are made from retry number `retry` on, when attempt
    /// number `n` ends with `outcome(n)`: an error, or `None` on success.
    pub open spec fn attempts(self, outcome: spec_fn(nat) -> Option<ErrorView>, retry: nat) -> nat
        decreases self.max_retries - retry,
    {
        match outcome(retry) {
            Some(error) if self.step(retry, error, None) is Retry => 1 + self.attempts(
                outcome,
                retry + 1,
            ),
            _ => 1,
        }
    }
}

/// A request is attempted at least once, and at most once more than there are
/// retries.
pub proof fn law_attempts_are_bounded(
    policy: RetryPolicyView,
    outcome: spec_fn(nat) -> Option<ErrorView>,
)
    ensures
        1 <= policy.attempts(outcome, 0) <= policy.max_retries + 1,
        policy.max_retries == 0 ==> policy.attempts(outcome, 0) == 1,
{
    lemma_attempts(policy, outcome, 0);
}

/// Every attempt but the last failed with an error that is retried, and the
/// last one succeeded, failed with an error that is not retried, or was the
/// last that the policy allows.
pub proof fn law_last_attempt_decides(
    policy: RetryPolicyView,
    outcome: spec_fn(nat) -> Option<ErrorView>,
)
    ensures
        forall|n: nat|
            n + 1 < policy.attempts(outcome, 0) ==> (#[trigger] outcome(n)) is Some
                && policy.retries(outcome(n)->0),
        ({
            let last = (policy.attempts(outcome, 0) - 1) as nat;
            ||| outcome(last) is None
            ||| !policy.retries(outcome(last)->0)
            ||| last == policy.max_retries
        }),
{
    lemma_attempts(policy, outcome, 0);
}

proof fn lemma_attempts(
    policy: RetryPolicyView,
    outcome: spec_fn(nat) -> Option<ErrorView>,
    retry: nat,
)
    requires
        retry <= policy.max_retries,
    ensures
        1 <= policy.attempts(outcome, retry) <= policy.max_retries - retry + 1,
        forall|n: nat|
            retry <= n && n + 1 < retry + policy.attempts(outcome, retry) ==> (#[trigger] outcome(n))
                is Some && policy.retries(outcome(n)->0),
        ({
            let last = (retry + policy.attempts(outcome, retry) - 1) as nat;
            ||| outcome(last) is None
            ||| !policy.retries(outcome(last)->0)
            ||| last == policy.max_retries
        }),
    decreases policy.max_retries - retry,
{
    if outcome(retry) is Some && retry < policy.max_retries && policy.retries(outcome(retry)->0) {
        lemma_attempts(policy, outcome, retry + 1);
    }
}

/// What the `Retry-After` header says decides how long to wait, not whether to
/// retry.
pub proof fn law_retry_after_does_not_decide(
    policy: RetryPolicyView,
    retry: nat,
    error: ErrorView,
    one: Option<nat>,
    other: Option<nat>,
)
    ensures
        policy.step(retry, error, one) is Retry == policy.step(retry, error, other) is Retry,
{
}

/// By default exactly the statuses 408, 429 and 500 to 599 are retried, and so
/// are connection failures and timeouts.
pub proof fn law_default_policy_retries(error: ErrorView)
    ensures
        default_policy().retries(error) == match error {
            ErrorView::Api(error) => error.status == 408 || error.status == 429 || 500
                <= error.status <= 599,
            ErrorView::Connection(_) => true,
            ErrorView::Timeout { .. } => true,
            _ => false,
        },
{
    if let ErrorView::Api(error) = error {
        lemma_default_statuses(error.status);
    }
}

/// Which statuses the default list holds.
proof fn lemma_default_statuses(status: u16)
    ensures
        default_statuses().contains(status) <==> status == 408 || status == 429 || 500 <= status
            <= 599,
{
    let statuses = default_statuses();
    if status == 408 {
        assert(statuses[0] == status);
    }
    if status == 429 {
        assert(statuses[1] == status);
    }
    if 500 <= status <= 599 {
        assert(statuses[status - 500 + 2] == status);
    }
}

/// A request that is invalid, or a client or payload that is, is never sent
/// again.
pub proof fn law_local_errors_are_final(
    policy: RetryPolicyView,
    retry: nat,
    error: ErrorView,
    seconds: Option<nat>,
)
    requires
        error is Config || error is InvalidRequest || error is Json,
    ensures
        policy.step(retry, error, seconds) is GiveUp,
{
}

/// No backoff is longer than `backoff_max`, and the first one is
/// `backoff_initial` where that is not, less what is below a millisecond.
pub proof fn law_backoff_is_capped(policy: RetryPolicyView, retry: nat)
    ensures
        policy.backoff(retry) <= policy.backoff_max,
        policy.backoff_initial <= policy.backoff_max ==> policy.backoff(0)
            == policy.backoff_initial / 1_000_000 * 1_000_000,
{
    lemma2_to64();
    assert(policy.backoff_initial * 1 == policy.backoff_initial);
}

/// The delay doubles with every retry until it reaches `backoff_max`, where it
/// stays. The backoff never falls, lacks less than a millisecond of that delay,
/// and is that delay where the policy is in whole milliseconds.
pub proof fn law_backoff_doubles(policy: RetryPolicyView, retry: nat)
    ensures
        policy.doubled(retry + 1) == (if 2 * policy.doubled(retry) <= policy.backoff_max {
            2 * policy.doubled(retry)
        } else {
            policy.backoff_max
        }),
        policy.backoff(retry) <= policy.backoff(retry + 1),
        policy.backoff(retry) <= policy.doubled(retry) < policy.backoff(retry) + 1_000_000,
        policy.backoff_initial % 1_000_000 == 0 && policy.backoff_max % 1_000_000 == 0
            ==> policy.backoff(retry) == policy.doubled(retry),
{
    lemma_pow2_unfold(retry + 1);
    lemma_pow2_pos(retry);
    lemma2_to64();
    let initial = policy.backoff_initial;
    let p = pow2(retry);
    assert(initial * (2 * p) == 2 * (initial * p)) by (nonlinear_arith);
    assert(initial * 1 == initial);
    if initial % 1_000_000 == 0 {
        let n = initial / 1_000_000;
        assert((1_000_000 * n) * p == 1_000_000 * (n * p)) by (nonlinear_arith);
        assert((1_000_000 * (n * p)) % 1_000_000 == 0);
    }
}

/// A delay that the server asks for is used as it is when retries respect it
/// and it is no longer than `max_retry_after`; any other delay is a backoff.
pub proof fn law_requested_delay_is_bounded(
    policy: RetryPolicyView,
    retry: nat,
    error: ErrorView,
    seconds: Option<nat>,
)
    ensures
        match policy.delay(retry, error, seconds) {
            DelayView::Requested(delay) => policy.respect_retry_after && delay
                <= policy.max_retry_after && error is Api && error->Api_0.requested_delay(seconds)
                == Some(delay),
            DelayView::Backoff(delay) => delay == policy.backoff(retry),
        },
{
}

impl RetryPolicy {
    /// Set [`max_retries`](Self::max_retries); `0` disables retries.
    pub fn with_max_retries(self, max_retries: u32) -> (r: Self)
        ensures
            r@ == (RetryPolicyView { max_retries, ..self@ }),
    {
        let mut policy = self;
        policy.max_retries = max_retries;
        policy
    }

    /// Whether a response with this status is retried.
    pub fn status_is_retryable(&self, status: u16) -> (r: bool)
        ensures
            r == self@.retry_statuses.contains(status),
    {
        let mut i: usize = 0;
        while i < self.retry_statuses.len()
            invariant
                i <= self.retry_statuses@.len(),
                forall|k: int| 0 <= k < i ==> self.retry_statuses@[k] != status,
            decreases self.retry_statuses@.len() - i,
        {
            if self.retry_statuses[i] == status {
                return true;
            }
            i = i + 1;
        }
        false
    }

    /// Whether a request that failed with this error is retried.
    pub fn should_retry(&self, error: &Error) -> (r: bool)
        ensures
            r == self@.retries(error@),
            match *error {
                Error::Api(error) => r == self.retry_statuses@.contains(
                    status_number(error.status),
                ),
                Error::Connection(_) => r == self.retry_connection_errors,
                Error::Timeout { .. } => r == self.retry_timeout_errors,
                _ => !r,
            },
    {
        match error {
            Error::Api(error) => self.status_is_retryable(error.status.as_u16()),
            Error::Connection(_) => self.retry_connection_errors,
            Error::Timeout { .. } => self.retry_timeout_errors,
            Error::Config(_) => false,
            Error::InvalidRequest(_) => false,
            Error::Json(_) => false,
        }
    }

    /// How long to wait before retry number `retry` (0-based, i.e. after the
    /// `retry + 1`-th failed attempt). `seconds` is the duration that the
    /// `Retry-After` header of the response says, if it says one.
    pub fn delay_for(&self, retry: u32, error: &Error, seconds: Option<Duration>) -> (r: Delay)
        ensures
            r@ == self@.delay(retry as nat, error@, optional_nanos(seconds)),
            match *error {
                Error::Api(error) => match error@.requested_delay(optional_nanos(seconds)) {
                    Some(delay) if self.respect_retry_after && delay <= nanos(
                        self.max_retry_after,
                    ) => r matches Delay::Requested(wait) && nanos(wait) == delay,
                    _ => r matches Delay::Backoff(wait) && nanos(wait) == self@.backoff(
                        retry as nat,
                    ),
                },
                _ => r matches Delay::Backoff(wait) && nanos(wait) == self@.backoff(retry as nat),
            },
    {
        if self.respect_retry_after {
            if let Error::Api(error) = error {
                if let Some(delay) = error.retry_after(seconds) {
                    if no_longer(delay, self.max_retry_after) {
                        return Delay::Requested(delay);
                    }
                }
            }
        }
        Delay::Backoff(self.backoff(retry))
    }

    /// Exponential backoff for retry number `retry` (0-based), in whole
    /// milliseconds, before jitter.
    pub fn backoff(&self, retry: u32) -> (r: Duration)
        ensures
            nanos(r) == self@.backoff(retry as nat),
    {
        in_whole_millis(self.doubled(retry))
    }

    /// The initial delay, doubled on every retry after the first, up to the
    /// upper bound.
    fn doubled(&self, retry: u32) -> (r: Duration)
        ensures
            nanos(r) == self@.doubled(retry as nat),
    {
        let mut delay = self.backoff_initial;
        let mut done: u32 = 0;
        let ghost initial = self@.backoff_initial;
        let ghost max = self@.backoff_max;
        proof {
            lemma2_to64();
            assert(initial * 1 == initial);
        }
        if no_longer(self.backoff_max, delay) {
            proof {
                lemma_powers_increase(initial, 0, retry as nat);
            }
            return self.backoff_max;
        }
        while done < retry
            invariant
                done <= retry,
                initial == self@.backoff_initial,
                max == self@.backoff_max,
                nanos(delay) == initial * pow2(done as nat),
                nanos(delay) < max,
            decreases retry - done,
        {
            delay = delay.saturating_mul(2);
            done = done + 1;
            proof {
                lemma_pow2_unfold(done as nat);
                lemma_pow2_pos((done - 1) as nat);
                let p = pow2((done - 1) as nat);
                assert(initial * (2 * p) == (initial * p) * 2) by (nonlinear_arith);
            }
            if no_longer(self.backoff_max, delay) {
                proof {
                    lemma_powers_increase(initial, done as nat, retry as nat);
                }
                return self.backoff_max;
            }
        }
        delay
    }

    /// The fraction of each backoff delay that may be subtracted: the
    /// configured one, or the nearer of 0 and 1 where it lies outside them.
    pub fn jitter(&self) -> (r: Double)
        ensures
            r == self@.backoff_jitter.clamped(),
    {
        self.backoff_jitter.clamp_to_unit()
    }

    /// What to do when retry number `retry` (0-based, so 0 is the first
    /// attempt) fails: give up once all retries are used or the error is not
    /// one to retry, else wait and retry.
    pub fn after_failure(&self, retry: u32, error: &Error, seconds: Option<Duration>) -> (r: Step)
        ensures
            r@ == self@.step(retry as nat, error@, optional_nanos(seconds)),
            r is GiveUp <==> retry >= self.max_retries || !self@.retries(error@),
            r matches Step::Retry { delay, retry: next } ==> next == retry + 1 && delay@
                == self@.delay(retry as nat, error@, optional_nanos(seconds)),
    {
        if retry >= self.max_retries || !self.should_retry(error) {
            return Step::GiveUp;
        }
        Step::Retry { delay: self.delay_for(retry, error, seconds), retry: retry + 1 }
    }
}

proof fn lemma_powers_increase(initial: nat, a: nat, b: nat)
    requires
        a <= b,
    ensures
        initial * pow2(a) <= initial * pow2(b),
    decreases b - a,
{
    if a < b {
        lemma_powers_increase(initial, a, (b - 1) as nat);
        lemma_pow2_unfold(b);
        let p = pow2((b - 1) as nat);
        assert(initial * p <= initial * (2 * p)) by (nonlinear_arith)
            requires
                p >= 0,
                initial >= 0,
        ;
    }
}

/// The status codes that are retried by default.
pub fn default_retry_statuses() -> (r: Vec<u16>)
    ensures
        r@ == default_statuses(),
{
    let mut statuses: Vec<u16> = vec![408, 429];
    let mut status: u16 = 500;
    while status <= 599
        invariant
            500 <= status <= 600,
            statuses@ == default_statuses().take(status - 498),
        decreases 600 - status,
    {
        statuses.push(status);
        status = status + 1;
        assert(statuses@ =~= default_statuses().take(status - 498));
    }
    assert(default_statuses().take(102) =~= default_statuses());
    statuses
}

/// One step of the xorshift64* generator on a clock reading, of which the
/// upper 53 bits are kept.
pub open spec fn draw_of(clock: Option<u64>) -> u64 {
    let seed = match clock {
        Some(nanos) => nanos | 1,
        None => 0x2545_F491_4F6C_DD1Du64 | 1,
    };
    let a = seed ^ (seed >> 12);
    let b = a ^ (a << 25);
    let c = b ^ (b >> 27);
    (((c * 0x2545_F491_4F6C_DD1D) % 0x1_0000_0000_0000_0000) as u64) >> 11
}

/// A cheap pseudo-random number for retry jitter: one of two to the power of
/// 53 equal parts, from the low 64 bits of the nanoseconds since the epoch, or
/// from a fixed seed where the clock cannot be read.
///
/// Jitter does not need cryptographic quality, so this is a small xorshift
/// generator seeded from the clock.
pub fn random_draw(clock: Option<u64>) -> (r: u64)
    ensures
        r == draw_of(clock),
        r < 0x20_0000_0000_0000,
{
    let mut x: u64 = match clock {
        Some(nanos) => nanos | 1,
        None => 0x2545_F491_4F6C_DD1D | 1,
    };
    x = x ^ (x >> 12);
    x = x ^ (x << 25);
    x = x ^ (x >> 27);
    let y: u64 = x.wrapping_mul(0x2545_F491_4F6C_DD1D);
    assert(y >> 11 < 0x20_0000_0000_0000) by (bit_vector);
    y >> 11
}

// ---------------------------------------------------------------------------
// More laws
// ---------------------------------------------------------------------------

/// The delay that a response asks for is waited, whatever its status, when
/// retries respect it and it is no longer than `max_retry_after`.
pub proof fn law_requested_delay_is_waited(
    policy: RetryPolicyView,
    retry: nat,
    error: ApiErrorView,
    seconds: Option<nat>,
    delay: nat,
)
    requires
        policy.respect_retry_after,
        error.requested_delay(seconds) == Some(delay),
        delay <= policy.max_retry_after,
    ensures
        policy.delay(retry, ErrorView::Api(error), seconds) == DelayView::Requested(delay),
{
}

/// Any other wait is a backoff: after an error without a response, where none
/// is asked for, where what is asked for is longer than `max_retry_after`, and
/// where retries do not respect it.
pub proof fn law_other_delays_are_backoffs(
    policy: RetryPolicyView,
    retry: nat,
    error: ErrorView,
    seconds: Option<nat>,
)
    requires
        !policy.respect_retry_after || (match error {
            ErrorView::Api(error) => match error.requested_delay(seconds) {
                Some(delay) => delay > policy.max_retry_after,
                None => true,
            },
            _ => true,
        }),
    ensures
        policy.delay(retry, error, seconds) == DelayView::Backoff(policy.backoff(retry)),
{
}

/// Digits in the `retry-after-ms` header of a response with any status are so
/// many milliseconds of waiting, up to `max_retry_after`.
pub proof fn law_milliseconds_are_waited(
    policy: RetryPolicyView,
    retry: nat,
    error: ApiErrorView,
    seconds: Option<nat>,
)
    requires
        policy.respect_retry_after,
        error.headers.contains_key("retry-after-ms"@),
        ({
            let bytes = error.headers["retry-after-ms"@][0];
            let digits = Seq::new(bytes.len(), |i: int| bytes[i] as char);
            &&& bytes.len() > 0
            &&& forall|i: int| 0 <= i < bytes.len() ==> 48 <= #[trigger] bytes[i] <= 57
            &&& digits_value(digits) <= u64::MAX
            &&& digits_value(digits) * 1_000_000 <= policy.max_retry_after
        }),
    ensures
        ({
            let bytes = error.headers["retry-after-ms"@][0];
            let digits = Seq::new(bytes.len(), |i: int| bytes[i] as char);
            policy.delay(retry, ErrorView::Api(error), seconds) == DelayView::Requested(
                digits_value(digits) * 1_000_000,
            )
        }),
{
    law_milliseconds_are_read(error, seconds);
}

/// Two responses with the same headers are waited for equally long, whatever
/// their statuses.
pub proof fn law_status_does_not_change_the_delay(
    policy: RetryPolicyView,
    retry: nat,
    one: ApiErrorView,
    other: ApiErrorView,
    seconds: Option<nat>,
)
    requires
        one.headers == other.headers,
    ensures
        policy.delay(retry, ErrorView::Api(one), seconds) == policy.delay(
            retry,
            ErrorView::Api(other),
            seconds,
        ),
{
    law_headers_decide_the_requested_delay(one, other, seconds);
}

/// A response is retried exactly when its status is in the list, a failed
/// connection and a timeout exactly when the policy says so.
pub proof fn law_policy_decides(policy: RetryPolicyView, error: ErrorView)
    ensures
        match error {
            ErrorView::Api(error) => policy.retries(ErrorView::Api(error)) <==> exists|i: int|
                0 <= i < policy.retry_statuses.len() && #[trigger] policy.retry_statuses[i]
                    == error.status,
            ErrorView::Connection(_) => policy.retries(error) == policy.retry_connection_errors,
            ErrorView::Timeout { .. } => policy.retries(error) == policy.retry_timeout_errors,
            _ => !policy.retries(error),
        },
{
}

/// A failed attempt is followed by the next one exactly as long as retries are
/// left and the error is one to retry.
pub proof fn law_retries_are_counted(
    policy: RetryPolicyView,
    retry: nat,
    error: ErrorView,
    seconds: Option<nat>,
)
    ensures
        policy.step(retry, error, seconds) is GiveUp <==> retry >= policy.max_retries
            || !policy.retries(error),
        policy.step(retry, error, seconds) matches StepView::Retry { delay, retry: next } ==> next
            == retry + 1 && delay == policy.delay(retry, error, seconds),
{
}

/// By default no successful response is retried, and every response that is
/// retried is an error.
pub proof fn law_default_retries_are_errors(error: ApiErrorView)
    ensures
        default_policy().retries(ErrorView::Api(error)) ==> !is_success(error.status),
        error.status >= 500 && error.status <= 599 ==> default_policy().retries(
            ErrorView::Api(error),
        ),
{
    law_default_policy_retries(ErrorView::Api(error));
}

/// The default list names each of its statuses once, 408 and 429 first.
pub proof fn law_default_statuses()
    ensures
        default_statuses().len() == 102,
        default_statuses()[0] == 408,
        default_statuses()[1] == 429,
        forall|i: int| 2 <= i < 102 ==> #[trigger] default_statuses()[i] == 498 + i,
{
}

/// By default a request is retried twice, waiting half a second and then a
/// second, less up to a quarter of it, or up to a minute where the server asks
/// for that.
pub proof fn law_default_delays()
    ensures
        default_policy().max_retries == 2,
        default_policy().backoff(0) == 500_000_000,
        default_policy().backoff(1) == 1_000_000_000,
        default_policy().backoff_max == 5_000_000_000,
        default_policy().max_retry_after == 60_000_000_000,
        default_policy().respect_retry_after,
        default_policy().backoff_jitter.bits == 0x3FD0_0000_0000_0000,
{
    law_backoff_is_capped(default_policy(), 0);
    law_backoff_doubles(default_policy(), 0);
    law_backoff_doubles(default_policy(), 1);
}

/// A backoff is in whole milliseconds, and the delay that it comes from starts
/// at the lesser of the two bounds.
pub proof fn law_backoff_starts(policy: RetryPolicyView, retry: nat)
    ensures
        policy.backoff(retry) % 1_000_000 == 0,
        policy.backoff_initial <= policy.backoff_max ==> policy.doubled(0) == policy.backoff_initial,
        policy.backoff_initial > policy.backoff_max ==> policy.doubled(0) == policy.backoff_max,
{
    lemma2_to64();
    assert(policy.backoff_initial * 1 == policy.backoff_initial);
}

/// A draw is the upper 53 bits of the seed after one step of the generator. The
/// lowest bit of the clock does not count, and a clock that cannot be read
/// counts as one that shows the multiplier.
pub proof fn law_draw(clock: u64, a: u64, b: u64, c: u64)
    requires
        a == (clock | 1) ^ ((clock | 1) >> 12),
        b == a ^ (a << 25),
        c == b ^ (b >> 27),
    ensures
        ({
            let product = (c * 0x2545_F491_4F6C_DD1D) % 0x1_0000_0000_0000_0000;
            draw_of(Some(clock)) * 0x800 <= product < (draw_of(Some(clock)) + 1) * 0x800
        }),
        draw_of(Some(clock)) < 0x20_0000_0000_0000,
        draw_of(Some(clock | 1)) == draw_of(Some(clock)),
        draw_of(None) == draw_of(Some(0x2545_F491_4F6C_DD1D)),
{
    let product = ((c * 0x2545_F491_4F6C_DD1D) % 0x1_0000_0000_0000_0000) as u64;
    assert((product >> 11) * 0x800 <= product < ((product >> 11) + 1) * 0x800 && product >> 11
        < 0x20_0000_0000_0000) by (bit_vector);
    assert((clock | 1) | 1 == clock | 1) by (bit_vector);
}

/// What a policy says is what its fields hold, durations in nanoseconds.
pub proof fn law_policies_say(policy: RetryPolicy)
    ensures
        policy@.max_retries == policy.max_retries,
        policy@.backoff_initial == nanos(policy.backoff_initial),
        policy@.backoff_max == nanos(policy.backoff_max),
        policy@.backoff_jitter == policy.backoff_jitter,
        policy@.respect_retry_after == policy.respect_retry_after,
        policy@.max_retry_after == nanos(policy.max_retry_after),
        policy@.retry_connection_errors == policy.retry_connection_errors,
        policy@.retry_timeout_errors == policy.retry_timeout_errors,
        policy@.retry_statuses == policy.retry_statuses@,
{
}

} // verus!
