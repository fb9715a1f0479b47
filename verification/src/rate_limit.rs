//! Rate limiting (token bucket), circuit breaking and retry policy.
//!
//! Time is a monotonic clock reading in milliseconds that the caller supplies.
use vstd::prelude::*;
use crate::text::{spec_contains_any, spec_str_contains, spec_to_lowercase, str_contains, to_lowercase};

verus! {

// ============================================================================
// Token bucket
// ============================================================================

/// Token bucket rate limiter. Tokens are held in thousandths so that refills over
/// whole milliseconds are exact.
#[derive(Debug)]
pub struct TokenBucket {
    tokens_milli: u128,
    capacity: u64,
    refill_rate: u64,
    last_refill_ms: u64,
}

/// Abstract state of a token bucket.
pub ghost struct TokenBucketView {
    /// Available tokens, in thousandths of a token.
    pub tokens_milli: nat,
    /// Capacity, in tokens.
    pub capacity: nat,
    /// Refill rate, in tokens per second.
    pub refill_rate: nat,
    /// Clock reading of the last refill, in milliseconds.
    pub last_refill_ms: nat,
}

impl View for TokenBucket {
    type V = TokenBucketView;

    closed spec fn view(&self) -> TokenBucketView {
        TokenBucketView {
            tokens_milli: self.tokens_milli as nat,
            capacity: self.capacity as nat,
            refill_rate: self.refill_rate as nat,
            last_refill_ms: self.last_refill_ms as nat,
        }
    }
}

/// The bucket after a refill at `now_ms`: tokens grow by the elapsed milliseconds times
/// the rate (thousandths), capped at the capacity; nothing changes when no time passed.
pub open spec fn spec_refill(b: TokenBucketView, now_ms: nat) -> TokenBucketView {
    if now_ms > b.last_refill_ms {
        let grown = b.tokens_milli + (now_ms - b.last_refill_ms) * b.refill_rate;
        let cap = b.capacity * 1000;
        TokenBucketView {
            tokens_milli: (if grown < cap { grown } else { cap as int }) as nat,
            last_refill_ms: now_ms,
            ..b
        }
    } else {
        b
    }
}

/// Outcome of asking for `count` tokens at `now_ms`: whether they were granted, and the
/// bucket afterwards (refilled, less the tokens granted).
pub open spec fn spec_try_consume(b: TokenBucketView, count: u64, now_ms: u64) -> (bool, TokenBucketView) {
    let r = spec_refill(b, now_ms as nat);
    if r.tokens_milli >= count * 1000 {
        (true, TokenBucketView { tokens_milli: (r.tokens_milli - count * 1000) as nat, ..r })
    } else {
        (false, r)
    }
}

/// A bucket holds at most its capacity: refilling and consuming keep the tokens
/// within the capacity.
pub proof fn lemma_bucket_within_capacity(b: TokenBucketView, count: u64, now_ms: u64)
    requires
        b.tokens_milli <= b.capacity * 1000,
    ensures
        spec_refill(b, now_ms as nat).tokens_milli <= b.capacity * 1000,
        spec_try_consume(b, count, now_ms).1.tokens_milli <= b.capacity * 1000,
        spec_try_consume(b, count, now_ms).1.capacity == b.capacity,
{
}

/// Refilling twice at the same instant adds nothing the second time.
pub proof fn lemma_refill_idempotent(b: TokenBucketView, now_ms: nat)
    ensures
        spec_refill(spec_refill(b, now_ms), now_ms) == spec_refill(b, now_ms),
{
}

/// Tokens granted are taken exactly: a granted request leaves the refilled tokens less
/// `count`, a refused one leaves the refilled bucket as it is.
pub proof fn lemma_consume_conserves_tokens(b: TokenBucketView, count: u64, now_ms: u64)
    ensures
        ({
            let (ok, after) = spec_try_consume(b, count, now_ms);
            let r = spec_refill(b, now_ms as nat);
            &&& ok ==> after.tokens_milli + count * 1000 == r.tokens_milli
            &&& !ok ==> after == r && r.tokens_milli < count * 1000
        }),
{
}

impl TokenBucket {
    /// The bucket never holds more than its capacity.
    pub closed spec fn wf(&self) -> bool {
        self.tokens_milli <= self.capacity * 1000
    }

    /// A full bucket of `capacity` tokens refilled at `refill_rate` tokens per second.
    pub fn new(capacity: u64, refill_rate: u64, now_ms: u64) -> (b: TokenBucket)
        ensures
            b.wf(),
            b@ == (TokenBucketView {
                tokens_milli: capacity as nat * 1000,
                capacity: capacity as nat,
                refill_rate: refill_rate as nat,
                last_refill_ms: now_ms as nat,
            }),
    {
        TokenBucket { tokens_milli: (capacity as u128) * 1000, capacity, refill_rate, last_refill_ms: now_ms }
    }

    /// Adds the tokens earned since the last refill, up to the capacity.
    fn refill(&mut self, now_ms: u64)
        requires
            old(self).wf(),
        ensures
            final(self).wf(),
            final(self)@ == spec_refill(old(self)@, now_ms as nat),
    {
        if now_ms > self.last_refill_ms {
            let elapsed = now_ms - self.last_refill_ms;
            let cap: u128 = (self.capacity as u128) * 1000;
            proof {
                vstd::arithmetic::mul::lemma_mul_upper_bound(
                    elapsed as int, u64::MAX as int, self.refill_rate as int, u64::MAX as int);
            }
            let earned: u128 = (elapsed as u128) * (self.refill_rate as u128);
            self.tokens_milli = if earned < cap - self.tokens_milli { self.tokens_milli + earned } else { cap };
            self.last_refill_ms = now_ms;
        }
    }

    /// Refills, then takes `count` tokens if that many are available.
    /// Returns whether the tokens were taken.
    pub fn try_consume(&mut self, count: u64, now_ms: u64) -> (ok: bool)
        requires
            old(self).wf(),
        ensures
            final(self).wf(),
            (ok, final(self)@) == spec_try_consume(old(self)@, count, now_ms),
            final(self)@.tokens_milli <= final(self)@.capacity * 1000,
    {
        self.refill(now_ms);
        let need: u128 = (count as u128) * 1000;
        if self.tokens_milli >= need {
            self.tokens_milli = self.tokens_milli - need;
            true
        } else {
            false
        }
    }

    /// A limiter of `rps` requests per second (a full bucket of `rps` tokens refilled at
    /// `rps` tokens per second), or none when `rps` is zero.
    pub fn for_rate(rps: u64, now_ms: u64) -> (b: Option<TokenBucket>)
        ensures
            rps == 0 ==> b is None,
            rps > 0 ==> (b matches Some(t) && t.wf() && t@ == (TokenBucketView {
                tokens_milli: rps as nat * 1000,
                capacity: rps as nat,
                refill_rate: rps as nat,
                last_refill_ms: now_ms as nat,
            })),
    {
        if rps > 0 { Some(TokenBucket::new(rps, rps, now_ms)) } else { None }
    }

    /// Available tokens, in thousandths of a token.
    pub fn available_milli(&self) -> (t: u128)
        ensures
            t == self@.tokens_milli,
    {
        self.tokens_milli
    }
}

// ============================================================================
// Circuit breaker
// ============================================================================

/// Circuit breaker state for an RPC endpoint.
#[derive(Debug, Clone, Copy, PartialEq, Eq, Structural)]
pub enum CircuitState {
    /// Normal operation.
    Closed,
    /// Endpoint disabled.
    Open,
    /// Testing whether the endpoint recovered.
    HalfOpen,
}

/// Circuit breaker status of one endpoint, for monitoring.
#[derive(Debug, Clone)]
pub struct CircuitBreakerStatus {
    pub endpoint: String,
    pub state: CircuitState,
    pub failure_count: u32,
}

/// Circuit breaker for one RPC endpoint.
#[derive(Debug)]
pub struct CircuitBreaker {
    state: CircuitState,
    failure_count: u32,
    failure_threshold: u32,
    last_failure_ms: Option<u64>,
    timeout_ms: u64,
    half_open_success_threshold: u32,
    half_open_successes: u32,
}

/// Abstract state of a circuit breaker.
pub ghost struct BreakerView {
    pub state: CircuitState,
    pub failure_count: u32,
    pub failure_threshold: u32,
    pub last_failure_ms: Option<u64>,
    pub timeout_ms: u64,
    pub half_open_success_threshold: u32,
    pub half_open_successes: u32,
}

impl View for CircuitBreaker {
    type V = BreakerView;

    closed spec fn view(&self) -> BreakerView {
        BreakerView {
            state: self.state,
            failure_count: self.failure_count,
            failure_threshold: self.failure_threshold,
            last_failure_ms: self.last_failure_ms,
            timeout_ms: self.timeout_ms,
            half_open_success_threshold: self.half_open_success_threshold,
            half_open_successes: self.half_open_successes,
        }
    }
}

/// Has the open-circuit timeout elapsed at `now_ms`?
pub open spec fn timeout_elapsed(b: BreakerView, now_ms: u64) -> bool {
    match b.last_failure_ms {
        Some(t) => now_ms >= t && now_ms - t >= b.timeout_ms,
        None => false,
    }
}

/// Outcome of asking permission at `now_ms`: whether the call may go ahead, and the new state.
pub open spec fn spec_can_execute(b: BreakerView, now_ms: u64) -> (bool, BreakerView) {
    match b.state {
        CircuitState::Closed => (true, b),
        CircuitState::HalfOpen => (true, b),
        CircuitState::Open => if timeout_elapsed(b, now_ms) {
            (true, BreakerView { state: CircuitState::HalfOpen, half_open_successes: 0, ..b })
        } else {
            (false, b)
        },
    }
}

/// State after a successful call.
pub open spec fn spec_record_success(b: BreakerView) -> BreakerView {
    match b.state {
        CircuitState::HalfOpen => {
            let successes = (b.half_open_successes + 1) as u32;
            let successes = if b.half_open_successes == u32::MAX { 0u32 } else { successes };
            if successes >= b.half_open_success_threshold {
                BreakerView { state: CircuitState::Closed, failure_count: 0, half_open_successes: successes, ..b }
            } else {
                BreakerView { half_open_successes: successes, ..b }
            }
        },
        CircuitState::Closed => BreakerView { failure_count: 0, ..b },
        CircuitState::Open => b,
    }
}

/// State after a failed call at `now_ms` (the failure counter wraps around at `u32::MAX`).
pub open spec fn spec_record_failure(b: BreakerView, now_ms: u64) -> BreakerView {
    let failures = if b.failure_count == u32::MAX { 0u32 } else { (b.failure_count + 1) as u32 };
    BreakerView {
        failure_count: failures,
        last_failure_ms: Some(now_ms),
        state: if failures >= b.failure_threshold { CircuitState::Open } else { b.state },
        ..b
    }
}

/// State after opening the circuit by hand at `now_ms`.
pub open spec fn spec_force_open(b: BreakerView, now_ms: u64) -> BreakerView {
    BreakerView { state: CircuitState::Open, last_failure_ms: Some(now_ms), ..b }
}

/// State after closing the circuit by hand.
pub open spec fn spec_force_reset(b: BreakerView) -> BreakerView {
    BreakerView { state: CircuitState::Closed, failure_count: 0, half_open_successes: 0, ..b }
}

/// State after failed calls at each of the clock readings in `times`, in order.
pub open spec fn spec_record_failures(b: BreakerView, times: Seq<u64>) -> BreakerView
    decreases times.len(),
{
    if times.len() == 0 {
        b
    } else {
        spec_record_failure(spec_record_failures(b, times.drop_last()), times.last())
    }
}

/// State after `n` successful calls.
pub open spec fn spec_record_successes(b: BreakerView, n: nat) -> BreakerView
    decreases n,
{
    if n == 0 {
        b
    } else {
        spec_record_success(spec_record_successes(b, (n - 1) as nat))
    }
}

proof fn lemma_failures_count(b: BreakerView, times: Seq<u64>)
    requires
        b.failure_count + times.len() <= u32::MAX,
    ensures
        spec_record_failures(b, times).failure_count == b.failure_count + times.len(),
        spec_record_failures(b, times).failure_threshold == b.failure_threshold,
        spec_record_failures(b, times).timeout_ms == b.timeout_ms,
    decreases times.len(),
{
    if times.len() > 0 {
        lemma_failures_count(b, times.drop_last());
    }
}

/// A request is refused only by an open circuit whose timeout has not elapsed, and a
/// refused request changes nothing; a closed or half-open circuit lets every request through.
pub proof fn lemma_breaker_permission(b: BreakerView, now_ms: u64)
    ensures
        spec_can_execute(b, now_ms).0 == (b.state != CircuitState::Open || timeout_elapsed(b, now_ms)),
        !spec_can_execute(b, now_ms).0 ==> spec_can_execute(b, now_ms).1 == b,
        b.state != CircuitState::Open ==> spec_can_execute(b, now_ms).1 == b,
{
}

/// Failures open the circuit: once the consecutive failures reach the threshold the
/// breaker is open, and it refuses every request until `timeout_ms` has passed since
/// the last failure.
pub proof fn lemma_failures_open_circuit(b: BreakerView, times: Seq<u64>, now_ms: u64)
    requires
        times.len() > 0,
        b.failure_count + times.len() >= b.failure_threshold,
        b.failure_count + times.len() <= u32::MAX,
        times.last() <= now_ms,
        now_ms - times.last() < b.timeout_ms,
    ensures
        spec_record_failures(b, times).state == CircuitState::Open,
        spec_record_failures(b, times).failure_count == b.failure_count + times.len(),
        !spec_can_execute(spec_record_failures(b, times), now_ms).0,
{
    lemma_failures_count(b, times.drop_last());
}

/// After the timeout an open circuit lets one request through and turns half-open.
pub proof fn lemma_open_circuit_probes_after_timeout(b: BreakerView, now_ms: u64)
    requires
        b.state == CircuitState::Open,
        b.last_failure_ms is Some,
        b.last_failure_ms->0 <= now_ms,
        now_ms - b.last_failure_ms->0 >= b.timeout_ms,
    ensures
        spec_can_execute(b, now_ms).0,
        spec_can_execute(b, now_ms).1.state == CircuitState::HalfOpen,
        spec_can_execute(b, now_ms).1.half_open_successes == 0,
{
}

proof fn lemma_half_open_successes(b: BreakerView, k: nat)
    requires
        b.state == CircuitState::HalfOpen,
        b.half_open_successes == 0,
        b.half_open_success_threshold >= 1,
        k <= b.half_open_success_threshold,
    ensures
        k < b.half_open_success_threshold ==> spec_record_successes(b, k).state == CircuitState::HalfOpen
            && spec_record_successes(b, k).half_open_successes == k,
        k == b.half_open_success_threshold ==> spec_record_successes(b, k).state == CircuitState::Closed
            && spec_record_successes(b, k).failure_count == 0,
        spec_record_successes(b, k).half_open_success_threshold == b.half_open_success_threshold,
    decreases k,
{
    if k > 0 {
        lemma_half_open_successes(b, (k - 1) as nat);
    }
}

/// A half-open circuit stays half-open until `half_open_success_threshold` calls in a
/// row have succeeded; then it closes and its failure count is cleared.
pub proof fn lemma_half_open_recovers(b: BreakerView, k: nat)
    requires
        b.state == CircuitState::HalfOpen,
        b.half_open_successes == 0,
        b.half_open_success_threshold >= 1,
        k <= b.half_open_success_threshold,
    ensures
        k < b.half_open_success_threshold ==> spec_record_successes(b, k).state == CircuitState::HalfOpen,
        k == b.half_open_success_threshold ==> spec_record_successes(b, k).state == CircuitState::Closed
            && spec_record_successes(b, k).failure_count == 0,
{
    lemma_half_open_successes(b, k);
}

/// Asking permission never touches the failure record: the failure count, the last
/// failure time, the threshold and the timeout are the same afterwards, and an open
/// circuit that lets a probe through becomes half-open with no half-open successes.
pub proof fn lemma_permission_keeps_failures(b: BreakerView, now_ms: u64)
    ensures
        spec_can_execute(b, now_ms).1.failure_count == b.failure_count,
        spec_can_execute(b, now_ms).1.last_failure_ms == b.last_failure_ms,
        spec_can_execute(b, now_ms).1.failure_threshold == b.failure_threshold,
        spec_can_execute(b, now_ms).1.timeout_ms == b.timeout_ms,
        spec_can_execute(b, now_ms).1.half_open_success_threshold == b.half_open_success_threshold,
        b.state == CircuitState::Open && spec_can_execute(b, now_ms).0 ==> spec_can_execute(b, now_ms).1.state
            == CircuitState::HalfOpen && spec_can_execute(b, now_ms).1.half_open_successes == 0,
{
}

/// Every failure is counted: the count goes up by one (wrapping at `u32::MAX`), the
/// failure time is recorded, and the circuit is open exactly when the new count reaches
/// the threshold (otherwise its state is unchanged).
pub proof fn lemma_failure_counted(b: BreakerView, now_ms: u64)
    ensures
        b.failure_count < u32::MAX ==> spec_record_failure(b, now_ms).failure_count == b.failure_count + 1,
        b.failure_count == u32::MAX ==> spec_record_failure(b, now_ms).failure_count == 0,
        spec_record_failure(b, now_ms).last_failure_ms == Some(now_ms),
        spec_record_failure(b, now_ms).failure_count >= b.failure_threshold
            ==> spec_record_failure(b, now_ms).state == CircuitState::Open,
        spec_record_failure(b, now_ms).failure_count < b.failure_threshold
            ==> spec_record_failure(b, now_ms).state == b.state,
        spec_record_failure(b, now_ms).failure_threshold == b.failure_threshold,
        spec_record_failure(b, now_ms).timeout_ms == b.timeout_ms,
{
}

/// A failed probe re-opens the circuit: from an open breaker whose failures reached the
/// threshold, a probe let through after the timeout followed by one failure at `fail_ms`
/// leaves the breaker open with one failure more, refusing every request until
/// `timeout_ms` has passed since `fail_ms`.
pub proof fn lemma_failed_probe_reopens(b: BreakerView, probe_ms: u64, fail_ms: u64, later_ms: u64)
    requires
        b.state == CircuitState::Open,
        b.failure_count >= b.failure_threshold,
        b.failure_count < u32::MAX,
        spec_can_execute(b, probe_ms).0,
        fail_ms <= later_ms,
        later_ms - fail_ms < b.timeout_ms,
    ensures
        spec_can_execute(b, probe_ms).1.state == CircuitState::HalfOpen,
        spec_record_failure(spec_can_execute(b, probe_ms).1, fail_ms).state == CircuitState::Open,
        spec_record_failure(spec_can_execute(b, probe_ms).1, fail_ms).failure_count == b.failure_count + 1,
        !spec_can_execute(spec_record_failure(spec_can_execute(b, probe_ms).1, fail_ms), later_ms).0,
{
    lemma_permission_keeps_failures(b, probe_ms);
    lemma_failure_counted(spec_can_execute(b, probe_ms).1, fail_ms);
}

/// A circuit reset by hand lets requests through at once; one opened by hand refuses
/// them until its timeout has passed.
pub proof fn lemma_forced_states(b: BreakerView, at_ms: u64, now_ms: u64)
    requires
        at_ms <= now_ms,
    ensures
        spec_can_execute(spec_force_reset(b), now_ms) == (true, spec_force_reset(b)),
        spec_can_execute(spec_force_open(b, at_ms), now_ms).0 == (now_ms - at_ms >= b.timeout_ms),
{
}

impl CircuitBreaker {
    /// A closed breaker that opens after `failure_threshold` failures and probes again
    /// `timeout_ms` milliseconds after the last failure; two successes close it.
    pub fn new(failure_threshold: u32, timeout_ms: u64) -> (cb: CircuitBreaker)
        ensures
            cb@ == (BreakerView {
                state: CircuitState::Closed,
                failure_count: 0,
                failure_threshold,
                last_failure_ms: None,
                timeout_ms,
                half_open_success_threshold: 2,
                half_open_successes: 0,
            }),
    {
        CircuitBreaker {
            state: CircuitState::Closed,
            failure_count: 0,
            failure_threshold,
            last_failure_ms: None,
            timeout_ms,
            half_open_success_threshold: 2,
            half_open_successes: 0,
        }
    }

    /// Is a request allowed at `now_ms`? An open breaker whose timeout has elapsed moves
    /// to half-open and allows it.
    pub fn can_execute(&mut self, now_ms: u64) -> (ok: bool)
        ensures
            (ok, final(self)@) == spec_can_execute(old(self)@, now_ms),
    {
        match self.state {
            CircuitState::Closed => true,
            CircuitState::Open => {
                match self.last_failure_ms {
                    Some(last) => {
                        if now_ms >= last && now_ms - last >= self.timeout_ms {
                            self.state = CircuitState::HalfOpen;
                            self.half_open_successes = 0;
                            true
                        } else {
                            false
                        }
                    },
                    None => false,
                }
            },
            CircuitState::HalfOpen => true,
        }
    }

    /// Records a successful call.
    pub fn record_success(&mut self)
        ensures
            final(self)@ == spec_record_success(old(self)@),
    {
        match self.state {
            CircuitState::HalfOpen => {
                let successes = self.half_open_successes.wrapping_add(1);
                self.half_open_successes = successes;
                if successes >= self.half_open_success_threshold {
                    self.state = CircuitState::Closed;
                    self.failure_count = 0;
                }
            },
            CircuitState::Closed => {
                self.failure_count = 0;
            },
            CircuitState::Open => {},
        }
    }

    /// Records a failed call at `now_ms`; the breaker opens once the failures reach the threshold.
    pub fn record_failure(&mut self, now_ms: u64)
        ensures
            final(self)@ == spec_record_failure(old(self)@, now_ms),
    {
        let failures = self.failure_count.wrapping_add(1);
        self.failure_count = failures;
        self.last_failure_ms = Some(now_ms);
        if failures >= self.failure_threshold {
            self.state = CircuitState::Open;
        }
    }

    /// Current state, for monitoring.
    pub fn get_state(&self) -> (s: CircuitState)
        ensures
            s == self@.state,
    {
        self.state
    }

    /// Failure count, for telemetry.
    pub fn get_failure_count(&self) -> (n: u32)
        ensures
            n == self@.failure_count,
    {
        self.failure_count
    }

    /// Opens the circuit by hand at `now_ms`.
    pub fn force_open(&mut self, now_ms: u64)
        ensures
            final(self)@ == spec_force_open(old(self)@, now_ms),
    {
        self.state = CircuitState::Open;
        self.last_failure_ms = Some(now_ms);
    }

    /// Closes the circuit by hand and clears its counters.
    pub fn force_reset(&mut self)
        ensures
            final(self)@ == spec_force_reset(old(self)@),
    {
        self.state = CircuitState::Closed;
        self.failure_count = 0;
        self.half_open_successes = 0;
    }
}

// ============================================================================
// Retry policy
// ============================================================================

/// Retry policy: attempts, and an exponential backoff whose multiplier is given in
/// thousandths (`2000` doubles the delay at each attempt).
#[derive(Debug, Clone)]
pub struct RetryPolicy {
    pub max_attempts: usize,
    pub initial_delay_ms: u64,
    pub max_delay_ms: u64,
    pub backoff_multiplier_permille: u64,
}

/// Error texts (lowercase) that mark a failure as transient.
pub open spec fn retryable_patterns() -> Seq<Seq<char>> {
    seq!["timeout"@, "connection"@, "network"@, "temporarily unavailable"@, "too many requests"@,
        "rate limit"@, "503"@, "502"@, "504"@]
}

/// Fixed-point scale of the backoff: the uncapped delay is carried in billionths of a
/// millisecond, so that a run of fractional factors is rounded once, at the end, rather
/// than at every attempt.
pub const DELAY_SCALE: u128 = 1_000_000_000;

/// Uncapped backoff before retry number `attempt`, in billionths of a millisecond: the
/// initial delay multiplied by the factor once per attempt (each product rounded down to
/// a billionth of a millisecond; exact for the first three attempts whatever the factor).
pub open spec fn spec_scaled_backoff(p: RetryPolicy, attempt: nat) -> int
    decreases attempt,
{
    if attempt == 0 {
        p.initial_delay_ms as int * DELAY_SCALE as int
    } else {
        (spec_scaled_backoff(p, (attempt - 1) as nat) * p.backoff_multiplier_permille as int) / 1000
    }
}

/// Uncapped backoff before retry number `attempt`, in whole milliseconds (rounded down).
pub open spec fn spec_raw_delay(p: RetryPolicy, attempt: nat) -> int {
    spec_scaled_backoff(p, attempt) / DELAY_SCALE as int
}

/// Delay before retry number `attempt`: the uncapped backoff, capped at the maximum delay.
pub open spec fn spec_delay(p: RetryPolicy, attempt: nat) -> u64 {
    let raw = spec_raw_delay(p, attempt);
    if raw < p.max_delay_ms as int { raw as u64 } else { p.max_delay_ms }
}

proof fn lemma_scaled_nonneg(p: RetryPolicy, n: nat)
    ensures
        spec_scaled_backoff(p, n) >= 0,
    decreases n,
{
    if n > 0 {
        lemma_scaled_nonneg(p, (n - 1) as nat);
        let prev = spec_scaled_backoff(p, (n - 1) as nat);
        assert(prev * p.backoff_multiplier_permille as int >= 0) by (nonlinear_arith)
            requires prev >= 0;
    } else {
        assert(p.initial_delay_ms as int * DELAY_SCALE as int >= 0) by (nonlinear_arith);
    }
}

/// With a factor of at least one the backoff never shrinks.
proof fn lemma_scaled_grows(p: RetryPolicy, i: nat, n: nat)
    requires
        i <= n,
        p.backoff_multiplier_permille >= 1000,
    ensures
        spec_scaled_backoff(p, i) <= spec_scaled_backoff(p, n),
    decreases n - i,
{
    if i < n {
        lemma_scaled_grows(p, i, (n - 1) as nat);
        lemma_scaled_nonneg(p, (n - 1) as nat);
        let prev = spec_scaled_backoff(p, (n - 1) as nat);
        let m = p.backoff_multiplier_permille as int;
        assert((prev * m) / 1000 >= prev) by (nonlinear_arith)
            requires prev >= 0, m >= 1000;
    }
}

/// With a factor of exactly one, or once the backoff has reached zero, it stays put.
proof fn lemma_scaled_stays(p: RetryPolicy, i: nat, n: nat)
    requires
        i <= n,
        p.backoff_multiplier_permille == 1000 || spec_scaled_backoff(p, i) == 0,
    ensures
        spec_scaled_backoff(p, n) == spec_scaled_backoff(p, i),
    decreases n - i,
{
    if i < n {
        lemma_scaled_stays(p, i, (n - 1) as nat);
        let prev = spec_scaled_backoff(p, (n - 1) as nat);
        let m = p.backoff_multiplier_permille as int;
        assert((prev * m) / 1000 == prev) by (nonlinear_arith)
            requires m == 1000 || prev == 0;
    }
}

/// With a factor of at least one the whole-millisecond backoff never shrinks.
proof fn lemma_raw_delay_grows(p: RetryPolicy, i: nat, n: nat)
    requires
        i <= n,
        p.backoff_multiplier_permille >= 1000,
    ensures
        spec_raw_delay(p, i) <= spec_raw_delay(p, n),
{
    lemma_scaled_grows(p, i, n);
    lemma_scaled_nonneg(p, i);
    let a = spec_scaled_backoff(p, i);
    let b = spec_scaled_backoff(p, n);
    assert(a / 1_000_000_000 <= b / 1_000_000_000) by (nonlinear_arith)
        requires 0 <= a <= b;
}

/// With a factor of at least one, later retries never wait less than earlier ones.
pub proof fn lemma_delay_never_shrinks(p: RetryPolicy, i: nat, n: nat)
    requires
        i <= n,
        p.backoff_multiplier_permille >= 1000,
    ensures
        spec_delay(p, i) <= spec_delay(p, n),
{
    lemma_raw_delay_grows(p, i, n);
    lemma_scaled_nonneg(p, i);
    let a = spec_scaled_backoff(p, i);
    assert(a / 1_000_000_000 >= 0) by (nonlinear_arith)
        requires a >= 0;
}

/// Exactly the texts that contain one of the named markers of a transient failure are
/// retryable: a timeout, a connection or network failure, a temporarily unavailable
/// service, too many requests or a rate limit, and HTTP 503, 502 or 504.
pub proof fn lemma_retryable_markers(text: Seq<char>)
    ensures
        spec_str_contains(text, "timeout"@) ==> spec_contains_any(text, retryable_patterns()),
        spec_str_contains(text, "connection"@) ==> spec_contains_any(text, retryable_patterns()),
        spec_str_contains(text, "network"@) ==> spec_contains_any(text, retryable_patterns()),
        spec_str_contains(text, "temporarily unavailable"@) ==> spec_contains_any(text, retryable_patterns()),
        spec_str_contains(text, "too many requests"@) ==> spec_contains_any(text, retryable_patterns()),
        spec_str_contains(text, "rate limit"@) ==> spec_contains_any(text, retryable_patterns()),
        spec_str_contains(text, "503"@) ==> spec_contains_any(text, retryable_patterns()),
        spec_str_contains(text, "502"@) ==> spec_contains_any(text, retryable_patterns()),
        spec_str_contains(text, "504"@) ==> spec_contains_any(text, retryable_patterns()),
        spec_contains_any(text, retryable_patterns()) ==> {
            ||| spec_str_contains(text, "timeout"@)
            ||| spec_str_contains(text, "connection"@)
            ||| spec_str_contains(text, "network"@)
            ||| spec_str_contains(text, "temporarily unavailable"@)
            ||| spec_str_contains(text, "too many requests"@)
            ||| spec_str_contains(text, "rate limit"@)
            ||| spec_str_contains(text, "503"@)
            ||| spec_str_contains(text, "502"@)
            ||| spec_str_contains(text, "504"@)
        },
{
    let pats = retryable_patterns();
    assert(pats[0] == "timeout"@);
    assert(pats[1] == "connection"@);
    assert(pats[2] == "network"@);
    assert(pats[3] == "temporarily unavailable"@);
    assert(pats[4] == "too many requests"@);
    assert(pats[5] == "rate limit"@);
    assert(pats[6] == "503"@);
    assert(pats[7] == "502"@);
    assert(pats[8] == "504"@);
    if spec_contains_any(text, pats) {
        let k = choose|k: int| 0 <= k < pats.len() && #[trigger] spec_str_contains(text, pats[k]);
        assert(0 <= k < 9);
    }
}

/// Does the (lowercase) error text contain one of the retryable patterns?
pub fn contains_retryable_pattern(text: &str) -> (r: bool)
    ensures
        r == spec_contains_any(text@, retryable_patterns()),
{
    let patterns: [&str; 9] = ["timeout", "connection", "network", "temporarily unavailable",
        "too many requests", "rate limit", "503", "502", "504"];
    let ghost pats = retryable_patterns();
    assert(pats.len() == 9);
    let mut k: usize = 0;
    while k < 9
        invariant
            0 <= k <= 9,
            pats == retryable_patterns(),
            pats.len() == 9,
            forall|j: int| 0 <= j < 9 ==> #[trigger] patterns@[j]@ == pats[j],
            forall|j: int| 0 <= j < k ==> !spec_str_contains(text@, #[trigger] pats[j]),
        decreases 9 - k,
    {
        if str_contains(text, patterns[k]) {
            assert(spec_str_contains(text@, pats[k as int]));
            assert(spec_contains_any(text@, pats));
            return true;
        }
        k += 1;
    }
    false
}

impl Default for RetryPolicy {
    fn default() -> (p: Self)
        ensures
            p.max_attempts == 3,
            p.initial_delay_ms == 50,
            p.max_delay_ms == 2000,
            p.backoff_multiplier_permille == 2000,
    {
        RetryPolicy { max_attempts: 3, initial_delay_ms: 50, max_delay_ms: 2000, backoff_multiplier_permille: 2000 }
    }
}

impl RetryPolicy {
    /// Is the error transient? True when its lowercase text contains one of the
    /// retryable patterns (timeouts, connection and network failures, rate limits,
    /// HTTP 502/503/504).
    pub fn is_retryable(&self, error: &str) -> (r: bool)
        ensures
            r == spec_contains_any(spec_to_lowercase(error@), retryable_patterns()),
    {
        let error_lower = to_lowercase(error);
        contains_retryable_pattern(error_lower.as_str())
    }

    /// Delay in milliseconds before retry number `attempt`: the initial delay times the
    /// factor raised to `attempt`, rounded down to whole milliseconds and capped at the
    /// maximum delay.
    pub fn delay_for_attempt(&self, attempt: usize) -> (d: u64)
        ensures
            d == spec_delay(*self, attempt as nat),
            d <= self.max_delay_ms,
    {
        let m = self.backoff_multiplier_permille;
        let max = self.max_delay_ms;
        let cap: u128 = (max as u128) * DELAY_SCALE;
        let start: u128 = (self.initial_delay_ms as u128) * DELAY_SCALE;
        let mut v: u128 = start;
        let mut i: usize = 0;
        while i < attempt
            invariant
                0 <= i <= attempt,
                m == self.backoff_multiplier_permille,
                max == self.max_delay_ms,
                cap == max as int * DELAY_SCALE as int,
                start == self.initial_delay_ms as int * DELAY_SCALE as int,
                v as int == spec_scaled_backoff(*self, i as nat),
                m < 1000 ==> v <= start,
            decreases attempt - i,
        {
            if m >= 1000 && v >= cap {
                proof { self.lemma_capped_from(i as nat, attempt as nat, v as int); }
                return max;
            }
            if m == 1000 || v == 0 {
                proof { lemma_scaled_stays(*self, i as nat, attempt as nat); }
                i = attempt;
            } else {
                match v.checked_mul(m as u128) {
                    Some(prod) => {
                        let next: u128 = prod / 1000;
                        assert(next as int == spec_scaled_backoff(*self, (i + 1) as nat));
                        if m < 1000 {
                            assert(next <= v) by (nonlinear_arith)
                                requires next == (v as int * m as int) / 1000, m < 1000;
                        }
                        v = next;
                        i += 1;
                    },
                    None => {
                        // Past the range of `u128` the delay is far beyond any cap.
                        assert(m >= 1000) by (nonlinear_arith)
                            requires start <= 0xffff_ffff_ffff_ffffu64 as int * 1_000_000_000,
                                v as int * m as int > u128::MAX, m < 1000 ==> v <= start;
                        let ghost next = spec_scaled_backoff(*self, (i + 1) as nat);
                        assert(next >= cap) by (nonlinear_arith)
                            requires next == (v as int * m as int) / 1000, v as int * m as int > u128::MAX,
                                cap <= 0xffff_ffff_ffff_ffffu64 as int * 1_000_000_000;
                        proof { self.lemma_capped_from((i + 1) as nat, attempt as nat, next); }
                        return max;
                    },
                }
            }
        }
        let raw: u128 = v / DELAY_SCALE;
        if raw < max as u128 { raw as u64 } else { max }
    }

    /// Once the backoff has reached the cap under a factor of at least one, every later
    /// delay is the cap.
    proof fn lemma_capped_from(&self, i: nat, n: nat, v: int)
        requires
            i <= n,
            self.backoff_multiplier_permille >= 1000,
            v == spec_scaled_backoff(*self, i),
            v >= self.max_delay_ms as int * DELAY_SCALE as int,
        ensures
            spec_delay(*self, n) == self.max_delay_ms,
    {
        lemma_scaled_grows(*self, i, n);
        let b = spec_scaled_backoff(*self, n);
        let c = self.max_delay_ms as int;
        assert(b / 1_000_000_000 >= c) by (nonlinear_arith)
            requires b >= c * 1_000_000_000, c >= 0;
    }
}

} // verus!
