//! The builder's state and decisions: endpoint rotation, circuit breakers, blockhash
//! fetching, nonce or blockhash execution contexts, telemetry, and the checks made
//! before a transaction is built.
use vstd::prelude::*;
use vstd::string::StringExecFns;
use vstd::wrapping::u64_specs;
use crate::blockhash::{best_slot_validated, spec_cache_insert, survives_prune, youngest_time_valid, BlockhashCache};
use crate::config::TransactionConfig;
use crate::errors::{NonceError, TransactionBuilderError};
use crate::rate_limit::{
    BreakerView, CircuitBreaker, CircuitBreakerStatus, CircuitState, RetryPolicy, spec_can_execute,
    spec_delay, spec_record_failure, spec_record_success, retryable_patterns,
};
use crate::simulation::SimulationCache;
use crate::solana::{HashBytes, Pubkey};
use crate::text::{spec_contains_any, spec_to_lowercase};
use crate::types::{ExecutionContext, OperationPriority, TxBuilderMetrics};

verus! {

// ============================================================================
// Execution context decisions
// ============================================================================

/// What to do to obtain an execution context.
#[derive(Debug, Clone, Copy, PartialEq, Eq, Structural)]
pub enum ContextStep {
    /// Use a recent blockhash.
    FetchBlockhash,
    /// Acquire a durable nonce lease.
    AcquireNonce,
}

/// First step for an operation of this priority: critical sniper operations acquire a
/// nonce, the others use a recent blockhash.
pub fn execution_plan(priority: OperationPriority) -> (s: ContextStep)
    ensures
        s == (if priority == OperationPriority::CriticalSniper { ContextStep::AcquireNonce } else { ContextStep::FetchBlockhash }),
{
    if priority.requires_nonce() { ContextStep::AcquireNonce } else { ContextStep::FetchBlockhash }
}

/// First step when nonce use is forced on or off.
pub fn enforcement_plan(enforce_nonce: bool) -> (s: ContextStep)
    ensures
        s == (if enforce_nonce { ContextStep::AcquireNonce } else { ContextStep::FetchBlockhash }),
{
    if enforce_nonce { ContextStep::AcquireNonce } else { ContextStep::FetchBlockhash }
}

impl<L> ExecutionContext<L> {
    /// A context using a recent blockhash, with no nonce.
    pub fn with_blockhash(blockhash: HashBytes) -> (c: ExecutionContext<L>)
        ensures
            c.blockhash == blockhash,
            c.nonce_pubkey is None,
            c.nonce_authority is None,
            c.nonce_lease is None,
    {
        ExecutionContext { blockhash, nonce_pubkey: None, nonce_authority: None, nonce_lease: None }
    }

    /// A durable-nonce context: the nonce's blockhash, its account, the wallet as
    /// authority, and the lease.
    pub fn with_nonce(blockhash: HashBytes, nonce_pubkey: Pubkey, authority: Pubkey, lease: L) -> (c: ExecutionContext<L>)
        ensures
            c.blockhash == blockhash,
            c.nonce_pubkey == Some(nonce_pubkey),
            c.nonce_authority == Some(authority),
            c.nonce_lease == Some(lease),
    {
        ExecutionContext { blockhash, nonce_pubkey: Some(nonce_pubkey), nonce_authority: Some(authority), nonce_lease: Some(lease) }
    }
}

// ============================================================================
// Telemetry counters
// ============================================================================

/// Operation counters of the builder (each wraps around at `u64::MAX`).
#[derive(Debug, Clone, Copy, PartialEq, Eq)]
pub struct Counters {
    pub tx_counter: u64,
    pub nonce_acquire_count: u64,
    pub nonce_exhausted_count: u64,
    pub blockhash_quorum_success_count: u64,
    pub blockhash_fallback_count: u64,
}

impl Counters {
    /// All counters at zero.
    pub fn new() -> (c: Counters)
        ensures
            c == (Counters { tx_counter: 0, nonce_acquire_count: 0, nonce_exhausted_count: 0,
                blockhash_quorum_success_count: 0, blockhash_fallback_count: 0 }),
    {
        Counters { tx_counter: 0, nonce_acquire_count: 0, nonce_exhausted_count: 0,
            blockhash_quorum_success_count: 0, blockhash_fallback_count: 0 }
    }

    /// Counts a built transaction; returns the count before this one.
    pub fn next_transaction(&mut self) -> (previous: u64)
        ensures
            previous == old(self).tx_counter,
            *final(self) == (Counters { tx_counter: u64_specs::wrapping_add(old(self).tx_counter, 1), ..*old(self) }),
    {
        let previous = self.tx_counter;
        self.tx_counter = self.tx_counter.wrapping_add(1);
        previous
    }

    /// Counts an acquired nonce lease.
    pub fn nonce_acquired(&mut self)
        ensures
            *final(self) == (Counters { nonce_acquire_count: u64_specs::wrapping_add(old(self).nonce_acquire_count, 1), ..*old(self) }),
    {
        self.nonce_acquire_count = self.nonce_acquire_count.wrapping_add(1);
    }

    /// Counts an exhausted nonce pool. With fallback allowed, the fallback is counted
    /// too and the next step is a recent blockhash; without, there is no lease.
    pub fn nonce_unavailable(&mut self, allow_fallback: bool) -> (r: Result<ContextStep, TransactionBuilderError>)
        ensures
            final(self).nonce_exhausted_count == u64_specs::wrapping_add(old(self).nonce_exhausted_count, 1),
            final(self).blockhash_fallback_count == (if allow_fallback {
                u64_specs::wrapping_add(old(self).blockhash_fallback_count, 1)
            } else {
                old(self).blockhash_fallback_count
            }),
            final(self).tx_counter == old(self).tx_counter,
            final(self).nonce_acquire_count == old(self).nonce_acquire_count,
            final(self).blockhash_quorum_success_count == old(self).blockhash_quorum_success_count,
            allow_fallback ==> r == Ok::<ContextStep, TransactionBuilderError>(ContextStep::FetchBlockhash),
            !allow_fallback ==> r matches Err(TransactionBuilderError::Nonce(NonceError::NoLeaseAvailable)),
    {
        self.nonce_exhausted_count = self.nonce_exhausted_count.wrapping_add(1);
        if allow_fallback {
            self.blockhash_fallback_count = self.blockhash_fallback_count.wrapping_add(1);
            Ok(ContextStep::FetchBlockhash)
        } else {
            Err(TransactionBuilderError::Nonce(NonceError::NoLeaseAvailable))
        }
    }

    /// Counts a blockhash fallback.
    pub fn blockhash_fallback(&mut self)
        ensures
            *final(self) == (Counters { blockhash_fallback_count: u64_specs::wrapping_add(old(self).blockhash_fallback_count, 1), ..*old(self) }),
    {
        self.blockhash_fallback_count = self.blockhash_fallback_count.wrapping_add(1);
    }

    /// Counts a blockhash agreed by quorum.
    pub fn quorum_success(&mut self)
        ensures
            *final(self) == (Counters { blockhash_quorum_success_count: u64_specs::wrapping_add(old(self).blockhash_quorum_success_count, 1), ..*old(self) }),
    {
        self.blockhash_quorum_success_count = self.blockhash_quorum_success_count.wrapping_add(1);
    }
}

/// How many signer rotation checkpoints `tx_count` transactions reach (none for an
/// interval of zero).
pub open spec fn spec_rotation_checkpoint(tx_count: u64, interval: u64) -> u64 {
    if interval == 0 { 0 } else { tx_count / interval }
}

/// Number of rotation checkpoints reached after `tx_count` transactions.
pub fn rotation_checkpoint(tx_count: u64, interval: u64) -> (n: u64)
    ensures
        n == spec_rotation_checkpoint(tx_count, interval),
{
    if interval == 0 { 0 } else { tx_count / interval }
}

/// Does the transaction numbered `tx_count` (counting from zero) hit a signer rotation
/// checkpoint? It does at every positive multiple of the interval.
pub fn is_rotation_checkpoint(tx_count: u64, interval: u64) -> (hit: bool)
    requires
        interval > 0,
    ensures
        hit == (tx_count % interval == 0 && tx_count > 0),
{
    tx_count % interval == 0 && tx_count > 0
}

// ============================================================================
// Pre-flight checks
// ============================================================================

/// Is the balance enough? Returns the balance, or an `InsufficientBalance` error.
pub fn check_balance_sufficient(balance: u64, required_lamports: u64) -> (r: Result<u64, TransactionBuilderError>)
    ensures
        balance >= required_lamports ==> r == Ok::<u64, TransactionBuilderError>(balance),
        balance < required_lamports ==> (r matches Err(TransactionBuilderError::InsufficientBalance { required, available })
            && required == required_lamports && available == balance),
{
    if balance < required_lamports {
        return Err(TransactionBuilderError::InsufficientBalance { required: required_lamports, available: balance });
    }
    Ok(balance)
}

/// Is the liquidity deep enough? Returns it, or a `LiquidityTooLow` error.
pub fn check_liquidity_depth(liquidity: u64, min_lamports: u64) -> (r: Result<u64, TransactionBuilderError>)
    ensures
        liquidity >= min_lamports ==> r == Ok::<u64, TransactionBuilderError>(liquidity),
        liquidity < min_lamports ==> (r matches Err(TransactionBuilderError::LiquidityTooLow { available, required })
            && available == liquidity && required == min_lamports),
{
    if liquidity < min_lamports {
        return Err(TransactionBuilderError::LiquidityTooLow { available: liquidity, required: min_lamports });
    }
    Ok(liquidity)
}

/// The endpoint serving request `idx`: endpoints are used round-robin.
pub fn rpc_index_for(idx: usize, num_endpoints: usize) -> (i: usize)
    requires
        num_endpoints > 0,
    ensures
        i == idx % num_endpoints,
        i < num_endpoints,
{
    idx % num_endpoints
}

/// Round-robin rotation is fair: from any rotation index, the next `n` requests go to
/// `n` different endpoints, so each of the `n` endpoints is used exactly once.
pub proof fn lemma_round_robin_covers(rotation: int, n: int, endpoint: int)
    requires
        rotation >= 0,
        n > 0,
        0 <= endpoint < n,
    ensures
        exists|k: int| 0 <= k < n && #[trigger] ((rotation + k) % n) == endpoint,
        forall|k1: int, k2: int| 0 <= k1 < n && 0 <= k2 < n && k1 != k2
            ==> #[trigger] ((rotation + k1) % n) != #[trigger] ((rotation + k2) % n),
{
    let q = rotation / n;
    let m = rotation % n;
    vstd::arithmetic::div_mod::lemma_fundamental_div_mod(rotation, n);
    let k: int = if endpoint >= m { endpoint - m } else { endpoint + n - m };
    let t: int = if endpoint >= m { q } else { q + 1 };
    assert(rotation + k == t * n + endpoint) by (nonlinear_arith)
        requires rotation == n * q + m, k == (if endpoint >= m { endpoint - m } else { endpoint + n - m }),
            t == (if endpoint >= m { q } else { q + 1 });
    vstd::arithmetic::div_mod::lemma_mod_multiples_vanish(t, endpoint, n);
    vstd::arithmetic::div_mod::lemma_small_mod(endpoint as nat, n as nat);
    assert(((rotation + k) % n) == endpoint);
    assert forall|k1: int, k2: int| 0 <= k1 < n && 0 <= k2 < n && k1 != k2
        implies #[trigger] ((rotation + k1) % n) != #[trigger] ((rotation + k2) % n) by {
        let a = rotation + k1;
        let b = rotation + k2;
        vstd::arithmetic::div_mod::lemma_fundamental_div_mod(a, n);
        vstd::arithmetic::div_mod::lemma_fundamental_div_mod(b, n);
        if a % n == b % n {
            let qa = a / n;
            let qb = b / n;
            assert(a - b == n * (qa - qb)) by (nonlinear_arith)
                requires a == n * qa + a % n, b == n * qb + b % n, a % n == b % n;
            if qa - qb >= 1 {
                assert(n * (qa - qb) >= n) by (nonlinear_arith) requires qa - qb >= 1, n > 0;
            } else if qa - qb <= -1 {
                assert(n * (qa - qb) <= -n) by (nonlinear_arith) requires qa - qb <= -1, n > 0;
            }
        }
    }
}

// ============================================================================
// Builder state: endpoints, breakers, caches, counters
// ============================================================================

/// What the blockhash fallback loop does after a failed fetch.
#[derive(Debug)]
pub enum FetchAction {
    /// Give up with this error (the failure is not transient).
    Abort(TransactionBuilderError),
    /// Wait this many milliseconds, then try the next attempt.
    RetryAfterMs(u64),
    /// Go on to the next attempt at once (this was the last one).
    NextAttempt,
}

/// Time-to-live of cached blockhashes, in milliseconds.
pub const BLOCKHASH_CACHE_TTL_MS: u64 = 15_000;

/// The builder's own state: RPC endpoints with their circuit breakers, the rotation
/// index, the blockhash and simulation caches, and the counters.
pub struct BuilderCore {
    rpc_endpoints: Vec<String>,
    rotation_index: usize,
    circuit_breakers: Vec<CircuitBreaker>,
    blockhash_cache: BlockhashCache,
    simulation_cache: SimulationCache,
    counters: Counters,
}

/// The open-circuit timeout in milliseconds for a timeout in seconds (saturating).
pub open spec fn timeout_ms_of(secs: u64) -> u64 {
    if secs as int * 1000 <= u64::MAX { (secs * 1000) as u64 } else { u64::MAX }
}

impl BuilderCore {
    /// One breaker per endpoint, at least one endpoint, well-formed caches.
    pub closed spec fn wf(&self) -> bool {
        &&& self.circuit_breakers@.len() == self.rpc_endpoints@.len()
        &&& self.blockhash_cache.wf()
        &&& self.simulation_cache.wf()
    }

    /// Number of endpoints.
    pub open spec fn spec_num_endpoints(&self) -> nat {
        self.spec_endpoints().len()
    }

    /// A well-formed state has one circuit breaker per endpoint.
    pub proof fn lemma_one_breaker_per_endpoint(&self)
        requires
            self.wf(),
        ensures
            self.spec_breakers().len() == self.spec_num_endpoints(),
    {
    }

    /// The endpoints.
    pub closed spec fn spec_endpoints(&self) -> Seq<String> {
        self.rpc_endpoints@
    }

    /// Rotation index of the next fallback fetch.
    pub closed spec fn spec_rotation(&self) -> usize {
        self.rotation_index
    }

    /// State of each endpoint's circuit breaker.
    pub closed spec fn spec_breakers(&self) -> Seq<BreakerView> {
        self.circuit_breakers@.map_values(|b: CircuitBreaker| b@)
    }

    /// The blockhash cache.
    pub closed spec fn spec_blockhash_cache(&self) -> BlockhashCache {
        self.blockhash_cache
    }

    /// The counters.
    pub closed spec fn spec_counters(&self) -> Counters {
        self.counters
    }

    /// The simulation cache.
    pub closed spec fn spec_simulation_cache(&self) -> SimulationCache {
        self.simulation_cache
    }

    /// A fresh state for these endpoints: closed breakers with the configured threshold
    /// and timeout, empty caches, zero counters.
    pub fn new(rpc_endpoints: Vec<String>, config: &TransactionConfig) -> (b: BuilderCore)
        ensures
            b.wf(),
            b.spec_endpoints() == rpc_endpoints@,
            b.spec_num_endpoints() == rpc_endpoints@.len(),
            b.spec_breakers().len() == rpc_endpoints@.len(),
            b.spec_rotation() == 0,
            forall|i: int| 0 <= i < b.spec_num_endpoints() ==> #[trigger] b.spec_breakers()[i] == (BreakerView {
                state: CircuitState::Closed,
                failure_count: 0,
                failure_threshold: config.circuit_breaker_failure_threshold,
                last_failure_ms: None,
                timeout_ms: timeout_ms_of(config.circuit_breaker_timeout_secs),
                half_open_success_threshold: 2,
                half_open_successes: 0,
            }),
            b.spec_blockhash_cache().spec_entries().len() == 0,
            b.spec_simulation_cache()@.entries.dom() == Set::<Seq<u8>>::empty(),
            b.spec_simulation_cache()@.hits == 0 && b.spec_simulation_cache()@.misses == 0,
            b.spec_counters() == Counters::new_spec(),
    {
        let timeout_ms = config.circuit_breaker_timeout_secs.checked_mul(1000).unwrap_or(u64::MAX);
        let mut breakers: Vec<CircuitBreaker> = Vec::new();
        let mut i: usize = 0;
        while i < rpc_endpoints.len()
            invariant
                0 <= i <= rpc_endpoints@.len(),
                breakers@.len() == i,
                timeout_ms == timeout_ms_of(config.circuit_breaker_timeout_secs),
                forall|j: int| 0 <= j < i ==> (#[trigger] breakers@[j])@ == (BreakerView {
                    state: CircuitState::Closed,
                    failure_count: 0,
                    failure_threshold: config.circuit_breaker_failure_threshold,
                    last_failure_ms: None,
                    timeout_ms: timeout_ms_of(config.circuit_breaker_timeout_secs),
                    half_open_success_threshold: 2,
                    half_open_successes: 0,
                }),
            decreases rpc_endpoints@.len() - i,
        {
            breakers.push(CircuitBreaker::new(config.circuit_breaker_failure_threshold, timeout_ms));
            i += 1;
        }
        BuilderCore {
            rpc_endpoints,
            rotation_index: 0,
            circuit_breakers: breakers,
            blockhash_cache: BlockhashCache::new(),
            simulation_cache: SimulationCache::new(),
            counters: Counters::new(),
        }
    }
}

/// Message of a fallback that ran out of attempts.
pub open spec fn exhausted_message(max_attempts: usize, last_error: Option<Seq<char>>) -> Seq<char> {
    "All RPC endpoints failed after "@ + crate::config::spec_decimal(max_attempts as nat) + " attempts: "@
        + match last_error {
            Some(e) => "Some("@ + e + ")"@,
            None => "None"@,
        }
}

impl BuilderCore {
    /// The endpoint for the next fallback fetch (round-robin); advances the rotation.
    pub fn next_endpoint(&mut self) -> (idx: usize)
        requires
            old(self).wf(),
            old(self).spec_num_endpoints() > 0,
        ensures
            final(self).wf(),
            idx as int == old(self).spec_rotation() as int % old(self).spec_num_endpoints() as int,
            idx < final(self).spec_num_endpoints(),
            final(self).spec_rotation() == (if old(self).spec_rotation() == usize::MAX { 0 } else { old(self).spec_rotation() + 1 }),
            final(self).spec_endpoints() == old(self).spec_endpoints(),
            final(self).spec_breakers() == old(self).spec_breakers(),
            final(self).spec_blockhash_cache() == old(self).spec_blockhash_cache(),
            final(self).spec_counters() == old(self).spec_counters(),
            final(self).spec_simulation_cache() == old(self).spec_simulation_cache(),
    {
        let idx = self.rotation_index % self.rpc_endpoints.len();
        self.rotation_index = self.rotation_index.wrapping_add(1);
        idx
    }

    /// Does endpoint `idx`'s breaker let a request through at `now_ms`?
    pub fn endpoint_allows(&mut self, idx: usize, now_ms: u64) -> (ok: bool)
        requires
            old(self).wf(),
            idx < old(self).spec_num_endpoints(),
        ensures
            final(self).wf(),
            (ok, final(self).spec_breakers()[idx as int]) == spec_can_execute(old(self).spec_breakers()[idx as int], now_ms),
            final(self).spec_breakers() == old(self).spec_breakers().update(idx as int, final(self).spec_breakers()[idx as int]),
            final(self).spec_endpoints() == old(self).spec_endpoints(),
            final(self).spec_rotation() == old(self).spec_rotation(),
            final(self).spec_blockhash_cache() == old(self).spec_blockhash_cache(),
            final(self).spec_counters() == old(self).spec_counters(),
            final(self).spec_simulation_cache() == old(self).spec_simulation_cache(),
    {
        let ok = self.circuit_breakers[idx].can_execute(now_ms);
        proof {
            assert(self.spec_breakers() =~= old(self).spec_breakers().update(idx as int, self.spec_breakers()[idx as int]));
        }
        ok
    }

    /// Records a successful request to endpoint `idx`.
    pub fn endpoint_succeeded(&mut self, idx: usize)
        requires
            old(self).wf(),
            idx < old(self).spec_num_endpoints(),
        ensures
            final(self).wf(),
            final(self).spec_breakers() == old(self).spec_breakers().update(idx as int,
                spec_record_success(old(self).spec_breakers()[idx as int])),
            final(self).spec_endpoints() == old(self).spec_endpoints(),
            final(self).spec_rotation() == old(self).spec_rotation(),
            final(self).spec_blockhash_cache() == old(self).spec_blockhash_cache(),
            final(self).spec_counters() == old(self).spec_counters(),
            final(self).spec_simulation_cache() == old(self).spec_simulation_cache(),
    {
        self.circuit_breakers[idx].record_success();
        proof {
            assert(self.spec_breakers() =~= old(self).spec_breakers().update(idx as int,
                spec_record_success(old(self).spec_breakers()[idx as int])));
        }
    }

    /// Records a failed request to endpoint `idx` at `now_ms`.
    pub fn endpoint_failed(&mut self, idx: usize, now_ms: u64)
        requires
            old(self).wf(),
            idx < old(self).spec_num_endpoints(),
        ensures
            final(self).wf(),
            final(self).spec_breakers() == old(self).spec_breakers().update(idx as int,
                spec_record_failure(old(self).spec_breakers()[idx as int], now_ms)),
            final(self).spec_endpoints() == old(self).spec_endpoints(),
            final(self).spec_rotation() == old(self).spec_rotation(),
            final(self).spec_blockhash_cache() == old(self).spec_blockhash_cache(),
            final(self).spec_counters() == old(self).spec_counters(),
            final(self).spec_simulation_cache() == old(self).spec_simulation_cache(),
    {
        self.circuit_breakers[idx].record_failure(now_ms);
        proof {
            assert(self.spec_breakers() =~= old(self).spec_breakers().update(idx as int,
                spec_record_failure(old(self).spec_breakers()[idx as int], now_ms)));
        }
    }

    /// How many endpoints to ask for a blockhash quorum, or `None` to skip quorum.
    pub fn quorum_plan(&self, config: &TransactionConfig) -> (r: Option<usize>)
        requires
            self.wf(),
        ensures
            r == crate::blockhash::spec_quorum_size(config.quorum_config.min_responses, self.spec_num_endpoints() as usize),
    {
        crate::blockhash::quorum_size(config.quorum_config.min_responses, self.rpc_endpoints.len())
    }

    /// A blockhash agreed by quorum at `now_ms` for `max_slot`: counted and cached.
    pub fn accept_quorum(&mut self, hash: HashBytes, max_slot: u64, now_ms: u64)
        requires
            old(self).wf(),
        ensures
            final(self).wf(),
            final(self).spec_counters() == (Counters {
                blockhash_quorum_success_count: u64_specs::wrapping_add(old(self).spec_counters().blockhash_quorum_success_count, 1),
                ..old(self).spec_counters()
            }),
            final(self).spec_blockhash_cache().spec_entries()
                == spec_cache_insert(old(self).spec_blockhash_cache().spec_entries(), hash, now_ms, max_slot),
            final(self).spec_endpoints() == old(self).spec_endpoints(),
            final(self).spec_rotation() == old(self).spec_rotation(),
            final(self).spec_breakers() == old(self).spec_breakers(),
            final(self).spec_simulation_cache() == old(self).spec_simulation_cache(),
    {
        self.counters.quorum_success();
        self.blockhash_cache.insert(hash, now_ms, max_slot);
    }

    /// Quorum was not reached: counted as a fallback.
    pub fn quorum_failed(&mut self)
        requires
            old(self).wf(),
        ensures
            final(self).wf(),
            final(self).spec_counters() == (Counters {
                blockhash_fallback_count: u64_specs::wrapping_add(old(self).spec_counters().blockhash_fallback_count, 1),
                ..old(self).spec_counters()
            }),
            final(self).spec_blockhash_cache() == old(self).spec_blockhash_cache(),
            final(self).spec_endpoints() == old(self).spec_endpoints(),
            final(self).spec_rotation() == old(self).spec_rotation(),
            final(self).spec_breakers() == old(self).spec_breakers(),
            final(self).spec_simulation_cache() == old(self).spec_simulation_cache(),
    {
        self.counters.blockhash_fallback();
    }

    /// A cached blockhash usable at `now_ms`. With slot validation it needs the current
    /// slot (`None` when it could not be read, and then nothing is used) and picks the
    /// highest slot among fresh entries close enough to it; without, the youngest fresh entry.
    pub fn cached_blockhash(&self, config: &TransactionConfig, now_ms: u64, current_slot: Option<u64>)
        -> (r: Option<HashBytes>)
        requires
            self.wf(),
        ensures
            config.quorum_config.enable_slot_validation ==> match current_slot {
                None => r is None,
                Some(cs) => best_slot_validated(self.spec_blockhash_cache().spec_entries(), now_ms,
                    BLOCKHASH_CACHE_TTL_MS, cs, config.quorum_config.max_slot_diff, r),
            },
            !config.quorum_config.enable_slot_validation ==> youngest_time_valid(
                self.spec_blockhash_cache().spec_entries(), now_ms, BLOCKHASH_CACHE_TTL_MS, r),
    {
        if config.quorum_config.enable_slot_validation {
            match current_slot {
                Some(cs) => self.blockhash_cache.select_slot_validated(now_ms, BLOCKHASH_CACHE_TTL_MS, cs,
                    config.quorum_config.max_slot_diff),
                None => None,
            }
        } else {
            self.blockhash_cache.select_time_based(now_ms, BLOCKHASH_CACHE_TTL_MS)
        }
    }

    /// Number of fallback attempts: the retry policy's maximum, at least one.
    pub fn fallback_attempts(config: &TransactionConfig) -> (n: usize)
        ensures
            n == (if config.retry_policy.max_attempts > 1 { config.retry_policy.max_attempts } else { 1 }),
    {
        if config.retry_policy.max_attempts > 1 { config.retry_policy.max_attempts } else { 1 }
    }

    /// Starts a fallback attempt at `now_ms`: takes the next endpoint in rotation; when
    /// its breaker is open the attempt is skipped and counted as a fallback.
    pub fn fallback_endpoint(&mut self, now_ms: u64) -> (r: Option<usize>)
        requires
            old(self).wf(),
            old(self).spec_num_endpoints() > 0,
        ensures
            final(self).wf(),
            ({
                let idx = old(self).spec_rotation() as int % old(self).spec_num_endpoints() as int;
                let (ok, b) = spec_can_execute(old(self).spec_breakers()[idx], now_ms);
                &&& r == (if ok { Some(idx as usize) } else { None })
                &&& final(self).spec_breakers() == old(self).spec_breakers().update(idx, b)
                &&& final(self).spec_counters() == (if ok { old(self).spec_counters() } else {
                    Counters {
                        blockhash_fallback_count: u64_specs::wrapping_add(old(self).spec_counters().blockhash_fallback_count, 1),
                        ..old(self).spec_counters()
                    }
                })
            }),
            final(self).spec_rotation() == (if old(self).spec_rotation() == usize::MAX { 0 } else { old(self).spec_rotation() + 1 }),
            final(self).spec_endpoints() == old(self).spec_endpoints(),
            final(self).spec_blockhash_cache() == old(self).spec_blockhash_cache(),
            final(self).spec_simulation_cache() == old(self).spec_simulation_cache(),
    {
        let idx = self.next_endpoint();
        if self.endpoint_allows(idx, now_ms) {
            Some(idx)
        } else {
            self.counters.blockhash_fallback();
            None
        }
    }

    /// A fallback fetch from endpoint `idx` at `now_ms` returned `hash` at `slot`: the
    /// hash is cached, old entries are pruned and the breaker records a success.
    pub fn fallback_fetched(&mut self, idx: usize, hash: HashBytes, slot: u64, now_ms: u64, config: &TransactionConfig)
        requires
            old(self).wf(),
            idx < old(self).spec_num_endpoints(),
            config.quorum_config.max_slot_diff <= u64::MAX / 2,
        ensures
            final(self).wf(),
            final(self).spec_blockhash_cache().spec_entries() == spec_cache_insert(
                old(self).spec_blockhash_cache().spec_entries(), hash, now_ms, slot).filter(
                |e: crate::blockhash::CacheEntry| survives_prune(e, now_ms, BLOCKHASH_CACHE_TTL_MS, slot,
                    config.quorum_config.max_slot_diff)),
            final(self).spec_breakers() == old(self).spec_breakers().update(idx as int,
                spec_record_success(old(self).spec_breakers()[idx as int])),
            final(self).spec_counters() == old(self).spec_counters(),
            final(self).spec_endpoints() == old(self).spec_endpoints(),
            final(self).spec_rotation() == old(self).spec_rotation(),
            final(self).spec_simulation_cache() == old(self).spec_simulation_cache(),
    {
        self.blockhash_cache.insert(hash, now_ms, slot);
        self.blockhash_cache.prune(now_ms, BLOCKHASH_CACHE_TTL_MS, slot, config.quorum_config.max_slot_diff);
        self.endpoint_succeeded(idx);
    }

    /// A fallback fetch from endpoint `idx` at `now_ms` failed with `error`: the breaker
    /// records a failure; a non-transient error ends the fetch; otherwise the loop waits
    /// the backoff delay before its next attempt (none after the last).
    pub fn fallback_failed(
        &mut self,
        idx: usize,
        error: &str,
        now_ms: u64,
        config: &TransactionConfig,
        attempt: usize,
        max_attempts: usize,
    ) -> (action: FetchAction)
        requires
            old(self).wf(),
            idx < old(self).spec_num_endpoints(),
        ensures
            final(self).wf(),
            final(self).spec_breakers() == old(self).spec_breakers().update(idx as int,
                spec_record_failure(old(self).spec_breakers()[idx as int], now_ms)),
            final(self).spec_counters() == old(self).spec_counters(),
            final(self).spec_blockhash_cache() == old(self).spec_blockhash_cache(),
            final(self).spec_endpoints() == old(self).spec_endpoints(),
            final(self).spec_rotation() == old(self).spec_rotation(),
            final(self).spec_simulation_cache() == old(self).spec_simulation_cache(),
            !spec_contains_any(spec_to_lowercase(error@), retryable_patterns()) ==> (action matches
                FetchAction::Abort(TransactionBuilderError::BlockhashFetch(m))
                && m@ == "Fatal error (non-retryable): "@ + error@),
            spec_contains_any(spec_to_lowercase(error@), retryable_patterns()) ==> (if attempt + 1 < max_attempts {
                action == FetchAction::RetryAfterMs(spec_delay(config.retry_policy, attempt as nat))
            } else {
                action is NextAttempt
            }),
    {
        self.endpoint_failed(idx, now_ms);
        if !config.retry_policy.is_retryable(error) {
            let mut msg = String::from_str("Fatal error (non-retryable): ");
            msg.append(error);
            return FetchAction::Abort(TransactionBuilderError::BlockhashFetch(msg));
        }
        if attempt < usize::MAX && attempt + 1 < max_attempts {
            FetchAction::RetryAfterMs(config.retry_policy.delay_for_attempt(attempt))
        } else {
            FetchAction::NextAttempt
        }
    }

    /// The error once every fallback attempt failed.
    pub fn fallback_exhausted(max_attempts: usize, last_error: Option<&str>) -> (e: TransactionBuilderError)
        ensures
            e matches TransactionBuilderError::BlockhashFetch(m) && m@ == exhausted_message(max_attempts,
                match last_error { Some(s) => Some(s@), None => None }),
    {
        let mut msg = String::from_str("All RPC endpoints failed after ");
        msg.append(crate::config::decimal(max_attempts).as_str());
        msg.append(" attempts: ");
        match last_error {
            Some(s) => {
                msg.append("Some(");
                msg.append(s);
                msg.append(")");
            },
            None => {
                msg.append("None");
            },
        }
        TransactionBuilderError::BlockhashFetch(msg)
    }

    /// Drops cached blockhashes more than `max_slot_lag` slots behind `current_slot`;
    /// returns how many were dropped.
    pub fn invalidate_stale_blockhashes(&mut self, current_slot: u64, max_slot_lag: u64) -> (removed: usize)
        requires
            old(self).wf(),
        ensures
            final(self).wf(),
            final(self).spec_blockhash_cache().spec_entries() == old(self).spec_blockhash_cache().spec_entries().filter(
                |e: crate::blockhash::CacheEntry| crate::blockhash::within_lag(e, current_slot, max_slot_lag)),
            removed == old(self).spec_blockhash_cache().spec_entries().len()
                - final(self).spec_blockhash_cache().spec_entries().len(),
            final(self).spec_counters() == old(self).spec_counters(),
            final(self).spec_breakers() == old(self).spec_breakers(),
            final(self).spec_endpoints() == old(self).spec_endpoints(),
            final(self).spec_rotation() == old(self).spec_rotation(),
            final(self).spec_simulation_cache() == old(self).spec_simulation_cache(),
    {
        self.blockhash_cache.invalidate_stale(current_slot, max_slot_lag)
    }
}

impl BuilderCore {
    /// Each endpoint with the state of its circuit breaker.
    pub fn get_circuit_breaker_states(&self) -> (states: Vec<(String, CircuitState)>)
        requires
            self.wf(),
        ensures
            states@.len() == self.spec_num_endpoints(),
            forall|i: int| 0 <= i < states@.len() ==> #[trigger] states@[i].0@ == self.spec_endpoints()[i]@
                && states@[i].1 == self.spec_breakers()[i].state,
    {
        let mut states: Vec<(String, CircuitState)> = Vec::new();
        let mut i: usize = 0;
        while i < self.circuit_breakers.len()
            invariant
                self.wf(),
                0 <= i <= self.circuit_breakers@.len(),
                states@.len() == i,
                forall|j: int| #![trigger states@[j]] 0 <= j < i ==> states@[j].0@ == self.rpc_endpoints@[j]@
                    && states@[j].1 == self.circuit_breakers@[j]@.state,
            decreases self.circuit_breakers@.len() - i,
        {
            let endpoint = self.rpc_endpoints[i].clone();
            let state = self.circuit_breakers[i].get_state();
            states.push((endpoint, state));
            i += 1;
        }
        states
    }

    /// Each endpoint with the state and failure count of its circuit breaker.
    pub fn get_circuit_breaker_states_detailed(&self) -> (statuses: Vec<CircuitBreakerStatus>)
        requires
            self.wf(),
        ensures
            statuses@.len() == self.spec_num_endpoints(),
            forall|i: int| 0 <= i < statuses@.len() ==> #[trigger] statuses@[i].endpoint@ == self.spec_endpoints()[i]@
                && statuses@[i].state == self.spec_breakers()[i].state
                && statuses@[i].failure_count == self.spec_breakers()[i].failure_count,
    {
        let mut statuses: Vec<CircuitBreakerStatus> = Vec::new();
        let mut i: usize = 0;
        while i < self.circuit_breakers.len()
            invariant
                self.wf(),
                0 <= i <= self.circuit_breakers@.len(),
                statuses@.len() == i,
                forall|j: int| #![trigger statuses@[j]] 0 <= j < i ==> statuses@[j].endpoint@ == self.rpc_endpoints@[j]@
                    && statuses@[j].state == self.circuit_breakers@[j]@.state
                    && statuses@[j].failure_count == self.circuit_breakers@[j]@.failure_count,
            decreases self.circuit_breakers@.len() - i,
        {
            let endpoint = self.rpc_endpoints[i].clone();
            let state = self.circuit_breakers[i].get_state();
            let failure_count = self.circuit_breakers[i].get_failure_count();
            statuses.push(CircuitBreakerStatus { endpoint, state, failure_count });
            i += 1;
        }
        statuses
    }

    /// Should the health probe check endpoint `idx`? Only endpoints whose circuit is
    /// open or half-open are probed.
    pub fn needs_health_probe(&self, idx: usize) -> (probe: bool)
        requires
            self.wf(),
            idx < self.spec_num_endpoints(),
        ensures
            probe == (self.spec_breakers()[idx as int].state != CircuitState::Closed),
    {
        match self.circuit_breakers[idx].get_state() {
            CircuitState::Open => true,
            CircuitState::HalfOpen => true,
            CircuitState::Closed => false,
        }
    }

    /// Looks a simulation up in the cache (see `SimulationCache::lookup`).
    pub fn simulation_lookup(&mut self, key: &HashBytes, now_ms: u64, ttl_seconds: u64) -> (r: Option<u64>)
        requires
            old(self).wf(),
        ensures
            final(self).wf(),
            (r, final(self).spec_simulation_cache()@) == crate::simulation::spec_lookup(
                old(self).spec_simulation_cache()@, *key, now_ms, ttl_seconds),
            final(self).spec_counters() == old(self).spec_counters(),
            final(self).spec_breakers() == old(self).spec_breakers(),
            final(self).spec_blockhash_cache() == old(self).spec_blockhash_cache(),
            final(self).spec_endpoints() == old(self).spec_endpoints(),
            final(self).spec_rotation() == old(self).spec_rotation(),
    {
        self.simulation_cache.lookup(key, now_ms, ttl_seconds)
    }

    /// Stores a simulated compute unit count (see `SimulationCache::insert_and_prune`).
    pub fn simulation_store(&mut self, key: HashBytes, compute_units: u64, now_ms: u64, slot: u64, max_size: usize)
        requires
            old(self).wf(),
        ensures
            final(self).wf(),
            final(self).spec_counters() == old(self).spec_counters(),
            final(self).spec_breakers() == old(self).spec_breakers(),
            final(self).spec_blockhash_cache() == old(self).spec_blockhash_cache(),
            final(self).spec_endpoints() == old(self).spec_endpoints(),
            final(self).spec_rotation() == old(self).spec_rotation(),
            final(self).spec_simulation_cache()@.hits == old(self).spec_simulation_cache()@.hits,
            final(self).spec_simulation_cache()@.misses == old(self).spec_simulation_cache()@.misses,
            crate::simulation::insert_prune_result(old(self).spec_simulation_cache()@.entries, key@,
                crate::simulation::SimulationCacheEntry { compute_units, cached_at_ms: now_ms, slot }, max_size,
                final(self).spec_simulation_cache()@.entries),
    {
        self.simulation_cache.insert_and_prune(key, compute_units, now_ms, slot, max_size);
    }

    /// Simulation cache statistics: size, capacity, hits, misses.
    pub fn get_simulation_cache_stats(&self) -> (stats: (usize, usize, u64, u64))
        ensures
            stats.0 == self.spec_simulation_cache()@.entries.dom().len(),
            stats.1 >= stats.0,
            stats.2 == self.spec_simulation_cache()@.hits,
            stats.3 == self.spec_simulation_cache()@.misses,
    {
        (self.simulation_cache.len(), self.simulation_cache.capacity(), self.simulation_cache.hits(),
            self.simulation_cache.misses())
    }

    /// Empties the simulation cache and resets its counters.
    pub fn clear_simulation_cache(&mut self)
        requires
            old(self).wf(),
        ensures
            final(self).wf(),
            final(self).spec_simulation_cache()@.entries.dom() == Set::<Seq<u8>>::empty(),
            final(self).spec_simulation_cache()@.hits == 0,
            final(self).spec_simulation_cache()@.misses == 0,
            final(self).spec_counters() == old(self).spec_counters(),
            final(self).spec_blockhash_cache() == old(self).spec_blockhash_cache(),
            final(self).spec_breakers() == old(self).spec_breakers(),
    {
        self.simulation_cache.clear();
    }

    /// Number of cached blockhashes.
    pub fn get_blockhash_cache_stats(&self) -> (n: usize)
        ensures
            n == self.spec_blockhash_cache().spec_entries().len(),
    {
        self.blockhash_cache.len()
    }

    /// Empties the blockhash cache.
    pub fn clear_blockhash_cache(&mut self)
        requires
            old(self).wf(),
        ensures
            final(self).wf(),
            final(self).spec_blockhash_cache().spec_entries().len() == 0,
            final(self).spec_counters() == old(self).spec_counters(),
            final(self).spec_simulation_cache() == old(self).spec_simulation_cache(),
            final(self).spec_breakers() == old(self).spec_breakers(),
    {
        self.blockhash_cache.clear();
    }

    /// Stores a blockhash as if fetched at `now_ms` for slot 0 (for tests that must not
    /// reach an RPC endpoint).
    pub fn inject_blockhash_for_tests(&mut self, hash: HashBytes, now_ms: u64)
        requires
            old(self).wf(),
        ensures
            final(self).wf(),
            final(self).spec_blockhash_cache().spec_entries()
                == spec_cache_insert(old(self).spec_blockhash_cache().spec_entries(), hash, now_ms, 0),
    {
        self.blockhash_cache.insert(hash, now_ms, 0);
    }

    /// Counts a transaction being built; returns the count before it.
    pub fn next_transaction(&mut self) -> (previous: u64)
        requires
            old(self).wf(),
        ensures
            final(self).wf(),
            previous == old(self).spec_counters().tx_counter,
            final(self).spec_counters() == (Counters {
                tx_counter: u64_specs::wrapping_add(old(self).spec_counters().tx_counter, 1),
                ..old(self).spec_counters()
            }),
            final(self).spec_blockhash_cache() == old(self).spec_blockhash_cache(),
            final(self).spec_simulation_cache() == old(self).spec_simulation_cache(),
            final(self).spec_breakers() == old(self).spec_breakers(),
    {
        self.counters.next_transaction()
    }

    /// Counts an acquired nonce lease.
    pub fn record_nonce_acquired(&mut self)
        requires
            old(self).wf(),
        ensures
            final(self).wf(),
            final(self).spec_counters() == (Counters {
                nonce_acquire_count: u64_specs::wrapping_add(old(self).spec_counters().nonce_acquire_count, 1),
                ..old(self).spec_counters()
            }),
            final(self).spec_blockhash_cache() == old(self).spec_blockhash_cache(),
            final(self).spec_simulation_cache() == old(self).spec_simulation_cache(),
            final(self).spec_breakers() == old(self).spec_breakers(),
    {
        self.counters.nonce_acquired();
    }

    /// Counts an exhausted nonce pool (see `Counters::nonce_unavailable`).
    pub fn record_nonce_unavailable(&mut self, allow_fallback: bool) -> (r: Result<ContextStep, TransactionBuilderError>)
        requires
            old(self).wf(),
        ensures
            final(self).wf(),
            final(self).spec_counters().nonce_exhausted_count
                == u64_specs::wrapping_add(old(self).spec_counters().nonce_exhausted_count, 1),
            final(self).spec_counters().blockhash_fallback_count == (if allow_fallback {
                u64_specs::wrapping_add(old(self).spec_counters().blockhash_fallback_count, 1)
            } else {
                old(self).spec_counters().blockhash_fallback_count
            }),
            final(self).spec_counters().tx_counter == old(self).spec_counters().tx_counter,
            final(self).spec_counters().nonce_acquire_count == old(self).spec_counters().nonce_acquire_count,
            final(self).spec_counters().blockhash_quorum_success_count
                == old(self).spec_counters().blockhash_quorum_success_count,
            allow_fallback ==> r == Ok::<ContextStep, TransactionBuilderError>(ContextStep::FetchBlockhash),
            !allow_fallback ==> r matches Err(TransactionBuilderError::Nonce(NonceError::NoLeaseAvailable)),
            final(self).spec_blockhash_cache() == old(self).spec_blockhash_cache(),
            final(self).spec_simulation_cache() == old(self).spec_simulation_cache(),
            final(self).spec_breakers() == old(self).spec_breakers(),
    {
        self.counters.nonce_unavailable(allow_fallback)
    }

    /// Nonce leases acquired.
    pub fn get_nonce_acquire_count(&self) -> (n: u64)
        ensures
            n == self.spec_counters().nonce_acquire_count,
    {
        self.counters.nonce_acquire_count
    }

    /// Times the nonce pool was exhausted.
    pub fn get_nonce_exhausted_count(&self) -> (n: u64)
        ensures
            n == self.spec_counters().nonce_exhausted_count,
    {
        self.counters.nonce_exhausted_count
    }

    /// Blockhashes agreed by quorum.
    pub fn get_blockhash_quorum_success_count(&self) -> (n: u64)
        ensures
            n == self.spec_counters().blockhash_quorum_success_count,
    {
        self.counters.blockhash_quorum_success_count
    }

    /// Blockhash fallbacks.
    pub fn get_blockhash_fallback_count(&self) -> (n: u64)
        ensures
            n == self.spec_counters().blockhash_fallback_count,
    {
        self.counters.blockhash_fallback_count
    }

    /// Transactions built.
    pub fn get_transaction_count(&self) -> (n: u64)
        ensures
            n == self.spec_counters().tx_counter,
    {
        self.counters.tx_counter
    }

    /// Signer rotation checkpoints reached for this interval (none for an interval of zero).
    pub fn get_rotation_checkpoint(&self, rotation_interval: u64) -> (n: u64)
        ensures
            n == spec_rotation_checkpoint(self.spec_counters().tx_counter, rotation_interval),
    {
        rotation_checkpoint(self.counters.tx_counter, rotation_interval)
    }

    /// All telemetry at once.
    pub fn get_all_metrics(&self, config: &TransactionConfig) -> (m: TxBuilderMetrics)
        ensures
            m.simulation_cache_size == self.spec_simulation_cache()@.entries.dom().len(),
            m.simulation_cache_hits == self.spec_simulation_cache()@.hits,
            m.simulation_cache_misses == self.spec_simulation_cache()@.misses,
            m.nonce_acquire_count == self.spec_counters().nonce_acquire_count,
            m.nonce_exhausted_count == self.spec_counters().nonce_exhausted_count,
            m.blockhash_quorum_success_count == self.spec_counters().blockhash_quorum_success_count,
            m.blockhash_fallback_count == self.spec_counters().blockhash_fallback_count,
            m.transaction_count == self.spec_counters().tx_counter,
            m.rotation_checkpoint == spec_rotation_checkpoint(self.spec_counters().tx_counter,
                config.signer_rotation_interval),
    {
        let (cache_size, cache_capacity, cache_hits, cache_misses) = self.get_simulation_cache_stats();
        TxBuilderMetrics {
            simulation_cache_size: cache_size,
            simulation_cache_capacity: cache_capacity,
            simulation_cache_hits: cache_hits,
            simulation_cache_misses: cache_misses,
            nonce_acquire_count: self.get_nonce_acquire_count(),
            nonce_exhausted_count: self.get_nonce_exhausted_count(),
            blockhash_quorum_success_count: self.get_blockhash_quorum_success_count(),
            blockhash_fallback_count: self.get_blockhash_fallback_count(),
            transaction_count: self.get_transaction_count(),
            rotation_checkpoint: self.get_rotation_checkpoint(config.signer_rotation_interval),
        }
    }
}

impl Counters {
    /// All counters at zero.
    pub open spec fn new_spec() -> Counters {
        Counters { tx_counter: 0, nonce_acquire_count: 0, nonce_exhausted_count: 0,
            blockhash_quorum_success_count: 0, blockhash_fallback_count: 0 }
    }
}

} // verus!
