//! Configuration of the transaction builder and its checks.
use vstd::prelude::*;
use vstd::string::StringExecFns;
use dashmap::DashMap;
use std::collections::hash_map::RandomState;
use crate::errors::{DexProgram, TransactionBuilderError};
use crate::rate_limit::RetryPolicy;
use crate::solana::{pubkey_to_string, spec_pubkey_to_string, Pubkey};
use crate::text::str_eq;
use crate::types::{OperationPriority, ProgramMetadata, ProgramMetadataView};

verus! {

/// Quorum configuration for blockhash consensus.
#[derive(Debug, Clone)]
pub struct QuorumConfig {
    /// Minimum number of RPC responses required for quorum.
    pub min_responses: usize,
    /// Maximum allowed slot difference between responses.
    pub max_slot_diff: u64,
    /// Enable slot-based validation.
    pub enable_slot_validation: bool,
}

impl Default for QuorumConfig {
    fn default() -> (q: Self)
        ensures
            q.min_responses == 2,
            q.max_slot_diff == 10,
            q.enable_slot_validation,
    {
        QuorumConfig { min_responses: 2, max_slot_diff: 10, enable_slot_validation: true }
    }
}

/// Configuration for simulation caching.
#[derive(Debug, Clone)]
pub struct SimulationCacheConfig {
    /// Time-to-live for cached simulation results, in seconds.
    pub ttl_seconds: u64,
    /// Maximum cache size (number of entries).
    pub max_size: usize,
    /// Enable simulation caching.
    pub enabled: bool,
    /// Programs to exclude from caching (by their base58 address).
    pub excluded_programs: Vec<String>,
}

impl Default for SimulationCacheConfig {
    fn default() -> (c: Self)
        ensures
            c.ttl_seconds == 30,
            c.max_size == 1000,
            c.enabled,
            c.excluded_programs@.len() == 0,
    {
        SimulationCacheConfig { ttl_seconds: 30, max_size: 1000, enabled: true, excluded_programs: Vec::new() }
    }
}

/// Is the program, written in base58, among the excluded programs?
pub open spec fn spec_program_excluded(excluded: Seq<String>, program_id: Pubkey) -> bool {
    exists|i: int| 0 <= i < excluded.len() && #[trigger] excluded[i]@ == spec_pubkey_to_string(program_id@)
}

impl SimulationCacheConfig {
    /// Should simulations of this program skip the cache?
    pub fn is_program_excluded(&self, program_id: &Pubkey) -> (r: bool)
        ensures
            r == spec_program_excluded(self.excluded_programs@, *program_id),
    {
        let program_str = pubkey_to_string(program_id);
        let mut i: usize = 0;
        while i < self.excluded_programs.len()
            invariant
                0 <= i <= self.excluded_programs@.len(),
                program_str@ == spec_pubkey_to_string(program_id@),
                forall|j: int| 0 <= j < i ==> #[trigger] self.excluded_programs@[j]@ != program_str@,
            decreases self.excluded_programs@.len() - i,
        {
            if str_eq(self.excluded_programs[i].as_str(), program_str.as_str()) {
                return true;
            }
            i += 1;
        }
        false
    }
}

// ============================================================================
// Allow-list of programs (a `dashmap::DashMap`)
// ============================================================================

#[verifier::external_type_specification]
#[verifier::external_body]
#[verifier::reject_recursive_types(K)]
#[verifier::reject_recursive_types(V)]
#[verifier::reject_recursive_types(S)]
pub struct ExDashMap<K, V, S>(DashMap<K, V, S>);

/// Allow-list of programs with their metadata.
pub type Allowlist = DashMap<Pubkey, ProgramMetadata, RandomState>;

/// The entries of an allow-list, keyed by program address.
pub uninterp spec fn allowlist_entries(m: Allowlist) -> Map<Seq<u8>, ProgramMetadataView>;

/// An empty map from `DashMap::new`.
/// Claimed: the new map has no entry.
#[verifier::external_body]
fn allowlist_new() -> (fresh: Allowlist)
    ensures
        allowlist_entries(fresh).dom() == Set::<Seq<u8>>::empty(),
{
    DashMap::new()
}

/// `DashMap::is_empty`.
/// Claimed: true exactly when the map has no entry.
#[verifier::external_body]
fn allowlist_is_empty(m: &Allowlist) -> (r: bool)
    ensures
        r == (allowlist_entries(*m).dom() == Set::<Seq<u8>>::empty()),
{
    m.is_empty()
}

/// `DashMap::contains_key`.
/// Claimed: true exactly when the map has an entry for `k`.
#[verifier::external_body]
fn allowlist_contains(m: &Allowlist, k: &Pubkey) -> (r: bool)
    ensures
        r == allowlist_entries(*m).dom().contains(k@),
{
    m.contains_key(k)
}

/// `DashMap::insert`, with the map borrowed mutably.
/// Claimed: afterwards `k` maps to `v` and the other entries are unchanged.
#[verifier::external_body]
fn allowlist_insert(m: &mut Allowlist, k: Pubkey, v: ProgramMetadata)
    ensures
        allowlist_entries(*final(m)) == allowlist_entries(*old(m)).insert(k@, v@),
{
    m.insert(k, v);
}

/// `DashMap::get`, cloning the value found.
/// Claimed: `None` when there is no entry for `k`, else a copy of its value.
#[verifier::external_body]
fn allowlist_get(m: &Allowlist, k: &Pubkey) -> (r: Option<ProgramMetadata>)
    ensures
        match r {
            Some(v) => allowlist_entries(*m).dom().contains(k@) && allowlist_entries(*m)[k@] == v@,
            None => !allowlist_entries(*m).dom().contains(k@),
        },
{
    m.get(k).map(|r| r.value().clone())
}

/// `DashMap::clone`.
/// Claimed: the copy has the same entries.
#[verifier::external_body]
fn allowlist_clone(m: &Allowlist) -> (c: Allowlist)
    ensures
        allowlist_entries(c) == allowlist_entries(*m),
{
    m.clone()
}

// ============================================================================
// Transaction configuration
// ============================================================================

/// Transaction configuration. Multipliers are in thousandths (`1500` is 1.5x) and
/// rate limits in whole requests per second (`0` means unlimited).
#[derive(Debug)]
pub struct TransactionConfig {
    pub priority_fee_lamports: u64,
    pub compute_unit_limit: u32,
    pub min_cu_limit: u32,
    pub max_cu_limit: u32,
    pub adaptive_priority_fee_base: u64,
    pub adaptive_priority_fee_multiplier_permille: u64,
    pub buy_amount_lamports: u64,
    pub slippage_bps: u64,
    pub rpc_endpoints: Vec<String>,
    pub rpc_retry_attempts: usize,
    pub rpc_timeout_ms: u64,
    pub pumpportal_url: Option<String>,
    pub pumpportal_api_key: Option<String>,
    pub letsbonk_api_url: Option<String>,
    pub letsbonk_api_key: Option<String>,
    pub jito_bundle_enabled: bool,
    pub signer_keypair_index: Option<usize>,
    pub nonce_count: usize,
    pub allowed_programs: Allowlist,
    pub dex_priority: Vec<DexProgram>,
    pub min_liquidity_lamports: u64,
    pub enable_simulation: bool,
    pub enable_ml_slippage: bool,
    pub quorum_config: QuorumConfig,
    pub retry_policy: RetryPolicy,
    pub rpc_rate_limit_rps: u64,
    pub simulation_rate_limit_rps: u64,
    pub http_rate_limit_rps: u64,
    pub circuit_breaker_failure_threshold: u32,
    pub circuit_breaker_timeout_secs: u64,
    pub simulation_cache_config: SimulationCacheConfig,
    pub max_concurrent_builds: usize,
    pub operation_priority: OperationPriority,
    pub signer_rotation_interval: u64,
}

/// The checks of `TransactionConfig::validate`, in order; the first that fails gives
/// its message.
pub open spec fn spec_validate(c: TransactionConfig) -> Result<(), Seq<char>> {
    if c.buy_amount_lamports == 0 {
        Err("buy_amount_lamports must be > 0"@)
    } else if c.slippage_bps > 10000 {
        Err("slippage_bps must be <= 10000"@)
    } else if c.rpc_endpoints@.len() == 0 {
        Err("rpc_endpoints must contain at least one endpoint"@)
    } else if c.nonce_count == 0 {
        Err("nonce_count must be > 0"@)
    } else if c.min_cu_limit > c.max_cu_limit {
        Err("min_cu_limit must be <= max_cu_limit"@)
    } else if c.adaptive_priority_fee_multiplier_permille < 1000 {
        Err("adaptive_priority_fee_multiplier must be >= 1.0"@)
    } else if c.quorum_config.min_responses == 0 {
        Err("quorum_config.min_responses must be > 0"@)
    } else if c.quorum_config.min_responses > c.rpc_endpoints@.len() {
        Err("quorum_config.min_responses ("@ + spec_decimal(c.quorum_config.min_responses as nat)
            + ") cannot exceed number of RPC endpoints ("@ + spec_decimal(c.rpc_endpoints@.len())
            + ")"@)
    } else if c.circuit_breaker_failure_threshold == 0 {
        Err("circuit_breaker_failure_threshold must be > 0"@)
    } else if c.max_concurrent_builds == 0 {
        Err("max_concurrent_builds must be > 0"@)
    } else {
        Ok(())
    }
}

/// Decimal digits of a number.
pub open spec fn spec_decimal(n: nat) -> Seq<char>
    decreases n,
{
    if n < 10 {
        seq![spec_digit(n)]
    } else {
        spec_decimal(n / 10) + seq![spec_digit(n % 10)]
    }
}

/// The character of a decimal digit.
pub open spec fn spec_digit(d: nat) -> char {
    if d == 0 { '0' } else if d == 1 { '1' } else if d == 2 { '2' } else if d == 3 { '3' }
    else if d == 4 { '4' } else if d == 5 { '5' } else if d == 6 { '6' } else if d == 7 { '7' }
    else if d == 8 { '8' } else { '9' }
}

/// The one-character text of a decimal digit.
fn digit_text(d: u64) -> (s: String)
    requires
        d < 10,
    ensures
        s@ == seq![spec_digit(d as nat)],
{
    let t = if d == 0 { "0" } else if d == 1 { "1" } else if d == 2 { "2" } else if d == 3 { "3" }
        else if d == 4 { "4" } else if d == 5 { "5" } else if d == 6 { "6" } else if d == 7 { "7" }
        else if d == 8 { "8" } else { "9" };
    proof {
        reveal_strlit("0");
        reveal_strlit("1");
        reveal_strlit("2");
        reveal_strlit("3");
        reveal_strlit("4");
        reveal_strlit("5");
        reveal_strlit("6");
        reveal_strlit("7");
        reveal_strlit("8");
        reveal_strlit("9");
    }
    let s = String::from_str(t);
    assert(s@ =~= seq![spec_digit(d as nat)]);
    s
}

/// A number in decimal: its digits, most significant first, without sign or padding
/// (as `Display` writes it).
pub(crate) fn decimal_u64(n: u64) -> (s: String)
    ensures
        s@ == spec_decimal(n as nat),
    decreases n,
{
    if n < 10 {
        digit_text(n)
    } else {
        let mut s = decimal_u64(n / 10);
        let d = digit_text(n % 10);
        s.append(d.as_str());
        s
    }
}

/// A `usize` in decimal (see `decimal_u64`).
pub(crate) fn decimal(n: usize) -> (s: String)
    ensures
        s@ == spec_decimal(n as nat),
{
    decimal_u64(n as u64)
}

/// A `ConfigValidation` error with the given message.
fn config_error(msg: &str) -> (e: Result<(), TransactionBuilderError>)
    ensures
        e matches Err(TransactionBuilderError::ConfigValidation(m)) && m@ == msg@,
{
    Err(TransactionBuilderError::ConfigValidation(String::from_str(msg)))
}

/// The adaptive priority fee: the base times the multiplier (thousandths), rounded
/// down and capped at `u64::MAX`.
pub open spec fn spec_adaptive_fee(base: u64, multiplier_permille: u64) -> u64 {
    let f = base as int * multiplier_permille as int / 1000;
    if f <= u64::MAX { f as u64 } else { u64::MAX }
}

impl TransactionConfig {
    /// Checks the configuration; the first violated rule gives a `ConfigValidation` error.
    pub fn validate(&self) -> (r: Result<(), TransactionBuilderError>)
        ensures
            match spec_validate(*self) {
                Ok(()) => r is Ok,
                Err(msg) => r matches Err(TransactionBuilderError::ConfigValidation(m)) && m@ == msg,
            },
    {
        if self.buy_amount_lamports == 0 {
            return config_error("buy_amount_lamports must be > 0");
        }
        if self.slippage_bps > 10000 {
            return config_error("slippage_bps must be <= 10000");
        }
        if self.rpc_endpoints.len() == 0 {
            return config_error("rpc_endpoints must contain at least one endpoint");
        }
        if self.nonce_count == 0 {
            return config_error("nonce_count must be > 0");
        }
        if self.min_cu_limit > self.max_cu_limit {
            return config_error("min_cu_limit must be <= max_cu_limit");
        }
        if self.adaptive_priority_fee_multiplier_permille < 1000 {
            return config_error("adaptive_priority_fee_multiplier must be >= 1.0");
        }
        if self.quorum_config.min_responses == 0 {
            return config_error("quorum_config.min_responses must be > 0");
        }
        if self.quorum_config.min_responses > self.rpc_endpoints.len() {
            let mut msg = String::from_str("quorum_config.min_responses (");
            msg.append(decimal(self.quorum_config.min_responses).as_str());
            msg.append(") cannot exceed number of RPC endpoints (");
            msg.append(decimal(self.rpc_endpoints.len()).as_str());
            msg.append(")");
            return Err(TransactionBuilderError::ConfigValidation(msg));
        }
        if self.circuit_breaker_failure_threshold == 0 {
            return config_error("circuit_breaker_failure_threshold must be > 0");
        }
        if self.max_concurrent_builds == 0 {
            return config_error("max_concurrent_builds must be > 0");
        }
        Ok(())
    }

    /// Is the program allowed? An empty allow-list allows every program.
    pub fn is_program_allowed(&self, program_id: &Pubkey) -> (r: bool)
        ensures
            r == (allowlist_entries(self.allowed_programs).dom() == Set::<Seq<u8>>::empty()
                || allowlist_entries(self.allowed_programs).dom().contains(program_id@)),
    {
        allowlist_is_empty(&self.allowed_programs) || allowlist_contains(&self.allowed_programs, program_id)
    }

    /// Adds (or replaces) a program on the allow-list.
    pub fn add_allowed_program(&mut self, program_id: Pubkey, metadata: ProgramMetadata)
        ensures
            allowlist_entries(final(self).allowed_programs)
                == allowlist_entries(old(self).allowed_programs).insert(program_id@, metadata@),
    {
        allowlist_insert(&mut self.allowed_programs, program_id, metadata);
    }

    /// The metadata of an allowed program, if it is on the list.
    pub fn get_program_metadata(&self, program_id: &Pubkey) -> (r: Option<ProgramMetadata>)
        ensures
            match r {
                Some(m) => allowlist_entries(self.allowed_programs).dom().contains(program_id@)
                    && allowlist_entries(self.allowed_programs)[program_id@] == m@,
                None => !allowlist_entries(self.allowed_programs).dom().contains(program_id@),
            },
    {
        allowlist_get(&self.allowed_programs, program_id)
    }

    /// The adaptive priority fee (base times multiplier).
    pub fn calculate_adaptive_priority_fee(&self) -> (fee: u64)
        ensures
            fee == spec_adaptive_fee(self.adaptive_priority_fee_base,
                self.adaptive_priority_fee_multiplier_permille),
    {
        proof {
            vstd::arithmetic::mul::lemma_mul_upper_bound(
                self.adaptive_priority_fee_base as int, u64::MAX as int,
                self.adaptive_priority_fee_multiplier_permille as int, u64::MAX as int);
        }
        let f = (self.adaptive_priority_fee_base as u128)
            * (self.adaptive_priority_fee_multiplier_permille as u128) / 1000;
        if f <= u64::MAX as u128 { f as u64 } else { u64::MAX }
    }
}

impl Default for TransactionConfig {
    fn default() -> (c: Self)
        ensures
            c.priority_fee_lamports == 10_000,
            c.compute_unit_limit == 200_000,
            c.min_cu_limit == 100_000,
            c.max_cu_limit == 400_000,
            c.adaptive_priority_fee_base == 10_000,
            c.adaptive_priority_fee_multiplier_permille == 1500,
            c.buy_amount_lamports == 10_000_000,
            c.slippage_bps == 1000,
            c.rpc_endpoints@.len() == 1,
            c.rpc_endpoints@[0]@ == "https://api.mainnet-beta.solana.com"@,
            c.rpc_retry_attempts == 3,
            c.rpc_timeout_ms == 8_000,
            c.pumpportal_url is None && c.pumpportal_api_key is None,
            c.letsbonk_api_url is None && c.letsbonk_api_key is None,
            !c.jito_bundle_enabled,
            c.signer_keypair_index is None,
            c.nonce_count == 5,
            allowlist_entries(c.allowed_programs).dom() == Set::<Seq<u8>>::empty(),
            c.dex_priority@ == seq![DexProgram::PumpFun, DexProgram::Raydium, DexProgram::Orca],
            c.min_liquidity_lamports == 1_000_000_000,
            c.enable_simulation,
            !c.enable_ml_slippage,
            c.quorum_config.min_responses == 2 && c.quorum_config.max_slot_diff == 10
                && c.quorum_config.enable_slot_validation,
            c.retry_policy.max_attempts == 3 && c.retry_policy.initial_delay_ms == 50
                && c.retry_policy.max_delay_ms == 2000 && c.retry_policy.backoff_multiplier_permille == 2000,
            c.rpc_rate_limit_rps == 100,
            c.simulation_rate_limit_rps == 20,
            c.http_rate_limit_rps == 50,
            c.circuit_breaker_failure_threshold == 5,
            c.circuit_breaker_timeout_secs == 60,
            c.simulation_cache_config.ttl_seconds == 30 && c.simulation_cache_config.max_size == 1000
                && c.simulation_cache_config.enabled
                && c.simulation_cache_config.excluded_programs@.len() == 0,
            c.max_concurrent_builds == 50,
            c.operation_priority == OperationPriority::Utility,
            c.signer_rotation_interval == 100,
    {
        let mut endpoints: Vec<String> = Vec::new();
        endpoints.push(String::from_str("https://api.mainnet-beta.solana.com"));
        let mut dex_priority: Vec<DexProgram> = Vec::new();
        dex_priority.push(DexProgram::PumpFun);
        dex_priority.push(DexProgram::Raydium);
        dex_priority.push(DexProgram::Orca);
        TransactionConfig {
            priority_fee_lamports: 10_000,
            compute_unit_limit: 200_000,
            min_cu_limit: 100_000,
            max_cu_limit: 400_000,
            adaptive_priority_fee_base: 10_000,
            adaptive_priority_fee_multiplier_permille: 1500,
            buy_amount_lamports: 10_000_000,
            slippage_bps: 1000,
            rpc_endpoints: endpoints,
            rpc_retry_attempts: 3,
            rpc_timeout_ms: 8_000,
            pumpportal_url: None,
            pumpportal_api_key: None,
            letsbonk_api_url: None,
            letsbonk_api_key: None,
            jito_bundle_enabled: false,
            signer_keypair_index: None,
            nonce_count: 5,
            allowed_programs: allowlist_new(),
            dex_priority,
            min_liquidity_lamports: 1_000_000_000,
            enable_simulation: true,
            enable_ml_slippage: false,
            quorum_config: QuorumConfig::default(),
            retry_policy: RetryPolicy::default(),
            rpc_rate_limit_rps: 100,
            simulation_rate_limit_rps: 20,
            http_rate_limit_rps: 50,
            circuit_breaker_failure_threshold: 5,
            circuit_breaker_timeout_secs: 60,
            simulation_cache_config: SimulationCacheConfig::default(),
            max_concurrent_builds: 50,
            operation_priority: OperationPriority::default(),
            signer_rotation_interval: 100,
        }
    }
}

/// A copy of each text, in order.
fn copy_strings(v: &Vec<String>) -> (r: Vec<String>)
    ensures
        r@ == v@,
{
    let mut r: Vec<String> = Vec::new();
    let mut i: usize = 0;
    while i < v.len()
        invariant
            0 <= i <= v@.len(),
            r@ == v@.take(i as int),
        decreases v@.len() - i,
    {
        r.push(v[i].clone());
        i += 1;
        assert(r@ =~= v@.take(i as int));
    }
    assert(v@.take(v@.len() as int) =~= v@);
    r
}

/// A copy of an optional text.
fn copy_opt_string(o: &Option<String>) -> (r: Option<String>)
    ensures
        r == *o,
{
    match o {
        Some(t) => Some(t.clone()),
        None => None,
    }
}

/// A copy of a DEX.
fn copy_dex(d: &DexProgram) -> (r: DexProgram)
    ensures
        r == *d,
{
    match d {
        DexProgram::PumpFun => DexProgram::PumpFun,
        DexProgram::Raydium => DexProgram::Raydium,
        DexProgram::Orca => DexProgram::Orca,
        DexProgram::LetsBonk => DexProgram::LetsBonk,
        DexProgram::Unknown(name) => DexProgram::Unknown(name.clone()),
    }
}

/// A copy of each DEX, in order.
fn copy_dexes(v: &Vec<DexProgram>) -> (r: Vec<DexProgram>)
    ensures
        r@ == v@,
{
    let mut r: Vec<DexProgram> = Vec::new();
    let mut i: usize = 0;
    while i < v.len()
        invariant
            0 <= i <= v@.len(),
            r@ == v@.take(i as int),
        decreases v@.len() - i,
    {
        r.push(copy_dex(&v[i]));
        i += 1;
        assert(r@ =~= v@.take(i as int));
    }
    assert(v@.take(v@.len() as int) =~= v@);
    r
}

impl Clone for TransactionConfig {
    /// A copy of every setting; the allow-list is copied into a map of its own with the
    /// same entries.
    fn clone(&self) -> (c: Self)
        ensures
            allowlist_entries(c.allowed_programs) == allowlist_entries(self.allowed_programs),
            c.priority_fee_lamports == self.priority_fee_lamports,
            c.compute_unit_limit == self.compute_unit_limit,
            c.min_cu_limit == self.min_cu_limit,
            c.max_cu_limit == self.max_cu_limit,
            c.adaptive_priority_fee_base == self.adaptive_priority_fee_base,
            c.adaptive_priority_fee_multiplier_permille == self.adaptive_priority_fee_multiplier_permille,
            c.buy_amount_lamports == self.buy_amount_lamports,
            c.slippage_bps == self.slippage_bps,
            c.rpc_endpoints@ == self.rpc_endpoints@,
            c.rpc_retry_attempts == self.rpc_retry_attempts,
            c.rpc_timeout_ms == self.rpc_timeout_ms,
            c.pumpportal_url == self.pumpportal_url,
            c.pumpportal_api_key == self.pumpportal_api_key,
            c.letsbonk_api_url == self.letsbonk_api_url,
            c.letsbonk_api_key == self.letsbonk_api_key,
            c.jito_bundle_enabled == self.jito_bundle_enabled,
            c.signer_keypair_index == self.signer_keypair_index,
            c.nonce_count == self.nonce_count,
            c.dex_priority@ == self.dex_priority@,
            c.min_liquidity_lamports == self.min_liquidity_lamports,
            c.enable_simulation == self.enable_simulation,
            c.enable_ml_slippage == self.enable_ml_slippage,
            c.quorum_config == self.quorum_config,
            c.retry_policy == self.retry_policy,
            c.rpc_rate_limit_rps == self.rpc_rate_limit_rps,
            c.simulation_rate_limit_rps == self.simulation_rate_limit_rps,
            c.http_rate_limit_rps == self.http_rate_limit_rps,
            c.circuit_breaker_failure_threshold == self.circuit_breaker_failure_threshold,
            c.circuit_breaker_timeout_secs == self.circuit_breaker_timeout_secs,
            c.simulation_cache_config.ttl_seconds == self.simulation_cache_config.ttl_seconds,
            c.simulation_cache_config.max_size == self.simulation_cache_config.max_size,
            c.simulation_cache_config.enabled == self.simulation_cache_config.enabled,
            c.simulation_cache_config.excluded_programs@ == self.simulation_cache_config.excluded_programs@,
            c.max_concurrent_builds == self.max_concurrent_builds,
            c.operation_priority == self.operation_priority,
            c.signer_rotation_interval == self.signer_rotation_interval,
    {
        TransactionConfig {
            priority_fee_lamports: self.priority_fee_lamports,
            compute_unit_limit: self.compute_unit_limit,
            min_cu_limit: self.min_cu_limit,
            max_cu_limit: self.max_cu_limit,
            adaptive_priority_fee_base: self.adaptive_priority_fee_base,
            adaptive_priority_fee_multiplier_permille: self.adaptive_priority_fee_multiplier_permille,
            buy_amount_lamports: self.buy_amount_lamports,
            slippage_bps: self.slippage_bps,
            rpc_endpoints: copy_strings(&self.rpc_endpoints),
            rpc_retry_attempts: self.rpc_retry_attempts,
            rpc_timeout_ms: self.rpc_timeout_ms,
            pumpportal_url: copy_opt_string(&self.pumpportal_url),
            pumpportal_api_key: copy_opt_string(&self.pumpportal_api_key),
            letsbonk_api_url: copy_opt_string(&self.letsbonk_api_url),
            letsbonk_api_key: copy_opt_string(&self.letsbonk_api_key),
            jito_bundle_enabled: self.jito_bundle_enabled,
            signer_keypair_index: self.signer_keypair_index,
            nonce_count: self.nonce_count,
            allowed_programs: allowlist_clone(&self.allowed_programs),
            dex_priority: copy_dexes(&self.dex_priority),
            min_liquidity_lamports: self.min_liquidity_lamports,
            enable_simulation: self.enable_simulation,
            enable_ml_slippage: self.enable_ml_slippage,
            quorum_config: QuorumConfig {
                min_responses: self.quorum_config.min_responses,
                max_slot_diff: self.quorum_config.max_slot_diff,
                enable_slot_validation: self.quorum_config.enable_slot_validation,
            },
            retry_policy: RetryPolicy {
                max_attempts: self.retry_policy.max_attempts,
                initial_delay_ms: self.retry_policy.initial_delay_ms,
                max_delay_ms: self.retry_policy.max_delay_ms,
                backoff_multiplier_permille: self.retry_policy.backoff_multiplier_permille,
            },
            rpc_rate_limit_rps: self.rpc_rate_limit_rps,
            simulation_rate_limit_rps: self.simulation_rate_limit_rps,
            http_rate_limit_rps: self.http_rate_limit_rps,
            circuit_breaker_failure_threshold: self.circuit_breaker_failure_threshold,
            circuit_breaker_timeout_secs: self.circuit_breaker_timeout_secs,
            simulation_cache_config: SimulationCacheConfig {
                ttl_seconds: self.simulation_cache_config.ttl_seconds,
                max_size: self.simulation_cache_config.max_size,
                enabled: self.simulation_cache_config.enabled,
                excluded_programs: copy_strings(&self.simulation_cache_config.excluded_programs),
            },
            max_concurrent_builds: self.max_concurrent_builds,
            operation_priority: self.operation_priority,
            signer_rotation_interval: self.signer_rotation_interval,
        }
    }
}

} // verus!
