//! The decisions taken while a buy or sell transaction is built, between the steps that
//! need the network, the wallet or the nonce pool: where the DEX instruction comes from,
//! how a simulation sets the compute unit limit, and the errors reported on the way.
use vstd::prelude::*;
use vstd::string::StringExecFns;
use vstd::utf8::encode_utf8;
use crate::blockhash::{best_slot_validated, spec_cache_insert, survives_prune, youngest_time_valid, CacheEntry};
use crate::builder::{exhausted_message, BuilderCore, Counters, FetchAction, BLOCKHASH_CACHE_TTL_MS};
use crate::rate_limit::{retryable_patterns, spec_can_execute, spec_delay, spec_record_failure, spec_record_success};
use crate::solana::HashBytes;
use crate::text::spec_to_lowercase;
use vstd::wrapping::u64_specs;
use crate::instructions::{
    build_compute_budget_instructions, build_ordered_instructions, is_advance_nonce_ix, is_cb, is_system,
    nonce_slots, spec_check_order, OrderViolation,
};
use crate::solana::{spec_u32_le, spec_u64_le};
use crate::types::{message_num_required_signatures, spec_num_required_signatures, ExecutionContext};
use solana_sdk::hash::Hash as SdkHash;
use solana_sdk::instruction::{AccountMeta as SdkMeta, Instruction as SdkInstruction};
use solana_sdk::message::v0::Message as MessageV0;
use solana_sdk::message::VersionedMessage;
use solana_sdk::pubkey::Pubkey as SdkKey;
use solana_sdk::signature::Signature;
use solana_sdk::transaction::VersionedTransaction;
use crate::config::{decimal_u64, spec_decimal, spec_validate, TransactionConfig};
use crate::errors::{DexProgram, TransactionBuilderError};
use crate::instructions::build_memo;
use crate::simulation::{estimate_cu_limit, fatal_error_patterns, is_fatal_simulation_error, spec_estimate_cu};
use crate::solana::{pubkey_to_string, spec_memo_program_id, spec_pubkey_to_string, AccountMeta, Instruction, Pubkey};
use crate::text::spec_contains_any;

verus! {

// ============================================================================
// Starting a build
// ============================================================================

/// A buy that passed the configuration check: its number (counting from zero) and, when
/// it reaches a signer rotation checkpoint, the checkpoint's number.
#[derive(Debug, Clone, Copy, PartialEq, Eq)]
pub struct BuildTicket {
    pub tx_index: u64,
    pub rotation_checkpoint: Option<u64>,
}

/// Starts a buy: checks the configuration, then counts the transaction and tells
/// whether it reaches a signer rotation checkpoint (every positive multiple of the
/// rotation interval).
pub fn begin_buy(core: &mut BuilderCore, config: &TransactionConfig) -> (r: Result<BuildTicket, TransactionBuilderError>)
    requires
        old(core).wf(),
        spec_validate(*config) is Ok ==> config.signer_rotation_interval > 0,
    ensures
        final(core).wf(),
        match spec_validate(*config) {
            Err(msg) => (r matches Err(TransactionBuilderError::ConfigValidation(m)) && m@ == msg)
                && *final(core) == *old(core),
            Ok(()) => {
                let n = old(core).spec_counters().tx_counter;
                let interval = config.signer_rotation_interval;
                &&& r == Ok::<BuildTicket, TransactionBuilderError>(BuildTicket {
                    tx_index: n,
                    rotation_checkpoint: if n % interval == 0 && n > 0 { Some(n / interval) } else { None },
                })
                &&& final(core).spec_counters().tx_counter == vstd::wrapping::u64_specs::wrapping_add(n, 1)
            },
        },
{
    match config.validate() {
        Err(e) => Err(e),
        Ok(()) => {
            let n = core.next_transaction();
            let interval = config.signer_rotation_interval;
            let checkpoint = if n % interval == 0 && n > 0 { Some(n / interval) } else { None };
            Ok(BuildTicket { tx_index: n, rotation_checkpoint: checkpoint })
        },
    }
}

// ============================================================================
// Fetching a recent blockhash
// ============================================================================

/// Where a blockhash fetch stands.
#[derive(Debug, Clone, PartialEq, Eq)]
pub enum FetchState {
    /// Nothing done yet.
    Start,
    /// Waiting for the quorum round.
    AwaitQuorum,
    /// Waiting for the current slot, to pick a cached blockhash.
    AwaitSlot,
    /// About to make fallback attempt `attempt`; `last_error` is the last fetch error.
    Attempt { attempt: usize, last_error: Option<String> },
    /// Waiting for fallback attempt `attempt`, made at endpoint `idx`.
    AwaitFetch { attempt: usize, idx: usize, last_error: Option<String> },
    /// Done.
    Finished,
}

/// What came back from the outside since the last step.
#[derive(Debug, Clone, PartialEq, Eq)]
pub enum FetchEvent {
    /// Nothing (to start, after a wait, or after a skipped attempt).
    Proceed,
    /// The quorum round agreed on `hash`, whose highest reported slot is `max_slot`.
    QuorumAgreed { hash: HashBytes, max_slot: u64 },
    /// The quorum round reached no agreement.
    QuorumFailed,
    /// The current slot, when it could be read.
    CurrentSlot(Option<u64>),
    /// The endpoint returned `hash` at `slot`.
    Fetched { hash: HashBytes, slot: u64 },
    /// The endpoint failed with this error text.
    FetchFailed(String),
}

/// The outside work to do next.
#[derive(Debug)]
pub enum FetchCommand {
    /// Ask the first `n` endpoints for a blockhash and their slot, and count the votes.
    QueryQuorum(usize),
    /// Read the current slot from the first endpoint.
    ReadCurrentSlot,
    /// Fetch a blockhash (and its slot) from endpoint `idx`.
    FetchFrom(usize),
    /// Wait this many milliseconds, then step again.
    Wait(u64),
    /// Step again at once.
    Continue,
    /// The fetch is over, with this outcome.
    Return(Result<HashBytes, TransactionBuilderError>),
}

/// Is `event` an answer to what `state` waits for?
pub open spec fn event_expected(state: FetchState, event: FetchEvent) -> bool {
    match state {
        FetchState::Start => event is Proceed,
        FetchState::AwaitQuorum => event is QuorumAgreed || event is QuorumFailed,
        FetchState::AwaitSlot => event is CurrentSlot,
        FetchState::Attempt { .. } => event is Proceed,
        FetchState::AwaitFetch { .. } => event is Fetched || event is FetchFailed,
        FetchState::Finished => false,
    }
}

/// The cached blockhash entries of a builder state.
pub open spec fn cached_entries(c: BuilderCore) -> Seq<CacheEntry> {
    c.spec_blockhash_cache().spec_entries()
}

/// `found` is what the cache offers at `now_ms`: with slot validation, the best fresh
/// entry close enough to the current slot (nothing when the slot is unknown); without,
/// the youngest fresh entry.
pub open spec fn cache_answer(
    c: BuilderCore,
    config: TransactionConfig,
    now_ms: u64,
    current_slot: Option<u64>,
    found: Option<HashBytes>,
) -> bool {
    if config.quorum_config.enable_slot_validation {
        match current_slot {
            None => found is None,
            Some(cs) => best_slot_validated(cached_entries(c), now_ms, BLOCKHASH_CACHE_TTL_MS, cs,
                config.quorum_config.max_slot_diff, found),
        }
    } else {
        youngest_time_valid(cached_entries(c), now_ms, BLOCKHASH_CACHE_TTL_MS, found)
    }
}

/// The hash a step returns, if it returns one.
pub open spec fn returned_hash(r: (FetchState, FetchCommand)) -> Option<HashBytes> {
    match r.1 {
        FetchCommand::Return(Ok(h)) => Some(h),
        _ => None,
    }
}

/// After the cache was asked: its hash is the outcome, else the fallback attempts begin.
pub open spec fn after_cache(found: Option<HashBytes>) -> (FetchState, FetchCommand) {
    match found {
        Some(h) => (FetchState::Finished, FetchCommand::Return(Ok(h))),
        None => (FetchState::Attempt { attempt: 0, last_error: None }, FetchCommand::Continue),
    }
}

/// The step once quorum is skipped or failed: with slot validation the current slot is
/// read first; without, the cache is asked at once.
pub open spec fn cache_stage(c: BuilderCore, config: TransactionConfig, now_ms: u64, r: (FetchState, FetchCommand)) -> bool {
    if config.quorum_config.enable_slot_validation {
        r == (FetchState::AwaitSlot, FetchCommand::ReadCurrentSlot)
    } else {
        cache_answer(c, config, now_ms, None, returned_hash(r)) && r == after_cache(returned_hash(r))
    }
}

/// Number of fallback attempts: the retry policy's maximum, at least one.
pub open spec fn max_fetch_attempts(config: TransactionConfig) -> usize {
    if config.retry_policy.max_attempts > 1 { config.retry_policy.max_attempts } else { 1 }
}

/// The endpoints, rotation, breakers and simulation cache are as they were.
pub open spec fn endpoints_and_breakers_kept(o: BuilderCore, n: BuilderCore) -> bool {
    &&& n.spec_endpoints() == o.spec_endpoints()
    &&& n.spec_rotation() == o.spec_rotation()
    &&& n.spec_breakers() == o.spec_breakers()
    &&& n.spec_simulation_cache() == o.spec_simulation_cache()
}

/// One step of a blockhash fetch from `state` on `event` at `now_ms`: how the builder
/// state goes from `o` to `n`, and the next state and command `r`.
pub open spec fn spec_fetch_step(
    o: BuilderCore,
    n: BuilderCore,
    config: TransactionConfig,
    now_ms: u64,
    state: FetchState,
    event: FetchEvent,
    r: (FetchState, FetchCommand),
) -> bool {
    match state {
        FetchState::Start => n == o && match crate::blockhash::spec_quorum_size(
            config.quorum_config.min_responses, o.spec_num_endpoints() as usize) {
            Some(k) => r == (FetchState::AwaitQuorum, FetchCommand::QueryQuorum(k)),
            None => cache_stage(o, config, now_ms, r),
        },
        FetchState::AwaitQuorum => match event {
            FetchEvent::QuorumAgreed { hash, max_slot } => {
                &&& endpoints_and_breakers_kept(o, n)
                &&& n.spec_counters() == (Counters {
                    blockhash_quorum_success_count: u64_specs::wrapping_add(o.spec_counters().blockhash_quorum_success_count, 1),
                    ..o.spec_counters()
                })
                &&& cached_entries(n) == spec_cache_insert(cached_entries(o), hash, now_ms, max_slot)
                &&& r == (FetchState::Finished, FetchCommand::Return(Ok(hash)))
            },
            _ => {
                &&& endpoints_and_breakers_kept(o, n)
                &&& n.spec_counters() == (Counters {
                    blockhash_fallback_count: u64_specs::wrapping_add(o.spec_counters().blockhash_fallback_count, 1),
                    ..o.spec_counters()
                })
                &&& n.spec_blockhash_cache() == o.spec_blockhash_cache()
                &&& cache_stage(o, config, now_ms, r)
            },
        },
        FetchState::AwaitSlot => n == o && match event {
            FetchEvent::CurrentSlot(cs) =>
                cache_answer(o, config, now_ms, cs, returned_hash(r)) && r == after_cache(returned_hash(r)),
            _ => false,
        },
        FetchState::Attempt { attempt, last_error } => {
            let max = max_fetch_attempts(config);
            if attempt >= max {
                &&& n == o
                &&& r.0 == FetchState::Finished
                &&& r.1 matches FetchCommand::Return(Err(TransactionBuilderError::BlockhashFetch(m)))
                &&& m@ == exhausted_message(max, match last_error { Some(e) => Some(e@), None => None })
            } else {
                let idx = o.spec_rotation() as int % o.spec_num_endpoints() as int;
                let (ok, b) = spec_can_execute(o.spec_breakers()[idx], now_ms);
                &&& n.spec_breakers() == o.spec_breakers().update(idx, b)
                &&& n.spec_rotation() == (if o.spec_rotation() == usize::MAX { 0 } else { o.spec_rotation() + 1 })
                &&& n.spec_counters() == (if ok { o.spec_counters() } else {
                    Counters {
                        blockhash_fallback_count: u64_specs::wrapping_add(o.spec_counters().blockhash_fallback_count, 1),
                        ..o.spec_counters()
                    }
                })
                &&& n.spec_endpoints() == o.spec_endpoints()
                &&& n.spec_blockhash_cache() == o.spec_blockhash_cache()
                &&& n.spec_simulation_cache() == o.spec_simulation_cache()
                &&& r == (if ok {
                    (FetchState::AwaitFetch { attempt, idx: idx as usize, last_error }, FetchCommand::FetchFrom(idx as usize))
                } else {
                    (FetchState::Attempt { attempt: (attempt + 1) as usize, last_error }, FetchCommand::Continue)
                })
            }
        },
        FetchState::AwaitFetch { attempt, idx, last_error } => match event {
            FetchEvent::Fetched { hash, slot } => {
                &&& cached_entries(n) == spec_cache_insert(cached_entries(o), hash, now_ms, slot).filter(
                    |e: CacheEntry| survives_prune(e, now_ms, BLOCKHASH_CACHE_TTL_MS, slot,
                        config.quorum_config.max_slot_diff))
                &&& n.spec_breakers() == o.spec_breakers().update(idx as int,
                    spec_record_success(o.spec_breakers()[idx as int]))
                &&& n.spec_counters() == o.spec_counters()
                &&& n.spec_endpoints() == o.spec_endpoints()
                &&& n.spec_rotation() == o.spec_rotation()
                &&& n.spec_simulation_cache() == o.spec_simulation_cache()
                &&& r == (FetchState::Finished, FetchCommand::Return(Ok(hash)))
            },
            FetchEvent::FetchFailed(e) => {
                let max = max_fetch_attempts(config);
                &&& n.spec_breakers() == o.spec_breakers().update(idx as int,
                    spec_record_failure(o.spec_breakers()[idx as int], now_ms))
                &&& n.spec_counters() == o.spec_counters()
                &&& n.spec_blockhash_cache() == o.spec_blockhash_cache()
                &&& n.spec_endpoints() == o.spec_endpoints()
                &&& n.spec_rotation() == o.spec_rotation()
                &&& n.spec_simulation_cache() == o.spec_simulation_cache()
                &&& if !spec_contains_any(spec_to_lowercase(e@), retryable_patterns()) {
                    &&& r.0 == FetchState::Finished
                    &&& r.1 matches FetchCommand::Return(Err(TransactionBuilderError::BlockhashFetch(m)))
                    &&& m@ == "Fatal error (non-retryable): "@ + e@
                } else if attempt + 1 < max {
                    r == (FetchState::Attempt { attempt: (attempt + 1) as usize, last_error: Some(e) },
                        FetchCommand::Wait(spec_delay(config.retry_policy, attempt as nat)))
                } else {
                    r == (FetchState::Attempt { attempt: (attempt + 1) as usize, last_error: Some(e) },
                        FetchCommand::Continue)
                }
            },
            _ => false,
        },
        FetchState::Finished => false,
    }
}

/// The cache step (see `cache_stage`).
fn cache_step(core: &BuilderCore, config: &TransactionConfig, now_ms: u64) -> (r: (FetchState, FetchCommand))
    requires
        core.wf(),
    ensures
        cache_stage(*core, *config, now_ms, r),
{
    if config.quorum_config.enable_slot_validation {
        (FetchState::AwaitSlot, FetchCommand::ReadCurrentSlot)
    } else {
        match core.cached_blockhash(config, now_ms, None) {
            Some(h) => (FetchState::Finished, FetchCommand::Return(Ok(h))),
            None => (FetchState::Attempt { attempt: 0, last_error: None }, FetchCommand::Continue),
        }
    }
}

/// One step of fetching a recent blockhash: quorum among the first endpoints when
/// enough are configured; then a cached blockhash; then fallback attempts at the
/// endpoints in rotation (skipping open circuits), with backoff between retryable
/// failures, until one answers, a failure is not retryable, or the attempts run out.
pub fn blockhash_step(
    core: &mut BuilderCore,
    config: &TransactionConfig,
    state: FetchState,
    event: FetchEvent,
    now_ms: u64,
) -> (r: (FetchState, FetchCommand))
    requires
        old(core).wf(),
        event_expected(state, event),
        state is Attempt ==> old(core).spec_num_endpoints() > 0,
        (state matches FetchState::AwaitFetch { attempt, idx, .. }
            ==> idx < old(core).spec_num_endpoints() && attempt < usize::MAX),
        (state is AwaitFetch && event is Fetched) ==> config.quorum_config.max_slot_diff <= u64::MAX / 2,
    ensures
        final(core).wf(),
        spec_fetch_step(*old(core), *final(core), *config, now_ms, state, event, r),
{
    match state {
        FetchState::Start => {
            match core.quorum_plan(config) {
                Some(k) => (FetchState::AwaitQuorum, FetchCommand::QueryQuorum(k)),
                None => cache_step(core, config, now_ms),
            }
        },
        FetchState::AwaitQuorum => {
            match event {
                FetchEvent::QuorumAgreed { hash, max_slot } => {
                    core.accept_quorum(hash, max_slot, now_ms);
                    (FetchState::Finished, FetchCommand::Return(Ok(hash)))
                },
                _ => {
                    let ghost o = *core;
                    core.quorum_failed();
                    assert(cached_entries(*core) == cached_entries(o));
                    cache_step(core, config, now_ms)
                },
            }
        },
        FetchState::AwaitSlot => {
            match event {
                FetchEvent::CurrentSlot(cs) => {
                    match core.cached_blockhash(config, now_ms, cs) {
                        Some(h) => (FetchState::Finished, FetchCommand::Return(Ok(h))),
                        None => (FetchState::Attempt { attempt: 0, last_error: None }, FetchCommand::Continue),
                    }
                },
                _ => (FetchState::Finished, FetchCommand::Continue),
            }
        },
        FetchState::Attempt { attempt, last_error } => {
            let max = BuilderCore::fallback_attempts(config);
            if attempt >= max {
                let err = match &last_error {
                    Some(e) => BuilderCore::fallback_exhausted(max, Some(e.as_str())),
                    None => BuilderCore::fallback_exhausted(max, None),
                };
                (FetchState::Finished, FetchCommand::Return(Err(err)))
            } else {
                match core.fallback_endpoint(now_ms) {
                    Some(idx) => (FetchState::AwaitFetch { attempt, idx, last_error }, FetchCommand::FetchFrom(idx)),
                    None => (FetchState::Attempt { attempt: attempt + 1, last_error }, FetchCommand::Continue),
                }
            }
        },
        FetchState::AwaitFetch { attempt, idx, last_error } => {
            match event {
                FetchEvent::Fetched { hash, slot } => {
                    core.fallback_fetched(idx, hash, slot, now_ms, config);
                    (FetchState::Finished, FetchCommand::Return(Ok(hash)))
                },
                FetchEvent::FetchFailed(e) => {
                    let max = BuilderCore::fallback_attempts(config);
                    let action = core.fallback_failed(idx, e.as_str(), now_ms, config, attempt, max);
                    match action {
                        FetchAction::Abort(err) => (FetchState::Finished, FetchCommand::Return(Err(err))),
                        FetchAction::RetryAfterMs(d) => (FetchState::Attempt { attempt: attempt + 1, last_error: Some(e) },
                            FetchCommand::Wait(d)),
                        FetchAction::NextAttempt => (FetchState::Attempt { attempt: attempt + 1, last_error: Some(e) },
                            FetchCommand::Continue),
                    }
                },
                _ => (FetchState::Finished, FetchCommand::Continue),
            }
        },
        FetchState::Finished => (FetchState::Finished, FetchCommand::Continue),
    }
}

/// Starts a sell: checks the configuration. A sell is not counted (signer rotation
/// counts buys only), so the builder state is left as it is.
pub fn begin_sell(core: &mut BuilderCore, config: &TransactionConfig) -> (r: Result<(), TransactionBuilderError>)
    ensures
        *final(core) == *old(core),
        match spec_validate(*config) {
            Ok(()) => r is Ok,
            Err(msg) => r matches Err(TransactionBuilderError::ConfigValidation(m)) && m@ == msg,
        },
{
    config.validate()
}

/// A value read from an RPC endpoint.
#[derive(Debug, Clone, Copy, PartialEq, Eq, Structural)]
pub enum RpcValue {
    Balance,
    Liquidity,
    Slot,
}

/// The name of the value in error texts.
pub open spec fn spec_rpc_value_name(v: RpcValue) -> Seq<char> {
    match v {
        RpcValue::Balance => "balance"@,
        RpcValue::Liquidity => "liquidity"@,
        RpcValue::Slot => "slot"@,
    }
}

/// The error when a value could not be read from an RPC endpoint.
pub fn rpc_fetch_error(what: RpcValue, detail: &str) -> (e: TransactionBuilderError)
    ensures
        e matches TransactionBuilderError::RpcConnection(m)
            && m@ == "Failed to fetch "@ + spec_rpc_value_name(what) + ": "@ + detail@,
{
    let mut m = String::from_str("Failed to fetch ");
    match what {
        RpcValue::Balance => m.append("balance"),
        RpcValue::Liquidity => m.append("liquidity"),
        RpcValue::Slot => m.append("slot"),
    }
    m.append(": ");
    m.append(detail);
    TransactionBuilderError::RpcConnection(m)
}

// ============================================================================
// Where the DEX instruction comes from
// ============================================================================

/// How the DEX instruction of a buy is obtained.
#[derive(Debug, Clone, Copy, PartialEq, Eq, Structural)]
pub enum InstructionSource {
    /// Asked from the PumpPortal HTTP API.
    PumpPortalApi,
    /// Asked from the LetsBonk HTTP API.
    LetsBonkApi,
    /// A memo placeholder.
    Placeholder,
}

/// Where a buy's DEX instruction comes from: pump.fun and LetsBonk buys ask their HTTP
/// API when one is configured and use a placeholder otherwise; Raydium and Orca buys
/// are not available in this build; other programs get a placeholder.
pub fn buy_instruction_source(dex: &DexProgram, config: &TransactionConfig)
    -> (r: Result<InstructionSource, TransactionBuilderError>)
    ensures
        *dex == DexProgram::PumpFun ==> r == Ok::<InstructionSource, TransactionBuilderError>(
            if config.pumpportal_url is Some { InstructionSource::PumpPortalApi } else { InstructionSource::Placeholder }),
        *dex == DexProgram::LetsBonk ==> r == Ok::<InstructionSource, TransactionBuilderError>(
            if config.letsbonk_api_url is Some { InstructionSource::LetsBonkApi } else { InstructionSource::Placeholder }),
        *dex == DexProgram::Raydium ==> (r matches Err(TransactionBuilderError::FeatureNotEnabled { feature, action })
            && feature@ == "raydium"@ && action@ == "Raydium buy instruction"@),
        *dex == DexProgram::Orca ==> (r matches Err(TransactionBuilderError::FeatureNotEnabled { feature, action })
            && feature@ == "orca"@ && action@ == "Orca buy instruction"@),
        *dex is Unknown ==> r == Ok::<InstructionSource, TransactionBuilderError>(InstructionSource::Placeholder),
{
    match dex {
        DexProgram::PumpFun => Ok(
            if config.pumpportal_url.is_some() { InstructionSource::PumpPortalApi } else { InstructionSource::Placeholder }),
        DexProgram::LetsBonk => Ok(
            if config.letsbonk_api_url.is_some() { InstructionSource::LetsBonkApi } else { InstructionSource::Placeholder }),
        DexProgram::Raydium => Err(TransactionBuilderError::FeatureNotEnabled {
            feature: String::from_str("raydium"),
            action: String::from_str("Raydium buy instruction"),
        }),
        DexProgram::Orca => Err(TransactionBuilderError::FeatureNotEnabled {
            feature: String::from_str("orca"),
            action: String::from_str("Orca buy instruction"),
        }),
        DexProgram::Unknown(_) => Ok(InstructionSource::Placeholder),
    }
}

/// An API reply that is not valid JSON.
pub fn api_json_error(api_name: &str, detail: &str) -> (e: TransactionBuilderError)
    ensures
        e matches TransactionBuilderError::InstructionBuild { program, reason }
            && program@ == api_name@ && reason@ == "JSON parse error: "@ + detail@,
{
    let mut reason = String::from_str("JSON parse error: ");
    reason.append(detail);
    TransactionBuilderError::InstructionBuild { program: api_name.to_owned(), reason }
}

/// A message that could not be compiled.
pub fn message_compile_error(program: &str, detail: &str) -> (e: TransactionBuilderError)
    ensures
        e matches TransactionBuilderError::InstructionBuild { program: p, reason }
            && p@ == program@ && reason@ == "Failed to compile message: "@ + detail@,
{
    let mut reason = String::from_str("Failed to compile message: ");
    reason.append(detail);
    TransactionBuilderError::InstructionBuild { program: program.to_owned(), reason }
}

/// Text of the memo that stands in for a buy.
pub open spec fn spec_placeholder_buy_text(program: Seq<char>, mint: Pubkey, amount: u64) -> Seq<char> {
    "PLACEHOLDER_BUY:"@ + program + ":"@ + spec_pubkey_to_string(mint@) + ":"@ + spec_decimal(amount as nat)
}

/// Text of the memo that stands in for a sell; `percent` is the sell fraction written
/// with six decimals.
pub open spec fn spec_placeholder_sell_text(mint: Pubkey, percent: Seq<char>) -> Seq<char> {
    "PLACEHOLDER_SELL:"@ + spec_pubkey_to_string(mint@) + ":"@ + percent
}

/// A memo instruction whose data is `text` in UTF-8, listing `wallet` (not as signer).
pub open spec fn is_memo_for(ix: Instruction, text: Seq<char>, wallet: Pubkey) -> bool {
    &&& ix.program_id@ == spec_memo_program_id()
    &&& ix.data@ == encode_utf8(text)
    &&& ix.accounts@ == seq![AccountMeta { pubkey: wallet, is_signer: false, is_writable: false }]
}

fn memo_for(text: &String, wallet: &Pubkey) -> (ix: Instruction)
    ensures
        is_memo_for(ix, text@, *wallet),
{
    let signers: [Pubkey; 1] = [*wallet];
    let ix = build_memo(text.as_str().as_bytes(), &signers);
    assert(ix.accounts@ =~= seq![AccountMeta { pubkey: *wallet, is_signer: false, is_writable: false }]);
    ix
}

/// The memo that stands in for a buy of `amount` lamports of `mint` on `program`.
pub fn placeholder_buy_instruction(program: &str, mint: &Pubkey, amount: u64, wallet: &Pubkey) -> (ix: Instruction)
    ensures
        is_memo_for(ix, spec_placeholder_buy_text(program@, *mint, amount), *wallet),
{
    let mut text = String::from_str("PLACEHOLDER_BUY:");
    text.append(program);
    text.append(":");
    text.append(pubkey_to_string(mint).as_str());
    text.append(":");
    text.append(decimal_u64(amount).as_str());
    memo_for(&text, wallet)
}

/// The memo that stands in for a sell of `mint`; `percent` is the sell fraction written
/// with six decimals.
pub fn placeholder_sell_instruction(mint: &Pubkey, percent: &str, wallet: &Pubkey) -> (ix: Instruction)
    ensures
        is_memo_for(ix, spec_placeholder_sell_text(*mint, percent@), *wallet),
{
    let mut text = String::from_str("PLACEHOLDER_SELL:");
    text.append(pubkey_to_string(mint).as_str());
    text.append(":");
    text.append(percent);
    memo_for(&text, wallet)
}

// ============================================================================
// Simulation
// ============================================================================

/// Are simulations of `program_id` cached? When caching is on and the program is not
/// excluded.
pub fn simulation_cache_enabled(config: &TransactionConfig, program_id: &Pubkey) -> (on: bool)
    ensures
        on == (config.simulation_cache_config.enabled
            && !crate::config::spec_program_excluded(config.simulation_cache_config.excluded_programs@, *program_id)),
{
    config.simulation_cache_config.enabled && !config.simulation_cache_config.is_program_excluded(program_id)
}

/// `r` is the outcome of a simulation that reported `units_consumed` and `error`, when
/// the compute unit limit was `current_cu` (see `simulation_verdict`).
pub open spec fn verdict_holds(
    config: TransactionConfig,
    current_cu: u32,
    units_consumed: Option<u64>,
    error: Option<String>,
    r: Result<u32, TransactionBuilderError>,
) -> bool {
    let cu = match units_consumed {
        Some(u) => spec_estimate_cu(u, config.min_cu_limit, config.max_cu_limit),
        None => current_cu,
    };
    match error {
        Some(e) => if spec_contains_any(e@, fatal_error_patterns()) {
            r matches Err(TransactionBuilderError::SimulationFailed(m)) && m@ == e@
        } else {
            r == Ok::<u32, TransactionBuilderError>(cu)
        },
        None => r == Ok::<u32, TransactionBuilderError>(cu),
    }
}

/// The compute unit limit after a simulation: the consumed units with headroom when the
/// simulation reported them, else the current limit; a fatal simulation error (its
/// debug text names an instruction error, an unfinished program, an exceeded budget or
/// missing funds) aborts the build with that text.
pub fn simulation_verdict(
    config: &TransactionConfig,
    current_cu: u32,
    units_consumed: Option<u64>,
    error: Option<String>,
) -> (r: Result<u32, TransactionBuilderError>)
    requires
        config.min_cu_limit <= config.max_cu_limit,
    ensures
        verdict_holds(*config, current_cu, units_consumed, error, r),
{
    let cu = match units_consumed {
        Some(u) => estimate_cu_limit(u, config.min_cu_limit, config.max_cu_limit),
        None => current_cu,
    };
    match error {
        Some(e) => {
            if is_fatal_simulation_error(e.as_str()) {
                Err(TransactionBuilderError::SimulationFailed(e))
            } else {
                Ok(cu)
            }
        },
        None => Ok(cu),
    }
}

/// Where the pre-simulation of a transaction stands.
#[derive(Debug, Clone, Copy, PartialEq, Eq)]
pub enum SimState {
    /// Nothing done yet.
    Start,
    /// Waiting for the simulation of the message keyed `key`; `cached` tells whether its
    /// outcome goes into the cache.
    AwaitSimulation { key: HashBytes, cached: bool },
    /// Done.
    Finished,
}

/// What came back from the outside for the pre-simulation.
#[derive(Debug, Clone, PartialEq, Eq)]
pub enum SimEvent {
    /// The simulated message was prepared: whether it compiled, its cache key (see
    /// `simulation_cache_key`) and the program of the DEX instruction.
    Prepared { compiled: bool, key: HashBytes, program_id: Pubkey },
    /// The simulation answered: the units it consumed, its error text, and the slot read
    /// afterwards (0 when unreadable).
    Simulated { units_consumed: Option<u64>, error: Option<String>, slot: u64 },
    /// The simulation request failed or timed out.
    Unavailable,
}

/// What the pre-simulation asks for next.
#[derive(Debug)]
pub enum SimCommand {
    /// Simulate the prepared message.
    Simulate,
    /// Done: the compute unit limit to build with, or the error that aborts the build.
    Done(Result<u32, TransactionBuilderError>),
}

/// Is `event` an answer to what `state` waits for?
pub open spec fn sim_event_expected(state: SimState, event: SimEvent) -> bool {
    match state {
        SimState::Start => event is Prepared,
        SimState::AwaitSimulation { .. } => event is Simulated || event is Unavailable,
        SimState::Finished => false,
    }
}

/// Only the simulation cache may differ between `o` and `n`.
pub open spec fn only_simulation_cache_changed(o: BuilderCore, n: BuilderCore) -> bool {
    &&& n.spec_counters() == o.spec_counters()
    &&& n.spec_breakers() == o.spec_breakers()
    &&& n.spec_blockhash_cache() == o.spec_blockhash_cache()
    &&& n.spec_endpoints() == o.spec_endpoints()
    &&& n.spec_rotation() == o.spec_rotation()
}

/// One step of the pre-simulation, with the compute unit limit at `current_cu`.
pub open spec fn spec_sim_step(
    o: BuilderCore,
    n: BuilderCore,
    config: TransactionConfig,
    current_cu: u32,
    now_ms: u64,
    state: SimState,
    event: SimEvent,
    r: (SimState, SimCommand),
) -> bool {
    match state {
        SimState::Start => match event {
            SimEvent::Prepared { compiled, key, program_id } => {
                let cached = config.simulation_cache_config.enabled
                    && !crate::config::spec_program_excluded(config.simulation_cache_config.excluded_programs@, program_id);
                if !config.enable_simulation || !compiled {
                    n == o && r == (SimState::Finished, SimCommand::Done(Ok(current_cu)))
                } else if cached {
                    let (found, c) = crate::simulation::spec_lookup(o.spec_simulation_cache()@, key, now_ms,
                        config.simulation_cache_config.ttl_seconds);
                    &&& only_simulation_cache_changed(o, n)
                    &&& n.spec_simulation_cache()@ == c
                    &&& r == match found {
                        Some(u) => (SimState::Finished,
                            SimCommand::Done(Ok(spec_estimate_cu(u, config.min_cu_limit, config.max_cu_limit)))),
                        None => (SimState::AwaitSimulation { key, cached: true }, SimCommand::Simulate),
                    }
                } else {
                    n == o && r == (SimState::AwaitSimulation { key, cached: false }, SimCommand::Simulate)
                }
            },
            _ => false,
        },
        SimState::AwaitSimulation { key, cached } => match event {
            SimEvent::Simulated { units_consumed, error, slot } => {
                &&& (match units_consumed {
                    Some(u) if cached => {
                        &&& only_simulation_cache_changed(o, n)
                        &&& n.spec_simulation_cache()@.hits == o.spec_simulation_cache()@.hits
                        &&& n.spec_simulation_cache()@.misses == o.spec_simulation_cache()@.misses
                        &&& crate::simulation::insert_prune_result(o.spec_simulation_cache()@.entries, key@,
                            crate::simulation::SimulationCacheEntry { compute_units: u, cached_at_ms: now_ms, slot },
                            config.simulation_cache_config.max_size, n.spec_simulation_cache()@.entries)
                    },
                    _ => n == o,
                })
                &&& r.0 == SimState::Finished
                &&& r.1 matches SimCommand::Done(v) && verdict_holds(config, current_cu, units_consumed, error, v)
            },
            _ => n == o && r == (SimState::Finished, SimCommand::Done(Ok(current_cu))),
        },
        SimState::Finished => false,
    }
}

/// One step of the pre-simulation that sets the compute unit limit: with simulation on
/// and the message compiled, a fresh cached estimate is used when caching applies to the
/// program; otherwise the message is simulated, its consumption cached (when caching
/// applies) and turned into the limit, and a fatal simulation error aborts the build.
/// Without simulation, or when the simulation is unavailable, the limit stays.
pub fn simulation_step(
    core: &mut BuilderCore,
    config: &TransactionConfig,
    current_cu: u32,
    state: SimState,
    event: SimEvent,
    now_ms: u64,
) -> (r: (SimState, SimCommand))
    requires
        old(core).wf(),
        sim_event_expected(state, event),
        config.min_cu_limit <= config.max_cu_limit,
    ensures
        final(core).wf(),
        spec_sim_step(*old(core), *final(core), *config, current_cu, now_ms, state, event, r),
{
    match state {
        SimState::Start => match event {
            SimEvent::Prepared { compiled, key, program_id } => {
                if !config.enable_simulation || !compiled {
                    return (SimState::Finished, SimCommand::Done(Ok(current_cu)));
                }
                if simulation_cache_enabled(config, &program_id) {
                    match core.simulation_lookup(&key, now_ms, config.simulation_cache_config.ttl_seconds) {
                        Some(u) => (SimState::Finished,
                            SimCommand::Done(Ok(estimate_cu_limit(u, config.min_cu_limit, config.max_cu_limit)))),
                        None => (SimState::AwaitSimulation { key, cached: true }, SimCommand::Simulate),
                    }
                } else {
                    (SimState::AwaitSimulation { key, cached: false }, SimCommand::Simulate)
                }
            },
            _ => (SimState::Finished, SimCommand::Done(Ok(current_cu))),
        },
        SimState::AwaitSimulation { key, cached } => match event {
            SimEvent::Simulated { units_consumed, error, slot } => {
                match units_consumed {
                    Some(u) => {
                        if cached {
                            core.simulation_store(key, u, now_ms, slot, config.simulation_cache_config.max_size);
                        }
                    },
                    None => {},
                }
                (SimState::Finished, SimCommand::Done(simulation_verdict(config, current_cu, units_consumed, error)))
            },
            _ => (SimState::Finished, SimCommand::Done(Ok(current_cu))),
        },
        SimState::Finished => (SimState::Finished, SimCommand::Done(Ok(current_cu))),
    }
}

// ============================================================================
// Order of a build, and the sell instruction
// ============================================================================

/// The phases of building a buy or sell transaction.
#[derive(Debug, Clone, Copy, PartialEq, Eq, Structural)]
pub enum BuildPhase {
    /// Check the configuration (and, for a buy, count it: `begin_buy`).
    Begin,
    /// Obtain the execution context: a nonce lease or a recent blockhash.
    PrepareContext,
    /// Obtain the DEX instruction (`buy_instruction_source`, `sell_instruction_source`).
    DexInstruction,
    /// Pre-simulate to set the compute unit limit (`simulation_step`).
    Simulation,
    /// Put the compute budget and DEX instructions in order behind the nonce advance.
    Assemble,
    /// Compile the message.
    Compile,
    /// Have the wallet sign it.
    Sign,
    /// Done (unsigned transactions get default signatures, one per required signer).
    Finished,
}

/// The phase after `phase`: the simulation is skipped when disabled, signing when not
/// asked for.
pub fn next_build_phase(phase: BuildPhase, config: &TransactionConfig, sign: bool) -> (next: BuildPhase)
    ensures
        next == match phase {
            BuildPhase::Begin => BuildPhase::PrepareContext,
            BuildPhase::PrepareContext => BuildPhase::DexInstruction,
            BuildPhase::DexInstruction => if config.enable_simulation { BuildPhase::Simulation } else { BuildPhase::Assemble },
            BuildPhase::Simulation => BuildPhase::Assemble,
            BuildPhase::Assemble => BuildPhase::Compile,
            BuildPhase::Compile => if sign { BuildPhase::Sign } else { BuildPhase::Finished },
            BuildPhase::Sign => BuildPhase::Finished,
            BuildPhase::Finished => BuildPhase::Finished,
        },
{
    match phase {
        BuildPhase::Begin => BuildPhase::PrepareContext,
        BuildPhase::PrepareContext => BuildPhase::DexInstruction,
        BuildPhase::DexInstruction => if config.enable_simulation { BuildPhase::Simulation } else { BuildPhase::Assemble },
        BuildPhase::Simulation => BuildPhase::Assemble,
        BuildPhase::Assemble => BuildPhase::Compile,
        BuildPhase::Compile => if sign { BuildPhase::Sign } else { BuildPhase::Finished },
        BuildPhase::Sign => BuildPhase::Finished,
        BuildPhase::Finished => BuildPhase::Finished,
    }
}

/// Where a sell's DEX instruction comes from. The pump.fun SDK sell path is not part of
/// this build, so every DEX's sell is a memo placeholder (`placeholder_sell_instruction`).
pub fn sell_instruction_source(dex: &DexProgram) -> (r: InstructionSource)
    ensures
        r == InstructionSource::Placeholder,
{
    match dex {
        DexProgram::PumpFun => InstructionSource::Placeholder,
        _ => InstructionSource::Placeholder,
    }
}

// ============================================================================
// Assembling and compiling the transaction
// ============================================================================

/// Number of compute budget instructions: one for a positive unit limit, one for a
/// positive fee unless the DEX instruction is a placeholder.
pub open spec fn compute_budget_count(cu_limit: u32, fee: u64, is_placeholder: bool) -> int {
    (if cu_limit > 0 { 1int } else { 0 }) + (if fee > 0 && !is_placeholder { 1int } else { 0 })
}

/// The instructions of a transaction: the nonce advance (for a durable nonce), then a
/// compute unit limit (when positive) and a compute unit price at the adaptive fee (when
/// positive and the DEX instruction is not a placeholder), then the DEX instruction.
pub fn assemble_instructions<L>(
    exec_ctx: &ExecutionContext<L>,
    config: &TransactionConfig,
    cu_limit: u32,
    is_placeholder: bool,
    dex_instruction: Instruction,
) -> (r: Vec<Instruction>)
    requires
        !is_cb(dex_instruction),
        is_system(dex_instruction) ==> nonce_slots(exec_ctx.spec_has_nonce(), false) == 0 && compute_budget_count(
            cu_limit, crate::config::spec_adaptive_fee(config.adaptive_priority_fee_base,
            config.adaptive_priority_fee_multiplier_permille), is_placeholder) == 0,
    ensures
        ({
            let fee = crate::config::spec_adaptive_fee(config.adaptive_priority_fee_base,
                config.adaptive_priority_fee_multiplier_permille);
            let start = nonce_slots(exec_ctx.spec_has_nonce(), false);
            let k = compute_budget_count(cu_limit, fee, is_placeholder);
            &&& r@.len() == start + k + 1
            &&& r@[r@.len() - 1] == dex_instruction
            &&& start == 1 ==> is_advance_nonce_ix(r@[0], exec_ctx.nonce_pubkey.unwrap(),
                exec_ctx.nonce_authority.unwrap())
            &&& forall|i: int| start <= i < start + k ==> is_cb(#[trigger] r@[i]) && r@[i].accounts@.len() == 0
            &&& cu_limit > 0 ==> r@[start].data@ == seq![2u8] + spec_u32_le(cu_limit)
            &&& fee > 0 && !is_placeholder ==> r@[start + k - 1].data@ == seq![3u8] + spec_u64_le(fee)
            &&& spec_check_order(r@, exec_ctx.spec_has_nonce(), false) == Ok::<(), OrderViolation>(())
        }),
{
    let fee = config.calculate_adaptive_priority_fee();
    let budget = build_compute_budget_instructions(cu_limit, fee, is_placeholder);
    let ghost cb = budget@;
    let r = build_ordered_instructions(exec_ctx, false, budget, dex_instruction);
    proof {
        let start = nonce_slots(exec_ctx.spec_has_nonce(), false);
        assert forall|i: int| start <= i < start + cb.len() implies is_cb(#[trigger] r@[i]) && r@[i].accounts@.len() == 0 by {
            assert(r@[i] == cb[i - start]);
        }
        if cu_limit > 0 {
            assert(r@[start] == cb[0]);
        }
        if fee > 0 && !is_placeholder {
            assert(r@[start + cb.len() - 1] == cb[cb.len() - 1]);
        }
    }
    r
}

/// What `MessageV0::try_compile` (no address lookup tables) of `solana_sdk` gives for
/// these instructions, as an unsigned versioned transaction, or the text of its
/// `CompileError`.
pub uninterp spec fn spec_compile_v0(payer: Pubkey, instructions: Seq<Instruction>, blockhash: HashBytes)
    -> Result<VersionedTransaction, Seq<char>>;

/// Compiles a V0 message with `MessageV0::try_compile` of `solana_sdk` (no address lookup
/// tables) into a transaction with no signatures yet.
/// Claimed: the outcome (the transaction, or the error's text) is a function of the
/// payer, the instructions and the blockhash alone.
#[verifier::external_body]
fn compile_v0(payer: &Pubkey, instructions: &[Instruction], blockhash: &HashBytes)
    -> (r: Result<VersionedTransaction, String>)
    ensures
        match r {
            Ok(tx) => spec_compile_v0(*payer, instructions@, *blockhash) == Ok::<VersionedTransaction, Seq<char>>(tx),
            Err(e) => spec_compile_v0(*payer, instructions@, *blockhash) == Err::<VersionedTransaction, Seq<char>>(e@),
        },
{
    let ixs: Vec<SdkInstruction> = instructions.iter().map(|ix| SdkInstruction::new_with_bytes(
        SdkKey::new_from_array(ix.program_id), &ix.data, ix.accounts.iter().map(|a| SdkMeta {
            pubkey: SdkKey::new_from_array(a.pubkey), is_signer: a.is_signer, is_writable: a.is_writable,
        }).collect())).collect();
    let compiled = MessageV0::try_compile(&SdkKey::new_from_array(*payer), &ixs, &[], SdkHash::new_from_array(*blockhash));
    compiled.map(|m| VersionedTransaction { signatures: Vec::new(), message: VersionedMessage::V0(m) })
        .map_err(|e| e.to_string())
}

/// Compiles the transaction of `program`'s instructions; a compile failure is an
/// `InstructionBuild` error for the program.
pub fn compile_transaction(program: &str, payer: &Pubkey, instructions: &[Instruction], blockhash: &HashBytes)
    -> (r: Result<VersionedTransaction, TransactionBuilderError>)
    ensures
        match spec_compile_v0(*payer, instructions@, *blockhash) {
            Ok(tx) => r == Ok::<VersionedTransaction, TransactionBuilderError>(tx),
            Err(e) => r matches Err(TransactionBuilderError::InstructionBuild { program: p, reason })
                && p@ == program@ && reason@ == "Failed to compile message: "@ + e,
        },
{
    match compile_v0(payer, instructions, blockhash) {
        Ok(tx) => Ok(tx),
        Err(e) => Err(message_compile_error(program, e.as_str())),
    }
}

/// What the transaction is with `n` default (all-zero) signatures in place of its own.
pub uninterp spec fn spec_with_default_signatures(tx: VersionedTransaction, n: usize) -> VersionedTransaction;

/// Replaces the signatures with `n` copies of `Signature::default()` of `solana_sdk`.
/// Claimed: the result is a function of the transaction and `n` alone.
#[verifier::external_body]
fn with_default_signatures(tx: VersionedTransaction, n: usize) -> (r: VersionedTransaction)
    ensures
        r == spec_with_default_signatures(tx, n),
{
    VersionedTransaction { signatures: vec![Signature::default(); n], message: tx.message }
}

/// An unsigned transaction gets one default signature per signer its header requires.
pub fn with_placeholder_signatures(tx: VersionedTransaction) -> (r: VersionedTransaction)
    ensures
        r == spec_with_default_signatures(tx, spec_num_required_signatures(tx) as usize),
{
    let n = message_num_required_signatures(&tx);
    with_default_signatures(tx, n as usize)
}

// ============================================================================
// Quotes
// ============================================================================

/// The least output accepted after slippage: `expected * (10000 - slippage_bps) / 10000`.
pub fn min_out_after_slippage(expected: u64, slippage_bps: u64) -> (min_out: u64)
    requires
        slippage_bps <= 10000,
    ensures
        min_out == (expected as int * (10000 - slippage_bps)) / 10000,
{
    proof {
        assert(expected as int * (10000 - slippage_bps) <= expected as int * 10000) by (nonlinear_arith)
            requires slippage_bps <= 10000, expected >= 0;
        assert(expected as int * (10000 - slippage_bps) >= 0) by (nonlinear_arith)
            requires slippage_bps <= 10000, expected >= 0;
    }
    let r: u128 = (expected as u128) * ((10000 - slippage_bps) as u128) / 10000;
    r as u64
}

/// Tokens a bonding curve with these virtual reserves gives for `sol_in` lamports:
/// `sol_in * virtual_tokens / (virtual_sol + sol_in)`.
pub fn calculate_expected_tokens(virtual_sol: u64, virtual_tokens: u64, sol_in: u64) -> (tokens: u64)
    requires
        sol_in as int * virtual_tokens as int <= u64::MAX,
        virtual_sol as int + sol_in as int <= u64::MAX,
        virtual_sol as int + sol_in as int > 0,
    ensures
        tokens == (sol_in as int * virtual_tokens as int) / (virtual_sol as int + sol_in as int),
{
    (sol_in * virtual_tokens) / (virtual_sol + sol_in)
}

/// Lamports a bonding curve with these virtual reserves gives for `tokens_in` tokens:
/// `tokens_in * virtual_sol / (virtual_tokens + tokens_in)`.
pub fn calculate_expected_sol(virtual_sol: u64, virtual_tokens: u64, tokens_in: u64) -> (sol: u64)
    requires
        tokens_in as int * virtual_sol as int <= u64::MAX,
        virtual_tokens as int + tokens_in as int <= u64::MAX,
        virtual_tokens as int + tokens_in as int > 0,
    ensures
        sol == (tokens_in as int * virtual_sol as int) / (virtual_tokens as int + tokens_in as int),
{
    (tokens_in * virtual_sol) / (virtual_tokens + tokens_in)
}

} // verus!
