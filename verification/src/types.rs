//! Core data types shared by the builder.
use vstd::prelude::*;
use crate::solana::{HashBytes, Pubkey};
use solana_sdk::transaction::VersionedTransaction;

verus! {

/// Execution context: the blockhash to build with and, for durable transactions,
/// the nonce account, its authority and the lease that holds the nonce.
pub struct ExecutionContext<L> {
    pub blockhash: HashBytes,
    pub nonce_pubkey: Option<Pubkey>,
    pub nonce_authority: Option<Pubkey>,
    pub nonce_lease: Option<L>,
}

impl<L> ExecutionContext<L> {
    /// Does the context carry a durable nonce (both its account and its authority)?
    pub open spec fn spec_has_nonce(&self) -> bool {
        self.nonce_pubkey.is_some() && self.nonce_authority.is_some()
    }

    /// Extract the nonce lease, consuming the context.
    pub fn extract_lease(self) -> (lease: Option<L>)
        ensures
            lease == self.nonce_lease,
    {
        self.nonce_lease
    }
}

/// The signers a message needs: the first `num_required_signatures` of its static
/// account keys (all of them when there are fewer keys).
pub open spec fn spec_required_signers(num_required_signatures: u8, keys: Seq<Pubkey>) -> Seq<Pubkey> {
    if (num_required_signatures as int) < keys.len() { keys.take(num_required_signatures as int) } else { keys }
}

/// The signers a message needs, from its header's count of required signatures and its
/// static account keys.
pub fn required_signers(num_required_signatures: u8, keys: &[Pubkey]) -> (r: Vec<Pubkey>)
    ensures
        r@ == spec_required_signers(num_required_signatures, keys@),
{
    let n: usize = if (num_required_signatures as usize) < keys.len() { num_required_signatures as usize } else { keys.len() };
    let mut r: Vec<Pubkey> = Vec::new();
    let mut i: usize = 0;
    while i < n
        invariant
            n <= keys@.len(),
            n == (if (num_required_signatures as int) < keys@.len() { num_required_signatures as int } else { keys@.len() as int }),
            0 <= i <= n,
            r@ == keys@.take(i as int),
        decreases n - i,
    {
        r.push(keys[i]);
        i += 1;
        assert(r@ =~= keys@.take(i as int));
    }
    assert(r@ =~= spec_required_signers(num_required_signatures, keys@));
    r
}

/// What `num_required_signatures` of the header of a transaction's message
/// (`VersionedMessage::header`) is.
pub uninterp spec fn spec_num_required_signatures(tx: VersionedTransaction) -> u8;

/// What the static account keys of a transaction's message
/// (`VersionedMessage::static_account_keys`) are, each as its 32 bytes, in order.
pub uninterp spec fn spec_static_account_keys(tx: VersionedTransaction) -> Seq<Pubkey>;

/// `num_required_signatures` of the transaction message's header (`VersionedMessage::header`).
/// Claimed: the number is a field of the message alone (named `spec_num_required_signatures`).
#[verifier::external_body]
pub(crate) fn message_num_required_signatures(tx: &VersionedTransaction) -> (n: u8)
    ensures
        n == spec_num_required_signatures(*tx),
{
    tx.message.header().num_required_signatures
}

/// The transaction message's static account keys (`VersionedMessage::static_account_keys`),
/// each as its 32 bytes, in order.
/// Claimed: they are a field of the message alone (named `spec_static_account_keys`).
#[verifier::external_body]
fn message_static_account_keys(tx: &VersionedTransaction) -> (keys: Vec<Pubkey>)
    ensures
        keys@ == spec_static_account_keys(*tx),
{
    tx.message.static_account_keys().iter().map(|k| k.to_bytes()).collect()
}

/// A built transaction with the nonce lease it holds (until broadcast) and the signers
/// its message requires.
pub struct TxBuildOutput<L> {
    /// The built transaction, ready for signing and broadcast.
    pub tx: VersionedTransaction,
    /// The nonce lease held until the transaction is broadcast, if any.
    pub nonce_guard: Option<L>,
    /// The signers required by the transaction's message header.
    pub required_signers: Vec<Pubkey>,
}

impl<L> TxBuildOutput<L> {
    /// Wraps a built transaction and its lease; the required signers are the first
    /// `num_required_signatures` (of the message header) static account keys of the
    /// message (see `required_signers`).
    pub fn new(tx: VersionedTransaction, nonce_guard: Option<L>) -> (out: TxBuildOutput<L>)
        ensures
            out.tx == tx,
            out.nonce_guard == nonce_guard,
            out.required_signers@ == spec_required_signers(spec_num_required_signatures(tx),
                spec_static_account_keys(tx)),
            out.required_signers@.len() <= 255,
    {
        let n = message_num_required_signatures(&tx);
        let keys = message_static_account_keys(&tx);
        let required_signers = required_signers(n, keys.as_slice());
        TxBuildOutput { tx, nonce_guard, required_signers }
    }

    /// Gives up the output and hands back its nonce lease, if it holds one, to be released.
    pub fn release_nonce(self) -> (guard: Option<L>)
        ensures
            guard == self.nonce_guard,
    {
        self.nonce_guard
    }
}

/// Metadata tracked for an allowed program.
#[derive(Debug, Clone)]
pub struct ProgramMetadata {
    /// Program version string (e.g. "1.0.0").
    pub version: String,
    /// Last slot where this program was verified.
    pub last_verified_slot: u64,
    /// Whether the program has been verified as safe.
    pub is_verified: bool,
}

/// Program metadata as plain values.
pub ghost struct ProgramMetadataView {
    pub version: Seq<char>,
    pub last_verified_slot: u64,
    pub is_verified: bool,
}

impl View for ProgramMetadata {
    type V = ProgramMetadataView;

    open spec fn view(&self) -> ProgramMetadataView {
        ProgramMetadataView {
            version: self.version@,
            last_verified_slot: self.last_verified_slot,
            is_verified: self.is_verified,
        }
    }
}

impl Default for ProgramMetadata {
    fn default() -> (m: Self)
        ensures
            m@ == (ProgramMetadataView { version: "unknown"@, last_verified_slot: 0, is_verified: false }),
    {
        ProgramMetadata { version: "unknown".to_owned(), last_verified_slot: 0, is_verified: false }
    }
}

/// Operation priority, which decides between a durable nonce and a recent blockhash.
#[derive(Debug, Clone, Copy, PartialEq, Eq, Structural)]
pub enum OperationPriority {
    /// Critical sniper operations: require a nonce lease, fail fast on exhaustion.
    CriticalSniper,
    /// Utility operations: prefer a recent blockhash for speed.
    Utility,
    /// Bulk, non-urgent operations.
    Bulk,
}

impl Default for OperationPriority {
    fn default() -> (p: Self)
        ensures
            p == OperationPriority::Utility,
    {
        OperationPriority::Utility
    }
}

impl OperationPriority {
    /// Does this operation require a nonce lease? Only critical sniper operations do.
    pub fn requires_nonce(&self) -> (r: bool)
        ensures
            r == (*self == OperationPriority::CriticalSniper),
    {
        match self {
            OperationPriority::CriticalSniper => true,
            OperationPriority::Utility => false,
            OperationPriority::Bulk => false,
        }
    }

    /// May the operation fall back to a recent blockhash when nonces run out?
    /// All but critical sniper operations may.
    pub fn allow_blockhash_fallback(&self) -> (r: bool)
        ensures
            r == (*self != OperationPriority::CriticalSniper),
    {
        match self {
            OperationPriority::CriticalSniper => false,
            OperationPriority::Utility => true,
            OperationPriority::Bulk => true,
        }
    }
}

/// Telemetry metrics.
#[derive(Debug, Clone)]
pub struct TxBuilderMetrics {
    pub simulation_cache_size: usize,
    pub simulation_cache_capacity: usize,
    pub simulation_cache_hits: u64,
    pub simulation_cache_misses: u64,
    pub nonce_acquire_count: u64,
    pub nonce_exhausted_count: u64,
    pub blockhash_quorum_success_count: u64,
    pub blockhash_fallback_count: u64,
    pub transaction_count: u64,
    pub rotation_checkpoint: u64,
}

} // verus!
