//! Account keys and instructions as plain values, and the calls into
//! `solana_sdk` that build or read them.
use vstd::prelude::*;

verus! {

broadcast use vstd::array::group_array_axioms;

/// A 32-byte account address (the bytes of a `solana_sdk::pubkey::Pubkey`).
pub type Pubkey = [u8; 32];

/// A 32-byte hash (the bytes of a `solana_sdk::hash::Hash`).
pub type HashBytes = [u8; 32];

/// One account that an instruction reads or writes.
#[derive(Debug, Clone, Copy, PartialEq, Eq)]
pub struct AccountMeta {
    pub pubkey: Pubkey,
    pub is_signer: bool,
    pub is_writable: bool,
}

/// An instruction: the program it calls, its accounts and its data.
#[derive(Debug, Clone, PartialEq, Eq)]
pub struct Instruction {
    pub program_id: Pubkey,
    pub accounts: Vec<AccountMeta>,
    pub data: Vec<u8>,
}

/// Address of the system program (`11111111111111111111111111111111`).
pub open spec fn spec_system_program_id() -> Seq<u8> {
    Seq::new(32, |i: int| 0u8)
}

/// Address of the compute budget program (`ComputeBudget111111111111111111111111111111`).
pub open spec fn spec_compute_budget_program_id() -> Seq<u8> {
    seq![3u8, 6, 70, 111, 229, 33, 23, 50, 255, 236, 173, 186, 114, 195, 155, 231,
         188, 140, 229, 187, 197, 247, 18, 107, 44, 67, 155, 58, 64, 0, 0, 0]
}

/// Address of the recent blockhashes sysvar (`SysvarRecentB1ockHashes11111111111111111111`).
pub open spec fn spec_recent_blockhashes_id() -> Seq<u8> {
    seq![6u8, 167, 213, 23, 25, 44, 86, 142, 224, 138, 132, 95, 115, 210, 151, 136,
         207, 3, 92, 49, 69, 178, 26, 179, 68, 216, 6, 46, 169, 64, 0, 0]
}

/// Address of the SPL memo program (`MemoSq4gqABAXKb96qnH8TysNcWxMyWCqXgDLGmfcHr`).
pub open spec fn spec_memo_program_id() -> Seq<u8> {
    seq![5u8, 74, 83, 90, 153, 41, 33, 6, 77, 36, 232, 113, 96, 218, 56, 124,
         124, 53, 181, 221, 188, 146, 187, 129, 228, 31, 168, 64, 65, 5, 68, 141]
}

/// Little-endian bytes of a `u32`.
pub open spec fn spec_u32_le(v: u32) -> Seq<u8> {
    seq![(v % 0x100) as u8, ((v / 0x100) % 0x100) as u8, ((v / 0x10000) % 0x100) as u8,
         ((v / 0x1000000) % 0x100) as u8]
}

/// Little-endian bytes of a `u64`.
pub open spec fn spec_u64_le(v: u64) -> Seq<u8> {
    spec_u32_le((v % 0x1_0000_0000) as u32) + spec_u32_le((v / 0x1_0000_0000) as u32)
}

/// The address of the system program, from `solana_sdk::system_program::id`.
/// Claimed: its bytes are 32 zeros.
#[verifier::external_body]
#[allow(deprecated)]
pub(crate) fn system_program_id() -> (id: Pubkey)
    ensures
        id@ == spec_system_program_id(),
{
    solana_sdk::system_program::id().to_bytes()
}

/// The address of the compute budget program, from `solana_sdk::compute_budget::id`.
/// Claimed: its bytes are those of `ComputeBudget111111111111111111111111111111`.
#[verifier::external_body]
#[allow(deprecated)]
pub(crate) fn compute_budget_program_id() -> (id: Pubkey)
    ensures
        id@ == spec_compute_budget_program_id(),
{
    solana_sdk::compute_budget::id().to_bytes()
}

/// The address of the SPL memo program.
pub fn memo_program_id() -> (id: Pubkey)
    ensures
        id@ == spec_memo_program_id(),
{
    let id: Pubkey = [5u8, 74, 83, 90, 153, 41, 33, 6, 77, 36, 232, 113, 96, 218, 56, 124,
        124, 53, 181, 221, 188, 146, 187, 129, 228, 31, 168, 64, 65, 5, 68, 141];
    assert(id@ =~= spec_memo_program_id());
    id
}

/// `solana_sdk::system_instruction::advance_nonce_account`.
/// Claimed, as its source builds it: a system program instruction whose data is the
/// bincode encoding of `SystemInstruction::AdvanceNonceAccount` (variant 4 as a
/// little-endian `u32`), with the accounts nonce (writable), the recent blockhashes
/// sysvar (read-only) and the authority (read-only signer).
#[verifier::external_body]
#[allow(deprecated)]
pub(crate) fn advance_nonce_account(nonce: &Pubkey, authority: &Pubkey) -> (ix: Instruction)
    ensures
        ix.program_id@ == spec_system_program_id(),
        ix.data@ == seq![4u8, 0, 0, 0],
        ix.accounts@.len() == 3,
        ix.accounts@[0] == (AccountMeta { pubkey: *nonce, is_signer: false, is_writable: true }),
        ix.accounts@[1].pubkey@ == spec_recent_blockhashes_id(),
        !ix.accounts@[1].is_signer && !ix.accounts@[1].is_writable,
        ix.accounts@[2] == (AccountMeta { pubkey: *authority, is_signer: true, is_writable: false }),
{
    let ix = solana_sdk::system_instruction::advance_nonce_account(
        &solana_sdk::pubkey::Pubkey::new_from_array(*nonce),
        &solana_sdk::pubkey::Pubkey::new_from_array(*authority),
    );
    Instruction {
        program_id: ix.program_id.to_bytes(),
        accounts: ix.accounts.iter().map(|m| AccountMeta {
            pubkey: m.pubkey.to_bytes(), is_signer: m.is_signer, is_writable: m.is_writable,
        }).collect(),
        data: ix.data,
    }
}

/// `ComputeBudgetInstruction::set_compute_unit_limit` of `solana_sdk::compute_budget`.
/// Claimed, as its source builds it: a compute budget program instruction with no
/// accounts whose data is the tag 2 followed by `units` in little-endian order.
#[verifier::external_body]
#[allow(deprecated)]
pub(crate) fn set_compute_unit_limit(units: u32) -> (ix: Instruction)
    ensures
        ix.program_id@ == spec_compute_budget_program_id(),
        ix.accounts@.len() == 0,
        ix.data@ == seq![2u8] + spec_u32_le(units),
{
    let ix = solana_sdk::compute_budget::ComputeBudgetInstruction::set_compute_unit_limit(units);
    Instruction { program_id: ix.program_id.to_bytes(), accounts: Vec::new(), data: ix.data }
}

/// `ComputeBudgetInstruction::set_compute_unit_price` of `solana_sdk::compute_budget`.
/// Claimed, as its source builds it: a compute budget program instruction with no
/// accounts whose data is the tag 3 followed by `micro_lamports` in little-endian order.
#[verifier::external_body]
#[allow(deprecated)]
pub(crate) fn set_compute_unit_price(micro_lamports: u64) -> (ix: Instruction)
    ensures
        ix.program_id@ == spec_compute_budget_program_id(),
        ix.accounts@.len() == 0,
        ix.data@ == seq![3u8] + spec_u64_le(micro_lamports),
{
    let ix = solana_sdk::compute_budget::ComputeBudgetInstruction::set_compute_unit_price(
        micro_lamports,
    );
    Instruction { program_id: ix.program_id.to_bytes(), accounts: Vec::new(), data: ix.data }
}

/// What `Pubkey::from_str` of `solana_sdk` gives for a string: the decoded bytes,
/// or the text of its `ParsePubkeyError`.
pub uninterp spec fn spec_parse_pubkey(s: Seq<char>) -> Result<Seq<u8>, Seq<char>>;

/// Parses a base58 address with `Pubkey::from_str` of `solana_sdk`.
/// Claimed: the outcome (the key, or the error's text) is a function of `s` alone.
#[verifier::external_body]
pub(crate) fn parse_pubkey(s: &str) -> (r: Result<Pubkey, String>)
    ensures
        match r {
            Ok(k) => spec_parse_pubkey(s@) == Ok::<Seq<u8>, Seq<char>>(k@),
            Err(e) => spec_parse_pubkey(s@) == Err::<Seq<u8>, Seq<char>>(e@),
        },
{
    match <solana_sdk::pubkey::Pubkey as std::str::FromStr>::from_str(s) {
        Ok(k) => Ok(k.to_bytes()),
        Err(e) => Err(e.to_string()),
    }
}

/// What `Pubkey`'s `Display` of `solana_sdk` writes (base58) for these bytes.
pub uninterp spec fn spec_pubkey_to_string(k: Seq<u8>) -> Seq<char>;

/// Renders an address in base58 with the `Display` of `solana_sdk::pubkey::Pubkey`.
/// Claimed: the text is a function of the key bytes alone.
#[verifier::external_body]
pub(crate) fn pubkey_to_string(k: &Pubkey) -> (s: String)
    ensures
        s@ == spec_pubkey_to_string(k@),
{
    solana_sdk::pubkey::Pubkey::new_from_array(*k).to_string()
}

/// Equality of two 32-byte keys.
pub fn keys_eq(a: &Pubkey, b: &Pubkey) -> (r: bool)
    ensures
        r == (a@ == b@),
        r == (*a == *b),
{
    let mut i: usize = 0;
    while i < 32
        invariant
            0 <= i <= 32,
            forall|j: int| 0 <= j < i ==> a@[j] == b@[j],
        decreases 32 - i,
    {
        if a[i] != b[i] {
            return false;
        }
        i += 1;
    }
    assert(a@ =~= b@);
    assert(*a =~= *b);
    true
}

/// Two keys with the same bytes are the same key.
pub proof fn lemma_key_view_injective(a: [u8; 32], b: [u8; 32])
    requires
        a@ == b@,
    ensures
        a == b,
{
    assert(a =~= b);
}

} // verus!
