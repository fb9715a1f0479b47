//! Unwrapping wrapped SOL: the transaction that closes the wallet's WSOL associated
//! token account, so that its lamports return to the wallet as native SOL.
use vstd::prelude::*;
use vstd::string::StringExecFns;
use crate::errors::TransactionBuilderError;
use crate::flow::{compile_transaction, spec_compile_v0};
use crate::solana::{AccountMeta, HashBytes, Instruction, Pubkey};
use solana_sdk::pubkey::Pubkey as SdkKey;
use solana_sdk::transaction::VersionedTransaction;

verus! {

broadcast use vstd::array::group_array_axioms;

/// Address of the wrapped SOL mint (`So11111111111111111111111111111111111111112`).
pub open spec fn spec_wsol_mint_id() -> Seq<u8> {
    seq![6u8, 155, 136, 87, 254, 171, 129, 132, 251, 104, 127, 99, 70, 24, 192, 53,
         218, 196, 57, 220, 26, 235, 59, 85, 152, 160, 240, 0, 0, 0, 0, 1]
}

/// Address of the SPL token program (`TokenkegQfeZyiNwAJbNbGKPFXCWuBvf9Ss623VQ5DA`).
pub open spec fn spec_token_program_id() -> Seq<u8> {
    seq![6u8, 221, 246, 225, 215, 101, 161, 147, 217, 203, 225, 70, 206, 235, 121, 172,
         28, 180, 133, 237, 95, 91, 55, 145, 58, 140, 245, 133, 126, 255, 0, 169]
}

/// Address of the associated token account program
/// (`ATokenGPvbdGVxr1b2hvZbsiqW5xWH25efTNsLJA8knL`).
pub open spec fn spec_associated_token_program_id() -> Seq<u8> {
    seq![140u8, 151, 37, 143, 78, 36, 137, 241, 187, 61, 16, 41, 20, 142, 13, 131,
         11, 90, 19, 153, 218, 255, 16, 132, 4, 142, 123, 216, 219, 233, 248, 89]
}

/// The address of the wrapped SOL mint.
pub fn wsol_mint_id() -> (id: Pubkey)
    ensures
        id@ == spec_wsol_mint_id(),
{
    let id: Pubkey = [6u8, 155, 136, 87, 254, 171, 129, 132, 251, 104, 127, 99, 70, 24, 192, 53,
        218, 196, 57, 220, 26, 235, 59, 85, 152, 160, 240, 0, 0, 0, 0, 1];
    assert(id@ =~= spec_wsol_mint_id());
    id
}

/// The address of the SPL token program.
pub fn token_program_id() -> (id: Pubkey)
    ensures
        id@ == spec_token_program_id(),
{
    let id: Pubkey = [6u8, 221, 246, 225, 215, 101, 161, 147, 217, 203, 225, 70, 206, 235, 121, 172,
        28, 180, 133, 237, 95, 91, 55, 145, 58, 140, 245, 133, 126, 255, 0, 169];
    assert(id@ =~= spec_token_program_id());
    id
}

/// The address of the associated token account program.
pub fn associated_token_program_id() -> (id: Pubkey)
    ensures
        id@ == spec_associated_token_program_id(),
{
    let id: Pubkey = [140u8, 151, 37, 143, 78, 36, 137, 241, 187, 61, 16, 41, 20, 142, 13, 131,
        11, 90, 19, 153, 218, 255, 16, 132, 4, 142, 123, 216, 219, 233, 248, 89];
    assert(id@ =~= spec_associated_token_program_id());
    id
}

/// What `Pubkey::try_find_program_address` of `solana_sdk` gives for these seeds and
/// program: the derived address and its bump seed, or nothing when no bump seed works.
pub uninterp spec fn spec_find_program_address(seeds: Seq<Seq<u8>>, program_id: Seq<u8>) -> Option<(Seq<u8>, u8)>;

/// Derives a program address from three 32-byte seeds with
/// `Pubkey::try_find_program_address` of `solana_sdk`.
/// Claimed: the outcome is a function of the seeds and the program alone.
#[verifier::external_body]
fn find_program_address(a: &Pubkey, b: &Pubkey, c: &Pubkey, program_id: &Pubkey) -> (r: Option<(Pubkey, u8)>)
    ensures
        match r {
            Some((k, bump)) => spec_find_program_address(seq![a@, b@, c@], program_id@)
                == Some::<(Seq<u8>, u8)>((k@, bump)),
            None => spec_find_program_address(seq![a@, b@, c@], program_id@) is None,
        },
{
    SdkKey::try_find_program_address(&[&a[..], &b[..], &c[..]], &SdkKey::new_from_array(*program_id))
        .map(|(k, bump)| (k.to_bytes(), bump))
}

/// The associated token account of `wallet` for `mint`: the address derived from the
/// seeds wallet, token program, mint under the associated token account program.
pub open spec fn spec_associated_token_address(wallet: Seq<u8>, mint: Seq<u8>) -> Option<Seq<u8>> {
    match spec_find_program_address(seq![wallet, spec_token_program_id(), mint], spec_associated_token_program_id()) {
        Some(found) => Some(found.0),
        None => None,
    }
}

/// The associated token account of `wallet` for `mint`, if an address can be derived.
pub fn associated_token_address(wallet: &Pubkey, mint: &Pubkey) -> (r: Option<Pubkey>)
    ensures
        match r {
            Some(k) => spec_associated_token_address(wallet@, mint@) == Some(k@),
            None => spec_associated_token_address(wallet@, mint@) is None,
        },
{
    let token = token_program_id();
    let program = associated_token_program_id();
    match find_program_address(wallet, &token, mint, &program) {
        Some((k, _)) => Some(k),
        None => None,
    }
}

/// The SPL token instruction that closes `account`, sending its lamports to
/// `destination`, with `owner` as the one signer (what `spl_token`'s `close_account`
/// builds when no multisig signers are given): token program, accounts `account`
/// (writable), `destination` (writable), `owner` (read-only, signing), and data `[9]`,
/// the packed `CloseAccount` tag.
pub fn close_account_instruction(account: &Pubkey, destination: &Pubkey, owner: &Pubkey) -> (ix: Instruction)
    ensures
        ix.program_id@ == spec_token_program_id(),
        ix.accounts@ == seq![
            AccountMeta { pubkey: *account, is_signer: false, is_writable: true },
            AccountMeta { pubkey: *destination, is_signer: false, is_writable: true },
            AccountMeta { pubkey: *owner, is_signer: true, is_writable: false },
        ],
        ix.data@ == seq![9u8],
{
    let mut accounts: Vec<AccountMeta> = Vec::new();
    accounts.push(AccountMeta { pubkey: *account, is_signer: false, is_writable: true });
    accounts.push(AccountMeta { pubkey: *destination, is_signer: false, is_writable: true });
    accounts.push(AccountMeta { pubkey: *owner, is_signer: true, is_writable: false });
    let mut data: Vec<u8> = Vec::new();
    data.push(9u8);
    let ix = Instruction { program_id: token_program_id(), accounts, data };
    assert(ix.accounts@ =~= seq![
        AccountMeta { pubkey: *account, is_signer: false, is_writable: true },
        AccountMeta { pubkey: *destination, is_signer: false, is_writable: true },
        AccountMeta { pubkey: *owner, is_signer: true, is_writable: false },
    ]);
    assert(ix.data@ =~= seq![9u8]);
    ix
}

/// The error when the wallet's WSOL account address cannot be derived.
pub open spec fn no_wsol_account_reason() -> Seq<char> {
    "no associated token address for the wrapped SOL mint"@
}

/// Is `ix` the instruction that closes `wallet`'s WSOL account `ata` into the wallet?
pub open spec fn is_wsol_close(ix: Instruction, ata: Seq<u8>, wallet: Pubkey) -> bool {
    &&& ix.program_id@ == spec_token_program_id()
    &&& ix.accounts@.len() == 3
    &&& ix.accounts@[0].pubkey@ == ata && !ix.accounts@[0].is_signer && ix.accounts@[0].is_writable
    &&& ix.accounts@[1] == (AccountMeta { pubkey: wallet, is_signer: false, is_writable: true })
    &&& ix.accounts@[2] == (AccountMeta { pubkey: wallet, is_signer: true, is_writable: false })
    &&& ix.data@ == seq![9u8]
}

/// The instruction of an unwrap: close the wallet's WSOL associated token account, the
/// wallet receiving the lamports and signing as owner. An `InstructionBuild` error for
/// `unwrap_wsol` when the account's address cannot be derived.
pub fn unwrap_wsol_instruction(wallet: &Pubkey) -> (r: Result<Instruction, TransactionBuilderError>)
    ensures
        match spec_associated_token_address(wallet@, spec_wsol_mint_id()) {
            Some(ata) => r matches Ok(ix) && is_wsol_close(ix, ata, *wallet),
            None => r matches Err(TransactionBuilderError::InstructionBuild { program, reason })
                && program@ == "unwrap_wsol"@ && reason@ == no_wsol_account_reason(),
        },
{
    let mint = wsol_mint_id();
    match associated_token_address(wallet, &mint) {
        Some(ata) => Ok(close_account_instruction(&ata, wallet, wallet)),
        None => Err(TransactionBuilderError::InstructionBuild {
            program: String::from_str("unwrap_wsol"),
            reason: String::from_str("no associated token address for the wrapped SOL mint"),
        }),
    }
}

/// The unsigned unwrap transaction: the close instruction compiled with the wallet as
/// payer at `blockhash`; a compile failure is an `InstructionBuild` error for
/// `unwrap_wsol`.
pub fn unwrap_wsol_transaction(wallet: &Pubkey, blockhash: &HashBytes)
    -> (r: Result<VersionedTransaction, TransactionBuilderError>)
    ensures
        match spec_associated_token_address(wallet@, spec_wsol_mint_id()) {
            None => r matches Err(TransactionBuilderError::InstructionBuild { program, reason })
                && program@ == "unwrap_wsol"@ && reason@ == no_wsol_account_reason(),
            Some(ata) => exists|ix: Instruction| #[trigger] is_wsol_close(ix, ata, *wallet) && {
                match spec_compile_v0(*wallet, seq![ix], *blockhash) {
                    Ok(tx) => r == Ok::<VersionedTransaction, TransactionBuilderError>(tx),
                    Err(e) => r matches Err(TransactionBuilderError::InstructionBuild { program, reason })
                        && program@ == "unwrap_wsol"@ && reason@ == "Failed to compile message: "@ + e,
                }
            },
        },
{
    let ix = match unwrap_wsol_instruction(wallet) {
        Ok(ix) => ix,
        Err(e) => return Err(e),
    };
    let mut ixs: Vec<Instruction> = Vec::new();
    ixs.push(ix);
    assert(ixs@ =~= seq![ix]);
    compile_transaction("unwrap_wsol", wallet, ixs.as_slice(), blockhash)
}

} // verus!
