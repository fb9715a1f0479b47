//! Deterministic instruction order: advance nonce, then compute budget, then the DEX call.
use vstd::prelude::*;
use crate::solana::{
    advance_nonce_account, compute_budget_program_id, keys_eq, memo_program_id,
    set_compute_unit_limit, set_compute_unit_price, spec_compute_budget_program_id,
    spec_memo_program_id, spec_recent_blockhashes_id, spec_system_program_id, spec_u32_le,
    spec_u64_le, system_program_id, AccountMeta, Instruction, Pubkey,
};
use crate::types::ExecutionContext;
use crate::config::{decimal, spec_decimal};
use crate::solana::{pubkey_to_string, spec_pubkey_to_string};
use vstd::string::StringExecFns;

verus! {

/// Why an instruction list is not in the order advance nonce, compute budget, DEX.
#[allow(inconsistent_fields)]
#[derive(Debug, Clone, Copy, PartialEq, Eq)]
pub enum OrderViolation {
    /// The list holds no instruction.
    Empty,
    /// A durable nonce is used but the first instruction is not a system program call;
    /// `found` is the program it calls.
    NonceNotFirst { found: Pubkey },
    /// Nothing follows the compute budget instructions.
    NoDexInstruction,
    /// The instruction after the compute budget ones, at `index`, calls the system program.
    DexIsSystem { index: usize },
    /// Something follows the DEX instruction: `expected` instructions were expected, `found` are there.
    WrongCount { expected: usize, found: usize },
}

/// Is this instruction a call to the compute budget program?
pub open spec fn is_cb(ix: Instruction) -> bool {
    ix.program_id@ == spec_compute_budget_program_id()
}

/// Is this instruction a call to the system program?
pub open spec fn is_system(ix: Instruction) -> bool {
    ix.program_id@ == spec_system_program_id()
}

/// The first index at or after `i` that is past the run of compute budget instructions.
pub open spec fn cb_run_end(ixs: Seq<Instruction>, i: int) -> int
    decreases ixs.len() - i,
{
    if i < 0 || i >= ixs.len() || !is_cb(ixs[i]) {
        i
    } else {
        cb_run_end(ixs, i + 1)
    }
}

/// Number of leading advance-nonce instructions: one for a durable nonce outside simulation.
pub open spec fn nonce_slots(has_nonce: bool, simulation_mode: bool) -> int {
    if has_nonce && !simulation_mode { 1 } else { 0 }
}

/// The outcome of the order check on `ixs`.
pub open spec fn spec_check_order(ixs: Seq<Instruction>, has_nonce: bool, simulation_mode: bool)
    -> Result<(), OrderViolation>
{
    let start = nonce_slots(has_nonce, simulation_mode);
    let end = cb_run_end(ixs, start);
    if ixs.len() == 0 {
        Err(OrderViolation::Empty)
    } else if start == 1 && !is_system(ixs[0]) {
        Err(OrderViolation::NonceNotFirst { found: ixs[0].program_id })
    } else if end >= ixs.len() {
        Err(OrderViolation::NoDexInstruction)
    } else if is_system(ixs[end]) && end > 0 {
        Err(OrderViolation::DexIsSystem { index: end as usize })
    } else if end + 1 != ixs.len() {
        Err(OrderViolation::WrongCount { expected: (end + 1) as usize, found: ixs.len() as usize })
    } else {
        Ok(())
    }
}

proof fn lemma_cb_run_end_skips(ixs: Seq<Instruction>, i: int, n: int)
    requires
        0 <= i,
        0 <= n,
        i + n < ixs.len(),
        forall|j: int| i <= j < i + n ==> is_cb(#[trigger] ixs[j]),
        !is_cb(ixs[i + n]),
    ensures
        cb_run_end(ixs, i) == i + n,
    decreases n,
{
    if n > 0 {
        lemma_cb_run_end_skips(ixs, i + 1, n - 1);
    }
}

/// Inputs for which the ordered list passes the order check: the advance nonce
/// instruction calls the system program, every compute budget instruction calls the
/// compute budget program, the DEX instruction does not, and the DEX instruction calls
/// the system program only when it comes first.
pub open spec fn orderable(
    has_nonce: bool,
    simulation_mode: bool,
    advance: Instruction,
    cb: Seq<Instruction>,
    dex: Instruction,
) -> bool {
    &&& nonce_slots(has_nonce, simulation_mode) == 1 ==> is_system(advance)
    &&& forall|i: int| 0 <= i < cb.len() ==> is_cb(#[trigger] cb[i])
    &&& !is_cb(dex)
    &&& is_system(dex) ==> nonce_slots(has_nonce, simulation_mode) + cb.len() == 0
}

/// The list in the order advance nonce (when a durable nonce is used outside
/// simulation), compute budget instructions, DEX instruction.
pub open spec fn ordered(
    has_nonce: bool,
    simulation_mode: bool,
    advance: Instruction,
    cb: Seq<Instruction>,
    dex: Instruction,
) -> Seq<Instruction> {
    (if nonce_slots(has_nonce, simulation_mode) == 1 { seq![advance] } else { seq![] }) + cb + seq![dex]
}

/// Law: a list built in the order advance nonce, compute budget, DEX passes the order
/// check whenever the advance nonce instruction calls the system program, the compute
/// budget instructions call the compute budget program and the DEX instruction is neither
/// a compute budget call nor, unless it stands first, a system program call.
pub proof fn lemma_ordered_list_passes_check(
    has_nonce: bool,
    simulation_mode: bool,
    advance: Instruction,
    cb: Seq<Instruction>,
    dex: Instruction,
)
    requires
        orderable(has_nonce, simulation_mode, advance, cb, dex),
    ensures
        spec_check_order(ordered(has_nonce, simulation_mode, advance, cb, dex), has_nonce, simulation_mode)
            == Ok::<(), OrderViolation>(()),
{
    let ixs = ordered(has_nonce, simulation_mode, advance, cb, dex);
    let start = nonce_slots(has_nonce, simulation_mode);
    assert(ixs.len() == start + cb.len() + 1);
    assert(start == 1 ==> ixs[0] == advance);
    assert forall|j: int| start <= j < start + cb.len() implies is_cb(#[trigger] ixs[j]) by {
        assert(ixs[j] == cb[j - start]);
    }
    assert(ixs[start + cb.len()] == dex);
    lemma_cb_run_end_skips(ixs, start, cb.len() as int);
}

/// The message that reports an order violation.
pub open spec fn spec_violation_message(v: OrderViolation) -> Seq<char> {
    match v {
        OrderViolation::Empty => "Instruction list is empty"@,
        OrderViolation::NonceNotFirst { found } =>
            "Expected advance nonce instruction at index 0, but found program_id: "@ + spec_pubkey_to_string(found@),
        OrderViolation::NoDexInstruction => "No DEX instruction found after compute budget instructions"@,
        OrderViolation::DexIsSystem { index } =>
            "Expected DEX instruction at index "@ + spec_decimal(index as nat) + ", found system program instruction"@,
        OrderViolation::WrongCount { expected, found } =>
            "Expected exactly "@ + spec_decimal(expected as nat) + " instructions, found "@ + spec_decimal(found as nat)
                + ". Only one DEX instruction should be present."@,
    }
}

impl OrderViolation {
    /// The message that reports this violation.
    pub fn message(&self) -> (m: String)
        ensures
            m@ == spec_violation_message(*self),
    {
        match self {
            OrderViolation::Empty => String::from_str("Instruction list is empty"),
            OrderViolation::NonceNotFirst { found } => {
                let mut m = String::from_str("Expected advance nonce instruction at index 0, but found program_id: ");
                m.append(pubkey_to_string(found).as_str());
                m
            },
            OrderViolation::NoDexInstruction => String::from_str("No DEX instruction found after compute budget instructions"),
            OrderViolation::DexIsSystem { index } => {
                let mut m = String::from_str("Expected DEX instruction at index ");
                m.append(decimal(*index).as_str());
                m.append(", found system program instruction");
                m
            },
            OrderViolation::WrongCount { expected, found } => {
                let mut m = String::from_str("Expected exactly ");
                m.append(decimal(*expected).as_str());
                m.append(" instructions, found ");
                m.append(decimal(*found).as_str());
                m.append(". Only one DEX instruction should be present.");
                m
            },
        }
    }
}

/// Finds the first order violation of an instruction list, if any.
pub fn check_instruction_order(
    instructions: &[Instruction],
    has_nonce: bool,
    simulation_mode: bool,
) -> (r: Result<(), OrderViolation>)
    ensures
        r == spec_check_order(instructions@, has_nonce, simulation_mode),
{
    let n = instructions.len();
    if n == 0 {
        return Err(OrderViolation::Empty);
    }
    let system_id = system_program_id();
    let cb_id = compute_budget_program_id();
    let mut idx: usize = 0;
    if has_nonce && !simulation_mode {
        if !keys_eq(&instructions[0].program_id, &system_id) {
            return Err(OrderViolation::NonceNotFirst { found: instructions[0].program_id });
        }
        idx = 1;
    }
    let ghost start = idx as int;
    loop
        invariant
            n == instructions@.len(),
            0 <= start <= idx <= n,
            start == nonce_slots(has_nonce, simulation_mode),
            cb_id@ == spec_compute_budget_program_id(),
            cb_run_end(instructions@, start) == cb_run_end(instructions@, idx as int),
        ensures
            idx == n || !is_cb(instructions@[idx as int]),
        decreases n - idx,
    {
        if idx >= n {
            break;
        }
        if !keys_eq(&instructions[idx].program_id, &cb_id) {
            break;
        }
        assert(cb_run_end(instructions@, idx as int) == cb_run_end(instructions@, idx + 1));
        idx += 1;
    }
    assert(cb_run_end(instructions@, idx as int) == idx as int);
    if idx >= n {
        return Err(OrderViolation::NoDexInstruction);
    }
    if keys_eq(&instructions[idx].program_id, &system_id) && idx > 0 {
        return Err(OrderViolation::DexIsSystem { index: idx });
    }
    if idx + 1 != n {
        return Err(OrderViolation::WrongCount { expected: idx + 1, found: n });
    }
    Ok(())
}

/// Checks that instructions follow the order advance nonce (present and first for a
/// durable nonce outside simulation), compute budget instructions, then exactly one
/// DEX instruction; a violation is reported by its message.
pub fn validate_instruction_order(
    instructions: &[Instruction],
    has_nonce: bool,
    simulation_mode: bool,
) -> (r: Result<(), String>)
    ensures
        match spec_check_order(instructions@, has_nonce, simulation_mode) {
            Ok(()) => r is Ok,
            Err(v) => r matches Err(m) && m@ == spec_violation_message(v),
        },
{
    match check_instruction_order(instructions, has_nonce, simulation_mode) {
        Ok(()) => Ok(()),
        Err(v) => Err(v.message()),
    }
}

/// `ix` is the advance nonce instruction for `nonce` with `authority`.
pub open spec fn is_advance_nonce_ix(ix: Instruction, nonce: Pubkey, authority: Pubkey) -> bool {
    &&& ix.program_id@ == spec_system_program_id()
    &&& ix.data@ == seq![4u8, 0, 0, 0]
    &&& ix.accounts@.len() == 3
    &&& ix.accounts@[0] == (AccountMeta { pubkey: nonce, is_signer: false, is_writable: true })
    &&& ix.accounts@[1].pubkey@ == spec_recent_blockhashes_id()
    &&& !ix.accounts@[1].is_signer && !ix.accounts@[1].is_writable
    &&& ix.accounts@[2] == (AccountMeta { pubkey: authority, is_signer: true, is_writable: false })
}

/// Builds the instructions in deterministic order: the advance nonce instruction
/// (only for a durable nonce outside simulation), the compute budget instructions,
/// then the DEX instruction. The result passes `validate_instruction_order`.
pub fn build_ordered_instructions<L>(
    exec_ctx: &ExecutionContext<L>,
    simulation_mode: bool,
    compute_budget_instructions: Vec<Instruction>,
    dex_instruction: Instruction,
) -> (r: Vec<Instruction>)
    requires
        forall|i: int| 0 <= i < compute_budget_instructions@.len()
            ==> is_cb(#[trigger] compute_budget_instructions@[i]),
        !is_cb(dex_instruction),
        is_system(dex_instruction) ==> nonce_slots(exec_ctx.spec_has_nonce(), simulation_mode)
            + compute_budget_instructions@.len() == 0,
    ensures
        r@ == ordered(exec_ctx.spec_has_nonce(), simulation_mode, r@[0], compute_budget_instructions@,
            dex_instruction),
        nonce_slots(exec_ctx.spec_has_nonce(), simulation_mode) == 1 ==> is_advance_nonce_ix(
            r@[0], exec_ctx.nonce_pubkey.unwrap(), exec_ctx.nonce_authority.unwrap()),
        spec_check_order(r@, exec_ctx.spec_has_nonce(), simulation_mode) == Ok::<(), OrderViolation>(()),
{
    let has_nonce = exec_ctx.nonce_pubkey.is_some() && exec_ctx.nonce_authority.is_some();
    let mut instructions: Vec<Instruction> = Vec::new();
    if has_nonce && !simulation_mode {
        let nonce_pub = exec_ctx.nonce_pubkey.unwrap();
        let nonce_auth = exec_ctx.nonce_authority.unwrap();
        instructions.push(advance_nonce_account(&nonce_pub, &nonce_auth));
    }
    let ghost advance = if instructions@.len() == 1 { instructions@[0] } else { dex_instruction };
    let ghost cb = compute_budget_instructions@;
    let mut budget = compute_budget_instructions;
    instructions.append(&mut budget);
    instructions.push(dex_instruction);
    proof {
        let hn = exec_ctx.spec_has_nonce();
        assert(instructions@ =~= ordered(hn, simulation_mode, advance, cb, dex_instruction));
        if nonce_slots(hn, simulation_mode) == 1 {
            assert(instructions@[0] == advance);
        } else {
            assert(instructions@ =~= ordered(hn, simulation_mode, instructions@[0], cb, dex_instruction));
        }
        lemma_ordered_list_passes_check(hn, simulation_mode, advance, cb, dex_instruction);
    }
    instructions
}

/// The compute budget instructions of a transaction: a unit limit when `cu_limit` is
/// positive, then a unit price when `priority_fee` is positive and the DEX instruction
/// is not a placeholder.
pub fn build_compute_budget_instructions(cu_limit: u32, priority_fee: u64, is_placeholder: bool)
    -> (r: Vec<Instruction>)
    ensures
        r@.len() == (if cu_limit > 0 { 1int } else { 0 }) + (if priority_fee > 0 && !is_placeholder { 1int } else { 0 }),
        forall|i: int| 0 <= i < r@.len() ==> is_cb(#[trigger] r@[i]) && r@[i].accounts@.len() == 0,
        cu_limit > 0 ==> r@[0].data@ == seq![2u8] + spec_u32_le(cu_limit),
        priority_fee > 0 && !is_placeholder ==> r@[r@.len() - 1].data@ == seq![3u8] + spec_u64_le(priority_fee),
{
    let mut r: Vec<Instruction> = Vec::new();
    if cu_limit > 0 {
        r.push(set_compute_unit_limit(cu_limit));
    }
    if priority_fee > 0 && !is_placeholder {
        r.push(set_compute_unit_price(priority_fee));
    }
    r
}

/// A memo instruction carrying `data`, listing each signer as a read-only, non-signing account.
pub fn build_memo(data: &[u8], signers: &[Pubkey]) -> (ix: Instruction)
    ensures
        ix.program_id@ == spec_memo_program_id(),
        ix.data@ == data@,
        ix.accounts@.len() == signers@.len(),
        forall|i: int| 0 <= i < signers@.len() ==> #[trigger] ix.accounts@[i]
            == (AccountMeta { pubkey: signers@[i], is_signer: false, is_writable: false }),
{
    let mut metas: Vec<AccountMeta> = Vec::new();
    let mut i: usize = 0;
    while i < signers.len()
        invariant
            0 <= i <= signers@.len(),
            metas@.len() == i,
            forall|j: int| 0 <= j < i ==> #[trigger] metas@[j]
                == (AccountMeta { pubkey: signers@[j], is_signer: false, is_writable: false }),
        decreases signers@.len() - i,
    {
        metas.push(AccountMeta { pubkey: signers[i], is_signer: false, is_writable: false });
        i += 1;
    }
    Instruction { program_id: memo_program_id(), accounts: metas, data: vstd::slice::slice_to_vec(data) }
}

} // verus!
