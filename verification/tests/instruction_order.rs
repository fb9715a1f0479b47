use solana_sdk::compute_budget::ComputeBudgetInstruction;
use tx_builder::instructions::{
    build_compute_budget_instructions, build_memo, build_ordered_instructions, check_instruction_order,
    validate_instruction_order, OrderViolation,
};
use tx_builder::solana::{AccountMeta, Instruction, Pubkey};
use tx_builder::types::ExecutionContext;

fn convert(ix: solana_sdk::instruction::Instruction) -> Instruction {
    Instruction {
        program_id: ix.program_id.to_bytes(),
        accounts: ix
            .accounts
            .iter()
            .map(|m| AccountMeta { pubkey: m.pubkey.to_bytes(), is_signer: m.is_signer, is_writable: m.is_writable })
            .collect(),
        data: ix.data,
    }
}

fn unique_key() -> Pubkey {
    solana_sdk::pubkey::Pubkey::new_unique().to_bytes()
}

fn create_test_exec_context(with_nonce: bool) -> ExecutionContext<()> {
    ExecutionContext {
        blockhash: [0u8; 32],
        nonce_pubkey: if with_nonce { Some(unique_key()) } else { None },
        nonce_authority: if with_nonce { Some(unique_key()) } else { None },
        nonce_lease: None,
    }
}

fn create_test_dex_instruction() -> Instruction {
    Instruction { program_id: unique_key(), accounts: vec![], data: vec![1, 2, 3, 4] }
}

#[allow(deprecated)]
fn system_id() -> Pubkey {
    solana_sdk::system_program::id().to_bytes()
}

#[allow(deprecated)]
fn compute_budget_id() -> Pubkey {
    solana_sdk::compute_budget::id().to_bytes()
}

fn is_advance_nonce_ix(ix: &Instruction) -> bool {
    ix.program_id == system_id()
        && ix.data.len() >= 4
        && u32::from_le_bytes([ix.data[0], ix.data[1], ix.data[2], ix.data[3]]) == 4
}

fn is_compute_budget_ix(ix: &Instruction) -> bool {
    ix.program_id == compute_budget_id()
}

#[test]
fn test_instruction_order_without_nonce() {
    let exec_ctx = create_test_exec_context(false);
    let compute_budget = vec![
        convert(ComputeBudgetInstruction::set_compute_unit_limit(200_000)),
        convert(ComputeBudgetInstruction::set_compute_unit_price(1000)),
    ];
    let dex_ix = create_test_dex_instruction();
    let instructions = build_ordered_instructions(&exec_ctx, false, compute_budget, dex_ix);
    assert_eq!(instructions.len(), 3);
    assert!(is_compute_budget_ix(&instructions[0]));
    assert!(is_compute_budget_ix(&instructions[1]));
    assert!(!is_compute_budget_ix(&instructions[2]));
    assert!(!is_advance_nonce_ix(&instructions[2]));
}

#[test]
fn test_instruction_order_with_nonce_production() {
    let exec_ctx = create_test_exec_context(true);
    let compute_budget = vec![
        convert(ComputeBudgetInstruction::set_compute_unit_limit(200_000)),
        convert(ComputeBudgetInstruction::set_compute_unit_price(1000)),
    ];
    let dex_ix = create_test_dex_instruction();
    let instructions = build_ordered_instructions(&exec_ctx, false, compute_budget, dex_ix);
    assert_eq!(instructions.len(), 4);
    assert!(is_advance_nonce_ix(&instructions[0]), "First must be advance nonce");
    assert!(is_compute_budget_ix(&instructions[1]));
    assert!(is_compute_budget_ix(&instructions[2]));
    assert!(!is_compute_budget_ix(&instructions[3]));
    assert!(!is_advance_nonce_ix(&instructions[3]));
}

#[test]
fn test_instruction_order_with_nonce_simulation() {
    let exec_ctx = create_test_exec_context(true);
    let compute_budget = vec![convert(ComputeBudgetInstruction::set_compute_unit_limit(200_000))];
    let dex_ix = create_test_dex_instruction();
    let instructions = build_ordered_instructions(&exec_ctx, true, compute_budget, dex_ix);
    assert_eq!(instructions.len(), 2, "No nonce in simulation");
    assert!(is_compute_budget_ix(&instructions[0]));
    assert!(!is_compute_budget_ix(&instructions[1]));
    assert!(!is_advance_nonce_ix(&instructions[0]));
    assert!(!is_advance_nonce_ix(&instructions[1]));
}

#[test]
fn test_instruction_order_minimal() {
    let exec_ctx = create_test_exec_context(false);
    let dex_ix = create_test_dex_instruction();
    let instructions = build_ordered_instructions(&exec_ctx, false, vec![], dex_ix);
    assert_eq!(instructions.len(), 1);
    assert!(!is_compute_budget_ix(&instructions[0]));
    assert!(!is_advance_nonce_ix(&instructions[0]));
}

#[test]
#[allow(deprecated)]
fn test_validation_correct_order() {
    let nonce_pub = solana_sdk::pubkey::Pubkey::new_unique();
    let nonce_auth = solana_sdk::pubkey::Pubkey::new_unique();
    let instructions = vec![
        convert(solana_sdk::system_instruction::advance_nonce_account(&nonce_pub, &nonce_auth)),
        convert(ComputeBudgetInstruction::set_compute_unit_limit(200_000)),
        convert(ComputeBudgetInstruction::set_compute_unit_price(1000)),
        create_test_dex_instruction(),
    ];
    let result = validate_instruction_order(&instructions, true, false);
    assert!(result.is_ok(), "Validation failed: {:?}", result);
}

#[test]
fn test_validation_simulation_mode() {
    let instructions = vec![
        convert(ComputeBudgetInstruction::set_compute_unit_limit(200_000)),
        create_test_dex_instruction(),
    ];
    let result = validate_instruction_order(&instructions, false, true);
    assert!(result.is_ok(), "Validation failed: {:?}", result);
}

#[test]
fn test_validation_reports_empty_list() {
    let result = validate_instruction_order(&[], false, false);
    assert_eq!(result, Err("Instruction list is empty".to_string()));
}

#[test]
fn test_validation_reports_missing_nonce() {
    let dex = create_test_dex_instruction();
    let expected = format!(
        "Expected advance nonce instruction at index 0, but found program_id: {}",
        solana_sdk::pubkey::Pubkey::new_from_array(dex.program_id)
    );
    let result = validate_instruction_order(&[dex], true, false);
    assert_eq!(result, Err(expected));
}

#[test]
fn test_validation_reports_missing_dex() {
    let instructions = vec![convert(ComputeBudgetInstruction::set_compute_unit_limit(1))];
    assert_eq!(
        validate_instruction_order(&instructions, false, false),
        Err("No DEX instruction found after compute budget instructions".to_string())
    );
    assert_eq!(check_instruction_order(&instructions, false, false), Err(OrderViolation::NoDexInstruction));
}

#[test]
#[allow(deprecated)]
fn test_validation_reports_system_dex() {
    let transfer = solana_sdk::system_instruction::transfer(
        &solana_sdk::pubkey::Pubkey::new_unique(),
        &solana_sdk::pubkey::Pubkey::new_unique(),
        5,
    );
    let instructions = vec![convert(ComputeBudgetInstruction::set_compute_unit_limit(1)), convert(transfer)];
    assert_eq!(
        validate_instruction_order(&instructions, false, false),
        Err("Expected DEX instruction at index 1, found system program instruction".to_string())
    );
}

#[test]
fn test_validation_reports_extra_instructions() {
    let instructions = vec![create_test_dex_instruction(), create_test_dex_instruction()];
    assert_eq!(
        validate_instruction_order(&instructions, false, false),
        Err("Expected exactly 1 instructions, found 2. Only one DEX instruction should be present.".to_string())
    );
    assert_eq!(
        check_instruction_order(&instructions, false, false),
        Err(OrderViolation::WrongCount { expected: 1, found: 2 })
    );
}

#[test]
fn test_advance_nonce_instruction_layout() {
    let exec_ctx = create_test_exec_context(true);
    let nonce = exec_ctx.nonce_pubkey.unwrap();
    let authority = exec_ctx.nonce_authority.unwrap();
    let instructions = build_ordered_instructions(&exec_ctx, false, vec![], create_test_dex_instruction());
    let advance = &instructions[0];
    assert_eq!(advance.program_id, [0u8; 32]);
    assert_eq!(advance.data, vec![4, 0, 0, 0]);
    assert_eq!(advance.accounts.len(), 3);
    assert_eq!(advance.accounts[0], AccountMeta { pubkey: nonce, is_signer: false, is_writable: true });
    assert_eq!(advance.accounts[2], AccountMeta { pubkey: authority, is_signer: true, is_writable: false });
}

#[test]
fn test_compute_budget_instruction_bytes() {
    let ixs = build_compute_budget_instructions(200_000, 1000, false);
    assert_eq!(ixs.len(), 2);
    assert_eq!(ixs[0].program_id, compute_budget_id());
    assert_eq!(ixs[0].data, vec![2, 0x40, 0x0d, 0x03, 0x00]);
    assert_eq!(ixs[1].data, vec![3, 0xe8, 0x03, 0, 0, 0, 0, 0, 0]);
    assert!(ixs[0].accounts.is_empty() && ixs[1].accounts.is_empty());
}

#[test]
fn test_compute_budget_skips_price_for_placeholder() {
    let ixs = build_compute_budget_instructions(200_000, 1000, true);
    assert_eq!(ixs.len(), 1);
    assert_eq!(ixs[0].data[0], 2);
    assert!(build_compute_budget_instructions(0, 0, false).is_empty());
    let only_price = build_compute_budget_instructions(0, 7, false);
    assert_eq!(only_price.len(), 1);
    assert_eq!(only_price[0].data[0], 3);
}

#[test]
fn test_build_memo_lists_signers_read_only() {
    let signer = unique_key();
    let ix = build_memo(b"hello", &[signer]);
    assert_eq!(
        ix.program_id,
        solana_sdk::pubkey::Pubkey::from_str_const("MemoSq4gqABAXKb96qnH8TysNcWxMyWCqXgDLGmfcHr").to_bytes()
    );
    assert_eq!(ix.data, b"hello".to_vec());
    assert_eq!(ix.accounts, vec![AccountMeta { pubkey: signer, is_signer: false, is_writable: false }]);
}
