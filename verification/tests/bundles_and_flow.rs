use tx_builder::batch::{batch_failure_error, order_batch_results, sort_batch_results, BatchFailure};
use tx_builder::builder::BuilderCore;
use tx_builder::config::TransactionConfig;
use tx_builder::errors::{DexProgram, TransactionBuilderError};
use solana_sdk::compute_budget::ComputeBudgetInstruction;
use tx_builder::flow::{
    api_json_error, assemble_instructions, begin_buy, begin_sell, buy_instruction_source, calculate_expected_sol,
    calculate_expected_tokens, compile_transaction, message_compile_error, min_out_after_slippage,
    placeholder_buy_instruction, placeholder_sell_instruction, rpc_fetch_error, simulation_cache_enabled,
    simulation_verdict, with_placeholder_signatures, BuildTicket, InstructionSource, RpcValue,
};
use tx_builder::types::ExecutionContext;
use tx_builder::wsol::{
    associated_token_address, associated_token_program_id, token_program_id, unwrap_wsol_instruction,
    unwrap_wsol_transaction, wsol_mint_id,
};
use tx_builder::jito::{compute_dynamic_tip, prepare_jito_bundle, prepare_jito_bundle_simple};
use tx_builder::solana::{AccountMeta, Instruction};

#[test]
fn test_dynamic_tip_uses_p90_and_pressure() {
    let fees: Vec<u64> = (1..=10).map(|i| i * 1_000).collect();
    // p90 of ten values is the 9th smallest; average 5 500 is low pressure: x1.2
    assert_eq!(compute_dynamic_tip(&fees, u64::MAX), 10_800);
    assert_eq!(compute_dynamic_tip(&fees, 5_000), 5_000);
    let high: Vec<u64> = vec![100_000, 60_000, 80_000];
    // p90 of three values is the largest; average 80 000 is high pressure: x1.5
    assert_eq!(compute_dynamic_tip(&high, u64::MAX), 150_000);
    assert_eq!(compute_dynamic_tip(&[7], u64::MAX), 8);
}

#[test]
fn test_prepare_jito_bundle_tips() {
    let config = TransactionConfig::default();
    let fees = [1_000u64, 2_000, 3_000];
    let b = prepare_jito_bundle(vec![], 1_000_000, Some(5), true, &config, Some(&fees)).unwrap();
    assert_eq!(b.max_total_cost_lamports, 3_600);
    assert_eq!(b.target_slot, Some(5));
    assert_eq!(b.searcher_hints, vec![1, 0, 0, 0]);
    assert!(b.backrun_protect);
    let b = prepare_jito_bundle(vec![], 1_000_000, None, false, &config, None).unwrap();
    assert_eq!(b.max_total_cost_lamports, 1_000_000);
    assert!(b.searcher_hints.is_empty());
    let mut no_sim = TransactionConfig::default();
    no_sim.enable_simulation = false;
    let b = prepare_jito_bundle(vec![], 42, None, false, &no_sim, Some(&fees)).unwrap();
    assert_eq!(b.max_total_cost_lamports, 42);
    let s = prepare_jito_bundle_simple(vec![], 9, Some(1));
    assert_eq!((s.max_total_cost_lamports, s.target_slot, s.backrun_protect), (9, Some(1), false));
}

#[test]
fn test_batch_results_come_back_in_candidate_order() {
    let results = vec![(2usize, "c"), (0, "a"), (3, "d"), (1, "b")];
    assert_eq!(order_batch_results(results), vec!["a", "b", "c", "d"]);
    let sorted = sort_batch_results(vec![(1usize, 'x'), (0, 'y'), (1, 'z')]);
    assert_eq!(sorted.iter().map(|p| p.0).collect::<Vec<_>>(), vec![0, 1, 1]);
    assert_eq!(order_batch_results(Vec::<(usize, u8)>::new()), Vec::<u8>::new());
}

#[test]
fn test_batch_failure_errors() {
    match batch_failure_error(BatchFailure::PermitTimeout) {
        TransactionBuilderError::InstructionBuild { program, reason } => {
            assert_eq!(program, "batch_build");
            assert_eq!(reason, "Timeout acquiring worker pool permit");
        }
        other => panic!("unexpected {:?}", other),
    }
    match batch_failure_error(BatchFailure::JoinFailed("panicked".to_string())) {
        TransactionBuilderError::InstructionBuild { reason, .. } => assert_eq!(reason, "Task join error: panicked"),
        other => panic!("unexpected {:?}", other),
    }
    match batch_failure_error(BatchFailure::SemaphoreClosed) {
        TransactionBuilderError::InstructionBuild { reason, .. } => assert_eq!(reason, "Worker pool semaphore closed"),
        other => panic!("unexpected {:?}", other),
    }
}

#[test]
fn test_begin_buy_counts_and_checkpoints() {
    let mut config = TransactionConfig::default();
    config.signer_rotation_interval = 2;
    config.quorum_config.min_responses = 1;
    let mut core = BuilderCore::new(vec!["https://rpc.example".to_string()], &config);
    assert_eq!(begin_buy(&mut core, &config).unwrap(), BuildTicket { tx_index: 0, rotation_checkpoint: None });
    assert_eq!(begin_buy(&mut core, &config).unwrap(), BuildTicket { tx_index: 1, rotation_checkpoint: None });
    assert_eq!(begin_buy(&mut core, &config).unwrap(), BuildTicket { tx_index: 2, rotation_checkpoint: Some(1) });
    config.buy_amount_lamports = 0;
    assert!(matches!(begin_buy(&mut core, &config), Err(TransactionBuilderError::ConfigValidation(_))));
    assert_eq!(core.get_transaction_count(), 3);
}

#[test]
fn test_buy_instruction_sources() {
    let mut config = TransactionConfig::default();
    assert_eq!(buy_instruction_source(&DexProgram::PumpFun, &config).unwrap(), InstructionSource::Placeholder);
    config.pumpportal_url = Some("https://pumpportal.example".to_string());
    assert_eq!(buy_instruction_source(&DexProgram::PumpFun, &config).unwrap(), InstructionSource::PumpPortalApi);
    assert_eq!(buy_instruction_source(&DexProgram::LetsBonk, &config).unwrap(), InstructionSource::Placeholder);
    config.letsbonk_api_url = Some("https://letsbonk.example".to_string());
    assert_eq!(buy_instruction_source(&DexProgram::LetsBonk, &config).unwrap(), InstructionSource::LetsBonkApi);
    assert_eq!(
        buy_instruction_source(&DexProgram::Unknown("x".to_string()), &config).unwrap(),
        InstructionSource::Placeholder
    );
    match buy_instruction_source(&DexProgram::Raydium, &config) {
        Err(TransactionBuilderError::FeatureNotEnabled { feature, action }) => {
            assert_eq!((feature.as_str(), action.as_str()), ("raydium", "Raydium buy instruction"));
        }
        other => panic!("unexpected {:?}", other),
    }
    assert!(matches!(
        buy_instruction_source(&DexProgram::Orca, &config),
        Err(TransactionBuilderError::FeatureNotEnabled { .. })
    ));
}

#[test]
fn test_flow_errors() {
    match api_json_error("letsbonk", "eof") {
        TransactionBuilderError::InstructionBuild { program, reason } => {
            assert_eq!((program.as_str(), reason.as_str()), ("letsbonk", "JSON parse error: eof"));
        }
        other => panic!("unexpected {:?}", other),
    }
    match message_compile_error("unwrap_wsol", "too many keys") {
        TransactionBuilderError::InstructionBuild { program, reason } => {
            assert_eq!((program.as_str(), reason.as_str()), ("unwrap_wsol", "Failed to compile message: too many keys"));
        }
        other => panic!("unexpected {:?}", other),
    }
}

#[test]
fn test_placeholder_memos() {
    let mint = solana_sdk::pubkey::Pubkey::new_unique();
    let wallet = [7u8; 32];
    let ix = placeholder_buy_instruction("jupiter", &mint.to_bytes(), 10_000_000, &wallet);
    assert_eq!(String::from_utf8(ix.data.clone()).unwrap(), format!("PLACEHOLDER_BUY:jupiter:{}:10000000", mint));
    assert_eq!(ix.accounts, vec![AccountMeta { pubkey: wallet, is_signer: false, is_writable: false }]);
    let ix = placeholder_sell_instruction(&mint.to_bytes(), &format!("{:.6}", 0.5f64), &wallet);
    assert_eq!(String::from_utf8(ix.data).unwrap(), format!("PLACEHOLDER_SELL:{}:0.500000", mint));
}

#[test]
fn test_simulation_verdicts() {
    let config = TransactionConfig::default();
    assert_eq!(simulation_verdict(&config, 200_000, Some(150_000), None).unwrap(), 180_000);
    assert_eq!(simulation_verdict(&config, 200_000, None, None).unwrap(), 200_000);
    assert_eq!(simulation_verdict(&config, 200_000, Some(1), Some("BlockhashNotFound".to_string())).unwrap(), 100_000);
    match simulation_verdict(&config, 200_000, Some(1), Some("InstructionError(0, Custom(6))".to_string())) {
        Err(TransactionBuilderError::SimulationFailed(m)) => assert_eq!(m, "InstructionError(0, Custom(6))"),
        other => panic!("unexpected {:?}", other),
    }
    let key = [3u8; 32];
    assert!(simulation_cache_enabled(&config, &key));
    let mut off = TransactionConfig::default();
    off.simulation_cache_config.enabled = false;
    assert!(!simulation_cache_enabled(&off, &key));
}

#[test]
fn test_quotes() {
    assert_eq!(min_out_after_slippage(1_000, 1_000), 900);
    assert_eq!(min_out_after_slippage(999, 50), 994);
    assert_eq!(min_out_after_slippage(u64::MAX, 0), u64::MAX);
    assert_eq!(min_out_after_slippage(5, 10_000), 0);
    assert_eq!(calculate_expected_tokens(30, 1_000, 10), 250);
    assert_eq!(calculate_expected_sol(30, 1_000, 250), 6);
}

#[test]
fn test_batch_one_result_per_candidate() {
    let results = vec![(1usize, "b"), (3, "d"), (0, "a"), (2, "c")];
    let ordered = order_batch_results(results.clone());
    assert_eq!(ordered.len(), results.len());
    for (i, v) in ordered.iter().enumerate() {
        let of_candidate: Vec<&str> = results.iter().filter(|p| p.0 == i).map(|p| p.1).collect();
        assert_eq!(of_candidate, vec![*v]);
    }
}

#[test]
fn test_begin_sell_checks_config_and_counts_nothing() {
    let mut config = TransactionConfig::default();
    config.quorum_config.min_responses = 1;
    let mut core = BuilderCore::new(vec!["https://rpc.example".to_string()], &config);
    begin_buy(&mut core, &config).unwrap();
    assert!(begin_sell(&mut core, &config).is_ok());
    assert!(begin_sell(&mut core, &config).is_ok());
    assert_eq!(core.get_transaction_count(), 1);
    config.slippage_bps = 20_000;
    match begin_sell(&mut core, &config) {
        Err(TransactionBuilderError::ConfigValidation(m)) => assert!(!m.is_empty()),
        other => panic!("unexpected {:?}", other),
    }
    assert_eq!(core.get_transaction_count(), 1);
}

#[test]
fn test_rpc_fetch_error_texts() {
    for (what, name) in [(RpcValue::Balance, "balance"), (RpcValue::Liquidity, "liquidity"), (RpcValue::Slot, "slot")] {
        match rpc_fetch_error(what, "connection refused") {
            TransactionBuilderError::RpcConnection(m) => assert_eq!(m, format!("Failed to fetch {}: connection refused", name)),
            other => panic!("unexpected {:?}", other),
        }
    }
}

fn dex_ix(payer: [u8; 32]) -> Instruction {
    Instruction {
        program_id: [9u8; 32],
        accounts: vec![AccountMeta { pubkey: payer, is_signer: true, is_writable: true }],
        data: vec![1, 2, 3],
    }
}

fn cb_data(ix: solana_sdk::instruction::Instruction) -> Vec<u8> {
    ix.data
}

#[test]
fn test_assemble_instructions_orders_budget_before_dex() {
    let mut config = TransactionConfig::default();
    config.adaptive_priority_fee_base = 10_000;
    config.adaptive_priority_fee_multiplier_permille = 1_500;
    let fee = config.calculate_adaptive_priority_fee();
    let payer = [4u8; 32];
    let ctx: ExecutionContext<()> = ExecutionContext::with_blockhash([1u8; 32]);
    let r = assemble_instructions(&ctx, &config, 200_000, false, dex_ix(payer));
    assert_eq!(r.len(), 3);
    assert_eq!(r[0].data, cb_data(ComputeBudgetInstruction::set_compute_unit_limit(200_000)));
    assert_eq!(r[1].data, cb_data(ComputeBudgetInstruction::set_compute_unit_price(fee)));
    assert_eq!(r[2], dex_ix(payer));
    // a placeholder gets no unit price
    let r = assemble_instructions(&ctx, &config, 200_000, true, dex_ix(payer));
    assert_eq!(r.len(), 2);
    // a durable nonce puts the nonce advance first
    let ctx = ExecutionContext::with_nonce([1u8; 32], [7u8; 32], [8u8; 32], ());
    let r = assemble_instructions(&ctx, &config, 0, false, dex_ix(payer));
    assert_eq!(r.len(), 3);
    assert_eq!(r[0].program_id, [0u8; 32]);
    assert_eq!(r[0].data, vec![4, 0, 0, 0]);
    assert_eq!(r[1].data, cb_data(ComputeBudgetInstruction::set_compute_unit_price(fee)));
}

#[test]
fn test_compile_and_placeholder_signatures() {
    let payer = [4u8; 32];
    let tx = compile_transaction("pump.fun", &payer, &[dex_ix(payer)], &[1u8; 32]).unwrap();
    assert!(tx.signatures.is_empty());
    assert_eq!(tx.message.header().num_required_signatures, 1);
    assert_eq!(tx.message.static_account_keys()[0].to_bytes(), payer);
    let signed = with_placeholder_signatures(tx);
    assert_eq!(signed.signatures, vec![solana_sdk::signature::Signature::default()]);
}

#[test]
fn test_compile_failure_is_an_instruction_build_error() {
    let payer = [4u8; 32];
    let accounts: Vec<AccountMeta> = (0..300u32)
        .map(|i| {
            let mut k = [0u8; 32];
            k[..4].copy_from_slice(&i.to_le_bytes());
            k[31] = 1;
            AccountMeta { pubkey: k, is_signer: false, is_writable: true }
        })
        .collect();
    let ix = Instruction { program_id: [9u8; 32], accounts, data: vec![] };
    match compile_transaction("pump.fun", &payer, &[ix], &[1u8; 32]) {
        Err(TransactionBuilderError::InstructionBuild { program, reason }) => {
            assert_eq!(program, "pump.fun");
            assert!(reason.starts_with("Failed to compile message: "));
        }
        other => panic!("unexpected {:?}", other.map(|_| ())),
    }
}

#[test]
fn test_unwrap_wsol_closes_the_wallet_wsol_account() {
    let key = |s: &str| <solana_sdk::pubkey::Pubkey as std::str::FromStr>::from_str(s).unwrap().to_bytes();
    assert_eq!(wsol_mint_id(), key("So11111111111111111111111111111111111111112"));
    assert_eq!(token_program_id(), key("TokenkegQfeZyiNwAJbNbGKPFXCWuBvf9Ss623VQ5DA"));
    assert_eq!(associated_token_program_id(), key("ATokenGPvbdGVxr1b2hvZbsiqW5xWH25efTNsLJA8knL"));
    let wallet = [4u8; 32];
    let ata = associated_token_address(&wallet, &wsol_mint_id()).unwrap();
    assert_ne!(ata, wallet);
    let ix = unwrap_wsol_instruction(&wallet).unwrap();
    assert_eq!(ix.program_id, token_program_id());
    assert_eq!(ix.data, vec![9]);
    assert_eq!(
        ix.accounts,
        vec![
            AccountMeta { pubkey: ata, is_signer: false, is_writable: true },
            AccountMeta { pubkey: wallet, is_signer: false, is_writable: true },
            AccountMeta { pubkey: wallet, is_signer: true, is_writable: false },
        ]
    );
    let tx = unwrap_wsol_transaction(&wallet, &[2u8; 32]).unwrap();
    assert_eq!(tx.message.header().num_required_signatures, 1);
    let keys: Vec<[u8; 32]> = tx.message.static_account_keys().iter().map(|k| k.to_bytes()).collect();
    assert_eq!(keys, vec![wallet, ata, token_program_id()]);
}
