use tx_builder::batch::order_batch_results;
use tx_builder::blockhash::QuorumTally;
use tx_builder::builder::BuilderCore;
use tx_builder::config::{QuorumConfig, TransactionConfig};
use tx_builder::errors::{DexProgram, TransactionBuilderError};
use tx_builder::flow::{
    blockhash_step, next_build_phase, sell_instruction_source, simulation_step, BuildPhase, FetchCommand, FetchEvent,
    FetchState, InstructionSource, SimCommand, SimEvent, SimState,
};

fn builder_with(n: usize, config: &TransactionConfig) -> BuilderCore {
    BuilderCore::new((0..n).map(|i| format!("https://rpc{}.example", i)).collect(), config)
}

#[test]
fn test_fetch_quorum_then_done() {
    let config = TransactionConfig::default();
    let mut c = builder_with(3, &config);
    let (s, cmd) = blockhash_step(&mut c, &config, FetchState::Start, FetchEvent::Proceed, 0);
    assert_eq!(s, FetchState::AwaitQuorum);
    assert!(matches!(cmd, FetchCommand::QueryQuorum(2)));
    let (s, cmd) =
        blockhash_step(&mut c, &config, s, FetchEvent::QuorumAgreed { hash: [7u8; 32], max_slot: 90 }, 10);
    assert_eq!(s, FetchState::Finished);
    assert!(matches!(cmd, FetchCommand::Return(Ok(h)) if h == [7u8; 32]));
    assert_eq!(c.get_blockhash_quorum_success_count(), 1);
    assert_eq!(c.get_blockhash_cache_stats(), 1);
}

#[test]
fn test_fetch_falls_back_through_cache_to_attempts() {
    let config = TransactionConfig::default();
    let mut c = builder_with(2, &config);
    let (s, _) = blockhash_step(&mut c, &config, FetchState::Start, FetchEvent::Proceed, 0);
    let (s, cmd) = blockhash_step(&mut c, &config, s, FetchEvent::QuorumFailed, 0);
    assert_eq!(s, FetchState::AwaitSlot);
    assert!(matches!(cmd, FetchCommand::ReadCurrentSlot));
    assert_eq!(c.get_blockhash_fallback_count(), 1);
    let (s, cmd) = blockhash_step(&mut c, &config, s, FetchEvent::CurrentSlot(Some(100)), 0);
    assert_eq!(s, FetchState::Attempt { attempt: 0, last_error: None });
    assert!(matches!(cmd, FetchCommand::Continue));
    let (s, cmd) = blockhash_step(&mut c, &config, s, FetchEvent::Proceed, 0);
    assert_eq!(s, FetchState::AwaitFetch { attempt: 0, idx: 0, last_error: None });
    assert!(matches!(cmd, FetchCommand::FetchFrom(0)));
    let (s, cmd) = blockhash_step(&mut c, &config, s, FetchEvent::FetchFailed("connection reset".to_string()), 5);
    assert_eq!(s, FetchState::Attempt { attempt: 1, last_error: Some("connection reset".to_string()) });
    assert!(matches!(cmd, FetchCommand::Wait(50)));
    let (s, cmd) = blockhash_step(&mut c, &config, s, FetchEvent::Proceed, 60);
    assert!(matches!(cmd, FetchCommand::FetchFrom(1)));
    let (s, cmd) = blockhash_step(&mut c, &config, s, FetchEvent::Fetched { hash: [3u8; 32], slot: 101 }, 70);
    assert_eq!(s, FetchState::Finished);
    assert!(matches!(cmd, FetchCommand::Return(Ok(h)) if h == [3u8; 32]));
    assert_eq!(c.get_blockhash_cache_stats(), 1);
}

#[test]
fn test_fetch_uses_fresh_cache_and_reports_exhaustion() {
    let mut config = TransactionConfig::default();
    config.quorum_config.enable_slot_validation = false;
    config.retry_policy.max_attempts = 1;
    let mut c = builder_with(1, &config);
    c.inject_blockhash_for_tests([4u8; 32], 0);
    let (s, cmd) = blockhash_step(&mut c, &config, FetchState::Start, FetchEvent::Proceed, 100);
    assert_eq!(s, FetchState::Finished);
    assert!(matches!(cmd, FetchCommand::Return(Ok(h)) if h == [4u8; 32]));
    let (_, cmd) = blockhash_step(
        &mut c,
        &config,
        FetchState::Attempt { attempt: 1, last_error: Some("timeout".to_string()) },
        FetchEvent::Proceed,
        100,
    );
    match cmd {
        FetchCommand::Return(Err(TransactionBuilderError::BlockhashFetch(m))) => {
            assert_eq!(m, "All RPC endpoints failed after 1 attempts: Some(timeout)");
        }
        other => panic!("unexpected {:?}", other),
    }
}

#[test]
fn test_fetch_aborts_on_fatal_error() {
    let config = TransactionConfig::default();
    let mut c = builder_with(1, &config);
    let state = FetchState::AwaitFetch { attempt: 0, idx: 0, last_error: None };
    let (s, cmd) = blockhash_step(&mut c, &config, state, FetchEvent::FetchFailed("bad request".to_string()), 0);
    assert_eq!(s, FetchState::Finished);
    match cmd {
        FetchCommand::Return(Err(TransactionBuilderError::BlockhashFetch(m))) => {
            assert_eq!(m, "Fatal error (non-retryable): bad request");
        }
        other => panic!("unexpected {:?}", other),
    }
}

#[test]
fn test_simulation_step_cache_hit_and_miss() {
    let config = TransactionConfig::default();
    let mut c = builder_with(1, &config);
    let key = [9u8; 32];
    let prepared = SimEvent::Prepared { compiled: true, key, program_id: [1u8; 32] };
    let (s, cmd) = simulation_step(&mut c, &config, 200_000, SimState::Start, prepared.clone(), 0);
    assert_eq!(s, SimState::AwaitSimulation { key, cached: true });
    assert!(matches!(cmd, SimCommand::Simulate));
    let simulated = SimEvent::Simulated { units_consumed: Some(150_000), error: None, slot: 3 };
    let (s, cmd) = simulation_step(&mut c, &config, 200_000, s, simulated, 0);
    assert_eq!(s, SimState::Finished);
    assert!(matches!(cmd, SimCommand::Done(Ok(180_000))));
    let (s, cmd) = simulation_step(&mut c, &config, 200_000, SimState::Start, prepared, 1_000);
    assert_eq!(s, SimState::Finished);
    assert!(matches!(cmd, SimCommand::Done(Ok(180_000))));
    let (hits, misses) = (c.get_simulation_cache_stats().2, c.get_simulation_cache_stats().3);
    assert_eq!((hits, misses), (1, 1));
}

#[test]
fn test_simulation_step_fatal_and_unavailable() {
    let config = TransactionConfig::default();
    let mut c = builder_with(1, &config);
    let state = SimState::AwaitSimulation { key: [1u8; 32], cached: false };
    let failed = SimEvent::Simulated { units_consumed: None, error: Some("InstructionError(0)".to_string()), slot: 0 };
    let (_, cmd) = simulation_step(&mut c, &config, 200_000, state, failed, 0);
    assert!(matches!(cmd, SimCommand::Done(Err(TransactionBuilderError::SimulationFailed(_)))));
    let (_, cmd) = simulation_step(&mut c, &config, 123, state, SimEvent::Unavailable, 0);
    assert!(matches!(cmd, SimCommand::Done(Ok(123))));
    let mut off = TransactionConfig::default();
    off.enable_simulation = false;
    let prepared = SimEvent::Prepared { compiled: true, key: [1u8; 32], program_id: [1u8; 32] };
    let (_, cmd) = simulation_step(&mut c, &off, 77, SimState::Start, prepared, 0);
    assert!(matches!(cmd, SimCommand::Done(Ok(77))));
}

#[test]
fn test_build_phase_order() {
    let config = TransactionConfig::default();
    let mut phase = BuildPhase::Begin;
    let mut seen = vec![phase];
    while phase != BuildPhase::Finished {
        phase = next_build_phase(phase, &config, true);
        seen.push(phase);
    }
    assert_eq!(
        seen,
        vec![
            BuildPhase::Begin,
            BuildPhase::PrepareContext,
            BuildPhase::DexInstruction,
            BuildPhase::Simulation,
            BuildPhase::Assemble,
            BuildPhase::Compile,
            BuildPhase::Sign,
            BuildPhase::Finished,
        ]
    );
    let mut no_sim = TransactionConfig::default();
    no_sim.enable_simulation = false;
    assert_eq!(next_build_phase(BuildPhase::DexInstruction, &no_sim, false), BuildPhase::Assemble);
    assert_eq!(next_build_phase(BuildPhase::Compile, &no_sim, false), BuildPhase::Finished);
}

#[test]
fn test_sell_instruction_source_is_placeholder() {
    assert_eq!(sell_instruction_source(&DexProgram::PumpFun), InstructionSource::Placeholder);
    assert_eq!(sell_instruction_source(&DexProgram::Orca), InstructionSource::Placeholder);
}

#[test]
fn test_batch_keeps_arrival_order_within_a_position() {
    let results = vec![(1usize, "b1"), (2, "c"), (1, "b2"), (0, "a"), (1, "b3")];
    assert_eq!(order_batch_results(results), vec!["a", "b1", "b2", "b3", "c"]);
}

#[test]
fn test_winning_vote_reports_highest_slot() {
    let q = QuorumConfig { min_responses: 2, max_slot_diff: 10, enable_slot_validation: true };
    let mut t = QuorumTally::new();
    t.record([1u8; 32], 100);
    t.record([1u8; 32], 104);
    let v = t.winning_vote(&q).unwrap();
    assert_eq!((v.hash, v.count, v.max_slot, v.min_slot), ([1u8; 32], 2, 104, 100));
}
