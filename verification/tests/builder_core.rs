use tx_builder::builder::{
    check_balance_sufficient, check_liquidity_depth, enforcement_plan, execution_plan, is_rotation_checkpoint,
    rotation_checkpoint, rpc_index_for, BuilderCore, ContextStep, FetchAction,
};
use tx_builder::config::TransactionConfig;
use tx_builder::errors::{NonceError, TransactionBuilderError};
use tx_builder::rate_limit::CircuitState;
use tx_builder::types::OperationPriority;

fn core_with(n: usize, config: &TransactionConfig) -> BuilderCore {
    let endpoints: Vec<String> = (0..n).map(|i| format!("https://rpc{}.example", i)).collect();
    BuilderCore::new(endpoints, config)
}

#[test]
fn test_execution_plans() {
    assert_eq!(execution_plan(OperationPriority::CriticalSniper), ContextStep::AcquireNonce);
    assert_eq!(execution_plan(OperationPriority::Utility), ContextStep::FetchBlockhash);
    assert_eq!(execution_plan(OperationPriority::Bulk), ContextStep::FetchBlockhash);
    assert_eq!(enforcement_plan(true), ContextStep::AcquireNonce);
    assert_eq!(enforcement_plan(false), ContextStep::FetchBlockhash);
}

#[test]
fn test_rotation_checkpoints() {
    assert!(!is_rotation_checkpoint(0, 100));
    assert!(is_rotation_checkpoint(100, 100));
    assert!(!is_rotation_checkpoint(101, 100));
    assert_eq!(rotation_checkpoint(250, 100), 2);
    assert_eq!(rotation_checkpoint(250, 0), 0);
}

#[test]
fn test_preflight_checks() {
    assert_eq!(check_balance_sufficient(10, 5).unwrap(), 10);
    match check_balance_sufficient(4, 5) {
        Err(TransactionBuilderError::InsufficientBalance { required, available }) => {
            assert_eq!((required, available), (5, 4));
        }
        other => panic!("unexpected {:?}", other),
    }
    assert_eq!(check_liquidity_depth(7, 7).unwrap(), 7);
    match check_liquidity_depth(6, 7) {
        Err(TransactionBuilderError::LiquidityTooLow { available, required }) => {
            assert_eq!((available, required), (6, 7));
        }
        other => panic!("unexpected {:?}", other),
    }
}

#[test]
fn test_round_robin_visits_every_endpoint() {
    let config = TransactionConfig::default();
    let mut core = core_with(3, &config);
    let picks: Vec<usize> = (0..6).map(|_| core.next_endpoint()).collect();
    assert_eq!(picks, vec![0, 1, 2, 0, 1, 2]);
    assert_eq!(rpc_index_for(7, 3), 1);
}

#[test]
fn test_breaker_states_per_endpoint() {
    let mut config = TransactionConfig::default();
    config.circuit_breaker_failure_threshold = 2;
    config.circuit_breaker_timeout_secs = 1;
    let mut core = core_with(2, &config);
    core.endpoint_failed(1, 100);
    core.endpoint_failed(1, 200);
    let states = core.get_circuit_breaker_states();
    assert_eq!(states[0], ("https://rpc0.example".to_string(), CircuitState::Closed));
    assert_eq!(states[1], ("https://rpc1.example".to_string(), CircuitState::Open));
    let detailed = core.get_circuit_breaker_states_detailed();
    assert_eq!(detailed[1].failure_count, 2);
    assert!(core.needs_health_probe(1));
    assert!(!core.needs_health_probe(0));
    assert!(!core.endpoint_allows(1, 1_199));
    assert!(core.endpoint_allows(1, 1_200));
    assert_eq!(core.get_circuit_breaker_states()[1].1, CircuitState::HalfOpen);
}

#[test]
fn test_fallback_skips_open_endpoint() {
    let mut config = TransactionConfig::default();
    config.circuit_breaker_failure_threshold = 1;
    let mut core = core_with(2, &config);
    core.endpoint_failed(0, 0);
    assert_eq!(core.fallback_endpoint(10), None);
    assert_eq!(core.get_blockhash_fallback_count(), 1);
    assert_eq!(core.fallback_endpoint(10), Some(1));
}

#[test]
fn test_fallback_failure_actions() {
    let config = TransactionConfig::default();
    let mut core = core_with(1, &config);
    match core.fallback_failed(0, "invalid params", 5, &config, 0, 3) {
        FetchAction::Abort(TransactionBuilderError::BlockhashFetch(m)) => {
            assert_eq!(m, "Fatal error (non-retryable): invalid params");
        }
        other => panic!("unexpected {:?}", other),
    }
    assert!(matches!(core.fallback_failed(0, "connection reset", 5, &config, 1, 3), FetchAction::RetryAfterMs(100)));
    assert!(matches!(core.fallback_failed(0, "timeout", 5, &config, 2, 3), FetchAction::NextAttempt));
    match BuilderCore::fallback_exhausted(3, Some("timeout")) {
        TransactionBuilderError::BlockhashFetch(m) => {
            assert_eq!(m, "All RPC endpoints failed after 3 attempts: Some(timeout)");
        }
        other => panic!("unexpected {:?}", other),
    }
    assert_eq!(BuilderCore::fallback_attempts(&config), 3);
}

#[test]
fn test_cached_blockhash_and_quorum_acceptance() {
    let config = TransactionConfig::default();
    let mut core = core_with(3, &config);
    assert_eq!(core.quorum_plan(&config), Some(2));
    assert_eq!(core.cached_blockhash(&config, 0, Some(100)), None);
    core.accept_quorum([9u8; 32], 100, 1_000);
    assert_eq!(core.get_blockhash_quorum_success_count(), 1);
    assert_eq!(core.cached_blockhash(&config, 2_000, Some(105)), Some([9u8; 32]));
    assert_eq!(core.cached_blockhash(&config, 2_000, None), None);
    assert_eq!(core.cached_blockhash(&config, 2_000, Some(111)), None);
    assert_eq!(core.get_blockhash_cache_stats(), 1);
    core.clear_blockhash_cache();
    assert_eq!(core.get_blockhash_cache_stats(), 0);
}

#[test]
fn test_nonce_counters_and_metrics() {
    let config = TransactionConfig::default();
    let mut core = core_with(1, &config);
    core.record_nonce_acquired();
    assert_eq!(core.record_nonce_unavailable(true).unwrap(), ContextStep::FetchBlockhash);
    assert!(matches!(
        core.record_nonce_unavailable(false),
        Err(TransactionBuilderError::Nonce(NonceError::NoLeaseAvailable))
    ));
    for _ in 0..250 {
        core.next_transaction();
    }
    let m = core.get_all_metrics(&config);
    assert_eq!(m.nonce_acquire_count, 1);
    assert_eq!(m.nonce_exhausted_count, 2);
    assert_eq!(m.blockhash_fallback_count, 1);
    assert_eq!(m.transaction_count, 250);
    assert_eq!(m.rotation_checkpoint, 2);
    assert_eq!(m.simulation_cache_size, 0);
}

#[test]
fn test_builder_simulation_cache() {
    let config = TransactionConfig::default();
    let mut core = core_with(1, &config);
    core.simulation_store([1u8; 32], 500, 0, 1, 1000);
    assert_eq!(core.simulation_lookup(&[1u8; 32], 1_000, 30), Some(500));
    let (size, _capacity, hits, misses) = core.get_simulation_cache_stats();
    assert_eq!((size, hits, misses), (1, 1, 0));
    core.clear_simulation_cache();
    assert_eq!(core.get_simulation_cache_stats().0, 0);
}

#[test]
fn test_inject_blockhash_for_tests() {
    let mut config = TransactionConfig::default();
    config.quorum_config.enable_slot_validation = false;
    let mut core = core_with(1, &config);
    core.inject_blockhash_for_tests([4u8; 32], 100);
    assert_eq!(core.cached_blockhash(&config, 200, None), Some([4u8; 32]));
}
