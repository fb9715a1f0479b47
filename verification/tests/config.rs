use tx_builder::config::{QuorumConfig, SimulationCacheConfig, TransactionConfig};
use tx_builder::errors::{DexProgram, TransactionBuilderError};
use tx_builder::rate_limit::RetryPolicy;
use tx_builder::types::{OperationPriority, ProgramMetadata};

fn validation_message(c: &TransactionConfig) -> Option<String> {
    match c.validate() {
        Ok(()) => None,
        Err(TransactionBuilderError::ConfigValidation(m)) => Some(m),
        Err(e) => panic!("unexpected error {:?}", e),
    }
}

#[test]
fn test_default_config_needs_more_endpoints_for_quorum() {
    let mut c = TransactionConfig::default();
    assert_eq!(c.rpc_endpoints, vec!["https://api.mainnet-beta.solana.com".to_string()]);
    assert_eq!(
        validation_message(&c).unwrap(),
        "quorum_config.min_responses (2) cannot exceed number of RPC endpoints (1)"
    );
    c.rpc_endpoints.push("https://second.example".to_string());
    assert!(c.validate().is_ok());
    assert_eq!(c.operation_priority, OperationPriority::Utility);
}

#[test]
fn test_config_rejections_in_order() {
    let mut c = TransactionConfig::default();
    c.rpc_endpoints.push("https://second.example".to_string());
    c.buy_amount_lamports = 0;
    c.slippage_bps = 20_000;
    assert_eq!(validation_message(&c).unwrap(), "buy_amount_lamports must be > 0");
    c.buy_amount_lamports = 1;
    assert_eq!(validation_message(&c).unwrap(), "slippage_bps must be <= 10000");
    c.slippage_bps = 10_000;
    c.min_cu_limit = 500_000;
    assert_eq!(validation_message(&c).unwrap(), "min_cu_limit must be <= max_cu_limit");
    c.min_cu_limit = 1;
    c.adaptive_priority_fee_multiplier_permille = 999;
    assert_eq!(validation_message(&c).unwrap(), "adaptive_priority_fee_multiplier must be >= 1.0");
    c.adaptive_priority_fee_multiplier_permille = 1000;
    c.circuit_breaker_failure_threshold = 0;
    assert_eq!(validation_message(&c).unwrap(), "circuit_breaker_failure_threshold must be > 0");
    c.circuit_breaker_failure_threshold = 1;
    c.max_concurrent_builds = 0;
    assert_eq!(validation_message(&c).unwrap(), "max_concurrent_builds must be > 0");
    c.max_concurrent_builds = 1;
    assert!(validation_message(&c).is_none());
}

#[test]
fn test_config_rejects_empty_endpoints_and_nonces() {
    let mut c = TransactionConfig::default();
    c.rpc_endpoints = vec![];
    assert_eq!(validation_message(&c).unwrap(), "rpc_endpoints must contain at least one endpoint");
    let mut c = TransactionConfig::default();
    c.nonce_count = 0;
    assert_eq!(validation_message(&c).unwrap(), "nonce_count must be > 0");
}

#[test]
fn test_config_quorum_message_names_the_numbers() {
    let mut c = TransactionConfig::default();
    c.quorum_config.min_responses = 0;
    assert_eq!(validation_message(&c).unwrap(), "quorum_config.min_responses must be > 0");
    c.quorum_config.min_responses = 3;
    assert_eq!(
        validation_message(&c).unwrap(),
        "quorum_config.min_responses (3) cannot exceed number of RPC endpoints (1)"
    );
}

#[test]
fn test_adaptive_priority_fee() {
    let mut c = TransactionConfig::default();
    assert_eq!(c.calculate_adaptive_priority_fee(), 15_000);
    c.adaptive_priority_fee_base = 333;
    c.adaptive_priority_fee_multiplier_permille = 1500;
    assert_eq!(c.calculate_adaptive_priority_fee(), 499);
    c.adaptive_priority_fee_base = u64::MAX;
    assert_eq!(c.calculate_adaptive_priority_fee(), u64::MAX);
}

#[test]
fn test_allow_list() {
    let mut c = TransactionConfig::default();
    let a = [7u8; 32];
    let b = [8u8; 32];
    assert!(c.is_program_allowed(&a));
    assert!(c.get_program_metadata(&a).is_none());
    let meta = ProgramMetadata { version: "1.0.0".to_string(), last_verified_slot: 42, is_verified: true };
    c.add_allowed_program(a, meta);
    assert!(c.is_program_allowed(&a));
    assert!(!c.is_program_allowed(&b));
    let got = c.get_program_metadata(&a).unwrap();
    assert_eq!(got.version, "1.0.0");
    assert_eq!(got.last_verified_slot, 42);
    assert!(got.is_verified);
    let copy = c.clone();
    assert!(copy.is_program_allowed(&a) && !copy.is_program_allowed(&b));
}

#[test]
fn test_program_metadata_default() {
    let m = ProgramMetadata::default();
    assert_eq!(m.version, "unknown");
    assert_eq!(m.last_verified_slot, 0);
    assert!(!m.is_verified);
}

#[test]
fn test_sub_config_defaults() {
    let q = QuorumConfig::default();
    assert_eq!((q.min_responses, q.max_slot_diff, q.enable_slot_validation), (2, 10, true));
    let s = SimulationCacheConfig::default();
    assert_eq!((s.ttl_seconds, s.max_size, s.enabled), (30, 1000, true));
    assert!(s.excluded_programs.is_empty());
}

#[test]
fn test_program_exclusion_by_base58() {
    let key = solana_sdk::pubkey::Pubkey::new_unique();
    let mut s = SimulationCacheConfig::default();
    assert!(!s.is_program_excluded(&key.to_bytes()));
    s.excluded_programs.push(key.to_string());
    assert!(s.is_program_excluded(&key.to_bytes()));
    assert!(!s.is_program_excluded(&[9u8; 32]));
}

#[test]
fn test_operation_priority_rules() {
    assert!(OperationPriority::CriticalSniper.requires_nonce());
    assert!(!OperationPriority::CriticalSniper.allow_blockhash_fallback());
    assert!(!OperationPriority::Utility.requires_nonce());
    assert!(OperationPriority::Utility.allow_blockhash_fallback());
    assert!(!OperationPriority::Bulk.requires_nonce());
    assert!(OperationPriority::Bulk.allow_blockhash_fallback());
    assert_eq!(OperationPriority::default(), OperationPriority::Utility);
}

#[test]
fn test_config_clone_copies_every_field() {
    let mut c = TransactionConfig::default();
    c.priority_fee_lamports = 11;
    c.compute_unit_limit = 12;
    c.min_cu_limit = 13;
    c.max_cu_limit = 14;
    c.adaptive_priority_fee_base = 15;
    c.adaptive_priority_fee_multiplier_permille = 1600;
    c.buy_amount_lamports = 17;
    c.slippage_bps = 18;
    c.rpc_endpoints = vec!["https://a.example".to_string(), "https://b.example".to_string()];
    c.rpc_retry_attempts = 19;
    c.rpc_timeout_ms = 20;
    c.pumpportal_url = Some("https://pp.example".to_string());
    c.pumpportal_api_key = Some("pp-key".to_string());
    c.letsbonk_api_url = Some("https://lb.example".to_string());
    c.letsbonk_api_key = None;
    c.jito_bundle_enabled = true;
    c.signer_keypair_index = Some(3);
    c.nonce_count = 21;
    c.dex_priority = vec![DexProgram::Orca, DexProgram::Unknown("x".to_string())];
    c.min_liquidity_lamports = 22;
    c.enable_simulation = false;
    c.enable_ml_slippage = true;
    c.quorum_config = QuorumConfig { min_responses: 4, max_slot_diff: 5, enable_slot_validation: false };
    c.retry_policy = RetryPolicy { max_attempts: 6, initial_delay_ms: 7, max_delay_ms: 8, backoff_multiplier_permille: 1200 };
    c.rpc_rate_limit_rps = 23;
    c.simulation_rate_limit_rps = 24;
    c.http_rate_limit_rps = 25;
    c.circuit_breaker_failure_threshold = 26;
    c.circuit_breaker_timeout_secs = 27;
    c.simulation_cache_config = SimulationCacheConfig {
        ttl_seconds: 28,
        max_size: 29,
        enabled: false,
        excluded_programs: vec!["Prog1".to_string()],
    };
    c.max_concurrent_builds = 30;
    c.operation_priority = OperationPriority::Bulk;
    c.signer_rotation_interval = 31;
    let program = [5u8; 32];
    c.add_allowed_program(program, ProgramMetadata { version: "2.0.0".to_string(), last_verified_slot: 9, is_verified: true });

    let d = c.clone();
    assert_eq!(d.priority_fee_lamports, 11);
    assert_eq!((d.compute_unit_limit, d.min_cu_limit, d.max_cu_limit), (12, 13, 14));
    assert_eq!((d.adaptive_priority_fee_base, d.adaptive_priority_fee_multiplier_permille), (15, 1600));
    assert_eq!((d.buy_amount_lamports, d.slippage_bps), (17, 18));
    assert_eq!(d.rpc_endpoints, c.rpc_endpoints);
    assert_eq!((d.rpc_retry_attempts, d.rpc_timeout_ms), (19, 20));
    assert_eq!(d.pumpportal_url.as_deref(), Some("https://pp.example"));
    assert_eq!(d.pumpportal_api_key.as_deref(), Some("pp-key"));
    assert_eq!(d.letsbonk_api_url.as_deref(), Some("https://lb.example"));
    assert_eq!(d.letsbonk_api_key, None);
    assert!(d.jito_bundle_enabled);
    assert_eq!(d.signer_keypair_index, Some(3));
    assert_eq!(d.nonce_count, 21);
    assert_eq!(d.dex_priority, vec![DexProgram::Orca, DexProgram::Unknown("x".to_string())]);
    assert_eq!(d.min_liquidity_lamports, 22);
    assert!(!d.enable_simulation);
    assert!(d.enable_ml_slippage);
    assert_eq!((d.quorum_config.min_responses, d.quorum_config.max_slot_diff, d.quorum_config.enable_slot_validation), (4, 5, false));
    assert_eq!(
        (d.retry_policy.max_attempts, d.retry_policy.initial_delay_ms, d.retry_policy.max_delay_ms, d.retry_policy.backoff_multiplier_permille),
        (6, 7, 8, 1200)
    );
    assert_eq!((d.rpc_rate_limit_rps, d.simulation_rate_limit_rps, d.http_rate_limit_rps), (23, 24, 25));
    assert_eq!((d.circuit_breaker_failure_threshold, d.circuit_breaker_timeout_secs), (26, 27));
    assert_eq!(
        (d.simulation_cache_config.ttl_seconds, d.simulation_cache_config.max_size, d.simulation_cache_config.enabled),
        (28, 29, false)
    );
    assert_eq!(d.simulation_cache_config.excluded_programs, vec!["Prog1".to_string()]);
    assert_eq!(d.max_concurrent_builds, 30);
    assert_eq!(d.operation_priority, OperationPriority::Bulk);
    assert_eq!(d.signer_rotation_interval, 31);
    let m = d.get_program_metadata(&program).unwrap();
    assert_eq!((m.version.as_str(), m.last_verified_slot, m.is_verified), ("2.0.0", 9, true));
    assert!(d.is_program_allowed(&program));
    assert!(!d.is_program_allowed(&[6u8; 32]));
}
