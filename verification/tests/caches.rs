use tx_builder::blockhash::{quorum_size, BlockhashCache, QuorumTally};
use tx_builder::config::QuorumConfig;
use tx_builder::simulation::{estimate_cu_limit, is_fatal_simulation_error, simulation_cache_key, SimulationCache};
use tx_builder::solana::{AccountMeta, Instruction};

#[test]
fn test_quorum_size() {
    assert_eq!(quorum_size(2, 3), Some(2));
    assert_eq!(quorum_size(3, 3), Some(3));
    assert_eq!(quorum_size(1, 3), None);
    assert_eq!(quorum_size(4, 3), None);
}

#[test]
fn test_quorum_tally_agreement() {
    let q = QuorumConfig { min_responses: 2, max_slot_diff: 10, enable_slot_validation: true };
    let mut t = QuorumTally::new();
    t.record([1u8; 32], 100);
    assert_eq!(t.check(&q), None);
    t.record([2u8; 32], 101);
    assert_eq!(t.check(&q), None);
    t.record([1u8; 32], 105);
    assert_eq!(t.check(&q), Some([1u8; 32]));
}

#[test]
fn test_quorum_tally_slot_spread() {
    let q = QuorumConfig { min_responses: 2, max_slot_diff: 10, enable_slot_validation: true };
    let mut t = QuorumTally::new();
    t.record([1u8; 32], 100);
    t.record([1u8; 32], 111);
    assert_eq!(t.check(&q), None);
    let relaxed = QuorumConfig { min_responses: 2, max_slot_diff: 10, enable_slot_validation: false };
    assert_eq!(t.check(&relaxed), Some([1u8; 32]));
}

#[test]
fn test_blockhash_cache_serves_fresh_insert() {
    let mut c = BlockhashCache::new();
    c.insert([1u8; 32], 1_000, 50);
    c.insert([2u8; 32], 2_000, 49);
    assert_eq!(c.len(), 2);
    assert_eq!(c.select_time_based(2_500, 15_000), Some([2u8; 32]));
    assert_eq!(c.select_slot_validated(2_500, 15_000, 55, 10), Some([1u8; 32]));
    assert_eq!(c.select_time_based(20_000, 15_000), None);
    assert_eq!(c.select_slot_validated(2_500, 15_000, 100, 10), None);
}

#[test]
fn test_blockhash_cache_replaces_same_hash() {
    let mut c = BlockhashCache::new();
    c.insert([1u8; 32], 1_000, 50);
    c.insert([1u8; 32], 9_000, 60);
    assert_eq!(c.len(), 1);
    assert_eq!(c.select_time_based(20_000, 15_000), Some([1u8; 32]));
}

#[test]
fn test_blockhash_cache_prune_and_invalidate() {
    let mut c = BlockhashCache::new();
    c.insert([1u8; 32], 0, 10);
    c.insert([2u8; 32], 40_000, 100);
    c.insert([3u8; 32], 41_000, 80);
    c.prune(41_000, 15_000, 100, 10);
    assert_eq!(c.len(), 1);
    assert_eq!(c.select_time_based(41_000, 15_000), Some([2u8; 32]));
    c.insert([4u8; 32], 41_000, 95);
    assert_eq!(c.invalidate_stale(104, 5), 1);
    assert_eq!(c.len(), 1);
    c.clear();
    assert_eq!(c.len(), 0);
}

#[test]
fn test_estimate_cu_limit() {
    assert_eq!(estimate_cu_limit(100_000, 50_000, 400_000), 120_000);
    assert_eq!(estimate_cu_limit(10, 50_000, 400_000), 50_000);
    assert_eq!(estimate_cu_limit(1_000_000, 50_000, 400_000), 400_000);
    assert_eq!(estimate_cu_limit(u64::MAX, 0, u32::MAX), u32::MAX);
    assert_eq!(estimate_cu_limit(7, 0, 100), 8);
}

#[test]
fn test_fatal_simulation_errors() {
    assert!(is_fatal_simulation_error("InstructionError(0, Custom(1))"));
    assert!(is_fatal_simulation_error("InsufficientFundsForRent"));
    assert!(is_fatal_simulation_error("ComputeBudgetExceeded"));
    assert!(!is_fatal_simulation_error("BlockhashNotFound"));
}

#[test]
fn test_simulation_cache_hits_misses_and_expiry() {
    let mut c = SimulationCache::new();
    let key = [5u8; 32];
    assert_eq!(c.lookup(&key, 0, 30), None);
    assert_eq!(c.misses(), 1);
    c.insert_and_prune(key, 1234, 1_000, 7, 1000);
    assert_eq!(c.len(), 1);
    assert_eq!(c.lookup(&key, 30_999, 30), Some(1234));
    assert_eq!(c.hits(), 1);
    assert_eq!(c.lookup(&key, 31_000, 30), None);
    assert_eq!(c.misses(), 3);
    assert_eq!(c.len(), 0);
    c.clear();
    assert_eq!((c.hits(), c.misses(), c.len()), (0, 0, 0));
}

#[test]
fn test_simulation_cache_prunes_oldest() {
    let mut c = SimulationCache::new();
    for i in 0..10u8 {
        c.insert_and_prune([i; 32], i as u64, 1_000 + i as u64, 0, 10);
    }
    assert_eq!(c.len(), 10);
    c.insert_and_prune([100u8; 32], 100, 5_000, 0, 10);
    assert_eq!(c.len(), 10);
    assert!(c.capacity() >= c.len());
    assert_eq!(c.lookup(&[0u8; 32], 5_000, 30), None);
    assert_eq!(c.lookup(&[1u8; 32], 5_000, 30), Some(1));
    assert_eq!(c.lookup(&[100u8; 32], 5_000, 30), Some(100));
}

#[test]
fn test_simulation_cache_key_depends_on_fee_and_limit() {
    let payer = [1u8; 32];
    let ixs = vec![Instruction {
        program_id: [2u8; 32],
        accounts: vec![AccountMeta { pubkey: [3u8; 32], is_signer: true, is_writable: false }],
        data: vec![9, 9],
    }];
    let k1 = simulation_cache_key(&payer, &ixs, 200_000, 10);
    let k2 = simulation_cache_key(&payer, &ixs, 200_000, 10);
    let k3 = simulation_cache_key(&payer, &ixs, 200_000, 11);
    let k4 = simulation_cache_key(&payer, &ixs, 200_001, 10);
    assert_eq!(k1, k2);
    assert_ne!(k1, k3);
    assert_ne!(k1, k4);
    let mut msg = Vec::new();
    msg.extend_from_slice(&payer);
    msg.extend_from_slice(&[2u8; 32]);
    msg.extend_from_slice(&[9, 9]);
    msg.extend_from_slice(&[3u8; 32]);
    msg.extend_from_slice(&[1, 0]);
    msg.extend_from_slice(&200_000u32.to_le_bytes());
    msg.extend_from_slice(&10u64.to_le_bytes());
    let expected: [u8; 32] = <sha2::Sha256 as sha2::Digest>::digest(&msg).into();
    assert_eq!(k1, expected);
}
