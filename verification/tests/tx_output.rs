use solana_sdk::message::v0::Message as MessageV0;
use solana_sdk::message::{MessageHeader, VersionedMessage};
use solana_sdk::signature::Signature;
use solana_sdk::transaction::VersionedTransaction;
use std::sync::atomic::{AtomicBool, Ordering as AtomicOrdering};
use std::sync::Arc;
use tx_builder::types::{required_signers, ExecutionContext, TxBuildOutput};

/// A lease that records when it is dropped.
struct MockLease {
    released: Arc<AtomicBool>,
}

impl Drop for MockLease {
    fn drop(&mut self) {
        self.released.store(true, AtomicOrdering::SeqCst);
    }
}

fn create_mock_lease(released: Arc<AtomicBool>) -> MockLease {
    MockLease { released }
}

fn key() -> solana_sdk::pubkey::Pubkey {
    solana_sdk::pubkey::Pubkey::new_unique()
}

/// A transaction whose message requires `num_signers` signatures, over `num_signers + 1` keys.
fn create_test_transaction(num_signers: u8) -> VersionedTransaction {
    let mut account_keys = Vec::new();
    for _ in 0..=num_signers {
        account_keys.push(key());
    }
    let message = MessageV0 {
        header: MessageHeader {
            num_required_signatures: num_signers,
            num_readonly_signed_accounts: 0,
            num_readonly_unsigned_accounts: 0,
        },
        account_keys,
        recent_blockhash: solana_sdk::hash::Hash::default(),
        instructions: vec![],
        address_table_lookups: vec![],
    };
    VersionedTransaction {
        signatures: vec![Signature::default(); num_signers as usize],
        message: VersionedMessage::V0(message),
    }
}

#[test]
fn test_txbuildoutput_without_nonce_guard() {
    let tx = create_test_transaction(1);
    let output: TxBuildOutput<MockLease> = TxBuildOutput::new(tx, None);
    assert!(output.nonce_guard.is_none());
}

#[test]
fn test_txbuildoutput_drop_without_nonce_guard() {
    let tx = create_test_transaction(1);
    {
        let _output: TxBuildOutput<MockLease> = TxBuildOutput::new(tx, None);
    }
}

#[test]
fn test_txbuildoutput_reads_signers_from_header() {
    let tx = create_test_transaction(2);
    let keys: Vec<[u8; 32]> = tx.message.static_account_keys().iter().map(|k| k.to_bytes()).collect();
    let output: TxBuildOutput<MockLease> = TxBuildOutput::new(tx, None);
    assert_eq!(output.required_signers.len(), 2);
    assert_eq!(output.required_signers[0], keys[0]);
    assert_eq!(output.required_signers[1], keys[1]);
    assert_eq!(output.tx.message.header().num_required_signatures, 2);
}

#[test]
fn test_txbuildoutput_release_nonce_hands_back_guard() {
    let released = Arc::new(AtomicBool::new(false));
    let output = TxBuildOutput::new(create_test_transaction(1), Some(create_mock_lease(released.clone())));
    assert!(!released.load(AtomicOrdering::SeqCst));
    let guard = output.release_nonce();
    assert!(guard.is_some());
    assert!(!released.load(AtomicOrdering::SeqCst));
    drop(guard);
    assert!(released.load(AtomicOrdering::SeqCst));
}

#[test]
fn test_required_signers_is_a_clamped_prefix() {
    let keys = [[1u8; 32], [2u8; 32], [3u8; 32]];
    assert_eq!(required_signers(2, &keys), vec![[1u8; 32], [2u8; 32]]);
    assert_eq!(required_signers(0, &keys), Vec::<[u8; 32]>::new());
    assert_eq!(required_signers(7, &keys), keys.to_vec());
}

#[test]
fn test_execution_context_extract_lease() {
    let released = Arc::new(AtomicBool::new(false));
    let lease = create_mock_lease(released.clone());
    let exec_ctx = ExecutionContext {
        blockhash: [0u8; 32],
        nonce_pubkey: Some(key().to_bytes()),
        nonce_authority: Some(key().to_bytes()),
        nonce_lease: Some(lease),
    };
    let extracted_lease = exec_ctx.extract_lease();
    assert!(extracted_lease.is_some());
    drop(extracted_lease);
    assert!(released.load(AtomicOrdering::SeqCst));
}

#[test]
fn test_execution_context_extract_lease_when_none() {
    let exec_ctx: ExecutionContext<MockLease> = ExecutionContext {
        blockhash: [0u8; 32],
        nonce_pubkey: None,
        nonce_authority: None,
        nonce_lease: None,
    };
    let extracted_lease = exec_ctx.extract_lease();
    assert!(extracted_lease.is_none());
}

#[test]
fn test_execution_context_drop_releases_lease() {
    let released = Arc::new(AtomicBool::new(false));
    let lease = create_mock_lease(released.clone());
    assert!(!released.load(AtomicOrdering::SeqCst));
    {
        let _exec_ctx = ExecutionContext {
            blockhash: [0u8; 32],
            nonce_pubkey: Some(key().to_bytes()),
            nonce_authority: Some(key().to_bytes()),
            nonce_lease: Some(lease),
        };
    }
    assert!(released.load(AtomicOrdering::SeqCst));
}
