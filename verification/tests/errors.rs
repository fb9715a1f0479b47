use tx_builder::errors::{DexProgram, NonceError, TransactionBuilderError};

#[test]
fn test_error_conversion_nonce_to_transaction_builder() {
    let nonce_err = NonceError::NoLeaseAvailable;
    let tx_err: TransactionBuilderError = nonce_err.into();
    match tx_err {
        TransactionBuilderError::Nonce(err) => {
            assert!(matches!(err, NonceError::NoLeaseAvailable));
        }
        _ => panic!("Expected Nonce error variant"),
    }
}

#[test]
fn test_transaction_builder_error_owned_fields() {
    let err1 = TransactionBuilderError::ConfigValidation("test".to_string());
    let err2 = TransactionBuilderError::RpcConnection("test".to_string());
    let err3 = TransactionBuilderError::SigningFailed("test".to_string());
    assert!(err1.message().contains("Configuration"));
    assert!(err2.message().contains("RPC"));
    assert!(err3.message().contains("Signing"));
}

#[test]
fn test_error_messages_are_exact() {
    let e = TransactionBuilderError::InstructionBuild { program: "pumpportal".to_string(), reason: "bad".to_string() };
    assert_eq!(e.message(), "Instruction building failed for pumpportal: bad");
    let e = TransactionBuilderError::InsufficientBalance { required: 1500, available: 20 };
    assert_eq!(e.message(), "Insufficient balance: required 1500, available 20");
    let e = TransactionBuilderError::LiquidityTooLow { available: 3, required: 1000000000 };
    assert_eq!(e.message(), "Liquidity depth too low: 3 < 1000000000");
    let e = TransactionBuilderError::FeatureNotEnabled { feature: "orca".to_string(), action: "Orca buy instruction".to_string() };
    assert_eq!(e.message(), "Feature not enabled: orca for Orca buy instruction");
    let e = TransactionBuilderError::Nonce(NonceError::NoLeaseAvailable);
    assert_eq!(e.message(), "Nonce error: No nonce lease available");
}

#[test]
fn test_program_not_allowed_message_uses_base58() {
    let key = solana_sdk::pubkey::Pubkey::new_unique();
    let e = TransactionBuilderError::ProgramNotAllowed(key.to_bytes());
    assert_eq!(e.message(), format!("Program {} is not allowed by configuration", key));
}

#[test]
fn test_dex_program_from_names() {
    assert_eq!(DexProgram::from("pump.fun"), DexProgram::PumpFun);
    assert_eq!(DexProgram::from("PumpFun"), DexProgram::PumpFun);
    assert_eq!(DexProgram::from("PUMPPORTAL"), DexProgram::PumpFun);
    assert_eq!(DexProgram::from("LetsBonk.fun"), DexProgram::LetsBonk);
    assert_eq!(DexProgram::from("bonk"), DexProgram::LetsBonk);
    assert_eq!(DexProgram::from("Raydium"), DexProgram::Raydium);
    assert_eq!(DexProgram::from("orca"), DexProgram::Orca);
    assert_eq!(DexProgram::from("Jupiter"), DexProgram::Unknown("Jupiter".to_string()));
}

#[test]
fn test_dex_priority_scores() {
    assert_eq!(DexProgram::PumpFun.priority(), 0);
    assert_eq!(DexProgram::Raydium.priority(), 1);
    assert_eq!(DexProgram::Orca.priority(), 2);
    assert_eq!(DexProgram::LetsBonk.priority(), 3);
    assert_eq!(DexProgram::Unknown("x".to_string()).priority(), 255);
}
