use tx_builder::config::TransactionConfig;
use tx_builder::errors::TransactionBuilderError;
use tx_builder::external_api::{parse_accounts, parse_external_api_response, JsonField, JsonValue};
use tx_builder::solana::AccountMeta;

fn s(v: &str) -> JsonValue {
    JsonValue::Str(v.to_string())
}

fn obj(fields: Vec<(&str, JsonValue)>) -> JsonValue {
    JsonValue::Object(fields.into_iter().map(|(k, v)| JsonField { key: k.to_string(), value: v }).collect())
}

#[allow(deprecated)]
fn b64(bytes: &[u8]) -> String {
    base64::encode(bytes)
}

fn build_reason(r: Result<tx_builder::solana::Instruction, TransactionBuilderError>) -> (String, String) {
    match r {
        Err(TransactionBuilderError::InstructionBuild { program, reason }) => (program, reason),
        other => panic!("unexpected {:?}", other),
    }
}

#[test]
fn test_api_program_form_with_default_accounts() {
    let config = TransactionConfig::default();
    let wallet = [1u8; 32];
    let pid = solana_sdk::pubkey::Pubkey::new_unique();
    let reply = obj(vec![("program_id", s(&pid.to_string())), ("data", s(&b64(&[1, 2, 3])))]);
    let ix = parse_external_api_response(&reply, "pumpportal", &config, &wallet).unwrap();
    assert_eq!(ix.program_id, pid.to_bytes());
    assert_eq!(ix.data, vec![1, 2, 3]);
    assert_eq!(ix.accounts, vec![AccountMeta { pubkey: wallet, is_signer: false, is_writable: false }]);
}

#[test]
fn test_api_program_form_with_accounts() {
    let config = TransactionConfig::default();
    let wallet_key = solana_sdk::pubkey::Pubkey::new_unique();
    let wallet = wallet_key.to_bytes();
    let other = solana_sdk::pubkey::Pubkey::new_unique();
    let accounts = JsonValue::Array(vec![
        obj(vec![("pubkey", s(&wallet_key.to_string())), ("is_signer", JsonValue::Bool(true)), ("is_writable", JsonValue::Bool(true))]),
        obj(vec![("pubkey", s(&other.to_string()))]),
    ]);
    let pid = solana_sdk::pubkey::Pubkey::new_unique();
    let reply = obj(vec![("program_id", s(&pid.to_string())), ("data", s(&b64(&[9]))), ("accounts", accounts)]);
    let ix = parse_external_api_response(&reply, "letsbonk", &config, &wallet).unwrap();
    assert_eq!(
        ix.accounts,
        vec![
            AccountMeta { pubkey: wallet, is_signer: true, is_writable: true },
            AccountMeta { pubkey: other.to_bytes(), is_signer: false, is_writable: false },
        ]
    );
}

#[test]
fn test_api_rejects_foreign_signer() {
    let wallet = [1u8; 32];
    let other = solana_sdk::pubkey::Pubkey::new_unique();
    let accounts = JsonValue::Array(vec![obj(vec![("pubkey", s(&other.to_string())), ("is_signer", JsonValue::Bool(true))])]);
    match parse_accounts(&accounts, "letsbonk", &wallet) {
        Err(TransactionBuilderError::InstructionBuild { program, reason }) => {
            assert_eq!(program, "letsbonk");
            assert_eq!(reason, format!("unexpected signer account: {}", other));
        }
        other => panic!("unexpected {:?}", other),
    }
    assert_eq!(
        build_reason(parse_external_api_response(
            &obj(vec![("program_id", s(&other.to_string())), ("data", s("AA==")), ("accounts", s("x"))]),
            "letsbonk",
            &TransactionConfig::default(),
            &wallet
        ))
        .1,
        "accounts not an array"
    );
}

#[test]
fn test_api_rejects_program_off_the_allow_list() {
    let mut config = TransactionConfig::default();
    config.add_allowed_program([5u8; 32], tx_builder::types::ProgramMetadata::default());
    let pid = solana_sdk::pubkey::Pubkey::new_unique();
    let reply = obj(vec![("program_id", s(&pid.to_string())), ("data", s(&b64(&[1])))]);
    match parse_external_api_response(&reply, "pumpportal", &config, &[1u8; 32]) {
        Err(TransactionBuilderError::ProgramNotAllowed(p)) => assert_eq!(p, pid.to_bytes()),
        other => panic!("unexpected {:?}", other),
    }
}

#[test]
fn test_api_field_errors() {
    let config = TransactionConfig::default();
    let wallet = [1u8; 32];
    let pid = solana_sdk::pubkey::Pubkey::new_unique().to_string();
    let r = parse_external_api_response(&obj(vec![("program_id", JsonValue::Bool(true)), ("data", s("AA=="))]), "pp", &config, &wallet);
    assert_eq!(build_reason(r), ("pp".to_string(), "program_id not string".to_string()));
    let r = parse_external_api_response(&obj(vec![("program_id", s(&pid)), ("data", JsonValue::Null)]), "pp", &config, &wallet);
    assert_eq!(build_reason(r).1, "data not string");
    let r = parse_external_api_response(&obj(vec![("program_id", s("not-a-key")), ("data", s("AA=="))]), "pp", &config, &wallet);
    assert!(build_reason(r).1.starts_with("invalid program_id: "));
    let r = parse_external_api_response(&obj(vec![("program_id", s(&pid)), ("data", s("%%%"))]), "pp", &config, &wallet);
    assert!(build_reason(r).1.starts_with("base64 decode error: "));
    let big = b64(&vec![0u8; 4097]);
    let r = parse_external_api_response(&obj(vec![("program_id", s(&pid)), ("data", s(&big))]), "pp", &config, &wallet);
    assert_eq!(build_reason(r).1, "instruction data too large (max 4KB)");
    let ok = b64(&vec![0u8; 4096]);
    assert!(parse_external_api_response(&obj(vec![("program_id", s(&pid)), ("data", s(&ok))]), "pp", &config, &wallet).is_ok());
}

#[test]
fn test_api_legacy_and_invalid_forms() {
    let config = TransactionConfig::default();
    let wallet = [1u8; 32];
    let ix = parse_external_api_response(&obj(vec![("instruction_b64", s(&b64(b"abc")))]), "pp", &config, &wallet).unwrap();
    assert_eq!(ix.data, b"abc".to_vec());
    assert_eq!(ix.accounts, vec![AccountMeta { pubkey: wallet, is_signer: false, is_writable: false }]);
    let r = parse_external_api_response(&obj(vec![("unexpected", s("x"))]), "pp", &config, &wallet);
    assert_eq!(build_reason(r).1, "invalid response format");
    let r = parse_external_api_response(&JsonValue::Array(vec![]), "pp", &config, &wallet);
    assert_eq!(build_reason(r).1, "invalid response format");
}
