//! Instructions described by external HTTP APIs (PumpPortal, LetsBonk), read from
//! their JSON replies.
use vstd::prelude::*;
use vstd::string::StringExecFns;
use vstd::array::array_view;
use crate::config::{allowlist_entries, TransactionConfig};
use crate::errors::TransactionBuilderError;
use crate::instructions::build_memo;
use crate::solana::{
    keys_eq, parse_pubkey, pubkey_to_string, spec_memo_program_id, spec_parse_pubkey,
    spec_pubkey_to_string, AccountMeta, Instruction, Pubkey,
};
use crate::text::str_eq;

verus! {

broadcast use vstd::array::group_array_axioms;

/// A JSON value, as the external APIs reply. Numbers keep their text.
#[derive(Debug)]
pub enum JsonValue {
    Null,
    Bool(bool),
    Number(String),
    Str(String),
    Array(Vec<JsonValue>),
    Object(Vec<JsonField>),
}

/// One field of a JSON object.
#[derive(Debug)]
pub struct JsonField {
    pub key: String,
    pub value: JsonValue,
}

/// The value of the first field named `key`, if any.
pub open spec fn spec_get(fields: Seq<JsonField>, key: Seq<char>) -> Option<JsonValue>
    decreases fields.len(),
{
    if fields.len() == 0 {
        None
    } else if fields[0].key@ == key {
        Some(fields[0].value)
    } else {
        spec_get(fields.drop_first(), key)
    }
}

/// The text of a string value.
pub open spec fn spec_as_str(v: Option<JsonValue>) -> Option<Seq<char>> {
    match v {
        Some(JsonValue::Str(s)) => Some(s@),
        _ => None,
    }
}

/// The flag of a boolean value, `false` for anything else or a missing field.
pub open spec fn spec_flag(v: Option<JsonValue>) -> bool {
    match v {
        Some(JsonValue::Bool(b)) => b,
        _ => false,
    }
}

/// What base64 decoding (standard alphabet, `base64::decode`) gives for a text: the
/// bytes, or the text of its `DecodeError`.
pub uninterp spec fn spec_base64_decode(s: Seq<char>) -> Result<Seq<u8>, Seq<char>>;

/// Decodes standard base64 with `base64::decode`.
/// Claimed: the outcome (the bytes, or the error's text) is a function of `s` alone.
#[verifier::external_body]
#[allow(deprecated)]
fn base64_decode(s: &str) -> (r: Result<Vec<u8>, String>)
    ensures
        match r {
            Ok(b) => spec_base64_decode(s@) == Ok::<Seq<u8>, Seq<char>>(b@),
            Err(e) => spec_base64_decode(s@) == Err::<Seq<u8>, Seq<char>>(e@),
        },
{
    match base64::decode(s) {
        Ok(b) => Ok(b),
        Err(e) => Err(e.to_string()),
    }
}

/// Largest instruction data accepted from an external API, in bytes.
pub const MAX_INSTRUCTION_DATA: usize = 4096;

/// The key with these bytes.
pub open spec fn key_from_bytes(b: Seq<u8>) -> Pubkey {
    choose|k: Pubkey| array_view(k) == b
}

proof fn lemma_key_from_bytes(k: Pubkey)
    ensures
        key_from_bytes(k@) == k,
{
    let v = k@;
    assert(exists|c: Pubkey| #[trigger] array_view(c) == v) by {
        assert(array_view(k) == v);
    }
    let c = key_from_bytes(k@);
    assert(c@ == k@);
    assert forall|j: int| 0 <= j < 32 implies c[j] == k[j] by {
        assert(c@[j] == k@[j]);
    }
    assert(c =~= k);
}

/// The outcome of reading one account entry.
pub open spec fn spec_parse_account(v: JsonValue, wallet: Pubkey) -> Result<AccountMeta, Seq<char>> {
    match v {
        JsonValue::Object(fields) => match spec_as_str(spec_get(fields@, "pubkey"@)) {
            None => Err("account pubkey missing or not string"@),
            Some(text) => match spec_parse_pubkey(text) {
                Err(e) => Err("invalid account pubkey: "@ + e),
                Ok(bytes) => if spec_flag(spec_get(fields@, "is_signer"@)) && bytes != wallet@ {
                    Err("unexpected signer account: "@ + spec_pubkey_to_string(bytes))
                } else {
                    Ok(AccountMeta {
                        pubkey: key_from_bytes(bytes),
                        is_signer: spec_flag(spec_get(fields@, "is_signer"@)),
                        is_writable: spec_flag(spec_get(fields@, "is_writable"@)),
                    })
                },
            },
        },
        _ => Err("account entry not an object"@),
    }
}

/// The outcome of reading account entries in order: the first failure, or all accounts.
pub open spec fn spec_parse_account_list(items: Seq<JsonValue>, wallet: Pubkey) -> Result<Seq<AccountMeta>, Seq<char>>
    decreases items.len(),
{
    if items.len() == 0 {
        Ok(seq![])
    } else {
        match spec_parse_account(items[0], wallet) {
            Err(e) => Err(e),
            Ok(a) => match spec_parse_account_list(items.drop_first(), wallet) {
                Err(e) => Err(e),
                Ok(rest) => Ok(seq![a] + rest),
            },
        }
    }
}

/// The outcome of reading an `accounts` value: an array of account entries.
pub open spec fn spec_parse_accounts(v: JsonValue, wallet: Pubkey) -> Result<Seq<AccountMeta>, Seq<char>> {
    match v {
        JsonValue::Array(items) => spec_parse_account_list(items@, wallet),
        _ => Err("accounts not an array"@),
    }
}

/// What one parsed account says of its JSON entry: the entry is an object whose
/// `pubkey` text decodes to the bytes of the account's key; the account writes exactly when the
/// entry's `is_writable` field is `true` and signs exactly when its `is_signer` field is
/// `true` (a missing or non-boolean field counts as false); and only the wallet signs.
pub open spec fn account_reads_entry(a: AccountMeta, entry: JsonValue, wallet: Pubkey) -> bool {
    &&& entry is Object
    &&& (a.is_writable <==> spec_get(entry->Object_0@, "is_writable"@) == Some(JsonValue::Bool(true)))
    &&& (a.is_signer <==> spec_get(entry->Object_0@, "is_signer"@) == Some(JsonValue::Bool(true)))
    &&& (a.is_signer ==> a.pubkey == wallet)
    &&& exists|text: String, bytes: Seq<u8>| spec_get(entry->Object_0@, "pubkey"@) == Some(JsonValue::Str(text))
            && spec_parse_pubkey(text@) == Ok::<Seq<u8>, Seq<char>>(bytes) && a.pubkey == key_from_bytes(bytes)
}

proof fn lemma_flag_is_true(v: Option<JsonValue>)
    ensures
        spec_flag(v) <==> v == Some(JsonValue::Bool(true)),
{
}

/// A successfully parsed account entry gives the account its entry describes.
pub proof fn lemma_parsed_account_reads_entry(entry: JsonValue, wallet: Pubkey, a: AccountMeta)
    requires
        spec_parse_account(entry, wallet) == Ok::<AccountMeta, Seq<char>>(a),
    ensures
        account_reads_entry(a, entry, wallet),
{
    let fields = entry->Object_0@;
    lemma_flag_is_true(spec_get(fields, "is_writable"@));
    lemma_flag_is_true(spec_get(fields, "is_signer"@));
    let text = spec_get(fields, "pubkey"@)->Some_0->Str_0;
    let bytes = spec_parse_pubkey(text@)->Ok_0;
    assert(spec_get(fields, "pubkey"@) == Some(JsonValue::Str(text)) && spec_parse_pubkey(text@)
        == Ok::<Seq<u8>, Seq<char>>(bytes) && a.pubkey == key_from_bytes(bytes));
    if a.is_signer {
        lemma_key_from_bytes(wallet);
    }
}

/// Parsed accounts, one per entry and in the same order, each as its entry describes it
/// (see `account_reads_entry`).
pub proof fn lemma_parsed_accounts_read_entries(items: Seq<JsonValue>, wallet: Pubkey, accounts: Seq<AccountMeta>)
    requires
        spec_parse_account_list(items, wallet) == Ok::<Seq<AccountMeta>, Seq<char>>(accounts),
    ensures
        accounts.len() == items.len(),
        forall|k: int| 0 <= k < items.len() ==> account_reads_entry(#[trigger] accounts[k], items[k], wallet),
    decreases items.len(),
{
    if items.len() > 0 {
        let a = spec_parse_account(items[0], wallet)->Ok_0;
        let rest = spec_parse_account_list(items.drop_first(), wallet)->Ok_0;
        lemma_parsed_account_reads_entry(items[0], wallet, a);
        lemma_parsed_accounts_read_entries(items.drop_first(), wallet, rest);
        assert(accounts == seq![a] + rest);
        assert forall|k: int| 0 <= k < items.len() implies account_reads_entry(#[trigger] accounts[k], items[k], wallet) by {
            if k > 0 {
                assert(accounts[k] == rest[k - 1]);
                assert(items[k] == items.drop_first()[k - 1]);
            }
        }
    }
}

/// An `InstructionBuild` error for `api_name` with `reason`.
pub open spec fn is_build_error(e: TransactionBuilderError, api_name: Seq<char>, reason: Seq<char>) -> bool {
    e matches TransactionBuilderError::InstructionBuild { program, reason: r } && program@ == api_name && r@ == reason
}

fn build_error(api_name: &str, reason: String) -> (e: TransactionBuilderError)
    ensures
        is_build_error(e, api_name@, reason@),
{
    TransactionBuilderError::InstructionBuild { program: String::from_str(api_name), reason }
}

fn build_error_str(api_name: &str, reason: &str) -> (e: TransactionBuilderError)
    ensures
        is_build_error(e, api_name@, reason@),
{
    build_error(api_name, String::from_str(reason))
}

fn prefixed(prefix: &str, detail: &str) -> (s: String)
    ensures
        s@ == prefix@ + detail@,
{
    let mut s = String::from_str(prefix);
    s.append(detail);
    s
}

/// The value of the field named `key`, if any.
pub fn json_get<'a>(fields: &'a Vec<JsonField>, key: &str) -> (r: Option<&'a JsonValue>)
    ensures
        match r {
            Some(v) => spec_get(fields@, key@) == Some(*v),
            None => spec_get(fields@, key@) is None,
        },
{
    let mut i: usize = 0;
    assert(fields@.subrange(0, fields@.len() as int) =~= fields@);
    while i < fields.len()
        invariant
            0 <= i <= fields@.len(),
            spec_get(fields@, key@) == spec_get(fields@.subrange(i as int, fields@.len() as int), key@),
        decreases fields@.len() - i,
    {
        proof {
            let rest = fields@.subrange(i as int, fields@.len() as int);
            assert(rest.drop_first() =~= fields@.subrange(i + 1, fields@.len() as int));
        }
        if str_eq(fields[i].key.as_str(), key) {
            return Some(&fields[i].value);
        }
        i += 1;
    }
    None
}

/// The text of a string value.
pub fn json_as_str(v: Option<&JsonValue>) -> (r: Option<&str>)
    ensures
        match r {
            Some(s) => spec_as_str(match v { Some(x) => Some(*x), None => None }) == Some(s@),
            None => spec_as_str(match v { Some(x) => Some(*x), None => None }) is None,
        },
{
    match v {
        Some(JsonValue::Str(s)) => Some(s.as_str()),
        _ => None,
    }
}

fn json_flag(v: Option<&JsonValue>) -> (b: bool)
    ensures
        b == spec_flag(match v { Some(x) => Some(*x), None => None }),
{
    match v {
        Some(JsonValue::Bool(b)) => *b,
        _ => false,
    }
}

fn parse_account(v: &JsonValue, api_name: &str, wallet: &Pubkey) -> (r: Result<AccountMeta, TransactionBuilderError>)
    ensures
        match r {
            Ok(a) => spec_parse_account(*v, *wallet) == Ok::<AccountMeta, Seq<char>>(a),
            Err(e) => exists|reason: Seq<char>| spec_parse_account(*v, *wallet) == Err::<AccountMeta, Seq<char>>(reason)
                && is_build_error(e, api_name@, reason),
        },
{
    match v {
        JsonValue::Object(fields) => {
            let text = match json_as_str(json_get(fields, "pubkey")) {
                Some(t) => t,
                None => {
                    return Err(build_error_str(api_name, "account pubkey missing or not string"));
                },
            };
            let pubkey = match parse_pubkey(text) {
                Ok(k) => k,
                Err(e) => {
                    return Err(build_error(api_name, prefixed("invalid account pubkey: ", e.as_str())));
                },
            };
            proof {
                lemma_key_from_bytes(pubkey);
            }
            assert(spec_as_str(spec_get(fields@, "pubkey"@)) == Some(text@));
            assert(spec_parse_pubkey(text@) == Ok::<Seq<u8>, Seq<char>>(pubkey@));
            let is_signer = json_flag(json_get(fields, "is_signer"));
            let is_writable = json_flag(json_get(fields, "is_writable"));
            assert(is_signer == spec_flag(spec_get(fields@, "is_signer"@)));
            assert(is_writable == spec_flag(spec_get(fields@, "is_writable"@)));
            if is_signer && !keys_eq(&pubkey, wallet) {
                let shown = pubkey_to_string(&pubkey);
                return Err(build_error(api_name, prefixed("unexpected signer account: ", shown.as_str())));
            }
            let meta = AccountMeta { pubkey, is_signer, is_writable };

            Ok(meta)
        },
        _ => Err(build_error_str(api_name, "account entry not an object")),
    }
}

/// Reads account metas from JSON: an array of objects with `pubkey` (base58 text) and
/// optional `is_signer` and `is_writable` flags. A signer other than `wallet` is refused.
pub fn parse_accounts(accounts_val: &JsonValue, api_name: &str, wallet: &Pubkey)
    -> (r: Result<Vec<AccountMeta>, TransactionBuilderError>)
    ensures
        match r {
            Ok(accs) => spec_parse_accounts(*accounts_val, *wallet) == Ok::<Seq<AccountMeta>, Seq<char>>(accs@),
            Err(e) => exists|reason: Seq<char>| spec_parse_accounts(*accounts_val, *wallet)
                == Err::<Seq<AccountMeta>, Seq<char>>(reason) && is_build_error(e, api_name@, reason),
        },
{
    let items = match accounts_val {
        JsonValue::Array(items) => items,
        _ => {
            return Err(build_error_str(api_name, "accounts not an array"));
        },
    };
    let mut accounts: Vec<AccountMeta> = Vec::new();
    let mut i: usize = 0;
    proof {
        assert(items@.subrange(0, items@.len() as int) =~= items@);
        match spec_parse_account_list(items@, *wallet) {
            Ok(rest) => { assert(accounts@ + rest =~= rest); },
            Err(_) => {},
        }
    }
    while i < items.len()
        invariant
            0 <= i <= items@.len(),
            *accounts_val == JsonValue::Array(*items),
            spec_parse_account_list(items@, *wallet) == match spec_parse_account_list(
                items@.subrange(i as int, items@.len() as int), *wallet) {
                Err(e) => Err(e),
                Ok(rest) => Ok::<Seq<AccountMeta>, Seq<char>>(accounts@ + rest),
            },
        decreases items@.len() - i,
    {
        let ghost rest = items@.subrange(i as int, items@.len() as int);
        proof {
            assert(rest[0] == items@[i as int]);
            assert(rest.drop_first() =~= items@.subrange(i + 1, items@.len() as int));
        }
        let a = parse_account(&items[i], api_name, wallet);
        match a {
            Ok(meta) => {
                proof {
                    let tail = items@.subrange(i + 1, items@.len() as int);
                    match spec_parse_account_list(tail, *wallet) {
                        Ok(t) => {
                            assert(accounts@.push(meta) + t =~= accounts@ + (seq![meta] + t));
                        },
                        Err(_) => {},
                    }
                }
                accounts.push(meta);
            },
            Err(e) => {
                return Err(e);
            },
        }
        i += 1;
    }
    proof {
        assert(items@.subrange(items@.len() as int, items@.len() as int) =~= Seq::<JsonValue>::empty());
        assert(accounts@ + Seq::<AccountMeta>::empty() =~= accounts@);
    }
    Ok(accounts)
}

/// An instruction read from an external API reply, as plain values.
pub ghost struct ParsedInstruction {
    pub program_id: Pubkey,
    pub accounts: Seq<AccountMeta>,
    pub data: Seq<u8>,
}

/// Why an external API reply gave no instruction.
pub ghost enum ApiFailure {
    /// An `InstructionBuild` error with this reason.
    Build(Seq<char>),
    /// The program is not on the allow-list.
    NotAllowed(Pubkey),
}

/// Does a program pass an allow-list with these entries? An empty list allows all.
pub open spec fn spec_allowed(entries: Map<Seq<u8>, crate::types::ProgramMetadataView>, program: Seq<u8>) -> bool {
    entries.dom() == Set::<Seq<u8>>::empty() || entries.dom().contains(program)
}

/// Decoded instruction data within the size limit, or why not.
pub open spec fn spec_decode_data(text: Seq<char>) -> Result<Seq<u8>, Seq<char>> {
    match spec_base64_decode(text) {
        Err(e) => Err("base64 decode error: "@ + e),
        Ok(bytes) => if bytes.len() > MAX_INSTRUCTION_DATA {
            Err("instruction data too large (max 4KB)"@)
        } else {
            Ok(bytes)
        },
    }
}

/// The wallet as the only account, read-only and not signing.
pub open spec fn payer_only(wallet: Pubkey) -> Seq<AccountMeta> {
    seq![AccountMeta { pubkey: wallet, is_signer: false, is_writable: false }]
}

/// The outcome of reading an instruction from `program_id` + `data` fields.
pub open spec fn spec_parse_program_form(
    fields: Seq<JsonField>,
    allowed: Map<Seq<u8>, crate::types::ProgramMetadataView>,
    wallet: Pubkey,
) -> Result<ParsedInstruction, ApiFailure> {
    match spec_as_str(spec_get(fields, "program_id"@)) {
        None => Err(ApiFailure::Build("program_id not string"@)),
        Some(t) => match spec_parse_pubkey(t) {
            Err(e) => Err(ApiFailure::Build("invalid program_id: "@ + e)),
            Ok(pid) => if !spec_allowed(allowed, pid) {
                Err(ApiFailure::NotAllowed(key_from_bytes(pid)))
            } else {
                match spec_as_str(spec_get(fields, "data"@)) {
                    None => Err(ApiFailure::Build("data not string"@)),
                    Some(d) => match spec_decode_data(d) {
                        Err(e) => Err(ApiFailure::Build(e)),
                        Ok(bytes) => match spec_get(fields, "accounts"@) {
                            Some(acc) => match spec_parse_accounts(acc, wallet) {
                                Err(e) => Err(ApiFailure::Build(e)),
                                Ok(accs) => Ok(ParsedInstruction { program_id: key_from_bytes(pid), accounts: accs, data: bytes }),
                            },
                            None => Ok(ParsedInstruction { program_id: key_from_bytes(pid), accounts: payer_only(wallet), data: bytes }),
                        },
                    },
                }
            },
        },
    }
}

/// The outcome of reading an external API reply: the `program_id` + `data` form (with
/// optional `accounts`) when both fields are present, else the legacy `instruction_b64`
/// form, which becomes a memo instruction naming the wallet as its one account,
/// read-only and not signing.
pub open spec fn spec_parse_response(
    j: JsonValue,
    allowed: Map<Seq<u8>, crate::types::ProgramMetadataView>,
    wallet: Pubkey,
) -> Result<ParsedInstruction, ApiFailure> {
    match j {
        JsonValue::Object(fields) => {
            if spec_get(fields@, "program_id"@) is Some && spec_get(fields@, "data"@) is Some {
                spec_parse_program_form(fields@, allowed, wallet)
            } else {
                match spec_as_str(spec_get(fields@, "instruction_b64"@)) {
                    Some(b64) => match spec_decode_data(b64) {
                        Err(e) => Err(ApiFailure::Build(e)),
                        Ok(bytes) => Ok(ParsedInstruction {
                            program_id: key_from_bytes(spec_memo_program_id()),
                            accounts: payer_only(wallet),
                            data: bytes,
                        }),
                    },
                    None => Err(ApiFailure::Build("invalid response format"@)),
                }
            }
        },
        _ => Err(ApiFailure::Build("invalid response format"@)),
    }
}

/// Does the returned outcome match the specified one?
pub open spec fn reply_outcome_matches(
    r: Result<Instruction, TransactionBuilderError>,
    s: Result<ParsedInstruction, ApiFailure>,
    api_name: Seq<char>,
) -> bool {
    match (r, s) {
        (Ok(ix), Ok(p)) => ix.program_id == p.program_id && ix.accounts@ == p.accounts && ix.data@ == p.data,
        (Err(e), Err(ApiFailure::Build(reason))) => is_build_error(e, api_name, reason),
        (Err(e), Err(ApiFailure::NotAllowed(k))) => e == TransactionBuilderError::ProgramNotAllowed(k),
        _ => false,
    }
}

fn decode_data(text: &str, api_name: &str) -> (r: Result<Vec<u8>, TransactionBuilderError>)
    ensures
        match (r, spec_decode_data(text@)) {
            (Ok(b), Ok(sb)) => b@ == sb,
            (Err(e), Err(reason)) => is_build_error(e, api_name@, reason),
            _ => false,
        },
{
    let data = match base64_decode(text) {
        Ok(d) => d,
        Err(e) => {
            return Err(build_error(api_name, prefixed("base64 decode error: ", e.as_str())));
        },
    };
    if data.len() > MAX_INSTRUCTION_DATA {
        return Err(build_error_str(api_name, "instruction data too large (max 4KB)"));
    }
    Ok(data)
}

fn parse_program_form(
    fields: &Vec<JsonField>,
    api_name: &str,
    config: &TransactionConfig,
    wallet: &Pubkey,
) -> (r: Result<Instruction, TransactionBuilderError>)
    ensures
        reply_outcome_matches(r, spec_parse_program_form(fields@,
            allowlist_entries(config.allowed_programs), *wallet), api_name@),
{
    let pid_text = match json_as_str(json_get(fields, "program_id")) {
        Some(t) => t,
        None => {
            return Err(build_error_str(api_name, "program_id not string"));
        },
    };
    let pid = match parse_pubkey(pid_text) {
        Ok(k) => k,
        Err(e) => {
            return Err(build_error(api_name, prefixed("invalid program_id: ", e.as_str())));
        },
    };
    proof {
        lemma_key_from_bytes(pid);
    }
    if !config.is_program_allowed(&pid) {
        return Err(TransactionBuilderError::ProgramNotAllowed(pid));
    }
    let data_text = match json_as_str(json_get(fields, "data")) {
        Some(t) => t,
        None => {
            return Err(build_error_str(api_name, "data not string"));
        },
    };
    let data = match decode_data(data_text, api_name) {
        Ok(d) => d,
        Err(e) => {
            return Err(e);
        },
    };
    let accounts = match json_get(fields, "accounts") {
        Some(acc) => match parse_accounts(acc, api_name, wallet) {
            Ok(a) => a,
            Err(e) => {
                return Err(e);
            },
        },
        None => {
            let mut a: Vec<AccountMeta> = Vec::new();
            a.push(AccountMeta { pubkey: *wallet, is_signer: false, is_writable: false });
            assert(a@ =~= payer_only(*wallet));
            a
        },
    };
    Ok(Instruction { program_id: pid, accounts, data })
}

/// Reads the instruction an external API describes in its JSON reply: `program_id`
/// (base58) with base64 `data` (at most 4096 bytes) and optional `accounts`, the program
/// being on the allow-list; or, failing that form, a legacy base64 `instruction_b64`,
/// wrapped in a memo instruction that names the wallet as a read-only, non-signing account.
pub fn parse_external_api_response(
    j: &JsonValue,
    api_name: &str,
    config: &TransactionConfig,
    wallet: &Pubkey,
) -> (r: Result<Instruction, TransactionBuilderError>)
    ensures
        reply_outcome_matches(r, spec_parse_response(*j, allowlist_entries(config.allowed_programs), *wallet),
            api_name@),
{
    match j {
        JsonValue::Object(fields) => {
            if json_get(fields, "program_id").is_some() && json_get(fields, "data").is_some() {
                return parse_program_form(fields, api_name, config, wallet);
            }
            match json_as_str(json_get(fields, "instruction_b64")) {
                Some(b64) => {
                    let data = match decode_data(b64, api_name) {
                        Ok(d) => d,
                        Err(e) => {
                            return Err(e);
                        },
                    };
                    let signers: [Pubkey; 1] = [*wallet];
                    let ix = build_memo(data.as_slice(), &signers);
                    proof {
                        lemma_key_from_bytes(ix.program_id);
                        assert(ix.accounts@ =~= payer_only(*wallet));
                    }
                    Ok(ix)
                },
                None => Err(build_error_str(api_name, "invalid response format")),
            }
        },
        _ => Err(build_error_str(api_name, "invalid response format")),
    }
}

} // verus!
