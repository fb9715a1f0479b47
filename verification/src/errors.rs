use vstd::prelude::*;
use crate::solana::Pubkey;
use crate::text::{spec_to_lowercase, str_eq, to_lowercase};
use crate::config::{decimal_u64, spec_decimal};
use crate::solana::{pubkey_to_string, spec_pubkey_to_string};
use vstd::string::StringExecFns;

verus! {

/// Supported DEX programs, ordered by preference.
#[derive(Debug, Clone, PartialEq, Eq, Hash, PartialOrd, Ord)]
pub enum DexProgram {
    PumpFun,
    Raydium,
    Orca,
    LetsBonk,
    Unknown(String),
}

/// Priority score of a DEX (lower is preferred).
pub open spec fn spec_dex_priority(d: DexProgram) -> u8 {
    match d {
        DexProgram::PumpFun => 0,
        DexProgram::Raydium => 1,
        DexProgram::Orca => 2,
        DexProgram::LetsBonk => 3,
        DexProgram::Unknown(_) => 255,
    }
}

impl DexProgram {
    /// Get priority score (lower is better).
    pub fn priority(&self) -> (p: u8)
        ensures
            p == spec_dex_priority(*self),
    {
        match self {
            DexProgram::PumpFun => 0,
            DexProgram::Raydium => 1,
            DexProgram::Orca => 2,
            DexProgram::LetsBonk => 3,
            DexProgram::Unknown(_) => 255,
        }
    }
}

/// Nonce failures that the builder reports.
#[derive(Debug, Clone)]
pub enum NonceError {
    /// No nonce lease could be acquired.
    NoLeaseAvailable,
    /// The nonce setup is unusable.
    Configuration(String),
}

/// Errors of the transaction builder.
#[derive(Debug, Clone)]
pub enum TransactionBuilderError {
    ConfigValidation(String),
    RpcConnection(String),
    InstructionBuild { program: String, reason: String },
    SigningFailed(String),
    BlockhashFetch(String),
    Nonce(NonceError),
    Serialization(String),
    ProgramNotAllowed(Pubkey),
    FeatureNotEnabled { feature: String, action: String },
    SimulationFailed(String),
    InsufficientBalance { required: u64, available: u64 },
    LiquidityTooLow { available: u64, required: u64 },
}

/// Text of a nonce failure.
pub open spec fn spec_nonce_error_message(e: NonceError) -> Seq<char> {
    match e {
        NonceError::NoLeaseAvailable => "No nonce lease available"@,
        NonceError::Configuration(m) => "Nonce configuration error: "@ + m@,
    }
}

impl NonceError {
    /// Text of the failure.
    pub fn message(&self) -> (m: String)
        ensures
            m@ == spec_nonce_error_message(*self),
    {
        match self {
            NonceError::NoLeaseAvailable => String::from_str("No nonce lease available"),
            NonceError::Configuration(c) => {
                let mut m = String::from_str("Nonce configuration error: ");
                m.append(c.as_str());
                m
            },
        }
    }
}

/// Text of a builder error.
pub open spec fn spec_error_message(e: TransactionBuilderError) -> Seq<char> {
    match e {
        TransactionBuilderError::ConfigValidation(m) => "Configuration validation failed: "@ + m@,
        TransactionBuilderError::RpcConnection(m) => "RPC connection failed: "@ + m@,
        TransactionBuilderError::InstructionBuild { program, reason } =>
            "Instruction building failed for "@ + program@ + ": "@ + reason@,
        TransactionBuilderError::SigningFailed(m) => "Signing failed: "@ + m@,
        TransactionBuilderError::BlockhashFetch(m) => "Blockhash fetch failed: "@ + m@,
        TransactionBuilderError::Nonce(n) => "Nonce error: "@ + spec_nonce_error_message(n),
        TransactionBuilderError::Serialization(m) => "Serialization failed: "@ + m@,
        TransactionBuilderError::ProgramNotAllowed(p) =>
            "Program "@ + spec_pubkey_to_string(p@) + " is not allowed by configuration"@,
        TransactionBuilderError::FeatureNotEnabled { feature, action } =>
            "Feature not enabled: "@ + feature@ + " for "@ + action@,
        TransactionBuilderError::SimulationFailed(m) => "Simulation failed: "@ + m@,
        TransactionBuilderError::InsufficientBalance { required, available } =>
            "Insufficient balance: required "@ + spec_decimal(required as nat) + ", available "@
                + spec_decimal(available as nat),
        TransactionBuilderError::LiquidityTooLow { available, required } =>
            "Liquidity depth too low: "@ + spec_decimal(available as nat) + " < "@ + spec_decimal(required as nat),
    }
}

fn prefixed(prefix: &str, rest: &str) -> (m: String)
    ensures
        m@ == prefix@ + rest@,
{
    let mut m = String::from_str(prefix);
    m.append(rest);
    m
}

impl TransactionBuilderError {
    /// Text of the error, as it is displayed.
    pub fn message(&self) -> (m: String)
        ensures
            m@ == spec_error_message(*self),
    {
        match self {
            TransactionBuilderError::ConfigValidation(m) => prefixed("Configuration validation failed: ", m.as_str()),
            TransactionBuilderError::RpcConnection(m) => prefixed("RPC connection failed: ", m.as_str()),
            TransactionBuilderError::InstructionBuild { program, reason } => {
                let mut m = prefixed("Instruction building failed for ", program.as_str());
                m.append(": ");
                m.append(reason.as_str());
                m
            },
            TransactionBuilderError::SigningFailed(m) => prefixed("Signing failed: ", m.as_str()),
            TransactionBuilderError::BlockhashFetch(m) => prefixed("Blockhash fetch failed: ", m.as_str()),
            TransactionBuilderError::Nonce(n) => prefixed("Nonce error: ", n.message().as_str()),
            TransactionBuilderError::Serialization(m) => prefixed("Serialization failed: ", m.as_str()),
            TransactionBuilderError::ProgramNotAllowed(p) => {
                let mut m = prefixed("Program ", pubkey_to_string(p).as_str());
                m.append(" is not allowed by configuration");
                m
            },
            TransactionBuilderError::FeatureNotEnabled { feature, action } => {
                let mut m = prefixed("Feature not enabled: ", feature.as_str());
                m.append(" for ");
                m.append(action.as_str());
                m
            },
            TransactionBuilderError::SimulationFailed(m) => prefixed("Simulation failed: ", m.as_str()),
            TransactionBuilderError::InsufficientBalance { required, available } => {
                let mut m = prefixed("Insufficient balance: required ", decimal_u64(*required).as_str());
                m.append(", available ");
                m.append(decimal_u64(*available).as_str());
                m
            },
            TransactionBuilderError::LiquidityTooLow { available, required } => {
                let mut m = prefixed("Liquidity depth too low: ", decimal_u64(*available).as_str());
                m.append(" < ");
                m.append(decimal_u64(*required).as_str());
                m
            },
        }
    }
}

impl vstd::std_specs::convert::FromSpecImpl<NonceError> for TransactionBuilderError {
    open spec fn obeys_from_spec() -> bool {
        true
    }

    open spec fn from_spec(v: NonceError) -> TransactionBuilderError {
        TransactionBuilderError::Nonce(v)
    }
}

impl From<NonceError> for TransactionBuilderError {
    /// A nonce failure, as a builder error.
    fn from(e: NonceError) -> (r: TransactionBuilderError) {
        TransactionBuilderError::Nonce(e)
    }
}

/// Names (lowercase) that select pump.fun.
pub open spec fn pumpfun_names() -> Set<Seq<char>> {
    set!["pump.fun"@, "pumpfun"@, "pumpportal"@]
}

/// Names (lowercase) that select LetsBonk.
pub open spec fn letsbonk_names() -> Set<Seq<char>> {
    set!["letsbonk.fun"@, "letsbonk"@, "bonk"@]
}

/// The DEX that a program name selects, compared case-insensitively; other names are
/// `Unknown` and keep the name as given.
pub open spec fn spec_dex_from_name(name: Seq<char>, d: DexProgram) -> bool {
    let l = spec_to_lowercase(name);
    if pumpfun_names().contains(l) {
        d == DexProgram::PumpFun
    } else if letsbonk_names().contains(l) {
        d == DexProgram::LetsBonk
    } else if l == "raydium"@ {
        d == DexProgram::Raydium
    } else if l == "orca"@ {
        d == DexProgram::Orca
    } else {
        d matches DexProgram::Unknown(u) && u@ == name
    }
}

impl DexProgram {
    /// The DEX selected by a program name (case-insensitive).
    pub fn from_name(s: &str) -> (d: DexProgram)
        ensures
            spec_dex_from_name(s@, d),
    {
        let lower = to_lowercase(s);
        let l = lower.as_str();
        if str_eq(l, "pump.fun") || str_eq(l, "pumpfun") || str_eq(l, "pumpportal") {
            DexProgram::PumpFun
        } else if str_eq(l, "letsbonk.fun") || str_eq(l, "letsbonk") || str_eq(l, "bonk") {
            DexProgram::LetsBonk
        } else if str_eq(l, "raydium") {
            DexProgram::Raydium
        } else if str_eq(l, "orca") {
            DexProgram::Orca
        } else {
            DexProgram::Unknown(s.to_owned())
        }
    }
}

/// `from_spec` is a DEX that the name selects. The conversion is not declared to obey it:
/// an `Unknown` DEX holds a `String` whose value a spec cannot pin down from the text,
/// so what `from` returns is stated on `from` itself (`spec_dex_from_name`).
impl<'a> vstd::std_specs::convert::FromSpecImpl<&'a str> for DexProgram {
    open spec fn obeys_from_spec() -> bool {
        false
    }

    open spec fn from_spec(v: &'a str) -> DexProgram {
        choose|d: DexProgram| spec_dex_from_name(v@, d)
    }
}

impl<'a> From<&'a str> for DexProgram {
    fn from(s: &'a str) -> (d: DexProgram)
        ensures
            spec_dex_from_name(s@, d),
    {
        DexProgram::from_name(s)
    }
}

} // verus!
