//! Verified core of a Solana transaction builder: configuration checks,
//! rate limiting and circuit breaking, blockhash quorum and caching,
//! simulation caching, instruction ordering and external API parsing.

pub mod errors;
pub mod text;
pub mod solana;
pub mod types;
pub mod instructions;
pub mod rate_limit;
pub mod config;
pub mod blockhash;
pub mod simulation;
pub mod external_api;
pub mod jito;
pub mod builder;
pub mod batch;
pub mod flow;
pub mod wsol;
