//! Verified core of the aggregation orchestrator: reading aggregation
//! messages, checking their round, deriving the payload hash that signers
//! agree on, and assembling operator and identity data.
pub mod encoding;
pub mod wire;
pub mod payload;
pub mod validator;
pub mod keys;
pub mod decimal;
pub mod operators;
pub mod identity;
pub mod handlers;
pub mod signer;
