//! Signed-message verification middleware.
//!
//! The library authenticates a wrapped payload before a host acts on it:
//! it derives a chain-style account address from the sender's public key,
//! canonicalizes and hashes the payload, checks the detached ECDSA
//! signature, enforces an optional expiration, and tracks a strictly
//! sequential per-key nonce to prevent replay.

pub mod crypto;
pub mod error;
pub mod hex;
pub mod msg;
pub mod state;
pub mod verify;

pub use error::ContractError;
pub use msg::{canonicalize, ExecutionContext, Expiration, Payload, WrappedMessage};
pub use state::NonceLedger;
pub use verify::{pk_to_addr, verify};
