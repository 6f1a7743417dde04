//! The closed set of failures a verification call can end in.

use vstd::prelude::*;

verus! {

/// Every failure of the verification pipeline, one variant per kind.
///
/// Each variant is terminal for the call that produced it: nothing is
/// retried, and no variant is ever downgraded into another.
#[derive(Debug, Clone, PartialEq, Eq, Structural)]
pub enum ContractError {
    /// A hex-encoded field (the public key) is not valid hexadecimal.
    FromHexError,
    /// The decoded public key is neither 33 nor 65 bytes long.
    InvalidPublicKeyLength,
    /// The address prefix is not a valid human-readable part for the
    /// checksummed base-32 address encoding.
    Bech32Error,
    /// The signature or public key bytes are malformed and could not be
    /// parsed as cryptographic objects (a parse-time failure).
    VerificationError,
    /// A well-formed signature that does not verify against the payload
    /// digest and the supplied public key (a semantic failure).
    SignatureInvalid,
    /// The payload carries an expiration that has already passed.
    MessageExpired,
    /// The declared nonce does not equal the expected next value.
    InvalidNonce,
    /// Advancing the nonce would overflow its integer range.
    NonceOverflow,
}

} // verus!
