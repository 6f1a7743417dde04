//! The address codec, the expiration gate, and the verification pipeline.

use vstd::prelude::*;
use vstd::slice::slice_to_vec;
use vstd::utf8::encode_utf8;

use crate::crypto::{
    bech32_encode, bech32_of, hrp_valid, ripemd160, ripemd160_of, secp256k1_check,
    secp256k1_verify, sha256, sha256_of,
};
use crate::error::ContractError;
use crate::hex::{decode_hex, hex_decoded, hex_valid};
use crate::msg::{
    canonical_bytes, canonicalize, ExecutionContext, Expiration, PayloadView, WrappedMessage,
};
use crate::state::{expected_for, NonceLedger};

verus! {

/// Whether decoded public key bytes have one of the two accepted
/// lengths: 33 (compressed) or 65 (uncompressed).
pub open spec fn key_len_valid(n: nat) -> bool {
    n == 33 || n == 65
}

/// The canonical point encoding the codec hashes: a 65-byte
/// uncompressed key is folded to its 33-byte compressed form — the
/// parity of the last byte of the y coordinate picks the leading 2 or 3
/// over the x coordinate — so both encodings of one point derive one
/// address. Anything else is hashed as it stands.
pub open spec fn normalize_key(b: Seq<u8>) -> Seq<u8> {
    if b.len() == 65 {
        seq![if b[64] % 2 == 0 { 2u8 } else { 3u8 }] + b.subrange(1, 33)
    } else {
        b
    }
}

/// The address derived from raw public key bytes under a prefix: the
/// key is normalized, hashed with SHA-256 then RIPEMD-160, and the
/// 20-byte hash rendered in checksummed base-32 under the prefix. A
/// pure function of its two arguments, so deriving twice from the same
/// pair always yields the identical address.
pub open spec fn derived_address(raw_key: Seq<u8>, prefix: Seq<char>) -> Seq<char> {
    bech32_of(prefix, ripemd160_of(sha256_of(normalize_key(raw_key))))
}

/// The normalized key bytes, executably.
fn normalized_key_bytes(pk: &[u8]) -> (r: Vec<u8>)
    ensures
        r@ == normalize_key(pk@),
{
    if pk.len() == 65 {
        let mut out: Vec<u8> = Vec::new();
        if pk[64] % 2 == 0 {
            out.push(2);
        } else {
            out.push(3);
        }
        let mut i: usize = 1;
        while i < 33
            invariant
                pk@.len() == 65,
                1 <= i <= 33,
                out@.len() == i,
                out@[0] == (if pk@[64] % 2 == 0 {
                    2u8
                } else {
                    3u8
                }),
                forall|j: int| 1 <= j < i ==> out@[j] == pk@[j],
            decreases 33 - i,
        {
            out.push(pk[i]);
            i = i + 1;
        }
        proof {
            assert(out@ =~= normalize_key(pk@));
        }
        out
    } else {
        slice_to_vec(pk)
    }
}

/// Derives the account address for raw public key bytes under `prefix`.
///
/// Succeeds exactly when the key length is accepted and the prefix
/// passes the encoder's human-readable-part check; pure, with no side
/// effects.
pub fn addr_from_raw(pk: &[u8], prefix: &str) -> (r: Result<String, ContractError>)
    ensures
        r is Ok <==> key_len_valid(pk@.len()) && hrp_valid(encode_utf8(prefix@)),
        r matches Ok(a) ==> a@ == derived_address(pk@, prefix@),
        r matches Err(e) ==> e == (if !key_len_valid(pk@.len()) {
            ContractError::InvalidPublicKeyLength
        } else {
            ContractError::Bech32Error
        }),
{
    if !(pk.len() == 33 || pk.len() == 65) {
        return Err(ContractError::InvalidPublicKeyLength);
    }
    let normalized = normalized_key_bytes(pk);
    let sha = sha256(normalized.as_slice());
    let rip = ripemd160(sha.as_slice());
    match bech32_encode(prefix, rip.as_slice()) {
        Ok(a) => Ok(a),
        Err(_) => Err(ContractError::Bech32Error),
    }
}

/// The address codec on the wire form of a key: hex-decodes it, checks
/// its decoded length, and derives the address.
///
/// Fails with `FromHexError` on a key that is not valid hexadecimal,
/// with `InvalidPublicKeyLength` on any decoded length other than 33 or
/// 65 bytes (whether or not the bytes are a valid curve point), and
/// with `Bech32Error` on a prefix the address encoding rejects — in
/// that order of precedence.
pub fn pk_to_addr(pk_hex: String, prefix: &str) -> (r: Result<String, ContractError>)
    ensures
        r is Ok <==> hex_valid(pk_hex@) && key_len_valid(hex_decoded(pk_hex@).len()) && hrp_valid(
            encode_utf8(prefix@),
        ),
        r matches Ok(a) ==> a@ == derived_address(hex_decoded(pk_hex@), prefix@),
        r matches Err(e) ==> e == (if !hex_valid(pk_hex@) {
            ContractError::FromHexError
        } else if !key_len_valid(hex_decoded(pk_hex@).len()) {
            ContractError::InvalidPublicKeyLength
        } else {
            ContractError::Bech32Error
        }),
{
    let raw = match decode_hex(pk_hex.as_str()) {
        Ok(b) => b,
        Err(e) => {
            return Err(e);
        },
    };
    addr_from_raw(raw.as_slice(), prefix)
}

/// Whether an expiration bound has passed in the given context.
pub open spec fn spec_is_expired(e: Option<Expiration>, ctx: ExecutionContext) -> bool {
    match e {
        None => false,
        Some(Expiration::AtHeight(h)) => ctx.block_height >= h,
        Some(Expiration::AtTime(t)) => ctx.block_time >= t,
        Some(Expiration::Never) => false,
    }
}

/// The expiration gate: an absent bound always passes; a present one
/// passes exactly until the context reaches it, whatever else the
/// message holds. Pure, no side effects.
pub fn check_expiration(e: &Option<Expiration>, ctx: &ExecutionContext) -> (r: Result<
    (),
    ContractError,
>)
    ensures
        r is Ok <==> !spec_is_expired(*e, *ctx),
        r matches Err(err) ==> err == ContractError::MessageExpired,
{
    let expired = match e {
        None => false,
        Some(Expiration::AtHeight(h)) => ctx.block_height >= *h,
        Some(Expiration::AtTime(t)) => ctx.block_time >= *t,
        Some(Expiration::Never) => false,
    };
    if expired {
        Err(ContractError::MessageExpired)
    } else {
        Ok(())
    }
}

/// Checks a compact signature over canonical payload bytes: hashes them
/// with SHA-256, then parses and verifies signature and key.
///
/// Keeps the two failure kinds apart: bytes that do not parse as
/// cryptographic objects (among them any signature that is not exactly
/// 64 bytes) fail with `VerificationError`; a well-formed signature
/// that does not verify fails with `SignatureInvalid`.
pub fn verify_signature(canonical: &[u8], signature: &[u8], public_key: &[u8]) -> (r: Result<
    (),
    ContractError,
>)
    ensures
        r is Ok <==> secp256k1_check(sha256_of(canonical@), signature@, public_key@) == Ok::<
            bool,
            (),
        >(true),
        r matches Err(e) ==> e == (match secp256k1_check(
            sha256_of(canonical@),
            signature@,
            public_key@,
        ) {
            Err(_) => ContractError::VerificationError,
            Ok(_) => ContractError::SignatureInvalid,
        }),
        signature@.len() != 64 ==> r == Err::<(), ContractError>(ContractError::VerificationError),
{
    let digest = sha256(canonical);
    match secp256k1_verify(digest.as_slice(), signature, public_key) {
        Ok(true) => Ok(()),
        Ok(false) => Err(ContractError::SignatureInvalid),
        Err(_) => Err(ContractError::VerificationError),
    }
}

/// The verdict the pipeline owes on a message, in its fixed step order:
/// canonical bytes are hashed and the signature checked, the sender
/// address derived, the expiration gate applied, and the nonce compared
/// with the ledger; the first failure decides the error.
pub open spec fn verify_verdict(
    ledger: Map<Seq<u8>, u128>,
    ctx: ExecutionContext,
    p: PayloadView,
    sig: Seq<u8>,
    pk: Seq<u8>,
) -> Result<Seq<char>, ContractError> {
    match secp256k1_check(sha256_of(canonical_bytes(p)), sig, pk) {
        Err(_) => Err(ContractError::VerificationError),
        Ok(false) => Err(ContractError::SignatureInvalid),
        Ok(true) => if !key_len_valid(pk.len()) {
            Err(ContractError::InvalidPublicKeyLength)
        } else if !hrp_valid(encode_utf8(p.bech32_prefix)) {
            Err(ContractError::Bech32Error)
        } else if spec_is_expired(p.expiration, ctx) {
            Err(ContractError::MessageExpired)
        } else if p.nonce != expected_for(ledger, pk) {
            Err(ContractError::InvalidNonce)
        } else if p.nonce == u128::MAX {
            Err(ContractError::NonceOverflow)
        } else {
            Ok(derived_address(pk, p.bech32_prefix))
        },
    }
}

/// The single entry operation: authenticates a wrapped message and, on
/// success, returns the sender address derived from its public key and
/// advances that key's nonce by one.
///
/// The result equals [`verify_verdict`] on the inputs, step for step.
/// The nonce advance is the only side effect, and it happens exactly on
/// success: any failure leaves the ledger as it was.
pub fn verify(ledger: &mut NonceLedger, ctx: &ExecutionContext, wrapped: &WrappedMessage) -> (r:
    Result<String, ContractError>)
    requires
        old(ledger).wf(),
    ensures
        final(ledger).wf(),
        match r {
            Ok(a) => verify_verdict(
                old(ledger)@,
                *ctx,
                wrapped.payload@,
                wrapped.signature@,
                wrapped.public_key@,
            ) == Ok::<Seq<char>, ContractError>(a@),
            Err(e) => verify_verdict(
                old(ledger)@,
                *ctx,
                wrapped.payload@,
                wrapped.signature@,
                wrapped.public_key@,
            ) == Err::<Seq<char>, ContractError>(e),
        },
        r is Ok ==> final(ledger)@ == old(ledger)@.insert(
            wrapped.public_key@,
            (wrapped.payload.nonce + 1) as u128,
        ),
        r is Err ==> final(ledger)@ == old(ledger)@,
{
    let canonical = canonicalize(&wrapped.payload);
    match verify_signature(
        canonical.as_slice(),
        wrapped.signature.as_slice(),
        wrapped.public_key.as_slice(),
    ) {
        Ok(_) => {},
        Err(e) => {
            return Err(e);
        },
    }
    let addr = match addr_from_raw(
        wrapped.public_key.as_slice(),
        wrapped.payload.bech32_prefix.as_str(),
    ) {
        Ok(a) => a,
        Err(e) => {
            return Err(e);
        },
    };
    match check_expiration(&wrapped.payload.expiration, ctx) {
        Ok(_) => {},
        Err(e) => {
            return Err(e);
        },
    }
    match ledger.check_and_advance(wrapped.public_key.as_slice(), wrapped.payload.nonce) {
        Ok(_) => {},
        Err(e) => {
            return Err(e);
        },
    }
    Ok(addr)
}

} // verus!
