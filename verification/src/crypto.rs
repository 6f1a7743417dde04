//! Calls into the outside cryptographic and encoding crates.
//!
//! Every function here is a trusted wrapper: its body makes one outside
//! call, and its contract states what that crate's source shows. Digests
//! and the address encoding are deterministic, so their results carry
//! names (`sha256_of`, `ripemd160_of`, `bech32_of`, `secp256k1_check`)
//! that the rest of the library reasons with.

use vstd::prelude::*;
use vstd::string::StringSliceAdditionalSpecFns;

use bech32::ToBase32;
use sha2::Digest;

verus! {

/// The SHA-256 digest of a byte sequence, fixed by the bytes alone.
pub uninterp spec fn sha256_of(data: Seq<u8>) -> Seq<u8>;

/// The RIPEMD-160 digest of a byte sequence, fixed by the bytes alone.
pub uninterp spec fn ripemd160_of(data: Seq<u8>) -> Seq<u8>;

/// The checksummed base-32 text that renders `data` under the
/// human-readable part `hrp`, fixed by the two arguments alone.
pub uninterp spec fn bech32_of(hrp: Seq<char>, data: Seq<u8>) -> Seq<char>;

/// The verdict of ECDSA/secp256k1 verification of `sig` over `hash`
/// under `pk`: `Err` when the inputs do not parse as cryptographic
/// objects, otherwise whether the signature verifies. Deterministic in
/// its three arguments.
pub uninterp spec fn secp256k1_check(hash: Seq<u8>, sig: Seq<u8>, pk: Seq<u8>) -> Result<bool, ()>;

/// Whether a byte is an ASCII lowercase letter.
pub open spec fn is_ascii_lowercase(b: u8) -> bool {
    97 <= b && b <= 122
}

/// Whether a byte is an ASCII uppercase letter.
pub open spec fn is_ascii_uppercase(b: u8) -> bool {
    65 <= b && b <= 90
}

/// The condition under which the address encoder accepts a
/// human-readable part, stated over the part's UTF-8 bytes: between 1
/// and 83 bytes, every byte a printable ASCII character, and not a
/// mixture of lowercase and uppercase letters.
pub open spec fn hrp_valid(b: Seq<u8>) -> bool {
    &&& 1 <= b.len() && b.len() <= 83
    &&& forall|i: int| 0 <= i < b.len() ==> 33 <= #[trigger] b[i] && b[i] <= 126
    &&& !((exists|i: int| 0 <= i < b.len() && is_ascii_lowercase(#[trigger] b[i])) && (exists|j: int|
        0 <= j < b.len() && is_ascii_uppercase(#[trigger] b[j])))
}

/// Relies on `sha2::Sha256::digest`: a 32-byte digest that depends on
/// the input bytes alone.
#[verifier::external_body]
pub(crate) fn sha256(data: &[u8]) -> (r: Vec<u8>)
    ensures
        r@ == sha256_of(data@),
        r@.len() == 32,
{
    sha2::Sha256::digest(data).to_vec()
}

/// Relies on `ripemd::Ripemd160::digest`: a 20-byte digest that depends
/// on the input bytes alone.
#[verifier::external_body]
pub(crate) fn ripemd160(data: &[u8]) -> (r: Vec<u8>)
    ensures
        r@ == ripemd160_of(data@),
        r@.len() == 20,
{
    ripemd::Ripemd160::digest(data).to_vec()
}

/// Relies on `bech32::encode` with the checksummed `Bech32` variant: it
/// succeeds exactly when its byte-level check of the human-readable
/// part passes (length, printable ASCII, no mixed case), and the text
/// it returns depends on the part and the data alone.
#[verifier::external_body]
pub(crate) fn bech32_encode(hrp: &str, data: &[u8]) -> (r: Result<String, ()>)
    ensures
        r is Ok <==> hrp_valid(hrp.spec_bytes()),
        r matches Ok(s) ==> s@ == bech32_of(hrp@, data@),
{
    bech32::encode(hrp, data.to_base32(), bech32::Variant::Bech32).map_err(|_| ())
}

/// Relies on `cosmwasm_crypto::secp256k1_verify`: it rejects a hash
/// that is not 32 bytes, a signature that is not 64 bytes, and a key or
/// signature that does not parse; otherwise it reports whether the
/// signature verifies. The outcome depends on the three inputs alone.
#[verifier::external_body]
pub(crate) fn secp256k1_verify(hash: &[u8], sig: &[u8], pk: &[u8]) -> (r: Result<bool, ()>)
    ensures
        r == secp256k1_check(hash@, sig@, pk@),
        hash@.len() != 32 ==> r is Err,
        sig@.len() != 64 ==> r is Err,
        pk@.len() != 33 && pk@.len() != 65 ==> r is Err,
{
    cosmwasm_crypto::secp256k1_verify(hash, sig, pk).map_err(|_| ())
}

} // verus!
