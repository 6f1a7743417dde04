//! End-to-end tests of the verification pipeline, run against the real
//! outside crates.

use cw_verifier_middleware::canonicalize;
use cw_verifier_middleware::pk_to_addr;
use cw_verifier_middleware::verify;
use cw_verifier_middleware::ContractError;
use cw_verifier_middleware::ExecutionContext;
use cw_verifier_middleware::Expiration;
use cw_verifier_middleware::NonceLedger;
use cw_verifier_middleware::Payload;
use cw_verifier_middleware::WrappedMessage;

use secp256k1::rand::rngs::OsRng;
use secp256k1::{Message, Secp256k1, SecretKey};
use sha2::{Digest, Sha256};

pub const JUNO_ADDRESS: &str = "juno1muw4rz9ml44wc6vssqrzkys4nuc3gylrxj4flw";
pub const COMPRESSED_PK: &str =
    "03f620cd2e33d3f6af5a43d5b3ca3b9b7f653aa980ae56714cc5eb7637fd1eeb28";
pub const UNCOMPRESSED_PK: &str = "04f620cd2e33d3f6af5a43d5b3ca3b9b7f653aa980ae56714cc5eb7637fd1eeb28fb722c0dacb5f005f583630dae8bbe7f5eaba70f129fc279d7ff421ae8c9eb79";
pub const JUNO_PREFIX: &str = "juno";

const INNER_MSG: &str = "eyJpbnN0YW50aWF0ZV9jb250cmFjdF93aXRoX3NlbGZfYWRtaW4iOnsiY29kZV9pZCI6MTY4OCwiaW5zdGFudGlhdGVfbXNnIjp7fX19ICA=";

fn mock_context() -> ExecutionContext {
    ExecutionContext { block_height: 12_345, block_time: 1_571_797_419_879_305_533 }
}

fn default_payload() -> Payload {
    Payload {
        nonce: 0,
        msg: INNER_MSG.as_bytes().to_vec(),
        expiration: None,
        contract_address: "contract_address".to_string(),
        bech32_prefix: JUNO_PREFIX.to_string(),
        version: "version-1".to_string(),
    }
}

// signs a given payload under the given secret key and returns the wrapped message
fn wrap_with_key(
    secp: &Secp256k1<secp256k1::All>,
    secret_key: &SecretKey,
    public_key: &secp256k1::PublicKey,
    payload: Payload,
) -> WrappedMessage {
    let msg_hash = Sha256::digest(canonicalize(&payload));
    let msg = Message::from_digest_slice(&msg_hash).unwrap();
    let sig = secp.sign_ecdsa(&msg, secret_key);
    WrappedMessage {
        payload,
        signature: sig.serialize_compact().to_vec(),
        public_key: public_key.serialize_uncompressed().to_vec(),
    }
}

// signs a given payload and returns the wrapped message
fn get_wrapped_msg(payload: Payload) -> WrappedMessage {
    let secp = Secp256k1::new();
    let (secret_key, public_key) = secp.generate_keypair(&mut OsRng);
    wrap_with_key(&secp, &secret_key, &public_key, payload)
}

#[test]
fn test_pk_to_addr_uncompressed() {
    let generated_address = pk_to_addr(UNCOMPRESSED_PK.to_string(), JUNO_PREFIX).unwrap();
    assert_eq!(generated_address, JUNO_ADDRESS.to_string());
}

#[test]
fn test_pk_to_addr_compressed() {
    let generated_address = pk_to_addr(COMPRESSED_PK.to_string(), JUNO_PREFIX).unwrap();
    assert_eq!(generated_address, JUNO_ADDRESS.to_string());
}

#[test]
fn test_pk_to_addr_invalid_hex_length() {
    let invalid_length_pk = "".to_string();
    let err: ContractError = pk_to_addr(invalid_length_pk, JUNO_PREFIX).unwrap_err();
    assert!(matches!(err, ContractError::InvalidPublicKeyLength { .. }));
}

#[test]
fn test_pk_to_addr_not_hex_pk() {
    let non_hex_pk =
        "03zzzzcd2e33d3f6af5a43d5b3ca3b9b7f653aa980ae56714cc5eb7637fd1eeb28".to_string();
    let err: ContractError = pk_to_addr(non_hex_pk, JUNO_PREFIX).unwrap_err();
    assert!(matches!(err, ContractError::FromHexError { .. }));
}

#[test]
fn test_pk_to_addr_bech32_invalid_human_readable_part() {
    let err: ContractError = pk_to_addr(UNCOMPRESSED_PK.to_string(), "jUnO").unwrap_err();
    assert!(matches!(err, ContractError::Bech32Error { .. }));
}

#[test]
fn test_verify_success() {
    // This test signs a payload whose public key reaches the verifier in raw
    // (hex-decodable) form, and validates that the signature verifies.
    let payload = default_payload();
    let wrapped_msg = get_wrapped_msg(payload);
    let pk = wrapped_msg.public_key.clone();

    let mut ledger = NonceLedger::new();
    let result = verify(&mut ledger, &mock_context(), &wrapped_msg);
    result.unwrap();

    // Verify nonce was incremented correctly
    assert_eq!(ledger.expected_nonce(&pk), 1);
}

#[test]
fn test_verify_pk_invalid() {
    // The test calls verify with an incorrectly formatted public key to
    // validate that there is an error in parsing the public key.
    let mut payload = default_payload();
    payload.msg = "test".as_bytes().to_vec();

    let secp = Secp256k1::new();
    let (secret_key, _) = secp.generate_keypair(&mut OsRng);
    let msg_hash = Sha256::digest(canonicalize(&payload));
    let msg = Message::from_digest_slice(&msg_hash).unwrap();
    let sig = secp.sign_ecdsa(&msg, &secret_key);

    // Wrap the message but with incorrect public key
    let wrapped_msg = WrappedMessage {
        payload,
        signature: sig.serialize_compact().to_vec(),
        public_key: Vec::from("incorrect_public_key"),
    };

    let mut ledger = NonceLedger::new();
    let result = verify(&mut ledger, &mock_context(), &wrapped_msg);

    // Ensure that there was a pub key verification error
    assert!(matches!(result, Err(ContractError::VerificationError)));
}

#[test]
fn test_verify_wrong_pk() {
    // The test calls verify with a correctly formatted but different public
    // key (that doesn't correspond to the signature) to validate that the
    // signature is not verified.
    let mut payload = default_payload();
    payload.msg = "test".as_bytes().to_vec();

    let secp = Secp256k1::new();
    let (secret_key, _) = secp.generate_keypair(&mut OsRng);
    let msg_hash = Sha256::digest(canonicalize(&payload));
    let msg = Message::from_digest_slice(&msg_hash).unwrap();
    let sig = secp.sign_ecdsa(&msg, &secret_key);

    // Generate another keypair
    let secp = Secp256k1::new();
    let (_, public_key) = secp.generate_keypair(&mut OsRng);

    // Wrap the message but with the other public key
    let wrapped_msg = WrappedMessage {
        payload,
        signature: sig.serialize_compact().to_vec(),
        public_key: public_key.serialize_uncompressed().to_vec(),
    };

    let mut ledger = NonceLedger::new();
    let result = verify(&mut ledger, &mock_context(), &wrapped_msg);

    // Ensure that there was a signature verification error
    assert!(matches!(result, Err(ContractError::SignatureInvalid)));
}

#[test]
fn test_verify_incorrect_nonce() {
    let mut ledger = NonceLedger::new();
    let ctx = mock_context();

    // get a default wrapped message and verify it
    let payload = default_payload();
    let wrapped_msg = get_wrapped_msg(payload);
    verify(&mut ledger, &ctx, &wrapped_msg).unwrap();

    // skip a nonce iteration
    let mut invalid_nonce_payload = default_payload();
    invalid_nonce_payload.nonce = 3;
    let wrapped_msg = get_wrapped_msg(invalid_nonce_payload);
    let err = verify(&mut ledger, &ctx, &wrapped_msg).unwrap_err();

    // verify the invalid nonce error
    assert!(matches!(err, ContractError::InvalidNonce));
}

#[test]
fn test_verify_expired_message() {
    let mut ledger = NonceLedger::new();
    let ctx = mock_context();

    // get an expired message
    let mut payload = default_payload();
    payload.expiration = Some(Expiration::AtHeight(0));
    let wrapped_msg = get_wrapped_msg(payload);

    let err: ContractError = verify(&mut ledger, &ctx, &wrapped_msg).unwrap_err();
    assert!(matches!(err, ContractError::MessageExpired));
}

#[test]
fn test_verify_invalid_signature() {
    let mut ledger = NonceLedger::new();
    let ctx = mock_context();

    let secp = Secp256k1::new();
    let (secret_key, public_key) = secp.generate_keypair(&mut OsRng);

    let payload = default_payload();
    let msg_hash = Sha256::digest(canonicalize(&payload));
    let msg = Message::from_digest_slice(&msg_hash).unwrap();
    let sig = secp.sign_ecdsa(&msg, &secret_key);

    // Wrap a different message with the existing signature
    let mut different_payload = default_payload();
    different_payload.bech32_prefix = "cosmos".to_string();

    let wrapped_msg = WrappedMessage {
        payload: different_payload,
        signature: sig.serialize_compact().to_vec(),
        public_key: public_key.serialize_uncompressed().to_vec(),
    };

    let err: ContractError = verify(&mut ledger, &ctx, &wrapped_msg).unwrap_err();
    assert!(matches!(err, ContractError::SignatureInvalid { .. }));
}

#[test]
fn test_verify_malformed_signature() {
    let mut ledger = NonceLedger::new();
    let ctx = mock_context();

    let secp = Secp256k1::new();
    let (secret_key, public_key) = secp.generate_keypair(&mut OsRng);

    let payload = default_payload();
    let msg_hash = Sha256::digest(canonicalize(&payload));
    let msg = Message::from_digest_slice(&msg_hash).unwrap();
    let sig = secp.sign_ecdsa(&msg, &secret_key);
    let serialized_sig = sig.serialize_compact();

    // join two signatures for unexpected format
    let malformed_sig = [serialized_sig, serialized_sig].concat();
    let wrapped_msg = WrappedMessage {
        payload,
        signature: malformed_sig,
        public_key: public_key.serialize_uncompressed().to_vec(),
    };

    let err: ContractError = verify(&mut ledger, &ctx, &wrapped_msg).unwrap_err();
    assert!(matches!(err, ContractError::VerificationError { .. }));
}
