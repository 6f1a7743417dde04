//! The authenticated unit and its canonical byte form.
//!
//! A [`Payload`] is rendered into one fixed, explicitly ordered byte
//! encoding before it is hashed and signed: the nonce, the expiration,
//! and then each variable-length field behind its byte length. The
//! encoding is injective — payloads that differ in any field have
//! different canonical bytes — which is what makes a signature over the
//! canonical form a signature over every field.

use vstd::bytes::*;
use vstd::prelude::*;
use vstd::utf8::encode_utf8;

verus! {

/// An optional bound after which a payload must no longer be accepted.
#[derive(Debug, Clone, Copy, PartialEq, Eq, Structural)]
pub enum Expiration {
    /// Expired once the current block height reaches the bound.
    AtHeight(u64),
    /// Expired once the current block time reaches the bound.
    AtTime(u64),
    /// Never expires.
    Never,
}

/// The execution context a host supplies: the current block height and
/// block time, used only to decide expiration.
#[derive(Debug, Clone, Copy)]
pub struct ExecutionContext {
    pub block_height: u64,
    pub block_time: u64,
}

/// The authenticated unit: every field below takes part in the
/// canonical byte form, so every field is covered by the signature.
#[derive(Clone)]
pub struct Payload {
    /// Per-key sequence number; must equal the ledger's expected value.
    pub nonce: u128,
    /// The opaque inner message; never inspected, only authenticated.
    pub msg: Vec<u8>,
    /// Optional height- or time-based bound.
    pub expiration: Option<Expiration>,
    /// The target contract address.
    pub contract_address: String,
    /// The human-readable prefix under which the sender address is derived.
    pub bech32_prefix: String,
    /// The protocol version string.
    pub version: String,
}

/// The mathematical image of a [`Payload`].
#[verifier::ext_equal]
pub ghost struct PayloadView {
    pub nonce: u128,
    pub msg: Seq<u8>,
    pub expiration: Option<Expiration>,
    pub contract_address: Seq<char>,
    pub bech32_prefix: Seq<char>,
    pub version: Seq<char>,
}

impl View for Payload {
    type V = PayloadView;

    open spec fn view(&self) -> PayloadView {
        PayloadView {
            nonce: self.nonce,
            msg: self.msg@,
            expiration: self.expiration,
            contract_address: self.contract_address@,
            bech32_prefix: self.bech32_prefix@,
            version: self.version@,
        }
    }
}

/// A payload together with the sender's raw public key and the detached
/// compact signature over the payload's canonical bytes.
pub struct WrappedMessage {
    pub payload: Payload,
    /// 64-byte compact ECDSA signature (r then s).
    pub signature: Vec<u8>,
    /// Raw SEC1 public key bytes (33-byte compressed or 65-byte uncompressed).
    pub public_key: Vec<u8>,
}

/// The tag byte that keeps the four expiration shapes apart in the
/// canonical form.
pub open spec fn expiration_tag(e: Option<Expiration>) -> u8 {
    match e {
        None => 0u8,
        Some(Expiration::AtHeight(_)) => 1u8,
        Some(Expiration::AtTime(_)) => 2u8,
        Some(Expiration::Never) => 3u8,
    }
}

/// The bound carried by an expiration, zero where there is none.
pub open spec fn expiration_value(e: Option<Expiration>) -> u64 {
    match e {
        None => 0u64,
        Some(Expiration::AtHeight(h)) => h,
        Some(Expiration::AtTime(t)) => t,
        Some(Expiration::Never) => 0u64,
    }
}

/// Canonical form of the expiration: its tag, then its bound.
pub open spec fn encode_expiration(e: Option<Expiration>) -> Seq<u8> {
    seq![expiration_tag(e)] + spec_u64_to_le_bytes(expiration_value(e))
}

/// Canonical form of a variable-length field: its byte length, then its bytes.
pub open spec fn encode_chunk(b: Seq<u8>) -> Seq<u8> {
    spec_u64_to_le_bytes(b.len() as u64) + b
}

/// The canonical byte form of a payload: nonce, expiration, then each
/// variable-length field behind its length, in one fixed order.
pub open spec fn canonical_bytes(p: PayloadView) -> Seq<u8> {
    spec_u128_to_le_bytes(p.nonce) + (encode_expiration(p.expiration) + (encode_chunk(p.msg) + (
    encode_chunk(encode_utf8(p.contract_address)) + (encode_chunk(encode_utf8(p.bech32_prefix))
        + encode_chunk(encode_utf8(p.version))))))
}

/// Whether every variable-length field of a payload fits the 8-byte
/// length prefixes of the canonical form. Every payload a machine can
/// hold does.
pub open spec fn payload_fits(p: PayloadView) -> bool {
    &&& p.msg.len() < 0x1_0000_0000_0000_0000
    &&& encode_utf8(p.contract_address).len() < 0x1_0000_0000_0000_0000
    &&& encode_utf8(p.bech32_prefix).len() < 0x1_0000_0000_0000_0000
    &&& encode_utf8(p.version).len() < 0x1_0000_0000_0000_0000
}

/// Appends every byte of `b` to `out`.
fn push_bytes(out: &mut Vec<u8>, b: &[u8])
    ensures
        final(out)@ == old(out)@ + b@,
{
    let n = b.len();
    let mut i: usize = 0;
    while i < n
        invariant
            n == b@.len(),
            i <= n,
            out@ == old(out)@ + b@.subrange(0, i as int),
        decreases n - i,
    {
        out.push(b[i]);
        proof {
            assert(old(out)@ + b@.subrange(0, i as int) + seq![b@[i as int]] =~= old(out)@
                + b@.subrange(0, i as int + 1));
        }
        i = i + 1;
    }
    proof {
        assert(b@.subrange(0, n as int) =~= b@);
    }
}

/// Appends the canonical form of one variable-length field.
fn append_chunk(out: &mut Vec<u8>, b: &[u8])
    ensures
        final(out)@ == old(out)@ + encode_chunk(b@),
{
    let mut lb = u64_to_le_bytes(b.len() as u64);
    out.append(&mut lb);
    push_bytes(out, b);
    proof {
        assert(out@ =~= old(out)@ + encode_chunk(b@));
    }
}

/// Renders a payload into its canonical byte form.
///
/// Total and deterministic: equal payloads give byte-identical output,
/// and by [`lemma_canonical_bytes_distinct`] payloads differing in any
/// field give different output.
pub fn canonicalize(p: &Payload) -> (r: Vec<u8>)
    ensures
        r@ == canonical_bytes(p@),
{
    let mut out: Vec<u8> = Vec::new();
    let mut nb = u128_to_le_bytes(p.nonce);
    out.append(&mut nb);
    let tag: u8 = match &p.expiration {
        None => 0,
        Some(Expiration::AtHeight(_)) => 1,
        Some(Expiration::AtTime(_)) => 2,
        Some(Expiration::Never) => 3,
    };
    let value: u64 = match &p.expiration {
        None => 0,
        Some(Expiration::AtHeight(h)) => *h,
        Some(Expiration::AtTime(t)) => *t,
        Some(Expiration::Never) => 0,
    };
    out.push(tag);
    let mut vb = u64_to_le_bytes(value);
    out.append(&mut vb);
    append_chunk(&mut out, p.msg.as_slice());
    append_chunk(&mut out, p.contract_address.as_str().as_bytes());
    append_chunk(&mut out, p.bech32_prefix.as_str().as_bytes());
    append_chunk(&mut out, p.version.as_str().as_bytes());
    proof {
        assert(out@ =~= canonical_bytes(p@));
    }
    out
}

/// Two concatenations with equally long heads are equal piecewise.
proof fn lemma_append_peel(x1: Seq<u8>, y1: Seq<u8>, x2: Seq<u8>, y2: Seq<u8>)
    requires
        x1 + y1 == x2 + y2,
        x1.len() == x2.len(),
    ensures
        x1 == x2,
        y1 == y2,
{
    assert(x1 =~= x2) by {
        assert forall|i: int| 0 <= i < x1.len() implies x1[i] == x2[i] by {
            assert((x1 + y1)[i] == x1[i]);
            assert((x2 + y2)[i] == x2[i]);
        }
    }
    assert((x1 + y1).len() == x1.len() + y1.len());
    assert((x2 + y2).len() == x2.len() + y2.len());
    assert(y1.len() == y2.len());
    assert(y1 =~= y2) by {
        let s = x1 + y1;
        assert forall|i: int| 0 <= i < y1.len() implies y1[i] == y2[i] by {
            assert(s[x1.len() + i] == y1[i]);
            assert(s == x2 + y2);
            assert(s[x2.len() + i] == y2[i]);
        }
    }
}

/// A length-prefixed field followed by a tail determines both.
proof fn lemma_chunk_peel(a1: Seq<u8>, y1: Seq<u8>, a2: Seq<u8>, y2: Seq<u8>)
    requires
        encode_chunk(a1) + y1 == encode_chunk(a2) + y2,
        a1.len() < 0x1_0000_0000_0000_0000,
        a2.len() < 0x1_0000_0000_0000_0000,
    ensures
        a1 == a2,
        y1 == y2,
{
    lemma_auto_spec_u64_to_from_le_bytes();
    let l1 = spec_u64_to_le_bytes(a1.len() as u64);
    let l2 = spec_u64_to_le_bytes(a2.len() as u64);
    assert((l1 + a1) + y1 =~= l1 + (a1 + y1));
    assert((l2 + a2) + y2 =~= l2 + (a2 + y2));
    lemma_append_peel(l1, a1 + y1, l2, a2 + y2);
    assert(spec_u64_from_le_bytes(l1) == a1.len() as u64);
    assert(spec_u64_from_le_bytes(l2) == a2.len() as u64);
    assert(a1.len() == a2.len());
    lemma_append_peel(a1, y1, a2, y2);
}

/// The canonical form is injective: payloads whose canonical bytes
/// agree agree on every field.
pub proof fn lemma_canonical_bytes_injective(p1: PayloadView, p2: PayloadView)
    requires
        payload_fits(p1),
        payload_fits(p2),
        canonical_bytes(p1) == canonical_bytes(p2),
    ensures
        p1 == p2,
{
    lemma_auto_spec_u128_to_from_le_bytes();
    lemma_auto_spec_u64_to_from_le_bytes();
    let n1 = spec_u128_to_le_bytes(p1.nonce);
    let n2 = spec_u128_to_le_bytes(p2.nonce);
    let e1 = encode_expiration(p1.expiration);
    let e2 = encode_expiration(p2.expiration);
    let m1 = encode_chunk(p1.msg);
    let m2 = encode_chunk(p2.msg);
    let c1 = encode_chunk(encode_utf8(p1.contract_address));
    let c2 = encode_chunk(encode_utf8(p2.contract_address));
    let b1 = encode_chunk(encode_utf8(p1.bech32_prefix));
    let b2 = encode_chunk(encode_utf8(p2.bech32_prefix));
    let v1 = encode_chunk(encode_utf8(p1.version));
    let v2 = encode_chunk(encode_utf8(p2.version));
    lemma_append_peel(n1, e1 + (m1 + (c1 + (b1 + v1))), n2, e2 + (m2 + (c2 + (b2 + v2))));
    assert(p1.nonce == p2.nonce);
    lemma_append_peel(e1, m1 + (c1 + (b1 + v1)), e2, m2 + (c2 + (b2 + v2)));
    assert(p1.expiration == p2.expiration) by {
        assert(e1[0] == expiration_tag(p1.expiration));
        assert(e2[0] == expiration_tag(p2.expiration));
        let w1 = spec_u64_to_le_bytes(expiration_value(p1.expiration));
        let w2 = spec_u64_to_le_bytes(expiration_value(p2.expiration));
        assert(w1 =~= e1.subrange(1, 9));
        assert(w2 =~= e2.subrange(1, 9));
        assert(expiration_value(p1.expiration) == expiration_value(p2.expiration));
    }
    lemma_chunk_peel(p1.msg, c1 + (b1 + v1), p2.msg, c2 + (b2 + v2));
    lemma_chunk_peel(
        encode_utf8(p1.contract_address),
        b1 + v1,
        encode_utf8(p2.contract_address),
        b2 + v2,
    );
    lemma_chunk_peel(
        encode_utf8(p1.bech32_prefix),
        v1,
        encode_utf8(p2.bech32_prefix),
        v2,
    );
    assert(v1 + Seq::<u8>::empty() =~= v1);
    assert(v2 + Seq::<u8>::empty() =~= v2);
    lemma_chunk_peel(
        encode_utf8(p1.version),
        Seq::empty(),
        encode_utf8(p2.version),
        Seq::empty(),
    );
    vstd::utf8::encode_utf8_decode_utf8(p1.contract_address);
    vstd::utf8::encode_utf8_decode_utf8(p2.contract_address);
    vstd::utf8::encode_utf8_decode_utf8(p1.bech32_prefix);
    vstd::utf8::encode_utf8_decode_utf8(p2.bech32_prefix);
    vstd::utf8::encode_utf8_decode_utf8(p1.version);
    vstd::utf8::encode_utf8_decode_utf8(p2.version);
    assert(p1.contract_address == p2.contract_address);
    assert(p1.bech32_prefix == p2.bech32_prefix);
    assert(p1.version == p2.version);
    assert(p1 =~= p2);
}

/// Any difference between two payloads — in any single field or in
/// several — changes the canonical bytes, and with them the digest a
/// signature is checked against.
pub proof fn lemma_canonical_bytes_distinct(p1: PayloadView, p2: PayloadView)
    requires
        payload_fits(p1),
        payload_fits(p2),
        p1 != p2,
    ensures
        canonical_bytes(p1) != canonical_bytes(p2),
{
    if canonical_bytes(p1) == canonical_bytes(p2) {
        lemma_canonical_bytes_injective(p1, p2);
    }
}

} // verus!
