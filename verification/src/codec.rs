use vstd::prelude::*;
use vstd::bytes::*;
use vstd::slice::{slice_subrange, slice_to_vec};

use crate::attestation::{AttestationView, ReputationAttestation, AGENT_LEN, ATTESTATION_ID_LEN};
use crate::errors::RepBridgeError;

verus! {

/// Total length of an encoded attestation: two 4-byte length prefixes, the
/// 20-byte agent, the 32-byte attestation id, and four fixed-width integers.
pub const MESSAGE_LEN: usize = 88;

/// The wire image of an attestation: a fixed, versionless layout with
/// little-endian integers and a length prefix before each variable field.
///
/// Offsets: agent length at 0, agent at 4, score at 24, source chain at 32,
/// timestamp at 36, nonce at 44, id length at 52, attestation id at 56.
pub open spec fn encode_spec(a: AttestationView) -> Seq<u8> {
    spec_u32_to_le_bytes(AGENT_LEN as u32) + a.agent + spec_u64_to_le_bytes(a.score)
        + spec_u32_to_le_bytes(a.source_chain) + spec_u64_to_le_bytes(a.timestamp)
        + spec_u64_to_le_bytes(a.nonce) + spec_u32_to_le_bytes(ATTESTATION_ID_LEN as u32)
        + a.attestation_id
}

/// The attestation a byte buffer stands for, or `None` when the buffer is
/// malformed: truncated or oversized, or a variable field not of its declared
/// arity. Purely structural; no field value is otherwise validated.
pub open spec fn decode_spec(b: Seq<u8>) -> Option<AttestationView> {
    if b.len() == MESSAGE_LEN && spec_u32_from_le_bytes(b.subrange(0, 4)) == AGENT_LEN as u32
        && spec_u32_from_le_bytes(b.subrange(52, 56)) == ATTESTATION_ID_LEN as u32 {
        Some(
            AttestationView {
                agent: b.subrange(4, 24),
                score: spec_u64_from_le_bytes(b.subrange(24, 32)),
                source_chain: spec_u32_from_le_bytes(b.subrange(32, 36)),
                timestamp: spec_u64_from_le_bytes(b.subrange(36, 44)),
                nonce: spec_u64_from_le_bytes(b.subrange(44, 52)),
                attestation_id: b.subrange(56, 88),
            },
        )
    } else {
        None
    }
}

/// Decodes an untrusted byte buffer into an attestation.
///
/// Succeeds exactly on the buffers that [`decode_spec`] accepts; every other
/// buffer is rejected with `InvalidMessage` and nothing else is reported.
pub fn decode(message: &Vec<u8>) -> (r: Result<ReputationAttestation, RepBridgeError>)
    ensures
        match r {
            Ok(att) => decode_spec(message@) == Some(att@) && att.wf(),
            Err(e) => decode_spec(message@) is None && e == RepBridgeError::InvalidMessage,
        },
{
    if message.len() != MESSAGE_LEN {
        return Err(RepBridgeError::InvalidMessage);
    }
    let s = message.as_slice();
    let agent_len: u32 = u32_from_le_bytes(slice_subrange(s, 0, 4));
    if agent_len != AGENT_LEN as u32 {
        return Err(RepBridgeError::InvalidMessage);
    }
    let id_len: u32 = u32_from_le_bytes(slice_subrange(s, 52, 56));
    if id_len != ATTESTATION_ID_LEN as u32 {
        return Err(RepBridgeError::InvalidMessage);
    }
    let att = ReputationAttestation {
        agent: slice_to_vec(slice_subrange(s, 4, 24)),
        score: u64_from_le_bytes(slice_subrange(s, 24, 32)),
        source_chain: u32_from_le_bytes(slice_subrange(s, 32, 36)),
        timestamp: u64_from_le_bytes(slice_subrange(s, 36, 44)),
        nonce: u64_from_le_bytes(slice_subrange(s, 44, 52)),
        attestation_id: slice_to_vec(slice_subrange(s, 56, 88)),
    };
    assert(decode_spec(message@) == Some(att@));
    Ok(att)
}

/// Encodes an attestation into the wire layout that [`decode`] reads back.
pub fn encode(att: &ReputationAttestation) -> (r: Vec<u8>)
    ensures
        r@ == encode_spec(att@),
{
    let mut out: Vec<u8> = Vec::new();
    let mut part: Vec<u8> = u32_to_le_bytes(AGENT_LEN as u32);
    out.append(&mut part);
    let mut agent: Vec<u8> = slice_to_vec(att.agent.as_slice());
    out.append(&mut agent);
    let mut part: Vec<u8> = u64_to_le_bytes(att.score);
    out.append(&mut part);
    let mut part: Vec<u8> = u32_to_le_bytes(att.source_chain);
    out.append(&mut part);
    let mut part: Vec<u8> = u64_to_le_bytes(att.timestamp);
    out.append(&mut part);
    let mut part: Vec<u8> = u64_to_le_bytes(att.nonce);
    out.append(&mut part);
    let mut part: Vec<u8> = u32_to_le_bytes(ATTESTATION_ID_LEN as u32);
    out.append(&mut part);
    let mut id: Vec<u8> = slice_to_vec(att.attestation_id.as_slice());
    out.append(&mut id);
    assert(out@ =~= encode_spec(att@));
    out
}

/// The codec round-trips: decoding the encoding of any well-formed
/// attestation yields that attestation back, exactly.
pub proof fn lemma_decode_encode(a: AttestationView)
    requires
        a.wf(),
    ensures
        decode_spec(encode_spec(a)) == Some(a),
{
    lemma_auto_spec_u32_to_from_le_bytes();
    lemma_auto_spec_u64_to_from_le_bytes();
    let b = encode_spec(a);
    assert(b.len() == MESSAGE_LEN);
    assert(b.subrange(0, 4) =~= spec_u32_to_le_bytes(AGENT_LEN as u32));
    assert(b.subrange(4, 24) =~= a.agent);
    assert(b.subrange(24, 32) =~= spec_u64_to_le_bytes(a.score));
    assert(b.subrange(32, 36) =~= spec_u32_to_le_bytes(a.source_chain));
    assert(b.subrange(36, 44) =~= spec_u64_to_le_bytes(a.timestamp));
    assert(b.subrange(44, 52) =~= spec_u64_to_le_bytes(a.nonce));
    assert(b.subrange(52, 56) =~= spec_u32_to_le_bytes(ATTESTATION_ID_LEN as u32));
    assert(b.subrange(56, 88) =~= a.attestation_id);
    assert(decode_spec(b) == Some(a));
}

} // verus!
