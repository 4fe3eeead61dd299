use repbridge::codec::{decode, encode};
use repbridge::{RepBridgeError, ReputationAttestation};

fn sample_attestation() -> ReputationAttestation {
    ReputationAttestation {
        agent: vec![0xAA; 20],
        score: 100,
        source_chain: 5,
        timestamp: 1000,
        nonce: 1,
        attestation_id: vec![0x11; 32],
    }
}

fn sample_bytes() -> Vec<u8> {
    let mut b: Vec<u8> = Vec::new();
    b.extend_from_slice(&[20, 0, 0, 0]);
    b.extend_from_slice(&[0xAA; 20]);
    b.extend_from_slice(&[100, 0, 0, 0, 0, 0, 0, 0]);
    b.extend_from_slice(&[5, 0, 0, 0]);
    b.extend_from_slice(&[0xE8, 0x03, 0, 0, 0, 0, 0, 0]);
    b.extend_from_slice(&[1, 0, 0, 0, 0, 0, 0, 0]);
    b.extend_from_slice(&[32, 0, 0, 0]);
    b.extend_from_slice(&[0x11; 32]);
    b
}

#[test]
fn encode_produces_exact_layout() {
    let encoded = encode(&sample_attestation());
    assert_eq!(encoded, sample_bytes());
    assert_eq!(encoded.len(), 88);
}

#[test]
fn decode_reads_every_field() {
    let att = decode(&sample_bytes()).unwrap();
    assert_eq!(att.agent, vec![0xAA; 20]);
    assert_eq!(att.score, 100);
    assert_eq!(att.source_chain, 5);
    assert_eq!(att.timestamp, 1000);
    assert_eq!(att.nonce, 1);
    assert_eq!(att.attestation_id, vec![0x11; 32]);
}

#[test]
fn decode_encode_round_trips() {
    let att = ReputationAttestation {
        agent: (0u8..20).collect(),
        score: u64::MAX,
        source_chain: u32::MAX,
        timestamp: u64::MAX - 7,
        nonce: 0x0123_4567_89AB_CDEF,
        attestation_id: (100u8..132).collect(),
    };
    let back = decode(&encode(&att)).unwrap();
    assert_eq!(back.agent, att.agent);
    assert_eq!(back.score, att.score);
    assert_eq!(back.source_chain, att.source_chain);
    assert_eq!(back.timestamp, att.timestamp);
    assert_eq!(back.nonce, att.nonce);
    assert_eq!(back.attestation_id, att.attestation_id);
}

#[test]
fn decode_rejects_empty_buffer() {
    assert_eq!(decode(&Vec::new()).unwrap_err(), RepBridgeError::InvalidMessage);
}

#[test]
fn decode_rejects_truncated_buffer() {
    let mut b = sample_bytes();
    b.pop();
    assert_eq!(decode(&b).unwrap_err(), RepBridgeError::InvalidMessage);
}

#[test]
fn decode_rejects_trailing_bytes() {
    let mut b = sample_bytes();
    b.push(0);
    assert_eq!(decode(&b).unwrap_err(), RepBridgeError::InvalidMessage);
}

#[test]
fn decode_rejects_wrong_agent_arity() {
    let mut b = sample_bytes();
    b[0] = 19;
    assert_eq!(decode(&b).unwrap_err(), RepBridgeError::InvalidMessage);
}

#[test]
fn decode_rejects_wrong_attestation_id_arity() {
    let mut b = sample_bytes();
    b[52] = 31;
    assert_eq!(decode(&b).unwrap_err(), RepBridgeError::InvalidMessage);
}
