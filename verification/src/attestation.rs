use vstd::prelude::*;

verus! {

/// Number of bytes in an agent's source-chain address.
pub const AGENT_LEN: usize = 20;

/// Number of bytes in an attestation's content hash.
pub const ATTESTATION_ID_LEN: usize = 32;

/// A decoded reputation attestation, as carried by an inbound message.
///
/// It is transient: the fields are copied into a stored record on acceptance
/// and the attestation itself is never persisted.
#[derive(Debug)]
pub struct ReputationAttestation {
    /// Source-chain address of the agent, exactly 20 bytes.
    pub agent: Vec<u8>,
    /// Externally computed reputation score.
    pub score: u64,
    /// Self-reported source domain. Advisory only: the transport-verified
    /// origin is authoritative and is what gets stored.
    pub source_chain: u32,
    /// Seconds since the epoch, set by the attestation's original signer.
    pub timestamp: u64,
    /// Strictly increasing per key; used only for replay defense.
    pub nonce: u64,
    /// Opaque content hash of the original attestation, exactly 32 bytes.
    pub attestation_id: Vec<u8>,
}

/// The mathematical value of a [`ReputationAttestation`].
#[verifier::ext_equal]
pub ghost struct AttestationView {
    pub agent: Seq<u8>,
    pub score: u64,
    pub source_chain: u32,
    pub timestamp: u64,
    pub nonce: u64,
    pub attestation_id: Seq<u8>,
}

impl View for ReputationAttestation {
    type V = AttestationView;

    open spec fn view(&self) -> AttestationView {
        AttestationView {
            agent: self.agent@,
            score: self.score,
            source_chain: self.source_chain,
            timestamp: self.timestamp,
            nonce: self.nonce,
            attestation_id: self.attestation_id@,
        }
    }
}

impl AttestationView {
    /// Both variable-length fields have exactly their declared arity.
    pub open spec fn wf(&self) -> bool {
        &&& self.agent.len() == AGENT_LEN
        &&& self.attestation_id.len() == ATTESTATION_ID_LEN
    }
}

impl ReputationAttestation {
    /// Both variable-length fields have exactly their declared arity.
    pub open spec fn wf(&self) -> bool {
        self@.wf()
    }
}

} // verus!
