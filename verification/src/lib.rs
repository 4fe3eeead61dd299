//! Validation and bookkeeping for cross-chain reputation attestations.
//!
//! An attestation is a claim, originated on a source chain and delivered by a
//! trusted relay, that an agent has a given reputation score. This crate holds
//! the trust decision over that untrusted payload: decoding the byte message,
//! enforcing replay protection (strictly increasing nonces per key) and a
//! bounded freshness window, and committing the result at most once per
//! (source chain, agent) pair. Origin and sender authentication, persistent
//! storage, and the wall clock belong to the surrounding host, which hands the
//! entry points already-authenticated values and the current time.

pub mod attestation;
pub mod bridge;
pub mod codec;
pub mod errors;
pub mod laws;
pub mod state;
pub mod store;
pub mod validator;

pub use attestation::ReputationAttestation;
pub use bridge::{
    handle_message, initialize, query_reputation, set_paused, BridgedReputationData,
    ReputationBridged,
};
pub use errors::RepBridgeError;
pub use state::ProgramState;
pub use store::{BridgedReputation, ReputationStore};
