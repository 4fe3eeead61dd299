use vstd::prelude::*;

verus! {

/// The reasons a bridge operation can be refused.
///
/// Every error is a local rejection with no side effects: no record and no
/// counter is changed on any error path.
#[derive(Clone, Copy, Debug, PartialEq, Eq, Structural)]
pub enum RepBridgeError {
    /// The bridge control state has acceptance switched off.
    Paused,
    /// The message bytes do not form a structurally valid attestation.
    InvalidMessage,
    /// The attestation's nonce is not strictly greater than the stored one.
    ReplayedMessage,
    /// The attestation's timestamp lies outside the freshness window.
    StaleAttestation,
    /// A query named a key with no accepted attestation.
    NotFound,
    /// A privileged operation was attempted by someone other than the admin.
    Unauthorized,
    /// The control state was bootstrapped twice.
    AlreadyInitialized,
}

} // verus!
