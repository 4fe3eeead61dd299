use vstd::prelude::*;

use crate::attestation::{AttestationView, ReputationAttestation};
use crate::errors::RepBridgeError;
use crate::store::{BridgedReputation, ReputationView};

verus! {

/// Width of the freshness window, in seconds: 24 hours.
pub const VALIDITY_WINDOW: i64 = 86400;

/// An attestation signed at `timestamp` is fresh at `now` exactly when its
/// age lies in the closed-open window `0 <= now - timestamp < 86400`: age 0
/// is valid, a future timestamp (clock skew) or an age of a full day is not.
pub open spec fn is_fresh(now: int, timestamp: int) -> bool {
    0 <= now - timestamp < VALIDITY_WINDOW
}

/// Replay defense: once a record exists for the key, a new attestation must
/// carry a strictly greater nonce. The first write for a key accepts any
/// nonce value.
pub open spec fn nonce_ok(prior: Option<ReputationView>, nonce: u64) -> bool {
    match prior {
        Some(p) => nonce > p.nonce,
        None => true,
    }
}

/// The value a stored prior record stands for, if one was found.
pub open spec fn prior_view(prior: Option<&BridgedReputation>) -> Option<ReputationView> {
    match prior {
        Some(p) => Some(p@),
        None => None,
    }
}

/// The freshness and replay decision over a decoded attestation and the
/// previously stored record for its key, in order: replay first, then
/// freshness. Both checks are independent; an attestation must pass both.
pub open spec fn validate_spec(
    now: i64,
    att: AttestationView,
    prior: Option<ReputationView>,
) -> Result<(), RepBridgeError> {
    if !nonce_ok(prior, att.nonce) {
        Err(RepBridgeError::ReplayedMessage)
    } else if !is_fresh(now as int, att.timestamp as int) {
        Err(RepBridgeError::StaleAttestation)
    } else {
        Ok(())
    }
}

/// Decides ACCEPT (`Ok`) or REJECT (the specific error) for a decoded
/// attestation, given the current time and the prior record for its key.
pub fn validate(
    now: i64,
    attestation: &ReputationAttestation,
    prior: Option<&BridgedReputation>,
) -> (r: Result<(), RepBridgeError>)
    ensures
        r == validate_spec(now, attestation@, prior_view(prior)),
{
    let nonce_valid: bool = match prior {
        Some(p) => attestation.nonce > p.nonce,
        None => true,
    };
    if !nonce_valid {
        return Err(RepBridgeError::ReplayedMessage);
    }
    let fresh: bool = if attestation.timestamp <= i64::MAX as u64 {
        let ts = attestation.timestamp as i64;
        now >= ts && now - ts < VALIDITY_WINDOW
    } else {
        false
    };
    if !fresh {
        return Err(RepBridgeError::StaleAttestation);
    }
    Ok(())
}

} // verus!
