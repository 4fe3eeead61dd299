use vstd::prelude::*;

use crate::attestation::AttestationView;
use crate::bridge::{
    committed_record, event_of, handle_verdict, next_records, prior_of, query_verdict, EventView,
    ReputationDataView,
};
use crate::codec::decode_spec;
use crate::errors::RepBridgeError;
use crate::store::ReputationView;
use crate::validator::{is_fresh, nonce_ok};

verus! {

/// A valid attestation is accepted. Whenever the bridge is not paused, the
/// message decodes to `att`, `att.nonce` is strictly greater than the stored
/// record's nonce (any nonce, if no record exists), and `att.timestamp` lies
/// inside the freshness window at `now`, the verdict commits exactly the
/// record built from `att`, the store gains or re-binds exactly that one key,
/// and once a record existed its nonce strictly increased.
pub proof fn lemma_valid_attestation_accepted(
    paused: bool,
    records: Map<(u32, Seq<u8>), ReputationView>,
    origin: u32,
    message: Seq<u8>,
    att: AttestationView,
    now: i64,
)
    requires
        !paused,
        decode_spec(message) == Some(att),
        nonce_ok(prior_of(records, (origin, att.agent)), att.nonce),
        is_fresh(now as int, att.timestamp as int),
    ensures
        handle_verdict(paused, records, origin, message, now) == Ok::<
            ReputationView,
            RepBridgeError,
        >(committed_record(origin, att, now)),
        next_records(paused, records, origin, message, now) == records.insert(
            (origin, att.agent),
            committed_record(origin, att, now),
        ),
        records.contains_key((origin, att.agent)) ==> committed_record(origin, att, now).nonce
            > records[(origin, att.agent)].nonce,
{
}

/// A replayed nonce is rejected and the store is untouched. Whenever a record
/// exists for (origin, agent) and the attestation's nonce is not strictly
/// greater, the verdict is `ReplayedMessage` and the store is unchanged,
/// whatever the timestamp.
pub proof fn lemma_replayed_nonce_rejected(
    paused: bool,
    records: Map<(u32, Seq<u8>), ReputationView>,
    origin: u32,
    message: Seq<u8>,
    att: AttestationView,
    now: i64,
)
    requires
        !paused,
        decode_spec(message) == Some(att),
        records.contains_key((origin, att.agent)),
        att.nonce <= records[(origin, att.agent)].nonce,
    ensures
        handle_verdict(paused, records, origin, message, now) == Err::<
            ReputationView,
            RepBridgeError,
        >(RepBridgeError::ReplayedMessage),
        next_records(paused, records, origin, message, now) == records,
{
}

/// A stale attestation is rejected and the store is untouched. Whenever the
/// replay check passes (that check is decided first, so a replayed nonce is
/// reported as `ReplayedMessage` even when the timestamp is also stale) and
/// the age `now - timestamp` is negative or at least the full window, the
/// verdict is `StaleAttestation` and the store is unchanged.
pub proof fn lemma_stale_rejected(
    paused: bool,
    records: Map<(u32, Seq<u8>), ReputationView>,
    origin: u32,
    message: Seq<u8>,
    att: AttestationView,
    now: i64,
)
    requires
        !paused,
        decode_spec(message) == Some(att),
        nonce_ok(prior_of(records, (origin, att.agent)), att.nonce),
        !is_fresh(now as int, att.timestamp as int),
    ensures
        handle_verdict(paused, records, origin, message, now) == Err::<
            ReputationView,
            RepBridgeError,
        >(RepBridgeError::StaleAttestation),
        next_records(paused, records, origin, message, now) == records,
{
}

/// While the bridge is paused every message is rejected with `Paused`, before
/// any other check, and no record is created or modified — even for a
/// brand-new key.
pub proof fn lemma_paused_rejected(
    records: Map<(u32, Seq<u8>), ReputationView>,
    origin: u32,
    message: Seq<u8>,
    now: i64,
)
    ensures
        handle_verdict(true, records, origin, message, now) == Err::<
            ReputationView,
            RepBridgeError,
        >(RepBridgeError::Paused),
        next_records(true, records, origin, message, now) == records,
{
}

/// A query for a key with no accepted attestation answers `NotFound`.
pub proof fn lemma_query_unknown_not_found(
    records: Map<(u32, Seq<u8>), ReputationView>,
    source_chain: u32,
    agent: Seq<u8>,
)
    requires
        !records.contains_key((source_chain, agent)),
    ensures
        query_verdict(records, source_chain, agent) == Err::<ReputationDataView, RepBridgeError>(
            RepBridgeError::NotFound,
        ),
{
}

/// After one acceptance, a query for the committed key returns exactly the
/// committed fields.
pub proof fn lemma_query_after_accept(
    paused: bool,
    records: Map<(u32, Seq<u8>), ReputationView>,
    origin: u32,
    message: Seq<u8>,
    now: i64,
    rec: ReputationView,
)
    requires
        handle_verdict(paused, records, origin, message, now) == Ok::<
            ReputationView,
            RepBridgeError,
        >(rec),
    ensures
        query_verdict(next_records(paused, records, origin, message, now), origin, rec.source_agent)
            == Ok::<ReputationDataView, RepBridgeError>(
            ReputationDataView {
                source_agent: rec.source_agent,
                score: rec.score,
                source_chain: rec.source_chain,
                timestamp: rec.timestamp,
                nonce: rec.nonce,
            },
        ),
{
    assert(rec.source_chain == origin);
}

/// Rejection is idempotent: a rejected message leaves the store exactly as it
/// was, so submitting the same payload again under the same conditions yields
/// the same rejection, with no state drift.
pub proof fn lemma_rejection_idempotent(
    paused: bool,
    records: Map<(u32, Seq<u8>), ReputationView>,
    origin: u32,
    message: Seq<u8>,
    now: i64,
)
    requires
        handle_verdict(paused, records, origin, message, now) is Err,
    ensures
        next_records(paused, records, origin, message, now) == records,
        handle_verdict(
            paused,
            next_records(paused, records, origin, message, now),
            origin,
            message,
            now,
        ) == handle_verdict(paused, records, origin, message, now),
{
}

/// The event emitted for an accepted attestation carries exactly the agent,
/// score, transport-verified origin and nonce that were committed.
pub proof fn lemma_event_reflects_commit(origin: u32, att: AttestationView, now: i64)
    ensures
        event_of(committed_record(origin, att, now)) == (EventView {
            source_agent: att.agent,
            score: att.score,
            source_chain: origin,
            nonce: att.nonce,
        }),
{
}

} // verus!
