use vstd::prelude::*;
use vstd::slice::slice_to_vec;

use crate::attestation::AttestationView;
use crate::codec::{decode, decode_spec};
use crate::errors::RepBridgeError;
use crate::state::{id_matches, ProgramState};
use crate::store::{record_key, BridgedReputation, ReputationStore, ReputationView};
use crate::validator::{validate, validate_spec};

verus! {

/// The notification emitted to observers on every accepted message.
#[derive(Debug)]
pub struct ReputationBridged {
    pub source_agent: Vec<u8>,
    pub score: u64,
    pub source_chain: u32,
    pub nonce: u64,
}

/// The mathematical value of a [`ReputationBridged`] notification.
#[verifier::ext_equal]
pub ghost struct EventView {
    pub source_agent: Seq<u8>,
    pub score: u64,
    pub source_chain: u32,
    pub nonce: u64,
}

impl View for ReputationBridged {
    type V = EventView;

    open spec fn view(&self) -> EventView {
        EventView {
            source_agent: self.source_agent@,
            score: self.score,
            source_chain: self.source_chain,
            nonce: self.nonce,
        }
    }
}

/// A successful query's answer: the committed fields of one record.
#[derive(Debug)]
pub struct BridgedReputationData {
    pub source_agent: Vec<u8>,
    pub score: u64,
    pub source_chain: u32,
    pub timestamp: i64,
    pub nonce: u64,
}

/// The mathematical value of a [`BridgedReputationData`] answer.
#[verifier::ext_equal]
pub ghost struct ReputationDataView {
    pub source_agent: Seq<u8>,
    pub score: u64,
    pub source_chain: u32,
    pub timestamp: i64,
    pub nonce: u64,
}

impl View for BridgedReputationData {
    type V = ReputationDataView;

    open spec fn view(&self) -> ReputationDataView {
        ReputationDataView {
            source_agent: self.source_agent@,
            score: self.score,
            source_chain: self.source_chain,
            timestamp: self.timestamp,
            nonce: self.nonce,
        }
    }
}

/// The record committed when an attestation is accepted: its fields, except
/// that the stored chain is the transport-verified `origin` (the payload's
/// self-reported chain is advisory only) and the stored timestamp is the
/// local receipt time `now`, not the attestation's claimed timestamp.
pub open spec fn committed_record(origin: u32, att: AttestationView, now: i64) -> ReputationView {
    ReputationView {
        source_agent: att.agent,
        score: att.score,
        source_chain: origin,
        timestamp: now,
        nonce: att.nonce,
        attestation_id: att.attestation_id,
    }
}

/// The stored record for a key, if one exists.
pub open spec fn prior_of(
    records: Map<(u32, Seq<u8>), ReputationView>,
    k: (u32, Seq<u8>),
) -> Option<ReputationView> {
    if records.contains_key(k) {
        Some(records[k])
    } else {
        None
    }
}

/// The complete acceptance decision for one inbound message, in order: the
/// pause gate, structural decoding, then the replay and freshness checks
/// against the record stored for (origin, agent). `Ok` carries the record
/// that acceptance commits.
pub open spec fn handle_verdict(
    paused: bool,
    records: Map<(u32, Seq<u8>), ReputationView>,
    origin: u32,
    message: Seq<u8>,
    now: i64,
) -> Result<ReputationView, RepBridgeError> {
    if paused {
        Err(RepBridgeError::Paused)
    } else {
        match decode_spec(message) {
            None => Err(RepBridgeError::InvalidMessage),
            Some(att) => match validate_spec(now, att, prior_of(records, (origin, att.agent))) {
                Err(e) => Err(e),
                Ok(()) => Ok(committed_record(origin, att, now)),
            },
        }
    }
}

/// The store contents after one inbound message: unchanged on any rejection,
/// and with exactly the committed record's key re-bound on acceptance.
pub open spec fn next_records(
    paused: bool,
    records: Map<(u32, Seq<u8>), ReputationView>,
    origin: u32,
    message: Seq<u8>,
    now: i64,
) -> Map<(u32, Seq<u8>), ReputationView> {
    match handle_verdict(paused, records, origin, message, now) {
        Ok(rec) => records.insert(record_key(rec), rec),
        Err(_) => records,
    }
}

/// The notification an accepted record gives rise to.
pub open spec fn event_of(rec: ReputationView) -> EventView {
    EventView {
        source_agent: rec.source_agent,
        score: rec.score,
        source_chain: rec.source_chain,
        nonce: rec.nonce,
    }
}

/// The answer a query for (source_chain, agent) is owed: the committed
/// fields when a record exists, `NotFound` otherwise.
pub open spec fn query_verdict(
    records: Map<(u32, Seq<u8>), ReputationView>,
    source_chain: u32,
    agent: Seq<u8>,
) -> Result<ReputationDataView, RepBridgeError> {
    if records.contains_key((source_chain, agent)) {
        let rec = records[(source_chain, agent)];
        Ok(
            ReputationDataView {
                source_agent: rec.source_agent,
                score: rec.score,
                source_chain: rec.source_chain,
                timestamp: rec.timestamp,
                nonce: rec.nonce,
            },
        )
    } else {
        Err(RepBridgeError::NotFound)
    }
}

/// Bootstraps the singleton control state with the given admin, acceptance
/// switched on and the counter at zero. Fails, changing nothing, when the
/// state already exists.
pub fn initialize(slot: &mut Option<ProgramState>, admin: [u8; 32]) -> (r: Result<
    (),
    RepBridgeError,
>)
    ensures
        match r {
            Ok(()) => {
                &&& *old(slot) is None
                &&& *final(slot) == Some(
                    ProgramState { admin, paused: false, total_bridged: 0 },
                )
            },
            Err(e) => {
                &&& e == RepBridgeError::AlreadyInitialized
                &&& *old(slot) is Some
                &&& *final(slot) == *old(slot)
            },
        },
{
    if slot.is_some() {
        return Err(RepBridgeError::AlreadyInitialized);
    }
    *slot = Some(ProgramState { admin, paused: false, total_bridged: 0 });
    Ok(())
}

/// Handles one inbound message from the relay. `origin` and `_sender` arrive
/// already authenticated by the transport layer; no origin re-verification
/// happens here. `now` is the host-supplied local receipt time.
///
/// On acceptance the record for (origin, agent) is created or overwritten,
/// the counter grows by exactly one, and the returned notification carries
/// agent, score, origin and nonce. On any rejection the specific error is
/// returned and neither the store nor the counters change.
pub fn handle_message(
    state: &mut ProgramState,
    store: &mut ReputationStore,
    origin: u32,
    _sender: [u8; 32],
    message: Vec<u8>,
    now: i64,
) -> (r: Result<ReputationBridged, RepBridgeError>)
    requires
        old(store).wf(),
        old(state).total_bridged < u64::MAX,
    ensures
        final(store).wf(),
        final(state).admin == old(state).admin,
        final(state).paused == old(state).paused,
        final(store)@ == next_records(old(state).paused, old(store)@, origin, message@, now),
        match handle_verdict(old(state).paused, old(store)@, origin, message@, now) {
            Ok(rec) => {
                &&& final(state).total_bridged == old(state).total_bridged + 1
                &&& r matches Ok(ev) && ev@ == event_of(rec)
            },
            Err(e) => {
                &&& final(state).total_bridged == old(state).total_bridged
                &&& r matches Err(e2) && e2 == e
            },
        },
{
    if state.paused {
        return Err(RepBridgeError::Paused);
    }
    let attestation = match decode(&message) {
        Ok(att) => att,
        Err(e) => {
            return Err(e);
        },
    };
    let ghost att_v = attestation@;
    let verdict = validate(now, &attestation, store.get(origin, &attestation.agent));
    if let Err(e) = verdict {
        return Err(e);
    }
    let event_agent: Vec<u8> = slice_to_vec(attestation.agent.as_slice());
    let score = attestation.score;
    let nonce = attestation.nonce;
    let rec = BridgedReputation {
        is_initialized: true,
        source_agent: attestation.agent,
        score,
        source_chain: origin,
        timestamp: now,
        nonce,
        attestation_id: attestation.attestation_id,
    };
    proof {
        assert(rec@ =~= committed_record(origin, att_v, now));
        assert(rec.wf());
    }
    store.upsert(rec);
    state.increment_total_bridged();
    Ok(ReputationBridged { source_agent: event_agent, score, source_chain: origin, nonce })
}

/// Answers a query for the record under (source_chain, agent): the committed
/// fields when one exists, `NotFound` otherwise. A pure read.
pub fn query_reputation(
    store: &ReputationStore,
    source_chain: u32,
    agent: &Vec<u8>,
) -> (r: Result<BridgedReputationData, RepBridgeError>)
    requires
        store.wf(),
    ensures
        match (r, query_verdict(store@, source_chain, agent@)) {
            (Ok(d), Ok(v)) => d@ == v,
            (Err(e1), Err(e2)) => e1 == e2,
            _ => false,
        },
{
    match store.get(source_chain, agent) {
        None => Err(RepBridgeError::NotFound),
        Some(rec) => {
            let d = BridgedReputationData {
                source_agent: slice_to_vec(rec.source_agent.as_slice()),
                score: rec.score,
                source_chain: rec.source_chain,
                timestamp: rec.timestamp,
                nonce: rec.nonce,
            };
            proof {
                assert(d@ =~= query_verdict(store@, source_chain, agent@)->Ok_0);
            }
            Ok(d)
        },
    }
}

/// Switches acceptance off or on. Only the admin may call this; anyone else
/// is refused with `Unauthorized` and nothing changes.
pub fn set_paused(state: &mut ProgramState, caller: [u8; 32], paused: bool) -> (r: Result<
    (),
    RepBridgeError,
>)
    ensures
        final(state).admin == old(state).admin,
        final(state).total_bridged == old(state).total_bridged,
        match r {
            Ok(()) => caller@ == old(state).admin@ && final(state).paused == paused,
            Err(e) => {
                &&& e == RepBridgeError::Unauthorized
                &&& caller@ != old(state).admin@
                &&& final(state).paused == old(state).paused
            },
        },
{
    if !id_matches(&caller, &state.admin) {
        return Err(RepBridgeError::Unauthorized);
    }
    state.paused = paused;
    Ok(())
}

} // verus!
