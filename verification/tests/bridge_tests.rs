use repbridge::codec::encode;
use repbridge::{
    handle_message, initialize, query_reputation, set_paused, ProgramState, RepBridgeError,
    ReputationAttestation, ReputationStore,
};

const ADMIN: [u8; 32] = [7; 32];
const SENDER: [u8; 32] = [2; 32];
const ORIGIN: u32 = 5;
const T: i64 = 1_700_000_000;

fn agent_a() -> Vec<u8> {
    vec![0xA1; 20]
}

fn message(score: u64, nonce: u64, timestamp: i64) -> Vec<u8> {
    encode(&ReputationAttestation {
        agent: agent_a(),
        score,
        source_chain: 9,
        timestamp: timestamp as u64,
        nonce,
        attestation_id: vec![0x33; 32],
    })
}

fn fresh_bridge() -> (ProgramState, ReputationStore) {
    let mut slot: Option<ProgramState> = None;
    initialize(&mut slot, ADMIN).unwrap();
    (slot.unwrap(), ReputationStore::new())
}

#[test]
fn initialize_sets_defaults_and_refuses_a_second_bootstrap() {
    let mut slot: Option<ProgramState> = None;
    initialize(&mut slot, ADMIN).unwrap();
    {
        let state = slot.as_ref().unwrap();
        assert_eq!(state.admin, ADMIN);
        assert!(!state.paused);
        assert_eq!(state.total_bridged, 0);
    }
    assert_eq!(initialize(&mut slot, [9; 32]).unwrap_err(), RepBridgeError::AlreadyInitialized);
    assert_eq!(slot.unwrap().admin, ADMIN);
}

#[test]
fn accept_then_update_then_replay() {
    let (mut state, mut store) = fresh_bridge();

    let ev = handle_message(&mut state, &mut store, ORIGIN, SENDER, message(100, 1, T), T)
        .unwrap();
    assert_eq!(state.total_bridged, 1);
    assert_eq!(ev.source_agent, agent_a());
    assert_eq!(ev.score, 100);
    assert_eq!(ev.source_chain, ORIGIN);
    assert_eq!(ev.nonce, 1);
    let d = query_reputation(&store, ORIGIN, &agent_a()).unwrap();
    assert_eq!(d.score, 100);
    assert_eq!(d.nonce, 1);

    handle_message(&mut state, &mut store, ORIGIN, SENDER, message(150, 2, T + 10), T + 10)
        .unwrap();
    assert_eq!(state.total_bridged, 2);
    let d = query_reputation(&store, ORIGIN, &agent_a()).unwrap();
    assert_eq!(d.score, 150);
    assert_eq!(d.nonce, 2);

    let err = handle_message(&mut state, &mut store, ORIGIN, SENDER, message(175, 2, T + 20), T + 20)
        .unwrap_err();
    assert_eq!(err, RepBridgeError::ReplayedMessage);
    assert_eq!(state.total_bridged, 2);
    let d = query_reputation(&store, ORIGIN, &agent_a()).unwrap();
    assert_eq!(d.score, 150);
    assert_eq!(d.nonce, 2);
}

#[test]
fn lower_nonce_is_replayed_too() {
    let (mut state, mut store) = fresh_bridge();
    handle_message(&mut state, &mut store, ORIGIN, SENDER, message(100, 5, T), T).unwrap();
    let err = handle_message(&mut state, &mut store, ORIGIN, SENDER, message(100, 4, T), T)
        .unwrap_err();
    assert_eq!(err, RepBridgeError::ReplayedMessage);
}

#[test]
fn first_write_accepts_any_nonce() {
    let (mut state, mut store) = fresh_bridge();
    handle_message(&mut state, &mut store, ORIGIN, SENDER, message(100, 0, T), T).unwrap();
    assert_eq!(query_reputation(&store, ORIGIN, &agent_a()).unwrap().nonce, 0);
}

#[test]
fn day_old_attestation_is_stale() {
    let (mut state, mut store) = fresh_bridge();
    let err = handle_message(&mut state, &mut store, ORIGIN, SENDER, message(100, 1, T), T + 90_000)
        .unwrap_err();
    assert_eq!(err, RepBridgeError::StaleAttestation);
    assert_eq!(state.total_bridged, 0);
    assert_eq!(
        query_reputation(&store, ORIGIN, &agent_a()).unwrap_err(),
        RepBridgeError::NotFound
    );
}

#[test]
fn freshness_window_is_closed_open() {
    let (mut state, mut store) = fresh_bridge();
    handle_message(&mut state, &mut store, ORIGIN, SENDER, message(100, 1, T), T).unwrap();
    handle_message(&mut state, &mut store, ORIGIN, SENDER, message(100, 2, T), T + 86_399)
        .unwrap();
    let err = handle_message(&mut state, &mut store, ORIGIN, SENDER, message(100, 3, T), T + 86_400)
        .unwrap_err();
    assert_eq!(err, RepBridgeError::StaleAttestation);
}

#[test]
fn future_timestamp_is_stale() {
    let (mut state, mut store) = fresh_bridge();
    let err = handle_message(&mut state, &mut store, ORIGIN, SENDER, message(100, 1, T), T - 1)
        .unwrap_err();
    assert_eq!(err, RepBridgeError::StaleAttestation);
}

#[test]
fn stale_wins_over_valid_nonce_but_replay_is_checked_first() {
    let (mut state, mut store) = fresh_bridge();
    handle_message(&mut state, &mut store, ORIGIN, SENDER, message(100, 1, T), T).unwrap();
    // Valid (greater) nonce, stale timestamp: rejected as stale.
    let err = handle_message(&mut state, &mut store, ORIGIN, SENDER, message(100, 2, T), T + 90_000)
        .unwrap_err();
    assert_eq!(err, RepBridgeError::StaleAttestation);
    // Replayed nonce and stale timestamp: the replay check is decided first.
    let err = handle_message(&mut state, &mut store, ORIGIN, SENDER, message(100, 1, T), T + 90_000)
        .unwrap_err();
    assert_eq!(err, RepBridgeError::ReplayedMessage);
}

#[test]
fn paused_rejects_even_brand_new_keys() {
    let (mut state, mut store) = fresh_bridge();
    set_paused(&mut state, ADMIN, true).unwrap();
    let err = handle_message(&mut state, &mut store, ORIGIN, SENDER, message(100, 1, T), T)
        .unwrap_err();
    assert_eq!(err, RepBridgeError::Paused);
    assert_eq!(state.total_bridged, 0);
    assert_eq!(
        query_reputation(&store, ORIGIN, &agent_a()).unwrap_err(),
        RepBridgeError::NotFound
    );
}

#[test]
fn pause_toggle_round_trip() {
    let (mut state, mut store) = fresh_bridge();
    set_paused(&mut state, ADMIN, true).unwrap();
    let err = handle_message(&mut state, &mut store, ORIGIN, SENDER, message(100, 1, T), T)
        .unwrap_err();
    assert_eq!(err, RepBridgeError::Paused);
    set_paused(&mut state, ADMIN, false).unwrap();
    handle_message(&mut state, &mut store, ORIGIN, SENDER, message(100, 1, T), T).unwrap();
    assert_eq!(state.total_bridged, 1);
}

#[test]
fn only_admin_may_pause() {
    let (mut state, _) = fresh_bridge();
    let err = set_paused(&mut state, [8; 32], true).unwrap_err();
    assert_eq!(err, RepBridgeError::Unauthorized);
    assert!(!state.paused);
}

#[test]
fn malformed_message_is_invalid() {
    let (mut state, mut store) = fresh_bridge();
    let err = handle_message(&mut state, &mut store, ORIGIN, SENDER, vec![1, 2, 3], T)
        .unwrap_err();
    assert_eq!(err, RepBridgeError::InvalidMessage);
    assert_eq!(state.total_bridged, 0);
}

#[test]
fn rejection_is_idempotent() {
    let (mut state, mut store) = fresh_bridge();
    handle_message(&mut state, &mut store, ORIGIN, SENDER, message(100, 3, T), T).unwrap();
    let replay = message(120, 3, T + 5);
    let first = handle_message(&mut state, &mut store, ORIGIN, SENDER, replay.clone(), T + 5)
        .unwrap_err();
    let second = handle_message(&mut state, &mut store, ORIGIN, SENDER, replay, T + 5)
        .unwrap_err();
    assert_eq!(first, RepBridgeError::ReplayedMessage);
    assert_eq!(first, second);
    assert_eq!(state.total_bridged, 1);
    let d = query_reputation(&store, ORIGIN, &agent_a()).unwrap();
    assert_eq!(d.score, 100);
    assert_eq!(d.nonce, 3);
}

#[test]
fn commit_stores_origin_and_receipt_time_not_payload_claims() {
    let (mut state, mut store) = fresh_bridge();
    // The payload claims source chain 9 and timestamp T; the transport says
    // origin 5 and the message arrives at T + 3.
    handle_message(&mut state, &mut store, ORIGIN, SENDER, message(100, 1, T), T + 3).unwrap();
    let d = query_reputation(&store, ORIGIN, &agent_a()).unwrap();
    assert_eq!(d.source_chain, ORIGIN);
    assert_eq!(d.timestamp, T + 3);
    assert_eq!(d.source_agent, agent_a());
    // The record is keyed by the transport-verified origin: the payload's
    // self-reported chain has nothing stored under it.
    assert_eq!(
        query_reputation(&store, 9, &agent_a()).unwrap_err(),
        RepBridgeError::NotFound
    );
}

#[test]
fn same_agent_on_two_chains_has_independent_replay_state() {
    let (mut state, mut store) = fresh_bridge();
    handle_message(&mut state, &mut store, ORIGIN, SENDER, message(100, 9, T), T).unwrap();
    // Same agent, same nonce, different transport origin: accepted.
    handle_message(&mut state, &mut store, 6, SENDER, message(200, 9, T), T).unwrap();
    assert_eq!(state.total_bridged, 2);
    assert_eq!(query_reputation(&store, ORIGIN, &agent_a()).unwrap().score, 100);
    assert_eq!(query_reputation(&store, 6, &agent_a()).unwrap().score, 200);
}

#[test]
fn query_unknown_key_is_not_found() {
    let (_, store) = fresh_bridge();
    assert_eq!(
        query_reputation(&store, ORIGIN, &agent_a()).unwrap_err(),
        RepBridgeError::NotFound
    );
}
