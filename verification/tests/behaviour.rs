use circuit_relay::address::PeerId;
use circuit_relay::behaviour::{
    Behaviour, CircuitId, CircuitStatus, Config, ConnectOutcome, ReserveOutcome,
};
use circuit_relay::copy::CopyState;
use circuit_relay::protocol::Status;
use circuit_relay::RequestId;

fn peer(n: u8) -> PeerId {
    PeerId::from_bytes(vec![0, 1, n])
}

fn small() -> Config {
    Config {
        max_reservations: 2,
        max_circuits: 3,
        max_circuits_per_peer: 2,
        max_circuit_duration: 120,
        max_circuit_bytes: 1000,
        reservation_duration: 3600,
        max_message_size: 4096,
    }
}

fn relay() -> Behaviour {
    Behaviour::new(peer(0), small())
}

fn dial(id: u64) -> ConnectOutcome {
    ConnectOutcome::Dial { circuit: CircuitId(id), max_duration: 120, max_bytes: 1000 }
}

#[test]
fn default_config_has_the_usual_limits() {
    let config = Config::default();
    assert_eq!(config.max_reservations, 128);
    assert_eq!(config.max_circuits, 16);
    assert_eq!(config.max_circuits_per_peer, 4);
    assert_eq!(config.max_circuit_duration, 120);
    assert_eq!(config.max_circuit_bytes, 1 << 17);
    assert_eq!(config.reservation_duration, 3600);
    assert_eq!(config.max_message_size, 4096);
}

#[test]
fn a_new_relay_serves_nobody() {
    let relay = relay();
    assert_eq!(relay.reservation_count(), 0);
    assert_eq!(relay.circuit_count(), 0);
    assert_eq!(relay.config(), small());
    assert!(!relay.has_reservation(&peer(1)));
    assert_eq!(relay.circuit_status(CircuitId(1)), None);
    assert_eq!(relay.circuits_from(&peer(1)), 0);
}

#[test]
fn a_reservation_is_good_for_the_configured_time() {
    let mut relay = relay();
    assert_eq!(
        relay.on_reserve(&peer(1), true, vec![7], 1000),
        ReserveOutcome::Accepted { expire: 4600, renewed: false }
    );
    assert!(relay.has_reservation(&peer(1)));
    assert!(!relay.has_reservation(&peer(2)));
    assert_eq!(relay.reservation_count(), 1);
    assert_eq!(relay.renewal_deadline(&peer(1)), Some(4600));
    assert_eq!(relay.renewal_deadline(&peer(2)), None);
}

#[test]
fn a_second_reserve_of_the_same_peer_replaces_the_first() {
    let mut relay = relay();
    relay.on_reserve(&peer(1), true, vec![], 1000);
    assert_eq!(
        relay.on_reserve(&peer(1), true, vec![], 2000),
        ReserveOutcome::Accepted { expire: 5600, renewed: true }
    );
    assert_eq!(relay.reservation_count(), 1);
    // The first reservation would have ended at 4600; the renewed one has not.
    relay.evict_expired(4600);
    assert!(relay.has_reservation(&peer(1)));
    relay.evict_expired(5600);
    assert!(!relay.has_reservation(&peer(1)));
}

#[test]
fn a_reserve_beyond_the_limit_is_refused_and_changes_nothing() {
    let mut relay = relay();
    relay.on_reserve(&peer(1), true, vec![], 10);
    relay.on_reserve(&peer(2), true, vec![], 10);
    assert_eq!(
        relay.on_reserve(&peer(3), true, vec![], 10),
        ReserveOutcome::Denied(Status::ResourceLimitExceeded)
    );
    assert_eq!(relay.reservation_count(), 2);
    assert!(!relay.has_reservation(&peer(3)));
    // A renewal takes no new place and is granted in a full table.
    assert_eq!(
        relay.on_reserve(&peer(2), true, vec![], 20),
        ReserveOutcome::Accepted { expire: 3620, renewed: true }
    );
    assert_eq!(relay.reservation_count(), 2);
}

#[test]
fn a_reserve_that_the_policy_forbids_is_denied() {
    let mut relay = relay();
    assert_eq!(
        relay.on_reserve(&peer(1), false, vec![], 10),
        ReserveOutcome::Denied(Status::PermissionDenied)
    );
    assert_eq!(relay.reservation_count(), 0);
}

#[test]
fn expired_reservations_are_evicted() {
    let mut relay = relay();
    relay.on_reserve(&peer(1), true, vec![], 0);
    relay.on_reserve(&peer(2), true, vec![], 100);
    relay.evict_expired(3599);
    assert_eq!(relay.reservation_count(), 2);
    relay.evict_expired(3600);
    assert!(!relay.has_reservation(&peer(1)));
    assert!(relay.has_reservation(&peer(2)));
    relay.evict_expired(3700);
    assert_eq!(relay.reservation_count(), 0);
}

#[test]
fn a_connect_takes_a_slot_that_waits_for_the_destination() {
    let mut relay = relay();
    assert_eq!(relay.on_connect_with_id(&peer(1), &peer(2), CircuitId(5), 50), dial(5));
    assert_eq!(relay.circuit_count(), 1);
    assert_eq!(relay.circuits_from(&peer(1)), 1);
    assert_eq!(relay.circuits_from(&peer(2)), 0);
    assert_eq!(relay.circuit_status(CircuitId(5)), Some(CircuitStatus::Accepting));
    assert_eq!(relay.account_for(CircuitId(5)), None);
    assert_eq!(relay.on_stop_result(CircuitId(5), true, 60), Status::Success);
    assert_eq!(relay.circuit_status(CircuitId(5)), Some(CircuitStatus::Accepted));
    assert_eq!(relay.circuit_count(), 1);
    // The circuit counts from the time at which the destination accepted.
    assert_eq!(relay.account_for(CircuitId(5)), Some(CopyState::new(1000, 120, 60)));
    assert_eq!(relay.account_for(CircuitId(6)), None);
}

#[test]
fn a_connect_to_the_relay_or_back_to_the_source_is_denied() {
    let mut relay = relay();
    assert_eq!(
        relay.on_connect_with_id(&peer(1), &peer(0), CircuitId(1), 0),
        ConnectOutcome::Denied(Status::PermissionDenied)
    );
    assert_eq!(
        relay.on_connect_with_id(&peer(1), &peer(1), CircuitId(1), 0),
        ConnectOutcome::Denied(Status::PermissionDenied)
    );
    assert_eq!(relay.circuit_count(), 0);
}

#[test]
fn a_connect_beyond_the_limit_of_its_source_is_refused() {
    let mut relay = relay();
    assert_eq!(relay.on_connect_with_id(&peer(1), &peer(2), CircuitId(1), 0), dial(1));
    assert_eq!(relay.on_connect_with_id(&peer(1), &peer(3), CircuitId(2), 0), dial(2));
    assert_eq!(
        relay.on_connect_with_id(&peer(1), &peer(4), CircuitId(3), 0),
        ConnectOutcome::Denied(Status::ResourceLimitExceeded)
    );
    assert_eq!(relay.circuit_count(), 2);
    assert_eq!(relay.circuits_from(&peer(1)), 2);
    // Another source still has room.
    assert_eq!(relay.on_connect_with_id(&peer(2), &peer(1), CircuitId(3), 0), dial(3));
}

#[test]
fn a_connect_beyond_the_limit_of_the_relay_is_refused() {
    let mut relay = relay();
    assert_eq!(relay.on_connect_with_id(&peer(1), &peer(2), CircuitId(1), 0), dial(1));
    assert_eq!(relay.on_connect_with_id(&peer(2), &peer(3), CircuitId(2), 0), dial(2));
    assert_eq!(relay.on_connect_with_id(&peer(3), &peer(4), CircuitId(3), 0), dial(3));
    assert_eq!(
        relay.on_connect_with_id(&peer(4), &peer(5), CircuitId(4), 0),
        ConnectOutcome::Denied(Status::ResourceLimitExceeded)
    );
    assert_eq!(relay.circuit_count(), 3);
    assert_eq!(relay.circuit_status(CircuitId(4)), None);
}

#[test]
fn a_connect_under_an_identifier_in_use_is_refused() {
    let mut relay = relay();
    assert_eq!(relay.on_connect_with_id(&peer(1), &peer(2), CircuitId(1), 0), dial(1));
    assert_eq!(
        relay.on_connect_with_id(&peer(3), &peer(4), CircuitId(1), 0),
        ConnectOutcome::Denied(Status::ResourceLimitExceeded)
    );
    assert_eq!(relay.circuit_count(), 1);
}

#[test]
fn simultaneous_connects_are_granted_up_to_the_limit_in_any_order() {
    let orders: [[u8; 5]; 3] = [[2, 3, 4, 5, 6], [6, 5, 4, 3, 2], [4, 2, 6, 3, 5]];
    for order in orders {
        let mut relay = Behaviour::new(
            peer(0),
            Config { max_circuits: 10, max_circuits_per_peer: 3, ..small() },
        );
        let mut granted = 0;
        let mut refused = 0;
        for dst in order {
            match relay.on_connect_with_id(&peer(1), &peer(dst), CircuitId(dst as u64), 0) {
                ConnectOutcome::Dial { .. } => granted += 1,
                ConnectOutcome::Denied(status) => {
                    assert_eq!(status, Status::ResourceLimitExceeded);
                    refused += 1;
                }
            }
        }
        assert_eq!(granted, 3);
        assert_eq!(refused, 2);
        assert_eq!(relay.circuit_count(), 3);
        assert_eq!(relay.circuits_from(&peer(1)), 3);
    }
}

#[test]
fn a_connect_draws_its_own_identifier() {
    let mut relay = relay();
    let outcome = relay.on_connect(&peer(1), &peer(2), 0);
    match outcome {
        ConnectOutcome::Dial { circuit, max_duration, max_bytes } => {
            assert_eq!(max_duration, 120);
            assert_eq!(max_bytes, 1000);
            assert_eq!(relay.circuit_status(circuit), Some(CircuitStatus::Accepting));
        }
        ConnectOutcome::Denied(status) => panic!("denied with {:?}", status),
    }
    assert_eq!(
        relay.on_connect(&peer(1), &peer(1), 0),
        ConnectOutcome::Denied(Status::PermissionDenied)
    );
}

#[test]
fn a_destination_that_refuses_frees_the_slot() {
    let mut relay = relay();
    relay.on_connect_with_id(&peer(1), &peer(2), CircuitId(9), 0);
    assert_eq!(relay.on_stop_result(CircuitId(9), false, 1), Status::ConnectionFailed);
    assert_eq!(relay.circuit_count(), 0);
    assert_eq!(relay.circuit_status(CircuitId(9)), None);
    assert_eq!(relay.circuits_from(&peer(1)), 0);
}

#[test]
fn an_answer_for_which_no_slot_waits_is_out_of_place() {
    let mut relay = relay();
    assert_eq!(relay.on_stop_result(CircuitId(1), true, 0), Status::UnexpectedMessage);
    relay.on_connect_with_id(&peer(1), &peer(2), CircuitId(1), 0);
    assert_eq!(relay.on_stop_result(CircuitId(1), true, 0), Status::Success);
    assert_eq!(relay.on_stop_result(CircuitId(1), true, 0), Status::UnexpectedMessage);
    assert_eq!(relay.on_stop_result(CircuitId(1), false, 0), Status::UnexpectedMessage);
    assert_eq!(relay.circuit_status(CircuitId(1)), Some(CircuitStatus::Accepted));
}

#[test]
fn a_closed_circuit_leaves_the_table() {
    let mut relay = relay();
    relay.on_connect_with_id(&peer(1), &peer(2), CircuitId(1), 0);
    relay.on_connect_with_id(&peer(1), &peer(3), CircuitId(2), 0);
    relay.on_stop_result(CircuitId(1), true, 0);
    assert!(relay.on_circuit_closed(CircuitId(1)));
    assert!(!relay.on_circuit_closed(CircuitId(1)));
    assert_eq!(relay.circuit_count(), 1);
    assert_eq!(relay.circuit_status(CircuitId(2)), Some(CircuitStatus::Accepting));
    // The slot is free for a new circuit of the same source.
    assert_eq!(relay.on_connect_with_id(&peer(1), &peer(4), CircuitId(3), 0), dial(3));
}

#[test]
fn a_closed_connection_takes_its_reservation_and_circuits_along() {
    let mut relay = relay();
    relay.on_reserve(&peer(1), true, vec![], 0);
    relay.on_reserve(&peer(2), true, vec![], 0);
    relay.on_connect_with_id(&peer(1), &peer(2), CircuitId(1), 0);
    relay.on_connect_with_id(&peer(3), &peer(1), CircuitId(2), 0);
    relay.on_connect_with_id(&peer(2), &peer(3), CircuitId(3), 0);
    relay.on_connection_closed(&peer(1));
    assert!(!relay.has_reservation(&peer(1)));
    assert!(relay.has_reservation(&peer(2)));
    assert_eq!(relay.circuit_count(), 1);
    assert_eq!(relay.circuit_status(CircuitId(3)), Some(CircuitStatus::Accepting));
}

#[test]
fn request_ids_are_drawn_at_random() {
    let ids = [RequestId::new(), RequestId::new(), RequestId::new(), RequestId::new()];
    assert!(ids.iter().any(|id| *id != ids[0]));
    let id = RequestId::from_u64(77);
    assert_eq!(id.to_u64(), 77);
    assert_eq!(id, RequestId::from_u64(77));
    let circuits = [CircuitId::new(), CircuitId::new(), CircuitId::new(), CircuitId::new()];
    assert!(circuits.iter().any(|id| *id != circuits[0]));
}

#[test]
fn peers_are_told_apart_by_their_bytes() {
    assert!(peer(1).same_as(&peer(1)));
    assert!(!peer(1).same_as(&peer(2)));
    assert!(!peer(1).same_as(&PeerId::from_bytes(vec![0, 1])));
    assert!(PeerId::from_bytes(vec![]).same_as(&PeerId::from_bytes(vec![])));
    assert_eq!(peer(3).clone().to_bytes(), vec![0, 1, 3]);
}
