use circuit_relay::address::PeerId;
use circuit_relay::behaviour::{
    Behaviour, CircuitId, CircuitStatus, Config, ConnectOutcome, ReserveOutcome,
};
use circuit_relay::copy::{CopyAction, CopyEnd, CopyEvent, CopyState, Limit, Side};
use circuit_relay::protocol::message::{read_frame, write_frame, HopMessage, StopMessage};
use circuit_relay::protocol::{
    inbound_hop, inbound_stop, outbound_hop, outbound_stop, Status, MAX_MESSAGE_SIZE,
};

const NOW: u64 = 1_700_000_000;

fn relay_id() -> PeerId {
    PeerId::from_bytes(vec![0x12, 0x01, 0xaa])
}

fn source_id() -> PeerId {
    PeerId::from_bytes(vec![0x12, 0x01, 0xbb])
}

fn destination_id() -> PeerId {
    PeerId::from_bytes(vec![0x12, 0x01, 0xcc])
}

/// What travels over a substream for `message`.
fn send_hop(message: &HopMessage) -> Vec<u8> {
    write_frame(&message.encode())
}

fn send_stop(message: &StopMessage) -> Vec<u8> {
    write_frame(&message.encode())
}

/// The bytes of the one message that `wire` holds.
fn body(wire: &[u8]) -> &[u8] {
    let (from, to) = read_frame(wire, MAX_MESSAGE_SIZE).unwrap();
    assert_eq!(to, wire.len());
    &wire[from..to]
}

/// Plays a request for a circuit from the source to the destination through
/// `relay`, with a destination that accepts or not, and gives what the
/// source makes of the relay's answer, and the circuit if one was opened.
fn connect(
    relay: &mut Behaviour,
    accept: bool,
) -> (Result<outbound_hop::Output, outbound_hop::UpgradeError>, Option<CircuitId>) {
    let upgrade = outbound_hop::Upgrade::Connect { dst_peer_id: destination_id() };
    let wire = send_hop(&upgrade.request());

    // The relay reads the request and takes a slot.
    let dst = match inbound_hop::receive(body(&wire)) {
        Ok(inbound_hop::Req::Connect { dst }) => dst,
        other => panic!("{:?}", other),
    };
    assert!(dst.same_as(&destination_id()));
    let (circuit, max_duration, max_bytes) = match relay.on_connect(&source_id(), &dst, NOW) {
        ConnectOutcome::Dial { circuit, max_duration, max_bytes } => {
            (circuit, max_duration, max_bytes)
        }
        ConnectOutcome::Denied(status) => panic!("{:?}", status),
    };
    assert_eq!(relay.circuit_status(circuit), Some(CircuitStatus::Accepting));

    // The relay offers the circuit to the destination.
    let wire = send_stop(&outbound_stop::request(&source_id(), max_duration, max_bytes));
    let offered = inbound_stop::receive(body(&wire)).unwrap();
    assert!(offered.src_peer_id.same_as(&source_id()));
    let wire = send_stop(&inbound_stop::answer(accept));

    // The relay takes note of the answer and tells the source.
    let answer = outbound_stop::receive(body(&wire));
    assert_eq!(answer.is_ok(), accept);
    let status = relay.on_stop_result(circuit, answer.is_ok(), NOW);
    let wire = send_hop(&inbound_hop::respond(status));
    let outcome = upgrade.receive(body(&wire), NOW);
    (outcome, if accept { Some(circuit) } else { None })
}

#[test]
fn a_source_reserves_connects_and_sends_ten_bytes() {
    let mut relay = Behaviour::new(relay_id(), Config::default());

    // RESERVE, answered with a reservation that is good for one hour.
    let reserve = outbound_hop::Upgrade::Reserve;
    let wire = send_hop(&reserve.request());
    assert!(matches!(inbound_hop::receive(body(&wire)), Ok(inbound_hop::Req::Reserve)));
    let outcome = relay.on_reserve(&source_id(), true, vec![0xde, 0xad], NOW);
    assert_eq!(outcome, ReserveOutcome::Accepted { expire: NOW + 3600, renewed: false });
    let config = relay.config();
    let wire = send_hop(&inbound_hop::respond_reserve(
        outcome,
        vec![vec![4, 10, 0, 0, 1]],
        Some(vec![0xde, 0xad]),
        config.max_circuit_duration,
        config.max_circuit_bytes,
    ));
    match reserve.receive(body(&wire), NOW) {
        Ok(outbound_hop::Output::Reservation { renewal_timeout, addrs, .. }) => {
            assert_eq!(renewal_timeout, 3600);
            assert_eq!(addrs, vec![vec![4, 10, 0, 0, 1]]);
        }
        other => panic!("{:?}", other),
    }
    assert!(relay.has_reservation(&source_id()));
    assert_eq!(relay.renewal_deadline(&source_id()), Some(NOW + 3600));

    // CONNECT, handed on to a destination that accepts.
    let (outcome, circuit) = connect(&mut relay, true);
    assert!(matches!(outcome, Ok(outbound_hop::Output::Circuit { limit: None })));
    let circuit = circuit.unwrap();
    assert_eq!(relay.circuit_status(circuit), Some(CircuitStatus::Accepted));
    assert_eq!(relay.circuit_count(), 1);

    // Ten bytes from the source arrive at the destination as they were sent.
    let mut account = relay.account_for(circuit).unwrap();
    assert_eq!(
        account,
        CopyState::new(config.max_circuit_bytes, config.max_circuit_duration, NOW)
    );
    let sent: Vec<u8> = vec![1, 2, 3, 4, 5, 6, 7, 8, 9, 10];
    let mut at_destination: Vec<u8> = Vec::new();
    let mut at_source: Vec<u8> = Vec::new();
    let chunk = &sent[..sent.len().min(account.chunk_len())];
    match account.on_event(CopyEvent::Read { from: Side::Source, len: chunk.len() }, NOW + 1) {
        CopyAction::Forward { to: Side::Destination, len } => {
            at_destination.extend_from_slice(&chunk[..len])
        }
        other => panic!("{:?}", other),
    }
    assert_eq!(at_destination, sent);

    // And the other way round.
    let reply: Vec<u8> = vec![42; 3];
    match account.on_event(CopyEvent::Read { from: Side::Destination, len: 3 }, NOW + 2) {
        CopyAction::Forward { to: Side::Source, len } => at_source.extend_from_slice(&reply[..len]),
        other => panic!("{:?}", other),
    }
    assert_eq!(at_source, reply);
    assert_eq!(account.relayed(), 13);
}

#[test]
fn a_destination_that_rejects_leaves_no_circuit_behind() {
    let mut relay = Behaviour::new(relay_id(), Config::default());
    let (outcome, circuit) = connect(&mut relay, false);
    assert_eq!(
        outcome.err(),
        Some(outbound_hop::UpgradeError::CircuitFailed(
            outbound_hop::CircuitFailedReason::ConnectionFailed
        ))
    );
    assert_eq!(circuit, None);
    assert_eq!(relay.circuit_count(), 0);
    assert_eq!(relay.circuits_from(&source_id()), 0);
    assert_eq!(Status::ConnectionFailed.code(), 203);
}

#[test]
fn a_circuit_that_idles_past_its_duration_is_closed_and_removed() {
    let mut relay = Behaviour::new(relay_id(), Config::default());
    let (_, circuit) = connect(&mut relay, true);
    let circuit = circuit.unwrap();
    let config = relay.config();
    let mut account = relay.account_for(circuit).unwrap();

    // What was sent before the cutoff has arrived.
    let sent: Vec<u8> = vec![9; 100];
    let mut at_destination: Vec<u8> = Vec::new();
    match account.on_event(CopyEvent::Read { from: Side::Source, len: 100 }, NOW + 5) {
        CopyAction::Forward { to: Side::Destination, len } => {
            at_destination.extend_from_slice(&sent[..len])
        }
        other => panic!("{:?}", other),
    }
    assert_eq!(at_destination, sent);

    // Then nothing happens until the circuit has lasted as long as it may.
    let due = NOW + config.max_circuit_duration;
    assert_eq!(account.on_event(CopyEvent::Tick, due - 1), CopyAction::Wait);
    assert_eq!(
        account.on_event(CopyEvent::Tick, due),
        CopyAction::Close(CopyEnd::LimitReached(Limit::Duration))
    );
    assert_eq!(account.relayed(), 100);
    assert_eq!(at_destination, sent);

    // Both substreams are closed, and the circuit leaves the table.
    assert!(relay.on_circuit_closed(circuit));
    assert_eq!(relay.circuit_count(), 0);
    assert_eq!(relay.circuit_status(circuit), None);
}
