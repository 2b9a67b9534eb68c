use circuit_relay::request::{RequestEvent, RequestState};

const STATES: [RequestState; 6] = [
    RequestState::Idle,
    RequestState::AwaitingPolicyCheck,
    RequestState::AwaitingDownstream,
    RequestState::Rejected,
    RequestState::CircuitActive,
    RequestState::Closed,
];

const EVENTS: [RequestEvent; 6] = [
    RequestEvent::Received,
    RequestEvent::Denied,
    RequestEvent::Admitted,
    RequestEvent::DownstreamAccepted,
    RequestEvent::DownstreamFailed,
    RequestEvent::CircuitEnded,
];

#[test]
fn a_request_that_is_granted_runs_its_course() {
    let mut state = RequestState::Idle;
    for (event, expected) in [
        (RequestEvent::Received, RequestState::AwaitingPolicyCheck),
        (RequestEvent::Admitted, RequestState::AwaitingDownstream),
        (RequestEvent::DownstreamAccepted, RequestState::CircuitActive),
        (RequestEvent::CircuitEnded, RequestState::Closed),
    ] {
        state = state.next(event).unwrap();
        assert_eq!(state, expected);
    }
    assert!(state.is_terminal());
}

#[test]
fn a_request_can_be_rejected_before_and_while_the_destination_is_asked() {
    assert_eq!(
        RequestState::AwaitingPolicyCheck.next(RequestEvent::Denied),
        Some(RequestState::Rejected)
    );
    assert_eq!(
        RequestState::AwaitingDownstream.next(RequestEvent::DownstreamFailed),
        Some(RequestState::Rejected)
    );
    assert_eq!(
        RequestState::AwaitingDownstream.next(RequestEvent::Denied),
        Some(RequestState::Rejected)
    );
}

#[test]
fn nothing_happens_in_a_terminal_state() {
    for state in STATES {
        let stuck = EVENTS.iter().all(|event| state.next(*event).is_none());
        assert_eq!(stuck, state.is_terminal());
        assert_eq!(
            state.is_terminal(),
            state == RequestState::Rejected || state == RequestState::Closed
        );
    }
}

#[test]
fn exactly_seven_steps_exist() {
    let mut steps = 0;
    for state in STATES {
        for event in EVENTS {
            if state.next(event).is_some() {
                steps += 1;
            }
        }
    }
    assert_eq!(steps, 7);
    assert_eq!(RequestState::Idle.next(RequestEvent::Admitted), None);
    assert_eq!(RequestState::CircuitActive.next(RequestEvent::DownstreamAccepted), None);
}
