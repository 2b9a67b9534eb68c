//! The course of one request for a circuit through the relay.
//!
//! A request is received, held against the relay's policy and limits, and
//! either rejected or handed on to the destination. While the destination
//! is asked the request may still be rejected; if the destination accepts,
//! the circuit is active until it is closed.

use crate::behaviour::{BehaviourView, CircuitId, CircuitStatus};
use vstd::prelude::*;

verus! {

/// Where a request stands.
#[derive(Debug, Clone, Copy, PartialEq, Eq, Structural)]
pub enum RequestState {
    /// Nothing has been received yet.
    Idle,
    /// The request is held against the relay's policy and limits.
    AwaitingPolicyCheck,
    /// The destination is asked.
    AwaitingDownstream,
    /// The request was rejected.
    Rejected,
    /// The circuit is active.
    CircuitActive,
    /// The circuit was closed.
    Closed,
}

/// What happens to a request.
#[derive(Debug, Clone, Copy, PartialEq, Eq, Structural)]
pub enum RequestEvent {
    /// The request has arrived.
    Received,
    /// The policy or a limit of the relay stands against the request.
    Denied,
    /// Nothing stands against the request; a slot was taken for it.
    Admitted,
    /// The destination has accepted.
    DownstreamAccepted,
    /// The destination cannot be reached, has refused, or has not answered
    /// in time.
    DownstreamFailed,
    /// A substream of the circuit has closed or failed, or the circuit has
    /// run into a limit.
    CircuitEnded,
}

impl RequestState {
    /// Whether nothing can happen to a request in this state any more.
    pub open spec fn terminal(self) -> bool {
        self == RequestState::Rejected || self == RequestState::Closed
    }

    /// Whether a request in this state holds a slot in the relay's table of
    /// circuits.
    pub open spec fn holds_slot(self) -> bool {
        self == RequestState::AwaitingDownstream || self == RequestState::CircuitActive
    }

    /// The state that `event` takes a request in this state to, if the
    /// event can happen in this state.
    pub open spec fn after(self, event: RequestEvent) -> Option<RequestState> {
        match (self, event) {
            (RequestState::Idle, RequestEvent::Received) => Some(RequestState::AwaitingPolicyCheck),
            (RequestState::AwaitingPolicyCheck, RequestEvent::Denied) => Some(
                RequestState::Rejected,
            ),
            (RequestState::AwaitingPolicyCheck, RequestEvent::Admitted) => Some(
                RequestState::AwaitingDownstream,
            ),
            (RequestState::AwaitingDownstream, RequestEvent::DownstreamAccepted) => Some(
                RequestState::CircuitActive,
            ),
            (RequestState::AwaitingDownstream, RequestEvent::DownstreamFailed) => Some(
                RequestState::Rejected,
            ),
            (RequestState::AwaitingDownstream, RequestEvent::Denied) => Some(
                RequestState::Rejected,
            ),
            (RequestState::CircuitActive, RequestEvent::CircuitEnded) => Some(RequestState::Closed),
            _ => None,
        }
    }

    /// The state that `event` takes a request in this state to, if the
    /// event can happen in this state.
    pub fn next(self, event: RequestEvent) -> (next: Option<RequestState>)
        ensures
            next == self.after(event),
    {
        match (self, event) {
            (RequestState::Idle, RequestEvent::Received) => Some(RequestState::AwaitingPolicyCheck),
            (RequestState::AwaitingPolicyCheck, RequestEvent::Denied) => Some(
                RequestState::Rejected,
            ),
            (RequestState::AwaitingPolicyCheck, RequestEvent::Admitted) => Some(
                RequestState::AwaitingDownstream,
            ),
            (RequestState::AwaitingDownstream, RequestEvent::DownstreamAccepted) => Some(
                RequestState::CircuitActive,
            ),
            (RequestState::AwaitingDownstream, RequestEvent::DownstreamFailed) => Some(
                RequestState::Rejected,
            ),
            (RequestState::AwaitingDownstream, RequestEvent::Denied) => Some(
                RequestState::Rejected,
            ),
            (RequestState::CircuitActive, RequestEvent::CircuitEnded) => Some(RequestState::Closed),
            _ => None,
        }
    }

    /// Whether nothing can happen to a request in this state any more.
    pub fn is_terminal(self) -> (terminal: bool)
        ensures
            terminal == self.terminal(),
    {
        match self {
            RequestState::Rejected | RequestState::Closed => true,
            _ => false,
        }
    }
}

/// Where the request that the circuit `id` belongs to stands according to
/// the relay's table, if the table holds a slot for it.
pub open spec fn state_in(relay: BehaviourView, id: CircuitId) -> Option<RequestState> {
    if relay.awaits(id) {
        Some(RequestState::AwaitingDownstream)
    } else if relay.has_circuit(id) {
        Some(RequestState::CircuitActive)
    } else {
        None
    }
}

/// Nothing happens to a request that was rejected or whose circuit was
/// closed, and only such a request has nothing more to expect.
pub proof fn lemma_terminal_states(state: RequestState)
    ensures
        state.terminal() <==> forall|event: RequestEvent| state.after(event) is None,
{
    if !state.terminal() {
        let event = match state {
            RequestState::Idle => RequestEvent::Received,
            RequestState::AwaitingPolicyCheck => RequestEvent::Denied,
            RequestState::AwaitingDownstream => RequestEvent::DownstreamFailed,
            _ => RequestEvent::CircuitEnded,
        };
        assert(state.after(event) is Some);
    }
}

/// A request comes to hold a slot only by being admitted, and gives it up
/// with every step that ends it: no slot is held without a request that
/// waits for its destination or has its circuit.
pub proof fn lemma_slot_follows_request(state: RequestState, event: RequestEvent)
    requires
        state.after(event) is Some,
    ensures
        ({
            let next = state.after(event).unwrap();
            &&& !state.holds_slot() && next.holds_slot() ==> event == RequestEvent::Admitted
            &&& next.terminal() ==> !next.holds_slot()
            &&& next == RequestState::CircuitActive ==> state == RequestState::AwaitingDownstream
                && event == RequestEvent::DownstreamAccepted
        }),
{
}

/// The relay's table moves as the request does. When the destination's
/// answer is taken note of for a slot that waits, the slot becomes an active
/// circuit if it accepted and is given up if it did not; when an active
/// circuit is closed, its slot is given up.
pub proof fn lemma_table_follows_request(
    relay: BehaviourView,
    id: CircuitId,
    accepted: bool,
    now: u64,
)
    requires
        relay.wf(),
    ensures
        state_in(relay, id) == Some(RequestState::AwaitingDownstream) ==> state_in(
            relay.stop_result(id, accepted, now),
            id,
        ) == if accepted {
            Some(RequestState::CircuitActive)
        } else {
            None
        },
        state_in(relay.close_circuit(id), id) is None,
{
    let closed = relay.close_circuit(id);
    crate::behaviour::lemma_closed_is_gone(relay, id);
    if relay.awaits(id) {
        let i = choose|i: int|
            0 <= i < relay.circuits.len() && #[trigger] relay.circuits[i].id == id
                && relay.circuits[i].status == CircuitStatus::Accepting;
        if accepted {
            let after = relay.stop_result(id, accepted, now);
            assert(after.circuits[i].id == id);
            assert(after.circuits[i].status == CircuitStatus::Accepted);
            if after.awaits(id) {
                let j = choose|j: int|
                    0 <= j < after.circuits.len() && #[trigger] after.circuits[j].id == id
                        && after.circuits[j].status == CircuitStatus::Accepting;
                assert(relay.circuits[j].id == id);
            }
        }
    }
}

} // verus!
