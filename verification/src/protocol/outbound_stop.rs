//! The relay's side of the stop protocol: how it offers a circuit to the
//! destination, and what it makes of the answer.

use crate::address::PeerId;
use crate::handler::ConnectionHandlerUpgrErr;
use crate::protocol::inbound_hop::{clamp_u32, secs_u32};
use crate::protocol::inbound_stop::{request_of, status_message, CircuitView};
use crate::protocol::message::{
    bytes_views, lemma_peer_bytes_fit, lemma_stop_round_trip, DecodeError, Limit, Peer, PeerView,
    StopMessage, StopMessageView, StopType,
};
use crate::protocol::Status;
use crate::upgrade::UpgradeError as SubstreamError;
use vstd::prelude::*;

verus! {

/// Why a destination took no circuit. The source may ask again.
#[derive(Debug, Clone, Copy, PartialEq, Eq, Structural)]
pub enum CircuitFailedReason {
    /// The destination has no room for another circuit.
    ResourceLimitExceeded,
    /// The destination's policy forbids the circuit.
    PermissionDenied,
}

/// Why an answer cannot be made sense of. The substream is closed.
#[derive(Debug, Clone, Copy, PartialEq, Eq, Structural)]
pub enum FatalUpgradeError {
    /// The bytes are no message.
    Decode(DecodeError),
    /// The answer carries no status.
    MissingStatusField,
    /// A request came where an answer was due.
    UnexpectedTypeConnect,
    /// The status is none that answers this request.
    UnexpectedStatus(Status),
}

/// Why the offer of a circuit came to nothing.
#[derive(Debug, Clone, Copy, PartialEq, Eq, Structural)]
pub enum UpgradeError {
    CircuitFailed(CircuitFailedReason),
    Fatal(FatalUpgradeError),
}

impl UpgradeError {
    /// Whether the offer has failed for good. An offer that the destination
    /// has denied may be made again.
    pub open spec fn fatal(self) -> bool {
        self is Fatal
    }

    /// Whether the offer has failed for good.
    pub fn is_fatal(&self) -> (fatal: bool)
        ensures
            fatal == self.fatal(),
    {
        match self {
            UpgradeError::Fatal(_) => true,
            _ => false,
        }
    }
}

/// Whether an offer whose substream could not be upgraded has failed for
/// good: it has if the exchange took too long, if no protocol was agreed on,
/// or if the answer made no sense. Either way the slot that was taken for
/// the circuit is to be given up.
pub fn exchange_is_fatal(error: &ConnectionHandlerUpgrErr<UpgradeError>) -> (fatal: bool)
    ensures
        fatal == match *error {
            ConnectionHandlerUpgrErr::Upgrade(SubstreamError::Apply(e)) => e.fatal(),
            _ => true,
        },
{
    match error {
        ConnectionHandlerUpgrErr::Upgrade(SubstreamError::Apply(e)) => e.is_fatal(),
        _ => true,
    }
}

/// The offer of a circuit from `src_peer_id` with the given limits.
pub open spec fn request_message(
    src_peer_id: Seq<u8>,
    max_circuit_duration: u64,
    max_circuit_bytes: u64,
) -> StopMessageView {
    StopMessageView {
        type_pb: StopType::Connect,
        peer: Some(PeerView { id: src_peer_id, addrs: Seq::empty() }),
        limit: Some(
            Limit { duration: Some(clamp_u32(max_circuit_duration)), data: Some(max_circuit_bytes) },
        ),
        status: None,
    }
}

/// What the answer `response` to the offer of a circuit comes to.
///
/// Only a status answers an offer. With the status of success the
/// destination has taken the circuit. The statuses that deny it leave the
/// source free to ask again; any other status is out of place.
pub open spec fn result(response: StopMessageView) -> Result<(), UpgradeError> {
    match response.type_pb {
        StopType::Connect => Err(UpgradeError::Fatal(FatalUpgradeError::UnexpectedTypeConnect)),
        StopType::Status => match response.status {
            None => Err(UpgradeError::Fatal(FatalUpgradeError::MissingStatusField)),
            Some(Status::Success) => Ok(()),
            Some(Status::ResourceLimitExceeded) => Err(
                UpgradeError::CircuitFailed(CircuitFailedReason::ResourceLimitExceeded),
            ),
            Some(Status::PermissionDenied) => Err(
                UpgradeError::CircuitFailed(CircuitFailedReason::PermissionDenied),
            ),
            Some(status) => Err(UpgradeError::Fatal(FatalUpgradeError::UnexpectedStatus(status))),
        },
    }
}

/// What the answer that `bytes` stand for comes to.
pub open spec fn parse_result(bytes: Seq<u8>) -> Result<(), UpgradeError> {
    match StopMessageView::parse(bytes) {
        Err(e) => Err(UpgradeError::Fatal(FatalUpgradeError::Decode(e))),
        Ok(response) => result(response),
    }
}

/// The offer of a circuit from `src_peer_id` that may last
/// `max_circuit_duration` seconds and carry `max_circuit_bytes` bytes.
pub fn request(src_peer_id: &PeerId, max_circuit_duration: u64, max_circuit_bytes: u64) -> (message:
    StopMessage)
    ensures
        message@ == request_message(src_peer_id@, max_circuit_duration, max_circuit_bytes),
{
    let addrs: Vec<Vec<u8>> = Vec::new();
    assert(bytes_views(addrs@) =~= Seq::empty());
    StopMessage {
        type_pb: StopType::Connect,
        peer: Some(Peer { id: src_peer_id.to_bytes(), addrs }),
        limit: Some(
            Limit { duration: Some(secs_u32(max_circuit_duration)), data: Some(max_circuit_bytes) },
        ),
        status: None,
    }
}

/// Makes sense of the answer `response` to the offer of a circuit.
pub fn handle_response(response: &StopMessage) -> (outcome: Result<(), UpgradeError>)
    ensures
        outcome == result(response@),
{
    match response.type_pb {
        StopType::Connect => Err(UpgradeError::Fatal(FatalUpgradeError::UnexpectedTypeConnect)),
        StopType::Status => match response.status {
            None => Err(UpgradeError::Fatal(FatalUpgradeError::MissingStatusField)),
            Some(Status::Success) => Ok(()),
            Some(Status::ResourceLimitExceeded) => Err(
                UpgradeError::CircuitFailed(CircuitFailedReason::ResourceLimitExceeded),
            ),
            Some(Status::PermissionDenied) => Err(
                UpgradeError::CircuitFailed(CircuitFailedReason::PermissionDenied),
            ),
            Some(status) => Err(UpgradeError::Fatal(FatalUpgradeError::UnexpectedStatus(status))),
        },
    }
}

/// Makes sense of the answer that `bytes` stand for.
pub fn receive(bytes: &[u8]) -> (outcome: Result<(), UpgradeError>)
    ensures
        outcome == parse_result(bytes@),
{
    match StopMessage::decode(bytes) {
        Err(e) => Err(UpgradeError::Fatal(FatalUpgradeError::Decode(e))),
        Ok(response) => handle_response(&response),
    }
}

/// A destination reads the offer of a circuit as the relay meant it: from
/// the same source, which has to be named, and with the same limits. This
/// holds of what arrives on the wire too.
pub proof fn lemma_offer_is_understood(
    src_peer_id: Seq<u8>,
    max_circuit_duration: u64,
    max_circuit_bytes: u64,
)
    requires
        0 < src_peer_id.len(),
        src_peer_id.len() + 11 <= u64::MAX,
    ensures
        ({
            let offer = request_message(src_peer_id, max_circuit_duration, max_circuit_bytes);
            &&& request_of(offer) == Ok::<CircuitView, super::inbound_stop::FatalUpgradeError>(
                CircuitView { src_peer_id, limit: offer.limit },
            )
            &&& StopMessageView::parse(offer.bytes()) == Ok::<StopMessageView, DecodeError>(offer)
        }),
{
    let offer = request_message(src_peer_id, max_circuit_duration, max_circuit_bytes);
    lemma_peer_bytes_fit(offer.peer.unwrap());
    lemma_stop_round_trip(offer);
}

/// A relay makes of the destination's answer what the destination meant by
/// it: the circuit is taken exactly if the destination accepted.
pub proof fn lemma_answer_is_understood(accept: bool)
    ensures
        result(
            status_message(
                if accept {
                    Status::Success
                } else {
                    Status::PermissionDenied
                },
            ),
        ) is Ok == accept,
{
}

} // verus!
