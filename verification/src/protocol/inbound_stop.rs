//! The destination's side of the stop protocol: what a relay asks for, and
//! how the destination words its answer.

use crate::address::PeerId;
use crate::protocol::message::{
    DecodeError, Limit, StopMessage, StopMessageView, StopType,
};
use crate::protocol::Status;
use vstd::prelude::*;

verus! {

/// Why a request cannot be answered in order. The substream is closed.
#[derive(Debug, Clone, Copy, PartialEq, Eq, Structural)]
pub enum FatalUpgradeError {
    /// The bytes are no message.
    Decode(DecodeError),
    /// The request names no source.
    MissingPeer,
    /// The source that the request names is no peer.
    ParsePeerId,
    /// A status came where a request was due.
    UnexpectedTypeStatus,
}

/// A circuit that a relay offers to the destination.
#[derive(Debug)]
pub struct Circuit {
    /// The peer that asked for the circuit.
    pub src_peer_id: PeerId,
    /// The limits that the relay proposes.
    pub limit: Option<Limit>,
}

/// A circuit that a relay offers, as a mathematical value.
pub struct CircuitView {
    pub src_peer_id: Seq<u8>,
    pub limit: Option<Limit>,
}

impl View for Circuit {
    type V = CircuitView;

    open spec fn view(&self) -> CircuitView {
        CircuitView { src_peer_id: self.src_peer_id@, limit: self.limit }
    }
}

/// The circuit that `message` offers. A request has to name its source; a
/// status is no request.
pub open spec fn request_of(message: StopMessageView) -> Result<CircuitView, FatalUpgradeError> {
    match message.type_pb {
        StopType::Connect => match message.peer {
            None => Err(FatalUpgradeError::MissingPeer),
            Some(peer) => if peer.id.len() == 0 {
                Err(FatalUpgradeError::ParsePeerId)
            } else {
                Ok(CircuitView { src_peer_id: peer.id, limit: message.limit })
            },
        },
        StopType::Status => Err(FatalUpgradeError::UnexpectedTypeStatus),
    }
}

/// The circuit that `bytes` offer.
pub open spec fn parse_request(bytes: Seq<u8>) -> Result<CircuitView, FatalUpgradeError> {
    match StopMessageView::parse(bytes) {
        Err(e) => Err(FatalUpgradeError::Decode(e)),
        Ok(message) => request_of(message),
    }
}

/// The answer that carries nothing but `status`.
pub open spec fn status_message(status: Status) -> StopMessageView {
    StopMessageView { type_pb: StopType::Status, peer: None, limit: None, status: Some(status) }
}

/// Reads the circuit that `message` offers.
pub fn read_request(message: &StopMessage) -> (circuit: Result<Circuit, FatalUpgradeError>)
    ensures
        match circuit {
            Ok(c) => request_of(message@) == Ok::<CircuitView, FatalUpgradeError>(c@),
            Err(e) => request_of(message@) == Err::<CircuitView, FatalUpgradeError>(e),
        },
{
    match message.type_pb {
        StopType::Connect => match &message.peer {
            None => Err(FatalUpgradeError::MissingPeer),
            Some(peer) => {
                if peer.id.len() == 0 {
                    Err(FatalUpgradeError::ParsePeerId)
                } else {
                    Ok(
                        Circuit {
                            src_peer_id: PeerId::from_bytes(peer.id.clone()),
                            limit: message.limit,
                        },
                    )
                }
            },
        },
        StopType::Status => Err(FatalUpgradeError::UnexpectedTypeStatus),
    }
}

/// Reads the circuit that `bytes` offer.
pub fn receive(bytes: &[u8]) -> (circuit: Result<Circuit, FatalUpgradeError>)
    ensures
        match circuit {
            Ok(c) => parse_request(bytes@) == Ok::<CircuitView, FatalUpgradeError>(c@),
            Err(e) => parse_request(bytes@) == Err::<CircuitView, FatalUpgradeError>(e),
        },
{
    match StopMessage::decode(bytes) {
        Err(e) => Err(FatalUpgradeError::Decode(e)),
        Ok(message) => read_request(&message),
    }
}

/// The answer that carries nothing but `status`.
pub fn respond(status: Status) -> (message: StopMessage)
    ensures
        message@ == status_message(status),
{
    StopMessage { type_pb: StopType::Status, peer: None, limit: None, status: Some(status) }
}

/// The answer of a destination that has made up its mind about the circuit:
/// success if it accepts, a denial if it does not.
pub fn answer(accept: bool) -> (message: StopMessage)
    ensures
        message@ == status_message(
            if accept {
                Status::Success
            } else {
                Status::PermissionDenied
            },
        ),
{
    if accept {
        respond(Status::Success)
    } else {
        respond(Status::PermissionDenied)
    }
}

} // verus!
