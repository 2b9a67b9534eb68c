//! The relay's side of the hop protocol: what a peer asks for, and how the
//! relay words its answer.

use crate::address::PeerId;
use crate::behaviour::ReserveOutcome;
use crate::protocol::message::{
    bytes_views, option_view, DecodeError, HopMessage, HopMessageView, HopType, Limit,
    Reservation, ReservationView,
};
use crate::protocol::Status;
use vstd::prelude::*;

verus! {

/// Why a request cannot be answered in order. The substream is closed.
#[derive(Debug, Clone, Copy, PartialEq, Eq, Structural)]
pub enum FatalUpgradeError {
    /// The bytes are no message.
    Decode(DecodeError),
    /// A request for a circuit names no destination.
    MissingPeer,
    /// The destination that a request names is no peer.
    ParsePeerId,
    /// A status came where a request was due.
    UnexpectedTypeStatus,
}

/// What a peer asks of the relay.
#[derive(Debug)]
pub enum Req {
    /// A reservation.
    Reserve,
    /// A circuit to `dst`.
    Connect { dst: PeerId },
}

/// `secs`, or the largest number of 32 bits if `secs` is larger.
pub open spec fn clamp_u32(secs: u64) -> u32 {
    if secs > u32::MAX {
        u32::MAX
    } else {
        secs as u32
    }
}

/// `secs`, or the largest number of 32 bits if `secs` is larger.
pub fn secs_u32(secs: u64) -> (clamped: u32)
    ensures
        clamped == clamp_u32(secs),
{
    if secs > u32::MAX as u64 {
        u32::MAX
    } else {
        secs as u32
    }
}

/// The answer that grants a reservation until `expire` and names `addrs`,
/// `voucher` and the limits of circuits.
pub open spec fn grant_message(
    expire: u64,
    addrs: Seq<Seq<u8>>,
    voucher: Option<Seq<u8>>,
    max_circuit_duration: u64,
    max_circuit_bytes: u64,
) -> HopMessageView {
    HopMessageView {
        type_pb: HopType::Status,
        peer: None,
        reservation: Some(ReservationView { expire, addrs, voucher }),
        limit: Some(
            Limit { duration: Some(clamp_u32(max_circuit_duration)), data: Some(max_circuit_bytes) },
        ),
        status: Some(Status::Success),
    }
}

/// The answer that carries nothing but `status`.
pub open spec fn status_message(status: Status) -> HopMessageView {
    HopMessageView {
        type_pb: HopType::Status,
        peer: None,
        reservation: None,
        limit: None,
        status: Some(status),
    }
}

/// What a peer asks of the relay, as a mathematical value.
pub enum ReqView {
    Reserve,
    Connect { dst: Seq<u8> },
}

impl View for Req {
    type V = ReqView;

    open spec fn view(&self) -> ReqView {
        match *self {
            Req::Reserve => ReqView::Reserve,
            Req::Connect { dst } => ReqView::Connect { dst: dst@ },
        }
    }
}

/// The request in `message`.
///
/// A request for a reservation needs nothing more. A request for a circuit
/// has to name its destination. A status is no request.
pub open spec fn request_of(message: HopMessageView) -> Result<ReqView, FatalUpgradeError> {
    match message.type_pb {
        HopType::Reserve => Ok(ReqView::Reserve),
        HopType::Connect => match message.peer {
            None => Err(FatalUpgradeError::MissingPeer),
            Some(peer) => if peer.id.len() == 0 {
                Err(FatalUpgradeError::ParsePeerId)
            } else {
                Ok(ReqView::Connect { dst: peer.id })
            },
        },
        HopType::Status => Err(FatalUpgradeError::UnexpectedTypeStatus),
    }
}

/// The request that `bytes` stand for.
pub open spec fn parse_request(bytes: Seq<u8>) -> Result<ReqView, FatalUpgradeError> {
    match HopMessageView::parse(bytes) {
        Err(e) => Err(FatalUpgradeError::Decode(e)),
        Ok(message) => request_of(message),
    }
}

/// Reads the request in `message`.
pub fn read_request(message: &HopMessage) -> (req: Result<Req, FatalUpgradeError>)
    ensures
        match req {
            Ok(r) => request_of(message@) == Ok::<ReqView, FatalUpgradeError>(r@),
            Err(e) => request_of(message@) == Err::<ReqView, FatalUpgradeError>(e),
        },
{
    match message.type_pb {
        HopType::Reserve => Ok(Req::Reserve),
        HopType::Connect => match &message.peer {
            None => Err(FatalUpgradeError::MissingPeer),
            Some(peer) => {
                if peer.id.len() == 0 {
                    Err(FatalUpgradeError::ParsePeerId)
                } else {
                    Ok(Req::Connect { dst: PeerId::from_bytes(peer.id.clone()) })
                }
            },
        },
        HopType::Status => Err(FatalUpgradeError::UnexpectedTypeStatus),
    }
}

/// Reads the request that `bytes` stand for.
pub fn receive(bytes: &[u8]) -> (req: Result<Req, FatalUpgradeError>)
    ensures
        match req {
            Ok(r) => parse_request(bytes@) == Ok::<ReqView, FatalUpgradeError>(r@),
            Err(e) => parse_request(bytes@) == Err::<ReqView, FatalUpgradeError>(e),
        },
{
    match HopMessage::decode(bytes) {
        Err(e) => Err(FatalUpgradeError::Decode(e)),
        Ok(message) => read_request(&message),
    }
}

/// The status to answer a request with that cannot be answered in order,
/// before the substream is closed: a status that came where a request was
/// due is out of place, everything else is malformed.
pub fn status_for(error: FatalUpgradeError) -> (status: Status)
    ensures
        status == if error == FatalUpgradeError::UnexpectedTypeStatus {
            Status::UnexpectedMessage
        } else {
            Status::MalformedMessage
        },
{
    match error {
        FatalUpgradeError::UnexpectedTypeStatus => Status::UnexpectedMessage,
        _ => Status::MalformedMessage,
    }
}

/// The answer that carries nothing but `status`: it denies a request, or,
/// with the status of success, grants a circuit.
pub fn respond(status: Status) -> (message: HopMessage)
    ensures
        message@ == status_message(status),
{
    HopMessage {
        type_pb: HopType::Status,
        peer: None,
        reservation: None,
        limit: None,
        status: Some(status),
    }
}

/// The answer that grants a reservation until `expire`, in seconds since the
/// start of 1970, and names the addresses of the relay, the proof of the
/// reservation and the limits that circuits to the peer will have.
pub fn accept_reservation(
    expire: u64,
    addrs: Vec<Vec<u8>>,
    voucher: Option<Vec<u8>>,
    max_circuit_duration: u64,
    max_circuit_bytes: u64,
) -> (message: HopMessage)
    ensures
        message@ == grant_message(
            expire,
            bytes_views(addrs@),
            option_view(voucher),
            max_circuit_duration,
            max_circuit_bytes,
        ),
{
    HopMessage {
        type_pb: HopType::Status,
        peer: None,
        reservation: Some(Reservation { expire, addrs, voucher }),
        limit: Some(
            Limit { duration: Some(secs_u32(max_circuit_duration)), data: Some(max_circuit_bytes) },
        ),
        status: Some(Status::Success),
    }
}

/// The answer to a request for a reservation that the relay has decided on:
/// the grant, if it was granted, else the status it was denied with.
pub fn respond_reserve(
    outcome: ReserveOutcome,
    addrs: Vec<Vec<u8>>,
    voucher: Option<Vec<u8>>,
    max_circuit_duration: u64,
    max_circuit_bytes: u64,
) -> (message: HopMessage)
    ensures
        message@ == match outcome {
            ReserveOutcome::Denied(status) => status_message(status),
            ReserveOutcome::Accepted { expire, .. } => grant_message(
                expire,
                bytes_views(addrs@),
                option_view(voucher),
                max_circuit_duration,
                max_circuit_bytes,
            ),
        },
{
    match outcome {
        ReserveOutcome::Denied(status) => respond(status),
        ReserveOutcome::Accepted { expire, renewed: _ } => accept_reservation(
            expire,
            addrs,
            voucher,
            max_circuit_duration,
            max_circuit_bytes,
        ),
    }
}

} // verus!
