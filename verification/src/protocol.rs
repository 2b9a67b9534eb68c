//! The messages that a relay exchanges with the peers it serves, and the
//! rules by which each side answers them.

pub mod inbound_hop;
pub mod inbound_stop;
pub mod message;
pub mod outbound_hop;
pub mod outbound_stop;
pub mod wire;

use vstd::prelude::*;

verus! {

/// The name under which the hop protocol is negotiated.
pub const HOP_PROTOCOL_NAME: &'static str = "/libp2p/circuit/relay/0.2.0/hop";

/// The name under which the stop protocol is negotiated.
pub const STOP_PROTOCOL_NAME: &'static str = "/libp2p/circuit/relay/0.2.0/stop";

/// The largest message, in bytes, that either protocol accepts.
pub const MAX_MESSAGE_SIZE: usize = 4096;

/// How a request was answered.
#[derive(Debug, Clone, Copy, PartialEq, Eq, Structural)]
pub enum Status {
    /// The request was granted (`OK` on the wire).
    Success,
    /// The relay takes no reservation from this peer.
    ReservationRefused,
    /// Granting the request would exceed a limit of the relay.
    ResourceLimitExceeded,
    /// The relay's policy forbids the request.
    PermissionDenied,
    /// The destination could not be reached or refused the circuit.
    ConnectionFailed,
    /// The request could not be understood.
    MalformedMessage,
    /// The message has no place at this point of the exchange.
    UnexpectedMessage,
}

impl Status {
    /// The number that stands for the status on the wire.
    pub open spec fn wire_code(self) -> u64 {
        match self {
            Status::Success => 100,
            Status::ReservationRefused => 200,
            Status::ResourceLimitExceeded => 201,
            Status::PermissionDenied => 202,
            Status::ConnectionFailed => 203,
            Status::MalformedMessage => 400,
            Status::UnexpectedMessage => 401,
        }
    }

    /// The status that `code` stands for on the wire, if it stands for one.
    pub open spec fn of_code(code: u64) -> Option<Status> {
        if code == 100 {
            Some(Status::Success)
        } else if code == 200 {
            Some(Status::ReservationRefused)
        } else if code == 201 {
            Some(Status::ResourceLimitExceeded)
        } else if code == 202 {
            Some(Status::PermissionDenied)
        } else if code == 203 {
            Some(Status::ConnectionFailed)
        } else if code == 400 {
            Some(Status::MalformedMessage)
        } else if code == 401 {
            Some(Status::UnexpectedMessage)
        } else {
            None
        }
    }

    /// The number that stands for the status on the wire.
    pub fn code(self) -> (code: u64)
        ensures
            code == self.wire_code(),
    {
        match self {
            Status::Success => 100,
            Status::ReservationRefused => 200,
            Status::ResourceLimitExceeded => 201,
            Status::PermissionDenied => 202,
            Status::ConnectionFailed => 203,
            Status::MalformedMessage => 400,
            Status::UnexpectedMessage => 401,
        }
    }

    /// The status that `code` stands for on the wire, if it stands for one.
    pub fn from_code(code: u64) -> (status: Option<Status>)
        ensures
            status == Status::of_code(code),
    {
        if code == 100 {
            Some(Status::Success)
        } else if code == 200 {
            Some(Status::ReservationRefused)
        } else if code == 201 {
            Some(Status::ResourceLimitExceeded)
        } else if code == 202 {
            Some(Status::PermissionDenied)
        } else if code == 203 {
            Some(Status::ConnectionFailed)
        } else if code == 400 {
            Some(Status::MalformedMessage)
        } else if code == 401 {
            Some(Status::UnexpectedMessage)
        } else {
            None
        }
    }

    /// Whether the status tells of a decision of the relay's policy or of
    /// its limits, after which the request may be made again, elsewhere or
    /// otherwise: such a status ends the exchange in order.
    pub open spec fn recoverable(self) -> bool {
        self == Status::ReservationRefused || self == Status::ResourceLimitExceeded || self
            == Status::PermissionDenied || self == Status::ConnectionFailed
    }

    /// Whether the request may be made again after this status.
    pub fn is_recoverable(self) -> (recoverable: bool)
        ensures
            recoverable == self.recoverable(),
    {
        match self {
            Status::ReservationRefused
            | Status::ResourceLimitExceeded
            | Status::PermissionDenied
            | Status::ConnectionFailed => true,
            _ => false,
        }
    }
}

/// Every status is read back from its number as it was written.
pub proof fn lemma_status_round_trip(status: Status)
    ensures
        Status::of_code(status.wire_code()) == Some(status),
{
}

} // verus!
