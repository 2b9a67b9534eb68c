//! The client's side of the hop protocol: how a peer words its request, and
//! what it makes of the relay's answer.

use crate::address::PeerId;
use crate::handler::ConnectionHandlerUpgrErr;
use crate::protocol::inbound_hop::{clamp_u32, grant_message, request_of, status_message, ReqView};
use crate::protocol::message::{
    bytes_views, lemma_hop_round_trip, DecodeError, HopMessage, HopMessageView, HopType, Limit,
    Peer, PeerView,
};
use crate::protocol::Status;
use crate::upgrade::UpgradeError as SubstreamError;
use vstd::prelude::*;

verus! {

/// What a peer asks of a relay.
#[derive(Debug)]
pub enum Upgrade {
    /// A reservation.
    Reserve,
    /// A circuit to `dst_peer_id`.
    Connect { dst_peer_id: PeerId },
}

/// Why a relay made no reservation. The peer may ask again, or elsewhere.
#[derive(Debug, Clone, Copy, PartialEq, Eq, Structural)]
pub enum ReservationFailedReason {
    /// The relay takes no reservation from this peer.
    Refused,
    /// The relay has no room for another reservation.
    ResourceLimitExceeded,
}

/// Why a relay opened no circuit. The peer may ask again, or elsewhere.
#[derive(Debug, Clone, Copy, PartialEq, Eq, Structural)]
pub enum CircuitFailedReason {
    /// The relay has no room for another circuit.
    ResourceLimitExceeded,
    /// The destination could not be reached or refused the circuit.
    ConnectionFailed,
    /// The relay's policy forbids the circuit.
    PermissionDenied,
}

/// Why an answer cannot be made sense of. The substream is closed, and the
/// request has failed for good.
#[derive(Debug, Clone, Copy, PartialEq, Eq, Structural)]
pub enum FatalUpgradeError {
    /// The bytes are no message.
    Decode(DecodeError),
    /// The answer carries no status.
    MissingStatusField,
    /// The answer grants a reservation and says nothing of it.
    MissingReservationField,
    /// The answer grants a reservation and names no address of the relay.
    NoAddressesInReservation,
    /// The reservation that the answer grants has ended already.
    InvalidReservationExpiration,
    /// A request for a circuit came where an answer was due.
    UnexpectedTypeConnect,
    /// A request for a reservation came where an answer was due.
    UnexpectedTypeReserve,
    /// The status is none that answers this request.
    UnexpectedStatus(Status),
}

/// Why a request came to nothing.
#[derive(Debug, Clone, Copy, PartialEq, Eq, Structural)]
pub enum UpgradeError {
    ReservationFailed(ReservationFailedReason),
    CircuitFailed(CircuitFailedReason),
    Fatal(FatalUpgradeError),
}

impl UpgradeError {
    /// Whether the request has failed for good. A request that the relay
    /// has denied may be made again.
    pub open spec fn fatal(self) -> bool {
        self is Fatal
    }

    /// Whether the request has failed for good.
    pub fn is_fatal(&self) -> (fatal: bool)
        ensures
            fatal == self.fatal(),
    {
        match self {
            UpgradeError::Fatal(_) => true,
            _ => false,
        }
    }
}

/// Whether a request whose substream could not be upgraded has failed for
/// good: it has if the exchange took too long, if no protocol was agreed on,
/// or if the answer made no sense. It is for the caller to make the request
/// again; nothing is tried twice here.
pub fn exchange_is_fatal(error: &ConnectionHandlerUpgrErr<UpgradeError>) -> (fatal: bool)
    ensures
        fatal == match *error {
            ConnectionHandlerUpgrErr::Upgrade(SubstreamError::Apply(e)) => e.fatal(),
            _ => true,
        },
{
    match error {
        ConnectionHandlerUpgrErr::Upgrade(SubstreamError::Apply(e)) => e.is_fatal(),
        _ => true,
    }
}

/// What a request came to.
#[derive(Debug)]
pub enum Output {
    /// The relay has made a reservation.
    Reservation {
        /// How long the reservation is still good for, in seconds.
        renewal_timeout: u64,
        /// The addresses of the relay by which the peer can be reached.
        addrs: Vec<Vec<u8>>,
        /// The limits that circuits to the peer will have.
        limit: Option<Limit>,
    },
    /// The relay has opened the circuit.
    Circuit {
        /// The limits of the circuit.
        limit: Option<Limit>,
    },
}

/// What a request came to, as a mathematical value.
pub enum OutputView {
    Reservation { renewal_timeout: u64, addrs: Seq<Seq<u8>>, limit: Option<Limit> },
    Circuit { limit: Option<Limit> },
}

impl View for Output {
    type V = OutputView;

    open spec fn view(&self) -> OutputView {
        match *self {
            Output::Reservation { renewal_timeout, addrs, limit } => OutputView::Reservation {
                renewal_timeout,
                addrs: bytes_views(addrs@),
                limit,
            },
            Output::Circuit { limit } => OutputView::Circuit { limit },
        }
    }
}

/// What the answer `response` to a request for a reservation comes to at
/// time `now`, in seconds since the start of 1970.
///
/// Only a status answers a request. The statuses that deny a reservation
/// leave the peer free to ask again; any other status but success is out of
/// place. A grant has to tell of the reservation, name an address of the
/// relay at least, and end later than now.
pub open spec fn reserve_result(response: HopMessageView, now: u64) -> Result<
    OutputView,
    UpgradeError,
> {
    match response.type_pb {
        HopType::Connect => Err(UpgradeError::Fatal(FatalUpgradeError::UnexpectedTypeConnect)),
        HopType::Reserve => Err(UpgradeError::Fatal(FatalUpgradeError::UnexpectedTypeReserve)),
        HopType::Status => match response.status {
            None => Err(UpgradeError::Fatal(FatalUpgradeError::MissingStatusField)),
            Some(Status::Success) => match response.reservation {
                None => Err(UpgradeError::Fatal(FatalUpgradeError::MissingReservationField)),
                Some(reservation) => if reservation.addrs.len() == 0 {
                    Err(UpgradeError::Fatal(FatalUpgradeError::NoAddressesInReservation))
                } else if reservation.expire <= now {
                    Err(UpgradeError::Fatal(FatalUpgradeError::InvalidReservationExpiration))
                } else {
                    Ok(
                        OutputView::Reservation {
                            renewal_timeout: (reservation.expire - now) as u64,
                            addrs: reservation.addrs,
                            limit: response.limit,
                        },
                    )
                },
            },
            Some(Status::ReservationRefused) => Err(
                UpgradeError::ReservationFailed(ReservationFailedReason::Refused),
            ),
            Some(Status::ResourceLimitExceeded) => Err(
                UpgradeError::ReservationFailed(ReservationFailedReason::ResourceLimitExceeded),
            ),
            Some(status) => Err(UpgradeError::Fatal(FatalUpgradeError::UnexpectedStatus(status))),
        },
    }
}

/// What the answer `response` to a request for a circuit comes to.
///
/// Only a status answers a request. The statuses that deny a circuit leave
/// the peer free to ask again; any other status but success is out of
/// place.
pub open spec fn connect_result(response: HopMessageView) -> Result<OutputView, UpgradeError> {
    match response.type_pb {
        HopType::Connect => Err(UpgradeError::Fatal(FatalUpgradeError::UnexpectedTypeConnect)),
        HopType::Reserve => Err(UpgradeError::Fatal(FatalUpgradeError::UnexpectedTypeReserve)),
        HopType::Status => match response.status {
            None => Err(UpgradeError::Fatal(FatalUpgradeError::MissingStatusField)),
            Some(Status::Success) => Ok(OutputView::Circuit { limit: response.limit }),
            Some(Status::ResourceLimitExceeded) => Err(
                UpgradeError::CircuitFailed(CircuitFailedReason::ResourceLimitExceeded),
            ),
            Some(Status::ConnectionFailed) => Err(
                UpgradeError::CircuitFailed(CircuitFailedReason::ConnectionFailed),
            ),
            Some(Status::PermissionDenied) => Err(
                UpgradeError::CircuitFailed(CircuitFailedReason::PermissionDenied),
            ),
            Some(status) => Err(UpgradeError::Fatal(FatalUpgradeError::UnexpectedStatus(status))),
        },
    }
}

impl Upgrade {
    /// The request as a message, as a mathematical value.
    pub open spec fn request_view(self) -> HopMessageView {
        match self {
            Upgrade::Reserve => HopMessageView {
                type_pb: HopType::Reserve,
                peer: None,
                reservation: None,
                limit: None,
                status: None,
            },
            Upgrade::Connect { dst_peer_id } => HopMessageView {
                type_pb: HopType::Connect,
                peer: Some(PeerView { id: dst_peer_id@, addrs: Seq::empty() }),
                reservation: None,
                limit: None,
                status: None,
            },
        }
    }

    /// What the answer `response` to this request comes to at time `now`.
    pub open spec fn result(self, response: HopMessageView, now: u64) -> Result<
        OutputView,
        UpgradeError,
    > {
        match self {
            Upgrade::Reserve => reserve_result(response, now),
            Upgrade::Connect { .. } => connect_result(response),
        }
    }

    /// The request as a message.
    pub fn request(&self) -> (message: HopMessage)
        ensures
            message@ == self.request_view(),
    {
        match self {
            Upgrade::Reserve => HopMessage {
                type_pb: HopType::Reserve,
                peer: None,
                reservation: None,
                limit: None,
                status: None,
            },
            Upgrade::Connect { dst_peer_id } => {
                let addrs: Vec<Vec<u8>> = Vec::new();
                assert(bytes_views(addrs@) =~= Seq::empty());
                HopMessage {
                    type_pb: HopType::Connect,
                    peer: Some(Peer { id: dst_peer_id.to_bytes(), addrs }),
                    reservation: None,
                    limit: None,
                    status: None,
                }
            },
        }
    }

    /// Makes sense of the answer `response` to this request at time `now`,
    /// in seconds since the start of 1970.
    pub fn handle_response(&self, response: HopMessage, now: u64) -> (output: Result<
        Output,
        UpgradeError,
    >)
        ensures
            match output {
                Ok(o) => self.result(response@, now) == Ok::<OutputView, UpgradeError>(o@),
                Err(e) => self.result(response@, now) == Err::<OutputView, UpgradeError>(e),
            },
    {
        match response.type_pb {
            HopType::Connect => {
                return Err(UpgradeError::Fatal(FatalUpgradeError::UnexpectedTypeConnect));
            },
            HopType::Reserve => {
                return Err(UpgradeError::Fatal(FatalUpgradeError::UnexpectedTypeReserve));
            },
            HopType::Status => {},
        }
        let status = match response.status {
            Some(status) => status,
            None => {
                return Err(UpgradeError::Fatal(FatalUpgradeError::MissingStatusField));
            },
        };
        let limit = response.limit;
        match self {
            Upgrade::Reserve => {
                match status {
                    Status::Success => {},
                    Status::ReservationRefused => {
                        return Err(
                            UpgradeError::ReservationFailed(ReservationFailedReason::Refused),
                        );
                    },
                    Status::ResourceLimitExceeded => {
                        return Err(
                            UpgradeError::ReservationFailed(
                                ReservationFailedReason::ResourceLimitExceeded,
                            ),
                        );
                    },
                    s => {
                        return Err(UpgradeError::Fatal(FatalUpgradeError::UnexpectedStatus(s)));
                    },
                }
                let reservation = match response.reservation {
                    Some(reservation) => reservation,
                    None => {
                        return Err(UpgradeError::Fatal(FatalUpgradeError::MissingReservationField));
                    },
                };
                if reservation.addrs.len() == 0 {
                    return Err(UpgradeError::Fatal(FatalUpgradeError::NoAddressesInReservation));
                }
                if reservation.expire <= now {
                    return Err(
                        UpgradeError::Fatal(FatalUpgradeError::InvalidReservationExpiration),
                    );
                }
                Ok(
                    Output::Reservation {
                        renewal_timeout: reservation.expire - now,
                        addrs: reservation.addrs,
                        limit,
                    },
                )
            },
            Upgrade::Connect { .. } => {
                match status {
                    Status::Success => {},
                    Status::ResourceLimitExceeded => {
                        return Err(
                            UpgradeError::CircuitFailed(CircuitFailedReason::ResourceLimitExceeded),
                        );
                    },
                    Status::ConnectionFailed => {
                        return Err(
                            UpgradeError::CircuitFailed(CircuitFailedReason::ConnectionFailed),
                        );
                    },
                    Status::PermissionDenied => {
                        return Err(
                            UpgradeError::CircuitFailed(CircuitFailedReason::PermissionDenied),
                        );
                    },
                    s => {
                        return Err(UpgradeError::Fatal(FatalUpgradeError::UnexpectedStatus(s)));
                    },
                }
                Ok(Output::Circuit { limit })
            },
        }
    }

    /// Makes sense of the answer that `bytes` stand for.
    pub fn receive(&self, bytes: &[u8], now: u64) -> (output: Result<Output, UpgradeError>)
        ensures
            match HopMessageView::parse(bytes@) {
                Err(d) => output matches Err(e) && e == UpgradeError::Fatal(
                    FatalUpgradeError::Decode(d),
                ),
                Ok(response) => match output {
                    Ok(o) => self.result(response, now) == Ok::<OutputView, UpgradeError>(o@),
                    Err(e) => self.result(response, now) == Err::<OutputView, UpgradeError>(e),
                },
            },
    {
        match HopMessage::decode(bytes) {
            Err(e) => Err(UpgradeError::Fatal(FatalUpgradeError::Decode(e))),
            Ok(response) => self.handle_response(response, now),
        }
    }
}

/// A relay reads a request as the peer meant it: a request for a
/// reservation as one, and a request for a circuit as one to the same
/// destination, which has to be named. This holds of what arrives on the
/// wire too.
pub proof fn lemma_request_is_understood(upgrade: Upgrade)
    requires
        upgrade matches Upgrade::Connect { dst_peer_id } ==> 0 < dst_peer_id@.len() && dst_peer_id@.len()
            + 11 <= u64::MAX,
    ensures
        request_of(upgrade.request_view()) == Ok::<ReqView, super::inbound_hop::FatalUpgradeError>(
            match upgrade {
                Upgrade::Reserve => ReqView::Reserve,
                Upgrade::Connect { dst_peer_id } => ReqView::Connect { dst: dst_peer_id@ },
            },
        ),
        HopMessageView::parse(upgrade.request_view().bytes()) == Ok::<HopMessageView, DecodeError>(
            upgrade.request_view(),
        ),
{
    let message = upgrade.request_view();
    assert(message.wf()) by {
        if let Some(p) = message.peer {
            crate::protocol::message::lemma_peer_bytes_fit(p);
        }
    }
    lemma_hop_round_trip(message);
}

/// A peer makes of a denial what the relay meant by it. A reservation that
/// is refused, or for which there is no room, has failed for that reason; a
/// circuit for which there is no room, that the policy forbids, or whose
/// destination cannot be had, has failed for that reason. After either the
/// peer may ask again. Any other status in answer is fatal.
pub proof fn lemma_denial_is_understood(upgrade: Upgrade, status: Status, now: u64)
    requires
        status != Status::Success,
    ensures
        upgrade.result(status_message(status), now) is Err,
        upgrade.result(status_message(status), now) matches Err(UpgradeError::Fatal(_))
            <==> !(match upgrade {
            Upgrade::Reserve => status == Status::ReservationRefused || status
                == Status::ResourceLimitExceeded,
            Upgrade::Connect { .. } => status == Status::ResourceLimitExceeded || status
                == Status::ConnectionFailed || status == Status::PermissionDenied,
        }),
        upgrade is Connect && status == Status::ResourceLimitExceeded ==> upgrade.result(
            status_message(status),
            now,
        ) == Err::<OutputView, UpgradeError>(
            UpgradeError::CircuitFailed(CircuitFailedReason::ResourceLimitExceeded),
        ),
        upgrade is Connect && status == Status::ConnectionFailed ==> upgrade.result(
            status_message(status),
            now,
        ) == Err::<OutputView, UpgradeError>(
            UpgradeError::CircuitFailed(CircuitFailedReason::ConnectionFailed),
        ),
        upgrade is Reserve && status == Status::ResourceLimitExceeded ==> upgrade.result(
            status_message(status),
            now,
        ) == Err::<OutputView, UpgradeError>(
            UpgradeError::ReservationFailed(ReservationFailedReason::ResourceLimitExceeded),
        ),
{
}

/// A peer makes of a grant what the relay meant by it: a reservation that
/// is good from now until the time the relay named, with the addresses and
/// the limits the relay named; and a circuit that is open.
pub proof fn lemma_grant_is_understood(
    expire: u64,
    addrs: Seq<Seq<u8>>,
    voucher: Option<Seq<u8>>,
    max_circuit_duration: u64,
    max_circuit_bytes: u64,
    now: u64,
)
    requires
        addrs.len() > 0,
        now < expire,
    ensures
        reserve_result(
            grant_message(expire, addrs, voucher, max_circuit_duration, max_circuit_bytes),
            now,
        ) == Ok::<OutputView, UpgradeError>(
            OutputView::Reservation {
                renewal_timeout: (expire - now) as u64,
                addrs,
                limit: Some(
                    Limit {
                        duration: Some(clamp_u32(max_circuit_duration)),
                        data: Some(max_circuit_bytes),
                    },
                ),
            },
        ),
        connect_result(status_message(Status::Success)) == Ok::<OutputView, UpgradeError>(
            OutputView::Circuit { limit: None },
        ),
{
}

} // verus!
