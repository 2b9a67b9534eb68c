//! Two protocol handlers on one connection.
//!
//! A pair of handlers is itself a handler: it offers the protocols of both,
//! hands each event to the side it belongs to, and tells both sides what
//! concerns the connection as a whole. Pairs nest, so any number of handlers
//! can share a connection.

use crate::address::{ConnectedPoint, PeerId};
use crate::handler::{
    AddressChange, ConnectionEvent, ConnectionHandler, ConnectionHandlerEvent,
    ConnectionHandlerUpgrErr, DialUpgradeError, FullyNegotiatedInbound, FullyNegotiatedOutbound,
    IntoConnectionHandler, KeepAlive, ListenUpgradeError, SubstreamProtocol,
};
use crate::upgrade::{
    EitherError, EitherOutput, EitherUpgrade, OutboundUpgradeSend, SelectUpgrade, UpgradeError,
};
use either::Either;
use std::task::{Context, Poll};
use vstd::pervasive::unreached;
use vstd::prelude::*;

verus! {

/// `either::Either`, a value that is one of two things, `Left` or `Right`.
/// Verus reads the two variants from the crate itself, so that verified code
/// can build and tell apart the values; nothing is assumed of them.
#[verifier::external_type_specification]
#[verifier::reject_recursive_types(L)]
#[verifier::reject_recursive_types(R)]
pub struct ExEither<L, R>(Either<L, R>);

/// What a connection tells a handler of type `H`.
pub type EventFor<'a, H> = ConnectionEvent<
    'a,
    <H as ConnectionHandler>::InboundProtocol,
    <H as ConnectionHandler>::OutboundProtocol,
    <H as ConnectionHandler>::InboundOpenInfo,
    <H as ConnectionHandler>::OutboundOpenInfo,
>;

/// What a handler of type `H` asks of its connection.
pub type RequestOf<H> = ConnectionHandlerEvent<
    <H as ConnectionHandler>::OutboundProtocol,
    <H as ConnectionHandler>::OutboundOpenInfo,
    <H as ConnectionHandler>::OutEvent,
    <H as ConnectionHandler>::Error,
>;

/// Combines two protocols that still wait for their connection into one.
#[derive(Debug)]
pub struct IntoConnectionHandlerSelect<TProto1, TProto2> {
    /// The first protocol.
    proto1: TProto1,
    /// The second protocol.
    proto2: TProto2,
}

impl<TProto1, TProto2> View for IntoConnectionHandlerSelect<TProto1, TProto2> {
    type V = (TProto1, TProto2);

    closed spec fn view(&self) -> (TProto1, TProto2) {
        (self.proto1, self.proto2)
    }
}

impl<TProto1: Clone, TProto2: Clone> Clone for IntoConnectionHandlerSelect<TProto1, TProto2> {
    fn clone(&self) -> (copy: Self)
        ensures
            cloned(self@.0, copy@.0),
            cloned(self@.1, copy@.1),
    {
        IntoConnectionHandlerSelect { proto1: self.proto1.clone(), proto2: self.proto2.clone() }
    }
}

impl<TProto1, TProto2> IntoConnectionHandlerSelect<TProto1, TProto2> {
    /// Combines `proto1` and `proto2`.
    pub fn new(proto1: TProto1, proto2: TProto2) -> (select: Self)
        ensures
            select@ == (proto1, proto2),
    {
        IntoConnectionHandlerSelect { proto1, proto2 }
    }

    /// The two protocols, in the order in which they were combined.
    pub fn into_inner(self) -> (protos: (TProto1, TProto2))
        ensures
            protos == self@,
    {
        (self.proto1, self.proto2)
    }
}

impl<TProto1, TProto2> IntoConnectionHandler for IntoConnectionHandlerSelect<TProto1, TProto2> where
    TProto1: IntoConnectionHandler,
    TProto2: IntoConnectionHandler,
 {
    type Handler = ConnectionHandlerSelect<TProto1::Handler, TProto2::Handler>;

    /// Each side builds its own handler for the same connection.
    open spec fn builds(
        self,
        remote_peer_id: PeerId,
        connected_point: ConnectedPoint,
        handler: Self::Handler,
    ) -> bool {
        &&& self@.0.builds(remote_peer_id, connected_point, handler@.0)
        &&& self@.1.builds(remote_peer_id, connected_point, handler@.1)
    }

    fn into_handler(self, remote_peer_id: &PeerId, connected_point: &ConnectedPoint) -> (handler:
        Self::Handler) {
        ConnectionHandlerSelect {
            proto1: self.proto1.into_handler(remote_peer_id, connected_point),
            proto2: self.proto2.into_handler(remote_peer_id, connected_point),
        }
    }

    /// The protocols of the first side are offered before those of the
    /// second.
    open spec fn offers(
        &self,
        protocol: <Self::Handler as ConnectionHandler>::InboundProtocol,
    ) -> bool {
        &&& self@.0.offers(protocol.0)
        &&& self@.1.offers(protocol.1)
    }

    fn inbound_protocol(&self) -> (protocol: <Self::Handler as ConnectionHandler>::InboundProtocol) {
        SelectUpgrade::new(self.proto1.inbound_protocol(), self.proto2.inbound_protocol())
    }
}

/// Combines two protocol handlers of one connection into one.
#[derive(Debug)]
pub struct ConnectionHandlerSelect<TProto1, TProto2> {
    /// The first protocol.
    proto1: TProto1,
    /// The second protocol.
    proto2: TProto2,
}

impl<TProto1, TProto2> View for ConnectionHandlerSelect<TProto1, TProto2> {
    type V = (TProto1, TProto2);

    closed spec fn view(&self) -> (TProto1, TProto2) {
        (self.proto1, self.proto2)
    }
}

impl<TProto1: Clone, TProto2: Clone> Clone for ConnectionHandlerSelect<TProto1, TProto2> {
    fn clone(&self) -> (copy: Self)
        ensures
            cloned(self@.0, copy@.0),
            cloned(self@.1, copy@.1),
    {
        ConnectionHandlerSelect { proto1: self.proto1.clone(), proto2: self.proto2.clone() }
    }
}

impl<TProto1, TProto2> ConnectionHandlerSelect<TProto1, TProto2> {
    /// Combines `proto1` and `proto2`.
    pub fn new(proto1: TProto1, proto2: TProto2) -> (select: Self)
        ensures
            select@ == (proto1, proto2),
    {
        ConnectionHandlerSelect { proto1, proto2 }
    }

    /// The two handlers, in the order in which they were combined.
    pub fn into_inner(self) -> (protos: (TProto1, TProto2))
        ensures
            protos == self@,
    {
        (self.proto1, self.proto2)
    }
}

/// The failure `error` of an upgrade that was one of two, as the first side
/// sees it. A failure of the second side's handshake has no such form.
pub open spec fn first_error<E1, E2>(
    error: ConnectionHandlerUpgrErr<EitherError<E1, E2>>,
) -> ConnectionHandlerUpgrErr<E1> {
    match error {
        ConnectionHandlerUpgrErr::Timeout => ConnectionHandlerUpgrErr::Timeout,
        ConnectionHandlerUpgrErr::Timer => ConnectionHandlerUpgrErr::Timer,
        ConnectionHandlerUpgrErr::Upgrade(UpgradeError::Select(cause)) => {
            ConnectionHandlerUpgrErr::Upgrade(UpgradeError::Select(cause))
        },
        ConnectionHandlerUpgrErr::Upgrade(UpgradeError::Apply(EitherError::A(cause))) => {
            ConnectionHandlerUpgrErr::Upgrade(UpgradeError::Apply(cause))
        },
        ConnectionHandlerUpgrErr::Upgrade(UpgradeError::Apply(EitherError::B(_))) => arbitrary(),
    }
}

/// The failure `error` of an upgrade that was one of two, as the second side
/// sees it. A failure of the first side's handshake has no such form.
pub open spec fn second_error<E1, E2>(
    error: ConnectionHandlerUpgrErr<EitherError<E1, E2>>,
) -> ConnectionHandlerUpgrErr<E2> {
    match error {
        ConnectionHandlerUpgrErr::Timeout => ConnectionHandlerUpgrErr::Timeout,
        ConnectionHandlerUpgrErr::Timer => ConnectionHandlerUpgrErr::Timer,
        ConnectionHandlerUpgrErr::Upgrade(UpgradeError::Select(cause)) => {
            ConnectionHandlerUpgrErr::Upgrade(UpgradeError::Select(cause))
        },
        ConnectionHandlerUpgrErr::Upgrade(UpgradeError::Apply(EitherError::B(cause))) => {
            ConnectionHandlerUpgrErr::Upgrade(UpgradeError::Apply(cause))
        },
        ConnectionHandlerUpgrErr::Upgrade(UpgradeError::Apply(EitherError::A(_))) => arbitrary(),
    }
}

/// Whether `error` is the failure of the handshake of one side alone, and of
/// which: `Some(true)` for the first side, `Some(false)` for the second,
/// `None` for a failure that came before a protocol was agreed on.
pub open spec fn handshake_side<E1, E2>(
    error: ConnectionHandlerUpgrErr<EitherError<E1, E2>>,
) -> Option<bool> {
    match error {
        ConnectionHandlerUpgrErr::Upgrade(UpgradeError::Apply(EitherError::A(_))) => Some(true),
        ConnectionHandlerUpgrErr::Upgrade(UpgradeError::Apply(EitherError::B(_))) => Some(false),
        _ => None,
    }
}

impl<S1OOI, S2OOI, S1OP, S2OP> DialUpgradeError<
    EitherOutput<S1OOI, S2OOI>,
    EitherUpgrade<S1OP, S2OP>,
> where S1OP: OutboundUpgradeSend, S2OP: OutboundUpgradeSend {
    /// Whether the failure can have come from the request it is tagged with:
    /// the handshake of one side does not fail on a substream that was
    /// requested by the other.
    pub open spec fn matches_request(self) -> bool {
        match handshake_side(self.error) {
            Some(first) => first == (self.info is First),
            None => true,
        }
    }

    /// Whether the failure can have come from the request it is tagged with.
    pub fn is_consistent(&self) -> (consistent: bool)
        ensures
            consistent == self.matches_request(),
    {
        match (&self.info, &self.error) {
            (
                EitherOutput::First(_),
                ConnectionHandlerUpgrErr::Upgrade(UpgradeError::Apply(EitherError::B(_))),
            ) => false,
            (
                EitherOutput::Second(_),
                ConnectionHandlerUpgrErr::Upgrade(UpgradeError::Apply(EitherError::A(_))),
            ) => false,
            _ => true,
        }
    }

    /// The failure as the side that made the request sees it: on the left
    /// for the first side, on the right for the second.
    pub open spec fn transposed(self) -> Either<
        DialUpgradeError<S1OOI, S1OP>,
        DialUpgradeError<S2OOI, S2OP>,
    > {
        match self.info {
            EitherOutput::First(info) => Either::Left(
                DialUpgradeError { info, error: first_error(self.error) },
            ),
            EitherOutput::Second(info) => Either::Right(
                DialUpgradeError { info, error: second_error(self.error) },
            ),
        }
    }

    /// Hands the failure to the side that made the request, or hands it
    /// back if it cannot have come from the request it is tagged with.
    pub fn try_transpose(self) -> (side: Result<
        Either<DialUpgradeError<S1OOI, S1OP>, DialUpgradeError<S2OOI, S2OP>>,
        Self,
    >)
        ensures
            side == if self.matches_request() {
                Ok::<Either<DialUpgradeError<S1OOI, S1OP>, DialUpgradeError<S2OOI, S2OP>>, Self>(
                    self.transposed(),
                )
            } else {
                Err::<Either<DialUpgradeError<S1OOI, S1OP>, DialUpgradeError<S2OOI, S2OP>>, Self>(
                    self,
                )
            },
    {
        if self.is_consistent() {
            Ok(self.transpose())
        } else {
            Err(self)
        }
    }

    /// Hands the failure to the side that made the request. The failure has
    /// to be one that can have come from the request it is tagged with.
    pub fn transpose(self) -> (side: Either<
        DialUpgradeError<S1OOI, S1OP>,
        DialUpgradeError<S2OOI, S2OP>,
    >)
        requires
            self.matches_request(),
        ensures
            side == self.transposed(),
    {
        match self {
            DialUpgradeError { info: EitherOutput::First(info), error } => {
                let error = match error {
                    ConnectionHandlerUpgrErr::Timer => ConnectionHandlerUpgrErr::Timer,
                    ConnectionHandlerUpgrErr::Timeout => ConnectionHandlerUpgrErr::Timeout,
                    ConnectionHandlerUpgrErr::Upgrade(UpgradeError::Select(err)) => {
                        ConnectionHandlerUpgrErr::Upgrade(UpgradeError::Select(err))
                    },
                    ConnectionHandlerUpgrErr::Upgrade(UpgradeError::Apply(EitherError::A(err))) => {
                        ConnectionHandlerUpgrErr::Upgrade(UpgradeError::Apply(err))
                    },
                    ConnectionHandlerUpgrErr::Upgrade(UpgradeError::Apply(EitherError::B(_))) => {
                        unreached()
                    },
                };
                Either::Left(DialUpgradeError { info, error })
            },
            DialUpgradeError { info: EitherOutput::Second(info), error } => {
                let error = match error {
                    ConnectionHandlerUpgrErr::Timer => ConnectionHandlerUpgrErr::Timer,
                    ConnectionHandlerUpgrErr::Timeout => ConnectionHandlerUpgrErr::Timeout,
                    ConnectionHandlerUpgrErr::Upgrade(UpgradeError::Select(err)) => {
                        ConnectionHandlerUpgrErr::Upgrade(UpgradeError::Select(err))
                    },
                    ConnectionHandlerUpgrErr::Upgrade(UpgradeError::Apply(EitherError::B(err))) => {
                        ConnectionHandlerUpgrErr::Upgrade(UpgradeError::Apply(err))
                    },
                    ConnectionHandlerUpgrErr::Upgrade(UpgradeError::Apply(EitherError::A(_))) => {
                        unreached()
                    },
                };
                Either::Right(DialUpgradeError { info, error })
            },
        }
    }
}

impl<S1OOI, S2OOI, S1OP, S2OP> FullyNegotiatedOutbound<
    EitherUpgrade<S1OP, S2OP>,
    EitherOutput<S1OOI, S2OOI>,
> where S1OP: OutboundUpgradeSend, S2OP: OutboundUpgradeSend {
    /// Whether the substream belongs to the side that asked for it.
    pub open spec fn matches_request(self) -> bool {
        (self.protocol is First) == (self.info is First)
    }

    /// Whether the substream belongs to the side that asked for it.
    pub fn is_consistent(&self) -> (consistent: bool)
        ensures
            consistent == self.matches_request(),
    {
        match (&self.protocol, &self.info) {
            (EitherOutput::First(_), EitherOutput::First(_)) => true,
            (EitherOutput::Second(_), EitherOutput::Second(_)) => true,
            _ => false,
        }
    }
}

/// Three handlers on one connection: the first with the pair of the others.
pub fn select3<A, B, C>(first: A, second: B, third: C) -> (all: ConnectionHandlerSelect<
    A,
    ConnectionHandlerSelect<B, C>,
>)
    ensures
        all@.0 == first,
        all@.1@ == (second, third),
{
    ConnectionHandlerSelect::new(first, ConnectionHandlerSelect::new(second, third))
}

/// Four handlers on one connection: the first with the three others.
pub fn select4<A, B, C, D>(first: A, second: B, third: C, fourth: D) -> (all:
    ConnectionHandlerSelect<A, ConnectionHandlerSelect<B, ConnectionHandlerSelect<C, D>>>)
    ensures
        all@.0 == first,
        all@.1@.0 == second,
        all@.1@.1@ == (third, fourth),
{
    ConnectionHandlerSelect::new(first, select3(second, third, fourth))
}

/// The request `request` of the first of two handlers, as the request of the
/// pair: its parts are marked as the first side's.
pub open spec fn first_request<TProto1, TProto2>(request: RequestOf<TProto1>) -> RequestOf<
    ConnectionHandlerSelect<TProto1, TProto2>,
> where TProto1: ConnectionHandler, TProto2: ConnectionHandler {
    match request {
        ConnectionHandlerEvent::Custom(event) => ConnectionHandlerEvent::Custom(
            EitherOutput::First(event),
        ),
        ConnectionHandlerEvent::Close(error) => ConnectionHandlerEvent::Close(
            EitherError::A(error),
        ),
        ConnectionHandlerEvent::OutboundSubstreamRequest { protocol } => {
            ConnectionHandlerEvent::OutboundSubstreamRequest {
                protocol: SubstreamProtocol {
                    upgrade: EitherUpgrade::A(protocol.upgrade),
                    info: EitherOutput::First(protocol.info),
                    timeout: protocol.timeout,
                },
            }
        },
    }
}

/// The request `request` of the second of two handlers, as the request of
/// the pair: its parts are marked as the second side's.
pub open spec fn second_request<TProto1, TProto2>(request: RequestOf<TProto2>) -> RequestOf<
    ConnectionHandlerSelect<TProto1, TProto2>,
> where TProto1: ConnectionHandler, TProto2: ConnectionHandler {
    match request {
        ConnectionHandlerEvent::Custom(event) => ConnectionHandlerEvent::Custom(
            EitherOutput::Second(event),
        ),
        ConnectionHandlerEvent::Close(error) => ConnectionHandlerEvent::Close(
            EitherError::B(error),
        ),
        ConnectionHandlerEvent::OutboundSubstreamRequest { protocol } => {
            ConnectionHandlerEvent::OutboundSubstreamRequest {
                protocol: SubstreamProtocol {
                    upgrade: EitherUpgrade::B(protocol.upgrade),
                    info: EitherOutput::Second(protocol.info),
                    timeout: protocol.timeout,
                },
            }
        },
    }
}

/// Whether the tags inside `event` agree: a negotiated outbound substream
/// belongs to the side that asked for it, and so does a failed one.
pub open spec fn well_tagged<TProto1, TProto2>(
    event: EventFor<'_, ConnectionHandlerSelect<TProto1, TProto2>>,
) -> bool where TProto1: ConnectionHandler, TProto2: ConnectionHandler {
    match event {
        ConnectionEvent::FullyNegotiatedOutbound(negotiated) => negotiated.matches_request(),
        ConnectionEvent::DialUpgradeError(failure) => failure.matches_request(),
        _ => true,
    }
}

/// What the first of two handlers is told when the pair is told `event`, if
/// anything.
///
/// A negotiated substream, and the failure of a protocol's own handshake,
/// concern the side whose protocol it is. A change of address, and a failure
/// that came before a protocol was agreed on, concern both sides, and each
/// is told the same.
pub open spec fn first_event<'a, TProto1, TProto2>(
    event: EventFor<'a, ConnectionHandlerSelect<TProto1, TProto2>>,
) -> Option<EventFor<'a, TProto1>> where TProto1: ConnectionHandler, TProto2: ConnectionHandler {
    match event {
        ConnectionEvent::FullyNegotiatedInbound(negotiated) => match negotiated.protocol {
            EitherOutput::First(protocol) => Some(
                ConnectionEvent::FullyNegotiatedInbound(
                    FullyNegotiatedInbound { protocol, info: negotiated.info.0 },
                ),
            ),
            EitherOutput::Second(_) => None,
        },
        ConnectionEvent::FullyNegotiatedOutbound(negotiated) => match (
            negotiated.protocol,
            negotiated.info,
        ) {
            (EitherOutput::First(protocol), EitherOutput::First(info)) => Some(
                ConnectionEvent::FullyNegotiatedOutbound(
                    FullyNegotiatedOutbound { protocol, info },
                ),
            ),
            _ => None,
        },
        ConnectionEvent::AddressChange(address) => Some(ConnectionEvent::AddressChange(address)),
        ConnectionEvent::DialUpgradeError(failure) => match failure.info {
            EitherOutput::First(info) => Some(
                ConnectionEvent::DialUpgradeError(
                    DialUpgradeError { info, error: first_error(failure.error) },
                ),
            ),
            EitherOutput::Second(_) => None,
        },
        ConnectionEvent::ListenUpgradeError(failure) => if handshake_side(failure.error) == Some(
            false,
        ) {
            None
        } else {
            Some(
                ConnectionEvent::ListenUpgradeError(
                    ListenUpgradeError {
                        info: failure.info.0,
                        error: first_error(failure.error),
                    },
                ),
            )
        },
    }
}

/// What the second of two handlers is told when the pair is told `event`,
/// if anything. See [`first_event`].
pub open spec fn second_event<'a, TProto1, TProto2>(
    event: EventFor<'a, ConnectionHandlerSelect<TProto1, TProto2>>,
) -> Option<EventFor<'a, TProto2>> where TProto1: ConnectionHandler, TProto2: ConnectionHandler {
    match event {
        ConnectionEvent::FullyNegotiatedInbound(negotiated) => match negotiated.protocol {
            EitherOutput::First(_) => None,
            EitherOutput::Second(protocol) => Some(
                ConnectionEvent::FullyNegotiatedInbound(
                    FullyNegotiatedInbound { protocol, info: negotiated.info.1 },
                ),
            ),
        },
        ConnectionEvent::FullyNegotiatedOutbound(negotiated) => match (
            negotiated.protocol,
            negotiated.info,
        ) {
            (EitherOutput::Second(protocol), EitherOutput::Second(info)) => Some(
                ConnectionEvent::FullyNegotiatedOutbound(
                    FullyNegotiatedOutbound { protocol, info },
                ),
            ),
            _ => None,
        },
        ConnectionEvent::AddressChange(address) => Some(ConnectionEvent::AddressChange(address)),
        ConnectionEvent::DialUpgradeError(failure) => match failure.info {
            EitherOutput::First(_) => None,
            EitherOutput::Second(info) => Some(
                ConnectionEvent::DialUpgradeError(
                    DialUpgradeError { info, error: second_error(failure.error) },
                ),
            ),
        },
        ConnectionEvent::ListenUpgradeError(failure) => if handshake_side(failure.error) == Some(
            true,
        ) {
            None
        } else {
            Some(
                ConnectionEvent::ListenUpgradeError(
                    ListenUpgradeError {
                        info: failure.info.1,
                        error: second_error(failure.error),
                    },
                ),
            )
        },
    }
}

impl<TProto1, TProto2> ConnectionHandlerSelect<TProto1, TProto2> where
    TProto1: ConnectionHandler,
    TProto2: ConnectionHandler,
 {
    fn on_fully_negotiated_outbound(
        &mut self,
        negotiated: FullyNegotiatedOutbound<
            <Self as ConnectionHandler>::OutboundProtocol,
            <Self as ConnectionHandler>::OutboundOpenInfo,
        >,
    )
        requires
            Self::admits(ConnectionEvent::FullyNegotiatedOutbound(negotiated)),
        ensures
            old(self).observes(ConnectionEvent::FullyNegotiatedOutbound(negotiated), *final(self)),
    {
        let FullyNegotiatedOutbound { protocol, info: endpoint } = negotiated;
        match (protocol, endpoint) {
            (EitherOutput::First(protocol), EitherOutput::First(info)) => {
                self.proto1.on_connection_event(
                    ConnectionEvent::FullyNegotiatedOutbound(
                        FullyNegotiatedOutbound { protocol, info },
                    ),
                );
            },
            (EitherOutput::Second(protocol), EitherOutput::Second(info)) => {
                self.proto2.on_connection_event(
                    ConnectionEvent::FullyNegotiatedOutbound(
                        FullyNegotiatedOutbound { protocol, info },
                    ),
                );
            },
            (EitherOutput::First(_), EitherOutput::Second(_)) => unreached(),
            (EitherOutput::Second(_), EitherOutput::First(_)) => unreached(),
        }
    }

    fn on_fully_negotiated_inbound(
        &mut self,
        negotiated: FullyNegotiatedInbound<
            <Self as ConnectionHandler>::InboundProtocol,
            <Self as ConnectionHandler>::InboundOpenInfo,
        >,
    )
        requires
            Self::admits(ConnectionEvent::FullyNegotiatedInbound(negotiated)),
        ensures
            old(self).observes(ConnectionEvent::FullyNegotiatedInbound(negotiated), *final(self)),
    {
        let FullyNegotiatedInbound { protocol, info: (i1, i2) } = negotiated;
        match protocol {
            EitherOutput::First(protocol) => {
                self.proto1.on_connection_event(
                    ConnectionEvent::FullyNegotiatedInbound(
                        FullyNegotiatedInbound { protocol, info: i1 },
                    ),
                );
            },
            EitherOutput::Second(protocol) => {
                self.proto2.on_connection_event(
                    ConnectionEvent::FullyNegotiatedInbound(
                        FullyNegotiatedInbound { protocol, info: i2 },
                    ),
                );
            },
        }
    }

    fn on_dial_upgrade_error(
        &mut self,
        err: DialUpgradeError<
            <Self as ConnectionHandler>::OutboundOpenInfo,
            <Self as ConnectionHandler>::OutboundProtocol,
        >,
    )
        requires
            Self::admits(ConnectionEvent::DialUpgradeError(err)),
        ensures
            old(self).observes(ConnectionEvent::DialUpgradeError(err), *final(self)),
    {
        match err.transpose() {
            Either::Left(err) => self.proto1.on_connection_event(
                ConnectionEvent::DialUpgradeError(err),
            ),
            Either::Right(err) => self.proto2.on_connection_event(
                ConnectionEvent::DialUpgradeError(err),
            ),
        }
    }

    fn on_listen_upgrade_error(
        &mut self,
        failure: ListenUpgradeError<
            <Self as ConnectionHandler>::InboundOpenInfo,
            <Self as ConnectionHandler>::InboundProtocol,
        >,
    )
        requires
            Self::admits(ConnectionEvent::ListenUpgradeError(failure)),
        ensures
            old(self).observes(ConnectionEvent::ListenUpgradeError(failure), *final(self)),
    {
        let ListenUpgradeError { info: (i1, i2), error } = failure;
        match error {
            ConnectionHandlerUpgrErr::Timer => {
                self.proto1.on_connection_event(
                    ConnectionEvent::ListenUpgradeError(
                        ListenUpgradeError { info: i1, error: ConnectionHandlerUpgrErr::Timer },
                    ),
                );

                self.proto2.on_connection_event(
                    ConnectionEvent::ListenUpgradeError(
                        ListenUpgradeError { info: i2, error: ConnectionHandlerUpgrErr::Timer },
                    ),
                );
            },
            ConnectionHandlerUpgrErr::Timeout => {
                self.proto1.on_connection_event(
                    ConnectionEvent::ListenUpgradeError(
                        ListenUpgradeError { info: i1, error: ConnectionHandlerUpgrErr::Timeout },
                    ),
                );

                self.proto2.on_connection_event(
                    ConnectionEvent::ListenUpgradeError(
                        ListenUpgradeError { info: i2, error: ConnectionHandlerUpgrErr::Timeout },
                    ),
                );
            },
            ConnectionHandlerUpgrErr::Upgrade(UpgradeError::Select(cause)) => {
                self.proto1.on_connection_event(
                    ConnectionEvent::ListenUpgradeError(
                        ListenUpgradeError {
                            info: i1,
                            error: ConnectionHandlerUpgrErr::Upgrade(UpgradeError::Select(cause)),
                        },
                    ),
                );

                self.proto2.on_connection_event(
                    ConnectionEvent::ListenUpgradeError(
                        ListenUpgradeError {
                            info: i2,
                            error: ConnectionHandlerUpgrErr::Upgrade(UpgradeError::Select(cause)),
                        },
                    ),
                );
            },
            ConnectionHandlerUpgrErr::Upgrade(UpgradeError::Apply(EitherError::A(e))) => {
                self.proto1.on_connection_event(
                    ConnectionEvent::ListenUpgradeError(
                        ListenUpgradeError {
                            info: i1,
                            error: ConnectionHandlerUpgrErr::Upgrade(UpgradeError::Apply(e)),
                        },
                    ),
                );
            },
            ConnectionHandlerUpgrErr::Upgrade(UpgradeError::Apply(EitherError::B(e))) => {
                self.proto2.on_connection_event(
                    ConnectionEvent::ListenUpgradeError(
                        ListenUpgradeError {
                            info: i2,
                            error: ConnectionHandlerUpgrErr::Upgrade(UpgradeError::Apply(e)),
                        },
                    ),
                );
            },
        }
    }
}

impl<TProto1, TProto2> ConnectionHandler for ConnectionHandlerSelect<TProto1, TProto2> where
    TProto1: ConnectionHandler,
    TProto2: ConnectionHandler,
 {
    type InEvent = EitherOutput<TProto1::InEvent, TProto2::InEvent>;

    type OutEvent = EitherOutput<TProto1::OutEvent, TProto2::OutEvent>;

    type Error = EitherError<TProto1::Error, TProto2::Error>;

    type InboundProtocol = SelectUpgrade<TProto1::InboundProtocol, TProto2::InboundProtocol>;

    type OutboundProtocol = EitherUpgrade<TProto1::OutboundProtocol, TProto2::OutboundProtocol>;

    type OutboundOpenInfo = EitherOutput<TProto1::OutboundOpenInfo, TProto2::OutboundOpenInfo>;

    type InboundOpenInfo = (TProto1::InboundOpenInfo, TProto2::InboundOpenInfo);

    /// The pair announces the protocols of both sides, those of the first
    /// side first, and allows the longer of the two timeouts.
    open spec fn listens(
        &self,
        protocol: SubstreamProtocol<Self::InboundProtocol, Self::InboundOpenInfo>,
    ) -> bool {
        exists|
            proto1: SubstreamProtocol<TProto1::InboundProtocol, TProto1::InboundOpenInfo>,
            proto2: SubstreamProtocol<TProto2::InboundProtocol, TProto2::InboundOpenInfo>,
        |
            #![trigger self@.0.listens(proto1), self@.1.listens(proto2)]
            {
                &&& self@.0.listens(proto1)
                &&& self@.1.listens(proto2)
                &&& protocol.upgrade == SelectUpgrade(proto1.upgrade, proto2.upgrade)
                &&& protocol.info == (proto1.info, proto2.info)
                &&& protocol.timeout == if proto1.timeout >= proto2.timeout {
                    proto1.timeout
                } else {
                    proto2.timeout
                }
            }
    }

    fn listen_protocol(&self) -> (protocol: SubstreamProtocol<
        Self::InboundProtocol,
        Self::InboundOpenInfo,
    >) {
        let proto1 = self.proto1.listen_protocol();
        let proto2 = self.proto2.listen_protocol();
        let ghost (first, second) = (proto1, proto2);
        let timeout = if proto1.timeout() >= proto2.timeout() {
            proto1.timeout()
        } else {
            proto2.timeout()
        };
        let (u1, i1) = proto1.into_upgrade();
        let (u2, i2) = proto2.into_upgrade();
        let choice = SelectUpgrade::new(u1, u2);
        let protocol = SubstreamProtocol::new(choice, (i1, i2)).with_timeout(timeout);
        assert(self@.0.listens(first) && self@.1.listens(second));
        protocol
    }

    /// The pair asks for the more permissive of what its sides ask for.
    open spec fn keeps_alive(&self, keep_alive: KeepAlive) -> bool {
        exists|k1: KeepAlive, k2: KeepAlive|
            #![trigger self@.0.keeps_alive(k1), self@.1.keeps_alive(k2)]
            {
                &&& self@.0.keeps_alive(k1)
                &&& self@.1.keeps_alive(k2)
                &&& keep_alive == k1.most_permissive(k2)
            }
    }

    fn connection_keep_alive(&self) -> (keep_alive: KeepAlive) {
        let k1 = self.proto1.connection_keep_alive();
        let k2 = self.proto2.connection_keep_alive();
        assert(self@.0.keeps_alive(k1) && self@.1.keeps_alive(k2));
        k1.max(k2)
    }

    /// The first side is asked first. If it has something, that is the
    /// pair's answer and the second side is left alone; if not, the second
    /// side is asked and its answer is the pair's.
    open spec fn polls(&self, event: Poll<RequestOf<Self>>, post: Self) -> bool {
        exists|first: Poll<RequestOf<TProto1>>| #[trigger]
            self@.0.polls(first, post@.0) && match first {
                Poll::Ready(request) => {
                    &&& post@.1 == self@.1
                    &&& event == Poll::Ready(first_request::<TProto1, TProto2>(request))
                },
                Poll::Pending => exists|second: Poll<RequestOf<TProto2>>| #[trigger]
                    self@.1.polls(second, post@.1) && match second {
                        Poll::Ready(request) => event == Poll::Ready(
                            second_request::<TProto1, TProto2>(request),
                        ),
                        Poll::Pending => event == Poll::<RequestOf<Self>>::Pending,
                    },
            }
    }

    fn poll(&mut self, cx: &mut Context<'_>) -> (event: Poll<RequestOf<Self>>) {
        let first = self.proto1.poll(cx);
        assert(old(self)@.0.polls(first, self@.0));
        match first {
            Poll::Ready(ConnectionHandlerEvent::Custom(event)) => {
                return Poll::Ready(ConnectionHandlerEvent::Custom(EitherOutput::First(event)));
            },
            Poll::Ready(ConnectionHandlerEvent::Close(event)) => {
                return Poll::Ready(ConnectionHandlerEvent::Close(EitherError::A(event)));
            },
            Poll::Ready(ConnectionHandlerEvent::OutboundSubstreamRequest { protocol }) => {
                let first_upgrade = |u: TProto1::OutboundProtocol| -> (r: Self::OutboundProtocol)
                    ensures
                        r matches EitherUpgrade::A(inner) && inner == u,
                    { EitherUpgrade::A(u) };
                let first_info = |i: TProto1::OutboundOpenInfo| -> (r: Self::OutboundOpenInfo)
                    ensures
                        r matches EitherOutput::First(inner) && inner == i,
                    { EitherOutput::First(i) };
                return Poll::Ready(
                    ConnectionHandlerEvent::OutboundSubstreamRequest {
                        protocol: protocol.map_upgrade(first_upgrade).map_info(first_info),
                    },
                );
            },
            Poll::Pending => (),
        };

        let second = self.proto2.poll(cx);
        assert(old(self)@.1.polls(second, self@.1));
        assert(old(self)@.0.polls(first, self@.0));
        match second {
            Poll::Ready(ConnectionHandlerEvent::Custom(event)) => {
                return Poll::Ready(ConnectionHandlerEvent::Custom(EitherOutput::Second(event)));
            },
            Poll::Ready(ConnectionHandlerEvent::Close(event)) => {
                return Poll::Ready(ConnectionHandlerEvent::Close(EitherError::B(event)));
            },
            Poll::Ready(ConnectionHandlerEvent::OutboundSubstreamRequest { protocol }) => {
                let second_upgrade = |u: TProto2::OutboundProtocol| -> (r: Self::OutboundProtocol)
                    ensures
                        r matches EitherUpgrade::B(inner) && inner == u,
                    { EitherUpgrade::B(u) };
                let second_info = |i: TProto2::OutboundOpenInfo| -> (r: Self::OutboundOpenInfo)
                    ensures
                        r matches EitherOutput::Second(inner) && inner == i,
                    { EitherOutput::Second(i) };
                return Poll::Ready(
                    ConnectionHandlerEvent::OutboundSubstreamRequest {
                        protocol: protocol.map_upgrade(second_upgrade).map_info(second_info),
                    },
                );
            },
            Poll::Pending => (),
        };

        Poll::Pending
    }

    /// An event of the behaviour goes to the side it is marked for; the
    /// other side stays as it is.
    open spec fn takes(&self, event: Self::InEvent, post: Self) -> bool {
        match event {
            EitherOutput::First(event) => self@.0.takes(event, post@.0) && post@.1 == self@.1,
            EitherOutput::Second(event) => self@.1.takes(event, post@.1) && post@.0 == self@.0,
        }
    }

    fn on_behaviour_event(&mut self, event: Self::InEvent) {
        match event {
            EitherOutput::First(event) => self.proto1.on_behaviour_event(event),
            EitherOutput::Second(event) => self.proto2.on_behaviour_event(event),
        }
    }

    /// The tags inside the event agree, and each side admits what it is
    /// told.
    open spec fn admits(event: EventFor<'_, Self>) -> bool {
        &&& well_tagged::<TProto1, TProto2>(event)
        &&& first_event::<TProto1, TProto2>(event) matches Some(first) ==> TProto1::admits(first)
        &&& second_event::<TProto1, TProto2>(event) matches Some(second) ==> TProto2::admits(
            second,
        )
    }

    /// Each side moves as it does on what it is told, and stays as it is
    /// when it is told nothing.
    open spec fn observes(&self, event: EventFor<'_, Self>, post: Self) -> bool {
        &&& match first_event::<TProto1, TProto2>(event) {
            Some(first) => self@.0.observes(first, post@.0),
            None => post@.0 == self@.0,
        }
        &&& match second_event::<TProto1, TProto2>(event) {
            Some(second) => self@.1.observes(second, post@.1),
            None => post@.1 == self@.1,
        }
    }

    fn on_connection_event(&mut self, event: EventFor<'_, Self>) {
        match event {
            ConnectionEvent::FullyNegotiatedOutbound(fully_negotiated_outbound) => {
                self.on_fully_negotiated_outbound(fully_negotiated_outbound)
            },
            ConnectionEvent::FullyNegotiatedInbound(fully_negotiated_inbound) => {
                self.on_fully_negotiated_inbound(fully_negotiated_inbound)
            },
            ConnectionEvent::AddressChange(address) => {
                self.proto1.on_connection_event(
                    ConnectionEvent::AddressChange(
                        AddressChange { new_address: address.new_address },
                    ),
                );

                self.proto2.on_connection_event(
                    ConnectionEvent::AddressChange(
                        AddressChange { new_address: address.new_address },
                    ),
                );
            },
            ConnectionEvent::DialUpgradeError(dial_upgrade_error) => {
                self.on_dial_upgrade_error(dial_upgrade_error)
            },
            ConnectionEvent::ListenUpgradeError(listen_upgrade_error) => {
                self.on_listen_upgrade_error(listen_upgrade_error)
            },
        }
    }
}

/// What concerns the connection as a whole reaches both sides, and both
/// are told the same: a change of the remote's address, and a failure of an
/// inbound substream that came before a protocol was agreed on, with its
/// cause.
pub proof fn lemma_lifecycle_reaches_both<'a, TProto1, TProto2>(
    event: EventFor<'a, ConnectionHandlerSelect<TProto1, TProto2>>,
) where TProto1: ConnectionHandler, TProto2: ConnectionHandler
    ensures
        event matches ConnectionEvent::AddressChange(address) ==> {
            &&& first_event::<TProto1, TProto2>(event) == Some(
                ConnectionEvent::<
                    TProto1::InboundProtocol,
                    TProto1::OutboundProtocol,
                    TProto1::InboundOpenInfo,
                    TProto1::OutboundOpenInfo,
                >::AddressChange(address),
            )
            &&& second_event::<TProto1, TProto2>(event) == Some(
                ConnectionEvent::<
                    TProto2::InboundProtocol,
                    TProto2::OutboundProtocol,
                    TProto2::InboundOpenInfo,
                    TProto2::OutboundOpenInfo,
                >::AddressChange(address),
            )
        },
        event matches ConnectionEvent::ListenUpgradeError(failure) ==> (handshake_side(
            failure.error,
        ) is None ==> {
            &&& first_event::<TProto1, TProto2>(event) matches Some(
                ConnectionEvent::ListenUpgradeError(first),
            ) && first.info == failure.info.0 && same_cause(failure.error, first.error)
            &&& second_event::<TProto1, TProto2>(event) matches Some(
                ConnectionEvent::ListenUpgradeError(second),
            ) && second.info == failure.info.1 && same_cause(failure.error, second.error)
        }),
{
}

/// Whether `error` and `seen` are the same failure from before a protocol
/// was agreed on: the same timeout, the same failure of the timer, or a
/// failed negotiation with the same cause.
pub open spec fn same_cause<E, E1>(
    error: ConnectionHandlerUpgrErr<E>,
    seen: ConnectionHandlerUpgrErr<E1>,
) -> bool {
    match (error, seen) {
        (ConnectionHandlerUpgrErr::Timeout, ConnectionHandlerUpgrErr::Timeout) => true,
        (ConnectionHandlerUpgrErr::Timer, ConnectionHandlerUpgrErr::Timer) => true,
        (
            ConnectionHandlerUpgrErr::Upgrade(UpgradeError::Select(cause)),
            ConnectionHandlerUpgrErr::Upgrade(UpgradeError::Select(seen_cause)),
        ) => cause == seen_cause,
        _ => false,
    }
}

/// What belongs to one side reaches that side alone: a substream whose
/// protocol was agreed on, and the failure of a protocol's own handshake.
/// The other side is told nothing.
pub proof fn lemma_own_events_reach_one<'a, TProto1, TProto2>(
    event: EventFor<'a, ConnectionHandlerSelect<TProto1, TProto2>>,
) where TProto1: ConnectionHandler, TProto2: ConnectionHandler
    requires
        well_tagged::<TProto1, TProto2>(event),
    ensures
        event matches ConnectionEvent::FullyNegotiatedInbound(negotiated) ==> (
        first_event::<TProto1, TProto2>(event) is Some) == (negotiated.protocol is First) && (
        second_event::<TProto1, TProto2>(event) is Some) == (negotiated.protocol is Second),
        event matches ConnectionEvent::FullyNegotiatedOutbound(negotiated) ==> (
        first_event::<TProto1, TProto2>(event) is Some) == (negotiated.info is First) && (
        second_event::<TProto1, TProto2>(event) is Some) == (negotiated.info is Second),
        event matches ConnectionEvent::DialUpgradeError(failure) ==> (
        first_event::<TProto1, TProto2>(event) is Some) == (failure.info is First) && (
        second_event::<TProto1, TProto2>(event) is Some) == (failure.info is Second),
        event matches ConnectionEvent::ListenUpgradeError(failure) ==> (handshake_side(
            failure.error,
        ) matches Some(first) ==> (first_event::<TProto1, TProto2>(event) is Some) == first && (
        second_event::<TProto1, TProto2>(event) is Some) == !first),
        first_event::<TProto1, TProto2>(event) is Some || second_event::<TProto1, TProto2>(event)
            is Some,
{
}

/// Pairs nest: where three handlers share a connection, an event of the
/// behaviour that is marked for the second of them moves that handler as the
/// event moves it, and leaves the two others as they are.
pub proof fn lemma_nested_event_reaches_one<A, B, C>(
    select: ConnectionHandlerSelect<A, ConnectionHandlerSelect<B, C>>,
    event: B::InEvent,
    post: ConnectionHandlerSelect<A, ConnectionHandlerSelect<B, C>>,
) where A: ConnectionHandler, B: ConnectionHandler, C: ConnectionHandler
    ensures
        select.takes(EitherOutput::Second(EitherOutput::First(event)), post) <==> {
            &&& select@.1@.0.takes(event, post@.1@.0)
            &&& post@.0 == select@.0
            &&& post@.1@.1 == select@.1@.1
        },
{
}

} // verus!
