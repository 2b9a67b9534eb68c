//! The interface between a connection and the protocol state machines that
//! run on it.

pub mod dummy;
pub mod select;

use crate::address::{ConnectedPoint, Multiaddr, PeerId};
use crate::handler::select::{ConnectionHandlerSelect, IntoConnectionHandlerSelect};
use crate::upgrade::{InboundUpgradeSend, OutboundUpgradeSend, UpgradeError};
use std::task::{Context, Poll};
use vstd::prelude::*;

verus! {

/// `std::task::Poll`, the outcome of asking a state machine for progress:
/// `Ready` with a value, or `Pending`. Verus reads the two variants from the
/// standard library itself; nothing is assumed of them.
#[verifier::external_type_specification]
#[verifier::reject_recursive_types(T)]
pub struct ExPoll<T>(Poll<T>);

/// `std::task::Context`, which holds the waker that a suspended state
/// machine is resumed through. Nothing is known of what is inside; handlers
/// hand it on untouched.
#[verifier::external_type_specification]
#[verifier::external_body]
pub struct ExContext<'a>(Context<'a>);

/// The timeout, in milliseconds, of a substream protocol that names none.
pub const DEFAULT_TIMEOUT: u64 = 10_000;

/// How long a handler needs its connection to stay open.
#[derive(Debug, Clone, Copy, PartialEq, Eq, Structural)]
pub enum KeepAlive {
    /// The connection may be closed as soon as possible.
    No,
    /// If nothing happens, the connection may be closed at the given time.
    Until(u64),
    /// The connection must stay open.
    Yes,
}

impl KeepAlive {
    /// Whether the connection has to stay open for now.
    pub fn is_yes(&self) -> (yes: bool)
        ensures
            yes == (*self == KeepAlive::Yes),
    {
        match self {
            KeepAlive::Yes => true,
            _ => false,
        }
    }

    /// Whether `self` keeps the connection open at least as long as `other`:
    /// `No` is below every deadline, a deadline is below every later one, and
    /// `Yes` is above them all.
    pub open spec fn outlasts(self, other: KeepAlive) -> bool {
        match (self, other) {
            (_, KeepAlive::No) => true,
            (KeepAlive::Yes, _) => true,
            (KeepAlive::Until(t1), KeepAlive::Until(t2)) => t1 >= t2,
            _ => false,
        }
    }

    /// The more permissive of two requirements.
    pub open spec fn most_permissive(self, other: KeepAlive) -> KeepAlive {
        if self.outlasts(other) {
            self
        } else {
            other
        }
    }

    /// The more permissive of two requirements.
    pub fn max(self, other: KeepAlive) -> (longest: KeepAlive)
        ensures
            longest == self.most_permissive(other),
    {
        match (self, other) {
            (_, KeepAlive::No) => self,
            (KeepAlive::Yes, _) => self,
            (KeepAlive::Until(t1), KeepAlive::Until(t2)) => if t1 >= t2 {
                self
            } else {
                other
            },
            _ => other,
        }
    }
}

/// The order of the requirements is an order: every requirement outlasts
/// itself, of two requirements one outlasts the other, two that outlast each
/// other are one, and what outlasts a requirement outlasts what that one
/// outlasts.
pub proof fn lemma_outlasts_is_an_order(a: KeepAlive, b: KeepAlive, c: KeepAlive)
    ensures
        a.outlasts(a),
        a.outlasts(b) || b.outlasts(a),
        a.outlasts(b) && b.outlasts(a) ==> a == b,
        a.outlasts(b) && b.outlasts(c) ==> a.outlasts(c),
{
}

/// The more permissive of two requirements is one of the two, outlasts
/// both, and is outlasted by whatever outlasts both. It does not matter in
/// which order or in which grouping requirements are combined.
pub proof fn lemma_most_permissive_is_the_maximum(a: KeepAlive, b: KeepAlive, c: KeepAlive)
    ensures
        a.most_permissive(b) == a || a.most_permissive(b) == b,
        a.most_permissive(b).outlasts(a),
        a.most_permissive(b).outlasts(b),
        c.outlasts(a) && c.outlasts(b) ==> c.outlasts(a.most_permissive(b)),
        a.most_permissive(b) == b.most_permissive(a),
        a.most_permissive(b).most_permissive(c) == a.most_permissive(b.most_permissive(c)),
        KeepAlive::Yes.most_permissive(a) == KeepAlive::Yes,
        KeepAlive::No.most_permissive(a) == a,
{
}

/// An upgrade to apply to a substream, what its handler wants to remember
/// about the request, and how long the upgrade may take.
#[derive(Debug)]
pub struct SubstreamProtocol<TUpgrade, TInfo> {
    pub upgrade: TUpgrade,
    pub info: TInfo,
    /// In milliseconds.
    pub timeout: u64,
}

impl<TUpgrade, TInfo> SubstreamProtocol<TUpgrade, TInfo> {
    /// A protocol with the default timeout.
    pub fn new(upgrade: TUpgrade, info: TInfo) -> (protocol: Self)
        ensures
            protocol == (SubstreamProtocol { upgrade, info, timeout: DEFAULT_TIMEOUT }),
    {
        SubstreamProtocol { upgrade, info, timeout: DEFAULT_TIMEOUT }
    }

    /// The same protocol with its upgrade replaced by what `f` makes of it.
    pub fn map_upgrade<U, F: FnOnce(TUpgrade) -> U>(self, f: F) -> (protocol: SubstreamProtocol<
        U,
        TInfo,
    >)
        requires
            f.requires((self.upgrade,)),
        ensures
            f.ensures((self.upgrade,), protocol.upgrade),
            protocol.info == self.info,
            protocol.timeout == self.timeout,
    {
        SubstreamProtocol { upgrade: f(self.upgrade), info: self.info, timeout: self.timeout }
    }

    /// The same protocol with its info replaced by what `f` makes of it.
    pub fn map_info<U, F: FnOnce(TInfo) -> U>(self, f: F) -> (protocol: SubstreamProtocol<
        TUpgrade,
        U,
    >)
        requires
            f.requires((self.info,)),
        ensures
            f.ensures((self.info,), protocol.info),
            protocol.upgrade == self.upgrade,
            protocol.timeout == self.timeout,
    {
        SubstreamProtocol { upgrade: self.upgrade, info: f(self.info), timeout: self.timeout }
    }

    /// The same protocol with another timeout, in milliseconds.
    pub fn with_timeout(self, timeout: u64) -> (protocol: Self)
        ensures
            protocol == (SubstreamProtocol { upgrade: self.upgrade, info: self.info, timeout }),
    {
        SubstreamProtocol { upgrade: self.upgrade, info: self.info, timeout }
    }

    /// The upgrade to apply.
    pub fn upgrade(&self) -> (upgrade: &TUpgrade)
        ensures
            *upgrade == self.upgrade,
    {
        &self.upgrade
    }

    /// What the handler remembers about the request.
    pub fn info(&self) -> (info: &TInfo)
        ensures
            *info == self.info,
    {
        &self.info
    }

    /// How long the upgrade may take, in milliseconds.
    pub fn timeout(&self) -> (timeout: u64)
        ensures
            timeout == self.timeout,
    {
        self.timeout
    }

    /// The upgrade and the info, without the timeout.
    pub fn into_upgrade(self) -> (parts: (TUpgrade, TInfo))
        ensures
            parts == (self.upgrade, self.info),
    {
        (self.upgrade, self.info)
    }
}

/// Why a substream could not be upgraded.
#[derive(Debug)]
pub enum ConnectionHandlerUpgrErr<TUpgrErr> {
    /// The upgrade took longer than its protocol allows.
    Timeout,
    /// The timer that watches the upgrade failed.
    Timer,
    /// The upgrade itself failed.
    Upgrade(UpgradeError<TUpgrErr>),
}

/// An inbound substream whose protocol has been agreed on and applied.
pub struct FullyNegotiatedInbound<IP: InboundUpgradeSend, IOI> {
    pub protocol: IP::Output,
    pub info: IOI,
}

/// An outbound substream whose protocol has been agreed on and applied.
pub struct FullyNegotiatedOutbound<OP: OutboundUpgradeSend, OOI> {
    pub protocol: OP::Output,
    pub info: OOI,
}

/// The remote's address changed.
pub struct AddressChange<'a> {
    pub new_address: &'a Multiaddr,
}

/// An outbound substream that was asked for could not be upgraded.
pub struct DialUpgradeError<OOI, OP: OutboundUpgradeSend> {
    pub info: OOI,
    pub error: ConnectionHandlerUpgrErr<OP::Error>,
}

/// An inbound substream could not be upgraded.
pub struct ListenUpgradeError<IOI, IP: InboundUpgradeSend> {
    pub info: IOI,
    pub error: ConnectionHandlerUpgrErr<IP::Error>,
}

/// What a connection tells its handler.
pub enum ConnectionEvent<'a, IP: InboundUpgradeSend, OP: OutboundUpgradeSend, IOI, OOI> {
    FullyNegotiatedInbound(FullyNegotiatedInbound<IP, IOI>),
    FullyNegotiatedOutbound(FullyNegotiatedOutbound<OP, OOI>),
    AddressChange(AddressChange<'a>),
    DialUpgradeError(DialUpgradeError<OOI, OP>),
    ListenUpgradeError(ListenUpgradeError<IOI, IP>),
}

/// What a handler asks of its connection.
#[derive(Debug)]
pub enum ConnectionHandlerEvent<TConnectionUpgrade, TOutboundOpenInfo, TCustom, TErr> {
    /// Open a new outbound substream with the given protocol.
    OutboundSubstreamRequest { protocol: SubstreamProtocol<TConnectionUpgrade, TOutboundOpenInfo> },
    /// Close the connection for the given reason.
    Close(TErr),
    /// Hand the event to the behaviour that owns the handler.
    Custom(TCustom),
}

/// A protocol state machine that runs on one connection.
///
/// Each method comes with a relation that says what the method may do. A
/// handler that does not define a relation leaves the method unconstrained;
/// composed handlers state theirs in terms of those of their parts.
pub trait ConnectionHandler: Sized {
    /// What the owning behaviour sends to the handler.
    type InEvent;

    /// What the handler reports to the owning behaviour.
    type OutEvent;

    /// The reason for which the handler closes the connection.
    type Error;

    /// The upgrade applied to inbound substreams.
    type InboundProtocol: InboundUpgradeSend;

    /// The upgrade applied to outbound substreams.
    type OutboundProtocol: OutboundUpgradeSend;

    /// What the handler remembers about an inbound substream while it is
    /// being upgraded.
    type InboundOpenInfo;

    /// What the handler remembers about an outbound substream while it is
    /// being upgraded.
    type OutboundOpenInfo;

    /// Whether the handler, in state `self`, may announce `protocol` for
    /// inbound substreams.
    open spec fn listens(
        &self,
        protocol: SubstreamProtocol<Self::InboundProtocol, Self::InboundOpenInfo>,
    ) -> bool {
        true
    }

    /// The protocol to apply to inbound substreams.
    fn listen_protocol(&self) -> (protocol: SubstreamProtocol<
        Self::InboundProtocol,
        Self::InboundOpenInfo,
    >)
        ensures
            self.listens(protocol),
    ;

    /// Whether the handler, in state `self`, may ask for `keep_alive`.
    open spec fn keeps_alive(&self, keep_alive: KeepAlive) -> bool {
        true
    }

    /// How long the connection has to stay open for this handler.
    fn connection_keep_alive(&self) -> (keep_alive: KeepAlive)
        ensures
            self.keeps_alive(keep_alive),
    ;

    /// Whether the handler, polled in state `self`, may answer `event` and
    /// move to state `post`.
    open spec fn polls(
        &self,
        event: Poll<
            ConnectionHandlerEvent<
                Self::OutboundProtocol,
                Self::OutboundOpenInfo,
                Self::OutEvent,
                Self::Error,
            >,
        >,
        post: Self,
    ) -> bool {
        true
    }

    /// Asks the handler for progress.
    fn poll(&mut self, cx: &mut Context<'_>) -> (event: Poll<
        ConnectionHandlerEvent<
            Self::OutboundProtocol,
            Self::OutboundOpenInfo,
            Self::OutEvent,
            Self::Error,
        >,
    >)
        ensures
            old(self).polls(event, *final(self)),
    ;

    /// Whether the handler, given `event` by its behaviour in state `self`,
    /// may move to state `post`.
    open spec fn takes(&self, event: Self::InEvent, post: Self) -> bool {
        true
    }

    /// Hands the handler an event of its behaviour.
    fn on_behaviour_event(&mut self, event: Self::InEvent)
        ensures
            old(self).takes(event, *final(self)),
    ;

    /// Whether `event` is one that the connection may report to a handler of
    /// this type.
    open spec fn admits(
        event: ConnectionEvent<
            '_,
            Self::InboundProtocol,
            Self::OutboundProtocol,
            Self::InboundOpenInfo,
            Self::OutboundOpenInfo,
        >,
    ) -> bool {
        true
    }

    /// Whether the handler, told of `event` in state `self`, may move to
    /// state `post`.
    open spec fn observes(
        &self,
        event: ConnectionEvent<
            '_,
            Self::InboundProtocol,
            Self::OutboundProtocol,
            Self::InboundOpenInfo,
            Self::OutboundOpenInfo,
        >,
        post: Self,
    ) -> bool {
        true
    }

    /// Tells the handler what happened on its connection.
    fn on_connection_event(
        &mut self,
        event: ConnectionEvent<
            '_,
            Self::InboundProtocol,
            Self::OutboundProtocol,
            Self::InboundOpenInfo,
            Self::OutboundOpenInfo,
        >,
    )
        requires
            Self::admits(event),
        ensures
            old(self).observes(event, *final(self)),
    ;

    /// Puts this handler and `other` on one connection, this one first.
    fn select<TProto2>(self, other: TProto2) -> (pair: ConnectionHandlerSelect<Self, TProto2>)
        ensures
            pair@ == (self, other),
    {
        ConnectionHandlerSelect::new(self, other)
    }
}

/// What becomes a [`ConnectionHandler`] once the connection it is for is
/// known.
pub trait IntoConnectionHandler: Sized {
    /// The handler that is built.
    type Handler: ConnectionHandler;

    /// Whether `self` may become `handler` on a connection to
    /// `remote_peer_id` that was established as `connected_point` says.
    open spec fn builds(
        self,
        remote_peer_id: PeerId,
        connected_point: ConnectedPoint,
        handler: Self::Handler,
    ) -> bool {
        true
    }

    /// Builds the handler for one connection.
    fn into_handler(self, remote_peer_id: &PeerId, connected_point: &ConnectedPoint) -> (handler:
        Self::Handler)
        ensures
            self.builds(*remote_peer_id, *connected_point, handler),
    ;

    /// Whether `self` may announce `protocol` for inbound substreams.
    open spec fn offers(
        &self,
        protocol: <Self::Handler as ConnectionHandler>::InboundProtocol,
    ) -> bool {
        true
    }

    /// The upgrade that the handler will apply to inbound substreams.
    fn inbound_protocol(&self) -> (protocol: <Self::Handler as ConnectionHandler>::InboundProtocol)
        ensures
            self.offers(protocol),
    ;

    /// Puts this protocol and `other` on one connection, this one first.
    fn select<TProto2>(self, other: TProto2) -> (pair: IntoConnectionHandlerSelect<Self, TProto2>)
        ensures
            pair@ == (self, other),
    {
        IntoConnectionHandlerSelect::new(self, other)
    }
}

/// A handler that needs to know nothing of its connection is what it
/// becomes.
impl<TConnectionHandler> IntoConnectionHandler for TConnectionHandler where
    TConnectionHandler: ConnectionHandler,
 {
    type Handler = Self;

    /// The handler itself.
    open spec fn builds(
        self,
        remote_peer_id: PeerId,
        connected_point: ConnectedPoint,
        handler: Self,
    ) -> bool {
        handler == self
    }

    fn into_handler(self, _remote_peer_id: &PeerId, _connected_point: &ConnectedPoint) -> (handler:
        Self) {
        self
    }

    /// The upgrade of a protocol that the handler may announce.
    open spec fn offers(&self, protocol: TConnectionHandler::InboundProtocol) -> bool {
        exists|
            announced: SubstreamProtocol<
                TConnectionHandler::InboundProtocol,
                TConnectionHandler::InboundOpenInfo,
            >,
        | #[trigger]
            self.listens(announced) && announced.upgrade == protocol
    }

    fn inbound_protocol(&self) -> (protocol: TConnectionHandler::InboundProtocol) {
        let announced = self.listen_protocol();
        assert(self.listens(announced));
        announced.into_upgrade().0
    }
}

} // verus!
