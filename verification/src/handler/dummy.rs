//! A handler that takes part in nothing.
//!
//! It offers no protocol, asks for no substream, reports nothing and lets
//! its connection go. Paired with another handler it leaves the pair to do
//! what the other does.

use crate::handler::{
    ConnectionEvent, ConnectionHandlerEvent, KeepAlive, SubstreamProtocol, DEFAULT_TIMEOUT,
};
use crate::upgrade::{InboundUpgradeSend, OutboundUpgradeSend, UpgradeInfoSend};
use std::task::{Context, Poll};
use vstd::prelude::*;

verus! {

/// An upgrade that answers to no protocol, so that it is never applied.
#[derive(Debug, Clone, Copy, PartialEq, Eq, Structural)]
pub struct DeniedUpgrade;

impl UpgradeInfoSend for DeniedUpgrade {
    type Info = Vec<u8>;

    /// No names.
    open spec fn advertises(&self, infos: Seq<Vec<u8>>) -> bool {
        infos == Seq::<Vec<u8>>::empty()
    }

    fn protocol_info(&self) -> (infos: Vec<Vec<u8>>) {
        Vec::new()
    }
}

impl InboundUpgradeSend for DeniedUpgrade {
    type Output = ();

    type Error = ();
}

impl OutboundUpgradeSend for DeniedUpgrade {
    type Output = ();

    type Error = ();
}

/// The handler that takes part in nothing.
#[derive(Debug, Clone, Copy, PartialEq, Eq, Structural)]
pub struct Handler;

impl crate::handler::ConnectionHandler for Handler {
    type InEvent = ();

    type OutEvent = ();

    type Error = ();

    type InboundProtocol = DeniedUpgrade;

    type OutboundProtocol = DeniedUpgrade;

    type InboundOpenInfo = ();

    type OutboundOpenInfo = ();

    /// The upgrade that is never applied, with the default timeout.
    open spec fn listens(&self, protocol: SubstreamProtocol<DeniedUpgrade, ()>) -> bool {
        protocol == (SubstreamProtocol {
            upgrade: DeniedUpgrade,
            info: (),
            timeout: DEFAULT_TIMEOUT,
        })
    }

    fn listen_protocol(&self) -> (protocol: SubstreamProtocol<DeniedUpgrade, ()>) {
        SubstreamProtocol::new(DeniedUpgrade, ())
    }

    /// The connection may go.
    open spec fn keeps_alive(&self, keep_alive: KeepAlive) -> bool {
        keep_alive == KeepAlive::No
    }

    fn connection_keep_alive(&self) -> (keep_alive: KeepAlive) {
        KeepAlive::No
    }

    /// Never anything.
    open spec fn polls(
        &self,
        event: Poll<ConnectionHandlerEvent<DeniedUpgrade, (), (), ()>>,
        post: Self,
    ) -> bool {
        event is Pending
    }

    fn poll(&mut self, _cx: &mut Context<'_>) -> (event: Poll<
        ConnectionHandlerEvent<DeniedUpgrade, (), (), ()>,
    >) {
        Poll::Pending
    }

    fn on_behaviour_event(&mut self, _event: ()) {
    }

    fn on_connection_event(
        &mut self,
        _event: ConnectionEvent<'_, DeniedUpgrade, DeniedUpgrade, (), ()>,
    ) {
    }
}

} // verus!
