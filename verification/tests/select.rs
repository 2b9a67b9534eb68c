use circuit_relay::address::{ConnectedPoint, Endpoint, Multiaddr, PeerId};
use circuit_relay::handler::dummy;
use circuit_relay::handler::select::{
    select3, select4, ConnectionHandlerSelect, IntoConnectionHandlerSelect,
};
use circuit_relay::handler::{
    AddressChange, ConnectionEvent, ConnectionHandler, ConnectionHandlerEvent,
    ConnectionHandlerUpgrErr, DialUpgradeError, FullyNegotiatedInbound, FullyNegotiatedOutbound,
    IntoConnectionHandler, KeepAlive, ListenUpgradeError, SubstreamProtocol, DEFAULT_TIMEOUT,
};
use circuit_relay::upgrade::{
    EitherError, EitherName, EitherOutput, EitherUpgrade, InboundUpgradeSend, IoErrorKind,
    NegotiationError, OutboundUpgradeSend, ProtocolError, SelectUpgrade, UpgradeError,
    UpgradeInfoSend,
};
use either::Either;
use std::task::{Context, Poll, Waker};

/// An upgrade that answers to the given names.
#[derive(Debug, Clone, PartialEq, Eq)]
struct Named(Vec<&'static str>);

impl UpgradeInfoSend for Named {
    type Info = &'static str;

    fn protocol_info(&self) -> Vec<&'static str> {
        self.0.clone()
    }
}

impl InboundUpgradeSend for Named {
    type Output = String;
    type Error = u8;
}

impl OutboundUpgradeSend for Named {
    type Output = String;
    type Error = u8;
}

/// A handler that writes down what it is told and answers what it was
/// given to answer.
struct Recorder {
    name: &'static str,
    seen: Vec<String>,
    keep_alive: KeepAlive,
    timeout: u64,
    answers: Vec<ConnectionHandlerEvent<Named, u32, String, String>>,
}

impl Recorder {
    fn new(name: &'static str) -> Recorder {
        Recorder {
            name,
            seen: Vec::new(),
            keep_alive: KeepAlive::No,
            timeout: DEFAULT_TIMEOUT,
            answers: Vec::new(),
        }
    }
}

fn upgrade_error_text(error: &ConnectionHandlerUpgrErr<u8>) -> String {
    match error {
        ConnectionHandlerUpgrErr::Timeout => "timeout".to_string(),
        ConnectionHandlerUpgrErr::Timer => "timer".to_string(),
        ConnectionHandlerUpgrErr::Upgrade(UpgradeError::Select(cause)) => {
            format!("select {:?}", cause)
        }
        ConnectionHandlerUpgrErr::Upgrade(UpgradeError::Apply(e)) => format!("apply {}", e),
    }
}

impl ConnectionHandler for Recorder {
    type InEvent = &'static str;
    type OutEvent = String;
    type Error = String;
    type InboundProtocol = Named;
    type OutboundProtocol = Named;
    type InboundOpenInfo = u16;
    type OutboundOpenInfo = u32;

    fn listen_protocol(&self) -> SubstreamProtocol<Named, u16> {
        SubstreamProtocol::new(Named(vec![self.name]), 7).with_timeout(self.timeout)
    }

    fn connection_keep_alive(&self) -> KeepAlive {
        self.keep_alive
    }

    fn poll(
        &mut self,
        _cx: &mut Context<'_>,
    ) -> Poll<ConnectionHandlerEvent<Named, u32, String, String>> {
        if self.answers.is_empty() {
            Poll::Pending
        } else {
            Poll::Ready(self.answers.remove(0))
        }
    }

    fn on_behaviour_event(&mut self, event: &'static str) {
        self.seen.push(format!("behaviour {}", event));
    }

    fn on_connection_event(&mut self, event: ConnectionEvent<'_, Named, Named, u16, u32>) {
        let line = match event {
            ConnectionEvent::FullyNegotiatedInbound(FullyNegotiatedInbound { protocol, info }) => {
                format!("inbound {} {}", protocol, info)
            }
            ConnectionEvent::FullyNegotiatedOutbound(FullyNegotiatedOutbound {
                protocol,
                info,
            }) => format!("outbound {} {}", protocol, info),
            ConnectionEvent::AddressChange(AddressChange { new_address }) => {
                format!("address {:?}", new_address.to_bytes())
            }
            ConnectionEvent::DialUpgradeError(DialUpgradeError { info, error }) => {
                format!("dial error {} {}", info, upgrade_error_text(&error))
            }
            ConnectionEvent::ListenUpgradeError(ListenUpgradeError { info, error }) => {
                format!("listen error {} {}", info, upgrade_error_text(&error))
            }
        };
        self.seen.push(line);
    }
}

type Pair = ConnectionHandlerSelect<Recorder, Recorder>;

fn pair() -> Pair {
    ConnectionHandlerSelect::new(Recorder::new("one"), Recorder::new("two"))
}

fn seen(select: Pair) -> (Vec<String>, Vec<String>) {
    let (one, two) = select.into_inner();
    (one.seen, two.seen)
}

fn none() -> Vec<String> {
    Vec::new()
}

#[test]
fn into_inner_returns_both_handlers_in_order() {
    let select = ConnectionHandlerSelect::new(1u8, "two");
    assert_eq!(select.into_inner(), (1u8, "two"));
    let select = IntoConnectionHandlerSelect::new("one", 2u8);
    assert_eq!(select.into_inner(), ("one", 2u8));
}

#[test]
fn clone_copies_both_sides() {
    let select = ConnectionHandlerSelect::new(vec![1u8, 2], 3u32);
    let copy = select.clone();
    assert_eq!(copy.into_inner(), (vec![1u8, 2], 3u32));
    assert_eq!(select.into_inner(), (vec![1u8, 2], 3u32));
}

#[test]
fn behaviour_event_goes_to_the_side_it_is_marked_for() {
    let mut select = pair();
    select.on_behaviour_event(EitherOutput::First("a"));
    select.on_behaviour_event(EitherOutput::Second("b"));
    select.on_behaviour_event(EitherOutput::Second("c"));
    assert_eq!(
        seen(select),
        (
            vec!["behaviour a".to_string()],
            vec!["behaviour b".to_string(), "behaviour c".to_string()]
        )
    );
}

#[test]
fn negotiated_inbound_substream_goes_to_its_side_with_that_sides_info() {
    let mut select = pair();
    select.on_connection_event(ConnectionEvent::FullyNegotiatedInbound(FullyNegotiatedInbound {
        protocol: EitherOutput::First("stream".to_string()),
        info: (1, 2),
    }));
    assert_eq!(seen(select), (vec!["inbound stream 1".to_string()], none()));

    let mut select = pair();
    select.on_connection_event(ConnectionEvent::FullyNegotiatedInbound(FullyNegotiatedInbound {
        protocol: EitherOutput::Second("stream".to_string()),
        info: (1, 2),
    }));
    assert_eq!(seen(select), (none(), vec!["inbound stream 2".to_string()]));
}

#[test]
fn negotiated_outbound_substream_goes_to_the_side_that_asked() {
    let mut select = pair();
    select.on_connection_event(ConnectionEvent::FullyNegotiatedOutbound(
        FullyNegotiatedOutbound {
            protocol: EitherOutput::First("out".to_string()),
            info: EitherOutput::First(11),
        },
    ));
    select.on_connection_event(ConnectionEvent::FullyNegotiatedOutbound(
        FullyNegotiatedOutbound {
            protocol: EitherOutput::Second("put".to_string()),
            info: EitherOutput::Second(22),
        },
    ));
    assert_eq!(
        seen(select),
        (vec!["outbound out 11".to_string()], vec!["outbound put 22".to_string()])
    );
}

#[test]
fn address_change_reaches_both_sides() {
    let address = Multiaddr::from_bytes(vec![4, 127, 0, 0, 1]);
    let mut select = pair();
    select.on_connection_event(ConnectionEvent::AddressChange(AddressChange {
        new_address: &address,
    }));
    let line = "address [4, 127, 0, 0, 1]".to_string();
    assert_eq!(seen(select), (vec![line.clone()], vec![line]));
}

fn listen_failure(
    error: ConnectionHandlerUpgrErr<EitherError<u8, u8>>,
) -> (Vec<String>, Vec<String>) {
    let mut select = pair();
    select.on_connection_event(ConnectionEvent::ListenUpgradeError(ListenUpgradeError {
        info: (1, 2),
        error,
    }));
    seen(select)
}

#[test]
fn listen_failure_before_negotiation_reaches_both_sides_with_its_cause() {
    assert_eq!(
        listen_failure(ConnectionHandlerUpgrErr::Timer),
        (vec!["listen error 1 timer".to_string()], vec!["listen error 2 timer".to_string()])
    );
    assert_eq!(
        listen_failure(ConnectionHandlerUpgrErr::Timeout),
        (vec!["listen error 1 timeout".to_string()], vec!["listen error 2 timeout".to_string()])
    );
    assert_eq!(
        listen_failure(ConnectionHandlerUpgrErr::Upgrade(UpgradeError::Select(
            NegotiationError::Failed
        ))),
        (
            vec!["listen error 1 select Failed".to_string()],
            vec!["listen error 2 select Failed".to_string()]
        )
    );
    for (cause, text) in [
        (ProtocolError::InvalidMessage, "ProtocolError(InvalidMessage)"),
        (ProtocolError::InvalidProtocol, "ProtocolError(InvalidProtocol)"),
        (ProtocolError::TooManyProtocols, "ProtocolError(TooManyProtocols)"),
        (
            ProtocolError::IoError(IoErrorKind::BrokenPipe),
            "ProtocolError(IoError(BrokenPipe))",
        ),
    ] {
        assert_eq!(
            listen_failure(ConnectionHandlerUpgrErr::Upgrade(UpgradeError::Select(
                NegotiationError::ProtocolError(cause)
            ))),
            (
                vec![format!("listen error 1 select {}", text)],
                vec![format!("listen error 2 select {}", text)]
            )
        );
    }
}

#[test]
fn listen_failure_of_a_handshake_reaches_its_side_alone() {
    assert_eq!(
        listen_failure(ConnectionHandlerUpgrErr::Upgrade(UpgradeError::Apply(EitherError::A(
            9
        )))),
        (vec!["listen error 1 apply 9".to_string()], none())
    );
    assert_eq!(
        listen_failure(ConnectionHandlerUpgrErr::Upgrade(UpgradeError::Apply(EitherError::B(
            8
        )))),
        (none(), vec!["listen error 2 apply 8".to_string()])
    );
}

type PairDialError =
    DialUpgradeError<EitherOutput<u32, u32>, EitherUpgrade<Named, Named>>;

fn dial_text(side: Either<DialUpgradeError<u32, Named>, DialUpgradeError<u32, Named>>) -> String {
    match side {
        Either::Left(e) => format!("left {} {}", e.info, upgrade_error_text(&e.error)),
        Either::Right(e) => format!("right {} {}", e.info, upgrade_error_text(&e.error)),
    }
}

#[test]
fn transpose_hands_the_failure_to_the_side_that_asked() {
    let cases: Vec<(PairDialError, &str)> = vec![
        (
            DialUpgradeError { info: EitherOutput::First(1), error: ConnectionHandlerUpgrErr::Timer },
            "left 1 timer",
        ),
        (
            DialUpgradeError {
                info: EitherOutput::First(2),
                error: ConnectionHandlerUpgrErr::Timeout,
            },
            "left 2 timeout",
        ),
        (
            DialUpgradeError {
                info: EitherOutput::First(3),
                error: ConnectionHandlerUpgrErr::Upgrade(UpgradeError::Select(
                    NegotiationError::Failed,
                )),
            },
            "left 3 select Failed",
        ),
        (
            DialUpgradeError {
                info: EitherOutput::First(4),
                error: ConnectionHandlerUpgrErr::Upgrade(UpgradeError::Apply(EitherError::A(40))),
            },
            "left 4 apply 40",
        ),
        (
            DialUpgradeError {
                info: EitherOutput::Second(5),
                error: ConnectionHandlerUpgrErr::Timer,
            },
            "right 5 timer",
        ),
        (
            DialUpgradeError {
                info: EitherOutput::Second(6),
                error: ConnectionHandlerUpgrErr::Timeout,
            },
            "right 6 timeout",
        ),
        (
            DialUpgradeError {
                info: EitherOutput::Second(7),
                error: ConnectionHandlerUpgrErr::Upgrade(UpgradeError::Select(
                    NegotiationError::ProtocolError(ProtocolError::InvalidMessage),
                )),
            },
            "right 7 select ProtocolError(InvalidMessage)",
        ),
        (
            DialUpgradeError {
                info: EitherOutput::Second(8),
                error: ConnectionHandlerUpgrErr::Upgrade(UpgradeError::Apply(EitherError::B(80))),
            },
            "right 8 apply 80",
        ),
    ];
    for (failure, expected) in cases {
        assert!(failure.is_consistent());
        assert_eq!(dial_text(failure.transpose()), expected);
    }
}

#[test]
fn a_failure_tagged_for_the_other_side_is_told_apart() {
    let crossed: PairDialError = DialUpgradeError {
        info: EitherOutput::First(1),
        error: ConnectionHandlerUpgrErr::Upgrade(UpgradeError::Apply(EitherError::B(1))),
    };
    assert!(!crossed.is_consistent());
    let crossed: PairDialError = DialUpgradeError {
        info: EitherOutput::Second(1),
        error: ConnectionHandlerUpgrErr::Upgrade(UpgradeError::Apply(EitherError::A(1))),
    };
    assert!(!crossed.is_consistent());
    match crossed.try_transpose() {
        Err(back) => {
            assert_eq!(back.info, EitherOutput::Second(1));
            assert_eq!(upgrade_error_pair_text(&back.error), "apply A(1)");
        }
        Ok(side) => panic!("{}", dial_text(side)),
    }
    let straight: PairDialError = DialUpgradeError {
        info: EitherOutput::Second(2),
        error: ConnectionHandlerUpgrErr::Upgrade(UpgradeError::Apply(EitherError::B(7))),
    };
    assert_eq!(straight.try_transpose().ok().map(dial_text), Some("right 2 apply 7".to_string()));
}

fn upgrade_error_pair_text(error: &ConnectionHandlerUpgrErr<EitherError<u8, u8>>) -> String {
    match error {
        ConnectionHandlerUpgrErr::Timeout => "timeout".to_string(),
        ConnectionHandlerUpgrErr::Timer => "timer".to_string(),
        ConnectionHandlerUpgrErr::Upgrade(UpgradeError::Select(cause)) => {
            format!("select {:?}", cause)
        }
        ConnectionHandlerUpgrErr::Upgrade(UpgradeError::Apply(e)) => format!("apply {:?}", e),
    }
}

#[test]
fn dial_failure_goes_to_the_side_that_asked() {
    let mut select = pair();
    select.on_connection_event(ConnectionEvent::DialUpgradeError(DialUpgradeError {
        info: EitherOutput::Second(5),
        error: ConnectionHandlerUpgrErr::Upgrade(UpgradeError::Apply(EitherError::B(3))),
    }));
    select.on_connection_event(ConnectionEvent::DialUpgradeError(DialUpgradeError {
        info: EitherOutput::First(6),
        error: ConnectionHandlerUpgrErr::Timeout,
    }));
    assert_eq!(
        seen(select),
        (vec!["dial error 6 timeout".to_string()], vec!["dial error 5 apply 3".to_string()])
    );
}

fn keep_alive_of(one: KeepAlive, two: KeepAlive) -> KeepAlive {
    let mut a = Recorder::new("one");
    a.keep_alive = one;
    let mut b = Recorder::new("two");
    b.keep_alive = two;
    ConnectionHandlerSelect::new(a, b).connection_keep_alive()
}

#[test]
fn keep_alive_is_the_more_permissive_of_both_sides() {
    assert_eq!(keep_alive_of(KeepAlive::No, KeepAlive::No), KeepAlive::No);
    assert_eq!(keep_alive_of(KeepAlive::No, KeepAlive::Yes), KeepAlive::Yes);
    assert_eq!(keep_alive_of(KeepAlive::Yes, KeepAlive::No), KeepAlive::Yes);
    assert_eq!(keep_alive_of(KeepAlive::Until(5), KeepAlive::No), KeepAlive::Until(5));
    assert_eq!(keep_alive_of(KeepAlive::No, KeepAlive::Until(5)), KeepAlive::Until(5));
    assert_eq!(keep_alive_of(KeepAlive::Until(5), KeepAlive::Until(9)), KeepAlive::Until(9));
    assert_eq!(keep_alive_of(KeepAlive::Until(9), KeepAlive::Until(5)), KeepAlive::Until(9));
    assert_eq!(keep_alive_of(KeepAlive::Until(9), KeepAlive::Yes), KeepAlive::Yes);
    assert_eq!(KeepAlive::Until(3).max(KeepAlive::Until(3)), KeepAlive::Until(3));
    assert!(KeepAlive::Yes.is_yes());
    assert!(!KeepAlive::Until(u64::MAX).is_yes());
}

fn poll_text(
    event: Poll<
        ConnectionHandlerEvent<
            EitherUpgrade<Named, Named>,
            EitherOutput<u32, u32>,
            EitherOutput<String, String>,
            EitherError<String, String>,
        >,
    >,
) -> String {
    match event {
        Poll::Pending => "pending".to_string(),
        Poll::Ready(ConnectionHandlerEvent::Custom(event)) => format!("custom {:?}", event),
        Poll::Ready(ConnectionHandlerEvent::Close(error)) => format!("close {:?}", error),
        Poll::Ready(ConnectionHandlerEvent::OutboundSubstreamRequest { protocol }) => {
            format!("open {:?} {:?} {}", protocol.upgrade, protocol.info, protocol.timeout)
        }
    }
}

#[test]
fn poll_asks_the_first_side_first_and_marks_the_answer() {
    let mut one = Recorder::new("one");
    one.answers.push(ConnectionHandlerEvent::Custom("hello".to_string()));
    one.answers.push(ConnectionHandlerEvent::OutboundSubstreamRequest {
        protocol: SubstreamProtocol::new(Named(vec!["/a"]), 17).with_timeout(250),
    });
    let mut two = Recorder::new("two");
    two.answers.push(ConnectionHandlerEvent::Close("bye".to_string()));
    two.answers.push(ConnectionHandlerEvent::OutboundSubstreamRequest {
        protocol: SubstreamProtocol::new(Named(vec!["/b"]), 18),
    });
    two.answers.push(ConnectionHandlerEvent::Custom("late".to_string()));
    let mut select = ConnectionHandlerSelect::new(one, two);
    let mut cx = Context::from_waker(Waker::noop());

    assert_eq!(poll_text(select.poll(&mut cx)), "custom First(\"hello\")");
    assert_eq!(poll_text(select.poll(&mut cx)), "open A(Named([\"/a\"])) First(17) 250");
    assert_eq!(poll_text(select.poll(&mut cx)), "close B(\"bye\")");
    assert_eq!(poll_text(select.poll(&mut cx)), "open B(Named([\"/b\"])) Second(18) 10000");
    assert_eq!(poll_text(select.poll(&mut cx)), "custom Second(\"late\")");
    assert_eq!(poll_text(select.poll(&mut cx)), "pending");
}

#[test]
fn poll_leaves_the_second_side_alone_while_the_first_has_something() {
    let mut one = Recorder::new("one");
    one.answers.push(ConnectionHandlerEvent::Close("first".to_string()));
    let mut two = Recorder::new("two");
    two.answers.push(ConnectionHandlerEvent::Custom("second".to_string()));
    let mut select = ConnectionHandlerSelect::new(one, two);
    let mut cx = Context::from_waker(Waker::noop());
    assert_eq!(poll_text(select.poll(&mut cx)), "close A(\"first\")");
    let (one, two) = select.into_inner();
    assert!(one.answers.is_empty());
    assert_eq!(two.answers.len(), 1);
}

#[test]
fn listen_protocol_offers_both_sides_protocols_first_side_first() {
    let mut one = Recorder::new("one");
    one.timeout = 3000;
    let mut two = Recorder::new("two");
    two.timeout = 5000;
    let select = ConnectionHandlerSelect::new(one, two);
    let protocol = select.listen_protocol();
    assert_eq!(protocol.timeout(), 5000);
    assert_eq!(*protocol.info(), (7, 7));
    assert_eq!(
        protocol.upgrade().protocol_info(),
        vec![EitherName::A("one"), EitherName::B("two")]
    );
    let (upgrade, info) = protocol.into_upgrade();
    assert_eq!(upgrade.0, Named(vec!["one"]));
    assert_eq!(upgrade.1, Named(vec!["two"]));
    assert_eq!(info, (7, 7));
}

#[test]
fn select_upgrade_advertises_the_names_of_both_in_offer_order() {
    let upgrade = SelectUpgrade::new(Named(vec!["/a/1", "/a/2"]), Named(vec!["/b/1", "/a/1"]));
    assert_eq!(
        upgrade.protocol_info(),
        vec![
            EitherName::A("/a/1"),
            EitherName::A("/a/2"),
            EitherName::B("/b/1"),
            EitherName::B("/a/1")
        ]
    );
    let none = SelectUpgrade::new(Named(vec![]), Named(vec![]));
    assert_eq!(none.protocol_info(), Vec::<EitherName<&str, &str>>::new());
}

#[test]
fn either_upgrade_advertises_the_names_of_the_chosen_side() {
    let first: EitherUpgrade<Named, Named> = EitherUpgrade::A(Named(vec!["/a", "/b"]));
    assert_eq!(first.protocol_info(), vec![EitherName::A("/a"), EitherName::A("/b")]);
    let second: EitherUpgrade<Named, Named> = EitherUpgrade::B(Named(vec!["/c"]));
    assert_eq!(second.protocol_info(), vec![EitherName::B("/c")]);
}

#[test]
fn substream_protocol_keeps_what_it_is_given() {
    let protocol = SubstreamProtocol::new("upgrade", 5u8);
    assert_eq!(protocol.timeout(), DEFAULT_TIMEOUT);
    assert_eq!(DEFAULT_TIMEOUT, 10_000);
    let protocol = protocol
        .map_upgrade(|u: &str| u.len())
        .map_info(|i: u8| i + 1)
        .with_timeout(42);
    assert_eq!(*protocol.upgrade(), 7);
    assert_eq!(*protocol.info(), 6);
    assert_eq!(protocol.timeout(), 42);
    assert_eq!(protocol.into_upgrade(), (7, 6));
}

#[test]
fn three_handlers_share_a_connection_through_nested_pairs() {
    let inner = ConnectionHandlerSelect::new(Recorder::new("one"), Recorder::new("two"));
    let mut select = ConnectionHandlerSelect::new(inner, Recorder::new("three"));
    select.on_behaviour_event(EitherOutput::First(EitherOutput::First("a")));
    select.on_behaviour_event(EitherOutput::First(EitherOutput::Second("b")));
    select.on_behaviour_event(EitherOutput::Second("c"));
    let address = Multiaddr::from_bytes(vec![1]);
    select.on_connection_event(ConnectionEvent::AddressChange(AddressChange {
        new_address: &address,
    }));
    select.on_connection_event(ConnectionEvent::ListenUpgradeError(ListenUpgradeError {
        info: ((1, 2), 3),
        error: ConnectionHandlerUpgrErr::Upgrade(UpgradeError::Apply(EitherError::A(
            EitherError::B(5),
        ))),
    }));
    let mut two = Recorder::new("x");
    two.keep_alive = KeepAlive::Until(4);
    let (inner, three) = select.into_inner();
    let (one, other) = inner.into_inner();
    assert_eq!(one.seen, vec!["behaviour a".to_string(), "address [1]".to_string()]);
    assert_eq!(
        other.seen,
        vec![
            "behaviour b".to_string(),
            "address [1]".to_string(),
            "listen error 2 apply 5".to_string()
        ]
    );
    assert_eq!(three.seen, vec!["behaviour c".to_string(), "address [1]".to_string()]);
    assert_eq!(two.connection_keep_alive(), KeepAlive::Until(4));
}

/// A protocol that becomes a recorder once its connection is known.
struct Waiting(&'static str);

impl IntoConnectionHandler for Waiting {
    type Handler = Recorder;

    fn into_handler(self, remote_peer_id: &PeerId, connected_point: &ConnectedPoint) -> Recorder {
        let mut handler = Recorder::new(self.0);
        let how = match connected_point {
            ConnectedPoint::Dialer { .. } => "dialed",
            ConnectedPoint::Listener { .. } => "accepted",
        };
        handler.seen.push(format!("{} {:?}", how, remote_peer_id.to_bytes()));
        handler
    }

    fn inbound_protocol(&self) -> Named {
        Named(vec![self.0])
    }
}

#[test]
fn both_protocols_build_their_handler_for_the_same_connection() {
    let select = IntoConnectionHandlerSelect::new(Waiting("one"), Waiting("two"));
    let offered = select.inbound_protocol();
    assert_eq!(offered.protocol_info(), vec![EitherName::A("one"), EitherName::B("two")]);
    let peer = PeerId::from_bytes(vec![1, 2, 3]);
    let point = ConnectedPoint::Dialer {
        address: Multiaddr::from_bytes(vec![9]),
        role_override: Endpoint::Dialer,
    };
    let handler = select.into_handler(&peer, &point);
    let (one, two) = handler.into_inner();
    assert_eq!(one.name, "one");
    assert_eq!(two.name, "two");
    assert_eq!(one.seen, vec!["dialed [1, 2, 3]".to_string()]);
    assert_eq!(two.seen, vec!["dialed [1, 2, 3]".to_string()]);
}

#[test]
fn handlers_are_folded_from_the_right() {
    let (one, rest) = select3(1u8, 2u16, 3u32).into_inner();
    assert_eq!(one, 1);
    assert_eq!(rest.into_inner(), (2, 3));
    let (one, rest) = select4("a", "b", "c", "d").into_inner();
    let (two, rest) = rest.into_inner();
    assert_eq!((one, two, rest.into_inner()), ("a", "b", ("c", "d")));

    let mut select = select3(Recorder::new("one"), Recorder::new("two"), Recorder::new("three"));
    select.on_behaviour_event(EitherOutput::Second(EitherOutput::First("b")));
    select.on_connection_event(ConnectionEvent::FullyNegotiatedOutbound(
        FullyNegotiatedOutbound {
            protocol: EitherOutput::Second(EitherOutput::Second("s".to_string())),
            info: EitherOutput::Second(EitherOutput::Second(3)),
        },
    ));
    let (one, rest) = select.into_inner();
    let (two, three) = rest.into_inner();
    assert_eq!(one.seen, none());
    assert_eq!(two.seen, vec!["behaviour b".to_string()]);
    assert_eq!(three.seen, vec!["outbound s 3".to_string()]);
}

#[test]
fn select_puts_the_receiver_first() {
    let pair = ConnectionHandler::select(Recorder::new("one"), Recorder::new("two"));
    let (one, two) = pair.into_inner();
    assert_eq!((one.name, two.name), ("one", "two"));
    let pair = Waiting("a").select(Waiting("b"));
    let (a, b) = pair.into_inner();
    assert_eq!((a.0, b.0), ("a", "b"));
    // A handler that needs to know nothing of its connection stands for
    // itself.
    let pair = IntoConnectionHandler::select(Recorder::new("r"), Waiting("w"));
    assert_eq!(pair.inbound_protocol().protocol_info(), vec![EitherName::A("r"), EitherName::B("w")]);
    let peer = PeerId::from_bytes(vec![1]);
    let point = ConnectedPoint::Listener {
        local_addr: Multiaddr::from_bytes(vec![1]),
        send_back_addr: Multiaddr::from_bytes(vec![2]),
    };
    let (r, w) = pair.into_handler(&peer, &point).into_inner();
    assert_eq!(r.seen, none());
    assert_eq!(w.seen, vec!["accepted [1]".to_string()]);
}

#[test]
fn a_negotiated_substream_tagged_for_the_other_side_is_told_apart() {
    let crossed: FullyNegotiatedOutbound<EitherUpgrade<Named, Named>, EitherOutput<u32, u32>> =
        FullyNegotiatedOutbound {
            protocol: EitherOutput::First("s".to_string()),
            info: EitherOutput::Second(1),
        };
    assert!(!crossed.is_consistent());
    let straight: FullyNegotiatedOutbound<EitherUpgrade<Named, Named>, EitherOutput<u32, u32>> =
        FullyNegotiatedOutbound {
            protocol: EitherOutput::Second("s".to_string()),
            info: EitherOutput::Second(1),
        };
    assert!(straight.is_consistent());
}

#[test]
fn a_handler_that_takes_part_in_nothing_leaves_the_pair_to_the_other() {
    let mut cx = Context::from_waker(Waker::noop());
    let mut idle = dummy::Handler;
    assert_eq!(idle.connection_keep_alive(), KeepAlive::No);
    assert!(idle.poll(&mut cx).is_pending());
    assert_eq!(idle.listen_protocol().timeout(), DEFAULT_TIMEOUT);
    assert_eq!(dummy::DeniedUpgrade.protocol_info(), Vec::<Vec<u8>>::new());

    let mut other = Recorder::new("other");
    other.keep_alive = KeepAlive::Until(30);
    other.answers.push(ConnectionHandlerEvent::Custom("hello".to_string()));
    let mut select = ConnectionHandler::select(dummy::Handler, other);
    assert_eq!(select.connection_keep_alive(), KeepAlive::Until(30));
    assert!(matches!(
        select.poll(&mut cx),
        Poll::Ready(ConnectionHandlerEvent::Custom(EitherOutput::Second(_)))
    ));
    assert!(select.poll(&mut cx).is_pending());
    select.on_behaviour_event(EitherOutput::First(()));
    let address = Multiaddr::from_bytes(vec![1]);
    select.on_connection_event(ConnectionEvent::AddressChange(AddressChange {
        new_address: &address,
    }));
    let (_, other) = select.into_inner();
    assert_eq!(other.seen, vec!["address [1]".to_string()]);
}
