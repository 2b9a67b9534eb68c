//! Protocol upgrades as the handlers see them: what a protocol advertises,
//! what a negotiated substream yields, and how an upgrade can fail.

use vstd::prelude::*;

verus! {

/// A value produced by one of two protocols.
#[derive(Debug, PartialEq, Eq)]
pub enum EitherOutput<A, B> {
    First(A),
    Second(B),
}

/// An error raised by one of two protocols.
#[derive(Debug, PartialEq, Eq)]
pub enum EitherError<A, B> {
    A(A),
    B(B),
}

/// A protocol name advertised by one of two upgrades.
#[derive(Debug, PartialEq, Eq)]
pub enum EitherName<A, B> {
    A(A),
    B(B),
}

/// Why an I/O operation underneath a negotiation failed.
#[derive(Debug, Clone, Copy, PartialEq, Eq, Structural)]
pub enum IoErrorKind {
    NotFound,
    PermissionDenied,
    ConnectionRefused,
    ConnectionReset,
    ConnectionAborted,
    NotConnected,
    AddrInUse,
    AddrNotAvailable,
    BrokenPipe,
    AlreadyExists,
    WouldBlock,
    InvalidInput,
    InvalidData,
    TimedOut,
    WriteZero,
    Interrupted,
    Unsupported,
    UnexpectedEof,
    OutOfMemory,
    Other,
}

/// A violation of the negotiation protocol.
#[derive(Debug, Clone, Copy, PartialEq, Eq, Structural)]
pub enum ProtocolError {
    /// The underlying stream failed.
    IoError(IoErrorKind),
    /// A frame that is no negotiation message.
    InvalidMessage,
    /// A protocol name that is not well formed.
    InvalidProtocol,
    /// More protocols were listed than the negotiation allows.
    TooManyProtocols,
}

/// Why no protocol was agreed on.
#[derive(Debug, Clone, Copy, PartialEq, Eq, Structural)]
pub enum NegotiationError {
    /// The negotiation protocol itself was violated.
    ProtocolError(ProtocolError),
    /// The peers support no protocol in common.
    Failed,
}

/// Why an upgrade did not complete.
#[derive(Debug, PartialEq, Eq)]
pub enum UpgradeError<E> {
    /// The failure came before any protocol was agreed on.
    Select(NegotiationError),
    /// The agreed protocol's own handshake failed.
    Apply(E),
}

/// What an upgrade advertises during negotiation.
pub trait UpgradeInfoSend: Sized {
    /// The name of one advertised protocol.
    type Info;

    /// Whether `infos` is a list of names that this upgrade may advertise, in
    /// the order in which it offers them. An upgrade that does not say
    /// otherwise may advertise anything.
    open spec fn advertises(&self, infos: Seq<Self::Info>) -> bool {
        true
    }

    /// The names this upgrade answers to, in the order they are offered.
    fn protocol_info(&self) -> (infos: Vec<Self::Info>)
        ensures
            self.advertises(infos@),
    ;
}

/// An upgrade that can be applied to an inbound substream.
pub trait InboundUpgradeSend: UpgradeInfoSend {
    /// What the negotiated substream yields.
    type Output;

    /// How the protocol's handshake can fail.
    type Error;
}

/// An upgrade that can be applied to an outbound substream.
pub trait OutboundUpgradeSend: UpgradeInfoSend {
    /// What the negotiated substream yields.
    type Output;

    /// How the protocol's handshake can fail.
    type Error;
}

/// Tags every name of `names` as one of the first of two upgrades.
pub open spec fn tagged_first<A, B>(names: Seq<A>) -> Seq<EitherName<A, B>> {
    Seq::new(names.len(), |i: int| EitherName::A(names[i]))
}

/// Tags every name of `names` as one of the second of two upgrades.
pub open spec fn tagged_second<A, B>(names: Seq<B>) -> Seq<EitherName<A, B>> {
    Seq::new(names.len(), |i: int| EitherName::B(names[i]))
}

/// Two upgrades offered together: the peer may pick a protocol of either.
pub struct SelectUpgrade<A, B>(pub A, pub B);

impl<A, B> SelectUpgrade<A, B> {
    /// Offers `a` and `b` together, `a`'s protocols first.
    pub fn new(a: A, b: B) -> (r: Self)
        ensures
            r.0 == a,
            r.1 == b,
    {
        SelectUpgrade(a, b)
    }
}

impl<A: UpgradeInfoSend, B: UpgradeInfoSend> UpgradeInfoSend for SelectUpgrade<A, B> {
    type Info = EitherName<A::Info, B::Info>;

    /// The names of the first upgrade, then those of the second, each tagged
    /// with the side it came from.
    open spec fn advertises(&self, infos: Seq<Self::Info>) -> bool {
        exists|a: Seq<A::Info>, b: Seq<B::Info>|
            #![trigger self.0.advertises(a), self.1.advertises(b)]
            self.0.advertises(a) && self.1.advertises(b) && infos == tagged_first::<
                A::Info,
                B::Info,
            >(a) + tagged_second::<A::Info, B::Info>(b)
    }

    fn protocol_info(&self) -> (infos: Vec<Self::Info>) {
        let first = self.0.protocol_info();
        let second = self.1.protocol_info();
        let ghost a = first@;
        let ghost b = second@;
        let mut infos: Vec<EitherName<A::Info, B::Info>> = Vec::new();
        for name in it: first
            invariant
                it.seq() == a,
                infos@ == tagged_first::<A::Info, B::Info>(a.take(it.index())),
        {
            infos.push(EitherName::A(name));
        }
        assert(a.take(a.len() as int) == a);
        for name in it: second
            invariant
                it.seq() == b,
                infos@ == tagged_first::<A::Info, B::Info>(a) + tagged_second::<A::Info, B::Info>(
                    b.take(it.index()),
                ),
        {
            infos.push(EitherName::B(name));
        }
        assert(b.take(b.len() as int) == b);
        assert(self.0.advertises(a) && self.1.advertises(b));
        infos
    }
}

impl<A: InboundUpgradeSend, B: InboundUpgradeSend> InboundUpgradeSend for SelectUpgrade<A, B> {
    type Output = EitherOutput<A::Output, B::Output>;

    type Error = EitherError<A::Error, B::Error>;
}

impl<A: OutboundUpgradeSend, B: OutboundUpgradeSend> OutboundUpgradeSend for SelectUpgrade<A, B> {
    type Output = EitherOutput<A::Output, B::Output>;

    type Error = EitherError<A::Error, B::Error>;
}

/// One of two upgrades: the protocol to apply was chosen beforehand.
#[derive(Debug)]
pub enum EitherUpgrade<A, B> {
    A(A),
    B(B),
}

impl<A: UpgradeInfoSend, B: UpgradeInfoSend> UpgradeInfoSend for EitherUpgrade<A, B> {
    type Info = EitherName<A::Info, B::Info>;

    /// The names of the upgrade that was chosen, tagged with its side.
    open spec fn advertises(&self, infos: Seq<Self::Info>) -> bool {
        match *self {
            EitherUpgrade::A(a) => exists|names: Seq<A::Info>| #[trigger]
                a.advertises(names) && infos == tagged_first::<A::Info, B::Info>(names),
            EitherUpgrade::B(b) => exists|names: Seq<B::Info>| #[trigger]
                b.advertises(names) && infos == tagged_second::<A::Info, B::Info>(names),
        }
    }

    fn protocol_info(&self) -> (infos: Vec<Self::Info>) {
        let mut infos: Vec<EitherName<A::Info, B::Info>> = Vec::new();
        match self {
            EitherUpgrade::A(a) => {
                let names = a.protocol_info();
                let ghost all = names@;
                for name in it: names
                    invariant
                        it.seq() == all,
                        infos@ == tagged_first::<A::Info, B::Info>(all.take(it.index())),
                {
                    infos.push(EitherName::A(name));
                }
                assert(all.take(all.len() as int) == all);
                assert(a.advertises(all));
            },
            EitherUpgrade::B(b) => {
                let names = b.protocol_info();
                let ghost all = names@;
                for name in it: names
                    invariant
                        it.seq() == all,
                        infos@ == tagged_second::<A::Info, B::Info>(all.take(it.index())),
                {
                    infos.push(EitherName::B(name));
                }
                assert(all.take(all.len() as int) == all);
                assert(b.advertises(all));
            },
        }
        infos
    }
}

impl<A: InboundUpgradeSend, B: InboundUpgradeSend> InboundUpgradeSend for EitherUpgrade<A, B> {
    type Output = EitherOutput<A::Output, B::Output>;

    type Error = EitherError<A::Error, B::Error>;
}

impl<A: OutboundUpgradeSend, B: OutboundUpgradeSend> OutboundUpgradeSend for EitherUpgrade<A, B> {
    type Output = EitherOutput<A::Output, B::Output>;

    type Error = EitherError<A::Error, B::Error>;
}

} // verus!
