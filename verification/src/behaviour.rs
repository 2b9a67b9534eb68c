//! What a relay keeps of the peers it serves: their reservations, and the
//! circuits that run through it.

use crate::address::PeerId;
use crate::copy::{CopyState, CopyView};
use crate::protocol::Status;
use vstd::prelude::*;

verus! {

/// The limits that a relay works under. They are set when the relay is made
/// and do not change.
#[derive(Debug, Clone, Copy, PartialEq, Eq, Structural)]
pub struct Config {
    /// How many peers may hold a reservation at once.
    pub max_reservations: usize,
    /// How many circuits may exist at once.
    pub max_circuits: usize,
    /// How many circuits one source may have at once.
    pub max_circuits_per_peer: usize,
    /// How long a circuit may last, in seconds.
    pub max_circuit_duration: u64,
    /// How many bytes a circuit may carry, both directions together.
    pub max_circuit_bytes: u64,
    /// How long a reservation is good for, in seconds.
    pub reservation_duration: u64,
    /// The largest message, in bytes, that the relay accepts.
    pub max_message_size: usize,
}

impl Default for Config {
    fn default() -> (config: Config)
        ensures
            config == (Config {
                max_reservations: 128,
                max_circuits: 16,
                max_circuits_per_peer: 4,
                max_circuit_duration: 120,
                max_circuit_bytes: 131072,
                reservation_duration: 3600,
                max_message_size: 4096,
            }),
    {
        Config {
            max_reservations: 128,
            max_circuits: 16,
            max_circuits_per_peer: 4,
            max_circuit_duration: 120,
            max_circuit_bytes: 131072,
            reservation_duration: 3600,
            max_message_size: 4096,
        }
    }
}

/// The identifier of a circuit: a number drawn at random.
#[derive(Debug, Clone, Copy, PartialEq, Eq, Hash, Structural)]
pub struct CircuitId(pub u64);

impl CircuitId {
    /// A fresh identifier, drawn at random.
    pub fn new() -> CircuitId {
        CircuitId(crate::random_u64())
    }
}

/// The promise of a relay to accept circuits to a peer.
#[derive(Debug)]
pub struct Reservation {
    /// The peer that the promise was made to.
    pub peer: PeerId,
    /// When the promise was made, in seconds.
    pub accepted_at: u64,
    /// When the promise ends unless it is renewed, in seconds.
    pub renewal_deadline: u64,
    /// The signed proof of the promise.
    pub voucher: Vec<u8>,
}

/// A reservation as a mathematical value.
pub struct ReservationView {
    pub peer: Seq<u8>,
    pub accepted_at: u64,
    pub renewal_deadline: u64,
    pub voucher: Seq<u8>,
}

impl View for Reservation {
    type V = ReservationView;

    open spec fn view(&self) -> ReservationView {
        ReservationView {
            peer: self.peer@,
            accepted_at: self.accepted_at,
            renewal_deadline: self.renewal_deadline,
            voucher: self.voucher@,
        }
    }
}

/// How far a circuit has come.
#[derive(Debug, Clone, Copy, PartialEq, Eq, Structural)]
pub enum CircuitStatus {
    /// The relay waits for the destination to accept.
    Accepting,
    /// Both halves exist and bytes may flow.
    Accepted,
}

/// A circuit, or the slot that was taken for one.
#[derive(Debug)]
pub struct Circuit {
    pub id: CircuitId,
    /// The peer that asked for the circuit.
    pub src_peer: PeerId,
    /// The peer that the circuit leads to.
    pub dst_peer: PeerId,
    /// When the slot was taken or, once the destination has accepted, when
    /// it did, in seconds.
    pub opened_at: u64,
    /// How long the circuit may last, in seconds.
    pub max_duration: u64,
    /// How many bytes the circuit may carry.
    pub max_bytes: u64,
    pub status: CircuitStatus,
}

/// A circuit as a mathematical value.
pub struct CircuitView {
    pub id: CircuitId,
    pub src_peer: Seq<u8>,
    pub dst_peer: Seq<u8>,
    pub opened_at: u64,
    pub max_duration: u64,
    pub max_bytes: u64,
    pub status: CircuitStatus,
}

impl View for Circuit {
    type V = CircuitView;

    open spec fn view(&self) -> CircuitView {
        CircuitView {
            id: self.id,
            src_peer: self.src_peer@,
            dst_peer: self.dst_peer@,
            opened_at: self.opened_at,
            max_duration: self.max_duration,
            max_bytes: self.max_bytes,
            status: self.status,
        }
    }
}

/// The views of the reservations in `table`, in the same order.
pub open spec fn reservation_views(table: Seq<Reservation>) -> Seq<ReservationView> {
    table.map_values(|r: Reservation| r@)
}

/// The views of the circuits in `table`, in the same order.
pub open spec fn circuit_views(table: Seq<Circuit>) -> Seq<CircuitView> {
    table.map_values(|c: Circuit| c@)
}

/// How many of `circuits`, slots included, `peer` is the source of.
pub open spec fn count_from(circuits: Seq<CircuitView>, peer: Seq<u8>) -> nat {
    circuits.filter(|c: CircuitView| c.src_peer == peer).len()
}

/// Holds of every circuit but the one that goes by `id`.
pub open spec fn other_than(id: CircuitId) -> spec_fn(CircuitView) -> bool {
    |c: CircuitView| c.id != id
}

/// Holds of the circuits that neither come from `peer` nor lead to it.
pub open spec fn apart_from(peer: Seq<u8>) -> spec_fn(CircuitView) -> bool {
    |c: CircuitView| c.src_peer != peer && c.dst_peer != peer
}

/// Holds of every reservation but that of `peer`.
pub open spec fn not_of(peer: Seq<u8>) -> spec_fn(ReservationView) -> bool {
    |r: ReservationView| r.peer != peer
}

/// Holds of the reservations whose deadline lies after `now`.
pub open spec fn good_after(now: u64) -> spec_fn(ReservationView) -> bool {
    |r: ReservationView| r.renewal_deadline > now
}

/// Which circuits to take out of the table.
enum CircuitsToDrop<'a> {
    /// The one that goes by this identifier.
    Id(CircuitId),
    /// Those from or to this peer.
    Of(&'a PeerId),
}

impl<'a> CircuitsToDrop<'a> {
    /// Holds of the circuits that stay.
    spec fn keeps(self) -> spec_fn(CircuitView) -> bool {
        match self {
            CircuitsToDrop::Id(id) => other_than(id),
            CircuitsToDrop::Of(peer) => apart_from(peer@),
        }
    }

    /// Whether `circuit` stays.
    fn spares(&self, circuit: &Circuit) -> (stays: bool)
        ensures
            stays == (self.keeps())(circuit@),
    {
        match self {
            CircuitsToDrop::Id(id) => circuit.id.0 != id.0,
            CircuitsToDrop::Of(peer) => !circuit.src_peer.same_as(peer) && !circuit.dst_peer.same_as(
                peer,
            ),
        }
    }
}

/// Which reservations to take out of the table.
enum ReservationsToDrop<'a> {
    /// The one of this peer.
    Of(&'a PeerId),
    /// Those whose deadline has come at this time.
    DueAt(u64),
}

impl<'a> ReservationsToDrop<'a> {
    /// Holds of the reservations that stay.
    spec fn keeps(self) -> spec_fn(ReservationView) -> bool {
        match self {
            ReservationsToDrop::Of(peer) => not_of(peer@),
            ReservationsToDrop::DueAt(now) => good_after(now),
        }
    }

    /// Whether `reservation` stays.
    fn spares(&self, reservation: &Reservation) -> (stays: bool)
        ensures
            stays == (self.keeps())(reservation@),
    {
        match self {
            ReservationsToDrop::Of(peer) => !reservation.peer.same_as(peer),
            ReservationsToDrop::DueAt(now) => reservation.renewal_deadline > *now,
        }
    }
}

/// What is left of `table` without the circuits that `which` names, in the
/// order they had.
fn drop_circuits(table: Vec<Circuit>, which: &CircuitsToDrop<'_>) -> (kept: Vec<Circuit>)
    ensures
        circuit_views(kept@) == circuit_views(table@).filter(which.keeps()),
{
    let ghost all = circuit_views(table@);
    let ghost whole = table@;
    let mut kept: Vec<Circuit> = Vec::new();
    proof {
        reveal(Seq::filter);
        assert(all.take(0).filter(which.keeps()) =~= Seq::empty());
        assert(circuit_views(kept@) =~= Seq::empty());
    }
    for circuit in it: table
        invariant
            it.seq() == whole,
            all == circuit_views(whole),
            circuit_views(kept@) == all.take(it.index()).filter(which.keeps()),
    {
        proof {
            all.take(it.index()).lemma_filter_push(circuit@, which.keeps());
            assert(all.take(it.index() + 1) =~= all.take(it.index()).push(circuit@));
        }
        if which.spares(&circuit) {
            proof {
                assert(circuit_views(kept@.push(circuit)) =~= circuit_views(kept@).push(circuit@));
            }
            kept.push(circuit);
        }
    }
    proof {
        assert(all.take(all.len() as int) =~= all);
    }
    kept
}

/// What is left of `table` without the reservations that `which` names, in
/// the order they had.
fn drop_reservations(table: Vec<Reservation>, which: &ReservationsToDrop<'_>) -> (kept: Vec<
    Reservation,
>)
    ensures
        reservation_views(kept@) == reservation_views(table@).filter(which.keeps()),
{
    let ghost all = reservation_views(table@);
    let ghost whole = table@;
    let mut kept: Vec<Reservation> = Vec::new();
    proof {
        reveal(Seq::filter);
        assert(all.take(0).filter(which.keeps()) =~= Seq::empty());
        assert(reservation_views(kept@) =~= Seq::empty());
    }
    for reservation in it: table
        invariant
            it.seq() == whole,
            all == reservation_views(whole),
            reservation_views(kept@) == all.take(it.index()).filter(which.keeps()),
    {
        proof {
            all.take(it.index()).lemma_filter_push(reservation@, which.keeps());
            assert(all.take(it.index() + 1) =~= all.take(it.index()).push(reservation@));
        }
        if which.spares(&reservation) {
            proof {
                assert(reservation_views(kept@.push(reservation)) =~= reservation_views(
                    kept@,
                ).push(reservation@));
            }
            kept.push(reservation);
        }
    }
    proof {
        assert(all.take(all.len() as int) =~= all);
    }
    kept
}

/// How a relay answers a request for a reservation.
#[derive(Debug, Clone, Copy, PartialEq, Eq, Structural)]
pub enum ReserveOutcome {
    /// The reservation stands until `expire`, in seconds. `renewed` tells
    /// whether it took the place of an earlier one of the same peer.
    Accepted { expire: u64, renewed: bool },
    /// The request is refused with the given status; nothing was changed.
    Denied(Status),
}

/// How a relay answers a request for a circuit.
#[derive(Debug, Clone, Copy, PartialEq, Eq, Structural)]
pub enum ConnectOutcome {
    /// A slot was taken for the circuit. The relay now has to ask the
    /// destination, proposing the given limits, and to report the answer.
    Dial { circuit: CircuitId, max_duration: u64, max_bytes: u64 },
    /// The request is refused with the given status; nothing was changed.
    Denied(Status),
}

/// A request for a circuit together with the identifier drawn for it.
pub struct ConnectRequest {
    pub src: Seq<u8>,
    pub dst: Seq<u8>,
    pub id: CircuitId,
}

/// The state of a relay as a mathematical value.
pub struct BehaviourView {
    pub local_peer: Seq<u8>,
    pub config: Config,
    pub reservations: Seq<ReservationView>,
    pub circuits: Seq<CircuitView>,
}

impl BehaviourView {
    /// Whether `peer` holds a reservation.
    pub open spec fn holds_reservation(self, peer: Seq<u8>) -> bool {
        exists|i: int| 0 <= i < self.reservations.len() && #[trigger] self.reservations[i].peer == peer
    }

    /// Whether a circuit, or the slot for one, goes by `id`.
    pub open spec fn has_circuit(self, id: CircuitId) -> bool {
        exists|i: int| 0 <= i < self.circuits.len() && #[trigger] self.circuits[i].id == id
    }

    /// How many circuits, slots included, `peer` is the source of.
    pub open spec fn circuits_from(self, peer: Seq<u8>) -> nat {
        count_from(self.circuits, peer)
    }

    /// What holds of a relay at all times: no peer has two reservations, no
    /// two circuits share an identifier, and no table is over its limit.
    pub open spec fn wf(self) -> bool {
        &&& forall|i: int, j: int|
            0 <= i < j < self.reservations.len() ==> self.reservations[i].peer
                != self.reservations[j].peer
        &&& forall|i: int, j: int|
            0 <= i < j < self.circuits.len() ==> self.circuits[i].id != self.circuits[j].id
        &&& self.reservations.len() <= self.config.max_reservations
        &&& self.circuits.len() <= self.config.max_circuits
        &&& forall|peer: Seq<u8>| #[trigger]
            count_from(self.circuits, peer) <= self.config.max_circuits_per_peer
    }

    /// The answer to a request of `src` for a reservation at time `now`.
    /// `permitted` is what the relay's policy says of the request.
    ///
    /// A request that the policy forbids is denied. One that would take a
    /// place in a full table is refused for the limit; a renewal takes no
    /// new place and is granted even then.
    pub open spec fn reserve_outcome(self, src: Seq<u8>, permitted: bool, now: u64) -> ReserveOutcome {
        if !permitted {
            ReserveOutcome::Denied(Status::PermissionDenied)
        } else if !self.holds_reservation(src) && self.reservations.len()
            >= self.config.max_reservations {
            ReserveOutcome::Denied(Status::ResourceLimitExceeded)
        } else {
            ReserveOutcome::Accepted {
                expire: (now + self.config.reservation_duration) as u64,
                renewed: self.holds_reservation(src),
            }
        }
    }

    /// The relay after a request of `src` for a reservation at time `now`:
    /// unchanged if the request is denied; else the reservation of `src` is
    /// the new one, in the place of the earlier one if there was one.
    pub open spec fn reserve(
        self,
        src: Seq<u8>,
        permitted: bool,
        voucher: Seq<u8>,
        now: u64,
    ) -> BehaviourView {
        match self.reserve_outcome(src, permitted, now) {
            ReserveOutcome::Denied(_) => self,
            ReserveOutcome::Accepted { expire, renewed } => {
                let granted = ReservationView {
                    peer: src,
                    accepted_at: now,
                    renewal_deadline: expire,
                    voucher,
                };
                BehaviourView {
                    reservations: if renewed {
                        self.reservations.map_values(
                            |r: ReservationView|
                                if r.peer == src {
                                    granted
                                } else {
                                    r
                                },
                        )
                    } else {
                        self.reservations.push(granted)
                    },
                    ..self
                }
            },
        }
    }

    /// How many reservations `peer` holds.
    pub open spec fn reservations_of(self, peer: Seq<u8>) -> nat {
        self.reservations.filter(|r: ReservationView| r.peer == peer).len()
    }

    /// Whether a slot goes by `id` whose destination has not answered yet.
    pub open spec fn awaits(self, id: CircuitId) -> bool {
        exists|i: int|
            0 <= i < self.circuits.len() && #[trigger] self.circuits[i].id == id
                && self.circuits[i].status == CircuitStatus::Accepting
    }

    /// The answer to a request of `src` for a circuit to `dst`, for which
    /// the identifier `id` was drawn.
    ///
    /// A circuit to the relay itself or back to its source is denied. One
    /// that would exceed the number of circuits, of all or of `src`, is
    /// refused for the limit, and so is one whose identifier is in use.
    pub open spec fn connect_outcome(self, src: Seq<u8>, dst: Seq<u8>, id: CircuitId) -> ConnectOutcome {
        if dst == self.local_peer || dst == src {
            ConnectOutcome::Denied(Status::PermissionDenied)
        } else if self.circuits.len() >= self.config.max_circuits || self.circuits_from(src)
            >= self.config.max_circuits_per_peer || self.has_circuit(id) {
            ConnectOutcome::Denied(Status::ResourceLimitExceeded)
        } else {
            ConnectOutcome::Dial {
                circuit: id,
                max_duration: self.config.max_circuit_duration,
                max_bytes: self.config.max_circuit_bytes,
            }
        }
    }

    /// The relay after a request of `src` for a circuit to `dst` at time
    /// `now`: unchanged if the request is denied; else with one more slot,
    /// which waits for the destination.
    pub open spec fn connect(self, src: Seq<u8>, dst: Seq<u8>, id: CircuitId, now: u64) -> BehaviourView {
        match self.connect_outcome(src, dst, id) {
            ConnectOutcome::Denied(_) => self,
            ConnectOutcome::Dial { circuit, max_duration, max_bytes } => BehaviourView {
                circuits: self.circuits.push(
                    CircuitView {
                        id: circuit,
                        src_peer: src,
                        dst_peer: dst,
                        opened_at: now,
                        max_duration,
                        max_bytes,
                        status: CircuitStatus::Accepting,
                    },
                ),
                ..self
            },
        }
    }

    /// The relay after it has answered `requests` one after the other, all
    /// at time `now`.
    pub open spec fn connect_all(self, requests: Seq<ConnectRequest>, now: u64) -> BehaviourView
        decreases requests.len(),
    {
        if requests.len() == 0 {
            self
        } else {
            let first = requests.first();
            self.connect(first.src, first.dst, first.id, now).connect_all(
                requests.drop_first(),
                now,
            )
        }
    }

    /// How many of `requests` the relay grants when it answers them one
    /// after the other, all at time `now`.
    pub open spec fn granted_of(self, requests: Seq<ConnectRequest>, now: u64) -> nat
        decreases requests.len(),
    {
        if requests.len() == 0 {
            0
        } else {
            let first = requests.first();
            let granted: nat = if self.connect_outcome(first.src, first.dst, first.id) is Dial {
                1
            } else {
                0
            };
            granted + self.connect(first.src, first.dst, first.id, now).granted_of(
                requests.drop_first(),
                now,
            )
        }
    }

    /// What the source is told once the destination has answered for the
    /// slot `id`: success if it accepted, failure if it did not. An answer
    /// for which no slot waits is out of place.
    pub open spec fn stop_status(self, id: CircuitId, accepted: bool) -> Status {
        if !self.awaits(id) {
            Status::UnexpectedMessage
        } else if accepted {
            Status::Success
        } else {
            Status::ConnectionFailed
        }
    }

    /// The relay after the destination has answered for the slot `id` at
    /// time `now`: if it accepted, the slot is a circuit that was opened
    /// then; if not, the slot is free again. An answer for which no slot
    /// waits changes nothing.
    pub open spec fn stop_result(self, id: CircuitId, accepted: bool, now: u64) -> BehaviourView {
        if !self.awaits(id) {
            self
        } else if accepted {
            BehaviourView {
                circuits: self.circuits.map_values(
                    |c: CircuitView|
                        if c.id == id {
                            CircuitView { opened_at: now, status: CircuitStatus::Accepted, ..c }
                        } else {
                            c
                        },
                ),
                ..self
            }
        } else {
            self.close_circuit(id)
        }
    }

    /// The relay without the circuit `id`.
    pub open spec fn close_circuit(self, id: CircuitId) -> BehaviourView {
        BehaviourView { circuits: self.circuits.filter(other_than(id)), ..self }
    }

    /// The relay after the connection to `peer` has closed: without the
    /// reservation of `peer` and without the circuits from or to it.
    pub open spec fn forget_peer(self, peer: Seq<u8>) -> BehaviourView {
        BehaviourView {
            reservations: self.reservations.filter(not_of(peer)),
            circuits: self.circuits.filter(apart_from(peer)),
            ..self
        }
    }

    /// The relay without the reservations whose deadline has come at time
    /// `now`.
    pub open spec fn evict_expired(self, now: u64) -> BehaviourView {
        BehaviourView { reservations: self.reservations.filter(good_after(now)), ..self }
    }
}

/// The relay's side of the bookkeeping: who holds a reservation, and which
/// circuits exist.
#[derive(Debug)]
pub struct Behaviour {
    local_peer: PeerId,
    config: Config,
    reservations: Vec<Reservation>,
    circuits: Vec<Circuit>,
}

impl View for Behaviour {
    type V = BehaviourView;

    closed spec fn view(&self) -> BehaviourView {
        BehaviourView {
            local_peer: self.local_peer@,
            config: self.config,
            reservations: reservation_views(self.reservations@),
            circuits: circuit_views(self.circuits@),
        }
    }
}

impl Behaviour {
    #[verifier::type_invariant]
    spec fn inv(self) -> bool {
        self@.wf()
    }

    /// A relay that goes by `local_peer`, works under `config` and serves
    /// nobody yet.
    pub fn new(local_peer: PeerId, config: Config) -> (relay: Behaviour)
        ensures
            relay@ == (BehaviourView {
                local_peer: local_peer@,
                config,
                reservations: Seq::empty(),
                circuits: Seq::empty(),
            }),
            relay@.wf(),
    {
        let relay = Behaviour {
            local_peer,
            config,
            reservations: Vec::new(),
            circuits: Vec::new(),
        };
        proof {
            assert(relay@.reservations =~= Seq::empty());
            assert(relay@.circuits =~= Seq::empty());
            assert forall|peer: Seq<u8>| #[trigger] count_from(relay@.circuits, peer) == 0 by {
                relay@.circuits.lemma_filter_len(|c: CircuitView| c.src_peer == peer);
            }
        }
        relay
    }

    /// The limits that the relay works under.
    pub fn config(&self) -> (config: Config)
        ensures
            config == self@.config,
    {
        self.config
    }

    /// How many peers hold a reservation.
    pub fn reservation_count(&self) -> (count: usize)
        ensures
            count == self@.reservations.len(),
            count <= self@.config.max_reservations,
            self@.wf(),
    {
        proof {
            use_type_invariant(self);
        }
        self.reservations.len()
    }

    /// How many circuits exist, slots included.
    pub fn circuit_count(&self) -> (count: usize)
        ensures
            count == self@.circuits.len(),
            count <= self@.config.max_circuits,
            self@.wf(),
    {
        proof {
            use_type_invariant(self);
        }
        self.circuits.len()
    }

    /// Where in the table the reservation of `peer` stands, if it has one.
    fn find_reservation(&self, peer: &PeerId) -> (found: Option<usize>)
        ensures
            match found {
                Some(i) => i < self@.reservations.len() && self@.reservations[i as int].peer
                    == peer@,
                None => !self@.holds_reservation(peer@),
            },
    {
        let mut i: usize = 0;
        while i < self.reservations.len()
            invariant
                i <= self.reservations.len(),
                forall|j: int| 0 <= j < i ==> self@.reservations[j].peer != peer@,
            decreases self.reservations.len() - i,
        {
            if self.reservations[i].peer.same_as(peer) {
                return Some(i);
            }
            i += 1;
        }
        None
    }

    /// Whether `peer` holds a reservation.
    pub fn has_reservation(&self, peer: &PeerId) -> (held: bool)
        ensures
            held == self@.holds_reservation(peer@),
    {
        self.find_reservation(peer).is_some()
    }

    /// Answers a request of `src` for a reservation at time `now`, in
    /// seconds. `permitted` is what the relay's policy says of the request,
    /// `voucher` the signed proof that goes with the reservation if it is
    /// granted.
    pub fn on_reserve(&mut self, src: &PeerId, permitted: bool, voucher: Vec<u8>, now: u64) -> (outcome:
        ReserveOutcome)
        requires
            now + old(self)@.config.reservation_duration <= u64::MAX,
        ensures
            outcome == old(self)@.reserve_outcome(src@, permitted, now),
            final(self)@ == old(self)@.reserve(src@, permitted, voucher@, now),
            outcome is Denied ==> final(self)@ == old(self)@,
            permitted && !old(self)@.holds_reservation(src@) && old(self)@.reservations.len()
                >= old(self)@.config.max_reservations ==> outcome == ReserveOutcome::Denied(
                Status::ResourceLimitExceeded,
            ),
            final(self)@.wf(),
    {
        proof {
            use_type_invariant(&*self);
        }
        if !permitted {
            return ReserveOutcome::Denied(Status::PermissionDenied);
        }
        let expire = now + self.config.reservation_duration;
        let granted = Reservation {
            peer: src.clone(),
            accepted_at: now,
            renewal_deadline: expire,
            voucher,
        };
        match self.find_reservation(src) {
            Some(i) => {
                let mut table = self.take_reservations();
                table.set(i, granted);
                proof {
                    assert(reservation_views(table@) =~= old(self)@.reserve(
                        src@,
                        permitted,
                        voucher@,
                        now,
                    ).reservations);
                }
                self.reservations = table;
                ReserveOutcome::Accepted { expire, renewed: true }
            },
            None => {
                if self.reservations.len() >= self.config.max_reservations {
                    return ReserveOutcome::Denied(Status::ResourceLimitExceeded);
                }
                let mut table = self.take_reservations();
                table.push(granted);
                proof {
                    assert(reservation_views(table@) =~= old(self)@.reserve(
                        src@,
                        permitted,
                        voucher@,
                        now,
                    ).reservations);
                }
                self.reservations = table;
                ReserveOutcome::Accepted { expire, renewed: false }
            },
        }
    }

    /// Where in the table the circuit `id` stands, if there is one.
    fn find_circuit(&self, id: CircuitId) -> (found: Option<usize>)
        ensures
            match found {
                Some(i) => i < self@.circuits.len() && self@.circuits[i as int].id == id,
                None => !self@.has_circuit(id),
            },
    {
        let mut i: usize = 0;
        while i < self.circuits.len()
            invariant
                i <= self.circuits.len(),
                forall|j: int| 0 <= j < i ==> self@.circuits[j].id != id,
            decreases self.circuits.len() - i,
        {
            if self.circuits[i].id.0 == id.0 {
                return Some(i);
            }
            i += 1;
        }
        None
    }

    /// How far the circuit `id` has come, if there is one.
    pub fn circuit_status(&self, id: CircuitId) -> (status: Option<CircuitStatus>)
        ensures
            status is Some == self@.has_circuit(id),
            status == Some(CircuitStatus::Accepting) <==> self@.awaits(id),
    {
        proof {
            use_type_invariant(self);
        }
        match self.find_circuit(id) {
            Some(i) => Some(self.circuits[i].status),
            None => None,
        }
    }

    /// When the reservation of `peer` ends unless it is renewed, in seconds,
    /// if `peer` holds one.
    pub fn renewal_deadline(&self, peer: &PeerId) -> (deadline: Option<u64>)
        ensures
            deadline is Some == self@.holds_reservation(peer@),
            deadline matches Some(at) ==> exists|i: int|
                0 <= i < self@.reservations.len() && #[trigger] self@.reservations[i].peer == peer@
                    && self@.reservations[i].renewal_deadline == at,
    {
        match self.find_reservation(peer) {
            Some(i) => Some(self.reservations[i].renewal_deadline),
            None => None,
        }
    }

    /// The account to keep of the circuit `id` while bytes flow through it,
    /// if the destination has accepted it: an account that starts when the
    /// circuit was opened, with the limits that the circuit was given.
    pub fn account_for(&self, id: CircuitId) -> (account: Option<CopyState>)
        ensures
            account is Some == (self@.has_circuit(id) && !self@.awaits(id)),
            account matches Some(a) ==> exists|i: int|
                0 <= i < self@.circuits.len() && #[trigger] self@.circuits[i].id == id && a@ == (
                CopyView {
                    max_bytes: self@.circuits[i].max_bytes,
                    max_duration: self@.circuits[i].max_duration,
                    opened_at: self@.circuits[i].opened_at,
                    relayed: 0,
                    source_done: false,
                    destination_done: false,
                    ended: None,
                }),
    {
        proof {
            use_type_invariant(self);
        }
        match self.find_circuit(id) {
            None => None,
            Some(i) => {
                let circuit = &self.circuits[i];
                match circuit.status {
                    CircuitStatus::Accepting => None,
                    CircuitStatus::Accepted => {
                        assert(self@.circuits[i as int].id == id);
                        Some(
                            CopyState::new(
                                circuit.max_bytes,
                                circuit.max_duration,
                                circuit.opened_at,
                            ),
                        )
                    },
                }
            },
        }
    }

    /// How many circuits, slots included, `src` is the source of.
    pub fn circuits_from(&self, src: &PeerId) -> (count: usize)
        ensures
            count == self@.circuits_from(src@),
            count <= self@.config.max_circuits_per_peer,
    {
        proof {
            use_type_invariant(self);
            assert(count_from(self@.circuits, src@) <= self@.config.max_circuits_per_peer);
        }
        let ghost all = self@.circuits;
        let ghost from_src = |c: CircuitView| c.src_peer == src@;
        let mut count: usize = 0;
        let mut i: usize = 0;
        proof {
            reveal(Seq::filter);
            assert(all.take(0).filter(from_src) =~= Seq::empty());
        }
        while i < self.circuits.len()
            invariant
                i <= self.circuits.len(),
                all == self@.circuits,
                from_src == (|c: CircuitView| c.src_peer == src@),
                count == all.take(i as int).filter(from_src).len(),
                count <= i,
            decreases self.circuits.len() - i,
        {
            proof {
                all.take(i as int).lemma_filter_push(all[i as int], from_src);
                assert(all.take(i + 1) =~= all.take(i as int).push(all[i as int]));
            }
            if self.circuits[i].src_peer.same_as(src) {
                count += 1;
            }
            i += 1;
        }
        proof {
            assert(all.take(all.len() as int) =~= all);
        }
        count
    }

    /// Answers a request of `src` for a circuit to `dst` at time `now`, in
    /// seconds, for which the identifier `id` was drawn.
    pub fn on_connect_with_id(
        &mut self,
        src: &PeerId,
        dst: &PeerId,
        id: CircuitId,
        now: u64,
    ) -> (outcome: ConnectOutcome)
        ensures
            outcome == old(self)@.connect_outcome(src@, dst@, id),
            final(self)@ == old(self)@.connect(src@, dst@, id, now),
            outcome is Denied ==> final(self)@ == old(self)@,
            dst@ != old(self)@.local_peer && dst@ != src@ && (old(self)@.circuits.len() >= old(
                self,
            )@.config.max_circuits || old(self)@.circuits_from(src@) >= old(
                self,
            )@.config.max_circuits_per_peer) ==> outcome == ConnectOutcome::Denied(
                Status::ResourceLimitExceeded,
            ),
            final(self)@.wf(),
    {
        proof {
            use_type_invariant(&*self);
        }
        if dst.same_as(&self.local_peer) || dst.same_as(src) {
            return ConnectOutcome::Denied(Status::PermissionDenied);
        }
        if self.circuits.len() >= self.config.max_circuits || self.circuits_from(src)
            >= self.config.max_circuits_per_peer || self.find_circuit(id).is_some() {
            return ConnectOutcome::Denied(Status::ResourceLimitExceeded);
        }
        let max_duration = self.config.max_circuit_duration;
        let max_bytes = self.config.max_circuit_bytes;
        let slot = Circuit {
            id,
            src_peer: src.clone(),
            dst_peer: dst.clone(),
            opened_at: now,
            max_duration,
            max_bytes,
            status: CircuitStatus::Accepting,
        };
        let mut table = self.take_circuits();
        proof {
            let before = circuit_views(table@);
            assert(circuit_views(table@.push(slot)) =~= before.push(slot@));
            assert forall|peer: Seq<u8>| #[trigger]
                count_from(before.push(slot@), peer) <= self.config.max_circuits_per_peer by {
                before.lemma_filter_push(slot@, |c: CircuitView| c.src_peer == peer);
                assert(count_from(before, peer) <= self.config.max_circuits_per_peer);
            }
        }
        table.push(slot);
        self.circuits = table;
        ConnectOutcome::Dial { circuit: id, max_duration, max_bytes }
    }

    /// Answers a request of `src` for a circuit to `dst` at time `now`, in
    /// seconds, under an identifier that it draws at random.
    pub fn on_connect(&mut self, src: &PeerId, dst: &PeerId, now: u64) -> (outcome: ConnectOutcome)
        ensures
            exists|id: CircuitId|
                outcome == #[trigger] old(self)@.connect_outcome(src@, dst@, id) && final(self)@
                    == old(self)@.connect(src@, dst@, id, now),
            final(self)@.wf(),
    {
        let id = CircuitId::new();
        self.on_connect_with_id(src, dst, id, now)
    }

    /// Takes note of the destination's answer for the slot `id` at time
    /// `now`, in seconds, and says what to tell the source.
    pub fn on_stop_result(&mut self, id: CircuitId, accepted: bool, now: u64) -> (status: Status)
        ensures
            status == old(self)@.stop_status(id, accepted),
            final(self)@ == old(self)@.stop_result(id, accepted, now),
            final(self)@.wf(),
    {
        proof {
            use_type_invariant(&*self);
        }
        let found = self.find_circuit(id);
        match found {
            None => Status::UnexpectedMessage,
            Some(i) => {
                match self.circuits[i].status {
                    CircuitStatus::Accepted => Status::UnexpectedMessage,
                    CircuitStatus::Accepting => {
                        if accepted {
                            let mut table = self.take_circuits();
                            let ghost before = circuit_views(table@);
                            let circuit = Circuit {
                                id,
                                src_peer: table[i].src_peer.clone(),
                                dst_peer: table[i].dst_peer.clone(),
                                opened_at: now,
                                max_duration: table[i].max_duration,
                                max_bytes: table[i].max_bytes,
                                status: CircuitStatus::Accepted,
                            };
                            table.set(i, circuit);
                            proof {
                                assert(circuit_views(table@) =~= before.update(i as int, circuit@));
                                assert(circuit_views(table@) =~= old(self)@.stop_result(
                                    id,
                                    accepted,
                                    now,
                                ).circuits);
                                assert forall|peer: Seq<u8>| #[trigger]
                                    count_from(before.update(i as int, circuit@), peer) == count_from(
                                        before,
                                        peer,
                                    ) by {
                                    lemma_update_counts_same(
                                        before,
                                        i as int,
                                        circuit@,
                                        |c: CircuitView| c.src_peer == peer,
                                    );
                                }
                            }
                            self.circuits = table;
                            Status::Success
                        } else {
                            self.remove_circuits(&CircuitsToDrop::Id(id));
                            Status::ConnectionFailed
                        }
                    },
                }
            },
        }
    }

    /// Takes the circuits that `which` names out of the table.
    fn remove_circuits(&mut self, which: &CircuitsToDrop<'_>)
        ensures
            final(self)@ == (BehaviourView {
                circuits: old(self)@.circuits.filter(which.keeps()),
                ..old(self)@
            }),
            final(self)@.wf(),
    {
        proof {
            use_type_invariant(&*self);
        }
        let table = self.take_circuits();
        let ghost before = circuit_views(table@);
        let kept = drop_circuits(table, which);
        proof {
            before.lemma_filter_len(which.keeps());
            lemma_filter_keeps_apart(before, which.keeps(), |c: CircuitView| c.id);
            assert forall|peer: Seq<u8>| #[trigger]
                count_from(before.filter(which.keeps()), peer) <= count_from(before, peer) by {
                lemma_filter_counts_less(before, which.keeps(), |c: CircuitView| c.src_peer == peer);
            }
        }
        self.circuits = kept;
    }

    /// Takes the reservations that `which` names out of the table.
    fn remove_reservations(&mut self, which: &ReservationsToDrop<'_>)
        ensures
            final(self)@ == (BehaviourView {
                reservations: old(self)@.reservations.filter(which.keeps()),
                ..old(self)@
            }),
            final(self)@.wf(),
    {
        proof {
            use_type_invariant(&*self);
        }
        let table = self.take_reservations();
        let ghost before = reservation_views(table@);
        let kept = drop_reservations(table, which);
        proof {
            before.lemma_filter_len(which.keeps());
            lemma_filter_keeps_apart(before, which.keeps(), |r: ReservationView| r.peer);
        }
        self.reservations = kept;
    }

    /// Takes note that the circuit `id` has ended, and says whether there
    /// was such a circuit.
    pub fn on_circuit_closed(&mut self, id: CircuitId) -> (existed: bool)
        ensures
            existed == old(self)@.has_circuit(id),
            final(self)@ == old(self)@.close_circuit(id),
            final(self)@.wf(),
    {
        let existed = self.find_circuit(id).is_some();
        self.remove_circuits(&CircuitsToDrop::Id(id));
        existed
    }

    /// Takes note that the connection to `peer` has closed.
    pub fn on_connection_closed(&mut self, peer: &PeerId)
        ensures
            final(self)@ == old(self)@.forget_peer(peer@),
            final(self)@.wf(),
    {
        self.remove_reservations(&ReservationsToDrop::Of(peer));
        self.remove_circuits(&CircuitsToDrop::Of(peer));
    }

    /// Drops the reservations whose deadline has come at time `now`, in
    /// seconds.
    pub fn evict_expired(&mut self, now: u64)
        ensures
            final(self)@ == old(self)@.evict_expired(now),
            final(self)@.wf(),
    {
        self.remove_reservations(&ReservationsToDrop::DueAt(now));
    }

    /// Takes the table of circuits out of the relay, to be put back once it
    /// has been worked on.
    fn take_circuits(&mut self) -> (table: Vec<Circuit>)
        ensures
            table == old(self).circuits,
            final(self).circuits@ == Seq::<Circuit>::empty(),
            final(self).reservations == old(self).reservations,
            final(self).config == old(self).config,
            final(self).local_peer == old(self).local_peer,
    {
        proof {
            use_type_invariant(&*self);
            assert(circuit_views(Seq::<Circuit>::empty()) =~= Seq::empty());
            assert forall|peer: Seq<u8>| #[trigger]
                count_from(Seq::<CircuitView>::empty(), peer) == 0 by {
                Seq::<CircuitView>::empty().lemma_filter_len(|c: CircuitView| c.src_peer == peer);
            }
        }
        let mut table: Vec<Circuit> = Vec::new();
        std::mem::swap(&mut table, &mut self.circuits);
        table
    }

    /// Takes the table of reservations out of the relay, to be put back
    /// once it has been worked on.
    fn take_reservations(&mut self) -> (table: Vec<Reservation>)
        ensures
            table == old(self).reservations,
            final(self).reservations@ == Seq::<Reservation>::empty(),
            final(self).circuits == old(self).circuits,
            final(self).config == old(self).config,
            final(self).local_peer == old(self).local_peer,
    {
        proof {
            use_type_invariant(&*self);
            assert(reservation_views(Seq::<Reservation>::empty()) =~= Seq::empty());
        }
        let mut table: Vec<Reservation> = Vec::new();
        std::mem::swap(&mut table, &mut self.reservations);
        table
    }
}

/// A relay that is in order stays in order when it answers a request for a
/// reservation: no peer comes to hold two, and the table stays within its
/// limit.
pub proof fn lemma_reserve_keeps_order(
    relay: BehaviourView,
    src: Seq<u8>,
    permitted: bool,
    voucher: Seq<u8>,
    now: u64,
)
    requires
        relay.wf(),
    ensures
        relay.reserve(src, permitted, voucher, now).wf(),
{
}

/// A relay that is in order stays in order when it answers a request for a
/// circuit: identifiers stay apart, and the table stays within its limits,
/// that of each source included.
pub proof fn lemma_connect_keeps_order(
    relay: BehaviourView,
    src: Seq<u8>,
    dst: Seq<u8>,
    id: CircuitId,
    now: u64,
)
    requires
        relay.wf(),
    ensures
        relay.connect(src, dst, id, now).wf(),
{
    let after = relay.connect(src, dst, id, now);
    if relay.connect_outcome(src, dst, id) is Dial {
        let slot = after.circuits.last();
        assert forall|peer: Seq<u8>| #[trigger]
            count_from(after.circuits, peer) <= relay.config.max_circuits_per_peer by {
            relay.circuits.lemma_filter_push(slot, |c: CircuitView| c.src_peer == peer);
            assert(count_from(relay.circuits, peer) <= relay.config.max_circuits_per_peer);
        }
    }
}

/// A relay that is in order stays in order whatever else happens to it: when
/// the destination's answer is taken note of, when a circuit is closed, when
/// the connection to a peer closes, and when reservations come to their end.
pub proof fn lemma_other_steps_keep_order(
    relay: BehaviourView,
    id: CircuitId,
    accepted: bool,
    peer: Seq<u8>,
    now: u64,
)
    requires
        relay.wf(),
    ensures
        relay.stop_result(id, accepted, now).wf(),
        relay.close_circuit(id).wf(),
        relay.forget_peer(peer).wf(),
        relay.evict_expired(now).wf(),
{
    lemma_filtered_circuits_in_order(relay, other_than(id));
    lemma_filtered_circuits_in_order(relay, apart_from(peer));
    relay.reservations.lemma_filter_len(not_of(peer));
    relay.reservations.lemma_filter_len(good_after(now));
    lemma_filter_keeps_apart(relay.reservations, not_of(peer), |r: ReservationView| r.peer);
    lemma_filter_keeps_apart(relay.reservations, good_after(now), |r: ReservationView| r.peer);
    if relay.awaits(id) && accepted {
        let i = choose|i: int|
            0 <= i < relay.circuits.len() && #[trigger] relay.circuits[i].id == id
                && relay.circuits[i].status == CircuitStatus::Accepting;
        let opened = CircuitView {
            opened_at: now,
            status: CircuitStatus::Accepted,
            ..relay.circuits[i]
        };
        let after = relay.stop_result(id, accepted, now);
        assert(after.circuits =~= relay.circuits.update(i, opened));
        assert forall|peer: Seq<u8>| #[trigger]
            count_from(after.circuits, peer) == count_from(relay.circuits, peer) by {
            lemma_update_counts_same(relay.circuits, i, opened, |c: CircuitView| c.src_peer == peer);
        }
    }
}

/// Taking circuits out of a relay that is in order leaves its circuits in
/// order.
proof fn lemma_filtered_circuits_in_order(relay: BehaviourView, keep: spec_fn(CircuitView) -> bool)
    requires
        relay.wf(),
    ensures
        (BehaviourView { circuits: relay.circuits.filter(keep), ..relay }).wf(),
{
    relay.circuits.lemma_filter_len(keep);
    lemma_filter_keeps_apart(relay.circuits, keep, |c: CircuitView| c.id);
    assert forall|peer: Seq<u8>| #[trigger]
        count_from(relay.circuits.filter(keep), peer) <= count_from(relay.circuits, peer) by {
        lemma_filter_counts_less(relay.circuits, keep, |c: CircuitView| c.src_peer == peer);
    }
}

/// In a relay that is in order, a peer holds one reservation at most.
pub proof fn lemma_one_reservation_per_peer(relay: BehaviourView, peer: Seq<u8>)
    requires
        relay.wf(),
    ensures
        relay.reservations_of(peer) <= 1,
        relay.reservations_of(peer) == 1 <==> relay.holds_reservation(peer),
{
    lemma_count_of_key(relay.reservations, peer);
}

/// Where no two reservations of `table` are of one peer, the number of
/// those of `peer` is one if there is one, and none otherwise.
proof fn lemma_count_of_key(table: Seq<ReservationView>, peer: Seq<u8>)
    requires
        forall|i: int, j: int| 0 <= i < j < table.len() ==> table[i].peer != table[j].peer,
    ensures
        table.filter(|r: ReservationView| r.peer == peer).len() == if exists|i: int|
            0 <= i < table.len() && #[trigger] table[i].peer == peer {
            1nat
        } else {
            0nat
        },
    decreases table.len(),
{
    reveal(Seq::filter);
    let of_peer = |r: ReservationView| r.peer == peer;
    if table.len() > 0 {
        let front = table.drop_last();
        lemma_count_of_key(front, peer);
        if of_peer(table.last()) {
            assert(table[table.len() - 1].peer == peer);
            assert forall|i: int| 0 <= i < front.len() implies #[trigger] front[i].peer != peer by {
                assert(table[i].peer != table[table.len() - 1].peer);
            }
        } else {
            if exists|i: int| 0 <= i < table.len() && #[trigger] table[i].peer == peer {
                let i = choose|i: int| 0 <= i < table.len() && #[trigger] table[i].peer == peer;
                assert(front[i].peer == peer);
            } else {
                assert forall|i: int| 0 <= i < front.len() implies #[trigger] front[i].peer
                    != peer by {
                    assert(table[i].peer != peer);
                }
            }
        }
    }
}

/// A second request of a peer for a reservation takes the place of the
/// first: once a request of `src` has been granted, `src` holds exactly one
/// reservation, the one just granted; if it held one before, the table is no
/// longer than it was. The reservations of other peers are as they were.
pub proof fn lemma_renewal_replaces(
    relay: BehaviourView,
    src: Seq<u8>,
    voucher: Seq<u8>,
    now: u64,
    other: Seq<u8>,
)
    requires
        relay.wf(),
        relay.reserve_outcome(src, true, now) is Accepted,
        other != src,
    ensures
        ({
            let after = relay.reserve(src, true, voucher, now);
            &&& after.reservations_of(src) == 1
            &&& relay.holds_reservation(src) ==> after.reservations.len()
                == relay.reservations.len()
            &&& !relay.holds_reservation(src) ==> after.reservations.len()
                == relay.reservations.len() + 1
            &&& forall|i: int|
                0 <= i < after.reservations.len() && #[trigger] after.reservations[i].peer == src
                    ==> after.reservations[i] == (ReservationView {
                    peer: src,
                    accepted_at: now,
                    renewal_deadline: (now + relay.config.reservation_duration) as u64,
                    voucher,
                })
            &&& after.holds_reservation(other) == relay.holds_reservation(other)
            &&& forall|i: int|
                0 <= i < relay.reservations.len() && #[trigger] relay.reservations[i].peer == other
                    ==> after.reservations[i] == relay.reservations[i]
        }),
{
    let after = relay.reserve(src, true, voucher, now);
    if relay.holds_reservation(src) {
        let i = choose|i: int|
            0 <= i < relay.reservations.len() && #[trigger] relay.reservations[i].peer == src;
        assert(after.reservations[i].peer == src);
    } else {
        assert(after.reservations[relay.reservations.len() as int].peer == src);
    }
    if relay.holds_reservation(other) {
        let k = choose|k: int|
            0 <= k < relay.reservations.len() && #[trigger] relay.reservations[k].peer == other;
        assert(after.reservations[k].peer == other);
    }
    if after.holds_reservation(other) {
        let k = choose|k: int|
            0 <= k < after.reservations.len() && #[trigger] after.reservations[k].peer == other;
        assert(relay.reservations[k].peer == other);
    }
    lemma_reserve_keeps_order(relay, src, true, voucher, now);
    lemma_one_reservation_per_peer(after, src);
}

/// A request that would take a table over its limit is refused for the
/// limit, and leaves the relay as it was.
pub proof fn lemma_over_limit_is_refused(
    relay: BehaviourView,
    src: Seq<u8>,
    dst: Seq<u8>,
    id: CircuitId,
    voucher: Seq<u8>,
    now: u64,
)
    ensures
        !relay.holds_reservation(src) && relay.reservations.len()
            >= relay.config.max_reservations ==> relay.reserve_outcome(src, true, now)
            == ReserveOutcome::Denied(Status::ResourceLimitExceeded) && relay.reserve(
            src,
            true,
            voucher,
            now,
        ) == relay,
        dst != relay.local_peer && dst != src && (relay.circuits.len() >= relay.config.max_circuits
            || relay.circuits_from(src) >= relay.config.max_circuits_per_peer)
            ==> relay.connect_outcome(src, dst, id) == ConnectOutcome::Denied(
            Status::ResourceLimitExceeded,
        ) && relay.connect(src, dst, id, now) == relay,
{
}

/// Whether `requests` are requests of `src` for circuits to other peers than
/// itself and the relay, under identifiers that differ from one another and
/// from those in use.
pub open spec fn simultaneous_from(
    relay: BehaviourView,
    src: Seq<u8>,
    requests: Seq<ConnectRequest>,
) -> bool {
    &&& forall|k: int|
        0 <= k < requests.len() ==> {
            &&& (#[trigger] requests[k]).src == src
            &&& requests[k].dst != src
            &&& requests[k].dst != relay.local_peer
            &&& !relay.has_circuit(requests[k].id)
        }
    &&& forall|k: int, l: int| 0 <= k < l < requests.len() ==> requests[k].id != requests[l].id
}

/// Of requests that one source makes at once, the relay grants as many as
/// the source has circuits left, and refuses the others, in whatever order
/// the requests arrive: `requests` stands for any order of arrival.
///
/// The table as a whole has room for what the source has left.
pub proof fn lemma_simultaneous_connects(
    relay: BehaviourView,
    src: Seq<u8>,
    requests: Seq<ConnectRequest>,
    now: u64,
)
    requires
        relay.wf(),
        simultaneous_from(relay, src, requests),
        relay.circuits.len() + (relay.config.max_circuits_per_peer - relay.circuits_from(src))
            <= relay.config.max_circuits,
    ensures
        ({
            let left = relay.config.max_circuits_per_peer - relay.circuits_from(src);
            let granted = relay.granted_of(requests, now);
            let after = relay.connect_all(requests, now);
            &&& granted == if requests.len() <= left {
                requests.len() as int
            } else {
                left
            }
            &&& after.circuits.len() == relay.circuits.len() + granted
            &&& after.circuits_from(src) == relay.circuits_from(src) + granted
            &&& after.wf()
        }),
    decreases requests.len(),
{
    if requests.len() > 0 {
        let first = requests.first();
        let rest = requests.drop_first();
        let next = relay.connect(first.src, first.dst, first.id, now);
        assert(requests[0] == first);
        lemma_connect_keeps_order(relay, first.src, first.dst, first.id, now);
        assert(count_from(relay.circuits, src) <= relay.config.max_circuits_per_peer);
        if relay.connect_outcome(first.src, first.dst, first.id) is Dial {
            relay.circuits.lemma_filter_push(
                next.circuits.last(),
                |c: CircuitView| c.src_peer == src,
            );
        }
        assert forall|k: int| 0 <= k < rest.len() implies {
            &&& (#[trigger] rest[k]).src == src
            &&& rest[k].dst != src
            &&& rest[k].dst != next.local_peer
            &&& !next.has_circuit(rest[k].id)
        } by {
            assert(rest[k] == requests[k + 1]);
            if next.has_circuit(rest[k].id) {
                let i = choose|i: int|
                    0 <= i < next.circuits.len() && #[trigger] next.circuits[i].id == rest[k].id;
                if i < relay.circuits.len() {
                    assert(relay.circuits[i].id == rest[k].id);
                }
            }
        }
        assert forall|k: int, l: int| 0 <= k < l < rest.len() implies rest[k].id != rest[l].id by {
            assert(rest[k] == requests[k + 1]);
            assert(rest[l] == requests[l + 1]);
        }
        lemma_simultaneous_connects(next, src, rest, now);
    }
}

/// Once a circuit is closed, the table holds it no more; the other circuits
/// stay.
pub proof fn lemma_closed_is_gone(relay: BehaviourView, id: CircuitId)
    ensures
        !relay.close_circuit(id).has_circuit(id),
        !relay.close_circuit(id).awaits(id),
        forall|other: CircuitId|
            other != id ==> relay.close_circuit(id).has_circuit(other) == relay.has_circuit(other),
{
    let left = relay.circuits.filter(other_than(id));
    assert forall|i: int| 0 <= i < left.len() implies (#[trigger] left[i]).id != id
        && relay.circuits.contains(left[i]) by {
        relay.circuits.lemma_filter_pred(other_than(id), i);
        assert(left.contains(left[i]));
        relay.circuits.lemma_filter_contains_rev(other_than(id), left[i]);
    }
    assert forall|other: CircuitId| other != id implies relay.close_circuit(id).has_circuit(other)
        == relay.has_circuit(other) by {
        if relay.has_circuit(other) {
            let i = choose|i: int|
                0 <= i < relay.circuits.len() && #[trigger] relay.circuits[i].id == other;
            relay.circuits.lemma_filter_contains(other_than(id), i);
            let j = choose|j: int| 0 <= j < left.len() && left[j] == relay.circuits[i];
            assert(left[j].id == other);
        }
        if relay.close_circuit(id).has_circuit(other) {
            let j = choose|j: int| 0 <= j < left.len() && #[trigger] left[j].id == other;
            assert(relay.circuits.contains(left[j]));
            let i = choose|i: int| 0 <= i < relay.circuits.len() && relay.circuits[i] == left[j];
            assert(relay.circuits[i].id == other);
        }
    }
}

/// Filtering a sequence keeps its elements apart: if no two elements of `s`
/// share a key, no two elements of what `keep` leaves of it do. What is
/// left was there before.
proof fn lemma_filter_keeps_apart<A, K>(s: Seq<A>, keep: spec_fn(A) -> bool, key: spec_fn(A) -> K)
    requires
        forall|i: int, j: int| 0 <= i < j < s.len() ==> key(s[i]) != key(s[j]),
    ensures
        forall|i: int, j: int|
            0 <= i < j < s.filter(keep).len() ==> key(s.filter(keep)[i]) != key(s.filter(keep)[j]),
        forall|i: int|
            0 <= i < s.filter(keep).len() ==> keep(#[trigger] s.filter(keep)[i]) && s.contains(
                s.filter(keep)[i],
            ),
    decreases s.len(),
{
    reveal(Seq::filter);
    if s.len() > 0 {
        let front = s.drop_last();
        lemma_filter_keeps_apart(front, keep, key);
        let kept = front.filter(keep);
        assert forall|i: int| 0 <= i < kept.len() implies s.contains(#[trigger] kept[i]) && key(
            kept[i],
        ) != key(s.last()) by {
            let k = choose|k: int| 0 <= k < front.len() && front[k] == kept[i];
            assert(s[k] == kept[i]);
        }
        if keep(s.last()) {
            assert(s[s.len() - 1] == s.last());
        }
    }
}

/// Filtering a sequence leaves no more elements with a property than there
/// were.
proof fn lemma_filter_counts_less<A>(s: Seq<A>, keep: spec_fn(A) -> bool, q: spec_fn(A) -> bool)
    ensures
        s.filter(keep).filter(q).len() <= s.filter(q).len(),
    decreases s.len(),
{
    reveal(Seq::filter);
    if s.len() > 0 {
        let front = s.drop_last();
        lemma_filter_counts_less(front, keep, q);
        if keep(s.last()) {
            front.filter(keep).lemma_filter_push(s.last(), q);
        }
    }
}

/// Replacing an element by one that has a property exactly if the element
/// had it leaves the number of elements with the property as it was.
proof fn lemma_update_counts_same<A>(s: Seq<A>, i: int, x: A, q: spec_fn(A) -> bool)
    requires
        0 <= i < s.len(),
        q(x) == q(s[i]),
    ensures
        s.update(i, x).filter(q).len() == s.filter(q).len(),
    decreases s.len(),
{
    reveal(Seq::filter);
    let t = s.update(i, x);
    if i == s.len() - 1 {
        assert(t.drop_last() =~= s.drop_last());
    } else {
        lemma_update_counts_same(s.drop_last(), i, x, q);
        assert(t.drop_last() =~= s.drop_last().update(i, x));
    }
}

} // verus!
