//! The messages of the hop and stop protocols, and their form on the wire.
//!
//! A message is a run of numbered fields. Fields may come in any order;
//! where one that stands once is written twice, the last one counts; fields
//! with numbers that a message does not know are passed over.

use crate::protocol::wire::{
    all_with, field_views, fields_bytes, find_last, last_with, lemma_all_with_add,
    lemma_fields_round_trip, lemma_last_with_add, lemma_u64_below_pow128,
    lemma_varint_round_trip, parse_fields, parse_varint, read_fields, read_varint, varint,
    write_fields, write_varint, Field, FieldView, Value, ValueView, MAX_FIELD_NUMBER,
    MAX_VARINT_LEN,
};
use crate::protocol::Status;
use vstd::prelude::*;

verus! {

/// Why bytes are no message.
#[derive(Debug, Clone, Copy, PartialEq, Eq, Structural)]
pub enum DecodeError {
    /// The message is longer than the protocol allows.
    TooLarge,
    /// The bytes end before the message does.
    Incomplete,
    /// The bytes are not made of fields.
    Malformed,
    /// A field holds another kind of value than its number calls for.
    WireType,
    /// A number is too large for its field.
    OutOfRange,
    /// A field that has to be there is not.
    MissingField,
    /// The message is of no known type.
    UnknownType,
    /// The status is none that the protocols know.
    UnknownStatus,
}

/// The number in the field `number` of `fields`, if the field is there.
pub open spec fn varint_of(fields: Seq<FieldView>, number: u64) -> Result<Option<u64>, DecodeError> {
    match last_with(fields, number) {
        None => Ok(None),
        Some(ValueView::Varint(v)) => Ok(Some(v)),
        Some(_) => Err(DecodeError::WireType),
    }
}

/// The bytes in the field `number` of `fields`, if the field is there.
pub open spec fn bytes_of(fields: Seq<FieldView>, number: u64) -> Result<
    Option<Seq<u8>>,
    DecodeError,
> {
    match last_with(fields, number) {
        None => Ok(None),
        Some(ValueView::Bytes(b)) => Ok(Some(b)),
        Some(_) => Err(DecodeError::WireType),
    }
}

/// The runs of bytes that `values` are, if each of them is one.
pub open spec fn each_bytes(values: Seq<ValueView>) -> Result<Seq<Seq<u8>>, DecodeError>
    decreases values.len(),
{
    if values.len() == 0 {
        Ok(Seq::empty())
    } else {
        match (each_bytes(values.drop_last()), values.last()) {
            (Ok(front), ValueView::Bytes(b)) => Ok(front.push(b)),
            _ => Err(DecodeError::WireType),
        }
    }
}

/// The runs of bytes in the fields `number` of `fields`, in their order.
pub open spec fn repeated_bytes_of(fields: Seq<FieldView>, number: u64) -> Result<
    Seq<Seq<u8>>,
    DecodeError,
> {
    each_bytes(all_with(fields, number))
}

/// The views of the runs of bytes in `list`, in the same order.
pub open spec fn bytes_views(list: Seq<Vec<u8>>) -> Seq<Seq<u8>> {
    list.map_values(|b: Vec<u8>| b@)
}

/// A copy of `bytes`.
fn copy_of(bytes: &Vec<u8>) -> (copy: Vec<u8>)
    ensures
        copy@ == bytes@,
        copy@.len() <= u64::MAX,
{
    let _ = bytes.len();
    bytes.clone()
}

/// The number in the field `number` of `fields`, if the field is there.
fn get_varint(fields: &Vec<Field>, number: u64) -> (got: Result<Option<u64>, DecodeError>)
    ensures
        got == varint_of(field_views(fields@), number),
{
    match find_last(fields, number) {
        None => Ok(None),
        Some(i) => match &fields[i].value {
            Value::Varint(v) => Ok(Some(*v)),
            _ => Err(DecodeError::WireType),
        },
    }
}

/// The bytes in the field `number` of `fields`, if the field is there.
fn get_bytes(fields: &Vec<Field>, number: u64) -> (got: Result<Option<Vec<u8>>, DecodeError>)
    ensures
        match got {
            Ok(Some(b)) => bytes_of(field_views(fields@), number) == Ok::<
                Option<Seq<u8>>,
                DecodeError,
            >(Some(b@)),
            Ok(None) => bytes_of(field_views(fields@), number) == Ok::<
                Option<Seq<u8>>,
                DecodeError,
            >(None),
            Err(e) => bytes_of(field_views(fields@), number) == Err::<
                Option<Seq<u8>>,
                DecodeError,
            >(e),
        },
{
    match find_last(fields, number) {
        None => Ok(None),
        Some(i) => match &fields[i].value {
            Value::Bytes(b) => Ok(Some(copy_of(b))),
            _ => Err(DecodeError::WireType),
        },
    }
}

/// The runs of bytes in the fields `number` of `fields`, in their order.
fn get_repeated_bytes(fields: &Vec<Field>, number: u64) -> (got: Result<Vec<Vec<u8>>, DecodeError>)
    ensures
        match got {
            Ok(list) => repeated_bytes_of(field_views(fields@), number) == Ok::<
                Seq<Seq<u8>>,
                DecodeError,
            >(bytes_views(list@)),
            Err(e) => repeated_bytes_of(field_views(fields@), number) == Err::<
                Seq<Seq<u8>>,
                DecodeError,
            >(e),
        },
{
    let ghost all = field_views(fields@);
    let mut list: Vec<Vec<u8>> = Vec::new();
    let mut sound = true;
    let mut i: usize = 0;
    assert(all.take(0) =~= Seq::empty());
    assert(bytes_views(list@) =~= Seq::empty());
    while i < fields.len()
        invariant
            i <= fields.len(),
            all == field_views(fields@),
            sound ==> repeated_bytes_of(all.take(i as int), number) == Ok::<
                Seq<Seq<u8>>,
                DecodeError,
            >(bytes_views(list@)),
            !sound ==> repeated_bytes_of(all.take(i as int), number) == Err::<
                Seq<Seq<u8>>,
                DecodeError,
            >(DecodeError::WireType),
        decreases fields.len() - i,
    {
        proof {
            assert(all.take(i + 1).drop_last() =~= all.take(i as int));
            assert(all.take(i + 1).last() == all[i as int]);
            if all[i as int].number == number {
                assert(all_with(all.take(i + 1), number).drop_last() =~= all_with(
                    all.take(i as int),
                    number,
                ));
            }
        }
        if fields[i].number == number {
            match &fields[i].value {
                Value::Bytes(b) => {
                    if sound {
                        let copy = copy_of(b);
                        assert(bytes_views(list@.push(copy)) =~= bytes_views(list@).push(b@));
                        list.push(copy);
                    }
                },
                _ => {
                    sound = false;
                },
            }
        }
        i += 1;
    }
    assert(all.take(all.len() as int) =~= all);
    if sound {
        Ok(list)
    } else {
        Err(DecodeError::WireType)
    }
}

/// One field for each run of bytes in `list`, all with the given number.
pub open spec fn repeated_fields(number: u64, list: Seq<Seq<u8>>) -> Seq<FieldView> {
    Seq::new(list.len(), |i: int| FieldView { number, value: ValueView::Bytes(list[i]) })
}

/// The field `number` with `bytes` in it, if there are any to write.
pub open spec fn optional_bytes_field(number: u64, bytes: Option<Seq<u8>>) -> Seq<FieldView> {
    match bytes {
        Some(b) => seq![FieldView { number, value: ValueView::Bytes(b) }],
        None => Seq::empty(),
    }
}

/// The field `number` with `v` in it, if there is a number to write.
pub open spec fn optional_varint_field(number: u64, v: Option<u64>) -> Seq<FieldView> {
    match v {
        Some(v) => seq![FieldView { number, value: ValueView::Varint(v) }],
        None => Seq::empty(),
    }
}

/// Looking into the fields that were written for a list of runs of bytes
/// finds the list under their number, and nothing under another.
proof fn lemma_repeated_fields(number: u64, list: Seq<Seq<u8>>, other: u64)
    requires
        other != number,
    ensures
        repeated_bytes_of(repeated_fields(number, list), number) == Ok::<
            Seq<Seq<u8>>,
            DecodeError,
        >(list),
        all_with(repeated_fields(number, list), other) == Seq::<ValueView>::empty(),
        last_with(repeated_fields(number, list), other) is None,
        all_with(repeated_fields(number, list), number).len() == list.len(),
    decreases list.len(),
{
    let fields = repeated_fields(number, list);
    if list.len() > 0 {
        lemma_repeated_fields(number, list.drop_last(), other);
        assert(fields.drop_last() =~= repeated_fields(number, list.drop_last()));
        let values = all_with(fields, number);
        assert(values.drop_last() =~= all_with(fields.drop_last(), number));
        assert(values.last() == ValueView::Bytes(list.last()));
        assert(list.drop_last().push(list.last()) =~= list);
    } else {
        assert(list =~= Seq::empty());
    }
}

/// Looking into a field that was written, or left out, finds what was
/// written under its number, and nothing under another.
proof fn lemma_optional_fields(number: u64, bytes: Option<Seq<u8>>, v: Option<u64>, other: u64)
    requires
        other != number,
    ensures
        last_with(optional_bytes_field(number, bytes), number) == match bytes {
            Some(b) => Some(ValueView::Bytes(b)),
            None => None,
        },
        last_with(optional_bytes_field(number, bytes), other) is None,
        all_with(optional_bytes_field(number, bytes), other) == Seq::<ValueView>::empty(),
        last_with(optional_varint_field(number, v), number) == match v {
            Some(v) => Some(ValueView::Varint(v)),
            None => None,
        },
        last_with(optional_varint_field(number, v), other) is None,
        all_with(optional_varint_field(number, v), other) == Seq::<ValueView>::empty(),
{
    reveal_with_fuel(last_with, 2);
    reveal_with_fuel(all_with, 2);
    if bytes is Some {
        assert(optional_bytes_field(number, bytes).drop_last() =~= Seq::empty());
    }
    if v is Some {
        assert(optional_varint_field(number, v).drop_last() =~= Seq::empty());
    }
}

/// The limits that go with a circuit.
#[derive(Debug, Clone, Copy, PartialEq, Eq, Structural)]
pub struct Limit {
    /// How long the circuit may last, in seconds.
    pub duration: Option<u32>,
    /// How many bytes the circuit may carry.
    pub data: Option<u64>,
}

/// The fields of `limit`.
pub open spec fn limit_fields(limit: Limit) -> Seq<FieldView> {
    optional_varint_field(
        1,
        match limit.duration {
            Some(d) => Some(d as u64),
            None => None,
        },
    ) + optional_varint_field(2, limit.data)
}

/// The limits that `fields` stand for.
pub open spec fn limit_of(fields: Seq<FieldView>) -> Result<Limit, DecodeError> {
    match (varint_of(fields, 1), varint_of(fields, 2)) {
        (Err(e), _) => Err(e),
        (Ok(Some(d)), _) if d > u32::MAX => Err(DecodeError::OutOfRange),
        (Ok(_), Err(e)) => Err(e),
        (Ok(duration), Ok(data)) => Ok(
            Limit {
                duration: match duration {
                    Some(d) => Some(d as u32),
                    None => None,
                },
                data,
            },
        ),
    }
}

/// The limits that `bytes` stand for.
pub open spec fn parse_limit(bytes: Seq<u8>) -> Result<Limit, DecodeError> {
    match parse_fields(bytes) {
        None => Err(DecodeError::Malformed),
        Some(fields) => limit_of(fields),
    }
}

/// Whether every one of `fields` can be written.
pub open spec fn all_wf(fields: Seq<FieldView>) -> bool {
    forall|i: int| 0 <= i < fields.len() ==> (#[trigger] fields[i]).wf()
}

/// Fields that can be written can still be written with one more that can.
proof fn lemma_push_keeps_wf(fields: Seq<FieldView>, field: FieldView)
    requires
        all_wf(fields),
        field.wf(),
    ensures
        all_wf(fields.push(field)),
{
    assert forall|i: int| 0 <= i < fields.push(field).len() implies (#[trigger] fields.push(
        field,
    )[i]).wf() by {
        if i < fields.len() {
            assert(fields[i].wf());
        }
    }
}

/// Limits are read back from their fields as they were written.
proof fn lemma_limit_round_trip(limit: Limit)
    ensures
        all_wf(limit_fields(limit)),
        limit_of(limit_fields(limit)) == Ok::<Limit, DecodeError>(limit),
        parse_limit(fields_bytes(limit_fields(limit))) == Ok::<Limit, DecodeError>(limit),
{
    let duration = match limit.duration {
        Some(d) => Some(d as u64),
        None => None,
    };
    let a = optional_varint_field(1, duration);
    let b = optional_varint_field(2, limit.data);
    lemma_optional_fields(1, None, duration, 2);
    lemma_optional_fields(2, None, limit.data, 1);
    lemma_last_with_add(a, b, 1);
    lemma_last_with_add(a, b, 2);
    lemma_fields_round_trip(limit_fields(limit));
}

/// The fields of `limit`.
fn limit_to_fields(limit: &Limit) -> (fields: Vec<Field>)
    ensures
        field_views(fields@) == limit_fields(*limit),
        all_wf(field_views(fields@)),
{
    let mut fields: Vec<Field> = Vec::new();
    if let Some(d) = limit.duration {
        fields.push(Field { number: 1, value: Value::Varint(d as u64) });
    }
    if let Some(data) = limit.data {
        fields.push(Field { number: 2, value: Value::Varint(data) });
    }
    assert(field_views(fields@) =~= limit_fields(*limit));
    fields
}

/// The limits that `fields` stand for.
fn limit_from_fields(fields: &Vec<Field>) -> (limit: Result<Limit, DecodeError>)
    ensures
        limit == limit_of(field_views(fields@)),
{
    let duration = match get_varint(fields, 1) {
        Ok(Some(d)) => {
            if d > u32::MAX as u64 {
                return Err(DecodeError::OutOfRange);
            }
            Some(d as u32)
        },
        Ok(None) => None,
        Err(e) => {
            return Err(e);
        },
    };
    let data = match get_varint(fields, 2) {
        Ok(data) => data,
        Err(e) => {
            return Err(e);
        },
    };
    Ok(Limit { duration, data })
}

/// The limits that `bytes` stand for.
fn decode_limit(bytes: &[u8]) -> (limit: Result<Limit, DecodeError>)
    ensures
        limit == parse_limit(bytes@),
{
    match read_fields(bytes) {
        None => Err(DecodeError::Malformed),
        Some(fields) => limit_from_fields(&fields),
    }
}

/// What the field `field` holds, read as a message of its own by `parse`.
pub open spec fn sub_message<T>(
    field: Result<Option<Seq<u8>>, DecodeError>,
    parse: spec_fn(Seq<u8>) -> Result<T, DecodeError>,
) -> Result<Option<T>, DecodeError> {
    match field {
        Err(e) => Err(e),
        Ok(None) => Ok(None),
        Ok(Some(bytes)) => match parse(bytes) {
            Ok(message) => Ok(Some(message)),
            Err(e) => Err(e),
        },
    }
}

/// A peer and the addresses it can be reached by.
#[derive(Debug, PartialEq, Eq)]
pub struct Peer {
    /// The identity of the peer.
    pub id: Vec<u8>,
    /// The addresses of the peer, each in its binary form.
    pub addrs: Vec<Vec<u8>>,
}

/// A peer and its addresses, as a mathematical value.
pub struct PeerView {
    pub id: Seq<u8>,
    pub addrs: Seq<Seq<u8>>,
}

impl View for Peer {
    type V = PeerView;

    open spec fn view(&self) -> PeerView {
        PeerView { id: self.id@, addrs: bytes_views(self.addrs@) }
    }
}

/// Whether the length of each run of bytes in `list` fits 64 bits.
pub open spec fn lengths_fit(list: Seq<Seq<u8>>) -> bool {
    forall|i: int| 0 <= i < list.len() ==> (#[trigger] list[i]).len() <= u64::MAX
}

impl PeerView {
    /// Whether the peer can be written: every length fits 64 bits.
    pub open spec fn wf(self) -> bool {
        self.id.len() <= u64::MAX && lengths_fit(self.addrs)
    }
}

/// The fields of `peer`.
pub open spec fn peer_fields(peer: PeerView) -> Seq<FieldView> {
    seq![FieldView { number: 1, value: ValueView::Bytes(peer.id) }] + repeated_fields(
        2,
        peer.addrs,
    )
}

/// The peer that `fields` stand for.
pub open spec fn peer_of(fields: Seq<FieldView>) -> Result<PeerView, DecodeError> {
    match (bytes_of(fields, 1), repeated_bytes_of(fields, 2)) {
        (Err(e), _) => Err(e),
        (Ok(None), _) => Err(DecodeError::MissingField),
        (Ok(Some(_)), Err(e)) => Err(e),
        (Ok(Some(id)), Ok(addrs)) => Ok(PeerView { id, addrs }),
    }
}

/// The peer that `bytes` stand for.
pub open spec fn parse_peer(bytes: Seq<u8>) -> Result<PeerView, DecodeError> {
    match parse_fields(bytes) {
        None => Err(DecodeError::Malformed),
        Some(fields) => peer_of(fields),
    }
}

/// A peer is read back from its fields as it was written.
proof fn lemma_peer_round_trip(peer: PeerView)
    requires
        peer.wf(),
    ensures
        all_wf(peer_fields(peer)),
        peer_of(peer_fields(peer)) == Ok::<PeerView, DecodeError>(peer),
        parse_peer(fields_bytes(peer_fields(peer))) == Ok::<PeerView, DecodeError>(peer),
{
    let a = optional_bytes_field(1, Some(peer.id));
    let b = repeated_fields(2, peer.addrs);
    assert(peer_fields(peer) =~= a + b);
    lemma_optional_fields(1, Some(peer.id), None, 2);
    lemma_repeated_fields(2, peer.addrs, 1);
    lemma_last_with_add(a, b, 1);
    lemma_all_with_add(a, b, 2);
    assert(all_with(a + b, 2) =~= all_with(b, 2));
    lemma_fields_round_trip(peer_fields(peer));
}

/// One field for each run of bytes in `list`, all with the given number,
/// appended to `fields`.
fn push_repeated(fields: &mut Vec<Field>, number: u64, list: &Vec<Vec<u8>>)
    requires
        1 <= number <= MAX_FIELD_NUMBER,
        all_wf(field_views(old(fields)@)),
    ensures
        field_views(final(fields)@) == field_views(old(fields)@) + repeated_fields(
            number,
            bytes_views(list@),
        ),
        all_wf(field_views(final(fields)@)),
{
    let ghost start = field_views(fields@);
    let ghost all = bytes_views(list@);
    let mut i: usize = 0;
    assert(start + repeated_fields(number, all.take(0)) =~= start);
    while i < list.len()
        invariant
            i <= list.len(),
            1 <= number <= MAX_FIELD_NUMBER,
            all == bytes_views(list@),
            field_views(fields@) == start + repeated_fields(number, all.take(i as int)),
            all_wf(field_views(fields@)),
        decreases list.len() - i,
    {
        let field = Field { number, value: Value::Bytes(copy_of(&list[i])) };
        proof {
            assert(field_views(fields@.push(field)) =~= field_views(fields@).push(field@));
            assert(start + repeated_fields(number, all.take(i + 1)) =~= (start + repeated_fields(
                number,
                all.take(i as int),
            )).push(field@));
            lemma_push_keeps_wf(field_views(fields@), field@);
        }
        fields.push(field);
        i += 1;
    }
    assert(all.take(all.len() as int) =~= all);
}

/// The fields of `peer`.
fn peer_to_fields(peer: &Peer) -> (fields: Vec<Field>)
    ensures
        field_views(fields@) == peer_fields(peer@),
        all_wf(field_views(fields@)),
{
    let mut fields: Vec<Field> = Vec::new();
    fields.push(Field { number: 1, value: Value::Bytes(copy_of(&peer.id)) });
    assert(field_views(fields@) =~= seq![
        FieldView { number: 1, value: ValueView::Bytes(peer.id@) },
    ]);
    assert(all_wf(field_views(fields@)));
    push_repeated(&mut fields, 2, &peer.addrs);
    fields
}

/// The peer that `fields` stand for.
fn peer_from_fields(fields: &Vec<Field>) -> (peer: Result<Peer, DecodeError>)
    ensures
        match peer {
            Ok(p) => peer_of(field_views(fields@)) == Ok::<PeerView, DecodeError>(p@),
            Err(e) => peer_of(field_views(fields@)) == Err::<PeerView, DecodeError>(e),
        },
{
    let id = match get_bytes(fields, 1) {
        Ok(Some(id)) => id,
        Ok(None) => {
            return Err(DecodeError::MissingField);
        },
        Err(e) => {
            return Err(e);
        },
    };
    let addrs = match get_repeated_bytes(fields, 2) {
        Ok(addrs) => addrs,
        Err(e) => {
            return Err(e);
        },
    };
    Ok(Peer { id, addrs })
}

/// The peer that `bytes` stand for.
fn decode_peer(bytes: &[u8]) -> (peer: Result<Peer, DecodeError>)
    ensures
        match peer {
            Ok(p) => parse_peer(bytes@) == Ok::<PeerView, DecodeError>(p@),
            Err(e) => parse_peer(bytes@) == Err::<PeerView, DecodeError>(e),
        },
{
    match read_fields(bytes) {
        None => Err(DecodeError::Malformed),
        Some(fields) => peer_from_fields(&fields),
    }
}

/// What a relay tells a peer of the reservation it has granted.
#[derive(Debug, PartialEq, Eq)]
pub struct Reservation {
    /// When the reservation ends, in seconds since the start of 1970.
    pub expire: u64,
    /// The addresses of the relay by which the peer can be reached.
    pub addrs: Vec<Vec<u8>>,
    /// The signed proof of the reservation.
    pub voucher: Option<Vec<u8>>,
}

/// What a relay tells of a reservation, as a mathematical value.
pub struct ReservationView {
    pub expire: u64,
    pub addrs: Seq<Seq<u8>>,
    pub voucher: Option<Seq<u8>>,
}

/// The view of the run of bytes in `bytes`, if there is one.
pub open spec fn option_view(bytes: Option<Vec<u8>>) -> Option<Seq<u8>> {
    match bytes {
        Some(b) => Some(b@),
        None => None,
    }
}

impl View for Reservation {
    type V = ReservationView;

    open spec fn view(&self) -> ReservationView {
        ReservationView {
            expire: self.expire,
            addrs: bytes_views(self.addrs@),
            voucher: option_view(self.voucher),
        }
    }
}

impl ReservationView {
    /// Whether the reservation can be written: every length fits 64 bits.
    pub open spec fn wf(self) -> bool {
        lengths_fit(self.addrs) && (self.voucher matches Some(v) ==> v.len() <= u64::MAX)
    }
}

/// The fields of `reservation`.
pub open spec fn reservation_fields(reservation: ReservationView) -> Seq<FieldView> {
    seq![FieldView { number: 1, value: ValueView::Varint(reservation.expire) }] + repeated_fields(
        2,
        reservation.addrs,
    ) + optional_bytes_field(3, reservation.voucher)
}

/// The reservation that `fields` stand for.
pub open spec fn reservation_of(fields: Seq<FieldView>) -> Result<ReservationView, DecodeError> {
    match (varint_of(fields, 1), repeated_bytes_of(fields, 2), bytes_of(fields, 3)) {
        (Err(e), _, _) => Err(e),
        (Ok(None), _, _) => Err(DecodeError::MissingField),
        (Ok(Some(_)), Err(e), _) => Err(e),
        (Ok(Some(_)), Ok(_), Err(e)) => Err(e),
        (Ok(Some(expire)), Ok(addrs), Ok(voucher)) => Ok(
            ReservationView { expire, addrs, voucher },
        ),
    }
}

/// The reservation that `bytes` stand for.
pub open spec fn parse_reservation(bytes: Seq<u8>) -> Result<ReservationView, DecodeError> {
    match parse_fields(bytes) {
        None => Err(DecodeError::Malformed),
        Some(fields) => reservation_of(fields),
    }
}

/// A reservation is read back from its fields as it was written.
proof fn lemma_reservation_round_trip(reservation: ReservationView)
    requires
        reservation.wf(),
    ensures
        all_wf(reservation_fields(reservation)),
        reservation_of(reservation_fields(reservation)) == Ok::<ReservationView, DecodeError>(
            reservation,
        ),
        parse_reservation(fields_bytes(reservation_fields(reservation))) == Ok::<
            ReservationView,
            DecodeError,
        >(reservation),
{
    let a = optional_varint_field(1, Some(reservation.expire));
    let b = repeated_fields(2, reservation.addrs);
    let c = optional_bytes_field(3, reservation.voucher);
    assert(reservation_fields(reservation) =~= a + b + c);
    lemma_optional_fields(1, None, Some(reservation.expire), 2);
    lemma_optional_fields(1, None, Some(reservation.expire), 3);
    lemma_repeated_fields(2, reservation.addrs, 1);
    lemma_repeated_fields(2, reservation.addrs, 3);
    lemma_optional_fields(3, reservation.voucher, None, 1);
    lemma_optional_fields(3, reservation.voucher, None, 2);
    lemma_last_with_add(a, b, 1);
    lemma_last_with_add(a + b, c, 1);
    lemma_last_with_add(a, b, 3);
    lemma_last_with_add(a + b, c, 3);
    lemma_all_with_add(a, b, 2);
    lemma_all_with_add(a + b, c, 2);
    assert(all_with(a + b + c, 2) =~= all_with(b, 2));
    lemma_fields_round_trip(reservation_fields(reservation));
}

/// The fields of `reservation`.
fn reservation_to_fields(reservation: &Reservation) -> (fields: Vec<Field>)
    ensures
        field_views(fields@) == reservation_fields(reservation@),
        all_wf(field_views(fields@)),
{
    let mut fields: Vec<Field> = Vec::new();
    fields.push(Field { number: 1, value: Value::Varint(reservation.expire) });
    assert(field_views(fields@) =~= seq![
        FieldView { number: 1, value: ValueView::Varint(reservation.expire) },
    ]);
    assert(all_wf(field_views(fields@)));
    push_repeated(&mut fields, 2, &reservation.addrs);
    let ghost before = field_views(fields@);
    if let Some(voucher) = &reservation.voucher {
        let field = Field { number: 3, value: Value::Bytes(copy_of(voucher)) };
        proof {
            assert(field_views(fields@.push(field)) =~= before + optional_bytes_field(
                3,
                Some(voucher@),
            ));
            assert(field_views(fields@.push(field)) =~= before.push(field@));
            lemma_push_keeps_wf(before, field@);
        }
        fields.push(field);
    } else {
        assert(before + optional_bytes_field(3, None) =~= before);
    }
    fields
}

/// The reservation that `fields` stand for.
fn reservation_from_fields(fields: &Vec<Field>) -> (reservation: Result<Reservation, DecodeError>)
    ensures
        match reservation {
            Ok(r) => reservation_of(field_views(fields@)) == Ok::<ReservationView, DecodeError>(
                r@,
            ),
            Err(e) => reservation_of(field_views(fields@)) == Err::<ReservationView, DecodeError>(
                e,
            ),
        },
{
    let expire = match get_varint(fields, 1) {
        Ok(Some(expire)) => expire,
        Ok(None) => {
            return Err(DecodeError::MissingField);
        },
        Err(e) => {
            return Err(e);
        },
    };
    let addrs = match get_repeated_bytes(fields, 2) {
        Ok(addrs) => addrs,
        Err(e) => {
            return Err(e);
        },
    };
    let voucher = match get_bytes(fields, 3) {
        Ok(voucher) => voucher,
        Err(e) => {
            return Err(e);
        },
    };
    Ok(Reservation { expire, addrs, voucher })
}

/// The reservation that `bytes` stand for.
fn decode_reservation(bytes: &[u8]) -> (reservation: Result<Reservation, DecodeError>)
    ensures
        match reservation {
            Ok(r) => parse_reservation(bytes@) == Ok::<ReservationView, DecodeError>(r@),
            Err(e) => parse_reservation(bytes@) == Err::<ReservationView, DecodeError>(e),
        },
{
    match read_fields(bytes) {
        None => Err(DecodeError::Malformed),
        Some(fields) => reservation_from_fields(&fields),
    }
}

/// What a message of the hop protocol is for.
#[derive(Debug, Clone, Copy, PartialEq, Eq, Structural)]
pub enum HopType {
    /// A peer asks the relay for a reservation.
    Reserve,
    /// A peer asks the relay for a circuit to another peer.
    Connect,
    /// The relay answers.
    Status,
}

impl HopType {
    /// The number that stands for the type on the wire.
    pub open spec fn wire_code(self) -> u64 {
        match self {
            HopType::Reserve => 0,
            HopType::Connect => 1,
            HopType::Status => 2,
        }
    }

    /// The type that `code` stands for on the wire, if it stands for one.
    pub open spec fn of_code(code: u64) -> Option<HopType> {
        if code == 0 {
            Some(HopType::Reserve)
        } else if code == 1 {
            Some(HopType::Connect)
        } else if code == 2 {
            Some(HopType::Status)
        } else {
            None
        }
    }

    /// The number that stands for the type on the wire.
    pub fn code(self) -> (code: u64)
        ensures
            code == self.wire_code(),
    {
        match self {
            HopType::Reserve => 0,
            HopType::Connect => 1,
            HopType::Status => 2,
        }
    }

    /// The type that `code` stands for on the wire, if it stands for one.
    pub fn from_code(code: u64) -> (kind: Option<HopType>)
        ensures
            kind == HopType::of_code(code),
    {
        if code == 0 {
            Some(HopType::Reserve)
        } else if code == 1 {
            Some(HopType::Connect)
        } else if code == 2 {
            Some(HopType::Status)
        } else {
            None
        }
    }
}

/// What a message of the stop protocol is for.
#[derive(Debug, Clone, Copy, PartialEq, Eq, Structural)]
pub enum StopType {
    /// The relay asks the destination to accept a circuit.
    Connect,
    /// The destination answers.
    Status,
}

impl StopType {
    /// The number that stands for the type on the wire.
    pub open spec fn wire_code(self) -> u64 {
        match self {
            StopType::Connect => 0,
            StopType::Status => 1,
        }
    }

    /// The type that `code` stands for on the wire, if it stands for one.
    pub open spec fn of_code(code: u64) -> Option<StopType> {
        if code == 0 {
            Some(StopType::Connect)
        } else if code == 1 {
            Some(StopType::Status)
        } else {
            None
        }
    }

    /// The number that stands for the type on the wire.
    pub fn code(self) -> (code: u64)
        ensures
            code == self.wire_code(),
    {
        match self {
            StopType::Connect => 0,
            StopType::Status => 1,
        }
    }

    /// The type that `code` stands for on the wire, if it stands for one.
    pub fn from_code(code: u64) -> (kind: Option<StopType>)
        ensures
            kind == StopType::of_code(code),
    {
        if code == 0 {
            Some(StopType::Connect)
        } else if code == 1 {
            Some(StopType::Status)
        } else {
            None
        }
    }
}

/// The status in the field `number` of `fields`, if the field is there.
pub open spec fn status_in(fields: Seq<FieldView>, number: u64) -> Result<
    Option<Status>,
    DecodeError,
> {
    match varint_of(fields, number) {
        Err(e) => Err(e),
        Ok(None) => Ok(None),
        Ok(Some(code)) => match Status::of_code(code) {
            Some(status) => Ok(Some(status)),
            None => Err(DecodeError::UnknownStatus),
        },
    }
}

/// The status in the field `number` of `fields`, if the field is there.
fn get_status(fields: &Vec<Field>, number: u64) -> (status: Result<Option<Status>, DecodeError>)
    ensures
        status == status_in(field_views(fields@), number),
{
    match get_varint(fields, number) {
        Err(e) => Err(e),
        Ok(None) => Ok(None),
        Ok(Some(code)) => match Status::from_code(code) {
            Some(status) => Ok(Some(status)),
            None => Err(DecodeError::UnknownStatus),
        },
    }
}

/// The number that stands for `status` on the wire, if there is a status.
pub open spec fn status_code_of(status: Option<Status>) -> Option<u64> {
    match status {
        Some(s) => Some(s.wire_code()),
        None => None,
    }
}

/// The bytes of `peer`, if there is a peer.
pub open spec fn peer_bytes(peer: Option<PeerView>) -> Option<Seq<u8>> {
    match peer {
        Some(p) => Some(fields_bytes(peer_fields(p))),
        None => None,
    }
}

/// The bytes of `reservation`, if there is a reservation.
pub open spec fn reservation_bytes(reservation: Option<ReservationView>) -> Option<Seq<u8>> {
    match reservation {
        Some(r) => Some(fields_bytes(reservation_fields(r))),
        None => None,
    }
}

/// The bytes of `limit`, if there is a limit.
pub open spec fn limit_bytes(limit: Option<Limit>) -> Option<Seq<u8>> {
    match limit {
        Some(l) => Some(fields_bytes(limit_fields(l))),
        None => None,
    }
}

/// Whether `bytes`, if there are any, are few enough for their length to fit
/// 64 bits.
pub open spec fn fits(bytes: Option<Seq<u8>>) -> bool {
    bytes matches Some(b) ==> b.len() <= u64::MAX
}

/// The bytes of a peer without addresses are few enough to be written.
pub proof fn lemma_peer_bytes_fit(peer: PeerView)
    requires
        peer.addrs.len() == 0,
        peer.id.len() <= u64::MAX,
    ensures
        peer.wf(),
        fields_bytes(peer_fields(peer)).len() <= peer.id.len() + 11,
{
    let field = FieldView { number: 1, value: ValueView::Bytes(peer.id) };
    assert(peer_fields(peer) =~= seq![field]);
    reveal_with_fuel(fields_bytes, 2);
    assert(seq![field].drop_first() =~= Seq::empty());
    lemma_u64_below_pow128(peer.id.len() as u64);
    lemma_varint_round_trip(
        peer.id.len(),
        MAX_VARINT_LEN as nat,
        Seq::empty(),
        MAX_VARINT_LEN as nat,
    );
    assert(varint(10nat).len() == 1);
}

/// The length of every run of bytes that is held in memory fits 64 bits.
proof fn lemma_held_lengths_fit(list: Seq<Vec<u8>>)
    ensures
        lengths_fit(bytes_views(list)),
{
    assert forall|i: int| 0 <= i < list.len() implies (#[trigger] bytes_views(list)[i]).len()
        <= u64::MAX by {
        assert(list[i].len() == list[i]@.len());
    }
}

/// A message of the hop protocol.
#[derive(Debug, PartialEq, Eq)]
pub struct HopMessage {
    pub type_pb: HopType,
    pub peer: Option<Peer>,
    pub reservation: Option<Reservation>,
    pub limit: Option<Limit>,
    pub status: Option<Status>,
}

/// A message of the hop protocol, as a mathematical value.
pub struct HopMessageView {
    pub type_pb: HopType,
    pub peer: Option<PeerView>,
    pub reservation: Option<ReservationView>,
    pub limit: Option<Limit>,
    pub status: Option<Status>,
}

/// The view of `peer`, if there is a peer.
pub open spec fn peer_view(peer: Option<Peer>) -> Option<PeerView> {
    match peer {
        Some(p) => Some(p@),
        None => None,
    }
}

/// The view of `reservation`, if there is a reservation.
pub open spec fn reservation_view(reservation: Option<Reservation>) -> Option<ReservationView> {
    match reservation {
        Some(r) => Some(r@),
        None => None,
    }
}

impl View for HopMessage {
    type V = HopMessageView;

    open spec fn view(&self) -> HopMessageView {
        HopMessageView {
            type_pb: self.type_pb,
            peer: peer_view(self.peer),
            reservation: reservation_view(self.reservation),
            limit: self.limit,
            status: self.status,
        }
    }
}

impl HopMessageView {
    /// Whether the message can be written: every length in it fits 64 bits.
    pub open spec fn wf(self) -> bool {
        &&& self.peer matches Some(p) ==> p.wf()
        &&& self.reservation matches Some(r) ==> r.wf()
        &&& fits(peer_bytes(self.peer))
        &&& fits(reservation_bytes(self.reservation))
    }

    /// The fields of the message.
    pub open spec fn fields(self) -> Seq<FieldView> {
        seq![FieldView { number: 1, value: ValueView::Varint(self.type_pb.wire_code()) }]
            + optional_bytes_field(2, peer_bytes(self.peer)) + optional_bytes_field(
            3,
            reservation_bytes(self.reservation),
        ) + optional_bytes_field(4, limit_bytes(self.limit)) + optional_varint_field(
            5,
            status_code_of(self.status),
        )
    }

    /// The bytes of the message.
    pub open spec fn bytes(self) -> Seq<u8> {
        fields_bytes(self.fields())
    }

    /// The message that `fields` stand for.
    pub open spec fn of_fields(fields: Seq<FieldView>) -> Result<HopMessageView, DecodeError> {
        match varint_of(fields, 1) {
            Err(e) => Err(e),
            Ok(None) => Err(DecodeError::MissingField),
            Ok(Some(code)) => match HopType::of_code(code) {
                None => Err(DecodeError::UnknownType),
                Some(type_pb) => match sub_message(
                    bytes_of(fields, 2),
                    |b: Seq<u8>| parse_peer(b),
                ) {
                    Err(e) => Err(e),
                    Ok(peer) => match sub_message(
                        bytes_of(fields, 3),
                        |b: Seq<u8>| parse_reservation(b),
                    ) {
                        Err(e) => Err(e),
                        Ok(reservation) => match sub_message(
                            bytes_of(fields, 4),
                            |b: Seq<u8>| parse_limit(b),
                        ) {
                            Err(e) => Err(e),
                            Ok(limit) => match status_in(fields, 5) {
                                Err(e) => Err(e),
                                Ok(status) => Ok(
                                    HopMessageView { type_pb, peer, reservation, limit, status },
                                ),
                            },
                        },
                    },
                },
            },
        }
    }

    /// The message that `bytes` stand for.
    pub open spec fn parse(bytes: Seq<u8>) -> Result<HopMessageView, DecodeError> {
        match parse_fields(bytes) {
            None => Err(DecodeError::Malformed),
            Some(fields) => HopMessageView::of_fields(fields),
        }
    }
}

/// A message of the stop protocol.
#[derive(Debug, PartialEq, Eq)]
pub struct StopMessage {
    pub type_pb: StopType,
    pub peer: Option<Peer>,
    pub limit: Option<Limit>,
    pub status: Option<Status>,
}

/// A message of the stop protocol, as a mathematical value.
pub struct StopMessageView {
    pub type_pb: StopType,
    pub peer: Option<PeerView>,
    pub limit: Option<Limit>,
    pub status: Option<Status>,
}

impl View for StopMessage {
    type V = StopMessageView;

    open spec fn view(&self) -> StopMessageView {
        StopMessageView {
            type_pb: self.type_pb,
            peer: peer_view(self.peer),
            limit: self.limit,
            status: self.status,
        }
    }
}

impl StopMessageView {
    /// Whether the message can be written: every length in it fits 64 bits.
    pub open spec fn wf(self) -> bool {
        &&& self.peer matches Some(p) ==> p.wf()
        &&& fits(peer_bytes(self.peer))
    }

    /// The fields of the message.
    pub open spec fn fields(self) -> Seq<FieldView> {
        seq![FieldView { number: 1, value: ValueView::Varint(self.type_pb.wire_code()) }]
            + optional_bytes_field(2, peer_bytes(self.peer)) + optional_bytes_field(
            3,
            limit_bytes(self.limit),
        ) + optional_varint_field(4, status_code_of(self.status))
    }

    /// The bytes of the message.
    pub open spec fn bytes(self) -> Seq<u8> {
        fields_bytes(self.fields())
    }

    /// The message that `fields` stand for.
    pub open spec fn of_fields(fields: Seq<FieldView>) -> Result<StopMessageView, DecodeError> {
        match varint_of(fields, 1) {
            Err(e) => Err(e),
            Ok(None) => Err(DecodeError::MissingField),
            Ok(Some(code)) => match StopType::of_code(code) {
                None => Err(DecodeError::UnknownType),
                Some(type_pb) => match sub_message(
                    bytes_of(fields, 2),
                    |b: Seq<u8>| parse_peer(b),
                ) {
                    Err(e) => Err(e),
                    Ok(peer) => match sub_message(
                        bytes_of(fields, 3),
                        |b: Seq<u8>| parse_limit(b),
                    ) {
                        Err(e) => Err(e),
                        Ok(limit) => match status_in(fields, 4) {
                            Err(e) => Err(e),
                            Ok(status) => Ok(StopMessageView { type_pb, peer, limit, status }),
                        },
                    },
                },
            },
        }
    }

    /// The message that `bytes` stand for.
    pub open spec fn parse(bytes: Seq<u8>) -> Result<StopMessageView, DecodeError> {
        match parse_fields(bytes) {
            None => Err(DecodeError::Malformed),
            Some(fields) => StopMessageView::of_fields(fields),
        }
    }
}

/// The bytes of `fields`, which can be written.
fn fields_to_bytes(fields: &Vec<Field>) -> (bytes: Vec<u8>)
    requires
        all_wf(field_views(fields@)),
    ensures
        bytes@ == fields_bytes(field_views(fields@)),
        bytes@.len() <= u64::MAX,
{
    assert forall|i: int| 0 <= i < fields.len() implies (#[trigger] fields[i])@.wf() by {
        assert(field_views(fields@)[i].wf());
    }
    let bytes = write_fields(fields);
    let _ = bytes.len();
    bytes
}

/// The field `number` with `body` in it, appended to `fields`.
fn push_bytes(fields: &mut Vec<Field>, number: u64, body: Vec<u8>)
    requires
        1 <= number <= MAX_FIELD_NUMBER,
        all_wf(field_views(old(fields)@)),
    ensures
        field_views(final(fields)@) == field_views(old(fields)@) + optional_bytes_field(
            number,
            Some(body@),
        ),
        all_wf(field_views(final(fields)@)),
{
    let _ = body.len();
    let field = Field { number, value: Value::Bytes(body) };
    proof {
        assert(field_views(fields@.push(field)) =~= field_views(fields@) + optional_bytes_field(
            number,
            Some(body@),
        ));
        assert(field_views(fields@.push(field)) =~= field_views(fields@).push(field@));
        lemma_push_keeps_wf(field_views(fields@), field@);
    }
    fields.push(field);
}

/// The field `number` with `v` in it, appended to `fields`.
fn push_varint(fields: &mut Vec<Field>, number: u64, v: u64)
    requires
        1 <= number <= MAX_FIELD_NUMBER,
        all_wf(field_views(old(fields)@)),
    ensures
        field_views(final(fields)@) == field_views(old(fields)@) + optional_varint_field(
            number,
            Some(v),
        ),
        all_wf(field_views(final(fields)@)),
{
    let field = Field { number, value: Value::Varint(v) };
    proof {
        assert(field_views(fields@.push(field)) =~= field_views(fields@) + optional_varint_field(
            number,
            Some(v),
        ));
        assert(field_views(fields@.push(field)) =~= field_views(fields@).push(field@));
        lemma_push_keeps_wf(field_views(fields@), field@);
    }
    fields.push(field);
}

/// The peer in the field `number` of `fields`, if the field is there.
fn get_peer(fields: &Vec<Field>, number: u64) -> (peer: Result<Option<Peer>, DecodeError>)
    ensures
        match peer {
            Ok(p) => sub_message(bytes_of(field_views(fields@), number), |b: Seq<u8>| parse_peer(b))
                == Ok::<Option<PeerView>, DecodeError>(peer_view(p)),
            Err(e) => sub_message(
                bytes_of(field_views(fields@), number),
                |b: Seq<u8>| parse_peer(b),
            ) == Err::<Option<PeerView>, DecodeError>(e),
        },
{
    match get_bytes(fields, number) {
        Err(e) => Err(e),
        Ok(None) => Ok(None),
        Ok(Some(body)) => match decode_peer(body.as_slice()) {
            Ok(peer) => Ok(Some(peer)),
            Err(e) => Err(e),
        },
    }
}

/// The reservation in the field `number` of `fields`, if the field is there.
fn get_reservation(fields: &Vec<Field>, number: u64) -> (reservation: Result<
    Option<Reservation>,
    DecodeError,
>)
    ensures
        match reservation {
            Ok(r) => sub_message(
                bytes_of(field_views(fields@), number),
                |b: Seq<u8>| parse_reservation(b),
            ) == Ok::<Option<ReservationView>, DecodeError>(reservation_view(r)),
            Err(e) => sub_message(
                bytes_of(field_views(fields@), number),
                |b: Seq<u8>| parse_reservation(b),
            ) == Err::<Option<ReservationView>, DecodeError>(e),
        },
{
    match get_bytes(fields, number) {
        Err(e) => Err(e),
        Ok(None) => Ok(None),
        Ok(Some(body)) => match decode_reservation(body.as_slice()) {
            Ok(reservation) => Ok(Some(reservation)),
            Err(e) => Err(e),
        },
    }
}

/// The limits in the field `number` of `fields`, if the field is there.
fn get_limit(fields: &Vec<Field>, number: u64) -> (limit: Result<Option<Limit>, DecodeError>)
    ensures
        limit == sub_message(bytes_of(field_views(fields@), number), |b: Seq<u8>| parse_limit(b)),
{
    match get_bytes(fields, number) {
        Err(e) => Err(e),
        Ok(None) => Ok(None),
        Ok(Some(body)) => match decode_limit(body.as_slice()) {
            Ok(limit) => Ok(Some(limit)),
            Err(e) => Err(e),
        },
    }
}

impl HopMessage {
    /// The bytes of the message. Reading them gives the message back.
    pub fn encode(&self) -> (bytes: Vec<u8>)
        ensures
            bytes@ == self@.bytes(),
            self@.wf(),
            HopMessageView::parse(bytes@) == Ok::<HopMessageView, DecodeError>(self@),
    {
        let mut fields: Vec<Field> = Vec::new();
        assert(field_views(fields@) =~= Seq::empty());
        push_varint(&mut fields, 1, self.type_pb.code());
        assert(field_views(fields@) =~= seq![
            FieldView { number: 1, value: ValueView::Varint(self.type_pb.wire_code()) },
        ]);
        let ghost so_far = field_views(fields@);
        match &self.peer {
            Some(peer) => {
                let _ = peer.id.len();
                proof {
                    lemma_held_lengths_fit(peer.addrs@);
                }
                let body = fields_to_bytes(&peer_to_fields(peer));
                push_bytes(&mut fields, 2, body);
            },
            None => {
                assert(so_far + optional_bytes_field(2, None) =~= so_far);
            },
        }
        let ghost so_far = field_views(fields@);
        match &self.reservation {
            Some(reservation) => {
                if let Some(voucher) = &reservation.voucher {
                    let _ = voucher.len();
                }
                proof {
                    lemma_held_lengths_fit(reservation.addrs@);
                }
                let body = fields_to_bytes(&reservation_to_fields(reservation));
                push_bytes(&mut fields, 3, body);
            },
            None => {
                assert(so_far + optional_bytes_field(3, None) =~= so_far);
            },
        }
        let ghost so_far = field_views(fields@);
        match &self.limit {
            Some(limit) => {
                let body = fields_to_bytes(&limit_to_fields(limit));
                push_bytes(&mut fields, 4, body);
            },
            None => {
                assert(so_far + optional_bytes_field(4, None) =~= so_far);
            },
        }
        let ghost so_far = field_views(fields@);
        match self.status {
            Some(status) => {
                push_varint(&mut fields, 5, status.code());
            },
            None => {
                assert(so_far + optional_varint_field(5, None) =~= so_far);
            },
        }
        proof {
            lemma_hop_round_trip(self@);
        }
        fields_to_bytes(&fields)
    }

    /// The message that `bytes` stand for.
    pub fn decode(bytes: &[u8]) -> (message: Result<HopMessage, DecodeError>)
        ensures
            match message {
                Ok(m) => HopMessageView::parse(bytes@) == Ok::<HopMessageView, DecodeError>(m@),
                Err(e) => HopMessageView::parse(bytes@) == Err::<HopMessageView, DecodeError>(e),
            },
    {
        let fields = match read_fields(bytes) {
            Some(fields) => fields,
            None => {
                return Err(DecodeError::Malformed);
            },
        };
        let type_pb = match get_varint(&fields, 1) {
            Err(e) => {
                return Err(e);
            },
            Ok(None) => {
                return Err(DecodeError::MissingField);
            },
            Ok(Some(code)) => match HopType::from_code(code) {
                Some(type_pb) => type_pb,
                None => {
                    return Err(DecodeError::UnknownType);
                },
            },
        };
        let peer = match get_peer(&fields, 2) {
            Ok(peer) => peer,
            Err(e) => {
                return Err(e);
            },
        };
        let reservation = match get_reservation(&fields, 3) {
            Ok(reservation) => reservation,
            Err(e) => {
                return Err(e);
            },
        };
        let limit = match get_limit(&fields, 4) {
            Ok(limit) => limit,
            Err(e) => {
                return Err(e);
            },
        };
        let status = match get_status(&fields, 5) {
            Ok(status) => status,
            Err(e) => {
                return Err(e);
            },
        };
        Ok(HopMessage { type_pb, peer, reservation, limit, status })
    }
}

impl StopMessage {
    /// The bytes of the message. Reading them gives the message back.
    pub fn encode(&self) -> (bytes: Vec<u8>)
        ensures
            bytes@ == self@.bytes(),
            self@.wf(),
            StopMessageView::parse(bytes@) == Ok::<StopMessageView, DecodeError>(self@),
    {
        let mut fields: Vec<Field> = Vec::new();
        assert(field_views(fields@) =~= Seq::empty());
        push_varint(&mut fields, 1, self.type_pb.code());
        assert(field_views(fields@) =~= seq![
            FieldView { number: 1, value: ValueView::Varint(self.type_pb.wire_code()) },
        ]);
        let ghost so_far = field_views(fields@);
        match &self.peer {
            Some(peer) => {
                let _ = peer.id.len();
                proof {
                    lemma_held_lengths_fit(peer.addrs@);
                }
                let body = fields_to_bytes(&peer_to_fields(peer));
                push_bytes(&mut fields, 2, body);
            },
            None => {
                assert(so_far + optional_bytes_field(2, None) =~= so_far);
            },
        }
        let ghost so_far = field_views(fields@);
        match &self.limit {
            Some(limit) => {
                let body = fields_to_bytes(&limit_to_fields(limit));
                push_bytes(&mut fields, 3, body);
            },
            None => {
                assert(so_far + optional_bytes_field(3, None) =~= so_far);
            },
        }
        let ghost so_far = field_views(fields@);
        match self.status {
            Some(status) => {
                push_varint(&mut fields, 4, status.code());
            },
            None => {
                assert(so_far + optional_varint_field(4, None) =~= so_far);
            },
        }
        proof {
            lemma_stop_round_trip(self@);
        }
        fields_to_bytes(&fields)
    }

    /// The message that `bytes` stand for.
    pub fn decode(bytes: &[u8]) -> (message: Result<StopMessage, DecodeError>)
        ensures
            match message {
                Ok(m) => StopMessageView::parse(bytes@) == Ok::<StopMessageView, DecodeError>(m@),
                Err(e) => StopMessageView::parse(bytes@) == Err::<StopMessageView, DecodeError>(e),
            },
    {
        let fields = match read_fields(bytes) {
            Some(fields) => fields,
            None => {
                return Err(DecodeError::Malformed);
            },
        };
        let type_pb = match get_varint(&fields, 1) {
            Err(e) => {
                return Err(e);
            },
            Ok(None) => {
                return Err(DecodeError::MissingField);
            },
            Ok(Some(code)) => match StopType::from_code(code) {
                Some(type_pb) => type_pb,
                None => {
                    return Err(DecodeError::UnknownType);
                },
            },
        };
        let peer = match get_peer(&fields, 2) {
            Ok(peer) => peer,
            Err(e) => {
                return Err(e);
            },
        };
        let limit = match get_limit(&fields, 3) {
            Ok(limit) => limit,
            Err(e) => {
                return Err(e);
            },
        };
        let status = match get_status(&fields, 4) {
            Ok(status) => status,
            Err(e) => {
                return Err(e);
            },
        };
        Ok(StopMessage { type_pb, peer, limit, status })
    }
}

/// The bytes of limits are few.
proof fn lemma_limit_bytes_fit(limit: Limit)
    ensures
        fields_bytes(limit_fields(limit)).len() <= 22,
{
    let duration = match limit.duration {
        Some(d) => Some(d as u64),
        None => None,
    };
    let a = optional_varint_field(1, duration);
    let b = optional_varint_field(2, limit.data);
    crate::protocol::wire::lemma_fields_bytes_add(a, b);
    reveal_with_fuel(fields_bytes, 2);
    let none = Seq::<u8>::empty();
    if let Some(d) = duration {
        assert(a.drop_first() =~= Seq::empty());
        lemma_u64_below_pow128(d);
        lemma_varint_round_trip(d as nat, MAX_VARINT_LEN as nat, none, MAX_VARINT_LEN as nat);
        assert(varint(8nat).len() == 1);
    }
    if let Some(d) = limit.data {
        assert(b.drop_first() =~= Seq::empty());
        lemma_u64_below_pow128(d);
        lemma_varint_round_trip(d as nat, MAX_VARINT_LEN as nat, none, MAX_VARINT_LEN as nat);
        assert(varint(16nat).len() == 1);
    }
}

/// Looking into five runs of fields put one after the other finds the last
/// field with a number in the last of the runs that has one.
proof fn lemma_last_with_five(
    a: Seq<FieldView>,
    b: Seq<FieldView>,
    c: Seq<FieldView>,
    d: Seq<FieldView>,
    e: Seq<FieldView>,
    number: u64,
)
    ensures
        last_with(a + b + c + d + e, number) == if last_with(e, number) is Some {
            last_with(e, number)
        } else if last_with(d, number) is Some {
            last_with(d, number)
        } else if last_with(c, number) is Some {
            last_with(c, number)
        } else if last_with(b, number) is Some {
            last_with(b, number)
        } else {
            last_with(a, number)
        },
{
    lemma_last_with_add(a, b, number);
    lemma_last_with_add(a + b, c, number);
    lemma_last_with_add(a + b + c, d, number);
    lemma_last_with_add(a + b + c + d, e, number);
}

/// Looking into the fields of a message of the hop protocol finds under
/// each number what was written under it.
proof fn lemma_hop_lookups(message: HopMessageView)
    ensures
        varint_of(message.fields(), 1) == Ok::<Option<u64>, DecodeError>(
            Some(message.type_pb.wire_code()),
        ),
        bytes_of(message.fields(), 2) == Ok::<Option<Seq<u8>>, DecodeError>(
            peer_bytes(message.peer),
        ),
        bytes_of(message.fields(), 3) == Ok::<Option<Seq<u8>>, DecodeError>(
            reservation_bytes(message.reservation),
        ),
        bytes_of(message.fields(), 4) == Ok::<Option<Seq<u8>>, DecodeError>(
            limit_bytes(message.limit),
        ),
        varint_of(message.fields(), 5) == Ok::<Option<u64>, DecodeError>(
            status_code_of(message.status),
        ),
{
    let code = Some(message.type_pb.wire_code());
    let kind = optional_varint_field(1, code);
    let peer = optional_bytes_field(2, peer_bytes(message.peer));
    let reservation = optional_bytes_field(3, reservation_bytes(message.reservation));
    let limit = optional_bytes_field(4, limit_bytes(message.limit));
    let status = optional_varint_field(5, status_code_of(message.status));
    assert(message.fields() =~= kind + peer + reservation + limit + status);
    lemma_last_with_five(kind, peer, reservation, limit, status, 1);
    lemma_last_with_five(kind, peer, reservation, limit, status, 2);
    lemma_last_with_five(kind, peer, reservation, limit, status, 3);
    lemma_last_with_five(kind, peer, reservation, limit, status, 4);
    lemma_last_with_five(kind, peer, reservation, limit, status, 5);
    lemma_optional_fields(1, None, code, 2);
    lemma_optional_fields(1, None, code, 3);
    lemma_optional_fields(1, None, code, 4);
    lemma_optional_fields(1, None, code, 5);
    lemma_optional_fields(2, peer_bytes(message.peer), None, 1);
    lemma_optional_fields(2, peer_bytes(message.peer), None, 3);
    lemma_optional_fields(2, peer_bytes(message.peer), None, 4);
    lemma_optional_fields(2, peer_bytes(message.peer), None, 5);
    lemma_optional_fields(3, reservation_bytes(message.reservation), None, 1);
    lemma_optional_fields(3, reservation_bytes(message.reservation), None, 2);
    lemma_optional_fields(3, reservation_bytes(message.reservation), None, 4);
    lemma_optional_fields(3, reservation_bytes(message.reservation), None, 5);
    lemma_optional_fields(4, limit_bytes(message.limit), None, 1);
    lemma_optional_fields(4, limit_bytes(message.limit), None, 2);
    lemma_optional_fields(4, limit_bytes(message.limit), None, 3);
    lemma_optional_fields(4, limit_bytes(message.limit), None, 5);
    lemma_optional_fields(5, None, status_code_of(message.status), 1);
    lemma_optional_fields(5, None, status_code_of(message.status), 2);
    lemma_optional_fields(5, None, status_code_of(message.status), 3);
    lemma_optional_fields(5, None, status_code_of(message.status), 4);
}

/// The fields of a message of the hop protocol that can be written can be
/// written.
proof fn lemma_hop_fields_wf(message: HopMessageView)
    requires
        message.wf(),
    ensures
        all_wf(message.fields()),
{
    if let Some(l) = message.limit {
        lemma_limit_bytes_fit(l);
    }
}

/// Writing a message of the hop protocol and reading what was written gives
/// the message back: its type, its peer with its addresses, its reservation,
/// its limits and its status.
pub proof fn lemma_hop_round_trip(message: HopMessageView)
    requires
        message.wf(),
    ensures
        HopMessageView::parse(message.bytes()) == Ok::<HopMessageView, DecodeError>(message),
{
    lemma_hop_lookups(message);
    lemma_hop_fields_wf(message);
    lemma_fields_round_trip(message.fields());
    if let Some(p) = message.peer {
        lemma_peer_round_trip(p);
    }
    if let Some(r) = message.reservation {
        lemma_reservation_round_trip(r);
    }
    if let Some(l) = message.limit {
        lemma_limit_round_trip(l);
    }
    if let Some(st) = message.status {
        crate::protocol::lemma_status_round_trip(st);
    }
}

/// Writing a message of the stop protocol and reading what was written gives
/// the message back: its type, its peer with its addresses, its limits and
/// its status.
pub proof fn lemma_stop_round_trip(message: StopMessageView)
    requires
        message.wf(),
    ensures
        StopMessageView::parse(message.bytes()) == Ok::<StopMessageView, DecodeError>(message),
{
    let kind = optional_varint_field(1, Some(message.type_pb.wire_code()));
    let peer = optional_bytes_field(2, peer_bytes(message.peer));
    let limit = optional_bytes_field(3, limit_bytes(message.limit));
    let status = optional_varint_field(4, status_code_of(message.status));
    let fields = message.fields();
    assert(fields =~= kind + peer + limit + status);
    let s1 = kind + peer;
    let s2 = s1 + limit;
    assert forall|n: u64| 1 <= n <= 4 implies last_with(fields, n) == (if n == 1 {
        last_with(kind, 1)
    } else if n == 2 {
        last_with(peer, 2)
    } else if n == 3 {
        last_with(limit, 3)
    } else {
        last_with(status, 4)
    }) by {
        lemma_last_with_add(kind, peer, n);
        lemma_last_with_add(s1, limit, n);
        lemma_last_with_add(s2, status, n);
        if n != 1 {
            lemma_optional_fields(1, None, Some(message.type_pb.wire_code()), n);
        }
        if n != 2 {
            lemma_optional_fields(2, peer_bytes(message.peer), None, n);
        }
        if n != 3 {
            lemma_optional_fields(3, limit_bytes(message.limit), None, n);
        }
        if n != 4 {
            lemma_optional_fields(4, None, status_code_of(message.status), n);
        }
    }
    lemma_optional_fields(1, None, Some(message.type_pb.wire_code()), 2);
    lemma_optional_fields(2, peer_bytes(message.peer), None, 1);
    lemma_optional_fields(3, limit_bytes(message.limit), None, 1);
    lemma_optional_fields(4, None, status_code_of(message.status), 1);
    assert(last_with(fields, 1) == last_with(kind, 1));
    assert(last_with(fields, 2) == last_with(peer, 2));
    assert(last_with(fields, 3) == last_with(limit, 3));
    assert(last_with(fields, 4) == last_with(status, 4));
    if let Some(p) = message.peer {
        lemma_peer_round_trip(p);
    }
    if let Some(l) = message.limit {
        lemma_limit_round_trip(l);
        lemma_limit_bytes_fit(l);
    }
    if let Some(st) = message.status {
        crate::protocol::lemma_status_round_trip(st);
    }
    assert(all_wf(fields));
    lemma_fields_round_trip(fields);
}

/// A message as it stands on a substream: its length as a number of
/// variable length, then its bytes.
pub open spec fn frame(body: Seq<u8>) -> Seq<u8> {
    varint(body.len()) + body
}

/// The bytes of the message at the front of `bytes`, and how many bytes it
/// takes with its length, if a whole message of `max_size` bytes at most
/// stands there.
///
/// A message longer than `max_size` is refused whether or not all of it has
/// come; where bytes are missing, more may come.
pub open spec fn parse_frame(bytes: Seq<u8>, max_size: usize) -> Result<
    (Seq<u8>, nat),
    DecodeError,
> {
    match parse_varint(bytes, MAX_VARINT_LEN as nat) {
        None => if bytes.len() < MAX_VARINT_LEN {
            Err(DecodeError::Incomplete)
        } else {
            Err(DecodeError::Malformed)
        },
        Some((len, n)) => if len > max_size {
            Err(DecodeError::TooLarge)
        } else if bytes.len() - n < len {
            Err(DecodeError::Incomplete)
        } else {
            Ok((bytes.subrange(n as int, n + len), (n + len) as nat))
        },
    }
}

/// A message of `max_size` bytes at most is read back from a substream as it
/// was written, whatever follows it; a longer one is refused.
pub proof fn lemma_frame_round_trip(body: Seq<u8>, rest: Seq<u8>, max_size: usize)
    requires
        body.len() <= u64::MAX,
    ensures
        body.len() <= max_size ==> parse_frame(frame(body) + rest, max_size) == Ok::<
            (Seq<u8>, nat),
            DecodeError,
        >((body, frame(body).len())),
        body.len() > max_size ==> parse_frame(frame(body) + rest, max_size) == Err::<
            (Seq<u8>, nat),
            DecodeError,
        >(DecodeError::TooLarge),
{
    lemma_u64_below_pow128(body.len() as u64);
    lemma_varint_round_trip(body.len(), MAX_VARINT_LEN as nat, body + rest, MAX_VARINT_LEN as nat);
    assert(frame(body) + rest =~= varint(body.len()) + (body + rest));
    let n = varint(body.len()).len();
    assert((frame(body) + rest).subrange(n as int, (n + body.len()) as int) =~= body);
}

/// The message `body` as it stands on a substream. Whoever allows for
/// messages of its length reads it back as it is.
pub fn write_frame(body: &[u8]) -> (bytes: Vec<u8>)
    ensures
        bytes@ == frame(body@),
        forall|max_size: usize|
            body@.len() <= max_size ==> #[trigger] parse_frame(bytes@, max_size) == Ok::<
                (Seq<u8>, nat),
                DecodeError,
            >((body@, bytes@.len())),
{
    let mut bytes: Vec<u8> = Vec::new();
    write_varint(&mut bytes, body.len() as u64);
    crate::protocol::wire::append(&mut bytes, body);
    proof {
        assert(bytes@ =~= frame(body@));
        assert forall|max_size: usize| body@.len() <= max_size implies #[trigger] parse_frame(
            bytes@,
            max_size,
        ) == Ok::<(Seq<u8>, nat), DecodeError>((body@, bytes@.len())) by {
            lemma_frame_round_trip(body@, Seq::empty(), max_size);
            assert(frame(body@) + Seq::<u8>::empty() =~= frame(body@));
        }
    }
    bytes
}

/// Finds the message at the front of `bytes`: where its bytes begin there
/// and where they end.
pub fn read_frame(bytes: &[u8], max_size: usize) -> (found: Result<(usize, usize), DecodeError>)
    ensures
        match found {
            Ok((from, to)) => from <= to <= bytes.len() && parse_frame(bytes@, max_size) == Ok::<
                (Seq<u8>, nat),
                DecodeError,
            >((bytes@.subrange(from as int, to as int), to as nat)),
            Err(e) => parse_frame(bytes@, max_size) == Err::<(Seq<u8>, nat), DecodeError>(e),
        },
{
    assert(bytes@.skip(0) =~= bytes@);
    match read_varint(bytes, 0) {
        None => {
            if bytes.len() < MAX_VARINT_LEN {
                Err(DecodeError::Incomplete)
            } else {
                Err(DecodeError::Malformed)
            }
        },
        Some((len, n)) => {
            if len > max_size as u64 {
                Err(DecodeError::TooLarge)
            } else if ((bytes.len() - n) as u64) < len {
                Err(DecodeError::Incomplete)
            } else {
                Ok((n, n + len as usize))
            }
        },
    }
}

} // verus!
