//! The wire format underneath the messages, which is that of protocol
//! buffers: numbers of variable length, and numbered fields that hold a
//! number or a run of bytes.

use vstd::prelude::*;
use vstd::slice::{slice_subrange, slice_to_vec};

verus! {

/// The bytes of `v` as a number of variable length: seven bits to a byte,
/// the low ones first, and every byte but the last marked with its top bit.
pub open spec fn varint(v: nat) -> Seq<u8>
    decreases v,
{
    if v < 128 {
        seq![v as u8]
    } else {
        seq![(128 + v % 128) as u8] + varint(v / 128)
    }
}

/// The longest number of variable length that is read: what it takes to
/// hold 64 bits.
pub const MAX_VARINT_LEN: usize = 10;

/// The number of variable length at the front of `bytes`, and how many bytes
/// it takes, if there is one of `budget` bytes at most that fits 64 bits.
pub open spec fn parse_varint(bytes: Seq<u8>, budget: nat) -> Option<(u64, nat)>
    decreases budget,
{
    if budget == 0 || bytes.len() == 0 {
        None
    } else if bytes[0] < 128 {
        Some((bytes[0] as u64, 1))
    } else {
        match parse_varint(bytes.drop_first(), (budget - 1) as nat) {
            Some((high, n)) => if (bytes[0] - 128) + 128 * high <= u64::MAX {
                Some((((bytes[0] - 128) + 128 * high) as u64, n + 1))
            } else {
                None
            },
            None => None,
        }
    }
}

/// 128 to the power of `k`.
pub open spec fn pow128(k: nat) -> nat
    decreases k,
{
    if k == 0 {
        1
    } else {
        128 * pow128((k - 1) as nat)
    }
}

/// A number below 128 to the power of `k`, `k` at least one, takes `k` bytes
/// at most, and is
/// read back as it was written, whatever follows it.
pub proof fn lemma_varint_round_trip(v: nat, k: nat, rest: Seq<u8>, budget: nat)
    requires
        v <= u64::MAX,
        v < pow128(k),
        1 <= k <= budget,
    ensures
        1 <= varint(v).len() <= k,
        parse_varint(varint(v) + rest, budget) == Some((v as u64, varint(v).len())),
    decreases v,
{
    if v < 128 {
        assert((varint(v) + rest)[0] == v as u8);
    } else {
        assert(k >= 2) by {
            reveal_with_fuel(pow128, 3);
        }
        let first = (128 + v % 128) as u8;
        let all = varint(v) + rest;
        assert(all[0] == first);
        assert(all.drop_first() =~= varint(v / 128) + rest);
        assert(v / 128 < pow128((k - 1) as nat)) by {
            assert(pow128(k) == 128 * pow128((k - 1) as nat));
        }
        lemma_varint_round_trip(v / 128, (k - 1) as nat, rest, (budget - 1) as nat);
        assert((first - 128) + 128 * (v / 128) == v);
    }
}

/// Every number of 64 bits is below 128 to the power of ten.
pub proof fn lemma_u64_below_pow128(v: u64)
    ensures
        v < pow128(MAX_VARINT_LEN as nat),
{
    assert(pow128(0) == 1);
    assert(pow128(1) == 128);
    assert(pow128(2) == 16384);
    assert(pow128(3) == 2097152);
    assert(pow128(4) == 268435456);
    assert(pow128(5) == 34359738368);
    assert(pow128(6) == 4398046511104);
    assert(pow128(7) == 562949953421312);
    assert(pow128(8) == 72057594037927936);
    assert(pow128(9) == 9223372036854775808);
    assert(pow128(10) == 1180591620717411303424);
}

/// Appends `v` as a number of variable length to `out`.
pub fn write_varint(out: &mut Vec<u8>, v: u64)
    ensures
        final(out)@ == old(out)@ + varint(v as nat),
{
    let mut v = v;
    let ghost start = out@;
    let ghost whole = varint(v as nat);
    while v >= 128
        invariant
            start + whole == out@ + varint(v as nat),
        decreases v,
    {
        assert(out@.push((128 + v % 128) as u8) + varint((v / 128) as nat) =~= out@ + varint(
            v as nat,
        ));
        out.push((128 + v % 128) as u8);
        v = v / 128;
    }
    assert(out@.push(v as u8) =~= out@ + varint(v as nat));
    out.push(v as u8);
}

/// Reads the number of variable length that stands at `pos` in `bytes`, and
/// says how many bytes it takes.
pub fn read_varint(bytes: &[u8], pos: usize) -> (read: Option<(u64, usize)>)
    requires
        pos <= bytes.len(),
    ensures
        parse_varint(bytes@.skip(pos as int), MAX_VARINT_LEN as nat) == match read {
            Some((v, n)) => Some((v, n as nat)),
            None => None,
        },
        read matches Some((_, n)) ==> 1 <= n <= MAX_VARINT_LEN && pos + n <= bytes.len(),
{
    read_varint_within(bytes, pos, MAX_VARINT_LEN)
}

/// Reads the number of variable length of `budget` bytes at most that
/// stands at `pos` in `bytes`.
fn read_varint_within(bytes: &[u8], pos: usize, budget: usize) -> (read: Option<(u64, usize)>)
    requires
        pos <= bytes.len(),
    ensures
        parse_varint(bytes@.skip(pos as int), budget as nat) == match read {
            Some((v, n)) => Some((v, n as nat)),
            None => None,
        },
        read matches Some((_, n)) ==> 1 <= n <= budget && pos + n <= bytes.len(),
    decreases budget,
{
    if budget == 0 || pos >= bytes.len() {
        return None;
    }
    let first = bytes[pos];
    assert(bytes@.skip(pos as int)[0] == first);
    if first < 128 {
        return Some((first as u64, 1));
    }
    assert(bytes@.skip(pos as int).drop_first() =~= bytes@.skip(pos + 1));
    match read_varint_within(bytes, pos + 1, budget - 1) {
        Some((high, n)) => {
            let low = (first - 128) as u64;
            if high <= (u64::MAX - low) / 128 {
                Some((low + 128 * high, n + 1))
            } else {
                None
            }
        },
        None => None,
    }
}

/// The largest number that a field can have.
pub const MAX_FIELD_NUMBER: u64 = 0x1fff_ffff;

/// What a field holds.
#[derive(Debug, PartialEq, Eq)]
pub enum Value {
    /// A number of variable length.
    Varint(u64),
    /// Eight bytes.
    Fixed64(Vec<u8>),
    /// A run of bytes, preceded by its length.
    Bytes(Vec<u8>),
    /// Four bytes.
    Fixed32(Vec<u8>),
}

/// What a field holds, as a mathematical value.
pub enum ValueView {
    Varint(u64),
    Fixed64(Seq<u8>),
    Bytes(Seq<u8>),
    Fixed32(Seq<u8>),
}

impl View for Value {
    type V = ValueView;

    open spec fn view(&self) -> ValueView {
        match *self {
            Value::Varint(v) => ValueView::Varint(v),
            Value::Fixed64(b) => ValueView::Fixed64(b@),
            Value::Bytes(b) => ValueView::Bytes(b@),
            Value::Fixed32(b) => ValueView::Fixed32(b@),
        }
    }
}

impl ValueView {
    /// The number that tells, on the wire, which kind of value follows.
    pub open spec fn wire_type(self) -> nat {
        match self {
            ValueView::Varint(_) => 0,
            ValueView::Fixed64(_) => 1,
            ValueView::Bytes(_) => 2,
            ValueView::Fixed32(_) => 5,
        }
    }

    /// Whether the value can be written: the fixed ones have their length,
    /// and the length of a run of bytes fits 64 bits.
    pub open spec fn wf(self) -> bool {
        match self {
            ValueView::Varint(_) => true,
            ValueView::Fixed64(b) => b.len() == 8,
            ValueView::Bytes(b) => b.len() <= u64::MAX,
            ValueView::Fixed32(b) => b.len() == 4,
        }
    }

    /// The bytes of the value.
    pub open spec fn bytes(self) -> Seq<u8> {
        match self {
            ValueView::Varint(v) => varint(v as nat),
            ValueView::Fixed64(b) => b,
            ValueView::Bytes(b) => varint(b.len()) + b,
            ValueView::Fixed32(b) => b,
        }
    }
}

/// A numbered field.
#[derive(Debug, PartialEq, Eq)]
pub struct Field {
    pub number: u64,
    pub value: Value,
}

/// A numbered field, as a mathematical value.
pub struct FieldView {
    pub number: u64,
    pub value: ValueView,
}

impl View for Field {
    type V = FieldView;

    open spec fn view(&self) -> FieldView {
        FieldView { number: self.number, value: self.value@ }
    }
}

impl FieldView {
    /// Whether the field can be written: its number is one that a field can
    /// have, and its value can be written.
    pub open spec fn wf(self) -> bool {
        1 <= self.number <= MAX_FIELD_NUMBER && self.value.wf()
    }

    /// The bytes of the field: its number and the kind of its value in one
    /// number of variable length, then the value.
    pub open spec fn bytes(self) -> Seq<u8> {
        varint((self.number * 8 + self.value.wire_type()) as nat) + self.value.bytes()
    }
}

/// The views of `fields`, in the same order.
pub open spec fn field_views(fields: Seq<Field>) -> Seq<FieldView> {
    fields.map_values(|f: Field| f@)
}

/// The bytes of `fields`, one after the other.
pub open spec fn fields_bytes(fields: Seq<FieldView>) -> Seq<u8>
    decreases fields.len(),
{
    if fields.len() == 0 {
        Seq::empty()
    } else {
        fields.first().bytes() + fields_bytes(fields.drop_first())
    }
}

/// The field at the front of `bytes`, and how many bytes it takes, if there
/// is one.
pub open spec fn parse_field(bytes: Seq<u8>) -> Option<(FieldView, nat)> {
    match parse_varint(bytes, MAX_VARINT_LEN as nat) {
        None => None,
        Some((key, n)) => {
            let number = key / 8;
            let rest = bytes.skip(n as int);
            if number == 0 || number > MAX_FIELD_NUMBER {
                None
            } else if key % 8 == 0 {
                match parse_varint(rest, MAX_VARINT_LEN as nat) {
                    Some((v, m)) => Some((FieldView { number, value: ValueView::Varint(v) }, n + m)),
                    None => None,
                }
            } else if key % 8 == 1 {
                if rest.len() >= 8 {
                    Some((FieldView { number, value: ValueView::Fixed64(rest.take(8)) }, n + 8))
                } else {
                    None
                }
            } else if key % 8 == 2 {
                match parse_varint(rest, MAX_VARINT_LEN as nat) {
                    Some((len, m)) => if len <= rest.len() - m {
                        Some(
                            (
                                FieldView {
                                    number,
                                    value: ValueView::Bytes(rest.subrange(m as int, m + len)),
                                },
                                (n + m + len) as nat,
                            ),
                        )
                    } else {
                        None
                    },
                    None => None,
                }
            } else if key % 8 == 5 {
                if rest.len() >= 4 {
                    Some((FieldView { number, value: ValueView::Fixed32(rest.take(4)) }, n + 4))
                } else {
                    None
                }
            } else {
                None
            }
        },
    }
}

/// The fields that `bytes` are made of, if they are made of fields.
pub open spec fn parse_fields(bytes: Seq<u8>) -> Option<Seq<FieldView>>
    decreases bytes.len(),
{
    if bytes.len() == 0 {
        Some(Seq::empty())
    } else {
        match parse_field(bytes) {
            Some((field, n)) => if 1 <= n <= bytes.len() {
                match parse_fields(bytes.skip(n as int)) {
                    Some(fields) => Some(seq![field] + fields),
                    None => None,
                }
            } else {
                None
            },
            None => None,
        }
    }
}

/// A field that can be written is read back as it was written, whatever
/// follows it.
pub proof fn lemma_field_round_trip(field: FieldView, rest: Seq<u8>)
    requires
        field.wf(),
    ensures
        parse_field(field.bytes() + rest) == Some((field, field.bytes().len())),
        field.bytes().len() >= 1,
{
    let key = (field.number * 8 + field.value.wire_type()) as nat;
    let tail = field.value.bytes() + rest;
    let all = field.bytes() + rest;
    lemma_u64_below_pow128(key as u64);
    lemma_varint_round_trip(key, MAX_VARINT_LEN as nat, tail, MAX_VARINT_LEN as nat);
    assert(all =~= varint(key) + tail);
    let n = varint(key).len();
    assert(all.skip(n as int) =~= tail);
    match field.value {
        ValueView::Varint(v) => {
            lemma_u64_below_pow128(v);
            lemma_varint_round_trip(v as nat, MAX_VARINT_LEN as nat, rest, MAX_VARINT_LEN as nat);
        },
        ValueView::Fixed64(b) => {
            assert(tail.take(8) =~= b);
        },
        ValueView::Bytes(b) => {
            lemma_u64_below_pow128(b.len() as u64);
            lemma_varint_round_trip(b.len(), MAX_VARINT_LEN as nat, b + rest, MAX_VARINT_LEN as nat);
            assert(tail =~= varint(b.len()) + (b + rest));
            let m = varint(b.len()).len();
            assert(tail.subrange(m as int, (m + b.len()) as int) =~= b);
        },
        ValueView::Fixed32(b) => {
            assert(tail.take(4) =~= b);
        },
    }
}

/// Fields that can be written are read back as they were written.
pub proof fn lemma_fields_round_trip(fields: Seq<FieldView>)
    requires
        forall|i: int| 0 <= i < fields.len() ==> (#[trigger] fields[i]).wf(),
    ensures
        parse_fields(fields_bytes(fields)) == Some(fields),
    decreases fields.len(),
{
    if fields.len() > 0 {
        let first = fields.first();
        let rest = fields.drop_first();
        assert(first == fields[0]);
        assert forall|i: int| 0 <= i < rest.len() implies (#[trigger] rest[i]).wf() by {
            assert(rest[i] == fields[i + 1]);
        }
        lemma_field_round_trip(first, fields_bytes(rest));
        lemma_fields_round_trip(rest);
        let all = fields_bytes(fields);
        assert(all.skip(first.bytes().len() as int) =~= fields_bytes(rest));
        assert(seq![first] + rest =~= fields);
    }
}

/// The bytes of fields put one after the other are the bytes of the first
/// ones followed by those of the others.
pub proof fn lemma_fields_bytes_add(a: Seq<FieldView>, b: Seq<FieldView>)
    ensures
        fields_bytes(a + b) == fields_bytes(a) + fields_bytes(b),
    decreases a.len(),
{
    if a.len() == 0 {
        assert(a + b =~= b);
        assert(fields_bytes(a) + fields_bytes(b) =~= fields_bytes(b));
    } else {
        lemma_fields_bytes_add(a.drop_first(), b);
        assert((a + b).drop_first() =~= a.drop_first() + b);
        assert((a + b).first() == a.first());
        assert(fields_bytes(a + b) =~= fields_bytes(a) + fields_bytes(b));
    }
}

/// Appends `field` to `out`.
pub fn write_field(out: &mut Vec<u8>, field: &Field)
    requires
        field@.wf(),
    ensures
        final(out)@ == old(out)@ + field@.bytes(),
{
    let ghost start = out@;
    match &field.value {
        Value::Varint(v) => {
            write_varint(out, field.number * 8);
            write_varint(out, *v);
        },
        Value::Fixed64(b) => {
            write_varint(out, field.number * 8 + 1);
            append(out, b.as_slice());
        },
        Value::Bytes(b) => {
            write_varint(out, field.number * 8 + 2);
            write_varint(out, b.len() as u64);
            append(out, b.as_slice());
        },
        Value::Fixed32(b) => {
            write_varint(out, field.number * 8 + 5);
            append(out, b.as_slice());
        },
    }
    assert(out@ =~= start + field@.bytes());
}

/// Appends `bytes` to `out`.
pub fn append(out: &mut Vec<u8>, bytes: &[u8])
    ensures
        final(out)@ == old(out)@ + bytes@,
{
    let ghost start = out@;
    out.extend_from_slice(bytes);
    assert(out@ =~= start + bytes@);
}

/// The bytes of `fields`, one after the other.
pub fn write_fields(fields: &Vec<Field>) -> (out: Vec<u8>)
    requires
        forall|i: int| 0 <= i < fields.len() ==> (#[trigger] fields[i])@.wf(),
    ensures
        out@ == fields_bytes(field_views(fields@)),
{
    let ghost all = field_views(fields@);
    let mut out: Vec<u8> = Vec::new();
    let mut i: usize = 0;
    assert(all.take(0) =~= Seq::empty());
    while i < fields.len()
        invariant
            i <= fields.len(),
            all == field_views(fields@),
            forall|i: int| 0 <= i < fields.len() ==> (#[trigger] fields[i])@.wf(),
            out@ == fields_bytes(all.take(i as int)),
        decreases fields.len() - i,
    {
        proof {
            lemma_fields_bytes_add(all.take(i as int), seq![all[i as int]]);
            assert(all.take(i + 1) =~= all.take(i as int) + seq![all[i as int]]);
            reveal_with_fuel(fields_bytes, 2);
            assert(seq![all[i as int]].drop_first() =~= Seq::empty());
            assert(fields_bytes(seq![all[i as int]]) =~= all[i as int].bytes());
        }
        write_field(&mut out, &fields[i]);
        i += 1;
    }
    assert(all.take(all.len() as int) =~= all);
    out
}

/// Reads the field that stands at `pos` in `bytes`, and says how many bytes
/// it takes.
pub fn read_field(bytes: &[u8], pos: usize) -> (read: Option<(Field, usize)>)
    requires
        pos <= bytes.len(),
    ensures
        parse_field(bytes@.skip(pos as int)) == match read {
            Some((field, n)) => Some((field@, n as nat)),
            None => None,
        },
        read matches Some((_, n)) ==> 1 <= n && pos + n <= bytes.len(),
{
    let ghost here = bytes@.skip(pos as int);
    let (key, n) = match read_varint(bytes, pos) {
        Some(read) => read,
        None => {
            return None;
        },
    };
    let number = key / 8;
    let kind = key % 8;
    let at = pos + n;
    let left = bytes.len() - at;
    let ghost rest = here.skip(n as int);
    assert(rest =~= bytes@.skip(at as int));
    if number == 0 || number > MAX_FIELD_NUMBER {
        return None;
    }
    if kind == 0 {
        match read_varint(bytes, at) {
            Some((v, m)) => Some((Field { number, value: Value::Varint(v) }, n + m)),
            None => None,
        }
    } else if kind == 1 {
        if left >= 8 {
            let value = slice_to_vec(slice_subrange(bytes, at, at + 8));
            assert(value@ =~= rest.take(8));
            Some((Field { number, value: Value::Fixed64(value) }, n + 8))
        } else {
            None
        }
    } else if kind == 2 {
        match read_varint(bytes, at) {
            Some((len, m)) => {
                if len <= (left - m) as u64 {
                    let from = at + m;
                    let len = len as usize;
                    let value = slice_to_vec(slice_subrange(bytes, from, from + len));
                    assert(value@ =~= rest.subrange(m as int, m + len));
                    Some((Field { number, value: Value::Bytes(value) }, n + m + len))
                } else {
                    None
                }
            },
            None => None,
        }
    } else if kind == 5 {
        if left >= 4 {
            let value = slice_to_vec(slice_subrange(bytes, at, at + 4));
            assert(value@ =~= rest.take(4));
            Some((Field { number, value: Value::Fixed32(value) }, n + 4))
        } else {
            None
        }
    } else {
        None
    }
}

/// Reads the fields that `bytes` are made of.
pub fn read_fields(bytes: &[u8]) -> (read: Option<Vec<Field>>)
    ensures
        parse_fields(bytes@) == match read {
            Some(fields) => Some(field_views(fields@)),
            None => None,
        },
{
    let mut fields: Vec<Field> = Vec::new();
    let mut pos: usize = 0;
    assert(bytes@.skip(0) =~= bytes@);
    assert(field_views(fields@) =~= Seq::empty());
    while pos < bytes.len()
        invariant
            pos <= bytes.len(),
            parse_fields(bytes@) == match parse_fields(bytes@.skip(pos as int)) {
                Some(rest) => Some(field_views(fields@) + rest),
                None => None,
            },
        decreases bytes.len() - pos,
    {
        let ghost here = bytes@.skip(pos as int);
        let ghost before = field_views(fields@);
        match read_field(bytes, pos) {
            Some((field, n)) => {
                proof {
                    assert(here.skip(n as int) =~= bytes@.skip(pos + n));
                    assert(field_views(fields@.push(field)) =~= before.push(field@));
                    match parse_fields(here.skip(n as int)) {
                        Some(rest) => {
                            assert(before + (seq![field@] + rest) =~= before.push(field@) + rest);
                        },
                        None => {},
                    }
                }
                fields.push(field);
                pos = pos + n;
            },
            None => {
                return None;
            },
        }
    }
    proof {
        assert(field_views(fields@) + Seq::<FieldView>::empty() =~= field_views(fields@));
    }
    Some(fields)
}

/// What the last of `fields` with the given number holds, if there is one.
/// Where a field that stands once is written twice, the last one counts.
pub open spec fn last_with(fields: Seq<FieldView>, number: u64) -> Option<ValueView>
    decreases fields.len(),
{
    if fields.len() == 0 {
        None
    } else if fields.last().number == number {
        Some(fields.last().value)
    } else {
        last_with(fields.drop_last(), number)
    }
}

/// What those of `fields` with the given number hold, in their order.
pub open spec fn all_with(fields: Seq<FieldView>, number: u64) -> Seq<ValueView>
    decreases fields.len(),
{
    if fields.len() == 0 {
        Seq::empty()
    } else if fields.last().number == number {
        all_with(fields.drop_last(), number).push(fields.last().value)
    } else {
        all_with(fields.drop_last(), number)
    }
}

/// The last field with a number, of fields put one after the other, is the
/// last of the later ones if they have one, else the last of the earlier
/// ones.
pub proof fn lemma_last_with_add(a: Seq<FieldView>, b: Seq<FieldView>, number: u64)
    ensures
        last_with(a + b, number) == match last_with(b, number) {
            Some(value) => Some(value),
            None => last_with(a, number),
        },
    decreases b.len(),
{
    if b.len() == 0 {
        assert(a + b =~= a);
    } else {
        assert((a + b).drop_last() =~= a + b.drop_last());
        assert((a + b).last() == b.last());
        lemma_last_with_add(a, b.drop_last(), number);
    }
}

/// The fields with a number, of fields put one after the other, are those of
/// the earlier ones followed by those of the later ones.
pub proof fn lemma_all_with_add(a: Seq<FieldView>, b: Seq<FieldView>, number: u64)
    ensures
        all_with(a + b, number) == all_with(a, number) + all_with(b, number),
    decreases b.len(),
{
    if b.len() == 0 {
        assert(a + b =~= a);
        assert(all_with(a, number) + all_with(b, number) =~= all_with(a, number));
    } else {
        assert((a + b).drop_last() =~= a + b.drop_last());
        assert((a + b).last() == b.last());
        lemma_all_with_add(a, b.drop_last(), number);
        if b.last().number == number {
            assert(all_with(a + b, number) =~= all_with(a, number) + all_with(b, number));
        }
    }
}

/// Where in `fields` the last one with the given number stands, if there is
/// one.
pub fn find_last(fields: &Vec<Field>, number: u64) -> (found: Option<usize>)
    ensures
        match found {
            Some(i) => i < fields.len() && fields[i as int].number == number && last_with(
                field_views(fields@),
                number,
            ) == Some(fields[i as int]@.value),
            None => last_with(field_views(fields@), number) is None,
        },
{
    let ghost all = field_views(fields@);
    let mut i: usize = fields.len();
    assert(all.take(all.len() as int) =~= all);
    while i > 0
        invariant
            i <= fields.len(),
            all == field_views(fields@),
            last_with(all, number) == last_with(all.take(i as int), number),
        decreases i,
    {
        i -= 1;
        assert(all.take(i + 1).drop_last() =~= all.take(i as int));
        assert(all.take(i + 1).last() == all[i as int]);
        if fields[i].number == number {
            return Some(i);
        }
    }
    None
}

} // verus!
