//! Scalars as bytes.
//!
//! Each scalar is written by `ssmarshal`, least significant byte first.

use vstd::prelude::*;

verus! {

/// The error type of `ssmarshal`, which is carried and never looked into.
#[verifier::external_type_specification]
#[verifier::external_body]
pub struct ExSsmarshalError(ssmarshal::Error);

/// The `width` low-order digits of `value` to the base of 256, the lowest first.
pub open spec fn le(value: nat, width: nat) -> Seq<u8>
    decreases width,
{
    if width == 0 {
        Seq::empty()
    } else {
        seq![(value % 256) as u8] + le(value / 256, (width - 1) as nat)
    }
}

/// The number whose digits to the base of 256, the lowest first, are `bytes`.
pub open spec fn unle(bytes: Seq<u8>) -> nat
    decreases bytes.len(),
{
    if bytes.len() == 0 {
        0
    } else {
        bytes[0] as nat + 256 * unle(bytes.drop_first())
    }
}

/// The number in the four bytes of `bytes` from `at` on.
pub open spec fn u32_at(bytes: Seq<u8>, at: int) -> u32 {
    unle(bytes.subrange(at, at + 4)) as u32
}

/// `bytes` with `data` written over it from position `at` on.
pub open spec fn overlay(bytes: Seq<u8>, at: int, data: Seq<u8>) -> Seq<u8> {
    Seq::new(
        bytes.len(),
        |i: int|
            if at <= i < at + data.len() {
                data[i - at]
            } else {
                bytes[i]
            },
    )
}

/// One scalar of a value on the wire.
#[derive(Clone, Copy, Debug, PartialEq, Eq, Structural)]
pub enum Field {
    U8(u8),
    U16(u16),
    U32(u32),
    U64(u64),
}

impl Field {
    /// How many bytes the scalar takes.
    pub open spec fn width(self) -> nat {
        match self {
            Field::U8(_) => 1,
            Field::U16(_) => 2,
            Field::U32(_) => 4,
            Field::U64(_) => 8,
        }
    }

    pub open spec fn value(self) -> nat {
        match self {
            Field::U8(v) => v as nat,
            Field::U16(v) => v as nat,
            Field::U32(v) => v as nat,
            Field::U64(v) => v as nat,
        }
    }

    pub open spec fn bytes(self) -> Seq<u8> {
        le(self.value(), self.width())
    }
}

/// What a sequence of scalars looks like on the wire.
pub open spec fn encoded(fields: Seq<Field>) -> Seq<u8>
    decreases fields.len(),
{
    if fields.len() == 0 {
        Seq::empty()
    } else {
        encoded(fields.drop_last()) + fields.last().bytes()
    }
}

/// The longest prefix of `fields` that takes no more than `room` bytes.
pub open spec fn longest_fit(fields: Seq<Field>, room: nat) -> Seq<Field>
    decreases fields.len(),
{
    if fields.len() == 0 || encoded(fields).len() <= room {
        fields
    } else {
        longest_fit(fields.drop_last(), room)
    }
}

pub proof fn lemma_le_len(value: nat, width: nat)
    ensures
        le(value, width).len() == width,
    decreases width,
{
    if width > 0 {
        lemma_le_len(value / 256, (width - 1) as nat);
    }
}

/// How many numbers can be told apart by `width` digits to the base of 256.
pub open spec fn span(width: nat) -> nat
    decreases width,
{
    if width == 0 {
        1
    } else {
        256 * span((width - 1) as nat)
    }
}

proof fn lemma_unle_le(value: nat, width: nat)
    requires
        value < span(width),
    ensures
        unle(le(value, width)) == value,
    decreases width,
{
    if width > 0 {
        let rest = le(value / 256, (width - 1) as nat);
        lemma_unle_le(value / 256, (width - 1) as nat);
        assert(le(value, width).drop_first() == rest);
    }
}

pub proof fn lemma_field_span(field: Field)
    ensures
        field.value() < span(field.width()),
        field.bytes().len() == field.width(),
{
    reveal_with_fuel(span, 9);
    lemma_le_len(field.value(), field.width());
}

/// Fields of one width that look the same are the same.
proof fn lemma_field_injective(a: Field, b: Field)
    requires
        a.width() == b.width(),
        a.bytes() == b.bytes(),
    ensures
        a == b,
{
    lemma_field_span(a);
    lemma_field_span(b);
    lemma_unle_le(a.value(), a.width());
    lemma_unle_le(b.value(), b.width());
}

pub proof fn lemma_encoded_add(a: Seq<Field>, b: Seq<Field>)
    ensures
        encoded(a + b) == encoded(a) + encoded(b),
    decreases b.len(),
{
    if b.len() == 0 {
        assert(a + b == a);
        assert(encoded(a) + encoded(b) == encoded(a));
    } else {
        assert((a + b).drop_last() == a + b.drop_last());
        lemma_encoded_add(a, b.drop_last());
        assert(encoded(a + b) == encoded(a) + encoded(b));
    }
}

pub proof fn lemma_encoded_first(fields: Seq<Field>)
    requires
        fields.len() > 0,
    ensures
        encoded(fields) == fields[0].bytes() + encoded(fields.drop_first()),
{
    let head = seq![fields[0]];
    assert(fields == head + fields.drop_first());
    lemma_encoded_add(head, fields.drop_first());
    reveal_with_fuel(encoded, 2);
    assert(encoded(head) == fields[0].bytes());
}

/// Where one message is the start of another, the fields that they begin with
/// agree for as long as they have the same widths.
pub proof fn lemma_common_fields(a: Seq<Field>, b: Seq<Field>, k: int, x: Seq<u8>, y: Seq<u8>)
    requires
        0 <= k <= a.len(),
        k <= b.len(),
        forall|i: int| 0 <= i < k ==> (#[trigger] a[i]).width() == (#[trigger] b[i]).width(),
        (encoded(a) + x).is_prefix_of(encoded(b) + y),
    ensures
        forall|i: int| 0 <= i < k ==> #[trigger] a[i] == b[i],
        (encoded(a.skip(k)) + x).is_prefix_of(encoded(b.skip(k)) + y),
    decreases k,
{
    if k == 0 {
        assert(a.skip(0) == a);
        assert(b.skip(0) == b);
    } else {
        lemma_encoded_first(a);
        lemma_encoded_first(b);
        lemma_field_span(a[0]);
        lemma_field_span(b[0]);
        let (ra, rb) = (a.drop_first(), b.drop_first());
        let (whole_a, whole_b) = (encoded(a) + x, encoded(b) + y);
        let w = a[0].width() as int;
        assert(a[0].width() == b[0].width());
        assert forall|i: int| 0 <= i < whole_a.len() implies whole_a[i] == whole_b[i] by {
            assert(whole_b.subrange(0, whole_a.len() as int)[i] == whole_b[i]);
        }
        assert(a[0].bytes() =~= b[0].bytes()) by {
            assert forall|i: int| 0 <= i < w implies a[0].bytes()[i] == b[0].bytes()[i] by {
                assert(whole_a[i] == a[0].bytes()[i]);
                assert(whole_b[i] == b[0].bytes()[i]);
            }
        }
        lemma_field_injective(a[0], b[0]);
        let (tail_a, tail_b) = (encoded(ra) + x, encoded(rb) + y);
        assert(tail_a =~= tail_b.subrange(0, tail_a.len() as int)) by {
            assert forall|i: int| 0 <= i < tail_a.len() implies tail_a[i] == tail_b[i] by {
                assert(whole_a[i + w] == tail_a[i]);
                assert(whole_b[i + w] == tail_b[i]);
            }
        }
        assert forall|i: int| 0 <= i < k - 1 implies (#[trigger] ra[i]).width() == (
        #[trigger] rb[i]).width() by {
            assert(a[i + 1].width() == b[i + 1].width());
        }
        lemma_common_fields(ra, rb, k - 1, x, y);
        assert forall|i: int| 0 <= i < k implies #[trigger] a[i] == b[i] by {
            if i > 0 {
                assert(ra[i - 1] == rb[i - 1]);
            }
        }
        assert(ra.skip(k - 1) == a.skip(k));
        assert(rb.skip(k - 1) == b.skip(k));
    }
}

/// `lemma_common_fields` for fields that all have the same widths.
pub proof fn lemma_same_shape(a: Seq<Field>, b: Seq<Field>, x: Seq<u8>, y: Seq<u8>)
    requires
        a.len() == b.len(),
        forall|i: int| 0 <= i < a.len() ==> (#[trigger] a[i]).width() == (#[trigger] b[i]).width(),
        (encoded(a) + x).is_prefix_of(encoded(b) + y),
    ensures
        a == b,
        x.is_prefix_of(y),
{
    lemma_common_fields(a, b, a.len() as int, x, y);
    assert(a.skip(a.len() as int) == Seq::<Field>::empty());
    assert(b.skip(a.len() as int) == Seq::<Field>::empty());
    assert(Seq::<u8>::empty() + x == x);
    assert(Seq::<u8>::empty() + y == y);
}

pub proof fn lemma_encoded_len_add(a: Seq<Field>, b: Seq<Field>)
    ensures
        encoded(a + b).len() == encoded(a).len() + encoded(b).len(),
{
    lemma_encoded_add(a, b);
}

/// The length of what fields of these widths look like.
proof fn lemma_encoded_len(fields: Seq<Field>)
    ensures
        encoded(fields).len() == if fields.len() == 0 {
            0
        } else {
            fields[0].width() + encoded(fields.drop_first()).len()
        },
{
    if fields.len() > 0 {
        lemma_encoded_first(fields);
        lemma_field_span(fields[0]);
    }
}

pub proof fn lemma_encoded_len_upto_4(fields: Seq<Field>)
    requires
        fields.len() <= 4,
    ensures
        fields.len() == 1 ==> encoded(fields).len() == fields[0].width(),
        fields.len() == 2 ==> encoded(fields).len() == fields[0].width() + fields[1].width(),
        fields.len() == 3 ==> encoded(fields).len() == fields[0].width() + fields[1].width()
            + fields[2].width(),
        fields.len() == 4 ==> encoded(fields).len() == fields[0].width() + fields[1].width()
            + fields[2].width() + fields[3].width(),
{
    let rest = fields.drop_first();
    lemma_encoded_len(fields);
    lemma_encoded_len(rest);
    lemma_encoded_len(rest.drop_first());
    lemma_encoded_len(rest.drop_first().drop_first());
    lemma_encoded_len(rest.drop_first().drop_first().drop_first());
}

pub proof fn lemma_longest_fit(fields: Seq<Field>, room: nat)
    ensures
        encoded(longest_fit(fields, room)).len() <= room,
        encoded(longest_fit(fields, room)).is_prefix_of(encoded(fields)),
        encoded(fields).len() <= room ==> longest_fit(fields, room) == fields,
    decreases fields.len(),
{
    if fields.len() == 0 || encoded(fields).len() <= room {
        assert(encoded(fields) =~= encoded(fields).subrange(0, encoded(fields).len() as int));
    } else {
        let shorter = fields.drop_last();
        lemma_longest_fit(shorter, room);
        let written = encoded(longest_fit(fields, room));
        assert forall|i: int| 0 <= i < written.len() implies written[i] == encoded(fields)[i] by {
            assert(encoded(shorter).subrange(0, written.len() as int)[i] == encoded(shorter)[i]);
        }
        assert(written =~= encoded(fields).subrange(0, written.len() as int));
    }
}

proof fn lemma_unle_bound(bytes: Seq<u8>)
    ensures
        unle(bytes) < span(bytes.len()),
    decreases bytes.len(),
{
    if bytes.len() > 0 {
        lemma_unle_bound(bytes.drop_first());
    }
}

proof fn lemma_le_unle(bytes: Seq<u8>)
    ensures
        le(unle(bytes), bytes.len()) == bytes,
    decreases bytes.len(),
{
    if bytes.len() > 0 {
        let rest = bytes.drop_first();
        lemma_le_unle(rest);
        assert(unle(bytes) % 256 == bytes[0]);
        assert(unle(bytes) / 256 == unle(rest));
        assert(bytes =~= seq![bytes[0]] + rest);
    }
}

/// Whether `field` is what `bytes` hold from `at` on.
pub open spec fn stands_at(field: Field, bytes: Seq<u8>, at: int) -> bool {
    &&& at + field.width() <= bytes.len()
    &&& bytes.subrange(at, at + field.width()) == field.bytes()
}

/// The number that is read at `at` is the one that stands there.
pub proof fn lemma_u32_at(bytes: Seq<u8>, at: int, value: u32)
    requires
        0 <= at,
        at + 4 <= bytes.len(),
    ensures
        u32_at(bytes, at) == value <==> stands_at(Field::U32(value), bytes, at),
{
    let spelled = bytes.subrange(at, at + 4);
    lemma_field_span(Field::U32(value));
    lemma_unle_le(value as nat, 4);
    lemma_unle_bound(spelled);
    lemma_le_unle(spelled);
    reveal_with_fuel(span, 5);
}

/// The byte at `at` is the one that stands there.
pub proof fn lemma_u8_at(bytes: Seq<u8>, at: int, value: u8)
    requires
        0 <= at < bytes.len(),
    ensures
        bytes[at] == value <==> stands_at(Field::U8(value), bytes, at),
{
    reveal_with_fuel(le, 2);
    assert(Field::U8(value).bytes() =~= seq![value]);
    assert(bytes.subrange(at, at + 1) =~= seq![bytes[at]]);
    assert(seq![bytes[at]][0] == bytes[at]);
    assert(seq![value][0] == value);
}

/// Bytes begin with fields where they begin with the first and go on with the
/// others.
pub proof fn lemma_begins_with(fields: Seq<Field>, bytes: Seq<u8>, at: int)
    requires
        0 <= at <= bytes.len(),
    ensures
        fields.len() == 0 ==> encoded(fields).is_prefix_of(bytes.skip(at)),
        fields.len() > 0 ==> {
            encoded(fields).is_prefix_of(bytes.skip(at)) <==> {
                &&& stands_at(fields[0], bytes, at)
                &&& encoded(fields.drop_first()).is_prefix_of(
                    bytes.skip((at + fields[0].width()) as int),
                )
            }
        },
{
    let from = bytes.skip(at);
    if fields.len() == 0 {
        assert(encoded(fields) =~= from.subrange(0, 0));
    } else {
        lemma_encoded_first(fields);
        lemma_field_span(fields[0]);
        let (head, tail) = (fields[0].bytes(), encoded(fields.drop_first()));
        let w = fields[0].width() as int;
        let whole = encoded(fields);
        if stands_at(fields[0], bytes, at) && tail.is_prefix_of(bytes.skip(at + w)) {
            assert forall|i: int| 0 <= i < whole.len() implies whole[i] == from[i] by {
                if i < w {
                    assert(bytes.subrange(at, at + w)[i] == from[i]);
                } else {
                    assert(bytes.skip(at + w).subrange(0, tail.len() as int)[i - w] == from[i]);
                }
            }
            assert(whole =~= from.subrange(0, whole.len() as int));
        }
        if whole.is_prefix_of(from) {
            assert forall|i: int| 0 <= i < whole.len() implies whole[i] == from[i] by {
                assert(from.subrange(0, whole.len() as int)[i] == from[i]);
            }
            assert(bytes.subrange(at, at + w) =~= head) by {
                assert forall|i: int| 0 <= i < w implies bytes[at + i] == head[i] by {
                    assert(whole[i] == head[i]);
                }
            }
            let behind = bytes.skip(at + w);
            assert(tail =~= behind.subrange(0, tail.len() as int)) by {
                assert forall|i: int| 0 <= i < tail.len() implies tail[i] == behind[i] by {
                    assert(whole[i + w] == tail[i]);
                }
            }
        }
    }
}

proof fn lemma_encoded_take(fields: Seq<Field>, i: int)
    requires
        0 <= i < fields.len(),
    ensures
        encoded(fields.take(i + 1)) == encoded(fields.take(i)) + fields[i].bytes(),
        encoded(fields.take(i + 1)).len() == encoded(fields.take(i)).len() + fields[i].width(),
{
    assert(fields.take(i + 1).drop_last() == fields.take(i));
    lemma_le_len(fields[i].value(), fields[i].width());
}

proof fn lemma_longest_fit_is(fields: Seq<Field>, room: nat, i: int)
    requires
        0 <= i < fields.len(),
        encoded(fields.take(i)).len() <= room,
        encoded(fields.take(i + 1)).len() > room,
    ensures
        longest_fit(fields, room) == fields.take(i),
        encoded(fields).len() > room,
    decreases fields.len(),
{
    let shorter = fields.drop_last();
    lemma_encoded_take(fields, fields.len() - 1);
    assert(fields.take(fields.len() as int) == fields);
    assert(fields.take(fields.len() - 1) == shorter);
    if i + 1 == fields.len() {
        reveal_with_fuel(longest_fit, 2);
    } else {
        assert(shorter.take(i) == fields.take(i));
        assert(shorter.take(i + 1) == fields.take(i + 1));
        lemma_longest_fit_is(shorter, room, i);
    }
}

/// Writes one byte by `ssmarshal::serialize::<u8>` into `buf` from `at` on.
/// Trusted: where the buffer has room, the call writes the byte, leaves the rest
/// alone, and returns the width.
#[verifier::external_body]
fn write_u8(buf: &mut Vec<u8>, at: usize, value: u8) -> (r: Result<usize, ssmarshal::Error>)
    requires
        at + 1 <= old(buf)@.len(),
    ensures
        r is Ok && r->Ok_0 == 1,
        final(buf)@ == overlay(old(buf)@, at as int, le(value as nat, 1)),
{
    ssmarshal::serialize(&mut buf[at..], &value)
}

/// Writes two bytes by `ssmarshal::serialize::<u16>` into `buf` from `at` on.
/// Trusted: where the buffer has room, the call writes the number, lowest byte
/// first, leaves the rest alone, and returns the width.
#[verifier::external_body]
fn write_u16(buf: &mut Vec<u8>, at: usize, value: u16) -> (r: Result<usize, ssmarshal::Error>)
    requires
        at + 2 <= old(buf)@.len(),
    ensures
        r is Ok && r->Ok_0 == 2,
        final(buf)@ == overlay(old(buf)@, at as int, le(value as nat, 2)),
{
    ssmarshal::serialize(&mut buf[at..], &value)
}

/// Writes four bytes by `ssmarshal::serialize::<u32>` into `buf` from `at` on.
/// Trusted: where the buffer has room, the call writes the number, lowest byte
/// first, leaves the rest alone, and returns the width.
#[verifier::external_body]
fn write_u32(buf: &mut Vec<u8>, at: usize, value: u32) -> (r: Result<usize, ssmarshal::Error>)
    requires
        at + 4 <= old(buf)@.len(),
    ensures
        r is Ok && r->Ok_0 == 4,
        final(buf)@ == overlay(old(buf)@, at as int, le(value as nat, 4)),
{
    ssmarshal::serialize(&mut buf[at..], &value)
}

/// Writes eight bytes by `ssmarshal::serialize::<u64>` into `buf` from `at` on.
/// Trusted: where the buffer has room, the call writes the number, lowest byte
/// first, leaves the rest alone, and returns the width.
#[verifier::external_body]
fn write_u64(buf: &mut Vec<u8>, at: usize, value: u64) -> (r: Result<usize, ssmarshal::Error>)
    requires
        at + 8 <= old(buf)@.len(),
    ensures
        r is Ok && r->Ok_0 == 8,
        final(buf)@ == overlay(old(buf)@, at as int, le(value as nat, 8)),
{
    ssmarshal::serialize(&mut buf[at..], &value)
}

/// Reads a number by `ssmarshal::deserialize::<u32>`. Trusted: where there are
/// four bytes, the call returns the number that the first four spell, lowest byte
/// first, and how many bytes it used.
#[verifier::external_body]
pub(crate) fn read_u32(bytes: &[u8]) -> (r: Result<(u32, usize), ssmarshal::Error>)
    requires
        bytes@.len() >= 4,
    ensures
        r is Ok && r->Ok_0 == (u32_at(bytes@, 0), 4usize),
{
    ssmarshal::deserialize::<u32>(bytes)
}

/// Reads a number and a truth value by `ssmarshal::deserialize::<(u32, bool)>`.
/// Trusted: where there are five bytes, the call takes the first four for the
/// number, lowest byte first, and the fifth for `false` if it is 0 and for `true`
/// if it is 1; it fails on every other fifth byte.
#[verifier::external_body]
pub(crate) fn read_u32_bool(bytes: &[u8]) -> (r: Result<((u32, bool), usize), ssmarshal::Error>)
    requires
        bytes@.len() >= 5,
    ensures
        r is Ok <==> bytes@[4] <= 1,
        r is Ok ==> r->Ok_0 == ((u32_at(bytes@, 0), bytes@[4] == 1), 5usize),
{
    ssmarshal::deserialize::<(u32, bool)>(bytes)
}

/// Reads two numbers by `ssmarshal::deserialize::<(u32, u32)>`. Trusted: where
/// there are eight bytes, the call returns the numbers that the first four and
/// the next four spell, lowest byte first, and how many bytes it used.
#[verifier::external_body]
pub(crate) fn read_u32_u32(bytes: &[u8]) -> (r: Result<((u32, u32), usize), ssmarshal::Error>)
    requires
        bytes@.len() >= 8,
    ensures
        r is Ok && r->Ok_0 == ((u32_at(bytes@, 0), u32_at(bytes@, 4)), 8usize),
{
    ssmarshal::deserialize::<(u32, u32)>(bytes)
}

/// Reads three numbers by `ssmarshal::deserialize::<(u32, (u32, u32))>`. Trusted:
/// where there are twelve bytes, the call returns the numbers that they spell in
/// groups of four, lowest byte first, and how many bytes it used.
#[verifier::external_body]
pub(crate) fn read_u32_pair(bytes: &[u8]) -> (r: Result<
    ((u32, (u32, u32)), usize),
    ssmarshal::Error,
>)
    requires
        bytes@.len() >= 12,
    ensures
        r is Ok && r->Ok_0 == (
            (u32_at(bytes@, 0), (u32_at(bytes@, 4), u32_at(bytes@, 8))),
            12usize,
        ),
{
    ssmarshal::deserialize::<(u32, (u32, u32))>(bytes)
}

/// Why a value could not be written whole.
#[derive(Clone, Copy, Debug, PartialEq, Eq, Structural)]
pub enum MarshalError {
    /// The buffer is too small for the value.
    EndOfStream,
    /// The value cannot be written at all.
    Unsupported,
}

/// Writes `field` into `buf` from `at` on, if there is room for all of it.
fn write_field(buf: &mut Vec<u8>, at: usize, field: Field) -> (r: Result<usize, MarshalError>)
    requires
        at <= old(buf)@.len(),
    ensures
        at + field.width() <= old(buf)@.len() ==> {
            &&& r matches Ok(n) && n == field.width()
            &&& final(buf)@ == overlay(old(buf)@, at as int, field.bytes())
        },
        at + field.width() > old(buf)@.len() ==> {
            &&& r == Err::<usize, _>(MarshalError::EndOfStream)
            &&& final(buf)@ == old(buf)@
        },
{
    let room: usize = buf.len() - at;
    let written = match field {
        Field::U8(v) => {
            if room < 1 {
                return Err(MarshalError::EndOfStream);
            }
            write_u8(buf, at, v)
        },
        Field::U16(v) => {
            if room < 2 {
                return Err(MarshalError::EndOfStream);
            }
            write_u16(buf, at, v)
        },
        Field::U32(v) => {
            if room < 4 {
                return Err(MarshalError::EndOfStream);
            }
            write_u32(buf, at, v)
        },
        Field::U64(v) => {
            if room < 8 {
                return Err(MarshalError::EndOfStream);
            }
            write_u64(buf, at, v)
        },
    };
    match written {
        Ok(n) => Ok(n),
        Err(_) => Err(MarshalError::Unsupported),
    }
}

/// Writes `fields` into `buf` from its start on, field by field, up to the first
/// that does not fit. Returns how many bytes were written if all of them were.
pub fn marshal(buf: &mut Vec<u8>, fields: &Vec<Field>) -> (r: Result<usize, MarshalError>)
    ensures
        final(buf)@ == overlay(
            old(buf)@,
            0,
            encoded(longest_fit(fields@, old(buf)@.len())),
        ),
        match r {
            Ok(n) => encoded(fields@).len() <= old(buf)@.len() && n == encoded(fields@).len(),
            Err(e) => encoded(fields@).len() > old(buf)@.len() && e == MarshalError::EndOfStream,
        },
{
    let ghost start = buf@;
    let room: usize = buf.len();
    let mut at: usize = 0;
    let mut i: usize = 0;
    assert(fields@.take(0) == Seq::<Field>::empty());
    assert(buf@ =~= overlay(start, 0, Seq::empty()));
    while i < fields.len()
        invariant
            i <= fields@.len(),
            start == old(buf)@,
            buf@.len() == start.len(),
            start.len() == room,
            at <= room,
            at == encoded(fields@.take(i as int)).len(),
            buf@ == overlay(start, 0, encoded(fields@.take(i as int))),
        decreases fields@.len() - i,
    {
        proof {
            lemma_encoded_take(fields@, i as int);
        }
        match write_field(buf, at, fields[i]) {
            Ok(n) => {
                at = at + n;
            },
            Err(e) => {
                proof {
                    lemma_longest_fit_is(fields@, start.len(), i as int);
                }
                return Err(e);
            },
        }
        i = i + 1;
        assert(buf@ =~= overlay(start, 0, encoded(fields@.take(i as int))));
    }
    assert(fields@.take(fields@.len() as int) == fields@);
    Ok(at)
}

} // verus!
