//! Writing records in their encoding.
//!
//! Every record is written in its shortest form: a tag, a number and a
//! length take the fewest bytes that hold them, and a full tag of vendor 0
//! and profile 0 is written without the two.

use crate::endian::{
    bytes16, bytes32, bytes64, lemma_read_written_16, lemma_read_written_32,
    lemma_read_written_64, lemma_written_read_16, lemma_written_read_32, lemma_written_read_64,
};
use crate::tlv::parser::{
    borrowed_range, number_at, record_at, record_end, record_failure, signed, tag_at, tag_length,
    value_at, value_start, width_of,
};
use crate::tlv::value::{ContainerType, Record, RecordView, TagValue, Value, ValueView};
use crate::writer::{writes_in_turn, EndianWriteError, LittleEndianWriter};
use vstd::prelude::*;

verus! {

/// Which of the widths 1, 2, 4, 8 is the narrowest that holds the unsigned
/// number `n`, counted from 0.
pub open spec fn unsigned_step(n: int) -> int {
    if n <= 0xFF {
        0
    } else if n <= 0xFFFF {
        1
    } else if n <= 0xFFFF_FFFF {
        2
    } else {
        3
    }
}

/// Which of the widths 1, 2, 4, 8 is the narrowest that holds the signed
/// number `n`, counted from 0.
pub open spec fn signed_step(n: int) -> int {
    if -0x80 <= n <= 0x7F {
        0
    } else if -0x8000 <= n <= 0x7FFF {
        1
    } else if -0x8000_0000 <= n <= 0x7FFF_FFFF {
        2
    } else {
        3
    }
}

/// The bytes of the unsigned number `n` in the width that `step` counts,
/// least significant first.
pub open spec fn number_bytes(n: int, step: int) -> Seq<u8> {
    if step == 0 {
        seq![n as u8]
    } else if step == 1 {
        bytes16(n as u16)
    } else if step == 2 {
        bytes32(n as u32)
    } else {
        bytes64(n as u64)
    }
}

/// The unsigned number that stands for the signed number `n` in two's
/// complement, in the width that `step` counts.
pub open spec fn unsigned_of(n: int, step: int) -> int {
    if n >= 0 {
        n
    } else if step == 0 {
        n + 0x100
    } else if step == 1 {
        n + 0x1_0000
    } else if step == 2 {
        n + 0x1_0000_0000
    } else {
        n + 0x1_0000_0000_0000_0000
    }
}

/// How the tag is written: the upper three bits of the control byte.
pub open spec fn tag_form(tag: TagValue) -> int {
    match tag {
        TagValue::Anonymous => 0,
        TagValue::ContextSpecific { .. } => 1,
        TagValue::Implicit { tag } => if tag <= 0xFFFF {
            4
        } else {
            5
        },
        TagValue::Full { vendor_id, profile_id, tag } => if vendor_id == 0 && profile_id == 0 {
            if tag <= 0xFFFF {
                2
            } else {
                3
            }
        } else if tag <= 0xFFFF {
            6
        } else {
            7
        },
    }
}

/// Which of the widths 2 and 4 is the narrower that holds the number of a
/// tag, counted as the widths of numbers are.
pub open spec fn tag_step(tag: u32) -> int {
    if tag <= 0xFFFF {
        1
    } else {
        2
    }
}

/// The bytes of the tag.
pub open spec fn tag_bytes(tag: TagValue) -> Seq<u8> {
    match tag {
        TagValue::Anonymous => Seq::empty(),
        TagValue::ContextSpecific { tag } => seq![tag],
        TagValue::Implicit { tag } => number_bytes(tag as int, tag_step(tag)),
        TagValue::Full { vendor_id, profile_id, tag } => (if vendor_id == 0 && profile_id == 0 {
            Seq::empty()
        } else {
            bytes16(vendor_id) + bytes16(profile_id)
        }) + number_bytes(tag as int, tag_step(tag)),
    }
}

/// The kind of value: the lower five bits of the control byte.
pub open spec fn value_kind(value: ValueView) -> int {
    match value {
        ValueView::Signed(n) => signed_step(n as int),
        ValueView::Unsigned(n) => 4 + unsigned_step(n as int),
        ValueView::Bool(b) => if b {
            9
        } else {
            8
        },
        ValueView::Float(_) => 10,
        ValueView::Double(_) => 11,
        ValueView::Utf8(bytes) => 12 + unsigned_step(bytes.len() as int),
        ValueView::Bytes(bytes) => 16 + unsigned_step(bytes.len() as int),
        ValueView::Null => 20,
        ValueView::ContainerStart(ContainerType::Structure) => 21,
        ValueView::ContainerStart(ContainerType::Array) => 22,
        ValueView::ContainerStart(ContainerType::List) => 23,
        ValueView::ContainerEnd => 24,
    }
}

/// What of the value is written behind the tag, but for the bytes of a
/// string: the number, or the length of the string.
pub open spec fn value_head(value: ValueView) -> Seq<u8> {
    match value {
        ValueView::Signed(n) => number_bytes(
            unsigned_of(n as int, signed_step(n as int)),
            signed_step(n as int),
        ),
        ValueView::Unsigned(n) => number_bytes(n as int, unsigned_step(n as int)),
        ValueView::Float(bits) => bytes32(bits),
        ValueView::Double(bits) => bytes64(bits),
        ValueView::Utf8(bytes) => number_bytes(
            bytes.len() as int,
            unsigned_step(bytes.len() as int),
        ),
        ValueView::Bytes(bytes) => number_bytes(
            bytes.len() as int,
            unsigned_step(bytes.len() as int),
        ),
        _ => Seq::empty(),
    }
}

/// The bytes of a string or byte string; no bytes for another value.
pub open spec fn value_body(value: ValueView) -> Seq<u8> {
    match value {
        ValueView::Utf8(bytes) => bytes,
        ValueView::Bytes(bytes) => bytes,
        _ => Seq::empty(),
    }
}

/// The control byte of the record.
pub open spec fn control_byte(record: RecordView) -> u8 {
    (tag_form(record.tag) * 32 + value_kind(record.value)) as u8
}

/// What is written of a record before the bytes of its string: the control
/// byte, the tag, and the number or the length.
pub open spec fn record_head(record: RecordView) -> Seq<u8> {
    seq![control_byte(record)] + tag_bytes(record.tag) + value_head(record.value)
}

/// The record in its encoding.
pub open spec fn encoded(record: RecordView) -> Seq<u8> {
    record_head(record) + value_body(record.value)
}

/// Whether the record can be written: the end of a container carries no
/// tag.
pub open spec fn encodable(record: RecordView) -> bool {
    record.value is ContainerEnd ==> record.tag is Anonymous
}

/// Puts the bytes of `n` behind `head`, in the width that `step` counts.
fn push_number(head: &mut Vec<u8>, n: u64, step: u8)
    requires
        step <= 3,
        step == 0 ==> n <= 0xFF,
        step == 1 ==> n <= 0xFFFF,
        step == 2 ==> n <= 0xFFFF_FFFF,
    ensures
        final(head)@ == old(head)@ + number_bytes(n as int, step as int),
{
    if step == 0 {
        head.push(n as u8);
    } else if step == 1 {
        head.push((n % 0x100) as u8);
        head.push((n / 0x100) as u8);
    } else if step == 2 {
        head.push((n % 0x100) as u8);
        head.push((n / 0x100 % 0x100) as u8);
        head.push((n / 0x1_0000 % 0x100) as u8);
        head.push((n / 0x100_0000) as u8);
    } else {
        head.push((n % 0x100) as u8);
        head.push((n / 0x100 % 0x100) as u8);
        head.push((n / 0x1_0000 % 0x100) as u8);
        head.push((n / 0x100_0000 % 0x100) as u8);
        head.push((n / 0x1_0000_0000 % 0x100) as u8);
        head.push((n / 0x100_0000_0000 % 0x100) as u8);
        head.push((n / 0x1_0000_0000_0000 % 0x100) as u8);
        head.push((n / 0x100_0000_0000_0000) as u8);
    }
    assert(head@ =~= old(head)@ + number_bytes(n as int, step as int));
}

/// Which of the widths 1, 2, 4, 8 is the narrowest that holds `n`.
fn step_of_unsigned(n: u64) -> (r: u8)
    ensures
        r == unsigned_step(n as int),
        r <= 3,
{
    if n <= 0xFF {
        0
    } else if n <= 0xFFFF {
        1
    } else if n <= 0xFFFF_FFFF {
        2
    } else {
        3
    }
}

/// Which of the widths 1, 2, 4, 8 is the narrowest that holds `n`.
fn step_of_signed(n: i64) -> (r: u8)
    ensures
        r == signed_step(n as int),
        r <= 3,
{
    if -0x80 <= n && n <= 0x7F {
        0
    } else if -0x8000 <= n && n <= 0x7FFF {
        1
    } else if -0x8000_0000 <= n && n <= 0x7FFF_FFFF {
        2
    } else {
        3
    }
}

/// The unsigned number that stands for `n` in two's complement, in the
/// narrowest width that holds `n`.
fn to_unsigned(n: i64) -> (r: u64)
    ensures
        r == unsigned_of(n as int, signed_step(n as int)),
        signed_step(n as int) == 0 ==> r <= 0xFF,
        signed_step(n as int) == 1 ==> r <= 0xFFFF,
        signed_step(n as int) == 2 ==> r <= 0xFFFF_FFFF,
{
    if n >= 0 {
        n as u64
    } else if n >= -0x80 {
        (n + 0x100) as u64
    } else if n >= -0x8000 {
        (n + 0x1_0000) as u64
    } else if n >= -0x8000_0000 {
        (n + 0x1_0000_0000) as u64
    } else {
        u64::MAX - ((-(n + 1)) as u64)
    }
}

/// Puts the bytes of a tag behind `head`, and returns how it is written.
fn push_tag(head: &mut Vec<u8>, tag: TagValue) -> (form: u8)
    ensures
        form == tag_form(tag),
        form <= 7,
        final(head)@ == old(head)@ + tag_bytes(tag),
{
    match tag {
        TagValue::Anonymous => {
            assert(head@ =~= old(head)@ + tag_bytes(tag));
            0
        },
        TagValue::ContextSpecific { tag: number } => {
            head.push(number);
            assert(head@ =~= old(head)@ + tag_bytes(tag));
            1
        },
        TagValue::Implicit { tag: number } => {
            if number <= 0xFFFF {
                push_number(head, number as u64, 1);
                4
            } else {
                push_number(head, number as u64, 2);
                5
            }
        },
        TagValue::Full { vendor_id, profile_id, tag: number } => {
            let plain = vendor_id == 0 && profile_id == 0;
            if !plain {
                push_number(head, vendor_id as u64, 1);
                push_number(head, profile_id as u64, 1);
            }
            let ghost ids = head@;
            assert(ids =~= old(head)@ + (if plain {
                Seq::<u8>::empty()
            } else {
                bytes16(vendor_id) + bytes16(profile_id)
            }));
            if number <= 0xFFFF {
                push_number(head, number as u64, 1);
                assert(head@ =~= old(head)@ + tag_bytes(tag));
                if plain {
                    2
                } else {
                    6
                }
            } else {
                push_number(head, number as u64, 2);
                assert(head@ =~= old(head)@ + tag_bytes(tag));
                if plain {
                    3
                } else {
                    7
                }
            }
        },
    }
}

/// Puts what is written of a value behind its tag, but for the bytes of a
/// string, behind `head`, and returns the kind of the value.
fn push_value(head: &mut Vec<u8>, value: &Value) -> (kind: u8)
    ensures
        kind == value_kind(value@),
        kind <= 24,
        final(head)@ == old(head)@ + value_head(value@),
{
    let kind = match value {
        Value::Signed(n) => {
            let step = step_of_signed(*n);
            push_number(head, to_unsigned(*n), step);
            step
        },
        Value::Unsigned(n) => {
            let step = step_of_unsigned(*n);
            push_number(head, *n, step);
            4 + step
        },
        Value::Bool(b) => {
            if *b {
                9
            } else {
                8
            }
        },
        Value::Float(bits) => {
            push_number(head, *bits as u64, 2);
            10
        },
        Value::Double(bits) => {
            push_number(head, *bits, 3);
            11
        },
        Value::Utf8(bytes) => {
            let step = step_of_unsigned(bytes.len() as u64);
            push_number(head, bytes.len() as u64, step);
            12 + step
        },
        Value::Bytes(bytes) => {
            let step = step_of_unsigned(bytes.len() as u64);
            push_number(head, bytes.len() as u64, step);
            16 + step
        },
        Value::Null => 20,
        Value::ContainerStart(ContainerType::Structure) => 21,
        Value::ContainerStart(ContainerType::Array) => 22,
        Value::ContainerStart(ContainerType::List) => 23,
        Value::ContainerEnd => 24,
    };
    assert(head@ =~= old(head)@ + value_head(value@));
    kind
}

/// Writes a record in its shortest encoding: first the control byte, the
/// tag and the number or length, then the bytes of a string. Nothing is
/// written of a part that does not fit.
pub fn write_record<W: LittleEndianWriter>(record: &Record, writer: &mut W) -> (r: Result<
    (),
    EndianWriteError,
>)
    ensures
        writes_in_turn(
            seq![record_head(record@), value_body(record.value@)],
            old(writer).output(),
            old(writer).room(),
            final(writer).output(),
            final(writer).room(),
            r,
        ),
{
    let mut head: Vec<u8> = Vec::new();
    head.push(0);
    let form = push_tag(&mut head, record.tag);
    let kind = push_value(&mut head, &record.value);
    head[0] = form * 32 + kind;
    proof {
        assert(head@ =~= record_head(record@));
        reveal_with_fuel(writes_in_turn, 3);
        let fields = seq![record_head(record@), value_body(record.value@)];
        assert(fields.skip(1)[0] == fields[1]);
        assert(fields.skip(1).skip(1).len() == 0);
    }
    match writer.write(head.as_slice()) {
        Ok(()) => {},
        Err(e) => {
            return Err(e);
        },
    }
    let ghost before = writer.output();
    match record.value {
        Value::Utf8(bytes) => writer.write(bytes),
        Value::Bytes(bytes) => writer.write(bytes),
        _ => {
            assert(before + value_body(record.value@) =~= before);
            Ok(())
        },
    }
}

/// The largest number that the width holds that `step` counts.
pub open spec fn largest(step: int) -> int {
    if step == 0 {
        0xFF
    } else if step == 1 {
        0xFFFF
    } else if step == 2 {
        0xFFFF_FFFF
    } else {
        0xFFFF_FFFF_FFFF_FFFF
    }
}

/// A number is read from where its bytes stand.
proof fn lemma_number_read(b: Seq<u8>, at: int, n: int, step: int)
    requires
        0 <= step <= 3,
        0 <= n <= largest(step),
        0 <= at,
        at + width_of(step) <= b.len(),
        b.subrange(at, at + width_of(step)) == number_bytes(n, step),
    ensures
        number_at(b, at, width_of(step)) == n,
{
    let part = b.subrange(at, at + width_of(step));
    let from = b.skip(at);
    if step == 0 {
        assert(part[0] == b[at]);
    } else if step == 1 {
        lemma_read_written_16(n as u16);
        assert(from[0] == part[0] && from[1] == part[1]);
    } else if step == 2 {
        lemma_read_written_32(n as u32);
        assert(from[0] == part[0] && from[1] == part[1] && from[2] == part[2] && from[3]
            == part[3]);
    } else {
        lemma_read_written_64(n as u64);
        assert(from[0] == part[0] && from[1] == part[1] && from[2] == part[2] && from[3]
            == part[3] && from[4] == part[4] && from[5] == part[5] && from[6] == part[6]
            && from[7] == part[7]);
    }
}

/// The bytes of a number are those that it is read from.
proof fn lemma_number_written(b: Seq<u8>, at: int, step: int)
    requires
        0 <= step <= 3,
        0 <= at,
        at + width_of(step) <= b.len(),
    ensures
        0 <= number_at(b, at, width_of(step)) <= largest(step),
        number_bytes(number_at(b, at, width_of(step)), step) == b.subrange(
            at,
            at + width_of(step),
        ),
{
    let from = b.skip(at);
    if step == 0 {
        assert(number_bytes(number_at(b, at, 1), 0) =~= b.subrange(at, at + 1));
    } else if step == 1 {
        lemma_written_read_16(from);
        assert(from.take(2) =~= b.subrange(at, at + 2));
    } else if step == 2 {
        lemma_written_read_32(from);
        assert(from.take(4) =~= b.subrange(at, at + 4));
    } else {
        lemma_written_read_64(from);
        assert(from.take(8) =~= b.subrange(at, at + 8));
    }
}

/// The number of bytes that the tag of a record takes.
proof fn lemma_tag_bytes_length(tag: TagValue)
    ensures
        tag_bytes(tag).len() == tag_length((tag_form(tag) * 32) as u8),
        0 <= tag_form(tag) <= 7,
{
}

/// The tag of a record is read from its encoding.
proof fn lemma_tag_read(record: RecordView, rest: Seq<u8>)
    ensures
        ({
            let b = encoded(record) + rest;
            &&& b.len() >= 1 + tag_bytes(record.tag).len()
            &&& b[0] == control_byte(record)
            &&& b[0] / 32 == tag_form(record.tag)
            &&& b[0] % 32 == value_kind(record.value)
            &&& value_start(b, 0) == 1 + tag_bytes(record.tag).len()
            &&& tag_at(b, 0) == record.tag
        }),
{
    let b = encoded(record) + rest;
    let t = tag_bytes(record.tag);
    lemma_tag_bytes_length(record.tag);
    assert(b[0] == control_byte(record));
    assert(b.subrange(1, 1 + t.len() as int) =~= t);
    match record.tag {
        TagValue::Anonymous => {},
        TagValue::ContextSpecific { tag } => {
            assert(b[1] == t[0]);
        },
        TagValue::Implicit { tag } => {
            lemma_number_read(b, 1, tag as int, tag_step(tag));
        },
        TagValue::Full { vendor_id, profile_id, tag } => {
            if vendor_id == 0 && profile_id == 0 {
                lemma_number_read(b, 1, tag as int, tag_step(tag));
            } else {
                assert(b.subrange(1, 3) =~= bytes16(vendor_id));
                assert(b.subrange(3, 5) =~= bytes16(profile_id));
                assert(b.subrange(5, 5 + width_of(tag_step(tag)) as int) =~= number_bytes(
                    tag as int,
                    tag_step(tag),
                ));
                lemma_number_read(b, 1, vendor_id as int, 1);
                lemma_number_read(b, 3, profile_id as int, 1);
                lemma_number_read(b, 5, tag as int, tag_step(tag));
            }
        },
    }
}

/// What reading the tag of an encoded record finds, as far as the reading
/// of its value needs it.
spec fn tag_was_read(record: RecordView, b: Seq<u8>) -> bool {
    &&& b[0] / 32 == tag_form(record.tag)
    &&& b[0] % 32 == value_kind(record.value)
    &&& value_start(b, 0) == 1 + tag_bytes(record.tag).len()
    &&& b.subrange(value_start(b, 0), value_start(b, 0) + value_head(record.value).len())
        == value_head(record.value)
    &&& b.subrange(
        value_start(b, 0) + value_head(record.value).len(),
        value_start(b, 0) + value_head(record.value).len() + value_body(record.value).len(),
    ) == value_body(record.value)
    &&& b.len() >= value_start(b, 0) + value_head(record.value).len() + value_body(
        record.value,
    ).len()
}

/// What reading the value of an encoded record finds.
spec fn value_was_read(record: RecordView, b: Seq<u8>) -> bool {
    &&& record_failure(b, 0) is None
    &&& value_at(b, 0) == record.value
    &&& record_end(b, 0) == value_start(b, 0) + value_head(record.value).len() + value_body(
        record.value,
    ).len()
}

/// An integer is read from its encoding.
proof fn lemma_integer_read(record: RecordView, b: Seq<u8>)
    requires
        tag_was_read(record, b),
        record.value is Signed || record.value is Unsigned,
    ensures
        value_was_read(record, b),
{
    let start = value_start(b, 0);
    match record.value {
        ValueView::Signed(n) => {
            let step = signed_step(n as int);
            lemma_number_read(b, start, unsigned_of(n as int, step), step);
        },
        ValueView::Unsigned(n) => {
            lemma_number_read(b, start, n as int, unsigned_step(n as int));
        },
        _ => {},
    }
}

/// A floating point number is read from its encoding.
proof fn lemma_float_read(record: RecordView, b: Seq<u8>)
    requires
        tag_was_read(record, b),
        record.value is Float || record.value is Double,
    ensures
        value_was_read(record, b),
{
    let start = value_start(b, 0);
    match record.value {
        ValueView::Float(bits) => {
            lemma_number_read(b, start, bits as int, 2);
        },
        ValueView::Double(bits) => {
            lemma_number_read(b, start, bits as int, 3);
        },
        _ => {},
    }
}

/// A string or byte string is read from its encoding.
proof fn lemma_string_read(record: RecordView, b: Seq<u8>)
    requires
        tag_was_read(record, b),
        record.value is Utf8 || record.value is Bytes,
        value_body(record.value).len() <= u64::MAX,
    ensures
        value_was_read(record, b),
{
    let start = value_start(b, 0);
    let bytes = value_body(record.value);
    let step = unsigned_step(bytes.len() as int);
    lemma_number_read(b, start, bytes.len() as int, step);
    assert(borrowed_range(b, 0).0 == start + width_of(step));
    assert(borrowed_range(b, 0).1 == start + width_of(step) + bytes.len());
    assert(b.subrange(borrowed_range(b, 0).0, borrowed_range(b, 0).1) =~= bytes);
}

/// A value without bytes of its own is read from its encoding.
proof fn lemma_plain_read(record: RecordView, b: Seq<u8>)
    requires
        tag_was_read(record, b),
        encodable(record),
        !(record.value is Signed || record.value is Unsigned || record.value is Float
            || record.value is Double || record.value is Utf8 || record.value is Bytes),
    ensures
        value_was_read(record, b),
{
}

/// Reading what was written gives the record back: the encoding of a
/// record, whatever follows it, is read as that record, and the reading
/// takes exactly the encoding.
pub proof fn lemma_read_encoded(record: RecordView, rest: Seq<u8>)
    requires
        encodable(record),
        value_body(record.value).len() <= u64::MAX,
    ensures
        record_failure(encoded(record) + rest, 0) is None,
        record_at(encoded(record) + rest, 0) == record,
        record_end(encoded(record) + rest, 0) == encoded(record).len(),
{
    let b = encoded(record) + rest;
    lemma_tag_read(record, rest);
    let start = value_start(b, 0);
    let head = value_head(record.value);
    let body = value_body(record.value);
    assert(b.subrange(start, start + head.len()) =~= head);
    assert(b.subrange(start + head.len(), start + head.len() + body.len()) =~= body);
    assert(tag_was_read(record, b));
    if record.value is Signed || record.value is Unsigned {
        lemma_integer_read(record, b);
    } else if record.value is Float || record.value is Double {
        lemma_float_read(record, b);
    } else if record.value is Utf8 || record.value is Bytes {
        lemma_string_read(record, b);
    } else {
        lemma_plain_read(record, b);
    }
}

/// Whether the record at `at` is written in its shortest form.
pub open spec fn shortest(b: Seq<u8>, at: int) -> bool {
    let form = b[at] / 32;
    let kind = b[at] % 32;
    let start = value_start(b, at);
    &&& form == tag_form(tag_at(b, at))
    &&& kind < 4 ==> signed_step(signed(number_at(b, start, width_of(kind as int)), width_of(kind as int)))
        == kind
    &&& 4 <= kind < 8 ==> unsigned_step(number_at(b, start, width_of(kind - 4))) == kind - 4
    &&& 12 <= kind < 20 ==> unsigned_step(number_at(b, start, width_of((kind % 4) as int)))
        == kind % 4
}

/// The tag of a record in its shortest form is written as the bytes that it
/// was read from.
proof fn lemma_tag_written(b: Seq<u8>, at: int)
    requires
        0 <= at < b.len(),
        value_start(b, at) <= b.len(),
        b[at] / 32 == tag_form(tag_at(b, at)),
    ensures
        tag_bytes(tag_at(b, at)) == b.subrange(at + 1, value_start(b, at)),
{
    let form = b[at] / 32;
    let start = value_start(b, at);
    let t = tag_bytes(tag_at(b, at));
    if form == 0 {
        assert(t =~= b.subrange(at + 1, start));
    } else if form == 1 {
        assert(t =~= b.subrange(at + 1, start));
    } else if form == 2 || form == 4 {
        lemma_number_written(b, at + 1, 1);
    } else if form == 3 || form == 5 {
        lemma_number_written(b, at + 1, 2);
    } else if form == 6 {
        lemma_number_written(b, at + 1, 1);
        lemma_number_written(b, at + 3, 1);
        lemma_number_written(b, at + 5, 1);
        assert(t =~= b.subrange(at + 1, at + 3) + b.subrange(at + 3, at + 5) + b.subrange(
            at + 5,
            at + 7,
        ));
        assert(t =~= b.subrange(at + 1, start));
    } else {
        lemma_number_written(b, at + 1, 1);
        lemma_number_written(b, at + 3, 1);
        lemma_number_written(b, at + 5, 2);
        assert(t =~= b.subrange(at + 1, at + 3) + b.subrange(at + 3, at + 5) + b.subrange(
            at + 5,
            at + 9,
        ));
        assert(t =~= b.subrange(at + 1, start));
    }
}

/// What writing the value of the record at `at` gives.
spec fn value_was_written(b: Seq<u8>, at: int) -> bool {
    &&& value_kind(value_at(b, at)) == b[at] % 32
    &&& value_head(value_at(b, at)) + value_body(value_at(b, at)) == b.subrange(
        value_start(b, at),
        record_end(b, at),
    )
}

/// A signed integer in its shortest form is written as the bytes that it
/// was read from.
proof fn lemma_signed_written(b: Seq<u8>, at: int)
    requires
        0 <= at < b.len(),
        record_failure(b, at) is None,
        shortest(b, at),
        b[at] % 32 < 4,
    ensures
        value_was_written(b, at),
{
    let kind = b[at] % 32;
    let start = value_start(b, at);
    let value = value_at(b, at);
    lemma_number_written(b, start, kind as int);
    let n = number_at(b, start, width_of(kind as int));
    assert(unsigned_of(signed(n, width_of(kind as int)), kind as int) == n);
    assert(value_head(value) + value_body(value) =~= b.subrange(start, record_end(b, at)));
}

/// An unsigned integer in its shortest form is written as the bytes that
/// it was read from.
proof fn lemma_unsigned_written(b: Seq<u8>, at: int)
    requires
        0 <= at < b.len(),
        record_failure(b, at) is None,
        shortest(b, at),
        4 <= b[at] % 32 < 8,
    ensures
        value_was_written(b, at),
{
    let kind = b[at] % 32;
    let start = value_start(b, at);
    let value = value_at(b, at);
    lemma_number_written(b, start, kind - 4);
    assert(value_head(value) + value_body(value) =~= b.subrange(start, record_end(b, at)));
}

/// A floating point number is written as the bytes that it was read from.
proof fn lemma_float_written(b: Seq<u8>, at: int)
    requires
        0 <= at < b.len(),
        record_failure(b, at) is None,
        b[at] % 32 == 10 || b[at] % 32 == 11,
    ensures
        value_was_written(b, at),
{
    let kind = b[at] % 32;
    let start = value_start(b, at);
    let value = value_at(b, at);
    lemma_number_written(b, start, kind - 8);
    assert(value_head(value) + value_body(value) =~= b.subrange(start, record_end(b, at)));
}

/// A string or byte string whose length stands in its shortest form is
/// written as the bytes that it was read from.
proof fn lemma_string_written(b: Seq<u8>, at: int)
    requires
        0 <= at < b.len(),
        record_failure(b, at) is None,
        shortest(b, at),
        12 <= b[at] % 32 < 20,
    ensures
        value_was_written(b, at),
{
    let kind = b[at] % 32;
    let start = value_start(b, at);
    let value = value_at(b, at);
    let step = (kind % 4) as int;
    lemma_number_written(b, start, step);
    let width = width_of(step);
    assert(borrowed_range(b, at).0 == start + width);
    assert(value_body(value) == b.subrange(start + width, record_end(b, at)));
    assert(value_head(value) == b.subrange(start, start + width));
    assert(b.subrange(start, start + width) + b.subrange(start + width, record_end(b, at))
        =~= b.subrange(start, record_end(b, at)));
}

/// A value without bytes of its own is written as nothing.
proof fn lemma_plain_written(b: Seq<u8>, at: int)
    requires
        0 <= at < b.len(),
        record_failure(b, at) is None,
        b[at] % 32 == 8 || b[at] % 32 == 9 || b[at] % 32 >= 20,
    ensures
        value_was_written(b, at),
{
    let value = value_at(b, at);
    assert(value_head(value) + value_body(value) =~= b.subrange(
        value_start(b, at),
        record_end(b, at),
    ));
}

/// The value of a record in its shortest form is written as the bytes that
/// it was read from.
proof fn lemma_value_written(b: Seq<u8>, at: int)
    requires
        0 <= at < b.len(),
        record_failure(b, at) is None,
        shortest(b, at),
    ensures
        value_was_written(b, at),
{
    let kind = b[at] % 32;
    if kind < 4 {
        lemma_signed_written(b, at);
    } else if kind < 8 {
        lemma_unsigned_written(b, at);
    } else if kind == 10 || kind == 11 {
        lemma_float_written(b, at);
    } else if 12 <= kind < 20 {
        lemma_string_written(b, at);
    } else {
        lemma_plain_written(b, at);
    }
}

/// Where the parts of a record stand that was read.
proof fn lemma_record_bounds(b: Seq<u8>, at: int)
    requires
        0 <= at < b.len(),
        record_failure(b, at) is None,
    ensures
        at + 1 <= value_start(b, at) <= record_end(b, at) <= b.len(),
{
}

/// The control byte of a record in its shortest form is the one that it
/// was read from.
proof fn lemma_control_written(b: Seq<u8>, at: int)
    requires
        0 <= at < b.len(),
        b[at] / 32 == tag_form(tag_at(b, at)),
        b[at] % 32 == value_kind(value_at(b, at)),
    ensures
        control_byte(record_at(b, at)) == b[at],
{
}

/// Three parts that stand one behind the other are the whole.
proof fn lemma_parts_joined(
    b: Seq<u8>,
    at: int,
    start: int,
    end: int,
    tag: Seq<u8>,
    value: Seq<u8>,
)
    requires
        0 <= at,
        at + 1 <= start <= end <= b.len(),
        tag == b.subrange(at + 1, start),
        value == b.subrange(start, end),
    ensures
        seq![b[at]] + tag + value == b.subrange(at, end),
{
    assert(seq![b[at]] + tag + value =~= b.subrange(at, end));
}

/// Writing what was read gives the bytes back: a record that stands in
/// its shortest form is written as exactly the bytes that it was read from.
pub proof fn lemma_encode_read(b: Seq<u8>, at: int)
    requires
        0 <= at < b.len(),
        record_failure(b, at) is None,
        shortest(b, at),
    ensures
        encoded(record_at(b, at)) == b.subrange(at, record_end(b, at)),
{
    let tag = tag_at(b, at);
    let value = value_at(b, at);
    lemma_record_bounds(b, at);
    lemma_tag_written(b, at);
    lemma_value_written(b, at);
    lemma_control_written(b, at);
    lemma_parts_joined(
        b,
        at,
        value_start(b, at),
        record_end(b, at),
        tag_bytes(tag),
        value_head(value) + value_body(value),
    );
    assert(encoded(record_at(b, at)) =~= seq![b[at]] + tag_bytes(tag) + (value_head(value)
        + value_body(value)));
}

} // verus!
