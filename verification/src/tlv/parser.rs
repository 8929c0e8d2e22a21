//! Reading records from their encoding.
//!
//! A record starts with a control byte. Its upper three bits say how the
//! tag is written, its lower five bits what kind of value follows:
//!
//! | Upper bits | Tag                                        | Bytes |
//! |------------|--------------------------------------------|-------|
//! | 0          | anonymous                                  | 0     |
//! | 1          | context-specific                           | 1     |
//! | 2, 3       | full, of vendor 0 and profile 0            | 2, 4  |
//! | 4, 5       | implicit                                   | 2, 4  |
//! | 6, 7       | full: vendor id, profile id, tag           | 6, 8  |
//!
//! | Lower bits | Value                                              |
//! |------------|----------------------------------------------------|
//! | 0 to 3     | signed integer of 1, 2, 4, 8 bytes                 |
//! | 4 to 7     | unsigned integer of 1, 2, 4, 8 bytes               |
//! | 8, 9       | false, true                                        |
//! | 10, 11     | floating point number of 4, 8 bytes                |
//! | 12 to 15   | string, behind its length in 1, 2, 4, 8 bytes      |
//! | 16 to 19   | byte string, behind its length in 1, 2, 4, 8 bytes |
//! | 20         | null                                               |
//! | 21, 22, 23 | start of a structure, an array, a list             |
//! | 24         | end of a container, always without a tag           |
//!
//! All numbers are little-endian. Strings and byte strings are not copied:
//! the values borrow them from the buffer.

use crate::endian::{le16, le32, le64, read_u16, read_u32, read_u64};
use crate::tlv::decode::{RecordSource, StreamView};
use crate::tlv::value::{ContainerType, Record, RecordView, TagValue, Value, ValueView};
use vstd::prelude::*;

verus! {

/// Why the bytes do not go on with a record.
#[derive(Debug, Clone, Copy, PartialEq, Eq, Structural)]
pub enum TlvError {
    /// The control byte names a kind of value that is reserved.
    InvalidControl,
    /// The tag is cut short, or the end of a container carries a tag.
    InvalidTag,
    /// The value is cut short, or is longer than what is left.
    InvalidLength,
}

/// The number of bytes of a tag with the control byte `control`.
pub open spec fn tag_length(control: u8) -> nat {
    let form = control / 32;
    if form == 0 {
        0
    } else if form == 1 {
        1
    } else if form == 2 || form == 4 {
        2
    } else if form == 3 || form == 5 {
        4
    } else if form == 6 {
        6
    } else {
        8
    }
}

/// The number that `width` bytes from `at` on stand for; `width` is 1, 2, 4
/// or 8.
pub open spec fn number_at(b: Seq<u8>, at: int, width: nat) -> int {
    if width == 1 {
        b[at] as int
    } else if width == 2 {
        le16(b.skip(at))
    } else if width == 4 {
        le32(b.skip(at))
    } else {
        le64(b.skip(at))
    }
}

/// The number `n` of `width` bytes read as a signed number in two's
/// complement.
pub open spec fn signed(n: int, width: nat) -> int {
    if width == 1 {
        if n >= 0x80 {
            n - 0x100
        } else {
            n
        }
    } else if width == 2 {
        if n >= 0x8000 {
            n - 0x1_0000
        } else {
            n
        }
    } else if width == 4 {
        if n >= 0x8000_0000 {
            n - 0x1_0000_0000
        } else {
            n
        }
    } else {
        if n >= 0x8000_0000_0000_0000 {
            n - 0x1_0000_0000_0000_0000
        } else {
            n
        }
    }
}

/// The tag that is written behind the control byte at `at`.
pub open spec fn tag_at(b: Seq<u8>, at: int) -> TagValue {
    let form = b[at] / 32;
    if form == 0 {
        TagValue::Anonymous
    } else if form == 1 {
        TagValue::ContextSpecific { tag: b[at + 1] }
    } else if form == 2 {
        TagValue::Full { vendor_id: 0, profile_id: 0, tag: number_at(b, at + 1, 2) as u32 }
    } else if form == 3 {
        TagValue::Full { vendor_id: 0, profile_id: 0, tag: number_at(b, at + 1, 4) as u32 }
    } else if form == 4 {
        TagValue::Implicit { tag: number_at(b, at + 1, 2) as u32 }
    } else if form == 5 {
        TagValue::Implicit { tag: number_at(b, at + 1, 4) as u32 }
    } else if form == 6 {
        TagValue::Full {
            vendor_id: number_at(b, at + 1, 2) as u16,
            profile_id: number_at(b, at + 3, 2) as u16,
            tag: number_at(b, at + 5, 2) as u32,
        }
    } else {
        TagValue::Full {
            vendor_id: number_at(b, at + 1, 2) as u16,
            profile_id: number_at(b, at + 3, 2) as u16,
            tag: number_at(b, at + 5, 4) as u32,
        }
    }
}

/// The number of bytes of an integer, a floating point number or a length,
/// where `step` counts the kinds of value from the first of its group: 1,
/// 2, 4, 8.
pub open spec fn width_of(step: int) -> nat {
    if step == 0 {
        1
    } else if step == 1 {
        2
    } else if step == 2 {
        4
    } else {
        8
    }
}

/// Where the value of the record at `at` starts: behind the control byte
/// and the tag.
pub open spec fn value_start(b: Seq<u8>, at: int) -> int {
    at + 1 + tag_length(b[at])
}

/// Where the bytes of the string or byte string of the record at `at`
/// start, and where they end.
pub open spec fn borrowed_range(b: Seq<u8>, at: int) -> (int, int) {
    let kind = b[at] % 32;
    let width = width_of(if kind < 16 {
        kind - 12
    } else {
        kind - 16
    });
    let start = value_start(b, at) + width;
    (start, start + number_at(b, value_start(b, at), width))
}

/// Why the bytes from `at` on do not start with a record; `None` where
/// they do. The control byte is looked at first, then the tag, then the
/// value.
pub open spec fn record_failure(b: Seq<u8>, at: int) -> Option<TlvError> {
    let kind = b[at] % 32;
    let start = value_start(b, at);
    if kind > 24 {
        Some(TlvError::InvalidControl)
    } else if kind == 24 && b[at] / 32 != 0 {
        Some(TlvError::InvalidTag)
    } else if start > b.len() {
        Some(TlvError::InvalidTag)
    } else if kind < 8 && start + width_of((kind % 4) as int) > b.len() {
        Some(TlvError::InvalidLength)
    } else if (kind == 10 || kind == 11) && start + width_of(kind - 8) > b.len() {
        Some(TlvError::InvalidLength)
    } else if 12 <= kind < 20 && start + width_of((kind % 4) as int) > b.len() {
        Some(TlvError::InvalidLength)
    } else if 12 <= kind < 20 && borrowed_range(b, at).1 > b.len() {
        Some(TlvError::InvalidLength)
    } else {
        None
    }
}

/// The value of the record at `at`.
pub open spec fn value_at(b: Seq<u8>, at: int) -> ValueView {
    let kind = b[at] % 32;
    let start = value_start(b, at);
    if kind < 4 {
        ValueView::Signed(signed(number_at(b, start, width_of(kind as int)), width_of(kind as int)) as i64)
    } else if kind < 8 {
        ValueView::Unsigned(number_at(b, start, width_of(kind - 4)) as u64)
    } else if kind == 8 {
        ValueView::Bool(false)
    } else if kind == 9 {
        ValueView::Bool(true)
    } else if kind == 10 {
        ValueView::Float(number_at(b, start, 4) as u32)
    } else if kind == 11 {
        ValueView::Double(number_at(b, start, 8) as u64)
    } else if kind < 16 {
        ValueView::Utf8(b.subrange(borrowed_range(b, at).0, borrowed_range(b, at).1))
    } else if kind < 20 {
        ValueView::Bytes(b.subrange(borrowed_range(b, at).0, borrowed_range(b, at).1))
    } else if kind == 20 {
        ValueView::Null
    } else if kind == 21 {
        ValueView::ContainerStart(ContainerType::Structure)
    } else if kind == 22 {
        ValueView::ContainerStart(ContainerType::Array)
    } else if kind == 23 {
        ValueView::ContainerStart(ContainerType::List)
    } else {
        ValueView::ContainerEnd
    }
}

/// Where the record at `at` ends.
pub open spec fn record_end(b: Seq<u8>, at: int) -> int {
    let kind = b[at] % 32;
    let start = value_start(b, at);
    if kind < 8 {
        start + width_of((kind % 4) as int)
    } else if kind == 10 || kind == 11 {
        start + width_of(kind - 8)
    } else if 12 <= kind < 20 {
        borrowed_range(b, at).1
    } else {
        start
    }
}

/// The record at `at`.
pub open spec fn record_at(b: Seq<u8>, at: int) -> RecordView {
    RecordView { tag: tag_at(b, at), value: value_at(b, at) }
}

/// The records that the bytes from `at` on hold, up to the end of the bytes
/// or to the first place that does not start with a record.
pub open spec fn records_from(b: Seq<u8>, at: int) -> Seq<RecordView>
    decreases b.len() - at,
{
    if 0 <= at < b.len() && record_failure(b, at) is None && record_end(b, at) > at {
        seq![record_at(b, at)] + records_from(b, record_end(b, at))
    } else {
        Seq::empty()
    }
}

/// The number that `width` bytes of `buffer` from `at` on stand for.
fn read_number(buffer: &[u8], at: usize, width: usize) -> (r: u64)
    requires
        width == 1 || width == 2 || width == 4 || width == 8,
        at + width <= buffer@.len(),
    ensures
        r == number_at(buffer@, at as int, width as nat),
{
    let part = vstd::slice::slice_subrange(buffer, at, buffer.len());
    assert(part@ =~= buffer@.skip(at as int));
    if width == 1 {
        buffer[at] as u64
    } else if width == 2 {
        read_u16(part) as u64
    } else if width == 4 {
        read_u32(part) as u64
    } else {
        read_u64(part)
    }
}

/// The number `n` of `width` bytes read as a signed number in two's
/// complement.
fn to_signed(n: u64, width: usize) -> (r: i64)
    requires
        width == 1 || width == 2 || width == 4 || width == 8,
        width == 1 ==> n < 0x100,
        width == 2 ==> n < 0x1_0000,
        width == 4 ==> n < 0x1_0000_0000,
    ensures
        r == signed(n as int, width as nat),
{
    if width == 1 {
        if n >= 0x80 {
            n as i64 - 0x100
        } else {
            n as i64
        }
    } else if width == 2 {
        if n >= 0x8000 {
            n as i64 - 0x1_0000
        } else {
            n as i64
        }
    } else if width == 4 {
        if n >= 0x8000_0000 {
            n as i64 - 0x1_0000_0000
        } else {
            n as i64
        }
    } else {
        if n >= 0x8000_0000_0000_0000 {
            -((u64::MAX - n) as i64) - 1
        } else {
            n as i64
        }
    }
}

/// The number of bytes that counts `step` kinds from the first of a group.
fn width(step: u8) -> (r: usize)
    requires
        step < 4,
    ensures
        r == width_of(step as int),
        r == 1 || r == 2 || r == 4 || r == 8,
{
    if step == 0 {
        1
    } else if step == 1 {
        2
    } else if step == 2 {
        4
    } else {
        8
    }
}

/// The tag that is written behind the control byte at `at`.
fn read_tag(buffer: &[u8], at: usize) -> (r: TagValue)
    requires
        at < buffer@.len(),
        value_start(buffer@, at as int) <= buffer@.len(),
    ensures
        r == tag_at(buffer@, at as int),
{
    let form = buffer[at] / 32;
    if form == 0 {
        TagValue::Anonymous
    } else if form == 1 {
        TagValue::ContextSpecific { tag: buffer[at + 1] }
    } else if form == 2 {
        TagValue::Full { vendor_id: 0, profile_id: 0, tag: read_number(buffer, at + 1, 2) as u32 }
    } else if form == 3 {
        TagValue::Full { vendor_id: 0, profile_id: 0, tag: read_number(buffer, at + 1, 4) as u32 }
    } else if form == 4 {
        TagValue::Implicit { tag: read_number(buffer, at + 1, 2) as u32 }
    } else if form == 5 {
        TagValue::Implicit { tag: read_number(buffer, at + 1, 4) as u32 }
    } else if form == 6 {
        TagValue::Full {
            vendor_id: read_number(buffer, at + 1, 2) as u16,
            profile_id: read_number(buffer, at + 3, 2) as u16,
            tag: read_number(buffer, at + 5, 2) as u32,
        }
    } else {
        TagValue::Full {
            vendor_id: read_number(buffer, at + 1, 2) as u16,
            profile_id: read_number(buffer, at + 3, 2) as u16,
            tag: read_number(buffer, at + 5, 4) as u32,
        }
    }
}

/// The number of bytes of a tag with the control byte `control`.
fn tag_bytes(control: u8) -> (r: usize)
    ensures
        r == tag_length(control),
        r <= 8,
{
    let form = control / 32;
    if form == 0 {
        0
    } else if form == 1 {
        1
    } else if form == 2 || form == 4 {
        2
    } else if form == 3 || form == 5 {
        4
    } else if form == 6 {
        6
    } else {
        8
    }
}

/// Reads the record that starts at `at`, and returns it with the place
/// where it ends. A string or byte string is borrowed from `buffer`, from
/// the very bytes that hold it.
pub fn read_record<'a>(buffer: &'a [u8], at: usize) -> (r: Result<(Record<'a>, usize), TlvError>)
    requires
        at < buffer@.len(),
    ensures
        match r {
            Ok((record, end)) => {
                &&& record_failure(buffer@, at as int) is None
                &&& record@ == record_at(buffer@, at as int)
                &&& end == record_end(buffer@, at as int)
                &&& at < end <= buffer@.len()
                &&& match record.value {
                    Value::Utf8(bytes) => bytes@ == buffer@.subrange(
                        borrowed_range(buffer@, at as int).0,
                        borrowed_range(buffer@, at as int).1,
                    ) && at < borrowed_range(buffer@, at as int).0 <= end,
                    Value::Bytes(bytes) => bytes@ == buffer@.subrange(
                        borrowed_range(buffer@, at as int).0,
                        borrowed_range(buffer@, at as int).1,
                    ) && at < borrowed_range(buffer@, at as int).0 <= end,
                    _ => true,
                }
            },
            Err(e) => record_failure(buffer@, at as int) == Some(e),
        },
{
    let n = buffer.len();
    let control = buffer[at];
    let kind = control % 32;
    if kind > 24 {
        return Err(TlvError::InvalidControl);
    }
    if kind == 24 && control / 32 != 0 {
        return Err(TlvError::InvalidTag);
    }
    let tag_size = tag_bytes(control);
    if n - at - 1 < tag_size {
        return Err(TlvError::InvalidTag);
    }
    let tag = read_tag(buffer, at);
    let start = at + 1 + tag_size;
    let left = n - start;
    if kind < 8 {
        let size = width(kind % 4);
        if left < size {
            return Err(TlvError::InvalidLength);
        }
        let number = read_number(buffer, start, size);
        let value = if kind < 4 {
            Value::Signed(to_signed(number, size))
        } else {
            Value::Unsigned(number)
        };
        Ok((Record { tag, value }, start + size))
    } else if kind == 8 {
        Ok((Record { tag, value: Value::Bool(false) }, start))
    } else if kind == 9 {
        Ok((Record { tag, value: Value::Bool(true) }, start))
    } else if kind == 10 {
        if left < 4 {
            return Err(TlvError::InvalidLength);
        }
        Ok((Record { tag, value: Value::Float(read_number(buffer, start, 4) as u32) }, start + 4))
    } else if kind == 11 {
        if left < 8 {
            return Err(TlvError::InvalidLength);
        }
        Ok((Record { tag, value: Value::Double(read_number(buffer, start, 8)) }, start + 8))
    } else if kind < 20 {
        let size = width(kind % 4);
        if left < size {
            return Err(TlvError::InvalidLength);
        }
        let length = read_number(buffer, start, size);
        let from = start + size;
        if length > (n - from) as u64 {
            return Err(TlvError::InvalidLength);
        }
        let to = from + length as usize;
        let bytes = vstd::slice::slice_subrange(buffer, from, to);
        let value = if kind < 16 {
            Value::Utf8(bytes)
        } else {
            Value::Bytes(bytes)
        };
        Ok((Record { tag, value }, to))
    } else if kind == 20 {
        Ok((Record { tag, value: Value::Null }, start))
    } else if kind == 21 {
        Ok((Record { tag, value: Value::ContainerStart(ContainerType::Structure) }, start))
    } else if kind == 22 {
        Ok((Record { tag, value: Value::ContainerStart(ContainerType::Array) }, start))
    } else if kind == 23 {
        Ok((Record { tag, value: Value::ContainerStart(ContainerType::List) }, start))
    } else {
        Ok((Record { tag, value: Value::ContainerEnd }, start))
    }
}

/// Reads the records of a buffer one after the other, without copying
/// anything. After a place that does not start with a record nothing more
/// is read.
pub struct Parser<'a> {
    pub buffer: &'a [u8],
    /// Where the next record starts.
    pub offset: usize,
    /// The record that was read last, while all went well.
    pub current: Option<Record<'a>>,
    /// Why the reading stopped before the end of the buffer.
    pub error: Option<TlvError>,
}

impl<'a> Parser<'a> {
    /// What is known of a parser between two records: it stands inside its
    /// buffer, and after a failure it stands where the failure is.
    pub open spec fn wf(&self) -> bool {
        &&& self.offset <= self.buffer@.len()
        &&& self.error matches Some(e) ==> self.offset < self.buffer@.len() && record_failure(
            self.buffer@,
            self.offset as int,
        ) == Some(e)
    }

    /// A parser at the start of `buffer`.
    pub fn new(buffer: &'a [u8]) -> (r: Self)
        ensures
            r.buffer@ == buffer@,
            r.offset == 0,
            r.current is None,
            r.error is None,
            r.wf(),
            r.stream() == (StreamView { current: None, rest: records_from(buffer@, 0) }),
    {
        Parser { buffer, offset: 0, current: None, error: None }
    }

    /// Reads the next record. At the end of the buffer there is none; at a
    /// place that does not start with a record the failure is returned once,
    /// and nothing from then on.
    pub fn next_record(&mut self) -> (r: Option<Result<Record<'a>, TlvError>>)
        requires
            old(self).wf(),
        ensures
            final(self).wf(),
            final(self).buffer@ == old(self).buffer@,
            final(self).stream() == old(self).stream().advanced(),
            match r {
                None => old(self).offset == old(self).buffer@.len() || old(self).error is Some,
                Some(Err(e)) => old(self).error is None && old(self).offset < old(
                    self,
                ).buffer@.len() && record_failure(old(self).buffer@, old(self).offset as int)
                    == Some(e) && final(self).error == Some(e) && final(self).offset == old(
                    self,
                ).offset,
                Some(Ok(record)) => old(self).error is None && old(self).offset < old(
                    self,
                ).buffer@.len() && record_failure(old(self).buffer@, old(self).offset as int)
                    is None && record@ == record_at(old(self).buffer@, old(self).offset as int)
                    && final(self).offset == record_end(old(self).buffer@, old(self).offset as int)
                    && final(self).current == Some(record),
            },
    {
        if self.error.is_some() || self.offset >= self.buffer.len() {
            self.current = None;
            return None;
        }
        match read_record(self.buffer, self.offset) {
            Ok((record, end)) => {
                self.current = Some(record);
                self.offset = end;
                assert(self.stream().rest =~= old(self).stream().rest.skip(1));
                Some(Ok(record))
            },
            Err(e) => {
                self.current = None;
                self.error = Some(e);
                Some(Err(e))
            },
        }
    }
}

impl<'a> RecordSource<'a> for Parser<'a> {
    open spec fn stream(&self) -> StreamView {
        StreamView {
            current: match self.current {
                Some(record) => Some(record@),
                None => None,
            },
            rest: records_from(self.buffer@, self.offset as int),
        }
    }

    proof fn lemma_countable(&self) {
        lemma_records_countable(self.buffer@, self.offset as int);
        assert(self.buffer@.len() == self.buffer.len());
    }

    fn get(&self) -> (r: Option<Record<'a>>) {
        self.current
    }

    fn advance(&mut self) {
        if self.offset >= self.buffer.len() {
            self.current = None;
            return ;
        }
        match read_record(self.buffer, self.offset) {
            Ok((record, end)) => {
                self.current = Some(record);
                self.offset = end;
                assert(self.stream().rest =~= old(self).stream().rest.skip(1));
            },
            Err(e) => {
                self.current = None;
                self.error = Some(e);
            },
        }
    }
}

/// There are no more records than bytes.
pub proof fn lemma_records_countable(b: Seq<u8>, at: int)
    ensures
        records_from(b, at).len() <= b.len(),
        0 <= at <= b.len() ==> records_from(b, at).len() <= b.len() - at,
    decreases b.len() - at,
{
    if 0 <= at < b.len() && record_failure(b, at) is None && record_end(b, at) > at {
        lemma_records_countable(b, record_end(b, at));
    }
}

} // verus!
