//! Decoding structures from a stream of records.
//!
//! A stream of records is read forward, one record at a time. A value is
//! merge-decoded from the record on which the stream stands: a scalar takes
//! the value of that record; a structure, which must stand on the start of
//! a structure, takes the records up to the end of that container, gives
//! each to the field that its tag names, and passes over the others.

use crate::tlv::convert::{optional, to_bool, to_bytes, to_integer, to_text, ConversionError};
use crate::tlv::value::{ContainerType, Record, RecordView, TagValue, Value, ValueView};
use vstd::prelude::*;

verus! {

/// Why a stream of records could not be decoded.
#[derive(Debug, Clone, Copy, PartialEq, Eq, Structural)]
pub enum DecodeError {
    /// A record is not what the value that it is for can take.
    InvalidData,
    /// The stream ends inside a container, or goes on behind the end of the
    /// outermost one.
    InvalidNesting,
    /// The decoder found itself in a state that cannot be.
    Internal,
}

/// How the decoding of a value ended.
#[derive(Debug, Clone, Copy, PartialEq, Eq, Structural)]
pub enum DecodeEnd {
    /// The stream ended before the value was complete.
    StreamFinished,
    /// The value is complete: a scalar was taken, or the end of the
    /// container was reached.
    DataConsumed,
}

/// A stream of records, as decoding sees it.
pub struct StreamView {
    /// The record on which the stream stands; none before the first record
    /// and behind the last.
    pub current: Option<RecordView>,
    /// The records that are still to come.
    pub rest: Seq<RecordView>,
}

impl StreamView {
    /// The stream after a step forward: it stands on the next record, or on
    /// none if none is left.
    pub open spec fn advanced(self) -> Self {
        if self.rest.len() > 0 {
            StreamView { current: Some(self.rest[0]), rest: self.rest.skip(1) }
        } else {
            StreamView { current: None, rest: self.rest }
        }
    }

    /// Whether the stream stands on the start of a structure.
    pub open spec fn at_structure(self) -> bool {
        self.current matches Some(record) && record.value
            == ValueView::ContainerStart(ContainerType::Structure)
    }
}

/// A forward-only stream of records.
pub trait RecordSource<'a> {
    /// The stream as decoding sees it.
    spec fn stream(&self) -> StreamView;

    /// No stream holds more records than can be counted.
    proof fn lemma_countable(&self)
        ensures
            self.stream().rest.len() <= usize::MAX,
    ;

    /// The record on which the stream stands.
    fn get(&self) -> (r: Option<Record<'a>>)
        ensures
            match r {
                Some(record) => self.stream().current == Some(record@),
                None => self.stream().current is None,
            },
    ;

    /// Steps forward to the next record. Behind the last record the stream
    /// stands on none, and stays there.
    fn advance(&mut self)
        ensures
            final(self).stream() == old(self).stream().advanced(),
    ;

    /// Steps forward and returns the record on which the stream then stands.
    fn next(&mut self) -> (r: Option<Record<'a>>)
        ensures
            final(self).stream() == old(self).stream().advanced(),
            match r {
                Some(record) => final(self).stream().current == Some(record@),
                None => final(self).stream().current is None,
            },
    {
        self.advance();
        self.get()
    }
}

/// A stream over records that are held in memory.
pub struct RecordCursor<'a> {
    pub records: Vec<Record<'a>>,
    /// The number of records that the stream has stepped on.
    pub taken: usize,
    /// The record on which the stream stands.
    pub current: Option<Record<'a>>,
}

/// The start of a structure without a tag.
pub open spec fn structure_start() -> RecordView {
    RecordView {
        tag: TagValue::Anonymous,
        value: ValueView::ContainerStart(ContainerType::Structure),
    }
}

/// The end of a container.
pub open spec fn container_end() -> RecordView {
    RecordView { tag: TagValue::Anonymous, value: ValueView::ContainerEnd }
}

/// The records as decoding sees them.
pub open spec fn views<'a>(records: Seq<Record<'a>>) -> Seq<RecordView> {
    records.map_values(|r: Record<'a>| r@)
}

impl<'a> RecordCursor<'a> {
    /// A stream that stands before the first of `records`.
    pub fn new(records: Vec<Record<'a>>) -> (r: Self)
        ensures
            r.stream() == (StreamView { current: None, rest: views(records@) }),
    {
        let r = RecordCursor { records, taken: 0, current: None };
        assert(r.stream().rest =~= views(records@));
        r
    }
}

impl<'a> RecordSource<'a> for RecordCursor<'a> {
    open spec fn stream(&self) -> StreamView {
        StreamView {
            current: match self.current {
                Some(record) => Some(record@),
                None => None,
            },
            rest: if self.taken <= self.records@.len() {
                views(self.records@).skip(self.taken as int)
            } else {
                Seq::empty()
            },
        }
    }

    proof fn lemma_countable(&self) {
        assert(self.records@.len() == self.records.len());
    }

    fn get(&self) -> (r: Option<Record<'a>>) {
        self.current
    }

    fn advance(&mut self) {
        if self.taken < self.records.len() {
            self.current = Some(self.records[self.taken]);
            self.taken = self.taken + 1;
            assert(self.stream().rest =~= old(self).stream().rest.skip(1));
        } else {
            self.current = None;
            assert(self.stream().rest =~= old(self).stream().rest);
        }
    }
}

/// The records of a structure: `records` between the start of a structure
/// and the end of a container.
pub fn wrap_records<'a>(records: &Vec<Record<'a>>) -> (r: Vec<Record<'a>>)
    ensures
        views(r@) == seq![structure_start()] + views(records@) + seq![container_end()],
{
    let mut wrapped: Vec<Record<'a>> = Vec::new();
    wrapped.push(
        Record {
            tag: TagValue::Anonymous,
            value: Value::ContainerStart(ContainerType::Structure),
        },
    );
    let mut i: usize = 0;
    assert(views(wrapped@) =~= seq![structure_start()] + views(records@).take(0));
    while i < records.len()
        invariant
            i <= records@.len(),
            views(wrapped@) == seq![structure_start()] + views(records@).take(i as int),
        decreases records@.len() - i,
    {
        let ghost before = wrapped@;
        wrapped.push(records[i]);
        proof {
            assert(views(wrapped@) =~= views(before).push(records@[i as int]@));
            assert(views(records@).take(i + 1) =~= views(records@).take(i as int).push(
                records@[i as int]@,
            ));
            assert(views(wrapped@) =~= seq![structure_start()] + views(records@).take(i + 1));
        }
        i = i + 1;
    }
    let ghost before = wrapped@;
    wrapped.push(Record { tag: TagValue::Anonymous, value: Value::ContainerEnd });
    proof {
        assert(views(records@).take(records@.len() as int) =~= views(records@));
        assert(views(wrapped@) =~= views(before).push(container_end()));
        assert(views(wrapped@) =~= seq![structure_start()] + views(records@) + seq![
            container_end(),
        ]);
    }
    wrapped
}

/// A stream over the records of a structure with the fields `records`,
/// standing on the start of the structure: ready to be merge-decoded.
pub fn wrap_structure<'a>(records: &Vec<Record<'a>>) -> (r: RecordCursor<'a>)
    ensures
        r.stream() == (StreamView {
            current: Some(structure_start()),
            rest: views(records@) + seq![container_end()],
        }),
{
    let mut source = RecordCursor::new(wrap_records(records));
    source.advance();
    assert(source.stream().rest =~= views(records@) + seq![container_end()]);
    source
}

/// What merge-decoding gives: the value, where the stream stands
/// afterwards, and how the decoding ended.
pub struct Merged<M> {
    pub value: M,
    pub stream: StreamView,
    pub result: Result<DecodeEnd, DecodeError>,
}

/// A value that can be decoded from the record on which a stream stands,
/// over what the value held before.
pub trait TlvMergeDecodable<'a>: Sized {
    /// What a value stands for.
    type Model;

    /// What the value stands for.
    spec fn model(&self) -> Self::Model;

    /// What merge-decoding gives for a value that stood for `model`, from a
    /// stream that stands as `stream` does.
    spec fn merged(model: Self::Model, stream: StreamView) -> Merged<Self::Model>;

    /// Decodes the value from the record on which `source` stands, which for
    /// a container is its start; the stream is left on the last record that
    /// belongs to the value.
    fn merge_decode<S: RecordSource<'a>>(&mut self, source: &mut S) -> (r: Result<
        DecodeEnd,
        DecodeError,
    >)
        ensures
            final(self).model() == Self::merged(old(self).model(), old(source).stream()).value,
            final(source).stream() == Self::merged(old(self).model(), old(source).stream()).stream,
            r == Self::merged(old(self).model(), old(source).stream()).result,
    ;
}

/// A structure that can be decoded from a stream of its own.
pub trait TlvDecodable<'a>: TlvMergeDecodable<'a> {
    /// What a structure stands for in which no field was set.
    spec fn blank() -> Self::Model;

    /// Decodes a structure from a stream that stands before its first
    /// record: steps on the first record, which must be the start of a
    /// structure, merge-decodes from it over a blank structure, and makes
    /// sure that nothing follows the end of the structure.
    fn decode<S: RecordSource<'a>>(source: &mut S) -> (r: Result<Self, DecodeError>)
        ensures
            match r {
                Ok(value) => decoded::<Self>(Self::blank(), old(source).stream()) == Ok::<
                    Self::Model,
                    DecodeError,
                >(value.model()),
                Err(e) => decoded::<Self>(Self::blank(), old(source).stream()) == Err::<
                    Self::Model,
                    DecodeError,
                >(e),
            },
            final(source).stream() == decoded_from::<Self>(Self::blank(), old(source).stream()),
    ;
}

/// What decoding a structure from a stream of its own gives, where `blank`
/// is what a structure stands for in which no field was set.
pub open spec fn decoded<'a, T: TlvMergeDecodable<'a>>(
    blank: T::Model,
    stream: StreamView,
) -> Result<T::Model, DecodeError> {
    let merged = T::merged(blank, stream.advanced());
    match merged.result {
        Err(e) => Err(e),
        Ok(DecodeEnd::StreamFinished) => Err(DecodeError::InvalidNesting),
        Ok(DecodeEnd::DataConsumed) => if merged.stream.advanced().current is Some {
            Err(DecodeError::InvalidNesting)
        } else {
            Ok(merged.value)
        },
    }
}

/// Where decoding a structure from a stream of its own leaves the stream:
/// one step behind the end of the structure, or where the decoding failed.
pub open spec fn decoded_from<'a, T: TlvMergeDecodable<'a>>(
    blank: T::Model,
    stream: StreamView,
) -> StreamView {
    let merged = T::merged(blank, stream.advanced());
    if merged.result == Ok::<DecodeEnd, DecodeError>(DecodeEnd::DataConsumed) {
        merged.stream.advanced()
    } else {
        merged.stream
    }
}

/// What merge-decoding a scalar gives, where `converted` is the conversion
/// of the value of the record on which the stream stands: the converted
/// value; without a record, or where the value does not convert, the scalar
/// stays as it was and the data is invalid. The stream does not move.
pub open spec fn scalar_merged<M>(
    model: M,
    stream: StreamView,
    converted: Result<M, ConversionError>,
) -> Merged<M> {
    if stream.current is Some && converted is Ok {
        Merged { value: converted->Ok_0, stream, result: Ok(DecodeEnd::DataConsumed) }
    } else {
        Merged { value: model, stream, result: Err(DecodeError::InvalidData) }
    }
}

/// The value of the record on which the stream stands.
pub open spec fn current_value(stream: StreamView) -> ValueView {
    stream.current->Some_0.value
}

impl<'a> TlvMergeDecodable<'a> for u8 {
    type Model = u8;

    open spec fn model(&self) -> u8 {
        *self
    }

    open spec fn merged(model: u8, stream: StreamView) -> Merged<u8> {
        scalar_merged(model, stream, match to_integer(current_value(stream), u8::MIN as int, u8::MAX as int) {
                Ok(n) => Ok(n as u8),
                Err(e) => Err(e),
            })
    }

    /// Takes the number of an integer record, if `u8` can hold it.
    fn merge_decode<S: RecordSource<'a>>(&mut self, source: &mut S) -> (r: Result<
        DecodeEnd,
        DecodeError,
    >) {
        match source.get() {
            None => Err(DecodeError::InvalidData),
            Some(record) => match <u8>::try_from(record.value) {
                Ok(value) => {
                    *self = value;
                    Ok(DecodeEnd::DataConsumed)
                },
                Err(_) => Err(DecodeError::InvalidData),
            },
        }
    }
}

impl<'a> TlvMergeDecodable<'a> for Option<u8> {
    type Model = Option<u8>;

    open spec fn model(&self) -> Option<u8> {
        *self
    }

    open spec fn merged(model: Option<u8>, stream: StreamView) -> Merged<Option<u8>> {
        scalar_merged(model, stream, optional(
                current_value(stream),
                match to_integer(current_value(stream), u8::MIN as int, u8::MAX as int) {
                    Ok(n) => Ok(n as u8),
                    Err(e) => Err(e),
                },
            ))
    }

    /// Takes nothing from a null record, and otherwise the number of an integer record, if `u8` can hold it.
    fn merge_decode<S: RecordSource<'a>>(&mut self, source: &mut S) -> (r: Result<
        DecodeEnd,
        DecodeError,
    >) {
        match source.get() {
            None => Err(DecodeError::InvalidData),
            Some(record) => match <Option<u8>>::try_from(record.value) {
                Ok(value) => {
                    *self = value;
                    Ok(DecodeEnd::DataConsumed)
                },
                Err(_) => Err(DecodeError::InvalidData),
            },
        }
    }
}

impl<'a> TlvMergeDecodable<'a> for u16 {
    type Model = u16;

    open spec fn model(&self) -> u16 {
        *self
    }

    open spec fn merged(model: u16, stream: StreamView) -> Merged<u16> {
        scalar_merged(model, stream, match to_integer(current_value(stream), u16::MIN as int, u16::MAX as int) {
                Ok(n) => Ok(n as u16),
                Err(e) => Err(e),
            })
    }

    /// Takes the number of an integer record, if `u16` can hold it.
    fn merge_decode<S: RecordSource<'a>>(&mut self, source: &mut S) -> (r: Result<
        DecodeEnd,
        DecodeError,
    >) {
        match source.get() {
            None => Err(DecodeError::InvalidData),
            Some(record) => match <u16>::try_from(record.value) {
                Ok(value) => {
                    *self = value;
                    Ok(DecodeEnd::DataConsumed)
                },
                Err(_) => Err(DecodeError::InvalidData),
            },
        }
    }
}

impl<'a> TlvMergeDecodable<'a> for Option<u16> {
    type Model = Option<u16>;

    open spec fn model(&self) -> Option<u16> {
        *self
    }

    open spec fn merged(model: Option<u16>, stream: StreamView) -> Merged<Option<u16>> {
        scalar_merged(model, stream, optional(
                current_value(stream),
                match to_integer(current_value(stream), u16::MIN as int, u16::MAX as int) {
                    Ok(n) => Ok(n as u16),
                    Err(e) => Err(e),
                },
            ))
    }

    /// Takes nothing from a null record, and otherwise the number of an integer record, if `u16` can hold it.
    fn merge_decode<S: RecordSource<'a>>(&mut self, source: &mut S) -> (r: Result<
        DecodeEnd,
        DecodeError,
    >) {
        match source.get() {
            None => Err(DecodeError::InvalidData),
            Some(record) => match <Option<u16>>::try_from(record.value) {
                Ok(value) => {
                    *self = value;
                    Ok(DecodeEnd::DataConsumed)
                },
                Err(_) => Err(DecodeError::InvalidData),
            },
        }
    }
}

impl<'a> TlvMergeDecodable<'a> for u32 {
    type Model = u32;

    open spec fn model(&self) -> u32 {
        *self
    }

    open spec fn merged(model: u32, stream: StreamView) -> Merged<u32> {
        scalar_merged(model, stream, match to_integer(current_value(stream), u32::MIN as int, u32::MAX as int) {
                Ok(n) => Ok(n as u32),
                Err(e) => Err(e),
            })
    }

    /// Takes the number of an integer record, if `u32` can hold it.
    fn merge_decode<S: RecordSource<'a>>(&mut self, source: &mut S) -> (r: Result<
        DecodeEnd,
        DecodeError,
    >) {
        match source.get() {
            None => Err(DecodeError::InvalidData),
            Some(record) => match <u32>::try_from(record.value) {
                Ok(value) => {
                    *self = value;
                    Ok(DecodeEnd::DataConsumed)
                },
                Err(_) => Err(DecodeError::InvalidData),
            },
        }
    }
}

impl<'a> TlvMergeDecodable<'a> for Option<u32> {
    type Model = Option<u32>;

    open spec fn model(&self) -> Option<u32> {
        *self
    }

    open spec fn merged(model: Option<u32>, stream: StreamView) -> Merged<Option<u32>> {
        scalar_merged(model, stream, optional(
                current_value(stream),
                match to_integer(current_value(stream), u32::MIN as int, u32::MAX as int) {
                    Ok(n) => Ok(n as u32),
                    Err(e) => Err(e),
                },
            ))
    }

    /// Takes nothing from a null record, and otherwise the number of an integer record, if `u32` can hold it.
    fn merge_decode<S: RecordSource<'a>>(&mut self, source: &mut S) -> (r: Result<
        DecodeEnd,
        DecodeError,
    >) {
        match source.get() {
            None => Err(DecodeError::InvalidData),
            Some(record) => match <Option<u32>>::try_from(record.value) {
                Ok(value) => {
                    *self = value;
                    Ok(DecodeEnd::DataConsumed)
                },
                Err(_) => Err(DecodeError::InvalidData),
            },
        }
    }
}

impl<'a> TlvMergeDecodable<'a> for u64 {
    type Model = u64;

    open spec fn model(&self) -> u64 {
        *self
    }

    open spec fn merged(model: u64, stream: StreamView) -> Merged<u64> {
        scalar_merged(model, stream, match to_integer(current_value(stream), u64::MIN as int, u64::MAX as int) {
                Ok(n) => Ok(n as u64),
                Err(e) => Err(e),
            })
    }

    /// Takes the number of an integer record, if `u64` can hold it.
    fn merge_decode<S: RecordSource<'a>>(&mut self, source: &mut S) -> (r: Result<
        DecodeEnd,
        DecodeError,
    >) {
        match source.get() {
            None => Err(DecodeError::InvalidData),
            Some(record) => match <u64>::try_from(record.value) {
                Ok(value) => {
                    *self = value;
                    Ok(DecodeEnd::DataConsumed)
                },
                Err(_) => Err(DecodeError::InvalidData),
            },
        }
    }
}

impl<'a> TlvMergeDecodable<'a> for Option<u64> {
    type Model = Option<u64>;

    open spec fn model(&self) -> Option<u64> {
        *self
    }

    open spec fn merged(model: Option<u64>, stream: StreamView) -> Merged<Option<u64>> {
        scalar_merged(model, stream, optional(
                current_value(stream),
                match to_integer(current_value(stream), u64::MIN as int, u64::MAX as int) {
                    Ok(n) => Ok(n as u64),
                    Err(e) => Err(e),
                },
            ))
    }

    /// Takes nothing from a null record, and otherwise the number of an integer record, if `u64` can hold it.
    fn merge_decode<S: RecordSource<'a>>(&mut self, source: &mut S) -> (r: Result<
        DecodeEnd,
        DecodeError,
    >) {
        match source.get() {
            None => Err(DecodeError::InvalidData),
            Some(record) => match <Option<u64>>::try_from(record.value) {
                Ok(value) => {
                    *self = value;
                    Ok(DecodeEnd::DataConsumed)
                },
                Err(_) => Err(DecodeError::InvalidData),
            },
        }
    }
}

impl<'a> TlvMergeDecodable<'a> for i8 {
    type Model = i8;

    open spec fn model(&self) -> i8 {
        *self
    }

    open spec fn merged(model: i8, stream: StreamView) -> Merged<i8> {
        scalar_merged(model, stream, match to_integer(current_value(stream), i8::MIN as int, i8::MAX as int) {
                Ok(n) => Ok(n as i8),
                Err(e) => Err(e),
            })
    }

    /// Takes the number of an integer record, if `i8` can hold it.
    fn merge_decode<S: RecordSource<'a>>(&mut self, source: &mut S) -> (r: Result<
        DecodeEnd,
        DecodeError,
    >) {
        match source.get() {
            None => Err(DecodeError::InvalidData),
            Some(record) => match <i8>::try_from(record.value) {
                Ok(value) => {
                    *self = value;
                    Ok(DecodeEnd::DataConsumed)
                },
                Err(_) => Err(DecodeError::InvalidData),
            },
        }
    }
}

impl<'a> TlvMergeDecodable<'a> for Option<i8> {
    type Model = Option<i8>;

    open spec fn model(&self) -> Option<i8> {
        *self
    }

    open spec fn merged(model: Option<i8>, stream: StreamView) -> Merged<Option<i8>> {
        scalar_merged(model, stream, optional(
                current_value(stream),
                match to_integer(current_value(stream), i8::MIN as int, i8::MAX as int) {
                    Ok(n) => Ok(n as i8),
                    Err(e) => Err(e),
                },
            ))
    }

    /// Takes nothing from a null record, and otherwise the number of an integer record, if `i8` can hold it.
    fn merge_decode<S: RecordSource<'a>>(&mut self, source: &mut S) -> (r: Result<
        DecodeEnd,
        DecodeError,
    >) {
        match source.get() {
            None => Err(DecodeError::InvalidData),
            Some(record) => match <Option<i8>>::try_from(record.value) {
                Ok(value) => {
                    *self = value;
                    Ok(DecodeEnd::DataConsumed)
                },
                Err(_) => Err(DecodeError::InvalidData),
            },
        }
    }
}

impl<'a> TlvMergeDecodable<'a> for i16 {
    type Model = i16;

    open spec fn model(&self) -> i16 {
        *self
    }

    open spec fn merged(model: i16, stream: StreamView) -> Merged<i16> {
        scalar_merged(model, stream, match to_integer(current_value(stream), i16::MIN as int, i16::MAX as int) {
                Ok(n) => Ok(n as i16),
                Err(e) => Err(e),
            })
    }

    /// Takes the number of an integer record, if `i16` can hold it.
    fn merge_decode<S: RecordSource<'a>>(&mut self, source: &mut S) -> (r: Result<
        DecodeEnd,
        DecodeError,
    >) {
        match source.get() {
            None => Err(DecodeError::InvalidData),
            Some(record) => match <i16>::try_from(record.value) {
                Ok(value) => {
                    *self = value;
                    Ok(DecodeEnd::DataConsumed)
                },
                Err(_) => Err(DecodeError::InvalidData),
            },
        }
    }
}

impl<'a> TlvMergeDecodable<'a> for Option<i16> {
    type Model = Option<i16>;

    open spec fn model(&self) -> Option<i16> {
        *self
    }

    open spec fn merged(model: Option<i16>, stream: StreamView) -> Merged<Option<i16>> {
        scalar_merged(model, stream, optional(
                current_value(stream),
                match to_integer(current_value(stream), i16::MIN as int, i16::MAX as int) {
                    Ok(n) => Ok(n as i16),
                    Err(e) => Err(e),
                },
            ))
    }

    /// Takes nothing from a null record, and otherwise the number of an integer record, if `i16` can hold it.
    fn merge_decode<S: RecordSource<'a>>(&mut self, source: &mut S) -> (r: Result<
        DecodeEnd,
        DecodeError,
    >) {
        match source.get() {
            None => Err(DecodeError::InvalidData),
            Some(record) => match <Option<i16>>::try_from(record.value) {
                Ok(value) => {
                    *self = value;
                    Ok(DecodeEnd::DataConsumed)
                },
                Err(_) => Err(DecodeError::InvalidData),
            },
        }
    }
}

impl<'a> TlvMergeDecodable<'a> for i32 {
    type Model = i32;

    open spec fn model(&self) -> i32 {
        *self
    }

    open spec fn merged(model: i32, stream: StreamView) -> Merged<i32> {
        scalar_merged(model, stream, match to_integer(current_value(stream), i32::MIN as int, i32::MAX as int) {
                Ok(n) => Ok(n as i32),
                Err(e) => Err(e),
            })
    }

    /// Takes the number of an integer record, if `i32` can hold it.
    fn merge_decode<S: RecordSource<'a>>(&mut self, source: &mut S) -> (r: Result<
        DecodeEnd,
        DecodeError,
    >) {
        match source.get() {
            None => Err(DecodeError::InvalidData),
            Some(record) => match <i32>::try_from(record.value) {
                Ok(value) => {
                    *self = value;
                    Ok(DecodeEnd::DataConsumed)
                },
                Err(_) => Err(DecodeError::InvalidData),
            },
        }
    }
}

impl<'a> TlvMergeDecodable<'a> for Option<i32> {
    type Model = Option<i32>;

    open spec fn model(&self) -> Option<i32> {
        *self
    }

    open spec fn merged(model: Option<i32>, stream: StreamView) -> Merged<Option<i32>> {
        scalar_merged(model, stream, optional(
                current_value(stream),
                match to_integer(current_value(stream), i32::MIN as int, i32::MAX as int) {
                    Ok(n) => Ok(n as i32),
                    Err(e) => Err(e),
                },
            ))
    }

    /// Takes nothing from a null record, and otherwise the number of an integer record, if `i32` can hold it.
    fn merge_decode<S: RecordSource<'a>>(&mut self, source: &mut S) -> (r: Result<
        DecodeEnd,
        DecodeError,
    >) {
        match source.get() {
            None => Err(DecodeError::InvalidData),
            Some(record) => match <Option<i32>>::try_from(record.value) {
                Ok(value) => {
                    *self = value;
                    Ok(DecodeEnd::DataConsumed)
                },
                Err(_) => Err(DecodeError::InvalidData),
            },
        }
    }
}

impl<'a> TlvMergeDecodable<'a> for i64 {
    type Model = i64;

    open spec fn model(&self) -> i64 {
        *self
    }

    open spec fn merged(model: i64, stream: StreamView) -> Merged<i64> {
        scalar_merged(model, stream, match to_integer(current_value(stream), i64::MIN as int, i64::MAX as int) {
                Ok(n) => Ok(n as i64),
                Err(e) => Err(e),
            })
    }

    /// Takes the number of an integer record, if `i64` can hold it.
    fn merge_decode<S: RecordSource<'a>>(&mut self, source: &mut S) -> (r: Result<
        DecodeEnd,
        DecodeError,
    >) {
        match source.get() {
            None => Err(DecodeError::InvalidData),
            Some(record) => match <i64>::try_from(record.value) {
                Ok(value) => {
                    *self = value;
                    Ok(DecodeEnd::DataConsumed)
                },
                Err(_) => Err(DecodeError::InvalidData),
            },
        }
    }
}

impl<'a> TlvMergeDecodable<'a> for Option<i64> {
    type Model = Option<i64>;

    open spec fn model(&self) -> Option<i64> {
        *self
    }

    open spec fn merged(model: Option<i64>, stream: StreamView) -> Merged<Option<i64>> {
        scalar_merged(model, stream, optional(
                current_value(stream),
                match to_integer(current_value(stream), i64::MIN as int, i64::MAX as int) {
                    Ok(n) => Ok(n as i64),
                    Err(e) => Err(e),
                },
            ))
    }

    /// Takes nothing from a null record, and otherwise the number of an integer record, if `i64` can hold it.
    fn merge_decode<S: RecordSource<'a>>(&mut self, source: &mut S) -> (r: Result<
        DecodeEnd,
        DecodeError,
    >) {
        match source.get() {
            None => Err(DecodeError::InvalidData),
            Some(record) => match <Option<i64>>::try_from(record.value) {
                Ok(value) => {
                    *self = value;
                    Ok(DecodeEnd::DataConsumed)
                },
                Err(_) => Err(DecodeError::InvalidData),
            },
        }
    }
}

impl<'a> TlvMergeDecodable<'a> for bool {
    type Model = bool;

    open spec fn model(&self) -> bool {
        *self
    }

    open spec fn merged(model: bool, stream: StreamView) -> Merged<bool> {
        scalar_merged(model, stream, to_bool(current_value(stream)))
    }

    /// Takes the truth value of a boolean record.
    fn merge_decode<S: RecordSource<'a>>(&mut self, source: &mut S) -> (r: Result<
        DecodeEnd,
        DecodeError,
    >) {
        match source.get() {
            None => Err(DecodeError::InvalidData),
            Some(record) => match <bool>::try_from(record.value) {
                Ok(value) => {
                    *self = value;
                    Ok(DecodeEnd::DataConsumed)
                },
                Err(_) => Err(DecodeError::InvalidData),
            },
        }
    }
}

impl<'a> TlvMergeDecodable<'a> for &'a [u8] {
    type Model = Seq<u8>;

    open spec fn model(&self) -> Seq<u8> {
        (*self)@
    }

    open spec fn merged(model: Seq<u8>, stream: StreamView) -> Merged<Seq<u8>> {
        scalar_merged(model, stream, to_bytes(current_value(stream)))
    }

    /// Takes the bytes of a string or byte string record.
    fn merge_decode<S: RecordSource<'a>>(&mut self, source: &mut S) -> (r: Result<
        DecodeEnd,
        DecodeError,
    >) {
        match source.get() {
            None => Err(DecodeError::InvalidData),
            Some(record) => match <&'a [u8]>::try_from(record.value) {
                Ok(value) => {
                    *self = value;
                    Ok(DecodeEnd::DataConsumed)
                },
                Err(_) => Err(DecodeError::InvalidData),
            },
        }
    }
}

impl<'a> TlvMergeDecodable<'a> for Vec<u8> {
    type Model = Seq<u8>;

    open spec fn model(&self) -> Seq<u8> {
        self@
    }

    open spec fn merged(model: Seq<u8>, stream: StreamView) -> Merged<Seq<u8>> {
        scalar_merged(model, stream, to_bytes(current_value(stream)))
    }

    /// Takes a copy of the bytes of a string or byte string record.
    fn merge_decode<S: RecordSource<'a>>(&mut self, source: &mut S) -> (r: Result<
        DecodeEnd,
        DecodeError,
    >) {
        match source.get() {
            None => Err(DecodeError::InvalidData),
            Some(record) => match <Vec<u8>>::try_from(record.value) {
                Ok(value) => {
                    *self = value;
                    Ok(DecodeEnd::DataConsumed)
                },
                Err(_) => Err(DecodeError::InvalidData),
            },
        }
    }
}

impl<'a> TlvMergeDecodable<'a> for &'a str {
    type Model = Seq<char>;

    open spec fn model(&self) -> Seq<char> {
        (*self)@
    }

    open spec fn merged(model: Seq<char>, stream: StreamView) -> Merged<Seq<char>> {
        scalar_merged(model, stream, to_text(current_value(stream)))
    }

    /// Takes the text of a string record, if its bytes are valid UTF-8.
    fn merge_decode<S: RecordSource<'a>>(&mut self, source: &mut S) -> (r: Result<
        DecodeEnd,
        DecodeError,
    >) {
        match source.get() {
            None => Err(DecodeError::InvalidData),
            Some(record) => match <&'a str>::try_from(record.value) {
                Ok(value) => {
                    *self = value;
                    Ok(DecodeEnd::DataConsumed)
                },
                Err(_) => Err(DecodeError::InvalidData),
            },
        }
    }
}

impl<'a> TlvMergeDecodable<'a> for String {
    type Model = Seq<char>;

    open spec fn model(&self) -> Seq<char> {
        self@
    }

    open spec fn merged(model: Seq<char>, stream: StreamView) -> Merged<Seq<char>> {
        scalar_merged(model, stream, to_text(current_value(stream)))
    }

    /// Takes the text of a string record, if its bytes are valid UTF-8.
    fn merge_decode<S: RecordSource<'a>>(&mut self, source: &mut S) -> (r: Result<
        DecodeEnd,
        DecodeError,
    >) {
        match source.get() {
            None => Err(DecodeError::InvalidData),
            Some(record) => match <String>::try_from(record.value) {
                Ok(value) => {
                    *self = value;
                    Ok(DecodeEnd::DataConsumed)
                },
                Err(_) => Err(DecodeError::InvalidData),
            },
        }
    }
}

/// Where the stream stands once the container is closed in which it stands
/// `depth` containers deep, and whether the stream got that far: every
/// start on the way opens a container, and every end closes one.
pub open spec fn container_skipped(stream: StreamView, depth: nat) -> (StreamView, DecodeEnd)
    decreases stream.rest.len(),
{
    let next = stream.advanced();
    match next.current {
        None => (next, DecodeEnd::StreamFinished),
        Some(record) => match record.value {
            ValueView::ContainerEnd => if depth <= 1 {
                (next, DecodeEnd::DataConsumed)
            } else {
                container_skipped(next, (depth - 1) as nat)
            },
            ValueView::ContainerStart(_) => container_skipped(next, depth + 1),
            _ => container_skipped(next, depth),
        },
    }
}

/// Where the stream stands once the value is passed over on whose first
/// record it stands, and whether the stream got that far: a scalar is its
/// one record, a container reaches to its end.
pub open spec fn value_skipped(stream: StreamView) -> (StreamView, DecodeEnd) {
    if stream.current matches Some(record) && record.value is ContainerStart {
        container_skipped(stream, 1)
    } else {
        (stream, DecodeEnd::DataConsumed)
    }
}

/// Passes over the value on whose first record the stream stands, a whole
/// container where it stands on the start of one.
pub fn skip_value<'a, S: RecordSource<'a>>(source: &mut S) -> (r: DecodeEnd)
    ensures
        final(source).stream() == value_skipped(old(source).stream()).0,
        r == value_skipped(old(source).stream()).1,
{
    match source.get() {
        Some(Record { tag: _, value: Value::ContainerStart(_) }) => {},
        _ => {
            return DecodeEnd::DataConsumed;
        },
    }
    let mut depth: u128 = 1;
    let ghost start = source.stream();
    proof {
        source.lemma_countable();
    }
    loop
        invariant
            depth >= 1,
            depth + source.stream().rest.len() <= 1 + start.rest.len(),
            start.rest.len() <= usize::MAX,
            container_skipped(source.stream(), depth as nat) == container_skipped(start, 1),
            value_skipped(old(source).stream()) == container_skipped(start, 1),
        decreases source.stream().rest.len(),
    {
        let ghost before = source.stream();
        match source.next() {
            None => {
                return DecodeEnd::StreamFinished;
            },
            Some(Record { tag: _, value: Value::ContainerEnd }) => {
                if depth <= 1 {
                    return DecodeEnd::DataConsumed;
                }
                depth = depth - 1;
            },
            Some(Record { tag: _, value: Value::ContainerStart(_) }) => {
                depth = depth + 1;
            },
            Some(_) => {},
        }
    }
}

/// A structure whose fields are decoded from the records of a container.
pub trait TlvStructure<'a>: Sized {
    /// What the fields of a structure stand for.
    type Fields;

    /// What the fields of the structure stand for.
    spec fn fields(&self) -> Self::Fields;

    /// What the value does to the structure on whose first record the
    /// stream stands: it is merge-decoded into the field that its tag names,
    /// or passed over if the tag names none.
    spec fn field_merged(fields: Self::Fields, stream: StreamView) -> Merged<Self::Fields>;

    /// A value is taken as it would be passed over. Where it is taken
    /// whole the stream stands at its end, and where the stream ends in it
    /// the stream is read to its end; a value that is there whole is taken
    /// unless its data is invalid; and the decoder never comes to a state
    /// that cannot be.
    proof fn lemma_field_taken(fields: Self::Fields, stream: StreamView)
        requires
            stream.current is Some,
        ensures
            taken_as_skipped(
                stream,
                Self::field_merged(fields, stream).stream,
                Self::field_merged(fields, stream).result,
            ),
    ;

    /// Merge-decodes the value on whose first record `source` stands into
    /// the field that `tag` names, or passes over it.
    fn merge_field<S: RecordSource<'a>>(&mut self, tag: TagValue, source: &mut S) -> (r: Result<
        DecodeEnd,
        DecodeError,
    >)
        requires
            old(source).stream().current matches Some(record) && record.tag == tag,
        ensures
            final(self).fields() == Self::field_merged(
                old(self).fields(),
                old(source).stream(),
            ).value,
            final(source).stream() == Self::field_merged(
                old(self).fields(),
                old(source).stream(),
            ).stream,
            r == Self::field_merged(old(self).fields(), old(source).stream()).result,
    ;
}

/// How taking a value relates to passing over it, where the stream stood
/// as `before` on the first record of the value and stands as `after` once
/// the value is taken with the result `result`.
pub open spec fn taken_as_skipped(
    before: StreamView,
    after: StreamView,
    result: Result<DecodeEnd, DecodeError>,
) -> bool {
    let skipped = value_skipped(before);
    &&& result != Err::<DecodeEnd, DecodeError>(DecodeError::Internal)
    &&& result is Ok ==> result == Ok::<DecodeEnd, DecodeError>(skipped.1) && after == skipped.0
    &&& skipped.1 == DecodeEnd::DataConsumed ==> result == Ok::<DecodeEnd, DecodeError>(
        DecodeEnd::DataConsumed,
    ) || result == Err::<DecodeEnd, DecodeError>(DecodeError::InvalidData)
    &&& after.rest.len() <= before.rest.len()
}

/// What merge-decoding the fields of a structure gives, from a stream that
/// stands inside the structure: each value up to the end of the container
/// is taken in turn. A value that is cut short by the end of the stream
/// breaks the nesting; so the stream may only end between two values.
pub open spec fn fields_merged<'a, T: TlvStructure<'a>>(
    fields: T::Fields,
    stream: StreamView,
) -> Merged<T::Fields>
    decreases stream.rest.len(),
{
    let next = stream.advanced();
    match next.current {
        None => Merged { value: fields, stream: next, result: Ok(DecodeEnd::StreamFinished) },
        Some(record) => if record.value is ContainerEnd {
            Merged { value: fields, stream: next, result: Ok(DecodeEnd::DataConsumed) }
        } else {
            let field = T::field_merged(fields, next);
            if field.result == Ok::<DecodeEnd, DecodeError>(DecodeEnd::DataConsumed)
                && field.stream.rest.len() <= next.rest.len() {
                fields_merged::<T>(field.value, field.stream)
            } else {
                Merged {
                    value: field.value,
                    stream: field.stream,
                    result: match field.result {
                        Err(e) => Err(e),
                        Ok(_) => Err(DecodeError::InvalidNesting),
                    },
                }
            }
        },
    }
}

/// What merge-decoding a structure gives: the stream must stand on the
/// start of a structure, and the fields are taken from what follows.
pub open spec fn structure_merged<'a, T: TlvStructure<'a>>(
    fields: T::Fields,
    stream: StreamView,
) -> Merged<T::Fields> {
    if stream.at_structure() {
        fields_merged::<T>(fields, stream)
    } else {
        Merged { value: fields, stream, result: Err(DecodeError::InvalidData) }
    }
}

/// Merge-decodes a structure from the start of a structure on which
/// `source` stands.
pub fn merge_structure<'a, T: TlvStructure<'a>, S: RecordSource<'a>>(
    structure: &mut T,
    source: &mut S,
) -> (r: Result<DecodeEnd, DecodeError>)
    ensures
        final(structure).fields() == structure_merged::<T>(
            old(structure).fields(),
            old(source).stream(),
        ).value,
        final(source).stream() == structure_merged::<T>(
            old(structure).fields(),
            old(source).stream(),
        ).stream,
        r == structure_merged::<T>(old(structure).fields(), old(source).stream()).result,
{
    match source.get() {
        Some(Record { tag: _, value: Value::ContainerStart(ContainerType::Structure) }) => {},
        _ => {
            return Err(DecodeError::InvalidData);
        },
    }
    let ghost goal = fields_merged::<T>(structure.fields(), source.stream());
    loop
        invariant
            fields_merged::<T>(structure.fields(), source.stream()) == goal,
            goal == structure_merged::<T>(old(structure).fields(), old(source).stream()),
        decreases source.stream().rest.len(),
    {
        let record = match source.next() {
            None => {
                return Ok(DecodeEnd::StreamFinished);
            },
            Some(Record { tag: _, value: Value::ContainerEnd }) => {
                return Ok(DecodeEnd::DataConsumed);
            },
            Some(record) => record,
        };
        proof {
            T::lemma_field_taken(structure.fields(), source.stream());
        }
        match structure.merge_field(record.tag, source) {
            Ok(DecodeEnd::DataConsumed) => {},
            Ok(DecodeEnd::StreamFinished) => {
                return Err(DecodeError::InvalidNesting);
            },
            Err(e) => {
                return Err(e);
            },
        }
    }
}

/// Passing over a container never brings records back.
pub proof fn lemma_skip_shrinks(stream: StreamView, depth: nat)
    ensures
        container_skipped(stream, depth).0.rest.len() <= stream.rest.len(),
    decreases stream.rest.len(),
{
    let next = stream.advanced();
    match next.current {
        None => {},
        Some(record) => match record.value {
            ValueView::ContainerEnd => {
                if depth > 1 {
                    lemma_skip_shrinks(next, (depth - 1) as nat);
                }
            },
            ValueView::ContainerStart(_) => {
                lemma_skip_shrinks(next, depth + 1);
            },
            _ => {
                lemma_skip_shrinks(next, depth);
            },
        },
    }
}

/// Closing `inner + outer` containers is closing `inner` of them and then
/// `outer` more.
pub proof fn lemma_skip_in_turn(stream: StreamView, inner: nat, outer: nat)
    requires
        inner >= 1,
        outer >= 1,
    ensures
        container_skipped(stream, inner + outer) == if container_skipped(stream, inner).1
            == DecodeEnd::DataConsumed {
            container_skipped(container_skipped(stream, inner).0, outer)
        } else {
            container_skipped(stream, inner)
        },
    decreases stream.rest.len(),
{
    let next = stream.advanced();
    match next.current {
        None => {},
        Some(record) => match record.value {
            ValueView::ContainerEnd => {
                if inner > 1 {
                    lemma_skip_in_turn(next, (inner - 1) as nat, outer);
                }
            },
            ValueView::ContainerStart(_) => {
                lemma_skip_in_turn(next, inner + 1, outer);
            },
            _ => {
                lemma_skip_in_turn(next, inner, outer);
            },
        },
    }
}

/// The fields of a structure are taken as the rest of its container would
/// be passed over.
pub proof fn lemma_fields_taken<'a, T: TlvStructure<'a>>(fields: T::Fields, stream: StreamView)
    ensures
        ({
            let merged = fields_merged::<T>(fields, stream);
            let skipped = container_skipped(stream, 1);
            &&& merged.result != Err::<DecodeEnd, DecodeError>(DecodeError::Internal)
            &&& merged.result is Ok ==> merged.result == Ok::<DecodeEnd, DecodeError>(skipped.1)
                && merged.stream == skipped.0
            &&& skipped.1 == DecodeEnd::DataConsumed ==> merged.result == Ok::<
                DecodeEnd,
                DecodeError,
            >(DecodeEnd::DataConsumed) || merged.result == Err::<DecodeEnd, DecodeError>(
                DecodeError::InvalidData,
            )
            &&& skipped.1 == DecodeEnd::StreamFinished ==> merged.result == Ok::<
                DecodeEnd,
                DecodeError,
            >(DecodeEnd::StreamFinished) || merged.result == Err::<DecodeEnd, DecodeError>(
                DecodeError::InvalidNesting,
            ) || merged.result == Err::<DecodeEnd, DecodeError>(DecodeError::InvalidData)
            &&& merged.stream.rest.len() <= stream.rest.len()
        }),
    decreases stream.rest.len(),
{
    let next = stream.advanced();
    match next.current {
        None => {},
        Some(record) => {
            if record.value is ContainerEnd {
            } else {
                let field = T::field_merged(fields, next);
                T::lemma_field_taken(fields, next);
                lemma_skip_shrinks(next, 1);
                if record.value is ContainerStart {
                    lemma_skip_in_turn(next, 1, 1);
                }
                if field.result == Ok::<DecodeEnd, DecodeError>(DecodeEnd::DataConsumed) {
                    lemma_fields_taken::<T>(field.value, field.stream);
                }
            }
        },
    }
}

/// Containers balance. Merge-decoding a structure never comes to a state
/// that cannot be. Where it ends with the data consumed, the stream stands
/// on the end of the container on whose start it stood. From a stream that
/// holds the whole container it ends so, unless some data is invalid; and
/// from a stream that ends inside the container it ends with the stream
/// finished or with the nesting broken, unless some data is invalid.
pub proof fn lemma_structure_balanced<'a, T: TlvStructure<'a>>(
    fields: T::Fields,
    stream: StreamView,
)
    ensures
        taken_as_skipped(
            stream,
            structure_merged::<T>(fields, stream).stream,
            structure_merged::<T>(fields, stream).result,
        ),
        ({
            let merged = structure_merged::<T>(fields, stream);
            let closed = container_skipped(stream, 1);
            &&& merged.result != Err::<DecodeEnd, DecodeError>(DecodeError::Internal)
            &&& merged.result == Ok::<DecodeEnd, DecodeError>(DecodeEnd::DataConsumed) ==> closed.1
                == DecodeEnd::DataConsumed && merged.stream == closed.0
            &&& stream.at_structure() && closed.1 == DecodeEnd::DataConsumed ==> merged.result
                == Ok::<DecodeEnd, DecodeError>(DecodeEnd::DataConsumed) || merged.result == Err::<
                DecodeEnd,
                DecodeError,
            >(DecodeError::InvalidData)
            &&& stream.at_structure() && closed.1 == DecodeEnd::StreamFinished ==> merged.result
                == Ok::<DecodeEnd, DecodeError>(DecodeEnd::StreamFinished) || merged.result
                == Err::<DecodeEnd, DecodeError>(DecodeError::InvalidNesting) || merged.result
                == Err::<DecodeEnd, DecodeError>(DecodeError::InvalidData)
        }),
{
    lemma_fields_taken::<T>(fields, stream);
}

/// Decoding a structure from a stream of its own fails where the stream
/// ends inside the structure: the nesting is broken, unless some data was
/// found invalid before.
pub proof fn lemma_decode_needs_the_end<'a, T: TlvStructure<'a> + TlvMergeDecodable<'a>>(
    blank: <T as TlvMergeDecodable<'a>>::Model,
    fields: <T as TlvStructure<'a>>::Fields,
    stream: StreamView,
)
    requires
        T::merged(blank, stream.advanced()).result == structure_merged::<T>(
            fields,
            stream.advanced(),
        ).result,
        stream.advanced().at_structure(),
        container_skipped(stream.advanced(), 1).1 == DecodeEnd::StreamFinished,
    ensures
        decoded::<T>(blank, stream) == Err::<
            <T as TlvMergeDecodable<'a>>::Model,
            DecodeError,
        >(DecodeError::InvalidNesting) || decoded::<T>(blank, stream) == Err::<
            <T as TlvMergeDecodable<'a>>::Model,
            DecodeError,
        >(DecodeError::InvalidData),
{
    lemma_structure_balanced::<T>(fields, stream.advanced());
}

} // verus!
