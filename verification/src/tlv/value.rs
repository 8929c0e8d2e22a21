//! Tags, values and records.

use vstd::prelude::*;

verus! {

/// The kinds of container.
#[derive(Debug, Clone, Copy, PartialEq, Eq, Structural)]
pub enum ContainerType {
    Structure,
    Array,
    List,
}

/// What names a value within its container.
#[derive(Debug, Clone, Copy, PartialEq, Eq, Structural)]
#[allow(inconsistent_fields)]
pub enum TagValue {
    Anonymous,
    ContextSpecific { tag: u8 },
    Implicit { tag: u32 },
    Full { vendor_id: u16, profile_id: u16, tag: u32 },
}

/// A value. Strings and byte strings are borrowed from the buffer that they
/// were read from. A floating point number is held as the bits of its
/// IEEE 754 encoding.
#[derive(Debug, Clone, Copy, PartialEq)]
pub enum Value<'a> {
    Signed(i64),
    Unsigned(u64),
    Bool(bool),
    /// The bits of a 32-bit floating point number.
    Float(u32),
    /// The bits of a 64-bit floating point number.
    Double(u64),
    Utf8(&'a [u8]),
    Bytes(&'a [u8]),
    Null,
    ContainerStart(ContainerType),
    ContainerEnd,
}

/// A value, with the bytes that it borrows written out.
pub enum ValueView {
    Signed(i64),
    Unsigned(u64),
    Bool(bool),
    Float(u32),
    Double(u64),
    Utf8(Seq<u8>),
    Bytes(Seq<u8>),
    Null,
    ContainerStart(ContainerType),
    ContainerEnd,
}

impl<'a> View for Value<'a> {
    type V = ValueView;

    open spec fn view(&self) -> ValueView {
        match self {
            Value::Signed(n) => ValueView::Signed(*n),
            Value::Unsigned(n) => ValueView::Unsigned(*n),
            Value::Bool(b) => ValueView::Bool(*b),
            Value::Float(bits) => ValueView::Float(*bits),
            Value::Double(bits) => ValueView::Double(*bits),
            Value::Utf8(bytes) => ValueView::Utf8(bytes@),
            Value::Bytes(bytes) => ValueView::Bytes(bytes@),
            Value::Null => ValueView::Null,
            Value::ContainerStart(kind) => ValueView::ContainerStart(*kind),
            Value::ContainerEnd => ValueView::ContainerEnd,
        }
    }
}

/// A value with its tag.
#[derive(Debug, Clone, Copy, PartialEq)]
pub struct Record<'a> {
    pub tag: TagValue,
    pub value: Value<'a>,
}

/// A record, with the bytes that it borrows written out.
pub struct RecordView {
    pub tag: TagValue,
    pub value: ValueView,
}

impl<'a> View for Record<'a> {
    type V = RecordView;

    open spec fn view(&self) -> RecordView {
        RecordView { tag: self.tag, value: self.value@ }
    }
}

} // verus!
