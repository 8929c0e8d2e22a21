//! Conversions between values and host types.
//!
//! An integer value converts to every integer type that can hold its
//! number, whether the value is signed or unsigned. Strings and byte strings
//! both convert to bytes; only a string converts to text, and only if its
//! bytes are valid UTF-8. Null converts to the absence of an optional value.

use crate::tlv::value::{Value, ValueView};
use vstd::prelude::*;
use vstd::string::StringSliceAdditionalSpecFns;
use vstd::utf8::{decode_utf8, encode_utf8, encode_utf8_decode_utf8, valid_utf8};

verus! {

/// Why a value does not convert to a host type.
#[derive(Debug, Clone, Copy, PartialEq, Eq, Structural)]
pub enum ConversionError {
    /// The value is of a kind that never converts to the type.
    InvalidType,
    /// The value is a number that the type cannot hold.
    ConversionFailed,
    /// The value is a string whose bytes are not valid UTF-8.
    InvalidUtf8,
}

/// The number that `v` converts to for an integer type that holds the
/// numbers from `lowest` to `highest`: the number of an integer value,
/// signed or unsigned, if the type can hold it.
pub open spec fn to_integer(v: ValueView, lowest: int, highest: int) -> Result<
    int,
    ConversionError,
> {
    match v {
        ValueView::Signed(n) => if lowest <= n <= highest {
            Ok(n as int)
        } else {
            Err(ConversionError::ConversionFailed)
        },
        ValueView::Unsigned(n) => if lowest <= n <= highest {
            Ok(n as int)
        } else {
            Err(ConversionError::ConversionFailed)
        },
        _ => Err(ConversionError::InvalidType),
    }
}

/// An integer converts exactly if the type can hold its number, and then to
/// that number; whether the value is signed or unsigned makes no
/// difference.
pub proof fn lemma_integer_conversion(v: ValueView, lowest: int, highest: int)
    ensures
        v matches ValueView::Signed(n) ==> (to_integer(v, lowest, highest) is Ok <==> lowest <= n
            <= highest),
        v matches ValueView::Unsigned(n) ==> (to_integer(v, lowest, highest) is Ok <==> lowest
            <= n <= highest),
        v matches ValueView::Signed(n) ==> (to_integer(v, lowest, highest) matches Ok(m) ==> m
            == n),
        v matches ValueView::Unsigned(n) ==> (to_integer(v, lowest, highest) matches Ok(m) ==> m
            == n),
        v matches ValueView::Signed(n) ==> (to_integer(v, lowest, highest) matches Err(e) ==> e
            == ConversionError::ConversionFailed),
        v matches ValueView::Unsigned(n) ==> (to_integer(v, lowest, highest) matches Err(e) ==> e
            == ConversionError::ConversionFailed),
        !(v is Signed) && !(v is Unsigned) ==> to_integer(v, lowest, highest) == Err::<
            int,
            ConversionError,
        >(ConversionError::InvalidType),
{
}

/// The truth value that `v` converts to.
pub open spec fn to_bool(v: ValueView) -> Result<bool, ConversionError> {
    match v {
        ValueView::Bool(b) => Ok(b),
        _ => Err(ConversionError::InvalidType),
    }
}

/// The bytes that `v` converts to: those of a string or of a byte string.
pub open spec fn to_bytes(v: ValueView) -> Result<Seq<u8>, ConversionError> {
    match v {
        ValueView::Bytes(bytes) => Ok(bytes),
        ValueView::Utf8(bytes) => Ok(bytes),
        _ => Err(ConversionError::InvalidType),
    }
}

/// The text that `v` converts to: that of a string whose bytes are valid
/// UTF-8.
pub open spec fn to_text(v: ValueView) -> Result<Seq<char>, ConversionError> {
    match v {
        ValueView::Utf8(bytes) => if valid_utf8(bytes) {
            Ok(decode_utf8(bytes))
        } else {
            Err(ConversionError::InvalidUtf8)
        },
        _ => Err(ConversionError::InvalidType),
    }
}

/// The conversion of `v` to an optional value, where `inner` is its
/// conversion to the value itself: null is the absence of a value.
pub open spec fn optional<T>(v: ValueView, inner: Result<T, ConversionError>) -> Result<
    Option<T>,
    ConversionError,
> {
    if v is Null {
        Ok(None)
    } else {
        match inner {
            Ok(x) => Ok(Some(x)),
            Err(e) => Err(e),
        }
    }
}

/// The bits of a floating point value, in the width that the value has.
#[derive(Debug, Clone, Copy, PartialEq, Eq, Structural)]
pub enum FloatBits {
    Single(u32),
    Double(u64),
}

/// The bits that `v` converts to: those of a floating point value.
pub open spec fn to_float_bits(v: ValueView) -> Result<FloatBits, ConversionError> {
    match v {
        ValueView::Float(bits) => Ok(FloatBits::Single(bits)),
        ValueView::Double(bits) => Ok(FloatBits::Double(bits)),
        _ => Err(ConversionError::InvalidType),
    }
}

impl<'a> Value<'a> {
    /// The bits of a floating point value. A caller that wants a number of
    /// 64 bits widens the bits of a value of 32; one that wants a number of
    /// 32 bits refuses a value of 64.
    pub fn float_bits(self) -> (r: Result<FloatBits, ConversionError>)
        ensures
            r == to_float_bits(self@),
    {
        match self {
            Value::Float(bits) => Ok(FloatBits::Single(bits)),
            Value::Double(bits) => Ok(FloatBits::Double(bits)),
            _ => Err(ConversionError::InvalidType),
        }
    }

    /// Whether the value is null.
    pub fn is_null(&self) -> (r: bool)
        ensures
            r == (self@ is Null),
    {
        match self {
            Value::Null => true,
            _ => false,
        }
    }
}

/// Not verified: `core::str::from_utf8`. It returns the bytes as text
/// exactly if they are valid UTF-8; the text then has those bytes.
#[verifier::external_body]
fn str_from_utf8<'a>(bytes: &'a [u8]) -> (r: Option<&'a str>)
    ensures
        r is Some <==> valid_utf8(bytes@),
        r is Some ==> r->Some_0.spec_bytes() == bytes@,
{
    core::str::from_utf8(bytes).ok()
}

impl<'a> TryFrom<Value<'a>> for u8 {
    type Error = ConversionError;

    /// The number of an integer value, if `u8` can hold it.
    fn try_from(value: Value<'a>) -> (r: Result<Self, Self::Error>) {
        match value {
            Value::Signed(n) => if n >= 0 && n <= 0xffi64 {
                Ok(n as u8)
            } else {
                Err(ConversionError::ConversionFailed)
            },
            Value::Unsigned(n) => if n <= 0xffu64 {
                Ok(n as u8)
            } else {
                Err(ConversionError::ConversionFailed)
            },
            _ => Err(ConversionError::InvalidType),
        }
    }
}

impl<'a> vstd::std_specs::convert::TryFromSpecImpl<Value<'a>> for u8 {
    open spec fn obeys_try_from_spec() -> bool {
        true
    }

    open spec fn try_from_spec(v: Value<'a>) -> Result<Self, Self::Error> {
        match to_integer(v@, u8::MIN as int, u8::MAX as int) {
            Ok(n) => Ok(n as u8),
            Err(e) => Err(e),
        }
    }
}

impl<'a> TryFrom<Value<'a>> for Option<u8> {
    type Error = ConversionError;

    /// Nothing for null, and otherwise the number of an integer value, if
    /// `u8` can hold it.
    fn try_from(value: Value<'a>) -> (r: Result<Self, Self::Error>) {
        if value.is_null() {
            return Ok(None);
        }
        match u8::try_from(value) {
            Ok(n) => Ok(Some(n)),
            Err(e) => Err(e),
        }
    }
}

impl<'a> vstd::std_specs::convert::TryFromSpecImpl<Value<'a>> for Option<u8> {
    open spec fn obeys_try_from_spec() -> bool {
        true
    }

    open spec fn try_from_spec(v: Value<'a>) -> Result<Self, Self::Error> {
        optional(v@, <u8 as vstd::std_specs::convert::TryFromSpec<Value<'a>>>::try_from_spec(v))
    }
}

impl<'a> From<u8> for Value<'a> {
    /// The integer value that holds `value`.
    fn from(value: u8) -> (r: Self) {
        Value::Unsigned(value as u64)
    }
}

impl<'a> vstd::std_specs::convert::FromSpecImpl<u8> for Value<'a> {
    open spec fn obeys_from_spec() -> bool {
        true
    }

    open spec fn from_spec(v: u8) -> Self {
        Value::Unsigned(v as u64)
    }
}

impl<'a> From<Option<u8>> for Value<'a> {
    /// Null for nothing, and otherwise the integer value that holds the
    /// number.
    fn from(value: Option<u8>) -> (r: Self) {
        match value {
            None => Value::Null,
            Some(n) => Value::Unsigned(n as u64),
        }
    }
}

impl<'a> vstd::std_specs::convert::FromSpecImpl<Option<u8>> for Value<'a> {
    open spec fn obeys_from_spec() -> bool {
        true
    }

    open spec fn from_spec(v: Option<u8>) -> Self {
        match v {
            None => Value::Null,
            Some(n) => Value::Unsigned(n as u64),
        }
    }
}

impl<'a> TryFrom<Value<'a>> for u16 {
    type Error = ConversionError;

    /// The number of an integer value, if `u16` can hold it.
    fn try_from(value: Value<'a>) -> (r: Result<Self, Self::Error>) {
        match value {
            Value::Signed(n) => if n >= 0 && n <= 0xffffi64 {
                Ok(n as u16)
            } else {
                Err(ConversionError::ConversionFailed)
            },
            Value::Unsigned(n) => if n <= 0xffffu64 {
                Ok(n as u16)
            } else {
                Err(ConversionError::ConversionFailed)
            },
            _ => Err(ConversionError::InvalidType),
        }
    }
}

impl<'a> vstd::std_specs::convert::TryFromSpecImpl<Value<'a>> for u16 {
    open spec fn obeys_try_from_spec() -> bool {
        true
    }

    open spec fn try_from_spec(v: Value<'a>) -> Result<Self, Self::Error> {
        match to_integer(v@, u16::MIN as int, u16::MAX as int) {
            Ok(n) => Ok(n as u16),
            Err(e) => Err(e),
        }
    }
}

impl<'a> TryFrom<Value<'a>> for Option<u16> {
    type Error = ConversionError;

    /// Nothing for null, and otherwise the number of an integer value, if
    /// `u16` can hold it.
    fn try_from(value: Value<'a>) -> (r: Result<Self, Self::Error>) {
        if value.is_null() {
            return Ok(None);
        }
        match u16::try_from(value) {
            Ok(n) => Ok(Some(n)),
            Err(e) => Err(e),
        }
    }
}

impl<'a> vstd::std_specs::convert::TryFromSpecImpl<Value<'a>> for Option<u16> {
    open spec fn obeys_try_from_spec() -> bool {
        true
    }

    open spec fn try_from_spec(v: Value<'a>) -> Result<Self, Self::Error> {
        optional(v@, <u16 as vstd::std_specs::convert::TryFromSpec<Value<'a>>>::try_from_spec(v))
    }
}

impl<'a> From<u16> for Value<'a> {
    /// The integer value that holds `value`.
    fn from(value: u16) -> (r: Self) {
        Value::Unsigned(value as u64)
    }
}

impl<'a> vstd::std_specs::convert::FromSpecImpl<u16> for Value<'a> {
    open spec fn obeys_from_spec() -> bool {
        true
    }

    open spec fn from_spec(v: u16) -> Self {
        Value::Unsigned(v as u64)
    }
}

impl<'a> From<Option<u16>> for Value<'a> {
    /// Null for nothing, and otherwise the integer value that holds the
    /// number.
    fn from(value: Option<u16>) -> (r: Self) {
        match value {
            None => Value::Null,
            Some(n) => Value::Unsigned(n as u64),
        }
    }
}

impl<'a> vstd::std_specs::convert::FromSpecImpl<Option<u16>> for Value<'a> {
    open spec fn obeys_from_spec() -> bool {
        true
    }

    open spec fn from_spec(v: Option<u16>) -> Self {
        match v {
            None => Value::Null,
            Some(n) => Value::Unsigned(n as u64),
        }
    }
}

impl<'a> TryFrom<Value<'a>> for u32 {
    type Error = ConversionError;

    /// The number of an integer value, if `u32` can hold it.
    fn try_from(value: Value<'a>) -> (r: Result<Self, Self::Error>) {
        match value {
            Value::Signed(n) => if n >= 0 && n <= 0xffffffffi64 {
                Ok(n as u32)
            } else {
                Err(ConversionError::ConversionFailed)
            },
            Value::Unsigned(n) => if n <= 0xffffffffu64 {
                Ok(n as u32)
            } else {
                Err(ConversionError::ConversionFailed)
            },
            _ => Err(ConversionError::InvalidType),
        }
    }
}

impl<'a> vstd::std_specs::convert::TryFromSpecImpl<Value<'a>> for u32 {
    open spec fn obeys_try_from_spec() -> bool {
        true
    }

    open spec fn try_from_spec(v: Value<'a>) -> Result<Self, Self::Error> {
        match to_integer(v@, u32::MIN as int, u32::MAX as int) {
            Ok(n) => Ok(n as u32),
            Err(e) => Err(e),
        }
    }
}

impl<'a> TryFrom<Value<'a>> for Option<u32> {
    type Error = ConversionError;

    /// Nothing for null, and otherwise the number of an integer value, if
    /// `u32` can hold it.
    fn try_from(value: Value<'a>) -> (r: Result<Self, Self::Error>) {
        if value.is_null() {
            return Ok(None);
        }
        match u32::try_from(value) {
            Ok(n) => Ok(Some(n)),
            Err(e) => Err(e),
        }
    }
}

impl<'a> vstd::std_specs::convert::TryFromSpecImpl<Value<'a>> for Option<u32> {
    open spec fn obeys_try_from_spec() -> bool {
        true
    }

    open spec fn try_from_spec(v: Value<'a>) -> Result<Self, Self::Error> {
        optional(v@, <u32 as vstd::std_specs::convert::TryFromSpec<Value<'a>>>::try_from_spec(v))
    }
}

impl<'a> From<u32> for Value<'a> {
    /// The integer value that holds `value`.
    fn from(value: u32) -> (r: Self) {
        Value::Unsigned(value as u64)
    }
}

impl<'a> vstd::std_specs::convert::FromSpecImpl<u32> for Value<'a> {
    open spec fn obeys_from_spec() -> bool {
        true
    }

    open spec fn from_spec(v: u32) -> Self {
        Value::Unsigned(v as u64)
    }
}

impl<'a> From<Option<u32>> for Value<'a> {
    /// Null for nothing, and otherwise the integer value that holds the
    /// number.
    fn from(value: Option<u32>) -> (r: Self) {
        match value {
            None => Value::Null,
            Some(n) => Value::Unsigned(n as u64),
        }
    }
}

impl<'a> vstd::std_specs::convert::FromSpecImpl<Option<u32>> for Value<'a> {
    open spec fn obeys_from_spec() -> bool {
        true
    }

    open spec fn from_spec(v: Option<u32>) -> Self {
        match v {
            None => Value::Null,
            Some(n) => Value::Unsigned(n as u64),
        }
    }
}

impl<'a> TryFrom<Value<'a>> for u64 {
    type Error = ConversionError;

    /// The number of an integer value, if `u64` can hold it.
    fn try_from(value: Value<'a>) -> (r: Result<Self, Self::Error>) {
        match value {
            Value::Signed(n) => if n >= 0 {
                Ok(n as u64)
            } else {
                Err(ConversionError::ConversionFailed)
            },
            Value::Unsigned(n) => Ok(n as u64),
            _ => Err(ConversionError::InvalidType),
        }
    }
}

impl<'a> vstd::std_specs::convert::TryFromSpecImpl<Value<'a>> for u64 {
    open spec fn obeys_try_from_spec() -> bool {
        true
    }

    open spec fn try_from_spec(v: Value<'a>) -> Result<Self, Self::Error> {
        match to_integer(v@, u64::MIN as int, u64::MAX as int) {
            Ok(n) => Ok(n as u64),
            Err(e) => Err(e),
        }
    }
}

impl<'a> TryFrom<Value<'a>> for Option<u64> {
    type Error = ConversionError;

    /// Nothing for null, and otherwise the number of an integer value, if
    /// `u64` can hold it.
    fn try_from(value: Value<'a>) -> (r: Result<Self, Self::Error>) {
        if value.is_null() {
            return Ok(None);
        }
        match u64::try_from(value) {
            Ok(n) => Ok(Some(n)),
            Err(e) => Err(e),
        }
    }
}

impl<'a> vstd::std_specs::convert::TryFromSpecImpl<Value<'a>> for Option<u64> {
    open spec fn obeys_try_from_spec() -> bool {
        true
    }

    open spec fn try_from_spec(v: Value<'a>) -> Result<Self, Self::Error> {
        optional(v@, <u64 as vstd::std_specs::convert::TryFromSpec<Value<'a>>>::try_from_spec(v))
    }
}

impl<'a> From<u64> for Value<'a> {
    /// The integer value that holds `value`.
    fn from(value: u64) -> (r: Self) {
        Value::Unsigned(value as u64)
    }
}

impl<'a> vstd::std_specs::convert::FromSpecImpl<u64> for Value<'a> {
    open spec fn obeys_from_spec() -> bool {
        true
    }

    open spec fn from_spec(v: u64) -> Self {
        Value::Unsigned(v as u64)
    }
}

impl<'a> From<Option<u64>> for Value<'a> {
    /// Null for nothing, and otherwise the integer value that holds the
    /// number.
    fn from(value: Option<u64>) -> (r: Self) {
        match value {
            None => Value::Null,
            Some(n) => Value::Unsigned(n as u64),
        }
    }
}

impl<'a> vstd::std_specs::convert::FromSpecImpl<Option<u64>> for Value<'a> {
    open spec fn obeys_from_spec() -> bool {
        true
    }

    open spec fn from_spec(v: Option<u64>) -> Self {
        match v {
            None => Value::Null,
            Some(n) => Value::Unsigned(n as u64),
        }
    }
}

impl<'a> TryFrom<Value<'a>> for i8 {
    type Error = ConversionError;

    /// The number of an integer value, if `i8` can hold it.
    fn try_from(value: Value<'a>) -> (r: Result<Self, Self::Error>) {
        match value {
            Value::Signed(n) => if n >= -0x80i64 && n <= 0x7fi64 {
                Ok(n as i8)
            } else {
                Err(ConversionError::ConversionFailed)
            },
            Value::Unsigned(n) => if n <= 0x7fu64 {
                Ok(n as i8)
            } else {
                Err(ConversionError::ConversionFailed)
            },
            _ => Err(ConversionError::InvalidType),
        }
    }
}

impl<'a> vstd::std_specs::convert::TryFromSpecImpl<Value<'a>> for i8 {
    open spec fn obeys_try_from_spec() -> bool {
        true
    }

    open spec fn try_from_spec(v: Value<'a>) -> Result<Self, Self::Error> {
        match to_integer(v@, i8::MIN as int, i8::MAX as int) {
            Ok(n) => Ok(n as i8),
            Err(e) => Err(e),
        }
    }
}

impl<'a> TryFrom<Value<'a>> for Option<i8> {
    type Error = ConversionError;

    /// Nothing for null, and otherwise the number of an integer value, if
    /// `i8` can hold it.
    fn try_from(value: Value<'a>) -> (r: Result<Self, Self::Error>) {
        if value.is_null() {
            return Ok(None);
        }
        match i8::try_from(value) {
            Ok(n) => Ok(Some(n)),
            Err(e) => Err(e),
        }
    }
}

impl<'a> vstd::std_specs::convert::TryFromSpecImpl<Value<'a>> for Option<i8> {
    open spec fn obeys_try_from_spec() -> bool {
        true
    }

    open spec fn try_from_spec(v: Value<'a>) -> Result<Self, Self::Error> {
        optional(v@, <i8 as vstd::std_specs::convert::TryFromSpec<Value<'a>>>::try_from_spec(v))
    }
}

impl<'a> From<i8> for Value<'a> {
    /// The integer value that holds `value`.
    fn from(value: i8) -> (r: Self) {
        Value::Signed(value as i64)
    }
}

impl<'a> vstd::std_specs::convert::FromSpecImpl<i8> for Value<'a> {
    open spec fn obeys_from_spec() -> bool {
        true
    }

    open spec fn from_spec(v: i8) -> Self {
        Value::Signed(v as i64)
    }
}

impl<'a> From<Option<i8>> for Value<'a> {
    /// Null for nothing, and otherwise the integer value that holds the
    /// number.
    fn from(value: Option<i8>) -> (r: Self) {
        match value {
            None => Value::Null,
            Some(n) => Value::Signed(n as i64),
        }
    }
}

impl<'a> vstd::std_specs::convert::FromSpecImpl<Option<i8>> for Value<'a> {
    open spec fn obeys_from_spec() -> bool {
        true
    }

    open spec fn from_spec(v: Option<i8>) -> Self {
        match v {
            None => Value::Null,
            Some(n) => Value::Signed(n as i64),
        }
    }
}

impl<'a> TryFrom<Value<'a>> for i16 {
    type Error = ConversionError;

    /// The number of an integer value, if `i16` can hold it.
    fn try_from(value: Value<'a>) -> (r: Result<Self, Self::Error>) {
        match value {
            Value::Signed(n) => if n >= -0x8000i64 && n <= 0x7fffi64 {
                Ok(n as i16)
            } else {
                Err(ConversionError::ConversionFailed)
            },
            Value::Unsigned(n) => if n <= 0x7fffu64 {
                Ok(n as i16)
            } else {
                Err(ConversionError::ConversionFailed)
            },
            _ => Err(ConversionError::InvalidType),
        }
    }
}

impl<'a> vstd::std_specs::convert::TryFromSpecImpl<Value<'a>> for i16 {
    open spec fn obeys_try_from_spec() -> bool {
        true
    }

    open spec fn try_from_spec(v: Value<'a>) -> Result<Self, Self::Error> {
        match to_integer(v@, i16::MIN as int, i16::MAX as int) {
            Ok(n) => Ok(n as i16),
            Err(e) => Err(e),
        }
    }
}

impl<'a> TryFrom<Value<'a>> for Option<i16> {
    type Error = ConversionError;

    /// Nothing for null, and otherwise the number of an integer value, if
    /// `i16` can hold it.
    fn try_from(value: Value<'a>) -> (r: Result<Self, Self::Error>) {
        if value.is_null() {
            return Ok(None);
        }
        match i16::try_from(value) {
            Ok(n) => Ok(Some(n)),
            Err(e) => Err(e),
        }
    }
}

impl<'a> vstd::std_specs::convert::TryFromSpecImpl<Value<'a>> for Option<i16> {
    open spec fn obeys_try_from_spec() -> bool {
        true
    }

    open spec fn try_from_spec(v: Value<'a>) -> Result<Self, Self::Error> {
        optional(v@, <i16 as vstd::std_specs::convert::TryFromSpec<Value<'a>>>::try_from_spec(v))
    }
}

impl<'a> From<i16> for Value<'a> {
    /// The integer value that holds `value`.
    fn from(value: i16) -> (r: Self) {
        Value::Signed(value as i64)
    }
}

impl<'a> vstd::std_specs::convert::FromSpecImpl<i16> for Value<'a> {
    open spec fn obeys_from_spec() -> bool {
        true
    }

    open spec fn from_spec(v: i16) -> Self {
        Value::Signed(v as i64)
    }
}

impl<'a> From<Option<i16>> for Value<'a> {
    /// Null for nothing, and otherwise the integer value that holds the
    /// number.
    fn from(value: Option<i16>) -> (r: Self) {
        match value {
            None => Value::Null,
            Some(n) => Value::Signed(n as i64),
        }
    }
}

impl<'a> vstd::std_specs::convert::FromSpecImpl<Option<i16>> for Value<'a> {
    open spec fn obeys_from_spec() -> bool {
        true
    }

    open spec fn from_spec(v: Option<i16>) -> Self {
        match v {
            None => Value::Null,
            Some(n) => Value::Signed(n as i64),
        }
    }
}

impl<'a> TryFrom<Value<'a>> for i32 {
    type Error = ConversionError;

    /// The number of an integer value, if `i32` can hold it.
    fn try_from(value: Value<'a>) -> (r: Result<Self, Self::Error>) {
        match value {
            Value::Signed(n) => if n >= -0x80000000i64 && n <= 0x7fffffffi64 {
                Ok(n as i32)
            } else {
                Err(ConversionError::ConversionFailed)
            },
            Value::Unsigned(n) => if n <= 0x7fffffffu64 {
                Ok(n as i32)
            } else {
                Err(ConversionError::ConversionFailed)
            },
            _ => Err(ConversionError::InvalidType),
        }
    }
}

impl<'a> vstd::std_specs::convert::TryFromSpecImpl<Value<'a>> for i32 {
    open spec fn obeys_try_from_spec() -> bool {
        true
    }

    open spec fn try_from_spec(v: Value<'a>) -> Result<Self, Self::Error> {
        match to_integer(v@, i32::MIN as int, i32::MAX as int) {
            Ok(n) => Ok(n as i32),
            Err(e) => Err(e),
        }
    }
}

impl<'a> TryFrom<Value<'a>> for Option<i32> {
    type Error = ConversionError;

    /// Nothing for null, and otherwise the number of an integer value, if
    /// `i32` can hold it.
    fn try_from(value: Value<'a>) -> (r: Result<Self, Self::Error>) {
        if value.is_null() {
            return Ok(None);
        }
        match i32::try_from(value) {
            Ok(n) => Ok(Some(n)),
            Err(e) => Err(e),
        }
    }
}

impl<'a> vstd::std_specs::convert::TryFromSpecImpl<Value<'a>> for Option<i32> {
    open spec fn obeys_try_from_spec() -> bool {
        true
    }

    open spec fn try_from_spec(v: Value<'a>) -> Result<Self, Self::Error> {
        optional(v@, <i32 as vstd::std_specs::convert::TryFromSpec<Value<'a>>>::try_from_spec(v))
    }
}

impl<'a> From<i32> for Value<'a> {
    /// The integer value that holds `value`.
    fn from(value: i32) -> (r: Self) {
        Value::Signed(value as i64)
    }
}

impl<'a> vstd::std_specs::convert::FromSpecImpl<i32> for Value<'a> {
    open spec fn obeys_from_spec() -> bool {
        true
    }

    open spec fn from_spec(v: i32) -> Self {
        Value::Signed(v as i64)
    }
}

impl<'a> From<Option<i32>> for Value<'a> {
    /// Null for nothing, and otherwise the integer value that holds the
    /// number.
    fn from(value: Option<i32>) -> (r: Self) {
        match value {
            None => Value::Null,
            Some(n) => Value::Signed(n as i64),
        }
    }
}

impl<'a> vstd::std_specs::convert::FromSpecImpl<Option<i32>> for Value<'a> {
    open spec fn obeys_from_spec() -> bool {
        true
    }

    open spec fn from_spec(v: Option<i32>) -> Self {
        match v {
            None => Value::Null,
            Some(n) => Value::Signed(n as i64),
        }
    }
}

impl<'a> TryFrom<Value<'a>> for i64 {
    type Error = ConversionError;

    /// The number of an integer value, if `i64` can hold it.
    fn try_from(value: Value<'a>) -> (r: Result<Self, Self::Error>) {
        match value {
            Value::Signed(n) => Ok(n as i64),
            Value::Unsigned(n) => if n <= 0x7fffffffffffffffu64 {
                Ok(n as i64)
            } else {
                Err(ConversionError::ConversionFailed)
            },
            _ => Err(ConversionError::InvalidType),
        }
    }
}

impl<'a> vstd::std_specs::convert::TryFromSpecImpl<Value<'a>> for i64 {
    open spec fn obeys_try_from_spec() -> bool {
        true
    }

    open spec fn try_from_spec(v: Value<'a>) -> Result<Self, Self::Error> {
        match to_integer(v@, i64::MIN as int, i64::MAX as int) {
            Ok(n) => Ok(n as i64),
            Err(e) => Err(e),
        }
    }
}

impl<'a> TryFrom<Value<'a>> for Option<i64> {
    type Error = ConversionError;

    /// Nothing for null, and otherwise the number of an integer value, if
    /// `i64` can hold it.
    fn try_from(value: Value<'a>) -> (r: Result<Self, Self::Error>) {
        if value.is_null() {
            return Ok(None);
        }
        match i64::try_from(value) {
            Ok(n) => Ok(Some(n)),
            Err(e) => Err(e),
        }
    }
}

impl<'a> vstd::std_specs::convert::TryFromSpecImpl<Value<'a>> for Option<i64> {
    open spec fn obeys_try_from_spec() -> bool {
        true
    }

    open spec fn try_from_spec(v: Value<'a>) -> Result<Self, Self::Error> {
        optional(v@, <i64 as vstd::std_specs::convert::TryFromSpec<Value<'a>>>::try_from_spec(v))
    }
}

impl<'a> From<i64> for Value<'a> {
    /// The integer value that holds `value`.
    fn from(value: i64) -> (r: Self) {
        Value::Signed(value as i64)
    }
}

impl<'a> vstd::std_specs::convert::FromSpecImpl<i64> for Value<'a> {
    open spec fn obeys_from_spec() -> bool {
        true
    }

    open spec fn from_spec(v: i64) -> Self {
        Value::Signed(v as i64)
    }
}

impl<'a> From<Option<i64>> for Value<'a> {
    /// Null for nothing, and otherwise the integer value that holds the
    /// number.
    fn from(value: Option<i64>) -> (r: Self) {
        match value {
            None => Value::Null,
            Some(n) => Value::Signed(n as i64),
        }
    }
}

impl<'a> vstd::std_specs::convert::FromSpecImpl<Option<i64>> for Value<'a> {
    open spec fn obeys_from_spec() -> bool {
        true
    }

    open spec fn from_spec(v: Option<i64>) -> Self {
        match v {
            None => Value::Null,
            Some(n) => Value::Signed(n as i64),
        }
    }
}

impl<'a> TryFrom<Value<'a>> for bool {
    type Error = ConversionError;

    /// The truth value of a boolean value.
    fn try_from(value: Value<'a>) -> (r: Result<Self, Self::Error>) {
        match value {
            Value::Bool(b) => Ok(b),
            _ => Err(ConversionError::InvalidType),
        }
    }
}

impl<'a> vstd::std_specs::convert::TryFromSpecImpl<Value<'a>> for bool {
    open spec fn obeys_try_from_spec() -> bool {
        true
    }

    open spec fn try_from_spec(v: Value<'a>) -> Result<Self, Self::Error> {
        to_bool(v@)
    }
}

impl<'a> From<bool> for Value<'a> {
    /// The boolean value that holds `value`.
    fn from(value: bool) -> (r: Self) {
        Value::Bool(value)
    }
}

impl<'a> vstd::std_specs::convert::FromSpecImpl<bool> for Value<'a> {
    open spec fn obeys_from_spec() -> bool {
        true
    }

    open spec fn from_spec(v: bool) -> Self {
        Value::Bool(v)
    }
}

impl<'a> TryFrom<Value<'a>> for &'a [u8] {
    type Error = ConversionError;

    /// The bytes of a string or of a byte string, borrowed from where the
    /// value borrows them.
    fn try_from(value: Value<'a>) -> (r: Result<Self, Self::Error>)
        ensures
            match r {
                Ok(bytes) => to_bytes(value@) == Ok::<Seq<u8>, ConversionError>(bytes@),
                Err(e) => to_bytes(value@) == Err::<Seq<u8>, ConversionError>(e),
            },
    {
        match value {
            Value::Bytes(bytes) => Ok(bytes),
            Value::Utf8(bytes) => Ok(bytes),
            _ => Err(ConversionError::InvalidType),
        }
    }
}

impl<'a> vstd::std_specs::convert::TryFromSpecImpl<Value<'a>> for &'a [u8] {
    open spec fn obeys_try_from_spec() -> bool {
        true
    }

    open spec fn try_from_spec(v: Value<'a>) -> Result<Self, Self::Error> {
        match v {
            Value::Bytes(bytes) => Ok(bytes),
            Value::Utf8(bytes) => Ok(bytes),
            _ => Err(ConversionError::InvalidType),
        }
    }
}

impl<'a> TryFrom<Value<'a>> for Option<&'a [u8]> {
    type Error = ConversionError;

    /// Nothing for null, and otherwise the bytes of a string or of a byte
    /// string.
    fn try_from(value: Value<'a>) -> (r: Result<Self, Self::Error>)
        ensures
            match r {
                Ok(Some(bytes)) => optional(value@, to_bytes(value@)) == Ok::<
                    Option<Seq<u8>>,
                    ConversionError,
                >(Some(bytes@)),
                Ok(None) => optional(value@, to_bytes(value@)) == Ok::<
                    Option<Seq<u8>>,
                    ConversionError,
                >(None),
                Err(e) => optional(value@, to_bytes(value@)) == Err::<
                    Option<Seq<u8>>,
                    ConversionError,
                >(e),
            },
    {
        match value {
            Value::Null => Ok(None),
            Value::Bytes(bytes) => Ok(Some(bytes)),
            Value::Utf8(bytes) => Ok(Some(bytes)),
            _ => Err(ConversionError::InvalidType),
        }
    }
}

impl<'a> vstd::std_specs::convert::TryFromSpecImpl<Value<'a>> for Option<&'a [u8]> {
    open spec fn obeys_try_from_spec() -> bool {
        true
    }

    open spec fn try_from_spec(v: Value<'a>) -> Result<Self, Self::Error> {
        match v {
            Value::Null => Ok(None),
            Value::Bytes(bytes) => Ok(Some(bytes)),
            Value::Utf8(bytes) => Ok(Some(bytes)),
            _ => Err(ConversionError::InvalidType),
        }
    }
}

impl<'a> TryFrom<Value<'a>> for &'a str {
    type Error = ConversionError;

    /// The text of a string, borrowed from where the value borrows its
    /// bytes, if the bytes are valid UTF-8.
    fn try_from(value: Value<'a>) -> (r: Result<Self, Self::Error>)
        ensures
            match r {
                Ok(text) => to_text(value@) == Ok::<Seq<char>, ConversionError>(text@),
                Err(e) => to_text(value@) == Err::<Seq<char>, ConversionError>(e),
            },
    {
        match value {
            Value::Utf8(bytes) => match str_from_utf8(bytes) {
                Some(text) => {
                    proof {
                        encode_utf8_decode_utf8(text@);
                    }
                    Ok(text)
                },
                None => Err(ConversionError::InvalidUtf8),
            },
            _ => Err(ConversionError::InvalidType),
        }
    }
}

impl<'a> vstd::std_specs::convert::TryFromSpecImpl<Value<'a>> for &'a str {
    open spec fn obeys_try_from_spec() -> bool {
        false
    }

    open spec fn try_from_spec(v: Value<'a>) -> Result<Self, Self::Error> {
        Err(ConversionError::InvalidType)
    }
}

impl<'a> TryFrom<Value<'a>> for String {
    type Error = ConversionError;

    /// The text of a string, if its bytes are valid UTF-8.
    fn try_from(value: Value<'a>) -> (r: Result<Self, Self::Error>)
        ensures
            match r {
                Ok(text) => to_text(value@) == Ok::<Seq<char>, ConversionError>(text@),
                Err(e) => to_text(value@) == Err::<Seq<char>, ConversionError>(e),
            },
    {
        match <&'a str>::try_from(value) {
            Ok(text) => Ok(text.to_owned()),
            Err(e) => Err(e),
        }
    }
}

impl<'a> vstd::std_specs::convert::TryFromSpecImpl<Value<'a>> for String {
    open spec fn obeys_try_from_spec() -> bool {
        false
    }

    open spec fn try_from_spec(v: Value<'a>) -> Result<Self, Self::Error> {
        Err(ConversionError::InvalidType)
    }
}

impl<'a> TryFrom<Value<'a>> for Option<String> {
    type Error = ConversionError;

    /// Nothing for null, and otherwise the text of a string, if its bytes
    /// are valid UTF-8.
    fn try_from(value: Value<'a>) -> (r: Result<Self, Self::Error>)
        ensures
            match r {
                Ok(Some(text)) => optional(value@, to_text(value@)) == Ok::<
                    Option<Seq<char>>,
                    ConversionError,
                >(Some(text@)),
                Ok(None) => optional(value@, to_text(value@)) == Ok::<
                    Option<Seq<char>>,
                    ConversionError,
                >(None),
                Err(e) => optional(value@, to_text(value@)) == Err::<
                    Option<Seq<char>>,
                    ConversionError,
                >(e),
            },
    {
        if value.is_null() {
            return Ok(None);
        }
        match String::try_from(value) {
            Ok(text) => Ok(Some(text)),
            Err(e) => Err(e),
        }
    }
}

impl<'a> vstd::std_specs::convert::TryFromSpecImpl<Value<'a>> for Option<String> {
    open spec fn obeys_try_from_spec() -> bool {
        false
    }

    open spec fn try_from_spec(v: Value<'a>) -> Result<Self, Self::Error> {
        Err(ConversionError::InvalidType)
    }
}

impl<'a> TryFrom<Value<'a>> for Vec<u8> {
    type Error = ConversionError;

    /// A copy of the bytes of a string or of a byte string.
    fn try_from(value: Value<'a>) -> (r: Result<Self, Self::Error>)
        ensures
            match r {
                Ok(bytes) => to_bytes(value@) == Ok::<Seq<u8>, ConversionError>(bytes@),
                Err(e) => to_bytes(value@) == Err::<Seq<u8>, ConversionError>(e),
            },
    {
        match <&'a [u8]>::try_from(value) {
            Ok(bytes) => Ok(vstd::slice::slice_to_vec(bytes)),
            Err(e) => Err(e),
        }
    }
}

impl<'a> vstd::std_specs::convert::TryFromSpecImpl<Value<'a>> for Vec<u8> {
    open spec fn obeys_try_from_spec() -> bool {
        false
    }

    open spec fn try_from_spec(v: Value<'a>) -> Result<Self, Self::Error> {
        Err(ConversionError::InvalidType)
    }
}

impl<'a> TryFrom<Value<'a>> for Option<Vec<u8>> {
    type Error = ConversionError;

    /// Nothing for null, and otherwise a copy of the bytes of a string or of
    /// a byte string.
    fn try_from(value: Value<'a>) -> (r: Result<Self, Self::Error>)
        ensures
            match r {
                Ok(Some(bytes)) => optional(value@, to_bytes(value@)) == Ok::<
                    Option<Seq<u8>>,
                    ConversionError,
                >(Some(bytes@)),
                Ok(None) => optional(value@, to_bytes(value@)) == Ok::<
                    Option<Seq<u8>>,
                    ConversionError,
                >(None),
                Err(e) => optional(value@, to_bytes(value@)) == Err::<
                    Option<Seq<u8>>,
                    ConversionError,
                >(e),
            },
    {
        if value.is_null() {
            return Ok(None);
        }
        match Vec::<u8>::try_from(value) {
            Ok(bytes) => Ok(Some(bytes)),
            Err(e) => Err(e),
        }
    }
}

impl<'a> vstd::std_specs::convert::TryFromSpecImpl<Value<'a>> for Option<Vec<u8>> {
    open spec fn obeys_try_from_spec() -> bool {
        false
    }

    open spec fn try_from_spec(v: Value<'a>) -> Result<Self, Self::Error> {
        Err(ConversionError::InvalidType)
    }
}

impl<'a> From<&'a str> for Value<'a> {
    /// The string value that borrows the bytes of `value`.
    fn from(value: &'a str) -> (r: Self)
        ensures
            r@ == ValueView::Utf8(encode_utf8(value@)),
    {
        Value::Utf8(value.as_bytes())
    }
}

impl<'a> vstd::std_specs::convert::FromSpecImpl<&'a str> for Value<'a> {
    open spec fn obeys_from_spec() -> bool {
        false
    }

    open spec fn from_spec(v: &'a str) -> Self {
        Value::Null
    }
}

impl<'a> From<Option<&'a str>> for Value<'a> {
    /// Null for nothing, and otherwise the value that borrows what is given.
    fn from(value: Option<&'a str>) -> (r: Self)
        ensures
            r@ == match value {
                None => ValueView::Null,
                Some(value) => ValueView::Utf8(encode_utf8(value@)),
            },
    {
        match value {
            None => Value::Null,
            Some(value) => Value::Utf8(value.as_bytes()),
        }
    }
}

impl<'a> vstd::std_specs::convert::FromSpecImpl<Option<&'a str>> for Value<'a> {
    open spec fn obeys_from_spec() -> bool {
        false
    }

    open spec fn from_spec(v: Option<&'a str>) -> Self {
        Value::Null
    }
}

impl<'a> From<&'a [u8]> for Value<'a> {
    /// The byte string value that borrows `value`.
    fn from(value: &'a [u8]) -> (r: Self)
        ensures
            r@ == ValueView::Bytes(value@),
    {
        Value::Bytes(value)
    }
}

impl<'a> vstd::std_specs::convert::FromSpecImpl<&'a [u8]> for Value<'a> {
    open spec fn obeys_from_spec() -> bool {
        false
    }

    open spec fn from_spec(v: &'a [u8]) -> Self {
        Value::Null
    }
}

impl<'a> From<Option<&'a [u8]>> for Value<'a> {
    /// Null for nothing, and otherwise the value that borrows what is given.
    fn from(value: Option<&'a [u8]>) -> (r: Self)
        ensures
            r@ == match value {
                None => ValueView::Null,
                Some(value) => ValueView::Bytes(value@),
            },
    {
        match value {
            None => Value::Null,
            Some(value) => Value::Bytes(value),
        }
    }
}

impl<'a> vstd::std_specs::convert::FromSpecImpl<Option<&'a [u8]>> for Value<'a> {
    open spec fn obeys_from_spec() -> bool {
        false
    }

    open spec fn from_spec(v: Option<&'a [u8]>) -> Self {
        Value::Null
    }
}

impl<'a> From<&'a String> for Value<'a> {
    /// The string value that borrows the bytes of `value`.
    fn from(value: &'a String) -> (r: Self)
        ensures
            r@ == ValueView::Utf8(encode_utf8(value@)),
    {
        Value::Utf8(value.as_str().as_bytes())
    }
}

impl<'a> vstd::std_specs::convert::FromSpecImpl<&'a String> for Value<'a> {
    open spec fn obeys_from_spec() -> bool {
        false
    }

    open spec fn from_spec(v: &'a String) -> Self {
        Value::Null
    }
}

impl<'a> From<Option<&'a String>> for Value<'a> {
    /// Null for nothing, and otherwise the value that borrows what is given.
    fn from(value: Option<&'a String>) -> (r: Self)
        ensures
            r@ == match value {
                None => ValueView::Null,
                Some(value) => ValueView::Utf8(encode_utf8(value@)),
            },
    {
        match value {
            None => Value::Null,
            Some(value) => Value::Utf8(value.as_str().as_bytes()),
        }
    }
}

impl<'a> vstd::std_specs::convert::FromSpecImpl<Option<&'a String>> for Value<'a> {
    open spec fn obeys_from_spec() -> bool {
        false
    }

    open spec fn from_spec(v: Option<&'a String>) -> Self {
        Value::Null
    }
}

impl<'a> From<&'a Vec<u8>> for Value<'a> {
    /// The byte string value that borrows the bytes of `value`.
    fn from(value: &'a Vec<u8>) -> (r: Self)
        ensures
            r@ == ValueView::Bytes(value@),
    {
        Value::Bytes(value.as_slice())
    }
}

impl<'a> vstd::std_specs::convert::FromSpecImpl<&'a Vec<u8>> for Value<'a> {
    open spec fn obeys_from_spec() -> bool {
        false
    }

    open spec fn from_spec(v: &'a Vec<u8>) -> Self {
        Value::Null
    }
}

impl<'a> From<Option<&'a Vec<u8>>> for Value<'a> {
    /// Null for nothing, and otherwise the value that borrows what is given.
    fn from(value: Option<&'a Vec<u8>>) -> (r: Self)
        ensures
            r@ == match value {
                None => ValueView::Null,
                Some(value) => ValueView::Bytes(value@),
            },
    {
        match value {
            None => Value::Null,
            Some(value) => Value::Bytes(value.as_slice()),
        }
    }
}

impl<'a> vstd::std_specs::convert::FromSpecImpl<Option<&'a Vec<u8>>> for Value<'a> {
    open spec fn obeys_from_spec() -> bool {
        false
    }

    open spec fn from_spec(v: Option<&'a Vec<u8>>) -> Self {
        Value::Null
    }
}

} // verus!
