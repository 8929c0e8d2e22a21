//! Tags written as text.
//!
//! A tag is written as one of
//!
//! - `anonymous`,
//! - `context:` and a number up to 255,
//! - `implicit:` and a number up to 2^32 - 1,
//! - `full:` and a number up to 2^32 - 1, or `full:` and a vendor id, a
//!   profile id and a number, joined by `-`; the two ids go up to 65535.
//!
//! The words are written in upper or lower case. White space may follow the
//! colon. A number is written in decimal digits, or as `0x` and hexadecimal
//! digits.

use crate::tlv::value::TagValue;
use vstd::prelude::*;
use vstd::string::StringSliceAdditionalSpecFns;

verus! {

/// Why a text is not a tag.
#[derive(Debug, Clone, Copy, PartialEq, Eq, Structural)]
pub enum TagSyntaxError {
    /// The text is not written as a tag is.
    InvalidSyntax,
    /// A number is larger than its place allows.
    NumberOutOfRange,
}

/// The letter `c` in lower case; any other byte is itself.
pub open spec fn lowered(c: u8) -> u8 {
    if 0x41 <= c <= 0x5A {
        (c + 0x20) as u8
    } else {
        c
    }
}

/// Whether `text` starts with `word`, in upper or lower case; `word` is
/// written in lower case.
pub open spec fn starts_with_word(text: Seq<u8>, word: Seq<u8>) -> bool {
    text.len() >= word.len() && forall|i: int|
        0 <= i < word.len() ==> lowered(#[trigger] text[i]) == word[i]
}

/// The word `anonymous`.
pub open spec fn word_anonymous() -> Seq<u8> {
    seq![0x61u8, 0x6E, 0x6F, 0x6E, 0x79, 0x6D, 0x6F, 0x75, 0x73]
}

/// The word `context:`.
pub open spec fn word_context() -> Seq<u8> {
    seq![0x63u8, 0x6F, 0x6E, 0x74, 0x65, 0x78, 0x74, 0x3A]
}

/// The word `implicit:`.
pub open spec fn word_implicit() -> Seq<u8> {
    seq![0x69u8, 0x6D, 0x70, 0x6C, 0x69, 0x63, 0x69, 0x74, 0x3A]
}

/// The word `full:`.
pub open spec fn word_full() -> Seq<u8> {
    seq![0x66u8, 0x75, 0x6C, 0x6C, 0x3A]
}

/// The number of bytes of the white space character that starts at `at`; 0
/// if none starts there. White space is what Unicode calls so, in UTF-8:
/// the characters U+0009 to U+000D, U+0020, U+0085, U+00A0, U+1680, U+2000
/// to U+200A, U+2028, U+2029, U+202F, U+205F and U+3000.
pub open spec fn space_length(text: Seq<u8>, at: int) -> nat {
    if at < 0 || at >= text.len() {
        0
    } else if 0x09 <= text[at] <= 0x0D || text[at] == 0x20 {
        1
    } else if at + 1 < text.len() && text[at] == 0xC2 && (text[at + 1] == 0x85 || text[at + 1]
        == 0xA0) {
        2
    } else if at + 2 < text.len() && text[at] == 0xE1 && text[at + 1] == 0x9A && text[at + 2]
        == 0x80 {
        3
    } else if at + 2 < text.len() && text[at] == 0xE2 && text[at + 1] == 0x80 && (0x80 <= text[at
        + 2] <= 0x8A || text[at + 2] == 0xA8 || text[at + 2] == 0xA9 || text[at + 2] == 0xAF) {
        3
    } else if at + 2 < text.len() && text[at] == 0xE2 && text[at + 1] == 0x81 && text[at + 2]
        == 0x9F {
        3
    } else if at + 2 < text.len() && text[at] == 0xE3 && text[at + 1] == 0x80 && text[at + 2]
        == 0x80 {
        3
    } else {
        0
    }
}

/// Where the white space ends that starts at `at`.
pub open spec fn after_space(text: Seq<u8>, at: int) -> int
    decreases text.len() - at,
{
    if space_length(text, at) > 0 {
        after_space(text, at + space_length(text, at))
    } else {
        at
    }
}

/// What the digit `c` counts in a number of base `radix`, 10 or 16; `None`
/// if `c` is no digit of that base.
pub open spec fn digit_value(c: u8, radix: nat) -> Option<nat> {
    if 0x30 <= c <= 0x39 {
        Some((c - 0x30) as nat)
    } else if radix == 16 && 0x61 <= c <= 0x66 {
        Some((c - 0x61 + 10) as nat)
    } else if radix == 16 && 0x41 <= c <= 0x46 {
        Some((c - 0x41 + 10) as nat)
    } else {
        None
    }
}

/// The number that the digits spell in base `radix`; `None` if there is no
/// digit, or something else among them.
pub open spec fn digits_value(digits: Seq<u8>, radix: nat) -> Option<nat>
    decreases digits.len(),
{
    if digits.len() == 0 {
        None
    } else if digits.len() == 1 {
        digit_value(digits[0], radix)
    } else {
        match (digits_value(digits.drop_last(), radix), digit_value(digits.last(), radix)) {
            (Some(front), Some(last)) => Some(front * radix + last),
            _ => None,
        }
    }
}

/// The number that `text` spells: hexadecimal digits behind `0x`, or
/// decimal digits.
pub open spec fn number_value(text: Seq<u8>) -> Option<nat> {
    if text.len() > 2 && text[0] == 0x30 && text[1] == 0x78 {
        digits_value(text.skip(2), 16)
    } else {
        digits_value(text, 10)
    }
}

/// The place of the first `-` in `text` from `from` on; the length of the
/// text if there is none.
pub open spec fn dash_from(text: Seq<u8>, from: int) -> int
    decreases text.len() - from,
{
    if from >= text.len() {
        text.len() as int
    } else if text[from] == 0x2D {
        from
    } else {
        dash_from(text, from + 1)
    }
}

/// The number that `text` spells, if it is no larger than `limit`.
pub open spec fn bounded_number(text: Seq<u8>, limit: nat) -> Result<nat, TagSyntaxError> {
    match number_value(text) {
        None => Err(TagSyntaxError::InvalidSyntax),
        Some(n) => if n <= limit {
            Ok(n)
        } else {
            Err(TagSyntaxError::NumberOutOfRange)
        },
    }
}

/// The fully qualified tag that `text` spells: a number alone, or a vendor
/// id, a profile id and a number, joined by `-`. The syntax of all three is
/// looked at before the size of any.
pub open spec fn full_tag(text: Seq<u8>) -> Result<TagValue, TagSyntaxError> {
    let first = dash_from(text, 0);
    let second = dash_from(text, first + 1);
    if first >= text.len() {
        match bounded_number(text, u32::MAX as nat) {
            Ok(tag) => Ok(TagValue::Full { vendor_id: 0, profile_id: 0, tag: tag as u32 }),
            Err(e) => Err(e),
        }
    } else if second >= text.len() {
        Err(TagSyntaxError::InvalidSyntax)
    } else {
        let vendor = number_value(text.subrange(0, first));
        let profile = number_value(text.subrange(first + 1, second));
        let tag = number_value(text.subrange(second + 1, text.len() as int));
        if vendor is None || profile is None || tag is None {
            Err(TagSyntaxError::InvalidSyntax)
        } else if vendor->Some_0 > u16::MAX || profile->Some_0 > u16::MAX || tag->Some_0
            > u32::MAX {
            Err(TagSyntaxError::NumberOutOfRange)
        } else {
            Ok(
                TagValue::Full {
                    vendor_id: vendor->Some_0 as u16,
                    profile_id: profile->Some_0 as u16,
                    tag: tag->Some_0 as u32,
                },
            )
        }
    }
}

/// What follows the word of `length` bytes and the white space behind it.
pub open spec fn argument(text: Seq<u8>, length: int) -> Seq<u8> {
    text.skip(after_space(text, length))
}

/// The tag that `text` spells.
pub open spec fn tag_of(text: Seq<u8>) -> Result<TagValue, TagSyntaxError> {
    if text.len() == 9 && starts_with_word(text, word_anonymous()) {
        Ok(TagValue::Anonymous)
    } else if starts_with_word(text, word_context()) {
        match bounded_number(argument(text, 8), u8::MAX as nat) {
            Ok(tag) => Ok(TagValue::ContextSpecific { tag: tag as u8 }),
            Err(e) => Err(e),
        }
    } else if starts_with_word(text, word_implicit()) {
        match bounded_number(argument(text, 9), u32::MAX as nat) {
            Ok(tag) => Ok(TagValue::Implicit { tag: tag as u32 }),
            Err(e) => Err(e),
        }
    } else if starts_with_word(text, word_full()) {
        full_tag(argument(text, 5))
    } else {
        Err(TagSyntaxError::InvalidSyntax)
    }
}

/// The largest number that is kept apart from those above it.
pub const NUMBER_CAP: u64 = 0x1_0000_0000;

/// `n`, or the cap if `n` is beyond it.
pub open spec fn capped(n: nat) -> nat {
    if n <= NUMBER_CAP {
        n
    } else {
        NUMBER_CAP as nat
    }
}

/// Whether `text` starts with `word`, in upper or lower case.
fn has_word(text: &[u8], word: &[u8]) -> (r: bool)
    ensures
        r == starts_with_word(text@, word@),
{
    if text.len() < word.len() {
        return false;
    }
    let mut i: usize = 0;
    while i < word.len()
        invariant
            i <= word@.len() <= text@.len(),
            forall|j: int| 0 <= j < i ==> lowered(#[trigger] text@[j]) == word@[j],
        decreases word@.len() - i,
    {
        let c = text[i];
        let low = if 0x41 <= c && c <= 0x5A {
            c + 0x20
        } else {
            c
        };
        if low != word[i] {
            return false;
        }
        i = i + 1;
    }
    true
}

/// The number of bytes of the white space character that starts at `at`.
fn space_at(text: &[u8], at: usize) -> (r: usize)
    ensures
        r == space_length(text@, at as int),
        r <= 3,
        at + r <= text@.len() || r == 0,
{
    let n = text.len();
    if at >= n {
        return 0;
    }
    let c = text[at];
    if (0x09 <= c && c <= 0x0D) || c == 0x20 {
        return 1;
    }
    if n - at >= 2 && c == 0xC2 && (text[at + 1] == 0x85 || text[at + 1] == 0xA0) {
        return 2;
    }
    if n - at >= 3 {
        let d = text[at + 1];
        let e = text[at + 2];
        if c == 0xE1 && d == 0x9A && e == 0x80 {
            return 3;
        }
        if c == 0xE2 && d == 0x80 && ((0x80 <= e && e <= 0x8A) || e == 0xA8 || e == 0xA9 || e
            == 0xAF) {
            return 3;
        }
        if c == 0xE2 && d == 0x81 && e == 0x9F {
            return 3;
        }
        if c == 0xE3 && d == 0x80 && e == 0x80 {
            return 3;
        }
    }
    0
}

/// Where the white space ends that starts at `at`.
fn skip_space(text: &[u8], at: usize) -> (r: usize)
    requires
        at <= text@.len(),
    ensures
        r == after_space(text@, at as int),
        at <= r <= text@.len(),
{
    let n = text.len();
    let mut i = at;
    loop
        invariant
            n == text@.len(),
            at <= i <= text@.len(),
            after_space(text@, i as int) == after_space(text@, at as int),
        decreases text@.len() - i,
    {
        let step = space_at(text, i);
        if step == 0 {
            return i;
        }
        i = i + step;
    }
}

/// The number that the digits of `text` from `from` to `to` spell in base
/// `radix`, capped; `None` where they spell none.
fn digits(text: &[u8], from: usize, to: usize, radix: u64) -> (r: Option<u64>)
    requires
        from <= to <= text@.len(),
        radix == 10 || radix == 16,
    ensures
        match r {
            Some(n) => digits_value(text@.subrange(from as int, to as int), radix as nat) matches Some(
                value,
            ) && n == capped(value),
            None => digits_value(text@.subrange(from as int, to as int), radix as nat) is None,
        },
{
    if from == to {
        return None;
    }
    let mut value: u64 = 0;
    let mut i = from;
    while i < to
        invariant
            from <= i <= to <= text@.len(),
            radix == 10 || radix == 16,
            value <= NUMBER_CAP,
            i > from ==> (digits_value(
                text@.subrange(from as int, i as int),
                radix as nat,
            ) matches Some(so_far) && value == capped(so_far)),
            i == from ==> value == 0,
        decreases to - i,
    {
        let c = text[i];
        let digit: u64 = if 0x30 <= c && c <= 0x39 {
            (c - 0x30) as u64
        } else if radix == 16 && 0x61 <= c && c <= 0x66 {
            (c - 0x61 + 10) as u64
        } else if radix == 16 && 0x41 <= c && c <= 0x46 {
            (c - 0x41 + 10) as u64
        } else {
            proof {
                lemma_no_digit_no_number(text@.subrange(from as int, to as int), (i - from) as int, radix as nat);
            }
            return None;
        };
        proof {
            let upto = text@.subrange(from as int, i + 1);
            assert(upto.drop_last() =~= text@.subrange(from as int, i as int));
            assert(upto.last() == c);
            assert(value * radix + digit <= NUMBER_CAP * 16 + 15) by (nonlinear_arith)
                requires
                    value <= NUMBER_CAP,
                    radix <= 16,
                    digit <= 15,
            ;
            if i > from {
                let so_far = digits_value(text@.subrange(from as int, i as int), radix as nat)->Some_0;
                assert(so_far > NUMBER_CAP ==> so_far * radix + digit > NUMBER_CAP)
                    by (nonlinear_arith)
                    requires
                        radix >= 10,
                ;
            }
        }
        let next = value * radix + digit;
        value = if next > NUMBER_CAP {
            NUMBER_CAP
        } else {
            next
        };
        i = i + 1;
    }
    assert(text@.subrange(from as int, to as int) =~= text@.subrange(from as int, i as int));
    Some(value)
}

/// A text with something else than a digit in it spells no number.
proof fn lemma_no_digit_no_number(digits: Seq<u8>, at: int, radix: nat)
    requires
        0 <= at < digits.len(),
        digit_value(digits[at], radix) is None,
    ensures
        digits_value(digits, radix) is None,
    decreases digits.len(),
{
    if digits.len() > 1 && at < digits.len() - 1 {
        lemma_no_digit_no_number(digits.drop_last(), at, radix);
    }
}

/// The number that `text` spells from `from` to `to`, capped; `None` where
/// it spells none.
fn number(text: &[u8], from: usize, to: usize) -> (r: Option<u64>)
    requires
        from <= to <= text@.len(),
    ensures
        match r {
            Some(n) => number_value(text@.subrange(from as int, to as int)) matches Some(value)
                && n == capped(value),
            None => number_value(text@.subrange(from as int, to as int)) is None,
        },
{
    let ghost part = text@.subrange(from as int, to as int);
    if to - from > 2 && text[from] == 0x30 && text[from + 1] == 0x78 {
        assert(part.skip(2) =~= text@.subrange(from + 2, to as int));
        digits(text, from + 2, to, 16)
    } else {
        digits(text, from, to, 10)
    }
}

/// The place of the first `-` in `text` from `from` on, no further than
/// its end.
fn find_dash(text: &[u8], from: usize) -> (r: usize)
    requires
        from <= text@.len(),
    ensures
        r == dash_from(text@, from as int),
        from <= r <= text@.len(),
{
    let mut i = from;
    while i < text.len() && text[i] != 0x2D
        invariant
            from <= i <= text@.len(),
            dash_from(text@, i as int) == dash_from(text@, from as int),
        decreases text@.len() - i,
    {
        i = i + 1;
    }
    i
}

/// The number that `text` spells from `start` to its end, if it is no
/// larger than `limit`.
fn bounded(text: &[u8], start: usize, limit: u64) -> (r: Result<u64, TagSyntaxError>)
    requires
        start <= text@.len(),
        limit < NUMBER_CAP,
    ensures
        match r {
            Ok(n) => bounded_number(text@.skip(start as int), limit as nat) == Ok::<
                nat,
                TagSyntaxError,
            >(n as nat),
            Err(e) => bounded_number(text@.skip(start as int), limit as nat) == Err::<
                nat,
                TagSyntaxError,
            >(e),
        },
{
    assert(text@.subrange(start as int, text@.len() as int) =~= text@.skip(start as int));
    match number(text, start, text.len()) {
        None => Err(TagSyntaxError::InvalidSyntax),
        Some(value) => if value <= limit {
            Ok(value)
        } else {
            Err(TagSyntaxError::NumberOutOfRange)
        },
    }
}

/// The fully qualified tag that `text` spells from `start` to its end.
fn parse_full(text: &[u8], start: usize) -> (r: Result<TagValue, TagSyntaxError>)
    requires
        start <= text@.len(),
    ensures
        r == full_tag(text@.skip(start as int)),
{
    let n = text.len();
    let ghost arg = text@.skip(start as int);
    let first = find_dash(text, start);
    proof {
        lemma_dash_in_part(text@, start as int, start as int);
    }
    if first >= n {
        return match bounded(text, start, 0xFFFF_FFFF) {
            Ok(value) => Ok(TagValue::Full { vendor_id: 0, profile_id: 0, tag: value as u32 }),
            Err(e) => Err(e),
        };
    }
    let second = find_dash(text, first + 1);
    proof {
        lemma_dash_in_part(text@, start as int, first + 1);
    }
    if second >= n {
        return Err(TagSyntaxError::InvalidSyntax);
    }
    proof {
        assert(arg.subrange(0, first - start) =~= text@.subrange(start as int, first as int));
        assert(arg.subrange(first - start + 1, second - start) =~= text@.subrange(
            first + 1,
            second as int,
        ));
        assert(arg.subrange(second - start + 1, arg.len() as int) =~= text@.subrange(
            second + 1,
            n as int,
        ));
    }
    let vendor = number(text, start, first);
    let profile = number(text, first + 1, second);
    let last = number(text, second + 1, n);
    match (vendor, profile, last) {
        (Some(vendor), Some(profile), Some(last)) => if vendor <= 0xFFFF && profile <= 0xFFFF
            && last <= 0xFFFF_FFFF {
            Ok(
                TagValue::Full {
                    vendor_id: vendor as u16,
                    profile_id: profile as u16,
                    tag: last as u32,
                },
            )
        } else {
            Err(TagSyntaxError::NumberOutOfRange)
        },
        _ => Err(TagSyntaxError::InvalidSyntax),
    }
}

/// Whether `text` is the word `anonymous`, in upper or lower case.
fn is_anonymous(text: &[u8]) -> (r: bool)
    ensures
        r == (text@.len() == 9 && starts_with_word(text@, word_anonymous())),
{
    let word = [0x61u8, 0x6E, 0x6F, 0x6E, 0x79, 0x6D, 0x6F, 0x75, 0x73];
    assert(word@ =~= word_anonymous());
    text.len() == 9 && has_word(text, word.as_slice())
}

/// Whether `text` starts with the word `context:`.
fn is_context(text: &[u8]) -> (r: bool)
    ensures
        r == starts_with_word(text@, word_context()),
{
    let word = [0x63u8, 0x6F, 0x6E, 0x74, 0x65, 0x78, 0x74, 0x3A];
    assert(word@ =~= word_context());
    has_word(text, word.as_slice())
}

/// Whether `text` starts with the word `implicit:`.
fn is_implicit(text: &[u8]) -> (r: bool)
    ensures
        r == starts_with_word(text@, word_implicit()),
{
    let word = [0x69u8, 0x6D, 0x70, 0x6C, 0x69, 0x63, 0x69, 0x74, 0x3A];
    assert(word@ =~= word_implicit());
    has_word(text, word.as_slice())
}

/// Whether `text` starts with the word `full:`.
fn is_full(text: &[u8]) -> (r: bool)
    ensures
        r == starts_with_word(text@, word_full()),
{
    let word = [0x66u8, 0x75, 0x6C, 0x6C, 0x3A];
    assert(word@ =~= word_full());
    has_word(text, word.as_slice())
}

/// The tag that `tag` spells. Each number must fit its place: 255 for a
/// context tag, 65535 for a vendor or profile id, 2^32 - 1 for the rest.
pub fn parse_tag_value(tag: &str) -> (r: Result<TagValue, TagSyntaxError>)
    ensures
        r == tag_of(tag.spec_bytes()),
{
    let text = tag.as_bytes();
    if is_anonymous(text) {
        Ok(TagValue::Anonymous)
    } else if is_context(text) {
        let start = skip_space(text, 8);
        match bounded(text, start, 0xFF) {
            Ok(value) => Ok(TagValue::ContextSpecific { tag: value as u8 }),
            Err(e) => Err(e),
        }
    } else if is_implicit(text) {
        let start = skip_space(text, 9);
        match bounded(text, start, 0xFFFF_FFFF) {
            Ok(value) => Ok(TagValue::Implicit { tag: value as u32 }),
            Err(e) => Err(e),
        }
    } else if is_full(text) {
        let start = skip_space(text, 5);
        parse_full(text, start)
    } else {
        Err(TagSyntaxError::InvalidSyntax)
    }
}

/// The first `-` of a part of a text is where it is in the whole text.
proof fn lemma_dash_in_part(text: Seq<u8>, start: int, from: int)
    requires
        0 <= start <= from <= text.len(),
    ensures
        dash_from(text.skip(start), from - start) == dash_from(text, from) - start,
    decreases text.len() - from,
{
    if from < text.len() && text[from] != 0x2D {
        lemma_dash_in_part(text, start, from + 1);
    }
}

} // verus!
