//! Little-endian encodings of unsigned integers: what the bytes mean, the
//! calls that convert them, and the laws that tie the two directions together.

use byteorder::{ByteOrder, LittleEndian};
use vstd::prelude::*;

verus! {

/// The number that the first two bytes of `b` stand for, least significant first.
pub open spec fn le16(b: Seq<u8>) -> int {
    b[0] + 0x100 * b[1]
}

/// The number that the first four bytes of `b` stand for, least significant first.
pub open spec fn le32(b: Seq<u8>) -> int {
    b[0] + 0x100 * b[1] + 0x1_0000 * b[2] + 0x100_0000 * b[3]
}

/// The number that the first eight bytes of `b` stand for, least significant first.
pub open spec fn le64(b: Seq<u8>) -> int {
    b[0] + 0x100 * b[1] + 0x1_0000 * b[2] + 0x100_0000 * b[3] + 0x1_0000_0000 * b[4]
        + 0x100_0000_0000 * b[5] + 0x1_0000_0000_0000 * b[6] + 0x100_0000_0000_0000 * b[7]
}

/// The two bytes of `v`, least significant first.
pub open spec fn bytes16(v: u16) -> Seq<u8> {
    seq![(v % 0x100) as u8, (v / 0x100) as u8]
}

/// The four bytes of `v`, least significant first.
pub open spec fn bytes32(v: u32) -> Seq<u8> {
    seq![
        (v % 0x100) as u8,
        (v / 0x100 % 0x100) as u8,
        (v / 0x1_0000 % 0x100) as u8,
        (v / 0x100_0000) as u8,
    ]
}

/// The eight bytes of `v`, least significant first.
pub open spec fn bytes64(v: u64) -> Seq<u8> {
    seq![
        (v % 0x100) as u8,
        (v / 0x100 % 0x100) as u8,
        (v / 0x1_0000 % 0x100) as u8,
        (v / 0x100_0000 % 0x100) as u8,
        (v / 0x1_0000_0000 % 0x100) as u8,
        (v / 0x100_0000_0000 % 0x100) as u8,
        (v / 0x1_0000_0000_0000 % 0x100) as u8,
        (v / 0x100_0000_0000_0000) as u8,
    ]
}

/// Not verified: `byteorder::LittleEndian::read_u16`. It panics on fewer than
/// two bytes; otherwise it returns the number whose low byte is `buf[0]` and
/// whose high byte is `buf[1]`, whatever follows them.
#[verifier::external_body]
pub(crate) fn read_u16(buf: &[u8]) -> (r: u16)
    requires
        buf@.len() >= 2,
    ensures
        r == le16(buf@),
{
    LittleEndian::read_u16(buf)
}

/// Not verified: `byteorder::LittleEndian::read_u32`. It panics on fewer than
/// four bytes; otherwise it returns the number that the first four bytes
/// stand for, least significant first.
#[verifier::external_body]
pub(crate) fn read_u32(buf: &[u8]) -> (r: u32)
    requires
        buf@.len() >= 4,
    ensures
        r == le32(buf@),
{
    LittleEndian::read_u32(buf)
}

/// Not verified: `byteorder::LittleEndian::read_u64`. It panics on fewer than
/// eight bytes; otherwise it returns the number that the first eight bytes
/// stand for, least significant first.
#[verifier::external_body]
pub(crate) fn read_u64(buf: &[u8]) -> (r: u64)
    requires
        buf@.len() >= 8,
    ensures
        r == le64(buf@),
{
    LittleEndian::read_u64(buf)
}

/// Not verified: `byteorder::LittleEndian::write_u16`. It panics on fewer than
/// two bytes; otherwise it overwrites the first two bytes with those of `n`,
/// least significant first, and leaves the rest as it was.
#[verifier::external_body]
pub(crate) fn write_u16(buf: &mut [u8], n: u16)
    requires
        old(buf)@.len() >= 2,
    ensures
        final(buf)@ == bytes16(n) + old(buf)@.skip(2),
{
    LittleEndian::write_u16(buf, n)
}

/// Not verified: `byteorder::LittleEndian::write_u32`. It panics on fewer than
/// four bytes; otherwise it overwrites the first four bytes with those of `n`,
/// least significant first, and leaves the rest as it was.
#[verifier::external_body]
pub(crate) fn write_u32(buf: &mut [u8], n: u32)
    requires
        old(buf)@.len() >= 4,
    ensures
        final(buf)@ == bytes32(n) + old(buf)@.skip(4),
{
    LittleEndian::write_u32(buf, n)
}

/// Not verified: `byteorder::LittleEndian::write_u64`. It panics on fewer than
/// eight bytes; otherwise it overwrites the first eight bytes with those of
/// `n`, least significant first, and leaves the rest as it was.
#[verifier::external_body]
pub(crate) fn write_u64(buf: &mut [u8], n: u64)
    requires
        old(buf)@.len() >= 8,
    ensures
        final(buf)@ == bytes64(n) + old(buf)@.skip(8),
{
    LittleEndian::write_u64(buf, n)
}

/// A byte survives being written and read back.
pub proof fn lemma_read_written_8(v: u8)
    ensures
        seq![v].len() == 1,
        seq![v][0] == v,
{
}

/// A 16-bit value survives being written and read back.
pub proof fn lemma_read_written_16(v: u16)
    ensures
        bytes16(v).len() == 2,
        le16(bytes16(v)) == v,
{
}

/// A 32-bit value survives being written and read back.
pub proof fn lemma_read_written_32(v: u32)
    ensures
        bytes32(v).len() == 4,
        le32(bytes32(v)) == v,
{
}

/// A 64-bit value survives being written and read back.
pub proof fn lemma_read_written_64(v: u64)
    ensures
        bytes64(v).len() == 8,
        le64(bytes64(v)) == v,
{
    let q1 = v / 0x100;
    let q2 = q1 / 0x100;
    let q3 = q2 / 0x100;
    let q4 = q3 / 0x100;
    let q5 = q4 / 0x100;
    let q6 = q5 / 0x100;
    let q7 = q6 / 0x100;
    assert(v / 0x1_0000 == q2);
    assert(v / 0x100_0000 == q3);
    assert(v / 0x1_0000_0000 == q4);
    assert(v / 0x100_0000_0000 == q5);
    assert(v / 0x1_0000_0000_0000 == q6);
    assert(v / 0x100_0000_0000_0000 == q7);
    assert(q6 == q6 % 0x100 + 0x100 * q7);
    assert(q5 == q5 % 0x100 + 0x100 * q6);
    assert(q4 == q4 % 0x100 + 0x100 * q5);
    assert(q3 == q3 % 0x100 + 0x100 * q4);
    assert(q2 == q2 % 0x100 + 0x100 * q3);
    assert(q1 == q1 % 0x100 + 0x100 * q2);
    assert(v == v % 0x100 + 0x100 * q1);
}

/// Two bytes survive being read as a number and written again.
pub proof fn lemma_written_read_16(b: Seq<u8>)
    requires
        b.len() >= 2,
    ensures
        0 <= le16(b) <= u16::MAX,
        bytes16(le16(b) as u16) == b.take(2),
{
    assert(bytes16(le16(b) as u16) =~= b.take(2));
}

/// Four bytes survive being read as a number and written again.
pub proof fn lemma_written_read_32(b: Seq<u8>)
    requires
        b.len() >= 4,
    ensures
        0 <= le32(b) <= u32::MAX,
        bytes32(le32(b) as u32) == b.take(4),
{
    let n = le32(b);
    let t1 = b[1] + 0x100 * b[2] + 0x1_0000 * b[3];
    let t2 = b[2] + 0x100 * b[3];
    assert(n == b[0] + 0x100 * t1);
    assert(n / 0x100 == t1 && n % 0x100 == b[0]);
    assert(t1 == b[1] + 0x100 * t2);
    assert(n / 0x1_0000 == t2 && t1 % 0x100 == b[1]);
    assert(n / 0x100_0000 == b[3] && t2 % 0x100 == b[2]);
    assert(bytes32(n as u32) =~= b.take(4));
}

/// Eight bytes survive being read as a number and written again.
pub proof fn lemma_written_read_64(b: Seq<u8>)
    requires
        b.len() >= 8,
    ensures
        0 <= le64(b) <= u64::MAX,
        bytes64(le64(b) as u64) == b.take(8),
{
    let n = le64(b);
    let t7 = b[7] as int;
    let t6 = b[6] + 0x100 * t7;
    let t5 = b[5] + 0x100 * t6;
    let t4 = b[4] + 0x100 * t5;
    let t3 = b[3] + 0x100 * t4;
    let t2 = b[2] + 0x100 * t3;
    let t1 = b[1] + 0x100 * t2;
    assert(n == b[0] + 0x100 * t1);
    assert(n / 0x100 == t1 && n % 0x100 == b[0]);
    assert(t1 / 0x100 == t2 && t1 % 0x100 == b[1]);
    assert(t2 / 0x100 == t3 && t2 % 0x100 == b[2]);
    assert(t3 / 0x100 == t4 && t3 % 0x100 == b[3]);
    assert(t4 / 0x100 == t5 && t4 % 0x100 == b[4]);
    assert(t5 / 0x100 == t6 && t5 % 0x100 == b[5]);
    assert(t6 / 0x100 == t7 && t6 % 0x100 == b[6]);
    assert(n / 0x1_0000 == t2);
    assert(n / 0x100_0000 == t3);
    assert(n / 0x1_0000_0000 == t4);
    assert(n / 0x100_0000_0000 == t5);
    assert(n / 0x1_0000_0000_0000 == t6);
    assert(n / 0x100_0000_0000_0000 == t7);
    assert(0 <= n <= u64::MAX);
    assert(bytes64(n as u64) =~= b.take(8));
}

} // verus!
