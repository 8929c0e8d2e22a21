//! Reading little-endian values from a forward-only source of bytes.

use crate::endian::{le16, le32, le64, read_u16, read_u32, read_u64};
use vstd::prelude::*;

verus! {

/// Failure of a read from a byte source.
#[derive(Debug, PartialEq, Eq, Clone, Copy)]
pub enum EndianReadError {
    /// The source holds fewer bytes than were asked for.
    InsufficientData,
}

/// What a read of `count` bytes does to a source that held `before`: it takes
/// the first `count` bytes out, or fails and takes nothing.
pub open spec fn read_moves(before: Seq<u8>, count: nat, after: Seq<u8>, failed: bool) -> bool {
    if count <= before.len() {
        !failed && after == before.skip(count as int)
    } else {
        failed && after == before
    }
}

/// A forward-only source of bytes.
pub trait BytesSource {
    /// The bytes that have not been read yet.
    spec fn remaining(&self) -> Seq<u8>;

    /// Takes the next `count` bytes out of the source. A source that holds
    /// fewer is left as it was.
    fn read(&mut self, count: usize) -> (r: Result<&[u8], EndianReadError>)
        ensures
            read_moves(old(self).remaining(), count as nat, final(self).remaining(), r is Err),
            r is Ok ==> r->Ok_0@ == old(self).remaining().take(count as int),
    ;
}

impl<'a> BytesSource for &'a [u8] {
    open spec fn remaining(&self) -> Seq<u8> {
        (*self)@
    }

    fn read(&mut self, count: usize) -> (r: Result<&[u8], EndianReadError>) {
        let data: &'a [u8] = *self;
        if count <= data.len() {
            let (head, tail) = data.split_at(count);
            *self = tail;
            Ok(head)
        } else {
            Err(EndianReadError::InsufficientData)
        }
    }
}

impl<'a> BytesSource for &'a mut [u8] {
    open spec fn remaining(&self) -> Seq<u8> {
        (*self)@
    }

    fn read(&mut self, count: usize) -> (r: Result<&[u8], EndianReadError>) {
        if count <= self.len() {
            let mut data: &'a mut [u8] = &mut [];
            core::mem::swap(self, &mut data);
            let (head, tail) = data.split_at_mut(count);
            *self = tail;
            Ok(head)
        } else {
            Err(EndianReadError::InsufficientData)
        }
    }
}

/// Reads of little-endian integers, of runs of bytes, and skips.
pub trait LittleEndianReader {
    /// The bytes that have not been read yet.
    spec fn unread(&self) -> Seq<u8>;

    /// Reads one byte.
    fn read_le_u8(&mut self) -> (r: Result<u8, EndianReadError>)
        ensures
            read_moves(old(self).unread(), 1, final(self).unread(), r is Err),
            r is Ok ==> r->Ok_0 == old(self).unread()[0],
    ;

    /// Reads two bytes as a number, least significant byte first.
    fn read_le_u16(&mut self) -> (r: Result<u16, EndianReadError>)
        ensures
            read_moves(old(self).unread(), 2, final(self).unread(), r is Err),
            r is Ok ==> r->Ok_0 == le16(old(self).unread()),
    ;

    /// Reads four bytes as a number, least significant byte first.
    fn read_le_u32(&mut self) -> (r: Result<u32, EndianReadError>)
        ensures
            read_moves(old(self).unread(), 4, final(self).unread(), r is Err),
            r is Ok ==> r->Ok_0 == le32(old(self).unread()),
    ;

    /// Reads eight bytes as a number, least significant byte first.
    fn read_le_u64(&mut self) -> (r: Result<u64, EndianReadError>)
        ensures
            read_moves(old(self).unread(), 8, final(self).unread(), r is Err),
            r is Ok ==> r->Ok_0 == le64(old(self).unread()),
    ;

    /// Takes the next `count` bytes out of the source.
    fn read(&mut self, count: usize) -> (r: Result<&[u8], EndianReadError>)
        ensures
            read_moves(old(self).unread(), count as nat, final(self).unread(), r is Err),
            r is Ok ==> r->Ok_0@ == old(self).unread().take(count as int),
    ;

    /// Passes over the next `count` bytes.
    fn skip(&mut self, count: usize) -> (r: Result<(), EndianReadError>)
        ensures
            read_moves(old(self).unread(), count as nat, final(self).unread(), r is Err),
    ;
}

impl<T: BytesSource> LittleEndianReader for T {
    open spec fn unread(&self) -> Seq<u8> {
        self.remaining()
    }

    fn read_le_u8(&mut self) -> (r: Result<u8, EndianReadError>) {
        match BytesSource::read(self, 1) {
            Ok(bytes) => Ok(bytes[0]),
            Err(e) => Err(e),
        }
    }

    fn read_le_u16(&mut self) -> (r: Result<u16, EndianReadError>) {
        match BytesSource::read(self, 2) {
            Ok(bytes) => Ok(read_u16(bytes)),
            Err(e) => Err(e),
        }
    }

    fn read_le_u32(&mut self) -> (r: Result<u32, EndianReadError>) {
        match BytesSource::read(self, 4) {
            Ok(bytes) => Ok(read_u32(bytes)),
            Err(e) => Err(e),
        }
    }

    fn read_le_u64(&mut self) -> (r: Result<u64, EndianReadError>) {
        match BytesSource::read(self, 8) {
            Ok(bytes) => Ok(read_u64(bytes)),
            Err(e) => Err(e),
        }
    }

    fn skip(&mut self, count: usize) -> (r: Result<(), EndianReadError>) {
        match BytesSource::read(self, count) {
            Ok(_) => Ok(()),
            Err(e) => Err(e),
        }
    }

    fn read(&mut self, count: usize) -> (r: Result<&[u8], EndianReadError>) {
        BytesSource::read(self, count)
    }
}

} // verus!
