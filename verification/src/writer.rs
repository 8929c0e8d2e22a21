//! Writing little-endian values into a destination of bounded size.

use crate::endian::{bytes16, bytes32, bytes64, write_u16, write_u32, write_u64};
use vstd::prelude::*;

verus! {

/// Failure of a write into a destination.
#[derive(Debug, PartialEq, Eq, Clone, Copy)]
pub enum EndianWriteError {
    /// The destination cannot take the data: `missing` more bytes of room
    /// would have been needed.
    InsufficientSpace { missing: usize },
}

/// What a write of `data` does to a destination that had taken `before` and
/// had `room` bytes left: it takes all of `data`, or fails, takes nothing and
/// says how much room was missing.
pub open spec fn write_moves(
    before: Seq<u8>,
    room: nat,
    data: Seq<u8>,
    after: Seq<u8>,
    room_after: nat,
    r: Result<(), EndianWriteError>,
) -> bool {
    if data.len() <= room {
        r is Ok && after == before + data && room_after == room - data.len()
    } else {
        &&& r == Err::<(), EndianWriteError>(
            EndianWriteError::InsufficientSpace { missing: (data.len() - room) as usize },
        )
        &&& after == before
        &&& room_after == room
    }
}

/// What writing `fields` one after the other does to a destination that had
/// taken `before` and had `room` bytes left: each field is taken whole while
/// it fits, and the first that does not fit ends the writing with its error.
pub open spec fn writes_in_turn(
    fields: Seq<Seq<u8>>,
    before: Seq<u8>,
    room: nat,
    after: Seq<u8>,
    room_after: nat,
    r: Result<(), EndianWriteError>,
) -> bool
    decreases fields.len(),
{
    if fields.len() == 0 {
        r is Ok && after == before && room_after == room
    } else if fields[0].len() > room {
        write_moves(before, room, fields[0], after, room_after, r)
    } else {
        writes_in_turn(
            fields.skip(1),
            before + fields[0],
            (room - fields[0].len()) as nat,
            after,
            room_after,
            r,
        )
    }
}

/// The fields one after the other, as one run of bytes.
pub open spec fn joined(fields: Seq<Seq<u8>>) -> Seq<u8>
    decreases fields.len(),
{
    if fields.len() == 0 {
        Seq::empty()
    } else {
        fields[0] + joined(fields.skip(1))
    }
}

/// Writing fields in turn succeeds exactly when all of them fit together, and
/// then the destination has taken them all.
pub proof fn lemma_writes_in_turn_all(
    fields: Seq<Seq<u8>>,
    before: Seq<u8>,
    room: nat,
    after: Seq<u8>,
    room_after: nat,
    r: Result<(), EndianWriteError>,
)
    requires
        writes_in_turn(fields, before, room, after, room_after, r),
    ensures
        r is Ok <==> joined(fields).len() <= room,
        r is Ok ==> after == before + joined(fields) && room_after == room - joined(fields).len(),
    decreases fields.len(),
{
    if fields.len() == 0 {
        assert(before + joined(fields) =~= before);
    } else if fields[0].len() > room {
    } else {
        lemma_writes_in_turn_all(
            fields.skip(1),
            before + fields[0],
            (room - fields[0].len()) as nat,
            after,
            room_after,
            r,
        );
        assert(before + fields[0] + joined(fields.skip(1)) =~= before + joined(fields));
    }
}

/// A destination for bytes, with writes of little-endian integers.
pub trait LittleEndianWriter {
    /// Everything the destination has taken so far, in order.
    spec fn output(&self) -> Seq<u8>;

    /// The number of bytes that the destination can still take.
    spec fn room(&self) -> nat;

    /// Writes all of `data`, or nothing if there is not enough room.
    fn write(&mut self, data: &[u8]) -> (r: Result<(), EndianWriteError>)
        ensures
            write_moves(
                old(self).output(),
                old(self).room(),
                data@,
                final(self).output(),
                final(self).room(),
                r,
            ),
    ;

    /// Writes one byte.
    fn write_le_u8(&mut self, data: u8) -> (r: Result<(), EndianWriteError>)
        ensures
            write_moves(
                old(self).output(),
                old(self).room(),
                seq![data],
                final(self).output(),
                final(self).room(),
                r,
            ),
    {
        let buff = [data];
        assert(buff@ =~= seq![data]);
        self.write(buff.as_slice())
    }

    /// Writes the two bytes of `data`, least significant first.
    fn write_le_u16(&mut self, data: u16) -> (r: Result<(), EndianWriteError>)
        ensures
            write_moves(
                old(self).output(),
                old(self).room(),
                bytes16(data),
                final(self).output(),
                final(self).room(),
                r,
            ),
    {
        let mut buff = [0u8;2];
        write_u16(&mut buff, data);
        assert(buff@ =~= bytes16(data));
        self.write(buff.as_slice())
    }

    /// Writes the four bytes of `data`, least significant first.
    fn write_le_u32(&mut self, data: u32) -> (r: Result<(), EndianWriteError>)
        ensures
            write_moves(
                old(self).output(),
                old(self).room(),
                bytes32(data),
                final(self).output(),
                final(self).room(),
                r,
            ),
    {
        let mut buff = [0u8;4];
        write_u32(&mut buff, data);
        assert(buff@ =~= bytes32(data));
        self.write(buff.as_slice())
    }

    /// Writes the eight bytes of `data`, least significant first.
    fn write_le_u64(&mut self, data: u64) -> (r: Result<(), EndianWriteError>)
        ensures
            write_moves(
                old(self).output(),
                old(self).room(),
                bytes64(data),
                final(self).output(),
                final(self).room(),
                r,
            ),
    {
        let mut buff = [0u8;8];
        write_u64(&mut buff, data);
        assert(buff@ =~= bytes64(data));
        self.write(buff.as_slice())
    }
}

/// A writer that fills a slice from its start.
pub struct SliceLittleEndianWriter<'a> {
    /// The slice that is being filled.
    pub buffer: &'a mut [u8],
    /// The number of bytes written so far.
    pub offset: usize,
}

impl<'a> SliceLittleEndianWriter<'a> {
    /// A writer that has written nothing yet into `buffer`.
    pub fn new(buffer: &'a mut [u8]) -> (r: Self)
        ensures
            r.buffer@ == old(buffer)@,
            final(r.buffer)@ == final(buffer)@,
            r.offset == 0,
            r.output() == Seq::<u8>::empty(),
            r.room() == old(buffer)@.len(),
    {
        let r = Self { buffer, offset: 0 };
        assert(r.output() =~= Seq::<u8>::empty());
        r
    }

    /// The number of bytes written so far.
    pub fn written(&self) -> (n: usize)
        ensures
            n == self.offset,
    {
        self.offset
    }
}

impl<'a> LittleEndianWriter for SliceLittleEndianWriter<'a> {
    open spec fn output(&self) -> Seq<u8> {
        if self.offset <= self.buffer@.len() {
            self.buffer@.take(self.offset as int)
        } else {
            self.buffer@
        }
    }

    open spec fn room(&self) -> nat {
        if self.offset <= self.buffer@.len() {
            (self.buffer@.len() - self.offset) as nat
        } else {
            0
        }
    }

    /// Beyond what the trait promises: the slice keeps its length, what lies
    /// behind the written bytes is untouched, and the writer still fills the
    /// slice it was made for.
    fn write(&mut self, data: &[u8]) -> (r: Result<(), EndianWriteError>)
        ensures
            final(self).buffer@.len() == old(self).buffer@.len(),
            final(self).buffer@.skip(final(self).offset as int) == old(self).buffer@.skip(
                final(self).offset as int,
            ),
            final(self).offset == if r is Ok {
                old(self).offset + data@.len()
            } else {
                old(self).offset as int
            },
            final(final(self).buffer)@ == final(old(self).buffer)@,
    {
        let len = self.buffer.len();
        let room = if self.offset <= len {
            len - self.offset
        } else {
            0
        };
        if data.len() > room {
            return Err(EndianWriteError::InsufficientSpace { missing: data.len() - room });
        }
        if data.len() == 0 {
            assert(self.output() + data@ =~= self.output());
            return Ok(());
        }
        let start = self.offset;
        let mut i: usize = 0;
        assert(self.buffer@.subrange(start as int, start + 0) =~= data@.take(0));
        while i < data.len()
            invariant
                i <= data@.len(),
                start + data@.len() <= len,
                self.offset == start,
                self.buffer@.len() == len,
                start == old(self).offset,
                len == old(self).buffer@.len(),
                self.buffer@.take(start as int) == old(self).buffer@.take(start as int),
                self.buffer@.subrange(start as int, start + i) == data@.take(i as int),
                self.buffer@.skip(start + i) == old(self).buffer@.skip(start + i),
                final(self.buffer)@ == final(old(self).buffer)@,
            decreases data@.len() - i,
        {
            let ghost prev = self.buffer@;
            self.buffer[start + i] = data[i];
            proof {
                assert(self.buffer@ == prev.update(start + i, data@[i as int]));
                assert(self.buffer@.take(start as int) =~= prev.take(start as int));
                assert(self.buffer@.subrange(start as int, start + i + 1) =~= prev.subrange(
                    start as int,
                    start + i,
                ).push(data@[i as int]));
                assert(data@.take(i + 1) =~= data@.take(i as int).push(data@[i as int]));
                assert(self.buffer@.skip(start + i + 1) =~= prev.skip(start + i).skip(1));
                assert(old(self).buffer@.skip(start + i + 1) =~= old(self).buffer@.skip(
                    start + i,
                ).skip(1));
            }
            i = i + 1;
        }
        self.offset = start + data.len();
        proof {
            assert(data@.take(data@.len() as int) =~= data@);
            assert(self.buffer@.take(self.offset as int) =~= self.buffer@.take(start as int)
                + self.buffer@.subrange(start as int, start + data@.len()));
        }
        Ok(())
    }
}

/// A writer that keeps nothing of what it is given and only counts the
/// bytes, to learn how large a destination has to be.
pub struct SpaceEstimator {
    /// The number of bytes taken so far.
    pub offset: usize,
    /// What was taken, for the contracts only.
    pub taken: Ghost<Seq<u8>>,
}

impl SpaceEstimator {
    /// The number of bytes written so far.
    pub fn written(&self) -> (n: usize)
        ensures
            n == self.offset,
    {
        self.offset
    }

    /// The count agrees with what was taken.
    pub open spec fn wf(&self) -> bool {
        self.taken@.len() == self.offset
    }
}

impl Default for SpaceEstimator {
    /// An estimator that has taken nothing.
    fn default() -> (r: Self)
        ensures
            r.offset == 0,
            r.output() == Seq::<u8>::empty(),
            r.wf(),
    {
        SpaceEstimator { offset: 0, taken: Ghost(Seq::empty()) }
    }
}

impl LittleEndianWriter for SpaceEstimator {
    open spec fn output(&self) -> Seq<u8> {
        self.taken@
    }

    open spec fn room(&self) -> nat {
        (usize::MAX - self.offset) as nat
    }

    /// Beyond what the trait promises: the count grows by the length of what
    /// was taken.
    fn write(&mut self, data: &[u8]) -> (r: Result<(), EndianWriteError>)
        ensures
            final(self).offset == if r is Ok {
                old(self).offset + data@.len()
            } else {
                old(self).offset as int
            },
            old(self).wf() ==> final(self).wf(),
    {
        let room = usize::MAX - self.offset;
        if data.len() > room {
            return Err(EndianWriteError::InsufficientSpace { missing: data.len() - room });
        }
        self.offset = self.offset + data.len();
        self.taken = Ghost(self.taken@ + data@);
        Ok(())
    }
}

} // verus!
