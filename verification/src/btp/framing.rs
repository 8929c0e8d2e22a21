//! BTP frames: the flags byte, the header of a data packet, and a buffer in
//! which frames are put together.

use crate::endian::bytes16;
use vstd::prelude::*;

verus! {

/// Why bytes are not the frame or payload that was expected.
#[derive(Debug, Clone, Copy, PartialEq, Eq, Structural)]
pub enum FrameError {
    /// The bytes end before the fixed part does.
    Truncated,
    /// The length is not the one that the frame must have.
    InvalidLength,
    /// A flags byte has a bit set that has no meaning, or is not the one
    /// that the frame must carry.
    InvalidFlags,
    /// The frame is a management or handshake frame, not a data packet.
    ManagementFrame,
    /// The opcode is not the one that the frame must carry.
    InvalidOpcode,
    /// The protocol version is not one that is understood.
    InvalidVersion,
}

/// The flags byte at the start of a BTP frame.
#[derive(Debug, Clone, Copy, PartialEq, Eq, Structural)]
pub struct HeaderFlags {
    pub bits: u8,
}

impl HeaderFlags {
    pub const SEGMENT_BEGIN: u8 = 0x01;

    pub const SEGMENT_END: u8 = 0x04;

    pub const CONTAINS_ACK: u8 = 0x08;

    pub const MANAGEMENT_MESSAGE: u8 = 0x20;

    pub const HANDSHAKE_MESSAGE: u8 = 0x40;

    /// Handshake, management, segment begin and segment end together.
    pub const HANDSHAKE_REQUEST: u8 = 0x65;

    /// Handshake, management, segment begin and segment end together.
    pub const HANDSHAKE_RESPONSE: u8 = 0x65;

    /// The bits that have no meaning.
    pub const UNKNOWN: u8 = 0x92;

    /// Whether `bits` sets only bits that have a meaning.
    pub open spec fn known(bits: u8) -> bool {
        bits & Self::UNKNOWN == 0
    }

    /// No flag set.
    pub fn empty() -> (r: Self)
        ensures
            r.bits == 0,
    {
        HeaderFlags { bits: 0 }
    }

    /// The flags that `bits` sets, unless one of them has no meaning.
    pub fn from_bits(bits: u8) -> (r: Option<Self>)
        ensures
            r == if Self::known(bits) {
                Some(HeaderFlags { bits })
            } else {
                None
            },
    {
        if bits & Self::UNKNOWN == 0 {
            Some(HeaderFlags { bits })
        } else {
            None
        }
    }

    /// The flags as a byte.
    pub fn bits(&self) -> (r: u8)
        ensures
            r == self.bits,
    {
        self.bits
    }

    /// Whether every bit of `mask` is set.
    pub fn contains(&self, mask: u8) -> (r: bool)
        ensures
            r == (self.bits & mask == mask),
    {
        self.bits & mask == mask
    }

    /// Whether some bit of `mask` is set.
    pub fn intersects(&self, mask: u8) -> (r: bool)
        ensures
            r == (self.bits & mask != 0),
    {
        self.bits & mask != 0
    }

    /// Sets the bits of `mask`.
    pub fn insert(&mut self, mask: u8)
        ensures
            final(self).bits == old(self).bits | mask,
    {
        self.bits = self.bits | mask;
    }
}

/// The sequence number of a packet and the acknowledgement that it carries.
#[derive(Debug, Clone, Copy, PartialEq, Eq, Structural)]
pub struct PacketSequenceInfo {
    pub sequence_number: u8,
    pub ack_number: Option<u8>,
}

/// A data packet, with its payload borrowed from the frame.
#[derive(Debug, PartialEq)]
pub struct BtpDataPacket<'a> {
    pub flags: HeaderFlags,
    pub sequence_info: PacketSequenceInfo,
    pub payload: &'a [u8],
}

/// Whether a frame with flags `b0` carries an acknowledgement.
pub open spec fn ack_present(b0: u8) -> bool {
    b0 & HeaderFlags::CONTAINS_ACK == HeaderFlags::CONTAINS_ACK
}

/// Where the payload starts in a data packet with flags `b0`.
pub open spec fn payload_offset(b0: u8) -> nat {
    if ack_present(b0) {
        3
    } else {
        2
    }
}

/// Why the frame `b` is not a data packet; `None` where it is one.
pub open spec fn packet_failure(b: Seq<u8>) -> Option<FrameError> {
    if b.len() < 1 {
        Some(FrameError::Truncated)
    } else if !HeaderFlags::known(b[0]) {
        Some(FrameError::InvalidFlags)
    } else if b[0] & (HeaderFlags::MANAGEMENT_MESSAGE | HeaderFlags::HANDSHAKE_MESSAGE) != 0 {
        Some(FrameError::ManagementFrame)
    } else if b.len() < payload_offset(b[0]) {
        Some(FrameError::Truncated)
    } else {
        None
    }
}

/// The sequence number and acknowledgement of the data packet `b`.
pub open spec fn sequence_info_at(b: Seq<u8>) -> PacketSequenceInfo {
    if ack_present(b[0]) {
        PacketSequenceInfo { sequence_number: b[2], ack_number: Some(b[1]) }
    } else {
        PacketSequenceInfo { sequence_number: b[1], ack_number: None }
    }
}

impl<'a> BtpDataPacket<'a> {
    /// Reads `buffer` as a data packet: the flags, the acknowledged number if
    /// the flags announce one, the sequence number, and the payload, which is
    /// all that follows. Management and handshake frames are refused.
    pub fn parse(buffer: &'a [u8]) -> (r: Result<BtpDataPacket<'a>, FrameError>)
        ensures
            match r {
                Ok(packet) => {
                    &&& packet_failure(buffer@) is None
                    &&& packet.flags.bits == buffer@[0]
                    &&& packet.sequence_info == sequence_info_at(buffer@)
                    &&& packet.payload@ == buffer@.skip(payload_offset(buffer@[0]) as int)
                },
                Err(e) => packet_failure(buffer@) == Some(e),
            },
    {
        if buffer.len() < 1 {
            return Err(FrameError::Truncated);
        }
        let flags = match HeaderFlags::from_bits(buffer[0]) {
            Some(f) => f,
            None => {
                return Err(FrameError::InvalidFlags);
            },
        };
        if flags.intersects(HeaderFlags::MANAGEMENT_MESSAGE | HeaderFlags::HANDSHAKE_MESSAGE) {
            return Err(FrameError::ManagementFrame);
        }
        if flags.contains(HeaderFlags::CONTAINS_ACK) {
            if buffer.len() < 3 {
                return Err(FrameError::Truncated);
            }
            let (_, payload) = buffer.split_at(3);
            Ok(
                BtpDataPacket {
                    flags,
                    sequence_info: PacketSequenceInfo {
                        ack_number: Some(buffer[1]),
                        sequence_number: buffer[2],
                    },
                    payload,
                },
            )
        } else {
            if buffer.len() < 2 {
                return Err(FrameError::Truncated);
            }
            let (_, payload) = buffer.split_at(2);
            Ok(
                BtpDataPacket {
                    flags,
                    sequence_info: PacketSequenceInfo {
                        ack_number: None,
                        sequence_number: buffer[1],
                    },
                    payload,
                },
            )
        }
    }
}

/// Something that holds the bytes of a frame.
pub trait BtpBuffer {
    /// The bytes of the frame.
    spec fn bytes(&self) -> Seq<u8>;

    /// The bytes of the frame.
    fn buffer(&self) -> (r: &[u8])
        ensures
            r@ == self.bytes(),
    ;
}

/// `s`, with zeros behind it where it is shorter than `len`.
pub open spec fn padded(s: Seq<u8>, len: nat) -> Seq<u8> {
    if s.len() >= len {
        s
    } else {
        s + Seq::new((len - s.len()) as nat, |i: int| 0u8)
    }
}

/// `s` with `data` laid over it from `index` on; where `s` is too short,
/// zeros fill the gap.
pub open spec fn overlaid(s: Seq<u8>, index: nat, data: Seq<u8>) -> Seq<u8> {
    let p = padded(s, index + data.len());
    p.take(index as int) + data + p.skip((index + data.len()) as int)
}

/// A buffer that grows as values are set in it.
#[derive(Debug, Clone)]
pub struct ResizableMessageBuffer {
    pub data: Vec<u8>,
}

impl ResizableMessageBuffer {
    /// Makes the buffer at least `len` long, with zeros behind what it holds.
    pub fn ensure_length(&mut self, len: usize)
        ensures
            final(self).data@ == padded(old(self).data@, len as nat),
    {
        if self.data.len() < len {
            self.data.resize(len, 0);
            assert(self.data@ =~= padded(old(self).data@, len as nat));
        }
    }

    /// Sets the byte at `index`; the buffer grows as far as that takes.
    pub fn set_u8(&mut self, index: usize, value: u8)
        requires
            index < usize::MAX,
        ensures
            final(self).data@ == overlaid(old(self).data@, index as nat, seq![value]),
    {
        self.ensure_length(index + 1);
        self.data[index] = value;
        assert(self.data@ =~= overlaid(old(self).data@, index as nat, seq![value]));
    }

    /// Sets the two bytes at `index` to `value`, least significant first; the
    /// buffer grows as far as that takes.
    pub fn set_u16(&mut self, index: usize, value: u16)
        requires
            index + 1 < usize::MAX,
        ensures
            final(self).data@ == overlaid(old(self).data@, index as nat, bytes16(value)),
    {
        let h = ((value >> 8) & 0xFF) as u8;
        let l = (value & 0xFF) as u8;
        assert(((value >> 8) & 0xFF) == value / 0x100 && (value & 0xFF) == value % 0x100)
            by (bit_vector);
        self.set_u8(index + 1, h);
        self.set_u8(index, l);
        assert(self.data@ =~= overlaid(old(self).data@, index as nat, bytes16(value)));
    }

    /// Lays `buffer` over the bytes from `index` on; the buffer grows as far
    /// as that takes.
    pub fn set_at(&mut self, index: usize, buffer: &[u8])
        requires
            index + buffer@.len() <= usize::MAX,
        ensures
            final(self).data@ == overlaid(old(self).data@, index as nat, buffer@),
    {
        self.ensure_length(index + buffer.len());
        let ghost p = self.data@;
        let mut i: usize = 0;
        while i < buffer.len()
            invariant
                i <= buffer@.len(),
                index + buffer@.len() <= p.len(),
                index + buffer@.len() <= usize::MAX,
                self.data@.len() == p.len(),
                self.data@.take(index as int) == p.take(index as int),
                self.data@.subrange(index as int, index + i) == buffer@.take(i as int),
                self.data@.skip(index + i) == p.skip(index + i),
            decreases buffer@.len() - i,
        {
            let ghost prev = self.data@;
            self.data[index + i] = buffer[i];
            proof {
                assert(self.data@.take(index as int) =~= prev.take(index as int));
                assert(self.data@.subrange(index as int, index + i + 1) =~= prev.subrange(
                    index as int,
                    index + i,
                ).push(buffer@[i as int]));
                assert(buffer@.take(i + 1) =~= buffer@.take(i as int).push(buffer@[i as int]));
                assert(self.data@.skip(index + i + 1) =~= prev.skip(index + i).skip(1));
                assert(p.skip(index + i + 1) =~= p.skip(index + i).skip(1));
            }
            i = i + 1;
        }
        proof {
            assert(buffer@.take(buffer@.len() as int) =~= buffer@);
            assert(self.data@ =~= self.data@.take(index as int) + self.data@.subrange(
                index as int,
                index + buffer@.len(),
            ) + self.data@.skip(index + buffer@.len()));
        }
    }

    /// The number of bytes that the buffer holds.
    pub fn len(&self) -> (n: usize)
        ensures
            n == self.data@.len(),
    {
        self.data.len()
    }
}

impl Default for ResizableMessageBuffer {
    /// An empty buffer.
    fn default() -> (r: Self)
        ensures
            r.data@ == Seq::<u8>::empty(),
    {
        ResizableMessageBuffer { data: Vec::new() }
    }
}

impl BtpBuffer for ResizableMessageBuffer {
    open spec fn bytes(&self) -> Seq<u8> {
        self.data@
    }

    fn buffer(&self) -> (r: &[u8]) {
        self.data.as_slice()
    }
}

} // verus!
