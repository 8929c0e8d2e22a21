//! The BTP handshake: the request that a client sends, and the response
//! that selects the segment size and the window size.

use crate::btp::framing::{BtpBuffer, FrameError, HeaderFlags};
use crate::endian::{bytes16, le16, write_u16};
use vstd::prelude::*;

verus! {

/// The one protocol version that is spoken.
pub const BTP_PROTOCOL_VERSION: u8 = 0x04;

/// The opcode of the handshake among the management frames.
pub const MANAGEMENT_OPCODE: u8 = 0x6C;

/// The bytes of a handshake request that offers version 4 alone and asks
/// for the given segment size and window size.
pub open spec fn request_bytes(segment_size: u16, window_size: u8) -> Seq<u8> {
    seq![HeaderFlags::HANDSHAKE_REQUEST, MANAGEMENT_OPCODE, BTP_PROTOCOL_VERSION, 0u8, 0u8, 0u8]
        + bytes16(segment_size) + seq![window_size]
}

/// A handshake request.
#[derive(Debug, Clone, Copy)]
pub struct Request {
    pub buffer: [u8; 9],
}

impl Default for Request {
    /// A request for the smallest segment size, 20, and a window of 4.
    fn default() -> (r: Self)
        ensures
            r.bytes() == request_bytes(20, 4),
    {
        let r = Request {
            buffer: [
                HeaderFlags::HANDSHAKE_REQUEST,
                MANAGEMENT_OPCODE,
                BTP_PROTOCOL_VERSION,
                0,
                0,
                0,
                20,
                0,
                4,
            ],
        };
        assert(r.buffer@ =~= request_bytes(20, 4));
        r
    }
}

impl Request {
    /// Asks for segments of `size` bytes.
    pub fn set_segment_size(&mut self, size: u16)
        ensures
            final(self).bytes() == old(self).bytes().take(6) + bytes16(size) + old(
                self,
            ).bytes().skip(8),
    {
        let mut encoded = [0u8;2];
        write_u16(&mut encoded, size);
        self.buffer[6] = encoded[0];
        self.buffer[7] = encoded[1];
        assert(self.buffer@ =~= old(self).buffer@.take(6) + bytes16(size) + old(
            self,
        ).buffer@.skip(8));
    }

    /// Asks for a window of `size` packets.
    pub fn set_window_size(&mut self, size: u8)
        ensures
            final(self).bytes() == old(self).bytes().update(8, size),
    {
        self.buffer[8] = size;
    }
}

impl BtpBuffer for Request {
    open spec fn bytes(&self) -> Seq<u8> {
        self.buffer@
    }

    fn buffer(&self) -> (r: &[u8]) {
        self.buffer.as_slice()
    }
}

/// A request that was set up for a segment size and a window size holds the
/// bytes of exactly that request, whichever was set first.
pub proof fn lemma_request_set_up(start: Seq<u8>, segment_size: u16, window_size: u8)
    requires
        start == request_bytes(20, 4),
    ensures
        (start.take(6) + bytes16(segment_size) + start.skip(8)).update(8, window_size)
            == request_bytes(segment_size, window_size),
        start.update(8, window_size).take(6) + bytes16(segment_size) + start.update(
            8,
            window_size,
        ).skip(8) == request_bytes(segment_size, window_size),
{
    assert((start.take(6) + bytes16(segment_size) + start.skip(8)).update(8, window_size)
        =~= request_bytes(segment_size, window_size));
    assert(start.update(8, window_size).take(6) + bytes16(segment_size) + start.update(
        8,
        window_size,
    ).skip(8) =~= request_bytes(segment_size, window_size));
}

/// What the peer selected in its answer to a handshake request.
#[derive(Debug, Clone, Copy, PartialEq, Eq, Structural)]
pub struct Response {
    pub selected_segment_size: u16,
    pub selected_window_size: u8,
}

impl Default for Response {
    fn default() -> (r: Self)
        ensures
            r == (Response { selected_segment_size: 0, selected_window_size: 0 }),
    {
        Response { selected_segment_size: 0, selected_window_size: 0 }
    }
}

/// Why `b` is not a handshake response; `None` where it is one. The length
/// is checked first, then the flags, the opcode and the version.
pub open spec fn response_failure(b: Seq<u8>) -> Option<FrameError> {
    if b.len() != 6 {
        Some(FrameError::InvalidLength)
    } else if b[0] != HeaderFlags::HANDSHAKE_RESPONSE {
        Some(FrameError::InvalidFlags)
    } else if b[1] != MANAGEMENT_OPCODE {
        Some(FrameError::InvalidOpcode)
    } else if b[2] != BTP_PROTOCOL_VERSION {
        Some(FrameError::InvalidVersion)
    } else {
        None
    }
}

impl Response {
    /// Reads a handshake response: exactly six bytes, which are the flags of
    /// a handshake, the handshake opcode, version 4, the segment size as two
    /// bytes, least significant first, and the window size.
    pub fn parse(buffer: &[u8]) -> (r: Result<Response, FrameError>)
        ensures
            r == match response_failure(buffer@) {
                Some(e) => Err::<Response, FrameError>(e),
                None => Ok::<Response, FrameError>(
                    Response {
                        selected_segment_size: le16(buffer@.skip(3)) as u16,
                        selected_window_size: buffer@[5],
                    },
                ),
            },
    {
        if buffer.len() != 6 {
            return Err(FrameError::InvalidLength);
        }
        if buffer[0] != HeaderFlags::HANDSHAKE_RESPONSE {
            return Err(FrameError::InvalidFlags);
        }
        if buffer[1] != MANAGEMENT_OPCODE {
            return Err(FrameError::InvalidOpcode);
        }
        if buffer[2] != BTP_PROTOCOL_VERSION {
            return Err(FrameError::InvalidVersion);
        }
        let segment_l = buffer[3];
        let segment_h = buffer[4];
        let size = ((segment_h as u16) << 8) | (segment_l as u16);
        assert(size == segment_l + 0x100 * segment_h) by (bit_vector)
            requires
                size == ((segment_h as u16) << 8) | (segment_l as u16),
        ;
        Ok(Response { selected_segment_size: size, selected_window_size: buffer[5] })
    }
}

} // verus!
