//! The Matter message header: its layout on the wire, and the functions that
//! read and write it.
//!
//! | Offset | Size   | Field                                                    |
//! |--------|--------|----------------------------------------------------------|
//! | 0      | 1      | message flags: version, source present, destination kind |
//! | 1      | 2      | session id                                               |
//! | 3      | 1      | security flags                                           |
//! | 4      | 4      | counter                                                  |
//! | 8      | 0 or 8 | source node id                                           |
//! | -      | 0/8/2  | destination: none, a node id or a group id               |
//!
//! All numbers are little-endian. Extensions and the integrity check that may
//! follow are left to the caller.

use crate::endian::{
    bytes16, bytes32, bytes64, le16, le32, le64, lemma_read_written_16, lemma_read_written_32,
    lemma_read_written_64, lemma_written_read_16, lemma_written_read_32, lemma_written_read_64,
};
use crate::reader::LittleEndianReader;
use crate::types::{GroupId, NodeId};
use crate::writer::{
    joined, lemma_writes_in_turn_all, writes_in_turn, EndianWriteError, LittleEndianWriter,
};
use vstd::prelude::*;

verus! {

/// Why a header could not be read.
#[derive(Debug, Clone, Copy, PartialEq, Eq, Structural)]
pub enum HeaderError {
    /// The bytes end before the header does.
    Truncated,
    /// The version in the message flags is not zero.
    InvalidVersion,
    /// A flags byte has a bit set, or a field a value, that has no meaning.
    InvalidFlags,
    /// The session type is one of the reserved ones.
    InvalidSessionType,
    /// The protocol id is not one of the standard protocols.
    UnknownProtocolId,
    /// The protocol does not have this opcode.
    UnknownOpCode,
    /// The vendor id of a vendor's protocol is zero.
    InvalidVendorId,
}

/// Whom a message is for.
#[derive(Debug, Clone, Copy, PartialEq, Eq, Structural)]
pub enum MessageDestination {
    /// The header names no destination.
    NoDestination,
    Node(NodeId),
    Group(GroupId),
}

impl Default for MessageDestination {
    fn default() -> (r: Self)
        ensures
            r == MessageDestination::NoDestination,
    {
        MessageDestination::NoDestination
    }
}

/// The kind of session that a message belongs to.
#[derive(Debug, Clone, Copy, PartialEq, Eq, Structural)]
pub enum SessionType {
    Unicast,
    GroupMulticast,
}

/// The security flags of a message header.
#[derive(Debug, Clone, Copy, PartialEq, Eq, Structural)]
pub struct SecurityFlags {
    pub bits: u8,
}

impl SecurityFlags {
    pub const PRIVACY: u8 = 0x80;

    pub const CONTROL_MESSAGE: u8 = 0x40;

    pub const MESSAGE_EXTENSIONS: u8 = 0x20;

    pub const SESSION_TYPE_BIT1: u8 = 0x01;

    pub const SESSION_TYPE_BIT2: u8 = 0x02;

    pub const SESSION_TYPE_MASK: u8 = 0x03;

    /// The bits that have no meaning.
    pub const UNKNOWN: u8 = 0x1C;

    /// Whether `bits` sets only bits that have a meaning.
    pub open spec fn known(bits: u8) -> bool {
        bits & Self::UNKNOWN == 0
    }

    /// No flag set.
    pub fn empty() -> (r: Self)
        ensures
            r.bits == 0,
    {
        SecurityFlags { bits: 0 }
    }

    /// The flags that `bits` sets, unless one of them has no meaning.
    pub fn from_bits(bits: u8) -> (r: Option<Self>)
        ensures
            r == if Self::known(bits) {
                Some(SecurityFlags { bits })
            } else {
                None
            },
    {
        if bits & Self::UNKNOWN == 0 {
            Some(SecurityFlags { bits })
        } else {
            None
        }
    }

    /// The flags as a byte.
    pub fn bits(&self) -> (r: u8)
        ensures
            r == self.bits,
    {
        self.bits
    }

    /// Whether every bit of `mask` is set.
    pub fn contains(&self, mask: u8) -> (r: bool)
        ensures
            r == (self.bits & mask == mask),
    {
        self.bits & mask == mask
    }

    /// The session type that the two lowest bits name.
    pub open spec fn spec_session_type(&self) -> Result<SessionType, HeaderError> {
        if self.bits & Self::SESSION_TYPE_MASK == 0 {
            Ok(SessionType::Unicast)
        } else if self.bits & Self::SESSION_TYPE_MASK == 1 {
            Ok(SessionType::GroupMulticast)
        } else {
            Err(HeaderError::InvalidSessionType)
        }
    }

    /// The session type: unicast for 0, group multicast for 1; 2 and 3 are
    /// reserved and refused.
    pub fn session_type(&self) -> (r: Result<SessionType, HeaderError>)
        ensures
            r == self.spec_session_type(),
    {
        let kind = self.bits & Self::SESSION_TYPE_MASK;
        if kind == 0 {
            Ok(SessionType::Unicast)
        } else if kind == 1 {
            Ok(SessionType::GroupMulticast)
        } else {
            Err(HeaderError::InvalidSessionType)
        }
    }
}

impl Default for SecurityFlags {
    fn default() -> (r: Self)
        ensures
            r.bits == 0,
    {
        SecurityFlags { bits: 0 }
    }
}

/// Mask of the version in the message flags.
pub const FLAGS_VERSION_MASK: u8 = 0xF0;

/// The one version that is understood.
pub const FLAGS_VERSION_V1: u8 = 0x00;

/// Set in the message flags when a source node id follows.
pub const FLAGS_SOURCE_NODE_ID_SET: u8 = 0x04;

/// Mask of the destination kind in the message flags.
pub const FLAGS_DESTINATION_MASK: u8 = 0x03;

/// Destination kind: a node id follows.
pub const FLAGS_DESTINATION_NODE: u8 = 0x01;

/// Destination kind: a group id follows.
pub const FLAGS_DESTINATION_GROUP: u8 = 0x02;

/// The header of a Matter message.
#[derive(Debug, Clone, Copy, PartialEq, Eq, Structural)]
pub struct Header {
    pub flags: SecurityFlags,
    pub session_id: u16,
    pub source: Option<NodeId>,
    pub destination: MessageDestination,
    pub counter: u32,
}

/// The header of a Matter message, by its full name.
pub type MessageHeader = Header;

/// Whether the message flags `b0` announce a source node id.
pub open spec fn source_present(b0: u8) -> bool {
    b0 & FLAGS_SOURCE_NODE_ID_SET != 0
}

/// Where the destination starts in a header with message flags `b0`.
pub open spec fn destination_offset(b0: u8) -> nat {
    if source_present(b0) {
        16
    } else {
        8
    }
}

/// The length of a header with message flags `b0`.
pub open spec fn header_length(b0: u8) -> nat {
    if b0 & FLAGS_DESTINATION_MASK == FLAGS_DESTINATION_NODE {
        destination_offset(b0) + 8
    } else if b0 & FLAGS_DESTINATION_MASK == FLAGS_DESTINATION_GROUP {
        destination_offset(b0) + 2
    } else {
        destination_offset(b0)
    }
}

/// Why `b` does not start with a header, and how many bytes are read before
/// that is found; `None` where it does. The fields are read in the order of
/// the layout and each is checked as soon as it is read.
pub open spec fn parse_failure(b: Seq<u8>) -> Option<(HeaderError, nat)> {
    if b.len() < 1 {
        Some((HeaderError::Truncated, 0))
    } else if b[0] & FLAGS_VERSION_MASK != FLAGS_VERSION_V1 {
        Some((HeaderError::InvalidVersion, 1))
    } else if b.len() < 3 {
        Some((HeaderError::Truncated, 1))
    } else if b.len() < 4 {
        Some((HeaderError::Truncated, 3))
    } else if !SecurityFlags::known(b[3]) {
        Some((HeaderError::InvalidFlags, 4))
    } else if (SecurityFlags { bits: b[3] }).spec_session_type() is Err {
        Some((HeaderError::InvalidSessionType, 4))
    } else if b.len() < 8 {
        Some((HeaderError::Truncated, 4))
    } else if b.len() < destination_offset(b[0]) {
        Some((HeaderError::Truncated, 8))
    } else if b[0] & FLAGS_DESTINATION_MASK == FLAGS_DESTINATION_MASK {
        Some((HeaderError::InvalidFlags, destination_offset(b[0])))
    } else if b.len() < header_length(b[0]) {
        Some((HeaderError::Truncated, destination_offset(b[0])))
    } else {
        None
    }
}

/// The header that the fields of `b` spell, at their places in the layout.
pub open spec fn header_at(b: Seq<u8>) -> Header {
    Header {
        flags: SecurityFlags { bits: b[3] },
        session_id: le16(b.skip(1)) as u16,
        source: if source_present(b[0]) {
            Some(NodeId(le64(b.skip(8)) as u64))
        } else {
            None
        },
        destination: if b[0] & FLAGS_DESTINATION_MASK == FLAGS_DESTINATION_NODE {
            MessageDestination::Node(NodeId(le64(b.skip(destination_offset(b[0]) as int)) as u64))
        } else if b[0] & FLAGS_DESTINATION_MASK == FLAGS_DESTINATION_GROUP {
            MessageDestination::Group(
                GroupId(le16(b.skip(destination_offset(b[0]) as int)) as u16),
            )
        } else {
            MessageDestination::NoDestination
        },
        counter: le32(b.skip(4)) as u32,
    }
}

/// What reading a header from the start of `b` gives.
pub open spec fn parsed(b: Seq<u8>) -> Result<Header, HeaderError> {
    match parse_failure(b) {
        Some((e, _)) => Err(e),
        None => Ok(header_at(b)),
    }
}

/// How many bytes of `b` reading a header takes: the whole header, or the
/// fields read before the failure.
pub open spec fn consumed(b: Seq<u8>) -> nat {
    match parse_failure(b) {
        Some((_, n)) => n,
        None => header_length(b[0]),
    }
}

impl Header {
    /// The message flags byte that announces the optional fields.
    pub open spec fn message_flags(&self) -> u8 {
        let source: u8 = if self.source is Some {
            FLAGS_SOURCE_NODE_ID_SET
        } else {
            0
        };
        let destination: u8 = match self.destination {
            MessageDestination::Node(_) => FLAGS_DESTINATION_NODE,
            MessageDestination::Group(_) => FLAGS_DESTINATION_GROUP,
            MessageDestination::NoDestination => 0,
        };
        FLAGS_VERSION_V1 | source | destination
    }

    /// The fields in the order of the layout; a field that is absent has no
    /// bytes.
    pub open spec fn fields(&self) -> Seq<Seq<u8>> {
        seq![
            seq![self.message_flags()],
            bytes16(self.session_id),
            seq![self.flags.bits],
            bytes32(self.counter),
            match self.source {
                Some(NodeId(id)) => bytes64(id),
                None => Seq::empty(),
            },
            match self.destination {
                MessageDestination::Node(NodeId(id)) => bytes64(id),
                MessageDestination::Group(GroupId(id)) => bytes16(id),
                MessageDestination::NoDestination => Seq::empty(),
            },
        ]
    }

    /// The header on the wire.
    pub open spec fn serialized(&self) -> Seq<u8> {
        self.fields()[0] + self.fields()[1] + self.fields()[2] + self.fields()[3]
            + self.fields()[4] + self.fields()[5]
    }

    /// Whether the security flags are ones that a reader accepts.
    pub open spec fn well_formed(&self) -> bool {
        SecurityFlags::known(self.flags.bits) && self.flags.spec_session_type() is Ok
    }

    /// Reads a header from `buffer`. On success the reader stands behind the
    /// header; on failure it stands behind the last field that it could read.
    pub fn parse<R: LittleEndianReader>(buffer: &mut R) -> (r: Result<Header, HeaderError>)
        ensures
            r == parsed(old(buffer).unread()),
            final(buffer).unread() == old(buffer).unread().skip(
                consumed(old(buffer).unread()) as int,
            ),
    {
        let ghost b = buffer.unread();
        assert(b.skip(0) =~= b);
        let message_flags = match buffer.read_le_u8() {
            Ok(v) => v,
            Err(_) => {
                return Err(HeaderError::Truncated);
            },
        };
        if message_flags & FLAGS_VERSION_MASK != FLAGS_VERSION_V1 {
            return Err(HeaderError::InvalidVersion);
        }
        let session_id = match buffer.read_le_u16() {
            Ok(v) => v,
            Err(_) => {
                return Err(HeaderError::Truncated);
            },
        };
        assert(b.skip(1).skip(2) =~= b.skip(3));
        let raw_flags = match buffer.read_le_u8() {
            Ok(v) => v,
            Err(_) => {
                return Err(HeaderError::Truncated);
            },
        };
        assert(b.skip(3).skip(1) =~= b.skip(4));
        let flags = match SecurityFlags::from_bits(raw_flags) {
            Some(f) => f,
            None => {
                return Err(HeaderError::InvalidFlags);
            },
        };
        match flags.session_type() {
            Ok(_) => {},
            Err(e) => {
                return Err(e);
            },
        }
        let counter = match buffer.read_le_u32() {
            Ok(v) => v,
            Err(_) => {
                return Err(HeaderError::Truncated);
            },
        };
        assert(b.skip(4).skip(4) =~= b.skip(8));
        let source = if message_flags & FLAGS_SOURCE_NODE_ID_SET != 0 {
            match buffer.read_le_u64() {
                Ok(v) => {
                    assert(b.skip(8).skip(8) =~= b.skip(16));
                    Some(NodeId(v))
                },
                Err(_) => {
                    return Err(HeaderError::Truncated);
                },
            }
        } else {
            None
        };
        let ghost at = destination_offset(message_flags) as int;
        assert(buffer.unread() == b.skip(at));
        let kind = message_flags & FLAGS_DESTINATION_MASK;
        let destination = if kind == FLAGS_DESTINATION_NODE {
            match buffer.read_le_u64() {
                Ok(v) => {
                    assert(b.skip(at).skip(8) =~= b.skip(at + 8));
                    MessageDestination::Node(NodeId(v))
                },
                Err(_) => {
                    return Err(HeaderError::Truncated);
                },
            }
        } else if kind == FLAGS_DESTINATION_GROUP {
            match buffer.read_le_u16() {
                Ok(v) => {
                    assert(b.skip(at).skip(2) =~= b.skip(at + 2));
                    MessageDestination::Group(GroupId(v))
                },
                Err(_) => {
                    return Err(HeaderError::Truncated);
                },
            }
        } else if kind == FLAGS_DESTINATION_MASK {
            return Err(HeaderError::InvalidFlags);
        } else {
            assert(kind == 0) by (bit_vector)
                requires
                    kind == message_flags & 0x03u8,
                    kind != 1u8,
                    kind != 2u8,
                    kind != 3u8,
            ;
            MessageDestination::NoDestination
        };
        Ok(Header { flags, session_id, source, destination, counter })
    }

    /// Writes the header into `writer`, field after field. It stops at the
    /// first field for which there is no room; so the whole header is
    /// written exactly if there is room for all of it.
    pub fn write<W: LittleEndianWriter>(&self, writer: &mut W) -> (r: Result<
        (),
        EndianWriteError,
    >)
        ensures
            writes_in_turn(
                self.fields(),
                old(writer).output(),
                old(writer).room(),
                final(writer).output(),
                final(writer).room(),
                r,
            ),
            r is Ok <==> self.serialized().len() <= old(writer).room(),
            r is Ok ==> final(writer).output() == old(writer).output() + self.serialized(),
    {
        let ghost before = writer.output();
        let ghost room = writer.room();
        let r = self.write_fields(writer);
        proof {
            lemma_writes_in_turn_all(
                self.fields(),
                before,
                room,
                writer.output(),
                writer.room(),
                r,
            );
            self.lemma_fields_joined();
        }
        r
    }

    /// The fields one after the other are the header on the wire.
    pub proof fn lemma_fields_joined(&self)
        ensures
            joined(self.fields()) == self.serialized(),
    {
        reveal_with_fuel(joined, 7);
        let f = self.fields();
        assert(f.skip(1)[0] == f[1]);
        assert(f.skip(1).skip(1)[0] == f[2]);
        assert(f.skip(1).skip(1).skip(1)[0] == f[3]);
        assert(f.skip(1).skip(1).skip(1).skip(1)[0] == f[4]);
        assert(f.skip(1).skip(1).skip(1).skip(1).skip(1)[0] == f[5]);
        assert(f.skip(1).skip(1).skip(1).skip(1).skip(1).skip(1).len() == 0);
        assert(joined(f) =~= self.serialized());
    }

    /// Writes the fields in turn.
    fn write_fields<W: LittleEndianWriter>(&self, writer: &mut W) -> (r: Result<
        (),
        EndianWriteError,
    >)
        ensures
            writes_in_turn(
                self.fields(),
                old(writer).output(),
                old(writer).room(),
                final(writer).output(),
                final(writer).room(),
                r,
            ),
    {
        let source_flag: u8 = match self.source {
            Some(_) => FLAGS_SOURCE_NODE_ID_SET,
            None => 0,
        };
        let destination_flag: u8 = match self.destination {
            MessageDestination::Node(_) => FLAGS_DESTINATION_NODE,
            MessageDestination::Group(_) => FLAGS_DESTINATION_GROUP,
            MessageDestination::NoDestination => 0,
        };
        let message_flags = FLAGS_VERSION_V1 | source_flag | destination_flag;
        proof {
            reveal_with_fuel(writes_in_turn, 7);
        }
        let ghost f = self.fields();
        assert(f.skip(1)[0] == f[1]);
        assert(f.skip(1).skip(1)[0] == f[2]);
        assert(f.skip(1).skip(1).skip(1)[0] == f[3]);
        assert(f.skip(1).skip(1).skip(1).skip(1)[0] == f[4]);
        assert(f.skip(1).skip(1).skip(1).skip(1).skip(1)[0] == f[5]);
        assert(f.skip(1).skip(1).skip(1).skip(1).skip(1).skip(1).len() == 0);
        match writer.write_le_u8(message_flags) {
            Ok(()) => {},
            Err(e) => {
                return Err(e);
            },
        }
        match writer.write_le_u16(self.session_id) {
            Ok(()) => {},
            Err(e) => {
                return Err(e);
            },
        }
        match writer.write_le_u8(self.flags.bits()) {
            Ok(()) => {},
            Err(e) => {
                return Err(e);
            },
        }
        match writer.write_le_u32(self.counter) {
            Ok(()) => {},
            Err(e) => {
                return Err(e);
            },
        }
        let ghost before_source = writer.output();
        if let Some(NodeId(id)) = self.source {
            match writer.write_le_u64(id) {
                Ok(()) => {},
                Err(e) => {
                    return Err(e);
                },
            }
        } else {
            assert(before_source + f[4] =~= before_source);
        }
        let ghost before_destination = writer.output();
        match self.destination {
            MessageDestination::Node(NodeId(id)) => {
                match writer.write_le_u64(id) {
                    Ok(()) => {},
                    Err(e) => {
                        return Err(e);
                    },
                }
            },
            MessageDestination::Group(GroupId(id)) => {
                match writer.write_le_u16(id) {
                    Ok(()) => {},
                    Err(e) => {
                        return Err(e);
                    },
                }
            },
            MessageDestination::NoDestination => {
                assert(before_destination + f[5] =~= before_destination);
            },
        }
        Ok(())
    }
}

/// Why a header could not be built.
#[derive(Debug, Clone, Copy, PartialEq, Eq)]
pub enum HeaderBuilderError {
    /// The field of this name has to be set, and was not.
    UninitializedField(&'static str),
}

/// Builds a header field by field. The security flags, the session id and
/// the counter have to be set; without a source and a destination the
/// header has none.
#[derive(Debug, Clone, Copy)]
pub struct HeaderBuilder {
    pub flags: Option<SecurityFlags>,
    pub session_id: Option<u16>,
    pub source: Option<Option<NodeId>>,
    pub destination: Option<MessageDestination>,
    pub counter: Option<u32>,
}

impl Default for HeaderBuilder {
    /// A builder in which no field is set.
    fn default() -> (r: Self)
        ensures
            r.flags is None,
            r.session_id is None,
            r.source is None,
            r.destination is None,
            r.counter is None,
    {
        HeaderBuilder {
            flags: None,
            session_id: None,
            source: None,
            destination: None,
            counter: None,
        }
    }
}

impl HeaderBuilder {
    pub fn flags(self, value: SecurityFlags) -> (r: Self)
        ensures
            r == (HeaderBuilder { flags: Some(value), ..self }),
    {
        HeaderBuilder { flags: Some(value), ..self }
    }

    pub fn session_id(self, value: u16) -> (r: Self)
        ensures
            r == (HeaderBuilder { session_id: Some(value), ..self }),
    {
        HeaderBuilder { session_id: Some(value), ..self }
    }

    pub fn source(self, value: Option<NodeId>) -> (r: Self)
        ensures
            r == (HeaderBuilder { source: Some(value), ..self }),
    {
        HeaderBuilder { source: Some(value), ..self }
    }

    pub fn destination(self, value: MessageDestination) -> (r: Self)
        ensures
            r == (HeaderBuilder { destination: Some(value), ..self }),
    {
        HeaderBuilder { destination: Some(value), ..self }
    }

    pub fn counter(self, value: u32) -> (r: Self)
        ensures
            r == (HeaderBuilder { counter: Some(value), ..self }),
    {
        HeaderBuilder { counter: Some(value), ..self }
    }

    /// The header of the fields that were set. The first field that has to
    /// be set and was not is named in the failure.
    pub fn build(&self) -> (r: Result<Header, HeaderBuilderError>)
        ensures
            match r {
                Ok(header) => {
                    &&& self.flags == Some(header.flags)
                    &&& self.session_id == Some(header.session_id)
                    &&& self.counter == Some(header.counter)
                    &&& header.source == match self.source {
                        Some(source) => source,
                        None => None,
                    }
                    &&& header.destination == match self.destination {
                        Some(destination) => destination,
                        None => MessageDestination::NoDestination,
                    }
                },
                Err(HeaderBuilderError::UninitializedField(name)) => {
                    ||| self.flags is None && name == "flags"
                    ||| self.flags is Some && self.session_id is None && name == "session_id"
                    ||| self.flags is Some && self.session_id is Some && self.counter is None
                        && name == "counter"
                },
            },
    {
        let flags = match self.flags {
            Some(flags) => flags,
            None => {
                return Err(HeaderBuilderError::UninitializedField("flags"));
            },
        };
        let session_id = match self.session_id {
            Some(session_id) => session_id,
            None => {
                return Err(HeaderBuilderError::UninitializedField("session_id"));
            },
        };
        let source = match self.source {
            Some(source) => source,
            None => None,
        };
        let destination = match self.destination {
            Some(destination) => destination,
            None => MessageDestination::NoDestination,
        };
        let counter = match self.counter {
            Some(counter) => counter,
            None => {
                return Err(HeaderBuilderError::UninitializedField("counter"));
            },
        };
        Ok(Header { flags, session_id, source, destination, counter })
    }
}

/// How the message flags byte is put together from its two fields, and taken
/// apart again.
proof fn lemma_message_flag_bits(source: u8, destination: u8)
    by (bit_vector)
    requires
        source == 0 || source == 4,
        destination <= 2,
    ensures
        (0u8 | source | destination) & 0xF0 == 0,
        (0u8 | source | destination) & 0x04 == source,
        (0u8 | source | destination) & 0x03 == destination,
{
}

/// A message flags byte with version 0 and without the bit that has no
/// meaning is made of its source bit and its destination kind.
proof fn lemma_message_flag_parts(b0: u8)
    by (bit_vector)
    requires
        b0 & 0xF0 == 0,
        b0 & 0x08 == 0,
    ensures
        b0 == 0u8 | (b0 & 0x04) | (b0 & 0x03),
        b0 & 0x04 == 0 || b0 & 0x04 == 4,
        b0 & 0x03 <= 3,
{
}

/// Reading what was written gives the header back: the bytes of a
/// well-formed header, whatever follows them, are read as that header, and
/// the reading takes exactly those bytes.
pub proof fn lemma_parse_serialized(h: Header, rest: Seq<u8>)
    requires
        h.well_formed(),
    ensures
        parsed(h.serialized() + rest) == Ok::<Header, HeaderError>(h),
        consumed(h.serialized() + rest) == h.serialized().len(),
{
    let s = h.serialized();
    let b = s + rest;
    let source: u8 = if h.source is Some {
        4
    } else {
        0
    };
    let destination: u8 = match h.destination {
        MessageDestination::Node(_) => 1,
        MessageDestination::Group(_) => 2,
        MessageDestination::NoDestination => 0,
    };
    lemma_message_flag_bits(source, destination);
    lemma_read_written_16(h.session_id);
    lemma_read_written_32(h.counter);
    assert(b[0] == h.message_flags());
    assert(b[3] == h.flags.bits);
    assert(b.skip(1)[0] == bytes16(h.session_id)[0] && b.skip(1)[1] == bytes16(h.session_id)[1]);
    assert(b.skip(4)[0] == bytes32(h.counter)[0] && b.skip(4)[1] == bytes32(h.counter)[1]
        && b.skip(4)[2] == bytes32(h.counter)[2] && b.skip(4)[3] == bytes32(h.counter)[3]);
    let at = destination_offset(b[0]) as int;
    match h.source {
        Some(NodeId(id)) => {
            lemma_read_written_64(id);
            assert(b.skip(8).take(8) =~= bytes64(id));
            lemma_le64_prefix(b.skip(8));
        },
        None => {},
    }
    match h.destination {
        MessageDestination::Node(NodeId(id)) => {
            lemma_read_written_64(id);
            assert(b.skip(at).take(8) =~= bytes64(id));
            lemma_le64_prefix(b.skip(at));
        },
        MessageDestination::Group(GroupId(id)) => {
            lemma_read_written_16(id);
            assert(b.skip(at)[0] == bytes16(id)[0] && b.skip(at)[1] == bytes16(id)[1]);
        },
        MessageDestination::NoDestination => {},
    }
    assert(header_at(b).source == h.source);
    assert(header_at(b).destination == h.destination);
}

/// Only the first eight bytes count for `le64`.
proof fn lemma_le64_prefix(b: Seq<u8>)
    requires
        b.len() >= 8,
    ensures
        le64(b) == le64(b.take(8)),
{
}

/// Writing what was read gives the bytes back: where `b` starts with a header
/// whose message flags leave the bit without meaning clear, the header that
/// is read from it is written as exactly the bytes that the reading took.
pub proof fn lemma_serialize_parsed(b: Seq<u8>)
    requires
        parsed(b) is Ok,
        b[0] & 0x08 == 0,
    ensures
        parsed(b)->Ok_0.serialized() == b.take(consumed(b) as int),
{
    let h = parsed(b)->Ok_0;
    lemma_message_flag_parts(b[0]);
    let source: u8 = if h.source is Some {
        4
    } else {
        0
    };
    assert(source == b[0] & 0x04);
    assert(h.message_flags() == b[0]);
    lemma_written_read_16(b.skip(1));
    lemma_written_read_32(b.skip(4));
    let at = destination_offset(b[0]) as int;
    if source_present(b[0]) {
        lemma_written_read_64(b.skip(8));
    }
    if b[0] & FLAGS_DESTINATION_MASK == FLAGS_DESTINATION_NODE {
        lemma_written_read_64(b.skip(at));
    } else if b[0] & FLAGS_DESTINATION_MASK == FLAGS_DESTINATION_GROUP {
        lemma_written_read_16(b.skip(at));
    }
    assert(h.serialized() =~= b.take(consumed(b) as int));
}

} // verus!
