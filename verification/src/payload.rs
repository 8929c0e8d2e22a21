//! The Matter exchange header: its layout on the wire, the opcodes of the
//! standard protocols, and the functions that read and write it.
//!
//! | Offset | Size   | Field                                         |
//! |--------|--------|-----------------------------------------------|
//! | 0      | 1      | exchange flags                                |
//! | 1      | 1      | protocol opcode                               |
//! | 2      | 2      | exchange id                                   |
//! | 4      | 2      | protocol id                                   |
//! | 6      | 0 or 2 | vendor id, with the vendor flag               |
//! | -      | 0 or 4 | acknowledged counter, with the acknowledgement flag |
//!
//! All numbers are little-endian. Secured extensions that may follow are left
//! to the caller.

use crate::endian::{
    bytes16, bytes32, le16, le32, lemma_read_written_16, lemma_read_written_32,
    lemma_written_read_16, lemma_written_read_32,
};
use crate::packet::HeaderError;
use crate::reader::LittleEndianReader;
use crate::types::{ExchangeId, VendorId};
use crate::writer::{
    joined, lemma_writes_in_turn_all, writes_in_turn, EndianWriteError, LittleEndianWriter,
};
use vstd::prelude::*;

verus! {

/// Why a protocol and an opcode name no known message kind.
#[derive(Debug, Clone, Copy, PartialEq, Eq, Structural)]
pub enum ProtocolOpCodeError {
    /// The protocol id is not one of the standard protocols.
    UnknownProtocolId,
    /// The vendor id of a vendor's protocol is zero.
    InvalidVendorId,
    /// The protocol does not have this opcode.
    UnknownOpCode,
}

impl ProtocolOpCodeError {
    /// The same failure, as a failure to read a header.
    pub open spec fn spec_header_error(self) -> HeaderError {
        match self {
            ProtocolOpCodeError::UnknownProtocolId => HeaderError::UnknownProtocolId,
            ProtocolOpCodeError::InvalidVendorId => HeaderError::InvalidVendorId,
            ProtocolOpCodeError::UnknownOpCode => HeaderError::UnknownOpCode,
        }
    }

    /// The same failure, as a failure to read a header.
    pub fn header_error(self) -> (r: HeaderError)
        ensures
            r == self.spec_header_error(),
    {
        match self {
            ProtocolOpCodeError::UnknownProtocolId => HeaderError::UnknownProtocolId,
            ProtocolOpCodeError::InvalidVendorId => HeaderError::InvalidVendorId,
            ProtocolOpCodeError::UnknownOpCode => HeaderError::UnknownOpCode,
        }
    }
}

/// The standard protocols.
#[derive(Debug, Clone, Copy, PartialEq, Eq, Structural)]
pub enum Protocols {
    SecureChannel,
    InteractionModel,
    Bdx,
    UserDirectedCommissioning,
}

impl Protocols {
    /// The protocol id on the wire.
    pub open spec fn spec_id(self) -> u16 {
        match self {
            Protocols::SecureChannel => 0,
            Protocols::InteractionModel => 1,
            Protocols::Bdx => 2,
            Protocols::UserDirectedCommissioning => 3,
        }
    }

    /// The protocol id on the wire.
    pub fn id(self) -> (r: u16)
        ensures
            r == self.spec_id(),
    {
        match self {
            Protocols::SecureChannel => 0,
            Protocols::InteractionModel => 1,
            Protocols::Bdx => 2,
            Protocols::UserDirectedCommissioning => 3,
        }
    }
}

/// What identifies a message kind on the wire.
pub trait ProtocolInfo {
    /// The protocol id on the wire.
    spec fn spec_protocol_id(&self) -> u16;

    /// The opcode on the wire.
    spec fn spec_protocol_opcode(&self) -> u8;

    /// The protocol id on the wire.
    fn protocol_id(&self) -> (r: u16)
        ensures
            r == self.spec_protocol_id(),
    ;

    /// The opcode on the wire.
    fn protocol_opcode(&self) -> (r: u8)
        ensures
            r == self.spec_protocol_opcode(),
    ;
}

/// Opcodes of the secure channel protocol.
#[derive(Debug, Clone, Copy, PartialEq, Eq, Structural)]
pub enum SecureChannelOpcode {
    MessageCounterSyncRequest,
    MessageCounterSyncResponse,
    MrpStandaloneAck,
    PbkdfParamRequest,
    PbkdfParamResponse,
    PasePake1,
    PasePake2,
    PasePake3,
    CaseSigma1,
    CaseSigma2,
    CaseSigma3,
    CaseSigma2Resume,
    StatusReport,
}

impl SecureChannelOpcode {
    /// The opcode on the wire.
    pub open spec fn spec_code(self) -> u8 {
        match self {
            SecureChannelOpcode::MessageCounterSyncRequest => 0x00,
            SecureChannelOpcode::MessageCounterSyncResponse => 0x01,
            SecureChannelOpcode::MrpStandaloneAck => 0x10,
            SecureChannelOpcode::PbkdfParamRequest => 0x20,
            SecureChannelOpcode::PbkdfParamResponse => 0x21,
            SecureChannelOpcode::PasePake1 => 0x22,
            SecureChannelOpcode::PasePake2 => 0x23,
            SecureChannelOpcode::PasePake3 => 0x24,
            SecureChannelOpcode::CaseSigma1 => 0x30,
            SecureChannelOpcode::CaseSigma2 => 0x31,
            SecureChannelOpcode::CaseSigma3 => 0x32,
            SecureChannelOpcode::CaseSigma2Resume => 0x33,
            SecureChannelOpcode::StatusReport => 0x40,
        }
    }

    /// The opcode that `code` stands for, if the protocol has it.
    pub open spec fn from_code(code: u8) -> Option<Self> {
        if code == 0x00 {
            Some(SecureChannelOpcode::MessageCounterSyncRequest)
        } else if code == 0x01 {
            Some(SecureChannelOpcode::MessageCounterSyncResponse)
        } else if code == 0x10 {
            Some(SecureChannelOpcode::MrpStandaloneAck)
        } else if code == 0x20 {
            Some(SecureChannelOpcode::PbkdfParamRequest)
        } else if code == 0x21 {
            Some(SecureChannelOpcode::PbkdfParamResponse)
        } else if code == 0x22 {
            Some(SecureChannelOpcode::PasePake1)
        } else if code == 0x23 {
            Some(SecureChannelOpcode::PasePake2)
        } else if code == 0x24 {
            Some(SecureChannelOpcode::PasePake3)
        } else if code == 0x30 {
            Some(SecureChannelOpcode::CaseSigma1)
        } else if code == 0x31 {
            Some(SecureChannelOpcode::CaseSigma2)
        } else if code == 0x32 {
            Some(SecureChannelOpcode::CaseSigma3)
        } else if code == 0x33 {
            Some(SecureChannelOpcode::CaseSigma2Resume)
        } else if code == 0x40 {
            Some(SecureChannelOpcode::StatusReport)
        } else {
            None
        }
    }

    /// The opcode on the wire.
    pub fn code(self) -> (r: u8)
        ensures
            r == self.spec_code(),
            Self::from_code(r) == Some(self),
    {
        match self {
            SecureChannelOpcode::MessageCounterSyncRequest => 0x00,
            SecureChannelOpcode::MessageCounterSyncResponse => 0x01,
            SecureChannelOpcode::MrpStandaloneAck => 0x10,
            SecureChannelOpcode::PbkdfParamRequest => 0x20,
            SecureChannelOpcode::PbkdfParamResponse => 0x21,
            SecureChannelOpcode::PasePake1 => 0x22,
            SecureChannelOpcode::PasePake2 => 0x23,
            SecureChannelOpcode::PasePake3 => 0x24,
            SecureChannelOpcode::CaseSigma1 => 0x30,
            SecureChannelOpcode::CaseSigma2 => 0x31,
            SecureChannelOpcode::CaseSigma3 => 0x32,
            SecureChannelOpcode::CaseSigma2Resume => 0x33,
            SecureChannelOpcode::StatusReport => 0x40,
        }
    }
}

impl TryFrom<u8> for SecureChannelOpcode {
    type Error = ProtocolOpCodeError;

    /// The opcode that `value` stands for; `UnknownOpCode` where the protocol
    /// has none for it.
    fn try_from(value: u8) -> (r: Result<Self, Self::Error>) {
        if value == 0x00 {
            Ok(SecureChannelOpcode::MessageCounterSyncRequest)
        } else if value == 0x01 {
            Ok(SecureChannelOpcode::MessageCounterSyncResponse)
        } else if value == 0x10 {
            Ok(SecureChannelOpcode::MrpStandaloneAck)
        } else if value == 0x20 {
            Ok(SecureChannelOpcode::PbkdfParamRequest)
        } else if value == 0x21 {
            Ok(SecureChannelOpcode::PbkdfParamResponse)
        } else if value == 0x22 {
            Ok(SecureChannelOpcode::PasePake1)
        } else if value == 0x23 {
            Ok(SecureChannelOpcode::PasePake2)
        } else if value == 0x24 {
            Ok(SecureChannelOpcode::PasePake3)
        } else if value == 0x30 {
            Ok(SecureChannelOpcode::CaseSigma1)
        } else if value == 0x31 {
            Ok(SecureChannelOpcode::CaseSigma2)
        } else if value == 0x32 {
            Ok(SecureChannelOpcode::CaseSigma3)
        } else if value == 0x33 {
            Ok(SecureChannelOpcode::CaseSigma2Resume)
        } else if value == 0x40 {
            Ok(SecureChannelOpcode::StatusReport)
        } else {
            Err(ProtocolOpCodeError::UnknownOpCode)
        }
    }
}

impl vstd::std_specs::convert::TryFromSpecImpl<u8> for SecureChannelOpcode {
    open spec fn obeys_try_from_spec() -> bool {
        true
    }

    open spec fn try_from_spec(v: u8) -> Result<Self, Self::Error> {
        match Self::from_code(v) {
            Some(code) => Ok(code),
            None => Err(ProtocolOpCodeError::UnknownOpCode),
        }
    }
}

/// Opcodes of the interaction model protocol.
#[derive(Debug, Clone, Copy, PartialEq, Eq, Structural)]
pub enum InteractionModelOpcode {
    StatusResponse,
    ReadRequest,
    SubscribeRequest,
    SubscribeResponse,
    ReportData,
    WriteRequest,
    WriteResponse,
    InvokeRequest,
    InvokeResponse,
    TimedRequest,
}

impl InteractionModelOpcode {
    /// The opcode on the wire.
    pub open spec fn spec_code(self) -> u8 {
        match self {
            InteractionModelOpcode::StatusResponse => 0x01,
            InteractionModelOpcode::ReadRequest => 0x02,
            InteractionModelOpcode::SubscribeRequest => 0x03,
            InteractionModelOpcode::SubscribeResponse => 0x04,
            InteractionModelOpcode::ReportData => 0x05,
            InteractionModelOpcode::WriteRequest => 0x06,
            InteractionModelOpcode::WriteResponse => 0x07,
            InteractionModelOpcode::InvokeRequest => 0x08,
            InteractionModelOpcode::InvokeResponse => 0x09,
            InteractionModelOpcode::TimedRequest => 0x0a,
        }
    }

    /// The opcode that `code` stands for, if the protocol has it.
    pub open spec fn from_code(code: u8) -> Option<Self> {
        if code == 0x01 {
            Some(InteractionModelOpcode::StatusResponse)
        } else if code == 0x02 {
            Some(InteractionModelOpcode::ReadRequest)
        } else if code == 0x03 {
            Some(InteractionModelOpcode::SubscribeRequest)
        } else if code == 0x04 {
            Some(InteractionModelOpcode::SubscribeResponse)
        } else if code == 0x05 {
            Some(InteractionModelOpcode::ReportData)
        } else if code == 0x06 {
            Some(InteractionModelOpcode::WriteRequest)
        } else if code == 0x07 {
            Some(InteractionModelOpcode::WriteResponse)
        } else if code == 0x08 {
            Some(InteractionModelOpcode::InvokeRequest)
        } else if code == 0x09 {
            Some(InteractionModelOpcode::InvokeResponse)
        } else if code == 0x0a {
            Some(InteractionModelOpcode::TimedRequest)
        } else {
            None
        }
    }

    /// The opcode on the wire.
    pub fn code(self) -> (r: u8)
        ensures
            r == self.spec_code(),
            Self::from_code(r) == Some(self),
    {
        match self {
            InteractionModelOpcode::StatusResponse => 0x01,
            InteractionModelOpcode::ReadRequest => 0x02,
            InteractionModelOpcode::SubscribeRequest => 0x03,
            InteractionModelOpcode::SubscribeResponse => 0x04,
            InteractionModelOpcode::ReportData => 0x05,
            InteractionModelOpcode::WriteRequest => 0x06,
            InteractionModelOpcode::WriteResponse => 0x07,
            InteractionModelOpcode::InvokeRequest => 0x08,
            InteractionModelOpcode::InvokeResponse => 0x09,
            InteractionModelOpcode::TimedRequest => 0x0a,
        }
    }
}

impl TryFrom<u8> for InteractionModelOpcode {
    type Error = ProtocolOpCodeError;

    /// The opcode that `value` stands for; `UnknownOpCode` where the protocol
    /// has none for it.
    fn try_from(value: u8) -> (r: Result<Self, Self::Error>) {
        if value == 0x01 {
            Ok(InteractionModelOpcode::StatusResponse)
        } else if value == 0x02 {
            Ok(InteractionModelOpcode::ReadRequest)
        } else if value == 0x03 {
            Ok(InteractionModelOpcode::SubscribeRequest)
        } else if value == 0x04 {
            Ok(InteractionModelOpcode::SubscribeResponse)
        } else if value == 0x05 {
            Ok(InteractionModelOpcode::ReportData)
        } else if value == 0x06 {
            Ok(InteractionModelOpcode::WriteRequest)
        } else if value == 0x07 {
            Ok(InteractionModelOpcode::WriteResponse)
        } else if value == 0x08 {
            Ok(InteractionModelOpcode::InvokeRequest)
        } else if value == 0x09 {
            Ok(InteractionModelOpcode::InvokeResponse)
        } else if value == 0x0a {
            Ok(InteractionModelOpcode::TimedRequest)
        } else {
            Err(ProtocolOpCodeError::UnknownOpCode)
        }
    }
}

impl vstd::std_specs::convert::TryFromSpecImpl<u8> for InteractionModelOpcode {
    open spec fn obeys_try_from_spec() -> bool {
        true
    }

    open spec fn try_from_spec(v: u8) -> Result<Self, Self::Error> {
        match Self::from_code(v) {
            Some(code) => Ok(code),
            None => Err(ProtocolOpCodeError::UnknownOpCode),
        }
    }
}

/// Opcodes of the bulk data exchange protocol.
#[derive(Debug, Clone, Copy, PartialEq, Eq, Structural)]
pub enum BdxOpcode {
    SendInit,
    SendAccept,
    ReceiveInit,
    ReceiveAccept,
    BlockQuery,
    Block,
    BlockEOF,
    BlockAck,
    BlockAckEOF,
    BlockQueryWithSkip,
}

impl BdxOpcode {
    /// The opcode on the wire.
    pub open spec fn spec_code(self) -> u8 {
        match self {
            BdxOpcode::SendInit => 0x01,
            BdxOpcode::SendAccept => 0x02,
            BdxOpcode::ReceiveInit => 0x04,
            BdxOpcode::ReceiveAccept => 0x05,
            BdxOpcode::BlockQuery => 0x10,
            BdxOpcode::Block => 0x11,
            BdxOpcode::BlockEOF => 0x12,
            BdxOpcode::BlockAck => 0x13,
            BdxOpcode::BlockAckEOF => 0x14,
            BdxOpcode::BlockQueryWithSkip => 0x15,
        }
    }

    /// The opcode that `code` stands for, if the protocol has it.
    pub open spec fn from_code(code: u8) -> Option<Self> {
        if code == 0x01 {
            Some(BdxOpcode::SendInit)
        } else if code == 0x02 {
            Some(BdxOpcode::SendAccept)
        } else if code == 0x04 {
            Some(BdxOpcode::ReceiveInit)
        } else if code == 0x05 {
            Some(BdxOpcode::ReceiveAccept)
        } else if code == 0x10 {
            Some(BdxOpcode::BlockQuery)
        } else if code == 0x11 {
            Some(BdxOpcode::Block)
        } else if code == 0x12 {
            Some(BdxOpcode::BlockEOF)
        } else if code == 0x13 {
            Some(BdxOpcode::BlockAck)
        } else if code == 0x14 {
            Some(BdxOpcode::BlockAckEOF)
        } else if code == 0x15 {
            Some(BdxOpcode::BlockQueryWithSkip)
        } else {
            None
        }
    }

    /// The opcode on the wire.
    pub fn code(self) -> (r: u8)
        ensures
            r == self.spec_code(),
            Self::from_code(r) == Some(self),
    {
        match self {
            BdxOpcode::SendInit => 0x01,
            BdxOpcode::SendAccept => 0x02,
            BdxOpcode::ReceiveInit => 0x04,
            BdxOpcode::ReceiveAccept => 0x05,
            BdxOpcode::BlockQuery => 0x10,
            BdxOpcode::Block => 0x11,
            BdxOpcode::BlockEOF => 0x12,
            BdxOpcode::BlockAck => 0x13,
            BdxOpcode::BlockAckEOF => 0x14,
            BdxOpcode::BlockQueryWithSkip => 0x15,
        }
    }
}

impl TryFrom<u8> for BdxOpcode {
    type Error = ProtocolOpCodeError;

    /// The opcode that `value` stands for; `UnknownOpCode` where the protocol
    /// has none for it.
    fn try_from(value: u8) -> (r: Result<Self, Self::Error>) {
        if value == 0x01 {
            Ok(BdxOpcode::SendInit)
        } else if value == 0x02 {
            Ok(BdxOpcode::SendAccept)
        } else if value == 0x04 {
            Ok(BdxOpcode::ReceiveInit)
        } else if value == 0x05 {
            Ok(BdxOpcode::ReceiveAccept)
        } else if value == 0x10 {
            Ok(BdxOpcode::BlockQuery)
        } else if value == 0x11 {
            Ok(BdxOpcode::Block)
        } else if value == 0x12 {
            Ok(BdxOpcode::BlockEOF)
        } else if value == 0x13 {
            Ok(BdxOpcode::BlockAck)
        } else if value == 0x14 {
            Ok(BdxOpcode::BlockAckEOF)
        } else if value == 0x15 {
            Ok(BdxOpcode::BlockQueryWithSkip)
        } else {
            Err(ProtocolOpCodeError::UnknownOpCode)
        }
    }
}

impl vstd::std_specs::convert::TryFromSpecImpl<u8> for BdxOpcode {
    open spec fn obeys_try_from_spec() -> bool {
        true
    }

    open spec fn try_from_spec(v: u8) -> Result<Self, Self::Error> {
        match Self::from_code(v) {
            Some(code) => Ok(code),
            None => Err(ProtocolOpCodeError::UnknownOpCode),
        }
    }
}

/// Opcodes of the user directed commissioning protocol.
#[derive(Debug, Clone, Copy, PartialEq, Eq, Structural)]
pub enum UserDirectedCommissioningOpcode {
    IdentificationDeclaration,
}

impl UserDirectedCommissioningOpcode {
    /// The opcode on the wire.
    pub open spec fn spec_code(self) -> u8 {
        match self {
            UserDirectedCommissioningOpcode::IdentificationDeclaration => 0x00,
        }
    }

    /// The opcode that `code` stands for, if the protocol has it.
    pub open spec fn from_code(code: u8) -> Option<Self> {
        if code == 0x00 {
            Some(UserDirectedCommissioningOpcode::IdentificationDeclaration)
        } else {
            None
        }
    }

    /// The opcode on the wire.
    pub fn code(self) -> (r: u8)
        ensures
            r == self.spec_code(),
            Self::from_code(r) == Some(self),
    {
        match self {
            UserDirectedCommissioningOpcode::IdentificationDeclaration => 0x00,
        }
    }
}

impl TryFrom<u8> for UserDirectedCommissioningOpcode {
    type Error = ProtocolOpCodeError;

    /// The opcode that `value` stands for; `UnknownOpCode` where the protocol
    /// has none for it.
    fn try_from(value: u8) -> (r: Result<Self, Self::Error>) {
        if value == 0x00 {
            Ok(UserDirectedCommissioningOpcode::IdentificationDeclaration)
        } else {
            Err(ProtocolOpCodeError::UnknownOpCode)
        }
    }
}

impl vstd::std_specs::convert::TryFromSpecImpl<u8> for UserDirectedCommissioningOpcode {
    open spec fn obeys_try_from_spec() -> bool {
        true
    }

    open spec fn try_from_spec(v: u8) -> Result<Self, Self::Error> {
        match Self::from_code(v) {
            Some(code) => Ok(code),
            None => Err(ProtocolOpCodeError::UnknownOpCode),
        }
    }
}

/// A message kind: a protocol together with one of its opcodes.
#[derive(Debug, Clone, Copy, PartialEq, Eq, Structural)]
pub enum ProtocolOpCode {
    SecureChannel(SecureChannelOpcode),
    InteractionModel(InteractionModelOpcode),
    Bdx(BdxOpcode),
    UserDirectedCommissioning(UserDirectedCommissioningOpcode),
    /// An opcode of a protocol that a vendor defines.
    Vendor { vendor_id: u16, protocol: u16, opcode: u8 },
}

impl ProtocolOpCode {
    /// The message kind that a vendor id, a protocol id and an opcode name.
    /// With a vendor id the kind is the vendor's, and the vendor id must not
    /// be zero; without one the protocol must be a standard one that has the
    /// opcode.
    pub open spec fn spec_from_raw(
        raw_vendor_id: Option<VendorId>,
        raw_protocol_id: u16,
        raw_opcode: u8,
    ) -> Result<ProtocolOpCode, ProtocolOpCodeError> {
        match raw_vendor_id {
            Some(VendorId(vendor_id)) => if vendor_id == 0 {
                Err(ProtocolOpCodeError::InvalidVendorId)
            } else {
                Ok(
                    ProtocolOpCode::Vendor {
                        vendor_id,
                        protocol: raw_protocol_id,
                        opcode: raw_opcode,
                    },
                )
            },
            None => if raw_protocol_id == 0 {
                match SecureChannelOpcode::from_code(raw_opcode) {
                    Some(code) => Ok(ProtocolOpCode::SecureChannel(code)),
                    None => Err(ProtocolOpCodeError::UnknownOpCode),
                }
            } else if raw_protocol_id == 1 {
                match InteractionModelOpcode::from_code(raw_opcode) {
                    Some(code) => Ok(ProtocolOpCode::InteractionModel(code)),
                    None => Err(ProtocolOpCodeError::UnknownOpCode),
                }
            } else if raw_protocol_id == 2 {
                match BdxOpcode::from_code(raw_opcode) {
                    Some(code) => Ok(ProtocolOpCode::Bdx(code)),
                    None => Err(ProtocolOpCodeError::UnknownOpCode),
                }
            } else if raw_protocol_id == 3 {
                match UserDirectedCommissioningOpcode::from_code(raw_opcode) {
                    Some(code) => Ok(ProtocolOpCode::UserDirectedCommissioning(code)),
                    None => Err(ProtocolOpCodeError::UnknownOpCode),
                }
            } else {
                Err(ProtocolOpCodeError::UnknownProtocolId)
            },
        }
    }

    /// The message kind that a vendor id, a protocol id and an opcode name.
    pub fn from_raw(raw_vendor_id: Option<VendorId>, raw_protocol_id: u16, raw_opcode: u8) -> (r:
        Result<ProtocolOpCode, ProtocolOpCodeError>)
        ensures
            r == Self::spec_from_raw(raw_vendor_id, raw_protocol_id, raw_opcode),
    {
        if let Some(VendorId(vendor_id)) = raw_vendor_id {
            if vendor_id == 0 {
                return Err(ProtocolOpCodeError::InvalidVendorId);
            }
            Ok(ProtocolOpCode::Vendor { vendor_id, protocol: raw_protocol_id, opcode: raw_opcode })
        } else if raw_protocol_id == 0 {
            match SecureChannelOpcode::try_from(raw_opcode) {
                Ok(code) => Ok(ProtocolOpCode::SecureChannel(code)),
                Err(e) => Err(e),
            }
        } else if raw_protocol_id == 1 {
            match InteractionModelOpcode::try_from(raw_opcode) {
                Ok(code) => Ok(ProtocolOpCode::InteractionModel(code)),
                Err(e) => Err(e),
            }
        } else if raw_protocol_id == 2 {
            match BdxOpcode::try_from(raw_opcode) {
                Ok(code) => Ok(ProtocolOpCode::Bdx(code)),
                Err(e) => Err(e),
            }
        } else if raw_protocol_id == 3 {
            match UserDirectedCommissioningOpcode::try_from(raw_opcode) {
                Ok(code) => Ok(ProtocolOpCode::UserDirectedCommissioning(code)),
                Err(e) => Err(e),
            }
        } else {
            Err(ProtocolOpCodeError::UnknownProtocolId)
        }
    }

    /// The vendor id that goes on the wire with this kind.
    pub open spec fn vendor(&self) -> Option<VendorId> {
        match self {
            ProtocolOpCode::Vendor { vendor_id, .. } => Some(VendorId(*vendor_id)),
            _ => None,
        }
    }

    /// Whether the kind is one that a reader accepts: a vendor's kind has a
    /// vendor id other than zero.
    pub open spec fn well_formed(&self) -> bool {
        match self {
            ProtocolOpCode::Vendor { vendor_id, .. } => *vendor_id != 0,
            _ => true,
        }
    }
}

impl ProtocolInfo for ProtocolOpCode {
    open spec fn spec_protocol_id(&self) -> u16 {
        match self {
            ProtocolOpCode::SecureChannel(_) => 0,
            ProtocolOpCode::InteractionModel(_) => 1,
            ProtocolOpCode::Bdx(_) => 2,
            ProtocolOpCode::UserDirectedCommissioning(_) => 3,
            ProtocolOpCode::Vendor { protocol, .. } => *protocol,
        }
    }

    open spec fn spec_protocol_opcode(&self) -> u8 {
        match self {
            ProtocolOpCode::SecureChannel(v) => v.spec_code(),
            ProtocolOpCode::InteractionModel(v) => v.spec_code(),
            ProtocolOpCode::Bdx(v) => v.spec_code(),
            ProtocolOpCode::UserDirectedCommissioning(v) => v.spec_code(),
            ProtocolOpCode::Vendor { opcode, .. } => *opcode,
        }
    }

    fn protocol_id(&self) -> (r: u16) {
        match self {
            ProtocolOpCode::SecureChannel(_) => 0,
            ProtocolOpCode::InteractionModel(_) => 1,
            ProtocolOpCode::Bdx(_) => 2,
            ProtocolOpCode::UserDirectedCommissioning(_) => 3,
            ProtocolOpCode::Vendor { protocol, .. } => *protocol,
        }
    }

    fn protocol_opcode(&self) -> (r: u8) {
        match self {
            ProtocolOpCode::SecureChannel(v) => v.code(),
            ProtocolOpCode::InteractionModel(v) => v.code(),
            ProtocolOpCode::Bdx(v) => v.code(),
            ProtocolOpCode::UserDirectedCommissioning(v) => v.code(),
            ProtocolOpCode::Vendor { opcode, .. } => *opcode,
        }
    }
}

/// A message kind is named on the wire by what gives it back: its vendor id,
/// protocol id and opcode are read as the kind itself.
pub proof fn lemma_from_raw_of_parts(kind: ProtocolOpCode)
    requires
        kind.well_formed(),
    ensures
        ProtocolOpCode::spec_from_raw(
            kind.vendor(),
            kind.spec_protocol_id(),
            kind.spec_protocol_opcode(),
        ) == Ok::<ProtocolOpCode, ProtocolOpCodeError>(kind),
{
}

/// What is read as a message kind is named by exactly what was read.
pub proof fn lemma_parts_of_from_raw(vendor: Option<VendorId>, protocol: u16, opcode: u8)
    requires
        ProtocolOpCode::spec_from_raw(vendor, protocol, opcode) is Ok,
    ensures
        ({
            let kind = ProtocolOpCode::spec_from_raw(vendor, protocol, opcode)->Ok_0;
            &&& kind.well_formed()
            &&& kind.vendor() == vendor
            &&& kind.spec_protocol_id() == protocol
            &&& kind.spec_protocol_opcode() == opcode
        }),
{
}

/// The flags of an exchange header.
#[derive(Debug, Clone, Copy, PartialEq, Eq, Structural)]
pub struct ExchangeFlags {
    pub bits: u8,
}

impl ExchangeFlags {
    pub const INITIATOR: u8 = 0x01;

    pub const ACKNOWLEDGEMENT: u8 = 0x02;

    pub const RELIABILITY: u8 = 0x04;

    pub const SECURED_EXTENSIONS: u8 = 0x08;

    pub const VENDOR: u8 = 0x10;

    /// The bits that have no meaning.
    pub const UNKNOWN: u8 = 0xE0;

    /// Whether `bits` sets only bits that have a meaning.
    pub open spec fn known(bits: u8) -> bool {
        bits & Self::UNKNOWN == 0
    }

    /// No flag set.
    pub fn empty() -> (r: Self)
        ensures
            r.bits == 0,
    {
        ExchangeFlags { bits: 0 }
    }

    /// The flags that `bits` sets, unless one of them has no meaning.
    pub fn from_bits(bits: u8) -> (r: Option<Self>)
        ensures
            r == if Self::known(bits) {
                Some(ExchangeFlags { bits })
            } else {
                None
            },
    {
        if bits & Self::UNKNOWN == 0 {
            Some(ExchangeFlags { bits })
        } else {
            None
        }
    }

    /// The flags as a byte.
    pub fn bits(&self) -> (r: u8)
        ensures
            r == self.bits,
    {
        self.bits
    }

    /// Whether every bit of `mask` is set.
    pub fn contains(&self, mask: u8) -> (r: bool)
        ensures
            r == (self.bits & mask == mask),
    {
        self.bits & mask == mask
    }

    /// The byte `bits` with the bits of `mask` set or cleared.
    pub open spec fn with(bits: u8, mask: u8, value: bool) -> u8 {
        if value {
            bits | mask
        } else {
            bits & !mask
        }
    }

    /// Sets or clears the bits of `mask`.
    pub fn set(&mut self, mask: u8, value: bool)
        ensures
            final(self).bits == Self::with(old(self).bits, mask, value),
    {
        if value {
            self.bits = self.bits | mask;
        } else {
            self.bits = self.bits & !mask;
        }
    }
}

impl Default for ExchangeFlags {
    fn default() -> (r: Self)
        ensures
            r.bits == 0,
    {
        ExchangeFlags { bits: 0 }
    }
}

/// The header of the payload of a Matter message.
#[derive(Debug, Clone, Copy, PartialEq, Eq, Structural)]
pub struct Header {
    pub flags: ExchangeFlags,
    /// The protocol and the opcode.
    pub protocol_opcode: ProtocolOpCode,
    pub exchange: ExchangeId,
    pub ack_counter: Option<u32>,
}

/// The header of the payload of a Matter message, by its full name.
pub type ExchangeHeader = Header;

/// Whether the exchange flags `b0` announce a vendor id.
pub open spec fn vendor_present(b0: u8) -> bool {
    b0 & ExchangeFlags::VENDOR == ExchangeFlags::VENDOR
}

/// Whether the exchange flags `b0` announce an acknowledged counter.
pub open spec fn ack_present(b0: u8) -> bool {
    b0 & ExchangeFlags::ACKNOWLEDGEMENT == ExchangeFlags::ACKNOWLEDGEMENT
}

/// Where the acknowledged counter starts in a header with exchange flags `b0`.
pub open spec fn ack_offset(b0: u8) -> nat {
    if vendor_present(b0) {
        8
    } else {
        6
    }
}

/// The length of a header with exchange flags `b0`.
pub open spec fn header_length(b0: u8) -> nat {
    if ack_present(b0) {
        ack_offset(b0) + 4
    } else {
        ack_offset(b0)
    }
}

/// The message kind that the fields of `b` name.
pub open spec fn kind_at(b: Seq<u8>) -> Result<ProtocolOpCode, ProtocolOpCodeError> {
    ProtocolOpCode::spec_from_raw(
        if vendor_present(b[0]) {
            Some(VendorId(le16(b.skip(6)) as u16))
        } else {
            None
        },
        le16(b.skip(4)) as u16,
        b[1],
    )
}

/// Why `b` does not start with a header, and how many bytes are read before
/// that is found; `None` where it does. The fields are read in the order of
/// the layout; the flags are checked as soon as they are read, the message
/// kind when all fields have been read.
pub open spec fn parse_failure(b: Seq<u8>) -> Option<(HeaderError, nat)> {
    if b.len() < 1 {
        Some((HeaderError::Truncated, 0))
    } else if !ExchangeFlags::known(b[0]) {
        Some((HeaderError::InvalidFlags, 1))
    } else if b.len() < 2 {
        Some((HeaderError::Truncated, 1))
    } else if b.len() < 4 {
        Some((HeaderError::Truncated, 2))
    } else if b.len() < 6 {
        Some((HeaderError::Truncated, 4))
    } else if b.len() < ack_offset(b[0]) {
        Some((HeaderError::Truncated, 6))
    } else if b.len() < header_length(b[0]) {
        Some((HeaderError::Truncated, ack_offset(b[0])))
    } else {
        match kind_at(b) {
            Err(e) => Some((e.spec_header_error(), header_length(b[0]))),
            Ok(_) => None,
        }
    }
}

/// The header that the fields of `b` spell, at their places in the layout.
pub open spec fn header_at(b: Seq<u8>) -> Header {
    Header {
        flags: ExchangeFlags { bits: b[0] },
        protocol_opcode: kind_at(b)->Ok_0,
        exchange: ExchangeId(le16(b.skip(2)) as u16),
        ack_counter: if ack_present(b[0]) {
            Some(le32(b.skip(ack_offset(b[0]) as int)) as u32)
        } else {
            None
        },
    }
}

/// What reading a header from the start of `b` gives.
pub open spec fn parsed(b: Seq<u8>) -> Result<Header, HeaderError> {
    match parse_failure(b) {
        Some((e, _)) => Err(e),
        None => Ok(header_at(b)),
    }
}

/// How many bytes of `b` reading a header takes: the whole header, or the
/// fields read before the failure.
pub open spec fn consumed(b: Seq<u8>) -> nat {
    match parse_failure(b) {
        Some((_, n)) => n,
        None => header_length(b[0]),
    }
}

impl Header {
    /// The flags byte that goes on the wire: the header's flags, with the
    /// vendor and acknowledgement flags set as the fields require.
    pub open spec fn wire_flags(&self) -> u8 {
        ExchangeFlags::with(
            ExchangeFlags::with(
                self.flags.bits,
                ExchangeFlags::VENDOR,
                self.protocol_opcode is Vendor,
            ),
            ExchangeFlags::ACKNOWLEDGEMENT,
            self.ack_counter is Some,
        )
    }

    /// The fields in the order of the layout; a field that is absent has no
    /// bytes.
    pub open spec fn fields(&self) -> Seq<Seq<u8>> {
        seq![
            seq![self.wire_flags()],
            seq![self.protocol_opcode.spec_protocol_opcode()],
            bytes16(self.exchange.0),
            bytes16(self.protocol_opcode.spec_protocol_id()),
            match self.protocol_opcode {
                ProtocolOpCode::Vendor { vendor_id, .. } => bytes16(vendor_id),
                _ => Seq::empty(),
            },
            match self.ack_counter {
                Some(counter) => bytes32(counter),
                None => Seq::empty(),
            },
        ]
    }

    /// The header on the wire.
    pub open spec fn serialized(&self) -> Seq<u8> {
        self.fields()[0] + self.fields()[1] + self.fields()[2] + self.fields()[3]
            + self.fields()[4] + self.fields()[5]
    }

    /// Whether the header is one that a reader gives: its flags have a
    /// meaning and agree with the fields, and its message kind is well-formed.
    pub open spec fn well_formed(&self) -> bool {
        &&& ExchangeFlags::known(self.flags.bits)
        &&& vendor_present(self.flags.bits) == (self.protocol_opcode is Vendor)
        &&& ack_present(self.flags.bits) == (self.ack_counter is Some)
        &&& self.protocol_opcode.well_formed()
    }

    /// Reads a header from `buffer`. On success the reader stands behind the
    /// header; on failure it stands behind the last field that it could read.
    pub fn parse<R: LittleEndianReader>(buffer: &mut R) -> (r: Result<Header, HeaderError>)
        ensures
            r == parsed(old(buffer).unread()),
            final(buffer).unread() == old(buffer).unread().skip(
                consumed(old(buffer).unread()) as int,
            ),
    {
        let ghost b = buffer.unread();
        assert(b.skip(0) =~= b);
        let raw_flags = match buffer.read_le_u8() {
            Ok(v) => v,
            Err(_) => {
                return Err(HeaderError::Truncated);
            },
        };
        let flags = match ExchangeFlags::from_bits(raw_flags) {
            Some(f) => f,
            None => {
                return Err(HeaderError::InvalidFlags);
            },
        };
        let opcode = match buffer.read_le_u8() {
            Ok(v) => v,
            Err(_) => {
                return Err(HeaderError::Truncated);
            },
        };
        assert(b.skip(1).skip(1) =~= b.skip(2));
        let exchange = match buffer.read_le_u16() {
            Ok(v) => ExchangeId(v),
            Err(_) => {
                return Err(HeaderError::Truncated);
            },
        };
        assert(b.skip(2).skip(2) =~= b.skip(4));
        let protocol = match buffer.read_le_u16() {
            Ok(v) => v,
            Err(_) => {
                return Err(HeaderError::Truncated);
            },
        };
        assert(b.skip(4).skip(2) =~= b.skip(6));
        let vendor_id = if flags.contains(ExchangeFlags::VENDOR) {
            match buffer.read_le_u16() {
                Ok(v) => {
                    assert(b.skip(6).skip(2) =~= b.skip(8));
                    Some(VendorId(v))
                },
                Err(_) => {
                    return Err(HeaderError::Truncated);
                },
            }
        } else {
            None
        };
        let ghost at = ack_offset(raw_flags) as int;
        assert(buffer.unread() == b.skip(at));
        let ack_counter = if flags.contains(ExchangeFlags::ACKNOWLEDGEMENT) {
            match buffer.read_le_u32() {
                Ok(v) => {
                    assert(b.skip(at).skip(4) =~= b.skip(at + 4));
                    Some(v)
                },
                Err(_) => {
                    return Err(HeaderError::Truncated);
                },
            }
        } else {
            None
        };
        match ProtocolOpCode::from_raw(vendor_id, protocol, opcode) {
            Ok(protocol_opcode) => Ok(Header { flags, protocol_opcode, exchange, ack_counter }),
            Err(e) => Err(e.header_error()),
        }
    }

    /// Writes the header into `writer`, field after field. It stops at the
    /// first field for which there is no room; so the whole header is
    /// written exactly if there is room for all of it.
    pub fn write<W: LittleEndianWriter>(&self, writer: &mut W) -> (r: Result<
        (),
        EndianWriteError,
    >)
        ensures
            writes_in_turn(
                self.fields(),
                old(writer).output(),
                old(writer).room(),
                final(writer).output(),
                final(writer).room(),
                r,
            ),
            r is Ok <==> self.serialized().len() <= old(writer).room(),
            r is Ok ==> final(writer).output() == old(writer).output() + self.serialized(),
    {
        let ghost before = writer.output();
        let ghost room = writer.room();
        let r = self.write_fields(writer);
        proof {
            lemma_writes_in_turn_all(
                self.fields(),
                before,
                room,
                writer.output(),
                writer.room(),
                r,
            );
            self.lemma_fields_joined();
        }
        r
    }

    /// The fields one after the other are the header on the wire.
    pub proof fn lemma_fields_joined(&self)
        ensures
            joined(self.fields()) == self.serialized(),
    {
        reveal_with_fuel(joined, 7);
        let f = self.fields();
        assert(f.skip(1)[0] == f[1]);
        assert(f.skip(1).skip(1)[0] == f[2]);
        assert(f.skip(1).skip(1).skip(1)[0] == f[3]);
        assert(f.skip(1).skip(1).skip(1).skip(1)[0] == f[4]);
        assert(f.skip(1).skip(1).skip(1).skip(1).skip(1)[0] == f[5]);
        assert(f.skip(1).skip(1).skip(1).skip(1).skip(1).skip(1).len() == 0);
        assert(joined(f) =~= self.serialized());
    }

    /// Writes the fields in turn.
    fn write_fields<W: LittleEndianWriter>(&self, writer: &mut W) -> (r: Result<
        (),
        EndianWriteError,
    >)
        ensures
            writes_in_turn(
                self.fields(),
                old(writer).output(),
                old(writer).room(),
                final(writer).output(),
                final(writer).room(),
                r,
            ),
    {
        let mut flags = self.flags;
        let is_vendor = match self.protocol_opcode {
            ProtocolOpCode::Vendor { .. } => true,
            _ => false,
        };
        flags.set(ExchangeFlags::VENDOR, is_vendor);
        flags.set(ExchangeFlags::ACKNOWLEDGEMENT, self.ack_counter.is_some());
        proof {
            reveal_with_fuel(writes_in_turn, 7);
        }
        let ghost f = self.fields();
        assert(f.skip(1)[0] == f[1]);
        assert(f.skip(1).skip(1)[0] == f[2]);
        assert(f.skip(1).skip(1).skip(1)[0] == f[3]);
        assert(f.skip(1).skip(1).skip(1).skip(1)[0] == f[4]);
        assert(f.skip(1).skip(1).skip(1).skip(1).skip(1)[0] == f[5]);
        assert(f.skip(1).skip(1).skip(1).skip(1).skip(1).skip(1).len() == 0);
        match writer.write_le_u8(flags.bits()) {
            Ok(()) => {},
            Err(e) => {
                return Err(e);
            },
        }
        match writer.write_le_u8(self.protocol_opcode.protocol_opcode()) {
            Ok(()) => {},
            Err(e) => {
                return Err(e);
            },
        }
        match writer.write_le_u16(self.exchange.0) {
            Ok(()) => {},
            Err(e) => {
                return Err(e);
            },
        }
        match writer.write_le_u16(self.protocol_opcode.protocol_id()) {
            Ok(()) => {},
            Err(e) => {
                return Err(e);
            },
        }
        let ghost before_vendor = writer.output();
        if let ProtocolOpCode::Vendor { vendor_id, .. } = self.protocol_opcode {
            match writer.write_le_u16(vendor_id) {
                Ok(()) => {},
                Err(e) => {
                    return Err(e);
                },
            }
        } else {
            assert(before_vendor + f[4] =~= before_vendor);
        }
        let ghost before_ack = writer.output();
        if let Some(counter) = self.ack_counter {
            match writer.write_le_u32(counter) {
                Ok(()) => {},
                Err(e) => {
                    return Err(e);
                },
            }
        } else {
            assert(before_ack + f[5] =~= before_ack);
        }
        Ok(())
    }
}

/// Why a header could not be built.
#[derive(Debug, Clone, Copy, PartialEq, Eq)]
pub enum HeaderBuilderError {
    /// The field of this name has to be set, and was not.
    UninitializedField(&'static str),
}

/// Builds a header field by field. The message kind and the exchange have
/// to be set; without flags the header has none set, and without an
/// acknowledged counter it carries none.
#[derive(Debug, Clone, Copy)]
pub struct HeaderBuilder {
    pub flags: Option<ExchangeFlags>,
    pub protocol_opcode: Option<ProtocolOpCode>,
    pub exchange: Option<ExchangeId>,
    pub ack_counter: Option<Option<u32>>,
}

impl Default for HeaderBuilder {
    /// A builder in which no field is set.
    fn default() -> (r: Self)
        ensures
            r.flags is None,
            r.protocol_opcode is None,
            r.exchange is None,
            r.ack_counter is None,
    {
        HeaderBuilder { flags: None, protocol_opcode: None, exchange: None, ack_counter: None }
    }
}

impl HeaderBuilder {
    pub fn flags(self, value: ExchangeFlags) -> (r: Self)
        ensures
            r == (HeaderBuilder { flags: Some(value), ..self }),
    {
        HeaderBuilder { flags: Some(value), ..self }
    }

    pub fn protocol_opcode(self, value: ProtocolOpCode) -> (r: Self)
        ensures
            r == (HeaderBuilder { protocol_opcode: Some(value), ..self }),
    {
        HeaderBuilder { protocol_opcode: Some(value), ..self }
    }

    pub fn exchange(self, value: ExchangeId) -> (r: Self)
        ensures
            r == (HeaderBuilder { exchange: Some(value), ..self }),
    {
        HeaderBuilder { exchange: Some(value), ..self }
    }

    pub fn ack_counter(self, value: Option<u32>) -> (r: Self)
        ensures
            r == (HeaderBuilder { ack_counter: Some(value), ..self }),
    {
        HeaderBuilder { ack_counter: Some(value), ..self }
    }

    /// The header of the fields that were set. The first field that has to
    /// be set and was not is named in the failure.
    pub fn build(&self) -> (r: Result<Header, HeaderBuilderError>)
        ensures
            match r {
                Ok(header) => {
                    &&& self.protocol_opcode == Some(header.protocol_opcode)
                    &&& self.exchange == Some(header.exchange)
                    &&& header.flags == match self.flags {
                        Some(flags) => flags,
                        None => ExchangeFlags { bits: 0 },
                    }
                    &&& header.ack_counter == match self.ack_counter {
                        Some(ack_counter) => ack_counter,
                        None => None,
                    }
                },
                Err(HeaderBuilderError::UninitializedField(name)) => {
                    ||| self.protocol_opcode is None && name == "protocol_opcode"
                    ||| self.protocol_opcode is Some && self.exchange is None && name
                        == "exchange"
                },
            },
    {
        let flags = match self.flags {
            Some(flags) => flags,
            None => ExchangeFlags::empty(),
        };
        let protocol_opcode = match self.protocol_opcode {
            Some(protocol_opcode) => protocol_opcode,
            None => {
                return Err(HeaderBuilderError::UninitializedField("protocol_opcode"));
            },
        };
        let exchange = match self.exchange {
            Some(exchange) => exchange,
            None => {
                return Err(HeaderBuilderError::UninitializedField("exchange"));
            },
        };
        let ack_counter = match self.ack_counter {
            Some(ack_counter) => ack_counter,
            None => None,
        };
        Ok(Header { flags, protocol_opcode, exchange, ack_counter })
    }
}

/// Setting the vendor and acknowledgement flags as the fields require leaves
/// the other flags alone, and changes nothing where the flags already agree
/// with the fields.
proof fn lemma_wire_flag_bits(bits: u8, vendor: bool, ack: bool)
    by (bit_vector)
    requires
        bits & 0xE0 == 0,
    ensures
        ({
            let v = if vendor {
                bits | 0x10
            } else {
                bits & !0x10u8
            };
            let w = if ack {
                v | 0x02
            } else {
                v & !0x02u8
            };
            &&& w & 0xE0 == 0
            &&& (w & 0x10 == 0x10) == vendor
            &&& (w & 0x02 == 0x02) == ack
            &&& ((bits & 0x10 == 0x10) == vendor && (bits & 0x02 == 0x02) == ack) ==> w == bits
        }),
{
}

/// Reading what was written gives the header back: the bytes of a
/// well-formed header, whatever follows them, are read as that header, and
/// the reading takes exactly those bytes.
pub proof fn lemma_parse_serialized(h: Header, rest: Seq<u8>)
    requires
        h.well_formed(),
    ensures
        parsed(h.serialized() + rest) == Ok::<Header, HeaderError>(h),
        consumed(h.serialized() + rest) == h.serialized().len(),
{
    let s = h.serialized();
    let b = s + rest;
    lemma_wire_flag_bits(h.flags.bits, h.protocol_opcode is Vendor, h.ack_counter is Some);
    lemma_from_raw_of_parts(h.protocol_opcode);
    lemma_read_written_16(h.exchange.0);
    lemma_read_written_16(h.protocol_opcode.spec_protocol_id());
    assert(b[0] == h.flags.bits);
    assert(b[1] == h.protocol_opcode.spec_protocol_opcode());
    assert(b.skip(2)[0] == bytes16(h.exchange.0)[0] && b.skip(2)[1] == bytes16(h.exchange.0)[1]);
    assert(b.skip(4)[0] == bytes16(h.protocol_opcode.spec_protocol_id())[0] && b.skip(4)[1]
        == bytes16(h.protocol_opcode.spec_protocol_id())[1]);
    let at = ack_offset(b[0]) as int;
    match h.protocol_opcode {
        ProtocolOpCode::Vendor { vendor_id, .. } => {
            lemma_read_written_16(vendor_id);
            assert(b.skip(6)[0] == bytes16(vendor_id)[0] && b.skip(6)[1] == bytes16(vendor_id)[1]);
        },
        _ => {},
    }
    match h.ack_counter {
        Some(counter) => {
            lemma_read_written_32(counter);
            assert(b.skip(at)[0] == bytes32(counter)[0] && b.skip(at)[1] == bytes32(counter)[1]
                && b.skip(at)[2] == bytes32(counter)[2] && b.skip(at)[3] == bytes32(counter)[3]);
        },
        None => {},
    }
    assert(kind_at(b) == Ok::<ProtocolOpCode, ProtocolOpCodeError>(h.protocol_opcode));
    assert(header_at(b).ack_counter == h.ack_counter);
}

/// Writing what was read gives the bytes back: the header that is read from
/// `b` is well-formed and is written as exactly the bytes that the reading
/// took.
pub proof fn lemma_serialize_parsed(b: Seq<u8>)
    requires
        parsed(b) is Ok,
    ensures
        parsed(b)->Ok_0.well_formed(),
        parsed(b)->Ok_0.serialized() == b.take(consumed(b) as int),
{
    let h = parsed(b)->Ok_0;
    let vendor = if vendor_present(b[0]) {
        Some(VendorId(le16(b.skip(6)) as u16))
    } else {
        None
    };
    lemma_written_read_16(b.skip(2));
    lemma_written_read_16(b.skip(4));
    lemma_parts_of_from_raw(vendor, le16(b.skip(4)) as u16, b[1]);
    lemma_wire_flag_bits(b[0], h.protocol_opcode is Vendor, h.ack_counter is Some);
    let at = ack_offset(b[0]) as int;
    if vendor_present(b[0]) {
        lemma_written_read_16(b.skip(6));
    }
    if ack_present(b[0]) {
        lemma_written_read_32(b.skip(at));
    }
    assert(h.serialized() =~= b.take(consumed(b) as int));
}

} // verus!
