//! What a commissionable Matter device advertises over BLE.
//!
//! The payload has eight bytes: the opcode 0, two bytes with a version of
//! four bits above a discriminator of twelve, the vendor id, the product id,
//! and a flags byte. The numbers are little-endian; a vendor id or product id
//! of zero means that none is given.

use crate::btp::framing::FrameError;
use crate::endian::{le16, read_u16};
use crate::types::{ProductId, VendorId};
use vstd::prelude::*;

verus! {

/// The flags of a commissionable advertisement.
#[derive(Debug, Clone, Copy, PartialEq, Eq, Structural)]
pub struct ComissionableFlags {
    pub bits: u8,
}

impl ComissionableFlags {
    pub const ADDITIONAL_DATA: u8 = 0x01;

    /// The bits that are reserved.
    pub const UNKNOWN: u8 = 0xFE;

    /// Whether `bits` sets only bits that have a meaning.
    pub open spec fn known(bits: u8) -> bool {
        bits & Self::UNKNOWN == 0
    }

    /// No flag set.
    pub fn empty() -> (r: Self)
        ensures
            r.bits == 0,
    {
        ComissionableFlags { bits: 0 }
    }

    /// The flags that `bits` sets, unless one of them has no meaning.
    pub fn from_bits(bits: u8) -> (r: Option<Self>)
        ensures
            r == if Self::known(bits) {
                Some(ComissionableFlags { bits })
            } else {
                None
            },
    {
        if bits & Self::UNKNOWN == 0 {
            Some(ComissionableFlags { bits })
        } else {
            None
        }
    }

    /// The flags as a byte.
    pub fn bits(&self) -> (r: u8)
        ensures
            r == self.bits,
    {
        self.bits
    }

    /// Whether every bit of `mask` is set.
    pub fn contains(&self, mask: u8) -> (r: bool)
        ensures
            r == (self.bits & mask == mask),
    {
        self.bits & mask == mask
    }
}

/// Tells devices of one kind apart during commissioning; twelve bits.
#[derive(Debug, Clone, Copy, PartialEq, Eq, Structural)]
pub struct Discriminator(pub u16);

/// What a commissionable device advertises.
#[derive(Debug, Clone, Copy, PartialEq, Eq, Structural)]
pub struct Commissionable {
    pub discriminator: Discriminator,
    pub vendor_id: Option<VendorId>,
    pub product_id: Option<ProductId>,
    pub flags: ComissionableFlags,
}

/// The two bytes that hold the version and the discriminator.
pub open spec fn version_and_discriminator(b: Seq<u8>) -> u16 {
    le16(b.skip(1)) as u16
}

/// Why `b` is not a commissionable advertisement; `None` where it is one.
/// The length is checked first, then the opcode, the version and the flags.
pub open spec fn advertisement_failure(b: Seq<u8>) -> Option<FrameError> {
    if b.len() < 8 {
        Some(FrameError::Truncated)
    } else if b[0] != 0 {
        Some(FrameError::InvalidOpcode)
    } else if (version_and_discriminator(b) >> 12) & 0x0F != 0 {
        Some(FrameError::InvalidVersion)
    } else if !ComissionableFlags::known(b[7]) {
        Some(FrameError::InvalidFlags)
    } else {
        None
    }
}

/// What the fields of the advertisement `b` say.
pub open spec fn advertisement_at(b: Seq<u8>) -> Commissionable {
    Commissionable {
        discriminator: Discriminator(version_and_discriminator(b) & 0x0FFF),
        vendor_id: if le16(b.skip(3)) == 0 {
            None
        } else {
            Some(VendorId(le16(b.skip(3)) as u16))
        },
        product_id: if le16(b.skip(5)) == 0 {
            None
        } else {
            Some(ProductId(le16(b.skip(5)) as u16))
        },
        flags: ComissionableFlags { bits: b[7] },
    }
}

impl Commissionable {
    /// Reads the first eight bytes of `data` as a commissionable
    /// advertisement. Another opcode than 0, another version than 0 and
    /// reserved flags are refused.
    pub fn parse(data: &[u8]) -> (r: Result<Commissionable, FrameError>)
        ensures
            r == match advertisement_failure(data@) {
                Some(e) => Err::<Commissionable, FrameError>(e),
                None => Ok::<Commissionable, FrameError>(advertisement_at(data@)),
            },
    {
        if data.len() < 8 {
            return Err(FrameError::Truncated);
        }
        let opcode = data[0];
        if opcode != 0x00 {
            return Err(FrameError::InvalidOpcode);
        }
        let (_, from_1) = data.split_at(1);
        let (_, from_3) = data.split_at(3);
        let (_, from_5) = data.split_at(5);
        let version_and_discriminator = read_u16(from_1);
        let vendor_id = read_u16(from_3);
        let product_id = read_u16(from_5);
        let flags = data[7];
        let version = (version_and_discriminator >> 12) & 0x0F;
        if version != 0 {
            return Err(FrameError::InvalidVersion);
        }
        let discriminator = Discriminator(version_and_discriminator & 0x0FFF);
        let vendor_id = if vendor_id == 0 {
            None
        } else {
            Some(VendorId(vendor_id))
        };
        let product_id = if product_id == 0 {
            None
        } else {
            Some(ProductId(product_id))
        };
        let flags = match ComissionableFlags::from_bits(flags) {
            Some(f) => f,
            None => {
                return Err(FrameError::InvalidFlags);
            },
        };
        Ok(Commissionable { discriminator, vendor_id, product_id, flags })
    }
}

} // verus!
