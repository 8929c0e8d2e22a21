//! The identities of the Matter service and of its characteristics, as the
//! numbers of their 128-bit UUIDs.

use vstd::prelude::*;

verus! {

/// The services of a Matter device.
pub struct Services;

/// The characteristics of the Matter service.
pub struct Characteristics;

impl Services {
    /// The Matter service, `0000FFF6-0000-1000-8000-00805F9B34FB`.
    pub const MATTER: u128 = 0x0000FFF6_0000_1000_8000_00805F9B34FB;
}

impl Characteristics {
    /// The characteristic that frames are written to,
    /// `18EE2EF5-263D-4559-959F-4F9C429F9D11`.
    pub const WRITE: u128 = 0x18EE2EF5_263D_4559_959F_4F9C429F9D11;

    /// The characteristic that frames are read from,
    /// `18EE2EF5-263D-4559-959F-4F9C429F9D12`.
    pub const READ: u128 = 0x18EE2EF5_263D_4559_959F_4F9C429F9D12;

    /// The characteristic that holds commissioning data,
    /// `64630238-8772-45F2-B87D-748A83218F04`.
    pub const COMMISSIONING_DATA: u128 = 0x64630238_8772_45F2_B87D_748A83218F04;
}

/// What a characteristic of the Matter service is for.
#[derive(Debug, Clone, Copy, PartialEq, Eq, Structural)]
pub enum CharacteristicRole {
    Write,
    Read,
    CommissioningData,
    /// Not a characteristic that the transport knows.
    Unknown,
}

/// What the characteristic with the UUID `uuid` is for.
pub fn characteristic_role(uuid: u128) -> (r: CharacteristicRole)
    ensures
        r == if uuid == Characteristics::WRITE {
            CharacteristicRole::Write
        } else if uuid == Characteristics::READ {
            CharacteristicRole::Read
        } else if uuid == Characteristics::COMMISSIONING_DATA {
            CharacteristicRole::CommissioningData
        } else {
            CharacteristicRole::Unknown
        },
{
    if uuid == Characteristics::WRITE {
        CharacteristicRole::Write
    } else if uuid == Characteristics::READ {
        CharacteristicRole::Read
    } else if uuid == Characteristics::COMMISSIONING_DATA {
        CharacteristicRole::CommissioningData
    } else {
        CharacteristicRole::Unknown
    }
}

} // verus!
