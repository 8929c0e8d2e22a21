use matter_ble::btp::uuids::{
    characteristic_role, CharacteristicRole, Characteristics, Services,
};

#[test]
fn service_and_characteristic_identities() {
    assert_eq!(Services::MATTER, 0x0000FFF6_0000_1000_8000_00805F9B34FBu128);
    assert_eq!(
        characteristic_role(0x18EE2EF5_263D_4559_959F_4F9C429F9D11),
        CharacteristicRole::Write
    );
    assert_eq!(
        characteristic_role(Characteristics::READ),
        CharacteristicRole::Read
    );
    assert_eq!(
        characteristic_role(0x64630238_8772_45F2_B87D_748A83218F04),
        CharacteristicRole::CommissioningData
    );
    assert_eq!(
        characteristic_role(Services::MATTER),
        CharacteristicRole::Unknown
    );
    assert_eq!(Characteristics::WRITE + 1, Characteristics::READ);
}
