use matter_ble::reader::{BytesSource, EndianReadError, LittleEndianReader};

#[test]
fn read_support() {
    let mut data: &[u8] = &[1, 2, 3, 4, 5, 6, 7];

    assert_eq!(LittleEndianReader::read(&mut data, 3).unwrap(), &[1, 2, 3]);
    assert_eq!(LittleEndianReader::read(&mut data, 0).unwrap(), &[]);
    assert_eq!(LittleEndianReader::read(&mut data, 1).unwrap(), &[4]);
    assert_eq!(data, &[5, 6, 7]);
}

#[test]
fn reader_const_parse_data() {
    let mut data: &[u8] = &[
        1, 0x11, 0x12, 0x01, 0x02, 0x03, 0x04, 0x05, 0x06, 0x07, 0x08,
    ];

    assert_eq!(data.read_le_u8(), Ok(1));
    assert_eq!(data.read_le_u16(), Ok(0x1211));
    assert_eq!(data.read_le_u64(), Ok(0x0807060504030201));
    assert!(data.read_le_u8().is_err());

    let mut data: &[u8] = &[
        1, 0x11, 0x12, 0x01, 0x02, 0x03, 0x04, 0x05, 0x06, 0x07, 0x08,
    ];
    assert_eq!(data.read_le_u32(), Ok(0x01121101));
    assert_eq!(data, &[0x02, 0x03, 0x04, 0x05, 0x06, 0x07, 0x08]);
}

#[test]
fn lib_const_parse_data() {
    let mut data: &[u8] = &[
        1, 0x11, 0x12, 0x01, 0x02, 0x03, 0x04, 0x05, 0x06, 0x07, 0x08,
    ];

    assert_eq!(data.read_le_u8(), Ok(1));
    assert_eq!(data.read_le_u16(), Ok(0x1211));
    assert_eq!(data.read_le_u64(), Ok(0x0807060504030201));
    assert!(data.read_le_u8().is_err());

    let mut data: &[u8] = &[
        1, 0x11, 0x12, 0x01, 0x02, 0x03, 0x04, 0x05, 0x06, 0x07, 0x08,
    ];
    assert_eq!(data.read_le_u32(), Ok(0x01121101));
    assert_eq!(data, &[0x02, 0x03, 0x04, 0x05, 0x06, 0x07, 0x08]);
}

#[test]
fn skip_support() {
    let mut data: &[u8] = &[1, 2, 3, 4, 5, 6, 7];

    assert!(data.skip(2).is_ok());
    assert_eq!(data.read_le_u16(), Ok(0x0403));
    assert!(data.skip(1).is_ok());
    assert_eq!(data, &[6, 7]);
    assert!(data.skip(0).is_ok());
    assert_eq!(data, &[6, 7]);
}

#[test]
fn read_past_the_end_takes_nothing() {
    let mut data: &[u8] = &[1, 2, 3];
    assert_eq!(data.read_le_u32(), Err(EndianReadError::InsufficientData));
    assert_eq!(data.read_le_u64(), Err(EndianReadError::InsufficientData));
    assert_eq!(
        BytesSource::read(&mut data, 4),
        Err(EndianReadError::InsufficientData)
    );
    assert_eq!(data.skip(4), Err(EndianReadError::InsufficientData));
    assert_eq!(data, &[1, 2, 3]);

    let mut data: &[u8] = &[];
    assert_eq!(data.read_le_u8(), Err(EndianReadError::InsufficientData));
    assert_eq!(data.read_le_u16(), Err(EndianReadError::InsufficientData));
}

#[test]
fn reads_are_little_endian() {
    let mut data: &[u8] = &[0x34, 0x12, 0x78, 0x56, 0x34, 0x12, 0xEF, 0xCD, 0xAB, 0x89, 0x67, 0x45, 0x23, 0x01];
    assert_eq!(data.read_le_u16(), Ok(0x1234));
    assert_eq!(data.read_le_u32(), Ok(0x12345678));
    assert_eq!(data.read_le_u64(), Ok(0x0123456789ABCDEF));
    assert_eq!(data, &[]);
}

#[test]
fn mut_parse_data() {
    let mut data: &mut [u8] = &mut [0xaa; 16];
    data[0] = 2;
    assert_eq!(data.read_le_u8(), Ok(2));

    data[0] = 0x34;
    data[1] = 0x12;
    assert_eq!(data.read_le_u16(), Ok(0x1234));

    data[0] = 0x11;
    assert_eq!(data.read_le_u64(), Ok(0xaaaaaaaaaaaaaa11));

    assert_eq!(data, [0xaa; 5]);
    assert_eq!(data.read_le_u64(), Err(EndianReadError::InsufficientData));
    assert_eq!(data, [0xaa; 5]);
}
