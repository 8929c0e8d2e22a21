use matter_ble::reader::LittleEndianReader;
use matter_ble::writer::{
    EndianWriteError, LittleEndianWriter, SliceLittleEndianWriter, SpaceEstimator,
};

#[test]
fn slice_writer() {
    let mut buffer = [0u8; 16];
    {
        let mut writer = SliceLittleEndianWriter::new(buffer.as_mut_slice());

        assert!(writer.write_le_u32(0x12345678).is_ok());
        assert_eq!(writer.written(), 4);
        assert!(writer.write_le_u16(0xaabb).is_ok());
        assert_eq!(writer.written(), 6);
        assert!(writer.write_le_u64(0x1122334455667788).is_ok());
        assert_eq!(writer.written(), 14);
        assert!(writer.write_le_u8(0xff).is_ok());
        assert_eq!(writer.written(), 15);
    }

    assert_eq!(
        buffer[0..15],
        [
            0x78, 0x56, 0x34, 0x12, 0xbb, 0xaa, 0x88, 0x77, 0x66, 0x55, 0x44, 0x33, 0x22, 0x11,
            0xff
        ]
    );
}

#[test]
fn slice_writer_overflow() {
    let mut buffer = [0u8; 3];
    let mut writer = SliceLittleEndianWriter::new(buffer.as_mut_slice());
    assert_eq!(
        writer.write_le_u32(123),
        Err(EndianWriteError::InsufficientSpace { missing: 1 })
    );
    assert_eq!(
        writer.write_le_u64(1122),
        Err(EndianWriteError::InsufficientSpace { missing: 5 })
    );
}

#[test]
fn failed_write_leaves_the_slice_alone() {
    let mut buffer = [7u8; 3];
    {
        let mut writer = SliceLittleEndianWriter::new(buffer.as_mut_slice());
        assert!(writer.write_le_u16(0x0102).is_ok());
        assert_eq!(
            writer.write_le_u16(0x0304),
            Err(EndianWriteError::InsufficientSpace { missing: 1 })
        );
        assert_eq!(writer.written(), 2);
        assert!(writer.write(&[]).is_ok());
        assert!(writer.write_le_u8(9).is_ok());
        assert_eq!(
            writer.write_le_u8(9),
            Err(EndianWriteError::InsufficientSpace { missing: 1 })
        );
    }
    assert_eq!(buffer, [0x02, 0x01, 9]);
}

#[test]
fn space_estimator_counts() {
    let mut estimator = SpaceEstimator::default();

    assert_eq!(estimator.written(), 0);

    assert!(estimator.write_le_u32(123).is_ok());
    assert_eq!(estimator.written(), 4);

    assert!(estimator.write_le_u64(0xabcd).is_ok());
    assert_eq!(estimator.written(), 12);

    assert!(estimator.write([0; 28].as_slice()).is_ok());
    assert_eq!(estimator.written(), 40);
}

#[test]
fn written_values_are_read_back() {
    let bytes: [u8; 5] = [0, 1, 0x7F, 0x80, 0xFF];
    let shorts: [u16; 5] = [0, 1, 0x00FF, 0x0100, 0xFFFF];
    let words: [u32; 5] = [0, 1, 0x0001_0000, 0x8000_0001, 0xFFFF_FFFF];
    let longs: [u64; 5] = [
        0,
        1,
        0x0000_0001_0000_0000,
        0x8000_0000_0000_0001,
        0xFFFF_FFFF_FFFF_FFFF,
    ];
    for i in 0..5 {
        let mut buffer = [0u8; 15];
        {
            let mut writer = SliceLittleEndianWriter::new(buffer.as_mut_slice());
            assert!(writer.write_le_u8(bytes[i]).is_ok());
            assert!(writer.write_le_u16(shorts[i]).is_ok());
            assert!(writer.write_le_u32(words[i]).is_ok());
            assert!(writer.write_le_u64(longs[i]).is_ok());
            assert_eq!(writer.written(), 15);
        }
        let mut data: &[u8] = &buffer;
        assert_eq!(data.read_le_u8(), Ok(bytes[i]));
        assert_eq!(data.read_le_u16(), Ok(shorts[i]));
        assert_eq!(data.read_le_u32(), Ok(words[i]));
        assert_eq!(data.read_le_u64(), Ok(longs[i]));
        assert_eq!(data, &[]);
    }
}
