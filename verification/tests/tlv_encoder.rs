use matter_ble::tlv::encoder::write_record;
use matter_ble::tlv::parser::{read_record, Parser};
use matter_ble::tlv::value::{ContainerType, Record, TagValue, Value};
use matter_ble::writer::{EndianWriteError, SliceLittleEndianWriter, SpaceEstimator};

fn encode(record: &Record) -> Vec<u8> {
    let mut estimator = SpaceEstimator::default();
    assert!(write_record(record, &mut estimator).is_ok());
    let mut buffer = vec![0u8; estimator.written()];
    {
        let mut writer = SliceLittleEndianWriter::new(buffer.as_mut_slice());
        assert!(write_record(record, &mut writer).is_ok());
        assert_eq!(writer.written(), estimator.written());
    }
    buffer
}

fn anonymous(value: Value) -> Record {
    Record {
        tag: TagValue::Anonymous,
        value,
    }
}

#[test]
fn records_are_written_in_their_shortest_form() {
    assert_eq!(encode(&anonymous(Value::Signed(-2))), [0x00, 0xFE]);
    assert_eq!(encode(&anonymous(Value::Signed(127))), [0x00, 0x7F]);
    assert_eq!(encode(&anonymous(Value::Signed(128))), [0x01, 0x80, 0x00]);
    assert_eq!(encode(&anonymous(Value::Signed(-129))), [0x01, 0x7F, 0xFF]);
    assert_eq!(
        encode(&anonymous(Value::Signed(-32769))),
        [0x02, 0xFF, 0x7F, 0xFF, 0xFF]
    );
    assert_eq!(
        encode(&anonymous(Value::Signed(i64::MIN))),
        [0x03, 0, 0, 0, 0, 0, 0, 0, 0x80]
    );
    assert_eq!(
        encode(&anonymous(Value::Signed(-0x8000_0001))),
        [0x03, 0xFF, 0xFF, 0xFF, 0x7F, 0xFF, 0xFF, 0xFF, 0xFF]
    );
    assert_eq!(encode(&anonymous(Value::Unsigned(255))), [0x04, 0xFF]);
    assert_eq!(encode(&anonymous(Value::Unsigned(256))), [0x05, 0x00, 0x01]);
    assert_eq!(
        encode(&anonymous(Value::Unsigned(0x12345678))),
        [0x06, 0x78, 0x56, 0x34, 0x12]
    );
    assert_eq!(
        encode(&anonymous(Value::Unsigned(0x0123456789ABCDEF))),
        [0x07, 0xEF, 0xCD, 0xAB, 0x89, 0x67, 0x45, 0x23, 0x01]
    );
    assert_eq!(encode(&anonymous(Value::Bool(false))), [0x08]);
    assert_eq!(encode(&anonymous(Value::Bool(true))), [0x09]);
    assert_eq!(
        encode(&anonymous(Value::Float(1.25f32.to_bits()))),
        [0x0A, 0x00, 0x00, 0xA0, 0x3F]
    );
    assert_eq!(
        encode(&anonymous(Value::Double(1.25f64.to_bits()))),
        [0x0B, 0, 0, 0, 0, 0, 0, 0xF4, 0x3F]
    );
    assert_eq!(
        encode(&anonymous(Value::Utf8(&[0x41, 0x42, 0x43]))),
        [0x0C, 0x03, 0x41, 0x42, 0x43]
    );
    assert_eq!(encode(&anonymous(Value::Bytes(&[]))), [0x10, 0x00]);
    assert_eq!(encode(&anonymous(Value::Null)), [0x14]);
    assert_eq!(
        encode(&anonymous(Value::ContainerStart(ContainerType::Structure))),
        [0x15]
    );
    assert_eq!(
        encode(&anonymous(Value::ContainerStart(ContainerType::Array))),
        [0x16]
    );
    assert_eq!(
        encode(&anonymous(Value::ContainerStart(ContainerType::List))),
        [0x17]
    );
    assert_eq!(encode(&anonymous(Value::ContainerEnd)), [0x18]);

    let long = vec![0x5Au8; 300];
    let encoded = encode(&anonymous(Value::Bytes(&long)));
    assert_eq!(encoded[..3], [0x11, 0x2C, 0x01]);
    assert_eq!(encoded[3..], long[..]);
}

#[test]
fn tags_are_written_in_their_shortest_form() {
    let null = |tag| Record {
        tag,
        value: Value::Null,
    };
    assert_eq!(
        encode(&null(TagValue::ContextSpecific { tag: 7 })),
        [0x34, 0x07]
    );
    assert_eq!(
        encode(&null(TagValue::Implicit { tag: 0x1234 })),
        [0x94, 0x34, 0x12]
    );
    assert_eq!(
        encode(&null(TagValue::Implicit { tag: 0x12345 })),
        [0xB4, 0x45, 0x23, 0x01, 0x00]
    );
    assert_eq!(
        encode(&null(TagValue::Full {
            vendor_id: 0,
            profile_id: 0,
            tag: 1
        })),
        [0x54, 0x01, 0x00]
    );
    assert_eq!(
        encode(&null(TagValue::Full {
            vendor_id: 0,
            profile_id: 0,
            tag: 0x10000
        })),
        [0x74, 0x00, 0x00, 0x01, 0x00]
    );
    assert_eq!(
        encode(&null(TagValue::Full {
            vendor_id: 0x1122,
            profile_id: 1,
            tag: 0x1234
        })),
        [0xD4, 0x22, 0x11, 0x01, 0x00, 0x34, 0x12]
    );
    assert_eq!(
        encode(&null(TagValue::Full {
            vendor_id: 0,
            profile_id: 1,
            tag: 0x12345678
        })),
        [0xF4, 0x00, 0x00, 0x01, 0x00, 0x78, 0x56, 0x34, 0x12]
    );
}

#[test]
fn written_records_are_read_back() {
    let text = [0xE2u8, 0x9D, 0xA4];
    let long = vec![7u8; 70000];
    let tags = [
        TagValue::Anonymous,
        TagValue::ContextSpecific { tag: 0 },
        TagValue::ContextSpecific { tag: 255 },
        TagValue::Implicit { tag: 0 },
        TagValue::Implicit { tag: 0xFFFF },
        TagValue::Implicit { tag: 0x10000 },
        TagValue::Implicit { tag: u32::MAX },
        TagValue::Full {
            vendor_id: 0,
            profile_id: 0,
            tag: 0xFFFF,
        },
        TagValue::Full {
            vendor_id: 0,
            profile_id: 0,
            tag: u32::MAX,
        },
        TagValue::Full {
            vendor_id: 0xFFFF,
            profile_id: 0,
            tag: 0,
        },
        TagValue::Full {
            vendor_id: 0,
            profile_id: 0xFFFF,
            tag: 0x10000,
        },
    ];
    let values = [
        Value::Signed(0),
        Value::Signed(-1),
        Value::Signed(-128),
        Value::Signed(-129),
        Value::Signed(32767),
        Value::Signed(32768),
        Value::Signed(-0x8000_0000),
        Value::Signed(0x8000_0000),
        Value::Signed(i64::MAX),
        Value::Signed(i64::MIN),
        Value::Unsigned(0),
        Value::Unsigned(0xFF),
        Value::Unsigned(0x100),
        Value::Unsigned(0xFFFF),
        Value::Unsigned(0x1_0000),
        Value::Unsigned(0xFFFF_FFFF),
        Value::Unsigned(0x1_0000_0000),
        Value::Unsigned(u64::MAX),
        Value::Bool(true),
        Value::Bool(false),
        Value::Float(0x7FC0_0001),
        Value::Double(u64::MAX),
        Value::Utf8(&text),
        Value::Utf8(&[]),
        Value::Bytes(&long),
        Value::Null,
        Value::ContainerStart(ContainerType::Structure),
        Value::ContainerStart(ContainerType::Array),
        Value::ContainerStart(ContainerType::List),
    ];
    let mut all = Vec::new();
    let mut buffer = Vec::new();
    for tag in tags {
        for value in values {
            let record = Record { tag, value };
            let encoded = encode(&record);
            assert_eq!(read_record(&encoded, 0), Ok((record, encoded.len())));
            buffer.extend_from_slice(&encoded);
            all.push(record);
        }
    }
    let end = anonymous(Value::ContainerEnd);
    buffer.extend_from_slice(&encode(&end));
    all.push(end);

    let mut parser = Parser::new(&buffer);
    let mut read = Vec::new();
    while let Some(record) = parser.next_record() {
        read.push(record.unwrap());
    }
    assert_eq!(read, all);

    // and the records that were read are written as the bytes they were read from
    let mut again = Vec::new();
    for record in &read {
        again.extend_from_slice(&encode(record));
    }
    assert_eq!(again, buffer);
}

#[test]
fn records_that_do_not_fit() {
    let record = Record {
        tag: TagValue::ContextSpecific { tag: 1 },
        value: Value::Utf8(&[0x41, 0x42, 0x43]),
    };
    let mut buffer = [0xEEu8; 5];
    {
        let mut writer = SliceLittleEndianWriter::new(buffer.as_mut_slice());
        assert_eq!(
            write_record(&record, &mut writer),
            Err(EndianWriteError::InsufficientSpace { missing: 1 })
        );
        assert_eq!(writer.written(), 3);
    }
    assert_eq!(buffer, [0x2C, 0x01, 0x03, 0xEE, 0xEE]);

    let mut buffer = [0xEEu8; 2];
    {
        let mut writer = SliceLittleEndianWriter::new(buffer.as_mut_slice());
        assert_eq!(
            write_record(&record, &mut writer),
            Err(EndianWriteError::InsufficientSpace { missing: 1 })
        );
        assert_eq!(writer.written(), 0);
    }
    assert_eq!(buffer, [0xEE, 0xEE]);
}
