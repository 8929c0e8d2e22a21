use matter_ble::tlv::decode::{
    skip_value, wrap_records, wrap_structure, DecodeEnd, DecodeError, RecordCursor, RecordSource,
    TlvDecodable, TlvMergeDecodable,
};
use matter_ble::tlv::structs::{ChildStructure, TopStructure};
use matter_ble::tlv::tag_syntax::{parse_tag_value, TagSyntaxError};
use matter_ble::tlv::value::{ContainerType, Record, TagValue, Value};

fn context(tag: u8, value: Value) -> Record {
    Record {
        tag: TagValue::ContextSpecific { tag },
        value,
    }
}

fn end() -> Record<'static> {
    Record {
        tag: TagValue::Anonymous,
        value: Value::ContainerEnd,
    }
}

#[test]
fn lib_decode_test() {
    let s = TopStructure::default();

    assert_eq!(s.some_str, "");
    assert_eq!(s.some_nr, None);
    assert_eq!(s.some_signed, 0);

    let records = [
        Record {
            tag: TagValue::ContextSpecific { tag: 1 },
            value: Value::Unsigned(123),
        },
        Record {
            tag: TagValue::ContextSpecific { tag: 2 },
            value: Value::Utf8(&[65, 66, 67]),
        },
        Record {
            tag: TagValue::ContextSpecific { tag: 3 },
            value: Value::Signed(-2),
        },
    ];
    let mut streamer = RecordCursor::new(wrap_records(&records.to_vec()));

    let s = TopStructure::decode(&mut streamer).unwrap();

    assert_eq!(s.some_nr, Some(123));
    assert_eq!(s.some_str, "ABC");
    assert_eq!(s.some_signed, -2);
}

#[test]
fn lib_nested_decode() {
    let records = [
        Record {
            tag: TagValue::ContextSpecific { tag: 1 },
            value: Value::Unsigned(123),
        },
        Record {
            tag: TagValue::ContextSpecific { tag: 2 },
            value: Value::Utf8(&[65, 66, 67]),
        },
        Record {
            tag: TagValue::ContextSpecific { tag: 3 },
            value: Value::Signed(-2),
        },
        Record {
            tag: TagValue::ContextSpecific { tag: 4 },
            value: Value::ContainerStart(ContainerType::Structure),
        },
        Record {
            tag: TagValue::ContextSpecific { tag: 1 },
            value: Value::Unsigned(21),
        },
        Record {
            tag: TagValue::ContextSpecific { tag: 2 },
            value: Value::Signed(-12),
        },
        Record {
            tag: TagValue::Anonymous,
            value: Value::ContainerEnd,
        },
    ];
    let mut streamer = RecordCursor::new(wrap_records(&records.to_vec()));

    let mut s = TopStructure::decode(&mut streamer).unwrap();

    assert_eq!(s.some_nr, Some(123));
    assert_eq!(s.some_str, "ABC");
    assert_eq!(s.some_signed, -2);
    assert_eq!(s.child.some_signed, -12);
    assert_eq!(s.child.some_unsigned, Some(21));
    assert_eq!(s.child2, None);

    let records = [
        Record {
            tag: TagValue::ContextSpecific { tag: 5 },
            value: Value::ContainerStart(ContainerType::Structure),
        },
        Record {
            tag: TagValue::ContextSpecific { tag: 1 },
            value: Value::Unsigned(22),
        },
        Record {
            tag: TagValue::ContextSpecific { tag: 2 },
            value: Value::Signed(23),
        },
        Record {
            tag: TagValue::Anonymous,
            value: Value::ContainerEnd,
        },
    ];
    let mut streamer = wrap_structure(&records.to_vec());
    s.merge_decode(&mut streamer).unwrap();

    assert_eq!(s.child2.unwrap().some_signed, 23);
    assert_eq!(s.child2.unwrap().some_unsigned, Some(22));

    // the rest is unchanged
    assert_eq!(s.some_nr, Some(123));
    assert_eq!(s.some_str, "ABC");
    assert_eq!(s.some_signed, -2);
    assert_eq!(s.child.some_signed, -12);
    assert_eq!(s.child.some_unsigned, Some(21));
}

#[test]
fn test_simple_decode() {
    let mut s = ChildStructure::default();

    assert_eq!(s.some_unsigned, None);
    assert_eq!(s.some_signed, 0);

    let records = [
        Record {
            tag: TagValue::Anonymous,
            value: Value::ContainerStart(ContainerType::Structure),
        },
        Record {
            tag: TagValue::ContextSpecific { tag: 1 },
            value: Value::Unsigned(123),
        },
        Record {
            tag: TagValue::ContextSpecific { tag: 2 },
            value: Value::Signed(-2),
        },
        Record {
            tag: TagValue::Anonymous,
            value: Value::ContainerEnd,
        },
    ];

    let mut streamer = RecordCursor::new(records.to_vec());

    // merge decode requires positioning at structure start
    streamer.next();
    s.merge_decode(&mut streamer).unwrap();

    assert_eq!(s.some_unsigned, Some(123));
    assert_eq!(s.some_signed, -2);
}

#[test]
fn test_parsed_tag_values() {
    assert_eq!(
        parse_tag_value("context: 12"),
        Ok(TagValue::ContextSpecific { tag: 12 })
    );

    assert_eq!(
        parse_tag_value("context: 22"),
        Ok(TagValue::ContextSpecific { tag: 22 })
    );
}

#[test]
fn tags_as_text() {
    assert_eq!(
        parse_tag_value("CONTEXT:123"),
        Ok(TagValue::ContextSpecific { tag: 123 })
    );
    assert_eq!(
        parse_tag_value("context: 0x12"),
        Ok(TagValue::ContextSpecific { tag: 18 })
    );
    assert_eq!(
        parse_tag_value("context: 0xFf"),
        Ok(TagValue::ContextSpecific { tag: 255 })
    );
    assert_eq!(
        parse_tag_value("context: 0xabcd"),
        Err(TagSyntaxError::NumberOutOfRange)
    );
    assert_eq!(
        parse_tag_value("context: 256"),
        Err(TagSyntaxError::NumberOutOfRange)
    );
    assert_eq!(
        parse_tag_value("context:\t \u{00A0}\u{2003}\u{3000}007"),
        Ok(TagValue::ContextSpecific { tag: 7 })
    );
    assert_eq!(
        parse_tag_value("implicit: 0x1234"),
        Ok(TagValue::Implicit { tag: 0x1234 })
    );
    assert_eq!(
        parse_tag_value("Implicit:4294967295"),
        Ok(TagValue::Implicit { tag: u32::MAX })
    );
    assert_eq!(
        parse_tag_value("implicit:4294967296"),
        Err(TagSyntaxError::NumberOutOfRange)
    );
    assert_eq!(
        parse_tag_value("implicit:99999999999999999999999999999999"),
        Err(TagSyntaxError::NumberOutOfRange)
    );
    assert_eq!(
        parse_tag_value("implicit:0x0000000000000000000000000000ffffffff"),
        Ok(TagValue::Implicit { tag: u32::MAX })
    );
    assert_eq!(parse_tag_value("Anonymous"), Ok(TagValue::Anonymous));
    assert_eq!(parse_tag_value("ANONYMOUS"), Ok(TagValue::Anonymous));
    assert_eq!(
        parse_tag_value("full: 1234"),
        Ok(TagValue::Full {
            vendor_id: 0,
            profile_id: 0,
            tag: 1234
        })
    );
    assert_eq!(
        parse_tag_value("full: 0x1122-1-0x1234"),
        Ok(TagValue::Full {
            vendor_id: 0x1122,
            profile_id: 1,
            tag: 0x1234
        })
    );
    assert_eq!(
        parse_tag_value("full:65536-1-2"),
        Err(TagSyntaxError::NumberOutOfRange)
    );
    assert_eq!(
        parse_tag_value("full:1-65536-2"),
        Err(TagSyntaxError::NumberOutOfRange)
    );
    for text in [
        "something else",
        "context: notahexvalue",
        "",
        "anonymous ",
        " anonymous",
        "context",
        "context:",
        "context: ",
        "context: 0x",
        "context: 0X12",
        "context: 12 ",
        "context: +12",
        "context: 1 2",
        "context: \u{0661}",
        "contex\u{0074}\u{0301}: 1",
        "implicit: -1",
        "full: 1-2",
        "full: 1-2-3-4",
        "full: 1--3",
        "full: -1-2",
        "full: 1-2-",
        "full: 1- 2-3",
    ] {
        assert_eq!(
            parse_tag_value(text),
            Err(TagSyntaxError::InvalidSyntax),
            "{:?}",
            text
        );
    }
}

#[test]
fn unknown_fields_are_passed_over_whole() {
    let records = vec![
        context(1, Value::Unsigned(1)),
        context(9, Value::ContainerStart(ContainerType::List)),
        context(2, Value::Signed(99)),
        Record {
            tag: TagValue::Anonymous,
            value: Value::ContainerStart(ContainerType::Array),
        },
        end(),
        end(),
        Record {
            tag: TagValue::Implicit { tag: 2 },
            value: Value::Signed(98),
        },
        context(7, Value::Null),
        context(2, Value::Signed(-5)),
    ];
    let mut streamer = RecordCursor::new(wrap_records(&records));
    let s = ChildStructure::decode(&mut streamer).unwrap();
    assert_eq!(
        s,
        ChildStructure {
            some_unsigned: Some(1),
            some_signed: -5
        }
    );
}

#[test]
fn optional_fields_and_last_wins() {
    let records = vec![
        context(1, Value::Unsigned(1)),
        context(2, Value::Signed(2)),
        context(1, Value::Null),
        context(2, Value::Unsigned(3)),
    ];
    let mut streamer = RecordCursor::new(wrap_records(&records));
    assert_eq!(
        ChildStructure::decode(&mut streamer),
        Ok(ChildStructure {
            some_unsigned: None,
            some_signed: 3
        })
    );
}

#[test]
fn containers_balance() {
    // the whole container: data consumed, standing on its end
    let records = vec![
        context(1, Value::Unsigned(1)),
        end(),
        context(2, Value::Signed(2)),
    ];
    let mut streamer = wrap_structure(&records);
    let mut s = ChildStructure::default();
    assert_eq!(s.merge_decode(&mut streamer), Ok(DecodeEnd::DataConsumed));
    assert_eq!(streamer.get(), Some(end()));
    assert_eq!(streamer.next(), Some(context(2, Value::Signed(2))));

    // the stream ends between two fields
    let mut streamer = RecordCursor::new(vec![
        Record {
            tag: TagValue::Anonymous,
            value: Value::ContainerStart(ContainerType::Structure),
        },
        context(1, Value::Unsigned(1)),
    ]);
    streamer.advance();
    let mut s = ChildStructure::default();
    assert_eq!(
        s.merge_decode(&mut streamer),
        Ok(DecodeEnd::StreamFinished)
    );
    assert_eq!(s.some_unsigned, Some(1));
    assert_eq!(streamer.get(), None);
    assert_eq!(streamer.next(), None);

    // the stream ends inside a field
    let mut streamer = RecordCursor::new(vec![
        Record {
            tag: TagValue::Anonymous,
            value: Value::ContainerStart(ContainerType::Structure),
        },
        context(4, Value::ContainerStart(ContainerType::Structure)),
        context(1, Value::Unsigned(1)),
    ]);
    streamer.advance();
    let mut s = TopStructure::default();
    assert_eq!(
        s.merge_decode(&mut streamer),
        Err(DecodeError::InvalidNesting)
    );
    assert_eq!(s.child.some_unsigned, Some(1));

    let mut streamer = RecordCursor::new(vec![
        Record {
            tag: TagValue::Anonymous,
            value: Value::ContainerStart(ContainerType::Structure),
        },
        context(8, Value::ContainerStart(ContainerType::Array)),
        context(1, Value::Unsigned(1)),
    ]);
    streamer.advance();
    let mut s = TopStructure::default();
    assert_eq!(
        s.merge_decode(&mut streamer),
        Err(DecodeError::InvalidNesting)
    );
}

#[test]
fn decode_errors() {
    // nothing at all, and no start
    let mut streamer = RecordCursor::new(vec![]);
    assert_eq!(
        ChildStructure::decode(&mut streamer),
        Err(DecodeError::InvalidData)
    );
    let mut streamer = RecordCursor::new(vec![context(1, Value::Unsigned(1))]);
    assert_eq!(
        ChildStructure::decode(&mut streamer),
        Err(DecodeError::InvalidData)
    );
    let mut streamer = RecordCursor::new(vec![
        Record {
            tag: TagValue::Anonymous,
            value: Value::ContainerStart(ContainerType::Array),
        },
        end(),
    ]);
    assert_eq!(
        ChildStructure::decode(&mut streamer),
        Err(DecodeError::InvalidData)
    );
    // no end
    let mut streamer = RecordCursor::new(vec![Record {
        tag: TagValue::Anonymous,
        value: Value::ContainerStart(ContainerType::Structure),
    }]);
    assert_eq!(
        ChildStructure::decode(&mut streamer),
        Err(DecodeError::InvalidNesting)
    );
    // something behind the end
    let mut records = wrap_records(&vec![context(1, Value::Unsigned(1))]);
    records.push(context(2, Value::Signed(1)));
    let mut streamer = RecordCursor::new(records);
    assert_eq!(
        ChildStructure::decode(&mut streamer),
        Err(DecodeError::InvalidNesting)
    );
    // a value of the wrong kind, or too large
    for value in [
        Value::Bool(true),
        Value::Unsigned(0x1_0000_0000),
        Value::Signed(-1),
        Value::ContainerStart(ContainerType::Structure),
    ] {
        let mut streamer = RecordCursor::new(wrap_records(&vec![context(1, value)]));
        assert_eq!(
            ChildStructure::decode(&mut streamer),
            Err(DecodeError::InvalidData)
        );
    }
    let mut streamer = RecordCursor::new(wrap_records(&vec![context(
        2,
        Value::Utf8(&[0xFF]),
    )]));
    assert!(matches!(
        TopStructure::decode(&mut streamer),
        Err(DecodeError::InvalidData)
    ));
    let mut streamer = RecordCursor::new(wrap_records(&vec![context(4, Value::Unsigned(1))]));
    assert!(matches!(
        TopStructure::decode(&mut streamer),
        Err(DecodeError::InvalidData)
    ));
}

#[test]
fn scalars_merge_from_the_current_record() {
    let mut streamer = RecordCursor::new(vec![
        context(1, Value::Unsigned(200)),
        context(1, Value::Utf8(&[104, 105])),
        context(1, Value::Bool(true)),
    ]);
    let mut number = 0u8;
    assert_eq!(
        number.merge_decode(&mut streamer),
        Err(DecodeError::InvalidData)
    );
    streamer.advance();
    assert_eq!(
        number.merge_decode(&mut streamer),
        Ok(DecodeEnd::DataConsumed)
    );
    assert_eq!(number, 200);
    let mut small = 5i8;
    assert_eq!(
        small.merge_decode(&mut streamer),
        Err(DecodeError::InvalidData)
    );
    assert_eq!(small, 5);
    let mut wide: Option<u64> = None;
    assert_eq!(wide.merge_decode(&mut streamer), Ok(DecodeEnd::DataConsumed));
    assert_eq!(wide, Some(200));
    streamer.advance();
    let mut text = String::new();
    assert_eq!(text.merge_decode(&mut streamer), Ok(DecodeEnd::DataConsumed));
    assert_eq!(text, "hi");
    let mut borrowed: &str = "";
    assert_eq!(
        borrowed.merge_decode(&mut streamer),
        Ok(DecodeEnd::DataConsumed)
    );
    assert_eq!(borrowed, "hi");
    let mut bytes: Vec<u8> = Vec::new();
    assert_eq!(
        bytes.merge_decode(&mut streamer),
        Ok(DecodeEnd::DataConsumed)
    );
    assert_eq!(bytes, vec![104, 105]);
    let mut slice: &[u8] = &[];
    assert_eq!(
        slice.merge_decode(&mut streamer),
        Ok(DecodeEnd::DataConsumed)
    );
    assert_eq!(slice, &[104, 105]);
    streamer.advance();
    let mut flag = false;
    assert_eq!(flag.merge_decode(&mut streamer), Ok(DecodeEnd::DataConsumed));
    assert!(flag);
    assert_eq!(skip_value(&mut streamer), DecodeEnd::DataConsumed);
    assert_eq!(streamer.get(), Some(context(1, Value::Bool(true))));
}
