use matter_ble::packet::{
    Header, HeaderBuilder, HeaderBuilderError, HeaderError, MessageDestination, MessageHeader,
    SecurityFlags, SessionType,
};
use matter_ble::types::{GroupId, NodeId};
use matter_ble::writer::{EndianWriteError, LittleEndianWriter, SliceLittleEndianWriter, SpaceEstimator};

#[test]
fn message_header_rejects_invalid_messages() {
    let mut data: &[u8] = &[];
    assert_eq!(Header::parse(&mut data), Err(HeaderError::Truncated));

    let mut data: &[u8] = &[0, 0, 0];
    assert_eq!(Header::parse(&mut data), Err(HeaderError::Truncated));

    let mut data: &[u8] = &[0x11, 0, 0, 0, 0, 0, 0, 0, 0];
    assert_eq!(Header::parse(&mut data), Err(HeaderError::InvalidVersion));
    assert_eq!(data.len(), 8);

    let mut data: &[u8] = &[0x00, 0, 0, 0x04, 0, 0, 0, 0];
    assert_eq!(Header::parse(&mut data), Err(HeaderError::InvalidFlags));

    let mut data: &[u8] = &[0x00, 0, 0, 0x02, 0, 0, 0, 0];
    assert_eq!(Header::parse(&mut data), Err(HeaderError::InvalidSessionType));

    let mut data: &[u8] = &[0x00, 0, 0, 0x03, 0, 0, 0, 0];
    assert_eq!(Header::parse(&mut data), Err(HeaderError::InvalidSessionType));

    let mut data: &[u8] = &[0x03, 0, 0, 0x00, 0, 0, 0, 0, 1, 2];
    assert_eq!(Header::parse(&mut data), Err(HeaderError::InvalidFlags));

    let mut data: &[u8] = &[0x04, 0, 0, 0x00, 0, 0, 0, 0, 1, 2, 3, 4, 5, 6, 7];
    assert_eq!(Header::parse(&mut data), Err(HeaderError::Truncated));
    assert_eq!(data, &[1, 2, 3, 4, 5, 6, 7]);
}

#[test]
fn message_header_without_optional_fields() {
    let mut data: &[u8] = &[
        0x00, // flags: none set
        0x34, 0x12, // session id: 0x1234
        0x00, // security flags
        0x00, 0x00, 0x00, 0x00, // counter
        0xaa, 0xbb, 0xcc, // payload
    ];
    let parsed = Header::parse(&mut data).unwrap();

    assert_eq!(parsed.session_id, 0x1234);
    assert_eq!(parsed.source, None);
    assert_eq!(parsed.destination, MessageDestination::NoDestination);
    assert_eq!(parsed.flags.session_type().unwrap(), SessionType::Unicast);
    assert_eq!(data, &[0xaa, 0xbb, 0xcc]);
}

#[test]
fn message_header_with_source_and_group() {
    let mut data: &[u8] = &[
        0x06, // flags: source node id and destination group
        0x33, 0x22, // session id: 0x2233
        0x01, // security flags
        0x01, 0x00, 0x00, 0x00, // counter
        0x12, 0x34, 0x56, 0x78, 0xaa, 0xbb, 0xcc, 0xdd, // source node id
        0xcd, 0xab, // destination group id
    ];
    let header = Header::parse(&mut data).unwrap();

    assert_eq!(header.session_id, 0x2233);
    assert_eq!(header.source, Some(NodeId(0xddccbbaa78563412)));
    assert_eq!(header.destination, MessageDestination::Group(GroupId(0xabcd)));
    assert_eq!(header.counter, 1);
    assert_eq!(
        header.flags.session_type().unwrap(),
        SessionType::GroupMulticast
    );
    assert_eq!(data, &[]);
}

#[test]
fn message_header_with_destination_node() {
    let mut data: &[u8] = &[
        0x01, // flags: destination node id
        0x33, 0x22, // session id: 0x2233
        0x00, // security flags
        0x45, 0x23, 0x01, 0x00, // counter
        0x11, 0x22, 0x33, 0x44, 0x55, 0x66, 0x77, 0x88, // destination node id
    ];
    let header = Header::parse(&mut data).unwrap();

    assert_eq!(header.session_id, 0x2233);
    assert_eq!(header.source, None);
    assert_eq!(
        header.destination,
        MessageDestination::Node(NodeId(0x8877665544332211))
    );
    assert_eq!(header.counter, 0x12345);
}

#[test]
fn message_header_write() {
    let header = Header {
        flags: SecurityFlags::from_bits(SecurityFlags::PRIVACY).unwrap(),
        session_id: 123,
        source: None,
        destination: MessageDestination::default(),
        counter: 0x11223344,
    };

    let mut buffer = [0u8; 16];
    let cnt = {
        let mut writer = SliceLittleEndianWriter::new(buffer.as_mut_slice());
        assert!(header.write(&mut writer).is_ok());
        writer.written()
    };

    assert_eq!(cnt, 8);
    assert_eq!(
        buffer.as_slice(),
        &[
            0x00, // flags: none
            123, 0, // session id
            0x80, // security flags: PRIVACY
            0x44, 0x33, 0x22, 0x11, // counter
            0, 0, 0, 0, 0, 0, 0, 0 // rest of the buffer stays unwritten
        ]
    );
}

#[test]
fn message_header_write_without_room() {
    let header = Header {
        flags: SecurityFlags::empty(),
        session_id: 0x0102,
        source: Some(NodeId(1)),
        destination: MessageDestination::Group(GroupId(2)),
        counter: 3,
    };
    let mut buffer = [0xEEu8; 12];
    let cnt = {
        let mut writer = SliceLittleEndianWriter::new(buffer.as_mut_slice());
        assert_eq!(
            header.write(&mut writer),
            Err(EndianWriteError::InsufficientSpace { missing: 4 })
        );
        writer.written()
    };
    assert_eq!(cnt, 8);
    assert_eq!(
        buffer,
        [0x06, 0x02, 0x01, 0x00, 3, 0, 0, 0, 0xEE, 0xEE, 0xEE, 0xEE]
    );

    let mut estimator = SpaceEstimator::default();
    assert!(header.write(&mut estimator).is_ok());
    assert_eq!(estimator.written(), 18);
}

#[test]
fn message_header_round_trip() {
    let sources = [None, Some(NodeId(0x0102030405060708))];
    let destinations = [
        MessageDestination::NoDestination,
        MessageDestination::Node(NodeId(0xFFEEDDCCBBAA9988)),
        MessageDestination::Group(GroupId(0xBEEF)),
    ];
    let flag_bits = [0x00u8, 0x01, 0x80, 0x40, 0x20, 0xE1];
    for source in sources {
        for destination in destinations {
            for bits in flag_bits {
                let header = Header {
                    flags: SecurityFlags::from_bits(bits).unwrap(),
                    session_id: 0xA55A,
                    source,
                    destination,
                    counter: 0xDEADBEEF,
                };
                let mut buffer = [0u8; 32];
                let cnt = {
                    let mut writer = SliceLittleEndianWriter::new(buffer.as_mut_slice());
                    assert!(header.write(&mut writer).is_ok());
                    writer.written()
                };
                let mut data: &[u8] = &buffer[..cnt];
                assert_eq!(Header::parse(&mut data), Ok(header));
                assert_eq!(data, &[]);
            }
        }
    }
}

#[test]
fn message_header_bytes_round_trip() {
    let bytes: [u8; 18] = [
        0x06, 0x33, 0x22, 0x01, 0x01, 0x00, 0x00, 0x00, 0x12, 0x34, 0x56, 0x78, 0xaa, 0xbb, 0xcc,
        0xdd, 0xcd, 0xab,
    ];
    let mut data: &[u8] = &bytes;
    let header = Header::parse(&mut data).unwrap();
    let mut buffer = [0u8; 18];
    {
        let mut writer = SliceLittleEndianWriter::new(buffer.as_mut_slice());
        assert!(header.write(&mut writer).is_ok());
        assert_eq!(writer.written(), 18);
    }
    assert_eq!(buffer, bytes);
}

#[test]
fn security_flags() {
    assert_eq!(SecurityFlags::from_bits(0x04), None);
    assert_eq!(SecurityFlags::from_bits(0x1C), None);
    assert_eq!(SecurityFlags::empty().bits(), 0);
    assert_eq!(SecurityFlags::default(), SecurityFlags::empty());
    let flags = SecurityFlags::from_bits(0xC1).unwrap();
    assert!(flags.contains(SecurityFlags::PRIVACY));
    assert!(flags.contains(SecurityFlags::CONTROL_MESSAGE));
    assert!(!flags.contains(SecurityFlags::MESSAGE_EXTENSIONS));
    assert_eq!(flags.session_type(), Ok(SessionType::GroupMulticast));
    assert_eq!(
        SecurityFlags::from_bits(0x02).unwrap().session_type(),
        Err(HeaderError::InvalidSessionType)
    );
}

#[test]
fn message_header_builder() {
    let header = HeaderBuilder::default()
        .session_id(123)
        .counter(0x11223344)
        .flags(SecurityFlags::from_bits(SecurityFlags::PRIVACY).unwrap())
        .build()
        .unwrap();
    assert_eq!(
        header,
        MessageHeader {
            flags: SecurityFlags { bits: 0x80 },
            session_id: 123,
            source: None,
            destination: MessageDestination::NoDestination,
            counter: 0x11223344,
        }
    );
    let header = HeaderBuilder::default()
        .flags(SecurityFlags::empty())
        .session_id(1)
        .counter(2)
        .source(Some(NodeId(3)))
        .destination(MessageDestination::Group(GroupId(4)))
        .build()
        .unwrap();
    assert_eq!(header.source, Some(NodeId(3)));
    assert_eq!(header.destination, MessageDestination::Group(GroupId(4)));

    assert_eq!(
        HeaderBuilder::default().build(),
        Err(HeaderBuilderError::UninitializedField("flags"))
    );
    assert_eq!(
        HeaderBuilder::default()
            .flags(SecurityFlags::empty())
            .counter(1)
            .build(),
        Err(HeaderBuilderError::UninitializedField("session_id"))
    );
    assert_eq!(
        HeaderBuilder::default()
            .flags(SecurityFlags::empty())
            .session_id(1)
            .build(),
        Err(HeaderBuilderError::UninitializedField("counter"))
    );
}
