use matter_ble::btp::advertising_data::{ComissionableFlags, Commissionable, Discriminator};
use matter_ble::btp::framing::{
    BtpBuffer, BtpDataPacket, FrameError, HeaderFlags, PacketSequenceInfo, ResizableMessageBuffer,
};
use matter_ble::btp::handshake::{Request, Response};
use matter_ble::types::{ProductId, VendorId};

#[test]
fn data_packet_parse() {
    // short messages are rejected
    assert_eq!(BtpDataPacket::parse(&[]), Err(FrameError::Truncated));
    assert_eq!(BtpDataPacket::parse(&[0]), Err(FrameError::Truncated));
    assert_eq!(BtpDataPacket::parse(&[8, 0]), Err(FrameError::Truncated));

    // handshake and management messages are rejected
    assert_eq!(
        BtpDataPacket::parse(&[0x20, 0, 0, 0]),
        Err(FrameError::ManagementFrame)
    );
    assert_eq!(
        BtpDataPacket::parse(&[0x40, 0, 0, 0]),
        Err(FrameError::ManagementFrame)
    );
    assert_eq!(
        BtpDataPacket::parse(&[0x60, 0, 0, 0]),
        Err(FrameError::ManagementFrame)
    );
    assert_eq!(
        BtpDataPacket::parse(&[0x02, 0, 0, 0]),
        Err(FrameError::InvalidFlags)
    );
    assert_eq!(
        BtpDataPacket::parse(&[0x80, 0, 0, 0]),
        Err(FrameError::InvalidFlags)
    );

    let packet = BtpDataPacket::parse(&[8, 0, 2]).unwrap();
    assert_eq!(packet.flags.bits(), HeaderFlags::CONTAINS_ACK);
    assert_eq!(
        packet.sequence_info,
        PacketSequenceInfo {
            ack_number: Some(0),
            sequence_number: 2,
        }
    );
    assert_eq!(packet.payload, &[]);

    let packet = BtpDataPacket::parse(&[0, 0, 1]).unwrap();
    assert_eq!(packet.flags, HeaderFlags::empty());
    assert_eq!(
        packet.sequence_info,
        PacketSequenceInfo {
            ack_number: None,
            sequence_number: 0,
        }
    );
    assert_eq!(packet.payload, &[1]);

    let packet = BtpDataPacket::parse(&[0x0D, 7, 9, 1, 2, 3]).unwrap();
    assert!(packet.flags.contains(HeaderFlags::SEGMENT_BEGIN));
    assert!(packet.flags.contains(HeaderFlags::SEGMENT_END));
    assert!(packet.flags.intersects(HeaderFlags::CONTAINS_ACK | HeaderFlags::MANAGEMENT_MESSAGE));
    assert_eq!(
        packet.sequence_info,
        PacketSequenceInfo {
            ack_number: Some(7),
            sequence_number: 9,
        }
    );
    assert_eq!(packet.payload, &[1, 2, 3]);
}

#[test]
fn resizable_buffer_set_u8() {
    let mut buffer = ResizableMessageBuffer::default();

    assert_eq!(buffer.buffer(), &[]);

    buffer.set_u8(0, 3);
    assert_eq!(buffer.buffer(), &[3]);

    buffer.set_u8(3, 10);
    assert_eq!(buffer.buffer(), &[3, 0, 0, 10]);

    buffer.set_u8(0, 11);
    assert_eq!(buffer.buffer(), &[11, 0, 0, 10]);
    assert_eq!(buffer.len(), 4);
}

#[test]
fn resizable_buffer_set_u16() {
    let mut buffer = ResizableMessageBuffer::default();

    assert_eq!(buffer.buffer(), &[]);

    buffer.set_u8(0, 3);
    assert_eq!(buffer.buffer(), &[3]);

    buffer.set_u16(0, 10);
    assert_eq!(buffer.buffer(), &[10, 0]);

    buffer.set_u16(1, 0x1234);
    assert_eq!(buffer.buffer(), &[10, 0x34, 0x12]);

    buffer.set_u16(5, 0x6655);
    assert_eq!(buffer.buffer(), &[10, 0x34, 0x12, 0, 0, 0x55, 0x66]);
}

#[test]
fn resizable_buffer_set_at() {
    let mut buffer = ResizableMessageBuffer::default();

    assert_eq!(buffer.buffer(), &[]);

    buffer.set_at(2, &[1, 2, 3]);
    assert_eq!(buffer.buffer(), &[0, 0, 1, 2, 3]);

    buffer.set_at(1, &[4, 4]);
    assert_eq!(buffer.buffer(), &[0, 4, 4, 2, 3]);

    buffer.set_at(0, &[]);
    assert_eq!(buffer.buffer(), &[0, 4, 4, 2, 3]);

    buffer.set_at(0, &[8]);
    assert_eq!(buffer.buffer(), &[8, 4, 4, 2, 3]);

    buffer.set_at(0, &[1, 2, 3, 4, 5, 6]);
    assert_eq!(buffer.buffer(), &[1, 2, 3, 4, 5, 6]);

    buffer.set_at(5, &[]);
    assert_eq!(buffer.buffer(), &[1, 2, 3, 4, 5, 6]);

    buffer.set_at(6, &[]);
    assert_eq!(buffer.buffer(), &[1, 2, 3, 4, 5, 6]);

    buffer.set_at(7, &[]);
    assert_eq!(buffer.buffer(), &[1, 2, 3, 4, 5, 6, 0]);

    buffer.ensure_length(3);
    assert_eq!(buffer.buffer(), &[1, 2, 3, 4, 5, 6, 0]);
    buffer.ensure_length(9);
    assert_eq!(buffer.buffer(), &[1, 2, 3, 4, 5, 6, 0, 0, 0]);
}

#[test]
fn handshake_request() {
    let mut request = Request::default();

    assert_eq!(
        request.buffer(),
        &[
            0x65, // H,M,E,B are all set
            0x6C, // management opcode
            0x04, 0x00, 0x00, 0x00, // version 4 and no other
            20, 0, // segment size
            4 // window size
        ]
    );

    request.set_window_size(21);
    request.set_segment_size(1234);

    assert_eq!(
        request.buffer(),
        &[
            0x65, // H,M,E,B are all set
            0x6C, // management opcode
            0x04, 0x00, 0x00, 0x00, // version 4 and no other
            0xd2, 0x04, // segment size
            21    // window size
        ]
    );
}

#[test]
fn handshake_response() {
    assert_eq!(Response::parse(&[]), Err(FrameError::InvalidLength));
    assert_eq!(Response::parse(&[0]), Err(FrameError::InvalidLength));
    assert_eq!(
        Response::parse(&[0x65, 0x6C, 0x04, 0xd2, 0x04, 21, 0]),
        Err(FrameError::InvalidLength)
    );

    assert_eq!(
        Response::parse(&[
            0x65, // H,M,E,B are all set
            0x6C, // management opcode
            0x04, // selected protocol (4)
            0xd2, 0x04, // segment size
            21    // window size
        ])
        .unwrap(),
        Response {
            selected_segment_size: 1234,
            selected_window_size: 21,
        }
    );

    assert_eq!(
        Response::parse(&[
            0x65, // H,M,E,B are all set
            0x6C, // management opcode
            0x05, // a protocol that is not spoken
            0xd2, 0x04, // segment size
            21    // window size
        ]),
        Err(FrameError::InvalidVersion)
    );
    assert_eq!(
        Response::parse(&[0x64, 0x6C, 0x04, 0xd2, 0x04, 21]),
        Err(FrameError::InvalidFlags)
    );
    assert_eq!(
        Response::parse(&[0x65, 0x6D, 0x04, 0xd2, 0x04, 21]),
        Err(FrameError::InvalidOpcode)
    );
    assert_eq!(Response::default().selected_window_size, 0);
}

#[test]
fn commissionable_advertising_data() {
    // buffer too short
    assert_eq!(Commissionable::parse(&[]), Err(FrameError::Truncated));
    assert_eq!(
        Commissionable::parse(&[0, 0xd2, 0x04, 0, 0, 0, 0]),
        Err(FrameError::Truncated)
    );

    assert_eq!(
        Commissionable::parse(&[
            0x00, // commissionable opcode
            0xd2, 0x04, // 1234 - 12-bit discriminator
            0x00, 0x00, // vendor id (0 is undefined)
            0x00, 0x00, // product id (0 is undefined)
            0x00  // flags
        ])
        .unwrap(),
        Commissionable {
            discriminator: Discriminator(1234),
            vendor_id: None,
            product_id: None,
            flags: ComissionableFlags::empty(),
        }
    );

    assert_eq!(
        Commissionable::parse(&[
            0x00, // commissionable opcode
            0x8a, 0x0c, // 3210 - 12-bit discriminator
            0x11, 0x22, // vendor id
            0x33, 0x44, // product id
            0x01  // flags
        ])
        .unwrap(),
        Commissionable {
            discriminator: Discriminator(3210),
            vendor_id: Some(VendorId(0x2211)),
            product_id: Some(ProductId(0x4433)),
            flags: ComissionableFlags::from_bits(ComissionableFlags::ADDITIONAL_DATA).unwrap(),
        }
    );

    assert_eq!(
        Commissionable::parse(&[0x01, 0xd2, 0x04, 0, 0, 0, 0, 0]),
        Err(FrameError::InvalidOpcode)
    );
    assert_eq!(
        Commissionable::parse(&[0x00, 0xd2, 0x14, 0, 0, 0, 0, 0]),
        Err(FrameError::InvalidVersion)
    );
    assert_eq!(
        Commissionable::parse(&[0x00, 0xd2, 0x04, 0, 0, 0, 0, 0x02]),
        Err(FrameError::InvalidFlags)
    );
    assert!(Commissionable::parse(&[0x00, 0xd2, 0x04, 0, 0, 0, 0, 0x01, 0xFF])
        .unwrap()
        .flags
        .contains(ComissionableFlags::ADDITIONAL_DATA));
}
