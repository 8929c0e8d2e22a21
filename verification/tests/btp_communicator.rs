use matter_ble::btp::communicator::{
    ack_frame, segment_frame, Action, BtpCommunicator, PendingData, Reassembly,
};
use matter_ble::btp::framing::{BtpBuffer, FrameError, HeaderFlags, PacketSequenceInfo};
use matter_ble::btp::handshake::Response;
use matter_ble::btp::window::{BtpError, BtpWindowState, ACK_SEND_TIMEOUT_MS};

fn info(sequence_number: u8, ack_number: Option<u8>) -> PacketSequenceInfo {
    PacketSequenceInfo {
        sequence_number,
        ack_number,
    }
}

#[test]
fn pending_data_chunks() {
    let mut data = PendingData::new(vec![1, 2, 3, 4, 5, 6, 7]);

    assert_eq!(data.len_u16(), 7);
    assert!(data.first());
    assert_eq!(data.next_buffer(2), &[1, 2]);
    assert!(!data.done());

    assert!(!data.first());
    assert_eq!(data.next_buffer(3), &[3, 4, 5]);
    assert!(!data.done());

    assert!(!data.first());
    assert_eq!(data.next_buffer(3), &[6, 7]);
    assert!(data.done());
    assert_eq!(data.next_buffer(3), &[]);
}

#[test]
fn frames_without_segment() {
    assert_eq!(ack_frame(info(5, Some(3))).buffer(), &[0x08, 3, 5]);
    assert_eq!(ack_frame(info(6, None)).buffer(), &[0x00, 6]);
}

#[test]
fn single_segment_message() {
    let mut data = PendingData::new(vec![0xA1, 0xA2, 0xA3]);
    let frame = segment_frame(info(0, Some(0)), &mut data, 20);
    assert_eq!(frame.buffer(), &[0x0D, 0, 0, 3, 0, 0xA1, 0xA2, 0xA3]);
    assert!(data.done());

    let mut empty = PendingData::new(vec![]);
    let frame = segment_frame(info(9, None), &mut empty, 20);
    assert_eq!(frame.buffer(), &[0x05, 9, 0, 0]);
    assert!(empty.done());
}

#[test]
fn message_in_segments() {
    let payload: Vec<u8> = (1..=20).collect();
    let mut data = PendingData::new(payload.clone());

    // ten bytes a frame: 3 of overhead with an acknowledgement, 2 of length
    let first = segment_frame(info(1, Some(7)), &mut data, 10);
    assert_eq!(first.buffer(), &[0x09, 7, 1, 20, 0, 1, 2, 3, 4, 5]);
    assert!(!data.done());

    // 2 of overhead without an acknowledgement
    let second = segment_frame(info(2, None), &mut data, 10);
    assert_eq!(second.buffer(), &[0x00, 2, 6, 7, 8, 9, 10, 11, 12, 13]);

    let third = segment_frame(info(3, Some(8)), &mut data, 10);
    assert_eq!(third.buffer(), &[0x0C, 8, 3, 14, 15, 16, 17, 18, 19, 20]);
    assert!(data.done());

    let mut reassembly = Reassembly::new();
    for frame in [&first, &second] {
        let packet = matter_ble::btp::framing::BtpDataPacket::parse(frame.buffer()).unwrap();
        assert_eq!(reassembly.push(packet.flags, packet.payload), Ok(None));
    }
    let packet = matter_ble::btp::framing::BtpDataPacket::parse(third.buffer()).unwrap();
    assert_eq!(
        reassembly.push(packet.flags, packet.payload),
        Ok(Some(payload))
    );
    assert_eq!(reassembly.expected, None);
}

#[test]
fn frames_fit_the_segment_size() {
    for segment_size in [5u16, 6, 7, 20, 247] {
        for length in [0usize, 1, 2, 3, 19, 20, 21, 300] {
            for ack in [None, Some(1u8)] {
                if segment_size < 6 && length > 0 {
                    // too small to carry the first byte behind an acknowledgement
                    continue;
                }
                let payload: Vec<u8> = (0..length).map(|i| i as u8).collect();
                let mut data = PendingData::new(payload.clone());
                let mut reassembly = Reassembly::new();
                let mut received = None;
                let mut frames = 0;
                loop {
                    let frame = segment_frame(info(frames as u8, ack), &mut data, segment_size);
                    frames += 1;
                    assert!(frame.buffer().len() <= segment_size as usize);
                    let packet =
                        matter_ble::btp::framing::BtpDataPacket::parse(frame.buffer()).unwrap();
                    let pushed = reassembly.push(packet.flags, packet.payload).unwrap();
                    if data.done() {
                        received = pushed;
                        break;
                    }
                    assert_eq!(pushed, None);
                    assert!(frames < 1000);
                }
                assert_eq!(received, Some(payload));
            }
        }
    }
}

#[test]
fn reassembly_errors() {
    let begin = HeaderFlags::from_bits(HeaderFlags::SEGMENT_BEGIN).unwrap();
    let end = HeaderFlags::from_bits(HeaderFlags::SEGMENT_END).unwrap();
    let both = HeaderFlags::from_bits(HeaderFlags::SEGMENT_BEGIN | HeaderFlags::SEGMENT_END).unwrap();
    let none = HeaderFlags::empty();

    // an acknowledgement alone carries no segment
    let mut reassembly = Reassembly::new();
    assert_eq!(reassembly.push(none, &[]), Ok(None));
    assert_eq!(
        reassembly.push(HeaderFlags::from_bits(HeaderFlags::CONTAINS_ACK).unwrap(), &[]),
        Ok(None)
    );

    // a segment without a message
    assert_eq!(
        reassembly.push(none, &[1]),
        Err(BtpError::ReassemblyUnderflow)
    );
    assert_eq!(
        reassembly.push(end, &[1]),
        Err(BtpError::ReassemblyUnderflow)
    );
    // a beginning without its length
    assert_eq!(
        reassembly.push(begin, &[1]),
        Err(BtpError::ReassemblyUnderflow)
    );
    // more than declared
    assert_eq!(
        reassembly.push(both, &[1, 0, 7, 8]),
        Err(BtpError::ReassemblyOverflow)
    );
    assert_eq!(reassembly.push(begin, &[3, 0, 7]), Ok(None));
    assert_eq!(reassembly.expected, Some(3));
    assert_eq!(
        reassembly.push(none, &[8, 9, 10]),
        Err(BtpError::ReassemblyOverflow)
    );
    // the failure changed nothing
    assert_eq!(reassembly.buffer, vec![7]);
    // less than declared
    assert_eq!(
        reassembly.push(end, &[8]),
        Err(BtpError::ReassemblyUnderflow)
    );
    assert_eq!(reassembly.push(none, &[8]), Ok(None));
    assert_eq!(reassembly.push(end, &[9]), Ok(Some(vec![7, 8, 9])));
    assert_eq!(reassembly.expected, None);
    // a beginning starts afresh
    assert_eq!(reassembly.push(begin, &[2, 0, 1]), Ok(None));
    assert_eq!(reassembly.push(both, &[1, 0, 5]), Ok(Some(vec![5])));
    assert_eq!(reassembly.push(both, &[0, 0]), Ok(Some(vec![])));
}

#[test]
fn handshake_opens_a_connection() {
    let response = Response::parse(&[0x65, 0x6C, 0x04, 20, 0, 4]).unwrap();
    let connection = BtpCommunicator::client_at(&response, 0).ok().unwrap();
    assert_eq!(connection.segment_size, 20);
    assert_eq!(connection.state.window_size, 4);
    assert!(!connection.has_pending());
    assert!(BtpCommunicator::client(&response).is_ok());

    for window in [0u8, 1] {
        let response = Response {
            selected_segment_size: 20,
            selected_window_size: window,
        };
        assert!(matches!(
            BtpCommunicator::client_at(&response, 0),
            Err(BtpError::HandshakeRejected)
        ));
        assert!(matches!(
            BtpCommunicator::client(&response),
            Err(BtpError::HandshakeRejected)
        ));
    }
}

#[test]
fn connection_sends_and_receives() {
    let mut client = BtpCommunicator::new(BtpWindowState::client_at(4, 0), 10);
    let mut server = BtpCommunicator::new(BtpWindowState::server_at(4, 0), 10);

    // nothing to send on the server: the acknowledgement can wait
    match server.next_action_at(0) {
        Ok(Action::Wait { duration }) => assert_eq!(duration, ACK_SEND_TIMEOUT_MS),
        _ => panic!("the server should wait"),
    }

    let message: Vec<u8> = (10..22).collect();
    client.enqueue(message.clone());
    client.enqueue(vec![0xEE]);
    assert!(client.has_pending());

    let mut delivered = Vec::new();
    let mut now = 0;
    for _ in 0..20 {
        now += 10;
        match client.next_action_at(now) {
            Ok(Action::Transmit(frame)) => {
                assert!(frame.buffer().len() <= 10);
                if let Some(message) = server.frame_received_at(frame.buffer(), now).unwrap() {
                    delivered.push(message);
                }
            }
            Ok(Action::Wait { .. }) => {}
            Err(e) => panic!("unexpected {:?}", e),
        }
        match server.next_action_at(now + ACK_SEND_TIMEOUT_MS) {
            Ok(Action::Transmit(frame)) => {
                assert_eq!(client.frame_received_at(frame.buffer(), now), Ok(None));
            }
            Ok(Action::Wait { .. }) => {}
            Err(e) => panic!("unexpected {:?}", e),
        }
        if !client.has_pending() {
            break;
        }
    }
    assert!(!client.has_pending());
    assert_eq!(delivered, vec![message, vec![0xEE]]);
}

#[test]
fn connection_refuses_bad_frames() {
    let mut server = BtpCommunicator::new(BtpWindowState::server_at(4, 0), 20);
    assert_eq!(
        server.frame_received_at(&[], 0),
        Err(BtpError::InvalidFrame(FrameError::Truncated))
    );
    assert_eq!(
        server.frame_received_at(&[0x65, 0x6C, 4, 20, 0, 4], 0),
        Err(BtpError::InvalidFrame(FrameError::ManagementFrame))
    );
    assert_eq!(
        server.frame_received_at(&[0x05, 1, 0, 0], 0),
        Err(BtpError::UnexpectedSequence)
    );
    let mut server = BtpCommunicator::new(BtpWindowState::server_at(4, 0), 20);
    assert_eq!(
        server.frame_received_at(&[0x0D, 5, 0, 0, 0], 0),
        Err(BtpError::AckOutOfRange)
    );
    let mut server = BtpCommunicator::new(BtpWindowState::server_at(4, 0), 20);
    assert_eq!(
        server.frame_received_at(&[0x00, 0, 1, 2], 0),
        Err(BtpError::ReassemblyUnderflow)
    );
    let mut server = BtpCommunicator::new(BtpWindowState::server_at(4, 0), 20);
    assert_eq!(
        server.frame_received_at(&[0x05, 0, 2, 0, 1, 2], 0),
        Ok(Some(vec![1, 2]))
    );
    assert!(server.frame_received(&[0x08, 0, 1]).is_ok());
}
