use matter_ble::btp::framing::PacketSequenceInfo;
use matter_ble::btp::window::{
    saturated_millis, BtpError, BtpSendData, BtpWindowState, Clock, PacketData,
    PacketWindowState, ACK_SEND_TIMEOUT_MS, IDLE_TIMEOUT_MS,
};

#[derive(PartialEq)]
enum SendDirection {
    ClientToServer,
    ServerToClient,
}

struct ClientServerPipe {
    client: BtpWindowState,
    server: BtpWindowState,
    now: u64,
}

impl ClientServerPipe {
    fn new(window_size: u8) -> Self {
        Self {
            client: BtpWindowState::client_at(window_size, 0),
            server: BtpWindowState::server_at(window_size, 0),
            now: 0,
        }
    }

    fn advance(&mut self, millis: u64) {
        self.now += millis;
    }

    fn expect_wait_send(&mut self, direction: SendDirection, data: PacketData, duration: u64) {
        let now = self.now;
        if direction == SendDirection::ClientToServer {
            ClientServerPipe::expect_wait_send_impl(&mut self.client, data, duration, now)
        } else {
            ClientServerPipe::expect_wait_send_impl(&mut self.server, data, duration, now)
        }
    }

    fn expect_send(
        &mut self,
        direction: SendDirection,
        data: PacketData,
        packet: PacketSequenceInfo,
    ) {
        let now = self.now;
        if direction == SendDirection::ClientToServer {
            ClientServerPipe::expect_send_impl(
                &mut self.client,
                &mut self.server,
                data,
                packet,
                now,
            )
        } else {
            ClientServerPipe::expect_send_impl(
                &mut self.server,
                &mut self.client,
                data,
                packet,
                now,
            )
        }
    }

    fn expect_send_impl(
        src: &mut BtpWindowState,
        dst: &mut BtpWindowState,
        data: PacketData,
        packet: PacketSequenceInfo,
        now: u64,
    ) {
        match src.prepare_send_at(data, now) {
            Ok(BtpSendData::Send(data)) => assert_eq!(data, packet),
            different => panic!(
                "Prepare send should have been {:?} but was {:?} instead",
                packet, different
            ),
        }

        match dst.packet_received_at(packet, now) {
            Ok(_) => {}
            Err(e) => panic!("Failed to accept receiving of {:?}", e),
        }
    }

    fn expect_wait_send_impl(
        state: &mut BtpWindowState,
        data: PacketData,
        expected_duration: u64,
        now: u64,
    ) {
        match state.prepare_send_at(data, now) {
            Ok(BtpSendData::Wait { duration }) => assert_eq!(duration, expected_duration),
            different => panic!(
                "Expected a wait of  {:?} but was {:?} instead",
                expected_duration, different
            ),
        }
    }
}

#[test]
fn btp_window_matches_spec_sample() {
    // the example of BTP interactions for a window size 4
    let mut pipe = ClientServerPipe::new(4);

    // Sufficient window available, do not worry about needing to send acks.
    pipe.expect_wait_send(
        SendDirection::ServerToClient,
        PacketData::NoData,
        ACK_SEND_TIMEOUT_MS,
    );

    pipe.expect_send(
        SendDirection::ClientToServer,
        PacketData::HasData,
        PacketSequenceInfo {
            sequence_number: 0,
            ack_number: Some(0),
        },
    );

    // Sufficient window available, do not worry about needing to send acks.
    pipe.expect_wait_send(
        SendDirection::ServerToClient,
        PacketData::NoData,
        ACK_SEND_TIMEOUT_MS,
    );
    pipe.expect_wait_send(
        SendDirection::ClientToServer,
        PacketData::NoData,
        ACK_SEND_TIMEOUT_MS,
    );

    pipe.expect_send(
        SendDirection::ClientToServer,
        PacketData::HasData,
        PacketSequenceInfo {
            sequence_number: 1,
            ack_number: None,
        },
    );

    // only 2 window slots remain, send ack early
    pipe.expect_send(
        SendDirection::ServerToClient,
        PacketData::NoData,
        PacketSequenceInfo {
            sequence_number: 1,
            ack_number: Some(1),
        },
    );

    pipe.expect_send(
        SendDirection::ClientToServer,
        PacketData::HasData,
        PacketSequenceInfo {
            sequence_number: 2,
            ack_number: Some(1),
        },
    );

    pipe.expect_wait_send(
        SendDirection::ServerToClient,
        PacketData::NoData,
        ACK_SEND_TIMEOUT_MS,
    );
    pipe.advance(1000);

    pipe.expect_wait_send(
        SendDirection::ServerToClient,
        PacketData::NoData,
        ACK_SEND_TIMEOUT_MS - 1000,
    );
    pipe.advance(ACK_SEND_TIMEOUT_MS - 1000);

    pipe.expect_send(
        SendDirection::ServerToClient,
        PacketData::NoData,
        PacketSequenceInfo {
            sequence_number: 2,
            ack_number: Some(2),
        },
    );

    // Connection is in idle state ... client side also waits
    pipe.expect_wait_send(
        SendDirection::ClientToServer,
        PacketData::NoData,
        ACK_SEND_TIMEOUT_MS,
    );
}

#[test]
fn packet_window_counts() {
    let mut state = PacketWindowState::new(0);
    assert_eq!(state.unacknowledged_count(), 0);

    state.next_packet(5);

    assert_eq!(state.unacknowledged_count(), 1);
    assert_eq!(state.last_seen_time, 5);
    assert_eq!(state.mark_latest_ack(9), Some(0));
    assert_eq!(state.unacknowledged_count(), 0);
    assert_eq!(state.last_seen_time, 9);
    assert_eq!(state.mark_latest_ack(11), None);
    assert_eq!(state.last_seen_time, 9);
}

#[test]
fn packet_window_acknowledges_in_range() {
    let mut state = PacketWindowState::new(0);
    state.next_packet(1);
    state.next_packet(2);
    state.next_packet(3);
    assert_eq!(state.last_seen_time, 1);
    assert_eq!(state.unacknowledged_count(), 3);
    assert_eq!(state.ack_packet(3, 4), Err(BtpError::AckOutOfRange));
    assert_eq!(state.ack_packet(0xFE, 4), Err(BtpError::AckOutOfRange));
    assert_eq!(state.unacknowledged_count(), 3);
    assert_eq!(state.ack_packet(1, 4), Ok(()));
    assert_eq!(state.unacknowledged_count(), 1);
    assert_eq!(state.last_seen_time, 4);
    assert_eq!(state.ack_packet(0, 5), Err(BtpError::AckOutOfRange));
    assert_eq!(state.ack_packet(2, 5), Ok(()));
    assert_eq!(state.unacknowledged_count(), 0);
}

#[test]
fn packet_numbers_wrap() {
    let mut state = PacketWindowState::new(0);
    for _ in 0..256 {
        state.next_packet(0);
        assert_eq!(state.unacknowledged_count(), 1);
        assert!(state.mark_latest_ack(0).is_some());
    }
    assert_eq!(state.last_packet_number, 0xFF);
    state.next_packet(0);
    assert_eq!(state.last_packet_number, 0);
    state.next_packet(0);
    assert_eq!(state.unacknowledged_count(), 2);
    assert_eq!(state.ack_packet(1, 0), Ok(()));
}

#[test]
fn client_first_packet_acknowledges_the_handshake() {
    let mut state = BtpWindowState::client_at(4, 0);

    let info = state.prepare_send_at(PacketData::HasData, 0).unwrap();
    assert_eq!(
        info,
        BtpSendData::Send(PacketSequenceInfo {
            sequence_number: 0,
            ack_number: Some(0),
        })
    );
}

#[test]
fn server_first_packets() {
    let mut state = BtpWindowState::server_at(4, 0);

    let info = state.prepare_send_at(PacketData::HasData, 0).unwrap();
    assert_eq!(
        info,
        BtpSendData::Send(PacketSequenceInfo {
            sequence_number: 1,
            ack_number: None,
        })
    );

    let mut state = BtpWindowState::server_at(4, 0);

    assert!(state
        .packet_received_at(
            PacketSequenceInfo {
                sequence_number: 0,
                ack_number: Some(0),
            },
            0
        )
        .is_ok());

    let info = state.prepare_send_at(PacketData::HasData, 0).unwrap();
    assert_eq!(
        info,
        BtpSendData::Send(PacketSequenceInfo {
            sequence_number: 1,
            ack_number: Some(0),
        })
    );
}

#[test]
fn received_packets_must_follow_each_other() {
    let mut state = BtpWindowState::server_at(4, 0);
    let packet = |sequence_number: u8, ack_number: Option<u8>| PacketSequenceInfo {
        sequence_number,
        ack_number,
    };
    assert_eq!(
        state.packet_received_at(packet(1, None), 0),
        Err(BtpError::UnexpectedSequence)
    );

    let mut state = BtpWindowState::server_at(4, 0);
    assert_eq!(state.packet_received_at(packet(0, None), 0), Ok(()));
    assert_eq!(state.received_packets.last_packet_number, 0);
    let mut other = state;
    assert_eq!(
        other.packet_received_at(packet(2, None), 0),
        Err(BtpError::UnexpectedSequence)
    );
    let mut other = state;
    assert_eq!(
        other.packet_received_at(packet(0, None), 0),
        Err(BtpError::UnexpectedSequence)
    );
    let mut other = state;
    assert_eq!(
        other.packet_received_at(packet(1, Some(1)), 0),
        Err(BtpError::AckOutOfRange)
    );
    assert_eq!(state.packet_received_at(packet(1, Some(0)), 0), Ok(()));
    assert_eq!(state.received_packets.last_packet_number, 1);
}

#[test]
fn the_window_is_never_overfilled() {
    let mut state = BtpWindowState::client_at(4, 0);
    let mut sent = 0;
    let mut next: u8 = 0;
    for step in 0..20u64 {
        match state.prepare_send_at(PacketData::HasData, step) {
            Ok(BtpSendData::Send(info)) => {
                assert_eq!(info.sequence_number, sent);
                sent += 1;
            }
            Ok(BtpSendData::Wait { duration }) => {
                assert_eq!(duration, IDLE_TIMEOUT_MS - step);
                // something arrives, without an acknowledgement
                next = next.wrapping_add(1);
                assert!(state
                    .packet_received_at(
                        PacketSequenceInfo {
                            sequence_number: next,
                            ack_number: None
                        },
                        step
                    )
                    .is_ok());
            }
            Err(e) => panic!("unexpected {:?}", e),
        }
        assert!(state.sent_packets.unacknowledged_count() <= 4);
    }
    assert_eq!(sent, 4);
}

#[test]
fn the_last_place_needs_an_acknowledgement() {
    // three of four places taken, nothing to acknowledge
    let mut state = BtpWindowState::client_at(4, 0);
    for _ in 0..3 {
        assert!(matches!(
            state.prepare_send_at(PacketData::HasData, 0),
            Ok(BtpSendData::Send(_))
        ));
    }
    assert_eq!(state.sent_packets.unacknowledged_count(), 3);
    assert_eq!(state.received_packets.unacknowledged_count(), 0);
    let before = state;
    assert_eq!(
        state.prepare_send_at(PacketData::HasData, 100),
        Ok(BtpSendData::Wait {
            duration: IDLE_TIMEOUT_MS - 100
        })
    );
    assert_eq!(
        state.prepare_send_at(PacketData::NoData, 200),
        Ok(BtpSendData::Wait {
            duration: IDLE_TIMEOUT_MS - 200
        })
    );
    assert_eq!(state.sent_packets, before.sent_packets);
    assert_eq!(state.received_packets, before.received_packets);

    // a packet arrives: the last place can be taken, with its acknowledgement
    assert!(state
        .packet_received_at(
            PacketSequenceInfo {
                sequence_number: 1,
                ack_number: None
            },
            300
        )
        .is_ok());
    assert_eq!(
        state.prepare_send_at(PacketData::HasData, 300),
        Ok(BtpSendData::Send(PacketSequenceInfo {
            sequence_number: 3,
            ack_number: Some(1)
        }))
    );
    // the window is full
    assert_eq!(
        state.prepare_send_at(PacketData::HasData, 400),
        Ok(BtpSendData::Wait {
            duration: IDLE_TIMEOUT_MS - 400
        })
    );
}

#[test]
fn idle_timeout() {
    let mut state = BtpWindowState::server_at(4, 1000);
    assert_eq!(
        state.prepare_send_at(PacketData::NoData, 1000 + IDLE_TIMEOUT_MS - 1),
        Ok(BtpSendData::Send(PacketSequenceInfo {
            sequence_number: 1,
            ack_number: None
        }))
    );
    let mut state = BtpWindowState::server_at(4, 1000);
    assert_eq!(
        state.prepare_send_at(PacketData::HasData, 1000 + IDLE_TIMEOUT_MS),
        Err(BtpError::IdleTimeout)
    );
    // nothing in flight: no timeout, and a clock that went back counts as no time
    let mut state = BtpWindowState::client_at(4, 1000);
    assert!(state.prepare_send_at(PacketData::NoData, 0).is_ok());
    let mut state = BtpWindowState::server_at(4, 1000);
    assert_eq!(
        state.prepare_send_at(PacketData::NoData, 0),
        Ok(BtpSendData::Wait {
            duration: ACK_SEND_TIMEOUT_MS
        })
    );
}

#[test]
fn the_clock_is_read() {
    let mut client = BtpWindowState::client(4);
    let mut server = BtpWindowState::server(4);
    let sent = client.prepare_send(PacketData::HasData).unwrap();
    assert_eq!(
        sent,
        BtpSendData::Send(PacketSequenceInfo {
            sequence_number: 0,
            ack_number: Some(0)
        })
    );
    assert!(server
        .packet_received(PacketSequenceInfo {
            sequence_number: 0,
            ack_number: Some(0)
        })
        .is_ok());
    match server.prepare_send(PacketData::NoData) {
        Ok(BtpSendData::Wait { duration }) => assert!(duration <= ACK_SEND_TIMEOUT_MS),
        other => panic!("unexpected {:?}", other),
    }
}

#[test]
fn clock_times() {
    assert_eq!(saturated_millis(0), 0);
    assert_eq!(saturated_millis(2500), 2500);
    assert_eq!(saturated_millis(u64::MAX as u128), u64::MAX);
    assert_eq!(saturated_millis(u64::MAX as u128 + 1), u64::MAX);
    assert_eq!(saturated_millis(u128::MAX), u64::MAX);

    let clock = Clock::start();
    let first = clock.now_ms();
    let second = clock.now_ms();
    assert!(first <= second);
    assert!(second < 60_000);
}
