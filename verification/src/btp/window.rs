//! The sliding acknowledgement window of a BTP connection: which packets
//! were sent and received, which of them were acknowledged, and when the
//! next packet may leave.
//!
//! Packet numbers are bytes and wrap around after 255. Times are
//! milliseconds on a clock that the connection reads; the functions whose
//! names end in `_at` take the time from the caller instead.

use crate::btp::framing::{FrameError, PacketSequenceInfo};
use std::time::{Duration, Instant};
use vstd::prelude::*;

verus! {

/// How long a received packet may wait for its acknowledgement, in
/// milliseconds.
pub const ACKNOWLEDGE_TIMEOUT_MS: u64 = 15_000;

/// After this many milliseconds without a packet sent, an acknowledgement
/// that has nothing to ride on is sent alone.
pub const ACK_SEND_TIMEOUT_MS: u64 = 2_500;

/// After this many milliseconds without an acknowledgement for what was sent,
/// the connection is dead.
pub const IDLE_TIMEOUT_MS: u64 = 30_000;

/// How long the answer to a handshake request may take, in milliseconds.
pub const SESSION_HANDSHAKE_RESPONSE_TIMEOUT_MS: u64 = 5_000;

/// Why a BTP connection has to be closed.
#[derive(Debug, Clone, Copy, PartialEq, Eq, Structural)]
pub enum BtpError {
    /// A packet arrived whose number does not follow the last one.
    UnexpectedSequence,
    /// A packet acknowledges something that was not sent, or not sent yet.
    AckOutOfRange,
    /// What was sent has not been acknowledged in time.
    IdleTimeout,
    /// The peer answered the handshake with parameters that cannot be used.
    HandshakeRejected,
    /// The peer closed the connection.
    RemoteClosed,
    /// A message grew beyond the length that its first segment declared.
    ReassemblyOverflow,
    /// A segment came without a message that it could belong to, or a
    /// message ended short of the length that its first segment declared.
    ReassemblyUnderflow,
    /// What arrived is not a data packet.
    InvalidFrame(FrameError),
}

/// The packets of one direction: the last one seen and the last one
/// acknowledged.
#[derive(Debug, Clone, Copy, PartialEq, Eq, Structural)]
pub struct PacketWindowState {
    /// When the window last opened or closed: when the first packet after
    /// a fully acknowledged window was seen, or when an acknowledgement last
    /// moved.
    pub last_seen_time: u64,
    /// The number of the last packet sent or received.
    pub last_packet_number: u8,
    /// The number of the last packet acknowledged.
    pub ack_number: u8,
}

impl PacketWindowState {
    /// The number of packets seen and not acknowledged.
    pub open spec fn unacked(self) -> u8 {
        self.last_packet_number.wrapping_sub(self.ack_number)
    }

    /// The state after one more packet, seen at `now`.
    pub open spec fn after_next(self, now: u64) -> Self {
        PacketWindowState {
            last_seen_time: if self.last_packet_number == self.ack_number {
                now
            } else {
                self.last_seen_time
            },
            last_packet_number: self.last_packet_number.wrapping_add(1),
            ack_number: self.ack_number,
        }
    }

    /// The state after all that was seen is acknowledged at `now`.
    pub open spec fn after_mark(self, now: u64) -> Self {
        if self.last_packet_number == self.ack_number {
            self
        } else {
            PacketWindowState {
                last_seen_time: now,
                last_packet_number: self.last_packet_number,
                ack_number: self.last_packet_number,
            }
        }
    }

    /// The number to acknowledge, if anything waits for it.
    pub open spec fn latest_unacked(self) -> Option<u8> {
        if self.last_packet_number == self.ack_number {
            None
        } else {
            Some(self.last_packet_number)
        }
    }

    /// Whether `ack_number` names the last acknowledged packet or one seen
    /// since.
    pub open spec fn ack_in_range(self, ack_number: u8) -> bool {
        ack_number.wrapping_sub(self.ack_number) <= self.unacked()
    }

    /// The state after the packets up to `ack_number` are acknowledged at `now`.
    pub open spec fn after_ack(self, ack_number: u8, now: u64) -> Self {
        PacketWindowState {
            last_seen_time: now,
            last_packet_number: self.last_packet_number,
            ack_number,
        }
    }

    /// A direction in which nothing was seen yet: the next packet has number 0.
    pub fn new(now: u64) -> (r: Self)
        ensures
            r == (PacketWindowState {
                last_seen_time: now,
                last_packet_number: 0xFF,
                ack_number: 0xFF,
            }),
            r.unacked() == 0,
    {
        PacketWindowState { last_seen_time: now, last_packet_number: 0xFF, ack_number: 0xFF }
    }

    /// The number of packets seen and not acknowledged.
    pub fn unacknowledged_count(&self) -> (r: u8)
        ensures
            r == self.unacked(),
    {
        self.last_packet_number.wrapping_sub(self.ack_number)
    }

    /// Moves the window one packet forward.
    pub fn next_packet(&mut self, now: u64)
        ensures
            *final(self) == old(self).after_next(now),
    {
        if self.last_packet_number == self.ack_number {
            self.last_seen_time = now;
        }
        self.last_packet_number = self.last_packet_number.wrapping_add(1);
    }

    /// Acknowledges all that was seen, and returns the number of the last
    /// packet; `None` if nothing waited for an acknowledgement.
    pub fn mark_latest_ack(&mut self, now: u64) -> (r: Option<u8>)
        ensures
            r == old(self).latest_unacked(),
            *final(self) == old(self).after_mark(now),
            final(self).unacked() == 0,
    {
        if self.last_packet_number == self.ack_number {
            return None;
        }
        self.last_seen_time = now;
        self.ack_number = self.last_packet_number;
        Some(self.last_packet_number)
    }

    /// Acknowledges the packets up to `ack_number`. A number outside of what
    /// was seen since the last acknowledgement is refused, and nothing
    /// changes.
    pub fn ack_packet(&mut self, ack_number: u8, now: u64) -> (r: Result<(), BtpError>)
        ensures
            r == if old(self).ack_in_range(ack_number) {
                Ok::<(), BtpError>(())
            } else {
                Err::<(), BtpError>(BtpError::AckOutOfRange)
            },
            *final(self) == if r is Ok {
                old(self).after_ack(ack_number, now)
            } else {
                *old(self)
            },
            final(self).unacked() <= old(self).unacked(),
    {
        let ack_delta = ack_number.wrapping_sub(self.ack_number);
        if ack_delta > self.unacknowledged_count() {
            return Err(BtpError::AckOutOfRange);
        }
        self.ack_number = ack_number;
        self.last_seen_time = now;
        Ok(())
    }
}

/// What a connection may do next.
#[derive(Debug, Clone, Copy, PartialEq, Eq, Structural)]
pub enum BtpSendData {
    /// Nothing may be sent for `duration` milliseconds, unless a packet
    /// arrives before: the peer has no room, or an acknowledgement can wait.
    Wait { duration: u64 },
    /// A packet may be sent, with this sequence number and acknowledgement.
    Send(PacketSequenceInfo),
}

/// Whether the connection has something to send.
#[derive(Debug, Clone, Copy, PartialEq, Eq, Structural)]
pub enum PacketData {
    HasData,
    NoData,
}

/// What is left of `limit` milliseconds after `elapsed` of them.
pub open spec fn time_left(limit: u64, elapsed: u64) -> u64 {
    if elapsed < limit {
        (limit - elapsed) as u64
    } else {
        0
    }
}

/// The window of a connection, as its rules see it.
pub struct WindowView {
    /// The number of packets that may be in flight without acknowledgement.
    pub window_size: u8,
    /// The packets sent to the peer.
    pub sent: PacketWindowState,
    /// The packets received from the peer.
    pub received: PacketWindowState,
}

impl WindowView {
    /// The window of a client after the handshake, at `now`: the answer to
    /// the handshake counts as received packet 0 and waits for its
    /// acknowledgement; nothing was sent.
    pub open spec fn client(window_size: u8, now: u64) -> Self {
        WindowView {
            window_size,
            sent: PacketWindowState {
                last_seen_time: now,
                last_packet_number: 0xFF,
                ack_number: 0xFF,
            },
            received: PacketWindowState {
                last_seen_time: now,
                last_packet_number: 0,
                ack_number: 0xFF,
            },
        }
    }

    /// The window of a server after the handshake, at `now`: the answer to
    /// the handshake counts as sent packet 0 and waits for its
    /// acknowledgement; nothing was received.
    pub open spec fn server(window_size: u8, now: u64) -> Self {
        WindowView {
            window_size,
            sent: PacketWindowState {
                last_seen_time: now,
                last_packet_number: 0,
                ack_number: 0xFF,
            },
            received: PacketWindowState {
                last_seen_time: now,
                last_packet_number: 0xFF,
                ack_number: 0xFF,
            },
        }
    }

    /// The window is at least two packets wide, and no more packets are in
    /// flight than it allows.
    pub open spec fn wf(self) -> bool {
        self.window_size >= 2 && self.sent.unacked() <= self.window_size
    }

    /// The milliseconds since the sending side last opened or moved, at `now`.
    pub open spec fn elapsed(self, now: u64) -> u64 {
        if now >= self.sent.last_seen_time {
            (now - self.sent.last_seen_time) as u64
        } else {
            0
        }
    }

    /// Whether a packet with this sequence information can follow what was
    /// received, and if not, why.
    pub open spec fn receive_outcome(self, packet: PacketSequenceInfo) -> Result<(), BtpError> {
        if packet.sequence_number != self.received.last_packet_number.wrapping_add(1) {
            Err(BtpError::UnexpectedSequence)
        } else if packet.ack_number is Some && !self.sent.ack_in_range(packet.ack_number->Some_0) {
            Err(BtpError::AckOutOfRange)
        } else {
            Ok(())
        }
    }

    /// The window after a packet with this sequence information arrived at
    /// `now`. The packet is counted in any case; its acknowledgement is
    /// applied if the packet is accepted.
    pub open spec fn after_receive(self, packet: PacketSequenceInfo, now: u64) -> Self {
        WindowView {
            window_size: self.window_size,
            sent: if self.receive_outcome(packet) is Ok && packet.ack_number is Some {
                self.sent.after_ack(packet.ack_number->Some_0, now)
            } else {
                self.sent
            },
            received: self.received.after_next(now),
        }
    }

    /// What the connection may do at `now`:
    ///
    /// 1. with packets in flight and none acknowledged for the idle timeout,
    ///    the connection is dead;
    /// 2. with the peer's window full, it waits for what is left of the idle
    ///    timeout;
    /// 3. with one place left in the peer's window and nothing to
    ///    acknowledge, it waits as well: the last place is only taken by a
    ///    packet that carries an acknowledgement, or both sides could come to
    ///    wait for each other;
    /// 4. with nothing to send and room to receive two more packets, an
    ///    acknowledgement waits for what is left of its delay;
    /// 5. otherwise the next packet is sent, and acknowledges all that was
    ///    received.
    pub open spec fn send_decision(self, data: PacketData, now: u64) -> Result<
        BtpSendData,
        BtpError,
    > {
        let elapsed = self.elapsed(now);
        if self.sent.unacked() > 0 && elapsed >= IDLE_TIMEOUT_MS {
            Err(BtpError::IdleTimeout)
        } else if self.sent.unacked() >= self.window_size {
            Ok(BtpSendData::Wait { duration: time_left(IDLE_TIMEOUT_MS, elapsed) })
        } else if self.received.unacked() == 0 && self.sent.unacked() + 1 == self.window_size {
            Ok(BtpSendData::Wait { duration: time_left(IDLE_TIMEOUT_MS, elapsed) })
        } else if self.received.unacked() + 2 < self.window_size && data == PacketData::NoData
            && elapsed < ACK_SEND_TIMEOUT_MS {
            Ok(BtpSendData::Wait { duration: time_left(ACK_SEND_TIMEOUT_MS, elapsed) })
        } else {
            Ok(
                BtpSendData::Send(
                    PacketSequenceInfo {
                        sequence_number: self.sent.last_packet_number.wrapping_add(1),
                        ack_number: self.received.latest_unacked(),
                    },
                ),
            )
        }
    }

    /// The window after the decision at `now`: moved where a packet is
    /// sent, unchanged otherwise.
    pub open spec fn after_prepare(self, data: PacketData, now: u64) -> Self {
        match self.send_decision(data, now) {
            Ok(BtpSendData::Send(_)) => WindowView {
                window_size: self.window_size,
                sent: self.sent.after_next(now),
                received: self.received.after_mark(now),
            },
            _ => self,
        }
    }
}

/// Not verified: the type `std::time::Instant`, a reading of a clock that
/// does not go back. Nothing is known of what it holds.
#[verifier::external_type_specification]
#[verifier::external_body]
pub struct ExInstant(std::time::Instant);

/// Not verified: `std::time::Instant::now`. Nothing is promised of the
/// reading.
#[verifier::external_body]
fn instant_now() -> Instant {
    Instant::now()
}

/// Not verified: `std::time::Instant::elapsed`. Nothing is promised of the
/// time that has passed.
#[verifier::external_body]
fn instant_elapsed(origin: &Instant) -> Duration {
    origin.elapsed()
}

/// Not verified: `std::time::Duration::as_millis`. Nothing is promised of the
/// number.
#[verifier::external_body]
fn duration_as_millis(duration: &Duration) -> u128 {
    duration.as_millis()
}

/// A clock that counts milliseconds from the moment it was started.
#[derive(Debug, Clone, Copy, PartialEq)]
pub struct Clock {
    origin: Instant,
}

impl Clock {
    /// A clock that starts now.
    pub fn start() -> Self {
        Clock { origin: instant_now() }
    }

    /// The milliseconds since the clock was started; the largest number
    /// there is, should they not fit.
    pub fn now_ms(&self) -> u64 {
        let elapsed = instant_elapsed(&self.origin);
        let millis = duration_as_millis(&elapsed);
        saturated_millis(millis)
    }
}

/// A count of milliseconds as a time of the window: the count itself, or
/// the largest time there is where the count is beyond it.
pub open spec fn spec_saturated_millis(millis: u128) -> u64 {
    if millis > u64::MAX {
        u64::MAX
    } else {
        millis as u64
    }
}

/// A count of milliseconds as a time of the window: the count itself, or
/// the largest time there is where the count is beyond it.
pub fn saturated_millis(millis: u128) -> (r: u64)
    ensures
        r == spec_saturated_millis(millis),
{
    if millis > u64::MAX as u128 {
        u64::MAX
    } else {
        millis as u64
    }
}

/// The window of a BTP connection, with the clock that it reads.
#[derive(Debug, Clone, Copy, PartialEq)]
pub struct BtpWindowState {
    /// The number of packets that may be in flight without acknowledgement.
    pub window_size: u8,
    /// The packets sent to the peer.
    pub sent_packets: PacketWindowState,
    /// The packets received from the peer.
    pub received_packets: PacketWindowState,
    /// The clock that the functions without a time read.
    pub clock: Clock,
}

impl View for BtpWindowState {
    type V = WindowView;

    open spec fn view(&self) -> WindowView {
        WindowView {
            window_size: self.window_size,
            sent: self.sent_packets,
            received: self.received_packets,
        }
    }
}

impl BtpWindowState {
    /// The window of a client after the handshake, at `now`.
    pub fn client_at(window_size: u8, now: u64) -> (r: Self)
        requires
            window_size >= 2,
        ensures
            r@ == WindowView::client(window_size, now),
            r@.wf(),
    {
        let mut received_packets = PacketWindowState::new(now);
        received_packets.next_packet(now);
        BtpWindowState {
            window_size,
            sent_packets: PacketWindowState::new(now),
            received_packets,
            clock: Clock::start(),
        }
    }

    /// The window of a server after the handshake, at `now`.
    pub fn server_at(window_size: u8, now: u64) -> (r: Self)
        requires
            window_size >= 2,
        ensures
            r@ == WindowView::server(window_size, now),
            r@.wf(),
    {
        let mut sent_packets = PacketWindowState::new(now);
        sent_packets.next_packet(now);
        BtpWindowState {
            window_size,
            sent_packets,
            received_packets: PacketWindowState::new(now),
            clock: Clock::start(),
        }
    }

    /// Takes note of a packet that arrived at `now`. A packet whose number
    /// does not follow the last one, or whose acknowledgement names
    /// something that is not in flight, is refused; it is counted as
    /// received all the same, and the connection is to be closed.
    pub fn packet_received_at(&mut self, packet_data: PacketSequenceInfo, now: u64) -> (r: Result<
        (),
        BtpError,
    >)
        ensures
            r == old(self)@.receive_outcome(packet_data),
            final(self)@ == old(self)@.after_receive(packet_data, now),
            r is Ok ==> final(self).received_packets.last_packet_number
                == packet_data.sequence_number,
            old(self)@.wf() ==> final(self)@.wf(),
    {
        self.received_packets.next_packet(now);
        if self.received_packets.last_packet_number != packet_data.sequence_number {
            return Err(BtpError::UnexpectedSequence);
        }
        if let Some(ack) = packet_data.ack_number {
            return self.sent_packets.ack_packet(ack, now);
        }
        Ok(())
    }

    /// Decides at `now` whether a packet may be sent, and if so moves the
    /// window: the packet takes the next sequence number and acknowledges
    /// all that was received.
    pub fn prepare_send_at(&mut self, data: PacketData, now: u64) -> (r: Result<
        BtpSendData,
        BtpError,
    >)
        ensures
            r == old(self)@.send_decision(data, now),
            final(self)@ == old(self)@.after_prepare(data, now),
            old(self)@.wf() ==> final(self)@.wf(),
            old(self)@.received.unacked() == 0 && old(self)@.sent.unacked() + 1 == old(
                self,
            )@.window_size ==> !(r matches Ok(BtpSendData::Send(_))),
    {
        let sent_unacked = self.sent_packets.unacknowledged_count();
        let received_unacked = self.received_packets.unacknowledged_count();
        let elapsed = if now >= self.sent_packets.last_seen_time {
            now - self.sent_packets.last_seen_time
        } else {
            0
        };
        let idle_left = if elapsed < IDLE_TIMEOUT_MS {
            IDLE_TIMEOUT_MS - elapsed
        } else {
            0
        };
        if sent_unacked != 0 && elapsed >= IDLE_TIMEOUT_MS {
            return Err(BtpError::IdleTimeout);
        }
        if sent_unacked >= self.window_size {
            return Ok(BtpSendData::Wait { duration: idle_left });
        }
        if received_unacked == 0 && sent_unacked + 1 == self.window_size {
            return Ok(BtpSendData::Wait { duration: idle_left });
        }
        let has_data = match data {
            PacketData::HasData => true,
            PacketData::NoData => false,
        };
        if (received_unacked as u16) + 2 < self.window_size as u16 && !has_data && elapsed
            < ACK_SEND_TIMEOUT_MS {
            return Ok(BtpSendData::Wait { duration: ACK_SEND_TIMEOUT_MS - elapsed });
        }
        self.sent_packets.next_packet(now);
        let ack_number = self.received_packets.mark_latest_ack(now);
        Ok(
            BtpSendData::Send(
                PacketSequenceInfo {
                    sequence_number: self.sent_packets.last_packet_number,
                    ack_number,
                },
            ),
        )
    }

    /// The window of a client after the handshake, at the time that its
    /// clock gives.
    pub fn client(window_size: u8) -> (r: Self)
        requires
            window_size >= 2,
        ensures
            exists|now: u64| r@ == #[trigger] WindowView::client(window_size, now),
            r@.wf(),
    {
        let clock = Clock::start();
        let now = clock.now_ms();
        let mut r = Self::client_at(window_size, now);
        r.clock = clock;
        r
    }

    /// The window of a server after the handshake, at the time that its
    /// clock gives.
    pub fn server(window_size: u8) -> (r: Self)
        requires
            window_size >= 2,
        ensures
            exists|now: u64| r@ == #[trigger] WindowView::server(window_size, now),
            r@.wf(),
    {
        let clock = Clock::start();
        let now = clock.now_ms();
        let mut r = Self::server_at(window_size, now);
        r.clock = clock;
        r
    }

    /// Takes note of a packet that arrived just now; see `packet_received_at`.
    pub fn packet_received(&mut self, packet_data: PacketSequenceInfo) -> (r: Result<(), BtpError>)
        ensures
            r == old(self)@.receive_outcome(packet_data),
            exists|now: u64|
                final(self)@ == #[trigger] old(self)@.after_receive(packet_data, now),
            r is Ok ==> final(self).received_packets.last_packet_number
                == packet_data.sequence_number,
            old(self)@.wf() ==> final(self)@.wf(),
    {
        let now = self.clock.now_ms();
        self.packet_received_at(packet_data, now)
    }

    /// Decides whether a packet may be sent just now; see `prepare_send_at`.
    pub fn prepare_send(&mut self, data: PacketData) -> (r: Result<BtpSendData, BtpError>)
        ensures
            exists|now: u64|
                r == #[trigger] old(self)@.send_decision(data, now) && final(self)@ == old(
                    self,
                )@.after_prepare(data, now),
            old(self)@.wf() ==> final(self)@.wf(),
            old(self)@.received.unacked() == 0 && old(self)@.sent.unacked() + 1 == old(
                self,
            )@.window_size ==> !(r matches Ok(BtpSendData::Send(_))),
    {
        let now = self.clock.now_ms();
        self.prepare_send_at(data, now)
    }
}

/// Packets are accepted in the order of their numbers: once packet `first`
/// is accepted it is the last one received, and the packet after it is
/// accepted exactly if its number is the next one, modulo 256, and its
/// acknowledgement, if it carries one, names something in flight.
pub proof fn lemma_received_in_order(
    window: WindowView,
    first: PacketSequenceInfo,
    first_at: u64,
    second: PacketSequenceInfo,
)
    requires
        window.receive_outcome(first) is Ok,
    ensures
        window.after_receive(first, first_at).received.last_packet_number == first.sequence_number,
        window.after_receive(first, first_at).receive_outcome(second) is Ok <==> {
            &&& second.sequence_number == first.sequence_number.wrapping_add(1)
            &&& second.ack_number matches Some(ack) ==> window.after_receive(
                first,
                first_at,
            ).sent.ack_in_range(ack)
        },
{
}

/// No more packets are ever in flight than the window allows: the windows
/// after the handshake are well-formed, and receiving a packet or deciding
/// what to send keeps a window well-formed.
pub proof fn lemma_never_oversends(
    window: WindowView,
    packet: PacketSequenceInfo,
    data: PacketData,
    now: u64,
)
    requires
        window.wf(),
    ensures
        WindowView::client(window.window_size, now).wf(),
        WindowView::server(window.window_size, now).wf(),
        window.after_receive(packet, now).wf(),
        window.after_prepare(data, now).wf(),
{
}

/// The last place in the peer's window is never taken by a packet without
/// an acknowledgement: with one place left and nothing to acknowledge, no
/// packet is sent, whatever waits to be sent and whatever the time.
pub proof fn lemma_no_deadlock(window: WindowView, data: PacketData, now: u64)
    requires
        window.sent.unacked() + 1 == window.window_size,
        window.received.unacked() == 0,
    ensures
        !(window.send_decision(data, now) matches Ok(BtpSendData::Send(_))),
        window.after_prepare(data, now) == window,
{
}

} // verus!
