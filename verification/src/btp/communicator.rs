//! The message side of a BTP connection: messages are cut into segments
//! that fit the negotiated segment size, each segment is framed with the
//! sequence information that the window hands out, and the segments that
//! arrive are put together again.
//!
//! Nothing here touches the radio. The connection is told what arrived and
//! when, and answers with what to do next.

use crate::btp::framing::{
    packet_failure, payload_offset, sequence_info_at, BtpBuffer, BtpDataPacket, HeaderFlags,
    PacketSequenceInfo, ResizableMessageBuffer,
};
use crate::btp::handshake::Response;
use crate::btp::window::{BtpError, BtpSendData, BtpWindowState, PacketData, WindowView};
use crate::endian::{bytes16, le16, lemma_read_written_16, read_u16};
use std::collections::VecDeque;
use vstd::prelude::*;

verus! {

/// A message that waits to be sent, and how much of it has been sent.
pub struct PendingData {
    pub payload: Vec<u8>,
    /// The number of bytes that have been sent; 0 before the first segment.
    pub offset: usize,
}

/// A message that waits to be sent, as the rules of segmentation see it.
pub struct PendingView {
    pub payload: Seq<u8>,
    pub offset: nat,
}

impl View for PendingData {
    type V = PendingView;

    open spec fn view(&self) -> PendingView {
        PendingView { payload: self.payload@, offset: self.offset as nat }
    }
}

/// The bytes that a frame spends on its flags, its sequence number and its
/// acknowledgement.
pub open spec fn frame_overhead(info: PacketSequenceInfo) -> nat {
    if info.ack_number is Some {
        3
    } else {
        2
    }
}

/// The flags of a data frame.
pub open spec fn frame_flags(info: PacketSequenceInfo, begin: bool, end: bool) -> u8 {
    let ack: u8 = if info.ack_number is Some {
        HeaderFlags::CONTAINS_ACK
    } else {
        0
    };
    let begin: u8 = if begin {
        HeaderFlags::SEGMENT_BEGIN
    } else {
        0
    };
    let end: u8 = if end {
        HeaderFlags::SEGMENT_END
    } else {
        0
    };
    ack | begin | end
}

/// A data frame: the flags, the acknowledged number if there is one, the
/// sequence number, and the body.
pub open spec fn frame_bytes(info: PacketSequenceInfo, flags: u8, body: Seq<u8>) -> Seq<u8> {
    match info.ack_number {
        Some(ack) => seq![flags, ack, info.sequence_number] + body,
        None => seq![flags, info.sequence_number] + body,
    }
}

/// The smaller of two numbers.
pub open spec fn smaller(a: nat, b: nat) -> nat {
    if a <= b {
        a
    } else {
        b
    }
}

impl PendingView {
    /// The message fits the length field of its first segment, and no more
    /// of it was sent than there is.
    pub open spec fn wf(self) -> bool {
        self.offset <= self.payload.len() <= u16::MAX
    }

    /// Whether nothing of the message was sent yet.
    pub open spec fn first(self) -> bool {
        self.offset == 0
    }

    /// Whether all of the message was sent.
    pub open spec fn done(self) -> bool {
        self.offset >= self.payload.len()
    }

    /// The most that the next segment can carry of the message: what the
    /// segment size leaves after the frame's overhead and, in the first
    /// segment, the two bytes of the message length.
    pub open spec fn chunk_limit(self, info: PacketSequenceInfo, segment_size: u16) -> nat {
        let taken = if self.first() {
            frame_overhead(info) + 2
        } else {
            frame_overhead(info)
        };
        if segment_size > taken {
            (segment_size - taken) as nat
        } else {
            0
        }
    }

    /// The number of bytes of the message that the next segment carries.
    pub open spec fn chunk_length(self, info: PacketSequenceInfo, segment_size: u16) -> nat {
        smaller(self.chunk_limit(info, segment_size), (self.payload.len() - self.offset) as nat)
    }

    /// The message after its next segment was taken.
    pub open spec fn after_segment(self, info: PacketSequenceInfo, segment_size: u16) -> Self {
        PendingView {
            payload: self.payload,
            offset: self.offset + self.chunk_length(info, segment_size),
        }
    }

    /// The body of the next segment: in the first segment the length of the
    /// message in two bytes, then the next bytes of the message.
    pub open spec fn segment_body(self, info: PacketSequenceInfo, segment_size: u16) -> Seq<u8> {
        let chunk = self.payload.subrange(
            self.offset as int,
            (self.offset + self.chunk_length(info, segment_size)) as int,
        );
        if self.first() {
            bytes16(self.payload.len() as u16) + chunk
        } else {
            chunk
        }
    }

    /// The frame of the next segment. The first segment is flagged as the
    /// beginning, and the segment after which nothing is left as the end.
    pub open spec fn segment_frame(self, info: PacketSequenceInfo, segment_size: u16) -> Seq<u8> {
        frame_bytes(
            info,
            frame_flags(info, self.first(), self.after_segment(info, segment_size).done()),
            self.segment_body(info, segment_size),
        )
    }
}

impl PendingData {
    /// A message of which nothing was sent yet. The message must fit the
    /// length field of its first segment.
    pub fn new(payload: Vec<u8>) -> (r: PendingData)
        requires
            payload@.len() <= u16::MAX,
        ensures
            r@ == (PendingView { payload: payload@, offset: 0 }),
            r@.wf(),
    {
        PendingData { payload, offset: 0 }
    }

    /// Whether all of the message was sent.
    pub fn done(&self) -> (r: bool)
        ensures
            r == self@.done(),
    {
        self.offset >= self.payload.len()
    }

    /// Whether nothing of the message was sent yet.
    pub fn first(&self) -> (r: bool)
        ensures
            r == self@.first(),
    {
        self.offset == 0
    }

    /// The length of the message as it goes into the first segment: the
    /// length modulo 65536, which is the length itself for a message that
    /// fits.
    pub fn len_u16(&self) -> (r: u16)
        ensures
            r == self.payload@.len() % 0x1_0000,
            self@.wf() ==> r == self.payload@.len(),
    {
        (self.payload.len() % 0x1_0000) as u16
    }

    /// The next part of the message, `max_size` bytes of it or what is left
    /// if that is less.
    pub fn next_buffer(&mut self, max_size: u16) -> (r: &[u8])
        requires
            old(self).offset <= old(self).payload@.len(),
        ensures
            final(self).payload@ == old(self).payload@,
            final(self).offset == old(self).offset + smaller(
                max_size as nat,
                (old(self).payload@.len() - old(self).offset) as nat,
            ),
            r@ == old(self).payload@.subrange(old(self).offset as int, final(self).offset as int),
    {
        let start = self.offset;
        let left = self.payload.len() - self.offset;
        let count = if (max_size as usize) < left {
            max_size as usize
        } else {
            left
        };
        self.offset = start + count;
        vstd::slice::slice_subrange(self.payload.as_slice(), start, start + count)
    }
}

/// The frame that carries nothing but its sequence information: an
/// acknowledgement that travels alone, or a packet that only keeps the
/// connection alive.
pub fn ack_frame(sequence_info: PacketSequenceInfo) -> (r: ResizableMessageBuffer)
    ensures
        r.bytes() == frame_bytes(
            sequence_info,
            frame_flags(sequence_info, false, false),
            Seq::empty(),
        ),
{
    let mut packet = ResizableMessageBuffer::default();
    let mut packet_flags = HeaderFlags::empty();
    match sequence_info.ack_number {
        Some(nr) => {
            packet_flags.insert(HeaderFlags::CONTAINS_ACK);
            packet.set_u8(1, nr);
            packet.set_u8(2, sequence_info.sequence_number);
        },
        None => {
            packet.set_u8(0, 0);
            packet.set_u8(1, sequence_info.sequence_number);
        },
    }
    packet.set_u8(0, packet_flags.bits());
    proof {
        assert(0u8 | 0u8 | 0u8 == 0 && 0u8 | 8u8 == 8 && 8u8 | 0u8 | 0u8 == 8) by (bit_vector);
        assert(packet_flags.bits == frame_flags(sequence_info, false, false));
        assert(packet.data@ =~= frame_bytes(
            sequence_info,
            frame_flags(sequence_info, false, false),
            Seq::empty(),
        ));
    }
    packet
}

/// The frame of the next segment of `pending`, which moves on by what the
/// segment carries.
pub fn segment_frame(
    sequence_info: PacketSequenceInfo,
    pending: &mut PendingData,
    segment_size: u16,
) -> (r: ResizableMessageBuffer)
    requires
        old(pending)@.wf(),
    ensures
        r.bytes() == old(pending)@.segment_frame(sequence_info, segment_size),
        final(pending)@ == old(pending)@.after_segment(sequence_info, segment_size),
        final(pending)@.wf(),
        segment_size >= 5 ==> r.bytes().len() <= segment_size,
        segment_size >= 6 && !old(pending)@.done() ==> final(pending).offset > old(pending).offset,
{
    let mut packet = ResizableMessageBuffer::default();
    let mut packet_flags = HeaderFlags::empty();
    let data_offset: usize = match sequence_info.ack_number {
        Some(nr) => {
            packet_flags.insert(HeaderFlags::CONTAINS_ACK);
            packet.set_u8(1, nr);
            packet.set_u8(2, sequence_info.sequence_number);
            3
        },
        None => {
            packet.set_u8(0, 0);
            packet.set_u8(1, sequence_info.sequence_number);
            2
        },
    };
    let ghost head = packet.data@;
    assert(head.len() == data_offset);
    let ghost before = pending@;
    if pending.first() {
        packet_flags.insert(HeaderFlags::SEGMENT_BEGIN);
        packet.set_u16(data_offset, pending.len_u16());
        let taken: u16 = data_offset as u16 + 2;
        let limit: u16 = if segment_size > taken {
            segment_size - taken
        } else {
            0
        };
        let chunk = pending.next_buffer(limit);
        packet.set_at(data_offset + 2, chunk);
        assert(packet.data@ =~= head + before.segment_body(sequence_info, segment_size));
    } else {
        let taken: u16 = data_offset as u16;
        let limit: u16 = if segment_size > taken {
            segment_size - taken
        } else {
            0
        };
        let chunk = pending.next_buffer(limit);
        packet.set_at(data_offset, chunk);
        assert(packet.data@ =~= head + before.segment_body(sequence_info, segment_size));
    }
    if pending.done() {
        packet_flags.insert(HeaderFlags::SEGMENT_END);
    }
    packet.set_u8(0, packet_flags.bits());
    proof {
        let a: u8 = if sequence_info.ack_number is Some {
            8
        } else {
            0
        };
        let b: u8 = if before.first() {
            1
        } else {
            0
        };
        let e: u8 = if pending@.done() {
            4
        } else {
            0
        };
        assert(0u8 | 8u8 == 8u8 && a | 0u8 == a && (a | b) | 0u8 == (a | b)) by (bit_vector);
        assert(packet_flags.bits == frame_flags(sequence_info, before.first(), pending@.done()));
        assert(packet.data@ =~= before.segment_frame(sequence_info, segment_size));
    }
    packet
}

/// The message that is being put together from the segments that arrive.
pub struct Reassembly {
    /// The length that the first segment declared, while a message is being
    /// put together.
    pub expected: Option<u16>,
    /// What has arrived of the message.
    pub buffer: Vec<u8>,
}

/// The message that is being put together, as the rules see it.
pub struct ReassemblyView {
    pub expected: Option<u16>,
    pub collected: Seq<u8>,
}

impl View for Reassembly {
    type V = ReassemblyView;

    open spec fn view(&self) -> ReassemblyView {
        ReassemblyView { expected: self.expected, collected: self.buffer@ }
    }
}

/// Whether the flags name the beginning of a message.
pub open spec fn begins(flags: u8) -> bool {
    flags & HeaderFlags::SEGMENT_BEGIN == HeaderFlags::SEGMENT_BEGIN
}

/// Whether the flags name the end of a message.
pub open spec fn ends(flags: u8) -> bool {
    flags & HeaderFlags::SEGMENT_END == HeaderFlags::SEGMENT_END
}

impl ReassemblyView {
    /// No message is being put together.
    pub open spec fn idle() -> Self {
        ReassemblyView { expected: None, collected: Seq::empty() }
    }

    /// What has arrived is no longer than what was declared.
    pub open spec fn wf(self) -> bool {
        match self.expected {
            Some(length) => self.collected.len() <= length,
            None => self.collected.len() == 0,
        }
    }

    /// Whether a packet with these flags and this payload carries a
    /// segment. A packet without begin, without end and without payload
    /// carries none: it is an acknowledgement that travels alone.
    pub open spec fn carries_segment(flags: u8, payload: Seq<u8>) -> bool {
        begins(flags) || ends(flags) || payload.len() > 0
    }

    /// The length that the message must have, once this segment is taken.
    pub open spec fn declared(self, flags: u8, payload: Seq<u8>) -> int {
        if begins(flags) {
            le16(payload)
        } else {
            self.expected->Some_0 as int
        }
    }

    /// What has arrived of the message, once this segment is taken: a
    /// beginning starts afresh behind its length field, anything else is
    /// added to what is there.
    pub open spec fn grown(self, flags: u8, payload: Seq<u8>) -> Seq<u8> {
        if begins(flags) {
            payload.skip(2)
        } else {
            self.collected + payload
        }
    }

    /// Why the segment cannot be taken; `None` where it can. A beginning
    /// must hold the length field; anything else needs a message that was
    /// begun; the message must not grow beyond the declared length, nor end
    /// short of it.
    pub open spec fn failure(self, flags: u8, payload: Seq<u8>) -> Option<BtpError> {
        if !Self::carries_segment(flags, payload) {
            None
        } else if begins(flags) && payload.len() < 2 {
            Some(BtpError::ReassemblyUnderflow)
        } else if !begins(flags) && self.expected is None {
            Some(BtpError::ReassemblyUnderflow)
        } else if self.grown(flags, payload).len() > self.declared(flags, payload) {
            Some(BtpError::ReassemblyOverflow)
        } else if ends(flags) && self.grown(flags, payload).len() < self.declared(flags, payload) {
            Some(BtpError::ReassemblyUnderflow)
        } else {
            None
        }
    }

    /// The message that the segment completes, if it completes one.
    pub open spec fn completed(self, flags: u8, payload: Seq<u8>) -> Option<Seq<u8>> {
        if Self::carries_segment(flags, payload) && self.failure(flags, payload) is None && ends(
            flags,
        ) {
            Some(self.grown(flags, payload))
        } else {
            None
        }
    }

    /// The state after the segment: unchanged where it carries nothing or
    /// cannot be taken, idle where it completes a message, and grown
    /// otherwise.
    pub open spec fn after(self, flags: u8, payload: Seq<u8>) -> Self {
        if !Self::carries_segment(flags, payload) || self.failure(flags, payload) is Some {
            self
        } else if ends(flags) {
            Self::idle()
        } else {
            ReassemblyView {
                expected: Some(self.declared(flags, payload) as u16),
                collected: self.grown(flags, payload),
            }
        }
    }
}

/// Puts the bytes of `more` behind those of `bytes`.
fn append(bytes: &mut Vec<u8>, more: &[u8])
    ensures
        final(bytes)@ == old(bytes)@ + more@,
{
    let mut i: usize = 0;
    while i < more.len()
        invariant
            i <= more@.len(),
            bytes@ == old(bytes)@ + more@.take(i as int),
        decreases more@.len() - i,
    {
        bytes.push(more[i]);
        assert(more@.take(i + 1) =~= more@.take(i as int).push(more@[i as int]));
        assert(bytes@ =~= old(bytes)@ + more@.take(i + 1));
        i = i + 1;
    }
    assert(more@.take(more@.len() as int) =~= more@);
}

impl Reassembly {
    /// No message is being put together.
    pub fn new() -> (r: Self)
        ensures
            r@ == ReassemblyView::idle(),
            r@.wf(),
    {
        Reassembly { expected: None, buffer: Vec::new() }
    }

    /// Takes the segment that a data packet with these flags carries in its
    /// payload, and returns the message if the segment completes one.
    pub fn push(&mut self, flags: HeaderFlags, payload: &[u8]) -> (r: Result<
        Option<Vec<u8>>,
        BtpError,
    >)
        ensures
            match r {
                Ok(Some(message)) => old(self)@.failure(flags.bits, payload@) is None && old(
                    self,
                )@.completed(flags.bits, payload@) == Some(message@),
                Ok(None) => old(self)@.failure(flags.bits, payload@) is None && old(
                    self,
                )@.completed(flags.bits, payload@) is None,
                Err(e) => old(self)@.failure(flags.bits, payload@) == Some(e),
            },
            final(self)@ == old(self)@.after(flags.bits, payload@),
            old(self)@.wf() ==> final(self)@.wf(),
    {
        let begin = flags.contains(HeaderFlags::SEGMENT_BEGIN);
        let end = flags.contains(HeaderFlags::SEGMENT_END);
        if !begin && !end && payload.len() == 0 {
            return Ok(None);
        }
        let declared: u16;
        let start: usize;
        let held: usize;
        if begin {
            if payload.len() < 2 {
                return Err(BtpError::ReassemblyUnderflow);
            }
            declared = read_u16(payload);
            start = 2;
            held = 0;
        } else {
            match self.expected {
                None => {
                    return Err(BtpError::ReassemblyUnderflow);
                },
                Some(length) => {
                    declared = length;
                    start = 0;
                    held = self.buffer.len();
                },
            }
        }
        let added = payload.len() - start;
        if added > declared as usize || held > declared as usize - added {
            return Err(BtpError::ReassemblyOverflow);
        }
        if end && held + added < declared as usize {
            return Err(BtpError::ReassemblyUnderflow);
        }
        if begin {
            self.buffer.clear();
        }
        append(&mut self.buffer, vstd::slice::slice_subrange(payload, start, payload.len()));
        proof {
            assert(payload@.subrange(0, payload@.len() as int) =~= payload@);
            assert(payload@.subrange(2, payload@.len() as int) =~= payload@.skip(2));
            assert(self.buffer@ =~= old(self)@.grown(flags.bits, payload@));
        }
        if end {
            let mut message: Vec<u8> = Vec::new();
            core::mem::swap(&mut self.buffer, &mut message);
            self.expected = None;
            Ok(Some(message))
        } else {
            self.expected = Some(declared);
            Ok(None)
        }
    }
}

/// What the connection asks of the one who drives it.
pub enum Action {
    /// Wait for `duration` milliseconds, or until a frame arrives, and ask
    /// again.
    Wait { duration: u64 },
    /// Send this frame to the peer, and ask again.
    Transmit(ResizableMessageBuffer),
}

/// What the connection asks of the one who drives it, as the rules see it.
pub enum ActionView {
    Wait { duration: u64 },
    Transmit(Seq<u8>),
}

impl View for Action {
    type V = ActionView;

    open spec fn view(&self) -> ActionView {
        match self {
            Action::Wait { duration } => ActionView::Wait { duration: *duration },
            Action::Transmit(frame) => ActionView::Transmit(frame.data@),
        }
    }
}

/// An open BTP connection: its window, the messages that wait to be sent,
/// and the message that is being received.
pub struct BtpCommunicator {
    pub state: BtpWindowState,
    /// The largest frame that the peer takes.
    pub segment_size: u16,
    /// The messages that wait to be sent, the one in progress first.
    pub send_queue: VecDeque<PendingData>,
    pub reassembly: Reassembly,
}

/// An open BTP connection, as the rules see it.
pub struct CommunicatorView {
    pub window: WindowView,
    pub segment_size: u16,
    pub queue: Seq<PendingView>,
    pub reassembly: ReassemblyView,
}

impl View for BtpCommunicator {
    type V = CommunicatorView;

    open spec fn view(&self) -> CommunicatorView {
        CommunicatorView {
            window: self.state@,
            segment_size: self.segment_size,
            queue: self.send_queue@.map_values(|p: PendingData| p@),
            reassembly: self.reassembly@,
        }
    }
}

impl CommunicatorView {
    /// The window, every waiting message and the message that is being
    /// received are well-formed.
    pub open spec fn wf(self) -> bool {
        &&& self.window.wf()
        &&& forall|i: int| 0 <= i < self.queue.len() ==> (#[trigger] self.queue[i]).wf()
        &&& self.reassembly.wf()
    }

    /// Whether there is something to send.
    pub open spec fn data(self) -> PacketData {
        if self.queue.len() == 0 {
            PacketData::NoData
        } else {
            PacketData::HasData
        }
    }

    /// The frame that goes out with the sequence information `info`: the
    /// next segment of the first waiting message, or a frame without a
    /// segment where none waits.
    pub open spec fn frame_for(self, info: PacketSequenceInfo) -> Seq<u8> {
        if self.queue.len() == 0 {
            frame_bytes(info, frame_flags(info, false, false), Seq::empty())
        } else {
            self.queue[0].segment_frame(info, self.segment_size)
        }
    }

    /// The waiting messages after that frame went out: the first one has
    /// moved on, and has left if nothing of it remains.
    pub open spec fn queue_after_send(self, info: PacketSequenceInfo) -> Seq<PendingView> {
        if self.queue.len() == 0 {
            self.queue
        } else if self.queue[0].after_segment(info, self.segment_size).done() {
            self.queue.skip(1)
        } else {
            seq![self.queue[0].after_segment(info, self.segment_size)] + self.queue.skip(1)
        }
    }

    /// What the connection asks for at `now`: what the window decides, with
    /// the frame to send where it decides to send.
    pub open spec fn next_action(self, now: u64) -> Result<ActionView, BtpError> {
        match self.window.send_decision(self.data(), now) {
            Err(e) => Err(e),
            Ok(BtpSendData::Wait { duration }) => Ok(ActionView::Wait { duration }),
            Ok(BtpSendData::Send(info)) => Ok(ActionView::Transmit(self.frame_for(info))),
        }
    }

    /// The connection after it was asked at `now`.
    pub open spec fn after_action(self, now: u64) -> Self {
        match self.window.send_decision(self.data(), now) {
            Ok(BtpSendData::Send(info)) => CommunicatorView {
                window: self.window.after_prepare(self.data(), now),
                segment_size: self.segment_size,
                queue: self.queue_after_send(info),
                reassembly: self.reassembly,
            },
            _ => self,
        }
    }

    /// The payload of the data packet `frame`.
    pub open spec fn payload_of(frame: Seq<u8>) -> Seq<u8> {
        frame.skip(payload_offset(frame[0]) as int)
    }

    /// Why the frame cannot be taken; `None` where it can. It must be a data
    /// packet, the window must accept its sequence information, and its
    /// segment must fit the message that is being received.
    pub open spec fn receive_failure(self, frame: Seq<u8>) -> Option<BtpError> {
        match packet_failure(frame) {
            Some(e) => Some(BtpError::InvalidFrame(e)),
            None => match self.window.receive_outcome(sequence_info_at(frame)) {
                Err(e) => Some(e),
                Ok(()) => self.reassembly.failure(frame[0], Self::payload_of(frame)),
            },
        }
    }

    /// The message that the frame completes, if it completes one.
    pub open spec fn received_message(self, frame: Seq<u8>) -> Option<Seq<u8>> {
        if self.receive_failure(frame) is None {
            self.reassembly.completed(frame[0], Self::payload_of(frame))
        } else {
            None
        }
    }

    /// The connection after the frame arrived at `now`. What is not a data
    /// packet changes nothing; a data packet is counted by the window, and
    /// its segment is taken if the window accepts the packet.
    pub open spec fn after_frame(self, frame: Seq<u8>, now: u64) -> Self {
        if packet_failure(frame) is Some {
            self
        } else {
            CommunicatorView {
                window: self.window.after_receive(sequence_info_at(frame), now),
                segment_size: self.segment_size,
                queue: self.queue,
                reassembly: if self.window.receive_outcome(sequence_info_at(frame)) is Ok {
                    self.reassembly.after(frame[0], Self::payload_of(frame))
                } else {
                    self.reassembly
                },
            }
        }
    }
}

impl BtpCommunicator {
    /// A connection with this window and segment size, with nothing to send
    /// and nothing received.
    pub fn new(state: BtpWindowState, segment_size: u16) -> (r: Self)
        ensures
            r@ == (CommunicatorView {
                window: state@,
                segment_size,
                queue: Seq::empty(),
                reassembly: ReassemblyView::idle(),
            }),
            state@.wf() ==> r@.wf(),
    {
        let r = BtpCommunicator {
            state,
            segment_size,
            send_queue: VecDeque::new(),
            reassembly: Reassembly::new(),
        };
        assert(r@.queue =~= Seq::empty());
        r
    }

    /// The client's side of the connection that a handshake response opens
    /// at `now`. A window of fewer than two packets is refused.
    pub fn client_at(response: &Response, now: u64) -> (r: Result<Self, BtpError>)
        ensures
            match r {
                Ok(connection) => {
                    &&& response.selected_window_size >= 2
                    &&& connection@ == (CommunicatorView {
                        window: WindowView::client(response.selected_window_size, now),
                        segment_size: response.selected_segment_size,
                        queue: Seq::empty(),
                        reassembly: ReassemblyView::idle(),
                    })
                    &&& connection@.wf()
                },
                Err(e) => response.selected_window_size < 2 && e == BtpError::HandshakeRejected,
            },
    {
        if response.selected_window_size < 2 {
            return Err(BtpError::HandshakeRejected);
        }
        Ok(
            Self::new(
                BtpWindowState::client_at(response.selected_window_size, now),
                response.selected_segment_size,
            ),
        )
    }

    /// The client's side of the connection that a handshake response opens
    /// now. A window of fewer than two packets is refused.
    pub fn client(response: &Response) -> (r: Result<Self, BtpError>)
        ensures
            match r {
                Ok(connection) => {
                    &&& response.selected_window_size >= 2
                    &&& exists|now: u64|
                        connection@.window == #[trigger] WindowView::client(
                            response.selected_window_size,
                            now,
                        )
                    &&& connection@.segment_size == response.selected_segment_size
                    &&& connection@.queue == Seq::<PendingView>::empty()
                    &&& connection@.reassembly == ReassemblyView::idle()
                    &&& connection@.wf()
                },
                Err(e) => response.selected_window_size < 2 && e == BtpError::HandshakeRejected,
            },
    {
        if response.selected_window_size < 2 {
            return Err(BtpError::HandshakeRejected);
        }
        Ok(
            Self::new(
                BtpWindowState::client(response.selected_window_size),
                response.selected_segment_size,
            ),
        )
    }

    /// Whether a message waits to be sent.
    pub fn has_pending(&self) -> (r: bool)
        ensures
            r == (self@.queue.len() > 0),
    {
        self.send_queue.len() > 0
    }

    /// Puts a message behind those that wait to be sent. The message must
    /// fit the length field of its first segment.
    pub fn enqueue(&mut self, payload: Vec<u8>)
        requires
            payload@.len() <= u16::MAX,
        ensures
            final(self)@ == (CommunicatorView {
                queue: old(self)@.queue.push(PendingView { payload: payload@, offset: 0 }),
                ..old(self)@
            }),
            old(self)@.wf() ==> final(self)@.wf(),
    {
        self.send_queue.push_back(PendingData::new(payload));
        assert(self@.queue =~= old(self)@.queue.push(PendingView { payload: payload@, offset: 0 }));
    }

    /// The frame that goes out with this sequence information: the next
    /// segment of the first waiting message, which moves on and leaves the
    /// queue once nothing of it remains, or a frame without a segment where
    /// no message waits.
    pub fn send_next(&mut self, sequence_info: PacketSequenceInfo) -> (r: ResizableMessageBuffer)
        requires
            forall|i: int| 0 <= i < old(self)@.queue.len() ==> (#[trigger] old(self)@.queue[i]).wf(),
        ensures
            r.bytes() == old(self)@.frame_for(sequence_info),
            final(self)@ == (CommunicatorView {
                queue: old(self)@.queue_after_send(sequence_info),
                ..old(self)@
            }),
            forall|i: int| 0 <= i < final(self)@.queue.len() ==> (#[trigger] final(self)@.queue[i]).wf(),
            old(self)@.queue.len() > 0 && old(self).segment_size >= 5 ==> r.bytes().len() <= old(
                self,
            ).segment_size,
    {
        let ghost queue = self@.queue;
        match self.send_queue.pop_front() {
            None => {
                assert(self@.queue =~= queue);
                ack_frame(sequence_info)
            },
            Some(mut pending) => {
                assert(pending@ == queue[0]);
                assert(self@.queue =~= queue.skip(1));
                let frame = segment_frame(sequence_info, &mut pending, self.segment_size);
                if !pending.done() {
                    self.send_queue.push_front(pending);
                    assert(self@.queue =~= seq![pending@] + queue.skip(1));
                }
                frame
            },
        }
    }

    /// Asks the connection at `now` what to do: wait, or send the frame that
    /// it hands out. Where it hands out a frame, the window and the waiting
    /// messages have moved on.
    pub fn next_action_at(&mut self, now: u64) -> (r: Result<Action, BtpError>)
        requires
            forall|i: int| 0 <= i < old(self)@.queue.len() ==> (#[trigger] old(self)@.queue[i]).wf(),
        ensures
            match r {
                Ok(action) => old(self)@.next_action(now) == Ok::<ActionView, BtpError>(action@),
                Err(e) => old(self)@.next_action(now) == Err::<ActionView, BtpError>(e),
            },
            final(self)@ == old(self)@.after_action(now),
            old(self)@.wf() ==> final(self)@.wf(),
    {
        let data = if self.send_queue.len() == 0 {
            PacketData::NoData
        } else {
            PacketData::HasData
        };
        match self.state.prepare_send_at(data, now) {
            Err(e) => Err(e),
            Ok(BtpSendData::Wait { duration }) => Ok(Action::Wait { duration }),
            Ok(BtpSendData::Send(sequence_info)) => {
                let frame = self.send_next(sequence_info);
                Ok(Action::Transmit(frame))
            },
        }
    }

    /// Asks the connection what to do just now; see `next_action_at`.
    pub fn next_action(&mut self) -> (r: Result<Action, BtpError>)
        requires
            forall|i: int| 0 <= i < old(self)@.queue.len() ==> (#[trigger] old(self)@.queue[i]).wf(),
        ensures
            exists|now: u64|
                {
                    &&& #[trigger] old(self)@.next_action(now) == match r {
                        Ok(action) => Ok::<ActionView, BtpError>(action@),
                        Err(e) => Err::<ActionView, BtpError>(e),
                    }
                    &&& final(self)@ == old(self)@.after_action(now)
                },
            old(self)@.wf() ==> final(self)@.wf(),
    {
        let now = self.state.clock.now_ms();
        self.next_action_at(now)
    }

    /// Takes a frame that arrived at `now`, and returns the message that it
    /// completes, if it completes one. After a failure the connection is to
    /// be closed.
    pub fn frame_received_at(&mut self, frame: &[u8], now: u64) -> (r: Result<
        Option<Vec<u8>>,
        BtpError,
    >)
        ensures
            match r {
                Ok(Some(message)) => old(self)@.receive_failure(frame@) is None && old(
                    self,
                )@.received_message(frame@) == Some(message@),
                Ok(None) => old(self)@.receive_failure(frame@) is None && old(
                    self,
                )@.received_message(frame@) is None,
                Err(e) => old(self)@.receive_failure(frame@) == Some(e),
            },
            final(self)@ == old(self)@.after_frame(frame@, now),
            old(self)@.wf() ==> final(self)@.wf(),
    {
        let packet = match BtpDataPacket::parse(frame) {
            Ok(packet) => packet,
            Err(e) => {
                return Err(BtpError::InvalidFrame(e));
            },
        };
        match self.state.packet_received_at(packet.sequence_info, now) {
            Ok(()) => {},
            Err(e) => {
                return Err(e);
            },
        }
        self.reassembly.push(packet.flags, packet.payload)
    }

    /// Takes a frame that arrived just now; see `frame_received_at`.
    pub fn frame_received(&mut self, frame: &[u8]) -> (r: Result<Option<Vec<u8>>, BtpError>)
        ensures
            match r {
                Ok(Some(message)) => old(self)@.receive_failure(frame@) is None && old(
                    self,
                )@.received_message(frame@) == Some(message@),
                Ok(None) => old(self)@.receive_failure(frame@) is None && old(
                    self,
                )@.received_message(frame@) is None,
                Err(e) => old(self)@.receive_failure(frame@) == Some(e),
            },
            exists|now: u64| final(self)@ == #[trigger] old(self)@.after_frame(frame@, now),
            old(self)@.wf() ==> final(self)@.wf(),
    {
        let now = self.state.clock.now_ms();
        self.frame_received_at(frame, now)
    }
}

/// What the flags of a data frame say of it.
proof fn lemma_frame_flag_bits(ack: u8, begin: u8, end: u8)
    by (bit_vector)
    requires
        ack == 0 || ack == 8,
        begin == 0 || begin == 1,
        end == 0 || end == 4,
    ensures
        ((ack | begin | end) & 0x08 == 0x08) == (ack == 8),
        ((ack | begin | end) & 0x01 == 0x01) == (begin == 1),
        ((ack | begin | end) & 0x04 == 0x04) == (end == 4),
        (ack | begin | end) & 0x92 == 0,
        (ack | begin | end) & (0x20u8 | 0x40u8) == 0,
{
}

/// Segments are put together as they were cut. The frame of the next
/// segment of a message is a data packet with the sequence information that
/// it was given; and a receiver that holds what was sent of the message
/// before takes the segment, holds what was sent up to it afterwards, and
/// has the whole message in hand with the segment that ends it.
pub proof fn lemma_segment_reassembles(
    pending: PendingView,
    receiver: ReassemblyView,
    info: PacketSequenceInfo,
    segment_size: u16,
)
    requires
        pending.wf(),
        pending.first() || (receiver.expected == Some(pending.payload.len() as u16)
            && receiver.collected == pending.payload.take(pending.offset as int)),
    ensures
        ({
            let frame = pending.segment_frame(info, segment_size);
            let payload = CommunicatorView::payload_of(frame);
            let sent = pending.after_segment(info, segment_size);
            &&& packet_failure(frame) is None
            &&& sequence_info_at(frame) == info
            &&& payload == pending.segment_body(info, segment_size)
            &&& receiver.failure(frame[0], payload) is None
            &&& receiver.completed(frame[0], payload) == if sent.done() {
                Some(pending.payload)
            } else {
                None
            }
            &&& receiver.after(frame[0], payload) == if sent.done() {
                ReassemblyView::idle()
            } else {
                ReassemblyView {
                    expected: Some(pending.payload.len() as u16),
                    collected: pending.payload.take(sent.offset as int),
                }
            }
        }),
{
    let frame = pending.segment_frame(info, segment_size);
    let sent = pending.after_segment(info, segment_size);
    let body = pending.segment_body(info, segment_size);
    let ack: u8 = if info.ack_number is Some {
        8
    } else {
        0
    };
    let begin: u8 = if pending.first() {
        1
    } else {
        0
    };
    let end: u8 = if sent.done() {
        4
    } else {
        0
    };
    lemma_frame_flag_bits(ack, begin, end);
    let flags = frame_flags(info, pending.first(), sent.done());
    assert(flags == ack | begin | end);
    assert(frame[0] == flags);
    let payload = CommunicatorView::payload_of(frame);
    assert(payload =~= body);
    let chunk = pending.payload.subrange(pending.offset as int, sent.offset as int);
    lemma_read_written_16(pending.payload.len() as u16);
    if pending.first() {
        assert(body.skip(2) =~= chunk);
        assert(le16(body) == pending.payload.len());
        assert(chunk =~= pending.payload.take(sent.offset as int));
    } else {
        assert(receiver.collected + body =~= pending.payload.take(sent.offset as int));
    }
    if sent.done() {
        assert(pending.payload.take(sent.offset as int) =~= pending.payload);
    }
}

} // verus!
