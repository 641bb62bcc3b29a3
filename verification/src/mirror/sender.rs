//! The per-stream state of the media sender: it numbers, encrypts and
//! packetizes encoded frames, keeps them for retransmission until the
//! receiver's checkpoint passes them, answers NACKs from that history, and
//! says when a Sender Report is due. The socket, the threads and the clock
//! stay with the caller, which sends what these functions hand back.

use vstd::prelude::*;

use std::collections::VecDeque;

use crate::mirror::messages::TARGET_PLAYOUT_DELAY_MS;
use crate::mirror::rtcp::{ALL_PACKETS_LOST, Nack, ReceiverEvents, build_sender_report, spec_sender_report};
use crate::mirror::rtp::{
    KEY_FRAME_BIT, MAX_FRAME_PACKETS, MAX_PAYLOAD_SIZE, OutboundFrame, PacketizedFrame, Packetizer, chunk_end,
    chunk_start, spec_num_packets, spec_packet_header, spec_packets,
};
use crate::streaming::openscreen::crypto::{FrameCrypto, ctr_transform, spec_nonce};

verus! {

/// How many sent frames are kept for retransmission at most.
pub const MAX_HISTORY_FRAMES: usize = 120;

/// How often a stream reports, in milliseconds.
pub const SENDER_REPORT_INTERVAL_MS: u64 = 500;

#[derive(Clone, Copy, PartialEq, Eq, Structural, Debug)]
pub enum StreamKind {
    Audio,
    Video,
}

pub struct StreamConfig {
    pub kind: StreamKind,
    pub ssrc: u32,
    pub payload_type: u8,
    pub aes_key: [u8; 16],
    pub aes_iv_mask: [u8; 16],
}

/// A frame kept for retransmission.
pub struct SentFrame {
    frame_id: u64,
    packets: PacketizedFrame,
}

/// One outgoing RTP stream.
pub struct Stream {
    kind: StreamKind,
    ssrc: u32,
    packetizer: Packetizer,
    crypto: FrameCrypto,
    next_frame_id: u64,
    checkpoint: u64,
    history: VecDeque<SentFrame>,
    /// Packet buffers recycled from evicted history frames.
    spare_buffers: Vec<Vec<u8>>,
    packet_count: u32,
    octet_count: u32,
    last_report_ms: Option<u64>,
    /// Latest (rtp, ntp) pair, reported in Sender Reports.
    last_timestamps: Option<(u32, u64)>,
}

/// The packets of frame `frame_id` with payload `data`: each header, then
/// its payload chunk encrypted with the frame's keystream.
pub open spec fn encrypted_packets(
    key: Seq<u8>,
    iv_mask: Seq<u8>,
    frame: OutboundFrame,
    payload_type: u8,
    ssrc: u32,
    first_sequence_number: u16,
) -> Seq<Seq<u8>> {
    let len = frame.data@.len() as int;
    Seq::new(
        spec_num_packets(len) as nat,
        |i: int|
            spec_packet_header(
                frame,
                payload_type,
                ssrc,
                ((first_sequence_number + i) % 0x1_0000) as u16,
                i,
            ) + ctr_transform(
                key,
                spec_nonce(iv_mask, frame.frame_id),
                chunk_start(i),
                frame.data@.subrange(chunk_start(i), chunk_end(len, i)),
            ),
    )
}

/// The frame sent as frame `frame_id`: a key frame references itself, so
/// does the first frame; every other frame references the one before. Only
/// the first frame carries the playout delay.
pub open spec fn outbound(
    frame_id: u64,
    is_key_frame: bool,
    rtp_timestamp: u32,
    data: &[u8],
) -> OutboundFrame {
    OutboundFrame {
        frame_id,
        referenced_frame_id: if is_key_frame || frame_id == 0 {
            frame_id
        } else {
            (frame_id - 1) as u64
        },
        rtp_timestamp,
        is_key_frame,
        playout_delay_ms: if frame_id == 0 {
            Some(TARGET_PLAYOUT_DELAY_MS)
        } else {
            None
        },
        data,
    }
}

/// The total length of `packets`.
pub open spec fn total_len(packets: Seq<Seq<u8>>) -> int
    decreases packets.len(),
{
    if packets.len() == 0 {
        0
    } else {
        total_len(packets.drop_last()) + packets.last().len()
    }
}

/// The history without the frames the receiver has acknowledged through
/// `checkpoint`: the oldest frames are dropped while their id is at most
/// `checkpoint`.
pub open spec fn unacknowledged(ids: Seq<u64>, checkpoint: u64) -> int
    decreases ids.len(),
{
    if ids.len() > 0 && ids[0] <= checkpoint {
        1 + unacknowledged(ids.drop_first(), checkpoint)
    } else {
        0
    }
}

/// Whether `ids` is strictly increasing.
pub open spec fn increasing(ids: Seq<u64>) -> bool {
    forall|i: int, j: int| 0 <= i < j < ids.len() ==> ids[i] < ids[j]
}

impl Stream {
    /// The history holds at most `MAX_HISTORY_FRAMES` frames, in strictly
    /// increasing id order, all sent before the next frame id.
    pub closed spec fn well_formed(self) -> bool {
        &&& self.history@.len() <= MAX_HISTORY_FRAMES
        &&& self.packetizer.ssrc() == self.ssrc
        &&& increasing(self.frame_ids())
        &&& forall|i: int| 0 <= i < self.history@.len() ==> #[trigger] self.history@[i].frame_id < self.next_frame_id
    }

    pub closed spec fn kind(self) -> StreamKind {
        self.kind
    }

    pub closed spec fn ssrc(self) -> u32 {
        self.ssrc
    }

    pub closed spec fn payload_type(self) -> u8 {
        self.packetizer.payload_type()
    }

    pub closed spec fn sequence_number(self) -> u16 {
        self.packetizer.sequence_number()
    }

    pub closed spec fn key(self) -> Seq<u8> {
        self.crypto.key()
    }

    pub closed spec fn iv_mask(self) -> Seq<u8> {
        self.crypto.iv_mask()
    }

    /// The id the next frame is sent with.
    pub closed spec fn next_frame_id(self) -> u64 {
        self.next_frame_id
    }

    /// All frames up to this one are known to be received.
    pub closed spec fn checkpoint(self) -> u64 {
        self.checkpoint
    }

    /// The ids of the frames kept for retransmission, oldest first.
    pub closed spec fn frame_ids(self) -> Seq<u64> {
        Seq::new(self.history@.len(), |i: int| self.history@[i].frame_id)
    }

    /// The packets of the frames kept for retransmission, oldest first.
    pub closed spec fn frame_packets(self) -> Seq<Seq<Seq<u8>>> {
        Seq::new(self.history@.len(), |i: int| self.history@[i].packets.packets())
    }

    pub closed spec fn packet_count(self) -> u32 {
        self.packet_count
    }

    pub closed spec fn octet_count(self) -> u32 {
        self.octet_count
    }

    pub closed spec fn last_report_ms(self) -> Option<u64> {
        self.last_report_ms
    }

    pub closed spec fn last_timestamps(self) -> Option<(u32, u64)> {
        self.last_timestamps
    }

    pub fn kind_of(&self) -> (r: StreamKind)
        ensures
            r == self.kind(),
    {
        self.kind
    }

    pub fn ssrc_of(&self) -> (r: u32)
        ensures
            r == self.ssrc(),
    {
        self.ssrc
    }

    pub fn checkpoint_of(&self) -> (r: u64)
        ensures
            r == self.checkpoint(),
    {
        self.checkpoint
    }

    /// A stream that has sent nothing yet.
    pub fn new(config: &StreamConfig) -> (r: Self)
        ensures
            r.kind() == config.kind,
            r.ssrc() == config.ssrc,
            r.payload_type() == config.payload_type,
            r.key() == config.aes_key@,
            r.iv_mask() == config.aes_iv_mask@,
            r.next_frame_id() == 0,
            r.checkpoint() == 0,
            r.frame_ids() == Seq::<u64>::empty(),
            r.packet_count() == 0,
            r.octet_count() == 0,
            r.last_report_ms() is None,
            r.last_timestamps() is None,
            r.well_formed(),
    {
        let r = Self {
            kind: config.kind,
            ssrc: config.ssrc,
            packetizer: Packetizer::new(config.payload_type, config.ssrc),
            crypto: FrameCrypto::new(config.aes_key, config.aes_iv_mask),
            next_frame_id: 0,
            checkpoint: 0,
            history: VecDeque::with_capacity(MAX_HISTORY_FRAMES + 1),
            spare_buffers: Vec::new(),
            packet_count: 0,
            octet_count: 0,
            last_report_ms: None,
            last_timestamps: None,
        };
        assert(r.frame_ids() =~= Seq::<u64>::empty());
        r
    }

    /// Drops the oldest frame from the retransmit history, recycling its
    /// packet buffer for a future frame.
    pub fn evict_oldest(&mut self)
        requires
            old(self).well_formed(),
        ensures
            final(self).well_formed(),
            final(self).frame_ids() == (if old(self).frame_ids().len() > 0 {
                old(self).frame_ids().drop_first()
            } else {
                old(self).frame_ids()
            }),
            final(self).frame_packets() == (if old(self).frame_packets().len() > 0 {
                old(self).frame_packets().drop_first()
            } else {
                old(self).frame_packets()
            }),
            final(self).next_frame_id() == old(self).next_frame_id(),
            final(self).checkpoint() == old(self).checkpoint(),
            final(self).packet_count() == old(self).packet_count(),
            final(self).octet_count() == old(self).octet_count(),
            final(self).sequence_number() == old(self).sequence_number(),
            final(self).last_report_ms() == old(self).last_report_ms(),
            final(self).last_timestamps() == old(self).last_timestamps(),
            final(self).kind() == old(self).kind() && final(self).ssrc() == old(self).ssrc(),
            final(self).payload_type() == old(self).payload_type(),
            final(self).key() == old(self).key() && final(self).iv_mask() == old(self).iv_mask(),
    {
        match self.history.pop_front() {
            Some(frame) => {
                self.spare_buffers.push(frame.packets.into_buffer());
                assert(self.frame_ids() =~= old(self).frame_ids().drop_first());
                assert(self.frame_packets() =~= old(self).frame_packets().drop_first());
            },
            None => {
                assert(self.frame_ids() =~= old(self).frame_ids());
            },
        }
    }

    /// The packets of the newest frame kept, if any.
    pub fn newest_frame(&self) -> (r: Option<&PacketizedFrame>)
        requires
            self.well_formed(),
        ensures
            self.frame_packets().len() == 0 ==> r is None,
            self.frame_packets().len() > 0 ==> (r matches Some(f) && f.packets()
                == self.frame_packets().last()),
    {
        let n = self.history.len();
        if n == 0 {
            None
        } else {
            Some(&self.history[n - 1].packets)
        }
    }

    /// Numbers, encrypts and packetizes one encoded frame, counts its
    /// packets and bytes for the Sender Reports, and keeps it for
    /// retransmission (dropping the oldest frame beyond the history limit).
    /// The caller sends the packets of `newest_frame` afterwards.
    pub fn send_frame(&mut self, is_key_frame: bool, rtp_timestamp: u32, ntp_timestamp: u64, data: &[u8])
        requires
            old(self).well_formed(),
            old(self).next_frame_id() < u64::MAX,
            data@.len() <= MAX_FRAME_PACKETS * MAX_PAYLOAD_SIZE,
        ensures
            ({
                let frame_id = old(self).next_frame_id();
                let packets = encrypted_packets(
                    old(self).key(),
                    old(self).iv_mask(),
                    outbound(frame_id, is_key_frame, rtp_timestamp, data),
                    old(self).payload_type(),
                    old(self).ssrc(),
                    old(self).sequence_number(),
                );
                let ids = old(self).frame_ids().push(frame_id);
                let all = old(self).frame_packets().push(packets);
                &&& final(self).next_frame_id() == frame_id + 1
                &&& final(self).frame_ids() == (if ids.len() > MAX_HISTORY_FRAMES {
                    ids.drop_first()
                } else {
                    ids
                })
                &&& final(self).frame_packets() == (if all.len() > MAX_HISTORY_FRAMES {
                    all.drop_first()
                } else {
                    all
                })
                &&& final(self).sequence_number() == (old(self).sequence_number() + packets.len())
                    % 0x1_0000
                &&& final(self).packet_count() == (old(self).packet_count() + packets.len())
                    % 0x1_0000_0000
                &&& final(self).octet_count() == (old(self).octet_count() + total_len(packets))
                    % 0x1_0000_0000
                &&& final(self).last_timestamps() == Some((rtp_timestamp, ntp_timestamp))
            }),
            ({
                // A key frame references itself, so the receiver can decode it
                // on its own; so does the first frame; every other frame
                // references the one before it.
                let frame_id = old(self).next_frame_id();
                let sent = final(self).frame_packets().last();
                let referenced = if is_key_frame || frame_id == 0 {
                    frame_id as int
                } else {
                    frame_id - 1
                };
                &&& final(self).frame_packets().len() > 0
                &&& final(self).frame_ids().last() == frame_id
                &&& sent.len() >= 1
                &&& forall|i: int|
                    0 <= i < sent.len() ==> {
                        &&& (#[trigger] sent[i]).len() >= 19
                        &&& (sent[i][12] & KEY_FRAME_BIT != 0) == is_key_frame
                        &&& sent[i][13] == (frame_id % 0x100) as u8
                        &&& sent[i][18] == (referenced % 0x100) as u8
                    }
            }),
            final(self).well_formed(),
            final(self).checkpoint() == old(self).checkpoint(),
            final(self).last_report_ms() == old(self).last_report_ms(),
            final(self).kind() == old(self).kind() && final(self).ssrc() == old(self).ssrc(),
            final(self).payload_type() == old(self).payload_type(),
            final(self).key() == old(self).key() && final(self).iv_mask() == old(self).iv_mask(),
    {
        let frame_id = self.next_frame_id;
        let frame = OutboundFrame {
            frame_id,
            referenced_frame_id: if is_key_frame || frame_id == 0 {
                frame_id
            } else {
                frame_id - 1
            },
            rtp_timestamp,
            is_key_frame,
            // Communicate the fixed target playout delay with the first frame.
            playout_delay_ms: if frame_id == 0 {
                Some(TARGET_PLAYOUT_DELAY_MS)
            } else {
                None
            },
            data,
        };
        // Encrypt on the way from the encoder's buffer into the packet
        // buffer: one CTR keystream pass covers the whole frame.
        let buffer = match self.spare_buffers.pop() {
            Some(buffer) => buffer,
            None => Vec::new(),
        };
        let mut cipher = self.crypto.cipher(frame_id);
        let ghost c0 = cipher;
        let ghost seq0 = self.packetizer.sequence_number();
        let packets = self.packetizer.packetize(&frame, buffer, &mut cipher);
        let ghost expected = encrypted_packets(
            self.crypto.key(),
            self.crypto.iv_mask(),
            frame,
            self.packetizer.payload_type(),
            self.ssrc,
            seq0,
        );
        assert(packets.packets() =~= expected);
        proof {
            crate::mirror::rtp::lemma_num_frame_packets(frame.data@.len() as int);
        }

        let n = packets.count();
        let mut packet_count = self.packet_count;
        let mut octet_count = self.octet_count;
        let mut i: usize = 0;
        while i < n
            invariant
                i <= n,
                n == packets.packets().len(),
                n <= MAX_FRAME_PACKETS,
                packet_count == (self.packet_count + i) % 0x1_0000_0000,
                octet_count == (self.octet_count + total_len(packets.packets().take(i as int)))
                    % 0x1_0000_0000,
            decreases n - i,
        {
            let packet = packets.packet(i as u16);
            match packet {
                Some(p) => {
                    let ghost before = octet_count;
                    let len = ((p.len() as u64) % 0x1_0000_0000) as u32;
                    packet_count = packet_count.wrapping_add(1);
                    octet_count = octet_count.wrapping_add(len);
                    proof {
                        let taken = packets.packets().take(i as int);
                        assert(packets.packets().take(i + 1).drop_last() == taken);
                        let m = 0x1_0000_0000int;
                        let count = self.packet_count as int;
                        let t = self.octet_count + total_len(taken);
                        vstd::arithmetic::div_mod::lemma_add_mod_noop(t, p@.len() as int, m);
                        vstd::arithmetic::div_mod::lemma_add_mod_noop(count + i, 1, m);
                        assert(octet_count == (before + len) % m);
                    }
                },
                None => {},
            }
            i += 1;
        }
        assert(packets.packets().take(n as int) == packets.packets());
        self.packet_count = packet_count;
        self.octet_count = octet_count;
        self.last_timestamps = Some((rtp_timestamp, ntp_timestamp));
        let ghost ids_before = self.frame_ids();
        let ghost packets_before = self.frame_packets();
        if self.history.len() >= MAX_HISTORY_FRAMES {
            self.evict_oldest();
            assert(ids_before.push(frame_id).drop_first() =~= ids_before.drop_first().push(
                frame_id,
            ));
            assert(packets_before.push(expected).drop_first() =~= packets_before.drop_first().push(
                expected,
            ));
        }
        let ghost ids_mid = self.frame_ids();
        let ghost packets_mid = self.frame_packets();
        self.next_frame_id = frame_id + 1;
        self.history.push_back(SentFrame { frame_id, packets });
        assert(self.frame_ids() =~= ids_mid.push(frame_id));
        assert(self.frame_packets() =~= packets_mid.push(expected));
        assert(forall|k: int| 0 <= k < ids_mid.len() ==> #[trigger] ids_mid[k] < frame_id);
        assert forall|k: int| 0 <= k < self.history@.len() implies #[trigger] self.history@[k].frame_id
            < self.next_frame_id by {
            if k < ids_mid.len() {
                assert(self.frame_ids()[k] == ids_mid[k]);
            }
        }
    }

    /// Takes in what the receiver reported: its checkpoint only ever moves
    /// forward, and every frame it covers leaves the retransmit history.
    pub fn apply_feedback(&mut self, events: &ReceiverEvents)
        requires
            old(self).well_formed(),
        ensures
            final(self).well_formed(),
            final(self).checkpoint() == match events.checkpoint_frame_id {
                Some(c) => if c > old(self).checkpoint() {
                    c
                } else {
                    old(self).checkpoint()
                },
                None => old(self).checkpoint(),
            },
            events.checkpoint_frame_id is None ==> final(self).frame_ids() == old(
                self,
            ).frame_ids() && final(self).frame_packets() == old(self).frame_packets(),
            events.checkpoint_frame_id is Some ==> {
                let dropped = unacknowledged(old(self).frame_ids(), final(self).checkpoint());
                &&& final(self).frame_ids() == old(self).frame_ids().skip(dropped)
                &&& final(self).frame_packets() == old(self).frame_packets().skip(dropped)
            },
            final(self).next_frame_id() == old(self).next_frame_id(),
            final(self).packet_count() == old(self).packet_count(),
            final(self).octet_count() == old(self).octet_count(),
            final(self).sequence_number() == old(self).sequence_number(),
            final(self).last_report_ms() == old(self).last_report_ms(),
            final(self).last_timestamps() == old(self).last_timestamps(),
            final(self).kind() == old(self).kind() && final(self).ssrc() == old(self).ssrc(),
            final(self).payload_type() == old(self).payload_type(),
            final(self).key() == old(self).key() && final(self).iv_mask() == old(self).iv_mask(),
    {
        match events.checkpoint_frame_id {
            Some(checkpoint) => {
                if checkpoint > self.checkpoint {
                    self.checkpoint = checkpoint;
                }
                let ghost ids0 = self.frame_ids();
                let ghost packets0 = self.frame_packets();
                let ghost c = self.checkpoint;
                let mut dropped: usize = 0;
                assert(ids0.skip(0) == ids0 && packets0.skip(0) == packets0);
                while self.history.len() > 0 && self.history[0].frame_id <= self.checkpoint
                    invariant
                        self.well_formed(),
                        self.checkpoint == c,
                        dropped <= ids0.len(),
                        ids0.len() <= MAX_HISTORY_FRAMES,
                        ids0.len() == packets0.len(),
                        self.frame_ids() == ids0.skip(dropped as int),
                        self.frame_packets() == packets0.skip(dropped as int),
                        unacknowledged(ids0, c) == dropped + unacknowledged(
                            ids0.skip(dropped as int),
                            c,
                        ),
                        self.next_frame_id == old(self).next_frame_id,
                        self.packet_count == old(self).packet_count,
                        self.octet_count == old(self).octet_count,
                        self.packetizer.payload_type() == old(self).packetizer.payload_type(),
                        self.packetizer.sequence_number() == old(
                            self,
                        ).packetizer.sequence_number(),
                        self.last_report_ms == old(self).last_report_ms,
                        self.last_timestamps == old(self).last_timestamps,
                        self.kind == old(self).kind && self.ssrc == old(self).ssrc,
                        self.crypto.key() == old(self).crypto.key(),
                        self.crypto.iv_mask() == old(self).crypto.iv_mask(),
                    decreases self.history@.len(),
                {
                    let ghost rest = ids0.skip(dropped as int);
                    assert(rest.drop_first() == ids0.skip(dropped + 1));
                    assert(packets0.skip(dropped as int).drop_first() == packets0.skip(
                        dropped + 1,
                    ));
                    assert(rest[0] == self.history@[0].frame_id);
                    self.evict_oldest();
                    dropped += 1;
                }
                proof {
                    let rest = ids0.skip(dropped as int);
                    if rest.len() > 0 {
                        assert(rest[0] == self.history@[0].frame_id);
                    }
                }
            },
            None => {},
        }
    }

    /// The packets to send again for `nack`: the whole frame for
    /// `ALL_PACKETS_LOST`, else the one packet asked for; nothing for a frame
    /// no longer (or never) kept, or a packet id it does not have.
    pub fn retransmission(&self, nack: &Nack) -> (r: Vec<&[u8]>)
        requires
            self.well_formed(),
        ensures
            ({
                let ids = self.frame_ids();
                let found = exists|i: int| 0 <= i < ids.len() && ids[i] == nack.frame_id;
                if !found {
                    r@.len() == 0
                } else {
                    let i = choose|i: int| 0 <= i < ids.len() && ids[i] == nack.frame_id;
                    let packets = self.frame_packets()[i];
                    if nack.packet_id == ALL_PACKETS_LOST {
                        &&& r@.len() == packets.len()
                        &&& forall|k: int| 0 <= k < packets.len() ==> #[trigger] r@[k]@ == packets[k]
                    } else if (nack.packet_id as int) < packets.len() {
                        r@.len() == 1 && r@[0]@ == packets[nack.packet_id as int]
                    } else {
                        r@.len() == 0
                    }
                }
            }),
    {
        let mut out: Vec<&[u8]> = Vec::new();
        let mut i: usize = 0;
        while i < self.history.len()
            invariant
                i <= self.history@.len(),
                self.well_formed(),
                out@.len() == 0,
                forall|j: int| 0 <= j < i ==> #[trigger] self.frame_ids()[j] != nack.frame_id,
            decreases self.history@.len() - i,
        {
            if self.history[i].frame_id == nack.frame_id {
                let ghost ids = self.frame_ids();
                proof {
                    assert(ids[i as int] == nack.frame_id);
                    let k = choose|k: int| 0 <= k < ids.len() && ids[k] == nack.frame_id;
                    if k != i {
                        if k < i {
                            assert(ids[k] != nack.frame_id);
                        } else {
                            assert(ids[i as int] < ids[k]);
                        }
                    }
                }
                let frame = &self.history[i].packets;
                if nack.packet_id == ALL_PACKETS_LOST {
                    let n = frame.count();
                    let mut id: usize = 0;
                    while id < n
                        invariant
                            id <= n,
                            n == frame.packets().len(),
                            n <= crate::mirror::rtp::MAX_FRAME_PACKETS,
                            out@.len() == id,
                            forall|k: int| 0 <= k < id ==> #[trigger] out@[k]@ == frame.packets()[k],
                        decreases n - id,
                    {
                        match frame.packet(id as u16) {
                            Some(p) => out.push(p),
                            None => {},
                        }
                        id += 1;
                    }
                } else {
                    match frame.packet(nack.packet_id) {
                        Some(p) => out.push(p),
                        None => {},
                    }
                }
                return out;
            }
            i += 1;
        }
        out
    }

    /// Whether the receiver's report asks this stream for a key frame: it
    /// lost decoder state, and this is the video stream.
    pub fn wants_key_frame(&self, events: &ReceiverEvents) -> (r: bool)
        ensures
            r == (events.picture_loss && self.kind() == StreamKind::Video),
    {
        events.picture_loss && self.kind == StreamKind::Video
    }

    /// The Sender Report due at `now_ms`, if any: one is due when none was
    /// sent yet or the last is at least the report interval old, and there is
    /// something to report (a frame was sent). Sending one restarts the
    /// interval.
    pub fn sender_report(&mut self, now_ms: u64) -> (r: Option<[u8; 28]>)
        requires
            old(self).well_formed(),
        ensures
            final(self).well_formed(),
            ({
                let due = match old(self).last_report_ms() {
                    None => true,
                    Some(t) => now_ms >= t + SENDER_REPORT_INTERVAL_MS,
                };
                match (due, old(self).last_timestamps()) {
                    (true, Some((rtp, ntp))) => {
                        &&& r matches Some(report) && report@ == spec_sender_report(
                            old(self).ssrc(),
                            ntp,
                            rtp,
                            old(self).packet_count(),
                            old(self).octet_count(),
                        )
                        &&& final(self).last_report_ms() == Some(now_ms)
                    },
                    _ => r is None && final(self).last_report_ms() == old(self).last_report_ms(),
                }
            }),
            final(self).frame_ids() == old(self).frame_ids(),
            final(self).frame_packets() == old(self).frame_packets(),
            final(self).next_frame_id() == old(self).next_frame_id(),
            final(self).checkpoint() == old(self).checkpoint(),
            final(self).packet_count() == old(self).packet_count(),
            final(self).octet_count() == old(self).octet_count(),
            final(self).sequence_number() == old(self).sequence_number(),
            final(self).last_timestamps() == old(self).last_timestamps(),
            final(self).kind() == old(self).kind() && final(self).ssrc() == old(self).ssrc(),
    {
        let due = match self.last_report_ms {
            None => true,
            Some(t) => now_ms >= t && now_ms - t >= SENDER_REPORT_INTERVAL_MS,
        };
        if !due {
            return None;
        }
        match self.last_timestamps {
            Some((rtp_timestamp, ntp_timestamp)) => {
                let report = build_sender_report(
                    self.ssrc,
                    ntp_timestamp,
                    rtp_timestamp,
                    self.packet_count,
                    self.octet_count,
                );
                self.last_report_ms = Some(now_ms);
                Some(report)
            },
            None => None,
        }
    }
}

/// Once the receiver's feedback is in, no frame it has acknowledged stays in
/// the history: every frame kept has an id above the checkpoint, and the
/// frames kept are the newest ones, in order.
pub proof fn lemma_feedback_leaves_only_unacknowledged(ids: Seq<u64>, checkpoint: u64)
    requires
        increasing(ids),
    ensures
        0 <= unacknowledged(ids, checkpoint) <= ids.len(),
        forall|k: int|
            0 <= k < ids.skip(unacknowledged(ids, checkpoint)).len() ==> #[trigger] ids.skip(
                unacknowledged(ids, checkpoint),
            )[k] > checkpoint,
    decreases ids.len(),
{
    if ids.len() > 0 && ids[0] <= checkpoint {
        let rest = ids.drop_first();
        assert(increasing(rest)) by {
            assert forall|i: int, j: int| 0 <= i < j < rest.len() implies rest[i] < rest[j] by {
                assert(rest[i] == ids[i + 1] && rest[j] == ids[j + 1]);
            }
        }
        lemma_feedback_leaves_only_unacknowledged(rest, checkpoint);
        assert(ids.skip(1 + unacknowledged(rest, checkpoint)) =~= rest.skip(
            unacknowledged(rest, checkpoint),
        ));
    } else if ids.len() > 0 {
        assert forall|k: int| 0 <= k < ids.len() implies #[trigger] ids.skip(0)[k] > checkpoint by {
            if k > 0 {
                assert(ids[0] < ids[k]);
            }
        }
    }
}

/// The history of a stream is always in strictly increasing frame order, at
/// most `MAX_HISTORY_FRAMES` long, and holds only frames already sent.
pub proof fn lemma_history_is_bounded_and_ordered(stream: Stream)
    requires
        stream.well_formed(),
    ensures
        stream.frame_ids().len() <= MAX_HISTORY_FRAMES,
        stream.frame_ids().len() == stream.frame_packets().len(),
        increasing(stream.frame_ids()),
        forall|i: int|
            0 <= i < stream.frame_ids().len() ==> #[trigger] stream.frame_ids()[i]
                < stream.next_frame_id(),
{
}

/// What a sent frame says of its dependencies: a key frame references
/// itself, so the receiver can decode it on its own (as it must after a
/// picture loss); so does the first frame; every other frame references the
/// frame before it. Every packet also flags a key frame as one, and carries
/// the frame's own id.
pub proof fn lemma_sent_frame_references(
    key: Seq<u8>,
    iv_mask: Seq<u8>,
    frame_id: u64,
    is_key_frame: bool,
    rtp_timestamp: u32,
    data: &[u8],
    payload_type: u8,
    ssrc: u32,
    first_sequence_number: u16,
)
    ensures
        ({
            let packets = encrypted_packets(
                key,
                iv_mask,
                outbound(frame_id, is_key_frame, rtp_timestamp, data),
                payload_type,
                ssrc,
                first_sequence_number,
            );
            let referenced = if is_key_frame || frame_id == 0 {
                frame_id as int
            } else {
                frame_id - 1
            };
            &&& packets.len() >= 1
            &&& forall|i: int|
                0 <= i < packets.len() ==> {
                    &&& (#[trigger] packets[i]).len() >= 19
                    &&& (packets[i][12] & KEY_FRAME_BIT != 0) == is_key_frame
                    &&& packets[i][13] == (frame_id % 0x100) as u8
                    &&& packets[i][18] == (referenced % 0x100) as u8
                }
        }),
{
    let frame = outbound(frame_id, is_key_frame, rtp_timestamp, data);
    let packets = encrypted_packets(key, iv_mask, frame, payload_type, ssrc, first_sequence_number);
    crate::mirror::rtp::lemma_num_frame_packets(data@.len() as int);
    assert forall|i: int| 0 <= i < packets.len() implies {
        &&& (#[trigger] packets[i]).len() >= 19
        &&& (packets[i][12] & KEY_FRAME_BIT != 0) == is_key_frame
        &&& packets[i][13] == (frame_id % 0x100) as u8
        &&& packets[i][18] == ((if is_key_frame || frame_id == 0 {
            frame_id as int
        } else {
            frame_id - 1
        }) % 0x100) as u8
    } by {
        let seq_no = ((first_sequence_number + i) % 0x1_0000) as u16;
        crate::mirror::rtp::lemma_header_bytes(frame, payload_type, ssrc, seq_no, i);
        let h = spec_packet_header(frame, payload_type, ssrc, seq_no, i);
        assert(packets[i][12] == h[12] && packets[i][13] == h[13] && packets[i][18] == h[18]);
    }
}

} // verus!