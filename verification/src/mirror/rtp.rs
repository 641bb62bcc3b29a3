//! Cast Streaming RTP packetization.
//!
//! Layout (all integers big-endian):
//!   bytes 0..12   standard RTP header (V=2; M = last packet of frame; PT;
//!                 sequence number; RTP timestamp; sender SSRC)
//!   byte  12      K|R|extension count (K = key frame, R = "reference frame
//!                 id present", always set by the sender)
//!   byte  13      frame id (low 8 bits)
//!   bytes 14..16  packet id within the frame
//!   bytes 16..18  max packet id of the frame
//!   byte  18      referenced frame id (low 8 bits)
//!   [ext]         optional Adaptive Latency extension (type 1, 2 data bytes)
//!   rest          the payload chunk, as the payload processor left it

use vstd::prelude::*;

use crate::wire::{be16, be32, push_be16, push_be32};

verus! {

/// Ethernet MTU minus IPv4 + UDP headers: 1500 - 20 - 8.
pub const MAX_PACKET_SIZE: usize = 1472;

/// Base Cast RTP header (no extensions): 12 + 7.
pub const BASE_HEADER_SIZE: usize = 19;

/// Header size with the Adaptive Latency extension reserved; payload chunking
/// always assumes this worst case.
pub const MAX_HEADER_SIZE: usize = 23;

/// Usable payload bytes per packet: `MAX_PACKET_SIZE - MAX_HEADER_SIZE`.
pub const MAX_PAYLOAD_SIZE: usize = 1449;

/// Size of every packet except the first (which may carry the extension) and
/// the last (which carries the payload remainder):
/// `BASE_HEADER_SIZE + MAX_PAYLOAD_SIZE`.
pub const FULL_PACKET_SIZE: usize = 1468;

/// Packet ids are 16 bits wide, so a frame holds at most this many packets.
pub const MAX_FRAME_PACKETS: usize = 65536;

pub const KEY_FRAME_BIT: u8 = 0b1000_0000;

pub const HAS_REFERENCE_FRAME_ID_BIT: u8 = 0b0100_0000;

pub const MARKER_BIT: u8 = 0b1000_0000;

pub const ADAPTIVE_LATENCY_EXTENSION_TYPE: u16 = 1;

/// A frame ready to be packetized. `data` is the plaintext payload; it is
/// transformed on its way into the packets by the payload processor handed
/// to [`Packetizer::packetize`].
pub struct OutboundFrame<'a> {
    pub frame_id: u64,
    pub referenced_frame_id: u64,
    pub rtp_timestamp: u32,
    pub is_key_frame: bool,
    /// Set on the first frame to communicate the target playout delay.
    pub playout_delay_ms: Option<u16>,
    pub data: &'a [u8],
}

/// Transforms each payload chunk in place as it is written into a packet
/// (the sender encrypts here). The transform is bytewise by position: what a
/// chunk turns into depends only on its bytes and on where in the frame it
/// starts, so chunking does not change the result.
pub trait PayloadProcessor {
    /// What `input`, starting `offset` bytes into the frame, turns into.
    spec fn processed(&self, offset: int, input: Seq<u8>) -> Seq<u8>;

    /// How many bytes of a frame this processor can handle.
    spec fn capacity(&self) -> nat;

    /// The calls made so far, in order: where in the frame each input
    /// started, and the bytes it was handed.
    spec fn calls(&self) -> Seq<(int, Seq<u8>)>;

    /// Processing keeps the length.
    proof fn lemma_processed_len(&self, offset: int, input: Seq<u8>)
        ensures
            self.processed(offset, input).len() == input.len(),
    ;

    /// Transforms `buffer[start..]`, which starts `offset` bytes into the
    /// frame. Bytes before `start` are left alone.
    fn process(&mut self, buffer: &mut Vec<u8>, start: usize, offset: usize)
        requires
            start <= old(buffer).len(),
            offset + old(buffer).len() - start <= old(self).capacity(),
        ensures
            final(buffer)@.len() == old(buffer)@.len(),
            final(buffer)@ == old(buffer)@.take(start as int) + old(self).processed(
                offset as int,
                old(buffer)@.skip(start as int),
            ),
            final(self).capacity() == old(self).capacity(),
            forall|o: int, s: Seq<u8>| #[trigger]
                final(self).processed(o, s) == old(self).processed(o, s),
            final(self).calls() == old(self).calls().push(
                (offset as int, old(buffer)@.skip(start as int)),
            ),
    ;
}

/// Leaves the payload as it is.
pub struct Plaintext {
    log: Ghost<Seq<(int, Seq<u8>)>>,
}

impl Plaintext {
    /// A processor that has not been called yet.
    pub fn new() -> (r: Self)
        ensures
            r.calls() == Seq::<(int, Seq<u8>)>::empty(),
    {
        Plaintext { log: Ghost(Seq::empty()) }
    }
}

impl PayloadProcessor for Plaintext {
    open spec fn processed(&self, offset: int, input: Seq<u8>) -> Seq<u8> {
        input
    }

    open spec fn capacity(&self) -> nat {
        usize::MAX as nat
    }

    closed spec fn calls(&self) -> Seq<(int, Seq<u8>)> {
        self.log@
    }

    proof fn lemma_processed_len(&self, offset: int, input: Seq<u8>) {
    }

    fn process(&mut self, buffer: &mut Vec<u8>, start: usize, offset: usize) {
        self.log = Ghost(self.log@.push((offset as int, buffer@.skip(start as int))));
        assert(buffer@ =~= buffer@.take(start as int) + buffer@.skip(start as int));
    }
}

/// The calls a frame of `data` makes of the payload processor: one per
/// packet, in packet order, each with its chunk and where it starts.
pub open spec fn payload_calls(data: Seq<u8>) -> Seq<(int, Seq<u8>)> {
    Seq::new(
        spec_num_packets(data.len() as int) as nat,
        |i: int| (chunk_start(i), payload_chunks(data)[i]),
    )
}

/// How many packets a payload of `len` bytes takes: at least one.
pub open spec fn spec_num_packets(len: int) -> int {
    if len <= 0 {
        1
    } else {
        (len + MAX_PAYLOAD_SIZE - 1) / (MAX_PAYLOAD_SIZE as int)
    }
}

/// Every frame takes at least one packet.
pub proof fn lemma_num_frame_packets(len: int)
    requires
        0 <= len,
    ensures
        spec_num_packets(len) >= 1,
{
    lemma_num_packets(len);
}

proof fn lemma_num_packets(len: int)
    requires
        0 <= len,
    ensures
        spec_num_packets(len) >= 1,
        (spec_num_packets(len) - 1) * MAX_PAYLOAD_SIZE <= len <= spec_num_packets(len) * MAX_PAYLOAD_SIZE,
        len > 0 ==> (spec_num_packets(len) - 1) * MAX_PAYLOAD_SIZE < len,
        len <= usize::MAX ==> spec_num_packets(len) <= usize::MAX,
        len <= MAX_FRAME_PACKETS * MAX_PAYLOAD_SIZE ==> spec_num_packets(len) <= MAX_FRAME_PACKETS,
{
    if len > 0 {
        let c = (len + 1448) / 1449;
        assert(c >= 1 && (c - 1) * 1449 < len && len <= c * 1449) by (nonlinear_arith)
            requires
                len > 0,
                c == (len + 1448) / 1449,
        ;
    }
}

/// The bounds of packet `i`'s payload chunk.
proof fn lemma_chunk_bounds(len: int, i: int)
    requires
        0 <= len,
        0 <= i < spec_num_packets(len),
    ensures
        0 <= chunk_start(i) <= chunk_end(len, i) <= len,
        chunk_end(len, i) - chunk_start(i) <= MAX_PAYLOAD_SIZE,
        i < spec_num_packets(len) - 1 ==> chunk_end(len, i) - chunk_start(i) == MAX_PAYLOAD_SIZE,
{
    lemma_num_packets(len);
    let c = spec_num_packets(len);
    assert(0 <= i * 1449 && (i < c - 1 ==> (i + 1) * 1449 <= (c - 1) * 1449) && (i == c - 1 ==> i
        * 1449 == (c - 1) * 1449)) by (nonlinear_arith)
        requires
            0 <= i < c,
    ;
}

pub fn num_packets(payload_len: usize) -> (r: usize)
    ensures
        r == spec_num_packets(payload_len as int),
        r >= 1,
        (r - 1) * MAX_PAYLOAD_SIZE <= payload_len <= r * MAX_PAYLOAD_SIZE,
        payload_len > 0 ==> (r - 1) * MAX_PAYLOAD_SIZE < payload_len,
{
    proof {
        lemma_num_packets(payload_len as int);
    }
    if payload_len == 0 {
        1
    } else {
        let q = payload_len / MAX_PAYLOAD_SIZE;
        let rem = payload_len % MAX_PAYLOAD_SIZE;
        assert(q < usize::MAX && q + (if rem == 0 { 0int } else { 1int }) == (payload_len + 1448)
            / 1449) by (nonlinear_arith)
            requires
                q == payload_len / 1449,
                rem == payload_len % 1449,
                payload_len > 0,
        ;
        if rem == 0 {
            q
        } else {
            q + 1
        }
    }
}

/// Where packet `i`'s payload chunk starts within the frame.
pub open spec fn chunk_start(i: int) -> int {
    i * MAX_PAYLOAD_SIZE
}

/// Where packet `i`'s payload chunk ends within a frame of `len` bytes.
pub open spec fn chunk_end(len: int, i: int) -> int {
    if i == spec_num_packets(len) - 1 {
        len
    } else {
        (i + 1) * MAX_PAYLOAD_SIZE
    }
}

/// The Cast header bits of byte 12.
pub open spec fn cast_flags(is_key_frame: bool, has_extension: bool) -> u8 {
    (if is_key_frame {
        KEY_FRAME_BIT
    } else {
        0u8
    }) | HAS_REFERENCE_FRAME_ID_BIT | (if has_extension {
        1u8
    } else {
        0u8
    })
}

/// The header of packet `packet_id` of `frame`, sent with sequence number
/// `sequence_number`.
pub open spec fn spec_packet_header(
    frame: OutboundFrame,
    payload_type: u8,
    ssrc: u32,
    sequence_number: u16,
    packet_id: int,
) -> Seq<u8> {
    let count = spec_num_packets(frame.data@.len() as int);
    let is_last = packet_id == count - 1;
    let latency = if packet_id == 0 {
        frame.playout_delay_ms
    } else {
        None
    };
    seq![
        0x80u8,
        (if is_last {
            MARKER_BIT
        } else {
            0u8
        }) | payload_type,
    ] + be16(sequence_number) + be32(frame.rtp_timestamp) + be32(ssrc) + seq![
        cast_flags(frame.is_key_frame, latency is Some),
        (frame.frame_id % 0x100) as u8,
    ] + be16(packet_id as u16) + be16((count - 1) as u16) + seq![
        (frame.referenced_frame_id % 0x100) as u8,
    ] + match latency {
        Some(delay) => be16(
            ((ADAPTIVE_LATENCY_EXTENSION_TYPE as int) * 0x400 + 2) as u16,
        ) + be16(delay),
        None => Seq::<u8>::empty(),
    }
}

/// Packet `packet_id` of `frame`: its header, then its payload chunk as
/// `processor` turns it.
pub open spec fn spec_packet<P: PayloadProcessor>(
    processor: P,
    frame: OutboundFrame,
    payload_type: u8,
    ssrc: u32,
    first_sequence_number: u16,
    packet_id: int,
) -> Seq<u8> {
    let len = frame.data@.len() as int;
    spec_packet_header(
        frame,
        payload_type,
        ssrc,
        ((first_sequence_number + packet_id) % 0x1_0000) as u16,
        packet_id,
    ) + processor.processed(
        chunk_start(packet_id),
        frame.data@.subrange(chunk_start(packet_id), chunk_end(len, packet_id)),
    )
}

/// All packets of `frame`, in order, numbered from `first_sequence_number`.
pub open spec fn spec_packets<P: PayloadProcessor>(
    processor: P,
    frame: OutboundFrame,
    payload_type: u8,
    ssrc: u32,
    first_sequence_number: u16,
) -> Seq<Seq<u8>> {
    Seq::new(
        spec_num_packets(frame.data@.len() as int) as nat,
        |i: int| spec_packet(processor, frame, payload_type, ssrc, first_sequence_number, i),
    )
}

/// The bytes of `packets` back to back.
pub open spec fn concat(packets: Seq<Seq<u8>>) -> Seq<u8>
    decreases packets.len(),
{
    if packets.len() == 0 {
        Seq::empty()
    } else {
        concat(packets.drop_last()) + packets.last()
    }
}

/// Where packet `i` starts in `concat(packets)`.
pub open spec fn packet_offset(packets: Seq<Seq<u8>>, i: int) -> int {
    concat(packets.take(i)).len() as int
}

proof fn lemma_concat_take_prefix(packets: Seq<Seq<u8>>, k: int)
    requires
        0 <= k <= packets.len(),
    ensures
        concat(packets.take(k)).len() <= concat(packets).len(),
        concat(packets) == concat(packets.take(k)) + concat(packets).skip(
            concat(packets.take(k)).len() as int,
        ),
    decreases packets.len() - k,
{
    if k == packets.len() {
        assert(packets.take(k) =~= packets);
        assert(concat(packets).skip(concat(packets).len() as int) =~= Seq::<u8>::empty());
    } else {
        lemma_concat_take_prefix(packets, k + 1);
        assert(packets.take(k + 1).drop_last() =~= packets.take(k));
        let a = concat(packets.take(k));
        let b = concat(packets.take(k + 1));
        assert(b == a + packets[k]);
        assert(concat(packets) =~= a + concat(packets).skip(a.len() as int));
    }
}

/// Packet `i` sits at `packet_offset(packets, i)` in the concatenation.
pub proof fn lemma_concat_packet(packets: Seq<Seq<u8>>, i: int)
    requires
        0 <= i < packets.len(),
    ensures
        packet_offset(packets, i + 1) == packet_offset(packets, i) + packets[i].len(),
        packet_offset(packets, i + 1) <= concat(packets).len(),
        concat(packets).subrange(packet_offset(packets, i), packet_offset(packets, i + 1))
            == packets[i],
{
    lemma_concat_take_prefix(packets, i + 1);
    assert(packets.take(i + 1).drop_last() =~= packets.take(i));
    let a = concat(packets.take(i));
    let b = concat(packets.take(i + 1));
    assert(b == a + packets[i]);
    assert(concat(packets).subrange(a.len() as int, b.len() as int) =~= packets[i]);
}

/// Offsets of the packets of a frame: every packet but the first and the
/// last is exactly `FULL_PACKET_SIZE` bytes.
proof fn lemma_offsets(packets: Seq<Seq<u8>>, i: int)
    requires
        1 <= i < packets.len(),
        forall|j: int| 1 <= j < packets.len() - 1 ==> #[trigger] packets[j].len() == FULL_PACKET_SIZE,
    ensures
        packet_offset(packets, i) == packets[0].len() + (i - 1) * FULL_PACKET_SIZE,
    decreases i,
{
    if i == 1 {
        lemma_concat_packet(packets, 0);
        assert(packets.take(0) =~= Seq::<Seq<u8>>::empty());
        assert(concat(packets.take(0)) =~= Seq::<u8>::empty());
    } else {
        lemma_offsets(packets, i - 1);
        lemma_concat_packet(packets, i - 1);
        assert(packets[i - 1].len() == FULL_PACKET_SIZE);
    }
}

/// One step of packetization: appending packet `i` extends the concatenation.
proof fn lemma_step<P: PayloadProcessor>(
    processor: P,
    frame: OutboundFrame,
    payload_type: u8,
    ssrc: u32,
    first_sequence_number: u16,
    sequence_number: u16,
    i: int,
    before: Seq<u8>,
    after: Seq<u8>,
)
    requires
        0 <= i < spec_num_packets(frame.data@.len() as int),
        sequence_number == (first_sequence_number + i) % 0x1_0000,
        before == concat(
            spec_packets(processor, frame, payload_type, ssrc, first_sequence_number).take(i),
        ),
        after == before + spec_packet_header(frame, payload_type, ssrc, sequence_number, i)
            + processor.processed(
            chunk_start(i),
            frame.data@.subrange(chunk_start(i), chunk_end(frame.data@.len() as int, i)),
        ),
    ensures
        after == concat(
            spec_packets(processor, frame, payload_type, ssrc, first_sequence_number).take(i + 1),
        ),
        i == 0 ==> after.len() == spec_packets(
            processor,
            frame,
            payload_type,
            ssrc,
            first_sequence_number,
        )[0].len(),
{
    let ps = spec_packets(processor, frame, payload_type, ssrc, first_sequence_number);
    assert(ps.take(i + 1).drop_last() =~= ps.take(i));
    assert(ps[i] == spec_packet(processor, frame, payload_type, ssrc, first_sequence_number, i));
    assert(after =~= before + ps[i]);
    if i == 0 {
        assert(ps.take(0) =~= Seq::<Seq<u8>>::empty());
    }
}

/// The sequence number after `s`, which is `a` modulo 2^16, is `a + 1`
/// modulo 2^16.
proof fn lemma_next_sequence_number(a: int, s: u16, next: u16)
    requires
        a >= 0,
        s == a % 0x1_0000,
        next == (if s + 1 > u16::MAX {
            s + 1 - 0x1_0000
        } else {
            s + 1
        }),
    ensures
        next == (a + 1) % 0x1_0000,
{
}

/// The lengths of a frame's packets: the header, plus the extension on the
/// first, plus the chunk.
proof fn lemma_packet_lengths<P: PayloadProcessor>(
    processor: P,
    frame: OutboundFrame,
    payload_type: u8,
    ssrc: u32,
    first_sequence_number: u16,
)
    requires
        frame.data@.len() <= MAX_FRAME_PACKETS * MAX_PAYLOAD_SIZE,
    ensures
        ({
            let ps = spec_packets(processor, frame, payload_type, ssrc, first_sequence_number);
            let count = ps.len();
            &&& 1 <= count <= MAX_FRAME_PACKETS
            &&& forall|j: int| 1 <= j < count - 1 ==> #[trigger] ps[j].len() == FULL_PACKET_SIZE
            &&& count >= 2 ==> ps[count - 1].len() <= FULL_PACKET_SIZE
        }),
{
    let len = frame.data@.len() as int;
    lemma_num_packets(len);
    let ps = spec_packets(processor, frame, payload_type, ssrc, first_sequence_number);
    let count = ps.len() as int;
    assert forall|j: int| 1 <= j < count implies #[trigger] ps[j].len() == BASE_HEADER_SIZE + chunk_end(
        len,
        j,
    ) - chunk_start(j) by {
        lemma_chunk_bounds(len, j);
        let chunk = frame.data@.subrange(chunk_start(j), chunk_end(len, j));
        processor.lemma_processed_len(chunk_start(j), chunk);
    }
    assert forall|j: int| 1 <= j < count - 1 implies #[trigger] ps[j].len() == FULL_PACKET_SIZE by {
        lemma_chunk_bounds(len, j);
    }
    if count >= 2 {
        lemma_chunk_bounds(len, count - 1);
    }
}

/// All RTP packets of one frame, back to back in a single exactly-sized
/// buffer (one allocation per frame). Packet boundaries are arithmetic: every
/// packet except the first (optional extension) and the last (payload
/// remainder) is exactly `FULL_PACKET_SIZE` bytes.
pub struct PacketizedFrame {
    buffer: Vec<u8>,
    first_packet_len: usize,
    count: usize,
    packets: Ghost<Seq<Seq<u8>>>,
}

impl PacketizedFrame {
    #[verifier::type_invariant]
    spec fn well_formed(self) -> bool {
        &&& self.buffer@ == concat(self.packets@)
        &&& self.count == self.packets@.len()
        &&& 1 <= self.count <= MAX_FRAME_PACKETS
        &&& self.packets@[0].len() == self.first_packet_len
        &&& forall|j: int|
            1 <= j < self.count - 1 ==> #[trigger] self.packets@[j].len() == FULL_PACKET_SIZE
        &&& self.count >= 2 ==> self.packets@[self.count - 1].len() <= FULL_PACKET_SIZE
    }

    /// The packets, in order.
    pub closed spec fn packets(self) -> Seq<Seq<u8>> {
        self.packets@
    }

    /// The backing buffer: the packets back to back.
    pub closed spec fn bytes(self) -> Seq<u8> {
        self.buffer@
    }

    /// How many packets the frame took.
    pub fn count(&self) -> (r: usize)
        ensures
            r == self.packets().len(),
            1 <= r <= MAX_FRAME_PACKETS,
            self.bytes() == concat(self.packets()),
    {
        proof {
            use_type_invariant(self);
        }
        self.count
    }

    /// Packet `packet_id`, or `None` past the last one.
    pub fn packet(&self, packet_id: u16) -> (r: Option<&[u8]>)
        ensures
            r is Some <==> (packet_id as int) < self.packets().len(),
            r matches Some(p) ==> p@ == self.packets()[packet_id as int],
    {
        proof {
            use_type_invariant(self);
        }
        let id = packet_id as usize;
        if id >= self.count {
            return None;
        }
        let ghost ps = self.packets@;
        if id == 0 {
            proof {
                lemma_concat_packet(ps, 0);
                assert(ps.take(0) =~= Seq::<Seq<u8>>::empty());
                assert(self.buffer@.subrange(0, self.first_packet_len as int) =~= ps[0]);
            }
            return Some(slice_range(self.buffer.as_slice(), 0, self.first_packet_len));
        }
        proof {
            lemma_offsets(ps, id as int);
            lemma_concat_packet(ps, id as int);
            if id + 1 < self.count {
                lemma_offsets(ps, id + 1);
            } else {
                assert(ps.take(self.count as int) =~= ps);
            }
        }
        let buffer_len = self.buffer.len();
        assert(packet_offset(ps, id as int) == self.first_packet_len + (id - 1) * FULL_PACKET_SIZE);
        assert(packet_offset(ps, id as int) <= buffer_len);
        let start = self.first_packet_len + (id - 1) * FULL_PACKET_SIZE;
        let end = if buffer_len - start > FULL_PACKET_SIZE {
            start + FULL_PACKET_SIZE
        } else {
            buffer_len
        };
        Some(slice_range(self.buffer.as_slice(), start, end))
    }

    /// The packets, in order.
    pub fn iter(&self) -> (r: std::vec::IntoIter<&[u8]>)
        ensures
            vstd::std_specs::iter::IteratorSpec::remaining(&r).len() == self.packets().len(),
            forall|i: int|
                0 <= i < self.packets().len() ==> #[trigger] vstd::std_specs::iter::IteratorSpec::remaining(
                    &r,
                )[i]@ == self.packets()[i],
    {
        proof {
            use_type_invariant(self);
        }
        let mut list: Vec<&[u8]> = Vec::with_capacity(self.count);
        let mut id: usize = 0;
        while id < self.count
            invariant
                id <= self.count,
                self.count == self.packets().len(),
                self.count <= MAX_FRAME_PACKETS,
                list@.len() == id,
                forall|i: int| 0 <= i < id ==> #[trigger] list@[i]@ == self.packets()[i],
            decreases self.count - id,
        {
            let p = self.packet(id as u16);
            match p {
                Some(p) => list.push(p),
                None => {
                    assert(false);
                },
            }
            id += 1;
        }
        let r = list.into_iter();
        proof {
            broadcast use vstd::std_specs::vec::axiom_spec_into_iter;
        }
        r
    }

    /// Recovers the backing buffer for reuse by a later `packetize` call,
    /// keeping its capacity.
    pub fn into_buffer(self) -> (r: Vec<u8>)
        ensures
            r@ == self.bytes(),
    {
        self.buffer
    }
}

/// `s[start..end]`.
fn slice_range(s: &[u8], start: usize, end: usize) -> (r: &[u8])
    requires
        start <= end <= s@.len(),
    ensures
        r@ == s@.subrange(start as int, end as int),
{
    &s[start..end]
}

pub struct Packetizer {
    payload_type: u8,
    ssrc: u32,
    sequence_number: u16,
}

impl Packetizer {
    pub closed spec fn payload_type(self) -> u8 {
        self.payload_type
    }

    pub closed spec fn ssrc(self) -> u32 {
        self.ssrc
    }

    /// The sequence number the next packet is sent with.
    pub closed spec fn sequence_number(self) -> u16 {
        self.sequence_number
    }

    /// A packetizer starting at a random sequence number, per the Cast
    /// Streaming spec.
    pub fn new(payload_type: u8, ssrc: u32) -> (r: Self)
        ensures
            r.payload_type() == payload_type,
            r.ssrc() == ssrc,
    {
        Self { payload_type, ssrc, sequence_number: crate::random::random_u16() }
    }

    /// Splits `frame` into ready-to-send RTP packets, built inside `buffer`
    /// (recycled from an earlier frame via [`PacketizedFrame::into_buffer`],
    /// or empty; contents are discarded, capacity is reused). Each payload
    /// chunk is copied into the packet and then handed to `process_payload`,
    /// in payload order.
    ///
    /// Sequence numbers are consumed even on retransmission, so retransmits
    /// must resend the stored packets rather than re-packetizing.
    #[verifier::rlimit(40)]
    pub fn packetize<P: PayloadProcessor>(
        &mut self,
        frame: &OutboundFrame<'_>,
        buffer: Vec<u8>,
        process_payload: &mut P,
    ) -> (r: PacketizedFrame)
        requires
            frame.data@.len() <= MAX_FRAME_PACKETS * MAX_PAYLOAD_SIZE,
            frame.data@.len() <= old(process_payload).capacity(),
        ensures
            r.packets() == spec_packets(
                *old(process_payload),
                *frame,
                old(self).payload_type(),
                old(self).ssrc(),
                old(self).sequence_number(),
            ),
            final(self).payload_type() == old(self).payload_type(),
            final(self).ssrc() == old(self).ssrc(),
            final(self).sequence_number() == (old(self).sequence_number() + r.packets().len())
                % 0x1_0000,
            final(process_payload).capacity() == old(process_payload).capacity(),
            forall|o: int, s: Seq<u8>| #[trigger]
                final(process_payload).processed(o, s) == old(process_payload).processed(o, s),
            final(process_payload).calls() == old(process_payload).calls() + payload_calls(
                frame.data@,
            ),
            forall|i: int|
                0 <= i < r.packets().len() ==> {
                    &&& (#[trigger] r.packets()[i]).len() >= 19
                    &&& (r.packets()[i][12] & KEY_FRAME_BIT != 0) == frame.is_key_frame
                    &&& r.packets()[i][13] == (frame.frame_id % 0x100) as u8
                    &&& r.packets()[i][18] == (frame.referenced_frame_id % 0x100) as u8
                },
    {
        let mut buffer = buffer;
        let len = frame.data.len();
        let count = num_packets(len);
        let extension_len: usize = if frame.playout_delay_ms.is_some() {
            4
        } else {
            0
        };
        proof {
            lemma_num_packets(len as int);
        }
        buffer.clear();
        buffer.reserve(count * BASE_HEADER_SIZE + extension_len + len);
        let mut first_packet_len: usize = 0;
        let ghost p0 = *process_payload;
        let ghost first_seq = self.sequence_number;
        let ghost expected = spec_packets(p0, *frame, self.payload_type, self.ssrc, first_seq);

        let mut i: usize = 0;
        while i < count
            invariant
                count == spec_num_packets(len as int),
                len == frame.data@.len(),
                1 <= count <= MAX_FRAME_PACKETS,
                i <= count,
                expected == spec_packets(p0, *frame, self.payload_type, self.ssrc, first_seq),
                self.payload_type == old(self).payload_type,
                self.ssrc == old(self).ssrc,
                first_seq == old(self).sequence_number,
                p0 == *old(process_payload),
                self.sequence_number as int == (first_seq + i) % 0x1_0000,
                buffer@ == concat(expected.take(i as int)),
                i > 0 ==> first_packet_len == expected[0].len(),
                len <= p0.capacity(),
                process_payload.capacity() == p0.capacity(),
                forall|o: int, s: Seq<u8>| #[trigger]
                    process_payload.processed(o, s) == p0.processed(o, s),
                process_payload.calls() == p0.calls() + payload_calls(frame.data@).take(i as int),
            decreases count - i,
        {
            let ghost before = buffer@;
            let ghost current = *process_payload;
            let ghost sequence_number = self.sequence_number;
            append_packet(
                &mut buffer,
                frame,
                self.payload_type,
                self.ssrc,
                self.sequence_number,
                i,
                count,
                process_payload,
            );
            self.sequence_number = self.sequence_number.wrapping_add(1);
            proof {
                lemma_next_sequence_number(
                    first_seq + i,
                    sequence_number,
                    self.sequence_number,
                );
                let cs = chunk_start(i as int);
                let chunk = frame.data@.subrange(cs, chunk_end(len as int, i as int));
                assert(current.processed(cs, chunk) == p0.processed(cs, chunk));
                let all = payload_calls(frame.data@);
                assert(all[i as int] == (cs, chunk));
                assert(all.take(i + 1) =~= all.take(i as int).push(all[i as int]));
                assert(process_payload.calls() =~= p0.calls() + all.take(i + 1));
                lemma_step(
                    p0,
                    *frame,
                    self.payload_type,
                    self.ssrc,
                    first_seq,
                    sequence_number,
                    i as int,
                    before,
                    buffer@,
                );
            }
            if i == 0 {
                first_packet_len = buffer.len();
            }
            i += 1;
        }
        proof {
            assert(expected.take(count as int) =~= expected);
            assert(payload_calls(frame.data@).take(count as int) =~= payload_calls(frame.data@));
            assert forall|k: int| 0 <= k < expected.len() implies {
                &&& (#[trigger] expected[k]).len() >= 19
                &&& (expected[k][12] & KEY_FRAME_BIT != 0) == frame.is_key_frame
                &&& expected[k][13] == (frame.frame_id % 0x100) as u8
                &&& expected[k][18] == (frame.referenced_frame_id % 0x100) as u8
            } by {
                lemma_packet_cast_header(p0, *frame, self.payload_type, self.ssrc, first_seq, k);
            }
            lemma_packet_lengths(p0, *frame, self.payload_type, self.ssrc, first_seq);
        }
        PacketizedFrame { buffer, first_packet_len, count, packets: Ghost(expected) }
    }
}

/// Appends packet `i` of `frame`: its header, then its payload chunk as
/// `process_payload` turns it.
fn append_packet<P: PayloadProcessor>(
    buffer: &mut Vec<u8>,
    frame: &OutboundFrame<'_>,
    payload_type: u8,
    ssrc: u32,
    sequence_number: u16,
    i: usize,
    count: usize,
    process_payload: &mut P,
)
    requires
        count == spec_num_packets(frame.data@.len() as int),
        i < count <= MAX_FRAME_PACKETS,
        frame.data@.len() <= old(process_payload).capacity(),
    ensures
        final(buffer)@ == old(buffer)@ + spec_packet_header(
            *frame,
            payload_type,
            ssrc,
            sequence_number,
            i as int,
        ) + old(process_payload).processed(
            chunk_start(i as int),
            frame.data@.subrange(chunk_start(i as int), chunk_end(frame.data@.len() as int, i as int)),
        ),
        final(process_payload).capacity() == old(process_payload).capacity(),
        forall|o: int, s: Seq<u8>| #[trigger]
            final(process_payload).processed(o, s) == old(process_payload).processed(o, s),
        final(process_payload).calls() == old(process_payload).calls().push(
            (
                chunk_start(i as int),
                frame.data@.subrange(
                    chunk_start(i as int),
                    chunk_end(frame.data@.len() as int, i as int),
                ),
            ),
        ),
{
    let len = frame.data.len();
    proof {
        lemma_chunk_bounds(len as int, i as int);
    }
    let is_last = i == count - 1;
    let chunk_start = MAX_PAYLOAD_SIZE * i;
    let chunk_end = if is_last {
        len
    } else {
        chunk_start + MAX_PAYLOAD_SIZE
    };
    push_header(buffer, frame, payload_type, ssrc, sequence_number, i, count);
    let ghost with_header = buffer@;
    let payload_at = buffer.len();
    buffer.extend_from_slice(slice_range(frame.data, chunk_start, chunk_end));
    let ghost chunk = frame.data@.subrange(chunk_start as int, chunk_end as int);
    assert(buffer@.skip(payload_at as int) =~= chunk);
    assert(buffer@.take(payload_at as int) =~= with_header);
    process_payload.process(buffer, payload_at, chunk_start);
}

/// Appends the header of packet `packet_id` of `frame`.
fn push_header(
    buffer: &mut Vec<u8>,
    frame: &OutboundFrame<'_>,
    payload_type: u8,
    ssrc: u32,
    sequence_number: u16,
    packet_id: usize,
    count: usize,
)
    requires
        count == spec_num_packets(frame.data@.len() as int),
        packet_id < count <= MAX_FRAME_PACKETS,
    ensures
        final(buffer)@ == old(buffer)@ + spec_packet_header(
            *frame,
            payload_type,
            ssrc,
            sequence_number,
            packet_id as int,
        ),
{
    let is_last = packet_id == count - 1;
    let latency_change = if packet_id == 0 {
        frame.playout_delay_ms
    } else {
        None
    };
    // RTP header.
    buffer.push(0b1000_0000);
    let marker: u8 = if is_last {
        MARKER_BIT
    } else {
        0
    };
    buffer.push(marker | payload_type);
    push_be16(buffer, sequence_number);
    push_be32(buffer, frame.rtp_timestamp);
    push_be32(buffer, ssrc);
    // Cast header.
    let key_bit: u8 = if frame.is_key_frame {
        KEY_FRAME_BIT
    } else {
        0
    };
    let extension_bit: u8 = if latency_change.is_some() {
        1
    } else {
        0
    };
    buffer.push(key_bit | HAS_REFERENCE_FRAME_ID_BIT | extension_bit);
    buffer.push(low_byte(frame.frame_id));
    push_be16(buffer, packet_id as u16);
    push_be16(buffer, (count - 1) as u16);
    buffer.push(low_byte(frame.referenced_frame_id));
    if let Some(delay) = latency_change {
        // 6-bit type, 10-bit data size, then the data.
        let extension = (ADAPTIVE_LATENCY_EXTENSION_TYPE << 10) | 2;
        assert((ADAPTIVE_LATENCY_EXTENSION_TYPE << 10) | 2 == 0x402u16) by (bit_vector);
        push_be16(buffer, extension);
        push_be16(buffer, delay);
    }
    assert(final(buffer)@ =~= old(buffer)@ + spec_packet_header(
        *frame,
        payload_type,
        ssrc,
        sequence_number,
        packet_id as int,
    ));
}

/// The low 8 bits of `x`.
fn low_byte(x: u64) -> (r: u8)
    ensures
        r == (x % 0x100) as u8,
{
    let r = (x & 0xff) as u8;
    assert((x & 0xff) as u8 == (x % 0x100) as u8) by (bit_vector);
    r
}

/// The payload chunks a frame of `data` is split into, one per packet.
pub open spec fn payload_chunks(data: Seq<u8>) -> Seq<Seq<u8>> {
    let len = data.len() as int;
    Seq::new(
        spec_num_packets(len) as nat,
        |i: int| data.subrange(chunk_start(i), chunk_end(len, i)),
    )
}

proof fn lemma_chunks_prefix(data: Seq<u8>, k: int)
    requires
        0 <= k <= spec_num_packets(data.len() as int),
    ensures
        k < spec_num_packets(data.len() as int) ==> concat(payload_chunks(data).take(k))
            == data.take(chunk_start(k)),
        k == spec_num_packets(data.len() as int) ==> concat(payload_chunks(data).take(k)) == data,
    decreases k,
{
    let len = data.len() as int;
    let chunks = payload_chunks(data);
    lemma_num_packets(len);
    if k == 0 {
        assert(chunks.take(0) =~= Seq::<Seq<u8>>::empty());
        assert(data.take(0) =~= Seq::<u8>::empty());
    } else {
        lemma_chunks_prefix(data, k - 1);
        lemma_chunk_bounds(len, k - 1);
        assert(chunks.take(k).drop_last() =~= chunks.take(k - 1));
        assert(chunks.take(k).last() == data.subrange(chunk_start(k - 1), chunk_end(len, k - 1)));
        if k < spec_num_packets(len) {
            assert(chunk_end(len, k - 1) == chunk_start(k));
            assert(data.take(chunk_start(k - 1)) + data.subrange(chunk_start(k - 1), chunk_start(k))
                =~= data.take(chunk_start(k)));
        } else {
            assert(chunk_end(len, k - 1) == len);
            assert(data.take(chunk_start(k - 1)) + data.subrange(chunk_start(k - 1), len) =~= data);
        }
    }
}

/// Splitting a frame into packets loses nothing and adds nothing: the
/// payload chunks of its packets, back to back, are the frame.
pub proof fn lemma_chunks_cover_frame(data: Seq<u8>)
    ensures
        concat(payload_chunks(data)) == data,
        payload_chunks(data).len() >= 1,
        forall|i: int|
            0 <= i < payload_chunks(data).len() ==> #[trigger] payload_chunks(data)[i].len()
                <= MAX_PAYLOAD_SIZE,
{
    let len = data.len() as int;
    lemma_num_packets(len);
    lemma_chunks_prefix(data, spec_num_packets(len));
    assert(payload_chunks(data).take(spec_num_packets(len)) =~= payload_chunks(data));
    assert forall|i: int| 0 <= i < payload_chunks(data).len() implies #[trigger] payload_chunks(
        data,
    )[i].len() <= MAX_PAYLOAD_SIZE by {
        lemma_chunk_bounds(len, i);
    }
}

/// Every packet of a frame carries its own packet id and the frame's last
/// packet id, consecutive sequence numbers from the packetizer's, and the
/// marker bit exactly on the last packet (for a payload type below 128,
/// whose own top bit would otherwise read as the marker); and its payload is its chunk of
/// the frame as the processor turns it.
pub proof fn lemma_packet_fields<P: PayloadProcessor>(
    processor: P,
    frame: OutboundFrame,
    payload_type: u8,
    ssrc: u32,
    first_sequence_number: u16,
    i: int,
)
    requires
        0 <= i < spec_num_packets(frame.data@.len() as int),
        payload_type < 0x80,
    ensures
        ({
            let p = spec_packets(processor, frame, payload_type, ssrc, first_sequence_number)[i];
            let count = spec_num_packets(frame.data@.len() as int);
            let header = spec_packet_header(
                frame,
                payload_type,
                ssrc,
                ((first_sequence_number + i) % 0x1_0000) as u16,
                i,
            );
            &&& p == header + processor.processed(
                chunk_start(i),
                payload_chunks(frame.data@)[i],
            )
            &&& header.subrange(2, 4) == be16(((first_sequence_number + i) % 0x1_0000) as u16)
            &&& header.subrange(14, 16) == be16(i as u16)
            &&& header.subrange(16, 18) == be16((count - 1) as u16)
            &&& (header[1] & MARKER_BIT != 0) == (i == count - 1)
        }),
{
    let count = spec_num_packets(frame.data@.len() as int);
    let header = spec_packet_header(
        frame,
        payload_type,
        ssrc,
        ((first_sequence_number + i) % 0x1_0000) as u16,
        i,
    );
    assert(header.subrange(2, 4) =~= be16(((first_sequence_number + i) % 0x1_0000) as u16));
    assert(header.subrange(14, 16) =~= be16(i as u16));
    assert(header.subrange(16, 18) =~= be16((count - 1) as u16));
    let pt = payload_type;
    assert((MARKER_BIT | pt) & MARKER_BIT != 0) by (bit_vector);
    assert((0u8 | pt) & MARKER_BIT == 0) by (bit_vector)
        requires
            pt < 0x80,
    ;
    if i == count - 1 {
        assert(header[1] == (MARKER_BIT | pt));
    } else {
        assert(header[1] == (0u8 | pt));
    }
}

/// Packet `i` of a frame carries sequence number `first + i` (modulo 2^16)
/// in bytes 2 and 3.
proof fn lemma_packet_sequence_number<P: PayloadProcessor>(
    processor: P,
    frame: OutboundFrame,
    payload_type: u8,
    ssrc: u32,
    first_sequence_number: u16,
    i: int,
)
    requires
        0 <= i < spec_num_packets(frame.data@.len() as int),
    ensures
        spec_packets(processor, frame, payload_type, ssrc, first_sequence_number)[i].subrange(2, 4)
            == be16(((first_sequence_number + i) % 0x1_0000) as u16),
{
    let header = spec_packet_header(
        frame,
        payload_type,
        ssrc,
        ((first_sequence_number + i) % 0x1_0000) as u16,
        i,
    );
    let p = spec_packets(processor, frame, payload_type, ssrc, first_sequence_number)[i];
    assert(header.subrange(2, 4) =~= be16(((first_sequence_number + i) % 0x1_0000) as u16));
    assert(p.subrange(2, 4) =~= header.subrange(2, 4));
}

/// Every packet consumes exactly one sequence number, and numbering runs on
/// from one frame to the next: within a frame the packets carry consecutive
/// sequence numbers, and the first packet of the next frame (packetized from
/// where this one left the packetizer, as `packetize` states) carries the
/// number after this frame's last one, modulo 2^16. So a retransmission must
/// resend the stored packets rather than packetize again.
pub proof fn lemma_sequence_numbers_continue<P: PayloadProcessor, Q: PayloadProcessor>(
    first_processor: P,
    first_frame: OutboundFrame,
    next_processor: Q,
    next_frame: OutboundFrame,
    payload_type: u8,
    ssrc: u32,
    first_sequence_number: u16,
)
    ensures
        ({
            let n = spec_num_packets(first_frame.data@.len() as int);
            let first = spec_packets(
                first_processor,
                first_frame,
                payload_type,
                ssrc,
                first_sequence_number,
            );
            let next_sequence_number = ((first_sequence_number + n) % 0x1_0000) as u16;
            let next = spec_packets(
                next_processor,
                next_frame,
                payload_type,
                ssrc,
                next_sequence_number,
            );
            &&& forall|i: int|
                0 <= i < n ==> (#[trigger] first[i]).subrange(2, 4) == be16(
                    ((first_sequence_number + i) % 0x1_0000) as u16,
                )
            &&& next.len() >= 1
            &&& next[0].subrange(2, 4) == be16(
                ((((first_sequence_number + n - 1) % 0x1_0000) + 1) % 0x1_0000) as u16,
            )
        }),
{
    let n = spec_num_packets(first_frame.data@.len() as int);
    lemma_num_packets(first_frame.data@.len() as int);
    lemma_num_packets(next_frame.data@.len() as int);
    assert forall|i: int| 0 <= i < n implies (#[trigger] spec_packets(
        first_processor,
        first_frame,
        payload_type,
        ssrc,
        first_sequence_number,
    )[i]).subrange(2, 4) == be16(((first_sequence_number + i) % 0x1_0000) as u16) by {
        lemma_packet_sequence_number(
            first_processor,
            first_frame,
            payload_type,
            ssrc,
            first_sequence_number,
            i,
        );
    }
    let next_sequence_number = ((first_sequence_number + n) % 0x1_0000) as u16;
    lemma_packet_sequence_number(
        next_processor,
        next_frame,
        payload_type,
        ssrc,
        next_sequence_number,
        0,
    );
    let a = first_sequence_number as int;
    assert((((a + n - 1) % 0x1_0000) + 1) % 0x1_0000 == (a + n) % 0x1_0000);
    assert((next_sequence_number + 0) % 0x1_0000 == next_sequence_number);
}

/// The Cast header bytes of any packet header: byte 12 carries the key-frame
/// bit exactly for a key frame, byte 13 the low byte of the frame id, and
/// byte 18 the low byte of the referenced frame id.
pub proof fn lemma_header_bytes(
    frame: OutboundFrame,
    payload_type: u8,
    ssrc: u32,
    sequence_number: u16,
    packet_id: int,
)
    ensures
        ({
            let h = spec_packet_header(frame, payload_type, ssrc, sequence_number, packet_id);
            &&& h.len() >= 19
            &&& (h[12] & KEY_FRAME_BIT != 0) == frame.is_key_frame
            &&& h[12] & HAS_REFERENCE_FRAME_ID_BIT != 0
            &&& h[13] == (frame.frame_id % 0x100) as u8
            &&& h[18] == (frame.referenced_frame_id % 0x100) as u8
        }),
{
    let h = spec_packet_header(frame, payload_type, ssrc, sequence_number, packet_id);
    let count = spec_num_packets(frame.data@.len() as int);
    let latency = if packet_id == 0 {
        frame.playout_delay_ms
    } else {
        None
    };
    let flags = cast_flags(frame.is_key_frame, latency is Some);
    assert(h[12] == flags);
    assert(h[13] == (frame.frame_id % 0x100) as u8);
    assert(h[18] == (frame.referenced_frame_id % 0x100) as u8);
    let e: u8 = if latency is Some {
        1u8
    } else {
        0u8
    };
    if frame.is_key_frame {
        assert((KEY_FRAME_BIT | HAS_REFERENCE_FRAME_ID_BIT | e) & KEY_FRAME_BIT != 0) by (bit_vector);
        assert((KEY_FRAME_BIT | HAS_REFERENCE_FRAME_ID_BIT | e) & HAS_REFERENCE_FRAME_ID_BIT != 0)
            by (bit_vector);
    } else {
        assert(e <= 1 ==> (0u8 | HAS_REFERENCE_FRAME_ID_BIT | e) & KEY_FRAME_BIT == 0) by (bit_vector);
        assert((0u8 | HAS_REFERENCE_FRAME_ID_BIT | e) & HAS_REFERENCE_FRAME_ID_BIT != 0)
            by (bit_vector);
    }
}

/// Every packet of a frame says, in its Cast header, whether the frame is a
/// key frame (the key-frame bit of byte 12, set exactly for a key frame),
/// which frame it is (byte 13, the low byte of the frame id) and which frame
/// it depends on (byte 18, the low byte of the referenced frame id).
pub proof fn lemma_packet_cast_header<P: PayloadProcessor>(
    processor: P,
    frame: OutboundFrame,
    payload_type: u8,
    ssrc: u32,
    first_sequence_number: u16,
    i: int,
)
    requires
        0 <= i < spec_num_packets(frame.data@.len() as int),
    ensures
        ({
            let p = spec_packets(processor, frame, payload_type, ssrc, first_sequence_number)[i];
            &&& p.len() >= 19
            &&& (p[12] & KEY_FRAME_BIT != 0) == frame.is_key_frame
            &&& p[13] == (frame.frame_id % 0x100) as u8
            &&& p[18] == (frame.referenced_frame_id % 0x100) as u8
        }),
{
    let seq_no = ((first_sequence_number + i) % 0x1_0000) as u16;
    lemma_header_bytes(frame, payload_type, ssrc, seq_no, i);
    let h = spec_packet_header(frame, payload_type, ssrc, seq_no, i);
    let p = spec_packets(processor, frame, payload_type, ssrc, first_sequence_number)[i];
    assert(p[12] == h[12] && p[13] == h[13] && p[18] == h[18]);
}

} // verus!
