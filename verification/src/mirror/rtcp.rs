//! Minimal Cast Streaming RTCP: builds Sender Reports and parses the
//! receiver's compound packets (Cast Feedback = ACK checkpoint + NACKs, and
//! Picture Loss Indicator).

use vstd::prelude::*;

use crate::wire::{be16, be32, be64, from_be16, from_be32, read_be16, read_be32};

verus! {

pub const PT_SENDER_REPORT: u8 = 200;

pub const PT_PAYLOAD_SPECIFIC: u8 = 206;

pub const SUBTYPE_PICTURE_LOSS: u8 = 1;

pub const SUBTYPE_FEEDBACK: u8 = 15;

/// The bytes "CAST", big-endian.
pub const CAST: u32 = 0x4341_5354;

/// "All packets of the frame lost" marker in NACK loss fields.
pub const ALL_PACKETS_LOST: u16 = 0xffff;

/// Seconds between the NTP epoch (1900) and the Unix epoch (1970).
pub const NTP_UNIX_OFFSET: u64 = 2_208_988_800;

/// The 64-bit NTP timestamp of a wall-clock time `seconds` + `nanos` after
/// the Unix epoch: whole seconds since 1900 in the high 32 bits, the binary
/// fraction of a second in the low 32 bits.
pub open spec fn spec_ntp(seconds: u64, nanos: u32) -> int {
    ((seconds + NTP_UNIX_OFFSET) % 0x1_0000_0000) * 0x1_0000_0000 + nanos * 0x1_0000_0000
        / 1_000_000_000
}

/// The NTP timestamp of `seconds` + `nanos` after the Unix epoch.
pub fn ntp_from_unix(seconds: u64, nanos: u32) -> (r: u64)
    requires
        nanos < 1_000_000_000,
    ensures
        r == spec_ntp(seconds, nanos),
{
    let total = seconds.wrapping_add(NTP_UNIX_OFFSET);
    let fraction = ((nanos as u64) << 32) / 1_000_000_000;
    assert(((nanos as u64) << 32) == nanos * 0x1_0000_0000) by (bit_vector)
        requires
            nanos < 1_000_000_000u32,
    ;
    assert(fraction < 0x1_0000_0000) by (nonlinear_arith)
        requires
            fraction == nanos * 0x1_0000_0000 / 1_000_000_000,
            nanos < 1_000_000_000,
    ;
    let r = (total << 32) | fraction;
    assert((total << 32) | fraction == (total % 0x1_0000_0000) * 0x1_0000_0000 + fraction)
        by (bit_vector)
        requires
            fraction < 0x1_0000_0000u64,
    ;
    assert(total % 0x1_0000_0000 == (seconds + NTP_UNIX_OFFSET) % 0x1_0000_0000) by {
        if seconds as int + NTP_UNIX_OFFSET > u64::MAX {
            assert(total == seconds + NTP_UNIX_OFFSET - 0x1_0000_0000_0000_0000);
        }
    }
    r
}

#[verifier::external_type_specification]
#[verifier::external_body]
pub struct ExSystemTime(std::time::SystemTime);

/// `SystemTime::now()`: the current wall-clock time; nothing is promised of
/// its value.
#[verifier::external_body]
fn system_time_now() -> std::time::SystemTime {
    std::time::SystemTime::now()
}

/// `SystemTime::duration_since(UNIX_EPOCH)`, as whole seconds and the
/// nanoseconds past them (zero for a time before the epoch). Promises only
/// that the nanoseconds stay below one second.
#[verifier::external_body]
fn since_unix_epoch(time: &std::time::SystemTime) -> (r: (u64, u32))
    ensures
        r.1 < 1_000_000_000,
{
    let d = time.duration_since(std::time::UNIX_EPOCH).unwrap_or_default();
    (d.as_secs(), d.subsec_nanos())
}

/// The current wall-clock time as an NTP timestamp.
pub fn ntp_now() -> (r: u64)
    ensures
        exists|seconds: u64, nanos: u32| nanos < 1_000_000_000 && r == spec_ntp(seconds, nanos),
{
    let now = system_time_now();
    let (seconds, nanos) = since_unix_epoch(&now);
    ntp_from_unix(seconds, nanos)
}

/// The bytes of a Sender Report with no report blocks.
pub open spec fn spec_sender_report(
    sender_ssrc: u32,
    ntp_timestamp: u64,
    rtp_timestamp: u32,
    packet_count: u32,
    octet_count: u32,
) -> Seq<u8> {
    seq![0x80u8, PT_SENDER_REPORT] + be16(6) + be32(sender_ssrc) + be64(ntp_timestamp) + be32(
        rtp_timestamp,
    ) + be32(packet_count) + be32(octet_count)
}

fn be32_bytes(x: u32) -> (r: [u8; 4])
    ensures
        r@ == be32(x),
{
    let r = [(x >> 24) as u8, ((x >> 16) & 0xff) as u8, ((x >> 8) & 0xff) as u8, (x & 0xff) as u8];
    assert((x >> 24) as u8 == (x / 0x100_0000) as u8 && ((x >> 16) & 0xff) as u8 == (x / 0x1_0000
        % 0x100) as u8 && ((x >> 8) & 0xff) as u8 == (x / 0x100 % 0x100) as u8 && (x & 0xff) as u8
        == (x % 0x100) as u8) by (bit_vector);
    assert(r@ =~= be32(x));
    r
}

fn be64_bytes(x: u64) -> (r: ([u8; 4], [u8; 4]))
    ensures
        r.0@ + r.1@ == be64(x),
{
    let hi = (x >> 32) as u32;
    let lo = (x & 0xffff_ffff) as u32;
    assert(hi == (x / 0x1_0000_0000) as u32 && lo == (x % 0x1_0000_0000) as u32) by (bit_vector)
        requires
            hi == (x >> 32) as u32,
            lo == (x & 0xffff_ffff) as u32,
    ;
    (be32_bytes(hi), be32_bytes(lo))
}

/// A 28-byte RTCP Sender Report (no report blocks): maps the stream's RTP
/// timeline onto the NTP wall clock, which the receiver needs for A/V sync
/// and lag estimation.
pub fn build_sender_report(
    sender_ssrc: u32,
    ntp_timestamp: u64,
    rtp_timestamp: u32,
    packet_count: u32,
    octet_count: u32,
) -> (r: [u8; 28])
    ensures
        r@ == spec_sender_report(
            sender_ssrc,
            ntp_timestamp,
            rtp_timestamp,
            packet_count,
            octet_count,
        ),
{
    let s = be32_bytes(sender_ssrc);
    let (n0, n1) = be64_bytes(ntp_timestamp);
    let t = be32_bytes(rtp_timestamp);
    let p = be32_bytes(packet_count);
    let o = be32_bytes(octet_count);
    // V=2, P=0, report count 0; then the length: 7 words - 1.
    let r = [
        0b1000_0000,
        PT_SENDER_REPORT,
        0,
        6,
        s[0],
        s[1],
        s[2],
        s[3],
        n0[0],
        n0[1],
        n0[2],
        n0[3],
        n1[0],
        n1[1],
        n1[2],
        n1[3],
        t[0],
        t[1],
        t[2],
        t[3],
        p[0],
        p[1],
        p[2],
        p[3],
        o[0],
        o[1],
        o[2],
        o[3],
    ];
    assert(r@ =~= spec_sender_report(
        sender_ssrc,
        ntp_timestamp,
        rtp_timestamp,
        packet_count,
        octet_count,
    ));
    r
}

/// One packet-level NACK: a frame (full frame id, bit-expanded) and a packet
/// within it, or `ALL_PACKETS_LOST` for the whole frame.
#[derive(Debug, Clone, Copy, PartialEq, Eq, Structural)]
pub struct Nack {
    pub frame_id: u64,
    pub packet_id: u16,
}

#[derive(Debug)]
pub struct ReceiverEvents {
    /// All frames up to and including this one are fully received.
    pub checkpoint_frame_id: Option<u64>,
    pub nacks: Vec<Nack>,
    /// The receiver lost decoder state and needs a key frame.
    pub picture_loss: bool,
}

impl Default for ReceiverEvents {
    fn default() -> (r: Self)
        ensures
            r.checkpoint_frame_id is None,
            r.nacks@ == Seq::<Nack>::empty(),
            !r.picture_loss,
    {
        ReceiverEvents { checkpoint_frame_id: None, nacks: Vec::new(), picture_loss: false }
    }
}

/// What the receiver has told us so far: (checkpoint, NACKs, picture loss).
pub type EventsModel = (Option<u64>, Seq<Nack>, bool);

impl ReceiverEvents {
    pub open spec fn model(&self) -> EventsModel {
        (self.checkpoint_frame_id, self.nacks@, self.picture_loss)
    }

    /// Forgets everything the receiver reported.
    pub fn clear(&mut self)
        ensures
            final(self).model() == (None::<u64>, Seq::<Nack>::empty(), false),
    {
        self.checkpoint_frame_id = None;
        self.nacks.clear();
        self.picture_loss = false;
    }
}

/// Expands an 8-bit truncated frame id to the full value: the unique value
/// with those low 8 bits in the window [reference, reference + 255].
pub open spec fn spec_expand_frame_id(low8: u8, reference: u64) -> int {
    let base = reference - reference % 256;
    if base + low8 < reference {
        base + low8 + 256
    } else {
        base + low8
    }
}

pub fn expand_frame_id(low8: u8, reference: u64) -> (r: u64)
    requires
        reference <= u64::MAX - 255,
    ensures
        r == spec_expand_frame_id(low8, reference),
        reference <= r <= reference + 255,
        r % 256 == low8,
{
    let candidate = (reference & !0xffu64) | (low8 as u64);
    assert((reference & !0xffu64) | (low8 as u64) == reference - reference % 256 + low8)
        by (bit_vector);
    if candidate < reference {
        candidate + 256
    } else {
        candidate
    }
}

/// The NACKs a loss field's bit vector adds: one for each set bit `i` (from
/// bit `from` on), for packet `packet_id + 1 + i`.
pub open spec fn spec_bit_nacks(frame_id: u64, packet_id: u16, bits: u8, from: int) -> Seq<Nack>
    decreases 8 - from,
{
    if from >= 8 || from < 0 {
        Seq::empty()
    } else {
        (if bits & (1u8 << (from as u8)) != 0 {
            seq![Nack { frame_id, packet_id: ((packet_id + 1 + from) % 0x1_0000) as u16 }]
        } else {
            Seq::empty()
        }) + spec_bit_nacks(frame_id, packet_id, bits, from + 1)
    }
}

/// The NACKs of the loss fields from `pos` on, at most `remaining` of them.
pub open spec fn spec_loss_nacks(body: Seq<u8>, pos: int, remaining: int, checkpoint: u64) -> Seq<
    Nack,
>
    decreases remaining,
{
    if remaining <= 0 || pos + 4 > body.len() || pos < 0 {
        Seq::empty()
    } else {
        let frame_id = spec_expand_frame_id(body[pos], (checkpoint + 1) as u64) as u64;
        let packet_id = from_be16(body[pos + 1], body[pos + 2]) as u16;
        let bits = body[pos + 3];
        seq![Nack { frame_id, packet_id }] + (if packet_id != ALL_PACKETS_LOST {
            spec_bit_nacks(frame_id, packet_id, bits, 0)
        } else {
            Seq::empty()
        }) + spec_loss_nacks(body, pos + 4, remaining - 1, checkpoint)
    }
}

/// Whether a Cast Feedback body is for `sender_ssrc`: it holds the whole
/// 16-byte header [receiver ssrc][sender ssrc]["CAST"][checkpoint u8]
/// [#loss u8][delay u16], with our SSRC and the "CAST" marker. A shorter body
/// is not a Cast Feedback and is ignored.
pub open spec fn spec_feedback_matches(body: Seq<u8>, sender_ssrc: u32) -> bool {
    &&& body.len() >= 16
    &&& from_be32(body[4], body[5], body[6], body[7]) == sender_ssrc
    &&& from_be32(body[8], body[9], body[10], body[11]) == CAST
}

/// A Cast Feedback body:
/// [receiver ssrc][sender ssrc]["CAST"][checkpoint u8][#loss u8][delay u16]
/// then the loss fields [frame id u8][lost packet id u16][bit vector u8].
/// The checkpoint only ever moves forward; the NACKs are appended.
pub open spec fn spec_feedback(body: Seq<u8>, sender_ssrc: u32, hint: u64, events: EventsModel) -> EventsModel {
    if !spec_feedback_matches(body, sender_ssrc) {
        events
    } else {
        let checkpoint = spec_expand_frame_id(body[12], hint) as u64;
        let merged = match events.0 {
            Some(existing) => if existing >= checkpoint {
                existing
            } else {
                checkpoint
            },
            None => checkpoint,
        };
        (Some(merged), events.1 + spec_loss_nacks(body, 16, body[13] as int, checkpoint), events.2)
    }
}

/// The length in bytes of the RTCP packet at the start of `rest`.
pub open spec fn spec_packet_len(rest: Seq<u8>) -> int {
    4 + from_be16(rest[2], rest[3]) * 4
}

/// Whether `rest` starts with a complete RTCP version 2 packet.
pub open spec fn spec_packet_ok(rest: Seq<u8>) -> bool {
    &&& rest.len() >= 4
    &&& rest[0] / 64 == 2
    &&& spec_packet_len(rest) <= rest.len()
}

/// Reads the compound packet `rest` into `events`: Cast Feedback and Picture
/// Loss for `sender_ssrc` count, everything else is skipped; parsing stops at
/// the first packet that is not RTCP version 2 or runs past the end.
pub open spec fn spec_parse_from(rest: Seq<u8>, sender_ssrc: u32, hint: u64, events: EventsModel) -> EventsModel
    decreases rest.len(),
{
    if !spec_packet_ok(rest) {
        events
    } else {
        let total = spec_packet_len(rest);
        let body = rest.subrange(4, total);
        let subtype = rest[0] % 32;
        let next = if rest[1] == PT_PAYLOAD_SPECIFIC && subtype == SUBTYPE_FEEDBACK {
            spec_feedback(body, sender_ssrc, hint, events)
        } else if rest[1] == PT_PAYLOAD_SPECIFIC && subtype == SUBTYPE_PICTURE_LOSS && body.len()
            >= 8 && from_be32(body[4], body[5], body[6], body[7]) == sender_ssrc {
            (events.0, events.1, true)
        } else {
            events
        };
        spec_parse_from(rest.skip(total), sender_ssrc, hint, next)
    }
}

/// What a compound packet tells the sender of `sender_ssrc`.
pub open spec fn spec_parse(data: Seq<u8>, sender_ssrc: u32, hint: u64) -> EventsModel {
    spec_parse_from(data, sender_ssrc, hint, (None, Seq::empty(), false))
}

proof fn lemma_byte_bits(b: u8)
    ensures
        b >> 6 == b / 64,
        b & 0b0001_1111 == b % 32,
{
    assert(b >> 6 == b / 64 && b & 0b0001_1111 == b % 32) by (bit_vector);
}

/// Whether the packet at `data[at..]` is a complete RTCP version 2 packet.
fn packet_ok(data: &[u8], at: usize) -> (r: bool)
    requires
        at <= data@.len(),
    ensures
        r == spec_packet_ok(data@.skip(at as int)),
        r ==> at + 4 <= data@.len(),
        r ==> at + spec_packet_len(data@.skip(at as int)) <= data@.len(),
{
    if data.len() - at < 4 {
        return false;
    }
    let byte0 = data[at];
    proof {
        lemma_byte_bits(byte0);
    }
    if byte0 >> 6 != 2 {
        return false;
    }
    let length_words = read_be16(data[at + 2], data[at + 3]) as usize;
    length_words * 4 <= data.len() - at - 4
}

/// Whether `data[start..end]` is a Cast Feedback body for `sender_ssrc`.
fn feedback_matches(data: &[u8], start: usize, end: usize, sender_ssrc: u32) -> (r: bool)
    requires
        start <= end <= data@.len(),
    ensures
        r == spec_feedback_matches(data@.subrange(start as int, end as int), sender_ssrc),
{
    if end - start < 16 {
        return false;
    }
    let ssrc = read_be32(data[start + 4], data[start + 5], data[start + 6], data[start + 7]);
    let marker = read_be32(data[start + 8], data[start + 9], data[start + 10], data[start + 11]);
    ssrc == sender_ssrc && marker == CAST
}

/// Parses a compound RTCP packet from the receiver into `events`, replacing
/// its previous contents (the caller reuses one instance to keep the NACK
/// buffer's allocation). `sender_ssrc` selects the stream this parser
/// instance cares about; feedback for other SSRCs is ignored.
/// `checkpoint_hint` is the last known checkpoint, used to bit-expand the
/// 8-bit frame ids on the wire.
pub fn parse(data: &[u8], sender_ssrc: u32, checkpoint_hint: u64, events: &mut ReceiverEvents)
    requires
        checkpoint_hint <= u64::MAX - 512,
    ensures
        final(events).model() == spec_parse(data@, sender_ssrc, checkpoint_hint),
{
    events.clear();
    let mut at: usize = 0;
    assert(data@.skip(0) =~= data@);
    while packet_ok(data, at)
        invariant
            at <= data@.len(),
            checkpoint_hint <= u64::MAX - 512,
            spec_parse(data@, sender_ssrc, checkpoint_hint) == spec_parse_from(
                data@.skip(at as int),
                sender_ssrc,
                checkpoint_hint,
                events.model(),
            ),
            events.checkpoint_frame_id matches Some(c) ==> c <= checkpoint_hint + 255,
        decreases data@.len() - at,
    {
        let ghost rest = data@.skip(at as int);
        let byte0 = data[at];
        let count_or_subtype = byte0 & 0b0001_1111;
        proof {
            lemma_byte_bits(byte0);
        }
        let packet_type = data[at + 1];
        let length_words = read_be16(data[at + 2], data[at + 3]) as usize;
        let total = 4 + length_words * 4;
        assert(rest.subrange(4, total as int) =~= data@.subrange(at + 4, at + total));
        if packet_type == PT_PAYLOAD_SPECIFIC && count_or_subtype == SUBTYPE_FEEDBACK {
            parse_feedback(data, at + 4, at + total, sender_ssrc, checkpoint_hint, events);
        } else if packet_type == PT_PAYLOAD_SPECIFIC && count_or_subtype == SUBTYPE_PICTURE_LOSS
            && total - 4 >= 8 && read_be32(
            data[at + 8],
            data[at + 9],
            data[at + 10],
            data[at + 11],
        ) == sender_ssrc {
            events.picture_loss = true;
        }
        // Receiver reports, extended reports, SDES, etc. carry nothing we
        // act on; only Cast Feedback and PLI matter to the sender.
        assert(rest.skip(total as int) =~= data@.skip(at + total));
        at = at + total;
    }
}

/// Reads the Cast Feedback body `data[start..end]` into `events`.
fn parse_feedback(
    data: &[u8],
    start: usize,
    end: usize,
    sender_ssrc: u32,
    hint: u64,
    events: &mut ReceiverEvents,
)
    requires
        start <= end <= data@.len(),
        hint <= u64::MAX - 512,
        old(events).checkpoint_frame_id matches Some(c) ==> c <= hint + 255,
    ensures
        final(events).model() == spec_feedback(
            data@.subrange(start as int, end as int),
            sender_ssrc,
            hint,
            old(events).model(),
        ),
        final(events).checkpoint_frame_id matches Some(c) ==> c <= hint + 255,
{
    let ghost body = data@.subrange(start as int, end as int);
    if !feedback_matches(data, start, end, sender_ssrc) {
        return;
    }
    let checkpoint = expand_frame_id(data[start + 12], hint);
    events.checkpoint_frame_id = Some(
        match events.checkpoint_frame_id {
            Some(existing) => if existing >= checkpoint {
                existing
            } else {
                checkpoint
            },
            None => checkpoint,
        },
    );
    let loss_fields = data[start + 13] as usize;
    let ghost before = events.nacks@;
    let ghost merged = events.checkpoint_frame_id;

    let mut pos: usize = 16;
    let mut field: usize = 0;
    while field < loss_fields
        invariant
            start <= end <= data@.len(),
            body == data@.subrange(start as int, end as int),
            16 <= pos,
            pos == 16 + 4 * field,
            field <= loss_fields <= 255,
            spec_feedback_matches(body, sender_ssrc),
            loss_fields == body[13],
            checkpoint == spec_expand_frame_id(body[12], hint),
            before == old(events).nacks@,
            merged == spec_feedback(body, sender_ssrc, hint, old(events).model()).0,
            events.checkpoint_frame_id == merged,
            merged matches Some(c) && c <= hint + 255,
            events.picture_loss == old(events).picture_loss,
            checkpoint <= hint + 255,
            hint <= u64::MAX - 512,
            events.nacks@ + spec_loss_nacks(body, pos as int, (loss_fields - field) as int, checkpoint)
                == before + spec_loss_nacks(body, 16, loss_fields as int, checkpoint),
        decreases loss_fields - field,
    {
        if pos + 4 > end - start {
            assert(events.nacks@ =~= before + spec_loss_nacks(body, 16, loss_fields as int, checkpoint));
            return;
        }
        // [frame id u8][lost packet id u16][bit vector for the next 8 u8]
        let frame_id = expand_frame_id(data[start + pos], checkpoint + 1);
        let packet_id = read_be16(data[start + pos + 1], data[start + pos + 2]);
        let bits = data[start + pos + 3];
        let ghost nacks_before = events.nacks@;
        events.nacks.push(Nack { frame_id, packet_id });
        if packet_id != ALL_PACKETS_LOST {
            push_bit_nacks(&mut events.nacks, frame_id, packet_id, bits);
        }
        proof {
            assert(body[pos as int] == data@[start + pos]);
            assert(body[pos + 1] == data@[start + pos + 1]);
            assert(body[pos + 2] == data@[start + pos + 2]);
            assert(body[pos + 3] == data@[start + pos + 3]);
            let head = seq![Nack { frame_id, packet_id }] + (if packet_id != ALL_PACKETS_LOST {
                spec_bit_nacks(frame_id, packet_id, bits, 0)
            } else {
                Seq::empty()
            });
            assert(events.nacks@ =~= nacks_before + head);
            assert(spec_loss_nacks(body, pos as int, (loss_fields - field) as int, checkpoint)
                =~= head + spec_loss_nacks(body, pos + 4, (loss_fields - field - 1) as int, checkpoint));
        }
        pos += 4;
        field += 1;
    }
    assert(events.nacks@ =~= before + spec_loss_nacks(body, 16, loss_fields as int, checkpoint));
    // An optional "CST2" frame-level ACK bit vector follows; the checkpoint
    // and NACKs are all we need, so it is deliberately not parsed.
}

/// Appends the NACKs a loss field's bit vector adds.
fn push_bit_nacks(nacks: &mut Vec<Nack>, frame_id: u64, packet_id: u16, bits: u8)
    ensures
        final(nacks)@ == old(nacks)@ + spec_bit_nacks(frame_id, packet_id, bits, 0),
{
    let mut i: u8 = 0;
    while i < 8
        invariant
            i <= 8,
            nacks@ + spec_bit_nacks(frame_id, packet_id, bits, i as int) == old(nacks)@
                + spec_bit_nacks(frame_id, packet_id, bits, 0),
        decreases 8 - i,
    {
        let ghost prev = nacks@;
        if bits & (1u8 << i) != 0 {
            nacks.push(Nack { frame_id, packet_id: packet_id.wrapping_add(1).wrapping_add(i as u16) });
        }
        assert(nacks@ + spec_bit_nacks(frame_id, packet_id, bits, i + 1) =~= prev
            + spec_bit_nacks(frame_id, packet_id, bits, i as int));
        i += 1;
    }
    assert(spec_bit_nacks(frame_id, packet_id, bits, 8) =~= Seq::<Nack>::empty());
    assert(nacks@ =~= old(nacks)@ + spec_bit_nacks(frame_id, packet_id, bits, 0));
}

/// The NACK a loss field at `pos` of a feedback body reports first: its
/// frame (the 8-bit id expanded from just past `checkpoint`) and its packet
/// id (big-endian).
pub open spec fn loss_field_nack(body: Seq<u8>, pos: int, checkpoint: u64) -> Nack {
    Nack {
        frame_id: spec_expand_frame_id(body[pos], (checkpoint + 1) as u64) as u64,
        packet_id: from_be16(body[pos + 1], body[pos + 2]) as u16,
    }
}

/// Whether `nacks`, from index `from` on, holds the NACK of loss field `k`
/// of `body`.
pub open spec fn reports_loss_field(
    nacks: Seq<Nack>,
    from: int,
    body: Seq<u8>,
    k: int,
    checkpoint: u64,
) -> bool {
    exists|j: int| from <= j < nacks.len() && nacks[j] == loss_field_nack(body, 16 + 4 * k, checkpoint)
}

proof fn lemma_loss_nacks_contain(body: Seq<u8>, pos: int, remaining: int, checkpoint: u64, k: int)
    requires
        0 <= k < remaining,
        0 <= pos,
        pos + 4 * remaining <= body.len(),
    ensures
        exists|j: int|
            0 <= j < spec_loss_nacks(body, pos, remaining, checkpoint).len() && spec_loss_nacks(
                body,
                pos,
                remaining,
                checkpoint,
            )[j] == loss_field_nack(body, pos + 4 * k, checkpoint),
    decreases remaining,
{
    let all = spec_loss_nacks(body, pos, remaining, checkpoint);
    let first = loss_field_nack(body, pos, checkpoint);
    let bits = if first.packet_id != ALL_PACKETS_LOST {
        spec_bit_nacks(first.frame_id, first.packet_id, body[pos + 3], 0)
    } else {
        Seq::empty()
    };
    let rest = spec_loss_nacks(body, pos + 4, remaining - 1, checkpoint);
    assert(all == seq![first] + bits + rest);
    if k == 0 {
        assert(all[0] == first);
    } else {
        lemma_loss_nacks_contain(body, pos + 4, remaining - 1, checkpoint, k - 1);
        let j = choose|j: int|
            0 <= j < rest.len() && rest[j] == loss_field_nack(
                body,
                pos + 4 + 4 * (k - 1),
                checkpoint,
            );
        assert(all[1 + bits.len() + j] == rest[j]);
        assert(pos + 4 + 4 * (k - 1) == pos + 4 * k);
    }
}

/// A Cast Feedback for us that holds all the loss fields it announces
/// (byte 13) is read whole: the checkpoint (byte 12, expanded from the hint)
/// only moves the known one forward, picture loss is untouched, the NACKs
/// already known are kept in front, and for every announced loss field `k`
/// there is a NACK for its frame (byte `16 + 4k`, expanded from just past the
/// checkpoint) and its lost packet (bytes `17 + 4k` and `18 + 4k`).
pub proof fn lemma_feedback_reads_every_loss_field(
    body: Seq<u8>,
    sender_ssrc: u32,
    hint: u64,
    events: EventsModel,
)
    requires
        spec_feedback_matches(body, sender_ssrc),
        16 + 4 * body[13] <= body.len(),
    ensures
        ({
            let r = spec_feedback(body, sender_ssrc, hint, events);
            let checkpoint = spec_expand_frame_id(body[12], hint) as u64;
            &&& r.0 == Some(
                match events.0 {
                    Some(known) => if known >= checkpoint {
                        known
                    } else {
                        checkpoint
                    },
                    None => checkpoint,
                },
            )
            &&& r.2 == events.2
            &&& r.1.len() >= events.1.len()
            &&& r.1.take(events.1.len() as int) == events.1
            &&& forall|k: int|
                0 <= k < body[13] ==> #[trigger] reports_loss_field(
                    r.1,
                    events.1.len() as int,
                    body,
                    k,
                    checkpoint,
                )
        }),
{
    let r = spec_feedback(body, sender_ssrc, hint, events);
    let checkpoint = spec_expand_frame_id(body[12], hint) as u64;
    let nacks = spec_loss_nacks(body, 16, body[13] as int, checkpoint);
    assert(r.1 == events.1 + nacks);
    assert(r.1.take(events.1.len() as int) =~= events.1);
    assert forall|k: int| 0 <= k < body[13] implies #[trigger] reports_loss_field(
        r.1,
        events.1.len() as int,
        body,
        k,
        checkpoint,
    ) by {
        lemma_loss_nacks_contain(body, 16, body[13] as int, checkpoint, k);
        let j = choose|j: int|
            0 <= j < nacks.len() && nacks[j] == loss_field_nack(body, 16 + 4 * k, checkpoint);
        assert(r.1[events.1.len() + j] == nacks[j]);
    }
}

/// `parse` of a compound packet that is one Cast Feedback for us, holding all
/// the loss fields it announces, reports every one of them: for each loss
/// field `k` of the body there is a NACK for its frame and lost packet, and
/// the checkpoint is the body's, expanded from the hint.
pub proof fn lemma_parse_reads_every_loss_field(data: Seq<u8>, sender_ssrc: u32, hint: u64)
    requires
        spec_packet_ok(data),
        spec_packet_len(data) == data.len(),
        data[1] == PT_PAYLOAD_SPECIFIC,
        data[0] % 32 == SUBTYPE_FEEDBACK,
        spec_feedback_matches(data.subrange(4, data.len() as int), sender_ssrc),
        20 + 4 * data[17] <= data.len(),
    ensures
        ({
            let r = spec_parse(data, sender_ssrc, hint);
            let body = data.subrange(4, data.len() as int);
            let checkpoint = spec_expand_frame_id(data[16], hint) as u64;
            &&& r.0 == Some(checkpoint)
            &&& !r.2
            &&& forall|k: int|
                0 <= k < data[17] ==> #[trigger] reports_loss_field(r.1, 0, body, k, checkpoint)
        }),
{
    let body = data.subrange(4, data.len() as int);
    let start = (None::<u64>, Seq::<Nack>::empty(), false);
    let after = spec_feedback(body, sender_ssrc, hint, start);
    assert(body[12] == data[16] && body[13] == data[17]);
    lemma_feedback_reads_every_loss_field(body, sender_ssrc, hint, start);
    assert(data.skip(data.len() as int) =~= Seq::<u8>::empty());
    assert(spec_parse(data, sender_ssrc, hint) == spec_parse_from(
        data.skip(data.len() as int),
        sender_ssrc,
        hint,
        after,
    ));
}

} // verus!
