use shell_cast::mirror::rtp::num_packets;
use shell_cast::streaming::openscreen::crypto::FrameCrypto;
use shell_cast::mirror::rtp::{
    OutboundFrame, PacketizedFrame, Packetizer, PayloadProcessor, Plaintext, BASE_HEADER_SIZE,
    HAS_REFERENCE_FRAME_ID_BIT, KEY_FRAME_BIT, MARKER_BIT, MAX_PACKET_SIZE, MAX_PAYLOAD_SIZE,
};

fn meta() -> (u64, u64, u32) {
    (0x102, 0x101, 987)
}

fn packetize(pk: &mut Packetizer, frame: &OutboundFrame<'_>) -> PacketizedFrame {
    pk.packetize(frame, Vec::new(), &mut Plaintext::new())
}

#[test]
fn single_packet_frame_layout() {
    let (frame_id, referenced_frame_id, rtp_timestamp) = meta();
    let data: Vec<u8> = (0..10).collect();
    let mut pk = Packetizer::new(96, 0xAABB_CCDD);
    let f = OutboundFrame {
        frame_id,
        referenced_frame_id,
        rtp_timestamp,
        is_key_frame: true,
        playout_delay_ms: Some(400),
        data: &data,
    };
    let packets = packetize(&mut pk, &f);
    let p = packets.packet(0).unwrap();
    assert!(packets.packet(1).is_none());
    assert_eq!(p.len(), BASE_HEADER_SIZE + 4 + 10);
    assert_eq!(p[0], 0x80);
    assert_eq!(p[1], MARKER_BIT | 96);
    assert_eq!(&p[4..8], &987_u32.to_be_bytes());
    assert_eq!(&p[8..12], &0xAABB_CCDD_u32.to_be_bytes());
    assert_eq!(p[12], KEY_FRAME_BIT | HAS_REFERENCE_FRAME_ID_BIT | 1);
    assert_eq!(p[13], 0x02);
    assert_eq!(&p[14..16], &[0, 0]);
    assert_eq!(&p[16..18], &[0, 0]);
    assert_eq!(p[18], 0x01);
    assert_eq!(&p[19..21], &((1_u16 << 10) | 2).to_be_bytes());
    assert_eq!(&p[21..23], &400_u16.to_be_bytes());
    assert_eq!(&p[23..], &data[..]);
}

#[test]
fn multi_packet_frame_split_and_sequence() {
    let (frame_id, referenced_frame_id, rtp_timestamp) = meta();
    let data: Vec<u8> = (0..MAX_PAYLOAD_SIZE + 5).map(|i| i as u8).collect();
    let mut pk = Packetizer::new(127, 1);
    let f = OutboundFrame {
        frame_id,
        referenced_frame_id,
        rtp_timestamp,
        is_key_frame: false,
        playout_delay_ms: None,
        data: &data,
    };
    let packets = packetize(&mut pk, &f);
    assert_eq!(packets.iter().count(), 2);
    let p0 = packets.packet(0).unwrap();
    let p1 = packets.packet(1).unwrap();
    assert!(packets.packet(2).is_none());
    assert_eq!(p0.len(), BASE_HEADER_SIZE + MAX_PAYLOAD_SIZE);
    assert_eq!(p0[1], 127);
    assert_eq!(p1.len(), BASE_HEADER_SIZE + 5);
    assert_eq!(p1[1], MARKER_BIT | 127);
    assert_eq!(&p1[14..16], &1_u16.to_be_bytes());
    assert_eq!(&p1[16..18], &1_u16.to_be_bytes());
    let s0 = u16::from_be_bytes([p0[2], p0[3]]);
    let s1 = u16::from_be_bytes([p1[2], p1[3]]);
    assert_eq!(s1, s0.wrapping_add(1));
    assert_eq!(p1[BASE_HEADER_SIZE], data[MAX_PAYLOAD_SIZE]);
}

#[test]
fn multi_packet_frame_with_extension_boundaries() {
    let (frame_id, referenced_frame_id, rtp_timestamp) = meta();
    let data = vec![0xAB_u8; 2 * MAX_PAYLOAD_SIZE + 7];
    let mut pk = Packetizer::new(96, 1);
    let f = OutboundFrame {
        frame_id,
        referenced_frame_id,
        rtp_timestamp,
        is_key_frame: true,
        playout_delay_ms: Some(400),
        data: &data,
    };
    let packets = packetize(&mut pk, &f);
    assert_eq!(packets.iter().count(), 3);
    assert_eq!(packets.packet(0).unwrap().len(), BASE_HEADER_SIZE + 4 + MAX_PAYLOAD_SIZE);
    assert_eq!(packets.packet(1).unwrap().len(), BASE_HEADER_SIZE + MAX_PAYLOAD_SIZE);
    assert_eq!(packets.packet(2).unwrap().len(), BASE_HEADER_SIZE + 7);
    for (id, p) in packets.iter().enumerate() {
        assert!(p.len() <= MAX_PACKET_SIZE);
        assert_eq!(&p[14..16], &(id as u16).to_be_bytes());
        assert_eq!(&p[16..18], &2_u16.to_be_bytes());
    }
}

#[test]
fn empty_payload_still_yields_one_packet() {
    let (frame_id, referenced_frame_id, rtp_timestamp) = meta();
    let mut pk = Packetizer::new(127, 1);
    let f = OutboundFrame {
        frame_id,
        referenced_frame_id,
        rtp_timestamp,
        is_key_frame: false,
        playout_delay_ms: None,
        data: &[],
    };
    let packets = packetize(&mut pk, &f);
    assert_eq!(packets.iter().count(), 1);
    assert_eq!(packets.packet(0).unwrap().len(), BASE_HEADER_SIZE);
}

#[test]
fn process_payload_transforms_in_place_and_in_order() {
    let data = vec![1_u8; 2 * MAX_PAYLOAD_SIZE + 9];
    let mut pk = Packetizer::new(96, 1);
    let (frame_id, referenced_frame_id, rtp_timestamp) = meta();
    let f = OutboundFrame {
        frame_id,
        referenced_frame_id,
        rtp_timestamp,
        is_key_frame: false,
        playout_delay_ms: None,
        data: &data,
    };
    let crypto = FrameCrypto::new([5; 16], [6; 16]);
    let packets = pk.packetize(&f, Vec::new(), &mut crypto.cipher(frame_id));
    assert_eq!(
        packets.iter().map(<[u8]>::len).sum::<usize>(),
        data.len() + 3 * BASE_HEADER_SIZE
    );
    // Every payload byte went through the keystream, in frame order: one
    // pass of the same keystream over the payloads gives the frame back.
    let mut payload: Vec<u8> = Vec::new();
    for p in packets.iter() {
        payload.extend_from_slice(&p[BASE_HEADER_SIZE..]);
    }
    assert_ne!(payload, data);
    crypto.cipher(frame_id).process(&mut payload, 0, 0);
    assert_eq!(payload, data);
}

#[test]
fn recycled_buffer_leaves_no_stale_bytes() {
    let (frame_id, referenced_frame_id, rtp_timestamp) = meta();
    let mut pk = Packetizer::new(96, 1);
    let big = vec![0xAA_u8; 2 * MAX_PAYLOAD_SIZE];
    let first = packetize(
        &mut pk,
        &OutboundFrame {
            frame_id,
            referenced_frame_id,
            rtp_timestamp,
            is_key_frame: true,
            playout_delay_ms: None,
            data: &big,
        },
    );
    let buffer = first.into_buffer();
    let capacity = buffer.capacity();

    let small = vec![0xBB_u8; 10];
    let second = pk.packetize(
        &OutboundFrame {
            frame_id: frame_id + 1,
            referenced_frame_id: frame_id,
            rtp_timestamp,
            is_key_frame: false,
            playout_delay_ms: None,
            data: &small,
        },
        buffer,
        &mut Plaintext::new(),
    );
    assert_eq!(second.iter().count(), 1);
    let p = second.packet(0).unwrap();
    assert_eq!(p.len(), BASE_HEADER_SIZE + 10);
    assert!(p[BASE_HEADER_SIZE..].iter().all(|&b| b == 0xBB));
    assert_eq!(second.into_buffer().capacity(), capacity);
}

#[test]
fn sequence_numbers_continue_across_frames() {
    let mut pk = Packetizer::new(96, 7);
    let data = vec![0_u8; 3];
    let frame = |id: u64| OutboundFrame {
        frame_id: id,
        referenced_frame_id: id,
        rtp_timestamp: 0,
        is_key_frame: true,
        playout_delay_ms: None,
        data: &data,
    };
    let a = packetize(&mut pk, &frame(1));
    let b = packetize(&mut pk, &frame(2));
    let pa = a.packet(0).unwrap();
    let pb = b.packet(0).unwrap();
    let sa = u16::from_be_bytes([pa[2], pa[3]]);
    let sb = u16::from_be_bytes([pb[2], pb[3]]);
    assert_eq!(sb, sa.wrapping_add(1));
}

#[test]
fn packet_count_is_the_payload_in_chunks() {
    assert_eq!(num_packets(0), 1);
    assert_eq!(num_packets(1), 1);
    assert_eq!(num_packets(MAX_PAYLOAD_SIZE), 1);
    assert_eq!(num_packets(MAX_PAYLOAD_SIZE + 1), 2);
    assert_eq!(num_packets(3 * MAX_PAYLOAD_SIZE), 3);
}

#[test]
fn sequence_numbers_run_on_across_frames() {
    let seq = |p: &[u8]| u16::from_be_bytes([p[2], p[3]]);
    let data: Vec<u8> = (0..2 * MAX_PAYLOAD_SIZE + 7).map(|i| i as u8).collect();
    let mut pk = Packetizer::new(96, 5);
    let frame = |frame_id: u64, data| OutboundFrame {
        frame_id,
        referenced_frame_id: frame_id,
        rtp_timestamp: 0,
        is_key_frame: true,
        playout_delay_ms: None,
        data,
    };
    let first = packetize(&mut pk, &frame(0, &data));
    let second = packetize(&mut pk, &frame(1, &data[..3]));
    assert_eq!(num_packets(data.len()), 3);
    let s0 = seq(first.packet(0).unwrap());
    assert_eq!(seq(first.packet(1).unwrap()), s0.wrapping_add(1));
    assert_eq!(seq(first.packet(2).unwrap()), s0.wrapping_add(2));
    assert_eq!(seq(second.packet(0).unwrap()), s0.wrapping_add(3));
}
