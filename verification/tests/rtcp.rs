use shell_cast::mirror::rtcp::{
    build_sender_report, expand_frame_id, ntp_from_unix, parse, Nack,
    ReceiverEvents, CAST, PT_PAYLOAD_SPECIFIC, SUBTYPE_FEEDBACK, SUBTYPE_PICTURE_LOSS,
};

#[test]
fn sender_report_layout() {
    let sr = build_sender_report(0x0102_0304, 0xAABB_CCDD_1122_3344, 90_000, 5, 6_000);
    assert_eq!(sr.len(), 28);
    assert_eq!(sr[0], 0x80);
    assert_eq!(sr[1], 200);
    assert_eq!(u16::from_be_bytes([sr[2], sr[3]]), 6);
    assert_eq!(&sr[4..8], &0x0102_0304_u32.to_be_bytes());
    assert_eq!(&sr[8..16], &0xAABB_CCDD_1122_3344_u64.to_be_bytes());
    assert_eq!(&sr[16..20], &90_000_u32.to_be_bytes());
    assert_eq!(&sr[20..24], &5_u32.to_be_bytes());
    assert_eq!(&sr[24..28], &6_000_u32.to_be_bytes());
}

#[test]
fn expand_frame_id_windows() {
    assert_eq!(expand_frame_id(5, 0), 5);
    assert_eq!(expand_frame_id(5, 250), 261);
    assert_eq!(expand_frame_id(250, 250), 250);
    assert_eq!(expand_frame_id(0x02, 0x100), 0x102);
}

fn feedback_packet(sender_ssrc: u32, checkpoint: u8, loss: &[(u8, u16, u8)]) -> Vec<u8> {
    let mut body = Vec::new();
    body.extend_from_slice(&0xEEEE_EEEE_u32.to_be_bytes());
    body.extend_from_slice(&sender_ssrc.to_be_bytes());
    body.extend_from_slice(&CAST.to_be_bytes());
    body.push(checkpoint);
    body.push(loss.len() as u8);
    body.extend_from_slice(&400_u16.to_be_bytes());
    for (fid, pid, bits) in loss {
        body.push(*fid);
        body.extend_from_slice(&pid.to_be_bytes());
        body.push(*bits);
    }
    let mut p = vec![0x80 | SUBTYPE_FEEDBACK, PT_PAYLOAD_SPECIFIC];
    p.extend_from_slice(&((body.len() / 4) as u16).to_be_bytes());
    p.extend_from_slice(&body);
    p
}

fn parse_new(data: &[u8], sender_ssrc: u32, checkpoint_hint: u64) -> ReceiverEvents {
    let mut events = ReceiverEvents {
        checkpoint_frame_id: Some(u64::MAX),
        nacks: vec![Nack {
            frame_id: u64::MAX,
            packet_id: 0,
        }],
        picture_loss: false,
    };
    parse(data, sender_ssrc, checkpoint_hint, &mut events);
    events
}

#[test]
fn parses_checkpoint_and_nacks() {
    let packet = feedback_packet(42, 7, &[(9, 2, 0b0000_0101)]);
    let events = parse_new(&packet, 42, 0);
    assert_eq!(events.checkpoint_frame_id, Some(7));
    assert_eq!(
        events.nacks,
        vec![
            Nack {
                frame_id: 9,
                packet_id: 2
            },
            Nack {
                frame_id: 9,
                packet_id: 3
            },
            Nack {
                frame_id: 9,
                packet_id: 5
            },
        ]
    );
}

#[test]
fn ignores_feedback_for_other_ssrc() {
    let packet = feedback_packet(43, 7, &[]);
    let events = parse_new(&packet, 42, 0);
    assert_eq!(events.checkpoint_frame_id, None);
    assert!(events.nacks.is_empty());
}

#[test]
fn parses_pli_in_compound_packet() {
    let mut p = vec![0x80, 201, 0, 1];
    p.extend_from_slice(&0xEEEE_EEEE_u32.to_be_bytes());
    p.extend_from_slice(&[0x80 | SUBTYPE_PICTURE_LOSS, PT_PAYLOAD_SPECIFIC, 0, 2]);
    p.extend_from_slice(&0xEEEE_EEEE_u32.to_be_bytes());
    p.extend_from_slice(&42_u32.to_be_bytes());
    let events = parse_new(&p, 42, 0);
    assert!(events.picture_loss);
}

#[test]
fn checkpoint_is_expanded_against_the_hint() {
    let packet = feedback_packet(42, 3, &[]);
    let events = parse_new(&packet, 42, 0x1fe);
    assert_eq!(events.checkpoint_frame_id, Some(0x203));
}

#[test]
fn whole_frame_loss_is_one_nack() {
    let packet = feedback_packet(42, 7, &[(8, 0xffff, 0)]);
    let events = parse_new(&packet, 42, 0);
    assert_eq!(
        events.nacks,
        vec![Nack {
            frame_id: 8,
            packet_id: 0xffff
        }]
    );
}

#[test]
fn a_feedback_body_shorter_than_its_header_is_ignored() {
    let mut p = vec![0x80 | SUBTYPE_FEEDBACK, PT_PAYLOAD_SPECIFIC, 0, 3];
    p.extend_from_slice(&0xEEEE_EEEE_u32.to_be_bytes());
    p.extend_from_slice(&42_u32.to_be_bytes());
    p.extend_from_slice(&CAST.to_be_bytes());
    let events = parse_new(&p, 42, 0);
    assert_eq!(events.checkpoint_frame_id, None);
    assert!(events.nacks.is_empty());
    assert!(!events.picture_loss);
}

#[test]
fn ntp_time_counts_from_1900() {
    assert_eq!(ntp_from_unix(0, 0), 2_208_988_800_u64 << 32);
    assert_eq!(ntp_from_unix(1, 500_000_000), ((2_208_988_801_u64) << 32) | 0x8000_0000);
}
