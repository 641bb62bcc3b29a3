use shell_cast::mirror::rtcp::{Nack, ReceiverEvents, ALL_PACKETS_LOST};
use shell_cast::mirror::rtp::{BASE_HEADER_SIZE, KEY_FRAME_BIT, MAX_PAYLOAD_SIZE};
use shell_cast::mirror::sender::{Stream, StreamConfig, StreamKind, MAX_HISTORY_FRAMES};

fn video_stream() -> Stream {
    Stream::new(&StreamConfig {
        kind: StreamKind::Video,
        ssrc: 50_001,
        payload_type: 96,
        aes_key: [1; 16],
        aes_iv_mask: [2; 16],
    })
}

fn events(checkpoint: Option<u64>, nacks: Vec<Nack>, picture_loss: bool) -> ReceiverEvents {
    ReceiverEvents {
        checkpoint_frame_id: checkpoint,
        nacks,
        picture_loss,
    }
}

#[test]
fn frames_are_numbered_and_reference_their_predecessor() {
    let mut stream = video_stream();
    stream.send_frame(true, 0, 0, &[1, 2, 3]);
    let first = stream.newest_frame().unwrap().packet(0).unwrap().to_vec();
    assert_eq!(first[12] & KEY_FRAME_BIT, KEY_FRAME_BIT);
    assert_eq!(first[13], 0);
    assert_eq!(first[18], 0);
    // The first frame carries the playout delay extension.
    assert_eq!(first.len(), BASE_HEADER_SIZE + 4 + 3);
    stream.send_frame(false, 3000, 1, &[4, 5]);
    let second = stream.newest_frame().unwrap().packet(0).unwrap().to_vec();
    assert_eq!(second[13], 1);
    assert_eq!(second[18], 0);
    assert_eq!(second.len(), BASE_HEADER_SIZE + 2);
}

#[test]
fn payloads_leave_encrypted() {
    let mut stream = video_stream();
    let data = vec![0_u8; 64];
    stream.send_frame(false, 0, 0, &data);
    let packet = stream.newest_frame().unwrap().packet(0).unwrap().to_vec();
    assert_ne!(&packet[packet.len() - 64..], &data[..]);
}

#[test]
fn nacks_are_answered_from_the_history() {
    let mut stream = video_stream();
    let data = vec![7_u8; 2 * MAX_PAYLOAD_SIZE + 1];
    stream.send_frame(true, 0, 0, &data);
    let all = stream.retransmission(&Nack {
        frame_id: 0,
        packet_id: ALL_PACKETS_LOST,
    });
    assert_eq!(all.len(), 3);
    let one = stream.retransmission(&Nack {
        frame_id: 0,
        packet_id: 1,
    });
    assert_eq!(one.len(), 1);
    assert_eq!(one[0], all[1]);
    assert!(stream
        .retransmission(&Nack {
            frame_id: 0,
            packet_id: 9
        })
        .is_empty());
    assert!(stream
        .retransmission(&Nack {
            frame_id: 5,
            packet_id: 0
        })
        .is_empty());
}

#[test]
fn the_checkpoint_releases_acknowledged_frames() {
    let mut stream = video_stream();
    for _ in 0..5 {
        stream.send_frame(false, 0, 0, &[1]);
    }
    stream.apply_feedback(&events(Some(2), Vec::new(), false));
    assert_eq!(stream.checkpoint_of(), 2);
    assert!(stream
        .retransmission(&Nack {
            frame_id: 2,
            packet_id: 0
        })
        .is_empty());
    assert_eq!(
        stream
            .retransmission(&Nack {
                frame_id: 3,
                packet_id: 0
            })
            .len(),
        1
    );
    // An older checkpoint does not move it back.
    stream.apply_feedback(&events(Some(1), Vec::new(), false));
    assert_eq!(stream.checkpoint_of(), 2);
}

#[test]
fn the_history_is_bounded() {
    let mut stream = video_stream();
    for _ in 0..(MAX_HISTORY_FRAMES + 5) {
        stream.send_frame(false, 0, 0, &[1]);
    }
    assert!(stream
        .retransmission(&Nack {
            frame_id: 4,
            packet_id: 0
        })
        .is_empty());
    assert_eq!(
        stream
            .retransmission(&Nack {
                frame_id: 5,
                packet_id: 0
            })
            .len(),
        1
    );
}

#[test]
fn only_video_streams_want_key_frames() {
    let stream = video_stream();
    assert!(stream.wants_key_frame(&events(None, Vec::new(), true)));
    assert!(!stream.wants_key_frame(&events(None, Vec::new(), false)));
    let audio = Stream::new(&StreamConfig {
        kind: StreamKind::Audio,
        ssrc: 1001,
        payload_type: 127,
        aes_key: [1; 16],
        aes_iv_mask: [2; 16],
    });
    assert!(!audio.wants_key_frame(&events(None, Vec::new(), true)));
}

#[test]
fn sender_reports_follow_the_interval() {
    let mut stream = video_stream();
    assert_eq!(stream.sender_report(0), None);
    stream.send_frame(false, 90_000, 0x1122_3344_5566_7788, &[1, 2, 3]);
    let report = stream.sender_report(1_000).unwrap();
    assert_eq!(&report[4..8], &50_001_u32.to_be_bytes());
    assert_eq!(&report[8..16], &0x1122_3344_5566_7788_u64.to_be_bytes());
    assert_eq!(&report[16..20], &90_000_u32.to_be_bytes());
    assert_eq!(&report[20..24], &1_u32.to_be_bytes());
    assert_eq!(&report[24..28], &((BASE_HEADER_SIZE + 4 + 3) as u32).to_be_bytes());
    assert_eq!(stream.sender_report(1_200), None);
    assert!(stream.sender_report(1_500).is_some());
}
