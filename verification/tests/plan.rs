use shell_cast::mirror::encoder::VideoCodec;
use shell_cast::mirror::messages::{Answer, AUDIO_PAYLOAD_TYPE, VIDEO_PAYLOAD_TYPE};
use shell_cast::mirror::plan::{
    accept_answer, audio_params, check_sources, generate_keys, keys_from, mirror_description,
    receiver_codecs, rtp_timestamp, stream_configs, video_params, MirrorError, MirrorVideo,
    StreamKeys, AUDIO_BIT_RATE, AUDIO_INDEX, VIDEO_INDEX_BASE,
};
use shell_cast::mirror::sender::StreamKind;

fn keys(ssrc: u32) -> StreamKeys {
    StreamKeys {
        ssrc,
        aes_key: [ssrc as u8; 16],
        aes_iv_mask: [(ssrc as u8).wrapping_add(1); 16],
    }
}

#[test]
fn generated_ssrcs_stay_in_their_range() {
    for _ in 0..100 {
        let k = generate_keys(50_000);
        assert!((50_000..51_000).contains(&k.ssrc));
    }
}

#[test]
fn sources_must_leave_something_to_mirror() {
    assert_eq!(check_sources(false, false, &[]), Err(MirrorError::NoAudioMonitor));
    assert_eq!(check_sources(true, true, &[]), Err(MirrorError::NoVideoEncoder));
    assert_eq!(check_sources(false, true, &[]), Ok(()));
    assert_eq!(check_sources(true, false, &[VideoCodec::Vp8]), Ok(()));
    assert_eq!(
        MirrorError::NoVideoEncoder.message(),
        "no video encoder is installed"
    );
}

#[test]
fn offer_entries_are_numbered_in_preference_order() {
    let audio = audio_params(&keys(7));
    assert_eq!(audio.index, AUDIO_INDEX);
    assert_eq!(audio.ssrc, 7);
    assert_eq!(audio.bit_rate, AUDIO_BIT_RATE);
    let videos = video_params(
        &[VideoCodec::Av1, VideoCodec::Vp8],
        &[keys(10), keys(11)],
        1920,
        1080,
        30,
        5_000_000,
    );
    assert_eq!(videos.len(), 2);
    assert_eq!(videos[0].index, VIDEO_INDEX_BASE);
    assert_eq!(videos[1].index, VIDEO_INDEX_BASE + 1);
    assert_eq!(videos[0].codec_name, "av1");
    assert_eq!(videos[1].codec_name, "vp8");
    assert_eq!(videos[1].ssrc, 11);
    assert_eq!(videos[1].aes_key, [11; 16]);
    assert_eq!(videos[0].width, 1920);
    assert_eq!(videos[0].max_bit_rate, 5_000_000);
}

#[test]
fn the_first_accepted_variant_is_chosen() {
    let videos = video_params(
        &[VideoCodec::Av1, VideoCodec::Vp9, VideoCodec::Vp8],
        &[keys(1), keys(2), keys(3)],
        1280,
        720,
        30,
        4_000_000,
    );
    let answer = Answer { udp_port: 5000, send_indexes: vec![3, 0, 2] };
    assert_eq!(accept_answer(true, true, &videos, &answer), Ok((Some(1), true)));
    assert_eq!(accept_answer(true, false, &videos, &answer), Ok((Some(1), false)));
    assert_eq!(receiver_codecs(&videos, &answer), vec!["vp9", "vp8"]);
    let audio_only = Answer { udp_port: 5000, send_indexes: vec![0] };
    assert_eq!(
        accept_answer(true, true, &videos, &audio_only),
        Err(MirrorError::NoVideoAccepted)
    );
    assert_eq!(accept_answer(false, true, &[], &audio_only), Ok((None, true)));
    let nothing = Answer { udp_port: 5000, send_indexes: vec![] };
    assert_eq!(
        accept_answer(false, true, &[], &nothing),
        Err(MirrorError::AudioNotAccepted)
    );
}

#[test]
fn stream_configs_put_video_first() {
    let configs = stream_configs(Some(&keys(1)), Some(&keys(2)));
    assert_eq!(configs.len(), 2);
    assert_eq!(configs[0].kind, StreamKind::Video);
    assert_eq!(configs[0].payload_type, VIDEO_PAYLOAD_TYPE);
    assert_eq!(configs[1].kind, StreamKind::Audio);
    assert_eq!(configs[1].payload_type, AUDIO_PAYLOAD_TYPE);
    assert_eq!(configs[1].ssrc, 2);
    assert_eq!(stream_configs(None, Some(&keys(2))).len(), 1);
    assert!(stream_configs(None, None).is_empty());
}

#[test]
fn rtp_timestamps_follow_the_timebase_and_wrap() {
    assert_eq!(rtp_timestamp(1_000_000_000, 90_000), 90_000);
    assert_eq!(rtp_timestamp(500_000_000, 48_000), 24_000);
    let ns = 50_000 * 1_000_000_000u64;
    assert_eq!(rtp_timestamp(ns, 90_000), (50_000u64 * 90_000 % (1 << 32)) as u32);
}

#[test]
fn mirror_description_is_exact() {
    let video = MirrorVideo { fd: 5, node_id: 9, fps: 30, width: 1280, height: 720, encoder: "vp8enc name=venc" };
    let desc = mirror_description(Some(&video), Some("mon"));
    assert_eq!(
        desc,
        "pipewiresrc fd=5 path=9 do-timestamp=true keepalive-time=1000 resend-last=true ! \
         queue leaky=downstream max-size-buffers=3 max-size-bytes=0 max-size-time=0 ! \
         videoconvert ! videoscale ! videorate ! \
         video/x-raw,format=I420,framerate=30/1,width=1280,height=720,pixel-aspect-ratio=1/1 ! \
         vp8enc name=venc ! appsink name=vsink sync=false max-buffers=32 \
         pulsesrc device=mon provide-clock=false ! queue ! audioconvert ! audioresample ! \
         audio/x-raw,rate=48000,channels=2 ! opusenc bitrate=128000 ! \
         appsink name=asink sync=false max-buffers=32"
    );
    assert!(mirror_description(None, None).is_empty());
}

#[test]
fn keys_come_from_the_drawn_values() {
    let k = keys_from(50_000, 123_456, [7; 16], [9; 16]);
    assert_eq!(k.ssrc, 50_456);
    assert_eq!(k.aes_key, [7; 16]);
    assert_eq!(k.aes_iv_mask, [9; 16]);
    assert_eq!(keys_from(1_000, u32::MAX, [0; 16], [0; 16]).ssrc, 1_000 + u32::MAX % 1000);
}
