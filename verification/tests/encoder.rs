use shell_cast::mirror::encoder as mirror_encoder;
use shell_cast::streaming::encoder::{
    allowed, available_video_codecs, factories, is_hardware, launch_for, policy_failure_message,
    video_encoder, EncoderPolicy, EncodingPolicy, FactoryProbe, FormatPolicy, VideoCodec,
    EFFICIENCY_ORDER,
};

#[test]
fn codec_names_match_the_cast_offer_strings() {
    assert_eq!(mirror_encoder::VideoCodec::Vp8.codec_name(), "vp8");
    assert_eq!(mirror_encoder::VideoCodec::Vp9.codec_name(), "vp9");
    assert_eq!(mirror_encoder::VideoCodec::Av1.codec_name(), "av1");
    assert_eq!(mirror_encoder::VideoCodec::H264.codec_name(), "h264");
}

#[test]
fn encoder_codec_names_match_the_cast_offer_strings() {
    assert_eq!(VideoCodec::Vp8.codec_name(), "vp8");
    assert_eq!(VideoCodec::Vp9.codec_name(), "vp9");
    assert_eq!(VideoCodec::Av1.codec_name(), "av1");
    assert_eq!(VideoCodec::H264.codec_name(), "h264");
}

#[test]
fn vpx_bitrate_is_bits_per_second() {
    let f = mirror_encoder::launch_for("vp9enc", 4_000_000, 30);
    assert!(f.starts_with("vp9enc name=venc"));
    assert!(f.contains("end-usage=cbr"));
    assert!(f.contains("target-bitrate=4000000"));
}

#[test]
fn mirroring_fragments_key_about_every_two_seconds() {
    for factory in ["vp8enc", "vp9enc", "av1enc"] {
        let f = mirror_encoder::launch_for(factory, 2_000_000, 40);
        assert!(f.contains("keyframe-max-dist=80"), "{f}");
        assert!(!f.contains("3000"), "{f}");
    }
    assert!(mirror_encoder::launch_for("vp8enc", 2_000_000, 0).contains("keyframe-max-dist=1 "));
}

#[test]
fn encoder_vpx_bitrate_is_bits_per_second() {
    let f = launch_for("vp9enc", 4_000_000, 30);
    assert!(f.starts_with("vp9enc name=venc"));
    assert!(f.contains("end-usage=cbr"));
    assert!(f.contains("target-bitrate=4000000"));
}

#[test]
fn av1_bitrate_is_kilobits_per_second() {
    assert!(mirror_encoder::launch_for("svtav1enc", 4_000_000, 30).contains("target-bitrate=4000"));
    assert!(mirror_encoder::launch_for("av1enc", 4_000_000, 30).contains("target-bitrate=4000"));
    assert!(mirror_encoder::launch_for("svtav1enc", 4_000_000, 30).contains("intra-period-length=60"));
}

#[test]
fn encoder_av1_bitrate_is_kilobits_per_second() {
    assert!(launch_for("svtav1enc", 4_000_000, 30).contains("target-bitrate=4000"));
    assert!(launch_for("av1enc", 4_000_000, 30).contains("target-bitrate=4000"));
    assert!(launch_for("svtav1enc", 4_000_000, 30).contains("intra-period-length=60"));
}

#[test]
fn hardware_encoders_are_detected_and_kilobit_rated() {
    assert!(is_hardware("vah264enc"));
    assert!(is_hardware("nvav1enc"));
    assert!(!is_hardware("x264enc"));
    assert!(!is_hardware("svtav1enc"));
    assert!(!is_hardware("vp9enc"));
    assert!(mirror_encoder::launch_for("vah264enc", 4_000_000, 30).contains("bitrate=4000"));
    assert!(mirror_encoder::launch_for("nvh264enc", 4_000_000, 30).contains("rc-mode=cbr"));
}

#[test]
fn encoder_hardware_encoders_are_detected_and_kilobit_rated() {
    assert!(is_hardware("vah264enc"));
    assert!(is_hardware("nvav1enc"));
    assert!(!is_hardware("x264enc"));
    assert!(!is_hardware("svtav1enc"));
    assert!(!is_hardware("vp9enc"));
    assert!(launch_for("vah264enc", 4_000_000, 30).contains("bitrate=4000"));
    assert!(launch_for("nvh264enc", 4_000_000, 30).contains("rc-mode=cbr"));
}

#[test]
fn every_fragment_keys_about_every_two_seconds() {
    for codec in EFFICIENCY_ORDER {
        for factory in factories(codec) {
            let f = launch_for(factory, 2_000_000, 40);
            if let Some(rest) = f.split("keyframe-max-dist=").nth(1) {
                assert_eq!(rest.split_whitespace().next(), Some("80"), "{factory}");
            }
        }
    }
    assert!(launch_for("x264enc", 2_000_000, 40).contains("key-int-max=80"));
    assert!(launch_for("svtav1enc", 2_000_000, 40).contains("intra-period-length=80"));
}

#[test]
fn unknown_option_values_fall_back_to_auto() {
    assert_eq!(EncoderPolicy::parse("software"), EncoderPolicy::Software);
    assert_eq!(EncoderPolicy::parse("nonsense"), EncoderPolicy::Auto);
    assert_eq!(EncoderPolicy::parse(""), EncoderPolicy::Auto);
    assert_eq!(FormatPolicy::parse("nv12"), FormatPolicy::Nv12);
    assert_eq!(FormatPolicy::parse("yuv"), FormatPolicy::Auto);
    assert_eq!(FormatPolicy::Auto.caps_format(), "{NV12,I420}");
    assert_eq!(FormatPolicy::I420.caps_format(), "I420");
}

#[test]
fn every_fragment_names_the_encoder_venc() {
    for codec in EFFICIENCY_ORDER {
        for factory in mirror_encoder_factories(codec) {
            assert!(mirror_encoder::launch_for(factory, 2_000_000, 24).contains("name=venc"));
        }
    }
}

fn mirror_encoder_factories(codec: VideoCodec) -> Vec<&'static str> {
    factories(codec)
}

#[test]
fn encoder_every_fragment_names_the_encoder_venc() {
    for codec in EFFICIENCY_ORDER {
        for factory in factories(codec) {
            assert!(launch_for(factory, 2_000_000, 24).contains("name=venc"));
        }
    }
}

#[test]
fn policy_filters_the_candidate_list() {
    let auto = EncodingPolicy::default();
    let software = EncodingPolicy {
        encoder: EncoderPolicy::Software,
        ..auto
    };
    let hardware = EncodingPolicy {
        encoder: EncoderPolicy::Hardware,
        ..auto
    };
    assert!(allowed("x264enc", auto, false));
    assert!(allowed("x264enc", software, false));
    assert!(!allowed("x264enc", hardware, true));
    assert!(allowed("vah264enc", hardware, false));
    assert!(!allowed("vah264enc", software, true));
    // A forced format rules out encoders that cannot take it.
    let i420 = EncodingPolicy {
        format: FormatPolicy::I420,
        ..auto
    };
    assert!(!allowed("vah264enc", i420, false));
    assert!(allowed("x264enc", i420, true));
}

fn probes(accepts: bool, parses: &[bool]) -> Vec<FactoryProbe> {
    parses
        .iter()
        .map(|&p| FactoryProbe {
            accepts_required_format: accepts,
            parses: p,
        })
        .collect()
}

#[test]
fn the_first_usable_encoder_is_chosen() {
    let auto = EncodingPolicy::default();
    // vah264enc fails to parse; vah264lpenc is next and hardware.
    let chosen = video_encoder(VideoCodec::H264, 4_000_000, 30, auto, &probes(true, &[false, true, true, true]));
    assert_eq!(chosen, Some((String::from("vah264lpenc name=venc bitrate=4000 rate-control=cbr"), true)));
    // Only software allowed: x264enc.
    let software = EncodingPolicy {
        encoder: EncoderPolicy::Software,
        ..auto
    };
    let chosen = video_encoder(VideoCodec::H264, 4_000_000, 30, software, &probes(true, &[true, true, true, true]));
    assert_eq!(chosen.map(|(_, hw)| hw), Some(false));
    // Nothing parses: no encoder.
    assert_eq!(video_encoder(VideoCodec::Vp8, 4_000_000, 30, auto, &probes(true, &[false, false])), None);
}

#[test]
fn hardware_codecs_come_first_then_by_efficiency() {
    let auto = EncodingPolicy::default();
    // AV1 only in software, VP9 in hardware, H.264 nowhere, VP8 in software.
    let all = vec![
        probes(true, &[false, false, true, false]),
        probes(true, &[true, false]),
        probes(true, &[false, false, false, false]),
        probes(true, &[false, true]),
    ];
    assert_eq!(
        available_video_codecs(auto, &all),
        vec![VideoCodec::Vp9, VideoCodec::Av1, VideoCodec::Vp8]
    );
    let parses = vec![
        vec![false, false, true, false],
        vec![true, false],
        vec![false, false, false, false],
        vec![false, true],
    ];
    assert_eq!(
        mirror_encoder::available_video_codecs(&parses),
        vec![VideoCodec::Vp9, VideoCodec::Av1, VideoCodec::Vp8]
    );
}

#[test]
fn failure_messages_name_the_setting_to_change() {
    let auto = EncodingPolicy::default();
    assert!(policy_failure_message(auto).starts_with("No video encoder is installed."));
    let hardware = EncodingPolicy {
        encoder: EncoderPolicy::Hardware,
        format: FormatPolicy::Nv12,
    };
    assert!(policy_failure_message(hardware).contains("No hardware video encoder"));
    let nv12 = EncodingPolicy {
        format: FormatPolicy::Nv12,
        ..auto
    };
    assert!(policy_failure_message(nv12).contains("pixel format"));
}

#[test]
fn unknown_factories_get_only_a_name() {
    assert_eq!(launch_for("foo", 1, 0), "foo name=venc");
    assert!(launch_for("x264enc", 999, 0).contains("bitrate=1 key-int-max=1"));
}
