use shell_cast::pipeline::{
    audio_branch, audio_stream_description, find_aac_encoder, find_h264_encoder, h264_fragment,
    key_interval, launch_description, monitor_of_sink, PipelineError, StreamSettings,
};

#[test]
fn default_settings_from_empty_options() {
    let settings = StreamSettings::from_options(None, None, None, None);
    assert_eq!(settings.size, Some((1280, 720)));
    assert_eq!(settings.fps, 20);
    assert_eq!(settings.bitrate_kbps, 4000);
}

#[test]
fn options_are_clamped() {
    let settings = StreamSettings::from_options(None, None, Some(500), Some(1));
    assert_eq!(settings.fps, 60);
    assert_eq!(settings.bitrate_kbps, 1000);
}

#[test]
fn description_scales_when_size_is_set() {
    let settings = StreamSettings {
        size: Some((1280, 720)),
        ..Default::default()
    };
    let desc = launch_description(Some((3, 42)), &settings, "/run/x", None, "x264enc bitrate=4000");
    assert!(desc.contains("width=1280,height=720"));
    assert!(desc.contains("fd=3 path=42"));
    assert!(desc.contains("x264enc bitrate=4000 ! h264parse"));
    assert!(desc.contains("/run/x/stream.m3u8"));
    assert!(!desc.contains("pulsesrc"));
}

#[test]
fn description_includes_audio_branch() {
    let desc = launch_description(
        Some((3, 42)),
        &StreamSettings::default(),
        "/run/x",
        Some(("alsa_output.pci.monitor", "fdkaacenc")),
        "x264enc bitrate=4000",
    );
    assert!(desc.contains("hls.video"));
    assert!(desc.contains("pulsesrc device=alsa_output.pci.monitor"));
    assert!(desc.contains("fdkaacenc bitrate=128000"));
}

#[test]
fn audio_only_description_has_no_video_branch() {
    let desc = launch_description(
        None,
        &StreamSettings::default(),
        "/run/x",
        Some(("alsa_output.pci.monitor", "fdkaacenc")),
        "x264enc bitrate=4000",
    );
    assert!(!desc.contains("pipewiresrc"));
    assert!(!desc.contains("x264enc"));
    assert!(!desc.contains("hls.video"));
    assert!(desc.starts_with("hlssink2 name=hls"));
    assert!(desc.contains("/run/x/stream.m3u8"));
    assert!(desc.contains("pulsesrc device=alsa_output.pci.monitor"));
    assert!(desc.contains("hls.audio"));
}

#[test]
fn options_set_size_only_when_both_dimensions_are_positive() {
    let settings = StreamSettings::from_options(Some(640), Some(360), Some(30), Some(25_000));
    assert_eq!(settings.size, Some((640, 360)));
    assert_eq!(settings.fps, 30);
    assert_eq!(settings.bitrate_kbps, 20_000);
    let settings = StreamSettings::from_options(Some(0), Some(360), Some(5), None);
    assert_eq!(settings.size, Some((1280, 720)));
    assert_eq!(settings.fps, 10);
    assert_eq!(settings.bitrate_kbps, 4000);
    let settings = StreamSettings::from_options(Some(640), None, None, None);
    assert_eq!(settings.size, Some((1280, 720)));
}

#[test]
fn video_description_is_exact() {
    let settings = StreamSettings {
        size: None,
        fps: 30,
        bitrate_kbps: 4000,
    };
    let desc = launch_description(Some((-1, 7)), &settings, "/d", None, "enc");
    assert_eq!(
        desc,
        "pipewiresrc fd=-1 path=7 do-timestamp=true keepalive-time=1000 resend-last=true ! \
         queue leaky=downstream max-size-buffers=3 max-size-bytes=0 max-size-time=0 ! \
         videoconvert ! videoscale ! videorate ! video/x-raw,framerate=30/1 ! enc ! h264parse ! \
         queue ! hls.video hlssink2 name=hls target-duration=1 playlist-length=3 max-files=6 \
         playlist-location=/d/stream.m3u8 location=/d/segment%05d.ts"
    );
}

#[test]
fn first_installed_aac_encoder_wins() {
    assert_eq!(find_aac_encoder(&[false, true, true, false]), Some("avenc_aac"));
    assert_eq!(find_aac_encoder(&[true, true, true, true]), Some("fdkaacenc"));
    assert_eq!(find_aac_encoder(&[false, false, false, true]), Some("faac"));
    assert_eq!(find_aac_encoder(&[false, false, false, false]), None);
}

#[test]
fn h264_fragments_per_encoder_family() {
    assert_eq!(
        h264_fragment("x264enc", 4000, 20),
        "x264enc tune=zerolatency speed-preset=veryfast bitrate=4000 key-int-max=20 bframes=0"
    );
    assert_eq!(
        h264_fragment("nvh264enc", 4000, 20),
        "nvh264enc bitrate=4000 rc-mode=cbr gop-size=20 bframes=0"
    );
    assert_eq!(
        h264_fragment("vah264enc", 4000, 20),
        "vah264enc bitrate=4000 rate-control=cbr key-int-max=20"
    );
}

#[test]
fn first_parsing_h264_encoder_wins_else_software() {
    assert_eq!(
        find_h264_encoder(3000, 30, &[false, false, true, true]),
        "nvh264enc bitrate=3000 rc-mode=cbr gop-size=30 bframes=0"
    );
    assert_eq!(
        find_h264_encoder(3000, 30, &[false, false, false, false]),
        "x264enc tune=zerolatency speed-preset=veryfast bitrate=3000 key-int-max=30 bframes=0"
    );
}

#[test]
fn audio_branch_degrades_only_with_video() {
    assert_eq!(audio_branch(Some("m"), Some("e"), false), Ok(Some(("m", "e"))));
    assert_eq!(audio_branch(Some("m"), None, true), Ok(None));
    assert_eq!(audio_branch(Some("m"), None, false), Err(PipelineError::NoAacEncoder));
    assert_eq!(audio_branch(None, Some("e"), true), Ok(None));
    assert_eq!(audio_branch(None, Some("e"), false), Err(PipelineError::NoAudioMonitor));
}

#[test]
fn key_interval_is_one_second_of_frames() {
    assert_eq!(key_interval(20), 20);
    assert_eq!(key_interval(0), 1);
    assert_eq!(key_interval(-3), 1);
}

#[test]
fn progressive_audio_prefers_mp3() {
    let (desc, content_type) = audio_stream_description("mon", true, Some("fdkaacenc")).unwrap();
    assert_eq!(content_type, "audio/mpeg");
    assert_eq!(
        desc,
        "pulsesrc device=mon provide-clock=false ! queue ! audioconvert ! audioresample ! \
         audio/x-raw,rate=44100,channels=2 ! lamemp3enc target=bitrate bitrate=128 cbr=true ! \
         appsink name=asink sync=false max-buffers=64 drop=false"
    );
    let (desc, content_type) = audio_stream_description("mon", false, Some("fdkaacenc")).unwrap();
    assert_eq!(content_type, "audio/aac");
    assert!(desc.contains("fdkaacenc bitrate=128000 ! aacparse ! audio/mpeg,mpegversion=4,stream-format=adts"));
    assert_eq!(
        audio_stream_description("mon", false, None),
        Err(PipelineError::NoAudioEncoder)
    );
    assert!(PipelineError::NoAudioEncoder.message().starts_with("no MP3 or AAC encoder"));
}

#[test]
fn monitor_of_the_default_sink() {
    assert_eq!(
        monitor_of_sink("alsa_output.pci\n"),
        Some("alsa_output.pci.monitor".to_string())
    );
    assert_eq!(monitor_of_sink("  \n"), None);
    assert_eq!(monitor_of_sink(""), None);
}
