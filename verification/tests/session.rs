use shell_cast::capture::SourceKind;
use shell_cast::discovery::{Device, IpAddress};
use shell_cast::session::{
    audio_codec, check_start, finish_session, playlist_ready, runtime_dir, should_exit,
    stream_url, user_message, IoErrorKind, SessionOutcome, StartError,
};

fn device(ca: u32) -> Device {
    Device {
        id: "tv._googlecast._tcp.local.".to_string(),
        name: "Living Room TV".to_string(),
        addr: IpAddress::V4(0xC0A8_0002),
        port: 8009,
        ca,
    }
}

#[test]
fn network_errors_lose_their_technical_detail() {
    let message = user_message(Some(IoErrorKind::NetworkUnreachable), "probing route to device");
    assert!(message.starts_with("Could not reach the device."), "{message}");
    assert!(!message.contains("os error"), "{message}");
}

#[test]
fn other_errors_keep_their_top_level_context() {
    assert_eq!(user_message(None, "building the pipeline"), "building the pipeline");
}

#[test]
fn each_network_failure_has_its_sentence() {
    assert_eq!(
        user_message(Some(IoErrorKind::ConnectionRefused), "x"),
        "The device refused the connection."
    );
    assert_eq!(
        user_message(Some(IoErrorKind::BrokenPipe), "x"),
        "Lost the connection to the device."
    );
    assert_eq!(
        user_message(Some(IoErrorKind::Other), "x"),
        "Could not reach the device over the network."
    );
}

#[test]
fn start_checks_source_then_device_then_capability() {
    match check_start(7, "tv", Some(&device(5))) {
        Err(StartError::InvalidArgs(m)) => assert_eq!(m, "unknown source type: 7"),
        other => panic!("unexpected {other:?}"),
    }
    match check_start(0, "tv", None) {
        Err(StartError::Failed(m)) => assert_eq!(m, "unknown device: tv"),
        other => panic!("unexpected {other:?}"),
    }
    match check_start(1, "tv", Some(&device(4))) {
        Err(StartError::Failed(m)) => {
            assert_eq!(m, "Living Room TV is audio-only and cannot receive screen casts")
        }
        other => panic!("unexpected {other:?}"),
    }
    assert!(matches!(check_start(2, "tv", Some(&device(4))), Ok(SourceKind::Audio)));
    assert!(matches!(check_start(0, "tv", Some(&device(5))), Ok(SourceKind::Screen)));
}

#[test]
fn only_the_newest_session_clears_shared_state() {
    let end = finish_session(SessionOutcome::Failed("boom".to_string()), "tv", 3, 3);
    assert_eq!(end.state, "error");
    assert_eq!(end.device_id, "tv");
    assert_eq!(end.error, Some("boom".to_string()));
    assert!(end.clears_shared);
    let end = finish_session(SessionOutcome::Finished, "tv", 2, 3);
    assert_eq!(end.state, "idle");
    assert_eq!(end.device_id, "");
    assert_eq!(end.error, None);
    assert!(!end.clears_shared);
    let end = finish_session(SessionOutcome::Cancelled, "tv", 4, 4);
    assert_eq!(end.state, "idle");
    assert!(end.clears_shared);
}

#[test]
fn idle_daemon_exits_after_ten_minutes() {
    assert!(should_exit("idle", 600_001));
    assert!(should_exit("error", 700_000));
    assert!(!should_exit("idle", 600_000));
    assert!(!should_exit("casting", 10_000_000));
}

#[test]
fn playlist_is_ready_with_three_segments() {
    let two = "#EXTM3U\nsegment00000.ts\nsegment00001.ts\n";
    let three = "#EXTM3U\nsegment00000.ts\nsegment00001.ts\nsegment00002.ts\n";
    assert!(!playlist_ready(two));
    assert!(playlist_ready(three));
    assert!(!playlist_ready(""));
}

#[test]
fn urls_and_directories() {
    assert_eq!(
        stream_url("192.168.0.5", 8080, "abc", "stream.m3u8"),
        "http://192.168.0.5:8080/abc/stream.m3u8"
    );
    assert_eq!(runtime_dir("/run/user/1000", 42), "/run/user/1000/gnome-shell-cast-42");
    assert_eq!(runtime_dir("/tmp/", 7), "/tmp/gnome-shell-cast-7");
    assert_eq!(audio_codec("audio/mpeg"), "mp3");
    assert_eq!(audio_codec("audio/aac"), "aac");
}
