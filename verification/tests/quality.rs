use shell_cast::json::{JsonNumber, JsonValue};
use shell_cast::streaming::quality::{
    as_i32, fit_inside, parse, resolve, BitRateLimits, Constraints, Resolved,
};

fn auto(captured: (i32, i32), constraints: &Constraints) -> Resolved {
    resolve(None, None, None, None, captured, constraints)
}

/// The library's JSON value for a parsed JSON document.
fn json(value: &serde_json::Value) -> JsonValue {
    match value {
        serde_json::Value::Null => JsonValue::Null,
        serde_json::Value::Bool(b) => JsonValue::Bool(*b),
        serde_json::Value::Number(n) => {
            let positive_floor = n
                .as_f64()
                .filter(|f| f.is_finite() && *f > 0.0)
                .map(|f| f.min(9.0e18) as i64);
            JsonValue::Number(JsonNumber {
                integer: n.as_i64(),
                unsigned: n.as_u64(),
                positive_floor,
            })
        }
        serde_json::Value::String(s) => JsonValue::String(s.clone()),
        serde_json::Value::Array(items) => JsonValue::Array(items.iter().map(json).collect()),
        serde_json::Value::Object(members) => JsonValue::Object(
            members
                .iter()
                .map(|(k, v)| (k.clone(), json(v)))
                .collect(),
        ),
    }
}

fn parsed(text: &str) -> JsonValue {
    json(&serde_json::from_str(text).unwrap())
}

#[test]
fn an_answer_without_constraints_keeps_every_default() {
    let answer = parsed(r#"{"udpPort": 1234, "sendIndexes": [0, 1]}"#);
    assert_eq!(parse(&answer), Constraints::default());
}

#[test]
fn constraints_are_read_from_the_answer() {
    let answer = parsed(
        r#"{"constraints": {
            "video": {
                "minBitRate": 300000, "maxBitRate": 10000000,
                "maxDimensions": {"width": 1280, "height": 720, "frameRate": "24"},
                "maxPixelsPerSecond": 27648000.0, "maxDelay": 800
            },
            "audio": {"maxBitRate": 96000, "maxChannels": 1, "maxSampleRate": 24000}
        }}"#,
    );
    let c = parse(&answer);
    assert_eq!(c.video.max, (1280, 720));
    assert_eq!(c.video.max_fps, 24);
    assert_eq!(c.video.bit_rate.max_bps, 10_000_000);
    assert_eq!(c.video.max_delay_ms, 800);
    assert_eq!(c.video.max_pixels_per_second, 27_648_000);
    assert_eq!(c.audio.bit_rate.max_bps, 96_000);
    assert_eq!(c.audio.max_channels, 1);
    assert_eq!(c.audio.max_sample_rate, 24_000);
}

#[test]
fn automatic_keeps_the_captured_size_when_it_fits() {
    let r = auto((1280, 720), &Constraints::default());
    assert_eq!(r.size, (1280, 720));
    assert_eq!(r.fps, 30);
}

#[test]
fn automatic_shrinks_an_oversized_capture_keeping_the_aspect_ratio() {
    let r = auto((3840, 2160), &Constraints::default());
    assert_eq!(r.size, (1920, 1080));
}

#[test]
fn a_non_16_by_9_capture_keeps_its_aspect_ratio() {
    let r = auto((2560, 1600), &Constraints::default());
    assert_eq!(r.size.0, 1728);
    assert_eq!(r.size.1, 1080);
}

#[test]
fn the_receiver_wins_over_a_larger_request() {
    let mut c = Constraints::default();
    c.video.max = (1280, 720);
    let r = resolve(Some((1920, 1080)), None, None, None, (1920, 1080), &c);
    assert_eq!(r.size, (1280, 720));
}

#[test]
fn frame_rate_is_capped_by_max_pixels_per_second() {
    let mut c = Constraints::default();
    c.video.max_pixels_per_second = 1920 * 1080 * 15;
    let r = resolve(Some((1920, 1080)), Some(30), None, None, (1920, 1080), &c);
    assert_eq!(r.fps, 15);
}

#[test]
fn bitrates_are_clamped_into_the_receivers_range() {
    let mut c = Constraints::default();
    c.video.bit_rate = BitRateLimits {
        min_bps: 500_000,
        max_bps: 2_000_000,
    };
    c.audio.bit_rate = BitRateLimits {
        min_bps: 32_000,
        max_bps: 64_000,
    };
    let r = resolve(None, None, Some(9000), Some(128), (1280, 720), &c);
    assert_eq!(r.video_bitrate_kbps, 2000);
    assert_eq!(r.audio_bitrate_bps, 64_000);
}

#[test]
fn automatic_bitrate_starts_at_the_chromium_default() {
    let r = auto((1280, 720), &Constraints::default());
    assert_eq!(r.video_bitrate_kbps, 5000);
    assert_eq!(r.audio_bitrate_bps, 128_000);
    assert_eq!(r.sample_rate, 48_000);
    assert_eq!(r.channels, 2);
}

#[test]
fn a_mono_receiver_narrows_the_audio_format() {
    let mut c = Constraints::default();
    c.audio.max_channels = 1;
    c.audio.max_sample_rate = 24_000;
    let r = auto((1280, 720), &c);
    assert_eq!(r.channels, 1);
    assert_eq!(r.sample_rate, 24_000);
}

#[test]
fn frame_rates_arrive_as_strings_and_fractions() {
    assert_eq!(as_i32(&parsed(r#""30""#)), Some(30));
    assert_eq!(as_i32(&parsed(r#""30000/1001""#)), Some(30000));
    assert_eq!(as_i32(&parsed("24")), Some(24));
    assert_eq!(as_i32(&parsed(r#""nonsense""#)), None);
}

#[test]
fn integers_out_of_range_and_padded_strings() {
    assert_eq!(as_i32(&parsed("3000000000")), None);
    assert_eq!(as_i32(&parsed(r#"" 25 /1""#)), Some(25));
    assert_eq!(as_i32(&parsed(r#""-7""#)), Some(-7));
    assert_eq!(as_i32(&parsed(r#""+7""#)), Some(7));
    assert_eq!(as_i32(&parsed(r#""+""#)), None);
    assert_eq!(as_i32(&parsed("24.5")), None);
    assert_eq!(as_i32(&parsed("null")), None);
}

#[test]
fn fitting_keeps_the_aspect_ratio_and_even_sizes() {
    assert_eq!(fit_inside((3840, 2160), (1920, 1080)), (1920, 1080));
    assert_eq!(fit_inside((1000, 3000), (1920, 1080)), (360, 1080));
    assert_eq!(fit_inside((100, 100), (1920, 1080)), (100, 100));
    assert_eq!(fit_inside((1, 1), (1920, 1080)), (2, 2));
}

#[test]
fn a_receiver_minimum_raises_a_small_capture() {
    let mut c = Constraints::default();
    c.video.min = (640, 360);
    let r = auto((320, 180), &c);
    assert_eq!(r.size, (640, 360));
}

#[test]
fn out_of_range_settings_are_clamped() {
    let r = resolve(None, Some(500), None, None, (1280, 720), &Constraints::default());
    assert_eq!(r.fps, 30);
    let r = resolve(None, Some(1), None, None, (1280, 720), &Constraints::default());
    assert_eq!(r.fps, 5);
    let mut c = Constraints::default();
    c.video.max_delay_ms = 0;
    assert_eq!(auto((1280, 720), &c).playout_delay_ms, 1);
}

#[test]
fn a_receiver_maximum_below_the_default_minimum_sample_rate_wins() {
    let mut c = Constraints::default();
    c.audio.max_sample_rate = 8_000;
    let r = auto((1280, 720), &c);
    assert_eq!(r.sample_rate, 8_000);
}
