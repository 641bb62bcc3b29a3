//! The negotiated quality envelope: what the receiver will accept, what we are
//! willing to send, and the resolved values the pipeline is built from.
//!
//! Every user setting is optional; `None` means automatic, and automatic means
//! "whatever the receiver and these limits allow". A set value is still
//! clamped into the envelope - the receiver's ANSWER wins over a preference,
//! because exceeding it produces a stream it cannot decode.

use vstd::prelude::*;

use crate::json::{JsonValue, spec_as_i64, spec_as_str, spec_get};
use crate::streaming::ladder::div_toward_zero;
use crate::text::{before_first, chars_before, chars_of, parse_small_int, spec_parse_int, trim, trim_chars};

verus! {

/// What we are willing to produce regardless of what the receiver allows;
/// the two are combined by taking the stricter of the two.
pub const SENDER_MIN_WIDTH: i32 = 180;
pub const SENDER_MIN_HEIGHT: i32 = 180;
pub const SENDER_MAX_WIDTH: i32 = 1920;
pub const SENDER_MAX_HEIGHT: i32 = 1080;
pub const SENDER_MAX_FPS: i32 = 30;
pub const SENDER_MIN_FPS: i32 = 5;
/// The starting video bitrate, which is also the ceiling.
pub const START_VIDEO_BITRATE_BPS: i32 = 5_000_000;
pub const SENDER_MAX_VIDEO_BITRATE_BPS: i32 = 5_000_000;
pub const SENDER_AUDIO_BITRATE_BPS: i32 = 128_000;
pub const SENDER_AUDIO_SAMPLE_RATE: i32 = 48_000;
pub const SENDER_AUDIO_CHANNELS: i32 = 2;

/// The defaults for whatever the ANSWER leaves out. Receivers commonly send
/// no constraints at all, so these are the usual path rather than a rare
/// fallback.
pub const DEFAULT_VIDEO_MIN_BITRATE_BPS: i32 = 300_000;
pub const DEFAULT_VIDEO_MAX_BITRATE_BPS: i32 = 62_500_000;
pub const DEFAULT_AUDIO_MIN_BITRATE_BPS: i32 = 32_000;
pub const DEFAULT_AUDIO_MAX_BITRATE_BPS: i32 = 256_000;
pub const DEFAULT_AUDIO_MIN_SAMPLE_RATE: i32 = 16_000;
pub const DEFAULT_MAX_DELAY_MS: i32 = 400;
/// 1920 x 1080 at 30 fps.
pub const DEFAULT_MAX_PIXELS_PER_SECOND: i64 = 62_208_000;

#[derive(Clone, Copy, PartialEq, Eq, Structural, Debug)]
pub struct BitRateLimits {
    pub min_bps: i32,
    pub max_bps: i32,
}

#[derive(Clone, Copy, PartialEq, Eq, Debug)]
pub struct VideoConstraints {
    pub bit_rate: BitRateLimits,
    pub min: (i32, i32),
    pub max: (i32, i32),
    pub max_fps: i32,
    /// Caps width x height x fps independently of the dimensions, so 1080p and
    /// 30fps can each be allowed while their product is not.
    pub max_pixels_per_second: i64,
    pub max_delay_ms: i32,
}

#[derive(Clone, Copy, PartialEq, Eq, Structural, Debug)]
pub struct AudioConstraints {
    pub bit_rate: BitRateLimits,
    pub max_sample_rate: i32,
    pub min_sample_rate: i32,
    pub max_channels: i32,
    pub max_delay_ms: i32,
}

#[derive(Clone, Copy, PartialEq, Eq, Debug)]
pub struct Constraints {
    pub video: VideoConstraints,
    pub audio: AudioConstraints,
}

/// The video envelope used when the receiver says nothing.
pub open spec fn default_video() -> VideoConstraints {
    VideoConstraints {
        bit_rate: BitRateLimits {
            min_bps: DEFAULT_VIDEO_MIN_BITRATE_BPS,
            max_bps: DEFAULT_VIDEO_MAX_BITRATE_BPS,
        },
        min: (320, 180),
        max: (SENDER_MAX_WIDTH, SENDER_MAX_HEIGHT),
        max_fps: SENDER_MAX_FPS,
        max_pixels_per_second: DEFAULT_MAX_PIXELS_PER_SECOND,
        max_delay_ms: DEFAULT_MAX_DELAY_MS,
    }
}

/// The audio envelope used when the receiver says nothing.
pub open spec fn default_audio() -> AudioConstraints {
    AudioConstraints {
        bit_rate: BitRateLimits {
            min_bps: DEFAULT_AUDIO_MIN_BITRATE_BPS,
            max_bps: DEFAULT_AUDIO_MAX_BITRATE_BPS,
        },
        max_sample_rate: SENDER_AUDIO_SAMPLE_RATE,
        min_sample_rate: DEFAULT_AUDIO_MIN_SAMPLE_RATE,
        max_channels: SENDER_AUDIO_CHANNELS,
        max_delay_ms: DEFAULT_MAX_DELAY_MS,
    }
}

impl Default for VideoConstraints {
    fn default() -> (r: Self)
        ensures
            r == default_video(),
    {
        VideoConstraints {
            bit_rate: BitRateLimits {
                min_bps: DEFAULT_VIDEO_MIN_BITRATE_BPS,
                max_bps: DEFAULT_VIDEO_MAX_BITRATE_BPS,
            },
            min: (320, 180),
            max: (SENDER_MAX_WIDTH, SENDER_MAX_HEIGHT),
            max_fps: SENDER_MAX_FPS,
            max_pixels_per_second: DEFAULT_MAX_PIXELS_PER_SECOND,
            max_delay_ms: DEFAULT_MAX_DELAY_MS,
        }
    }
}

impl Default for AudioConstraints {
    fn default() -> (r: Self)
        ensures
            r == default_audio(),
    {
        AudioConstraints {
            bit_rate: BitRateLimits {
                min_bps: DEFAULT_AUDIO_MIN_BITRATE_BPS,
                max_bps: DEFAULT_AUDIO_MAX_BITRATE_BPS,
            },
            max_sample_rate: SENDER_AUDIO_SAMPLE_RATE,
            min_sample_rate: DEFAULT_AUDIO_MIN_SAMPLE_RATE,
            max_channels: SENDER_AUDIO_CHANNELS,
            max_delay_ms: DEFAULT_MAX_DELAY_MS,
        }
    }
}

impl Default for Constraints {
    fn default() -> (r: Self)
        ensures
            r == (Constraints { video: default_video(), audio: default_audio() }),
    {
        Constraints { video: VideoConstraints::default(), audio: AudioConstraints::default() }
    }
}

/// The values the pipeline is actually built from.
#[derive(Clone, Copy, PartialEq, Eq, Debug)]
pub struct Resolved {
    pub size: (i32, i32),
    pub fps: i32,
    pub video_bitrate_kbps: i32,
    pub audio_bitrate_bps: i32,
    /// The range the bitrate control loop may move within.
    pub video_min_bitrate_bps: i32,
    pub video_max_bitrate_bps: i32,
    pub sample_rate: i32,
    pub channels: i32,
    pub playout_delay_ms: i32,
}

pub open spec fn min(a: int, b: int) -> int {
    if a <= b {
        a
    } else {
        b
    }
}

pub open spec fn max(a: int, b: int) -> int {
    if a >= b {
        a
    } else {
        b
    }
}

/// `x` clamped into `[lo, hi]` (for `lo <= hi`).
pub open spec fn clamp(x: int, lo: int, hi: int) -> int {
    if x < lo {
        lo
    } else if x > hi {
        hi
    } else {
        x
    }
}

/// `x` rounded down to an even number (for `x >= 0`).
pub open spec fn even(x: int) -> int {
    x - x % 2
}

/// `other * to / from`, or 2 when it does not fit an `i32`.
pub open spec fn scale(other: int, to: int, from: int) -> int {
    let v = other * to / from;
    if v > i32::MAX {
        2
    } else {
        v
    }
}

/// `size` scaled down to fit inside `max` without changing its aspect ratio;
/// both dimensions are taken as at least 2.
pub open spec fn spec_fit_inside(size: (i32, i32), max_size: (i32, i32)) -> (int, int) {
    let w = max(size.0 as int, 2);
    let h = max(size.1 as int, 2);
    let max_w = max(max_size.0 as int, 2);
    let max_h = max(max_size.1 as int, 2);
    if w <= max_w && h <= max_h {
        (w, h)
    } else {
        let by_width = (max_w, scale(h, max_w, w));
        let by_height = (scale(w, max_h, h), max_h);
        let fitted = if by_width.1 <= max_h {
            by_width
        } else {
            by_height
        };
        (even(max(fitted.0, 2)), even(max(fitted.1, 2)))
    }
}

fn max_i32(a: i32, b: i32) -> (r: i32)
    ensures
        r == max(a as int, b as int),
{
    if a >= b {
        a
    } else {
        b
    }
}

fn min_i32(a: i32, b: i32) -> (r: i32)
    ensures
        r == min(a as int, b as int),
{
    if a <= b {
        a
    } else {
        b
    }
}

fn clamp_i32(x: i32, lo: i32, hi: i32) -> (r: i32)
    requires
        lo <= hi,
    ensures
        r == clamp(x as int, lo as int, hi as int),
{
    if x < lo {
        lo
    } else if x > hi {
        hi
    } else {
        x
    }
}

/// `x` rounded down to an even number.
fn round_even(x: i32) -> (r: i32)
    requires
        x >= 0,
    ensures
        r == even(x as int),
{
    let r = x & !1i32;
    assert(x & !1i32 == x - x % 2) by (bit_vector)
        requires
            x >= 0,
    ;
    r
}

fn scale_i32(other: i32, to: i32, from: i32) -> (r: i32)
    requires
        2 <= other,
        2 <= to,
        2 <= from,
    ensures
        r == scale(other as int, to as int, from as int),
        r >= 0,
{
    assert(0 <= other * to <= 0x4000_0000_0000_0000) by (nonlinear_arith)
        requires
            2 <= other < 0x8000_0000,
            2 <= to < 0x8000_0000,
    ;
    let v = (other as i64) * (to as i64) / (from as i64);
    if v > i32::MAX as i64 {
        2
    } else {
        v as i32
    }
}

/// Scales `size` down to fit inside `max` without changing its aspect ratio.
pub fn fit_inside(size: (i32, i32), max_size: (i32, i32)) -> (r: (i32, i32))
    ensures
        (r.0 as int, r.1 as int) == spec_fit_inside(size, max_size),
{
    let w = max_i32(size.0, 2);
    let h = max_i32(size.1, 2);
    let max_w = max_i32(max_size.0, 2);
    let max_h = max_i32(max_size.1, 2);
    if w <= max_w && h <= max_h {
        return (w, h);
    }
    // Integer maths throughout: the encoders want even dimensions anyway.
    let by_width = (max_w, scale_i32(h, max_w, w));
    let by_height = (scale_i32(w, max_h, h), max_h);
    let fitted = if by_width.1 <= max_h {
        by_width
    } else {
        by_height
    };
    (round_even(max_i32(fitted.0, 2)), round_even(max_i32(fitted.1, 2)))
}

/// `value` in thousands, saturating at the `i32` range.
pub open spec fn thousand_times(kbps: i32) -> int {
    let v = kbps * 1000;
    if v > i32::MAX {
        i32::MAX as int
    } else if v < i32::MIN {
        i32::MIN as int
    } else {
        v
    }
}

/// The largest dimensions the stream may have: the receiver's maximum,
/// clamped into our own limits.
pub open spec fn envelope_max(v: VideoConstraints) -> (int, int) {
    (
        clamp(v.max.0 as int, SENDER_MIN_WIDTH as int, SENDER_MAX_WIDTH as int),
        clamp(v.max.1 as int, SENDER_MIN_HEIGHT as int, SENDER_MAX_HEIGHT as int),
    )
}

/// The resolved size: the request (or the capture) fitted inside the
/// envelope, raised to the receiver's minimum where that fits, even.
pub open spec fn spec_resolved_size(
    requested_size: Option<(i32, i32)>,
    captured: (i32, i32),
    v: VideoConstraints,
) -> (int, int) {
    let max_size = envelope_max(v);
    let fitted = spec_fit_inside(
        match requested_size {
            Some(s) => s,
            None => captured,
        },
        (max_size.0 as i32, max_size.1 as i32),
    );
    (
        even(max(fitted.0, min(v.min.0 as int, max_size.0))),
        even(max(fitted.1, min(v.min.1 as int, max_size.1))),
    )
}

/// The highest frame rate we and the receiver allow.
pub open spec fn envelope_max_fps(v: VideoConstraints) -> int {
    clamp(v.max_fps as int, SENDER_MIN_FPS as int, SENDER_MAX_FPS as int)
}

/// The resolved frame rate: the request (or the maximum) clamped into the
/// envelope, then lowered so that `size` at that rate stays within the
/// receiver's pixel rate, but never below the minimum frame rate.
pub open spec fn spec_resolved_fps(
    requested_fps: Option<i32>,
    size: (int, int),
    v: VideoConstraints,
) -> int {
    let max_fps = envelope_max_fps(v);
    let fps = clamp(
        match requested_fps {
            Some(f) => f as int,
            None => max_fps,
        },
        SENDER_MIN_FPS as int,
        max_fps,
    );
    let pixels = size.0 * size.1;
    if pixels > 0 && pixels * fps > v.max_pixels_per_second {
        let quotient = div_toward_zero(v.max_pixels_per_second as int, pixels);
        let allowed = if i32::MIN <= quotient <= i32::MAX {
            quotient
        } else {
            SENDER_MIN_FPS as int
        };
        clamp(allowed, SENDER_MIN_FPS as int, fps)
    } else {
        fps
    }
}

/// The resolved stream parameters for the user's settings, the capture size
/// and the receiver's constraints.
pub open spec fn spec_resolve(
    requested_size: Option<(i32, i32)>,
    requested_fps: Option<i32>,
    requested_video_kbps: Option<i32>,
    requested_audio_kbps: Option<i32>,
    captured: (i32, i32),
    constraints: Constraints,
) -> Resolved {
    let v = constraints.video;
    let a = constraints.audio;
    let size = spec_resolved_size(requested_size, captured, v);
    let fps = spec_resolved_fps(requested_fps, size, v);
    let video_max = min(v.bit_rate.max_bps as int, SENDER_MAX_VIDEO_BITRATE_BPS as int);
    let video_min = min(v.bit_rate.min_bps as int, video_max);
    let video_bps = clamp(
        match requested_video_kbps {
            Some(kbps) => thousand_times(kbps),
            None => START_VIDEO_BITRATE_BPS as int,
        },
        video_min,
        video_max,
    );
    let audio_max = min(a.bit_rate.max_bps as int, DEFAULT_AUDIO_MAX_BITRATE_BPS as int);
    let audio_min = min(a.bit_rate.min_bps as int, audio_max);
    let audio_bps = clamp(
        match requested_audio_kbps {
            Some(kbps) => thousand_times(kbps),
            None => SENDER_AUDIO_BITRATE_BPS as int,
        },
        audio_min,
        audio_max,
    );
    Resolved {
        size: (size.0 as i32, size.1 as i32),
        fps: fps as i32,
        video_bitrate_kbps: max(div_toward_zero(video_bps, 1000), 1) as i32,
        video_min_bitrate_bps: video_min as i32,
        video_max_bitrate_bps: video_max as i32,
        audio_bitrate_bps: audio_bps as i32,
        sample_rate: clamp(
            SENDER_AUDIO_SAMPLE_RATE as int,
            min(a.min_sample_rate as int, a.max_sample_rate as int),
            a.max_sample_rate as int,
        ) as i32,
        channels: clamp(SENDER_AUDIO_CHANNELS as int, 1, max(a.max_channels as int, 1)) as i32,
        playout_delay_ms: max(min(v.max_delay_ms as int, a.max_delay_ms as int), 1) as i32,
    }
}

/// Whether the receiver's audio sample-rate range is non-empty. When it is
/// not (a maximum below our default minimum), the maximum wins.
pub open spec fn audio_rates_consistent(constraints: Constraints) -> bool {
    constraints.audio.min_sample_rate <= constraints.audio.max_sample_rate
}

fn thousand_times_i32(kbps: i32) -> (r: i32)
    ensures
        r == thousand_times(kbps),
{
    let v = (kbps as i64) * 1000;
    if v > i32::MAX as i64 {
        i32::MAX
    } else if v < i32::MIN as i64 {
        i32::MIN
    } else {
        v as i32
    }
}

/// `a / b` rounded towards zero, for `b > 0`.
fn div_toward_zero_i64(a: i64, b: i64) -> (r: i64)
    requires
        b > 0,
    ensures
        r == div_toward_zero(a as int, b as int),
{
    let wide = a as i128;
    let q: i128 = if wide >= 0 {
        wide / (b as i128)
    } else {
        -((-wide) / (b as i128))
    };
    assert(-0x8000_0000_0000_0000 <= q <= 0x7fff_ffff_ffff_ffff) by (nonlinear_arith)
        requires
            q == div_toward_zero(a as int, b as int),
            b > 0,
            -0x8000_0000_0000_0000 <= a <= 0x7fff_ffff_ffff_ffff,
    {
        let ai = a as int;
        let bi = b as int;
        if ai >= 0 {
            assert(0 <= ai / bi <= ai);
        } else {
            assert(0 <= (-ai) / bi <= -ai);
        }
    }
    q as i64
}

/// Combines the user's settings (`None` meaning automatic), our own limits and
/// the receiver's constraints. The receiver always wins: a preference above
/// what it allows would produce a stream it cannot decode.
pub fn resolve(
    requested_size: Option<(i32, i32)>,
    requested_fps: Option<i32>,
    requested_video_kbps: Option<i32>,
    requested_audio_kbps: Option<i32>,
    captured: (i32, i32),
    constraints: &Constraints,
) -> (r: Resolved)
    ensures
        r == spec_resolve(
            requested_size,
            requested_fps,
            requested_video_kbps,
            requested_audio_kbps,
            captured,
            *constraints,
        ),
{
    let v = &constraints.video;
    let max_size = (
        clamp_i32(v.max.0, SENDER_MIN_WIDTH, SENDER_MAX_WIDTH),
        clamp_i32(v.max.1, SENDER_MIN_HEIGHT, SENDER_MAX_HEIGHT),
    );

    // Automatic keeps the captured size, only shrinking it to fit the envelope.
    let requested = match requested_size {
        Some(s) => s,
        None => captured,
    };
    let fitted = fit_inside(requested, max_size);
    let size = (
        round_even(max_i32(fitted.0, min_i32(v.min.0, max_size.0))),
        round_even(max_i32(fitted.1, min_i32(v.min.1, max_size.1))),
    );

    let max_fps = clamp_i32(v.max_fps, SENDER_MIN_FPS, SENDER_MAX_FPS);
    let wanted_fps = match requested_fps {
        Some(f) => f,
        None => max_fps,
    };
    let mut fps = clamp_i32(wanted_fps, SENDER_MIN_FPS, max_fps);

    // maxPixelsPerSecond is a separate limit from the dimensions; spend it on
    // frame rate first, which degrades more gracefully than resolution.
    assert(0 <= size.0 * size.1 <= 0x4000_0000_0000_0000) by (nonlinear_arith)
        requires
            0 <= size.0 < 0x8000_0000,
            0 <= size.1 < 0x8000_0000,
    ;
    let pixels = (size.0 as i64) * (size.1 as i64);
    let over_budget = if pixels > 0 {
        assert(-0x1_0000_0000_0000_0000_0000_0000 <= pixels * fps <= 0x1_0000_0000_0000_0000_0000_0000) by (nonlinear_arith)
            requires
                0 <= pixels <= 0x4000_0000_0000_0000,
                -0x8000_0000 <= fps < 0x8000_0000,
        ;
        let rate = (pixels as i128) * (fps as i128);
        assert(rate == pixels * fps);
        rate > v.max_pixels_per_second as i128
    } else {
        false
    };
    if over_budget {
        let quotient = div_toward_zero_i64(v.max_pixels_per_second, pixels);
        let allowed = if i32::MIN as i64 <= quotient && quotient <= i32::MAX as i64 {
            quotient as i32
        } else {
            SENDER_MIN_FPS
        };
        fps = clamp_i32(allowed, SENDER_MIN_FPS, fps);
    }

    let video_max = min_i32(v.bit_rate.max_bps, SENDER_MAX_VIDEO_BITRATE_BPS);
    let video_min = min_i32(v.bit_rate.min_bps, video_max);
    let wanted_video = match requested_video_kbps {
        Some(kbps) => thousand_times_i32(kbps),
        None => START_VIDEO_BITRATE_BPS,
    };
    let video_bps = clamp_i32(wanted_video, video_min, video_max);

    let a = &constraints.audio;
    let audio_max = min_i32(a.bit_rate.max_bps, DEFAULT_AUDIO_MAX_BITRATE_BPS);
    let audio_min = min_i32(a.bit_rate.min_bps, audio_max);
    let wanted_audio = match requested_audio_kbps {
        Some(kbps) => thousand_times_i32(kbps),
        None => SENDER_AUDIO_BITRATE_BPS,
    };
    let audio_bps = clamp_i32(wanted_audio, audio_min, audio_max);

    let video_kbps = div_toward_zero_i64(video_bps as i64, 1000);
    let video_kbps = if video_kbps < 1 {
        1
    } else {
        video_kbps as i32
    };

    Resolved {
        size,
        fps,
        video_bitrate_kbps: video_kbps,
        video_min_bitrate_bps: video_min,
        video_max_bitrate_bps: video_max,
        audio_bitrate_bps: audio_bps,
        sample_rate: clamp_i32(
            SENDER_AUDIO_SAMPLE_RATE,
            min_i32(a.min_sample_rate, a.max_sample_rate),
            a.max_sample_rate,
        ),
        channels: clamp_i32(SENDER_AUDIO_CHANNELS, 1, max_i32(a.max_channels, 1)),
        playout_delay_ms: max_i32(min_i32(v.max_delay_ms, a.max_delay_ms), 1),
    }
}


/// A JSON value read as an `i32`: an integer in range, or a string holding
/// one before any `/` (Cast sends some of these as "30" or "30000/1001"),
/// with white space around it allowed.
pub open spec fn spec_as_i32(value: JsonValue) -> Option<i32> {
    let from_integer = match spec_as_i64(value) {
        Some(i) => if i32::MIN <= i <= i32::MAX {
            Some(i as i32)
        } else {
            None
        },
        None => None,
    };
    if from_integer is Some {
        from_integer
    } else {
        match spec_as_str(value) {
            Some(text) => match spec_parse_int(trim(before_first(text, '/')), true) {
                Some(v) => if i32::MIN <= v <= i32::MAX {
                    Some(v as i32)
                } else {
                    None
                },
                None => None,
            },
            None => None,
        }
    }
}

/// A JSON value read as an `i32`: an integer in range, or a string holding
/// one before any `/`.
pub fn as_i32(value: &JsonValue) -> (r: Option<i32>)
    ensures
        r == spec_as_i32(*value),
{
    match value.as_i64() {
        Some(i) => {
            if i32::MIN as i64 <= i && i <= i32::MAX as i64 {
                return Some(i as i32);
            }
        },
        None => {},
    }
    match value.as_str() {
        Some(text) => {
            let chars = chars_of(text);
            let head = chars_before(chars.as_slice(), '/');
            let number = trim_chars(head.as_slice());
            match parse_small_int(number.as_slice(), true) {
                Some(v) => if i32::MIN as i64 <= v && v <= i32::MAX as i64 {
                    Some(v as i32)
                } else {
                    None
                },
                None => None,
            }
        },
        None => None,
    }
}

/// The member `key` of `value` read as an `i32`.
pub open spec fn member_i32(value: JsonValue, key: Seq<char>) -> Option<i32> {
    match spec_get(value, key) {
        Some(member) => spec_as_i32(member),
        None => None,
    }
}

fn get_i32(value: &JsonValue, key: &str) -> (r: Option<i32>)
    ensures
        r == member_i32(*value, key@),
{
    match value.get(key) {
        Some(member) => as_i32(member),
        None => None,
    }
}

/// A `{width, height}` object read as dimensions.
pub open spec fn spec_dimensions(value: JsonValue) -> Option<(i32, i32)> {
    match (member_i32(value, "width"@), member_i32(value, "height"@)) {
        (Some(w), Some(h)) => Some((w, h)),
        _ => None,
    }
}

fn dimensions(value: &JsonValue) -> (r: Option<(i32, i32)>)
    ensures
        r == spec_dimensions(*value),
{
    match get_i32(value, "width") {
        Some(w) => match get_i32(value, "height") {
            Some(h) => Some((w, h)),
            None => None,
        },
        None => None,
    }
}

/// A pixel rate: a finite positive number, capped at 9e18, truncated.
pub open spec fn spec_pixels_per_second(value: JsonValue) -> Option<i64> {
    match value {
        JsonValue::Number(n) => n.positive_floor,
        _ => None,
    }
}

fn pixels_per_second(value: &JsonValue) -> (r: Option<i64>)
    ensures
        r == spec_pixels_per_second(*value),
{
    match value {
        JsonValue::Number(n) => n.positive_floor,
        _ => None,
    }
}

/// `Some(x)` when `x > 0`.
pub open spec fn positive(x: Option<i32>) -> Option<i32> {
    match x {
        Some(v) => if v > 0 {
            Some(v)
        } else {
            None
        },
        None => None,
    }
}

/// The video constraints of an ANSWER's `video` block: each field that is
/// present and readable replaces its default.
pub open spec fn spec_parse_video(video: JsonValue) -> VideoConstraints {
    let d = default_video();
    let min_bps = match member_i32(video, "minBitRate"@) {
        Some(m) => max(m as int, 1) as i32,
        None => d.bit_rate.min_bps,
    };
    let max_bps = match member_i32(video, "maxBitRate"@) {
        Some(m) => max(m as int, min_bps as int) as i32,
        None => d.bit_rate.max_bps,
    };
    let min_dims = match spec_get(video, "minDimensions"@) {
        Some(dims) => match spec_dimensions(dims) {
            Some(size) => size,
            None => d.min,
        },
        None => d.min,
    };
    let max_dims = match spec_get(video, "maxDimensions"@) {
        Some(dims) => match spec_dimensions(dims) {
            Some(size) => size,
            None => d.max,
        },
        None => d.max,
    };
    let max_fps = match spec_get(video, "maxDimensions"@) {
        Some(dims) => match positive(member_i32(dims, "frameRate"@)) {
            Some(fps) => fps,
            None => d.max_fps,
        },
        None => d.max_fps,
    };
    let pixels = match spec_get(video, "maxPixelsPerSecond"@) {
        Some(p) => match spec_pixels_per_second(p) {
            Some(rate) => rate,
            None => d.max_pixels_per_second,
        },
        None => d.max_pixels_per_second,
    };
    let delay = match member_i32(video, "maxDelay"@) {
        Some(ms) => ms,
        None => d.max_delay_ms,
    };
    VideoConstraints {
        bit_rate: BitRateLimits { min_bps, max_bps },
        min: min_dims,
        max: max_dims,
        max_fps,
        max_pixels_per_second: pixels,
        max_delay_ms: delay,
    }
}

/// The audio constraints of an ANSWER's `audio` block: each field that is
/// present and readable (and positive, for the sample rate and channels)
/// replaces its default.
pub open spec fn spec_parse_audio(audio: JsonValue) -> AudioConstraints {
    let d = default_audio();
    let min_bps = match member_i32(audio, "minBitRate"@) {
        Some(m) => max(m as int, 1) as i32,
        None => d.bit_rate.min_bps,
    };
    let max_bps = match member_i32(audio, "maxBitRate"@) {
        Some(m) => max(m as int, min_bps as int) as i32,
        None => d.bit_rate.max_bps,
    };
    let rate = match positive(member_i32(audio, "maxSampleRate"@)) {
        Some(r) => r,
        None => d.max_sample_rate,
    };
    let channels = match positive(member_i32(audio, "maxChannels"@)) {
        Some(c) => c,
        None => d.max_channels,
    };
    let delay = match member_i32(audio, "maxDelay"@) {
        Some(ms) => ms,
        None => d.max_delay_ms,
    };
    AudioConstraints {
        bit_rate: BitRateLimits { min_bps, max_bps },
        max_sample_rate: rate,
        min_sample_rate: d.min_sample_rate,
        max_channels: channels,
        max_delay_ms: delay,
    }
}

/// The constraints an ANSWER carries: its optional `constraints` block read
/// over the defaults.
pub open spec fn spec_parse(answer: JsonValue) -> Constraints {
    match spec_get(answer, "constraints"@) {
        Some(block) => Constraints {
            video: match spec_get(block, "video"@) {
                Some(video) => spec_parse_video(video),
                None => default_video(),
            },
            audio: match spec_get(block, "audio"@) {
                Some(audio) => spec_parse_audio(audio),
                None => default_audio(),
            },
        },
        None => Constraints { video: default_video(), audio: default_audio() },
    }
}

fn parse_video(video: &JsonValue) -> (r: VideoConstraints)
    ensures
        r == spec_parse_video(*video),
{
    let mut v = VideoConstraints::default();
    match get_i32(video, "minBitRate") {
        Some(min) => {
            v.bit_rate.min_bps = if min >= 1 {
                min
            } else {
                1
            };
        },
        None => {},
    }
    match get_i32(video, "maxBitRate") {
        Some(max) => {
            v.bit_rate.max_bps = if max >= v.bit_rate.min_bps {
                max
            } else {
                v.bit_rate.min_bps
            };
        },
        None => {},
    }
    match video.get("minDimensions") {
        Some(dims) => match dimensions(dims) {
            Some(min) => {
                v.min = min;
            },
            None => {},
        },
        None => {},
    }
    match video.get("maxDimensions") {
        Some(dims) => {
            match dimensions(dims) {
                Some(max) => {
                    v.max = max;
                },
                None => {},
            }
            match get_i32(dims, "frameRate") {
                Some(fps) => {
                    if fps > 0 {
                        v.max_fps = fps;
                    }
                },
                None => {},
            }
        },
        None => {},
    }
    match video.get("maxPixelsPerSecond") {
        Some(p) => match pixels_per_second(p) {
            Some(pixels) => {
                v.max_pixels_per_second = pixels;
            },
            None => {},
        },
        None => {},
    }
    match get_i32(video, "maxDelay") {
        Some(delay) => {
            v.max_delay_ms = delay;
        },
        None => {},
    }
    v
}

fn parse_audio(audio: &JsonValue) -> (r: AudioConstraints)
    ensures
        r == spec_parse_audio(*audio),
{
    let mut a = AudioConstraints::default();
    match get_i32(audio, "minBitRate") {
        Some(min) => {
            a.bit_rate.min_bps = if min >= 1 {
                min
            } else {
                1
            };
        },
        None => {},
    }
    match get_i32(audio, "maxBitRate") {
        Some(max) => {
            a.bit_rate.max_bps = if max >= a.bit_rate.min_bps {
                max
            } else {
                a.bit_rate.min_bps
            };
        },
        None => {},
    }
    match get_i32(audio, "maxSampleRate") {
        Some(rate) => {
            if rate > 0 {
                a.max_sample_rate = rate;
            }
        },
        None => {},
    }
    match get_i32(audio, "maxChannels") {
        Some(channels) => {
            if channels > 0 {
                a.max_channels = channels;
            }
        },
        None => {},
    }
    match get_i32(audio, "maxDelay") {
        Some(delay) => {
            a.max_delay_ms = delay;
        },
        None => {},
    }
    a
}

/// Reads the optional `constraints` block of an ANSWER. Anything missing or
/// unparseable keeps its default, so a receiver that sends none - which is
/// common - still yields a usable envelope.
pub fn parse(answer: &JsonValue) -> (r: Constraints)
    ensures
        r == spec_parse(*answer),
{
    let block = match answer.get("constraints") {
        Some(block) => block,
        None => return Constraints::default(),
    };
    let video = match block.get("video") {
        Some(video) => parse_video(video),
        None => VideoConstraints::default(),
    };
    let audio = match block.get("audio") {
        Some(audio) => parse_audio(audio),
        None => AudioConstraints::default(),
    };
    Constraints { video, audio }
}

proof fn lemma_fit_inside_bounds(size: (i32, i32), max_size: (i32, i32))
    requires
        max_size.0 >= 2,
        max_size.1 >= 2,
    ensures
        2 <= spec_fit_inside(size, max_size).0 <= max_size.0,
        2 <= spec_fit_inside(size, max_size).1 <= max_size.1,
{
    let w = max(size.0 as int, 2);
    let h = max(size.1 as int, 2);
    let max_w = max_size.0 as int;
    let max_h = max_size.1 as int;
    if !(w <= max_w && h <= max_h) {
        let s1 = scale(h, max_w, w);
        let v1 = h * max_w / w;
        assert(v1 >= 0) by (nonlinear_arith)
            requires
                v1 == h * max_w / w,
                h >= 2,
                max_w >= 2,
                w >= 2,
        ;
        if s1 > max_h {
            assert(v1 <= i32::MAX && v1 > max_h);
            let v2 = w * max_h / h;
            assert(0 <= v2 <= max_w) by (nonlinear_arith)
                requires
                    v1 == h * max_w / w,
                    v2 == w * max_h / h,
                    v1 > max_h,
                    h >= 2,
                    w >= 2,
                    max_h >= 2,
                    max_w >= 2,
            {
                assert(h * max_w >= (max_h + 1) * w);
                assert(w * max_h < h * max_w);
            }
        }
    }
}

/// The receiver always wins. Whatever the user asked for, the resolved
/// stream stays inside the envelope of the receiver's constraints and our
/// own limits: the size is even, at least 2 by 2 and within the maximum
/// dimensions; the frame rate is between the minimum and the maximum frame
/// rate (and no higher than a requested one, unless that is below the
/// minimum); when the receiver's pixel rate allows the minimum frame rate at
/// the resolved size, the resolved size at the resolved frame rate stays
/// within it; both bitrates lie in the ranges the receiver and we allow; the
/// sample rate, channel count and playout delay respect the receiver's
/// limits (the sample rate never exceeds the receiver's maximum, and meets
/// its minimum whenever the range is not empty).
pub proof fn lemma_resolve_respects_receiver(
    requested_size: Option<(i32, i32)>,
    requested_fps: Option<i32>,
    requested_video_kbps: Option<i32>,
    requested_audio_kbps: Option<i32>,
    captured: (i32, i32),
    constraints: Constraints,
)
    ensures
        ({
            let r = spec_resolve(
                requested_size,
                requested_fps,
                requested_video_kbps,
                requested_audio_kbps,
                captured,
                constraints,
            );
            let v = constraints.video;
            let a = constraints.audio;
            &&& 2 <= r.size.0 <= envelope_max(v).0
            &&& 2 <= r.size.1 <= envelope_max(v).1
            &&& r.size.0 % 2 == 0 && r.size.1 % 2 == 0
            &&& SENDER_MIN_FPS <= r.fps <= envelope_max_fps(v)
            &&& (requested_fps matches Some(f) ==> r.fps <= max(f as int, SENDER_MIN_FPS as int))
            &&& (v.max_pixels_per_second >= SENDER_MIN_FPS * (r.size.0 * r.size.1) ==> r.size.0
                * r.size.1 * r.fps <= v.max_pixels_per_second)
            &&& r.video_min_bitrate_bps <= r.video_max_bitrate_bps
            &&& r.video_max_bitrate_bps <= v.bit_rate.max_bps
            &&& r.video_max_bitrate_bps <= SENDER_MAX_VIDEO_BITRATE_BPS
            &&& r.video_min_bitrate_bps <= v.bit_rate.min_bps
            &&& r.video_bitrate_kbps >= 1
            &&& r.video_bitrate_kbps * 1000 <= max(r.video_max_bitrate_bps as int, 1000)
            &&& r.audio_bitrate_bps <= a.bit_rate.max_bps
            &&& r.audio_bitrate_bps <= DEFAULT_AUDIO_MAX_BITRATE_BPS
            &&& (a.bit_rate.min_bps <= a.bit_rate.max_bps && a.bit_rate.min_bps
                <= DEFAULT_AUDIO_MAX_BITRATE_BPS ==> a.bit_rate.min_bps <= r.audio_bitrate_bps)
            &&& r.sample_rate <= a.max_sample_rate
            &&& (audio_rates_consistent(constraints) ==> a.min_sample_rate <= r.sample_rate)
            &&& 1 <= r.channels <= max(a.max_channels as int, 1)
            &&& 1 <= r.playout_delay_ms
            &&& (min(v.max_delay_ms as int, a.max_delay_ms as int) >= 1 ==> r.playout_delay_ms
                <= v.max_delay_ms && r.playout_delay_ms <= a.max_delay_ms)
        }),
{
    let v = constraints.video;
    let max_size = envelope_max(v);
    let requested = match requested_size {
        Some(s) => s,
        None => captured,
    };
    lemma_fit_inside_bounds(requested, (max_size.0 as i32, max_size.1 as i32));
    let size = spec_resolved_size(requested_size, captured, v);
    let max_fps = envelope_max_fps(v);
    let fps = clamp(
        match requested_fps {
            Some(f) => f as int,
            None => max_fps,
        },
        SENDER_MIN_FPS as int,
        max_fps,
    );
    let pixels = size.0 * size.1;
    assert(pixels >= 4) by (nonlinear_arith)
        requires
            pixels == size.0 * size.1,
            size.0 >= 2,
            size.1 >= 2,
    ;
    if pixels * fps > v.max_pixels_per_second {
        let quotient = div_toward_zero(v.max_pixels_per_second as int, pixels);
        if v.max_pixels_per_second >= SENDER_MIN_FPS * pixels {
            assert(quotient >= SENDER_MIN_FPS && pixels * quotient <= v.max_pixels_per_second)
                by (nonlinear_arith)
                requires
                    quotient == v.max_pixels_per_second as int / pixels,
                    v.max_pixels_per_second >= 5 * pixels,
                    pixels >= 4,
            ;
            let allowed = if i32::MIN <= quotient <= i32::MAX {
                quotient
            } else {
                SENDER_MIN_FPS as int
            };
            let final_fps = clamp(allowed, SENDER_MIN_FPS as int, fps);
            assert(pixels * final_fps <= v.max_pixels_per_second) by (nonlinear_arith)
                requires
                    final_fps <= allowed,
                    allowed == quotient || allowed == 5,
                    pixels * quotient <= v.max_pixels_per_second,
                    v.max_pixels_per_second >= 5 * pixels,
                    pixels >= 4,
                    final_fps >= 0,
            ;
        }
    }
}

/// A requested size that already fits - even, at least 2 by 2, within the
/// largest size we and the receiver allow and at least the receiver's
/// minimum - is the size the stream gets, whatever was captured.
pub proof fn lemma_resolve_keeps_a_fitting_request(
    requested: (i32, i32),
    requested_fps: Option<i32>,
    requested_video_kbps: Option<i32>,
    requested_audio_kbps: Option<i32>,
    captured: (i32, i32),
    constraints: Constraints,
)
    requires
        requested.0 % 2 == 0,
        requested.1 % 2 == 0,
        2 <= requested.0 <= envelope_max(constraints.video).0,
        2 <= requested.1 <= envelope_max(constraints.video).1,
        requested.0 >= constraints.video.min.0,
        requested.1 >= constraints.video.min.1,
    ensures
        spec_resolve(
            Some(requested),
            requested_fps,
            requested_video_kbps,
            requested_audio_kbps,
            captured,
            constraints,
        ).size == requested,
{
    let v = constraints.video;
    let max_size = envelope_max(v);
    assert(spec_fit_inside(requested, (max_size.0 as i32, max_size.1 as i32)) == (
        requested.0 as int,
        requested.1 as int,
    ));
    assert(even(requested.0 as int) == requested.0);
    assert(even(requested.1 as int) == requested.1);
}

/// When the user asks for a size, the capture size plays no part: two
/// captures give the same resolved stream.
pub proof fn lemma_resolve_request_overrides_capture(
    requested: (i32, i32),
    requested_fps: Option<i32>,
    requested_video_kbps: Option<i32>,
    requested_audio_kbps: Option<i32>,
    first_capture: (i32, i32),
    second_capture: (i32, i32),
    constraints: Constraints,
)
    ensures
        spec_resolve(
            Some(requested),
            requested_fps,
            requested_video_kbps,
            requested_audio_kbps,
            first_capture,
            constraints,
        ) == spec_resolve(
            Some(requested),
            requested_fps,
            requested_video_kbps,
            requested_audio_kbps,
            second_capture,
            constraints,
        ),
{
}

} // verus!
