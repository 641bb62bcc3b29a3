//! The HLS and progressive-audio pipelines: the settings a cast is encoded
//! with, the encoders chosen for them and the gst-launch descriptions built
//! from them. What `GStreamer` itself knows (which elements exist, which
//! fragments parse) reaches these functions as plain answers.

use vstd::prelude::*;

use crate::text::{
    chars_of, decimal, push_chars, push_decimal, push_signed_decimal, push_str, signed_decimal,
    str_equal, str_starts_with, trim, trim_chars, has_prefix,
};

verus! {

pub const PLAYLIST_NAME: &'static str = "stream.m3u8";

#[derive(Clone, Copy, PartialEq, Eq, Debug)]
pub struct StreamSettings {
    /// Cap the video size; None keeps the captured size.
    pub size: Option<(i32, i32)>,
    pub fps: i32,
    pub bitrate_kbps: i32,
}

/// The settings of a cast whose options set nothing.
pub open spec fn default_settings() -> StreamSettings {
    StreamSettings { size: Some((1280, 720)), fps: 20, bitrate_kbps: 4000 }
}

impl Default for StreamSettings {
    fn default() -> (r: Self)
        ensures
            r == default_settings(),
    {
        StreamSettings { size: Some((1280, 720)), fps: 20, bitrate_kbps: 4000 }
    }
}

/// `x` clamped into `[lo, hi]`.
pub open spec fn clamp(x: i32, lo: i32, hi: i32) -> i32 {
    if x < lo {
        lo
    } else if x > hi {
        hi
    } else {
        x
    }
}

/// The settings for the cast options `width`, `height`, `fps` and
/// `bitrate-kbps` (each `None` when absent or not an `i32`): a size only when
/// both dimensions are positive, the frame rate clamped to 10..=60 and the
/// bitrate to 1000..=20000 kbit/s; defaults for the rest.
pub open spec fn spec_from_options(
    width: Option<i32>,
    height: Option<i32>,
    fps: Option<i32>,
    bitrate_kbps: Option<i32>,
) -> StreamSettings {
    let d = default_settings();
    StreamSettings {
        size: match (width, height) {
            (Some(w), Some(h)) => if w > 0 && h > 0 {
                Some((w, h))
            } else {
                d.size
            },
            _ => d.size,
        },
        fps: match fps {
            Some(f) => clamp(f, 10, 60),
            None => d.fps,
        },
        bitrate_kbps: match bitrate_kbps {
            Some(b) => clamp(b, 1000, 20_000),
            None => d.bitrate_kbps,
        },
    }
}

fn clamp_i32(x: i32, lo: i32, hi: i32) -> (r: i32)
    ensures
        r == clamp(x, lo, hi),
{
    if x < lo {
        lo
    } else if x > hi {
        hi
    } else {
        x
    }
}

impl StreamSettings {
    /// The settings for the cast options.
    pub fn from_options(
        width: Option<i32>,
        height: Option<i32>,
        fps: Option<i32>,
        bitrate_kbps: Option<i32>,
    ) -> (r: Self)
        ensures
            r == spec_from_options(width, height, fps, bitrate_kbps),
    {
        let mut settings = Self::default();
        match (width, height) {
            (Some(w), Some(h)) => {
                if w > 0 && h > 0 {
                    settings.size = Some((w, h));
                }
            },
            _ => {},
        }
        match fps {
            Some(f) => {
                settings.fps = clamp_i32(f, 10, 60);
            },
            None => {},
        }
        match bitrate_kbps {
            Some(b) => {
                settings.bitrate_kbps = clamp_i32(b, 1000, 20_000);
            },
            None => {},
        }
        settings
    }
}

/// AAC encoders in order of preference.
pub open spec fn spec_aac_encoders() -> Seq<Seq<char>> {
    seq!["fdkaacenc"@, "avenc_aac"@, "voaacenc"@, "faac"@]
}

/// AAC encoders in order of preference; which ones exist depends on the
/// installed `GStreamer` plugin packages.
pub fn aac_encoders() -> (r: Vec<&'static str>)
    ensures
        r@.len() == 4,
        forall|i: int| 0 <= i < 4 ==> #[trigger] r@[i]@ == spec_aac_encoders()[i],
{
    vec!["fdkaacenc", "avenc_aac", "voaacenc", "faac"]
}

/// The first AAC encoder that is installed: `installed[i]` is whether
/// `aac_encoders()[i]` is in the `GStreamer` registry.
pub fn find_aac_encoder(installed: &[bool]) -> (r: Option<&'static str>)
    requires
        installed@.len() == 4,
    ensures
        (r is None) == (forall|i: int| 0 <= i < 4 ==> !installed@[i]),
        r matches Some(name) ==> exists|i: int|
            0 <= i < 4 && installed@[i] && name@ == spec_aac_encoders()[i] && forall|j: int|
                0 <= j < i ==> !installed@[j],
{
    let names = aac_encoders();
    let mut i: usize = 0;
    while i < 4
        invariant
            i <= 4,
            installed@.len() == 4,
            names@.len() == 4,
            forall|k: int| 0 <= k < 4 ==> #[trigger] names@[k]@ == spec_aac_encoders()[k],
            forall|j: int| 0 <= j < i ==> !installed@[j],
        decreases 4 - i,
    {
        if installed[i] {
            return Some(names[i]);
        }
        i += 1;
    }
    None
}

/// H.264 encoders for the HLS path, hardware first (VA-API, then NVENC), then
/// software `x264enc`.
pub open spec fn spec_h264_encoders() -> Seq<Seq<char>> {
    seq!["vah264enc"@, "vah264lpenc"@, "nvh264enc"@, "x264enc"@]
}

/// H.264 encoders for the HLS path, hardware first.
pub fn h264_encoders() -> (r: Vec<&'static str>)
    ensures
        r@.len() == 4,
        forall|i: int| 0 <= i < 4 ==> #[trigger] r@[i]@ == spec_h264_encoders()[i],
{
    vec!["vah264enc", "vah264lpenc", "nvh264enc", "x264enc"]
}

/// The software H.264 fragment.
pub open spec fn software_h264(bitrate_kbps: i32, key_int: i32) -> Seq<char> {
    "x264enc tune=zerolatency speed-preset=veryfast bitrate="@ + signed_decimal(
        bitrate_kbps as int,
    ) + " key-int-max="@ + signed_decimal(key_int as int) + " bframes=0"@
}

/// The fragment configuring the H.264 encoder `factory`.
pub open spec fn spec_h264_fragment(factory: Seq<char>, bitrate_kbps: i32, key_int: i32) -> Seq<
    char,
> {
    if factory == "x264enc"@ {
        software_h264(bitrate_kbps, key_int)
    } else if has_prefix(factory, "nv"@) {
        factory + " bitrate="@ + signed_decimal(bitrate_kbps as int) + " rc-mode=cbr gop-size="@
            + signed_decimal(key_int as int) + " bframes=0"@
    } else {
        factory + " bitrate="@ + signed_decimal(bitrate_kbps as int) + " rate-control=cbr key-int-max="@
            + signed_decimal(key_int as int)
    }
}

/// The fragment configuring the H.264 encoder `factory` for CBR at
/// `bitrate_kbps` with a keyframe every `key_int` frames.
pub fn h264_fragment(factory: &str, bitrate_kbps: i32, key_int: i32) -> (r: String)
    ensures
        r@ == spec_h264_fragment(factory@, bitrate_kbps, key_int),
{
    let mut s = String::new();
    if str_equal(factory, "x264enc") {
        push_str(&mut s, "x264enc tune=zerolatency speed-preset=veryfast bitrate=");
        push_signed_decimal(&mut s, bitrate_kbps as i64);
        push_str(&mut s, " key-int-max=");
        push_signed_decimal(&mut s, key_int as i64);
        push_str(&mut s, " bframes=0");
    } else if str_starts_with(factory, "nv") {
        push_str(&mut s, factory);
        push_str(&mut s, " bitrate=");
        push_signed_decimal(&mut s, bitrate_kbps as i64);
        push_str(&mut s, " rc-mode=cbr gop-size=");
        push_signed_decimal(&mut s, key_int as i64);
        push_str(&mut s, " bframes=0");
    } else {
        push_str(&mut s, factory);
        push_str(&mut s, " bitrate=");
        push_signed_decimal(&mut s, bitrate_kbps as i64);
        push_str(&mut s, " rate-control=cbr key-int-max=");
        push_signed_decimal(&mut s, key_int as i64);
    }
    s
}

/// The H.264 encoder for the HLS path: the fragment of the first candidate
/// that parses (`parses[i]` for `h264_encoders()[i]`), else the software one.
pub fn find_h264_encoder(bitrate_kbps: i32, key_int: i32, parses: &[bool]) -> (r: String)
    requires
        parses@.len() == 4,
    ensures
        (forall|i: int| 0 <= i < 4 ==> !parses@[i]) ==> r@ == software_h264(bitrate_kbps, key_int),
        forall|i: int|
            0 <= i < 4 && parses@[i] && (forall|j: int| 0 <= j < i ==> !parses@[j]) ==> r@
                == spec_h264_fragment(spec_h264_encoders()[i], bitrate_kbps, key_int),
{
    let names = h264_encoders();
    let mut i: usize = 0;
    while i < 4
        invariant
            i <= 4,
            parses@.len() == 4,
            names@.len() == 4,
            forall|k: int| 0 <= k < 4 ==> #[trigger] names@[k]@ == spec_h264_encoders()[k],
            forall|j: int| 0 <= j < i ==> !parses@[j],
        decreases 4 - i,
    {
        if parses[i] {
            return h264_fragment(names[i], bitrate_kbps, key_int);
        }
        i += 1;
    }
    h264_fragment("x264enc", bitrate_kbps, key_int)
}

/// The caps that fix the size, when the settings cap it.
pub open spec fn size_caps(size: Option<(i32, i32)>) -> Seq<char> {
    match size {
        Some((w, h)) => ",width="@ + signed_decimal(w as int) + ",height="@ + signed_decimal(
            h as int,
        ) + ",pixel-aspect-ratio=1/1"@,
        None => ""@,
    }
}

/// The gst-launch description writing a live HLS stream into `hls_dir`:
/// H.264 from the captured PipeWire node when `video` carries the (fd,
/// node id) pair, plus AAC system audio when `audio` names the pulse monitor
/// and the AAC encoder element.
pub open spec fn spec_launch_description(
    video: Option<(i32, u32)>,
    settings: StreamSettings,
    hls_dir: Seq<char>,
    audio: Option<(Seq<char>, Seq<char>)>,
    video_encoder: Seq<char>,
) -> Seq<char> {
    (match video {
        Some((fd, node_id)) => "pipewiresrc fd="@ + signed_decimal(fd as int) + " path="@
            + decimal(node_id as nat)
            + " do-timestamp=true keepalive-time=1000 resend-last=true ! queue leaky=downstream max-size-buffers=3 max-size-bytes=0 max-size-time=0 ! videoconvert ! videoscale ! videorate ! video/x-raw,framerate="@
            + signed_decimal(settings.fps as int) + "/1"@ + size_caps(settings.size) + " ! "@
            + video_encoder + " ! h264parse ! queue ! hls.video "@,
        None => ""@,
    }) + "hlssink2 name=hls target-duration=1 playlist-length=3 max-files=6 playlist-location="@
        + hls_dir + "/stream.m3u8 location="@ + hls_dir + "/segment%05d.ts"@ + match audio {
        Some((monitor, encoder)) => " pulsesrc device="@ + monitor
            + " provide-clock=false ! queue ! audioconvert ! audioresample ! "@ + encoder
            + " bitrate=128000 ! aacparse ! queue ! hls.audio"@,
        None => ""@,
    }
}

/// The gst-launch description of the HLS pipeline. Short segments keep both
/// startup and live lag low, and the source queue is small and leaky, so the
/// stream falls in quality rather than further behind live.
pub fn launch_description(
    video: Option<(i32, u32)>,
    settings: &StreamSettings,
    hls_dir: &str,
    audio: Option<(&str, &str)>,
    video_encoder: &str,
) -> (r: String)
    ensures
        r@ == spec_launch_description(
            video,
            *settings,
            hls_dir@,
            match audio {
                Some((m, e)) => Some((m@, e@)),
                None => None,
            },
            video_encoder@,
        ),
{
    let mut desc = String::new();
    match video {
        Some((fd, node_id)) => {
            push_str(&mut desc, "pipewiresrc fd=");
            push_signed_decimal(&mut desc, fd as i64);
            push_str(&mut desc, " path=");
            push_decimal(&mut desc, node_id as u64);
            push_str(
                &mut desc,
                " do-timestamp=true keepalive-time=1000 resend-last=true ! queue leaky=downstream max-size-buffers=3 max-size-bytes=0 max-size-time=0 ! videoconvert ! videoscale ! videorate ! video/x-raw,framerate=",
            );
            push_signed_decimal(&mut desc, settings.fps as i64);
            push_str(&mut desc, "/1");
            match settings.size {
                Some((w, h)) => {
                    push_str(&mut desc, ",width=");
                    push_signed_decimal(&mut desc, w as i64);
                    push_str(&mut desc, ",height=");
                    push_signed_decimal(&mut desc, h as i64);
                    push_str(&mut desc, ",pixel-aspect-ratio=1/1");
                },
                None => push_str(&mut desc, ""),
            }
            push_str(&mut desc, " ! ");
            push_str(&mut desc, video_encoder);
            push_str(&mut desc, " ! h264parse ! queue ! hls.video ");
        },
        None => push_str(&mut desc, ""),
    }
    push_str(
        &mut desc,
        "hlssink2 name=hls target-duration=1 playlist-length=3 max-files=6 playlist-location=",
    );
    push_str(&mut desc, hls_dir);
    push_str(&mut desc, "/stream.m3u8 location=");
    push_str(&mut desc, hls_dir);
    push_str(&mut desc, "/segment%05d.ts");
    match audio {
        Some((monitor, encoder)) => {
            push_str(&mut desc, " pulsesrc device=");
            push_str(&mut desc, monitor);
            push_str(&mut desc, " provide-clock=false ! queue ! audioconvert ! audioresample ! ");
            push_str(&mut desc, encoder);
            push_str(&mut desc, " bitrate=128000 ! aacparse ! queue ! hls.audio");
        },
        None => push_str(&mut desc, ""),
    }
    desc
}

/// Why a pipeline cannot be built.
#[derive(Clone, Copy, PartialEq, Eq, Structural, Debug)]
pub enum PipelineError {
    /// An audio-only cast without an AAC encoder.
    NoAacEncoder,
    /// An audio-only cast without a system audio monitor.
    NoAudioMonitor,
    /// A progressive audio stream with neither an MP3 nor an AAC encoder.
    NoAudioEncoder,
}

impl PipelineError {
    /// The message for the log and the user.
    pub fn message(&self) -> (r: &'static str)
        ensures
            r@ == (match *self {
                PipelineError::NoAacEncoder => "no AAC encoder found (install fdk-aac/gst-plugins-bad or gst-libav)"@,
                PipelineError::NoAudioMonitor => "audio-only cast but no system audio monitor was found"@,
                PipelineError::NoAudioEncoder => "no MP3 or AAC encoder found (install gst-plugins-ugly, fdk-aac/gst-plugins-bad, or gst-libav)"@,
            }),
    {
        match self {
            PipelineError::NoAacEncoder => "no AAC encoder found (install fdk-aac/gst-plugins-bad or gst-libav)",
            PipelineError::NoAudioMonitor => "audio-only cast but no system audio monitor was found",
            PipelineError::NoAudioEncoder => "no MP3 or AAC encoder found (install gst-plugins-ugly, fdk-aac/gst-plugins-bad, or gst-libav)",
        }
    }
}

/// The audio branch of the HLS pipeline: the monitor with the AAC encoder
/// when both exist. Audio-only casts require it; video casts degrade to
/// video-only when either is missing.
pub fn audio_branch<'a>(
    monitor: Option<&'a str>,
    aac_encoder: Option<&'a str>,
    has_video: bool,
) -> (r: Result<Option<(&'a str, &'a str)>, PipelineError>)
    ensures
        match (monitor, aac_encoder) {
            (Some(m), Some(e)) => r == Ok::<Option<(&str, &str)>, PipelineError>(Some((m, e))),
            (Some(_), None) => if has_video {
                r == Ok::<Option<(&str, &str)>, PipelineError>(None)
            } else {
                r == Err::<Option<(&str, &str)>, PipelineError>(PipelineError::NoAacEncoder)
            },
            (None, _) => if has_video {
                r == Ok::<Option<(&str, &str)>, PipelineError>(None)
            } else {
                r == Err::<Option<(&str, &str)>, PipelineError>(PipelineError::NoAudioMonitor)
            },
        },
{
    match (monitor, aac_encoder) {
        (Some(m), Some(e)) => Ok(Some((m, e))),
        (Some(_), None) => if has_video {
            Ok(None)
        } else {
            Err(PipelineError::NoAacEncoder)
        },
        (None, _) => if has_video {
            Ok(None)
        } else {
            Err(PipelineError::NoAudioMonitor)
        },
    }
}

/// The keyframe interval of the HLS encoder: one keyframe per one-second
/// segment, so segments decode alone.
pub fn key_interval(fps: i32) -> (r: i32)
    ensures
        r == (if fps < 1 {
            1
        } else {
            fps
        }),
{
    if fps < 1 {
        1
    } else {
        fps
    }
}

/// The progressive audio pipeline for audio-only receivers: the monitor
/// encoded to MP3 when `lamemp3enc` exists, else to ADTS AAC with
/// `aac_encoder`, into the `asink` appsink; with the content type to serve.
pub open spec fn spec_audio_stream_description(
    monitor: Seq<char>,
    has_mp3: bool,
    aac_encoder: Option<Seq<char>>,
) -> Option<(Seq<char>, Seq<char>)> {
    let encode = if has_mp3 {
        Some(("lamemp3enc target=bitrate bitrate=128 cbr=true"@, "audio/mpeg"@))
    } else {
        match aac_encoder {
            Some(aac) => Some(
                (
                    aac + " bitrate=128000 ! aacparse ! audio/mpeg,mpegversion=4,stream-format=adts"@,
                    "audio/aac"@,
                ),
            ),
            None => None,
        }
    };
    match encode {
        Some((e, content_type)) => Some(
            (
                "pulsesrc device="@ + monitor
                    + " provide-clock=false ! queue ! audioconvert ! audioresample ! audio/x-raw,rate=44100,channels=2 ! "@
                    + e + " ! appsink name=asink sync=false max-buffers=64 drop=false"@,
                content_type,
            ),
        ),
        None => None,
    }
}

/// The progressive audio pipeline and its content type.
pub fn audio_stream_description(monitor: &str, has_mp3: bool, aac_encoder: Option<&str>) -> (r:
    Result<(String, &'static str), PipelineError>)
    ensures
        match spec_audio_stream_description(
            monitor@,
            has_mp3,
            match aac_encoder {
                Some(a) => Some(a@),
                None => None,
            },
        ) {
            Some((desc, content_type)) => r matches Ok((d, c)) && d@ == desc && c@ == content_type,
            None => r == Err::<(String, &'static str), PipelineError>(PipelineError::NoAudioEncoder),
        },
{
    let mut encode = String::new();
    let content_type: &'static str;
    if has_mp3 {
        push_str(&mut encode, "lamemp3enc target=bitrate bitrate=128 cbr=true");
        content_type = "audio/mpeg";
    } else {
        match aac_encoder {
            Some(aac) => {
                push_str(&mut encode, aac);
                push_str(
                    &mut encode,
                    " bitrate=128000 ! aacparse ! audio/mpeg,mpegversion=4,stream-format=adts",
                );
                content_type = "audio/aac";
            },
            None => return Err(PipelineError::NoAudioEncoder),
        }
    }
    let mut desc = String::new();
    push_str(&mut desc, "pulsesrc device=");
    push_str(&mut desc, monitor);
    push_str(
        &mut desc,
        " provide-clock=false ! queue ! audioconvert ! audioresample ! audio/x-raw,rate=44100,channels=2 ! ",
    );
    push_str(&mut desc, encode.as_str());
    push_str(&mut desc, " ! appsink name=asink sync=false max-buffers=64 drop=false");
    Ok((desc, content_type))
}

/// The monitor source of the default sink named by `pactl get-default-sink`
/// (its output, trimmed, with `.monitor` added), or `None` when it names none.
pub open spec fn spec_monitor_of_sink(output: Seq<char>) -> Option<Seq<char>> {
    if trim(output).len() == 0 {
        None
    } else {
        Some(trim(output) + ".monitor"@)
    }
}

/// The monitor source of the default sink.
pub fn monitor_of_sink(output: &str) -> (r: Option<String>)
    ensures
        match spec_monitor_of_sink(output@) {
            Some(m) => r matches Some(s) && s@ == m,
            None => r is None,
        },
{
    let chars = chars_of(output);
    let sink = trim_chars(chars.as_slice());
    if sink.len() == 0 {
        return None;
    }
    let mut s = String::new();
    push_chars(&mut s, sink.as_slice());
    push_str(&mut s, ".monitor");
    Some(s)
}

} // verus!
