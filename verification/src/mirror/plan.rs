//! The decisions of a mirroring session: which streams to offer, whether the
//! receiver's ANSWER leaves something to send, what the sender streams are,
//! and the encoder pipeline that feeds them. The session itself - portal,
//! sockets, threads, the receiver connection - is driven by the caller.

use vstd::prelude::*;

use crate::mirror::encoder::VideoCodec;
use crate::mirror::messages::{
    AUDIO_PAYLOAD_TYPE, AudioParams, Answer, VIDEO_PAYLOAD_TYPE, VideoParams,
};
use crate::mirror::sender::{StreamConfig, StreamKind};
use crate::random::{random_bytes, random_u32};
use crate::streaming::encoder::spec_codec_name;
use crate::text::{decimal, push_decimal, push_signed_decimal, push_str, signed_decimal};

verus! {

/// The stream index of the audio stream in the OFFER.
pub const AUDIO_INDEX: u32 = 0;

/// The first video stream index; each offered codec gets the next one up.
pub const VIDEO_INDEX_BASE: u32 = 1;

pub const AUDIO_BIT_RATE: u32 = 128_000;

/// The SSRC and keys of one stream.
#[derive(Clone, Copy)]
pub struct StreamKeys {
    pub ssrc: u32,
    pub aes_key: [u8; 16],
    pub aes_iv_mask: [u8; 16],
}

/// The keys of a stream from drawn values: the SSRC is `ssrc_base` plus the
/// drawn number modulo 1000, the key and IV mask are the drawn bytes.
pub fn keys_from(ssrc_base: u32, drawn: u32, aes_key: [u8; 16], aes_iv_mask: [u8; 16]) -> (r:
    StreamKeys)
    requires
        ssrc_base <= u32::MAX - 999,
    ensures
        r.ssrc == ssrc_base + drawn % 1000,
        r.aes_key == aes_key,
        r.aes_iv_mask == aes_iv_mask,
{
    StreamKeys { ssrc: ssrc_base + drawn % 1000, aes_key, aes_iv_mask }
}

/// Fresh keys for a stream whose SSRC lies in `[ssrc_base, ssrc_base + 1000)`.
pub fn generate_keys(ssrc_base: u32) -> (r: StreamKeys)
    requires
        ssrc_base <= u32::MAX - 999,
    ensures
        ssrc_base <= r.ssrc < ssrc_base + 1000,
{
    let drawn = random_u32();
    let aes_key = random_bytes();
    let aes_iv_mask = random_bytes();
    keys_from(ssrc_base, drawn, aes_key, aes_iv_mask)
}

/// Why mirroring cannot go ahead, so the caller should fall back.
#[derive(Clone, Copy, PartialEq, Eq, Structural, Debug)]
pub enum MirrorError {
    /// An audio-only cast, but no system audio monitor exists.
    NoAudioMonitor,
    /// A screen cast, but no video encoder is installed.
    NoVideoEncoder,
    /// The receiver accepted none of the offered video codecs.
    NoVideoAccepted,
    /// An audio-only cast whose audio stream the receiver did not accept.
    AudioNotAccepted,
    /// No encoder for the codec the receiver chose.
    NoEncoderForCodec,
}

impl MirrorError {
    /// The message for the log and the user.
    pub fn message(&self) -> (r: &'static str)
        ensures
            r@ == (match *self {
                MirrorError::NoAudioMonitor => "audio-only cast but no system audio monitor was found"@,
                MirrorError::NoVideoEncoder => "no video encoder is installed"@,
                MirrorError::NoVideoAccepted => "receiver accepted none of the offered video codecs"@,
                MirrorError::AudioNotAccepted => "receiver did not accept the audio stream"@,
                MirrorError::NoEncoderForCodec => "no encoder for the negotiated video codec"@,
            }),
    {
        match self {
            MirrorError::NoAudioMonitor => "audio-only cast but no system audio monitor was found",
            MirrorError::NoVideoEncoder => "no video encoder is installed",
            MirrorError::NoVideoAccepted => "receiver accepted none of the offered video codecs",
            MirrorError::AudioNotAccepted => "receiver did not accept the audio stream",
            MirrorError::NoEncoderForCodec => "no encoder for the negotiated video codec",
        }
    }
}

/// Whether a session with (or without) a screen capture and an audio monitor
/// has something to mirror: an audio-only cast needs the monitor; a screen
/// cast needs an encoder.
pub open spec fn spec_check_sources(has_capture: bool, has_monitor: bool, codec_count: nat) -> Result<
    (),
    MirrorError,
> {
    if !has_capture && !has_monitor {
        Err(MirrorError::NoAudioMonitor)
    } else if has_capture && codec_count == 0 {
        Err(MirrorError::NoVideoEncoder)
    } else {
        Ok(())
    }
}

/// Whether there is something to mirror. `codecs` are the codecs this host
/// can encode (empty for an audio-only cast).
pub fn check_sources(has_capture: bool, has_monitor: bool, codecs: &[VideoCodec]) -> (r: Result<
    (),
    MirrorError,
>)
    ensures
        r == spec_check_sources(has_capture, has_monitor, codecs@.len()),
{
    if !has_capture && !has_monitor {
        Err(MirrorError::NoAudioMonitor)
    } else if has_capture && codecs.len() == 0 {
        Err(MirrorError::NoVideoEncoder)
    } else {
        Ok(())
    }
}

/// The OFFER entry of the audio stream with `keys`.
pub fn audio_params(keys: &StreamKeys) -> (r: AudioParams)
    ensures
        r.index == AUDIO_INDEX,
        r.ssrc == keys.ssrc,
        r.aes_key == keys.aes_key,
        r.aes_iv_mask == keys.aes_iv_mask,
        r.bit_rate == AUDIO_BIT_RATE,
{
    AudioParams {
        index: AUDIO_INDEX,
        ssrc: keys.ssrc,
        aes_key: keys.aes_key,
        aes_iv_mask: keys.aes_iv_mask,
        bit_rate: AUDIO_BIT_RATE,
    }
}

/// The OFFER entries of the video variants: one per codec, in preference
/// order, numbered from `VIDEO_INDEX_BASE`, each with its own keys.
pub fn video_params(
    codecs: &[VideoCodec],
    keys: &[StreamKeys],
    width: u32,
    height: u32,
    max_fps: u32,
    max_bit_rate: u32,
) -> (r: Vec<VideoParams>)
    requires
        codecs@.len() == keys@.len(),
        codecs@.len() < u32::MAX,
    ensures
        r@.len() == codecs@.len(),
        forall|i: int|
            0 <= i < r@.len() ==> {
                &&& #[trigger] r@[i].index == VIDEO_INDEX_BASE + i
                &&& r@[i].ssrc == keys@[i].ssrc
                &&& r@[i].aes_key == keys@[i].aes_key
                &&& r@[i].aes_iv_mask == keys@[i].aes_iv_mask
                &&& r@[i].codec_name@ == spec_codec_name(codecs@[i])
                &&& r@[i].max_bit_rate == max_bit_rate
                &&& r@[i].max_fps == max_fps
                &&& r@[i].width == width
                &&& r@[i].height == height
            },
{
    let mut out: Vec<VideoParams> = Vec::new();
    let mut i: usize = 0;
    while i < codecs.len()
        invariant
            i <= codecs@.len(),
            codecs@.len() == keys@.len(),
            codecs@.len() < u32::MAX,
            out@.len() == i,
            forall|j: int|
                0 <= j < i ==> {
                    &&& #[trigger] out@[j].index == VIDEO_INDEX_BASE + j
                    &&& out@[j].ssrc == keys@[j].ssrc
                    &&& out@[j].aes_key == keys@[j].aes_key
                    &&& out@[j].aes_iv_mask == keys@[j].aes_iv_mask
                    &&& out@[j].codec_name@ == spec_codec_name(codecs@[j])
                    &&& out@[j].max_bit_rate == max_bit_rate
                    &&& out@[j].max_fps == max_fps
                    &&& out@[j].width == width
                    &&& out@[j].height == height
                },
        decreases codecs@.len() - i,
    {
        let k = keys[i];
        out.push(
            VideoParams {
                index: VIDEO_INDEX_BASE + i as u32,
                ssrc: k.ssrc,
                aes_key: k.aes_key,
                aes_iv_mask: k.aes_iv_mask,
                codec_name: codecs[i].codec_name(),
                max_bit_rate,
                max_fps,
                width,
                height,
            },
        );
        i += 1;
    }
    out
}

/// Whether `indexes` holds `index`.
fn holds(indexes: &Vec<u32>, index: u32) -> (r: bool)
    ensures
        r == indexes@.contains(index),
{
    let mut i: usize = 0;
    while i < indexes.len()
        invariant
            i <= indexes@.len(),
            forall|j: int| 0 <= j < i ==> indexes@[j] != index,
        decreases indexes@.len() - i,
    {
        if indexes[i] == index {
            return true;
        }
        i += 1;
    }
    false
}

/// The first video variant (in preference order) the receiver accepted.
pub open spec fn spec_chosen_video(indexes: Seq<u32>, videos: Seq<u32>, from: int) -> Option<int>
    decreases videos.len() - from,
{
    if from < 0 || from >= videos.len() {
        None
    } else if indexes.contains(videos[from]) {
        Some(from)
    } else {
        spec_chosen_video(indexes, videos, from + 1)
    }
}

proof fn lemma_chosen_video_from(accepted: Seq<u32>, videos: Seq<u32>, from: int)
    requires
        0 <= from,
    ensures
        match spec_chosen_video(accepted, videos, from) {
            Some(i) => from <= i < videos.len() && accepted.contains(videos[i]) && forall|j: int|
                from <= j < i ==> !accepted.contains(#[trigger] videos[j]),
            None => forall|j: int| from <= j < videos.len() ==> !accepted.contains(#[trigger] videos[j]),
        },
    decreases videos.len() - from,
{
    if from < videos.len() && !accepted.contains(videos[from]) {
        lemma_chosen_video_from(accepted, videos, from + 1);
    }
}

/// The video variant taken from an ANSWER is the most preferred one the
/// receiver accepted: it accepted that variant and none offered before it;
/// and none is taken only when it accepted none of them.
pub proof fn lemma_chosen_video_is_most_preferred(accepted: Seq<u32>, videos: Seq<u32>)
    ensures
        match spec_chosen_video(accepted, videos, 0) {
            Some(i) => 0 <= i < videos.len() && accepted.contains(videos[i]) && forall|j: int|
                0 <= j < i ==> !accepted.contains(#[trigger] videos[j]),
            None => forall|j: int| 0 <= j < videos.len() ==> !accepted.contains(#[trigger] videos[j]),
        },
{
    lemma_chosen_video_from(accepted, videos, 0);
}

/// The stream indexes of `videos`.
pub open spec fn video_indexes(videos: Seq<VideoParams>) -> Seq<u32> {
    Seq::new(videos.len(), |i: int| videos[i].index)
}

/// What the receiver's ANSWER leaves to send: the video variant it accepted
/// (the first in our preference order), and whether it accepted the audio
/// stream - or why mirroring cannot go ahead: a screen cast needs a video
/// variant, an audio-only cast needs the audio stream.
pub open spec fn spec_accept_answer(
    has_capture: bool,
    offered_audio: bool,
    videos: Seq<VideoParams>,
    accepted: Seq<u32>,
) -> Result<(Option<int>, bool), MirrorError> {
    let video = spec_chosen_video(accepted, video_indexes(videos), 0);
    let audio = offered_audio && accepted.contains(AUDIO_INDEX);
    if has_capture && video is None {
        Err(MirrorError::NoVideoAccepted)
    } else if !has_capture && !audio {
        Err(MirrorError::AudioNotAccepted)
    } else {
        Ok((video, audio))
    }
}

fn first_accepted(videos: &[VideoParams], answer: &Answer) -> (r: Option<usize>)
    ensures
        match spec_chosen_video(answer.send_indexes@, video_indexes(videos@), 0) {
            Some(i) => r matches Some(k) && k == i,
            None => r is None,
        },
{
    let ghost ids = video_indexes(videos@);
    let mut i: usize = 0;
    while i < videos.len()
        invariant
            i <= videos@.len(),
            ids == video_indexes(videos@),
            spec_chosen_video(answer.send_indexes@, ids, 0) == spec_chosen_video(
                answer.send_indexes@,
                ids,
                i as int,
            ),
        decreases videos@.len() - i,
    {
        if holds(&answer.send_indexes, videos[i].index) {
            return Some(i);
        }
        i += 1;
    }
    None
}

/// What the receiver's ANSWER leaves to send.
pub fn accept_answer(
    has_capture: bool,
    offered_audio: bool,
    videos: &[VideoParams],
    answer: &Answer,
) -> (r: Result<(Option<usize>, bool), MirrorError>)
    ensures
        match spec_accept_answer(has_capture, offered_audio, videos@, answer.send_indexes@) {
            Ok((video, audio)) => r matches Ok((v, a)) && a == audio && match video {
                Some(i) => v matches Some(k) && k == i,
                None => v is None,
            },
            Err(e) => r == Err::<(Option<usize>, bool), MirrorError>(e),
        },
{
    let chosen = first_accepted(videos, answer);
    let audio = offered_audio && holds(&answer.send_indexes, AUDIO_INDEX);
    if has_capture && chosen.is_none() {
        return Err(MirrorError::NoVideoAccepted);
    }
    if !has_capture && !audio {
        return Err(MirrorError::AudioNotAccepted);
    }
    Ok((chosen, audio))
}

/// The sender streams: the chosen video variant (if any), then the audio
/// stream when the receiver accepted it.
pub fn stream_configs(video: Option<&StreamKeys>, audio: Option<&StreamKeys>) -> (r: Vec<
    StreamConfig,
>)
    ensures
        r@.len() == (if video is Some {
            1int
        } else {
            0
        }) + (if audio is Some {
            1int
        } else {
            0
        }),
        video matches Some(k) ==> {
            &&& r@[0].kind == StreamKind::Video
            &&& r@[0].ssrc == k.ssrc
            &&& r@[0].payload_type == VIDEO_PAYLOAD_TYPE
            &&& r@[0].aes_key == k.aes_key && r@[0].aes_iv_mask == k.aes_iv_mask
        },
        audio matches Some(k) ==> {
            let last = r@.last();
            &&& last.kind == StreamKind::Audio
            &&& last.ssrc == k.ssrc
            &&& last.payload_type == AUDIO_PAYLOAD_TYPE
            &&& last.aes_key == k.aes_key && last.aes_iv_mask == k.aes_iv_mask
        },
{
    let mut configs: Vec<StreamConfig> = Vec::new();
    match video {
        Some(k) => configs.push(
            StreamConfig {
                kind: StreamKind::Video,
                ssrc: k.ssrc,
                payload_type: VIDEO_PAYLOAD_TYPE,
                aes_key: k.aes_key,
                aes_iv_mask: k.aes_iv_mask,
            },
        ),
        None => {},
    }
    match audio {
        Some(k) => configs.push(
            StreamConfig {
                kind: StreamKind::Audio,
                ssrc: k.ssrc,
                payload_type: AUDIO_PAYLOAD_TYPE,
                aes_key: k.aes_key,
                aes_iv_mask: k.aes_iv_mask,
            },
        ),
        None => {},
    }
    configs
}

/// The names of the offered codecs the receiver accepted, in offer order.
pub open spec fn spec_receiver_codecs(videos: Seq<VideoParams>, accepted: Seq<u32>) -> Seq<
    Seq<char>,
>
    decreases videos.len(),
{
    if videos.len() == 0 {
        seq![]
    } else {
        let before = spec_receiver_codecs(videos.drop_last(), accepted);
        if accepted.contains(videos.last().index) {
            before.push(videos.last().codec_name@)
        } else {
            before
        }
    }
}

/// The names of the offered codecs the receiver accepted.
pub fn receiver_codecs(videos: &[VideoParams], answer: &Answer) -> (r: Vec<&'static str>)
    ensures
        r@.len() == spec_receiver_codecs(videos@, answer.send_indexes@).len(),
        forall|i: int|
            0 <= i < r@.len() ==> #[trigger] r@[i]@ == spec_receiver_codecs(
                videos@,
                answer.send_indexes@,
            )[i],
{
    let mut names: Vec<&'static str> = Vec::new();
    let mut i: usize = 0;
    while i < videos.len()
        invariant
            i <= videos@.len(),
            names@.len() == spec_receiver_codecs(videos@.take(i as int), answer.send_indexes@).len(),
            forall|j: int|
                0 <= j < names@.len() ==> #[trigger] names@[j]@ == spec_receiver_codecs(
                    videos@.take(i as int),
                    answer.send_indexes@,
                )[j],
        decreases videos@.len() - i,
    {
        assert(videos@.take(i + 1).drop_last() == videos@.take(i as int));
        if holds(&answer.send_indexes, videos[i].index) {
            names.push(videos[i].codec_name);
        }
        i += 1;
    }
    assert(videos@.take(videos@.len() as int) == videos@);
    names
}

/// The RTP timestamp of a buffer presented `pts_ns` nanoseconds into the
/// stream, on a clock of `timebase` ticks per second (truncated to 32 bits,
/// as RTP timestamps wrap).
pub open spec fn spec_rtp_timestamp(pts_ns: u64, timebase: u32) -> u32 {
    ((pts_ns * timebase / 1_000_000_000) % 0x1_0000_0000) as u32
}

/// The RTP timestamp of a buffer presented `pts_ns` into the stream.
pub fn rtp_timestamp(pts_ns: u64, timebase: u32) -> (r: u32)
    ensures
        r == spec_rtp_timestamp(pts_ns, timebase),
{
    assert(0 <= pts_ns * timebase <= 0xffff_ffff_ffff_ffff * 0xffff_ffff) by (nonlinear_arith);
    let ticks = (pts_ns as u128) * (timebase as u128) / 1_000_000_000;
    let low = ticks % 0x1_0000_0000;
    low as u32
}

/// The captured video as the mirroring pipeline reads it.
pub struct MirrorVideo<'a> {
    /// The PipeWire remote's file descriptor and the node to read.
    pub fd: i32,
    pub node_id: u32,
    pub fps: i32,
    pub width: i32,
    pub height: i32,
    /// The encoder fragment, naming its element `venc`.
    pub encoder: &'a str,
}

/// The gst-launch description of the mirroring pipeline: the captured video
/// scaled and encoded into the `vsink` appsink, and the system audio encoded
/// to Opus into the `asink` appsink, each when present.
pub open spec fn spec_mirror_description(video: Option<MirrorVideo>, monitor: Option<Seq<char>>) -> Seq<
    char,
> {
    (match video {
        Some(v) => "pipewiresrc fd="@ + signed_decimal(v.fd as int) + " path="@ + decimal(
            v.node_id as nat,
        )
            + " do-timestamp=true keepalive-time=1000 resend-last=true ! queue leaky=downstream max-size-buffers=3 max-size-bytes=0 max-size-time=0 ! videoconvert ! videoscale ! videorate ! video/x-raw,format=I420,framerate="@
            + signed_decimal(v.fps as int) + "/1,width="@ + signed_decimal(v.width as int)
            + ",height="@ + signed_decimal(v.height as int) + ",pixel-aspect-ratio=1/1 ! "@
            + v.encoder@ + " ! appsink name=vsink sync=false max-buffers=32 "@,
        None => ""@,
    }) + match monitor {
        Some(m) => "pulsesrc device="@ + m
            + " provide-clock=false ! queue ! audioconvert ! audioresample ! audio/x-raw,rate=48000,channels=2 ! opusenc bitrate=128000 ! appsink name=asink sync=false max-buffers=32"@,
        None => ""@,
    }
}

/// The gst-launch description of the mirroring pipeline.
pub fn mirror_description(video: Option<&MirrorVideo>, monitor: Option<&str>) -> (r: String)
    ensures
        r@ == spec_mirror_description(
            match video {
                Some(v) => Some(*v),
                None => None,
            },
            match monitor {
                Some(m) => Some(m@),
                None => None,
            },
        ),
{
    let mut desc = String::new();
    match video {
        Some(v) => {
            push_str(&mut desc, "pipewiresrc fd=");
            push_signed_decimal(&mut desc, v.fd as i64);
            push_str(&mut desc, " path=");
            push_decimal(&mut desc, v.node_id as u64);
            push_str(
                &mut desc,
                " do-timestamp=true keepalive-time=1000 resend-last=true ! queue leaky=downstream max-size-buffers=3 max-size-bytes=0 max-size-time=0 ! videoconvert ! videoscale ! videorate ! video/x-raw,format=I420,framerate=",
            );
            push_signed_decimal(&mut desc, v.fps as i64);
            push_str(&mut desc, "/1,width=");
            push_signed_decimal(&mut desc, v.width as i64);
            push_str(&mut desc, ",height=");
            push_signed_decimal(&mut desc, v.height as i64);
            push_str(&mut desc, ",pixel-aspect-ratio=1/1 ! ");
            push_str(&mut desc, v.encoder);
            push_str(&mut desc, " ! appsink name=vsink sync=false max-buffers=32 ");
        },
        None => push_str(&mut desc, ""),
    }
    match monitor {
        Some(m) => {
            push_str(&mut desc, "pulsesrc device=");
            push_str(&mut desc, m);
            push_str(
                &mut desc,
                " provide-clock=false ! queue ! audioconvert ! audioresample ! audio/x-raw,rate=48000,channels=2 ! opusenc bitrate=128000 ! appsink name=asink sync=false max-buffers=32",
            );
        },
        None => push_str(&mut desc, ""),
    }
    desc
}

} // verus!
