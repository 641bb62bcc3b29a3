//! Video codec and encoder selection for Cast Streaming.
//!
//! The RTP/RTCP/crypto layer is codec-agnostic - it packetizes whole
//! encrypted frames - so the only codec-specific parts of a session are the
//! `codecName` advertised in the OFFER and the `GStreamer` encoder element.
//! This module owns both: which codecs we can encode locally, and the encoder
//! for each, **preferring hardware** (VA-API/NVENC) over software.
//!
//! What only `GStreamer` can tell - whether an encoder accepts a raw format,
//! and whether its launch fragment parses - reaches these functions as
//! [`FactoryProbe`]s, one per candidate factory; the choice itself is made
//! here.

use vstd::prelude::*;

use crate::text::{chars_of, has_prefix, push_decimal, push_str, str_equal, str_starts_with};
use crate::text::decimal;

verus! {

#[derive(Clone, Copy, PartialEq, Eq, Structural, Debug)]
pub enum VideoCodec {
    Vp8,
    Vp9,
    Av1,
    H264,
}

/// The `codecName` string used in the Cast OFFER.
pub open spec fn spec_codec_name(codec: VideoCodec) -> Seq<char> {
    match codec {
        VideoCodec::Vp8 => "vp8"@,
        VideoCodec::Vp9 => "vp9"@,
        VideoCodec::Av1 => "av1"@,
        VideoCodec::H264 => "h264"@,
    }
}

impl VideoCodec {
    /// The `codecName` string used in the Cast OFFER.
    pub fn codec_name(self) -> (r: &'static str)
        ensures
            r@ == spec_codec_name(self),
    {
        match self {
            Self::Vp8 => "vp8",
            Self::Vp9 => "vp9",
            Self::Av1 => "av1",
            Self::H264 => "h264",
        }
    }
}

/// Which encoders the user will accept. `Auto` keeps the hardware-first order
/// in `factories`; the other two are an escape hatch for a driver that is
/// present but misbehaving.
#[derive(Clone, Copy, PartialEq, Eq, Structural, Debug)]
pub enum EncoderPolicy {
    Auto,
    Hardware,
    Software,
}

impl Default for EncoderPolicy {
    fn default() -> (r: Self)
        ensures
            r == EncoderPolicy::Auto,
    {
        EncoderPolicy::Auto
    }
}

/// The raw format fed to the encoder. Forcing one narrows the candidate list
/// rather than the caps, because an encoder that cannot take the format would
/// otherwise fail to link.
#[derive(Clone, Copy, PartialEq, Eq, Structural, Debug)]
pub enum FormatPolicy {
    Auto,
    Nv12,
    I420,
}

impl Default for FormatPolicy {
    fn default() -> (r: Self)
        ensures
            r == FormatPolicy::Auto,
    {
        FormatPolicy::Auto
    }
}

#[derive(Clone, Copy, PartialEq, Eq, Structural, Debug)]
pub struct EncodingPolicy {
    pub encoder: EncoderPolicy,
    pub format: FormatPolicy,
}

impl Default for EncodingPolicy {
    fn default() -> (r: Self)
        ensures
            r == (EncodingPolicy { encoder: EncoderPolicy::Auto, format: FormatPolicy::Auto }),
    {
        EncodingPolicy { encoder: EncoderPolicy::Auto, format: FormatPolicy::Auto }
    }
}

impl EncoderPolicy {
    /// Anything unrecognised means `Auto`: the extension sending the option can
    /// be a different version than the daemon reading it.
    pub fn parse(value: &str) -> (r: Self)
        ensures
            r == (if value@ == "hardware"@ {
                EncoderPolicy::Hardware
            } else if value@ == "software"@ {
                EncoderPolicy::Software
            } else {
                EncoderPolicy::Auto
            }),
    {
        if str_equal(value, "hardware") {
            Self::Hardware
        } else if str_equal(value, "software") {
            Self::Software
        } else {
            Self::Auto
        }
    }
}

/// The format an encoder is required to accept under `policy`, or `None`
/// when unconstrained.
pub open spec fn spec_required_format(policy: FormatPolicy) -> Option<Seq<char>> {
    match policy {
        FormatPolicy::Auto => None,
        FormatPolicy::Nv12 => Some("NV12"@),
        FormatPolicy::I420 => Some("I420"@),
    }
}

impl FormatPolicy {
    /// Unrecognised values mean `Auto`.
    pub fn parse(value: &str) -> (r: Self)
        ensures
            r == (if value@ == "nv12"@ {
                FormatPolicy::Nv12
            } else if value@ == "i420"@ {
                FormatPolicy::I420
            } else {
                FormatPolicy::Auto
            }),
    {
        if str_equal(value, "nv12") {
            Self::Nv12
        } else if str_equal(value, "i420") {
            Self::I420
        } else {
            Self::Auto
        }
    }

    /// The `format` field for the raw caps feeding the encoder. `Auto` offers
    /// both, letting negotiation pick NV12 for VA-API and I420 for the rest -
    /// leaving it out entirely would let videoconvert choose 4:4:4.
    pub fn caps_format(self) -> (r: &'static str)
        ensures
            r@ == (match self {
                FormatPolicy::Auto => "{NV12,I420}"@,
                FormatPolicy::Nv12 => "NV12"@,
                FormatPolicy::I420 => "I420"@,
            }),
    {
        match self {
            Self::Auto => "{NV12,I420}",
            Self::Nv12 => "NV12",
            Self::I420 => "I420",
        }
    }

    /// The format an encoder is required to accept, or `None` when
    /// unconstrained.
    pub fn required(self) -> (r: Option<&'static str>)
        ensures
            match spec_required_format(self) {
                None => r is None,
                Some(format) => r is Some && r->0@ == format,
            },
    {
        match self {
            Self::Auto => None,
            Self::Nv12 => Some("NV12"),
            Self::I420 => Some("I420"),
        }
    }
}

/// Efficiency order, best first - used to break ties among codecs at the same
/// hardware tier. VP8 is last and mandatory (every Cast-V2 receiver decodes
/// it), so it is the guaranteed fallback.
pub const EFFICIENCY_ORDER: [VideoCodec; 4] = [
    VideoCodec::Av1,
    VideoCodec::Vp9,
    VideoCodec::H264,
    VideoCodec::Vp8,
];

/// The codecs in efficiency order, best first.
pub open spec fn efficiency_order() -> Seq<VideoCodec> {
    seq![VideoCodec::Av1, VideoCodec::Vp9, VideoCodec::H264, VideoCodec::Vp8]
}

/// The position of `codec` in the efficiency order.
pub open spec fn spec_efficiency_rank(codec: VideoCodec) -> u8 {
    match codec {
        VideoCodec::Av1 => 0,
        VideoCodec::Vp9 => 1,
        VideoCodec::H264 => 2,
        VideoCodec::Vp8 => 3,
    }
}

pub fn efficiency_rank(codec: VideoCodec) -> (r: u8)
    ensures
        r == spec_efficiency_rank(codec),
        efficiency_order()[r as int] == codec,
{
    match codec {
        VideoCodec::Av1 => 0,
        VideoCodec::Vp9 => 1,
        VideoCodec::H264 => 2,
        VideoCodec::Vp8 => 3,
    }
}

/// `GStreamer` encoder factories to try for `codec`, best first: hardware
/// (VA-API, then NVENC) ahead of software.
pub open spec fn spec_factories(codec: VideoCodec) -> Seq<Seq<char>> {
    match codec {
        VideoCodec::H264 => seq!["vah264enc"@, "vah264lpenc"@, "nvh264enc"@, "x264enc"@],
        VideoCodec::Vp8 => seq!["vavp8enc"@, "vp8enc"@],
        VideoCodec::Vp9 => seq!["vavp9enc"@, "vp9enc"@],
        VideoCodec::Av1 => seq!["vaav1enc"@, "nvav1enc"@, "svtav1enc"@, "av1enc"@],
    }
}

/// `GStreamer` encoder factories to try for `codec`, best first: hardware
/// (VA-API, then NVENC) ahead of software.
pub fn factories(codec: VideoCodec) -> (r: Vec<&'static str>)
    ensures
        r@.len() == spec_factories(codec).len(),
        forall|i: int| 0 <= i < r@.len() ==> #[trigger] r@[i]@ == spec_factories(codec)[i],
{
    match codec {
        VideoCodec::H264 => vec!["vah264enc", "vah264lpenc", "nvh264enc", "x264enc"],
        VideoCodec::Vp8 => vec!["vavp8enc", "vp8enc"],
        VideoCodec::Vp9 => vec!["vavp9enc", "vp9enc"],
        // SVT-AV1 is far faster than aom's av1enc, so prefer it in software.
        VideoCodec::Av1 => vec!["vaav1enc", "nvav1enc", "svtav1enc", "av1enc"],
    }
}

/// VA-API / NVENC / V4L2 elements are hardware; everything else is software.
pub open spec fn spec_is_hardware(factory: Seq<char>) -> bool {
    has_prefix(factory, "va"@) || has_prefix(factory, "nv"@) || has_prefix(factory, "v4l2"@)
}

/// VA-API / NVENC / V4L2 elements are hardware; everything else is software.
pub fn is_hardware(factory: &str) -> (r: bool)
    ensures
        r == spec_is_hardware(factory@),
{
    str_starts_with(factory, "va") || str_starts_with(factory, "nv") || str_starts_with(
        factory,
        "v4l2",
    )
}

/// Whether a factory may be used under `policy`, given whether it accepts
/// the raw format the policy requires (`accepts_required_format` is not
/// consulted when the policy requires none).
pub open spec fn spec_allowed(
    factory: Seq<char>,
    policy: EncodingPolicy,
    accepts_required_format: bool,
) -> bool {
    let encoder_ok = match policy.encoder {
        EncoderPolicy::Auto => true,
        EncoderPolicy::Hardware => spec_is_hardware(factory),
        EncoderPolicy::Software => !spec_is_hardware(factory),
    };
    encoder_ok && (spec_required_format(policy.format) is None || accepts_required_format)
}

/// Whether `factory` may be used under `policy`. Shared with the HLS path so
/// both pipelines honour the setting the same way. `accepts_required_format`
/// is whether the factory's sink template takes `policy.format.required()`.
pub fn allowed(factory: &str, policy: EncodingPolicy, accepts_required_format: bool) -> (r: bool)
    ensures
        r == spec_allowed(factory@, policy, accepts_required_format),
{
    let encoder_ok = match policy.encoder {
        EncoderPolicy::Auto => true,
        EncoderPolicy::Hardware => is_hardware(factory),
        EncoderPolicy::Software => !is_hardware(factory),
    };
    encoder_ok && (policy.format.required().is_none() || accepts_required_format)
}

/// The bitrate in kbit/s that most encoders take, at least 1.
pub open spec fn kbps(bitrate_bps: u32) -> nat {
    if bitrate_bps / 1000 < 1 {
        1
    } else {
        (bitrate_bps / 1000) as nat
    }
}

/// The keyframe interval: two seconds of frames, at least 1.
pub open spec fn key_interval(fps: u32) -> nat {
    let doubled = if fps * 2 > u32::MAX {
        u32::MAX as int
    } else {
        fps * 2
    };
    if doubled < 1 {
        1
    } else {
        doubled as nat
    }
}

/// The launch fragment configuring `factory` for low-latency CBR.
pub open spec fn spec_launch_for(factory: Seq<char>, bitrate_bps: u32, fps: u32) -> Seq<char> {
    let kbps = decimal(kbps(bitrate_bps));
    let key_int = decimal(key_interval(fps));
    if factory == "vp8enc"@ || factory == "vp9enc"@ {
        factory + " name=venc deadline=1 cpu-used=8 end-usage=cbr target-bitrate="@ + decimal(
            bitrate_bps as nat,
        ) + " keyframe-max-dist="@ + key_int + " lag-in-frames=0 error-resilient=default threads=4"@
    } else if factory == "svtav1enc"@ {
        "svtav1enc name=venc preset=12 target-bitrate="@ + kbps + " intra-period-length="@
            + key_int
    } else if factory == "av1enc"@ {
        "av1enc name=venc usage-profile=realtime end-usage=cbr target-bitrate="@ + kbps
            + " cpu-used=9 lag-in-frames=0 keyframe-max-dist="@ + key_int + " threads=4"@
    } else if factory == "x264enc"@ {
        "x264enc name=venc tune=zerolatency speed-preset=veryfast bitrate="@ + kbps
            + " key-int-max="@ + key_int + " bframes=0"@
    } else if has_prefix(factory, "va"@) {
        factory + " name=venc bitrate="@ + kbps + " rate-control=cbr"@
    } else if has_prefix(factory, "nv"@) {
        factory + " name=venc bitrate="@ + kbps + " rc-mode=cbr"@
    } else {
        factory + " name=venc"@
    }
}

/// The launch fragment configuring `factory` for low-latency CBR at
/// `bitrate_bps`, producing an element named `venc` (so keyframe forcing can
/// find it). `fps` sizes the keyframe interval. Hardware params are kept
/// minimal - just bitrate and CBR - to maximise the chance they parse across
/// driver/plugin versions; the parse-check drops any that don't.
pub fn launch_for(factory: &str, bitrate_bps: u32, fps: u32) -> (r: String)
    ensures
        r@ == spec_launch_for(factory@, bitrate_bps, fps),
{
    // svtav1/av1/VA/NVENC want kbit/s
    let kbps: u32 = if bitrate_bps / 1000 < 1 {
        1
    } else {
        bitrate_bps / 1000
    };
    let doubled: u32 = if fps > u32::MAX / 2 {
        u32::MAX
    } else {
        fps * 2
    };
    let key_int: u32 = if doubled < 1 {
        1
    } else {
        doubled
    };
    let mut s = String::new();
    if str_equal(factory, "vp8enc") || str_equal(factory, "vp9enc") {
        // vp8enc and vp9enc share the VPX base and its properties (bit/s).
        push_str(&mut s, factory);
        push_str(&mut s, " name=venc deadline=1 cpu-used=8 end-usage=cbr target-bitrate=");
        push_decimal(&mut s, bitrate_bps as u64);
        push_str(&mut s, " keyframe-max-dist=");
        push_decimal(&mut s, key_int as u64);
        push_str(&mut s, " lag-in-frames=0 error-resilient=default threads=4");
    } else if str_equal(factory, "svtav1enc") {
        push_str(&mut s, "svtav1enc name=venc preset=12 target-bitrate=");
        push_decimal(&mut s, kbps as u64);
        push_str(&mut s, " intra-period-length=");
        push_decimal(&mut s, key_int as u64);
    } else if str_equal(factory, "av1enc") {
        push_str(&mut s, "av1enc name=venc usage-profile=realtime end-usage=cbr target-bitrate=");
        push_decimal(&mut s, kbps as u64);
        push_str(&mut s, " cpu-used=9 lag-in-frames=0 keyframe-max-dist=");
        push_decimal(&mut s, key_int as u64);
        push_str(&mut s, " threads=4");
    } else if str_equal(factory, "x264enc") {
        push_str(&mut s, "x264enc name=venc tune=zerolatency speed-preset=veryfast bitrate=");
        push_decimal(&mut s, kbps as u64);
        push_str(&mut s, " key-int-max=");
        push_decimal(&mut s, key_int as u64);
        push_str(&mut s, " bframes=0");
    } else if str_starts_with(factory, "va") {
        // VA-API (GStreamer 'va' plugin): bitrate in kbit/s, CBR rate control.
        push_str(&mut s, factory);
        push_str(&mut s, " name=venc bitrate=");
        push_decimal(&mut s, kbps as u64);
        push_str(&mut s, " rate-control=cbr");
    } else if str_starts_with(factory, "nv") {
        // NVENC (GStreamer 'nvcodec' plugin).
        push_str(&mut s, factory);
        push_str(&mut s, " name=venc bitrate=");
        push_decimal(&mut s, kbps as u64);
        push_str(&mut s, " rc-mode=cbr");
    } else {
        push_str(&mut s, factory);
        push_str(&mut s, " name=venc");
    }
    s
}

/// What `GStreamer` reports about one candidate factory: whether its sink
/// template accepts the raw format the policy requires, and whether its
/// launch fragment parses.
#[derive(Clone, Copy, PartialEq, Eq, Structural, Debug)]
pub struct FactoryProbe {
    pub accepts_required_format: bool,
    pub parses: bool,
}

/// Whether the `i`th factory for `codec` can be used.
pub open spec fn usable(
    codec: VideoCodec,
    policy: EncodingPolicy,
    probes: Seq<FactoryProbe>,
    i: int,
) -> bool {
    spec_allowed(spec_factories(codec)[i], policy, probes[i].accepts_required_format)
        && probes[i].parses
}

/// The index of the first usable factory for `codec` at or after `from`.
pub open spec fn first_usable(
    codec: VideoCodec,
    policy: EncodingPolicy,
    probes: Seq<FactoryProbe>,
    from: int,
) -> Option<int>
    decreases spec_factories(codec).len() - from,
{
    if from < 0 || from >= spec_factories(codec).len() {
        None
    } else if usable(codec, policy, probes, from) {
        Some(from)
    } else {
        first_usable(codec, policy, probes, from + 1)
    }
}

/// The encoder chosen for `codec`: the launch fragment of the first usable
/// factory and whether it is hardware.
pub open spec fn spec_video_encoder(
    codec: VideoCodec,
    bitrate_bps: u32,
    fps: u32,
    policy: EncodingPolicy,
    probes: Seq<FactoryProbe>,
) -> Option<(Seq<char>, bool)> {
    match first_usable(codec, policy, probes, 0) {
        Some(i) => Some(
            (
                spec_launch_for(spec_factories(codec)[i], bitrate_bps, fps),
                spec_is_hardware(spec_factories(codec)[i]),
            ),
        ),
        None => None,
    }
}

/// The encoder fragment for `codec` and whether it is hardware, or `None` when
/// no encoder for it is installed **and** permitted by `policy`. Returns the
/// first candidate that actually parses. `probes[i]` describes
/// `factories(codec)[i]` at this bitrate and frame rate.
pub fn video_encoder(
    codec: VideoCodec,
    bitrate_bps: u32,
    fps: u32,
    policy: EncodingPolicy,
    probes: &[FactoryProbe],
) -> (r: Option<(String, bool)>)
    requires
        probes@.len() == spec_factories(codec).len(),
    ensures
        match spec_video_encoder(codec, bitrate_bps, fps, policy, probes@) {
            None => r is None,
            Some((fragment, hardware)) => match r {
                Some((chosen, is_hw)) => chosen@ == fragment && is_hw == hardware,
                None => false,
            },
        },
{
    let candidates = factories(codec);
    let mut i: usize = 0;
    while i < candidates.len()
        invariant
            i <= candidates@.len(),
            candidates@.len() == spec_factories(codec).len(),
            probes@.len() == spec_factories(codec).len(),
            forall|k: int| 0 <= k < candidates@.len() ==> #[trigger] candidates@[k]@ == spec_factories(codec)[k],
            first_usable(codec, policy, probes@, 0) == first_usable(codec, policy, probes@, i as int),
        decreases candidates@.len() - i,
    {
        let factory = candidates[i];
        let probe = probes[i];
        if allowed(factory, policy, probe.accepts_required_format) && probe.parses {
            let fragment = launch_for(factory, bitrate_bps, fps);
            return Some((fragment, is_hardware(factory)));
        }
        i += 1;
    }
    None
}

/// Whether a usable encoder was found for the `i`th codec in efficiency
/// order, and if so whether it is hardware.
pub open spec fn found_encoder(policy: EncodingPolicy, probes: Seq<Seq<FactoryProbe>>, i: int) -> Option<bool> {
    match spec_video_encoder(efficiency_order()[i], 4_000_000, 30, policy, probes[i]) {
        Some((_, hardware)) => Some(hardware),
        None => None,
    }
}

/// The codecs among the first `n` in efficiency order whose encoder was
/// found and is (or is not, per `hardware`) hardware, in efficiency order.
pub open spec fn codecs_found(
    policy: EncodingPolicy,
    probes: Seq<Seq<FactoryProbe>>,
    hardware: bool,
    n: int,
) -> Seq<VideoCodec>
    decreases n,
{
    if n <= 0 {
        seq![]
    } else if found_encoder(policy, probes, n - 1) == Some(hardware) {
        codecs_found(policy, probes, hardware, n - 1).push(efficiency_order()[n - 1])
    } else {
        codecs_found(policy, probes, hardware, n - 1)
    }
}

/// The codecs we can encode: hardware-encodable ones first, then by
/// efficiency.
pub open spec fn spec_available_video_codecs(
    policy: EncodingPolicy,
    probes: Seq<Seq<FactoryProbe>>,
) -> Seq<VideoCodec> {
    codecs_found(policy, probes, true, 4) + codecs_found(policy, probes, false, 4)
}

/// Whether `probes` has one probe list per codec in efficiency order, each
/// with one probe per candidate factory.
pub open spec fn probes_fit(probes: Seq<Vec<FactoryProbe>>) -> bool {
    &&& probes.len() == 4
    &&& forall|i: int|
        0 <= i < 4 ==> #[trigger] probes[i]@.len() == spec_factories(efficiency_order()[i]).len()
}

/// The views of the probe lists.
pub open spec fn probe_views(probes: Seq<Vec<FactoryProbe>>) -> Seq<Seq<FactoryProbe>> {
    probes.map_values(|p: Vec<FactoryProbe>| p@)
}

/// The codecs we can encode on this host, **hardware-encodable ones first**,
/// then by efficiency. Used to build the OFFER - we advertise only codecs we
/// can produce, in the order we prefer to use them. `probes[i]` describes the
/// factories of `EFFICIENCY_ORDER[i]` at 4 Mbit/s and 30 fps.
pub fn available_video_codecs(policy: EncodingPolicy, probes: &Vec<Vec<FactoryProbe>>) -> (r: Vec<
    VideoCodec,
>)
    requires
        probes_fit(probes@),
    ensures
        r@ == spec_available_video_codecs(policy, probe_views(probes@)),
{
    let order = efficiency_order_vec();
    let ghost views = probe_views(probes@);
    let mut hardware: Vec<VideoCodec> = Vec::new();
    let mut software: Vec<VideoCodec> = Vec::new();
    let mut i: usize = 0;
    while i < 4
        invariant
            i <= 4,
            order@ == efficiency_order(),
            probes_fit(probes@),
            views == probe_views(probes@),
            hardware@ == codecs_found(policy, views, true, i as int),
            software@ == codecs_found(policy, views, false, i as int),
        decreases 4 - i,
    {
        let codec = order[i];
        assert(probes@[i as int]@ == views[i as int]);
        match video_encoder(codec, 4_000_000, 30, policy, probes[i].as_slice()) {
            Some((_, true)) => hardware.push(codec),
            Some((_, false)) => software.push(codec),
            None => {},
        }
        i += 1;
    }
    hardware.append(&mut software);
    hardware
}

/// The codecs in efficiency order.
pub fn efficiency_order_vec() -> (r: Vec<VideoCodec>)
    ensures
        r@ == efficiency_order(),
{
    let r = vec![VideoCodec::Av1, VideoCodec::Vp9, VideoCodec::H264, VideoCodec::Vp8];
    assert(r@ =~= efficiency_order());
    r
}

/// Why no encoder was usable, phrased for the user - this reaches them verbatim
/// through `user_message()`, so it names the setting to change rather than the
/// `GStreamer` element that was missing.
pub open spec fn spec_policy_failure_message(policy: EncodingPolicy) -> Seq<char> {
    match (policy.encoder, policy.format) {
        (EncoderPolicy::Auto, FormatPolicy::Auto) =>
            "No video encoder is installed. Install the GStreamer encoder plugins for your system."@,
        (EncoderPolicy::Hardware, _) =>
            "No hardware video encoder can be used for this device. Set the video encoder preference back to automatic."@,
        (EncoderPolicy::Software, _) =>
            "No software video encoder can be used for this device. Set the video encoder preference back to automatic."@,
        (EncoderPolicy::Auto, _) =>
            "No video encoder accepts the selected pixel format. Set the pixel format preference back to automatic."@,
    }
}

/// Why no encoder was usable, phrased for the user.
pub fn policy_failure_message(policy: EncodingPolicy) -> (r: String)
    ensures
        r@ == spec_policy_failure_message(policy),
{
    match (policy.encoder, policy.format) {
        (EncoderPolicy::Auto, FormatPolicy::Auto) => {
            "No video encoder is installed. Install the GStreamer encoder plugins for your system.".to_owned()
        },
        (EncoderPolicy::Hardware, _) => {
            "No hardware video encoder can be used for this device. Set the video encoder preference back to automatic.".to_owned()
        },
        (EncoderPolicy::Software, _) => {
            "No software video encoder can be used for this device. Set the video encoder preference back to automatic.".to_owned()
        },
        (EncoderPolicy::Auto, _) => {
            "No video encoder accepts the selected pixel format. Set the pixel format preference back to automatic.".to_owned()
        },
    }
}

} // verus!
