//! Video encoder selection for the mirroring path.
//!
//! Mirroring shares the codecs, factory lists and hardware detection of
//! [`crate::streaming::encoder`], but configures its encoders with a long
//! keyframe distance for the VPX and AOM encoders (the receiver asks for key
//! frames when it needs them) and applies no user policy: every installed
//! encoder whose fragment parses is a candidate.

use vstd::prelude::*;

pub use crate::streaming::encoder::VideoCodec;
use crate::streaming::encoder::{
    efficiency_order, efficiency_order_vec, factories, is_hardware, spec_factories,
    spec_is_hardware,
};
use crate::text::{decimal, has_prefix, push_decimal, push_str, str_equal, str_starts_with};

verus! {

/// The bitrate in kbit/s that most encoders take, at least 1.
pub open spec fn kbps(bitrate_bps: u32) -> nat {
    if bitrate_bps / 1000 < 1 {
        1
    } else {
        (bitrate_bps / 1000) as nat
    }
}

/// Two seconds of frames, at least 1.
pub open spec fn key_interval(fps: u32) -> nat {
    if fps * 2 < 1 {
        1
    } else {
        (fps * 2) as nat
    }
}

/// The launch fragment configuring `factory` for low-latency CBR.
pub open spec fn spec_launch_for(factory: Seq<char>, bitrate_bps: u32, fps: u32) -> Seq<char> {
    let kbps = decimal(kbps(bitrate_bps));
    let key_int = decimal(key_interval(fps));
    if factory == "vp8enc"@ || factory == "vp9enc"@ {
        factory + " name=venc deadline=1 cpu-used=8 end-usage=cbr target-bitrate="@ + decimal(
            bitrate_bps as nat,
        ) + " keyframe-max-dist="@ + key_int + " lag-in-frames=0 error-resilient=default threads=4"@
    } else if factory == "svtav1enc"@ {
        "svtav1enc name=venc preset=12 target-bitrate="@ + kbps + " intra-period-length="@
            + key_int
    } else if factory == "av1enc"@ {
        "av1enc name=venc usage-profile=realtime end-usage=cbr target-bitrate="@ + kbps
            + " cpu-used=9 lag-in-frames=0 keyframe-max-dist="@ + key_int + " threads=4"@
    } else if factory == "x264enc"@ {
        "x264enc name=venc tune=zerolatency speed-preset=veryfast bitrate="@ + kbps
            + " key-int-max="@ + key_int + " bframes=0"@
    } else if has_prefix(factory, "va"@) {
        factory + " name=venc bitrate="@ + kbps + " rate-control=cbr"@
    } else if has_prefix(factory, "nv"@) {
        factory + " name=venc bitrate="@ + kbps + " rc-mode=cbr"@
    } else {
        factory + " name=venc"@
    }
}

/// The launch fragment configuring `factory` for low-latency CBR at
/// `bitrate_bps`, producing an element named `venc` (so keyframe forcing can
/// find it). `fps` sizes the keyframe interval: a key frame about every two
/// seconds, so a decoder that lost sync recovers quickly.
pub fn launch_for(factory: &str, bitrate_bps: u32, fps: u32) -> (r: String)
    requires
        fps * 2 <= u32::MAX,
    ensures
        r@ == spec_launch_for(factory@, bitrate_bps, fps),
{
    // svtav1/av1/VA/NVENC want kbit/s
    let kbps: u32 = if bitrate_bps / 1000 < 1 {
        1
    } else {
        bitrate_bps / 1000
    };
    let key_int: u32 = if fps * 2 < 1 {
        1
    } else {
        fps * 2
    };
    let mut s = String::new();
    if str_equal(factory, "vp8enc") || str_equal(factory, "vp9enc") {
        // vp8enc and vp9enc share the VPX base and its properties (bit/s).
        push_str(&mut s, factory);
        push_str(&mut s, " name=venc deadline=1 cpu-used=8 end-usage=cbr target-bitrate=");
        push_decimal(&mut s, bitrate_bps as u64);
        push_str(&mut s, " keyframe-max-dist=");
        push_decimal(&mut s, key_int as u64);
        push_str(&mut s, " lag-in-frames=0 error-resilient=default threads=4");
    } else if str_equal(factory, "svtav1enc") {
        push_str(&mut s, "svtav1enc name=venc preset=12 target-bitrate=");
        push_decimal(&mut s, kbps as u64);
        push_str(&mut s, " intra-period-length=");
        push_decimal(&mut s, key_int as u64);
    } else if str_equal(factory, "av1enc") {
        push_str(&mut s, "av1enc name=venc usage-profile=realtime end-usage=cbr target-bitrate=");
        push_decimal(&mut s, kbps as u64);
        push_str(&mut s, " cpu-used=9 lag-in-frames=0 keyframe-max-dist=");
        push_decimal(&mut s, key_int as u64);
        push_str(&mut s, " threads=4");
    } else if str_equal(factory, "x264enc") {
        push_str(&mut s, "x264enc name=venc tune=zerolatency speed-preset=veryfast bitrate=");
        push_decimal(&mut s, kbps as u64);
        push_str(&mut s, " key-int-max=");
        push_decimal(&mut s, key_int as u64);
        push_str(&mut s, " bframes=0");
    } else if str_starts_with(factory, "va") {
        // VA-API (GStreamer 'va' plugin): bitrate in kbit/s, CBR rate control.
        push_str(&mut s, factory);
        push_str(&mut s, " name=venc bitrate=");
        push_decimal(&mut s, kbps as u64);
        push_str(&mut s, " rate-control=cbr");
    } else if str_starts_with(factory, "nv") {
        // NVENC (GStreamer 'nvcodec' plugin).
        push_str(&mut s, factory);
        push_str(&mut s, " name=venc bitrate=");
        push_decimal(&mut s, kbps as u64);
        push_str(&mut s, " rc-mode=cbr");
    } else {
        push_str(&mut s, factory);
        push_str(&mut s, " name=venc");
    }
    s
}

/// The index of the first factory for `codec` at or after `from` whose
/// fragment parses.
pub open spec fn first_parsing(codec: VideoCodec, parses: Seq<bool>, from: int) -> Option<int>
    decreases spec_factories(codec).len() - from,
{
    if from < 0 || from >= spec_factories(codec).len() {
        None
    } else if parses[from] {
        Some(from)
    } else {
        first_parsing(codec, parses, from + 1)
    }
}

/// The encoder chosen for `codec`: the fragment of the first factory that
/// parses, and whether it is hardware.
pub open spec fn spec_video_encoder(
    codec: VideoCodec,
    bitrate_bps: u32,
    fps: u32,
    parses: Seq<bool>,
) -> Option<(Seq<char>, bool)> {
    match first_parsing(codec, parses, 0) {
        Some(i) => Some(
            (
                spec_launch_for(spec_factories(codec)[i], bitrate_bps, fps),
                spec_is_hardware(spec_factories(codec)[i]),
            ),
        ),
        None => None,
    }
}

/// The encoder fragment for `codec` and whether it is hardware, or `None` when
/// no working encoder for it is installed. Returns the first candidate that
/// actually parses: `parses[i]` is whether the fragment of
/// `factories(codec)[i]` at this bitrate and frame rate parses.
pub fn video_encoder(codec: VideoCodec, bitrate_bps: u32, fps: u32, parses: &[bool]) -> (r: Option<
    (String, bool),
>)
    requires
        fps * 2 <= u32::MAX,
        parses@.len() == spec_factories(codec).len(),
    ensures
        match spec_video_encoder(codec, bitrate_bps, fps, parses@) {
            None => r is None,
            Some((fragment, hardware)) => match r {
                Some((chosen, is_hw)) => chosen@ == fragment && is_hw == hardware,
                None => false,
            },
        },
{
    let candidates = factories(codec);
    let mut i: usize = 0;
    while i < candidates.len()
        invariant
            i <= candidates@.len(),
            fps * 2 <= u32::MAX,
            candidates@.len() == spec_factories(codec).len(),
            parses@.len() == spec_factories(codec).len(),
            forall|k: int| 0 <= k < candidates@.len() ==> #[trigger] candidates@[k]@ == spec_factories(codec)[k],
            first_parsing(codec, parses@, 0) == first_parsing(codec, parses@, i as int),
        decreases candidates@.len() - i,
    {
        if parses[i] {
            let factory = candidates[i];
            let fragment = launch_for(factory, bitrate_bps, fps);
            return Some((fragment, is_hardware(factory)));
        }
        i += 1;
    }
    None
}

/// Whether a working encoder was found for the `i`th codec in efficiency
/// order, and if so whether it is hardware.
pub open spec fn found_encoder(parses: Seq<Seq<bool>>, i: int) -> Option<bool> {
    match spec_video_encoder(efficiency_order()[i], 4_000_000, 30, parses[i]) {
        Some((_, hardware)) => Some(hardware),
        None => None,
    }
}

/// The codecs among the first `n` in efficiency order whose encoder was
/// found and is (or is not, per `hardware`) hardware, in efficiency order.
pub open spec fn codecs_found(parses: Seq<Seq<bool>>, hardware: bool, n: int) -> Seq<VideoCodec>
    decreases n,
{
    if n <= 0 {
        seq![]
    } else if found_encoder(parses, n - 1) == Some(hardware) {
        codecs_found(parses, hardware, n - 1).push(efficiency_order()[n - 1])
    } else {
        codecs_found(parses, hardware, n - 1)
    }
}

/// Whether `parses` has one list per codec in efficiency order, each with
/// one entry per candidate factory.
pub open spec fn parses_fit(parses: Seq<Vec<bool>>) -> bool {
    &&& parses.len() == 4
    &&& forall|i: int|
        0 <= i < 4 ==> #[trigger] parses[i]@.len() == spec_factories(efficiency_order()[i]).len()
}

/// The views of the parse-check lists.
pub open spec fn parse_views(parses: Seq<Vec<bool>>) -> Seq<Seq<bool>> {
    parses.map_values(|p: Vec<bool>| p@)
}

/// The codecs we can encode on this host, **hardware-encodable ones first**,
/// then by efficiency. `parses[i]` holds the parse checks of the factories
/// of `EFFICIENCY_ORDER[i]` at 4 Mbit/s and 30 fps.
pub fn available_video_codecs(parses: &Vec<Vec<bool>>) -> (r: Vec<VideoCodec>)
    requires
        parses_fit(parses@),
    ensures
        r@ == codecs_found(parse_views(parses@), true, 4) + codecs_found(
            parse_views(parses@),
            false,
            4,
        ),
{
    let order = efficiency_order_vec();
    let ghost views = parse_views(parses@);
    let mut hardware: Vec<VideoCodec> = Vec::new();
    let mut software: Vec<VideoCodec> = Vec::new();
    let mut i: usize = 0;
    while i < 4
        invariant
            i <= 4,
            order@ == efficiency_order(),
            parses_fit(parses@),
            views == parse_views(parses@),
            hardware@ == codecs_found(views, true, i as int),
            software@ == codecs_found(views, false, i as int),
        decreases 4 - i,
    {
        let codec = order[i];
        assert(parses@[i as int]@ == views[i as int]);
        match video_encoder(codec, 4_000_000, 30, parses[i].as_slice()) {
            Some((_, true)) => hardware.push(codec),
            Some((_, false)) => software.push(codec),
            None => {},
        }
        i += 1;
    }
    hardware.append(&mut software);
    hardware
}

} // verus!
