//! OFFER/ANSWER messages for the `urn:x-cast:com.google.cast.webrtc`
//! namespace. The OFFER is written here as JSON text; the ANSWER is read
//! from its parsed JSON value.

use vstd::prelude::*;

use crate::json::{JsonValue, spec_as_str, spec_get};
use crate::text::{decimal, hex, occurs, occurs_at, push_decimal, push_hex, push_str, str_equal};

verus! {

pub const WEBRTC_NAMESPACE: &'static str = "urn:x-cast:com.google.cast.webrtc";

/// The "Chrome Mirroring" receiver app.
pub const MIRRORING_APP_ID: &'static str = "0F5096E8";

/// The default end-to-end target playout delay for mirroring.
pub const TARGET_PLAYOUT_DELAY_MS: u16 = 400;

/// RTP payload types. Some receivers require audio=127 and video=96
/// regardless of codec, so these legacy values are always sent.
pub const AUDIO_PAYLOAD_TYPE: u8 = 127;

pub const VIDEO_PAYLOAD_TYPE: u8 = 96;

pub const AUDIO_RTP_TIMEBASE: u32 = 48_000;

pub const VIDEO_RTP_TIMEBASE: u32 = 90_000;

pub struct AudioParams {
    pub index: u32,
    pub ssrc: u32,
    pub aes_key: [u8; 16],
    pub aes_iv_mask: [u8; 16],
    pub bit_rate: u32,
}

pub struct VideoParams {
    pub index: u32,
    pub ssrc: u32,
    pub aes_key: [u8; 16],
    pub aes_iv_mask: [u8; 16],
    /// Cast OFFER `codecName` (e.g. "vp8"/"vp9"/"av1"); one variant per codec.
    pub codec_name: &'static str,
    pub max_bit_rate: u32,
    pub max_fps: u32,
    pub width: u32,
    pub height: u32,
}

/// The lower-case hexadecimal form of a key.
pub fn hex_key(bytes: &[u8; 16]) -> (r: String)
    ensures
        r@ == hex(bytes@),
        r@.len() == 32,
{
    let mut s = String::new();
    push_hex(&mut s, bytes);
    proof {
        lemma_hex_len(bytes@);
    }
    s
}

proof fn lemma_hex_len(bytes: Seq<u8>)
    ensures
        hex(bytes).len() == 2 * bytes.len(),
    decreases bytes.len(),
{
    if bytes.len() > 0 {
        lemma_hex_len(bytes.drop_last());
    }
}

/// The JSON text of a number.
pub open spec fn num(n: u32) -> Seq<char> {
    decimal(n as nat)
}

/// The OFFER entry of the audio stream.
pub open spec fn spec_audio_stream(a: AudioParams) -> Seq<char> {
    "{\"index\":"@ + num(a.index)
        + ",\"type\":\"audio_source\",\"codecName\":\"opus\",\"rtpProfile\":\"cast\",\"rtpPayloadType\":127,\"ssrc\":"@
        + num(a.ssrc) + ",\"targetDelay\":400,\"aesKey\":\""@ + hex(a.aes_key@)
        + "\",\"aesIvMask\":\""@ + hex(a.aes_iv_mask@)
        + "\",\"timeBase\":\"1/48000\",\"channels\":2,\"bitRate\":"@ + num(a.bit_rate)
        + ",\"receiverRtcpEventLog\":false}"@
}

/// The OFFER entry of one video variant.
pub open spec fn spec_video_stream(v: VideoParams) -> Seq<char> {
    "{\"index\":"@ + num(v.index) + ",\"type\":\"video_source\",\"codecName\":\""@
        + v.codec_name@ + "\",\"rtpProfile\":\"cast\",\"rtpPayloadType\":96,\"ssrc\":"@ + num(
        v.ssrc,
    ) + ",\"targetDelay\":400,\"aesKey\":\""@ + hex(v.aes_key@) + "\",\"aesIvMask\":\""@ + hex(
        v.aes_iv_mask@,
    ) + "\",\"timeBase\":\"1/90000\",\"channels\":1,\"maxFrameRate\":\""@ + num(v.max_fps)
        + "/1\",\"maxBitRate\":"@ + num(v.max_bit_rate)
        + ",\"profile\":\"\",\"level\":\"\",\"resolutions\":[{\"width\":"@ + num(v.width)
        + ",\"height\":"@ + num(v.height) + "}],\"receiverRtcpEventLog\":false}"@
}

/// The entries of `videos`, comma-separated, each preceded by a comma when
/// `comma_first`.
pub open spec fn spec_video_streams(videos: Seq<VideoParams>, comma_first: bool) -> Seq<char>
    decreases videos.len(),
{
    if videos.len() == 0 {
        seq![]
    } else {
        let before = spec_video_streams(videos.drop_last(), comma_first);
        let separator = if videos.len() > 1 || comma_first {
            ","@
        } else {
            ""@
        };
        before + separator + spec_video_stream(videos.last())
    }
}

/// The OFFER message body: `{"type":"OFFER","seqNum":..,"offer":{..}}`, the
/// audio stream (if any) first, then one variant per video codec.
pub open spec fn spec_offer(seq_num: u32, audio: Option<AudioParams>, videos: Seq<VideoParams>) -> Seq<
    char,
> {
    "{\"type\":\"OFFER\",\"seqNum\":"@ + num(seq_num)
        + ",\"offer\":{\"castMode\":\"mirroring\",\"supportedStreams\":["@ + match audio {
        Some(a) => spec_audio_stream(a),
        None => ""@,
    } + spec_video_streams(videos, audio is Some) + "]}}"@
}

/// The text of an OFFER entry that ties a stream's SSRC to the AES key and
/// IV mask it is encrypted with.
pub open spec fn key_binding(ssrc: u32, aes_key: Seq<u8>, aes_iv_mask: Seq<u8>) -> Seq<char> {
    "\"ssrc\":"@ + num(ssrc) + ",\"targetDelay\":400,\"aesKey\":\""@ + hex(aes_key)
        + "\",\"aesIvMask\":\""@ + hex(aes_iv_mask) + "\""@
}

proof fn lemma_occurs_itself(p: Seq<char>)
    ensures
        occurs(p, p),
{
    assert(p.subrange(0, p.len() as int) =~= p);
    assert(occurs_at(p, p, 0));
}

proof fn lemma_occurs_in_middle(a: Seq<char>, b: Seq<char>, c: Seq<char>, p: Seq<char>)
    requires
        occurs(b, p),
    ensures
        occurs(a + b + c, p),
{
    let at = choose|at: int| occurs_at(b, p, at);
    let s = a + b + c;
    assert(s.subrange(a.len() + at, a.len() + at + p.len()) =~= b.subrange(at, at + p.len()));
    assert(occurs_at(s, p, a.len() + at));
}

proof fn lemma_occurs_within(s: Seq<char>, t: Seq<char>, p: Seq<char>)
    requires
        occurs(s, t),
        occurs(t, p),
    ensures
        occurs(s, p),
{
    let x = choose|x: int| occurs_at(s, t, x);
    let y = choose|y: int| occurs_at(t, p, y);
    assert(s.subrange(x + y, x + y + p.len()) =~= t.subrange(y, y + p.len())) by {
        assert(s.subrange(x, x + t.len()) == t);
        assert forall|i: int| 0 <= i < p.len() implies #[trigger] s.subrange(
            x + y,
            x + y + p.len(),
        )[i] == t.subrange(y, y + p.len())[i] by {
            assert(s.subrange(x, x + t.len())[y + i] == t[y + i]);
        }
    }
    assert(occurs_at(s, p, x + y));
}

proof fn lemma_audio_stream_binds_keys(a: AudioParams)
    ensures
        occurs(spec_audio_stream(a), key_binding(a.ssrc, a.aes_key@, a.aes_iv_mask@)),
{
    reveal_strlit(
        ",\"type\":\"audio_source\",\"codecName\":\"opus\",\"rtpProfile\":\"cast\",\"rtpPayloadType\":127,\"ssrc\":",
    );
    reveal_strlit(
        ",\"type\":\"audio_source\",\"codecName\":\"opus\",\"rtpProfile\":\"cast\",\"rtpPayloadType\":127,",
    );
    reveal_strlit("\"ssrc\":");
    reveal_strlit("\",\"timeBase\":\"1/48000\",\"channels\":2,\"bitRate\":");
    reveal_strlit(",\"timeBase\":\"1/48000\",\"channels\":2,\"bitRate\":");
    reveal_strlit("\"");
    let kb = key_binding(a.ssrc, a.aes_key@, a.aes_iv_mask@);
    let pre = "{\"index\":"@ + num(a.index)
        + ",\"type\":\"audio_source\",\"codecName\":\"opus\",\"rtpProfile\":\"cast\",\"rtpPayloadType\":127,"@;
    let post = ",\"timeBase\":\"1/48000\",\"channels\":2,\"bitRate\":"@ + num(a.bit_rate)
        + ",\"receiverRtcpEventLog\":false}"@;
    assert(spec_audio_stream(a) =~= pre + kb + post);
    lemma_occurs_itself(kb);
    lemma_occurs_in_middle(pre, kb, post, kb);
}

proof fn lemma_video_stream_binds_keys(v: VideoParams)
    ensures
        occurs(spec_video_stream(v), key_binding(v.ssrc, v.aes_key@, v.aes_iv_mask@)),
{
    reveal_strlit("\",\"rtpProfile\":\"cast\",\"rtpPayloadType\":96,\"ssrc\":");
    reveal_strlit("\",\"rtpProfile\":\"cast\",\"rtpPayloadType\":96,");
    reveal_strlit("\"ssrc\":");
    reveal_strlit("\",\"timeBase\":\"1/90000\",\"channels\":1,\"maxFrameRate\":\"");
    reveal_strlit(",\"timeBase\":\"1/90000\",\"channels\":1,\"maxFrameRate\":\"");
    reveal_strlit("\"");
    let kb = key_binding(v.ssrc, v.aes_key@, v.aes_iv_mask@);
    let pre = "{\"index\":"@ + num(v.index) + ",\"type\":\"video_source\",\"codecName\":\""@
        + v.codec_name@ + "\",\"rtpProfile\":\"cast\",\"rtpPayloadType\":96,"@;
    let post = ",\"timeBase\":\"1/90000\",\"channels\":1,\"maxFrameRate\":\""@ + num(v.max_fps)
        + "/1\",\"maxBitRate\":"@ + num(v.max_bit_rate)
        + ",\"profile\":\"\",\"level\":\"\",\"resolutions\":[{\"width\":"@ + num(v.width)
        + ",\"height\":"@ + num(v.height) + "}],\"receiverRtcpEventLog\":false}"@;
    assert(spec_video_stream(v) =~= pre + kb + post);
    lemma_occurs_itself(kb);
    lemma_occurs_in_middle(pre, kb, post, kb);
}

proof fn lemma_video_streams_contain(videos: Seq<VideoParams>, comma_first: bool, i: int)
    requires
        0 <= i < videos.len(),
    ensures
        occurs(spec_video_streams(videos, comma_first), spec_video_stream(videos[i])),
    decreases videos.len(),
{
    let rest = videos.drop_last();
    let before = spec_video_streams(rest, comma_first);
    let separator = if videos.len() > 1 || comma_first {
        ","@
    } else {
        ""@
    };
    let last = spec_video_stream(videos.last());
    assert(spec_video_streams(videos, comma_first) == before + separator + last);
    if i == videos.len() - 1 {
        lemma_occurs_itself(last);
        lemma_occurs_in_middle(before + separator, last, Seq::<char>::empty(), last);
        assert(before + separator + last + Seq::<char>::empty() =~= before + separator + last);
    } else {
        lemma_video_streams_contain(rest, comma_first, i);
        assert(rest[i] == videos[i]);
        lemma_occurs_in_middle(Seq::<char>::empty(), before, separator + last, spec_video_stream(
            videos[i],
        ));
        assert(Seq::<char>::empty() + before + (separator + last) =~= before + separator + last);
    }
}

/// The OFFER ties every stream to its own keys: for the audio stream and for
/// each video variant, the text `"ssrc":<its ssrc>,"targetDelay":400,
/// "aesKey":"<hex of its AES key>","aesIvMask":"<hex of its IV mask>"`
/// occurs in it, so the receiver decrypts each stream with the key it was
/// encrypted with.
pub proof fn lemma_offer_binds_keys(seq_num: u32, audio: Option<AudioParams>, videos: Seq<VideoParams>)
    ensures
        forall|i: int|
            0 <= i < videos.len() ==> occurs(
                spec_offer(seq_num, audio, videos),
                #[trigger] key_binding(videos[i].ssrc, videos[i].aes_key@, videos[i].aes_iv_mask@),
            ),
        audio matches Some(a) ==> occurs(
            spec_offer(seq_num, audio, videos),
            key_binding(a.ssrc, a.aes_key@, a.aes_iv_mask@),
        ),
{
    let head = "{\"type\":\"OFFER\",\"seqNum\":"@ + num(seq_num)
        + ",\"offer\":{\"castMode\":\"mirroring\",\"supportedStreams\":["@;
    let a_text = match audio {
        Some(a) => spec_audio_stream(a),
        None => ""@,
    };
    let streams = spec_video_streams(videos, audio is Some);
    let tail = "]}}"@;
    let offer = spec_offer(seq_num, audio, videos);
    assert(offer =~= head + a_text + (streams + tail));
    assert(offer =~= (head + a_text) + streams + tail);
    assert forall|i: int| 0 <= i < videos.len() implies occurs(
        offer,
        #[trigger] key_binding(videos[i].ssrc, videos[i].aes_key@, videos[i].aes_iv_mask@),
    ) by {
        lemma_video_streams_contain(videos, audio is Some, i);
        lemma_occurs_in_middle(head + a_text, streams, tail, spec_video_stream(videos[i]));
        lemma_video_stream_binds_keys(videos[i]);
        lemma_occurs_within(
            offer,
            spec_video_stream(videos[i]),
            key_binding(videos[i].ssrc, videos[i].aes_key@, videos[i].aes_iv_mask@),
        );
    }
    if let Some(a) = audio {
        lemma_audio_stream_binds_keys(a);
        lemma_occurs_in_middle(head, a_text, streams + tail, key_binding(
            a.ssrc,
            a.aes_key@,
            a.aes_iv_mask@,
        ));
    }
}

fn push_audio_stream(s: &mut String, a: &AudioParams)
    ensures
        final(s)@ == old(s)@ + spec_audio_stream(*a),
{
    push_str(s, "{\"index\":");
    push_decimal(s, a.index as u64);
    push_str(
        s,
        ",\"type\":\"audio_source\",\"codecName\":\"opus\",\"rtpProfile\":\"cast\",\"rtpPayloadType\":127,\"ssrc\":",
    );
    push_decimal(s, a.ssrc as u64);
    push_str(s, ",\"targetDelay\":400,\"aesKey\":\"");
    push_hex(s, &a.aes_key);
    push_str(s, "\",\"aesIvMask\":\"");
    push_hex(s, &a.aes_iv_mask);
    push_str(s, "\",\"timeBase\":\"1/48000\",\"channels\":2,\"bitRate\":");
    push_decimal(s, a.bit_rate as u64);
    push_str(s, ",\"receiverRtcpEventLog\":false}");
}

fn push_video_stream(s: &mut String, v: &VideoParams)
    ensures
        final(s)@ == old(s)@ + spec_video_stream(*v),
{
    push_str(s, "{\"index\":");
    push_decimal(s, v.index as u64);
    push_str(s, ",\"type\":\"video_source\",\"codecName\":\"");
    push_str(s, v.codec_name);
    push_str(s, "\",\"rtpProfile\":\"cast\",\"rtpPayloadType\":96,\"ssrc\":");
    push_decimal(s, v.ssrc as u64);
    push_str(s, ",\"targetDelay\":400,\"aesKey\":\"");
    push_hex(s, &v.aes_key);
    push_str(s, "\",\"aesIvMask\":\"");
    push_hex(s, &v.aes_iv_mask);
    push_str(s, "\",\"timeBase\":\"1/90000\",\"channels\":1,\"maxFrameRate\":\"");
    push_decimal(s, v.max_fps as u64);
    push_str(s, "/1\",\"maxBitRate\":");
    push_decimal(s, v.max_bit_rate as u64);
    push_str(s, ",\"profile\":\"\",\"level\":\"\",\"resolutions\":[{\"width\":");
    push_decimal(s, v.width as u64);
    push_str(s, ",\"height\":");
    push_decimal(s, v.height as u64);
    push_str(s, "}],\"receiverRtcpEventLog\":false}");
}

/// The OFFER message body as JSON text. Audio is optional (video-only cast
/// when no monitor source exists). `videos` carries one variant per video
/// codec we can encode - the receiver selects one via the ANSWER's
/// `sendIndexes`; it is empty for an audio-only cast.
pub fn offer(seq_num: u32, audio: Option<&AudioParams>, videos: &[VideoParams]) -> (r: String)
    ensures
        r@ == spec_offer(
            seq_num,
            match audio {
                Some(a) => Some(*a),
                None => None,
            },
            videos@,
        ),
        forall|i: int|
            0 <= i < videos@.len() ==> occurs(
                r@,
                #[trigger] key_binding(videos@[i].ssrc, videos@[i].aes_key@, videos@[i].aes_iv_mask@),
            ),
        audio matches Some(a) ==> occurs(r@, key_binding(a.ssrc, a.aes_key@, a.aes_iv_mask@)),
{
    proof {
        lemma_offer_binds_keys(
            seq_num,
            match audio {
                Some(a) => Some(*a),
                None => None,
            },
            videos@,
        );
    }
    let mut s = String::new();
    push_str(&mut s, "{\"type\":\"OFFER\",\"seqNum\":");
    push_decimal(&mut s, seq_num as u64);
    push_str(&mut s, ",\"offer\":{\"castMode\":\"mirroring\",\"supportedStreams\":[");
    let has_audio = audio.is_some();
    match audio {
        Some(a) => push_audio_stream(&mut s, a),
        None => push_str(&mut s, ""),
    }
    let ghost head = s@;
    let mut i: usize = 0;
    while i < videos.len()
        invariant
            i <= videos@.len(),
            s@ == head + spec_video_streams(videos@.take(i as int), has_audio),
        decreases videos@.len() - i,
    {
        let ghost before = s@;
        if i > 0 || has_audio {
            push_str(&mut s, ",");
        } else {
            push_str(&mut s, "");
        }
        push_video_stream(&mut s, &videos[i]);
        assert(videos@.take(i + 1).drop_last() == videos@.take(i as int));
        i += 1;
    }
    assert(videos@.take(videos@.len() as int) == videos@);
    push_str(&mut s, "]}}");
    s
}

/// What the receiver said to an OFFER.
pub struct Answer {
    pub udp_port: u16,
    /// Offer stream indexes the receiver accepted.
    pub send_indexes: Vec<u32>,
}

/// Why an ANSWER could not be used.
#[derive(Clone, Copy, PartialEq, Eq, Structural, Debug)]
pub enum AnswerError {
    /// The receiver did not answer `"result": "ok"`; its `error` member says
    /// why.
    Rejected,
    /// No `udpPort` between 1 and 65535.
    NoUdpPort,
    /// No `sendIndexes` array.
    NoSendIndexes,
}

impl AnswerError {
    /// The message for the user.
    pub fn message(&self) -> (r: &'static str)
        ensures
            r@ == (match *self {
                AnswerError::Rejected => "receiver rejected the offer"@,
                AnswerError::NoUdpPort => "ANSWER has no valid udpPort"@,
                AnswerError::NoSendIndexes => "ANSWER has no sendIndexes"@,
            }),
    {
        match self {
            AnswerError::Rejected => "receiver rejected the offer",
            AnswerError::NoUdpPort => "ANSWER has no valid udpPort",
            AnswerError::NoSendIndexes => "ANSWER has no sendIndexes",
        }
    }
}

/// The value as a `u64`, when it is a non-negative integer that fits one.
pub open spec fn spec_as_u64(value: JsonValue) -> Option<u64> {
    match value {
        JsonValue::Number(n) => n.unsigned,
        _ => None,
    }
}

/// The stream indexes in `values`: each non-negative integer, truncated to
/// 32 bits; anything else is skipped.
pub open spec fn spec_indexes(values: Seq<JsonValue>) -> Seq<u32>
    decreases values.len(),
{
    if values.len() == 0 {
        seq![]
    } else {
        let before = spec_indexes(values.drop_last());
        match spec_as_u64(values.last()) {
            Some(i) => before.push(i as u32),
            None => before,
        }
    }
}

/// Whether the ANSWER's `result` is `"ok"`.
pub open spec fn spec_result_ok(message: JsonValue) -> bool {
    match spec_get(message, "result"@) {
        Some(r) => spec_as_str(r) == Some("ok"@),
        None => false,
    }
}

/// The ANSWER's `answer.udpPort`, as a `u64`.
pub open spec fn spec_answer_port(message: JsonValue) -> Option<u64> {
    match spec_get(message, "answer"@) {
        Some(a) => match spec_get(a, "udpPort"@) {
            Some(p) => spec_as_u64(p),
            None => None,
        },
        None => None,
    }
}

/// The ANSWER's `answer.sendIndexes` array.
pub open spec fn spec_answer_index_values(message: JsonValue) -> Option<Seq<JsonValue>> {
    match spec_get(message, "answer"@) {
        Some(a) => match spec_get(a, "sendIndexes"@) {
            Some(v) => match v {
                JsonValue::Array(values) => Some(values@),
                _ => None,
            },
            None => None,
        },
        None => None,
    }
}

/// The outcome of an ANSWER: its port and accepted stream indexes, or why
/// it cannot be used.
pub open spec fn spec_parse_answer(message: JsonValue) -> Result<(u16, Seq<u32>), AnswerError> {
    let port = spec_answer_port(message);
    if !spec_result_ok(message) {
        Err(AnswerError::Rejected)
    } else if !(port matches Some(p) && 1 <= p <= 65535) {
        Err(AnswerError::NoUdpPort)
    } else {
        match spec_answer_index_values(message) {
            None => Err(AnswerError::NoSendIndexes),
            Some(values) => Ok((port->0 as u16, spec_indexes(values))),
        }
    }
}

fn as_u64(value: &JsonValue) -> (r: Option<u64>)
    ensures
        r == spec_as_u64(*value),
{
    match value {
        JsonValue::Number(n) => n.unsigned,
        _ => None,
    }
}

fn result_ok(message: &JsonValue) -> (r: bool)
    ensures
        r == spec_result_ok(*message),
{
    match message.get("result") {
        Some(result) => match result.as_str() {
            Some(text) => str_equal(text, "ok"),
            None => false,
        },
        None => false,
    }
}

fn answer_port(message: &JsonValue) -> (r: Option<u64>)
    ensures
        r == spec_answer_port(*message),
{
    match message.get("answer") {
        Some(a) => match a.get("udpPort") {
            Some(p) => as_u64(p),
            None => None,
        },
        None => None,
    }
}

fn answer_index_values(message: &JsonValue) -> (r: Option<&Vec<JsonValue>>)
    ensures
        match spec_answer_index_values(*message) {
            Some(values) => r matches Some(v) && v@ == values,
            None => r is None,
        },
{
    match message.get("answer") {
        Some(a) => match a.get("sendIndexes") {
            Some(v) => match v {
                JsonValue::Array(values) => Some(values),
                _ => None,
            },
            None => None,
        },
        None => None,
    }
}

fn indexes(values: &Vec<JsonValue>) -> (r: Vec<u32>)
    ensures
        r@ == spec_indexes(values@),
{
    let mut send_indexes: Vec<u32> = Vec::new();
    let mut i: usize = 0;
    while i < values.len()
        invariant
            i <= values@.len(),
            send_indexes@ == spec_indexes(values@.take(i as int)),
        decreases values@.len() - i,
    {
        assert(values@.take(i + 1).drop_last() == values@.take(i as int));
        match as_u64(&values[i]) {
            Some(index) => send_indexes.push(index as u32),
            None => {},
        }
        i += 1;
    }
    assert(values@.take(values@.len() as int) == values@);
    send_indexes
}

/// Whether `r` is what the ANSWER `message` says.
pub open spec fn answer_matches(r: Result<Answer, AnswerError>, message: JsonValue) -> bool {
    match spec_parse_answer(message) {
        Ok((port, indexes)) => r matches Ok(a) && a.udp_port == port && a.send_indexes@ == indexes,
        Err(e) => r matches Err(f) && f == e,
    }
}

/// Parses an ANSWER message body (already matched on seqNum by the caller).
pub fn parse_answer(message: &JsonValue) -> (r: Result<Answer, AnswerError>)
    ensures
        answer_matches(r, *message),
{
    if !result_ok(message) {
        return Err(AnswerError::Rejected);
    }
    let udp_port: u16 = match answer_port(message) {
        Some(p) => if 1 <= p && p <= 65535 {
            p as u16
        } else {
            return Err(AnswerError::NoUdpPort);
        },
        None => return Err(AnswerError::NoUdpPort),
    };
    match answer_index_values(message) {
        Some(values) => Ok(Answer { udp_port, send_indexes: indexes(values) }),
        None => Err(AnswerError::NoSendIndexes),
    }
}

} // verus!
