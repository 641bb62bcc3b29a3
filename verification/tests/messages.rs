use shell_cast::json::{JsonNumber, JsonValue};
use shell_cast::mirror::messages::{
    hex_key, offer, parse_answer, AnswerError, AudioParams, VideoParams,
};

fn video() -> VideoParams {
    VideoParams {
        index: 1,
        ssrc: 50001,
        aes_key: [0xab; 16],
        aes_iv_mask: [0x12; 16],
        codec_name: "vp8",
        max_bit_rate: 5_000_000,
        max_fps: 30,
        width: 1920,
        height: 1080,
    }
}

fn audio() -> AudioParams {
    AudioParams {
        index: 0,
        ssrc: 1001,
        aes_key: [1; 16],
        aes_iv_mask: [2; 16],
        bit_rate: 128_000,
    }
}

fn parsed_offer(text: &str) -> serde_json::Value {
    serde_json::from_str(text).unwrap()
}

/// The library's JSON value for a parsed JSON document.
fn json(value: &serde_json::Value) -> JsonValue {
    match value {
        serde_json::Value::Null => JsonValue::Null,
        serde_json::Value::Bool(b) => JsonValue::Bool(*b),
        serde_json::Value::Number(n) => JsonValue::Number(JsonNumber {
            integer: n.as_i64(),
            unsigned: n.as_u64(),
            positive_floor: n
                .as_f64()
                .filter(|f| f.is_finite() && *f > 0.0)
                .map(|f| f.min(9.0e18) as i64),
        }),
        serde_json::Value::String(s) => JsonValue::String(s.clone()),
        serde_json::Value::Array(items) => JsonValue::Array(items.iter().map(json).collect()),
        serde_json::Value::Object(members) => {
            JsonValue::Object(members.iter().map(|(k, v)| (k.clone(), json(v))).collect())
        }
    }
}

#[test]
fn offer_has_expected_shape() {
    let audio = audio();
    let o = parsed_offer(&offer(7, Some(&audio), &[video()]));
    assert_eq!(o["type"], "OFFER");
    assert_eq!(o["seqNum"], 7);
    assert_eq!(o["offer"]["castMode"], "mirroring");
    let streams = o["offer"]["supportedStreams"].as_array().unwrap();
    assert_eq!(streams.len(), 2);
    assert_eq!(streams[0]["type"], "audio_source");
    assert_eq!(streams[0]["rtpPayloadType"], 127);
    assert_eq!(streams[0]["aesKey"].as_str().unwrap().len(), 32);
    assert_eq!(streams[1]["type"], "video_source");
    assert_eq!(streams[1]["codecName"], "vp8");
    assert_eq!(streams[1]["rtpPayloadType"], 96);
    assert_eq!(streams[1]["timeBase"], "1/90000");
    assert_eq!(streams[1]["resolutions"][0]["width"], 1920);
}

#[test]
fn offer_lists_each_video_codec_as_its_own_stream() {
    let audio = audio();
    let videos = [
        VideoParams {
            index: 1,
            codec_name: "av1",
            ..video()
        },
        VideoParams {
            index: 2,
            codec_name: "vp9",
            ..video()
        },
        VideoParams {
            index: 3,
            codec_name: "vp8",
            ..video()
        },
    ];
    let o = parsed_offer(&offer(1, Some(&audio), &videos));
    let streams = o["offer"]["supportedStreams"].as_array().unwrap();
    assert_eq!(streams.len(), 4);
    assert_eq!(streams[1]["codecName"], "av1");
    assert_eq!(streams[1]["index"], 1);
    assert_eq!(streams[2]["codecName"], "vp9");
    assert_eq!(streams[3]["codecName"], "vp8");
    for s in &streams[1..] {
        assert_eq!(s["type"], "video_source");
        assert_eq!(s["rtpPayloadType"], 96);
    }
}

#[test]
fn audio_only_offer_has_no_video_stream() {
    let audio = audio();
    let o = parsed_offer(&offer(3, Some(&audio), &[]));
    let streams = o["offer"]["supportedStreams"].as_array().unwrap();
    assert_eq!(streams.len(), 1);
    assert_eq!(streams[0]["type"], "audio_source");
    assert_eq!(streams[0]["codecName"], "opus");
}

#[test]
fn video_only_offer_has_no_audio_stream() {
    let o = parsed_offer(&offer(4, None, &[video(), video()]));
    let streams = o["offer"]["supportedStreams"].as_array().unwrap();
    assert_eq!(streams.len(), 2);
    assert_eq!(streams[0]["maxFrameRate"], "30/1");
    assert_eq!(streams[0]["aesIvMask"], "12121212121212121212121212121212");
}

#[test]
fn answer_roundtrip() {
    let msg = json(&serde_json::from_str(
        r#"{"type": "ANSWER", "seqNum": 7, "result": "ok",
            "answer": {"udpPort": 2345, "sendIndexes": [0, 1], "ssrcs": [1002, 50002]}}"#,
    )
    .unwrap());
    let a = parse_answer(&msg).ok().unwrap();
    assert_eq!(a.udp_port, 2345);
    assert_eq!(a.send_indexes, vec![0, 1]);
}

#[test]
fn rejected_answer_is_error() {
    let msg = json(&serde_json::from_str(
        r#"{"type": "ANSWER", "seqNum": 7, "result": "error",
            "error": {"code": 123, "description": "bad offer"}}"#,
    )
    .unwrap());
    assert!(matches!(parse_answer(&msg), Err(AnswerError::Rejected)));
}

#[test]
fn an_answer_needs_a_port_and_indexes() {
    let no_port = json(&serde_json::from_str(
        r#"{"result": "ok", "answer": {"udpPort": 0, "sendIndexes": [0]}}"#,
    )
    .unwrap());
    assert!(matches!(parse_answer(&no_port), Err(AnswerError::NoUdpPort)));
    let no_indexes = json(&serde_json::from_str(
        r#"{"result": "ok", "answer": {"udpPort": 9, "sendIndexes": "0"}}"#,
    )
    .unwrap());
    assert!(matches!(parse_answer(&no_indexes), Err(AnswerError::NoSendIndexes)));
    let odd_indexes = json(&serde_json::from_str(
        r#"{"result": "ok", "answer": {"udpPort": 9, "sendIndexes": [2, "x", -1, 4294967297]}}"#,
    )
    .unwrap());
    assert_eq!(parse_answer(&odd_indexes).ok().unwrap().send_indexes, vec![2, 1]);
}

#[test]
fn keys_are_written_as_hex() {
    let mut key = [0_u8; 16];
    key[0] = 0x0f;
    key[1] = 0xa0;
    assert_eq!(hex_key(&key), "0fa00000000000000000000000000000");
}
