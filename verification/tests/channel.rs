use shell_cast::json::{JsonNumber, JsonValue};
use shell_cast::streaming::channel::{
    connect_message, find_app, heartbeat_message, launch_message, negotiation_expired,
    on_answer_message, on_launch_message, on_session_message, push_json_string,
    status_has_session, stop_message, AnswerStep, ChannelState, LaunchStep, SessionStep,
    NS_CONNECTION, NS_HEARTBEAT, NS_RECEIVER,
};

/// The library's JSON value for a parsed JSON document.
fn json(value: &serde_json::Value) -> JsonValue {
    match value {
        serde_json::Value::Null => JsonValue::Null,
        serde_json::Value::Bool(b) => JsonValue::Bool(*b),
        serde_json::Value::Number(n) => {
            let positive_floor = n
                .as_f64()
                .filter(|f| f.is_finite() && *f > 0.0)
                .map(|f| f.min(9.0e18) as i64);
            JsonValue::Number(JsonNumber {
                integer: n.as_i64(),
                unsigned: n.as_u64(),
                positive_floor,
            })
        }
        serde_json::Value::String(s) => JsonValue::String(s.clone()),
        serde_json::Value::Array(items) => JsonValue::Array(items.iter().map(json).collect()),
        serde_json::Value::Object(members) => JsonValue::Object(
            members
                .iter()
                .map(|(k, v)| (k.clone(), json(v)))
                .collect(),
        ),
    }
}

fn parsed(text: &str) -> JsonValue {
    json(&serde_json::from_str(text).unwrap())
}

const STATUS: &str = r#"{"type":"RECEIVER_STATUS","status":{"applications":[
    {"appId":"CC1AD845","sessionId":"other","transportId":"t-other"},
    {"appId":"0F5096E8","sessionId":"s-1","transportId":"t-1"}
]}}"#;

#[test]
fn fixed_messages_are_exact() {
    assert_eq!(connect_message(false), r#"{"type":"CONNECT"}"#);
    assert_eq!(
        connect_message(true),
        r#"{"type":"CONNECT","userAgent":"gnome-shell-cast"}"#
    );
    assert_eq!(heartbeat_message(true), r#"{"type":"PING"}"#);
    assert_eq!(heartbeat_message(false), r#"{"type":"PONG"}"#);
    assert_eq!(
        launch_message(7),
        r#"{"type":"LAUNCH","appId":"0F5096E8","requestId":7}"#
    );
}

#[test]
fn stop_message_escapes_the_session_id() {
    let message = stop_message("a\"b\\c\n", 12);
    assert_eq!(message, r#"{"type":"STOP","sessionId":"a\"b\\c\n","requestId":12}"#);
    let reparsed: serde_json::Value = serde_json::from_str(&message).unwrap();
    assert_eq!(reparsed["sessionId"], "a\"b\\c\n");
}

#[test]
fn json_strings_round_trip_through_serde() {
    for s in ["plain", "tab\there", "\u{1}\u{1f}", "quote\"", "é ünïcode"] {
        let mut out = String::new();
        push_json_string(&mut out, s);
        assert_eq!(out, serde_json::to_string(s).unwrap());
    }
}

#[test]
fn the_mirroring_app_is_found_in_a_status() {
    let status = parsed(STATUS);
    let app = find_app(&status, "0F5096E8").unwrap();
    assert_eq!(app.get("sessionId").and_then(|v| v.as_str()), Some("s-1"));
    assert!(find_app(&status, "NOPE").is_none());
    assert!(status_has_session(&status, "s-1"));
    assert!(status_has_session(&status, "other"));
    assert!(!status_has_session(&status, "s-2"));
    assert!(!status_has_session(&parsed(r#"{"type":"RECEIVER_STATUS"}"#), "s-1"));
}

#[test]
fn launch_steps() {
    assert!(matches!(on_launch_message(&parsed(r#"{"type":"PING"}"#)), LaunchStep::Pong));
    assert!(matches!(
        on_launch_message(&parsed(r#"{"type":"LAUNCH_ERROR","reason":"x"}"#)),
        LaunchStep::Failed
    ));
    match on_launch_message(&parsed(STATUS)) {
        LaunchStep::Launched(session, transport) => {
            assert_eq!(session, "s-1");
            assert_eq!(transport, "t-1");
        }
        _ => panic!("expected the app to be launched"),
    }
    let starting = parsed(
        r#"{"type":"RECEIVER_STATUS","status":{"applications":[{"appId":"0F5096E8","sessionId":"s-1"}]}}"#,
    );
    assert!(matches!(on_launch_message(&starting), LaunchStep::Wait));
    assert!(matches!(on_launch_message(&parsed(r#"{"type":"OTHER"}"#)), LaunchStep::Wait));
    assert!(matches!(on_launch_message(&parsed(r#"{"x":1}"#)), LaunchStep::Wait));
}

#[test]
fn answer_steps() {
    let webrtc = "urn:x-cast:com.google.cast.webrtc";
    let ping = parsed(r#"{"type":"PING"}"#);
    assert!(matches!(on_answer_message(NS_HEARTBEAT, &ping, 3), AnswerStep::Pong));
    assert!(matches!(on_answer_message(webrtc, &ping, 3), AnswerStep::Wait));
    let answer = parsed(
        r#"{"type":"ANSWER","seqNum":3,"result":"ok","answer":{"udpPort":5000,"sendIndexes":[0,1]}}"#,
    );
    match on_answer_message(webrtc, &answer, 3) {
        AnswerStep::Answered(Ok(a)) => assert_eq!(a.udp_port, 5000),
        _ => panic!("expected the answer"),
    }
    assert!(matches!(on_answer_message(webrtc, &answer, 4), AnswerStep::Wait));
    assert!(matches!(on_answer_message(NS_RECEIVER, &answer, 3), AnswerStep::Wait));
    let refused = parsed(r#"{"type":"ANSWER","seqNum":3,"result":"error"}"#);
    assert!(matches!(
        on_answer_message(webrtc, &refused, 3),
        AnswerStep::Answered(Err(_))
    ));
}

#[test]
fn session_steps() {
    let ping = parsed(r#"{"type":"PING"}"#);
    assert_eq!(on_session_message(NS_HEARTBEAT, "receiver-0", &ping, "t-1", "s-1"), SessionStep::Pong);
    let close = parsed(r#"{"type":"CLOSE"}"#);
    assert_eq!(
        on_session_message(NS_CONNECTION, "t-1", &close, "t-1", "s-1"),
        SessionStep::Ended("receiver closed the session")
    );
    assert_eq!(
        on_session_message(NS_CONNECTION, "receiver-0", &close, "t-1", "s-1"),
        SessionStep::Continue
    );
    let status = parsed(STATUS);
    assert_eq!(
        on_session_message(NS_RECEIVER, "receiver-0", &status, "t-1", "s-1"),
        SessionStep::Continue
    );
    assert_eq!(
        on_session_message(NS_RECEIVER, "receiver-0", &status, "t-1", "s-9"),
        SessionStep::Ended("receiver app is gone")
    );
}

#[test]
fn request_ids_count_up_and_pings_are_spaced() {
    let mut state = ChannelState::new();
    assert_eq!(state.next_request_id(), 1);
    assert_eq!(state.next_request_id(), 2);
    assert!(state.ping_due(1_000));
    assert!(!state.ping_due(5_999));
    assert!(state.ping_due(6_000));
    assert_eq!(state.last_ping_ms, Some(6_000));
    assert!(!state.ping_due(100));
    assert_eq!(state.request_id, 2);
}

#[test]
fn negotiation_runs_out_after_twelve_seconds() {
    assert!(!negotiation_expired(1_000, 13_000));
    assert!(negotiation_expired(1_000, 13_001));
    assert!(!negotiation_expired(5_000, 1_000));
}
