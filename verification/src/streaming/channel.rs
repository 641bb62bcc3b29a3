//! The decisions of the Cast control channel of a mirroring session: the
//! messages it sends, and what each message from the receiver means while
//! the app launches, while the OFFER awaits its ANSWER, and while the
//! session runs. The TLS connection and its threads stay with the caller.

use vstd::prelude::*;

use crate::json::{JsonValue, spec_as_str, spec_get};
use crate::mirror::messages::{
    Answer, AnswerError, MIRRORING_APP_ID, WEBRTC_NAMESPACE, answer_matches, parse_answer,
    spec_as_u64,
};
use crate::text::{decimal, push_char, push_decimal, push_str, str_equal};

verus! {

pub const SENDER_ID: &'static str = "sender-0";

pub const RECEIVER_ID: &'static str = "receiver-0";

pub const NS_CONNECTION: &'static str = "urn:x-cast:com.google.cast.tp.connection";

pub const NS_HEARTBEAT: &'static str = "urn:x-cast:com.google.cast.tp.heartbeat";

pub const NS_RECEIVER: &'static str = "urn:x-cast:com.google.cast.receiver";

/// How long the whole launch + OFFER/ANSWER negotiation may take before
/// mirroring is declared unavailable, in milliseconds.
pub const NEGOTIATION_TIMEOUT_MS: u64 = 12_000;

/// How often the receiver is pinged, in milliseconds.
pub const PING_INTERVAL_MS: u64 = 5_000;

pub enum ChannelEvent {
    /// The receiver ended the session (app closed, connection lost, ...).
    Ended(String),
}

/// The JSON escape of one character, as `serde_json` writes it.
pub open spec fn escape_char(c: char) -> Seq<char> {
    if c == '"' {
        seq!['\\', '"']
    } else if c == '\\' {
        seq!['\\', '\\']
    } else if c == '\n' {
        seq!['\\', 'n']
    } else if c == '\r' {
        seq!['\\', 'r']
    } else if c == '\t' {
        seq!['\\', 't']
    } else if c == '\u{8}' {
        seq!['\\', 'b']
    } else if c == '\u{c}' {
        seq!['\\', 'f']
    } else if (c as u32) < 0x20 {
        seq!['\\', 'u', '0', '0', crate::text::hex_digit((c as u32 / 16) as int), crate::text::hex_digit(
            (c as u32 % 16) as int,
        )]
    } else {
        seq![c]
    }
}

/// The characters of `s`, each escaped for a JSON string.
pub open spec fn escaped(s: Seq<char>) -> Seq<char>
    decreases s.len(),
{
    if s.len() == 0 {
        seq![]
    } else {
        escaped(s.drop_last()) + escape_char(s.last())
    }
}

fn push_escaped_char(out: &mut String, c: char)
    ensures
        final(out)@ == old(out)@ + escape_char(c),
{
    let ghost start = out@;
    if c == '"' {
        push_char(out, '\\');
        push_char(out, '"');
    } else if c == '\\' {
        push_char(out, '\\');
        push_char(out, '\\');
    } else if c == '\n' {
        push_char(out, '\\');
        push_char(out, 'n');
    } else if c == '\r' {
        push_char(out, '\\');
        push_char(out, 'r');
    } else if c == '\t' {
        push_char(out, '\\');
        push_char(out, 't');
    } else if c == '\u{8}' {
        push_char(out, '\\');
        push_char(out, 'b');
    } else if c == '\u{c}' {
        push_char(out, '\\');
        push_char(out, 'f');
    } else if (c as u32) < 0x20 {
        push_str(out, "\\u00");
        proof {
            reveal_strlit("\\u00");
        }
        let code = c as u32;
        push_char(out, hex_digit_char(code / 16));
        push_char(out, hex_digit_char(code % 16));
        assert(out@ =~= start + escape_char(c));
    } else {
        push_char(out, c);
    }
}

fn hex_digit_char(d: u32) -> (r: char)
    requires
        d < 16,
    ensures
        r == crate::text::hex_digit(d as int),
{
    if d < 10 {
        ((d + 48) as u8) as char
    } else {
        ((d + 87) as u8) as char
    }
}

/// Appends `s` as a JSON string literal, quotes included.
pub fn push_json_string(out: &mut String, s: &str)
    ensures
        final(out)@ == old(out)@ + seq!['"'] + escaped(s@) + seq!['"'],
{
    let chars = crate::text::chars_of(s);
    push_char(out, '"');
    let ghost start = out@;
    let mut i: usize = 0;
    while i < chars.len()
        invariant
            i <= chars@.len(),
            chars@ == s@,
            out@ == start + escaped(chars@.take(i as int)),
        decreases chars@.len() - i,
    {
        push_escaped_char(out, chars[i]);
        assert(chars@.take(i + 1).drop_last() == chars@.take(i as int));
        i += 1;
    }
    assert(chars@.take(chars@.len() as int) == chars@);
    push_char(out, '"');
}

/// `{"type":"CONNECT"}`, with the user agent when opening the receiver
/// connection.
pub fn connect_message(with_user_agent: bool) -> (r: String)
    ensures
        r@ == (if with_user_agent {
            "{\"type\":\"CONNECT\",\"userAgent\":\"gnome-shell-cast\"}"@
        } else {
            "{\"type\":\"CONNECT\"}"@
        }),
{
    if with_user_agent {
        "{\"type\":\"CONNECT\",\"userAgent\":\"gnome-shell-cast\"}".to_owned()
    } else {
        "{\"type\":\"CONNECT\"}".to_owned()
    }
}

/// `{"type":"PING"}` or `{"type":"PONG"}`.
pub fn heartbeat_message(ping: bool) -> (r: String)
    ensures
        r@ == (if ping {
            "{\"type\":\"PING\"}"@
        } else {
            "{\"type\":\"PONG\"}"@
        }),
{
    if ping {
        "{\"type\":\"PING\"}".to_owned()
    } else {
        "{\"type\":\"PONG\"}".to_owned()
    }
}

/// The LAUNCH request for the mirroring app.
pub fn launch_message(request_id: u32) -> (r: String)
    ensures
        r@ == "{\"type\":\"LAUNCH\",\"appId\":\"0F5096E8\",\"requestId\":"@ + decimal(
            request_id as nat,
        ) + "}"@,
{
    let mut s = String::new();
    push_str(&mut s, "{\"type\":\"LAUNCH\",\"appId\":\"0F5096E8\",\"requestId\":");
    push_decimal(&mut s, request_id as u64);
    push_str(&mut s, "}");
    s
}

/// The STOP request for the session `session_id`.
pub fn stop_message(session_id: &str, request_id: u32) -> (r: String)
    ensures
        r@ == "{\"type\":\"STOP\",\"sessionId\":"@ + seq!['"'] + escaped(session_id@) + seq!['"']
            + ",\"requestId\":"@ + decimal(request_id as nat) + "}"@,
{
    let mut s = String::new();
    push_str(&mut s, "{\"type\":\"STOP\",\"sessionId\":");
    push_json_string(&mut s, session_id);
    push_str(&mut s, ",\"requestId\":");
    push_decimal(&mut s, request_id as u64);
    push_str(&mut s, "}");
    s
}

/// The `type` of a message, or empty when it has none.
pub open spec fn message_type(payload: JsonValue) -> Seq<char> {
    match spec_get(payload, "type"@) {
        Some(t) => match spec_as_str(t) {
            Some(s) => s,
            None => ""@,
        },
        None => ""@,
    }
}

fn type_of(payload: &JsonValue) -> (r: &str)
    ensures
        r@ == message_type(*payload),
{
    match payload.get("type") {
        Some(t) => match t.as_str() {
            Some(s) => s,
            None => "",
        },
        None => "",
    }
}

/// The running applications a RECEIVER_STATUS lists.
pub open spec fn applications(status: JsonValue) -> Option<Seq<JsonValue>> {
    match spec_get(status, "status"@) {
        Some(s) => match spec_get(s, "applications"@) {
            Some(JsonValue::Array(apps)) => Some(apps@),
            _ => None,
        },
        None => None,
    }
}

fn applications_of(status: &JsonValue) -> (r: Option<&Vec<JsonValue>>)
    ensures
        match applications(*status) {
            Some(apps) => r matches Some(v) && v@ == apps,
            None => r is None,
        },
{
    match status.get("status") {
        Some(s) => match s.get("applications") {
            Some(a) => match a {
                JsonValue::Array(apps) => Some(apps),
                _ => None,
            },
            None => None,
        },
        None => None,
    }
}

/// Whether `member` of `app` is the string `expected`.
pub open spec fn member_is(app: JsonValue, member: Seq<char>, expected: Seq<char>) -> bool {
    match spec_get(app, member) {
        Some(v) => spec_as_str(v) == Some(expected),
        None => false,
    }
}

fn member_equals(app: &JsonValue, member: &str, expected: &str) -> (r: bool)
    ensures
        r == member_is(*app, member@, expected@),
{
    match app.get(member) {
        Some(v) => match v.as_str() {
            Some(s) => str_equal(s, expected),
            None => false,
        },
        None => false,
    }
}

/// The index of the first application whose `member` is `expected`.
pub open spec fn first_app(apps: Seq<JsonValue>, member: Seq<char>, expected: Seq<char>, from: int) -> Option<
    int,
>
    decreases apps.len() - from,
{
    if from < 0 || from >= apps.len() {
        None
    } else if member_is(apps[from], member, expected) {
        Some(from)
    } else {
        first_app(apps, member, expected, from + 1)
    }
}

fn find_member(apps: &Vec<JsonValue>, member: &str, expected: &str) -> (r: Option<usize>)
    ensures
        match first_app(apps@, member@, expected@, 0) {
            Some(i) => r matches Some(k) && k == i,
            None => r is None,
        },
{
    let mut i: usize = 0;
    while i < apps.len()
        invariant
            i <= apps@.len(),
            first_app(apps@, member@, expected@, 0) == first_app(apps@, member@, expected@, i as int),
        decreases apps@.len() - i,
    {
        if member_equals(&apps[i], member, expected) {
            return Some(i);
        }
        i += 1;
    }
    None
}

proof fn lemma_first_app(apps: Seq<JsonValue>, member: Seq<char>, expected: Seq<char>, from: int)
    ensures
        first_app(apps, member, expected, from) matches Some(i) ==> from <= i < apps.len(),
    decreases apps.len() - from,
{
    if 0 <= from < apps.len() && !member_is(apps[from], member, expected) {
        lemma_first_app(apps, member, expected, from + 1);
    }
}

/// The application `app_id` in a RECEIVER_STATUS, if it runs.
pub fn find_app<'a>(status: &'a JsonValue, app_id: &str) -> (r: Option<&'a JsonValue>)
    ensures
        match applications(*status) {
            Some(apps) => match first_app(apps, "appId"@, app_id@, 0) {
                Some(i) => r == Some(&apps[i]),
                None => r is None,
            },
            None => r is None,
        },
{
    match applications_of(status) {
        Some(apps) => match {
            proof {
                lemma_first_app(apps@, "appId"@, app_id@, 0);
            }
            find_member(apps, "appId", app_id)
        } {
            Some(i) => Some(&apps[i]),
            None => None,
        },
        None => None,
    }
}

/// Whether a RECEIVER_STATUS still lists the session `session_id`.
pub fn status_has_session(status: &JsonValue, session_id: &str) -> (r: bool)
    ensures
        r == match applications(*status) {
            Some(apps) => first_app(apps, "sessionId"@, session_id@, 0) is Some,
            None => false,
        },
{
    match applications_of(status) {
        Some(apps) => find_member(apps, "sessionId", session_id).is_some(),
        None => false,
    }
}

/// The string member `key` of `app`, or empty.
pub open spec fn string_member(app: JsonValue, key: Seq<char>) -> Seq<char> {
    match spec_get(app, key) {
        Some(v) => match spec_as_str(v) {
            Some(s) => s,
            None => ""@,
        },
        None => ""@,
    }
}

fn string_member_of<'a>(app: &'a JsonValue, key: &str) -> (r: &'a str)
    ensures
        r@ == string_member(*app, key@),
{
    match app.get(key) {
        Some(v) => match v.as_str() {
            Some(s) => s,
            None => "",
        },
        None => "",
    }
}

/// What a message received while the mirroring app launches calls for.
pub enum LaunchStep {
    /// Answer the receiver's ping.
    Pong,
    /// The app could not be launched.
    Failed,
    /// The app runs, with this session and transport id.
    Launched(String, String),
    /// Keep waiting.
    Wait,
}

/// The session and transport id of the mirroring app in a RECEIVER_STATUS,
/// when it runs with both.
pub open spec fn launched_app(status: JsonValue) -> Option<(Seq<char>, Seq<char>)> {
    match applications(status) {
        Some(apps) => match first_app(apps, "appId"@, "0F5096E8"@, 0) {
            Some(i) => {
                let session = string_member(apps[i], "sessionId"@);
                let transport = string_member(apps[i], "transportId"@);
                if session.len() > 0 && transport.len() > 0 {
                    Some((session, transport))
                } else {
                    None
                }
            },
            None => None,
        },
        None => None,
    }
}

/// What a message received while the app launches calls for: a PING gets a
/// PONG, a LAUNCH_ERROR ends the launch, a RECEIVER_STATUS listing the app
/// with its session and transport ends the wait; anything else is ignored.
pub fn on_launch_message(payload: &JsonValue) -> (r: LaunchStep)
    ensures
        message_type(*payload) == "PING"@ ==> r is Pong,
        message_type(*payload) == "LAUNCH_ERROR"@ ==> r is Failed,
        message_type(*payload) == "RECEIVER_STATUS"@ ==> match launched_app(*payload) {
            Some((session, transport)) => r matches LaunchStep::Launched(s, t) && s@ == session
                && t@ == transport,
            None => r is Wait,
        },
        message_type(*payload) != "PING"@ && message_type(*payload) != "LAUNCH_ERROR"@
            && message_type(*payload) != "RECEIVER_STATUS"@ ==> r is Wait,
{
    let kind = type_of(payload);
    proof {
        reveal_strlit("PING");
        reveal_strlit("LAUNCH_ERROR");
        reveal_strlit("RECEIVER_STATUS");
        // The three types differ in length, so a type is at most one of them.
        assert("PING"@.len() == 4);
        assert("LAUNCH_ERROR"@.len() == 12);
        assert("PING"@ != "LAUNCH_ERROR"@);
    }
    if str_equal(kind, "PING") {
        LaunchStep::Pong
    } else if str_equal(kind, "LAUNCH_ERROR") {
        LaunchStep::Failed
    } else if str_equal(kind, "RECEIVER_STATUS") {
        match find_app(payload, MIRRORING_APP_ID) {
            Some(app) => {
                let session = string_member_of(app, "sessionId");
                let transport = string_member_of(app, "transportId");
                proof {
                    reveal_strlit("0F5096E8");
                }
                if session.unicode_len() > 0 && transport.unicode_len() > 0 {
                    LaunchStep::Launched(session.to_owned(), transport.to_owned())
                } else {
                    LaunchStep::Wait
                }
            },
            None => LaunchStep::Wait,
        }
    } else {
        LaunchStep::Wait
    }
}

/// What a message received while the OFFER awaits its ANSWER calls for.
pub enum AnswerStep {
    /// Answer the receiver's ping.
    Pong,
    /// The ANSWER to our OFFER arrived.
    Answered(Result<Answer, AnswerError>),
    /// Keep waiting.
    Wait,
}

/// The `seqNum` of a message, when it is a non-negative integer.
pub open spec fn sequence_number(payload: JsonValue) -> Option<u64> {
    match spec_get(payload, "seqNum"@) {
        Some(n) => spec_as_u64(n),
        None => None,
    }
}

fn sequence_number_of(payload: &JsonValue) -> (r: Option<u64>)
    ensures
        r == sequence_number(*payload),
{
    match payload.get("seqNum") {
        Some(n) => match n {
            JsonValue::Number(number) => number.unsigned,
            _ => None,
        },
        None => None,
    }
}

/// Whether a message is a heartbeat PING.
pub open spec fn is_ping(namespace: Seq<char>, payload: JsonValue) -> bool {
    namespace == NS_HEARTBEAT@ && message_type(payload) == "PING"@
}

/// Whether a message is the ANSWER to the OFFER numbered `seq_num`.
pub open spec fn is_answer_to(namespace: Seq<char>, payload: JsonValue, seq_num: u64) -> bool {
    namespace == WEBRTC_NAMESPACE@ && message_type(payload) == "ANSWER"@ && sequence_number(
        payload,
    ) == Some(seq_num)
}

proof fn lemma_namespaces_differ()
    ensures
        NS_HEARTBEAT@ != WEBRTC_NAMESPACE@,
{
    reveal_strlit("urn:x-cast:com.google.cast.tp.heartbeat");
    reveal_strlit("urn:x-cast:com.google.cast.webrtc");
    assert(NS_HEARTBEAT@.len() != WEBRTC_NAMESPACE@.len());
}

/// What a message received while the OFFER awaits its ANSWER calls for: a
/// heartbeat PING gets a PONG; an ANSWER on the WebRTC namespace carrying
/// our OFFER's `seqNum` is the answer; anything else is ignored.
#[verifier::rlimit(30)]
pub fn on_answer_message(namespace: &str, payload: &JsonValue, seq_num: u64) -> (r: AnswerStep)
    ensures
        is_ping(namespace@, *payload) ==> r is Pong,
        is_answer_to(namespace@, *payload, seq_num) ==> (r matches AnswerStep::Answered(result)
            && answer_matches(result, *payload)),
        !is_ping(namespace@, *payload) && !is_answer_to(namespace@, *payload, seq_num) ==> r is Wait,
{
    proof {
        lemma_namespaces_differ();
    }
    let kind = type_of(payload);
    let ping = str_equal(namespace, NS_HEARTBEAT) && str_equal(kind, "PING");
    if ping {
        return AnswerStep::Pong;
    }
    let answer = str_equal(namespace, WEBRTC_NAMESPACE) && str_equal(kind, "ANSWER")
        && sequence_number_of(payload) == Some(seq_num);
    if answer {
        AnswerStep::Answered(parse_answer(payload))
    } else {
        AnswerStep::Wait
    }
}

/// What a message received during the session calls for.
#[derive(Clone, Copy, PartialEq, Eq, Debug)]
pub enum SessionStep {
    /// Answer the receiver's ping.
    Pong,
    /// The receiver ended the session, for this reason.
    Ended(&'static str),
    /// Carry on.
    Continue,
}

/// What a message received during the session calls for: a heartbeat PING
/// gets a PONG; a CLOSE from the app's transport, or a RECEIVER_STATUS that
/// no longer lists our session, ends it; anything else is ignored.
pub open spec fn spec_on_session_message(
    namespace: Seq<char>,
    source: Seq<char>,
    payload: JsonValue,
    transport_id: Seq<char>,
    session_id: Seq<char>,
) -> SessionStep {
    let kind = message_type(payload);
    if namespace == NS_HEARTBEAT@ && kind == "PING"@ {
        SessionStep::Pong
    } else if namespace == NS_CONNECTION@ && kind == "CLOSE"@ && source == transport_id {
        SessionStep::Ended("receiver closed the session")
    } else if namespace == NS_RECEIVER@ && kind == "RECEIVER_STATUS"@ && !(match applications(
        payload,
    ) {
        Some(apps) => first_app(apps, "sessionId"@, session_id, 0) is Some,
        None => false,
    }) {
        SessionStep::Ended("receiver app is gone")
    } else {
        SessionStep::Continue
    }
}

/// What a message received during the session calls for.
pub fn on_session_message(
    namespace: &str,
    source: &str,
    payload: &JsonValue,
    transport_id: &str,
    session_id: &str,
) -> (r: SessionStep)
    ensures
        r == spec_on_session_message(namespace@, source@, *payload, transport_id@, session_id@),
{
    let kind = type_of(payload);
    if str_equal(namespace, NS_HEARTBEAT) && str_equal(kind, "PING") {
        SessionStep::Pong
    } else if str_equal(namespace, NS_CONNECTION) && str_equal(kind, "CLOSE") && str_equal(
        source,
        transport_id,
    ) {
        SessionStep::Ended("receiver closed the session")
    } else if str_equal(namespace, NS_RECEIVER) && str_equal(kind, "RECEIVER_STATUS")
        && !status_has_session(payload, session_id) {
        SessionStep::Ended("receiver app is gone")
    } else {
        SessionStep::Continue
    }
}

/// The channel's own bookkeeping: the last request id used and when the
/// receiver was last pinged.
pub struct ChannelState {
    pub request_id: u32,
    pub last_ping_ms: Option<u64>,
}

impl ChannelState {
    pub fn new() -> (r: Self)
        ensures
            r.request_id == 0,
            r.last_ping_ms is None,
    {
        ChannelState { request_id: 0, last_ping_ms: None }
    }

    /// The id for the next request: one more than the last.
    pub fn next_request_id(&mut self) -> (r: u32)
        requires
            old(self).request_id < u32::MAX,
        ensures
            r == old(self).request_id + 1,
            final(self).request_id == r,
            final(self).last_ping_ms == old(self).last_ping_ms,
    {
        self.request_id = self.request_id + 1;
        self.request_id
    }

    /// Whether a ping is due at `now_ms`; when it is, it counts as sent.
    pub fn ping_due(&mut self, now_ms: u64) -> (r: bool)
        ensures
            r == match old(self).last_ping_ms {
                None => true,
                Some(t) => now_ms >= t + PING_INTERVAL_MS,
            },
            r ==> final(self).last_ping_ms == Some(now_ms),
            !r ==> final(self).last_ping_ms == old(self).last_ping_ms,
            final(self).request_id == old(self).request_id,
    {
        let due = match self.last_ping_ms {
            None => true,
            Some(t) => now_ms >= t && now_ms - t >= PING_INTERVAL_MS,
        };
        if due {
            self.last_ping_ms = Some(now_ms);
        }
        due
    }
}

/// Whether the negotiation has run out of time at `now_ms`, having started
/// at `started_ms`.
pub fn negotiation_expired(started_ms: u64, now_ms: u64) -> (r: bool)
    ensures
        r == (now_ms > started_ms + NEGOTIATION_TIMEOUT_MS),
{
    now_ms > started_ms && now_ms - started_ms > NEGOTIATION_TIMEOUT_MS
}

} // verus!
