//! The decisions around one cast session: whether a StartCast request can be
//! served, what the user is told when a session ends, when the HLS playlist
//! is ready, the URLs handed to the receiver, and when the idle daemon
//! exits. The D-Bus service, the portal and the pipelines are the caller's.

use vstd::prelude::*;

use crate::capture::SourceKind;
use crate::discovery::Device;
use crate::text::{
    chars_of, decimal, occurs_at, push_decimal, push_str, str_equal,
};
use crate::capture::{join, push_path};

verus! {

#[derive(Clone, Copy, PartialEq, Eq, Structural, Debug)]
pub enum Event {
    DevicesChanged,
    StateChanged,
}

/// The source kind a StartCast request names: 0 is the screen, 1 a window,
/// 2 system audio only.
pub open spec fn spec_source_kind(code: u32) -> Option<SourceKind> {
    if code == 0 {
        Some(SourceKind::Screen)
    } else if code == 1 {
        Some(SourceKind::Window)
    } else if code == 2 {
        Some(SourceKind::Audio)
    } else {
        None
    }
}

/// Why a StartCast request is refused.
#[derive(Debug)]
pub enum StartError {
    /// The request is malformed.
    InvalidArgs(String),
    /// The request cannot be served.
    Failed(String),
}

/// The refusal of a request naming an unknown source type.
pub open spec fn unknown_source_message(code: u32) -> Seq<char> {
    "unknown source type: "@ + decimal(code as nat)
}

/// The refusal of a request naming an unknown device.
pub open spec fn unknown_device_message(device_id: Seq<char>) -> Seq<char> {
    "unknown device: "@ + device_id
}

/// The refusal of a screen cast to an audio-only device.
pub open spec fn audio_only_message(name: Seq<char>) -> Seq<char> {
    name + " is audio-only and cannot receive screen casts"@
}

/// Checks a StartCast request for `device_id` (found as `device`, if known)
/// with source code `source`: the source must be known, then the device,
/// and an audio-only device takes only audio casts.
pub fn check_start(source: u32, device_id: &str, device: Option<&Device>) -> (r: Result<
    SourceKind,
    StartError,
>)
    ensures
        spec_source_kind(source) is None ==> (r matches Err(StartError::InvalidArgs(m)) && m@
            == unknown_source_message(source)),
        spec_source_kind(source) is Some && device is None ==> (r matches Err(
            StartError::Failed(m),
        ) && m@ == unknown_device_message(device_id@)),
        spec_source_kind(source) matches Some(kind) ==> (device matches Some(d) ==> {
            if d.ca & 1 == 0 && kind != SourceKind::Audio {
                r matches Err(StartError::Failed(m)) && m@ == audio_only_message(d.name@)
            } else {
                r matches Ok(k) && k == kind
            }
        }),
{
    let kind = if source == 0 {
        SourceKind::Screen
    } else if source == 1 {
        SourceKind::Window
    } else if source == 2 {
        SourceKind::Audio
    } else {
        let mut m = String::new();
        push_str(&mut m, "unknown source type: ");
        push_decimal(&mut m, source as u64);
        return Err(StartError::InvalidArgs(m));
    };
    match device {
        None => {
            let mut m = String::new();
            push_str(&mut m, "unknown device: ");
            push_str(&mut m, device_id);
            Err(StartError::Failed(m))
        },
        Some(d) => {
            if !d.has_video() && kind != SourceKind::Audio {
                let mut m = String::new();
                push_str(&mut m, d.name.as_str());
                push_str(&mut m, " is audio-only and cannot receive screen casts");
                Err(StartError::Failed(m))
            } else {
                Ok(kind)
            }
        },
    }
}

/// The kind of I/O error at the root of a failure, where there is one.
#[derive(Clone, Copy, PartialEq, Eq, Structural, Debug)]
pub enum IoErrorKind {
    NetworkUnreachable,
    HostUnreachable,
    ConnectionRefused,
    TimedOut,
    ConnectionReset,
    BrokenPipe,
    Other,
}

/// What the user is told about a failure: a network failure in plain words
/// (the error chain carries crate detail - TLS documentation URLs, `os
/// error` numbers - that belongs in the journal), anything else by its
/// top-level message.
pub open spec fn spec_user_message(io: Option<IoErrorKind>, top_level: Seq<char>) -> Seq<char> {
    match io {
        Some(kind) => match kind {
            IoErrorKind::NetworkUnreachable | IoErrorKind::HostUnreachable =>
                "Could not reach the device. Check that it is switched on and on the same network."@,
            IoErrorKind::ConnectionRefused => "The device refused the connection."@,
            IoErrorKind::TimedOut | IoErrorKind::ConnectionReset | IoErrorKind::BrokenPipe =>
                "Lost the connection to the device."@,
            IoErrorKind::Other => "Could not reach the device over the network."@,
        },
        None => top_level,
    }
}

/// What the user is told about a failure. `io` is the kind of the first
/// I/O error in its chain of causes, `top_level` its own message.
pub fn user_message(io: Option<IoErrorKind>, top_level: &str) -> (r: String)
    ensures
        r@ == spec_user_message(io, top_level@),
{
    match io {
        Some(kind) => match kind {
            IoErrorKind::NetworkUnreachable | IoErrorKind::HostUnreachable => {
                "Could not reach the device. Check that it is switched on and on the same network.".to_owned()
            },
            IoErrorKind::ConnectionRefused => "The device refused the connection.".to_owned(),
            IoErrorKind::TimedOut | IoErrorKind::ConnectionReset | IoErrorKind::BrokenPipe => {
                "Lost the connection to the device.".to_owned()
            },
            IoErrorKind::Other => "Could not reach the device over the network.".to_owned(),
        },
        None => top_level.to_owned(),
    }
}

/// How a session ended.
pub enum SessionOutcome {
    /// It ran and stopped.
    Finished,
    /// The user dismissed the screen picker.
    Cancelled,
    /// It failed; the user is told this.
    Failed(String),
}

/// What a session leaves behind when it ends.
pub struct SessionEnd {
    /// The state reported over D-Bus: `idle` or `error`.
    pub state: &'static str,
    /// The device the state is about (empty when idle).
    pub device_id: String,
    /// The error event and its message, on failure.
    pub error: Option<String>,
    /// Whether this session may clear the shared stop handle and details:
    /// only the newest session may, so an older one finishing late does not
    /// tear down its successor.
    pub clears_shared: bool,
}

/// What session number `generation` leaves behind when it ends with
/// `outcome`, the newest session being number `current`.
pub fn finish_session(outcome: SessionOutcome, device_id: &str, generation: u64, current: u64) -> (r:
    SessionEnd)
    ensures
        r.clears_shared == (generation == current),
        match outcome {
            SessionOutcome::Failed(message) => r.state@ == "error"@ && r.device_id@ == device_id@
                && (r.error matches Some(m) && m@ == message@),
            _ => r.state@ == "idle"@ && r.device_id@ == ""@ && r.error is None,
        },
{
    let clears_shared = generation == current;
    match outcome {
        SessionOutcome::Failed(message) => SessionEnd {
            state: "error",
            device_id: device_id.to_owned(),
            error: Some(message),
            clears_shared,
        },
        _ => SessionEnd { state: "idle", device_id: "".to_owned(), error: None, clears_shared },
    }
}

/// How long the daemon may sit idle before it exits, in milliseconds.
pub const IDLE_EXIT_MS: u64 = 600_000;

/// Whether the daemon exits: it is not casting (idle or failed) and has had
/// no casting and no D-Bus calls for longer than the idle limit.
pub fn should_exit(state: &str, idle_ms: u64) -> (r: bool)
    ensures
        r == ((state@ == "idle"@ || state@ == "error"@) && idle_ms > IDLE_EXIT_MS),
{
    (str_equal(state, "idle") || str_equal(state, "error")) && idle_ms > IDLE_EXIT_MS
}

/// How many non-overlapping times `pattern` occurs in `s` from `from` on,
/// counting from the left.
pub open spec fn count_from(s: Seq<char>, pattern: Seq<char>, from: int) -> nat
    decreases s.len() + 1 - from,
{
    if pattern.len() == 0 || from < 0 || from + pattern.len() > s.len() {
        0
    } else if occurs_at(s, pattern, from) {
        1 + count_from(s, pattern, from + pattern.len())
    } else {
        count_from(s, pattern, from + 1)
    }
}

/// Whether an HLS playlist is ready to hand to the receiver: it lists one
/// playlist window's worth of segments (three).
pub open spec fn spec_playlist_ready(content: Seq<char>) -> bool {
    count_from(content, ".ts"@, 0) >= 3
}

/// Whether an HLS playlist is ready to hand to the receiver.
pub fn playlist_ready(content: &str) -> (r: bool)
    ensures
        r == spec_playlist_ready(content@),
{
    let chars = chars_of(content);
    let pattern = chars_of(".ts");
    proof {
        reveal_strlit(".ts");
    }
    let n = chars.len();
    let mut at: usize = 0;
    let mut count: u64 = 0;
    while at <= n && n - at >= 3
        invariant
            at <= n + 3,
            chars@ == content@,
            pattern@ == ".ts"@,
            pattern@.len() == 3,
            n == chars@.len(),
            count <= at,
            count_from(content@, ".ts"@, 0) == count + count_from(content@, ".ts"@, at as int),
        decreases n - at,
    {
        if crate::text::chars_occur_at(chars.as_slice(), pattern.as_slice(), at) {
            count = count + 1;
            at = at + 3;
        } else {
            at = at + 1;
        }
    }
    count >= 3
}

/// The codec an audio stream of `content_type` is announced as.
pub fn audio_codec(content_type: &str) -> (r: &'static str)
    ensures
        r@ == (if content_type@ == "audio/mpeg"@ {
            "mp3"@
        } else {
            "aac"@
        }),
{
    if str_equal(content_type, "audio/mpeg") {
        "mp3"
    } else {
        "aac"
    }
}

/// The URL of `file` on the stream server at `host`:`port`, under `token`.
pub open spec fn spec_stream_url(host: Seq<char>, port: u16, token: Seq<char>, file: Seq<char>) -> Seq<
    char,
> {
    "http://"@ + host + ":"@ + decimal(port as nat) + "/"@ + token + "/"@ + file
}

/// The URL of `file` on the stream server.
pub fn stream_url(host: &str, port: u16, token: &str, file: &str) -> (r: String)
    ensures
        r@ == spec_stream_url(host@, port, token@, file@),
{
    let mut s = String::new();
    push_str(&mut s, "http://");
    push_str(&mut s, host);
    push_str(&mut s, ":");
    push_decimal(&mut s, port as u64);
    push_str(&mut s, "/");
    push_str(&mut s, token);
    push_str(&mut s, "/");
    push_str(&mut s, file);
    s
}

/// The directory a session's HLS files are written to: one per daemon
/// process under `base` (the runtime directory).
pub fn runtime_dir(base: &str, pid: u32) -> (r: String)
    ensures
        r@ == join(base@, "gnome-shell-cast-"@ + decimal(pid as nat)),
{
    let mut name = String::new();
    push_str(&mut name, "gnome-shell-cast-");
    push_decimal(&mut name, pid as u64);
    let mut dir = String::new();
    push_str(&mut dir, base);
    push_path(&mut dir, name.as_str());
    dir
}

} // verus!
