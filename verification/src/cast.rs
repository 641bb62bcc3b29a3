//! What the Default Media Receiver is asked to play, and what the cast
//! connection reports back.

use vstd::prelude::*;

verus! {

/// What to hand the Default Media Receiver once the stream is ready: the URL
/// and its HTTP content type (HLS playlist for screen casts, a progressive
/// audio type like `audio/mpeg` for audio-only casts).
#[derive(Debug)]
pub struct LoadMedia {
    pub url: String,
    pub content_type: String,
    /// Now-playing title shown by the receiver; `None` leaves it untitled.
    pub title: Option<String>,
    /// Secondary line under the title, e.g. the casting computer's hostname.
    pub artist: Option<String>,
}

#[derive(Debug)]
pub enum CastEvent {
    /// The receiver app launched and accepted the media URL.
    Playing,
    /// The connection ended or failed; the session should shut down.
    Ended(String),
}

impl LoadMedia {
    /// Whether the media carries now-playing metadata: only when it has a
    /// title or an artist.
    pub fn has_metadata(&self) -> (r: bool)
        ensures
            r == (self.title is Some || self.artist is Some),
    {
        self.title.is_some() || self.artist.is_some()
    }
}

/// The destination of the receiver's own virtual connection.
pub const DESTINATION_ID: &'static str = "receiver-0";

/// What the cast connection does with a message from the device while the
/// media plays.
#[derive(Clone, Copy, PartialEq, Eq, Structural, Debug)]
pub enum HeartbeatReply {
    /// Answer the device's ping with a pong.
    Pong,
    /// Nothing to answer.
    Ignore,
}

/// What to answer a message: a heartbeat ping gets a pong, anything else
/// nothing.
pub fn heartbeat_reply(is_heartbeat_ping: bool) -> (r: HeartbeatReply)
    ensures
        r == (if is_heartbeat_ping {
            HeartbeatReply::Pong
        } else {
            HeartbeatReply::Ignore
        }),
{
    if is_heartbeat_ping {
        HeartbeatReply::Pong
    } else {
        HeartbeatReply::Ignore
    }
}

/// How the cast connection ended, as the session is told: a clean stop, or
/// the error that ended it.
pub fn ended_reason(error: Option<String>) -> (r: CastEvent)
    ensures
        match error {
            Some(e) => r matches CastEvent::Ended(reason) && reason@ == e@,
            None => r matches CastEvent::Ended(reason) && reason@ == "stopped"@,
        },
{
    match error {
        Some(e) => CastEvent::Ended(e),
        None => CastEvent::Ended("stopped".to_owned()),
    }
}

} // verus!
