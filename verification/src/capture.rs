//! What a screen capture asks the ScreenCast portal for, and where the
//! portal's restore token is kept between casts. The portal conversation
//! itself is the caller's.

use vstd::prelude::*;

use crate::text::{chars_of, has_prefix, push_chars, push_str, trim, trim_chars};

verus! {

#[derive(Clone, Copy, PartialEq, Eq, Structural, Debug)]
pub enum SourceKind {
    Screen,
    Window,
    /// System audio only (for audio-only receivers); no portal involved.
    Audio,
}

/// The user dismissed the portal's screen-picker dialog. Not an error: the
/// caller should quietly return to idle rather than surfacing a failure.
#[derive(Clone, Copy, PartialEq, Eq, Structural, Debug)]
pub struct Cancelled;

impl Cancelled {
    /// What the cancellation says.
    pub fn message(&self) -> (r: &'static str)
        ensures
            r@ == "screen share cancelled by the user"@,
    {
        "screen share cancelled by the user"
    }
}

/// What the portal is asked to capture.
#[derive(Clone, Copy, PartialEq, Eq, Structural, Debug)]
pub enum PortalSource {
    Monitor,
    Window,
}

/// Whether the portal keeps the selection for later casts.
#[derive(Clone, Copy, PartialEq, Eq, Structural, Debug)]
pub enum Persistence {
    /// Until the user revokes it.
    ExplicitlyRevoked,
    /// Not at all.
    DoNot,
}

/// The portal request for a capture of `source`: screen casts persist their
/// selection (re-picking the same monitor every time is pure friction) and
/// reuse a saved restore token; window casts usually mean a different
/// window, so they always show the picker. Audio-only casts do not use the
/// portal.
pub open spec fn spec_portal_request(source: SourceKind) -> Option<(PortalSource, Persistence, bool)> {
    match source {
        SourceKind::Screen => Some((PortalSource::Monitor, Persistence::ExplicitlyRevoked, true)),
        SourceKind::Window => Some((PortalSource::Window, Persistence::DoNot, false)),
        SourceKind::Audio => None,
    }
}

/// The portal request for a capture of `source`: what to capture, whether
/// to persist it, and whether to offer the saved restore token.
pub fn portal_request(source: SourceKind) -> (r: Option<(PortalSource, Persistence, bool)>)
    ensures
        r == spec_portal_request(source),
{
    match source {
        SourceKind::Screen => Some((PortalSource::Monitor, Persistence::ExplicitlyRevoked, true)),
        SourceKind::Window => Some((PortalSource::Window, Persistence::DoNot, false)),
        SourceKind::Audio => None,
    }
}

/// Why a capture could not be opened before the portal was asked.
pub fn audio_capture_message() -> (r: &'static str)
    ensures
        r@ == "audio-only casts do not use the portal"@,
{
    "audio-only casts do not use the portal"
}

/// Whether the restore token the portal returned is kept: only for screen
/// casts, and only when there is one.
pub fn keeps_restore_token(source: SourceKind, returned: bool) -> (r: bool)
    ensures
        r == (source == SourceKind::Screen && returned),
{
    source == SourceKind::Screen && returned
}

/// The contents of a one-line file (a saved token, a hostname): trimmed, or
/// `None` when that leaves nothing.
pub open spec fn spec_trimmed_line(contents: Seq<char>) -> Option<Seq<char>> {
    if trim(contents).len() == 0 {
        None
    } else {
        Some(trim(contents))
    }
}

/// The contents of a one-line file, trimmed, or `None` when empty.
pub fn trimmed_line(contents: &str) -> (r: Option<String>)
    ensures
        match spec_trimmed_line(contents@) {
            Some(t) => r matches Some(s) && s@ == t,
            None => r is None,
        },
{
    let chars = chars_of(contents);
    let t = trim_chars(chars.as_slice());
    if t.len() == 0 {
        None
    } else {
        let mut s = String::new();
        push_chars(&mut s, t.as_slice());
        Some(s)
    }
}

/// `name` joined to the path `base` as `PathBuf::push` joins a relative
/// name: with a `/` between them unless `base` is empty or already ends in
/// one.
pub open spec fn join(base: Seq<char>, name: Seq<char>) -> Seq<char> {
    if base.len() == 0 {
        name
    } else if base.last() == '/' {
        base + name
    } else {
        base + seq!['/'] + name
    }
}

/// Appends the relative `name` to the path `base`.
pub fn push_path(base: &mut String, name: &str)
    ensures
        final(base)@ == join(old(base)@, name@),
{
    let chars = chars_of(base.as_str());
    if chars.len() > 0 && chars[chars.len() - 1] != '/' {
        crate::text::push_char(base, '/');
    }
    push_str(base, name);
}

/// Where the screen-cast restore token lives, from `XDG_STATE_HOME` or else
/// `HOME` (each `None` when unset).
pub open spec fn spec_restore_token_path(state_home: Option<Seq<char>>, home: Option<Seq<char>>) -> Option<
    Seq<char>,
> {
    let base = match state_home {
        Some(s) => Some(s),
        None => match home {
            Some(h) => Some(join(h, ".local/state"@)),
            None => None,
        },
    };
    match base {
        Some(b) => Some(join(join(b, "gnome-shell-cast"@), "screen-restore-token"@)),
        None => None,
    }
}

/// Where the screen-cast restore token lives. Delete this file to get the
/// monitor picker dialog back.
pub fn restore_token_path(state_home: Option<&str>, home: Option<&str>) -> (r: Option<String>)
    ensures
        match spec_restore_token_path(
            match state_home {
                Some(s) => Some(s@),
                None => None,
            },
            match home {
                Some(h) => Some(h@),
                None => None,
            },
        ) {
            Some(p) => r matches Some(s) && s@ == p,
            None => r is None,
        },
{
    let mut path = String::new();
    match state_home {
        Some(s) => push_str(&mut path, s),
        None => match home {
            Some(h) => {
                push_str(&mut path, h);
                push_path(&mut path, ".local/state");
            },
            None => return None,
        },
    }
    push_path(&mut path, "gnome-shell-cast");
    push_path(&mut path, "screen-restore-token");
    Some(path)
}

} // verus!
