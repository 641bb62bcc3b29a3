use shell_cast::capture::{
    audio_capture_message, keeps_restore_token, portal_request, restore_token_path, trimmed_line,
    Cancelled, Persistence, PortalSource, SourceKind,
};
use shell_cast::cast::{ended_reason, heartbeat_reply, CastEvent, HeartbeatReply, LoadMedia};

#[test]
fn screen_casts_persist_and_window_casts_do_not() {
    assert_eq!(
        portal_request(SourceKind::Screen),
        Some((PortalSource::Monitor, Persistence::ExplicitlyRevoked, true))
    );
    assert_eq!(
        portal_request(SourceKind::Window),
        Some((PortalSource::Window, Persistence::DoNot, false))
    );
    assert_eq!(portal_request(SourceKind::Audio), None);
    assert_eq!(audio_capture_message(), "audio-only casts do not use the portal");
    assert_eq!(Cancelled.message(), "screen share cancelled by the user");
}

#[test]
fn only_screen_casts_keep_a_returned_token() {
    assert!(keeps_restore_token(SourceKind::Screen, true));
    assert!(!keeps_restore_token(SourceKind::Screen, false));
    assert!(!keeps_restore_token(SourceKind::Window, true));
}

#[test]
fn one_line_files_are_trimmed() {
    assert_eq!(trimmed_line("  token-123\n"), Some("token-123".to_string()));
    assert_eq!(trimmed_line(" \t\n"), None);
    assert_eq!(trimmed_line(""), None);
}

#[test]
fn the_restore_token_lives_under_the_state_directory() {
    assert_eq!(
        restore_token_path(Some("/state"), Some("/home/me")),
        Some("/state/gnome-shell-cast/screen-restore-token".to_string())
    );
    assert_eq!(
        restore_token_path(Some("/state/"), None),
        Some("/state/gnome-shell-cast/screen-restore-token".to_string())
    );
    assert_eq!(
        restore_token_path(None, Some("/home/me")),
        Some("/home/me/.local/state/gnome-shell-cast/screen-restore-token".to_string())
    );
    assert_eq!(restore_token_path(None, None), None);
}

#[test]
fn cast_connection_replies_and_endings() {
    assert_eq!(heartbeat_reply(true), HeartbeatReply::Pong);
    assert_eq!(heartbeat_reply(false), HeartbeatReply::Ignore);
    assert!(matches!(ended_reason(None), CastEvent::Ended(r) if r == "stopped"));
    assert!(matches!(ended_reason(Some("boom".into())), CastEvent::Ended(r) if r == "boom"));
    let media = LoadMedia {
        url: "http://h/x".into(),
        content_type: "audio/mpeg".into(),
        title: None,
        artist: Some("host".into()),
    };
    assert!(media.has_metadata());
    let bare = LoadMedia { title: None, artist: None, ..media };
    assert!(!bare.has_metadata());
}
