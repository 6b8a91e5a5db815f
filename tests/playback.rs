use dashboard::error::ErrorKind;
use dashboard::playback::{parse_playback, unsupported_playback};

#[test]
fn playback_parsed() {
    let t = parse_playback(true, "Song|Band|Album|https://img.example/a.jpg|playing\n").ok().unwrap();
    assert_eq!(t.track_name, "Song");
    assert_eq!(t.artist, "Band");
    assert_eq!(t.album, "Album");
    assert_eq!(t.artwork_url, "https://img.example/a.jpg");
    assert!(t.is_playing);
    let p = parse_playback(true, "Song|Band|Album|u|paused").ok().unwrap();
    assert!(!p.is_playing);
}

#[test]
fn playback_not_running() {
    let e = parse_playback(true, "not_running\n").err().unwrap();
    assert_eq!(e.kind, ErrorKind::ExternalProcessFailure);
    assert_eq!(e.message, "Spotify is not running");
    assert_eq!(parse_playback(false, "").err().unwrap().message, "Spotify is not running");
}

#[test]
fn playback_malformed() {
    let e = parse_playback(true, "a|b|c").err().unwrap();
    assert_eq!(e.kind, ErrorKind::UnexpectedResponseShape);
}

#[test]
fn playback_unsupported() {
    let e = unsupported_playback();
    assert_eq!(e.kind, ErrorKind::Unsupported);
    assert_eq!(e.message, "Spotify integration is only supported on macOS");
}
