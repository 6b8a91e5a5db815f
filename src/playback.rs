//! Current media playback, as reported by the media player's scripting
//! interface.

use vstd::prelude::*;
use crate::error::{ErrorKind, SourceError};
use crate::text::{chars_of, slice_string, split, split_ranges, trim, trim_range};

verus! {

/// The track that is playing or paused.
pub struct SpotifyTrack {
    pub track_name: String,
    pub artist: String,
    pub album: String,
    pub artwork_url: String,
    pub is_playing: bool,
}

pub open spec fn not_running_message() -> Seq<char> {
    "Spotify is not running"@
}

/// The track described by the script's output, if it describes one: the
/// output is `name|artist|album|artwork|state`.
pub open spec fn track_fields(out: Seq<char>) -> Option<Seq<Seq<char>>> {
    let parts = split(trim(out), '|');
    if parts.len() < 5 {
        None
    } else {
        Some(parts)
    }
}

/// The playback read from the script's output; `script_succeeded` tells
/// whether the script ran and exited cleanly.
pub fn parse_playback(script_succeeded: bool, stdout: &str) -> (r: Result<SpotifyTrack, SourceError>)
    ensures
        !script_succeeded || trim(stdout@) == "not_running"@ ==> r is Err && r->Err_0.kind
            == ErrorKind::ExternalProcessFailure && r->Err_0.message@ == not_running_message(),
        script_succeeded && trim(stdout@) != "not_running"@ ==> match track_fields(stdout@) {
            None => r is Err && r->Err_0.kind == ErrorKind::UnexpectedResponseShape
                && r->Err_0.message@ == "Failed to parse Spotify data"@,
            Some(parts) => r is Ok && {
                let t = r->Ok_0;
                &&& t.track_name@ == parts[0]
                &&& t.artist@ == parts[1]
                &&& t.album@ == parts[2]
                &&& t.artwork_url@ == parts[3]
                &&& t.is_playing == (parts[4] == "playing"@)
            },
        },
{
    if !script_succeeded {
        return Err(
            SourceError::from_text(ErrorKind::ExternalProcessFailure, "Spotify is not running"),
        );
    }
    let cs = chars_of(stdout);
    let (a, b) = trim_range(&cs, 0, cs.len());
    assert(cs@.subrange(0, cs@.len() as int) =~= cs@);
    let result = slice_string(stdout, a, b);
    if result == "not_running".to_owned() {
        return Err(
            SourceError::from_text(ErrorKind::ExternalProcessFailure, "Spotify is not running"),
        );
    }
    let parts = split_ranges(&cs, a, b, '|');
    if parts.len() < 5 {
        return Err(
            SourceError::from_text(
                ErrorKind::UnexpectedResponseShape,
                "Failed to parse Spotify data",
            ),
        );
    }
    let state = slice_string(stdout, parts[4].0, parts[4].1);
    Ok(
        SpotifyTrack {
            track_name: slice_string(stdout, parts[0].0, parts[0].1),
            artist: slice_string(stdout, parts[1].0, parts[1].1),
            album: slice_string(stdout, parts[2].0, parts[2].1),
            artwork_url: slice_string(stdout, parts[3].0, parts[3].1),
            is_playing: state == "playing".to_owned(),
        },
    )
}

/// The failure reported where the media player cannot be queried.
pub fn unsupported_playback() -> (r: SourceError)
    ensures
        r.kind == ErrorKind::Unsupported,
        r.message@ == "Spotify integration is only supported on macOS"@,
{
    SourceError::from_text(ErrorKind::Unsupported, "Spotify integration is only supported on macOS")
}

} // verus!
