//! The system's media controls: what their actions ask of the player, and
//! what the player tells them.
use crate::metadata::{opt_chars, MusicMetadata, DEFAULT_ARTIST, DEFAULT_TITLE};
use crate::text::{chars_of, decimal, decimal_of, parse_u64, parse_u64_spec, str_equal};
use vstd::prelude::*;
use vstd::string::*;

verus! {

/// An action from the system's media controls.
#[derive(Clone, Copy, Debug, PartialEq, Eq, Structural)]
pub enum MediaControlAction {
    Play,
    Pause,
    Toggle,
    Next,
    Previous,
    Stop,
    /// Seek to an absolute position in milliseconds.
    SeekTo(u64),
    /// Seek forward by milliseconds.
    SeekForward(u64),
    /// Seek backward by milliseconds.
    SeekBackward(u64),
    Raise,
    Quit,
}

/// What the player does for a media-control action.
#[derive(Clone, Copy, Debug, PartialEq, Eq, Structural)]
pub enum PlayerCommand {
    Play,
    Pause,
    Next,
    Previous,
    /// Set the position, in milliseconds.
    SeekTo(u64),
    /// Bring the main window to the front.
    RaiseWindow,
    /// Quit the application.
    Quit,
}

/// The playback state shown by the system's media controls.
#[derive(Clone, Copy, Debug, PartialEq, Eq, Structural)]
pub enum PlaybackState {
    Playing { position_ms: u64 },
    Paused { position_ms: u64 },
}

/// What the system's media controls show of a track.
pub struct NowPlaying {
    pub title: String,
    pub artist: String,
    pub album: String,
    pub duration_ms: u64,
}

/// The album shown for a track without one.
pub const UNKNOWN_ALBUM: &'static str = "Unknown";

/// The seek step of the media keys, in milliseconds.
pub const SEEK_STEP_MS: u64 = 10_000;

/// What the player does for an action, given whether it is playing and where.
pub open spec fn command_of(action: MediaControlAction, is_playing: bool, position_ms: u64) -> PlayerCommand {
    match action {
        MediaControlAction::Play => PlayerCommand::Play,
        MediaControlAction::Pause => PlayerCommand::Pause,
        MediaControlAction::Toggle => if is_playing {
            PlayerCommand::Pause
        } else {
            PlayerCommand::Play
        },
        MediaControlAction::Next => PlayerCommand::Next,
        MediaControlAction::Previous => PlayerCommand::Previous,
        MediaControlAction::Stop => PlayerCommand::Pause,
        MediaControlAction::SeekTo(ms) => PlayerCommand::SeekTo(ms),
        MediaControlAction::SeekForward(d) => PlayerCommand::SeekTo(
            if position_ms + d > u64::MAX {
                u64::MAX
            } else {
                (position_ms + d) as u64
            },
        ),
        MediaControlAction::SeekBackward(d) => PlayerCommand::SeekTo(
            if position_ms < d {
                0
            } else {
                (position_ms - d) as u64
            },
        ),
        MediaControlAction::Raise => PlayerCommand::RaiseWindow,
        MediaControlAction::Quit => PlayerCommand::Quit,
    }
}

/// The seek action of a seek key without an amount.
pub fn seek_step(forward: bool) -> (r: MediaControlAction)
    ensures
        r == if forward {
            MediaControlAction::SeekForward(SEEK_STEP_MS)
        } else {
            MediaControlAction::SeekBackward(SEEK_STEP_MS)
        },
{
    if forward {
        MediaControlAction::SeekForward(SEEK_STEP_MS)
    } else {
        MediaControlAction::SeekBackward(SEEK_STEP_MS)
    }
}

/// What the player does for a desktop media-control action: toggling
/// depends on whether it plays, relative seeks start from `position_ms`
/// (and stop at 0 and at the largest position), stopping pauses.
pub fn command_for(action: MediaControlAction, is_playing: bool, position_ms: u64) -> (r: PlayerCommand)
    ensures
        r == command_of(action, is_playing, position_ms),
{
    match action {
        MediaControlAction::Play => PlayerCommand::Play,
        MediaControlAction::Pause => PlayerCommand::Pause,
        MediaControlAction::Toggle => {
            if is_playing {
                PlayerCommand::Pause
            } else {
                PlayerCommand::Play
            }
        },
        MediaControlAction::Next => PlayerCommand::Next,
        MediaControlAction::Previous => PlayerCommand::Previous,
        MediaControlAction::Stop => PlayerCommand::Pause,
        MediaControlAction::SeekTo(ms) => PlayerCommand::SeekTo(ms),
        MediaControlAction::SeekForward(d) => PlayerCommand::SeekTo(position_ms.saturating_add(d)),
        MediaControlAction::SeekBackward(d) => PlayerCommand::SeekTo(position_ms.saturating_sub(d)),
        MediaControlAction::Raise => PlayerCommand::RaiseWindow,
        MediaControlAction::Quit => PlayerCommand::Quit,
    }
}

/// What the player does for an action name from Android's media session:
/// "play", "pause", "previous", "next", "stop" (pauses), or "seek:" and a
/// position in milliseconds; `None` for anything else.
pub open spec fn android_command_of(action: Seq<char>) -> Option<PlayerCommand> {
    if action == "play"@ {
        Some(PlayerCommand::Play)
    } else if action == "pause"@ {
        Some(PlayerCommand::Pause)
    } else if action.len() >= 5 && action.take(5) == "seek:"@ {
        match parse_u64_spec(action.skip(5)) {
            Some(ms) => Some(PlayerCommand::SeekTo(ms)),
            None => None,
        }
    } else if action == "previous"@ {
        Some(PlayerCommand::Previous)
    } else if action == "next"@ {
        Some(PlayerCommand::Next)
    } else if action == "stop"@ {
        Some(PlayerCommand::Pause)
    } else {
        None
    }
}

/// What the player does for an action name from Android's media session.
pub fn android_command(action: &str) -> (r: Option<PlayerCommand>)
    ensures
        r == android_command_of(action@),
{
    proof {
        reveal_strlit("play");
        reveal_strlit("pause");
        reveal_strlit("seek:");
        reveal_strlit("previous");
        reveal_strlit("next");
        reveal_strlit("stop");
    }
    if str_equal(action, "play") {
        return Some(PlayerCommand::Play);
    }
    if str_equal(action, "pause") {
        return Some(PlayerCommand::Pause);
    }
    let cs = chars_of(action);
    if cs.len() >= 5 && cs[0] == 's' && cs[1] == 'e' && cs[2] == 'e' && cs[3] == 'k' && cs[4] == ':' {
        assert(cs@.take(5) =~= "seek:"@);
        let mut rest: Vec<char> = Vec::new();
        let mut i: usize = 5;
        while i < cs.len()
            invariant
                5 <= i <= cs.len(),
                rest@ == cs@.subrange(5, i as int),
            decreases cs.len() - i,
        {
            rest.push(cs[i]);
            assert(cs@.subrange(5, i + 1) =~= cs@.subrange(5, i as int).push(cs@[i as int]));
            i = i + 1;
        }
        assert(rest@ =~= cs@.skip(5));
        return match parse_u64(&rest) {
            Some(ms) => Some(PlayerCommand::SeekTo(ms)),
            None => None,
        };
    }
    proof {
        if action@.len() >= 5 && action@.take(5) == "seek:"@ {
            assert(action@.take(5)[0] == 's');
            assert(action@.take(5)[1] == 'e');
            assert(action@.take(5)[2] == 'e');
            assert(action@.take(5)[3] == 'k');
            assert(action@.take(5)[4] == ':');
        }
    }
    if str_equal(action, "previous") {
        return Some(PlayerCommand::Previous);
    }
    if str_equal(action, "next") {
        return Some(PlayerCommand::Next);
    }
    if str_equal(action, "stop") {
        return Some(PlayerCommand::Pause);
    }
    None
}

/// The media-session side of the player.
pub struct MediaSession;

impl MediaSession {
    /// The playback state to show for the playing flag and position.
    pub fn set_state(is_playing: bool, position: u64) -> (r: PlaybackState)
        ensures
            r == if is_playing {
                PlaybackState::Playing { position_ms: position }
            } else {
                PlaybackState::Paused { position_ms: position }
            },
    {
        if is_playing {
            PlaybackState::Playing { position_ms: position }
        } else {
            PlaybackState::Paused { position_ms: position }
        }
    }

    /// What the media controls show of a track: its tags, with defaults for
    /// missing title, artist and album, and its duration in milliseconds
    /// (0 when unknown; the low 64 bits of longer ones).
    pub fn now_playing(music: &MusicMetadata) -> (r: NowPlaying)
        ensures
            r.title@ == match opt_chars(music.title) {
                Some(t) => t,
                None => DEFAULT_TITLE@,
            },
            r.artist@ == match opt_chars(music.artist) {
                Some(a) => a,
                None => DEFAULT_ARTIST@,
            },
            r.album@ == match opt_chars(music.album) {
                Some(a) => a,
                None => UNKNOWN_ALBUM@,
            },
            r.duration_ms == match music.duration {
                Some(d) => d as u64,
                None => 0,
            },
    {
        let title = match &music.title {
            Some(t) => t.clone(),
            None => String::from_str(MusicMetadata::default_title()),
        };
        let artist = match &music.artist {
            Some(a) => a.clone(),
            None => String::from_str(MusicMetadata::default_artist()),
        };
        let album = match &music.album {
            Some(a) => a.clone(),
            None => String::from_str(UNKNOWN_ALBUM),
        };
        let duration_ms: u64 = match music.duration {
            Some(d) => d as u64,
            None => 0,
        };
        NowPlaying { title, artist, album, duration_ms }
    }
}

/// The cover address given to the media controls: the path as a `file://`
/// address, unless it is one already.
pub fn cover_url(path: &str) -> (r: String)
    ensures
        r@ == if path@.len() >= 7 && path@.take(7) == "file://"@ {
            path@
        } else {
            "file://"@ + path@
        },
{
    proof {
        reveal_strlit("file://");
    }
    let cs = chars_of(path);
    if cs.len() >= 7 && cs[0] == 'f' && cs[1] == 'i' && cs[2] == 'l' && cs[3] == 'e' && cs[4] == ':'
        && cs[5] == '/' && cs[6] == '/' {
        assert(cs@.take(7) =~= "file://"@);
        return String::from_str(path);
    }
    proof {
        if path@.len() >= 7 && path@.take(7) == "file://"@ {
            assert(path@.take(7)[0] == 'f');
            assert(path@.take(7)[1] == 'i');
            assert(path@.take(7)[2] == 'l');
            assert(path@.take(7)[3] == 'e');
            assert(path@.take(7)[4] == ':');
            assert(path@.take(7)[5] == '/');
            assert(path@.take(7)[6] == '/');
        }
    }
    let mut r = String::from_str("file://");
    r.append(path);
    r
}

/// The duration given to the media controls: none for 0 milliseconds.
pub fn media_duration(duration_ms: u64) -> (r: Option<u64>)
    ensures
        r == if duration_ms > 0 {
            Some(duration_ms)
        } else {
            None
        },
{
    if duration_ms > 0 {
        Some(duration_ms)
    } else {
        None
    }
}

/// The name of the fresh copy of a cover that the media controls get (some
/// of them cache covers by file name): `fluyer_cover_`, a number that tells
/// copies apart (the time in milliseconds), and the cover's extension or `jpg`.
pub fn unique_cover_name(unique: u64, extension: Option<&str>) -> (r: String)
    ensures
        r@ == "fluyer_cover_"@ + decimal_of(unique as nat) + "."@ + match extension {
            Some(e) => e@,
            None => "jpg"@,
        },
{
    let mut name = String::from_str("fluyer_cover_");
    let n = decimal(unique);
    name.append(n.as_str());
    name.append(".");
    match extension {
        Some(e) => name.append(e),
        None => name.append("jpg"),
    }
    name
}

} // verus!
