//! Lyrics: telling synchronised (LRC) lyrics from plain text, and the order
//! in which a search looks for them: the `.lrc` file beside the track, the
//! track's tags, the download queue and its cache, then a download.
use crate::text::{chars_of, pieces, split_chars, string_from_chars, trim_chars, trimmed};
use regex::Regex;
use std::path::Path;
use vstd::prelude::*;
use vstd::string::*;

verus! {

/// An LRC time stamp at the start of a line: `[mm:ss]` or `[mm:ss.xxx]`.
pub const SYNCED_TIMESTAMP_PATTERN: &'static str = "^\\[\\d{1,2}:\\d{2}(?:\\.\\d{1,3})?\\]";

/// Name for what the regex crate gives for `Regex::new(pattern)` followed by
/// `is_match(text)`: `None` when the pattern does not compile, else whether
/// the pattern matches somewhere in the text.
pub uninterp spec fn regex_match_of(pattern: Seq<char>, text: Seq<char>) -> Option<bool>;

/// Compiles `pattern` with `regex::Regex::new` and tests `text` with `is_match`.
/// Trusted: the result is `regex_match_of(pattern, text)`; nothing is stated
/// of the regular-expression language itself.
#[verifier::external_body]
fn regex_is_match(pattern: &str, text: &str) -> (r: Option<bool>)
    ensures
        r == regex_match_of(pattern@, text@),
{
    match Regex::new(pattern) {
        Ok(re) => Some(re.is_match(text)),
        Err(_) => None,
    }
}

/// The lines of `s`, split at `\n`, without the empty piece after a final
/// line break (as `str::lines` gives them, but for a `\r` before a line
/// break, which trimming removes anyway).
pub open spec fn text_lines(s: Seq<char>) -> Seq<Seq<char>> {
    let p = pieces(s, '\n');
    if p.len() > 0 && p.last().len() == 0 {
        p.drop_last()
    } else {
        p
    }
}

/// Whether some line of `lyrics`, trimmed, starts with an LRC time stamp.
pub open spec fn synced(lyrics: Seq<char>) -> bool {
    exists|i: int|
        0 <= i < text_lines(lyrics).len() && regex_match_of(
            SYNCED_TIMESTAMP_PATTERN@,
            trimmed(#[trigger] text_lines(lyrics)[i]),
        ) == Some(true)
}

/// Whether the lyrics carry time stamps (LRC format) on some line, rather
/// than only tags such as `[ar:Artist]` or plain text.
pub fn has_synced_timestamps(lyrics: &str) -> (r: bool)
    ensures
        r == synced(lyrics@),
{
    let cs = chars_of(lyrics);
    let mut lines = split_chars(&cs, '\n');
    let ghost all = lines@.map_values(|p: Vec<char>| p@);
    if lines.len() > 0 && lines[lines.len() - 1].len() == 0 {
        lines.pop();
        proof {
            assert(lines@.map_values(|p: Vec<char>| p@) =~= all.drop_last());
        }
    }
    let ghost ls = lines@.map_values(|p: Vec<char>| p@);
    assert(ls == text_lines(lyrics@));
    let mut i: usize = 0;
    while i < lines.len()
        invariant
            i <= lines.len(),
            ls == lines@.map_values(|p: Vec<char>| p@),
            ls == text_lines(lyrics@),
            forall|j: int|
                0 <= j < i ==> regex_match_of(SYNCED_TIMESTAMP_PATTERN@, trimmed(#[trigger] ls[j]))
                    != Some(true),
        decreases lines.len() - i,
    {
        let line = string_from_chars(&trim_chars(&lines[i]));
        let m = regex_is_match(SYNCED_TIMESTAMP_PATTERN, line.as_str());
        if m == Some(true) {
            assert(ls[i as int] == lines@[i as int]@);
            return true;
        }
        i = i + 1;
    }
    false
}

/// Name for what std's `Path::with_extension` gives for a path given as
/// text and an extension, converted back to text.
pub uninterp spec fn with_extension_of(path: Seq<char>, extension: Seq<char>) -> Seq<char>;

/// `path` with its extension replaced (std's `Path::with_extension`).
/// Trusted: the result is `with_extension_of(path, extension)`. An extension
/// holding a path separator makes std panic, so it is not admitted.
#[verifier::external_body]
fn path_with_extension(path: &str, extension: &str) -> (r: String)
    requires
        forall|i: int| 0 <= i < extension@.len() ==> #[trigger] extension@[i] != '/' && extension@[i] != '\\',
    ensures
        r@ == with_extension_of(path@, extension@),
{
    Path::new(path).with_extension(extension).to_string_lossy().into_owned()
}

/// The lyrics file that sits beside a track: the track's path with the
/// extension `lrc`.
pub fn lrc_path(path: &str) -> (r: String)
    ensures
        r@ == with_extension_of(path@, "lrc"@),
{
    proof {
        reveal_strlit("lrc");
    }
    path_with_extension(path, "lrc")
}

/// A lyrics search needs a title.
pub fn lyric_query_check(title: &str) -> (r: Result<(), String>)
    ensures
        r is Ok <==> title@.len() > 0,
        r matches Err(e) ==> e@ == "No title provided for lyric search"@,
{
    if title.is_empty() {
        return Err(String::from_str("No title provided for lyric search"));
    }
    Ok(())
}

/// Lyrics read from the track's `.lrc` file or from its tags are used only
/// when they are synchronised.
pub fn local_lyrics_usable(lyrics: &Option<String>) -> (r: bool)
    ensures
        r == match *lyrics {
            Some(t) => synced(t@),
            None => false,
        },
{
    match lyrics {
        Some(t) => has_synced_timestamps(t.as_str()),
        None => false,
    }
}

/// Where a download of lyrics stands, as the request queue records it.
#[derive(Clone, Copy, Debug, PartialEq, Eq, Structural)]
pub enum LyricRequestStatus {
    Pending,
    Loaded,
    Failed,
}

/// `prefix` followed by `key`, as a new string.
fn message(prefix: &str, key: &str) -> (r: String)
    ensures
        r@ == prefix@ + key@,
{
    let mut m = String::from_str(prefix);
    m.append(key);
    m
}

/// The lyrics of a download that the queue reports as loaded: the cached
/// file's text, or an error when the cache file is gone.
pub open spec fn loaded_outcome(cached: Option<Seq<char>>, key: Seq<char>) -> Result<Seq<char>, Seq<char>> {
    match cached {
        Some(t) => Ok(t),
        None => Err("Lyrics cache file not found: "@ + key),
    }
}

/// The views of a text result.
pub open spec fn result_view(r: Result<String, String>) -> Result<Seq<char>, Seq<char>> {
    match r {
        Ok(t) => Ok(t@),
        Err(e) => Err(e@),
    }
}

/// What a search answers when the queue already knows the download of
/// `key`: loaded lyrics come from the cache file (read as `cached`), a failed
/// download is an error; `None` when the download is still pending and has
/// to be waited for.
pub fn queued_lyrics(status: LyricRequestStatus, cached: Option<String>, key: &str) -> (r: Option<
    Result<String, String>,
>)
    ensures
        match status {
            LyricRequestStatus::Loaded => r matches Some(x) && result_view(x) == loaded_outcome(
                crate::metadata::opt_chars(cached),
                key@,
            ),
            LyricRequestStatus::Failed => r matches Some(x) && result_view(x) == Err::<Seq<char>, Seq<char>>(
                "Lyrics fetch previously failed: "@ + key@,
            ),
            LyricRequestStatus::Pending => r is None,
        },
{
    match status {
        LyricRequestStatus::Loaded => Some(
            match cached {
                Some(t) => Ok(t),
                None => Err(message("Lyrics cache file not found: ", key)),
            },
        ),
        LyricRequestStatus::Failed => Some(Err(message("Lyrics fetch previously failed: ", key))),
        LyricRequestStatus::Pending => None,
    }
}

/// What a search answers after waiting for another search's download:
/// the cached lyrics once it loaded, else an error.
pub fn waited_lyrics(status: LyricRequestStatus, cached: Option<String>, key: &str) -> (r: Result<
    String,
    String,
>)
    ensures
        result_view(r) == if status == LyricRequestStatus::Loaded {
            loaded_outcome(crate::metadata::opt_chars(cached), key@)
        } else {
            Err("Lyrics fetch failed: "@ + key@)
        },
{
    match status {
        LyricRequestStatus::Loaded => match cached {
            Some(t) => Ok(t),
            None => Err(message("Lyrics cache file not found: ", key)),
        },
        _ => Err(message("Lyrics fetch failed: ", key)),
    }
}

/// The status to record and the answer once the search's own download is
/// over: the lyrics, or an error naming the key.
pub fn fetched_lyrics(fetched: Option<String>, key: &str) -> (r: (LyricRequestStatus, Result<
    String,
    String,
>))
    ensures
        match fetched {
            Some(t) => r.0 == LyricRequestStatus::Loaded && result_view(r.1) == Ok::<Seq<char>, Seq<char>>(t@),
            None => r.0 == LyricRequestStatus::Failed && result_view(r.1) == Err::<Seq<char>, Seq<char>>(
                "Failed to get lyrics for: "@ + key@,
            ),
        },
{
    match fetched {
        Some(t) => (LyricRequestStatus::Loaded, Ok(t)),
        None => (LyricRequestStatus::Failed, Err(message("Failed to get lyrics for: ", key))),
    }
}

/// Whether lyrics read from the `.lrc` file or the tags are used.
pub open spec fn usable(lyrics: Option<Seq<char>>) -> bool {
    match lyrics {
        Some(t) => synced(t),
        None => false,
    }
}

/// How far a lyrics search has come.
#[derive(Clone, Copy, Debug, PartialEq, Eq, Structural)]
pub enum LyricStage {
    /// The `.lrc` file beside the track is being read.
    LrcFile,
    /// The lyrics in the track's tags are being read.
    Embedded,
    /// The queue is asked for the key's status.
    Queue,
    /// The cache file of a download the queue records as loaded is being read.
    QueuedCache,
    /// Another search's download of the key is being waited for.
    Waiting,
    /// The cache file is being read after that download loaded.
    WaitedCache,
    /// The queue does not know the key: the cache file is being read.
    FreshCache,
    /// The search's own download is running.
    Fetching,
    /// The search has answered.
    Done,
}

/// What the caller reports back after doing what a step asked for.
#[derive(Debug, PartialEq, Eq)]
pub enum LyricEvent {
    /// The text of the `.lrc` file, if it could be read.
    LrcRead(Option<String>),
    /// The lyrics in the track's tags, if there are any.
    EmbeddedRead(Option<String>),
    /// The status the queue records for the key, if any.
    QueueStatus(Option<LyricRequestStatus>),
    /// The text of the key's cache file, if it could be read.
    CacheRead(Option<String>),
    /// The key's status once the other search's download is over.
    WaitOver(LyricRequestStatus),
    /// The downloaded lyrics, if the download found any.
    Fetched(Option<String>),
}

/// What a step asks the caller to do next.
#[derive(Debug, PartialEq, Eq)]
pub enum LyricAction {
    /// Read the lyrics in the track's tags.
    ReadEmbedded,
    /// Ask the queue for the key's status.
    LookUpQueue,
    /// Read the key's cache file.
    ReadCache,
    /// Wait until the key's download is no longer pending.
    Wait,
    /// Record the key as pending and download the lyrics.
    Fetch,
    /// Record the status (when there is one) and answer.
    Finish(Option<LyricRequestStatus>, Result<String, String>),
    /// The report does not belong to this stage: nothing to do.
    Nothing,
}

/// The next stage and what to do, in the search's order: `.lrc` file and
/// tags (used when synchronised), the queue (loaded: the cache file; failed:
/// an error; pending: wait for it), and for a key the queue does not know,
/// the cache file (recorded as loaded) or else a download, whose outcome is
/// recorded. A report that does not belong to the stage changes nothing.
pub open spec fn lyric_transition(stage: LyricStage, event: LyricEvent, key: Seq<char>) -> (
    LyricStage,
    Option<(Option<LyricRequestStatus>, Result<Seq<char>, Seq<char>>)>,
    LyricAction,
) {
    match (stage, event) {
        (LyricStage::LrcFile, LyricEvent::LrcRead(l)) => if usable(crate::metadata::opt_chars(l)) {
            (LyricStage::Done, Some((None, Ok(l.unwrap()@))), LyricAction::Nothing)
        } else {
            (LyricStage::Embedded, None, LyricAction::ReadEmbedded)
        },
        (LyricStage::Embedded, LyricEvent::EmbeddedRead(e)) => if usable(crate::metadata::opt_chars(e)) {
            (LyricStage::Done, Some((None, Ok(e.unwrap()@))), LyricAction::Nothing)
        } else {
            (LyricStage::Queue, None, LyricAction::LookUpQueue)
        },
        (LyricStage::Queue, LyricEvent::QueueStatus(s)) => match s {
            Some(LyricRequestStatus::Loaded) => (LyricStage::QueuedCache, None, LyricAction::ReadCache),
            Some(LyricRequestStatus::Failed) => (
                LyricStage::Done,
                Some((None, Err("Lyrics fetch previously failed: "@ + key))),
                LyricAction::Nothing,
            ),
            Some(LyricRequestStatus::Pending) => (LyricStage::Waiting, None, LyricAction::Wait),
            None => (LyricStage::FreshCache, None, LyricAction::ReadCache),
        },
        (LyricStage::QueuedCache, LyricEvent::CacheRead(c)) => (
            LyricStage::Done,
            Some((None, loaded_outcome(crate::metadata::opt_chars(c), key))),
            LyricAction::Nothing,
        ),
        (LyricStage::Waiting, LyricEvent::WaitOver(s)) => if s == LyricRequestStatus::Loaded {
            (LyricStage::WaitedCache, None, LyricAction::ReadCache)
        } else {
            (LyricStage::Done, Some((None, Err("Lyrics fetch failed: "@ + key))), LyricAction::Nothing)
        },
        (LyricStage::WaitedCache, LyricEvent::CacheRead(c)) => (
            LyricStage::Done,
            Some((None, loaded_outcome(crate::metadata::opt_chars(c), key))),
            LyricAction::Nothing,
        ),
        (LyricStage::FreshCache, LyricEvent::CacheRead(c)) => match c {
            Some(t) => (
                LyricStage::Done,
                Some((Some(LyricRequestStatus::Loaded), Ok(t@))),
                LyricAction::Nothing,
            ),
            None => (LyricStage::Fetching, None, LyricAction::Fetch),
        },
        (LyricStage::Fetching, LyricEvent::Fetched(f)) => match f {
            Some(t) => (
                LyricStage::Done,
                Some((Some(LyricRequestStatus::Loaded), Ok(t@))),
                LyricAction::Nothing,
            ),
            None => (
                LyricStage::Done,
                Some((Some(LyricRequestStatus::Failed), Err("Failed to get lyrics for: "@ + key))),
                LyricAction::Nothing,
            ),
        },
        _ => (stage, None, LyricAction::Nothing),
    }
}

/// Whether a step's action is what `lyric_transition` gives: a `Finish`
/// carrying the stated status and answer, or the stated other action.
pub open spec fn action_matches(
    a: LyricAction,
    t: (LyricStage, Option<(Option<LyricRequestStatus>, Result<Seq<char>, Seq<char>>)>, LyricAction),
) -> bool {
    match t.1 {
        Some((status, answer)) => a matches LyricAction::Finish(s, x) && s == status && result_view(x)
            == answer,
        None => a == t.2,
    }
}

/// One step of a lyrics search (the search starts at `LyricStage::LrcFile`,
/// reading the `.lrc` file, once `lyric_query_check` has passed): from the
/// stage and what the caller reports, the next stage and what to do.
pub fn lyric_step(stage: LyricStage, event: LyricEvent, key: &str) -> (r: (LyricStage, LyricAction))
    ensures
        r.0 == lyric_transition(stage, event, key@).0,
        action_matches(r.1, lyric_transition(stage, event, key@)),
{
    match stage {
        LyricStage::LrcFile => match event {
            LyricEvent::LrcRead(l) => {
                if local_lyrics_usable(&l) {
                    match l {
                        Some(t) => (LyricStage::Done, LyricAction::Finish(None, Ok(t))),
                        None => (LyricStage::Embedded, LyricAction::ReadEmbedded),
                    }
                } else {
                    (LyricStage::Embedded, LyricAction::ReadEmbedded)
                }
            },
            _ => (stage, LyricAction::Nothing),
        },
        LyricStage::Embedded => match event {
            LyricEvent::EmbeddedRead(e) => {
                if local_lyrics_usable(&e) {
                    match e {
                        Some(t) => (LyricStage::Done, LyricAction::Finish(None, Ok(t))),
                        None => (LyricStage::Queue, LyricAction::LookUpQueue),
                    }
                } else {
                    (LyricStage::Queue, LyricAction::LookUpQueue)
                }
            },
            _ => (stage, LyricAction::Nothing),
        },
        LyricStage::Queue => match event {
            LyricEvent::QueueStatus(s) => match s {
                Some(status) => match queued_lyrics(status, None, key) {
                    Some(answer) => {
                        if status == LyricRequestStatus::Loaded {
                            (LyricStage::QueuedCache, LyricAction::ReadCache)
                        } else {
                            (LyricStage::Done, LyricAction::Finish(None, answer))
                        }
                    },
                    None => (LyricStage::Waiting, LyricAction::Wait),
                },
                None => (LyricStage::FreshCache, LyricAction::ReadCache),
            },
            _ => (stage, LyricAction::Nothing),
        },
        LyricStage::QueuedCache => match event {
            LyricEvent::CacheRead(c) => (
                LyricStage::Done,
                LyricAction::Finish(None, waited_lyrics(LyricRequestStatus::Loaded, c, key)),
            ),
            _ => (stage, LyricAction::Nothing),
        },
        LyricStage::Waiting => match event {
            LyricEvent::WaitOver(s) => {
                if s == LyricRequestStatus::Loaded {
                    (LyricStage::WaitedCache, LyricAction::ReadCache)
                } else {
                    (LyricStage::Done, LyricAction::Finish(None, waited_lyrics(s, None, key)))
                }
            },
            _ => (stage, LyricAction::Nothing),
        },
        LyricStage::WaitedCache => match event {
            LyricEvent::CacheRead(c) => (
                LyricStage::Done,
                LyricAction::Finish(None, waited_lyrics(LyricRequestStatus::Loaded, c, key)),
            ),
            _ => (stage, LyricAction::Nothing),
        },
        LyricStage::FreshCache => match event {
            LyricEvent::CacheRead(c) => match c {
                Some(t) => (
                    LyricStage::Done,
                    LyricAction::Finish(Some(LyricRequestStatus::Loaded), Ok(t)),
                ),
                None => (LyricStage::Fetching, LyricAction::Fetch),
            },
            _ => (stage, LyricAction::Nothing),
        },
        LyricStage::Fetching => match event {
            LyricEvent::Fetched(f) => {
                let (status, answer) = fetched_lyrics(f, key);
                (LyricStage::Done, LyricAction::Finish(Some(status), answer))
            },
            _ => (stage, LyricAction::Nothing),
        },
        LyricStage::Done => (stage, LyricAction::Nothing),
    }
}

} // verus!
