//! Guessing a track's artist and title from its file name, for files whose
//! tags leave them out ("01 - Artist - Title (Official Video).mp3").
use crate::metadata::{opt_chars, MusicMetadata, MusicMetadataView};
use crate::paths::{file_name_of, path_file_name};
use crate::text::{is_white_space, lemma_trimmed_empty, trim_string, trimmed};
use regex::Regex;
use vstd::prelude::*;
use vstd::string::*;

verus! {

/// Video-site suffixes such as "(Official Video)" or "[HD]" at the end of a name.
pub const SUFFIX_PATTERN: &'static str = "(?i)\\s*[\\[\\(](?:official\\s*(?:video|audio|music\\s*video|lyric\\s*video)?|lyrics?|hd|hq|4k|1080p|720p|audio|video|mv|m/v)[\\]\\)]\\s*$";

/// An eleven-character video id at the end of a name.
pub const VIDEO_ID_PATTERN: &'static str = "\\s*[\\[\\(]?[a-zA-Z0-9_-]{11}[\\]\\)]?\\s*$";

/// "01 - Artist - Title" or "01. Artist - Title".
pub const NUMBERED_PATTERN: &'static str = "^\\d+[\\.\\-\\s]+(.+?)\\s+[-–—]\\s+(.+)$";

/// "Artist - Title (feat. Someone)" or "Artist - Title (Remix)".
pub const DASH_TAGGED_PATTERN: &'static str = "^(.+?)\\s+[-–—]\\s+(.+?)(?:\\s+[\\(\\[].*[\\)\\]])*$";

/// "Artist – Title" (en dash) or "Artist — Title" (em dash).
pub const LONG_DASH_PATTERN: &'static str = "^(.+?)\\s+[–—]\\s+(.+)$";

/// "Artist - Title".
pub const DASH_PATTERN: &'static str = "^(.+?)\\s+-\\s+(.+)$";

/// "Title by Artist".
pub const BY_PATTERN: &'static str = "(?i)^(.+?)\\s+by\\s+(.+)$";

/// "Title ft. Artist", "Title feat. Artist" or "Title featuring Artist".
pub const FEATURING_PATTERN: &'static str = "(?i)^(.+?)\\s+(?:ft\\.?|feat\\.?|featuring)\\s+(.+)$";

/// "Artist_Title".
pub const UNDERSCORE_PATTERN: &'static str = "^([^_]+)_([^_]+)$";

/// "Artist ~ Title".
pub const TILDE_PATTERN: &'static str = "^(.+?)\\s*~\\s*(.+)$";

/// Trailing annotations such as "(Remastered)" or "[Live Version]".
pub const ANNOTATION_PATTERN: &'static str = "(?i)(?:\\s*[\\[\\(](?:official|lyrics?|hd|hq|audio|video|mv|m/v|remaster(?:ed)?|remix|live|acoustic|cover|instrumental|extended|edit|version|ver\\.?|mix)(?:\\s+\\w+)*[\\]\\)])+\\s*$";

/// A leading track number such as "01. " or "3 - ".
pub const TRACK_NUMBER_PATTERN: &'static str = "^\\d+[\\.\\-\\s]+";

/// Name for what the regex crate gives for `Regex::new(pattern)` followed by
/// `replace_all(text, replacement)`: the text with every match replaced, or
/// the text unchanged when the pattern does not compile.
pub uninterp spec fn replaced_all(pattern: Seq<char>, text: Seq<char>, replacement: Seq<char>) -> Seq<
    char,
>;

/// Name for what the regex crate gives for `Regex::new(pattern)` followed by
/// `replace(text, replacement)`: the text with its first match replaced, or
/// the text unchanged when the pattern does not compile.
pub uninterp spec fn replaced_first(pattern: Seq<char>, text: Seq<char>, replacement: Seq<char>) -> Seq<
    char,
>;

/// Name for what the regex crate gives for `Regex::new(pattern)` followed by
/// `captures(text)`: `None` when the pattern does not compile or does not
/// match, else the texts of capture groups 1 and 2 (each `None` when it did
/// not take part in the match).
pub uninterp spec fn captured(pattern: Seq<char>, text: Seq<char>) -> Option<
    (Option<Seq<char>>, Option<Seq<char>>),
>;

/// `pos` lists, in increasing order, the positions in `text` of the
/// characters of `r`.
pub open spec fn picks(pos: Seq<int>, r: Seq<char>, text: Seq<char>) -> bool {
    &&& pos.len() == r.len()
    &&& forall|i: int| 0 <= i < pos.len() ==> 0 <= #[trigger] pos[i] < text.len() && r[i] == text[pos[i]]
    &&& forall|i: int, j: int| 0 <= i < j < pos.len() ==> pos[i] < pos[j]
}

/// `r` is what is left of `text` once some of its characters are dropped.
pub open spec fn kept_from(r: Seq<char>, text: Seq<char>) -> bool {
    exists|pos: Seq<int>| #[trigger] picks(pos, r, text)
}

/// `g` is a stretch of consecutive characters of `text`.
pub open spec fn piece_of(g: Seq<char>, text: Seq<char>) -> bool {
    exists|i: int, j: int| 0 <= i <= j <= text.len() && #[trigger] text.subrange(i, j) == g
}

/// A capture group that is missing, or a stretch of `text`.
pub open spec fn group_in(g: Option<Seq<char>>, text: Seq<char>) -> bool {
    match g {
        Some(x) => piece_of(x, text),
        None => true,
    }
}

/// Replaces every match of `pattern` in `text` with `replacement`
/// (`regex::Regex::new` and `Regex::replace_all`). Trusted: the result is
/// `replaced_all(pattern, text, replacement)`, and with an empty replacement
/// it is the text with the matches cut out (or the text itself when the
/// pattern does not compile), so it keeps some of the text's characters in
/// their order and adds none.
#[verifier::external_body]
fn regex_replace_all(pattern: &str, text: &str, replacement: &str) -> (r: String)
    ensures
        r@ == replaced_all(pattern@, text@, replacement@),
        replacement@.len() == 0 ==> kept_from(r@, text@),
{
    match Regex::new(pattern) {
        Ok(re) => re.replace_all(text, replacement).into_owned(),
        Err(_) => text.to_string(),
    }
}

/// Replaces the first match of `pattern` in `text` with `replacement`
/// (`regex::Regex::new` and `Regex::replace`). Trusted: the result is
/// `replaced_first(pattern, text, replacement)`, and with an empty
/// replacement it is the text with its first match cut out (or the text
/// itself), so it keeps some of the text's characters in their order.
#[verifier::external_body]
fn regex_replace_first(pattern: &str, text: &str, replacement: &str) -> (r: String)
    ensures
        r@ == replaced_first(pattern@, text@, replacement@),
        replacement@.len() == 0 ==> kept_from(r@, text@),
{
    match Regex::new(pattern) {
        Ok(re) => re.replace(text, replacement).into_owned(),
        Err(_) => text.to_string(),
    }
}

/// The texts of capture groups 1 and 2 of the first match of `pattern` in
/// `text` (`regex::Regex::new` and `Regex::captures`). Trusted: the result
/// is `captured(pattern, text)`, and each group that took part is the text
/// of a span of `text` (`Match::as_str`).
#[verifier::external_body]
fn regex_captures(pattern: &str, text: &str) -> (r: Option<(Option<String>, Option<String>)>)
    ensures
        match r {
            Some((a, b)) => captured(pattern@, text@) == Some((opt_chars(a), opt_chars(b)))
                && group_in(opt_chars(a), text@) && group_in(opt_chars(b), text@),
            None => captured(pattern@, text@) is None,
        },
{
    match Regex::new(pattern) {
        Ok(re) => match re.captures(text) {
            Some(c) => Some(
                (c.get(1).map(|m| m.as_str().to_string()), c.get(2).map(|m| m.as_str().to_string())),
            ),
            None => None,
        },
        Err(_) => None,
    }
}

/// Whether `c` occurs in `s`.
pub open spec fn has_char(s: Seq<char>, c: char) -> bool {
    exists|i: int| 0 <= i < s.len() && s[i] == c
}

/// The position of the last `c` in `s` (meaningful when there is one).
pub open spec fn last_index_of(s: Seq<char>, c: char) -> int {
    choose|i: int| 0 <= i < s.len() && s[i] == c && forall|j: int| i < j < s.len() ==> s[j] != c
}

/// A file name without its extension: the text before the last `.`, or the
/// whole name when it has no `.` (as `str::rsplit_once('.')` splits it).
pub open spec fn without_extension(name: Seq<char>) -> Seq<char> {
    if has_char(name, '.') {
        name.take(last_index_of(name, '.'))
    } else {
        name
    }
}

/// The name without video-site suffixes and a trailing video id, trimmed.
pub open spec fn cleaned_name(base: Seq<char>) -> Seq<char> {
    trimmed(replaced_all(VIDEO_ID_PATTERN@, replaced_all(SUFFIX_PATTERN@, base, ""@), ""@))
}

/// The artist/title patterns, most specific first; `true` marks those that
/// put the title before the artist.
pub open spec fn name_patterns() -> Seq<(Seq<char>, bool)> {
    seq![
        (NUMBERED_PATTERN@, false),
        (DASH_TAGGED_PATTERN@, false),
        (LONG_DASH_PATTERN@, false),
        (DASH_PATTERN@, false),
        (BY_PATTERN@, true),
        (FEATURING_PATTERN@, true),
        (UNDERSCORE_PATTERN@, false),
        (TILDE_PATTERN@, false),
    ]
}

/// A text without trailing annotations, trimmed.
pub open spec fn without_annotations(s: Seq<char>) -> Seq<char> {
    trimmed(replaced_all(ANNOTATION_PATTERN@, s, ""@))
}

/// A title without trailing annotations and a leading track number.
pub open spec fn clean_title(s: Seq<char>) -> Seq<char> {
    trimmed(replaced_first(TRACK_NUMBER_PATTERN@, without_annotations(s), ""@))
}

/// The text of an optional capture group, trimmed ("" when it is missing).
pub open spec fn group_text(g: Option<Seq<char>>) -> Seq<char> {
    match g {
        Some(t) => trimmed(t),
        None => Seq::empty(),
    }
}

/// What a pattern yields once its capture groups are known: both groups
/// non-blank, and both artist and title still non-empty after clean-up.
pub open spec fn pattern_result_from(g1: Option<Seq<char>>, g2: Option<Seq<char>>, reversed: bool) -> Option<
    (Seq<char>, Seq<char>),
> {
    let first = group_text(g1);
    let second = group_text(g2);
    if first.len() == 0 || second.len() == 0 {
        None
    } else {
        let (artist, title) = if reversed {
            (second, first)
        } else {
            (first, second)
        };
        let a = without_annotations(artist);
        let t = clean_title(title);
        if a.len() > 0 && t.len() > 0 {
            Some((a, t))
        } else {
            None
        }
    }
}

/// The artist and title that pattern `p` finds in `cleaned`, if any.
pub open spec fn pattern_result(p: (Seq<char>, bool), cleaned: Seq<char>) -> Option<(Seq<char>, Seq<char>)> {
    match captured(p.0, cleaned) {
        Some((g1, g2)) => pattern_result_from(g1, g2, p.1),
        None => None,
    }
}

/// The first result among `patterns`, in order.
pub open spec fn first_pattern_result(patterns: Seq<(Seq<char>, bool)>, cleaned: Seq<char>) -> Option<
    (Seq<char>, Seq<char>),
>
    decreases patterns.len(),
{
    if patterns.len() == 0 {
        None
    } else {
        match pattern_result(patterns[0], cleaned) {
            Some(r) => Some(r),
            None => first_pattern_result(patterns.drop_first(), cleaned),
        }
    }
}

/// The title used when no pattern finds an artist.
pub open spec fn fallback_title(base: Seq<char>, cleaned: Seq<char>) -> Seq<char> {
    if cleaned.len() == 0 {
        trimmed(base)
    } else if clean_title(cleaned).len() == 0 {
        trimmed(base)
    } else {
        clean_title(cleaned)
    }
}

/// The artist (if found) and title read from a file name.
pub open spec fn artist_title_of(name: Seq<char>) -> (Option<Seq<char>>, Seq<char>) {
    let base = without_extension(name);
    let cleaned = cleaned_name(base);
    match first_pattern_result(name_patterns(), cleaned) {
        Some((a, t)) => (Some(a), t),
        None => (None, fallback_title(base, cleaned)),
    }
}

/// What is kept from white space is white space.
proof fn lemma_kept_white(r: Seq<char>, text: Seq<char>)
    requires
        kept_from(r, text),
        forall|i: int| 0 <= i < text.len() ==> is_white_space(#[trigger] text[i]),
    ensures
        forall|i: int| 0 <= i < r.len() ==> is_white_space(#[trigger] r[i]),
{
    let pos = choose|pos: Seq<int>| #[trigger] picks(pos, r, text);
    assert forall|i: int| 0 <= i < r.len() implies is_white_space(#[trigger] r[i]) by {
        assert(0 <= pos[i] < text.len());
    }
}

/// The groups of a match in an empty text give no artist and title.
proof fn lemma_no_result_in_empty(
    g1: Option<Seq<char>>,
    g2: Option<Seq<char>>,
    text: Seq<char>,
    reversed: bool,
)
    requires
        text.len() == 0,
        group_in(g1, text),
    ensures
        pattern_result_from(g1, g2, reversed) is None,
{
    if let Some(x) = g1 {
        let (i, j) = choose|i: int, j: int| 0 <= i <= j <= text.len() && #[trigger] text.subrange(i, j) == x;
        assert(x.len() == 0);
        lemma_trimmed_empty(x);
    }
}

/// The name without its extension.
fn strip_extension(name: &str) -> (r: String)
    ensures
        r@ == without_extension(name@),
{
    let cs = crate::text::chars_of(name);
    let mut i: usize = cs.len();
    while i > 0 && cs[i - 1] != '.'
        invariant
            i <= cs.len(),
            cs@ == name@,
            forall|j: int| i <= j < cs.len() ==> cs@[j] != '.',
        decreases i,
    {
        i = i - 1;
    }
    if i == 0 {
        proof {
            assert(!has_char(name@, '.'));
        }
        crate::text::string_from_chars(&cs)
    } else {
        let dot = i - 1;
        proof {
            assert(has_char(name@, '.')) by {
                assert(name@[dot as int] == '.');
            }
            let l = last_index_of(name@, '.');
            if l < dot {
                assert(name@[dot as int] == '.');
            }
            if l > dot {
                assert(cs@[l] != '.');
            }
        }
        let mut out: Vec<char> = Vec::new();
        let mut k: usize = 0;
        while k < dot
            invariant
                k <= dot < cs.len(),
                out@ == cs@.take(k as int),
            decreases dot - k,
        {
            out.push(cs[k]);
            assert(cs@.take(k + 1) =~= cs@.take(k as int).push(cs@[k as int]));
            k = k + 1;
        }
        crate::text::string_from_chars(&out)
    }
}

/// The exec form of `name_patterns()[k]`.
fn name_pattern(k: usize) -> (r: (&'static str, bool))
    requires
        k < 8,
    ensures
        r.0@ == name_patterns()[k as int].0,
        r.1 == name_patterns()[k as int].1,
{
    match k {
        0 => (NUMBERED_PATTERN, false),
        1 => (DASH_TAGGED_PATTERN, false),
        2 => (LONG_DASH_PATTERN, false),
        3 => (DASH_PATTERN, false),
        4 => (BY_PATTERN, true),
        5 => (FEATURING_PATTERN, true),
        6 => (UNDERSCORE_PATTERN, false),
        _ => (TILDE_PATTERN, false),
    }
}

/// The trimmed text of an optional capture group.
fn group_string(g: &Option<String>) -> (r: String)
    ensures
        r@ == group_text(opt_chars(*g)),
{
    match g {
        Some(t) => trim_string(t.as_str()),
        None => String::new(),
    }
}

/// The artist and title from two captured groups, once the regular
/// expressions have matched: what `pattern_result` makes of them.
pub fn artist_title_from_groups(g1: &Option<String>, g2: &Option<String>, reversed: bool) -> (r:
    Option<(String, String)>)
    ensures
        match r {
            Some((a, t)) => pattern_result_from(opt_chars(*g1), opt_chars(*g2), reversed) == Some(
                (a@, t@),
            ),
            None => pattern_result_from(opt_chars(*g1), opt_chars(*g2), reversed) is None,
        },
{
    let first = group_string(g1);
    let second = group_string(g2);
    if first.as_str().is_empty() || second.as_str().is_empty() {
        return None;
    }
    let (artist, title) = if reversed {
        (second, first)
    } else {
        (first, second)
    };
    let a = trim_string(regex_replace_all(ANNOTATION_PATTERN, artist.as_str(), "").as_str());
    let t0 = trim_string(regex_replace_all(ANNOTATION_PATTERN, title.as_str(), "").as_str());
    let t = trim_string(regex_replace_first(TRACK_NUMBER_PATTERN, t0.as_str(), "").as_str());
    if !a.as_str().is_empty() && !t.as_str().is_empty() {
        Some((a, t))
    } else {
        None
    }
}

/// Parses the artist and the title out of a file name: the extension, video
/// suffixes and a video id are dropped, then the patterns are tried in order
/// ("01 - Artist - Title", "Artist - Title (...)", dashes, "Title by Artist",
/// "Title feat. Artist", "Artist_Title", "Artist ~ Title"); without a match
/// the cleaned name is the title and there is no artist.
pub fn get_artist_title_from_file_name(file_name: &str) -> (r: (Option<String>, String))
    ensures
        (opt_chars(r.0), r.1@) == artist_title_of(file_name@),
        // The title is empty exactly when the name before its extension is blank.
        r.1@.len() == 0 <==> trimmed(without_extension(file_name@)).len() == 0,
{
    let base = strip_extension(file_name);
    let step = regex_replace_all(SUFFIX_PATTERN, base.as_str(), "");
    let stripped = regex_replace_all(VIDEO_ID_PATTERN, step.as_str(), "");
    let cleaned = trim_string(stripped.as_str());
    let ghost blank_stem = trimmed(base@).len() == 0;
    proof {
        reveal_strlit("");
        lemma_trimmed_empty(base@);
        lemma_trimmed_empty(cleaned@);
        lemma_trimmed_empty(stripped@);
        if blank_stem {
            lemma_kept_white(step@, base@);
            lemma_kept_white(stripped@, step@);
        }
    }
    let ghost ps = name_patterns();
    let mut k: usize = 0;
    assert(ps.skip(0) =~= ps);
    while k < 8
        invariant
            k <= 8,
            ps == name_patterns(),
            cleaned@ == cleaned_name(without_extension(file_name@)),
            first_pattern_result(ps, cleaned@) == first_pattern_result(ps.skip(k as int), cleaned@),
            base@ == without_extension(file_name@),
            blank_stem == (trimmed(base@).len() == 0),
            blank_stem ==> cleaned@.len() == 0,
        decreases 8 - k,
    {
        assert(ps.skip(k as int).drop_first() =~= ps.skip(k + 1));
        let (pattern, reversed) = name_pattern(k);
        match regex_captures(pattern, cleaned.as_str()) {
            Some((g1, g2)) => {
                proof {
                    if blank_stem {
                        lemma_no_result_in_empty(opt_chars(g1), opt_chars(g2), cleaned@, reversed);
                    }
                }
                match artist_title_from_groups(&g1, &g2, reversed) {
                    Some((a, t)) => {
                        return (Some(a), t);
                    },
                    None => {},
                }
            },
            None => {},
        }
        k = k + 1;
    }
    assert(ps.skip(8) =~= Seq::<(Seq<char>, bool)>::empty());
    let title = if cleaned.as_str().is_empty() {
        trim_string(base.as_str())
    } else {
        proof {
            assert(!blank_stem);
        }
        let t0 = trim_string(regex_replace_all(ANNOTATION_PATTERN, cleaned.as_str(), "").as_str());
        let t = trim_string(regex_replace_first(TRACK_NUMBER_PATTERN, t0.as_str(), "").as_str());
        if t.as_str().is_empty() {
            trim_string(base.as_str())
        } else {
            t
        }
    };
    (None, title)
}

/// Whether an optional tag is missing or blank.
pub open spec fn blank(s: Option<Seq<char>>) -> bool {
    match s {
        Some(t) => trimmed(t).len() == 0,
        None => true,
    }
}

/// A track's metadata with a missing or blank title or artist taken from
/// its file name: the title always, the artist only when one was found.
pub open spec fn completed(m: MusicMetadataView) -> MusicMetadataView {
    let title_missing = blank(m.title);
    let artist_missing = blank(m.artist);
    match file_name_of(m.path) {
        Some(name) => if title_missing || artist_missing {
            let (artist, title) = artist_title_of(name);
            MusicMetadataView {
                title: if title_missing {
                    Some(title)
                } else {
                    m.title
                },
                artist: if artist_missing && artist is Some {
                    artist
                } else {
                    m.artist
                },
                ..m
            }
        } else {
            m
        },
        None => m,
    }
}

/// Whether an optional string is missing or blank.
fn is_blank(s: &Option<String>) -> (r: bool)
    ensures
        r == blank(opt_chars(*s)),
{
    match s {
        Some(t) => trim_string(t.as_str()).as_str().is_empty(),
        None => true,
    }
}

/// Fills a missing or blank title or artist from the file name of the
/// track's path (see `completed`).
pub fn fill_missing_artist_title(metadata: &mut MusicMetadata)
    ensures
        final(metadata)@ == completed(old(metadata)@),
{
    let title_missing = is_blank(&metadata.title);
    let artist_missing = is_blank(&metadata.artist);
    if title_missing || artist_missing {
        match path_file_name(metadata.path.as_str()) {
            Some(name) => {
                let (artist, title) = get_artist_title_from_file_name(name.as_str());
                if title_missing {
                    metadata.title = Some(title);
                }
                if artist_missing {
                    match artist {
                        Some(a) => {
                            metadata.artist = Some(a);
                        },
                        None => {},
                    }
                }
            },
            None => {},
        }
    }
}

proof fn lemma_found_artist_not_empty(patterns: Seq<(Seq<char>, bool)>, cleaned: Seq<char>)
    ensures
        first_pattern_result(patterns, cleaned) matches Some((a, t)) ==> a.len() > 0 && t.len() > 0,
    decreases patterns.len(),
{
    if patterns.len() > 0 {
        lemma_found_artist_not_empty(patterns.drop_first(), cleaned);
    }
}

/// A file name never yields an empty artist: when an artist is found, both
/// it and the title hold some text.
pub proof fn law_found_artist_not_empty(name: Seq<char>)
    ensures
        artist_title_of(name).0 matches Some(a) ==> a.len() > 0 && artist_title_of(name).1.len() > 0,
{
    lemma_found_artist_not_empty(name_patterns(), cleaned_name(without_extension(name)));
}

} // verus!
