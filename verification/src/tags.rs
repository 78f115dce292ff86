//! Choosing among the tag revisions that a decoder reads out of a file
//! (an ID3v1 block beside an ID3v2 one, say) and applying the best one.
//!
//! The decoder's tags come in as plain values: each revision's format name
//! and its standard tags in order.
use crate::metadata::{opt_chars, MusicMetadata, MusicMetadataView};
use crate::text::{
    chars_contain, chars_of, contains_chars, decimal, decimal_of, lowercase_of, str_equal, to_lowercase,
};
use vstd::prelude::*;
use vstd::string::*;

verus! {

/// The standard tags that carry a track's fields; `Other` stands for the rest.
pub enum StandardTag {
    TrackTitle(String),
    Artist(String),
    Album(String),
    AlbumArtist(String),
    TrackNumber(u64),
    Genre(String),
    RecordingDate(String),
    ReleaseDate(String),
    Other,
}

/// One revision of a file's tags: the short name of its format (`"id3v2"`,
/// `"vorbis"`, ...) and its tags, each with its standard meaning if it has one.
pub struct TagRevision {
    pub format: String,
    pub tags: Vec<Option<StandardTag>>,
}

/// The fields that tags fill in.
pub struct TagFields {
    pub title: Option<Seq<char>>,
    pub artist: Option<Seq<char>>,
    pub album: Option<Seq<char>>,
    pub album_artist: Option<Seq<char>>,
    pub track_number: Option<Seq<char>>,
    pub genre: Option<Seq<char>>,
    pub date: Option<Seq<char>>,
}

/// No field filled in.
pub open spec fn no_fields() -> TagFields {
    TagFields {
        title: None,
        artist: None,
        album: None,
        album_artist: None,
        track_number: None,
        genre: None,
        date: None,
    }
}

/// How much a tag format is trusted: ID3v2 above Vorbis comments, MP4 and
/// FLAC, above APE, above ID3v1 (whose Latin-1 text mangles other scripts),
/// above anything else.
pub open spec fn format_score(name: Seq<char>) -> int {
    if name == "id3v2"@ {
        10
    } else if name == "vorbis"@ || name == "mp4"@ || name == "flac"@ {
        8
    } else if name == "ape"@ || name == "apev2"@ {
        5
    } else if name == "id3v1"@ {
        1
    } else {
        0
    }
}

/// The fields after one more tag: each tag sets its field, a later one
/// overriding an earlier one, but a release date only fills a date that is
/// still missing.
pub open spec fn with_tag(f: TagFields, t: Option<StandardTag>) -> TagFields {
    match t {
        Some(StandardTag::TrackTitle(v)) => TagFields { title: Some(v@), ..f },
        Some(StandardTag::Artist(v)) => TagFields { artist: Some(v@), ..f },
        Some(StandardTag::Album(v)) => TagFields { album: Some(v@), ..f },
        Some(StandardTag::AlbumArtist(v)) => TagFields { album_artist: Some(v@), ..f },
        Some(StandardTag::TrackNumber(n)) => TagFields {
            track_number: Some(decimal_of(n as nat)),
            ..f
        },
        Some(StandardTag::Genre(v)) => TagFields { genre: Some(v@), ..f },
        Some(StandardTag::RecordingDate(v)) => TagFields { date: Some(v@), ..f },
        Some(StandardTag::ReleaseDate(v)) => if f.date is None {
            TagFields { date: Some(v@), ..f }
        } else {
            f
        },
        _ => f,
    }
}

/// The fields that the tags fill in, taken in order.
pub open spec fn fields_of(tags: Seq<Option<StandardTag>>) -> TagFields
    decreases tags.len(),
{
    if tags.len() == 0 {
        no_fields()
    } else {
        with_tag(fields_of(tags.drop_last()), tags.last())
    }
}

/// The position of the best of the first `n` revisions: the first one with
/// the highest score.
pub open spec fn best_of(revs: Seq<TagRevision>, n: nat) -> Option<int>
    decreases n,
{
    if n == 0 {
        None
    } else {
        match best_of(revs, (n - 1) as nat) {
            None => Some(n - 1),
            Some(b) => if format_score(revs[n - 1].format@) > format_score(revs[b].format@) {
                Some(n - 1)
            } else {
                Some(b)
            },
        }
    }
}

/// The fields of the best revision (none without revisions).
pub open spec fn best_fields(revs: Seq<TagRevision>) -> TagFields {
    match best_of(revs, revs.len()) {
        Some(b) => fields_of(revs[b].tags@),
        None => no_fields(),
    }
}

/// `m` with its tag fields replaced by `f`.
pub open spec fn with_fields(m: MusicMetadataView, f: TagFields) -> MusicMetadataView {
    MusicMetadataView {
        title: f.title,
        artist: f.artist,
        album: f.album,
        album_artist: f.album_artist,
        track_number: f.track_number,
        genre: f.genre,
        date: f.date,
        ..m
    }
}

/// The score of a format name (see `format_score`).
pub fn score_of(name: &str) -> (r: i32)
    ensures
        r == format_score(name@),
{
    if str_equal(name, "id3v2") {
        10
    } else if str_equal(name, "vorbis") || str_equal(name, "mp4") || str_equal(name, "flac") {
        8
    } else if str_equal(name, "ape") || str_equal(name, "apev2") {
        5
    } else if str_equal(name, "id3v1") {
        1
    } else {
        0
    }
}

/// Applies one tag to the track's fields (see `with_tag`).
fn apply_tag(m: &mut MusicMetadata, t: &Option<StandardTag>)
    ensures
        final(m)@ == with_fields(old(m)@, with_tag(fields_view(old(m)@), *t)),
{
    match t {
        Some(StandardTag::TrackTitle(v)) => {
            m.title = Some(v.clone());
        },
        Some(StandardTag::Artist(v)) => {
            m.artist = Some(v.clone());
        },
        Some(StandardTag::Album(v)) => {
            m.album = Some(v.clone());
        },
        Some(StandardTag::AlbumArtist(v)) => {
            m.album_artist = Some(v.clone());
        },
        Some(StandardTag::TrackNumber(n)) => {
            m.track_number = Some(decimal(*n));
        },
        Some(StandardTag::Genre(v)) => {
            m.genre = Some(v.clone());
        },
        Some(StandardTag::RecordingDate(v)) => {
            m.date = Some(v.clone());
        },
        Some(StandardTag::ReleaseDate(v)) => {
            if m.date.is_none() {
                m.date = Some(v.clone());
            }
        },
        _ => {},
    }
}

/// The tag fields of a track.
pub open spec fn fields_view(m: MusicMetadataView) -> TagFields {
    TagFields {
        title: m.title,
        artist: m.artist,
        album: m.album,
        album_artist: m.album_artist,
        track_number: m.track_number,
        genre: m.genre,
        date: m.date,
    }
}

/// The track fields that a revision's tags give, on an empty track.
fn revision_metadata(rev: &TagRevision) -> (r: MusicMetadata)
    ensures
        r@ == with_fields(MusicMetadataView::empty(), fields_of(rev.tags@)),
{
    let mut m = MusicMetadata::default();
    let mut i: usize = 0;
    while i < rev.tags.len()
        invariant
            i <= rev.tags.len(),
            m@ == with_fields(MusicMetadataView::empty(), fields_of(rev.tags@.take(i as int))),
        decreases rev.tags.len() - i,
    {
        assert(rev.tags@.take(i + 1).drop_last() =~= rev.tags@.take(i as int));
        apply_tag(&mut m, &rev.tags[i]);
        i = i + 1;
    }
    assert(rev.tags@.take(rev.tags.len() as int) =~= rev.tags@);
    m
}

/// Replaces the track's tag fields with those of the best tag revision:
/// the first revision of the highest-scored format (see `format_score`);
/// without revisions the fields are cleared. The other fields stay.
pub fn apply_best_revision(metadata: &mut MusicMetadata, revisions: &Vec<TagRevision>)
    ensures
        final(metadata)@ == with_fields(old(metadata)@, best_fields(revisions@)),
{
    let mut best_score: i32 = -1;
    let mut best = MusicMetadata::default();
    let ghost mut best_index: int = -1;
    let mut i: usize = 0;
    while i < revisions.len()
        invariant
            i <= revisions.len(),
            match best_of(revisions@, i as nat) {
                Some(b) => best_index == b && 0 <= b < i && best_score == format_score(
                    revisions@[b].format@,
                ) && best@ == with_fields(
                    MusicMetadataView::empty(),
                    fields_of(revisions@[b].tags@),
                ),
                None => i == 0 && best_score == -1 && best@ == MusicMetadataView::empty(),
            },
        decreases revisions.len() - i,
    {
        let score = score_of(revisions[i].format.as_str());
        if score > best_score {
            best_score = score;
            best = revision_metadata(&revisions[i]);
            proof {
                best_index = i as int;
            }
        }
        i = i + 1;
    }
    metadata.title = best.title;
    metadata.artist = best.artist;
    metadata.album = best.album;
    metadata.album_artist = best.album_artist;
    metadata.track_number = best.track_number;
    metadata.genre = best.genre;
    metadata.date = best.date;
}

/// A tag as it may carry lyrics: its standard lyrics value if it is the
/// standard lyrics tag, and its raw key and value as text.
pub struct LyricsTag {
    pub standard_lyrics: Option<String>,
    pub key: String,
    pub value: String,
}

/// The lyrics a tag carries, if any: a non-empty standard lyrics value, or
/// else a non-empty value under a key that mentions "lyrics" in any case.
pub open spec fn tag_lyrics(t: LyricsTag) -> Option<Seq<char>> {
    if t.standard_lyrics matches Some(v) && v@.len() > 0 {
        Some(t.standard_lyrics.unwrap()@)
    } else if (contains_chars(lowercase_of(t.key@), "lyrics"@) || contains_chars(
        lowercase_of(t.key@),
        "unsyncedlyrics"@,
    )) && t.value@.len() > 0 {
        Some(t.value@)
    } else {
        None
    }
}

/// The first lyrics among the tags.
pub open spec fn first_lyrics(tags: Seq<LyricsTag>) -> Option<Seq<char>>
    decreases tags.len(),
{
    if tags.len() == 0 {
        None
    } else {
        match tag_lyrics(tags[0]) {
            Some(l) => Some(l),
            None => first_lyrics(tags.drop_first()),
        }
    }
}

/// The lyrics embedded in a file's current tag revision: the first tag, in
/// order, that carries some (see `tag_lyrics`).
pub fn embedded_lyrics(tags: &Vec<LyricsTag>) -> (r: Option<String>)
    ensures
        opt_chars(r) == first_lyrics(tags@),
{
    let mut i: usize = 0;
    assert(tags@.skip(0) =~= tags@);
    while i < tags.len()
        invariant
            i <= tags.len(),
            first_lyrics(tags@) == first_lyrics(tags@.skip(i as int)),
        decreases tags.len() - i,
    {
        assert(tags@.skip(i as int).drop_first() =~= tags@.skip(i + 1));
        let t = &tags[i];
        match &t.standard_lyrics {
            Some(v) => {
                if !v.as_str().is_empty() {
                    return Some(v.clone());
                }
            },
            None => {},
        }
        let key = chars_of(to_lowercase(t.key.as_str()).as_str());
        if (chars_contain(&key, &chars_of("lyrics")) || chars_contain(&key, &chars_of("unsyncedlyrics")))
            && !t.value.as_str().is_empty() {
            return Some(t.value.clone());
        }
        i = i + 1;
    }
    None
}

proof fn lemma_best_stays(revs: Seq<TagRevision>, k: int, n: nat)
    requires
        0 <= k < n <= revs.len(),
        format_score(revs[k].format@) == 10,
        forall|j: int| 0 <= j < k ==> format_score(#[trigger] revs[j].format@) < 10,
    ensures
        best_of(revs, n) == Some(k),
    decreases n,
{
    if n > k + 1 {
        lemma_best_stays(revs, k, (n - 1) as nat);
    } else {
        lemma_best_before(revs, k as nat);
    }
}

proof fn lemma_best_before(revs: Seq<TagRevision>, n: nat)
    requires
        n <= revs.len(),
        forall|j: int| 0 <= j < n ==> format_score(#[trigger] revs[j].format@) < 10,
    ensures
        best_of(revs, n) matches Some(b) ==> 0 <= b < n && format_score(revs[b].format@) < 10,
        n > 0 ==> best_of(revs, n) is Some,
    decreases n,
{
    if n > 0 {
        lemma_best_before(revs, (n - 1) as nat);
    }
}

/// ID3v2 tags win over every other revision: when a file carries an ID3v2
/// revision, the track's fields come from the first one.
pub proof fn law_id3v2_preferred(revs: Seq<TagRevision>, k: int)
    requires
        0 <= k < revs.len(),
        revs[k].format@ == "id3v2"@,
        forall|j: int| 0 <= j < k ==> revs[j].format@ != "id3v2"@,
    ensures
        best_fields(revs) == fields_of(revs[k].tags@),
{
    assert forall|j: int| 0 <= j < k implies format_score(#[trigger] revs[j].format@) < 10 by {
        assert(revs[j].format@ != "id3v2"@);
    }
    lemma_best_stays(revs, k, revs.len());
}

/// A title tag sets the title and nothing else.
pub proof fn law_title_tag(tags: Seq<Option<StandardTag>>, v: String)
    ensures
        fields_of(tags.push(Some(StandardTag::TrackTitle(v)))) == (TagFields { title: Some(v@), ..fields_of(tags) }),
{
    assert(tags.push(Some(StandardTag::TrackTitle(v))).drop_last() =~= tags);
}

/// An artist tag sets the artist and nothing else.
pub proof fn law_artist_tag(tags: Seq<Option<StandardTag>>, v: String)
    ensures
        fields_of(tags.push(Some(StandardTag::Artist(v)))) == (TagFields { artist: Some(v@), ..fields_of(tags) }),
{
    assert(tags.push(Some(StandardTag::Artist(v))).drop_last() =~= tags);
}

/// An album tag sets the album and nothing else.
pub proof fn law_album_tag(tags: Seq<Option<StandardTag>>, v: String)
    ensures
        fields_of(tags.push(Some(StandardTag::Album(v)))) == (TagFields { album: Some(v@), ..fields_of(tags) }),
{
    assert(tags.push(Some(StandardTag::Album(v))).drop_last() =~= tags);
}

/// An album-artist tag sets the album artist and nothing else.
pub proof fn law_album_artist_tag(tags: Seq<Option<StandardTag>>, v: String)
    ensures
        fields_of(tags.push(Some(StandardTag::AlbumArtist(v)))) == (TagFields {
            album_artist: Some(v@),
            ..fields_of(tags)
        }),
{
    assert(tags.push(Some(StandardTag::AlbumArtist(v))).drop_last() =~= tags);
}

/// A track-number tag sets the track number, written in decimal, and
/// nothing else.
pub proof fn law_track_number_tag(tags: Seq<Option<StandardTag>>, n: u64)
    ensures
        fields_of(tags.push(Some(StandardTag::TrackNumber(n)))) == (TagFields {
            track_number: Some(decimal_of(n as nat)),
            ..fields_of(tags)
        }),
{
    assert(tags.push(Some(StandardTag::TrackNumber(n))).drop_last() =~= tags);
}

/// A genre tag sets the genre and nothing else.
pub proof fn law_genre_tag(tags: Seq<Option<StandardTag>>, v: String)
    ensures
        fields_of(tags.push(Some(StandardTag::Genre(v)))) == (TagFields { genre: Some(v@), ..fields_of(tags) }),
{
    assert(tags.push(Some(StandardTag::Genre(v))).drop_last() =~= tags);
}

/// A recording date sets the date and nothing else; a release date only
/// fills a date that is still missing.
pub proof fn law_date_tags(tags: Seq<Option<StandardTag>>, v: String)
    ensures
        fields_of(tags.push(Some(StandardTag::RecordingDate(v)))) == (TagFields { date: Some(v@), ..fields_of(tags) }),
        fields_of(tags.push(Some(StandardTag::ReleaseDate(v)))) == (if fields_of(tags).date is None {
            TagFields { date: Some(v@), ..fields_of(tags) }
        } else {
            fields_of(tags)
        }),
{
    assert(tags.push(Some(StandardTag::RecordingDate(v))).drop_last() =~= tags);
    assert(tags.push(Some(StandardTag::ReleaseDate(v))).drop_last() =~= tags);
}

/// Tags without a standard meaning change no field.
pub proof fn law_other_tags_ignored(tags: Seq<Option<StandardTag>>)
    ensures
        fields_of(tags.push(None)) == fields_of(tags),
        fields_of(tags.push(Some(StandardTag::Other))) == fields_of(tags),
{
    assert(tags.push(None).drop_last() =~= tags);
    assert(tags.push(Some(StandardTag::Other)).drop_last() =~= tags);
}

/// The album artist of a revision is the value of its last album-artist
/// tag, whatever other tags follow it.
pub proof fn law_last_album_artist_wins(tags: Seq<Option<StandardTag>>, i: int, v: String)
    requires
        0 <= i < tags.len(),
        tags[i] == Some(StandardTag::AlbumArtist(v)),
        forall|j: int| i < j < tags.len() ==> !(#[trigger] tags[j] matches Some(StandardTag::AlbumArtist(_))),
    ensures
        fields_of(tags).album_artist == Some(v@),
    decreases tags.len(),
{
    if i < tags.len() - 1 {
        let t = tags.drop_last();
        assert forall|j: int| i < j < t.len() implies !(#[trigger] t[j] matches Some(StandardTag::AlbumArtist(_))) by {
            assert(t[j] == tags[j]);
        }
        law_last_album_artist_wins(t, i, v);
        assert(!(tags[tags.len() - 1] matches Some(StandardTag::AlbumArtist(_))));
    }
}

/// The title of a revision is the value of its last title tag, whatever
/// other tags follow it.
pub proof fn law_last_title_wins(tags: Seq<Option<StandardTag>>, i: int, v: String)
    requires
        0 <= i < tags.len(),
        tags[i] == Some(StandardTag::TrackTitle(v)),
        forall|j: int| i < j < tags.len() ==> !(#[trigger] tags[j] matches Some(StandardTag::TrackTitle(_))),
    ensures
        fields_of(tags).title == Some(v@),
    decreases tags.len(),
{
    if i < tags.len() - 1 {
        let t = tags.drop_last();
        assert forall|j: int| i < j < t.len() implies !(#[trigger] t[j] matches Some(StandardTag::TrackTitle(_))) by {
            assert(t[j] == tags[j]);
        }
        law_last_title_wins(t, i, v);
        assert(!(tags[tags.len() - 1] matches Some(StandardTag::TrackTitle(_))));
    }
}

/// A file with a single tag revision takes its fields from it.
pub proof fn law_single_revision(r: TagRevision)
    ensures
        best_fields(seq![r]) == fields_of(r.tags@),
{
    reveal_with_fuel(best_of, 2);
}

/// Which of a file's pictures is its cover, given for each picture whether it
/// is marked as the front cover or not marked at all: the first such picture,
/// else the first picture; `None` when there is no picture.
pub fn cover_index(preferred: &Vec<bool>) -> (r: Option<usize>)
    ensures
        match r {
            Some(i) => i < preferred.len() && ((preferred[i as int] && forall|j: int|
                0 <= j < i ==> !#[trigger] preferred[j]) || (i == 0 && forall|j: int|
                0 <= j < preferred.len() ==> !#[trigger] preferred[j])),
            None => preferred.len() == 0,
        },
{
    let mut i: usize = 0;
    while i < preferred.len()
        invariant
            i <= preferred.len(),
            forall|j: int| 0 <= j < i ==> !#[trigger] preferred[j],
        decreases preferred.len() - i,
    {
        if preferred[i] {
            return Some(i);
        }
        i = i + 1;
    }
    if preferred.len() > 0 {
        Some(0)
    } else {
        None
    }
}

/// The error for a file in which no cover picture was found.
pub fn no_cover_found(path: &str) -> (r: String)
    ensures
        r@ == "No cover art found in file: "@ + path@,
{
    let mut e = String::from_str("No cover art found in file: ");
    e.append(path);
    e
}

/// The tag format that a container's own revisions are scored as, by the
/// file's extension (lower-cased): Ogg and Opus carry Vorbis comments, M4A,
/// MP4 and AAC carry MP4 atoms, any other extension names its format.
pub open spec fn container_format_of(extension: Seq<char>) -> Seq<char> {
    let e = lowercase_of(extension);
    if e == "ogg"@ || e == "opus"@ {
        "vorbis"@
    } else if e == "m4a"@ || e == "mp4"@ || e == "aac"@ {
        "mp4"@
    } else {
        e
    }
}

/// The tag format of a container's revisions (see `container_format_of`).
pub fn container_format(extension: &str) -> (r: String)
    ensures
        r@ == container_format_of(extension@),
{
    let e = to_lowercase(extension);
    let s = e.as_str();
    if str_equal(s, "ogg") || str_equal(s, "opus") {
        String::from_str("vorbis")
    } else if str_equal(s, "m4a") || str_equal(s, "mp4") || str_equal(s, "aac") {
        String::from_str("mp4")
    } else {
        e
    }
}

} // verus!
