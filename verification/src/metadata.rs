//! The metadata of one music file, and its mathematical view.
use std::collections::HashMap;
use vstd::prelude::*;
use vstd::string::*;

verus! {

/// Tags and technical data of one music file.
pub struct MusicMetadata {
    pub id: i16,
    pub path: String,
    pub duration: Option<u128>,
    pub filename: Option<String>,
    pub title: Option<String>,
    pub artist: Option<String>,
    pub album: Option<String>,
    pub album_artist: Option<String>,
    pub track_number: Option<String>,
    pub genre: Option<String>,
    pub date: Option<String>,
    pub bits_per_sample: Option<u32>,
    pub sample_rate: Option<u32>,
    pub image: Option<String>,
    pub extra_tags: Option<HashMap<String, Option<String>>>,
}

/// The mathematical value of a `MusicMetadata`: strings as character sequences.
pub struct MusicMetadataView {
    pub id: i16,
    pub path: Seq<char>,
    pub duration: Option<u128>,
    pub filename: Option<Seq<char>>,
    pub title: Option<Seq<char>>,
    pub artist: Option<Seq<char>>,
    pub album: Option<Seq<char>>,
    pub album_artist: Option<Seq<char>>,
    pub track_number: Option<Seq<char>>,
    pub genre: Option<Seq<char>>,
    pub date: Option<Seq<char>>,
    pub bits_per_sample: Option<u32>,
    pub sample_rate: Option<u32>,
    pub image: Option<Seq<char>>,
    pub extra_tags: Option<Map<String, Option<String>>>,
}

/// The characters of an optional string.
pub open spec fn opt_chars(s: Option<String>) -> Option<Seq<char>> {
    match s {
        Some(v) => Some(v@),
        None => None,
    }
}

impl View for MusicMetadata {
    type V = MusicMetadataView;

    open spec fn view(&self) -> MusicMetadataView {
        MusicMetadataView {
            id: self.id,
            path: self.path@,
            duration: self.duration,
            filename: opt_chars(self.filename),
            title: opt_chars(self.title),
            artist: opt_chars(self.artist),
            album: opt_chars(self.album),
            album_artist: opt_chars(self.album_artist),
            track_number: opt_chars(self.track_number),
            genre: opt_chars(self.genre),
            date: opt_chars(self.date),
            bits_per_sample: self.bits_per_sample,
            sample_rate: self.sample_rate,
            image: opt_chars(self.image),
            extra_tags: match self.extra_tags {
                Some(m) => Some(m@),
                None => None,
            },
        }
    }
}

/// The views of a sequence of tracks.
pub open spec fn views(s: Seq<MusicMetadata>) -> Seq<MusicMetadataView> {
    s.map_values(|m: MusicMetadata| m@)
}

/// A copy of an optional string.
pub fn clone_opt_string(s: &Option<String>) -> (r: Option<String>)
    ensures
        opt_chars(r) == opt_chars(*s),
{
    match s {
        Some(v) => Some(v.clone()),
        None => None,
    }
}

impl Clone for MusicMetadata {
    fn clone(&self) -> (r: Self)
        ensures
            r@ == self@,
    {
        let extra_tags = match &self.extra_tags {
            Some(m) => Some(m.clone()),
            None => None,
        };
        MusicMetadata {
            id: self.id,
            path: self.path.clone(),
            duration: self.duration,
            filename: clone_opt_string(&self.filename),
            title: clone_opt_string(&self.title),
            artist: clone_opt_string(&self.artist),
            album: clone_opt_string(&self.album),
            album_artist: clone_opt_string(&self.album_artist),
            track_number: clone_opt_string(&self.track_number),
            genre: clone_opt_string(&self.genre),
            date: clone_opt_string(&self.date),
            bits_per_sample: self.bits_per_sample,
            sample_rate: self.sample_rate,
            image: clone_opt_string(&self.image),
            extra_tags,
        }
    }
}

/// Copies of every track of `v`, in order.
pub fn clone_tracks(v: &Vec<MusicMetadata>) -> (r: Vec<MusicMetadata>)
    ensures
        views(r@) == views(v@),
{
    let mut out: Vec<MusicMetadata> = Vec::new();
    let mut i: usize = 0;
    while i < v.len()
        invariant
            i <= v.len(),
            out.len() == i,
            forall|j: int| 0 <= j < i ==> #[trigger] out@[j]@ == v@[j]@,
        decreases v.len() - i,
    {
        out.push(v[i].clone());
        i = i + 1;
    }
    assert(views(out@) =~= views(v@));
    out
}

impl Default for MusicMetadata {
    fn default() -> (r: Self)
        ensures
            r@ == MusicMetadataView::empty(),
    {
        MusicMetadata {
            id: 0,
            path: String::new(),
            duration: None,
            filename: None,
            title: None,
            artist: None,
            album: None,
            album_artist: None,
            track_number: None,
            genre: None,
            date: None,
            bits_per_sample: None,
            sample_rate: None,
            image: None,
            extra_tags: None,
        }
    }
}

impl MusicMetadataView {
    /// The view of `MusicMetadata::default()`: id 0, empty path, no tags.
    pub open spec fn empty() -> MusicMetadataView {
        MusicMetadataView {
            id: 0,
            path: Seq::empty(),
            duration: None,
            filename: None,
            title: None,
            artist: None,
            album: None,
            album_artist: None,
            track_number: None,
            genre: None,
            date: None,
            bits_per_sample: None,
            sample_rate: None,
            image: None,
            extra_tags: None,
        }
    }
}

/// Title shown for a track without one.
pub const DEFAULT_TITLE: &'static str = "Unknown Title";

/// Artist shown for a track without one.
pub const DEFAULT_ARTIST: &'static str = "Unknown Artist";

impl MusicMetadata {
    /// Title shown for a track without one.
    pub fn default_title() -> (r: &'static str)
        ensures
            r@ == DEFAULT_TITLE@,
    {
        DEFAULT_TITLE
    }

    /// Artist shown for a track without one.
    pub fn default_artist() -> (r: &'static str)
        ensures
            r@ == DEFAULT_ARTIST@,
    {
        DEFAULT_ARTIST
    }

    /// Separator between several artists in one tag.
    pub fn artist_separator() -> (r: &'static str)
        ensures
            r@ == ";"@,
    {
        ";"
    }

    /// Separator between fields in a one-line summary.
    pub fn separator() -> (r: &'static str)
        ensures
            r@ == " • "@,
    {
        " • "
    }
}

} // verus!
