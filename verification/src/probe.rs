//! Reading track metadata out of what `ffprobe -print_format json` reports.
//!
//! The printed text is parsed as JSON and the parts that matter are read
//! out of it as plain values: each stream's fields and the container's tags
//! and duration.
use crate::json::{
    json_field, json_get, json_int, json_integer, json_parsed, json_string, json_text, parse_json,
    JsonValue,
};
use crate::metadata::{MusicMetadata, MusicMetadataView};
use crate::text::{
    chars_of, lemma_trimmed_idempotent, lowercase_of, parse_u32, parse_u32_spec, str_equal, string_from_chars, to_lowercase,
    trim_chars, trimmed,
};
use vstd::prelude::*;
use vstd::string::*;

verus! {

/// One entry of the `streams` array: each field as the text (or integer)
/// it holds, `None` when it is missing or of another JSON type.
pub struct ProbeStream {
    pub codec_type: Option<String>,
    pub sample_rate: Option<String>,
    pub bits_per_raw_sample: Option<String>,
    pub bits_per_sample: Option<i64>,
}

/// The `format` object: its tags in the order the JSON map keeps them
/// (`None` when `tags` is missing or not an object; a tag's value is `None`
/// when it is not a string) and its `duration` text.
pub struct ProbeFormat {
    pub tags: Option<Vec<(String, Option<String>)>>,
    pub duration: Option<String>,
}

/// The parts of an ffprobe report that metadata is read from.
pub struct ProbeReport {
    /// `None` when `streams` is missing or not an array.
    pub streams: Option<Vec<ProbeStream>>,
    pub format: Option<ProbeFormat>,
}

/// Metadata read from a report, with the two numbers that are written as
/// decimal fractions left as text for the caller to convert.
pub struct ProbeMetadata {
    pub metadata: MusicMetadata,
    /// The container's duration in seconds, as text.
    pub duration_text: Option<String>,
    /// The first audio stream's sample rate, as text.
    pub sample_rate_text: Option<String>,
}

/// A tag list as characters.
pub open spec fn tag_views(tags: Seq<(String, Option<String>)>) -> Seq<(Seq<char>, Option<Seq<char>>)> {
    tags.map_values(|t: (String, Option<String>)| (t.0@, crate::metadata::opt_chars(t.1)))
}

/// The trimmed text of a tag value, when it is a non-blank string.
pub open spec fn usable(v: Option<Seq<char>>) -> Option<Seq<char>> {
    match v {
        Some(s) => if trimmed(s).len() > 0 {
            Some(trimmed(s))
        } else {
            None
        },
        None => None,
    }
}

/// The value of the tag named exactly `key` (the first such entry).
pub open spec fn exact_value(tags: Seq<(Seq<char>, Option<Seq<char>>)>, key: Seq<char>) -> Option<
    Seq<char>,
>
    decreases tags.len(),
{
    if tags.len() == 0 {
        None
    } else if tags[0].0 == key {
        tags[0].1
    } else {
        exact_value(tags.drop_first(), key)
    }
}

/// The first usable value among the tags whose name, lower-cased, is `key_lc`.
pub open spec fn folded_value(tags: Seq<(Seq<char>, Option<Seq<char>>)>, key_lc: Seq<char>) -> Option<
    Seq<char>,
>
    decreases tags.len(),
{
    if tags.len() == 0 {
        None
    } else if lowercase_of(tags[0].0) == key_lc && usable(tags[0].1) is Some {
        usable(tags[0].1)
    } else {
        folded_value(tags.drop_first(), key_lc)
    }
}

/// First pass: the first key, in order, whose exact tag is usable.
pub open spec fn exact_pass(tags: Seq<(Seq<char>, Option<Seq<char>>)>, keys: Seq<Seq<char>>) -> Option<
    Seq<char>,
>
    decreases keys.len(),
{
    if keys.len() == 0 {
        None
    } else if usable(exact_value(tags, keys[0])) is Some {
        usable(exact_value(tags, keys[0]))
    } else {
        exact_pass(tags, keys.drop_first())
    }
}

/// Second pass: the first key, in order, with a usable tag whose name
/// matches it case-insensitively.
pub open spec fn folded_pass(tags: Seq<(Seq<char>, Option<Seq<char>>)>, keys: Seq<Seq<char>>) -> Option<
    Seq<char>,
>
    decreases keys.len(),
{
    if keys.len() == 0 {
        None
    } else if folded_value(tags, lowercase_of(keys[0])) is Some {
        folded_value(tags, lowercase_of(keys[0]))
    } else {
        folded_pass(tags, keys.drop_first())
    }
}

/// A tag under any of several names: exact names first, then names that
/// match case-insensitively; values are trimmed and blank ones skipped.
pub open spec fn tag_of(tags: Seq<(Seq<char>, Option<Seq<char>>)>, keys: Seq<Seq<char>>) -> Option<
    Seq<char>,
> {
    match exact_pass(tags, keys) {
        Some(v) => Some(v),
        None => folded_pass(tags, keys),
    }
}

/// The trimmed value, when non-blank.
fn usable_value(v: &Option<String>) -> (r: Option<String>)
    ensures
        crate::metadata::opt_chars(r) == usable(crate::metadata::opt_chars(*v)),
{
    match v {
        Some(s) => {
            let t = trim_chars(&chars_of(s.as_str()));
            if t.len() > 0 {
                Some(string_from_chars(&t))
            } else {
                None
            }
        },
        None => None,
    }
}

/// The value of the tag named exactly `key`.
fn exact_lookup(tags: &Vec<(String, Option<String>)>, key: &str) -> (r: Option<String>)
    ensures
        crate::metadata::opt_chars(r) == exact_value(tag_views(tags@), key@),
{
    let ghost tv = tag_views(tags@);
    assert(tv.skip(0) =~= tv);
    let mut i: usize = 0;
    while i < tags.len()
        invariant
            i <= tags.len(),
            tv == tag_views(tags@),
            exact_value(tv, key@) == exact_value(tv.skip(i as int), key@),
        decreases tags.len() - i,
    {
        assert(tv.skip(i as int).drop_first() =~= tv.skip(i + 1));
        if str_equal(tags[i].0.as_str(), key) {
            return match &tags[i].1 {
                Some(v) => Some(v.clone()),
                None => None,
            };
        }
        i = i + 1;
    }
    None
}

/// The first usable value of a tag whose lower-cased name is `key_lc`.
fn folded_lookup(tags: &Vec<(String, Option<String>)>, key_lc: &Vec<char>) -> (r: Option<String>)
    ensures
        crate::metadata::opt_chars(r) == folded_value(tag_views(tags@), key_lc@),
{
    let ghost tv = tag_views(tags@);
    assert(tv.skip(0) =~= tv);
    let mut i: usize = 0;
    while i < tags.len()
        invariant
            i <= tags.len(),
            tv == tag_views(tags@),
            folded_value(tv, key_lc@) == folded_value(tv.skip(i as int), key_lc@),
        decreases tags.len() - i,
    {
        assert(tv.skip(i as int).drop_first() =~= tv.skip(i + 1));
        let name_lc = chars_of(to_lowercase(tags[i].0.as_str()).as_str());
        if crate::text::chars_equal(&name_lc, key_lc) {
            let v = usable_value(&tags[i].1);
            if v.is_some() {
                return v;
            }
        }
        i = i + 1;
    }
    None
}

/// A tag under any of several names (see `tag_of`).
pub fn extract_tag(tags: &Vec<(String, Option<String>)>, keys: &[&str]) -> (r: Option<String>)
    ensures
        crate::metadata::opt_chars(r) == tag_of(
            tag_views(tags@),
            keys@.map_values(|k: &str| k@),
        ),
{
    let ghost tv = tag_views(tags@);
    let ghost ks = keys@.map_values(|k: &str| k@);
    assert(ks.skip(0) =~= ks);
    let mut i: usize = 0;
    while i < keys.len()
        invariant
            i <= keys.len(),
            tv == tag_views(tags@),
            ks == keys@.map_values(|k: &str| k@),
            exact_pass(tv, ks) == exact_pass(tv, ks.skip(i as int)),
        decreases keys.len() - i,
    {
        assert(ks.skip(i as int).drop_first() =~= ks.skip(i + 1));
        let v = usable_value(&exact_lookup(tags, keys[i]));
        if v.is_some() {
            return v;
        }
        i = i + 1;
    }
    assert(ks.skip(keys.len() as int) =~= Seq::<Seq<char>>::empty());
    let mut j: usize = 0;
    while j < keys.len()
        invariant
            j <= keys.len(),
            tv == tag_views(tags@),
            ks == keys@.map_values(|k: &str| k@),
            exact_pass(tv, ks) is None,
            folded_pass(tv, ks) == folded_pass(tv, ks.skip(j as int)),
        decreases keys.len() - j,
    {
        assert(ks.skip(j as int).drop_first() =~= ks.skip(j + 1));
        let key_lc = chars_of(to_lowercase(keys[j]).as_str());
        let v = folded_lookup(tags, &key_lc);
        if v.is_some() {
            return v;
        }
        j = j + 1;
    }
    assert(ks.skip(keys.len() as int) =~= Seq::<Seq<char>>::empty());
    None
}

} // verus!

verus! {

/// Whether a stream is an audio stream.
pub open spec fn is_audio(s: ProbeStream) -> bool {
    crate::metadata::opt_chars(s.codec_type) == Some("audio"@)
}

/// Whether the report lists at least one audio stream.
pub open spec fn has_audio(r: ProbeReport) -> bool {
    match r.streams {
        Some(v) => exists|i: int| 0 <= i < v@.len() && #[trigger] is_audio(v@[i]),
        None => false,
    }
}

/// The first audio stream of a list.
pub open spec fn first_audio(ss: Seq<ProbeStream>) -> Option<ProbeStream>
    decreases ss.len(),
{
    if ss.len() == 0 {
        None
    } else if is_audio(ss[0]) {
        Some(ss[0])
    } else {
        first_audio(ss.drop_first())
    }
}

/// The value of a text that `i32::from_str` reads as a positive number.
pub open spec fn positive_i32(t: Seq<char>) -> Option<u32> {
    match parse_u32_spec(t) {
        Some(v) => if 0 < v && v <= i32::MAX {
            Some(v)
        } else {
            None
        },
        None => None,
    }
}

/// The bit depth of a stream: `bits_per_raw_sample` when that is a string
/// (counted only when it reads as a positive `i32`), else a positive
/// integer `bits_per_sample`, taken modulo 2^32.
pub open spec fn bits_of(s: ProbeStream) -> Option<u32> {
    match crate::metadata::opt_chars(s.bits_per_raw_sample) {
        Some(t) => positive_i32(t),
        None => match s.bits_per_sample {
            Some(b) => if b > 0 {
                Some(b as u32)
            } else {
                None
            },
            None => None,
        },
    }
}

/// The names under which each field's tag is looked up.
pub open spec fn title_keys() -> Seq<Seq<char>> {
    seq!["title"@, "TITLE"@, "Title"@]
}

pub open spec fn artist_keys() -> Seq<Seq<char>> {
    seq!["artist"@, "ARTIST"@, "Artist"@]
}

pub open spec fn album_artist_keys() -> Seq<Seq<char>> {
    seq!["album_artist"@, "ALBUM_ARTIST"@, "ALBUMARTIST"@]
}

pub open spec fn album_keys() -> Seq<Seq<char>> {
    seq!["album"@, "ALBUM"@, "Album"@]
}

pub open spec fn track_keys() -> Seq<Seq<char>> {
    seq!["track"@, "TRACK"@, "TRACKNUMBER"@]
}

/// The tags of a report's `format`, as characters (`None` without them).
pub open spec fn report_tags(r: ProbeReport) -> Option<Seq<(Seq<char>, Option<Seq<char>>)>> {
    match r.format {
        Some(f) => match f.tags {
            Some(t) => Some(tag_views(t@)),
            None => None,
        },
        None => None,
    }
}

/// A tag of the report, under the given names.
pub open spec fn report_tag(r: ProbeReport, keys: Seq<Seq<char>>) -> Option<Seq<char>> {
    match report_tags(r) {
        Some(t) => tag_of(t, keys),
        None => None,
    }
}

/// The first audio stream of the report.
pub open spec fn report_audio(r: ProbeReport) -> Option<ProbeStream> {
    match r.streams {
        Some(v) => first_audio(v@),
        None => None,
    }
}

/// The metadata read from a report for the file at `path`.
pub open spec fn probe_view(r: ProbeReport, path: Seq<char>) -> MusicMetadataView {
    MusicMetadataView {
        path: path,
        title: report_tag(r, title_keys()),
        artist: report_tag(r, artist_keys()),
        album_artist: report_tag(r, album_artist_keys()),
        album: report_tag(r, album_keys()),
        track_number: report_tag(r, track_keys()),
        bits_per_sample: match report_audio(r) {
            Some(s) => bits_of(s),
            None => None,
        },
        ..MusicMetadataView::empty()
    }
}

} // verus!

verus! {

/// Whether a stream is an audio stream.
fn stream_is_audio(s: &ProbeStream) -> (r: bool)
    ensures
        r == is_audio(*s),
{
    match &s.codec_type {
        Some(t) => str_equal(t.as_str(), "audio"),
        None => false,
    }
}

/// The bit depth of a stream (see `bits_of`).
fn stream_bits(s: &ProbeStream) -> (r: Option<u32>)
    ensures
        r == bits_of(*s),
{
    match &s.bits_per_raw_sample {
        Some(t) => match parse_u32(&chars_of(t.as_str())) {
            Some(v) => if 0 < v && v <= 2147483647 {
                Some(v)
            } else {
                None
            },
            None => None,
        },
        None => match s.bits_per_sample {
            Some(b) => if b > 0 {
                Some(b as u32)
            } else {
                None
            },
            None => None,
        },
    }
}

/// The position of the first audio stream, if there is one.
fn first_audio_index(streams: &Vec<ProbeStream>) -> (r: Option<usize>)
    ensures
        match r {
            Some(i) => i < streams.len() && first_audio(streams@) == Some(streams@[i as int])
                && is_audio(streams@[i as int]),
            None => first_audio(streams@) is None && !(exists|i: int|
                0 <= i < streams@.len() && #[trigger] is_audio(streams@[i])),
        },
{
    let mut i: usize = 0;
    assert(streams@.skip(0) =~= streams@);
    while i < streams.len()
        invariant
            i <= streams.len(),
            first_audio(streams@) == first_audio(streams@.skip(i as int)),
            forall|j: int| 0 <= j < i ==> !#[trigger] is_audio(streams@[j]),
        decreases streams.len() - i,
    {
        assert(streams@.skip(i as int).drop_first() =~= streams@.skip(i + 1));
        if stream_is_audio(&streams[i]) {
            return Some(i);
        }
        i = i + 1;
    }
    None
}

/// The value of the tag stored under one of `keys`, when the report has tags.
fn report_tag_value(tags: &Option<Vec<(String, Option<String>)>>, keys: &[&str]) -> (r: Option<String>)
    ensures
        crate::metadata::opt_chars(r) == match *tags {
            Some(t) => tag_of(tag_views(t@), keys@.map_values(|k: &str| k@)),
            None => None,
        },
{
    match tags {
        Some(t) => extract_tag(t, keys),
        None => None,
    }
}

/// What reading metadata out of `report` for the file at `path` gives: an
/// error without an audio stream, else the metadata of `probe_view` with the
/// container's duration and the first audio stream's sample rate as text.
pub open spec fn metadata_outcome(report: ProbeReport, path: Seq<char>, r: Result<ProbeMetadata, String>) -> bool {
    &&& r is Err <==> !has_audio(report)
    &&& r matches Err(e) ==> e@ == "No audio stream found in file"@
    &&& r matches Ok(p) ==> {
        &&& p.metadata@ == probe_view(report, path)
        &&& crate::metadata::opt_chars(p.duration_text) == match report.format {
            Some(f) => crate::metadata::opt_chars(f.duration),
            None => None,
        }
        &&& crate::metadata::opt_chars(p.sample_rate_text) == match report_audio(report) {
            Some(s) => crate::metadata::opt_chars(s.sample_rate),
            None => None,
        }
    }
}

/// Reads a track's metadata out of an ffprobe report for the file at `path`.
///
/// A report without an audio stream is refused with
/// "No audio stream found in file". Otherwise the title, artist, album
/// artist, album and track number come from the container's tags (see
/// `tag_of` and the key lists), the bit depth from the first audio stream,
/// and the duration and sample rate are handed back as text.
pub fn parse_json_metadata(report: &ProbeReport, path: String) -> (r: Result<ProbeMetadata, String>)
    ensures
        metadata_outcome(*report, path@, r),
{
    let audio = match &report.streams {
        Some(streams) => match first_audio_index(streams) {
            Some(i) => Some(&streams[i]),
            None => None,
        },
        None => None,
    };
    let stream = match audio {
        Some(s) => s,
        None => {
            return Err(String::from_str("No audio stream found in file"));
        },
    };
    let mut metadata = MusicMetadata::default();
    metadata.path = path;
    let mut duration_text: Option<String> = None;
    match &report.format {
        Some(format) => {
            let title_keys: [&str; 3] = ["title", "TITLE", "Title"];
            let artist_keys: [&str; 3] = ["artist", "ARTIST", "Artist"];
            let album_artist_keys: [&str; 3] = ["album_artist", "ALBUM_ARTIST", "ALBUMARTIST"];
            let album_keys: [&str; 3] = ["album", "ALBUM", "Album"];
            let track_keys: [&str; 3] = ["track", "TRACK", "TRACKNUMBER"];
            assert(title_keys@.map_values(|k: &str| k@) =~= crate::probe::title_keys());
            assert(artist_keys@.map_values(|k: &str| k@) =~= crate::probe::artist_keys());
            assert(album_artist_keys@.map_values(|k: &str| k@)
                =~= crate::probe::album_artist_keys());
            assert(album_keys@.map_values(|k: &str| k@) =~= crate::probe::album_keys());
            assert(track_keys@.map_values(|k: &str| k@) =~= crate::probe::track_keys());
            metadata.title = report_tag_value(&format.tags, &title_keys);
            metadata.artist = report_tag_value(&format.tags, &artist_keys);
            metadata.album_artist = report_tag_value(&format.tags, &album_artist_keys);
            metadata.album = report_tag_value(&format.tags, &album_keys);
            metadata.track_number = report_tag_value(&format.tags, &track_keys);
            duration_text = crate::metadata::clone_opt_string(&format.duration);
        },
        None => {},
    }
    metadata.bits_per_sample = stream_bits(stream);
    let sample_rate_text = crate::metadata::clone_opt_string(&stream.sample_rate);
    Ok(ProbeMetadata { metadata, duration_text, sample_rate_text })
}

proof fn lemma_usable_trimmed(v: Option<Seq<char>>)
    ensures
        usable(v) matches Some(t) ==> t.len() > 0 && trimmed(t) == t,
{
    if let Some(s) = v {
        lemma_trimmed_idempotent(s);
    }
}

proof fn lemma_folded_trimmed(tags: Seq<(Seq<char>, Option<Seq<char>>)>, key_lc: Seq<char>)
    ensures
        folded_value(tags, key_lc) matches Some(t) ==> t.len() > 0 && trimmed(t) == t,
    decreases tags.len(),
{
    if tags.len() > 0 {
        lemma_usable_trimmed(tags[0].1);
        lemma_folded_trimmed(tags.drop_first(), key_lc);
    }
}

proof fn lemma_passes_trimmed(tags: Seq<(Seq<char>, Option<Seq<char>>)>, keys: Seq<Seq<char>>)
    ensures
        exact_pass(tags, keys) matches Some(t) ==> t.len() > 0 && trimmed(t) == t,
        folded_pass(tags, keys) matches Some(t) ==> t.len() > 0 && trimmed(t) == t,
    decreases keys.len(),
{
    if keys.len() > 0 {
        lemma_usable_trimmed(exact_value(tags, keys[0]));
        lemma_folded_trimmed(tags, lowercase_of(keys[0]));
        lemma_passes_trimmed(tags, keys.drop_first());
    }
}

/// A tag value that is read is never blank and carries no surrounding
/// white space.
pub proof fn law_tag_values_trimmed(tags: Seq<(Seq<char>, Option<Seq<char>>)>, keys: Seq<Seq<char>>)
    ensures
        tag_of(tags, keys) matches Some(t) ==> t.len() > 0 && trimmed(t) == t,
{
    lemma_passes_trimmed(tags, keys);
}

/// A stream entry read from the JSON value of one element of `streams`.
pub open spec fn stream_from(s: ProbeStream, v: JsonValue) -> bool {
    &&& crate::metadata::opt_chars(s.codec_type) == json_text(json_get(v, "codec_type"@))
    &&& crate::metadata::opt_chars(s.sample_rate) == json_text(json_get(v, "sample_rate"@))
    &&& crate::metadata::opt_chars(s.bits_per_raw_sample) == json_text(
        json_get(v, "bits_per_raw_sample"@),
    )
    &&& s.bits_per_sample == json_int(json_get(v, "bits_per_sample"@))
}

/// The `format` part read from its JSON value: the `tags` object's entries
/// in order, each value's text when it is a string, and the `duration` text.
pub open spec fn format_from(f: ProbeFormat, v: JsonValue) -> bool {
    &&& crate::metadata::opt_chars(f.duration) == json_text(json_get(v, "duration"@))
    &&& match json_get(v, "tags"@) {
        Some(JsonValue::Object(entries)) => f.tags matches Some(t) && tag_views(t@) == entries@.map_values(
            |e: (String, JsonValue)| (e.0@, json_text(Some(e.1))),
        ),
        _ => f.tags is None,
    }
}

/// A report read from an ffprobe JSON document: `streams` when it is an
/// array, `format` when it is there at all.
pub open spec fn report_from(r: ProbeReport, j: JsonValue) -> bool {
    &&& match json_get(j, "streams"@) {
        Some(JsonValue::Array(items)) => r.streams matches Some(v) && v@.len() == items@.len() && forall|i: int|
            0 <= i < v@.len() ==> stream_from(#[trigger] v@[i], items@[i]),
        _ => r.streams is None,
    }
    &&& match json_get(j, "format"@) {
        Some(f) => r.format matches Some(pf) && format_from(pf, f),
        None => r.format is None,
    }
}

/// One stream entry of an ffprobe document.
fn stream_from_json(v: &JsonValue) -> (r: ProbeStream)
    ensures
        stream_from(r, *v),
{
    ProbeStream {
        codec_type: json_string(json_field(v, "codec_type")),
        sample_rate: json_string(json_field(v, "sample_rate")),
        bits_per_raw_sample: json_string(json_field(v, "bits_per_raw_sample")),
        bits_per_sample: json_integer(json_field(v, "bits_per_sample")),
    }
}

/// The tags of an ffprobe document's `format` object.
fn tags_from_json(entries: &Vec<(String, JsonValue)>) -> (r: Vec<(String, Option<String>)>)
    ensures
        tag_views(r@) == entries@.map_values(|e: (String, JsonValue)| (e.0@, json_text(Some(e.1)))),
{
    let mut out: Vec<(String, Option<String>)> = Vec::new();
    let mut i: usize = 0;
    while i < entries.len()
        invariant
            i <= entries.len(),
            tag_views(out@) == entries@.take(i as int).map_values(
                |e: (String, JsonValue)| (e.0@, json_text(Some(e.1))),
            ),
        decreases entries.len() - i,
    {
        let value = json_string(Some(&entries[i].1));
        let name = entries[i].0.clone();
        let ghost before = out@;
        out.push((name, value));
        assert(entries@.take(i + 1) =~= entries@.take(i as int).push(entries@[i as int]));
        assert(tag_views(out@) =~= tag_views(before).push((name@, crate::metadata::opt_chars(value))));
        assert(tag_views(out@) =~= entries@.take(i + 1).map_values(
            |e: (String, JsonValue)| (e.0@, json_text(Some(e.1))),
        ));
        i = i + 1;
    }
    assert(entries@.take(i as int) =~= entries@);
    out
}

/// The parts of an ffprobe JSON document that metadata is read from.
pub fn probe_report_from_json(j: &JsonValue) -> (r: ProbeReport)
    ensures
        report_from(r, *j),
{
    let streams = match json_field(j, "streams") {
        Some(JsonValue::Array(items)) => {
            let mut v: Vec<ProbeStream> = Vec::new();
            let mut i: usize = 0;
            while i < items.len()
                invariant
                    i <= items.len(),
                    v@.len() == i,
                    forall|k: int| 0 <= k < i ==> stream_from(#[trigger] v@[k], items@[k]),
                decreases items.len() - i,
            {
                v.push(stream_from_json(&items[i]));
                i = i + 1;
            }
            Some(v)
        },
        _ => None,
    };
    let format = match json_field(j, "format") {
        Some(f) => {
            let tags = match json_field(f, "tags") {
                Some(JsonValue::Object(entries)) => Some(tags_from_json(entries)),
                _ => None,
            };
            Some(ProbeFormat { tags, duration: json_string(json_field(f, "duration")) })
        },
        None => None,
    };
    ProbeReport { streams, format }
}

/// Reads a track's metadata out of what `ffprobe -print_format json` printed
/// for the file at `path`: text that is not JSON is refused with
/// "Failed to parse JSON: " and the parser's message; otherwise the document
/// is read as `parse_json_metadata` reads its report.
pub fn metadata_from_probe_output(text: &str, path: String) -> (r: Result<ProbeMetadata, String>)
    ensures
        match json_parsed(text@) {
            Err(e) => r matches Err(m) && m@ == "Failed to parse JSON: "@ + e,
            Ok(j) => exists|rep: ProbeReport| #[trigger] report_from(rep, j) && metadata_outcome(rep, path@, r),
        },
{
    match parse_json(text) {
        Ok(j) => {
            let report = probe_report_from_json(&j);
            parse_json_metadata(&report, path)
        },
        Err(e) => {
            let mut m = String::from_str("Failed to parse JSON: ");
            m.append(e.as_str());
            Err(m)
        },
    }
}

} // verus!
