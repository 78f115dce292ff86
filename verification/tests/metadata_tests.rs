use fluyer::filename::{fill_missing_artist_title, get_artist_title_from_file_name};
use fluyer::metadata::MusicMetadata;
use fluyer::json::{parse_json, JsonValue};
use fluyer::probe::{
    extract_tag, metadata_from_probe_output, parse_json_metadata, probe_report_from_json,
    ProbeFormat, ProbeReport, ProbeStream,
};
use fluyer::tags::{
    apply_best_revision, cover_index, embedded_lyrics, no_cover_found, score_of, LyricsTag,
    StandardTag, TagRevision,
};

fn parse(name: &str) -> (Option<String>, String) {
    get_artist_title_from_file_name(name)
}

fn some(s: &str) -> Option<String> {
    Some(s.to_string())
}

#[test]
fn numbered_name_with_video_suffix() {
    assert_eq!(parse("01 - Artist - Title (Official Video).mp3"), (some("Artist"), "Title".to_string()));
}

#[test]
fn artist_dash_title() {
    assert_eq!(parse("Artist - Song.flac"), (some("Artist"), "Song".to_string()));
    assert_eq!(parse("Artist – Title.mp3"), (some("Artist"), "Title".to_string()));
}

#[test]
fn trailing_annotation_is_dropped_from_the_title() {
    assert_eq!(parse("Artist - Song (Remastered).mp3"), (some("Artist"), "Song".to_string()));
}

#[test]
fn title_by_artist_is_reversed() {
    assert_eq!(parse("Song Name by Someone.flac"), (some("Someone"), "Song Name".to_string()));
}

#[test]
fn featuring_puts_the_artist_second() {
    assert_eq!(parse("Tune feat. Guest.ogg"), (some("Guest"), "Tune".to_string()));
}

#[test]
fn underscore_and_tilde_separators() {
    assert_eq!(parse("Foo_Bar.mp3"), (some("Foo"), "Bar".to_string()));
    assert_eq!(parse("Foo ~ Bar.mp3"), (some("Foo"), "Bar".to_string()));
}

#[test]
fn plain_name_is_only_a_title() {
    assert_eq!(parse("Just A Title.mp3"), (None, "Just A Title".to_string()));
    assert_eq!(parse("03. Some Track.mp3"), (None, "Some Track".to_string()));
    assert_eq!(parse("no extension"), (None, "no extension".to_string()));
}

#[test]
fn eleven_character_run_at_the_end_is_taken_for_a_video_id() {
    assert_eq!(parse("Artist_Title.mp3"), (None, "A".to_string()));
}

#[test]
fn only_the_last_dot_starts_the_extension() {
    assert_eq!(parse("A.B - C.D.mp3"), (some("A.B"), "C.D".to_string()));
}

#[test]
fn missing_title_and_artist_come_from_the_file_name() {
    let mut m = MusicMetadata::default();
    m.path = "/music/Artist - Title.mp3".to_string();
    m.artist = some("   ");
    fill_missing_artist_title(&mut m);
    assert_eq!(m.title, some("Title"));
    assert_eq!(m.artist, some("Artist"));
}

#[test]
fn present_tags_are_kept() {
    let mut m = MusicMetadata::default();
    m.path = "/music/Just A Title.mp3".to_string();
    m.title = some("Kept");
    fill_missing_artist_title(&mut m);
    assert_eq!(m.title, some("Kept"));
    assert_eq!(m.artist, None);
    let mut n = MusicMetadata::default();
    n.path = "/music/Other - Name.mp3".to_string();
    n.title = some("T");
    n.artist = some("A");
    fill_missing_artist_title(&mut n);
    assert_eq!((n.title, n.artist), (some("T"), some("A")));
}

fn stream(kind: &str, rate: Option<&str>, raw: Option<&str>, bits: Option<i64>) -> ProbeStream {
    ProbeStream {
        codec_type: some(kind),
        sample_rate: rate.map(|s| s.to_string()),
        bits_per_raw_sample: raw.map(|s| s.to_string()),
        bits_per_sample: bits,
    }
}

fn tags(list: &[(&str, Option<&str>)]) -> Vec<(String, Option<String>)> {
    list.iter().map(|(k, v)| (k.to_string(), v.map(|s| s.to_string()))).collect()
}

#[test]
fn report_without_audio_is_refused() {
    let report = ProbeReport {
        streams: Some(vec![stream("video", None, None, None)]),
        format: None,
    };
    let err = parse_json_metadata(&report, "/a.mp4".to_string()).err().unwrap();
    assert_eq!(err, "No audio stream found in file");
    let report = ProbeReport { streams: None, format: None };
    assert!(parse_json_metadata(&report, "/a.mp4".to_string()).is_err());
}

#[test]
fn report_fields_are_read() {
    let report = ProbeReport {
        streams: Some(vec![
            stream("video", Some("1"), None, None),
            stream("audio", Some("44100"), Some("24"), Some(16)),
            stream("audio", Some("48000"), Some("16"), None),
        ]),
        format: Some(ProbeFormat {
            tags: Some(tags(&[
                ("TITLE", Some("  Hello ")),
                ("artist", Some("")),
                ("Artist", Some("Band")),
                ("aLbUm", Some("Disc")),
                ("track", Some("3/12")),
            ])),
            duration: some("215.5"),
        }),
    };
    let p = parse_json_metadata(&report, "/m/x.flac".to_string()).unwrap();
    assert_eq!(p.metadata.path, "/m/x.flac");
    assert_eq!(p.metadata.title, some("Hello"));
    assert_eq!(p.metadata.artist, some("Band"));
    assert_eq!(p.metadata.album, some("Disc"));
    assert_eq!(p.metadata.album_artist, None);
    assert_eq!(p.metadata.track_number, some("3/12"));
    assert_eq!(p.metadata.bits_per_sample, Some(24));
    assert_eq!(p.duration_text, some("215.5"));
    assert_eq!(p.sample_rate_text, some("44100"));
}

#[test]
fn bit_depth_rules() {
    let report = |s: ProbeStream| ProbeReport { streams: Some(vec![s]), format: None };
    let bits = |s: ProbeStream| parse_json_metadata(&report(s), String::new()).unwrap().metadata.bits_per_sample;
    assert_eq!(bits(stream("audio", None, None, Some(16))), Some(16));
    assert_eq!(bits(stream("audio", None, Some("0"), Some(16))), None);
    assert_eq!(bits(stream("audio", None, Some("-8"), None)), None);
    assert_eq!(bits(stream("audio", None, Some("+32"), None)), Some(32));
    assert_eq!(bits(stream("audio", None, Some("abc"), None)), None);
    assert_eq!(bits(stream("audio", None, None, Some(-1))), None);
    assert_eq!(bits(stream("audio", None, Some("2147483648"), None)), None);
}

#[test]
fn extract_tag_prefers_exact_names() {
    let t = tags(&[("title", Some("lower")), ("Title", Some("upper")), ("TiTlE", Some("mixed"))]);
    assert_eq!(extract_tag(&t, &["Title", "title"]), some("upper"));
    let t = tags(&[("TiTlE", Some(" mixed ")), ("x", None)]);
    assert_eq!(extract_tag(&t, &["title"]), some("mixed"));
    let t = tags(&[("title", Some("   ")), ("TITLE", None)]);
    assert_eq!(extract_tag(&t, &["title", "TITLE"]), None);
}

fn revision(format: &str, tags: Vec<StandardTag>) -> TagRevision {
    TagRevision { format: format.to_string(), tags: tags.into_iter().map(Some).collect() }
}

#[test]
fn format_scores() {
    assert_eq!(score_of("id3v2"), 10);
    assert_eq!(score_of("flac"), 8);
    assert_eq!(score_of("apev2"), 5);
    assert_eq!(score_of("id3v1"), 1);
    assert_eq!(score_of("riff"), 0);
}

#[test]
fn id3v2_wins_over_id3v1() {
    let mut m = MusicMetadata::default();
    m.path = "/x.mp3".to_string();
    m.title = some("stale");
    let revs = vec![
        revision("id3v1", vec![StandardTag::TrackTitle("Old".to_string())]),
        revision(
            "id3v2",
            vec![
                StandardTag::TrackTitle("New".to_string()),
                StandardTag::TrackNumber(7),
                StandardTag::ReleaseDate("2001".to_string()),
                StandardTag::RecordingDate("2000".to_string()),
                StandardTag::Other,
            ],
        ),
    ];
    apply_best_revision(&mut m, &revs);
    assert_eq!(m.title, some("New"));
    assert_eq!(m.track_number, some("7"));
    assert_eq!(m.date, some("2000"));
    assert_eq!(m.artist, None);
    assert_eq!(m.path, "/x.mp3");
}

#[test]
fn release_date_only_fills_a_missing_date() {
    let mut m = MusicMetadata::default();
    let revs = vec![revision(
        "vorbis",
        vec![
            StandardTag::RecordingDate("1999".to_string()),
            StandardTag::ReleaseDate("2005".to_string()),
            StandardTag::Artist("A".to_string()),
            StandardTag::Artist("B".to_string()),
        ],
    )];
    apply_best_revision(&mut m, &revs);
    assert_eq!(m.date, some("1999"));
    assert_eq!(m.artist, some("B"));
}

#[test]
fn first_of_equal_scores_wins_and_no_revision_clears() {
    let mut m = MusicMetadata::default();
    let revs = vec![
        revision("vorbis", vec![StandardTag::Album("First".to_string())]),
        revision("flac", vec![StandardTag::Album("Second".to_string())]),
    ];
    apply_best_revision(&mut m, &revs);
    assert_eq!(m.album, some("First"));
    apply_best_revision(&mut m, &Vec::new());
    assert_eq!(m.album, None);
}

#[test]
fn embedded_lyrics_are_found_by_tag() {
    let t = vec![
        LyricsTag { standard_lyrics: some(""), key: "LYRICS".to_string(), value: String::new() },
        LyricsTag { standard_lyrics: None, key: "TITLE".to_string(), value: "x".to_string() },
        LyricsTag { standard_lyrics: None, key: "USLT:Unsynced LYRICS".to_string(), value: "la la".to_string() },
    ];
    assert_eq!(embedded_lyrics(&t), some("la la"));
    let t = vec![LyricsTag { standard_lyrics: some("[00:01] hi"), key: "x".to_string(), value: String::new() }];
    assert_eq!(embedded_lyrics(&t), some("[00:01] hi"));
    assert_eq!(embedded_lyrics(&Vec::new()), None);
}

#[test]
fn container_formats_by_extension() {
    assert_eq!(fluyer::tags::container_format("OGG"), "vorbis");
    assert_eq!(fluyer::tags::container_format("m4a"), "mp4");
    assert_eq!(fluyer::tags::container_format("Flac"), "flac");
}

#[test]
fn numeric_track_numbers_sort_by_value() {
    let mut a = MusicMetadata::default();
    a.id = 1;
    a.album = some("X");
    apply_best_revision(&mut a, &vec![revision("id3v2", vec![StandardTag::Album("X".to_string()), StandardTag::TrackNumber(12)])]);
    let mut b = MusicMetadata::default();
    b.id = 2;
    apply_best_revision(&mut b, &vec![revision("id3v2", vec![StandardTag::Album("X".to_string()), StandardTag::TrackNumber(3)])]);
    assert_eq!(a.track_number, some("12"));
    let mut lib = fluyer::library::LibraryState::new();
    lib.rebuild(vec![a, b]);
    let order: Vec<i16> = lib.music_list.iter().map(|m| m.id).collect();
    assert_eq!(order, vec![2, 1]);
}

#[test]
fn blank_stem_gives_empty_title() {
    assert_eq!(parse("   .mp3"), (None, String::new()));
    assert_eq!(parse(".flac"), (None, String::new()));
    assert_eq!(parse(""), (None, String::new()));
    assert_eq!(parse(" \t "), (None, String::new()));
}

#[test]
fn non_blank_stem_gives_a_title() {
    let (_, title) = parse("  x  .mp3");
    assert_eq!(title, "x");
    let (_, title) = parse("[HD].mp3");
    assert!(!title.is_empty());
}

#[test]
fn cover_choice_prefers_front_cover() {
    assert_eq!(cover_index(&vec![]), None);
    assert_eq!(cover_index(&vec![false, false]), Some(0));
    assert_eq!(cover_index(&vec![false, true, true]), Some(1));
    assert_eq!(cover_index(&vec![true]), Some(0));
    assert_eq!(no_cover_found("/m/a.mp3"), "No cover art found in file: /m/a.mp3");
}

const PROBE_OUTPUT: &str = r#"{
    "streams": [
        {"codec_type": "video", "sample_rate": "1"},
        {"codec_type": "audio", "sample_rate": "44100", "bits_per_raw_sample": "24", "bits_per_sample": 16},
        {"codec_type": "audio", "sample_rate": "48000"}
    ],
    "format": {
        "duration": "215.500000",
        "tags": {"TITLE": "  Hello ", "artist": "", "Artist": "Band", "track": 3, "album": "Disc"}
    }
}"#;

#[test]
fn probe_output_is_read() {
    let p = metadata_from_probe_output(PROBE_OUTPUT, "/m/x.flac".to_string()).unwrap();
    assert_eq!(p.metadata.path, "/m/x.flac");
    assert_eq!(p.metadata.title, some("Hello"));
    assert_eq!(p.metadata.artist, some("Band"));
    assert_eq!(p.metadata.album, some("Disc"));
    assert_eq!(p.metadata.track_number, None);
    assert_eq!(p.metadata.bits_per_sample, Some(24));
    assert_eq!(p.duration_text, some("215.500000"));
    assert_eq!(p.sample_rate_text, some("44100"));
}

#[test]
fn probe_output_that_is_not_json_is_refused() {
    let err = metadata_from_probe_output("not json", "/a".to_string()).err().unwrap();
    assert!(err.starts_with("Failed to parse JSON: "));
    assert!(err.len() > "Failed to parse JSON: ".len());
    let err = metadata_from_probe_output("{}", "/a".to_string()).err().unwrap();
    assert_eq!(err, "No audio stream found in file");
    let err = metadata_from_probe_output(r#"{"streams": {"codec_type": "audio"}}"#, "/a".to_string()).err().unwrap();
    assert_eq!(err, "No audio stream found in file");
}

#[test]
fn probe_report_reads_the_json_document() {
    let j = parse_json(PROBE_OUTPUT).unwrap();
    let r = probe_report_from_json(&j);
    let streams = r.streams.unwrap();
    assert_eq!(streams.len(), 3);
    assert_eq!(streams[1].bits_per_sample, Some(16));
    assert_eq!(streams[2].bits_per_raw_sample, None);
    let format = r.format.unwrap();
    assert_eq!(format.duration, some("215.500000"));
    let tags = format.tags.unwrap();
    assert_eq!(tags.len(), 5);
    assert!(tags.contains(&("track".to_string(), None)));
    assert!(tags.contains(&("Artist".to_string(), some("Band"))));
    let r = probe_report_from_json(&parse_json(r#"{"format": 1}"#).unwrap());
    assert!(r.streams.is_none());
    assert!(r.format.unwrap().tags.is_none());
    assert!(matches!(parse_json("[1, -2, 3.5, null, true]"), Ok(JsonValue::Array(_))));
}
