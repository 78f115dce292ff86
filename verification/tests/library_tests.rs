use fluyer::collection::{
    library_album_count_get, library_album_get_by_index, library_album_get_first_by_index,
    library_folder_info_get, library_folders_filter_has_music, library_load,
    library_music_count_get, library_music_get_by_index, library_music_get_by_path,
    resolve_tracks, shuffle_tracks, CollectionContext, MusicFilter,
};
use fluyer::library::LibraryState;
use fluyer::metadata::MusicMetadata;
use std::collections::hash_map::DefaultHasher;
use std::hash::{Hash, Hasher};

fn song(
    id: i16,
    path: &str,
    title: &str,
    artist: &str,
    album: Option<&str>,
    track: Option<&str>,
) -> MusicMetadata {
    let mut m = MusicMetadata::default();
    m.id = id;
    m.path = path.to_string();
    m.filename = path.rsplit('/').next().map(|s| s.to_string());
    m.title = Some(title.to_string());
    m.artist = Some(artist.to_string());
    m.album = album.map(|s| s.to_string());
    m.track_number = track.map(|s| s.to_string());
    m.duration = Some(1000 * id as u128);
    m
}

fn sample() -> Vec<MusicMetadata> {
    vec![
        song(1, "/music/b/02.mp3", "Second", "Band", Some("Beta"), Some("2/10")),
        song(2, "/music/a/01.mp3", "Opening", "Artist", Some("Alpha"), Some("1")),
        song(3, "/music/b/01.mp3", "First", "Band", Some("Beta"), Some("1/10")),
        song(4, "/music/loose.mp3", "Loose Song", "Solo", None, None),
        song(5, "/music/a/x.mp3", "No Number", "Artist", Some("Alpha"), Some("x")),
    ]
}

fn filter(search: &str) -> MusicFilter {
    MusicFilter {
        search: search.to_string(),
        sort_asc: true,
        album_name: None,
        folder_path: None,
        playlist_paths: None,
    }
}

fn loaded() -> LibraryState {
    let mut lib = LibraryState::new();
    library_load(&mut lib, sample());
    lib
}

fn ids(v: &[MusicMetadata]) -> Vec<i16> {
    v.iter().map(|m| m.id).collect()
}

#[test]
fn load_sorts_by_album_track_and_file_name() {
    let mut lib = LibraryState::new();
    let counts = library_load(&mut lib, sample());
    assert_eq!(counts.music_count, 5);
    assert_eq!(counts.album_count, 2);
    // No album sorts first; a track number that does not parse sorts last.
    assert_eq!(ids(&lib.music_list), vec![4, 2, 5, 3, 1]);
}

#[test]
fn load_groups_albums_by_name() {
    let lib = loaded();
    assert_eq!(lib.albums.len(), 2);
    assert_eq!(ids(&lib.albums[0]), vec![2, 5]);
    assert_eq!(ids(&lib.albums[1]), vec![3, 1]);
}

#[test]
fn rebuild_is_stable_for_equal_keys() {
    let mut lib = LibraryState::new();
    let a = song(1, "/m/same.mp3", "A", "X", Some("Z"), Some("1"));
    let b = song(2, "/m/same.mp3", "B", "X", Some("Z"), Some("1"));
    lib.rebuild(vec![a.clone(), b.clone()]);
    assert_eq!(ids(&lib.music_list), vec![1, 2]);
    lib.rebuild(vec![b, a]);
    assert_eq!(ids(&lib.music_list), vec![2, 1]);
}

#[test]
fn search_is_case_insensitive() {
    let lib = loaded();
    assert_eq!(library_music_count_get(&lib, &filter("BAND")), 2);
    assert_eq!(library_music_count_get(&lib, &filter("loose")), 1);
    assert_eq!(library_music_count_get(&lib, &filter("")), 5);
    assert_eq!(library_music_count_get(&lib, &filter("nothing")), 0);
}

#[test]
fn filtered_music_keeps_library_order() {
    let lib = loaded();
    let found = lib.filtered_music("artist", None, None, None);
    let got: Vec<i16> = found.iter().map(|m| m.id).collect();
    assert_eq!(got, vec![2, 5]);
    let in_album = lib.filtered_music("", Some("Beta"), None, None);
    let got: Vec<i16> = in_album.iter().map(|m| m.id).collect();
    assert_eq!(got, vec![3, 1]);
}

#[test]
fn folder_filter_uses_the_parent_directory() {
    let lib = loaded();
    let found = lib.filtered_music("", None, Some("/music/a"), None);
    let got: Vec<i16> = found.iter().map(|m| m.id).collect();
    assert_eq!(got, vec![2, 5]);
    let found = lib.filtered_music("", None, Some("/music"), None);
    let got: Vec<i16> = found.iter().map(|m| m.id).collect();
    assert_eq!(got, vec![4]);
}

#[test]
fn playlist_filter_selects_exactly_its_paths() {
    let lib = loaded();
    let paths = vec!["/music/b/02.mp3".to_string(), "/music/loose.mp3".to_string()];
    let found = lib.filtered_music("ignored", Some("ignored"), None, Some(&paths));
    let got: Vec<i16> = found.iter().map(|m| m.id).collect();
    assert_eq!(got, vec![4, 1]);
}

#[test]
fn music_by_index_counts_from_the_end_when_descending() {
    let lib = loaded();
    let mut f = filter("");
    assert_eq!(library_music_get_by_index(&lib, 0, &f).unwrap().id, 4);
    f.sort_asc = false;
    assert_eq!(library_music_get_by_index(&lib, 0, &f).unwrap().id, 1);
    assert!(library_music_get_by_index(&lib, 5, &f).is_none());
}

#[test]
fn music_by_path() {
    let lib = loaded();
    assert_eq!(library_music_get_by_path(&lib, "/music/b/01.mp3").unwrap().id, 3);
    assert!(library_music_get_by_path(&lib, "/music/none.mp3").is_none());
}

#[test]
fn albums_search_and_order() {
    let lib = loaded();
    assert_eq!(library_album_count_get(&lib, "", true), 2);
    assert_eq!(library_album_count_get(&lib, "alp", true), 1);
    assert_eq!(library_album_count_get(&lib, "band", true), 0);
    let first = library_album_get_by_index(&lib, 0, "", true).unwrap();
    assert_eq!(ids(&first), vec![2, 5]);
    let last_first = library_album_get_by_index(&lib, 0, "", false).unwrap();
    assert_eq!(ids(&last_first), vec![3, 1]);
    assert!(library_album_get_by_index(&lib, 2, "", true).is_none());
    assert_eq!(library_album_get_first_by_index(&lib, 1, "", true).unwrap().id, 3);
    assert!(library_album_get_first_by_index(&lib, 3, "", true).is_none());
}

#[test]
fn folder_info_counts_tracks_below() {
    let lib = loaded();
    let info = library_folder_info_get(&lib, "/music/b");
    assert_eq!(info.track_count, 2);
    assert_eq!(info.durations, vec![Some(3000), Some(1000)]);
    assert_eq!(library_folder_info_get(&lib, "/music").track_count, 5);
    assert_eq!(library_folder_info_get(&lib, "/mus").track_count, 0);
}

#[test]
fn folders_with_music() {
    let lib = loaded();
    let kept = library_folders_filter_has_music(
        &lib,
        vec!["/music/a".to_string(), "/video".to_string(), "/music".to_string()],
    );
    assert_eq!(kept, vec!["/music/a".to_string(), "/music".to_string()]);
}

#[test]
fn resolve_tracks_of_each_collection() {
    let lib = loaded();
    let album = resolve_tracks(&lib, &CollectionContext::Album { name: "Beta".to_string() });
    assert_eq!(ids(&album), vec![3, 1]);
    let folder = resolve_tracks(&lib, &CollectionContext::Folder { path: "/music/a".to_string() });
    assert_eq!(ids(&folder), vec![2, 5]);
    let playlist = resolve_tracks(
        &lib,
        &CollectionContext::Playlist { paths: vec!["/music/a/x.mp3".to_string()] },
    );
    assert_eq!(ids(&playlist), vec![5]);
    let indexed = resolve_tracks(
        &lib,
        &CollectionContext::AlbumIndex { index: 0, search: String::new(), sort_asc: false },
    );
    assert_eq!(ids(&indexed), vec![3, 1]);
    let none = resolve_tracks(
        &lib,
        &CollectionContext::AlbumIndex { index: 7, search: String::new(), sort_asc: true },
    );
    assert!(none.is_empty());
}

fn reference_shuffle(mut v: Vec<i16>, seed: u32) -> Vec<i16> {
    let mut rng = seed as usize;
    for i in (1..v.len()).rev() {
        let mut h = DefaultHasher::new();
        (rng ^ i).hash(&mut h);
        rng = h.finish() as usize;
        let j = rng % (i + 1);
        v.swap(i, j);
    }
    v
}

#[test]
fn shuffle_tracks_is_the_seeded_fisher_yates_order() {
    let tracks = sample();
    let before = ids(&tracks);
    let shuffled = shuffle_tracks(tracks, 12345);
    assert_eq!(ids(&shuffled), reference_shuffle(before.clone(), 12345));
    let mut sorted = ids(&shuffled);
    sorted.sort();
    assert_eq!(sorted, vec![1, 2, 3, 4, 5]);
    let again = shuffle_tracks(sample(), 12345);
    assert_eq!(ids(&again), ids(&shuffled));
}

#[test]
fn shuffle_of_one_track_is_the_track() {
    let one = vec![song(9, "/a.mp3", "A", "B", None, None)];
    assert_eq!(ids(&shuffle_tracks(one, 7)), vec![9]);
}
