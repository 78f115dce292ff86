//! What the user interface asks of the library: counts, items by index,
//! folder summaries, and the tracks of a collection to put in the queue.
use crate::library::{
    albums_found, music_filter, opt_paths, opt_str, paths_contain, LibraryState,
};
use crate::metadata::{clone_tracks, opt_chars, views, MusicMetadata, MusicMetadataView};
use crate::paths::{path_has_prefix, path_starts_with};
use crate::text::{lowercase_of, str_equal};
use std::collections::hash_map::DefaultHasher;
use std::hash::{Hash, Hasher};
use vstd::prelude::*;

verus! {

broadcast use vstd::seq_lib::group_to_multiset_ensures;

/// How many tracks and albums the library holds.
#[derive(Clone, Copy, Debug, PartialEq, Eq, Structural)]
pub struct LibraryCounts {
    pub music_count: usize,
    pub album_count: usize,
}

/// The filters of a track listing, as the user interface sends them.
pub struct MusicFilter {
    pub search: String,
    pub sort_asc: bool,
    pub album_name: Option<String>,
    pub folder_path: Option<String>,
    pub playlist_paths: Option<Vec<String>>,
}

/// A set of tracks to play or enqueue.
pub enum CollectionContext {
    /// The tracks whose album tag is this name.
    Album { name: String },
    /// The album at `index` of an album listing.
    AlbumIndex { index: usize, search: String, sort_asc: bool },
    /// The tracks under this directory.
    Folder { path: String },
    /// The tracks with these paths, in library order.
    Playlist { paths: Vec<String> },
}

/// The tracks under a directory: how many, and the duration of each.
pub struct FolderTally {
    pub track_count: usize,
    pub durations: Vec<Option<u128>>,
}

/// The track predicate of a `MusicFilter`.
pub open spec fn filter_of(f: MusicFilter) -> spec_fn(MusicMetadata) -> bool {
    music_filter(
        lowercase_of(f.search@),
        opt_chars(f.album_name),
        opt_chars(f.folder_path),
        match f.playlist_paths {
            Some(v) => Some(v@.map_values(|x: String| x@)),
            None => None,
        },
    )
}

/// The item at `index` of `s`, counted from the end when not ascending.
pub open spec fn pick<A>(s: Seq<A>, index: int, sort_asc: bool) -> Option<A> {
    if 0 <= index < s.len() {
        Some(
            if sort_asc {
                s[index]
            } else {
                s[s.len() - 1 - index]
            },
        )
    } else {
        None
    }
}

/// The tracks that a filter shows, in library order.
fn filtered<'a>(lib: &'a LibraryState, filter: &MusicFilter) -> (r: Vec<&'a MusicMetadata>)
    ensures
        r@.len() == lib.music_list@.filter(filter_of(*filter)).len(),
        forall|i: int|
            0 <= i < r@.len() ==> *r@[i] == lib.music_list@.filter(filter_of(*filter))[i],
{
    let album = match &filter.album_name {
        Some(a) => Some(a.as_str()),
        None => None,
    };
    let folder = match &filter.folder_path {
        Some(f) => Some(f.as_str()),
        None => None,
    };
    let playlist = match &filter.playlist_paths {
        Some(v) => Some(v.as_slice()),
        None => None,
    };
    proof {
        assert(opt_str(album) == opt_chars(filter.album_name));
        assert(opt_str(folder) == opt_chars(filter.folder_path));
        assert(opt_paths(playlist) == match filter.playlist_paths {
            Some(v) => Some(v@.map_values(|x: String| x@)),
            None => None,
        });
    }
    lib.filtered_music(filter.search.as_str(), album, folder, playlist)
}

/// Replaces the library with `raw` (sorted and grouped) and counts it.
pub fn library_load(lib: &mut LibraryState, raw: Vec<MusicMetadata>) -> (r: LibraryCounts)
    ensures
        crate::library::is_stable_sort(final(lib).music_list@, raw@),
        exists|keys: Seq<Seq<char>>|
            crate::library::album_grouping(
                views(final(lib).music_list@),
                crate::library::album_views(final(lib).albums@),
                keys,
            ),
        r.music_count == final(lib).music_list@.len(),
        r.album_count == final(lib).albums@.len(),
{
    lib.rebuild(raw);
    LibraryCounts { music_count: lib.music_list.len(), album_count: lib.albums.len() }
}

/// How many tracks a filter shows.
pub fn library_music_count_get(lib: &LibraryState, filter: &MusicFilter) -> (r: usize)
    ensures
        r == lib.music_list@.filter(filter_of(*filter)).len(),
{
    filtered(lib, filter).len()
}

/// A copy of the track at `index` of a filtered listing (counted from the end
/// when the listing is descending).
pub fn library_music_get_by_index(lib: &LibraryState, index: usize, filter: &MusicFilter) -> (r:
    Option<MusicMetadata>)
    ensures
        match pick(lib.music_list@.filter(filter_of(*filter)), index as int, filter.sort_asc) {
            Some(m) => r matches Some(c) && c@ == m@,
            None => r is None,
        },
{
    let items = filtered(lib, filter);
    let n = items.len();
    if index >= n {
        return None;
    }
    let k = if filter.sort_asc {
        index
    } else {
        n - 1 - index
    };
    Some(items[k].clone())
}

/// The position of the first track whose path is `path`.
pub open spec fn first_with_path(s: Seq<MusicMetadataView>, path: Seq<char>) -> Option<int> {
    if exists|k: int| 0 <= k < s.len() && (#[trigger] s[k]).path == path {
        Some(
            choose|k: int|
                0 <= k < s.len() && (#[trigger] s[k]).path == path && forall|j: int|
                    0 <= j < k ==> (#[trigger] s[j]).path != path,
        )
    } else {
        None
    }
}

/// A copy of the first track of the library whose path is `path`.
pub fn library_music_get_by_path(lib: &LibraryState, path: &str) -> (r: Option<MusicMetadata>)
    ensures
        match first_with_path(views(lib.music_list@), path@) {
            Some(k) => r matches Some(c) && c@ == lib.music_list@[k]@,
            None => r is None,
        },
{
    let ghost v = views(lib.music_list@);
    let mut i: usize = 0;
    while i < lib.music_list.len()
        invariant
            i <= lib.music_list.len(),
            v == views(lib.music_list@),
            forall|j: int| 0 <= j < i ==> (#[trigger] v[j]).path != path@,
        decreases lib.music_list.len() - i,
    {
        if str_equal(lib.music_list[i].path.as_str(), path) {
            proof {
                assert(v[i as int].path == path@);
                let k = choose|k: int|
                    0 <= k < v.len() && (#[trigger] v[k]).path == path@ && forall|j: int|
                        0 <= j < k ==> (#[trigger] v[j]).path != path@;
                assert(0 <= i < v.len() && v[i as int].path == path@ && forall|j: int|
                    0 <= j < i ==> (#[trigger] v[j]).path != path@);
                if k < i {
                    assert(v[k].path != path@);
                }
                if k > i {
                    assert(v[i as int].path != path@);
                }
            }
            return Some(lib.music_list[i].clone());
        }
        i = i + 1;
    }
    None
}

/// How many albums a search shows.
pub fn library_album_count_get(lib: &LibraryState, search: &str, sort_asc: bool) -> (r: usize)
    ensures
        r == albums_found(lib.albums@, search@).len(),
{
    lib.filtered_albums(search).len()
}

/// A copy of the album at `index` of an album listing.
pub fn library_album_get_by_index(
    lib: &LibraryState,
    index: usize,
    search: &str,
    sort_asc: bool,
) -> (r: Option<Vec<MusicMetadata>>)
    ensures
        match pick(albums_found(lib.albums@, search@), index as int, sort_asc) {
            Some(g) => r matches Some(c) && views(c@) == views(g@),
            None => r is None,
        },
{
    let albums = lib.filtered_albums(search);
    let n = albums.len();
    if index >= n {
        return None;
    }
    let k = if sort_asc {
        index
    } else {
        n - 1 - index
    };
    Some(clone_tracks(albums[k]))
}

/// A copy of the first track of the album at `index` of an album listing.
pub fn library_album_get_first_by_index(
    lib: &LibraryState,
    index: usize,
    search: &str,
    sort_asc: bool,
) -> (r: Option<MusicMetadata>)
    ensures
        match pick(albums_found(lib.albums@, search@), index as int, sort_asc) {
            Some(g) => if g@.len() > 0 {
                r matches Some(c) && c@ == g@[0]@
            } else {
                r is None
            },
            None => r is None,
        },
{
    let albums = lib.filtered_albums(search);
    let n = albums.len();
    if index >= n {
        return None;
    }
    let k = if sort_asc {
        index
    } else {
        n - 1 - index
    };
    let tracks = albums[k];
    if tracks.len() > 0 {
        Some(tracks[0].clone())
    } else {
        None
    }
}

/// Whether a track lies under the directory `dir`.
pub open spec fn under(dir: Seq<char>) -> spec_fn(MusicMetadata) -> bool {
    |m: MusicMetadata| path_has_prefix(m.path@, dir)
}

/// The durations of the tracks under `path`, in library order.
pub fn library_folder_info_get(lib: &LibraryState, path: &str) -> (r: FolderTally)
    ensures
        r.track_count == lib.music_list@.filter(under(path@)).len(),
        r.durations@ == lib.music_list@.filter(under(path@)).map_values(
            |m: MusicMetadata| m.duration,
        ),
{
    let ghost pred = under(path@);
    let mut durations: Vec<Option<u128>> = Vec::new();
    let mut i: usize = 0;
    while i < lib.music_list.len()
        invariant
            i <= lib.music_list.len(),
            pred == under(path@),
            durations@ == lib.music_list@.take(i as int).filter(pred).map_values(
                |m: MusicMetadata| m.duration,
            ),
        decreases lib.music_list.len() - i,
    {
        let m = &lib.music_list[i];
        let keep = path_starts_with(m.path.as_str(), path);
        proof {
            let t = lib.music_list@.take(i as int);
            assert(lib.music_list@.take(i + 1) =~= t.push(lib.music_list@[i as int]));
            t.lemma_filter_push(lib.music_list@[i as int], pred);
        }
        if keep {
            durations.push(m.duration);
            proof {
                let t = lib.music_list@.take(i as int);
                assert(t.filter(pred).push(*m).map_values(|m: MusicMetadata| m.duration)
                    =~= t.filter(pred).map_values(|m: MusicMetadata| m.duration).push(m.duration));
            }
        }
        i = i + 1;
    }
    assert(lib.music_list@.take(lib.music_list@.len() as int) =~= lib.music_list@);
    FolderTally { track_count: durations.len(), durations }
}

/// Whether some track of the library lies under `dir`.
pub open spec fn has_music_under(list: Seq<MusicMetadata>, dir: Seq<char>) -> bool {
    exists|k: int| 0 <= k < list.len() && path_has_prefix((#[trigger] list[k]).path@, dir)
}

/// Whether some track of the library lies under `dir`.
fn any_under(lib: &LibraryState, dir: &str) -> (r: bool)
    ensures
        r == has_music_under(lib.music_list@, dir@),
{
    let mut i: usize = 0;
    while i < lib.music_list.len()
        invariant
            i <= lib.music_list.len(),
            forall|j: int|
                0 <= j < i ==> !path_has_prefix((#[trigger] lib.music_list@[j]).path@, dir@),
        decreases lib.music_list.len() - i,
    {
        if path_starts_with(lib.music_list[i].path.as_str(), dir) {
            return true;
        }
        i = i + 1;
    }
    false
}

/// The directories of `paths` that hold some track of the library, in order.
pub fn library_folders_filter_has_music(lib: &LibraryState, paths: Vec<String>) -> (r: Vec<
    String,
>)
    ensures
        r@ == paths@.filter(|p: String| has_music_under(lib.music_list@, p@)),
{
    let ghost pred = |p: String| has_music_under(lib.music_list@, p@);
    let ghost all = paths@;
    let mut out: Vec<String> = Vec::new();
    let mut n: usize = 0;
    let total = paths.len();
    for p in it: paths
        invariant
            it.seq() == all,
            all.len() == total,
            n == it.index(),
            pred == (|p: String| has_music_under(lib.music_list@, p@)),
            out@ == all.take(n as int).filter(pred),
    {
        let keep = any_under(lib, p.as_str());
        proof {
            let t = all.take(n as int);
            assert(all.take(n + 1) =~= t.push(p));
            t.lemma_filter_push(p, pred);
        }
        if keep {
            out.push(p);
        }
        n = n + 1;
    }
    assert(all.take(all.len() as int) =~= all);
    out
}

/// The track predicate of a collection given by album name, folder or playlist.
pub open spec fn collection_pred(c: CollectionContext) -> spec_fn(MusicMetadata) -> bool {
    |m: MusicMetadata|
        match c {
            CollectionContext::Album { name } => opt_chars(m.album) == Some(name@),
            CollectionContext::Folder { path } => path_has_prefix(m.path@, path@),
            CollectionContext::Playlist { paths } => paths@.map_values(|x: String| x@).contains(
                m.path@,
            ),
            CollectionContext::AlbumIndex { .. } => false,
        }
}

/// The tracks of a collection, in library order (for an album listing, in
/// album order).
pub open spec fn collection_tracks(lib: LibraryState, c: CollectionContext) -> Seq<
    MusicMetadataView,
> {
    match c {
        CollectionContext::AlbumIndex { index, search, sort_asc } => match pick(
            albums_found(lib.albums@, search@),
            index as int,
            sort_asc,
        ) {
            Some(g) => views(g@),
            None => Seq::empty(),
        },
        _ => views(lib.music_list@.filter(collection_pred(c))),
    }
}

/// Whether a track belongs to a collection given by album name, folder or playlist.
fn in_collection(m: &MusicMetadata, c: &CollectionContext) -> (r: bool)
    ensures
        r == collection_pred(*c)(*m),
{
    match c {
        CollectionContext::Album { name } => match &m.album {
            Some(a) => str_equal(a.as_str(), name.as_str()),
            None => false,
        },
        CollectionContext::Folder { path } => path_starts_with(m.path.as_str(), path.as_str()),
        CollectionContext::Playlist { paths } => paths_contain(paths.as_slice(), m.path.as_str()),
        CollectionContext::AlbumIndex { .. } => false,
    }
}

/// Copies of the tracks of a collection: an album by name, the album at an
/// index of an album listing, the tracks under a folder, or a playlist's tracks.
pub fn resolve_tracks(lib: &LibraryState, context: &CollectionContext) -> (r: Vec<MusicMetadata>)
    ensures
        views(r@) == collection_tracks(*lib, *context),
{
    match context {
        CollectionContext::AlbumIndex { index, search, sort_asc } => {
            let albums = lib.filtered_albums(search.as_str());
            let n = albums.len();
            if *index >= n {
                return Vec::new();
            }
            let k = if *sort_asc {
                *index
            } else {
                n - 1 - *index
            };
            return clone_tracks(albums[k]);
        },
        _ => {},
    }
    let ghost pred = collection_pred(*context);
    let mut out: Vec<MusicMetadata> = Vec::new();
    let mut i: usize = 0;
    while i < lib.music_list.len()
        invariant
            i <= lib.music_list.len(),
            pred == collection_pred(*context),
            views(out@) == views(lib.music_list@.take(i as int).filter(pred)),
        decreases lib.music_list.len() - i,
    {
        let m = &lib.music_list[i];
        let keep = in_collection(m, context);
        proof {
            let t = lib.music_list@.take(i as int);
            assert(lib.music_list@.take(i + 1) =~= t.push(lib.music_list@[i as int]));
            t.lemma_filter_push(lib.music_list@[i as int], pred);
        }
        if keep {
            let ghost before = out@;
            out.push(m.clone());
            proof {
                let t = lib.music_list@.take(i as int);
                assert(views(out@) =~= views(before).push(m@));
                assert(views(t.filter(pred).push(*m)) =~= views(t.filter(pred)).push(m@));
            }
        }
        i = i + 1;
    }
    assert(lib.music_list@.take(lib.music_list@.len() as int) =~= lib.music_list@);
    out
}

/// Name for what std's `DefaultHasher` gives for a `usize`: a fresh
/// `DefaultHasher::new()`, fed the value by `Hash`, then `finish()`.
pub uninterp spec fn default_hash_of(x: usize) -> u64;

/// Hashes `x` with a fresh std `DefaultHasher` (`new`, `Hash::hash`, `finish`).
/// Trusted: the result is `default_hash_of(x)`; a fresh `DefaultHasher::new()`
/// is documented to be the same in every instance, so the result depends on `x` alone.
#[verifier::external_body]
fn default_hash(x: usize) -> (r: u64)
    ensures
        r == default_hash_of(x),
{
    let mut h = DefaultHasher::new();
    x.hash(&mut h);
    h.finish()
}

/// `s` with the items at `i` and `j` exchanged.
pub open spec fn swapped<A>(s: Seq<A>, i: int, j: int) -> Seq<A> {
    s.update(i, s[j]).update(j, s[i])
}

/// Exchanges the items at `i` and `j`.
fn swap_items<A>(v: &mut Vec<A>, i: usize, j: usize)
    requires
        i < old(v).len(),
        j < old(v).len(),
    ensures
        final(v)@ == swapped(old(v)@, i as int, j as int),
{
    if i == j {
        assert(swapped(v@, i as int, j as int) =~= v@);
        return;
    }
    let (hi, lo) = if i > j {
        (i, j)
    } else {
        (j, i)
    };
    let ghost s = v@;
    let a = v.remove(hi);
    let b = v.remove(lo);
    v.insert(lo, a);
    v.insert(hi, b);
    assert(v@ =~= swapped(s, i as int, j as int));
}

proof fn lemma_swap_multiset<A>(s: Seq<A>, i: int, j: int)
    requires
        0 <= i < s.len(),
        0 <= j < s.len(),
    ensures
        swapped(s, i, j).to_multiset() == s.to_multiset(),
{
    broadcast use vstd::multiset::group_multiset_axioms;

    let s1 = s.update(i, s[j]);
    assert(s1.to_multiset() == s.to_multiset().remove(s[i]).insert(s[j]));
    assert(s1[j] == s[j]);
    assert(swapped(s, i, j).to_multiset() == s1.to_multiset().remove(s[j]).insert(s[i]));
    assert(s.to_multiset().count(s[i]) > 0);
    assert(swapped(s, i, j).to_multiset() =~= s.to_multiset());
}

/// The shuffle of `library_collection_shuffle_and_play`: from the last
/// position down to the second, each position swaps with one picked by a
/// chain of hashes that starts at `seed`.
pub open spec fn hash_shuffle<A>(s: Seq<A>, rng: usize, i: int) -> Seq<A>
    decreases i,
{
    if i < 1 || i >= s.len() {
        s
    } else {
        let r = default_hash_of(rng ^ (i as usize)) as usize;
        let j = (r % ((i + 1) as usize)) as int;
        hash_shuffle(swapped(s, i, j), r, i - 1)
    }
}

/// The tracks in the order of a seeded Fisher-Yates shuffle; the order is a
/// permutation of the input.
pub fn shuffle_tracks(tracks: Vec<MusicMetadata>, seed: u32) -> (r: Vec<MusicMetadata>)
    ensures
        r@.to_multiset() == tracks@.to_multiset(),
        r@ == hash_shuffle(tracks@, seed as usize, tracks@.len() - 1),
{
    let mut t = tracks;
    let n = t.len();
    if n < 2 {
        return t;
    }
    let ghost orig = t@;
    let mut rng: usize = seed as usize;
    let mut i: usize = n - 1;
    while i >= 1
        invariant
            1 <= n,
            i < n,
            t@.len() == n,
            t@.to_multiset() == orig.to_multiset(),
            hash_shuffle(t@, rng, i as int) == hash_shuffle(orig, seed as usize, n - 1),
        decreases i,
    {
        rng = default_hash(rng ^ i) as usize;
        let j = rng % (i + 1);
        let ghost before = t@;
        swap_items(&mut t, i, j);
        proof {
            lemma_swap_multiset(before, i as int, j as int);
        }
        i = i - 1;
    }
    t
}

/// A listing's count and its indices agree: every index below the count
/// (`library_music_count_get`, `library_album_count_get`) gives an item, in
/// either direction, and no other index does; the descending listing is the
/// ascending one reversed.
pub proof fn law_count_matches_indices<A>(s: Seq<A>, index: int)
    ensures
        pick(s, index, true) is Some <==> 0 <= index < s.len(),
        pick(s, index, false) is Some <==> 0 <= index < s.len(),
        pick(s, index, false) == pick(s.reverse(), index, true),
{
}

} // verus!
