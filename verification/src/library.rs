//! The music library: all tracks in a stable sort order, grouped by album,
//! and the searches and selections that the user interface runs on them.
use crate::metadata::{views, MusicMetadata, MusicMetadataView};
use crate::paths::{parent_of, path_parent, paths_equal, same_path};
use crate::text::{
    chars_contain, contains_chars, lowercase_of, str_equal, to_lowercase,
    trim_chars, trimmed,
    chars_equal, chars_less, chars_of, lemma_lex_lt_asymmetric, lemma_lex_lt_irreflexive,
    lemma_lex_lt_total, lemma_lex_lt_transitive, lex_lt, parse_u32, parse_u32_spec, string_from_chars,
    decimal_of, digits_value, is_digit, lemma_decimal_digits, unsigned_digits,
};
use vstd::prelude::*;
use vstd::string::*;

verus! {

/// The part of `t` before its first `c` (all of `t` when there is none).
pub open spec fn prefix_before(t: Seq<char>, c: char) -> Seq<char>
    decreases t.len(),
{
    if t.len() == 0 || t[0] == c {
        Seq::empty()
    } else {
        seq![t[0]] + prefix_before(t.drop_first(), c)
    }
}

proof fn lemma_prefix_before(t: Seq<char>, c: char, i: int)
    requires
        0 <= i <= t.len(),
        forall|j: int| 0 <= j < i ==> t[j] != c,
        i == t.len() || t[i] == c,
    ensures
        prefix_before(t, c) == t.take(i),
    decreases i,
{
    if i > 0 {
        lemma_prefix_before(t.drop_first(), c, i - 1);
        assert(t.take(i) =~= seq![t[0]] + t.drop_first().take(i - 1));
    } else {
        assert(t.take(0) =~= Seq::<char>::empty());
    }
}

/// The characters of `t` before its first `c`.
fn chars_before(t: &Vec<char>, c: char) -> (r: Vec<char>)
    ensures
        r@ == prefix_before(t@, c),
{
    let mut out: Vec<char> = Vec::new();
    let mut i: usize = 0;
    while i < t.len() && t[i] != c
        invariant
            i <= t.len(),
            out@ == t@.take(i as int),
            forall|j: int| 0 <= j < i ==> t@[j] != c,
        decreases t.len() - i,
    {
        out.push(t[i]);
        assert(t@.take(i + 1) =~= t@.take(i as int).push(t@[i as int]));
        i = i + 1;
    }
    proof {
        lemma_prefix_before(t@, c, i as int);
    }
    out
}

/// The track number by which a track sorts: the number before a `/` in its
/// track tag (as in "3/12"), or `u32::MAX` when there is none.
pub open spec fn track_order(t: Option<Seq<char>>) -> u32 {
    match t {
        Some(s) => match parse_u32_spec(prefix_before(s, '/')) {
            Some(n) => n,
            None => u32::MAX,
        },
        None => u32::MAX,
    }
}

/// The sort key of a track: album (empty when missing), track number, file name.
pub open spec fn key_of(m: MusicMetadataView) -> (Seq<char>, u32, Seq<char>) {
    (
        match m.album {
            Some(a) => a,
            None => Seq::empty(),
        },
        track_order(m.track_number),
        match m.filename {
            Some(f) => f,
            None => Seq::empty(),
        },
    )
}

/// The order of sort keys: the lexicographic order of the tuple.
pub open spec fn key_lt(a: (Seq<char>, u32, Seq<char>), b: (Seq<char>, u32, Seq<char>)) -> bool {
    ||| lex_lt(a.0, b.0)
    ||| a.0 == b.0 && a.1 < b.1
    ||| a.0 == b.0 && a.1 == b.1 && lex_lt(a.2, b.2)
}

proof fn lemma_key_lt_order(
    a: (Seq<char>, u32, Seq<char>),
    b: (Seq<char>, u32, Seq<char>),
    c: (Seq<char>, u32, Seq<char>),
)
    ensures
        !key_lt(a, a),
        !(key_lt(a, b) && key_lt(b, a)),
        key_lt(a, b) && key_lt(b, c) ==> key_lt(a, c),
        key_lt(a, b) || key_lt(b, a) || a == b,
{
    lemma_lex_lt_irreflexive(a.0);
    lemma_lex_lt_irreflexive(a.2);
    lemma_lex_lt_asymmetric(a.0, b.0);
    lemma_lex_lt_asymmetric(a.2, b.2);
    lemma_lex_lt_total(a.0, b.0);
    lemma_lex_lt_total(a.2, b.2);
    if lex_lt(a.0, b.0) && lex_lt(b.0, c.0) {
        lemma_lex_lt_transitive(a.0, b.0, c.0);
    }
    if lex_lt(a.2, b.2) && lex_lt(b.2, c.2) {
        lemma_lex_lt_transitive(a.2, b.2, c.2);
    }
}

/// `out` is `inp` sorted by `key_of`, with tracks of equal key in their input
/// order: `perm` says where each output track came from.
pub open spec fn stable_sort_witness(
    out: Seq<MusicMetadata>,
    inp: Seq<MusicMetadata>,
    perm: Seq<int>,
) -> bool {
    &&& out.len() == inp.len()
    &&& perm.len() == inp.len()
    &&& forall|k: int| 0 <= k < perm.len() ==> 0 <= #[trigger] perm[k] < inp.len()
    &&& forall|j: int, k: int| 0 <= j < k < perm.len() ==> #[trigger] perm[j] != #[trigger] perm[k]
    &&& forall|k: int| 0 <= k < out.len() ==> #[trigger] out[k] == inp[perm[k]]
    &&& forall|j: int, k: int|
        0 <= j < k < out.len() ==> !key_lt(key_of((#[trigger] out[k])@), key_of((#[trigger] out[j])@))
    &&& forall|j: int, k: int|
        0 <= j < k < out.len() && key_of((#[trigger] out[j])@) == key_of((#[trigger] out[k])@)
            ==> perm[j] < perm[k]
}

/// `out` is the stable sort of `inp` by `key_of`.
pub open spec fn is_stable_sort(out: Seq<MusicMetadata>, inp: Seq<MusicMetadata>) -> bool {
    exists|perm: Seq<int>| stable_sort_witness(out, inp, perm)
}

proof fn lemma_insert_keeps_stable_sort(
    out: Seq<MusicMetadata>,
    inp: Seq<MusicMetadata>,
    perm: Seq<int>,
    n: int,
    p: int,
    m: MusicMetadata,
)
    requires
        0 <= n < inp.len(),
        m == inp[n],
        stable_sort_witness(out, inp.take(n), perm),
        0 <= p <= out.len(),
        forall|q: int| 0 <= q < p ==> !key_lt(key_of(m@), key_of(#[trigger] out[q]@)),
        p < out.len() ==> key_lt(key_of(m@), key_of(out[p]@)),
    ensures
        stable_sort_witness(out.insert(p, m), inp.take(n + 1), perm.insert(p, n)),
{
    let o2 = out.insert(p, m);
    let p2 = perm.insert(p, n);
    let i2 = inp.take(n + 1);
    let x = key_of(m@);
    assert forall|k: int| 0 <= k < p2.len() implies 0 <= #[trigger] p2[k] < i2.len() by {
        if k < p {
        } else if k == p {
        } else {
            assert(p2[k] == perm[k - 1]);
        }
    }
    assert forall|j: int, k: int| 0 <= j < k < p2.len() implies #[trigger] p2[j] != #[trigger] p2[k] by {
        let pj = if j < p { j } else if j == p { -1 } else { j - 1 };
        let pk = if k < p { k } else if k == p { -1 } else { k - 1 };
        if j != p && k != p {
            assert(perm[pj] != perm[pk]);
        } else if j == p {
            assert(0 <= perm[pk] < n);
        } else {
            assert(0 <= perm[pj] < n);
        }
    }
    assert forall|k: int| 0 <= k < o2.len() implies #[trigger] o2[k] == i2[p2[k]] by {
        if k < p {
            assert(out[k] == inp.take(n)[perm[k]]);
        } else if k == p {
        } else {
            assert(out[k - 1] == inp.take(n)[perm[k - 1]]);
        }
    }
    assert forall|j: int, k: int| 0 <= j < k < o2.len() implies !key_lt(
        key_of((#[trigger] o2[k])@),
        key_of((#[trigger] o2[j])@),
    ) by {
        let oj = if j < p { j } else { j - 1 };
        let ok = if k <= p { k } else { k - 1 };
        if j != p && k != p {
            assert(!key_lt(key_of(out[ok]@), key_of(out[oj]@)));
        } else if k == p {
            assert(!key_lt(x, key_of(out[j]@)));
        } else {
            // j == p < k: the element after the insertion point is not smaller than m
            let y = key_of(out[k - 1]@);
            let z = key_of(out[p]@);
            lemma_key_lt_order(y, x, z);
            if k - 1 > p {
                assert(!key_lt(y, z));
            }
        }
    }
    assert forall|j: int, k: int|
        0 <= j < k < o2.len() && key_of((#[trigger] o2[j])@) == key_of((#[trigger] o2[k])@)
            implies p2[j] < p2[k] by {
        let oj = if j < p { j } else { j - 1 };
        let ok = if k <= p { k } else { k - 1 };
        if j != p && k != p {
            assert(perm[oj] < perm[ok]);
        } else if k == p {
            assert(0 <= perm[j] < n);
        } else {
            let y = key_of(out[k - 1]@);
            let z = key_of(out[p]@);
            lemma_key_lt_order(x, z, y);
            if k - 1 > p {
                assert(!key_lt(y, z));
            }
        }
    }
}

/// The album a track is grouped under: its album tag without surrounding
/// white space, unless that is empty.
pub open spec fn album_key(m: MusicMetadataView) -> Option<Seq<char>> {
    match m.album {
        Some(a) => if trimmed(a).len() > 0 {
            Some(trimmed(a))
        } else {
            None
        },
        None => None,
    }
}

/// Whether a track belongs to the album named `k`.
pub open spec fn in_album(k: Seq<char>) -> spec_fn(MusicMetadataView) -> bool {
    |m: MusicMetadataView| album_key(m) == Some(k)
}

/// The views of a sequence of albums.
pub open spec fn album_views(albums: Seq<Vec<MusicMetadata>>) -> Seq<Seq<MusicMetadataView>> {
    albums.map_values(|g: Vec<MusicMetadata>| views(g@))
}

/// `albums` holds one group per album name of `list`, in increasing order of
/// the names `keys`; each group holds that album's tracks in list order.
pub open spec fn album_grouping(
    list: Seq<MusicMetadataView>,
    albums: Seq<Seq<MusicMetadataView>>,
    keys: Seq<Seq<char>>,
) -> bool {
    &&& keys.len() == albums.len()
    &&& forall|i: int, j: int|
        0 <= i < j < keys.len() ==> lex_lt(#[trigger] keys[i], #[trigger] keys[j])
    &&& forall|g: int|
        0 <= g < keys.len() ==> #[trigger] albums[g] == list.filter(in_album(keys[g]))
            && albums[g].len() > 0
    &&& forall|k: int|
        0 <= k < list.len() && (#[trigger] album_key(list[k])) is Some ==> keys.contains(
            album_key(list[k])->0,
        )
}

/// The characters of each name.
pub open spec fn key_views(keys: Seq<Vec<char>>) -> Seq<Seq<char>> {
    keys.map_values(|k: Vec<char>| k@)
}

proof fn lemma_grouping_skip(
    list: Seq<MusicMetadataView>,
    m: MusicMetadataView,
    albums: Seq<Seq<MusicMetadataView>>,
    keys: Seq<Seq<char>>,
)
    requires
        album_grouping(list, albums, keys),
        album_key(m) is None,
    ensures
        album_grouping(list.push(m), albums, keys),
{
    broadcast use vstd::seq::Seq::lemma_filter_push;

    let l2 = list.push(m);
    assert forall|g: int| 0 <= g < keys.len() implies #[trigger] albums[g] == l2.filter(
        in_album(keys[g]),
    ) && albums[g].len() > 0 by {
        assert(l2.filter(in_album(keys[g])) == list.filter(in_album(keys[g])));
    }
    assert forall|k: int|
        0 <= k < l2.len() && (#[trigger] album_key(l2[k])) is Some implies keys.contains(
        album_key(l2[k])->0,
    ) by {
        assert(k < list.len());
        assert(l2[k] == list[k]);
    }
}

proof fn lemma_grouping_join(
    list: Seq<MusicMetadataView>,
    m: MusicMetadataView,
    albums: Seq<Seq<MusicMetadataView>>,
    keys: Seq<Seq<char>>,
    p: int,
)
    requires
        album_grouping(list, albums, keys),
        0 <= p < keys.len(),
        album_key(m) == Some(keys[p]),
    ensures
        album_grouping(list.push(m), albums.update(p, albums[p].push(m)), keys),
{
    broadcast use vstd::seq::Seq::lemma_filter_push;

    let l2 = list.push(m);
    let a2 = albums.update(p, albums[p].push(m));
    assert forall|g: int| 0 <= g < keys.len() implies #[trigger] a2[g] == l2.filter(
        in_album(keys[g]),
    ) && a2[g].len() > 0 by {
        assert(l2.filter(in_album(keys[g])) == if in_album(keys[g])(m) {
            list.filter(in_album(keys[g])).push(m)
        } else {
            list.filter(in_album(keys[g]))
        });
        if g != p {
            if in_album(keys[g])(m) {
                assert(keys[g] == keys[p]);
                if g < p {
                    assert(lex_lt(keys[g], keys[p]));
                } else {
                    assert(lex_lt(keys[p], keys[g]));
                }
                lemma_lex_lt_irreflexive(keys[g]);
            }
        }
    }
    assert forall|k: int|
        0 <= k < l2.len() && (#[trigger] album_key(l2[k])) is Some implies keys.contains(
        album_key(l2[k])->0,
    ) by {
        if k < list.len() {
            assert(l2[k] == list[k]);
        } else {
            assert(keys[p] == album_key(m)->0);
        }
    }
}

proof fn lemma_new_key_absent(
    list: Seq<MusicMetadataView>,
    albums: Seq<Seq<MusicMetadataView>>,
    keys: Seq<Seq<char>>,
    p: int,
    k: Seq<char>,
)
    requires
        album_grouping(list, albums, keys),
        0 <= p <= keys.len(),
        forall|q: int| 0 <= q < p ==> lex_lt(#[trigger] keys[q], k),
        p < keys.len() ==> lex_lt(k, keys[p]),
    ensures
        forall|g: int| 0 <= g < keys.len() ==> keys[g] != k,
        list.filter(in_album(k)) == Seq::<MusicMetadataView>::empty(),
{
    assert forall|g: int| 0 <= g < keys.len() implies keys[g] != k by {
        if keys[g] == k {
            if g < p {
                assert(lex_lt(keys[g], k));
            } else if g > p {
                assert(lex_lt(keys[p], keys[g]));
                lemma_lex_lt_transitive(k, keys[p], keys[g]);
            }
            lemma_lex_lt_irreflexive(k);
        }
    }
    assert forall|q: int| 0 <= q < list.len() implies !in_album(k)(#[trigger] list[q]) by {
        if album_key(list[q]) == Some(k) {
            assert(keys.contains(k));
        }
    }
    lemma_filter_none(list, in_album(k));
}

proof fn lemma_sorted_insert(keys: Seq<Seq<char>>, p: int, k: Seq<char>)
    requires
        forall|i: int, j: int| 0 <= i < j < keys.len() ==> lex_lt(#[trigger] keys[i], #[trigger] keys[j]),
        0 <= p <= keys.len(),
        forall|q: int| 0 <= q < p ==> lex_lt(#[trigger] keys[q], k),
        p < keys.len() ==> lex_lt(k, keys[p]),
    ensures
        forall|i: int, j: int|
            0 <= i < j < keys.len() + 1 ==> lex_lt(
                #[trigger] keys.insert(p, k)[i],
                #[trigger] keys.insert(p, k)[j],
            ),
{
    let k2 = keys.insert(p, k);
    assert forall|i: int, j: int| 0 <= i < j < k2.len() implies lex_lt(
        #[trigger] k2[i],
        #[trigger] k2[j],
    ) by {
        if j < p {
        } else if j == p {
        } else if i < p {
            if j - 1 > p {
                lemma_lex_lt_transitive(k, keys[p], keys[j - 1]);
            }
            lemma_lex_lt_transitive(keys[i], k, keys[j - 1]);
        } else if i == p {
            if j - 1 > p {
                lemma_lex_lt_transitive(k, keys[p], keys[j - 1]);
            }
        } else {
            assert(lex_lt(keys[i - 1], keys[j - 1]));
        }
    }
}

proof fn lemma_groups_after_new(
    list: Seq<MusicMetadataView>,
    m: MusicMetadataView,
    albums: Seq<Seq<MusicMetadataView>>,
    keys: Seq<Seq<char>>,
    p: int,
    k: Seq<char>,
)
    requires
        keys.len() == albums.len(),
        forall|g: int|
            0 <= g < keys.len() ==> #[trigger] albums[g] == list.filter(in_album(keys[g]))
                && albums[g].len() > 0,
        0 <= p <= keys.len(),
        album_key(m) == Some(k),
        forall|g: int| 0 <= g < keys.len() ==> keys[g] != k,
        list.filter(in_album(k)) == Seq::<MusicMetadataView>::empty(),
    ensures
        forall|g: int|
            0 <= g < keys.len() + 1 ==> #[trigger] albums.insert(p, seq![m])[g] == list.push(
                m,
            ).filter(in_album(keys.insert(p, k)[g])) && albums.insert(p, seq![m])[g].len() > 0,
{
    let l2 = list.push(m);
    let a2 = albums.insert(p, seq![m]);
    let k2 = keys.insert(p, k);
    assert forall|g: int| 0 <= g < k2.len() implies #[trigger] a2[g] == l2.filter(in_album(k2[g]))
        && a2[g].len() > 0 by {
        list.lemma_filter_push(m, in_album(k2[g]));
        if g == p {
            assert(seq![m] =~= Seq::<MusicMetadataView>::empty().push(m));
        } else {
            let og = if g < p { g } else { g - 1 };
            assert(k2[g] == keys[og]);
            assert(a2[g] == albums[og]);
        }
    }
}

proof fn lemma_grouping_new(
    list: Seq<MusicMetadataView>,
    m: MusicMetadataView,
    albums: Seq<Seq<MusicMetadataView>>,
    keys: Seq<Seq<char>>,
    p: int,
    k: Seq<char>,
)
    requires
        album_grouping(list, albums, keys),
        0 <= p <= keys.len(),
        album_key(m) == Some(k),
        forall|q: int| 0 <= q < p ==> lex_lt(#[trigger] keys[q], k),
        p < keys.len() ==> lex_lt(k, keys[p]),
    ensures
        album_grouping(list.push(m), albums.insert(p, seq![m]), keys.insert(p, k)),
{
    let l2 = list.push(m);
    let k2 = keys.insert(p, k);
    lemma_new_key_absent(list, albums, keys, p, k);
    lemma_sorted_insert(keys, p, k);
    lemma_groups_after_new(list, m, albums, keys, p, k);
    assert forall|q: int|
        0 <= q < l2.len() && (#[trigger] album_key(l2[q])) is Some implies k2.contains(
        album_key(l2[q])->0,
    ) by {
        if q < list.len() {
            assert(l2[q] == list[q]);
            let x = album_key(list[q])->0;
            assert(keys.contains(x));
            let g = choose|g: int| 0 <= g < keys.len() && keys[g] == x;
            if g < p {
                assert(k2[g] == x);
            } else {
                assert(k2[g + 1] == x);
            }
        } else {
            assert(k2[p] == k);
        }
    }
}

proof fn lemma_filter_none<A>(s: Seq<A>, pred: spec_fn(A) -> bool)
    requires
        forall|k: int| 0 <= k < s.len() ==> !pred(#[trigger] s[k]),
    ensures
        s.filter(pred) == Seq::<A>::empty(),
{
    broadcast use vstd::seq_lib::group_filter_ensures;

    if s.filter(pred).len() > 0 {
        let x = s.filter(pred)[0];
        assert(pred(x));
        assert(s.filter(pred).contains(x));
        assert(s.contains(x)) by {
            s.lemma_filter_contains_rev(pred, x);
        }
    }
    assert(s.filter(pred) =~= Seq::<A>::empty());
}

/// The characters of an optional string slice.
pub open spec fn opt_str(s: Option<&str>) -> Option<Seq<char>> {
    match s {
        Some(v) => Some(v@),
        None => None,
    }
}

/// The characters of each path of an optional playlist.
pub open spec fn opt_paths(p: Option<&[String]>) -> Option<Seq<Seq<char>>> {
    match p {
        Some(v) => Some(v@.map_values(|x: String| x@)),
        None => None,
    }
}

/// An optional tag whose lower-cased text contains `needle`.
pub open spec fn field_has(f: Option<Seq<char>>, needle: Seq<char>) -> bool {
    match f {
        Some(v) => contains_chars(lowercase_of(v), needle),
        None => false,
    }
}

/// Whether a track passes the filters of `filtered_music`, with the search
/// already lower-cased.
pub open spec fn music_passes(
    m: MusicMetadataView,
    search_lc: Seq<char>,
    album_name: Option<Seq<char>>,
    folder_path: Option<Seq<char>>,
    playlist: Option<Seq<Seq<char>>>,
) -> bool {
    match playlist {
        Some(paths) => paths.contains(m.path),
        None => {
            &&& (folder_path matches Some(f) ==> (parent_of(m.path) matches Some(p) && same_path(p, f)))
            &&& (album_name matches Some(a) ==> m.album == Some(a))
            &&& (search_lc.len() > 0 ==> {
                ||| field_has(m.title, search_lc)
                ||| field_has(m.artist, search_lc)
                ||| field_has(m.album, search_lc)
                ||| field_has(m.album_artist, search_lc)
            })
        },
    }
}

/// `music_passes` as a predicate on tracks.
pub open spec fn music_filter(
    search_lc: Seq<char>,
    album_name: Option<Seq<char>>,
    folder_path: Option<Seq<char>>,
    playlist: Option<Seq<Seq<char>>>,
) -> spec_fn(MusicMetadata) -> bool {
    |m: MusicMetadata| music_passes(m@, search_lc, album_name, folder_path, playlist)
}

/// Whether an album passes a non-empty, lower-cased search.
pub open spec fn album_filter(search_lc: Seq<char>) -> spec_fn(Vec<MusicMetadata>) -> bool {
    |g: Vec<MusicMetadata>|
        g@.len() > 0 && (field_has(g@[0]@.album, search_lc) || field_has(
            g@[0]@.album_artist,
            search_lc,
        ))
}

/// The albums that `filtered_albums` returns for `search`.
pub open spec fn albums_found(albums: Seq<Vec<MusicMetadata>>, search: Seq<char>) -> Seq<
    Vec<MusicMetadata>,
> {
    if search.len() == 0 {
        albums
    } else {
        albums.filter(album_filter(lowercase_of(search)))
    }
}

/// Whether an optional tag, lower-cased, contains `needle`.
fn field_contains(f: &Option<String>, needle: &Vec<char>) -> (r: bool)
    ensures
        r == field_has(crate::metadata::opt_chars(*f), needle@),
{
    match f {
        Some(v) => {
            let lc = chars_of(to_lowercase(v.as_str()).as_str());
            chars_contain(&lc, needle)
        },
        None => false,
    }
}

/// Whether one of `paths` is `p`.
pub(crate) fn paths_contain(paths: &[String], p: &str) -> (r: bool)
    ensures
        r == paths@.map_values(|x: String| x@).contains(p@),
{
    let ghost ps = paths@.map_values(|x: String| x@);
    let mut i: usize = 0;
    while i < paths.len()
        invariant
            i <= paths.len(),
            ps == paths@.map_values(|x: String| x@),
            forall|j: int| 0 <= j < i ==> ps[j] != p@,
        decreases paths.len() - i,
    {
        if str_equal(paths[i].as_str(), p) {
            assert(ps[i as int] == p@);
            return true;
        }
        i = i + 1;
    }
    false
}

/// Whether a track passes the filters of `filtered_music`.
fn music_matches(
    m: &MusicMetadata,
    search_lc: &Vec<char>,
    album_name: Option<&str>,
    folder_path: Option<&str>,
    playlist_paths: Option<&[String]>,
) -> (r: bool)
    ensures
        r == music_passes(m@, search_lc@, opt_str(album_name), opt_str(folder_path), opt_paths(playlist_paths)),
{
    match playlist_paths {
        Some(paths) => {
            return paths_contain(paths, m.path.as_str());
        },
        None => {},
    }
    match folder_path {
        Some(fp) => {
            match path_parent(m.path.as_str()) {
                Some(parent) => {
                    if !paths_equal(parent.as_str(), fp) {
                        return false;
                    }
                },
                None => {
                    return false;
                },
            }
        },
        None => {},
    }
    match album_name {
        Some(name) => {
            match &m.album {
                Some(a) => {
                    if !str_equal(a.as_str(), name) {
                        return false;
                    }
                },
                None => {
                    return false;
                },
            }
        },
        None => {},
    }
    if search_lc.len() > 0 {
        return field_contains(&m.title, search_lc) || field_contains(&m.artist, search_lc)
            || field_contains(&m.album, search_lc) || field_contains(&m.album_artist, search_lc);
    }
    true
}

/// A sort key held as characters, ready for comparison.
struct KeyChars {
    album: Vec<char>,
    track: u32,
    filename: Vec<char>,
}

impl KeyChars {
    spec fn key(&self) -> (Seq<char>, u32, Seq<char>) {
        (self.album@, self.track, self.filename@)
    }

    fn less(&self, other: &KeyChars) -> (r: bool)
        ensures
            r == key_lt(self.key(), other.key()),
    {
        if chars_less(&self.album, &other.album) {
            true
        } else if !chars_equal(&self.album, &other.album) {
            false
        } else if self.track != other.track {
            self.track < other.track
        } else {
            chars_less(&self.filename, &other.filename)
        }
    }
}

/// The characters of an optional string, empty when missing.
fn chars_or_empty(s: &Option<String>) -> (r: Vec<char>)
    ensures
        r@ == match crate::metadata::opt_chars(*s) {
            Some(v) => v,
            None => Seq::<char>::empty(),
        },
{
    match s {
        Some(v) => chars_of(v.as_str()),
        None => Vec::new(),
    }
}

/// All tracks of the library and the same tracks grouped by album.
pub struct LibraryState {
    pub music_list: Vec<MusicMetadata>,
    pub albums: Vec<Vec<MusicMetadata>>,
}

impl LibraryState {
    /// An empty library.
    pub fn new() -> (r: LibraryState)
        ensures
            r.music_list@.len() == 0,
            r.albums@.len() == 0,
    {
        LibraryState { music_list: Vec::new(), albums: Vec::new() }
    }

    /// The sort key of a track: album (empty when missing), the number before
    /// a `/` in the track tag (`u32::MAX` when there is none), file name.
    fn sort_key(m: &MusicMetadata) -> (r: (String, u32, String))
        ensures
            (r.0@, r.1, r.2@) == key_of(m@),
    {
        let album = chars_or_empty(&m.album);
        let track: u32 = match &m.track_number {
            Some(t) => {
                let digits = chars_before(&chars_of(t.as_str()), '/');
                match parse_u32(&digits) {
                    Some(n) => n,
                    None => u32::MAX,
                }
            },
            None => u32::MAX,
        };
        let filename = chars_or_empty(&m.filename);
        (string_from_chars(&album), track, string_from_chars(&filename))
    }

    fn key_chars(m: &MusicMetadata) -> (r: KeyChars)
        ensures
            r.key() == key_of(m@),
    {
        let (album, track, filename) = Self::sort_key(m);
        KeyChars { album: chars_of(album.as_str()), track, filename: chars_of(filename.as_str()) }
    }

    /// The album name of a track for grouping, if it has one.
    fn album_key_of(m: &MusicMetadata) -> (r: Option<Vec<char>>)
        ensures
            match r {
                Some(k) => album_key(m@) == Some(k@),
                None => album_key(m@) is None,
            },
    {
        match &m.album {
            Some(a) => {
                let t = trim_chars(&chars_of(a.as_str()));
                if t.len() > 0 {
                    Some(t)
                } else {
                    None
                }
            },
            None => None,
        }
    }

    /// Adds track `m` to the album groups of the tracks `before`.
    fn add_to_groups(
        keys: &mut Vec<Vec<char>>,
        albums: &mut Vec<Vec<MusicMetadata>>,
        m: &MusicMetadata,
        Ghost(before): Ghost<Seq<MusicMetadataView>>,
    )
        requires
            album_grouping(before, album_views(old(albums)@), key_views(old(keys)@)),
        ensures
            album_grouping(before.push(m@), album_views(final(albums)@), key_views(final(keys)@)),
    {
        match Self::album_key_of(m) {
            None => {
                proof {
                    lemma_grouping_skip(before, m@, album_views(albums@), key_views(keys@));
                }
            },
            Some(k) => {
                let mut p: usize = 0;
                while p < keys.len() && chars_less(&keys[p], &k)
                    invariant
                        p <= keys.len(),
                        forall|q: int| 0 <= q < p ==> lex_lt(#[trigger] keys@[q]@, k@),
                    decreases keys.len() - p,
                {
                    p = p + 1;
                }
                if p < keys.len() && chars_equal(&keys[p], &k) {
                    let ghost old_albums = albums@;
                    let mut g = albums.remove(p);
                    let ghost g_old = g@;
                    g.push(m.clone());
                    albums.insert(p, g);
                    proof {
                        assert(views(g@) =~= views(g_old).push(m@));
                        lemma_grouping_join(
                            before,
                            m@,
                            album_views(old_albums),
                            key_views(keys@),
                            p as int,
                        );
                        assert(album_views(albums@) =~= album_views(old_albums).update(
                            p as int,
                            views(g_old).push(m@),
                        ));
                    }
                } else {
                    let ghost old_albums = albums@;
                    let ghost old_keys = keys@;
                    let mut g: Vec<MusicMetadata> = Vec::new();
                    g.push(m.clone());
                    proof {
                        assert(views(g@) =~= seq![m@]);
                        if p < keys.len() {
                            lemma_lex_lt_total(keys@[p as int]@, k@);
                        }
                        lemma_grouping_new(
                            before,
                            m@,
                            album_views(old_albums),
                            key_views(old_keys),
                            p as int,
                            k@,
                        );
                    }
                    albums.insert(p, g);
                    keys.insert(p, k);
                    proof {
                        assert(album_views(albums@) =~= album_views(old_albums).insert(
                            p as int,
                            seq![m@],
                        ));
                        assert(key_views(keys@) =~= key_views(old_keys).insert(p as int, k@));
                    }
                }
            },
        }
    }

    /// Groups the tracks of `list` by album name, in increasing name order.
    fn group_albums(list: &Vec<MusicMetadata>) -> (albums: Vec<Vec<MusicMetadata>>)
        ensures
            exists|keys: Seq<Seq<char>>|
                album_grouping(views(list@), album_views(albums@), keys),
    {
        let ghost l = views(list@);
        let mut keys: Vec<Vec<char>> = Vec::new();
        let mut albums: Vec<Vec<MusicMetadata>> = Vec::new();
        let mut i: usize = 0;
        while i < list.len()
            invariant
                i <= list.len(),
                l == views(list@),
                album_grouping(l.take(i as int), album_views(albums@), key_views(keys@)),
            decreases list.len() - i,
        {
            let ghost before = l.take(i as int);
            assert(l.take(i + 1) =~= before.push(l[i as int]));
            Self::add_to_groups(&mut keys, &mut albums, &list[i], Ghost(before));
            i = i + 1;
        }
        assert(l.take(list.len() as int) =~= l);
        albums
    }

    /// Sorts tracks stably by album, track number and file name.
    fn sort_tracks(raw: Vec<MusicMetadata>) -> (out: Vec<MusicMetadata>)
        ensures
            is_stable_sort(out@, raw@),
    {
        let ghost inp = raw@;
        let mut out: Vec<MusicMetadata> = Vec::new();
        let mut keys: Vec<KeyChars> = Vec::new();
        let ghost mut perm: Seq<int> = Seq::empty();
        let mut n: usize = 0;
        let raw_len = raw.len();
        for m in it: raw
            invariant
                it.seq() == inp,
                inp.len() == raw_len,
                n == it.index(),
                n <= inp.len(),
                out.len() == n,
                keys.len() == n,
                forall|k: int| 0 <= k < n ==> #[trigger] keys@[k].key() == key_of(out@[k]@),
                stable_sort_witness(out@, inp.take(n as int), perm),
        {
            let k = Self::key_chars(&m);
            let mut p: usize = 0;
            while p < keys.len() && !k.less(&keys[p])
                invariant
                    p <= keys.len(),
                    keys.len() == out.len(),
                    forall|q: int| 0 <= q < p ==> !key_lt(k.key(), #[trigger] keys@[q].key()),
                decreases keys.len() - p,
            {
                p = p + 1;
            }
            let ghost old_keys = keys@;
            let ghost old_out = out@;
            proof {
                assert forall|q: int| 0 <= q < p implies !key_lt(
                    key_of(m@),
                    key_of(#[trigger] old_out[q]@),
                ) by {
                    assert(keys@[q].key() == key_of(out@[q]@));
                }
                if p < n {
                    assert(keys@[p as int].key() == key_of(out@[p as int]@));
                }
                lemma_insert_keeps_stable_sort(out@, inp, perm, n as int, p as int, m);
            }
            out.insert(p, m);
            keys.insert(p, k);
            proof {
                perm = perm.insert(p as int, n as int);
                assert forall|q: int| 0 <= q < n + 1 implies #[trigger] keys@[q].key() == key_of(
                    out@[q]@,
                ) by {
                    if q < p {
                        assert(old_keys[q].key() == key_of(old_out[q]@));
                    } else if q == p {
                    } else {
                        assert(old_keys[q - 1].key() == key_of(old_out[q - 1]@));
                    }
                }
            }
            n = n + 1;
        }
        proof {
            assert(inp.take(inp.len() as int) =~= inp);
            assert(stable_sort_witness(out@, inp, perm));
        }
        out
    }

    /// Replaces the library with `raw`: the tracks sorted stably by album,
    /// track number and file name, and grouped by album name.
    pub fn rebuild(&mut self, raw: Vec<MusicMetadata>)
        ensures
            is_stable_sort(final(self).music_list@, raw@),
            exists|keys: Seq<Seq<char>>|
                album_grouping(
                    views(final(self).music_list@),
                    album_views(final(self).albums@),
                    keys,
                ),
    {
        let sorted = Self::sort_tracks(raw);
        let albums = Self::group_albums(&sorted);
        let ghost list = views(sorted@);
        let ghost groups = album_views(albums@);
        self.albums = albums;
        self.music_list = sorted;
        proof {
            let k = choose|k: Seq<Seq<char>>| album_grouping(list, groups, k);
            assert(views(self.music_list@) == list);
            assert(album_views(self.albums@) == groups);
            assert(album_grouping(views(self.music_list@), album_views(self.albums@), k));
        }
    }

    /// The tracks that a search shows, in library order. A playlist selects
    /// exactly its paths; otherwise folder (the track's parent directory),
    /// album name and a case-insensitive search in title, artist, album and
    /// album artist narrow the list.
    pub fn filtered_music<'a>(
        &'a self,
        search: &str,
        album_name: Option<&str>,
        folder_path: Option<&str>,
        playlist_paths: Option<&[String]>,
    ) -> (r: Vec<&'a MusicMetadata>)
        ensures
            r@.len() == self.music_list@.filter(
                music_filter(lowercase_of(search@), opt_str(album_name), opt_str(folder_path), opt_paths(playlist_paths)),
            ).len(),
            forall|i: int|
                0 <= i < r@.len() ==> *r@[i] == self.music_list@.filter(
                    music_filter(lowercase_of(search@), opt_str(album_name), opt_str(folder_path), opt_paths(playlist_paths)),
                )[i],
    {
        let ghost pred = music_filter(
            lowercase_of(search@),
            opt_str(album_name),
            opt_str(folder_path),
            opt_paths(playlist_paths),
        );
        let search_lc = chars_of(to_lowercase(search).as_str());
        let mut out: Vec<&'a MusicMetadata> = Vec::new();
        let mut i: usize = 0;
        while i < self.music_list.len()
            invariant
                i <= self.music_list.len(),
                search_lc@ == lowercase_of(search@),
                pred == music_filter(
                    lowercase_of(search@),
                    opt_str(album_name),
                    opt_str(folder_path),
                    opt_paths(playlist_paths),
                ),
                out@.len() == self.music_list@.take(i as int).filter(pred).len(),
                forall|j: int|
                    0 <= j < out@.len() ==> *out@[j] == self.music_list@.take(i as int).filter(
                        pred,
                    )[j],
            decreases self.music_list.len() - i,
        {
            let m = &self.music_list[i];
            let keep = music_matches(m, &search_lc, album_name, folder_path, playlist_paths);
            proof {
                let t = self.music_list@.take(i as int);
                assert(self.music_list@.take(i + 1) =~= t.push(self.music_list@[i as int]));
                t.lemma_filter_push(self.music_list@[i as int], pred);
            }
            if keep {
                out.push(m);
            }
            i = i + 1;
        }
        assert(self.music_list@.take(self.music_list@.len() as int) =~= self.music_list@);
        out
    }

    /// The albums that a search shows: all of them for an empty search, else
    /// those whose first track's album or album artist contains the search,
    /// case-insensitively.
    pub fn filtered_albums<'a>(&'a self, search: &str) -> (r: Vec<&'a Vec<MusicMetadata>>)
        ensures
            r@.len() == albums_found(self.albums@, search@).len(),
            forall|i: int| 0 <= i < r@.len() ==> *r@[i] == albums_found(self.albums@, search@)[i],
    {
        let mut out: Vec<&'a Vec<MusicMetadata>> = Vec::new();
        if search.is_empty() {
            let mut i: usize = 0;
            while i < self.albums.len()
                invariant
                    i <= self.albums.len(),
                    search@.len() == 0,
                    out@.len() == i,
                    forall|j: int| 0 <= j < i ==> *out@[j] == self.albums@[j],
                decreases self.albums.len() - i,
            {
                out.push(&self.albums[i]);
                i = i + 1;
            }
            return out;
        }
        let search_lc = chars_of(to_lowercase(search).as_str());
        let ghost pred = album_filter(lowercase_of(search@));
        let mut i: usize = 0;
        while i < self.albums.len()
            invariant
                i <= self.albums.len(),
                search@.len() > 0,
                search_lc@ == lowercase_of(search@),
                pred == album_filter(lowercase_of(search@)),
                out@.len() == self.albums@.take(i as int).filter(pred).len(),
                forall|j: int|
                    0 <= j < out@.len() ==> *out@[j] == self.albums@.take(i as int).filter(pred)[j],
            decreases self.albums.len() - i,
        {
            let tracks = &self.albums[i];
            let keep = if tracks.len() > 0 {
                field_contains(&tracks[0].album, &search_lc) || field_contains(
                    &tracks[0].album_artist,
                    &search_lc,
                )
            } else {
                false
            };
            proof {
                let t = self.albums@.take(i as int);
                assert(self.albums@.take(i + 1) =~= t.push(self.albums@[i as int]));
                t.lemma_filter_push(self.albums@[i as int], pred);
            }
            if keep {
                out.push(tracks);
            }
            i = i + 1;
        }
        assert(self.albums@.take(self.albums@.len() as int) =~= self.albums@);
        out
    }
}

/// A track number that a tag gives as a number is written out in decimal;
/// read back for sorting, it is that number again.
pub proof fn law_track_number_round_trip(n: u64)
    requires
        n <= u32::MAX,
    ensures
        track_order(Some(decimal_of(n as nat))) == n,
{
    let t = decimal_of(n as nat);
    lemma_decimal_digits(n as nat);
    assert forall|j: int| 0 <= j < t.len() implies t[j] != '/' by {
        assert(is_digit(t[j]));
    }
    lemma_prefix_before(t, '/', t.len() as int);
    assert(t.take(t.len() as int) =~= t);
    assert(is_digit(t[0]));
    assert(unsigned_digits(t) == t);
}

/// A track tagged "n/total" (or "n/" followed by anything) sorts by `n`, the
/// number before the slash.
pub proof fn law_sort_key_uses_number_before_slash(m: MusicMetadataView, n: u32, rest: Seq<char>)
    requires
        m.track_number == Some(decimal_of(n as nat) + seq!['/'] + rest),
    ensures
        key_of(m).1 == n,
{
    let d = decimal_of(n as nat);
    let t = d + seq!['/'] + rest;
    lemma_decimal_digits(n as nat);
    assert forall|j: int| 0 <= j < d.len() implies t[j] != '/' by {
        assert(t[j] == d[j]);
        assert(is_digit(d[j]));
    }
    assert(t[d.len() as int] == '/');
    lemma_prefix_before(t, '/', d.len() as int);
    assert(t.take(d.len() as int) =~= d);
    assert(is_digit(d[0]));
    assert(unsigned_digits(d) == d);
}

/// A track tagged with a plain number "n" sorts by `n`.
pub proof fn law_sort_key_uses_plain_number(m: MusicMetadataView, n: u32)
    requires
        m.track_number == Some(decimal_of(n as nat)),
    ensures
        key_of(m).1 == n,
{
    law_track_number_round_trip(n as u64);
}

/// Within one album, a track numbered a (as "a" or "a/total") sorts before a
/// track numbered b when a < b, whatever their file names.
pub proof fn law_album_tracks_sort_by_number(
    m1: MusicMetadataView,
    m2: MusicMetadataView,
    a: u32,
    b: u32,
    rest1: Seq<char>,
    rest2: Seq<char>,
)
    requires
        m1.album == m2.album,
        a < b,
        m1.track_number == Some(decimal_of(a as nat) + seq!['/'] + rest1),
        m2.track_number == Some(decimal_of(b as nat) + seq!['/'] + rest2),
    ensures
        key_lt(key_of(m1), key_of(m2)),
        !key_lt(key_of(m2), key_of(m1)),
{
    law_sort_key_uses_number_before_slash(m1, a, rest1);
    law_sort_key_uses_number_before_slash(m2, b, rest2);
    lemma_lex_lt_irreflexive(key_of(m1).0);
}

/// A track without a number, or with one that does not parse, sorts after
/// every numbered track of its album.
pub proof fn law_unnumbered_tracks_sort_last(m: MusicMetadataView)
    requires
        m.track_number is None,
    ensures
        key_of(m).1 == u32::MAX,
{
}

/// With no playlist, folder or album filter, a non-empty search finds a
/// track whose title, artist, album or album artist contains it, ignoring
/// case.
pub proof fn law_search_finds_any_field(m: MusicMetadataView, search: Seq<char>, field: Seq<char>)
    requires
        lowercase_of(search).len() > 0,
        contains_chars(lowercase_of(field), lowercase_of(search)),
        m.title == Some(field) || m.artist == Some(field) || m.album == Some(field) || m.album_artist
            == Some(field),
    ensures
        music_passes(m, lowercase_of(search), None, None, None),
{
}

/// With no playlist or folder filter, a track of the album searched for that
/// matches the search through its album tag passes both.
pub proof fn law_search_by_album(m: MusicMetadataView, search: Seq<char>, album: Seq<char>)
    requires
        m.album == Some(album),
        contains_chars(lowercase_of(album), lowercase_of(search)),
    ensures
        music_passes(m, lowercase_of(search), Some(album), None, None),
        music_passes(m, lowercase_of(search), None, None, None),
{
}

/// A track that a non-empty search finds contains it in one of its four
/// searched fields; a track passing an album filter is of that album.
pub proof fn law_search_needs_a_match(
    m: MusicMetadataView,
    search_lc: Seq<char>,
    album_name: Option<Seq<char>>,
    folder_path: Option<Seq<char>>,
)
    requires
        music_passes(m, search_lc, album_name, folder_path, None),
    ensures
        search_lc.len() > 0 ==> exists|f: Seq<char>|
            (m.title == Some(f) || m.artist == Some(f) || m.album == Some(f) || m.album_artist == Some(f))
                && #[trigger] contains_chars(lowercase_of(f), search_lc),
        album_name matches Some(a) ==> m.album == Some(a),
{
    if search_lc.len() > 0 {
        if let Some(f) = m.title {
            if contains_chars(lowercase_of(f), search_lc) {
                assert(contains_chars(lowercase_of(f), search_lc));
            }
        }
    }
}

/// Tracks of different albums sort by album name, whatever their track
/// numbers and file names.
pub proof fn law_albums_sort_first(m1: MusicMetadataView, m2: MusicMetadataView, a1: Seq<char>, a2: Seq<char>)
    requires
        m1.album == Some(a1),
        m2.album == Some(a2),
        lex_lt(a1, a2),
    ensures
        key_lt(key_of(m1), key_of(m2)),
        !key_lt(key_of(m2), key_of(m1)),
{
    lemma_lex_lt_asymmetric(a1, a2);
}

/// Tracks of one album with the same track number sort by file name.
pub proof fn law_same_number_sorts_by_file_name(
    m1: MusicMetadataView,
    m2: MusicMetadataView,
    f1: Seq<char>,
    f2: Seq<char>,
)
    requires
        m1.album == m2.album,
        m1.track_number == m2.track_number,
        m1.filename == Some(f1),
        m2.filename == Some(f2),
    ensures
        key_lt(key_of(m1), key_of(m2)) <==> lex_lt(f1, f2),
{
    lemma_lex_lt_irreflexive(key_of(m1).0);
}

/// With a playlist, a track passes exactly when its path is in the playlist,
/// whatever the search and the other filters.
pub proof fn law_playlist_filter(
    m: MusicMetadataView,
    search_lc: Seq<char>,
    album_name: Option<Seq<char>>,
    folder_path: Option<Seq<char>>,
    paths: Seq<Seq<char>>,
)
    ensures
        music_passes(m, search_lc, album_name, folder_path, Some(paths)) <==> paths.contains(m.path),
{
}

} // verus!
