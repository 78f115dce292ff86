//! Cover-art cache bookkeeping: cache file names, the base cover size and the
//! status of pending cover loads.
use crate::text::{chars_of, str_equal, string_from_chars};
use vstd::prelude::*;
use vstd::string::*;
use vstd::utf8::encode_utf8;

verus! {

/// Where the loading of one cover stands.
#[derive(Clone, Copy, Debug, PartialEq, Eq, Structural)]
pub enum CacheStatus {
    Pending,
    Loaded,
    Failed,
}

/// Cover size in pixels before any screen scale is known.
pub const DEFAULT_COVER_SIZE: u32 = 300;

/// The characters that cannot stand in a file name on some system.
pub open spec fn forbidden_in_filename(c: char) -> bool {
    c == '/' || c == '\\' || c == ':' || c == '*' || c == '?' || c == '"' || c == '<' || c == '>'
        || c == '|'
}

/// `name` with each forbidden character replaced by `_`.
pub open spec fn sanitized(name: Seq<char>) -> Seq<char> {
    name.map_values(
        |c: char|
            if forbidden_in_filename(c) {
                '_'
            } else {
                c
            },
    )
}

/// One step of the djb2 hash: `h * 33 + b`, wrapping at 64 bits.
pub open spec fn djb2_step(h: u64, b: u8) -> u64 {
    vstd::wrapping::u64_specs::wrapping_add(vstd::wrapping::u64_specs::wrapping_mul(h, 33), b as u64)
}

/// The djb2 hash of `bytes`, starting from 5381.
pub open spec fn djb2(bytes: Seq<u8>) -> u64
    decreases bytes.len(),
{
    if bytes.len() == 0 {
        5381
    } else {
        djb2_step(djb2(bytes.drop_last()), bytes.last())
    }
}

/// The lower-case hexadecimal digit of a value below 16.
pub open spec fn hex_digit(d: u64) -> char {
    if d < 10 {
        ((48 + d) as u8) as char
    } else {
        ((87 + d) as u8) as char
    }
}

/// `n` as 16 lower-case hexadecimal digits, most significant first
/// (what `format!("{:016x}", n)` writes).
pub open spec fn hex16(n: u64) -> Seq<char> {
    Seq::new(16, |i: int| hex_digit((n >> ((60 - 4 * i) as u64)) & 15u64))
}

/// The cache file name of a cover: "artist album" made safe for file names,
/// or, without both tags, the hash of the file's path in hexadecimal.
pub open spec fn cache_key(artist: Option<Seq<char>>, album: Option<Seq<char>>, path: Seq<char>) -> Seq<char> {
    match (artist, album) {
        (Some(a), Some(b)) => sanitized(a + " "@ + b),
        _ => hex16(djb2(encode_utf8(path))),
    }
}

/// `name` with `/ \ : * ? " < > |` replaced by `_`.
fn sanitize_filename(name: &str) -> (r: String)
    ensures
        r@ == sanitized(name@),
{
    let cs = chars_of(name);
    let mut out: Vec<char> = Vec::new();
    let mut i: usize = 0;
    while i < cs.len()
        invariant
            i <= cs.len(),
            out@ == sanitized(cs@.take(i as int)),
        decreases cs.len() - i,
    {
        let c = cs[i];
        let d = if c == '/' || c == '\\' || c == ':' || c == '*' || c == '?' || c == '"' || c == '<'
            || c == '>' || c == '|' {
            '_'
        } else {
            c
        };
        out.push(d);
        assert(sanitized(cs@.take(i + 1)) =~= sanitized(cs@.take(i as int)).push(d));
        i = i + 1;
    }
    assert(cs@.take(cs@.len() as int) =~= cs@);
    string_from_chars(&out)
}

/// The djb2 hash of the UTF-8 bytes of `path`.
fn path_hash(path: &str) -> (r: u64)
    ensures
        r == djb2(encode_utf8(path@)),
{
    let bytes = path.as_bytes();
    let mut hash: u64 = 5381;
    let mut i: usize = 0;
    while i < bytes.len()
        invariant
            i <= bytes.len(),
            bytes@ == encode_utf8(path@),
            hash == djb2(bytes@.take(i as int)),
        decreases bytes.len() - i,
    {
        let b = bytes[i];
        hash = hash.wrapping_mul(33).wrapping_add(b as u64);
        assert(bytes@.take(i + 1).drop_last() =~= bytes@.take(i as int));
        i = i + 1;
    }
    assert(bytes@.take(bytes@.len() as int) =~= bytes@);
    hash
}

/// `n` as 16 lower-case hexadecimal digits.
fn hex_string(n: u64) -> (r: String)
    ensures
        r@ == hex16(n),
{
    let mut out: Vec<char> = Vec::new();
    let mut i: u64 = 0;
    while i < 16
        invariant
            i <= 16,
            out@.len() == i,
            forall|j: int| 0 <= j < i ==> out@[j] == hex16(n)[j],
        decreases 16 - i,
    {
        let shift: u64 = 60 - 4 * i;
        let d: u64 = (n >> shift) & 15u64;
        assert(d < 16) by (bit_vector)
            requires
                d == (n >> shift) & 15u64,
        ;
        assert(hex16(n)[i as int] == hex_digit(d));
        let c = if d < 10 {
            ((48 + d) as u8) as char
        } else {
            ((87 + d) as u8) as char
        };
        out.push(c);
        i = i + 1;
    }
    assert(out@ =~= hex16(n));
    string_from_chars(&out)
}

/// Whether some entry of `st` has key `k`.
pub open spec fn has_key(st: Seq<(Seq<char>, CacheStatus)>, k: Seq<char>) -> bool {
    exists|i: int| 0 <= i < st.len() && (#[trigger] st[i]).0 == k
}

/// No two entries of `st` have the same key.
pub open spec fn distinct_keys(st: Seq<(Seq<char>, CacheStatus)>) -> bool {
    forall|i: int, j: int| 0 <= i < j < st.len() ==> (#[trigger] st[i]).0 != (#[trigger] st[j]).0
}

/// The entries of `st` as a table from key to status.
pub open spec fn status_table(st: Seq<(Seq<char>, CacheStatus)>) -> Map<Seq<char>, CacheStatus> {
    Map::new(
        |k: Seq<char>| has_key(st, k),
        |k: Seq<char>| st[choose|i: int| 0 <= i < st.len() && (#[trigger] st[i]).0 == k].1,
    )
}

/// With distinct keys, the table gives each entry's status for its key.
proof fn lemma_table_at(st: Seq<(Seq<char>, CacheStatus)>, i: int)
    requires
        distinct_keys(st),
        0 <= i < st.len(),
    ensures
        status_table(st).dom().contains(st[i].0),
        status_table(st)[st[i].0] == st[i].1,
{
    let k = st[i].0;
    assert(has_key(st, k));
    let j = choose|j: int| 0 <= j < st.len() && (#[trigger] st[j]).0 == k;
    if j < i {
        assert(st[j].0 != st[i].0);
    } else if i < j {
        assert(st[i].0 != st[j].0);
    }
}

/// Setting the status of an entry sets it in the table.
proof fn lemma_table_update(st: Seq<(Seq<char>, CacheStatus)>, i: int, s: CacheStatus)
    requires
        distinct_keys(st),
        0 <= i < st.len(),
    ensures
        distinct_keys(st.update(i, (st[i].0, s))),
        status_table(st.update(i, (st[i].0, s))) == status_table(st).insert(st[i].0, s),
{
    let t = st.update(i, (st[i].0, s));
    assert forall|a: int, b: int| 0 <= a < b < t.len() implies (#[trigger] t[a]).0 != (
    #[trigger] t[b]).0 by {
        assert(st[a].0 != st[b].0);
    }
    let m = status_table(st).insert(st[i].0, s);
    assert forall|k: Seq<char>| #[trigger] status_table(t).dom().contains(k) <==> m.dom().contains(k) by {
        if has_key(st, k) {
            let j = choose|j: int| 0 <= j < st.len() && (#[trigger] st[j]).0 == k;
            assert(t[j].0 == k);
        }
        if has_key(t, k) {
            let j = choose|j: int| 0 <= j < t.len() && (#[trigger] t[j]).0 == k;
            assert(st[j].0 == k);
        }
    }
    assert forall|k: Seq<char>| #[trigger] status_table(t).dom().contains(k) implies status_table(t)[k]
        == m[k] by {
        let j = choose|j: int| 0 <= j < t.len() && (#[trigger] t[j]).0 == k;
        lemma_table_at(t, j);
        if j != i {
            assert(st[j] == t[j]);
            lemma_table_at(st, j);
        }
    }
    assert(status_table(t) =~= m);
}

/// Adding an entry for a new key adds it to the table.
proof fn lemma_table_push(st: Seq<(Seq<char>, CacheStatus)>, k: Seq<char>, s: CacheStatus)
    requires
        distinct_keys(st),
        !has_key(st, k),
    ensures
        distinct_keys(st.push((k, s))),
        status_table(st.push((k, s))) == status_table(st).insert(k, s),
{
    let t = st.push((k, s));
    assert forall|a: int, b: int| 0 <= a < b < t.len() implies (#[trigger] t[a]).0 != (
    #[trigger] t[b]).0 by {
        if b < st.len() {
            assert(st[a].0 != st[b].0);
        } else {
            assert(st[a].0 != k);
        }
    }
    let m = status_table(st).insert(k, s);
    assert forall|x: Seq<char>| #[trigger] status_table(t).dom().contains(x) <==> m.dom().contains(x) by {
        if has_key(st, x) {
            let j = choose|j: int| 0 <= j < st.len() && (#[trigger] st[j]).0 == x;
            assert(t[j].0 == x);
        }
        if has_key(t, x) && x != k {
            let j = choose|j: int| 0 <= j < t.len() && (#[trigger] t[j]).0 == x;
            assert(st[j].0 == x);
        }
        if x == k {
            assert(t[st.len() as int].0 == k);
        }
    }
    assert forall|x: Seq<char>| #[trigger] status_table(t).dom().contains(x) implies status_table(t)[x]
        == m[x] by {
        let j = choose|j: int| 0 <= j < t.len() && (#[trigger] t[j]).0 == x;
        lemma_table_at(t, j);
        if j < st.len() {
            assert(st[j] == t[j]);
            lemma_table_at(st, j);
        }
    }
    assert(status_table(t) =~= m);
}

/// The table left by a series of `queue_set` calls, oldest first, on a table `m`.
pub open spec fn after_sets(m: Map<Seq<char>, CacheStatus>, sets: Seq<(Seq<char>, CacheStatus)>) -> Map<
    Seq<char>,
    CacheStatus,
>
    decreases sets.len(),
{
    if sets.len() == 0 {
        m
    } else {
        after_sets(m, sets.drop_last()).insert(sets.last().0, sets.last().1)
    }
}

/// Read after write: once a status is set for a key, reading the key gives
/// that status, whatever other keys are set afterwards.
pub proof fn law_status_read_after_write(
    m: Map<Seq<char>, CacheStatus>,
    key: Seq<char>,
    status: CacheStatus,
    later: Seq<(Seq<char>, CacheStatus)>,
)
    requires
        forall|i: int| 0 <= i < later.len() ==> (#[trigger] later[i]).0 != key,
    ensures
        after_sets(m.insert(key, status), later).get(key) == Some(status),
    decreases later.len(),
{
    if later.len() > 0 {
        law_status_read_after_write(m, key, status, later.drop_last());
        assert(later.last().0 != key);
    }
}

/// A key that was never set reads as unknown.
pub proof fn law_unset_key_is_unknown(key: Seq<char>, sets: Seq<(Seq<char>, CacheStatus)>)
    requires
        forall|i: int| 0 <= i < sets.len() ==> (#[trigger] sets[i]).0 != key,
    ensures
        after_sets(Map::empty(), sets).get(key) is None,
    decreases sets.len(),
{
    if sets.len() > 0 {
        law_unset_key_is_unknown(key, sets.drop_last());
        assert(sets.last().0 != key);
    }
}

/// The cover cache of the library.
pub struct ImageCache {
    base_cover_size: Option<u32>,
    queue: Vec<(String, CacheStatus)>,
}

impl ImageCache {
    /// The size set by `init_base_cover_size`, if any.
    pub closed spec fn cover_size(&self) -> Option<u32> {
        self.base_cover_size
    }

    /// The status recorded for each cover key, oldest key first; keys are distinct.
    pub closed spec fn statuses(&self) -> Seq<(Seq<char>, CacheStatus)> {
        self.queue@.map_values(|e: (String, CacheStatus)| (e.0@, e.1))
    }

    /// The status recorded for each key.
    pub closed spec fn status_map(&self) -> Map<Seq<char>, CacheStatus> {
        status_table(self.statuses())
    }

    proof fn lemma_wf_distinct(&self)
        requires
            self.wf(),
        ensures
            distinct_keys(self.statuses()),
    {
        let st = self.statuses();
        assert forall|a: int, b: int| 0 <= a < b < st.len() implies (#[trigger] st[a]).0 != (
        #[trigger] st[b]).0 by {
            assert(self.queue@[a].0@ != self.queue@[b].0@);
        }
    }

    /// Keys in the status queue are distinct.
    pub closed spec fn wf(&self) -> bool {
        forall|i: int, j: int|
            0 <= i < j < self.queue@.len() ==> (#[trigger] self.queue@[i]).0@ != (
            #[trigger] self.queue@[j]).0@
    }

    /// An empty cache without a base cover size.
    pub fn new() -> (r: ImageCache)
        ensures
            r.wf(),
            r.cover_size() is None,
            r.statuses() == Seq::<(Seq<char>, CacheStatus)>::empty(),
            r.status_map() == Map::<Seq<char>, CacheStatus>::empty(),
    {
        let r = ImageCache { base_cover_size: None, queue: Vec::new() };
        assert(r.statuses() =~= Seq::<(Seq<char>, CacheStatus)>::empty());
        assert(r.status_map() =~= Map::<Seq<char>, CacheStatus>::empty());
        r
    }

    /// Records the cover size for the current screen, computed by the caller
    /// from the screen's scale, where `prior` is the size that was stored in
    /// the previous run. The first size recorded stays. Returns whether the
    /// cache has to be emptied: the stored size differs from the new one.
    pub fn init_base_cover_size(&mut self, size: u32, prior: Option<u32>) -> (invalidate: bool)
        requires
            old(self).wf(),
        ensures
            final(self).wf(),
            invalidate == (prior matches Some(p) && p != size),
            final(self).cover_size() == match old(self).cover_size() {
                Some(s) => Some(s),
                None => Some(size),
            },
            final(self).statuses() == old(self).statuses(),
            final(self).status_map() == old(self).status_map(),
    {
        if self.base_cover_size.is_none() {
            self.base_cover_size = Some(size);
        }
        match prior {
            Some(p) => p != size,
            None => false,
        }
    }

    /// The cover size in pixels: the recorded one, else 300.
    pub fn base_cover_size(&self) -> (r: u32)
        ensures
            r == match self.cover_size() {
                Some(s) => s,
                None => DEFAULT_COVER_SIZE,
            },
    {
        match self.base_cover_size {
            Some(s) => s,
            None => DEFAULT_COVER_SIZE,
        }
    }

    /// How many covers may be resized at once, given the machine's parallelism
    /// (4 when unknown): two fewer than that, at least one.
    pub fn resize_permits(parallelism: Option<usize>) -> (r: usize)
        ensures
            r == ({
                let p = match parallelism {
                    Some(n) => n as int,
                    None => 4,
                };
                if p - 2 >= 1 {
                    p - 2
                } else {
                    1
                }
            }),
    {
        let p = match parallelism {
            Some(n) => n,
            None => 4,
        };
        let q = p.saturating_sub(2);
        if q >= 1 {
            q
        } else {
            1
        }
    }

    /// The cache file name of a cover: "artist album" made safe for file names
    /// when both tags are known, else the djb2 hash of the path in hexadecimal.
    pub fn get_cache_key(artist: Option<&str>, album: Option<&str>, path: &str) -> (r: String)
        ensures
            r@ == cache_key(
                match artist {
                    Some(a) => Some(a@),
                    None => None,
                },
                match album {
                    Some(b) => Some(b@),
                    None => None,
                },
                path@,
            ),
    {
        match (artist, album) {
            (Some(a), Some(b)) => {
                let mut raw = String::from_str(a);
                raw.append(" ");
                raw.append(b);
                sanitize_filename(raw.as_str())
            },
            _ => hex_string(path_hash(path)),
        }
    }

    /// The status recorded for a key.
    pub fn queue_get(&self, key: &str) -> (r: Option<CacheStatus>)
        requires
            self.wf(),
        ensures
            r == self.status_map().get(key@),
    {
        proof {
            self.lemma_wf_distinct();
        }
        let mut i: usize = 0;
        while i < self.queue.len()
            invariant
                i <= self.queue.len(),
                forall|j: int| 0 <= j < i ==> (#[trigger] self.queue@[j]).0@ != key@,
                distinct_keys(self.statuses()),
            decreases self.queue.len() - i,
        {
            if str_equal(self.queue[i].0.as_str(), key) {
                assert(self.statuses()[i as int] == (key@, self.queue@[i as int].1));
                proof {
                    lemma_table_at(self.statuses(), i as int);
                }
                return Some(self.queue[i].1);
            }
            i = i + 1;
        }
        proof {
            if has_key(self.statuses(), key@) {
                let j = choose|j: int|
                    0 <= j < self.statuses().len() && (#[trigger] self.statuses()[j]).0 == key@;
                assert(self.queue@[j].0@ == key@);
            }
        }
        None
    }

    /// Records a status for a key. Returns whether the key was already known
    /// (its waiters are then told), or new (a fresh channel is made for it).
    pub fn queue_set(&mut self, key: &str, status: CacheStatus) -> (known: bool)
        requires
            old(self).wf(),
        ensures
            final(self).wf(),
            final(self).cover_size() == old(self).cover_size(),
            known == exists|i: int|
                0 <= i < old(self).statuses().len() && (#[trigger] old(self).statuses()[i]).0 == key@,
            known ==> exists|i: int|
                0 <= i < old(self).statuses().len() && (#[trigger] old(self).statuses()[i]).0 == key@
                    && final(self).statuses() == old(self).statuses().update(i, (key@, status)),
            !known ==> final(self).statuses() == old(self).statuses().push((key@, status)),
            final(self).statuses().contains((key@, status)),
            known == old(self).status_map().dom().contains(key@),
            final(self).status_map() == old(self).status_map().insert(key@, status),
    {
        proof {
            self.lemma_wf_distinct();
        }
        let mut i: usize = 0;
        while i < self.queue.len()
            invariant
                i <= self.queue.len(),
                self.queue@ == old(self).queue@,
                self.base_cover_size == old(self).base_cover_size,
                self.wf(),
                forall|j: int| 0 <= j < i ==> (#[trigger] self.queue@[j]).0@ != key@,
            decreases self.queue.len() - i,
        {
            if str_equal(self.queue[i].0.as_str(), key) {
                let ghost before = self.queue@;
                let ghost st = self.statuses();
                let name = String::from_str(key);
                self.queue.set(i, (name, status));
                proof {
                    assert(st == old(self).statuses());
                    assert(st[i as int].0 == key@);
                    assert(old(self).statuses()[i as int].0 == key@);
                    assert(self.statuses() =~= st.update(i as int, (key@, status)));
                    assert(self.statuses()[i as int] == (key@, status));
                    lemma_table_update(st, i as int, status);
                    lemma_table_at(st, i as int);
                    assert forall|a: int, b: int|
                        0 <= a < b < self.queue@.len() implies (#[trigger] self.queue@[a]).0@ != (
                        #[trigger] self.queue@[b]).0@ by {
                        assert(before[a].0@ != before[b].0@);
                    }
                }
                return true;
            }
            i = i + 1;
        }
        let ghost st = self.statuses();
        self.queue.push((String::from_str(key), status));
        proof {
            assert(self.statuses() =~= st.push((key@, status)));
            assert(self.statuses()[st.len() as int] == (key@, status));
            assert forall|k: int|
                0 <= k < st.len() implies (#[trigger] st[k]).0 != key@ by {
                assert(st[k].0 == self.queue@[k].0@);
            }
            lemma_table_push(st, key@, status);
        }
        false
    }
}

/// A cover's cache file name never holds a character that some file system
/// refuses; a name made from the path's hash has 16 characters.
pub proof fn law_cache_key_is_file_name(artist: Option<Seq<char>>, album: Option<Seq<char>>, path: Seq<char>)
    ensures
        forall|i: int|
            0 <= i < cache_key(artist, album, path).len() ==> !forbidden_in_filename(
                #[trigger] cache_key(artist, album, path)[i],
            ),
        !(artist is Some && album is Some) ==> cache_key(artist, album, path).len() == 16,
{
    let k = cache_key(artist, album, path);
    assert forall|i: int| 0 <= i < k.len() implies !forbidden_in_filename(#[trigger] k[i]) by {
        match (artist, album) {
            (Some(a), Some(b)) => {},
            _ => {
                let n = djb2(encode_utf8(path));
                let sh = (60 - 4 * i) as u64;
                let d = (n >> sh) & 15u64;
                assert(d < 16) by (bit_vector)
                    requires
                        d == (n >> sh) & 15u64,
                ;
                assert(k[i] == hex_digit(d));
            },
        }
    }
}

} // verus!
