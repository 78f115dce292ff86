//! The play queue: track order, shuffle, repeat mode and the current track.
//!
//! The audio engine (streams, mixer, output device) lives outside the library.
//! Each operation here updates the queue and tells the caller what the engine
//! has to do; operations that depend on whether a track could be loaded are
//! finished by `track_loaded` once the engine reports success.
use crate::metadata::{clone_tracks, views, MusicMetadata, MusicMetadataView};
use rand::seq::SliceRandom;
use vstd::multiset::Multiset;
use vstd::prelude::*;

verus! {

broadcast use vstd::seq_lib::group_to_multiset_ensures;

/// How the queue continues after its last track, and whether a track repeats.
#[derive(Clone, Copy, Debug, PartialEq, Eq, Structural)]
pub enum RepeatMode {
    /// The queue stops after its last track.
    Off,
    All,
    One,
}

/// What the audio engine has to do after `play` or `pause`.
#[derive(Clone, Copy, Debug, PartialEq, Eq, Structural)]
pub enum PlayAction {
    /// Load the track at this index and play it from the start.
    GotoTrack(usize),
    /// Resume the mixer.
    Resume,
    /// Pause the mixer.
    Pause,
}

/// What the audio engine has to do to advance the queue.
#[derive(Clone, Copy, Debug, PartialEq, Eq, Structural)]
pub enum NextAction {
    /// Load the track at this index and play it; report `track_loaded` on success.
    Play(usize),
    /// The queue ran out: load the first track, paused at its start;
    /// report `track_loaded(0)` on success.
    RewindPaused,
    /// The queue is empty: stop the stream. The current index is already cleared.
    Stop,
    /// The user skipped past the last track: stop the stream. The current index
    /// is already set to the first track.
    StopAtEnd,
}

/// How `remove_track` went.
#[derive(Clone, Copy, Debug, PartialEq, Eq, Structural)]
pub enum RemoveOutcome {
    /// The index was past the end of the queue; nothing changed.
    OutOfRange,
    /// A track other than the current one was removed.
    Removed,
    /// The current track was removed: the engine has to stop its stream.
    RemovedCurrent,
}

/// The queue's part of the state that is sent to the user interface.
#[derive(Clone, Copy, Debug, PartialEq, Eq, Structural)]
pub struct SyncInfo {
    /// The current index, or -1 when there is none.
    pub index: i64,
    pub is_playing: bool,
    pub repeat_mode: RepeatMode,
    pub is_shuffled: bool,
    /// The position is reported as the start of the track.
    pub position_reset: bool,
}

/// The next index after `current` in a queue of `len` tracks.
/// A track that ended by itself repeats under `RepeatMode::One`.
pub open spec fn next_index_of(
    current: Option<usize>,
    mode: RepeatMode,
    len: nat,
    from_user: bool,
) -> Option<usize> {
    match current {
        Some(c) => {
            if mode == RepeatMode::One && !from_user {
                Some(c)
            } else if c + 1 < len {
                Some((c + 1) as usize)
            } else if mode == RepeatMode::All {
                Some(0)
            } else {
                None
            }
        },
        None => None,
    }
}

/// The index that "previous" goes to: the first track stays first without
/// repeat, and wraps to the last track otherwise.
pub open spec fn previous_index_of(current: Option<usize>, mode: RepeatMode, len: nat) -> Option<
    usize,
> {
    match current {
        Some(c) => {
            if c == 0 && mode == RepeatMode::Off {
                Some(0)
            } else if c > 0 {
                Some((c - 1) as usize)
            } else if len > 0 {
                Some((len - 1) as usize)
            } else {
                None
            }
        },
        None => None,
    }
}

/// Where the track at `current` ends up after the track at `from` moved to `to`.
pub open spec fn moved_index(current: usize, from: usize, to: usize) -> usize {
    if current == from {
        to
    } else if from < current && to >= current {
        (current - 1) as usize
    } else if from > current && to <= current {
        (current + 1) as usize
    } else {
        current
    }
}

/// The current index after the track at `index` was removed.
pub open spec fn index_after_removal(current: Option<usize>, index: usize) -> Option<usize> {
    match current {
        Some(c) => {
            if c == index {
                None
            } else if index < c {
                Some((c - 1) as usize)
            } else {
                Some(c)
            }
        },
        None => None,
    }
}

/// `s` with its element at `from` moved to position `to`.
pub open spec fn moved<A>(s: Seq<A>, from: int, to: int) -> Seq<A> {
    s.remove(from).insert(to, s[from])
}

/// The first position in `s` of a track with the given id.
pub open spec fn first_with_id(s: Seq<MusicMetadataView>, id: i16) -> Option<usize> {
    if exists|i: int| 0 <= i < s.len() && (#[trigger] s[i]).id == id {
        let i = choose|i: int|
            0 <= i < s.len() && (#[trigger] s[i]).id == id && forall|j: int|
                0 <= j < i ==> (#[trigger] s[j]).id != id;
        Some(i as usize)
    } else {
        None
    }
}

/// What `first_with_id` finds: the first matching position, or none at all.
pub proof fn lemma_first_with_id(s: Seq<MusicMetadataView>, id: i16)
    requires
        s.len() <= usize::MAX,
    ensures
        match first_with_id(s, id) {
            Some(i) => i < s.len() && s[i as int].id == id && forall|j: int|
                0 <= j < i ==> (#[trigger] s[j]).id != id,
            None => forall|j: int| 0 <= j < s.len() ==> (#[trigger] s[j]).id != id,
        },
{
    if exists|i: int| 0 <= i < s.len() && (#[trigger] s[i]).id == id {
        let w = choose|i: int| 0 <= i < s.len() && (#[trigger] s[i]).id == id;
        lemma_least_with_id(s, id, w);
    }
}

proof fn lemma_least_with_id(s: Seq<MusicMetadataView>, id: i16, w: int)
    requires
        0 <= w < s.len(),
        s[w].id == id,
    ensures
        exists|i: int|
            0 <= i < s.len() && (#[trigger] s[i]).id == id && forall|j: int|
                0 <= j < i ==> (#[trigger] s[j]).id != id,
    decreases w,
{
    if exists|j: int| 0 <= j < w && (#[trigger] s[j]).id == id {
        let v = choose|j: int| 0 <= j < w && (#[trigger] s[j]).id == id;
        lemma_least_with_id(s, id, v);
    } else {
        assert(0 <= w < s.len() && s[w].id == id && forall|j: int|
            0 <= j < w ==> (#[trigger] s[j]).id != id);
    }
}

/// The first position in `s` of a track with the given id.
fn position_of_id(s: &Vec<MusicMetadata>, id: i16) -> (r: Option<usize>)
    ensures
        r == first_with_id(views(s@), id),
        r matches Some(k) ==> k < s.len(),
{
    let ghost v = views(s@);
    let mut i: usize = 0;
    while i < s.len()
        invariant
            i <= s.len(),
            v == views(s@),
            forall|j: int| 0 <= j < i ==> (#[trigger] v[j]).id != id,
        decreases s.len() - i,
    {
        if s[i].id == id {
            proof {
                assert(v[i as int].id == id);
                let k = choose|k: int|
                    0 <= k < v.len() && (#[trigger] v[k]).id == id && forall|j: int|
                        0 <= j < k ==> (#[trigger] v[j]).id != id;
                assert(0 <= i < v.len() && v[i as int].id == id && forall|j: int|
                    0 <= j < i ==> (#[trigger] v[j]).id != id);
                if k < i {
                    assert(v[k].id != id);
                }
                if k > i {
                    assert(v[i as int].id != id);
                }
            }
            return Some(i);
        }
        i = i + 1;
    }
    None
}

/// Removes from `s` the first track with the given id, if there is one.
fn remove_first_with_id(s: &mut Vec<MusicMetadata>, id: i16)
    ensures
        match first_with_id(views(old(s)@), id) {
            Some(k) => final(s)@ == old(s)@.remove(k as int),
            None => final(s)@ == old(s)@,
        },
{
    match position_of_id(s, id) {
        Some(k) => {
            s.remove(k);
        },
        None => {},
    }
}

/// Shuffles `v[start..]` in place with rand's `SliceRandom::shuffle` and the
/// thread-local generator `rand::rng()`. Trusted: the part before `start` is
/// untouched and the rest is a permutation of what it was; which permutation
/// comes out is left to chance and not stated.
#[verifier::external_body]
fn shuffle_from<T>(v: &mut Vec<T>, start: usize)
    requires
        start <= old(v).len(),
    ensures
        final(v).len() == old(v).len(),
        final(v)@.take(start as int) == old(v)@.take(start as int),
        final(v)@.skip(start as int).to_multiset() == old(v)@.skip(start as int).to_multiset(),
{
    v[start..].shuffle(&mut rand::rng());
}

proof fn lemma_views_remove(s: Seq<MusicMetadata>, k: int)
    requires
        0 <= k < s.len(),
    ensures
        views(s.remove(k)) == views(s).remove(k),
{
    assert(views(s.remove(k)) =~= views(s).remove(k));
}

/// The ids of a sequence of tracks, as a multiset.
pub open spec fn ids_of(s: Seq<MusicMetadataView>) -> Multiset<i16> {
    s.map_values(|m: MusicMetadataView| m.id).to_multiset()
}

/// Sequences with the same elements keep the same elements under a map.
proof fn lemma_map_multiset<A, B>(a: Seq<A>, b: Seq<A>, f: spec_fn(A) -> B)
    requires
        a.to_multiset() == b.to_multiset(),
    ensures
        a.map_values(f).to_multiset() == b.map_values(f).to_multiset(),
    decreases a.len(),
{
    broadcast use vstd::multiset::group_multiset_axioms;

    if a.len() == 0 {
        assert(b.len() == b.to_multiset().len());
        assert(a.map_values(f) =~= Seq::<B>::empty());
        assert(b.map_values(f) =~= Seq::<B>::empty());
    } else {
        let x = a.last();
        let a1 = a.drop_last();
        assert(a =~= a1.push(x));
        assert(a.to_multiset() =~= a1.to_multiset().insert(x));
        assert(b.to_multiset().count(x) > 0);
        assert(b.contains(x));
        let k = choose|k: int| 0 <= k < b.len() && b[k] == x;
        let b1 = b.remove(k);
        assert(b1.to_multiset() == b.to_multiset().remove(x));
        assert(a1.to_multiset() =~= a.to_multiset().remove(x));
        lemma_map_multiset(a1, b1, f);
        assert(b =~= b1.insert(k, x));
        assert(a.map_values(f) =~= a1.map_values(f).push(f(x)));
        assert(b.map_values(f) =~= b1.map_values(f).insert(k, f(x)));
    }
}

/// Track lists with the same tracks have the same ids.
proof fn lemma_ids_perm(a: Seq<MusicMetadata>, b: Seq<MusicMetadata>)
    requires
        a.to_multiset() == b.to_multiset(),
    ensures
        ids_of(views(a)) == ids_of(views(b)),
{
    let f = |m: MusicMetadata| m.id;
    lemma_map_multiset(a, b, f);
    assert(views(a).map_values(|m: MusicMetadataView| m.id) =~= a.map_values(f));
    assert(views(b).map_values(|m: MusicMetadataView| m.id) =~= b.map_values(f));
}

/// The ids of two lists put together.
proof fn lemma_ids_concat(a: Seq<MusicMetadataView>, b: Seq<MusicMetadataView>)
    ensures
        ids_of(a + b) == ids_of(a).add(ids_of(b)),
{
    let f = |m: MusicMetadataView| m.id;
    assert((a + b).map_values(f) =~= a.map_values(f) + b.map_values(f));
    vstd::seq_lib::lemma_multiset_commutative(a.map_values(f), b.map_values(f));
}

/// The ids after one track is removed.
proof fn lemma_ids_remove(s: Seq<MusicMetadataView>, k: int)
    requires
        0 <= k < s.len(),
    ensures
        ids_of(s.remove(k)) == ids_of(s).remove(s[k].id),
{
    let f = |m: MusicMetadataView| m.id;
    assert(s.remove(k).map_values(f) =~= s.map_values(f).remove(k));
}

/// As many tracks as ids.
proof fn lemma_ids_len(s: Seq<MusicMetadataView>)
    ensures
        ids_of(s).len() == s.len(),
{
}

/// After tracks are appended to both orders, the ids still agree.
proof fn lemma_ids_append(
    o: Seq<MusicMetadataView>,
    s: Seq<MusicMetadata>,
    added: Seq<MusicMetadata>,
    t: Seq<MusicMetadata>,
)
    requires
        ids_of(o) == ids_of(views(s)),
        t.to_multiset() == (s + added).to_multiset(),
    ensures
        ids_of(o + views(added)) == ids_of(views(t)),
{
    lemma_ids_perm(t, s + added);
    assert(views(s + added) =~= views(s) + views(added));
    lemma_ids_concat(views(s), views(added));
    lemma_ids_concat(o, views(added));
}

/// A list that keeps the first `p` items of `s` and holds `added` and the
/// rest of `s` after them, in any order, holds the items of `s + added`.
proof fn lemma_multiset_split<A>(s: Seq<A>, added: Seq<A>, t: Seq<A>, p: int)
    requires
        0 <= p <= s.len(),
        p <= t.len(),
        t.take(p) == s.take(p),
        t.skip(p).to_multiset() == (added + s.skip(p)).to_multiset(),
    ensures
        t.to_multiset() == (s + added).to_multiset(),
{
    broadcast use vstd::multiset::group_multiset_axioms;

    assert(t =~= t.take(p) + t.skip(p));
    assert(s =~= s.take(p) + s.skip(p));
    vstd::seq_lib::lemma_multiset_commutative(t.take(p), t.skip(p));
    vstd::seq_lib::lemma_multiset_commutative(added, s.skip(p));
    vstd::seq_lib::lemma_multiset_commutative(s.take(p), s.skip(p));
    vstd::seq_lib::lemma_multiset_commutative(s, added);
    assert(t.to_multiset() =~= (s + added).to_multiset());
}

/// Removing a track from the queue and the first track with its id from an
/// order with the same ids keeps the ids the same; such a track is found.
proof fn lemma_ids_remove_matching(o: Seq<MusicMetadataView>, t: Seq<MusicMetadataView>, k: int)
    requires
        ids_of(o) == ids_of(t),
        0 <= k < t.len(),
        o.len() <= usize::MAX,
    ensures
        first_with_id(o, t[k].id) matches Some(j) && ids_of(o.remove(j as int)) == ids_of(
            t.remove(k),
        ),
{
    let f = |m: MusicMetadataView| m.id;
    let id = t[k].id;
    assert(t.map_values(f)[k] == id);
    assert(t.map_values(f).contains(id));
    assert(ids_of(o).count(id) > 0);
    assert(o.map_values(f).contains(id));
    let w = choose|i: int| 0 <= i < o.map_values(f).len() && o.map_values(f)[i] == id;
    assert(o[w].id == id);
    lemma_first_with_id(o, id);
    let j = first_with_id(o, id).unwrap();
    lemma_ids_remove(o, j as int);
    lemma_ids_remove(t, k);
}

proof fn lemma_multiset_insert<A>(s: Seq<A>, i: int, x: A)
    requires
        0 <= i <= s.len(),
    ensures
        s.insert(i, x).to_multiset() == s.to_multiset().insert(x),
{
    broadcast use vstd::multiset::group_multiset_axioms;

    let t = s.insert(i, x);
    assert(t.remove(i) =~= s);
    assert(t[i] == x);
    assert(t.to_multiset().count(x) > 0);
    assert(t.to_multiset() =~= s.to_multiset().insert(x));
}

/// What `shuffle_track` does to a queue that is not shuffled.
pub open spec fn shuffle_on(p: MusicPlayer, q: MusicPlayer) -> bool {
    &&& q.repeat() == p.repeat()
    &&& if p.tracks().len() == 0 {
        q.tracks() == p.tracks() && q.original() is None && q.current() == p.current()
    } else {
        &&& q.original() == Some(views(p.tracks()))
        &&& q.tracks().to_multiset() == p.tracks().to_multiset()
        &&& match p.current() {
            Some(c) => q.current() == Some(0usize) && q.tracks().len() > 0 && q.tracks()[0]
                == p.tracks()[c as int],
            None => q.current() is None,
        }
    }
}

/// What `shuffle_track` does to a shuffled queue.
pub open spec fn shuffle_off(p: MusicPlayer, q: MusicPlayer) -> bool {
    match p.original() {
        Some(o) => {
            &&& views(q.tracks()) == o
            &&& q.original() is None
            &&& q.repeat() == p.repeat()
            &&& q.current() == match p.current() {
                Some(i) => if i < p.tracks().len() {
                    first_with_id(o, p.tracks()[i as int].id)
                } else {
                    p.current()
                },
                None => None,
            }
        },
        None => false,
    }
}

/// The queue of a music player.
pub struct MusicPlayer {
    track: Vec<MusicMetadata>,
    original_track: Option<Vec<MusicMetadata>>,
    current_index: Option<usize>,
    repeat_mode: RepeatMode,
}

impl MusicPlayer {
    /// The tracks of the queue, in play order.
    pub closed spec fn tracks(&self) -> Seq<MusicMetadata> {
        self.track@
    }

    /// While shuffled: the queue in the order it had before shuffling.
    pub closed spec fn original(&self) -> Option<Seq<MusicMetadataView>> {
        match self.original_track {
            Some(o) => Some(views(o@)),
            None => None,
        }
    }

    /// The index of the current track, if any.
    pub closed spec fn current(&self) -> Option<usize> {
        self.current_index
    }

    /// The repeat mode.
    pub closed spec fn repeat(&self) -> RepeatMode {
        self.repeat_mode
    }

    /// The current index points into the queue, or is the first slot of an
    /// empty queue (where skipping past the end of an empty queue leaves it).
    /// While shuffled, the pre-shuffle order holds the same tracks, counted
    /// by id, as the queue.
    pub open spec fn wf(&self) -> bool {
        &&& match self.current() {
            Some(c) => c < self.tracks().len() || (c == 0 && self.tracks().len() == 0),
            None => true,
        }
        &&& (self.original() matches Some(o) ==> ids_of(o) == ids_of(views(self.tracks())))
    }

    /// Everything but the current index is as in `other`.
    pub open spec fn same_queue(&self, other: &MusicPlayer) -> bool {
        &&& self.tracks() == other.tracks()
        &&& self.original() == other.original()
        &&& self.repeat() == other.repeat()
    }

    /// An empty queue with no current track and no repeat.
    pub fn spawn() -> (p: MusicPlayer)
        ensures
            p.wf(),
            p.tracks() == Seq::<MusicMetadata>::empty(),
            p.original() is None,
            p.current() is None,
            p.repeat() == RepeatMode::Off,
    {
        MusicPlayer {
            track: Vec::new(),
            original_track: None,
            current_index: None,
            repeat_mode: RepeatMode::Off,
        }
    }

    /// What "play" does: restart from the first track when playback ended
    /// (the first track is current but no stream is loaded), otherwise resume.
    pub fn play(&self, stream_loaded: bool) -> (a: PlayAction)
        ensures
            a == (if self.tracks().len() > 0 && self.current() == Some(0usize) && !stream_loaded {
                PlayAction::GotoTrack(0)
            } else {
                PlayAction::Resume
            }),
    {
        let is_ended = self.current_index.is_some() && self.current_index == Some(0)
            && !stream_loaded;
        if !self.track.is_empty() && is_ended {
            PlayAction::GotoTrack(0)
        } else {
            PlayAction::Resume
        }
    }

    /// What "pause" does.
    pub fn pause(&self) -> (a: PlayAction)
        ensures
            a == PlayAction::Pause,
    {
        PlayAction::Pause
    }

    /// The index that follows the current one.
    pub fn get_next_index(&self, from_user: bool) -> (r: Option<usize>)
        ensures
            r == next_index_of(self.current(), self.repeat(), self.tracks().len(), from_user),
    {
        match self.current_index {
            Some(current) => {
                if self.repeat_mode == RepeatMode::One && !from_user {
                    Some(current)
                } else if current < self.track.len() && current + 1 < self.track.len() {
                    Some(current + 1)
                } else if self.repeat_mode == RepeatMode::All {
                    Some(0)
                } else {
                    None
                }
            },
            None => None,
        }
    }

    /// Advances the queue. The user's "next" passes `from_user`; the end of a
    /// track does not, so that `RepeatMode::One` repeats it.
    pub fn play_next(&mut self, from_user: bool) -> (a: NextAction)
        requires
            old(self).wf(),
        ensures
            final(self).wf(),
            final(self).same_queue(old(self)),
            match next_index_of(old(self).current(), old(self).repeat(), old(self).tracks().len(), from_user) {
                Some(i) => a == NextAction::Play(i) && final(self).current() == old(self).current()
                    && (i < old(self).tracks().len() || old(self).tracks().len() == 0),
                None => if !from_user {
                    if old(self).tracks().len() == 0 {
                        a == NextAction::Stop && final(self).current() is None
                    } else {
                        a == NextAction::RewindPaused && final(self).current() == old(self).current()
                    }
                } else {
                    a == NextAction::StopAtEnd && final(self).current() == Some(0usize)
                },
            },
    {
        match self.get_next_index(from_user) {
            Some(i) => NextAction::Play(i),
            None => {
                if !from_user {
                    if self.track.is_empty() {
                        self.current_index = None;
                        NextAction::Stop
                    } else {
                        NextAction::RewindPaused
                    }
                } else {
                    self.current_index = Some(0);
                    NextAction::StopAtEnd
                }
            },
        }
    }

    /// What the user's "next" does.
    pub fn next(&mut self) -> (a: NextAction)
        requires
            old(self).wf(),
        ensures
            final(self).wf(),
            final(self).same_queue(old(self)),
            match next_index_of(old(self).current(), old(self).repeat(), old(self).tracks().len(), true) {
                Some(i) => a == NextAction::Play(i) && final(self).current() == old(self).current(),
                None => a == NextAction::StopAtEnd && final(self).current() == Some(0usize),
            },
    {
        self.play_next(true)
    }

    /// The index that "previous" loads, if any.
    pub fn previous(&self) -> (r: Option<usize>)
        requires
            self.wf(),
        ensures
            r == previous_index_of(self.current(), self.repeat(), self.tracks().len()),
            r matches Some(i) ==> i < self.tracks().len() || (i == 0 && self.tracks().len() == 0),
    {
        match self.current_index {
            Some(current) => {
                if current == 0 && self.repeat_mode == RepeatMode::Off {
                    Some(0)
                } else if current > 0 {
                    Some(current - 1)
                } else if !self.track.is_empty() {
                    Some(self.track.len() - 1)
                } else {
                    None
                }
            },
            None => None,
        }
    }

    /// Whether "go to track `index`" has a track to load.
    pub fn goto_track(&self, index: usize) -> (r: bool)
        ensures
            r == (index < self.tracks().len()),
    {
        index < self.track.len()
    }

    /// The engine loaded the track at `index`: it becomes the current track.
    /// An index that no longer points into the queue leaves the state alone.
    pub fn track_loaded(&mut self, index: usize)
        requires
            old(self).wf(),
        ensures
            final(self).wf(),
            final(self).same_queue(old(self)),
            index < old(self).tracks().len() ==> final(self).current() == Some(index),
            index >= old(self).tracks().len() ==> final(self).current() == old(self).current(),
    {
        if index < self.track.len() {
            self.current_index = Some(index);
        }
    }

    /// Empties the queue.
    pub fn clear(&mut self)
        ensures
            final(self).wf(),
            final(self).tracks() == Seq::<MusicMetadata>::empty(),
            final(self).original() is None,
            final(self).current() is None,
            final(self).repeat() == old(self).repeat(),
    {
        self.track = Vec::new();
        self.original_track = None;
        self.current_index = None;
    }

    /// The number of tracks in the queue.
    pub fn queue_count(&self) -> (r: usize)
        ensures
            r == self.tracks().len(),
    {
        self.track.len()
    }

    /// A copy of the track at `index`, if there is one.
    pub fn queue_get_by_index(&self, index: usize) -> (r: Option<MusicMetadata>)
        ensures
            index < self.tracks().len() ==> (r matches Some(m) && m@ == self.tracks()[index as int]@),
            index >= self.tracks().len() ==> r is None,
    {
        if index < self.track.len() {
            Some(self.track[index].clone())
        } else {
            None
        }
    }

    /// The current index, if any.
    pub fn current_index(&self) -> (r: Option<usize>)
        ensures
            r == self.current(),
    {
        self.current_index
    }

    /// Sets the repeat mode.
    pub fn set_repeat_mode(&mut self, mode: RepeatMode)
        requires
            old(self).wf(),
        ensures
            final(self).wf(),
            final(self).repeat() == mode,
            final(self).tracks() == old(self).tracks(),
            final(self).original() == old(self).original(),
            final(self).current() == old(self).current(),
    {
        self.repeat_mode = mode;
    }

    /// The queue's part of the state sent to the user interface. `engine_playing`
    /// tells whether the mixer is running; a reset reports playing from the start.
    pub fn emit_sync(&self, is_reset: bool, engine_playing: bool) -> (r: SyncInfo)
        ensures
            r.index == (match self.current() {
                Some(i) => i as i64,
                None => -1i64,
            }),
            r.is_playing == (is_reset || engine_playing),
            r.repeat_mode == self.repeat(),
            r.is_shuffled == self.original() is Some,
            r.position_reset == is_reset,
    {
        let index: i64 = match self.current_index {
            Some(i) => i as i64,
            None => -1,
        };
        SyncInfo {
            index,
            is_playing: is_reset || engine_playing,
            repeat_mode: self.repeat_mode,
            is_shuffled: self.original_track.is_some(),
            position_reset: is_reset,
        }
    }

    /// The state to send when the interface asks for it: `emit_sync` without
    /// a reset.
    pub fn request_sync(&self, engine_playing: bool) -> (r: SyncInfo)
        ensures
            r.index == (match self.current() {
                Some(i) => i as i64,
                None => -1i64,
            }),
            r.is_playing == engine_playing,
            r.repeat_mode == self.repeat(),
            r.is_shuffled == self.original() is Some,
            !r.position_reset,
    {
        self.emit_sync(false, engine_playing)
    }

    /// Resets the equalizer. The engine applies no equalizer yet, so the
    /// queue and the engine are left as they are.
    pub fn reset_equalizer(&self) {
    }

    /// Switches bit-perfect output on or off. The engine has no bit-perfect
    /// mode yet, so the request changes nothing.
    pub fn toggle_bit_perfect(&self, enable: bool) {
    }

    /// While shuffled, drops the first track with this id from the pre-shuffle order.
    fn forget_in_original(&mut self, id: i16)
        ensures
            final(self).tracks() == old(self).tracks(),
            final(self).current() == old(self).current(),
            final(self).repeat() == old(self).repeat(),
            final(self).original() == match old(self).original() {
                Some(o) => Some(
                    match first_with_id(o, id) {
                        Some(k) => o.remove(k as int),
                        None => o,
                    },
                ),
                None => None,
            },
    {
        match self.original_track.take() {
            Some(mut o) => {
                let ghost before = o@;
                proof {
                    assert(views(before).len() == o.len());
                    lemma_first_with_id(views(before), id);
                }
                remove_first_with_id(&mut o, id);
                proof {
                    if let Some(k) = first_with_id(views(before), id) {
                        lemma_views_remove(before, k as int);
                    }
                }
                self.original_track = Some(o);
            },
            None => {},
        }
    }

    /// Removes the track at `index`; while shuffled, the first track with the
    /// same id leaves the pre-shuffle order too.
    pub fn remove_track(&mut self, index: usize) -> (r: RemoveOutcome)
        requires
            old(self).wf(),
        ensures
            final(self).wf(),
            final(self).repeat() == old(self).repeat(),
            index >= old(self).tracks().len() ==> r == RemoveOutcome::OutOfRange
                && final(self).tracks() == old(self).tracks()
                && final(self).original() == old(self).original()
                && final(self).current() == old(self).current(),
            index < old(self).tracks().len() ==> {
                &&& final(self).tracks() == old(self).tracks().remove(index as int)
                &&& final(self).original() == match old(self).original() {
                    Some(o) => Some(
                        match first_with_id(o, old(self).tracks()[index as int].id) {
                            Some(k) => o.remove(k as int),
                            None => o,
                        },
                    ),
                    None => None,
                }
                &&& final(self).current() == index_after_removal(old(self).current(), index)
                &&& r == if old(self).current() == Some(index) {
                    RemoveOutcome::RemovedCurrent
                } else {
                    RemoveOutcome::Removed
                }
            },
            // The current track stays current when another one is removed.
            old(self).current() matches Some(c) ==> (c != index && c < old(self).tracks().len()
                && index < old(self).tracks().len() ==> (final(self).current() matches Some(d)
                && final(self).tracks()[d as int] == old(self).tracks()[c as int])),
    {
        if index >= self.track.len() {
            return RemoveOutcome::OutOfRange;
        }
        let ghost before = self.track@;
        let removed = self.track.remove(index);
        self.forget_in_original(removed.id);
        proof {
            lemma_views_remove(before, index as int);
            if let Some(o) = old(self).original() {
                assert(o.len() <= usize::MAX) by {
                    lemma_ids_len(o);
                    lemma_ids_len(views(before));
                }
                lemma_ids_remove_matching(o, views(before), index as int);
            }
        }
        match self.current_index {
            Some(current) => {
                if current == index {
                    self.current_index = None;
                    RemoveOutcome::RemovedCurrent
                } else {
                    if index < current {
                        self.current_index = Some(current - 1);
                    }
                    RemoveOutcome::Removed
                }
            },
            None => RemoveOutcome::Removed,
        }
    }

    /// Moves the track at `from` to position `to`; a manual reorder ends shuffle.
    /// Returns false, changing nothing, when either index is past the end.
    pub fn moveto_track(&mut self, from: usize, to: usize) -> (moved_ok: bool)
        requires
            old(self).wf(),
        ensures
            final(self).wf(),
            final(self).repeat() == old(self).repeat(),
            moved_ok == (from < old(self).tracks().len() && to < old(self).tracks().len()),
            !moved_ok ==> final(self).tracks() == old(self).tracks()
                && final(self).original() == old(self).original()
                && final(self).current() == old(self).current(),
            moved_ok ==> {
                &&& final(self).tracks() == moved(old(self).tracks(), from as int, to as int)
                &&& final(self).original() is None
                &&& final(self).current() == match old(self).current() {
                    Some(c) => Some(moved_index(c, from, to)),
                    None => None,
                }
            },
            // The current track stays current.
            moved_ok ==> (old(self).current() matches Some(c) ==> (c < old(self).tracks().len()
                ==> final(self).tracks()[moved_index(c, from, to) as int] == old(
                self,
            ).tracks()[c as int])),
    {
        if from >= self.track.len() || to >= self.track.len() {
            return false;
        }
        let ghost s = self.track@;
        let item = self.track.remove(from);
        self.track.insert(to, item);
        self.original_track = None;
        match self.current_index {
            Some(current) => {
                let next = if current == from {
                    to
                } else if from < current && to >= current {
                    current - 1
                } else if from > current && to <= current {
                    current + 1
                } else {
                    current
                };
                self.current_index = Some(next);
                proof {
                    if current < s.len() {
                        let t = s.remove(from as int);
                        if current == from {
                        } else if from < current && to >= current {
                            assert(t[current - 1] == s[current as int]);
                        } else if from > current && to <= current {
                            assert(t[current as int] == s[current as int]);
                        } else if current < from {
                            assert(t[current as int] == s[current as int]);
                        } else {
                            assert(t[current - 1] == s[current as int]);
                        }
                    }
                }
            },
            None => {},
        }
        true
    }

    /// Appends tracks to the queue and tells whether it was empty before (the
    /// caller then starts the first track). While shuffled, the new tracks join
    /// the pre-shuffle order at its end, and in play order they go after the
    /// current track, shuffled together with the rest of the queue after it.
    pub fn add_track(&mut self, tracks: Vec<MusicMetadata>) -> (was_empty: bool)
        requires
            old(self).wf(),
        ensures
            final(self).wf(),
            was_empty == (old(self).tracks().len() == 0),
            final(self).repeat() == old(self).repeat(),
            final(self).current() == old(self).current(),
            final(self).tracks().len() == old(self).tracks().len() + tracks@.len(),
            match old(self).original() {
                None => final(self).original() is None
                    && final(self).tracks() == old(self).tracks() + tracks@,
                Some(o) => {
                    &&& final(self).original() == Some(o + views(tracks@))
                    &&& ({
                        let p = match old(self).current() {
                            Some(c) => c + 1,
                            None => 1int,
                        };
                        if p <= old(self).tracks().len() {
                            &&& final(self).tracks().take(p) == old(self).tracks().take(p)
                            &&& final(self).tracks().skip(p).to_multiset() == (tracks@
                                + old(self).tracks().skip(p)).to_multiset()
                        } else {
                            final(self).tracks() == old(self).tracks() + tracks@
                        }
                    })
                },
            },
    {
        let was_empty = self.track.is_empty();
        let mut items = tracks;
        let ghost added = items@;
        match self.original_track.take() {
            Some(mut o) => {
                let mut copies = clone_tracks(&items);
                let ghost before = o@;
                o.append(&mut copies);
                proof {
                    assert(views(o@) =~= views(before) + views(added));
                }
                self.original_track = Some(o);
                let cur = match self.current_index {
                    Some(c) => c,
                    None => 0,
                };
                if cur < self.track.len() {
                    let p = cur + 1;
                    let ghost s = self.track@;
                    let mut tail = self.track.split_off(p);
                    self.track.append(&mut items);
                    self.track.append(&mut tail);
                    proof {
                        assert(self.track@.take(p as int) =~= s.take(p as int));
                        assert(self.track@.skip(p as int) =~= added + s.skip(p as int));
                    }
                    shuffle_from(&mut self.track, p);
                    proof {
                        lemma_multiset_split(s, added, self.track@, p as int);
                        lemma_ids_append(views(before), s, added, self.track@);
                    }
                } else {
                    let ghost s = self.track@;
                    self.track.append(&mut items);
                    proof {
                        lemma_ids_append(views(before), s, added, self.track@);
                    }
                }
            },
            None => {
                self.track.append(&mut items);
            },
        }
        was_empty
    }

    /// Turns shuffle on or off. On: the pre-shuffle order is kept, the current
    /// track moves to the front and the rest is shuffled. Off: the pre-shuffle
    /// order comes back and the current index follows the current track's id.
    pub fn shuffle_track(&mut self)
        requires
            old(self).wf(),
        ensures
            final(self).wf(),
            old(self).original() is None ==> shuffle_on(*old(self), *final(self)),
            old(self).original() is Some ==> shuffle_off(*old(self), *final(self)),
            final(self).tracks().len() == old(self).tracks().len(),
    {
        let ghost s0 = self.track@;
        match self.original_track.take() {
            Some(o) => {
                proof {
                    lemma_ids_len(views(o@));
                    lemma_ids_len(views(s0));
                }
                let current_id = match self.current_index {
                    Some(i) => {
                        if i < self.track.len() {
                            Some(self.track[i].id)
                        } else {
                            None
                        }
                    },
                    None => None,
                };
                self.track = o;
                match current_id {
                    Some(id) => {
                        self.current_index = position_of_id(&self.track, id);
                    },
                    None => {},
                }
            },
            None => {
                let ghost s = self.track@;
                if self.track.len() > 0 {
                    self.original_track = Some(clone_tracks(&self.track));
                    match self.current_index {
                        Some(c) => {
                            let item = self.track.remove(c);
                            let ghost rest = self.track@;
                            shuffle_from(&mut self.track, 0);
                            proof {
                                assert(self.track@.skip(0) =~= self.track@);
                                assert(rest.skip(0) =~= rest);
                                lemma_multiset_insert(self.track@, 0, item);
                                assert(s.remove(c as int).insert(c as int, s[c as int]) =~= s);
                                lemma_multiset_insert(rest, c as int, item);
                            }
                            self.track.insert(0, item);
                            self.current_index = Some(0);
                        },
                        None => {
                            shuffle_from(&mut self.track, 0);
                            proof {
                                assert(self.track@.skip(0) =~= self.track@);
                                assert(s.skip(0) =~= s);
                            }
                        },
                    }
                    proof {
                        lemma_ids_perm(self.track@, s);
                    }
                }
            },
        }
    }

    /// Whether the track at `index` of `total_count` tracks is shown as first
    /// and as last to the system's media controls; with repeat on, neither.
    pub fn media_boundaries(&self, index: usize, total_count: usize) -> (r: (bool, bool))
        requires
            total_count > 0,
        ensures
            r == (if self.repeat() == RepeatMode::Off {
                (index == 0, index == total_count - 1)
            } else {
                (false, false)
            }),
    {
        match self.repeat_mode {
            RepeatMode::All | RepeatMode::One => (false, false),
            _ => (index == 0, index == total_count - 1),
        }
    }
}

/// Whether the end of stream `ended_stream` still concerns the queue: a stream
/// was playing and it is still the current one (the user did not move on).
pub fn track_end_applies(ended_stream: u32, current_stream: u32) -> (r: bool)
    ensures
        r == (ended_stream != 0 && current_stream == ended_stream),
{
    ended_stream != 0 && current_stream == ended_stream
}

/// Turning shuffle on and then off again gives back the queue in its former
/// order; the current index goes to the first track with the current track's
/// id, which is the current track itself when the ids in the queue are distinct.
pub proof fn law_shuffle_round_trip(a: MusicPlayer, b: MusicPlayer, c: MusicPlayer)
    requires
        a.wf(),
        a.original() is None,
        a.tracks().len() > 0,
        shuffle_on(a, b),
        shuffle_off(b, c),
    ensures
        views(c.tracks()) == views(a.tracks()),
        c.original() is None,
        c.repeat() == a.repeat(),
        a.current() matches Some(i) ==> c.current() == first_with_id(
            views(a.tracks()),
            a.tracks()[i as int].id,
        ),
        a.current() matches Some(i) ==> ((forall|j: int, k: int|
            0 <= j < a.tracks().len() && 0 <= k < a.tracks().len() && j != k
                ==> (#[trigger] a.tracks()[j]).id != (#[trigger] a.tracks()[k]).id)
            ==> c.current() == Some(i)),
        a.current() is None ==> c.current() is None,
{
    broadcast use vstd::seq_lib::group_to_multiset_ensures;

    assert(b.tracks().len() == a.tracks().len()) by {
        assert(b.tracks().to_multiset().len() == a.tracks().to_multiset().len());
    }
    if let Some(i) = a.current() {
        let v = views(a.tracks());
        let id = a.tracks()[i as int].id;
        assert(v[i as int].id == id);
        if forall|j: int, k: int|
            0 <= j < a.tracks().len() && 0 <= k < a.tracks().len() && j != k
                ==> (#[trigger] a.tracks()[j]).id != (#[trigger] a.tracks()[k]).id {
            let w = choose|w: int|
                0 <= w < v.len() && (#[trigger] v[w]).id == id && forall|j: int|
                    0 <= j < w ==> (#[trigger] v[j]).id != id;
            assert(exists|w: int| 0 <= w < v.len() && (#[trigger] v[w]).id == id);
            lemma_least_with_id(v, id, i as int);
            if w != i {
                assert(a.tracks()[w].id != a.tracks()[i as int].id);
            }
        }
    }
}

/// "Next" moves one track forward whenever there is a following track, in
/// every repeat mode, unless a track ends by itself under `RepeatMode::One`
/// (which replays it).
pub proof fn law_next_moves_forward(c: usize, mode: RepeatMode, len: nat, from_user: bool)
    requires
        c + 1 < len,
        from_user || mode != RepeatMode::One,
    ensures
        next_index_of(Some(c), mode, len, from_user) == Some((c + 1) as usize),
{
}

/// From the last track, "next" wraps around to the first track with
/// `RepeatMode::All`; otherwise nothing follows (a user's "next" under
/// `RepeatMode::One` included).
pub proof fn law_next_wraps_only_at_end(c: usize, mode: RepeatMode, len: nat, from_user: bool)
    requires
        c + 1 == len,
        from_user || mode != RepeatMode::One,
    ensures
        next_index_of(Some(c), mode, len, from_user) == (if mode == RepeatMode::All {
            Some(0usize)
        } else {
            None
        }),
{
}

/// Seen from the queue: with a current track that has a following one,
/// `get_next_index(true)` names that following track.
pub proof fn law_user_next_is_following_track(p: MusicPlayer, c: usize)
    requires
        p.current() == Some(c),
        c + 1 < p.tracks().len(),
    ensures
        next_index_of(p.current(), p.repeat(), p.tracks().len(), true) == Some((c + 1) as usize),
{
}

/// "Previous" from any track but the first goes to the track just before it,
/// in every repeat mode.
pub proof fn law_previous_steps_back(c: usize, mode: RepeatMode, len: nat)
    requires
        0 < c < len,
    ensures
        previous_index_of(Some(c), mode, len) == Some((c - 1) as usize),
{
}

/// "Previous" from the first track stays there without repeat and goes to
/// the last track with repeat.
pub proof fn law_previous_from_first(mode: RepeatMode, len: nat)
    requires
        0 < len,
        len <= usize::MAX,
    ensures
        previous_index_of(Some(0usize), mode, len) == (if mode == RepeatMode::Off {
            Some(0usize)
        } else {
            Some((len - 1) as usize)
        }),
{
}

/// Turning shuffle on or off keeps the number of tracks in the queue, also
/// when tracks were added or removed while it was shuffled: the pre-shuffle
/// order always holds the same tracks, counted by id, as the queue.
pub proof fn law_shuffle_keeps_count(p: MusicPlayer, q: MusicPlayer)
    requires
        p.wf(),
        p.original() is None ==> shuffle_on(p, q),
        p.original() is Some ==> shuffle_off(p, q),
    ensures
        q.tracks().len() == p.tracks().len(),
{
    if let Some(o) = p.original() {
        lemma_ids_len(o);
        lemma_ids_len(views(p.tracks()));
        assert(views(q.tracks()).len() == q.tracks().len());
        assert(views(p.tracks()).len() == p.tracks().len());
    } else if p.tracks().len() > 0 {
        assert(q.tracks().to_multiset().len() == q.tracks().len());
        assert(p.tracks().to_multiset().len() == p.tracks().len());
    }
}

/// With `RepeatMode::All` a queue never runs out: from a current track,
/// the next index always exists and points into the queue.
pub proof fn law_repeat_all_never_ends(current: usize, len: nat, from_user: bool)
    requires
        current < len,
    ensures
        next_index_of(Some(current), RepeatMode::All, len, from_user) matches Some(i) && i < len,
{
}

/// When a track ends by itself under `RepeatMode::One`, the same track plays again.
pub proof fn law_repeat_one_repeats(current: usize, len: nat)
    ensures
        next_index_of(Some(current), RepeatMode::One, len, false) == Some(current),
{
}

/// "Previous" from a track in the queue stays in the queue.
pub proof fn law_previous_stays_in_queue(current: usize, mode: RepeatMode, len: nat)
    requires
        current < len,
    ensures
        previous_index_of(Some(current), mode, len) matches Some(i) && i < len,
{
}

} // verus!
