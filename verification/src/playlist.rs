//! Playlists and the store that holds them.
//!
//! A playlist is a named, ordered list of song identities. The store keeps
//! every playlist, the playlist identities ordered by name (ignoring case),
//! and a revision number that grows with every change, so that views built
//! from the store can tell when they are stale.
use vstd::prelude::*;
use crate::song::SongId;
use crate::text::{chars_of, contains_str, has_substring, str_lowercase, spec_str_lowercase, seq_lt, str_lt, str_eq, lemma_seq_lt_total, lemma_seq_lt_transitive, lemma_seq_lt_asymmetric, lemma_seq_lt_irreflexive};

verus! {

/// The identity of a playlist: the 128 bits of a random (version 4) UUID.
#[derive(Clone, Copy, PartialEq, Eq, Structural, Hash, Debug)]
pub struct PlaylistId(pub u128);

/// Trusted: calls `uuid::Uuid::new_v4` and returns its 128 bits. The result
/// is random, so nothing is stated of it.
#[verifier::external_body]
pub(crate) fn random_uuid_bits() -> u128 {
    uuid::Uuid::new_v4().as_u128()
}

impl PlaylistId {
    /// A fresh, random playlist identity.
    pub fn new() -> PlaylistId {
        PlaylistId(random_uuid_bits())
    }
}

/// The songs of `s` other than `x`, in order.
pub open spec fn without(s: Seq<SongId>, x: SongId) -> Seq<SongId> {
    s.filter(|y: SongId| y != x)
}

/// The songs of `s` that occur in `known`, in order.
pub open spec fn kept(s: Seq<SongId>, known: Seq<SongId>) -> Seq<SongId> {
    s.filter(|y: SongId| known.contains(y))
}

/// `s` with every `old` replaced by `new`.
pub open spec fn renamed(s: Seq<SongId>, old: SongId, new: SongId) -> Seq<SongId> {
    s.map_values(|y: SongId| if y == old { new } else { y })
}

/// `s` with the element at `from` moved to position `to`.
pub open spec fn moved(s: Seq<SongId>, from: int, to: int) -> Seq<SongId> {
    s.remove(from).insert(to, s[from])
}

/// A named, ordered list of songs. A song may appear more than once.
pub struct Playlist {
    id: PlaylistId,
    name: String,
    songs: Vec<SongId>,
}

impl Playlist {
    /// The playlist's identity.
    pub closed spec fn view_id(&self) -> PlaylistId {
        self.id
    }

    /// The playlist's name.
    pub closed spec fn view_name(&self) -> Seq<char> {
        self.name@
    }

    /// The playlist's songs, in order.
    pub closed spec fn view_songs(&self) -> Seq<SongId> {
        self.songs@
    }

    /// An empty playlist.
    pub fn new(id: PlaylistId, name: String) -> (p: Playlist)
        ensures
            p.view_id() == id,
            p.view_name() == name@,
            p.view_songs() == Seq::<SongId>::empty(),
    {
        Playlist { id, name, songs: Vec::new() }
    }

    /// A playlist holding the given songs.
    pub fn from_songs(id: PlaylistId, name: String, songs: Vec<SongId>) -> (p: Playlist)
        ensures
            p.view_id() == id,
            p.view_name() == name@,
            p.view_songs() == songs@,
    {
        Playlist { id, name, songs }
    }

    /// The playlist's identity.
    pub fn id(&self) -> (id: PlaylistId)
        ensures
            id == self.view_id(),
    {
        self.id
    }

    /// The playlist's name.
    pub fn name(&self) -> (n: &str)
        ensures
            n@ == self.view_name(),
    {
        self.name.as_str()
    }

    /// Gives the playlist a new name; its songs are unchanged.
    pub fn rename(&mut self, name: String)
        ensures
            final(self).view_id() == old(self).view_id(),
            final(self).view_name() == name@,
            final(self).view_songs() == old(self).view_songs(),
    {
        self.name = name;
    }

    /// The songs, in order.
    pub fn songs(&self) -> (s: &[SongId])
        ensures
            s@ == self.view_songs(),
    {
        self.songs.as_slice()
    }

    /// The number of songs.
    pub fn len(&self) -> (n: usize)
        ensures
            n == self.view_songs().len(),
    {
        self.songs.len()
    }

    /// Whether the playlist has no songs.
    pub fn is_empty(&self) -> (b: bool)
        ensures
            b == (self.view_songs().len() == 0),
    {
        self.songs.len() == 0
    }

    /// Appends a song at the end.
    pub fn add(&mut self, song: SongId)
        ensures
            final(self).view_id() == old(self).view_id(),
            final(self).view_name() == old(self).view_name(),
            final(self).view_songs() == old(self).view_songs().push(song),
    {
        self.songs.push(song);
    }

    /// Removes and returns the song at `position`, or does nothing and
    /// returns `None` when there is no such position.
    pub fn remove_at(&mut self, position: usize) -> (r: Option<SongId>)
        ensures
            final(self).view_id() == old(self).view_id(),
            final(self).view_name() == old(self).view_name(),
            position < old(self).view_songs().len() ==> {
                &&& r == Some(old(self).view_songs()[position as int])
                &&& final(self).view_songs() == old(self).view_songs().remove(position as int)
            },
            position >= old(self).view_songs().len() ==> {
                &&& r is None
                &&& final(self).view_songs() == old(self).view_songs()
            },
    {
        if position < self.songs.len() {
            Some(self.songs.remove(position))
        } else {
            None
        }
    }

    /// Removes every occurrence of `song`, keeping the others in order.
    pub fn remove_all(&mut self, song: SongId)
        ensures
            final(self).view_id() == old(self).view_id(),
            final(self).view_name() == old(self).view_name(),
            final(self).view_songs() == without(old(self).view_songs(), song),
    {
        let ghost orig = self.songs@;
        let mut out: Vec<SongId> = Vec::new();
        let mut i: usize = 0;
        while i < self.songs.len()
            invariant
                self.songs@ == orig,
                i <= orig.len(),
                out@ == without(orig.take(i as int), song),
            decreases orig.len() - i,
        {
            let x = self.songs[i];
            proof {
                reveal_with_fuel(Seq::<_>::filter, 1);
                assert(orig.take(i + 1).drop_last() =~= orig.take(i as int));
            }
            if x != song {
                out.push(x);
            }
            i = i + 1;
        }
        assert(orig.take(orig.len() as int) =~= orig);
        self.songs = out;
    }

    /// Whether the playlist holds `song`.
    pub fn contains(&self, song: SongId) -> (b: bool)
        ensures
            b == self.view_songs().contains(song),
    {
        let mut i: usize = 0;
        while i < self.songs.len()
            invariant
                i <= self.songs@.len(),
                forall|k: int| 0 <= k < i ==> self.songs@[k] != song,
            decreases self.songs@.len() - i,
        {
            if self.songs[i] == song {
                return true;
            }
            i = i + 1;
        }
        false
    }

    /// Moves the song at `from` to position `to`; does nothing unless both
    /// positions are within the playlist.
    pub fn move_to(&mut self, from: usize, to: usize)
        ensures
            final(self).view_id() == old(self).view_id(),
            final(self).view_name() == old(self).view_name(),
            from < old(self).view_songs().len() && to < old(self).view_songs().len()
                ==> final(self).view_songs() == moved(old(self).view_songs(), from as int, to as int),
            !(from < old(self).view_songs().len() && to < old(self).view_songs().len())
                ==> final(self).view_songs() == old(self).view_songs(),
    {
        if from >= self.songs.len() || to >= self.songs.len() {
            return;
        }
        let song = self.songs.remove(from);
        self.songs.insert(to, song);
    }

    /// Keeps only the songs that occur in `known`, in order.
    pub fn retain_songs(&mut self, known: &[SongId])
        ensures
            final(self).view_id() == old(self).view_id(),
            final(self).view_name() == old(self).view_name(),
            final(self).view_songs() == kept(old(self).view_songs(), known@),
    {
        let ghost orig = self.songs@;
        let mut out: Vec<SongId> = Vec::new();
        let mut i: usize = 0;
        while i < self.songs.len()
            invariant
                self.songs@ == orig,
                i <= orig.len(),
                out@ == kept(orig.take(i as int), known@),
            decreases orig.len() - i,
        {
            let x = self.songs[i];
            proof {
                reveal_with_fuel(Seq::<_>::filter, 1);
                assert(orig.take(i + 1).drop_last() =~= orig.take(i as int));
            }
            if slice_contains(known, x) {
                out.push(x);
            }
            i = i + 1;
        }
        assert(orig.take(orig.len() as int) =~= orig);
        self.songs = out;
    }

    /// A copy of the playlist.
    pub fn clone_playlist(&self) -> (p: Playlist)
        ensures
            p.view_id() == self.view_id(),
            p.view_name() == self.view_name(),
            p.view_songs() == self.view_songs(),
    {
        Playlist { id: self.id, name: self.name.clone(), songs: self.songs.clone() }
    }

    /// Replaces every occurrence of `old_id` by `new_id`.
    pub fn rename_song_id(&mut self, old_id: SongId, new_id: SongId)
        ensures
            final(self).view_id() == old(self).view_id(),
            final(self).view_name() == old(self).view_name(),
            final(self).view_songs() == renamed(old(self).view_songs(), old_id, new_id),
    {
        let ghost orig = self.songs@;
        let mut i: usize = 0;
        while i < self.songs.len()
            invariant
                self.id == old(self).id,
                self.name == old(self).name,
                self.songs@.len() == orig.len(),
                i <= orig.len(),
                forall|k: int| 0 <= k < i ==> self.songs@[k] == (if orig[k] == old_id { new_id } else { orig[k] }),
                forall|k: int| i <= k < orig.len() ==> self.songs@[k] == orig[k],
            decreases orig.len() - i,
        {
            if self.songs[i] == old_id {
                self.songs.set(i, new_id);
            }
            i = i + 1;
        }
        assert(self.songs@ =~= renamed(orig, old_id, new_id));
    }
}

/// Whether `x` occurs in `s`.
pub fn slice_contains(s: &[SongId], x: SongId) -> (b: bool)
    ensures
        b == s@.contains(x),
{
    let mut i: usize = 0;
    while i < s.len()
        invariant
            i <= s@.len(),
            forall|k: int| 0 <= k < i ==> s@[k] != x,
        decreases s@.len() - i,
    {
        if s[i] == x {
            return true;
        }
        i = i + 1;
    }
    false
}


/// A sort key: a lowercase name and the bits of a playlist identity.
pub open spec fn key_le(a: (Seq<char>, u128), b: (Seq<char>, u128)) -> bool {
    seq_lt(a.0, b.0) || (a.0 == b.0 && a.1 <= b.1)
}

/// Strictly-before on sort keys.
pub open spec fn key_lt(a: (Seq<char>, u128), b: (Seq<char>, u128)) -> bool {
    seq_lt(a.0, b.0) || (a.0 == b.0 && a.1 < b.1)
}

/// Sort keys are totally ordered.
pub proof fn lemma_key_not_lt(a: (Seq<char>, u128), b: (Seq<char>, u128))
    requires
        !key_lt(a, b),
    ensures
        key_le(b, a),
{
    if a.0 != b.0 {
        lemma_seq_lt_total(a.0, b.0);
    }
}

/// Before-or-equal on sort keys is transitive.
pub proof fn lemma_key_le_transitive(a: (Seq<char>, u128), b: (Seq<char>, u128), c: (Seq<char>, u128))
    requires
        key_le(a, b),
        key_le(b, c),
    ensures
        key_le(a, c),
{
    if seq_lt(a.0, b.0) && seq_lt(b.0, c.0) {
        lemma_seq_lt_transitive(a.0, b.0, c.0);
    }
}

/// Whether some playlist in `ps` has identity `id`.
pub open spec fn has_id(ps: Seq<Playlist>, id: PlaylistId) -> bool {
    exists|i: int| 0 <= i < ps.len() && (#[trigger] ps[i]).view_id() == id
}

/// No two playlists in `ps` share an identity.
pub open spec fn ids_unique(ps: Seq<Playlist>) -> bool {
    forall|i: int, j: int|
        0 <= i < ps.len() && 0 <= j < ps.len() && i != j ==> (#[trigger] ps[i]).view_id() != (#[trigger] ps[j]).view_id()
}

/// The position of the playlist with identity `id`.
pub open spec fn index_of(ps: Seq<Playlist>, id: PlaylistId) -> int {
    choose|i: int| 0 <= i < ps.len() && (#[trigger] ps[i]).view_id() == id
}

/// A playlist's name and songs.
pub open spec fn entry_of(p: Playlist) -> (Seq<char>, Seq<SongId>) {
    (p.view_name(), p.view_songs())
}

/// The playlists as a map from identity to name and songs.
pub open spec fn map_of(ps: Seq<Playlist>) -> Map<PlaylistId, (Seq<char>, Seq<SongId>)> {
    Map::new(|id: PlaylistId| has_id(ps, id), |id: PlaylistId| entry_of(ps[index_of(ps, id)]))
}

/// The sort key of a playlist in a store's map: its lowercase name, then its
/// identity.
pub open spec fn name_key(m: Map<PlaylistId, (Seq<char>, Seq<SongId>)>, id: PlaylistId) -> (Seq<char>, u128) {
    (spec_str_lowercase(m[id].0), id.0)
}

/// `ids` lists every playlist of `m` exactly once, ordered by lowercase name
/// and then by identity.
pub open spec fn sorted_by_name(m: Map<PlaylistId, (Seq<char>, Seq<SongId>)>, ids: Seq<PlaylistId>) -> bool {
    &&& ids.no_duplicates()
    &&& forall|i: int| 0 <= i < ids.len() ==> m.contains_key(#[trigger] ids[i])
    &&& forall|id: PlaylistId| m.contains_key(id) ==> ids.contains(id)
    &&& forall|i: int, j: int| 0 <= i < j < ids.len() ==> key_le(name_key(m, #[trigger] ids[i]), name_key(m, #[trigger] ids[j]))
}

/// The playlist at position `k` is what the map holds for its identity.
pub proof fn lemma_map_at(ps: Seq<Playlist>, k: int)
    requires
        ids_unique(ps),
        0 <= k < ps.len(),
    ensures
        map_of(ps).contains_key(ps[k].view_id()),
        map_of(ps)[ps[k].view_id()] == entry_of(ps[k]),
        index_of(ps, ps[k].view_id()) == k,
{
    let id = ps[k].view_id();
    assert(has_id(ps, id));
    let j = index_of(ps, id);
    assert(ps[j].view_id() == id);
}

/// Replacing a playlist by one with the same identity updates its entry.
pub proof fn lemma_map_update(ps: Seq<Playlist>, k: int, p: Playlist)
    requires
        ids_unique(ps),
        0 <= k < ps.len(),
        p.view_id() == ps[k].view_id(),
    ensures
        ids_unique(ps.update(k, p)),
        map_of(ps.update(k, p)) == map_of(ps).insert(p.view_id(), entry_of(p)),
{
    let qs = ps.update(k, p);
    assert(ids_unique(qs)) by {
        assert forall|i: int, j: int| 0 <= i < qs.len() && 0 <= j < qs.len() && i != j implies
            (#[trigger] qs[i]).view_id() != (#[trigger] qs[j]).view_id() by {
            assert(ps[i].view_id() != ps[j].view_id());
        }
    }
    let m = map_of(ps).insert(p.view_id(), entry_of(p));
    assert forall|id: PlaylistId| #[trigger] map_of(qs).contains_key(id) <==> m.contains_key(id) by {
        if has_id(qs, id) {
            let i = choose|i: int| 0 <= i < qs.len() && (#[trigger] qs[i]).view_id() == id;
            if i != k {
                assert(ps[i].view_id() == id);
            }
        }
        if has_id(ps, id) {
            let i = choose|i: int| 0 <= i < ps.len() && (#[trigger] ps[i]).view_id() == id;
            assert(qs[i].view_id() == id);
        }
        if id == p.view_id() {
            assert(qs[k].view_id() == id);
        }
    }
    assert forall|id: PlaylistId| #[trigger] map_of(qs).contains_key(id) implies map_of(qs)[id] == m[id] by {
        let i = choose|i: int| 0 <= i < qs.len() && (#[trigger] qs[i]).view_id() == id;
        lemma_map_at(qs, i);
        if i != k {
            assert(ps[i] == qs[i]);
            lemma_map_at(ps, i);
        }
    }
    assert(map_of(qs) =~= m);
}

/// Adding a playlist with a new identity adds its entry.
pub proof fn lemma_map_push(ps: Seq<Playlist>, p: Playlist)
    requires
        ids_unique(ps),
        !has_id(ps, p.view_id()),
    ensures
        ids_unique(ps.push(p)),
        map_of(ps.push(p)) == map_of(ps).insert(p.view_id(), entry_of(p)),
{
    let qs = ps.push(p);
    let n = ps.len() as int;
    assert(ids_unique(qs)) by {
        assert forall|i: int, j: int| 0 <= i < qs.len() && 0 <= j < qs.len() && i != j implies
            (#[trigger] qs[i]).view_id() != (#[trigger] qs[j]).view_id() by {
            if i < n && j < n {
                assert(ps[i].view_id() != ps[j].view_id());
            } else if i < n {
                assert(ps[i].view_id() != p.view_id());
            } else {
                assert(ps[j].view_id() != p.view_id());
            }
        }
    }
    let m = map_of(ps).insert(p.view_id(), entry_of(p));
    assert forall|id: PlaylistId| #[trigger] map_of(qs).contains_key(id) <==> m.contains_key(id) by {
        if has_id(qs, id) {
            let i = choose|i: int| 0 <= i < qs.len() && (#[trigger] qs[i]).view_id() == id;
            if i < n {
                assert(ps[i].view_id() == id);
            }
        }
        if has_id(ps, id) {
            let i = choose|i: int| 0 <= i < ps.len() && (#[trigger] ps[i]).view_id() == id;
            assert(qs[i].view_id() == id);
        }
        if id == p.view_id() {
            assert(qs[n].view_id() == id);
        }
    }
    assert forall|id: PlaylistId| #[trigger] map_of(qs).contains_key(id) implies map_of(qs)[id] == m[id] by {
        let i = choose|i: int| 0 <= i < qs.len() && (#[trigger] qs[i]).view_id() == id;
        lemma_map_at(qs, i);
        if i < n {
            assert(ps[i] == qs[i]);
            lemma_map_at(ps, i);
        }
    }
    assert(map_of(qs) =~= m);
}

/// Removing a playlist removes its entry.
pub proof fn lemma_map_remove(ps: Seq<Playlist>, k: int)
    requires
        ids_unique(ps),
        0 <= k < ps.len(),
    ensures
        ids_unique(ps.remove(k)),
        map_of(ps.remove(k)) == map_of(ps).remove(ps[k].view_id()),
{
    let qs = ps.remove(k);
    let gone = ps[k].view_id();
    assert(ids_unique(qs)) by {
        assert forall|i: int, j: int| 0 <= i < qs.len() && 0 <= j < qs.len() && i != j implies
            (#[trigger] qs[i]).view_id() != (#[trigger] qs[j]).view_id() by {
            let pi = if i < k { i } else { i + 1 };
            let pj = if j < k { j } else { j + 1 };
            assert(qs[i] == ps[pi]);
            assert(qs[j] == ps[pj]);
            assert(ps[pi].view_id() != ps[pj].view_id());
        }
    }
    let m = map_of(ps).remove(gone);
    assert forall|id: PlaylistId| #[trigger] map_of(qs).contains_key(id) <==> m.contains_key(id) by {
        if has_id(qs, id) {
            let i = choose|i: int| 0 <= i < qs.len() && (#[trigger] qs[i]).view_id() == id;
            let pi = if i < k { i } else { i + 1 };
            assert(qs[i] == ps[pi]);
            assert(ps[pi].view_id() != ps[k].view_id());
        }
        if has_id(ps, id) && id != gone {
            let i = choose|i: int| 0 <= i < ps.len() && (#[trigger] ps[i]).view_id() == id;
            if i < k {
                assert(qs[i] == ps[i]);
            } else {
                assert(i != k);
                assert(qs[i - 1] == ps[i]);
            }
        }
    }
    assert forall|id: PlaylistId| #[trigger] map_of(qs).contains_key(id) implies map_of(qs)[id] == m[id] by {
        let i = choose|i: int| 0 <= i < qs.len() && (#[trigger] qs[i]).view_id() == id;
        lemma_map_at(qs, i);
        let pi = if i < k { i } else { i + 1 };
        assert(qs[i] == ps[pi]);
        lemma_map_at(ps, pi);
    }
    assert(map_of(qs) =~= m);
}

/// Sortedness by name survives any change that keeps the identities and the
/// names.
pub proof fn lemma_sorted_same_names(
    m: Map<PlaylistId, (Seq<char>, Seq<SongId>)>,
    m2: Map<PlaylistId, (Seq<char>, Seq<SongId>)>,
    ids: Seq<PlaylistId>,
)
    requires
        sorted_by_name(m, ids),
        m.dom() == m2.dom(),
        forall|id: PlaylistId| m.contains_key(id) ==> (#[trigger] m2[id]).0 == m[id].0,
    ensures
        sorted_by_name(m2, ids),
{
    assert forall|i: int, j: int| 0 <= i < j < ids.len() implies key_le(name_key(m2, #[trigger] ids[i]), name_key(m2, #[trigger] ids[j])) by {
        assert(key_le(name_key(m, ids[i]), name_key(m, ids[j])));
        assert(m.contains_key(ids[i]));
        assert(m.contains_key(ids[j]));
    }
    assert forall|id: PlaylistId| m2.contains_key(id) implies ids.contains(id) by {
        assert(m.dom().contains(id));
    }
}


/// How a freshly loaded set of playlists was cleaned up.
#[derive(Clone, Copy, Debug)]
pub struct PruneStats {
    /// How many playlists were loaded.
    pub playlists_loaded: usize,
    /// How many song entries were dropped because the library no longer
    /// holds those songs.
    pub songs_removed: usize,
}

/// Every playlist, the playlist identities ordered by name, a revision
/// number that grows with every change, and whether there are changes that
/// have not been saved yet.
pub struct PlaylistStore {
    playlists: Vec<Playlist>,
    sorted_ids: Vec<PlaylistId>,
    revision: u64,
    dirty: bool,
}

impl View for PlaylistStore {
    type V = Map<PlaylistId, (Seq<char>, Seq<SongId>)>;

    closed spec fn view(&self) -> Self::V {
        map_of(self.playlists@)
    }
}

impl PlaylistStore {
    /// The playlist identities in name order.
    pub closed spec fn sorted_view(&self) -> Seq<PlaylistId> {
        self.sorted_ids@
    }

    /// The revision number.
    pub closed spec fn revision_view(&self) -> u64 {
        self.revision
    }

    /// Whether there are unsaved changes.
    pub closed spec fn dirty_view(&self) -> bool {
        self.dirty
    }

    /// The store is consistent: identities are unique and the name order
    /// lists every playlist exactly once, sorted.
    pub closed spec fn wf(&self) -> bool {
        &&& ids_unique(self.playlists@)
        &&& sorted_by_name(map_of(self.playlists@), self.sorted_ids@)
    }

    /// A store with no playlists.
    pub fn empty() -> (s: PlaylistStore)
        ensures
            s.wf(),
            s@ == Map::<PlaylistId, (Seq<char>, Seq<SongId>)>::empty(),
            s.sorted_view() == Seq::<PlaylistId>::empty(),
            s.revision_view() == 0,
            !s.dirty_view(),
    {
        let s = PlaylistStore { playlists: Vec::new(), sorted_ids: Vec::new(), revision: 0, dirty: false };
        assert(map_of(s.playlists@) =~= Map::empty());
        s
    }

    /// The revision number; it grows with every change to the store.
    pub fn revision(&self) -> (r: u64)
        ensures
            r == self.revision_view(),
    {
        self.revision
    }

    /// Whether there are changes that have not been saved.
    pub fn is_dirty(&self) -> (b: bool)
        ensures
            b == self.dirty_view(),
    {
        self.dirty
    }

    /// Records that the store has been saved.
    pub fn mark_saved(&mut self)
        requires
            old(self).wf(),
        ensures
            final(self).wf(),
            final(self)@ == old(self)@,
            final(self).sorted_view() == old(self).sorted_view(),
            final(self).revision_view() == old(self).revision_view(),
            !final(self).dirty_view(),
    {
        self.dirty = false;
    }

    /// The position of the playlist with identity `id`, if there is one.
    fn find(&self, id: PlaylistId) -> (r: Option<usize>)
        requires
            ids_unique(self.playlists@),
        ensures
            r matches Some(i) ==> i < self.playlists@.len() && self.playlists@[i as int].view_id() == id,
            r is None <==> !has_id(self.playlists@, id),
    {
        let mut i: usize = 0;
        while i < self.playlists.len()
            invariant
                i <= self.playlists@.len(),
                forall|k: int| 0 <= k < i ==> (#[trigger] self.playlists@[k]).view_id() != id,
            decreases self.playlists@.len() - i,
        {
            if self.playlists[i].id() == id {
                return Some(i);
            }
            i = i + 1;
        }
        None
    }

    /// The playlist with identity `id`, if there is one.
    pub fn get(&self, id: PlaylistId) -> (r: Option<&Playlist>)
        requires
            self.wf(),
        ensures
            r is Some <==> self@.contains_key(id),
            r matches Some(p) ==> p.view_id() == id && entry_of(*p) == self@[id],
    {
        match self.find(id) {
            Some(i) => {
                proof {
                    lemma_map_at(self.playlists@, i as int);
                }
                Some(&self.playlists[i])
            },
            None => None,
        }
    }

    /// The number of playlists.
    pub fn len(&self) -> (n: usize)
        requires
            self.wf(),
        ensures
            n == self@.dom().len(),
    {
        proof {
            lemma_dom_len(self.playlists@);
        }
        self.playlists.len()
    }

    /// Whether the store holds no playlists.
    pub fn is_empty(&self) -> (b: bool)
        requires
            self.wf(),
        ensures
            b == (self@.dom().len() == 0),
    {
        proof {
            lemma_dom_len(self.playlists@);
        }
        self.playlists.len() == 0
    }

    /// The playlist identities, ordered by lowercase name and then by
    /// identity.
    pub fn ids_sorted_by_name(&self) -> (r: &[PlaylistId])
        requires
            self.wf(),
        ensures
            r@ == self.sorted_view(),
            sorted_by_name(self@, r@),
    {
        self.sorted_ids.as_slice()
    }

    /// Recomputes the name order and advances the revision.
    fn reindex(&mut self)
        requires
            ids_unique(old(self).playlists@),
            old(self).revision < u64::MAX,
        ensures
            final(self).wf(),
            final(self).playlists@ == old(self).playlists@,
            final(self).revision == old(self).revision + 1,
            final(self).dirty == old(self).dirty,
    {
        let ghost ps = self.playlists@;
        let ghost m = map_of(ps);
        let n = self.playlists.len();
        let mut out: Vec<(String, PlaylistId)> = Vec::new();
        let ghost mut src: Seq<int> = Seq::empty();
        let mut i: usize = 0;
        while i < n
            invariant
                self.playlists@ == ps,
                m == map_of(ps),
                ids_unique(ps),
                n == ps.len(),
                i <= n,
                out@.len() == i,
                src.len() == i,
                src.no_duplicates(),
                forall|q: int| 0 <= q < src.len() ==> 0 <= #[trigger] src[q] < i,
                forall|k: int| 0 <= k < i ==> src.contains(k),
                forall|q: int| 0 <= q < out@.len() ==> (#[trigger] out@[q]).1 == ps[src[q]].view_id(),
                forall|q: int| 0 <= q < out@.len() ==> (#[trigger] out@[q]).0@ == spec_str_lowercase(ps[src[q]].view_name()),
                forall|a: int, b: int| 0 <= a < b < out@.len() ==>
                    key_le((#[trigger] out@[a].0@, out@[a].1.0), (#[trigger] out@[b].0@, out@[b].1.0)),
            decreases n - i,
        {
            let key = str_lowercase(self.playlists[i].name());
            let id = self.playlists[i].id();
            let ghost nk = (key@, id.0);
            let mut pos: usize = 0;
            while pos < out.len() && !entry_lt(key.as_str(), id, &out[pos])
                invariant
                    nk == (key@, id.0),
                    pos <= out@.len(),
                    forall|q: int| 0 <= q < pos ==> key_le((#[trigger] out@[q].0@, out@[q].1.0), nk),
                decreases out@.len() - pos,
            {
                proof {
                    lemma_key_not_lt(nk, (out@[pos as int].0@, out@[pos as int].1.0));
                }
                pos = pos + 1;
            }
            let ghost old_out = out@;
            let ghost old_src = src;
            out.insert(pos, (key, id));
            proof {
                src = old_src.insert(pos as int, i as int);
                assert forall|q: int| 0 <= q < out@.len() implies (#[trigger] out@[q]).1 == ps[src[q]].view_id() by {
                    if q < pos {
                        assert(out@[q] == old_out[q]);
                    } else if q > pos {
                        assert(out@[q] == old_out[q - 1]);
                    }
                }
                assert forall|q: int| 0 <= q < out@.len() implies (#[trigger] out@[q]).0@ == spec_str_lowercase(ps[src[q]].view_name()) by {
                    if q < pos {
                        assert(out@[q] == old_out[q]);
                    } else if q > pos {
                        assert(out@[q] == old_out[q - 1]);
                    }
                }
                assert forall|q: int| 0 <= q < src.len() implies 0 <= #[trigger] src[q] < i + 1 by {
                    if q < pos {
                        assert(src[q] == old_src[q]);
                    } else if q > pos {
                        assert(src[q] == old_src[q - 1]);
                    }
                }
                assert(src.no_duplicates()) by {
                    assert forall|a: int, b: int| 0 <= a < src.len() && 0 <= b < src.len() && a != b implies src[a] != src[b] by {
                        let pa = if a < pos { a } else if a > pos { a - 1 } else { -1 };
                        let pb = if b < pos { b } else if b > pos { b - 1 } else { -1 };
                        if a != pos as int && b != pos as int {
                            assert(src[a] == old_src[pa]);
                            assert(src[b] == old_src[pb]);
                        } else if a == pos as int {
                            assert(src[b] == old_src[pb]);
                            assert(old_src[pb] < i);
                        } else {
                            assert(src[a] == old_src[pa]);
                            assert(old_src[pa] < i);
                        }
                    }
                }
                assert forall|k: int| 0 <= k < i + 1 implies src.contains(k) by {
                    if k == i as int {
                        assert(src[pos as int] == k);
                    } else {
                        assert(old_src.contains(k));
                        let q = choose|q: int| 0 <= q < old_src.len() && old_src[q] == k;
                        if q < pos {
                            assert(src[q] == k);
                        } else {
                            assert(src[q + 1] == k);
                        }
                    }
                }
                assert forall|a: int, b: int| 0 <= a < b < out@.len() implies
                    key_le((#[trigger] out@[a].0@, out@[a].1.0), (#[trigger] out@[b].0@, out@[b].1.0)) by {
                    let ka = (out@[a].0@, out@[a].1.0);
                    let kb = (out@[b].0@, out@[b].1.0);
                    if a < pos && b < pos {
                        assert(out@[a] == old_out[a]);
                        assert(out@[b] == old_out[b]);
                    } else if a < pos && b == pos {
                        assert(out@[a] == old_out[a]);
                    } else if a < pos && b > pos {
                        assert(out@[a] == old_out[a]);
                        assert(out@[b] == old_out[b - 1]);
                        assert(key_le(ka, nk));
                        assert(key_lt(nk, (old_out[pos as int].0@, old_out[pos as int].1.0)));
                        if pos < b - 1 {
                            lemma_key_le_transitive(nk, (old_out[pos as int].0@, old_out[pos as int].1.0), kb);
                        }
                        lemma_key_le_transitive(ka, nk, kb);
                    } else if a == pos {
                        assert(out@[b] == old_out[b - 1]);
                        assert(key_lt(nk, (old_out[pos as int].0@, old_out[pos as int].1.0)));
                        if pos < b - 1 {
                            lemma_key_le_transitive(nk, (old_out[pos as int].0@, old_out[pos as int].1.0), kb);
                        }
                    } else {
                        assert(out@[a] == old_out[a - 1]);
                        assert(out@[b] == old_out[b - 1]);
                    }
                }
            }
            i = i + 1;
        }
        let mut ids: Vec<PlaylistId> = Vec::new();
        let mut q: usize = 0;
        while q < n
            invariant
                out@.len() == n,
                q <= n,
                ids@.len() == q,
                forall|r: int| 0 <= r < q ==> ids@[r] == (#[trigger] out@[r]).1,
            decreases n - q,
        {
            ids.push(out[q].1);
            q = q + 1;
        }
        proof {
            assert forall|r: int| 0 <= r < n implies m.contains_key(#[trigger] ids@[r]) && name_key(m, ids@[r]) == (out@[r].0@, out@[r].1.0) by {
                assert(ids@[r] == out@[r].1);
                lemma_map_at(ps, src[r]);
            }
            assert(ids@.no_duplicates()) by {
                assert forall|a: int, b: int| 0 <= a < ids@.len() && 0 <= b < ids@.len() && a != b implies ids@[a] != ids@[b] by {
                    assert(ids@[a] == out@[a].1);
                    assert(ids@[b] == out@[b].1);
                    assert(src[a] != src[b]);
                    assert(ps[src[a]].view_id() != ps[src[b]].view_id());
                }
            }
            assert forall|id: PlaylistId| m.contains_key(id) implies ids@.contains(id) by {
                let k = choose|k: int| 0 <= k < ps.len() && (#[trigger] ps[k]).view_id() == id;
                assert(src.contains(k));
                let r = choose|r: int| 0 <= r < src.len() && src[r] == k;
                assert(ids@[r] == id);
            }
            assert forall|a: int, b: int| 0 <= a < b < ids@.len() implies key_le(name_key(m, #[trigger] ids@[a]), name_key(m, #[trigger] ids@[b])) by {
                assert(key_le((out@[a].0@, out@[a].1.0), (out@[b].0@, out@[b].1.0)));
                assert(name_key(m, ids@[a]) == (out@[a].0@, out@[a].1.0));
                assert(name_key(m, ids@[b]) == (out@[b].0@, out@[b].1.0));
            }
        }
        self.sorted_ids = ids;
        self.revision = self.revision + 1;
    }
}

/// Every playlist's songs with `old_id` replaced by `new_id`.
pub open spec fn map_renamed(
    m: Map<PlaylistId, (Seq<char>, Seq<SongId>)>,
    old_id: SongId,
    new_id: SongId,
) -> Map<PlaylistId, (Seq<char>, Seq<SongId>)> {
    m.map_values(|e: (Seq<char>, Seq<SongId>)| (e.0, renamed(e.1, old_id, new_id)))
}

/// Whether some playlist of `m` holds `song`.
pub open spec fn any_holds(m: Map<PlaylistId, (Seq<char>, Seq<SongId>)>, song: SongId) -> bool {
    exists|id: PlaylistId| m.contains_key(id) && (#[trigger] m[id]).1.contains(song)
}

/// The playlists that result from loading `ls` in order, dropping unknown
/// songs; a later playlist replaces an earlier one with the same identity.
pub open spec fn loaded_map(ls: Seq<Playlist>, known: Seq<SongId>) -> Map<PlaylistId, (Seq<char>, Seq<SongId>)>
    decreases ls.len(),
{
    if ls.len() == 0 {
        Map::empty()
    } else {
        let p = ls.last();
        loaded_map(ls.drop_last(), known).insert(p.view_id(), (p.view_name(), kept(p.view_songs(), known)))
    }
}

/// How many song entries of `ls` are not in `known`.
pub open spec fn removed_count(ls: Seq<Playlist>, known: Seq<SongId>) -> nat
    decreases ls.len(),
{
    if ls.len() == 0 {
        0
    } else {
        let p = ls.last();
        removed_count(ls.drop_last(), known) + (p.view_songs().len() - kept(p.view_songs(), known).len()) as nat
    }
}

impl PlaylistStore {
    /// Whether the playlist `playlist` exists and holds `song`.
    pub fn contains(&self, playlist: PlaylistId, song: SongId) -> (b: bool)
        requires
            self.wf(),
        ensures
            b == (self@.contains_key(playlist) && self@[playlist].1.contains(song)),
    {
        match self.get(playlist) {
            Some(p) => p.contains(song),
            None => false,
        }
    }

    /// The playlists that hold `song`, in name order.
    pub fn containing(&self, song: SongId) -> (r: Vec<PlaylistId>)
        requires
            self.wf(),
        ensures
            r@ == self.sorted_view().filter(|id: PlaylistId| self@[id].1.contains(song)),
    {
        let ghost sorted = self.sorted_ids@;
        let mut out: Vec<PlaylistId> = Vec::new();
        let mut i: usize = 0;
        while i < self.sorted_ids.len()
            invariant
                self.wf(),
                sorted == self.sorted_ids@,
                i <= sorted.len(),
                out@ == sorted.take(i as int).filter(|id: PlaylistId| self@[id].1.contains(song)),
            decreases sorted.len() - i,
        {
            let id = self.sorted_ids[i];
            proof {
                reveal_with_fuel(Seq::<_>::filter, 1);
                assert(sorted.take(i + 1).drop_last() =~= sorted.take(i as int));
            }
            if self.contains(id, song) {
                out.push(id);
            }
            i = i + 1;
        }
        assert(sorted.take(sorted.len() as int) =~= sorted);
        out
    }

    /// Replaces the playlist at position `i` by `p`, which has the same
    /// identity.
    fn replace_at(&mut self, i: usize, p: Playlist)
        requires
            ids_unique(old(self).playlists@),
            i < old(self).playlists@.len(),
            p.view_id() == old(self).playlists@[i as int].view_id(),
        ensures
            ids_unique(final(self).playlists@),
            final(self).playlists@ == old(self).playlists@.update(i as int, p),
            final(self)@ == old(self)@.insert(p.view_id(), entry_of(p)),
            final(self).sorted_ids == old(self).sorted_ids,
            final(self).revision == old(self).revision,
            final(self).dirty == old(self).dirty,
    {
        proof {
            lemma_map_update(self.playlists@, i as int, p);
        }
        self.playlists.set(i, p);
    }

    /// Creates an empty playlist with a fresh random identity and returns
    /// that identity.
    pub fn create(&mut self, name: String) -> (id: PlaylistId)
        requires
            old(self).wf(),
            old(self).revision_view() < u64::MAX,
        ensures
            final(self).wf(),
            final(self)@ == old(self)@.insert(id, (name@, Seq::<SongId>::empty())),
            final(self).revision_view() == old(self).revision_view() + 1,
            final(self).dirty_view(),
    {
        let id = PlaylistId::new();
        let p = Playlist::new(id, name);
        match self.find(id) {
            Some(i) => {
                self.replace_at(i, p);
            },
            None => {
                proof {
                    lemma_map_push(self.playlists@, p);
                }
                self.playlists.push(p);
            },
        }
        self.reindex();
        self.dirty = true;
        id
    }

    /// Renames the playlist `id`; `false` when there is no such playlist.
    pub fn rename(&mut self, id: PlaylistId, name: String) -> (changed: bool)
        requires
            old(self).wf(),
            old(self).revision_view() < u64::MAX,
        ensures
            final(self).wf(),
            changed == old(self)@.contains_key(id),
            changed ==> final(self)@ == old(self)@.insert(id, (name@, old(self)@[id].1)),
            changed ==> final(self).revision_view() == old(self).revision_view() + 1,
            changed ==> final(self).dirty_view(),
            !changed ==> final(self)@ == old(self)@ && final(self).sorted_view() == old(self).sorted_view()
                && final(self).revision_view() == old(self).revision_view()
                && final(self).dirty_view() == old(self).dirty_view(),
    {
        match self.find(id) {
            None => false,
            Some(i) => {
                proof {
                    lemma_map_at(self.playlists@, i as int);
                }
                let mut p = self.playlists[i].clone_playlist();
                p.rename(name);
                self.replace_at(i, p);
                self.reindex();
                self.dirty = true;
                true
            },
        }
    }

    /// Appends `song` to the playlist `id`. Returns `false`, changing
    /// nothing, when there is no such playlist or it already holds the song:
    /// adding is idempotent.
    pub fn add_song(&mut self, id: PlaylistId, song: SongId) -> (added: bool)
        requires
            old(self).wf(),
            old(self).revision_view() < u64::MAX,
        ensures
            final(self).wf(),
            added == (old(self)@.contains_key(id) && !old(self)@[id].1.contains(song)),
            added ==> final(self)@ == old(self)@.insert(id, (old(self)@[id].0, old(self)@[id].1.push(song))),
            added ==> final(self).sorted_view() == old(self).sorted_view(),
            added ==> final(self).revision_view() == old(self).revision_view() + 1,
            added ==> final(self).dirty_view(),
            !added ==> final(self)@ == old(self)@ && final(self).sorted_view() == old(self).sorted_view()
                && final(self).revision_view() == old(self).revision_view()
                && final(self).dirty_view() == old(self).dirty_view(),
    {
        let i = match self.find(id) {
            None => return false,
            Some(i) => i,
        };
        proof {
            lemma_map_at(self.playlists@, i as int);
        }
        if self.playlists[i].contains(song) {
            return false;
        }
        let mut p = self.playlists[i].clone_playlist();
        p.add(song);
        self.replace_at(i, p);
        proof {
            assert(map_of(self.playlists@).dom() =~= map_of(old(self).playlists@).dom());
            lemma_sorted_same_names(map_of(old(self).playlists@), map_of(self.playlists@), self.sorted_ids@);
        }
        self.revision = self.revision + 1;
        self.dirty = true;
        true
    }

    /// Removes every occurrence of `song` from the playlist `id`. Returns
    /// `false`, changing nothing, when there is no such playlist or it does
    /// not hold the song.
    pub fn remove_song(&mut self, id: PlaylistId, song: SongId) -> (removed: bool)
        requires
            old(self).wf(),
            old(self).revision_view() < u64::MAX,
        ensures
            final(self).wf(),
            removed == (old(self)@.contains_key(id) && old(self)@[id].1.contains(song)),
            removed ==> final(self)@ == old(self)@.insert(id, (old(self)@[id].0, without(old(self)@[id].1, song))),
            removed ==> final(self).sorted_view() == old(self).sorted_view(),
            removed ==> final(self).revision_view() == old(self).revision_view() + 1,
            removed ==> final(self).dirty_view(),
            !removed ==> final(self)@ == old(self)@ && final(self).sorted_view() == old(self).sorted_view()
                && final(self).revision_view() == old(self).revision_view()
                && final(self).dirty_view() == old(self).dirty_view(),
    {
        let i = match self.find(id) {
            None => return false,
            Some(i) => i,
        };
        proof {
            lemma_map_at(self.playlists@, i as int);
        }
        if !self.playlists[i].contains(song) {
            return false;
        }
        let mut p = self.playlists[i].clone_playlist();
        p.remove_all(song);
        self.replace_at(i, p);
        proof {
            assert(map_of(self.playlists@).dom() =~= map_of(old(self).playlists@).dom());
            lemma_sorted_same_names(map_of(old(self).playlists@), map_of(self.playlists@), self.sorted_ids@);
        }
        self.revision = self.revision + 1;
        self.dirty = true;
        true
    }

    /// Whether any playlist holds `song`.
    fn any_contains(&self, song: SongId) -> (b: bool)
        requires
            self.wf(),
        ensures
            b == any_holds(self@, song),
    {
        let mut i: usize = 0;
        while i < self.playlists.len()
            invariant
                self.wf(),
                i <= self.playlists@.len(),
                forall|k: int| 0 <= k < i ==> !(#[trigger] self.playlists@[k]).view_songs().contains(song),
            decreases self.playlists@.len() - i,
        {
            if self.playlists[i].contains(song) {
                proof {
                    lemma_map_at(self.playlists@, i as int);
                    assert(self@.contains_key(self.playlists@[i as int].view_id()));
                }
                return true;
            }
            i = i + 1;
        }
        assert forall|id: PlaylistId| self@.contains_key(id) implies !(#[trigger] self@[id]).1.contains(song) by {
            let k = choose|k: int| 0 <= k < self.playlists@.len() && (#[trigger] self.playlists@[k]).view_id() == id;
            lemma_map_at(self.playlists@, k);
        }
        false
    }

    /// Gives every occurrence of song `old_id` the identity `new_id`, as
    /// after the song's tags were rewritten. Returns `false`, changing
    /// nothing, when the two are the same or no playlist holds `old_id`;
    /// when it returns `true` the caller saves the store at once.
    pub fn rename_song_id(&mut self, old_id: SongId, new_id: SongId) -> (changed: bool)
        requires
            old(self).wf(),
            old(self).revision_view() < u64::MAX,
        ensures
            final(self).wf(),
            changed == (old_id != new_id && any_holds(old(self)@, old_id)),
            changed ==> final(self)@ == map_renamed(old(self)@, old_id, new_id),
            changed ==> final(self).revision_view() == old(self).revision_view() + 1,
            final(self).dirty_view() == old(self).dirty_view(),
            !changed ==> final(self)@ == old(self)@ && final(self).sorted_view() == old(self).sorted_view()
                && final(self).revision_view() == old(self).revision_view(),
    {
        if old_id == new_id || !self.any_contains(old_id) {
            return false;
        }
        let ghost ps = self.playlists@;
        let n = self.playlists.len();
        let mut i: usize = 0;
        while i < n
            invariant
                n == ps.len(),
                self.playlists@.len() == n,
                i <= n,
                self.revision == old(self).revision,
                self.dirty == old(self).dirty,
                forall|k: int| 0 <= k < n ==> (#[trigger] self.playlists@[k]).view_id() == ps[k].view_id()
                    && self.playlists@[k].view_name() == ps[k].view_name(),
                forall|k: int| 0 <= k < i ==> (#[trigger] self.playlists@[k]).view_songs() == renamed(ps[k].view_songs(), old_id, new_id),
                forall|k: int| i <= k < n ==> (#[trigger] self.playlists@[k]).view_songs() == ps[k].view_songs(),
            decreases n - i,
        {
            let mut p = self.playlists[i].clone_playlist();
            p.rename_song_id(old_id, new_id);
            self.playlists.set(i, p);
            i = i + 1;
        }
        proof {
            assert(ids_unique(self.playlists@)) by {
                assert forall|a: int, b: int| 0 <= a < self.playlists@.len() && 0 <= b < self.playlists@.len() && a != b implies
                    (#[trigger] self.playlists@[a]).view_id() != (#[trigger] self.playlists@[b]).view_id() by {
                    assert(ps[a].view_id() != ps[b].view_id());
                }
            }
            let m0 = map_of(ps);
            let m1 = map_of(self.playlists@);
            let want = map_renamed(m0, old_id, new_id);
            assert forall|id: PlaylistId| #[trigger] m1.contains_key(id) <==> want.contains_key(id) by {
                if has_id(self.playlists@, id) {
                    let k = choose|k: int| 0 <= k < self.playlists@.len() && (#[trigger] self.playlists@[k]).view_id() == id;
                    assert(ps[k].view_id() == id);
                }
                if has_id(ps, id) {
                    let k = choose|k: int| 0 <= k < ps.len() && (#[trigger] ps[k]).view_id() == id;
                    assert(self.playlists@[k].view_id() == id);
                }
            }
            assert forall|id: PlaylistId| #[trigger] m1.contains_key(id) implies m1[id] == want[id] by {
                let k = choose|k: int| 0 <= k < self.playlists@.len() && (#[trigger] self.playlists@[k]).view_id() == id;
                lemma_map_at(self.playlists@, k);
                lemma_map_at(ps, k);
            }
            assert(m1 =~= want);
        }
        self.reindex();
        true
    }

    /// Deletes the playlist `id`; `false` when there is no such playlist.
    pub fn delete(&mut self, id: PlaylistId) -> (deleted: bool)
        requires
            old(self).wf(),
            old(self).revision_view() < u64::MAX,
        ensures
            final(self).wf(),
            deleted == old(self)@.contains_key(id),
            deleted ==> final(self)@ == old(self)@.remove(id),
            deleted ==> final(self).revision_view() == old(self).revision_view() + 1,
            deleted ==> final(self).dirty_view(),
            !deleted ==> final(self)@ == old(self)@ && final(self).sorted_view() == old(self).sorted_view()
                && final(self).revision_view() == old(self).revision_view()
                && final(self).dirty_view() == old(self).dirty_view(),
    {
        match self.find(id) {
            None => false,
            Some(i) => {
                proof {
                    lemma_map_remove(self.playlists@, i as int);
                }
                self.playlists.remove(i);
                self.reindex();
                self.dirty = true;
                true
            },
        }
    }

    /// Builds a store from playlists read from disk, dropping every song that
    /// `known` (the library) does not hold. A later playlist replaces an
    /// earlier one with the same identity. The caller saves the store again
    /// when songs were dropped.
    pub fn from_loaded(loaded: Vec<Playlist>, known: &[SongId]) -> (r: (PlaylistStore, PruneStats))
        requires
            removed_count(loaded@, known@) <= usize::MAX,
        ensures
            r.0.wf(),
            r.0@ == loaded_map(loaded@, known@),
            r.0.revision_view() == 1,
            !r.0.dirty_view(),
            r.1.playlists_loaded == loaded@.len(),
            r.1.songs_removed == removed_count(loaded@, known@),
    {
        let mut store = PlaylistStore { playlists: Vec::new(), sorted_ids: Vec::new(), revision: 0, dirty: false };
        let mut stats = PruneStats { playlists_loaded: 0, songs_removed: 0 };
        let ghost ls = loaded@;
        proof {
            assert(map_of(store.playlists@) =~= Map::empty());
        }
        let n = loaded.len();
        let mut i: usize = 0;
        while i < n
            invariant
                n == ls.len(),
                loaded@ == ls,
                removed_count(ls, known@) <= usize::MAX,
                i <= n,
                ids_unique(store.playlists@),
                map_of(store.playlists@) == loaded_map(ls.take(i as int), known@),
                store.revision == 0,
                !store.dirty,
                stats.playlists_loaded == i,
                stats.songs_removed == removed_count(ls.take(i as int), known@),
            decreases n - i,
        {
            let mut p = loaded[i].clone_playlist();
            let before = p.len();
            p.retain_songs(known);
            let removed = before - p.len();
            proof {
                assert(ls.take(i + 1).drop_last() =~= ls.take(i as int));
                assert(ls.take(i + 1).last() == ls[i as int]);
                lemma_removed_count_mono(ls, known@, i as int + 1);
            }
            stats.songs_removed = stats.songs_removed + removed;
            stats.playlists_loaded = stats.playlists_loaded + 1;
            match store.find(p.id()) {
                Some(k) => {
                    store.replace_at(k, p);
                },
                None => {
                    proof {
                        lemma_map_push(store.playlists@, p);
                    }
                    store.playlists.push(p);
                },
            }
            i = i + 1;
        }
        assert(ls.take(n as int) =~= ls);
        store.reindex();
        (store, stats)
    }
}

/// Dropped-song counts only grow as more playlists are loaded.
proof fn lemma_removed_count_mono(ls: Seq<Playlist>, known: Seq<SongId>, k: int)
    requires
        0 <= k <= ls.len(),
    ensures
        removed_count(ls.take(k), known) <= removed_count(ls, known),
    decreases ls.len() - k,
{
    if k < ls.len() {
        lemma_removed_count_mono(ls, known, k + 1);
        assert(ls.take(k + 1).drop_last() =~= ls.take(k));
        assert(ls.take(k + 1).last() == ls[k]);
        lemma_kept_len(ls[k].view_songs(), known);
    } else {
        assert(ls.take(k) =~= ls);
    }
}

/// Filtering never lengthens a sequence.
pub proof fn lemma_kept_len(s: Seq<SongId>, known: Seq<SongId>)
    ensures
        kept(s, known).len() <= s.len(),
{
    s.lemma_filter_len(|y: SongId| known.contains(y));
}

/// Whether the key (`name`, `id`) comes strictly before the entry's key.
fn entry_lt(name: &str, id: PlaylistId, entry: &(String, PlaylistId)) -> (r: bool)
    ensures
        r == key_lt((name@, id.0), (entry.0@, entry.1.0)),
{
    if str_lt(name, entry.0.as_str()) {
        true
    } else if str_eq(name, entry.0.as_str()) {
        id.0 < entry.1.0
    } else {
        false
    }
}

/// The map of a store with unique identities has one key per playlist.
pub proof fn lemma_dom_len(ps: Seq<Playlist>)
    requires
        ids_unique(ps),
    ensures
        map_of(ps).dom().finite(),
        map_of(ps).dom().len() == ps.len(),
    decreases ps.len(),
{
    if ps.len() == 0 {
        assert(map_of(ps).dom() =~= Set::empty());
    } else {
        let last = ps.len() - 1;
        let init = ps.drop_last();
        assert(ids_unique(init)) by {
            assert forall|i: int, j: int| 0 <= i < init.len() && 0 <= j < init.len() && i != j implies
                (#[trigger] init[i]).view_id() != (#[trigger] init[j]).view_id() by {
                assert(init[i] == ps[i]);
                assert(init[j] == ps[j]);
            }
        }
        lemma_dom_len(init);
        assert(!has_id(init, ps[last].view_id())) by {
            if has_id(init, ps[last].view_id()) {
                let k = choose|k: int| 0 <= k < init.len() && (#[trigger] init[k]).view_id() == ps[last].view_id();
                assert(init[k] == ps[k]);
            }
        }
        lemma_map_push(init, ps[last]);
        assert(init.push(ps[last]) =~= ps);
    }
}


/// The playlists of `m` that hold `song`, in the order of `ids`.
pub open spec fn holding(m: Map<PlaylistId, (Seq<char>, Seq<SongId>)>, ids: Seq<PlaylistId>, song: SongId) -> Seq<PlaylistId> {
    ids.filter(|id: PlaylistId| m[id].1.contains(song))
}

proof fn lemma_filter_no_dup(s: Seq<PlaylistId>, p: spec_fn(PlaylistId) -> bool)
    requires
        s.no_duplicates(),
    ensures
        s.filter(p).no_duplicates(),
    decreases s.len(),
{
    broadcast use vstd::seq_lib::group_filter_ensures;
    reveal_with_fuel(Seq::<_>::filter, 1);
    if s.len() > 0 {
        let init = s.drop_last();
        assert(init.no_duplicates()) by {
            assert forall|i: int, j: int| 0 <= i < init.len() && 0 <= j < init.len() && i != j implies init[i] != init[j] by {
                assert(init[i] == s[i]);
                assert(init[j] == s[j]);
            }
        }
        lemma_filter_no_dup(init, p);
        if p(s.last()) {
            let f = init.filter(p);
            assert(!f.contains(s.last())) by {
                if f.contains(s.last()) {
                    init.lemma_filter_contains_rev(p, s.last());
                    let k = choose|k: int| 0 <= k < init.len() && init[k] == s.last();
                    assert(s[k] == s[s.len() - 1]);
                }
            }
            assert forall|i: int, j: int| 0 <= i < f.push(s.last()).len() && 0 <= j < f.push(s.last()).len() && i != j
                implies f.push(s.last())[i] != f.push(s.last())[j] by {
                if i < f.len() && j < f.len() {
                } else if i < f.len() {
                    assert(f.contains(f[i]));
                } else {
                    assert(f.contains(f[j]));
                }
            }
        }
    }
}

/// Law: the playlists reported as holding a song are exactly the playlists
/// that hold it, each listed once.
pub proof fn law_containing_is_exact(
    m: Map<PlaylistId, (Seq<char>, Seq<SongId>)>,
    ids: Seq<PlaylistId>,
    song: SongId,
    id: PlaylistId,
)
    requires
        sorted_by_name(m, ids),
    ensures
        holding(m, ids, song).contains(id) <==> (m.contains_key(id) && m[id].1.contains(song)),
        holding(m, ids, song).no_duplicates(),
{
    broadcast use vstd::seq_lib::group_filter_ensures;
    let p = |x: PlaylistId| m[x].1.contains(song);
    if holding(m, ids, song).contains(id) {
        ids.lemma_filter_contains_rev(p, id);
        let k = choose|k: int| 0 <= k < holding(m, ids, song).len() && holding(m, ids, song)[k] == id;
        assert(p(holding(m, ids, song)[k]));
    }
    if m.contains_key(id) && m[id].1.contains(song) {
        assert(ids.contains(id));
        let k = choose|k: int| 0 <= k < ids.len() && ids[k] == id;
        ids.lemma_filter_contains(p, k);
    }
    lemma_filter_no_dup(ids, p);
}

/// Law: after a song is added to a playlist, that playlist holds it; so a
/// second identical add finds it there and changes nothing.
pub proof fn law_add_then_contains(
    m: Map<PlaylistId, (Seq<char>, Seq<SongId>)>,
    id: PlaylistId,
    song: SongId,
)
    requires
        m.contains_key(id),
    ensures
        ({
            let after = m.insert(id, (m[id].0, m[id].1.push(song)));
            after.contains_key(id) && after[id].1.contains(song)
        }),
{
    let after = m.insert(id, (m[id].0, m[id].1.push(song)));
    assert(after[id].1[m[id].1.len() as int] == song);
}

/// What `without` keeps: every song of `s` other than `x`.
pub proof fn lemma_without_contains(s: Seq<SongId>, x: SongId, o: SongId)
    ensures
        without(s, x).contains(o) <==> (s.contains(o) && o != x),
    decreases s.len(),
{
    reveal_with_fuel(Seq::<_>::filter, 1);
    if s.len() > 0 {
        let init = s.drop_last();
        lemma_without_contains(init, x, o);
        assert(s =~= init.push(s.last()));
        if s.last() != x {
            assert(without(s, x) == without(init, x).push(s.last()));
            if without(s, x).contains(o) && o != s.last() {
                let k = choose|k: int| 0 <= k < without(s, x).len() && without(s, x)[k] == o;
                assert(without(init, x)[k] == o);
            }
            if without(init, x).contains(o) {
                let k = choose|k: int| 0 <= k < without(init, x).len() && without(init, x)[k] == o;
                assert(without(s, x)[k] == o);
            }
        } else {
            assert(without(s, x) == without(init, x));
        }
        if s.contains(o) && o != s.last() {
            let k = choose|k: int| 0 <= k < s.len() && s[k] == o;
            assert(init[k] == o);
        }
        if init.contains(o) {
            let k = choose|k: int| 0 <= k < init.len() && init[k] == o;
            assert(s[k] == o);
        }
        if o == s.last() {
            assert(s[s.len() - 1] == o);
            if o != x {
                assert(without(s, x)[without(s, x).len() - 1] == o);
            }
        }
    }
}

/// Law: after a song is removed from a playlist, the playlist no longer
/// holds it, and it keeps every other song it held.
pub proof fn law_remove_then_absent(songs: Seq<SongId>, song: SongId, other: SongId)
    ensures
        !without(songs, song).contains(song),
        other != song ==> (without(songs, song).contains(other) <==> songs.contains(other)),
{
    lemma_without_contains(songs, song, song);
    lemma_without_contains(songs, song, other);
}

/// Law: a playlist store loaded against a library holds only songs of that
/// library.
pub proof fn law_loaded_songs_are_known(ls: Seq<Playlist>, known: Seq<SongId>, id: PlaylistId, song: SongId)
    requires
        loaded_map(ls, known).contains_key(id),
        loaded_map(ls, known)[id].1.contains(song),
    ensures
        known.contains(song),
    decreases ls.len(),
{
    broadcast use vstd::seq_lib::group_filter_ensures;
    let p = ls.last();
    if id == p.view_id() {
        let s = p.view_songs();
        let f = |y: SongId| known.contains(y);
        let k = choose|k: int| 0 <= k < s.filter(f).len() && s.filter(f)[k] == song;
        assert(f(s.filter(f)[k]));
    } else {
        law_loaded_songs_are_known(ls.drop_last(), known, id, song);
    }
}

/// Law: after a song's identity is rewritten, no playlist holds the old
/// identity, and every playlist that held it holds the new one instead.
pub proof fn law_renamed_song_leaves_no_trace(
    m: Map<PlaylistId, (Seq<char>, Seq<SongId>)>,
    old_id: SongId,
    new_id: SongId,
    id: PlaylistId,
)
    requires
        old_id != new_id,
        m.contains_key(id),
    ensures
        !map_renamed(m, old_id, new_id)[id].1.contains(old_id),
        m[id].1.contains(old_id) ==> map_renamed(m, old_id, new_id)[id].1.contains(new_id),
        map_renamed(m, old_id, new_id)[id].0 == m[id].0,
{
    let s = m[id].1;
    let r = renamed(s, old_id, new_id);
    assert(map_renamed(m, old_id, new_id)[id] == (m[id].0, r));
    if r.contains(old_id) {
        let k = choose|k: int| 0 <= k < r.len() && r[k] == old_id;
        assert(r[k] == (if s[k] == old_id { new_id } else { s[k] }));
    }
    if s.contains(old_id) {
        let k = choose|k: int| 0 <= k < s.len() && s[k] == old_id;
        assert(r[k] == new_id);
    }
}

/// Whether a playlist name is shown for a search: every name for an empty
/// search, else the names whose lowercase form holds the lowercase search.
pub open spec fn name_shown(name: Seq<char>, query: Seq<char>) -> bool {
    spec_str_lowercase(query).len() == 0 || has_substring(spec_str_lowercase(name), spec_str_lowercase(query))
}

impl PlaylistStore {
    /// The playlists the browser shows for a search, in name order.
    pub fn visible_ids(&self, query: &str) -> (v: Vec<PlaylistId>)
        requires
            self.wf(),
        ensures
            v@ == self.sorted_view().filter(|id: PlaylistId| name_shown(self@[id].0, query@)),
    {
        let needle = str_lowercase(query);
        let empty = chars_of(needle.as_str()).len() == 0;
        let ids = self.ids_sorted_by_name();
        let ghost p = |id: PlaylistId| name_shown(self@[id].0, query@);
        let mut v: Vec<PlaylistId> = Vec::new();
        let mut i: usize = 0;
        proof {
            assert(ids@.take(0).filter(p) =~= seq![]) by {
                reveal(Seq::filter);
            }
        }
        while i < ids.len()
            invariant
                self.wf(),
                ids@ == self.sorted_view(),
                sorted_by_name(self@, ids@),
                needle@ == spec_str_lowercase(query@),
                empty == (needle@.len() == 0),
                p == (|id: PlaylistId| name_shown(self@[id].0, query@)),
                i <= ids@.len(),
                v@ == ids@.take(i as int).filter(p),
            decreases ids@.len() - i,
        {
            let id = ids[i];
            proof {
                reveal(Seq::filter);
                assert(ids@.take(i as int + 1).drop_last() =~= ids@.take(i as int));
                assert(ids@.take(i as int + 1).last() == id);
                assert(self@.contains_key(id));
            }
            let shown = if empty {
                true
            } else {
                match self.get(id) {
                    Some(pl) => {
                        let name = str_lowercase(pl.name());
                        contains_str(name.as_str(), needle.as_str())
                    },
                    None => false,
                }
            };
            if shown {
                v.push(id);
            }
            i = i + 1;
        }
        proof {
            assert(ids@.take(ids@.len() as int) =~= ids@);
        }
        v
    }
}

} // verus!
