//! The library: the songs found under a root directory, in path order,
//! each identity once, and how a scan's findings become a library.
use vstd::prelude::*;
use crate::scan_cache::{Entry, Probed, ScanCache, lookup, lemma_lookup_push, same_path};
use crate::song::{opt_view, Metadata, Song, SongId, song_key_hash};
use crate::text::str_eq;
use crate::rows::{comps_key, comps_view, path_components, push_comps_key, spec_path_components};
use crate::sort_key::{is_permutation, key_lt, key_view, keys_view, sort_by_keys, sorted_by_keys, KeyPart, PartView};

verus! {

/// What adding a song did: added it, or found a song with the same
/// identity already there.
#[derive(Clone, Copy, Debug, PartialEq, Eq, Structural)]
pub enum InsertOutcome {
    Inserted(SongId),
    Collision { existing: SongId },
}

/// Why a song's tags could not be updated.
pub enum UpdateMetadataError {
    /// The song is not in the library.
    NotFound,
    /// Writing or reading the tags failed, with the reason.
    Metadata(String),
}

/// The songs under a root directory, in path order; no identity occurs
/// twice.
pub struct Library {
    root: String,
    songs: Vec<Song>,
}

/// The identities of some songs, in order.
pub open spec fn ids_of(s: Seq<Song>) -> Seq<SongId> {
    s.map_values(|x: Song| x.id_view())
}

/// No identity occurs twice.
pub open spec fn ids_distinct(s: Seq<Song>) -> bool {
    forall|i: int, j: int| 0 <= i < j < s.len() ==> s[i].id_view() != s[j].id_view()
}

/// The song with identity `id`, if there is one.
pub open spec fn find(s: Seq<Song>, id: SongId) -> Option<Song> {
    if exists|i: int| 0 <= i < s.len() && (#[trigger] s[i]).id_view() == id {
        Some(s[choose|i: int| 0 <= i < s.len() && (#[trigger] s[i]).id_view() == id])
    } else {
        None
    }
}

proof fn lemma_find_at(s: Seq<Song>, i: int)
    requires
        ids_distinct(s),
        0 <= i < s.len(),
    ensures
        find(s, s[i].id_view()) == Some(s[i]),
{
    let id = s[i].id_view();
    assert(exists|k: int| 0 <= k < s.len() && (#[trigger] s[k]).id_view() == id);
    let k = choose|k: int| 0 <= k < s.len() && (#[trigger] s[k]).id_view() == id;
    if k != i {
        if k < i {
            assert(s[k].id_view() != s[i].id_view());
        } else {
            assert(s[i].id_view() != s[k].id_view());
        }
    }
}

impl Library {
    #[verifier::type_invariant]
    closed spec fn distinct(&self) -> bool {
        ids_distinct(self.songs@)
    }

    /// The songs, in path order.
    pub closed spec fn songs_view(&self) -> Seq<Song> {
        self.songs@
    }

    /// The root directory.
    pub closed spec fn root_view(&self) -> Seq<char> {
        self.root@
    }

    /// An empty library at `root`.
    pub fn empty(root: String) -> (l: Library)
        ensures
            l.songs_view().len() == 0,
            l.root_view() == root@,
    {
        Library { root, songs: Vec::new() }
    }

    /// The root directory.
    pub fn root(&self) -> (r: &str)
        ensures
            r@ == self.root_view(),
    {
        self.root.as_str()
    }

    fn position(&self, id: SongId) -> (r: Option<usize>)
        ensures
            r matches Some(i) ==> i < self.songs_view().len() && self.songs_view()[i as int].id_view() == id,
            r is None ==> forall|i: int| 0 <= i < self.songs_view().len() ==> (#[trigger] self.songs_view()[i]).id_view() != id,
    {
        let mut i: usize = 0;
        while i < self.songs.len()
            invariant
                i <= self.songs@.len(),
                forall|k: int| 0 <= k < i ==> (#[trigger] self.songs@[k]).id_view() != id,
            decreases self.songs@.len() - i,
        {
            if self.songs[i].id() == id {
                return Some(i);
            }
            i = i + 1;
        }
        None
    }

    /// The song with identity `id`.
    pub fn get(&self, id: SongId) -> (r: Option<&Song>)
        ensures
            match r {
                Some(s) => find(self.songs_view(), id) == Some(*s),
                None => find(self.songs_view(), id) is None,
            },
    {
        proof {
            use_type_invariant(self);
        }
        match self.position(id) {
            Some(i) => {
                proof {
                    lemma_find_at(self.songs@, i as int);
                }
                Some(&self.songs[i])
            },
            None => None,
        }
    }

    /// Whether a song with identity `id` is in the library.
    pub fn contains(&self, id: SongId) -> (b: bool)
        ensures
            b == (find(self.songs_view(), id) is Some),
    {
        self.get(id).is_some()
    }

    /// The number of songs.
    pub fn len(&self) -> (n: usize)
        ensures
            n == self.songs_view().len(),
    {
        self.songs.len()
    }

    /// Whether the library holds no song.
    pub fn is_empty(&self) -> (b: bool)
        ensures
            b == (self.songs_view().len() == 0),
    {
        self.songs.len() == 0
    }

    /// The identities of the songs, in path order.
    pub fn ids_by_path(&self) -> (v: Vec<SongId>)
        ensures
            v@ == ids_of(self.songs_view()),
            ids_distinct(self.songs_view()),
    {
        proof {
            use_type_invariant(self);
        }
        let mut v: Vec<SongId> = Vec::new();
        let mut i: usize = 0;
        while i < self.songs.len()
            invariant
                i <= self.songs@.len(),
                v@ == ids_of(self.songs@.take(i as int)),
            decreases self.songs@.len() - i,
        {
            v.push(self.songs[i].id());
            i = i + 1;
            proof {
                assert(v@ =~= ids_of(self.songs@.take(i as int)));
            }
        }
        proof {
            assert(self.songs@.take(self.songs@.len() as int) =~= self.songs@);
        }
        v
    }

    /// The songs other than `reference` whose artist sorts as `key` (the
    /// artist's other songs), in path order.
    pub fn matching_artist(&self, key: &str, reference: SongId) -> (v: Vec<SongId>)
        ensures
            v@ == artist_siblings(self.songs_view(), key@, reference).map_values(|s: Song| s.id_view()),
    {
        let ghost p = |s: Song| s.id_view() != reference && s.sort_artist_view() == key@;
        let mut v: Vec<SongId> = Vec::new();
        let mut i: usize = 0;
        proof {
            assert(self.songs@.take(0).filter(p) =~= seq![]) by {
                reveal(Seq::filter);
            }
        }
        while i < self.songs.len()
            invariant
                i <= self.songs@.len(),
                p == (|s: Song| s.id_view() != reference && s.sort_artist_view() == key@),
                v@ == self.songs@.take(i as int).filter(p).map_values(|s: Song| s.id_view()),
            decreases self.songs@.len() - i,
        {
            let song = &self.songs[i];
            proof {
                reveal(Seq::filter);
                assert(self.songs@.take(i as int + 1).drop_last() =~= self.songs@.take(i as int));
                assert(self.songs@.take(i as int + 1).last() == *song);
            }
            let id = song.id();
            if id != reference && str_eq(song.sort_artist(), key) {
                v.push(id);
                proof {
                    assert(self.songs@.take(i as int + 1).filter(p) == self.songs@.take(i as int).filter(p).push(*song));
                    assert(v@ =~= self.songs@.take(i as int + 1).filter(p).map_values(|s: Song| s.id_view()));
                }
            } else {
                proof {
                    assert(self.songs@.take(i as int + 1).filter(p) == self.songs@.take(i as int).filter(p));
                }
            }
            i = i + 1;
        }
        proof {
            assert(self.songs@.take(self.songs@.len() as int) =~= self.songs@);
        }
        v
    }

    /// How many other songs the artist of `reference` has, the artist
    /// given by how it sorts (`key`).
    pub fn count_matching_artist(&self, key: &str, reference: SongId) -> (n: usize)
        ensures
            n == artist_siblings(self.songs_view(), key@, reference).len(),
    {
        self.matching_artist(key, reference).len()
    }

    /// The songs, in path order.
    pub fn songs_by_path(&self) -> (v: Vec<&Song>)
        ensures
            v@.len() == self.songs_view().len(),
            forall|i: int| 0 <= i < v@.len() ==> *(#[trigger] v@[i]) == self.songs_view()[i],
    {
        let mut v: Vec<&Song> = Vec::new();
        let mut i: usize = 0;
        while i < self.songs.len()
            invariant
                i <= self.songs@.len(),
                v@.len() == i,
                forall|k: int| 0 <= k < i ==> *(#[trigger] v@[k]) == self.songs@[k],
            decreases self.songs@.len() - i,
        {
            v.push(&self.songs[i]);
            i = i + 1;
        }
        v
    }

    /// Adds a song at the end, unless a song with its identity is already
    /// there.
    pub fn insert(&mut self, song: Song) -> (r: InsertOutcome)
        ensures
            find(old(self).songs_view(), song.id_view()) is Some ==> r == (InsertOutcome::Collision {
                existing: song.id_view(),
            }) && final(self).songs_view() == old(self).songs_view(),
            find(old(self).songs_view(), song.id_view()) is None ==> r == InsertOutcome::Inserted(song.id_view())
                && final(self).songs_view() == old(self).songs_view().push(song),
            final(self).root_view() == old(self).root_view(),
    {
        proof {
            use_type_invariant(&*self);
        }
        let id = song.id();
        match self.position(id) {
            Some(i) => {
                proof {
                    lemma_find_at(self.songs@, i as int);
                }
                InsertOutcome::Collision { existing: id }
            },
            None => {
                let mut songs: Vec<Song> = Vec::new();
                std::mem::swap(&mut songs, &mut self.songs);
                songs.push(song);
                self.songs = songs;
                InsertOutcome::Inserted(id)
            },
        }
    }

    /// Puts `updated` in the place of the song with identity `id` (after its
    /// tags were rewritten, which gives it a new identity), and says the new
    /// identity. Another song that already had the new identity is dropped,
    /// so that identities stay distinct.
    pub fn replace_song(&mut self, id: SongId, updated: Song) -> (r: Result<SongId, UpdateMetadataError>)
        ensures
            find(old(self).songs_view(), id) is None ==> (r matches Err(UpdateMetadataError::NotFound))
                && final(self).songs_view() == old(self).songs_view(),
            find(old(self).songs_view(), id) is Some ==> r == Ok::<SongId, UpdateMetadataError>(updated.id_view())
                && final(self).songs_view() == replaced(old(self).songs_view(), index_of_id(old(self).songs_view(), id), updated,
                    old(self).songs_view().len() as int),
            final(self).root_view() == old(self).root_view(),
    {
        proof {
            use_type_invariant(&*self);
        }
        let pos = match self.position(id) {
            Some(i) => i,
            None => {
                proof {
                    if find(self.songs@, id) is Some {
                        let k = choose|k: int| 0 <= k < self.songs@.len() && (#[trigger] self.songs@[k]).id_view() == id;
                        assert(self.songs@[k].id_view() != id);
                    }
                }
                return Err(UpdateMetadataError::NotFound);
            },
        };
        let ghost before = self.songs@;
        proof {
            lemma_index_of_id(before, pos as int);
        }
        let new_id = updated.id();
        let mut kept: Vec<Song> = Vec::new();
        let ghost mut src: Seq<int> = seq![];
        let mut i: usize = 0;
        while i < self.songs.len()
            invariant
                before == self.songs@,
                ids_distinct(before),
                pos < before.len(),
                new_id == updated.id_view(),
                i <= before.len(),
                kept@ == replaced(before, pos as int, updated, i as int),
                src.len() == kept@.len(),
                forall|q: int| 0 <= q < src.len() ==> (#[trigger] src[q] == -1 && kept@[q] == updated && i > pos)
                    || (0 <= src[q] < i && src[q] != pos && kept@[q] == before[src[q]] && before[src[q]].id_view() != new_id),
                ids_distinct(kept@),
            decreases before.len() - i,
        {
            let ghost kb = kept@;
            if i == pos {
                kept.push(updated.duplicate());
                proof {
                    assert forall|q: int| 0 <= q < kb.len() implies kb[q].id_view() != new_id by {
                        assert(src[q] != -1);
                    }
                    src = src.push(-1);
                }
            } else if self.songs[i].id() != new_id {
                kept.push(self.songs[i].duplicate());
                proof {
                    assert forall|q: int| 0 <= q < kb.len() implies kb[q].id_view() != before[i as int].id_view() by {
                        if src[q] != -1 {
                            assert(src[q] < i);
                        }
                    }
                    src = src.push(i as int);
                }
            }
            proof {
                assert(kept@ =~= replaced(before, pos as int, updated, i as int + 1));
            }
            i = i + 1;
        }
        self.songs = kept;
        Ok(new_id)
    }
}

/// The position of the song with identity `id`.
/// The songs of `songs` other than `reference` whose artist sorts as `key`.
pub open spec fn artist_siblings(songs: Seq<Song>, key: Seq<char>, reference: SongId) -> Seq<Song> {
    songs.filter(|s: Song| s.id_view() != reference && s.sort_artist_view() == key)
}

pub open spec fn index_of_id(s: Seq<Song>, id: SongId) -> int {
    choose|i: int| 0 <= i < s.len() && (#[trigger] s[i]).id_view() == id
}

proof fn lemma_index_of_id(s: Seq<Song>, i: int)
    requires
        ids_distinct(s),
        0 <= i < s.len(),
    ensures
        index_of_id(s, s[i].id_view()) == i,
        find(s, s[i].id_view()) is Some,
{
    let k = index_of_id(s, s[i].id_view());
    assert(0 <= k < s.len() && s[k].id_view() == s[i].id_view());
    if k != i {
        if k < i {
            assert(s[k].id_view() != s[i].id_view());
        } else {
            assert(s[i].id_view() != s[k].id_view());
        }
    }
}

/// The first `n` songs of `s` with the one at `pos` replaced by `u`, and
/// any other song with the identity of `u` left out.
pub open spec fn replaced(s: Seq<Song>, pos: int, u: Song, n: int) -> Seq<Song>
    decreases n,
{
    if n <= 0 {
        seq![]
    } else {
        let prev = replaced(s, pos, u, n - 1);
        if n - 1 == pos {
            prev.push(u)
        } else if s[n - 1].id_view() == u.id_view() {
            prev
        } else {
            prev.push(s[n - 1])
        }
    }
}

/// How a scan went.
#[derive(Clone, Copy, Debug, PartialEq, Eq, Structural)]
pub struct ScanStats {
    /// Files whose tags came from the scan cache.
    pub cache_hits: usize,
    /// Files that were read again.
    pub reprobed: usize,
    /// Files that could not be used.
    pub skipped_files: usize,
    /// Directories that could not be read.
    pub unreadable_dirs: usize,
    /// Audio files found.
    pub files_considered: usize,
}

impl ScanStats {
    /// Everything the scan had to skip, files and directories.
    pub fn skipped(&self) -> (n: usize)
        requires
            self.skipped_files + self.unreadable_dirs <= usize::MAX,
        ensures
            n == self.skipped_files + self.unreadable_dirs,
    {
        self.skipped_files + self.unreadable_dirs
    }
}

/// What probing one file gave.
pub enum ProbeResult {
    /// Its tags, read now (`freshly_probed`) or taken from the cache.
    Tags { metadata: Metadata, freshly_probed: bool },
    /// Nothing readable, found now or remembered.
    Unreadable { freshly_probed: bool },
    /// The file could not even be looked at.
    Unstattable,
}

/// A file's size and modification time, and what probing it gave.
pub struct Outcome {
    pub size: u64,
    pub mtime: u64,
    pub result: ProbeResult,
}

/// What the cache already knows of a file, when it is unchanged: its tags or
/// that it is unreadable. `None` means the file must be read.
pub fn cached_probe(cache: &ScanCache, relative: &str, size: u64, mtime: u64) -> (r: Option<ProbeResult>)
    ensures
        match r {
            Some(ProbeResult::Tags { metadata, freshly_probed }) => !freshly_probed
                && (cache.lookup_spec(relative@) matches Some(e) && e.size == size && e.mtime == mtime
                && e.probed == Probed::Tags(metadata)),
            Some(ProbeResult::Unreadable { freshly_probed }) => !freshly_probed
                && (cache.lookup_spec(relative@) matches Some(e) && e.size == size && e.mtime == mtime
                && e.probed is Unreadable),
            Some(ProbeResult::Unstattable) => false,
            None => !(cache.lookup_spec(relative@) matches Some(e) && e.size == size && e.mtime == mtime),
        },
{
    match cache.get_fresh(relative, size, mtime) {
        Some(Probed::Tags(m)) => Some(ProbeResult::Tags { metadata: m.duplicate(), freshly_probed: false }),
        Some(Probed::Unreadable) => Some(ProbeResult::Unreadable { freshly_probed: false }),
        None => None,
    }
}

/// What `std::path::Path::strip_prefix` gives for `path` and `root`: the
/// path relative to the root when it lies under it.
pub uninterp spec fn spec_strip_prefix(path: Seq<char>, root: Seq<char>) -> Option<Seq<char>>;

/// Trusted: calls `std::path::Path::strip_prefix`, giving `None` for its
/// error (the path does not lie under the root); the contract only names
/// the result, which depends on the two paths alone.
#[verifier::external_body]
fn strip_prefix(path: &str, root: &str) -> (r: Option<String>)
    ensures
        opt_view(r) == spec_strip_prefix(path@, root@),
{
    match std::path::Path::new(path).strip_prefix(root) {
        Ok(rel) => Some(rel.to_string_lossy().into_owned()),
        Err(_) => None,
    }
}

/// `path` relative to `root` when it lies under it, else `path` itself.
pub open spec fn spec_relative(path: Seq<char>, root: Seq<char>) -> Seq<char> {
    match spec_strip_prefix(path, root) {
        Some(rel) => rel,
        None => path,
    }
}

/// `path` relative to `root` when it lies under it, else `path` itself:
/// how the scan cache names a file.
pub fn relative_path(path: &str, root: &str) -> (r: String)
    ensures
        r@ == spec_relative(path@, root@),
{
    match strip_prefix(path, root) {
        Some(rel) => rel,
        None => String::from_str(path),
    }
}

/// A song as found by a scan: identity, path, tags, modification time.
pub type FoundSong = (SongId, Seq<char>, Metadata, u64);

/// What a scan has gathered after some files: the songs kept, the counts
/// of cache hits, files read again and files skipped, the entries for the
/// next cache, and whether anything was read again.
pub type ScanState = (Seq<FoundSong>, nat, nat, nat, Seq<(Seq<char>, Entry)>, bool);

/// Whether a song with this identity was kept already.
pub open spec fn kept_id(kept: Seq<FoundSong>, id: SongId) -> Option<FoundSong> {
    if exists|i: int| 0 <= i < kept.len() && (#[trigger] kept[i]).0 == id {
        Some(kept[choose|i: int| 0 <= i < kept.len() && (#[trigger] kept[i]).0 == id])
    } else {
        None
    }
}

/// The scan after the first `k` files: an unstattable file is skipped; an
/// unreadable one is skipped and remembered as unreadable; a file with
/// tags is remembered with them and becomes a song, unless a song with the
/// same identity is already kept (then it is counted as skipped when the
/// two paths differ). Files read now count as read again, the others as
/// cache hits.
pub open spec fn scan_state(files: Seq<(String, Outcome)>, root: Seq<char>, k: int) -> ScanState
    decreases k,
{
    if k <= 0 {
        (seq![], 0, 0, 0, seq![], false)
    } else {
        let (kept, hits, reprobed, skipped, entries, fresh) = scan_state(files, root, k - 1);
        let (path, o) = files[k - 1];
        let rel = spec_relative(path@, root);
        match o.result {
            ProbeResult::Unstattable => (kept, hits, reprobed, skipped + 1, entries, fresh),
            ProbeResult::Unreadable { freshly_probed } => (
                kept,
                if freshly_probed { hits } else { hits + 1 },
                if freshly_probed { reprobed + 1 } else { reprobed },
                skipped + 1,
                entries.push((rel, Entry { size: o.size, mtime: o.mtime, probed: Probed::Unreadable })),
                fresh || freshly_probed,
            ),
            ProbeResult::Tags { metadata, freshly_probed } => {
                let id = SongId(song_key_hash(path@, o.size, o.mtime));
                let entries2 = entries.push((rel, Entry { size: o.size, mtime: o.mtime, probed: Probed::Tags(metadata) }));
                let hits2 = if freshly_probed { hits } else { hits + 1 };
                let reprobed2 = if freshly_probed { reprobed + 1 } else { reprobed };
                match kept_id(kept, id) {
                    Some(existing) => (
                        kept,
                        hits2,
                        reprobed2,
                        if existing.1 != path@ { skipped + 1 } else { skipped },
                        entries2,
                        fresh || freshly_probed,
                    ),
                    None => (kept.push((id, path@, metadata, o.mtime)), hits2, reprobed2, skipped, entries2, fresh || freshly_probed),
                }
            },
        }
    }
}

/// The key a path sorts by: its components, as `Path::cmp` compares them.
pub open spec fn path_key(p: Seq<char>) -> Seq<PartView> {
    comps_key(spec_path_components(p))
}

/// The paths are in path order: no path sorts before one listed earlier.
pub open spec fn paths_in_order(ps: Seq<Seq<char>>) -> bool {
    forall|i: int, j: int| 0 <= i < j < ps.len() ==> !key_lt(path_key(#[trigger] ps[j]), path_key(#[trigger] ps[i]))
}

/// The paths of the files a scan was given.
pub open spec fn file_paths(files: Seq<(String, Outcome)>) -> Seq<Seq<char>> {
    files.map_values(|f: (String, Outcome)| f.0@)
}

/// The paths of songs.
pub open spec fn song_paths(songs: Seq<Song>) -> Seq<Seq<char>> {
    songs.map_values(|s: Song| s.path_view())
}

proof fn lemma_kept_come_from_files(files: Seq<(String, Outcome)>, root: Seq<char>, k: int)
    requires
        0 <= k <= files.len(),
    ensures
        forall|a: int| 0 <= a < scan_state(files, root, k).0.len() ==> exists|j: int| 0 <= j < k
            && #[trigger] scan_state(files, root, k).0[a].1 == (#[trigger] files[j]).0@,
    decreases k,
{
    if k > 0 {
        lemma_kept_come_from_files(files, root, k - 1);
        let prev = scan_state(files, root, k - 1).0;
        let cur = scan_state(files, root, k).0;
        assert forall|a: int| 0 <= a < cur.len() implies exists|j: int| 0 <= j < k
            && #[trigger] cur[a].1 == (#[trigger] files[j]).0@ by {
            if a < prev.len() {
                assert(cur[a] == prev[a]);
                let j = choose|j: int| 0 <= j < k - 1 && #[trigger] prev[a].1 == (#[trigger] files[j]).0@;
                assert(cur[a].1 == files[j].0@);
            } else {
                assert(cur[a].1 == files[k - 1].0@);
            }
        }
    }
}

proof fn lemma_kept_in_order(files: Seq<(String, Outcome)>, root: Seq<char>, k: int)
    requires
        0 <= k <= files.len(),
        paths_in_order(file_paths(files)),
    ensures
        paths_in_order(scan_state(files, root, k).0.map_values(|f: FoundSong| f.1)),
    decreases k,
{
    if k > 0 {
        lemma_kept_in_order(files, root, k - 1);
        lemma_kept_come_from_files(files, root, k - 1);
        let prev = scan_state(files, root, k - 1).0;
        let cur = scan_state(files, root, k).0;
        let pp = prev.map_values(|f: FoundSong| f.1);
        let cp = cur.map_values(|f: FoundSong| f.1);
        assert forall|i: int, j: int| 0 <= i < j < cp.len() implies !key_lt(path_key(#[trigger] cp[j]), path_key(#[trigger] cp[i])) by {
            if j < prev.len() {
                assert(cp[i] == pp[i] && cp[j] == pp[j]);
            } else {
                assert(cur[i] == prev[i]);
                let m = choose|m: int| 0 <= m < k - 1 && #[trigger] prev[i].1 == (#[trigger] files[m]).0@;
                assert(cp[i] == file_paths(files)[m]);
                assert(cp[j] == file_paths(files)[k - 1]);
            }
        }
    }
}

/// Law: every song a scan keeps is one of its files with tags, and carries
/// that file's stat: its path and tags, its modification time, and the
/// identity computed from its path, size and modification time.
pub proof fn law_scan_songs_carry_file_stat(files: Seq<(String, Outcome)>, root: Seq<char>, k: int, a: int)
    requires
        0 <= k <= files.len(),
        0 <= a < scan_state(files, root, k).0.len(),
    ensures
        exists|j: int| 0 <= j < k && {
            let f = scan_state(files, root, k).0[a];
            let (path, o) = #[trigger] files[j];
            &&& o.result matches ProbeResult::Tags { metadata, .. }
            &&& f.1 == path@
            &&& f.2 == metadata
            &&& f.3 == o.mtime
            &&& f.0 == SongId(song_key_hash(path@, o.size, o.mtime))
        },
    decreases k,
{
    let prev = scan_state(files, root, k - 1).0;
    let cur = scan_state(files, root, k).0;
    if a < prev.len() {
        assert(cur[a] == prev[a]);
        law_scan_songs_carry_file_stat(files, root, k - 1, a);
        let j = choose|j: int| 0 <= j < k - 1 && {
            let f = scan_state(files, root, k - 1).0[a];
            let (path, o) = #[trigger] files[j];
            &&& o.result matches ProbeResult::Tags { metadata, .. }
            &&& f.1 == path@
            &&& f.2 == metadata
            &&& f.3 == o.mtime
            &&& f.0 == SongId(song_key_hash(path@, o.size, o.mtime))
        };
        assert(0 <= j < k);
    } else {
        let j = k - 1;
        assert(0 <= j < k);
    }
}

/// Law: a scan given its files in path order keeps its songs in path order
/// (a file whose song is not kept just leaves a gap).
pub proof fn law_scan_keeps_path_order(files: Seq<(String, Outcome)>, root: Seq<char>)
    requires
        paths_in_order(file_paths(files)),
    ensures
        paths_in_order(scan_state(files, root, files.len() as int).0.map_values(|f: FoundSong| f.1)),
{
    lemma_kept_in_order(files, root, files.len() as int);
}

/// What the next cache should remember of a file whose probe gave `o`:
/// its size, modification time and what reading it gave (nothing for a
/// file that could not be looked at).
pub open spec fn remembered(o: Outcome) -> Option<Entry> {
    match o.result {
        ProbeResult::Tags { metadata, .. } => Some(Entry { size: o.size, mtime: o.mtime, probed: Probed::Tags(metadata) }),
        ProbeResult::Unreadable { .. } => Some(Entry { size: o.size, mtime: o.mtime, probed: Probed::Unreadable }),
        ProbeResult::Unstattable => None,
    }
}

/// No two files of a scan have the same path under the root.
pub open spec fn distinct_relative(files: Seq<(String, Outcome)>, root: Seq<char>) -> bool {
    forall|i: int, j: int| 0 <= i < j < files.len()
        ==> !same_path(spec_relative((#[trigger] files[i]).0@, root), spec_relative((#[trigger] files[j]).0@, root))
}

proof fn lemma_entries_remember(files: Seq<(String, Outcome)>, root: Seq<char>, k: int, j: int)
    requires
        0 <= j < k <= files.len(),
        distinct_relative(files, root),
        remembered(files[j].1) is Some,
    ensures
        lookup(scan_state(files, root, k).4, spec_relative(files[j].0@, root)) == remembered(files[j].1),
    decreases k,
{
    let key = spec_relative(files[j].0@, root);
    let prev = scan_state(files, root, k - 1).4;
    let (path, o) = files[k - 1];
    let rel = spec_relative(path@, root);
    if j < k - 1 {
        lemma_entries_remember(files, root, k - 1, j);
        assert(!same_path(key, rel));
        assert(!same_path(rel, key));
    }
    match o.result {
        ProbeResult::Unstattable => {},
        ProbeResult::Unreadable { .. } => {
            lemma_lookup_push(prev, (rel, Entry { size: o.size, mtime: o.mtime, probed: Probed::Unreadable }), key);
        },
        ProbeResult::Tags { metadata, .. } => {
            lemma_lookup_push(prev, (rel, Entry { size: o.size, mtime: o.mtime, probed: Probed::Tags(metadata) }), key);
        },
    }
}

/// Law: the cache a scan writes remembers every file it could look at,
/// under the file's path below the root, with the size, modification time
/// and tags (or unreadability) found; so that a second scan of unchanged
/// files is answered from the cache (see `cached_probe`).
pub proof fn law_scan_remembers_every_file(files: Seq<(String, Outcome)>, root: Seq<char>, j: int)
    requires
        0 <= j < files.len(),
        distinct_relative(files, root),
        remembered(files[j].1) is Some,
    ensures
        lookup(scan_state(files, root, files.len() as int).4, spec_relative(files[j].0@, root)) == remembered(files[j].1),
{
    lemma_entries_remember(files, root, files.len() as int, j);
}

/// How many of the first `k` files could be looked at.
pub open spec fn looked_at(files: Seq<(String, Outcome)>, k: int) -> nat
    decreases k,
{
    if k <= 0 {
        0
    } else if files[k - 1].1.result is Unstattable {
        looked_at(files, k - 1)
    } else {
        looked_at(files, k - 1) + 1
    }
}

/// No file of the scan was read again: each came from the cache, or could
/// not be looked at.
pub open spec fn all_from_cache(files: Seq<(String, Outcome)>) -> bool {
    forall|i: int| 0 <= i < files.len() ==> match (#[trigger] files[i]).1.result {
        ProbeResult::Tags { freshly_probed, .. } => !freshly_probed,
        ProbeResult::Unreadable { freshly_probed } => !freshly_probed,
        ProbeResult::Unstattable => true,
    }
}

proof fn lemma_all_hits(files: Seq<(String, Outcome)>, root: Seq<char>, k: int)
    requires
        0 <= k <= files.len(),
        all_from_cache(files),
    ensures
        scan_state(files, root, k).1 == looked_at(files, k),
        scan_state(files, root, k).2 == 0,
        !scan_state(files, root, k).5,
    decreases k,
{
    if k > 0 {
        lemma_all_hits(files, root, k - 1);
        let _ = files[k - 1];
    }
}

/// Law: a scan whose files all came from the cache reads nothing again:
/// every file it could look at is a cache hit, none is counted as read
/// again, and nothing marks the cache as changed.
pub proof fn law_scan_from_cache_reads_nothing(files: Seq<(String, Outcome)>, root: Seq<char>)
    requires
        all_from_cache(files),
    ensures
        scan_state(files, root, files.len() as int).1 == looked_at(files, files.len() as int),
        scan_state(files, root, files.len() as int).2 == 0,
        !scan_state(files, root, files.len() as int).5,
{
    lemma_all_hits(files, root, files.len() as int);
}

/// The songs of a library as found-song values.
pub open spec fn found_songs(s: Seq<Song>) -> Seq<FoundSong> {
    s.map_values(|x: Song| (x.id_view(), x.path_view(), x.metadata_view(), x.mtime_view()))
}

proof fn lemma_kept_ids(kept: Seq<FoundSong>, songs: Seq<Song>, id: SongId)
    requires
        kept == found_songs(songs),
        ids_distinct(songs),
    ensures
        (find(songs, id) is Some) == (kept_id(kept, id) is Some),
        find(songs, id) matches Some(s) ==> kept_id(kept, id) == Some((s.id_view(), s.path_view(), s.metadata_view(), s.mtime_view())),
{
    if find(songs, id) is Some {
        let i = choose|i: int| 0 <= i < songs.len() && (#[trigger] songs[i]).id_view() == id;
        assert(kept[i].0 == id);
    }
    if kept_id(kept, id) is Some {
        let i = choose|i: int| 0 <= i < kept.len() && (#[trigger] kept[i]).0 == id;
        assert(songs[i].id_view() == id);
    }
    if find(songs, id) is Some {
        let i = choose|i: int| 0 <= i < songs.len() && (#[trigger] songs[i]).id_view() == id;
        let j = choose|j: int| 0 <= j < kept.len() && (#[trigger] kept[j]).0 == id;
        assert(songs[j].id_view() == id);
        if i != j {
            if i < j {
                assert(songs[i].id_view() != songs[j].id_view());
            } else {
                assert(songs[j].id_view() != songs[i].id_view());
            }
        }
    }
}

/// What assembling the findings `files` (taken in the order given) yields:
/// the songs kept, the counts, the cache for the next scan answering as the
/// entries recorded, and whether that cache differs from the one read.
pub open spec fn assembled(files: Seq<(String, Outcome)>, root: Seq<char>, previous_cache_len: usize,
    unreadable_dirs: usize, walk_skipped: usize, r: (Library, ScanStats, ScanCache, bool)) -> bool {
    let (kept, hits, reprobed, skipped, entries, fresh) = scan_state(files, root, files.len() as int);
    &&& found_songs(r.0.songs_view()) == kept
    &&& r.0.root_view() == root
    &&& r.1 == (ScanStats {
        cache_hits: hits as usize,
        reprobed: reprobed as usize,
        skipped_files: (walk_skipped + skipped) as usize,
        unreadable_dirs,
        files_considered: files.len() as usize,
    })
    &&& forall|key: Seq<char>| #[trigger] r.2.lookup_spec(key) == lookup(entries, key)
    &&& r.3 == (fresh || r.2.entries_spec().len() != previous_cache_len)
}

/// `sorted` is `files` rearranged into path order.
pub open spec fn in_path_order(files: Seq<(String, Outcome)>, sorted: Seq<(String, Outcome)>) -> bool {
    &&& exists|order: Seq<usize>| #[trigger] is_permutation(order, files.len()) && sorted.len() == order.len()
        && forall|i: int| 0 <= i < sorted.len() ==> #[trigger] sorted[i] == files[order[i] as int]
    &&& paths_in_order(file_paths(sorted))
}

/// Turns the findings of a scan (the audio files found, with what probing
/// each gave, in any order) into the library, the scan's counts, the cache
/// to write for the next scan, and whether that cache differs from the one
/// read (some file was read again, or the number of entries changed). The
/// files are taken in path order, so the library lists its songs in path
/// order. `walk_skipped` counts the entries the walk could not tell the
/// kind of, which the scan skipped before any file was probed.
pub fn assemble_scan(root: String, files: Vec<(String, Outcome)>, previous_cache_len: usize, unreadable_dirs: usize,
    walk_skipped: usize) -> (r: (Library, ScanStats, ScanCache, bool))
    requires
        walk_skipped + files@.len() <= usize::MAX,
    ensures
        exists|sorted: Seq<(String, Outcome)>| #[trigger] in_path_order(files@, sorted)
            && assembled(sorted, root@, previous_cache_len, unreadable_dirs, walk_skipped, r),
        paths_in_order(song_paths(r.0.songs_view())),
{
    let sorted = sort_found(files);
    let r = assemble_in_order(root, sorted, previous_cache_len, unreadable_dirs, walk_skipped);
    proof {
        assert(in_path_order(files@, sorted@));
    }
    r
}

impl Outcome {
    /// A copy of the outcome.
    fn duplicate(&self) -> (o: Outcome)
        ensures
            o == *self,
    {
        let result = match &self.result {
            ProbeResult::Tags { metadata, freshly_probed } => ProbeResult::Tags {
                metadata: metadata.duplicate(),
                freshly_probed: *freshly_probed,
            },
            ProbeResult::Unreadable { freshly_probed } => ProbeResult::Unreadable { freshly_probed: *freshly_probed },
            ProbeResult::Unstattable => ProbeResult::Unstattable,
        };
        Outcome { size: self.size, mtime: self.mtime, result }
    }
}

/// The findings rearranged into path order (an unstable sort; findings for
/// equal paths may come either way).
fn sort_found(files: Vec<(String, Outcome)>) -> (sorted: Vec<(String, Outcome)>)
    ensures
        in_path_order(files@, sorted@),
{
    let ghost fv = files@;
    let ghost pv = file_paths(fv);
    let mut keys: Vec<Vec<KeyPart>> = Vec::new();
    let mut i: usize = 0;
    while i < files.len()
        invariant
            fv == files@,
            pv == file_paths(fv),
            i <= files@.len(),
            keys_view(keys@) == pv.map_values(|p: Seq<char>| path_key(p)).take(i as int),
        decreases files@.len() - i,
    {
        let cs = path_components(files[i].0.as_str());
        let mut k: Vec<KeyPart> = Vec::new();
        push_comps_key(&mut k, &cs);
        let ghost kb = keys_view(keys@);
        let ghost kv = key_view(k@);
        keys.push(k);
        proof {
            let all = pv.map_values(|p: Seq<char>| path_key(p));
            assert(kv =~= comps_key(comps_view(cs@)));
            assert(keys_view(keys@) =~= kb.push(kv));
            assert(all.take(i as int + 1) =~= all.take(i as int).push(all[i as int]));
        }
        i = i + 1;
    }
    proof {
        assert(keys_view(keys@) =~= pv.map_values(|p: Seq<char>| path_key(p)));
    }
    let order = sort_by_keys(&keys);
    let mut sorted: Vec<(String, Outcome)> = Vec::new();
    let mut j: usize = 0;
    while j < order.len()
        invariant
            fv == files@,
            is_permutation(order@, keys@.len()),
            keys@.len() == files@.len(),
            j <= order@.len(),
            sorted@.len() == j,
            forall|q: int| 0 <= q < j ==> #[trigger] sorted@[q] == files@[order@[q] as int],
        decreases order@.len() - j,
    {
        let k = order[j];
        let item = (files[k].0.clone(), files[k].1.duplicate());
        sorted.push(item);
        j = j + 1;
    }
    proof {
        let sp = file_paths(sorted@);
        let ks = pv.map_values(|p: Seq<char>| path_key(p));
        assert forall|a: int, b: int| 0 <= a < b < sp.len() implies !key_lt(path_key(#[trigger] sp[b]), path_key(#[trigger] sp[a])) by {
            assert(sp[a] == pv[order@[a] as int]);
            assert(sp[b] == pv[order@[b] as int]);
            assert(path_key(sp[a]) == ks[order@[a] as int]);
            assert(path_key(sp[b]) == ks[order@[b] as int]);
        }
        assert(is_permutation(order@, fv.len()) && sorted@.len() == order@.len()
            && forall|q: int| 0 <= q < sorted@.len() ==> #[trigger] sorted@[q] == fv[order@[q] as int]);
    }
    sorted
}

/// Assembles findings taken in the order given (see `assembled`); when
/// they come in path order, so do the library's songs.
fn assemble_in_order(root: String, files: Vec<(String, Outcome)>, previous_cache_len: usize, unreadable_dirs: usize,
    walk_skipped: usize) -> (r: (Library, ScanStats, ScanCache, bool))
    requires
        walk_skipped + files@.len() <= usize::MAX,
    ensures
        assembled(files@, root@, previous_cache_len, unreadable_dirs, walk_skipped, r),
        paths_in_order(file_paths(files@)) ==> paths_in_order(song_paths(r.0.songs_view())),
{
    let n: usize = files.len();
    let ghost fv = files@;
    let mut library = Library::empty(root);
    let mut next = ScanCache::new();
    let mut hits: usize = 0;
    let mut reprobed: usize = 0;
    let mut skipped: usize = walk_skipped;
    let mut fresh = false;
    let mut source = files;
    let mut queue: Vec<(String, Outcome)> = Vec::new();
    while source.len() > 0
        invariant
            source@.len() + queue@.len() == fv.len(),
            forall|q: int| 0 <= q < source@.len() ==> #[trigger] source@[q] == fv[q],
            forall|q: int| 0 <= q < queue@.len() ==> #[trigger] queue@[q] == fv[fv.len() - 1 - q],
        decreases source@.len(),
    {
        let item = source.pop().unwrap();
        queue.push(item);
    }
    let mut k: usize = 0;
    while queue.len() > 0
        invariant
            fv.len() == n,
            queue@.len() + k == n,
            forall|q: int| 0 <= q < queue@.len() ==> #[trigger] queue@[q] == fv[fv.len() - 1 - q],
            library.root_view() == root@,
            found_songs(library.songs_view()) == scan_state(fv, root@, k as int).0,
            hits == scan_state(fv, root@, k as int).1,
            reprobed == scan_state(fv, root@, k as int).2,
            skipped == walk_skipped + scan_state(fv, root@, k as int).3,
            fresh == scan_state(fv, root@, k as int).5,
            forall|key: Seq<char>| #[trigger] next.lookup_spec(key) == lookup(scan_state(fv, root@, k as int).4, key),
            hits + reprobed <= k,
            skipped <= walk_skipped + k,
            walk_skipped + n <= usize::MAX,
        decreases queue@.len(),
    {
        let ghost last = queue@[queue@.len() - 1];
        let (path, outcome) = queue.pop().unwrap();
        proof {
            assert(last == fv[k as int]);
        }
        let ghost st = scan_state(fv, root@, k as int);
        let rel = relative_path(path.as_str(), library.root());
        let Outcome { size, mtime, result } = outcome;
        match result {
            ProbeResult::Unstattable => {
                skipped = skipped + 1;
            },
            ProbeResult::Unreadable { freshly_probed } => {
                skipped = skipped + 1;
                if freshly_probed {
                    reprobed = reprobed + 1;
                    fresh = true;
                } else {
                    hits = hits + 1;
                }
                let ghost rv = rel@;
                next.insert(rel, Entry { size, mtime, probed: Probed::Unreadable });
                proof {
                    assert forall|key: Seq<char>| #[trigger] next.lookup_spec(key)
                        == lookup(st.4.push((rv, Entry { size, mtime, probed: Probed::Unreadable })), key) by {
                        lemma_lookup_push(st.4, (rv, Entry { size, mtime, probed: Probed::Unreadable }), key);
                    }
                }
            },
            ProbeResult::Tags { metadata, freshly_probed } => {
                if freshly_probed {
                    reprobed = reprobed + 1;
                    fresh = true;
                } else {
                    hits = hits + 1;
                }
                let ghost rv = rel@;
                let ghost md = metadata;
                next.insert(rel, Entry { size, mtime, probed: Probed::Tags(metadata.duplicate()) });
                proof {
                    assert forall|key: Seq<char>| #[trigger] next.lookup_spec(key)
                        == lookup(st.4.push((rv, Entry { size, mtime, probed: Probed::Tags(md) })), key) by {
                        lemma_lookup_push(st.4, (rv, Entry { size, mtime, probed: Probed::Tags(md) }), key);
                    }
                }
                let song = Song::from_cached_with_stat(path, size, mtime, metadata);
                let id = song.id();
                proof {
                    use_type_invariant(&library);
                    lemma_kept_ids(st.0, library.songs_view(), id);
                }
                let existing_path_differs = match library.get(id) {
                    Some(existing) => !str_eq(existing.path(), song.path()),
                    None => false,
                };
                let ghost before = library.songs_view();
                match library.insert(song) {
                    InsertOutcome::Inserted(_) => {
                        proof {
                            assert(found_songs(library.songs_view()) =~= found_songs(before).push(
                                (id, last.0@, last.1.result->Tags_metadata, mtime)));
                        }
                    },
                    InsertOutcome::Collision { .. } => {
                        if existing_path_differs {
                            skipped = skipped + 1;
                        }
                    },
                }
            },
        }
        k = k + 1;
    }
    let considered = n;
    let stats = ScanStats { cache_hits: hits, reprobed, skipped_files: skipped, unreadable_dirs, files_considered: considered };
    let changed = fresh || next.len() != previous_cache_len;
    proof {
        if paths_in_order(file_paths(fv)) {
            law_scan_keeps_path_order(fv, root@);
            let kp = scan_state(fv, root@, n as int).0.map_values(|f: FoundSong| f.1);
            assert(song_paths(library.songs_view()) =~= kp) by {
                assert forall|i: int| 0 <= i < kp.len() implies #[trigger] song_paths(library.songs_view())[i] == kp[i] by {
                    assert(found_songs(library.songs_view())[i].1 == library.songs_view()[i].path_view());
                }
            }
        }
    }
    (library, stats, next, changed)
}

/// Law: a song added to a library that did not hold its identity is then
/// found under that identity, and every song found before is still found.
pub proof fn law_insert_then_found(s: Seq<Song>, song: Song, other: SongId)
    requires
        ids_distinct(s),
        find(s, song.id_view()) is None,
    ensures
        ids_distinct(s.push(song)),
        find(s.push(song), song.id_view()) == Some(song),
        other != song.id_view() ==> find(s.push(song), other) == find(s, other),
{
    let t = s.push(song);
    assert forall|i: int, j: int| 0 <= i < j < t.len() implies t[i].id_view() != t[j].id_view() by {
        if j == s.len() {
            if t[i].id_view() == song.id_view() {
                assert(s[i].id_view() == song.id_view());
            }
        } else {
            assert(t[i] == s[i] && t[j] == s[j]);
        }
    }
    lemma_find_at(t, s.len() as int);
    if other != song.id_view() {
        if find(s, other) is Some {
            let i = choose|i: int| 0 <= i < s.len() && (#[trigger] s[i]).id_view() == other;
            assert(t[i] == s[i]);
            lemma_find_at(s, i);
            lemma_find_at(t, i);
        } else {
            if find(t, other) is Some {
                let i = choose|i: int| 0 <= i < t.len() && (#[trigger] t[i]).id_view() == other;
                assert(t[i] == s[i]);
            }
        }
    }
}

} // verus!
