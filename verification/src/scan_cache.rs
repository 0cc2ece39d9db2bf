//! The scan cache: what the last scan learned about each audio file, keyed
//! by its path under the library root, so that an unchanged file is not
//! read again.
use vstd::prelude::*;
use crate::rows::{comps_key, comps_view, path_components, push_comps_key, spec_path_components, PathComponent};
use crate::song::Metadata;
use crate::sort_key::{is_permutation, key_view, keys_view, sort_by_keys, sorted_by_keys, KeyPart, PartView};
use crate::text::str_eq;

verus! {

/// What reading a file gave: its tags, or nothing readable.
pub enum Probed {
    Tags(Metadata),
    Unreadable,
}

/// What the cache remembers of one file: its size and modification time
/// when it was read, and what reading it gave.
pub struct Entry {
    pub size: u64,
    pub mtime: u64,
    pub probed: Probed,
}

/// The remembered files, each path once (paths compared component by
/// component, as `Path` compares them), with each path's components.
pub struct ScanCache {
    entries: Vec<(String, Entry)>,
    comps: Vec<Vec<PathComponent>>,
}

/// Whether two paths are the same path: the same components, as
/// `std::path::Path`'s equality has it (so `a//b` and `a/b` are the same).
pub open spec fn same_path(a: Seq<char>, b: Seq<char>) -> bool {
    spec_path_components(a) == spec_path_components(b)
}

/// The entries as plain values.
pub open spec fn entries_view(v: Seq<(String, Entry)>) -> Seq<(Seq<char>, Entry)> {
    v.map_values(|p: (String, Entry)| (p.0@, p.1))
}

/// The entry stored for the path `key`, the last one when there are
/// several.
pub open spec fn lookup(s: Seq<(Seq<char>, Entry)>, key: Seq<char>) -> Option<Entry>
    decreases s.len(),
{
    if s.len() == 0 {
        None
    } else if same_path(s.last().0, key) {
        Some(s.last().1)
    } else {
        lookup(s.drop_last(), key)
    }
}

/// No path occurs twice.
pub open spec fn keys_unique(s: Seq<(Seq<char>, Entry)>) -> bool {
    forall|i: int, j: int| 0 <= i < j < s.len() ==> !same_path(#[trigger] s[i].0, #[trigger] s[j].0)
}

/// Looking up after appending an entry finds the new entry for its path,
/// and what was there before for every other path.
pub proof fn lemma_lookup_push(s: Seq<(Seq<char>, Entry)>, x: (Seq<char>, Entry), key: Seq<char>)
    ensures
        lookup(s.push(x), key) == (if same_path(x.0, key) { Some(x.1) } else { lookup(s, key) }),
{
    assert(s.push(x).drop_last() =~= s);
}

proof fn lemma_lookup_at(s: Seq<(Seq<char>, Entry)>, i: int, key: Seq<char>)
    requires
        keys_unique(s),
        0 <= i < s.len(),
        same_path(s[i].0, key),
    ensures
        lookup(s, key) == Some(s[i].1),
    decreases s.len(),
{
    if i < s.len() - 1 {
        assert(s.drop_last()[i] == s[i]);
        assert(!same_path(s[i].0, s[s.len() - 1].0));
        assert(keys_unique(s.drop_last())) by {
            assert forall|a: int, b: int| 0 <= a < b < s.drop_last().len() implies
                !same_path(#[trigger] s.drop_last()[a].0, #[trigger] s.drop_last()[b].0) by {
                assert(s.drop_last()[a] == s[a] && s.drop_last()[b] == s[b]);
            }
        }
        lemma_lookup_at(s.drop_last(), i, key);
    }
}

proof fn lemma_lookup_none(s: Seq<(Seq<char>, Entry)>, key: Seq<char>)
    requires
        forall|i: int| 0 <= i < s.len() ==> !same_path(#[trigger] s[i].0, key),
    ensures
        lookup(s, key) is None,
    decreases s.len(),
{
    if s.len() > 0 {
        assert forall|i: int| 0 <= i < s.len() - 1 implies !same_path(#[trigger] s.drop_last()[i].0, key) by {
            assert(s.drop_last()[i] == s[i]);
        }
        lemma_lookup_none(s.drop_last(), key);
    }
}

proof fn lemma_lookup_update(s: Seq<(Seq<char>, Entry)>, i: int, e: Entry, key: Seq<char>)
    requires
        keys_unique(s),
        0 <= i < s.len(),
    ensures
        lookup(s.update(i, (s[i].0, e)), key) == (if same_path(key, s[i].0) { Some(e) } else { lookup(s, key) }),
    decreases s.len(),
{
    let t = s.update(i, (s[i].0, e));
    if i == s.len() - 1 {
        assert(t.drop_last() =~= s.drop_last());
    } else {
        assert(t.drop_last() =~= s.drop_last().update(i, (s[i].0, e)));
        assert(s.drop_last()[i] == s[i]);
        assert(t.last() == s.last());
        assert(!same_path(s[i].0, s[s.len() - 1].0));
        assert(keys_unique(s.drop_last())) by {
            assert forall|a: int, b: int| 0 <= a < b < s.drop_last().len() implies
                !same_path(#[trigger] s.drop_last()[a].0, #[trigger] s.drop_last()[b].0) by {
                assert(s.drop_last()[a] == s[a] && s.drop_last()[b] == s[b]);
            }
        }
        lemma_lookup_update(s.drop_last(), i, e, key);
    }
}

/// Whether two lists of components are the same.
fn comps_eq(a: &Vec<PathComponent>, b: &Vec<PathComponent>) -> (r: bool)
    ensures
        r == (comps_view(a@) == comps_view(b@)),
{
    if a.len() != b.len() {
        proof {
            assert(comps_view(a@).len() != comps_view(b@).len());
        }
        return false;
    }
    let mut i: usize = 0;
    while i < a.len()
        invariant
            a@.len() == b@.len(),
            i <= a@.len(),
            forall|k: int| 0 <= k < i ==> #[trigger] comps_view(a@)[k] == comps_view(b@)[k],
        decreases a@.len() - i,
    {
        if a[i].kind != b[i].kind || !str_eq(a[i].name.as_str(), b[i].name.as_str()) {
            proof {
                assert(comps_view(a@)[i as int] != comps_view(b@)[i as int]);
            }
            return false;
        }
        i = i + 1;
    }
    proof {
        assert(comps_view(a@) =~= comps_view(b@));
    }
    true
}

impl ScanCache {
    #[verifier::type_invariant]
    closed spec fn unique(&self) -> bool {
        &&& keys_unique(entries_view(self.entries@))
        &&& self.comps@.len() == self.entries@.len()
        &&& forall|i: int| 0 <= i < self.comps@.len()
            ==> comps_view(#[trigger] self.comps@[i]@) == spec_path_components(self.entries@[i].0@)
    }

    /// The remembered files as plain values, each path once.
    pub closed spec fn entries_spec(&self) -> Seq<(Seq<char>, Entry)> {
        entries_view(self.entries@)
    }

    /// What the cache holds for `key`.
    pub open spec fn lookup_spec(&self, key: Seq<char>) -> Option<Entry> {
        lookup(self.entries_spec(), key)
    }

    /// An empty cache.
    pub fn new() -> (c: ScanCache)
        ensures
            c.entries_spec().len() == 0,
            forall|k: Seq<char>| #[trigger] c.lookup_spec(k) is None,
    {
        let c = ScanCache { entries: Vec::new(), comps: Vec::new() };
        assert(entries_view(c.entries@) =~= seq![]);
        c
    }

    /// The number of remembered files.
    pub fn len(&self) -> (n: usize)
        ensures
            n == self.entries_spec().len(),
    {
        self.entries.len()
    }

    /// Whether no file is remembered.
    pub fn is_empty(&self) -> (b: bool)
        ensures
            b == (self.entries_spec().len() == 0),
    {
        self.entries.len() == 0
    }

    fn position(&self, relative: &str) -> (r: Option<usize>)
        ensures
            r matches Some(i) ==> i < self.entries_spec().len() && same_path(self.entries_spec()[i as int].0, relative@),
            r is None ==> forall|i: int| 0 <= i < self.entries_spec().len()
                ==> !same_path(#[trigger] self.entries_spec()[i].0, relative@),
    {
        proof {
            use_type_invariant(self);
        }
        let target = path_components(relative);
        let mut i: usize = 0;
        while i < self.comps.len()
            invariant
                i <= self.comps@.len(),
                self.comps@.len() == self.entries@.len(),
                forall|q: int| 0 <= q < self.comps@.len()
                    ==> comps_view(#[trigger] self.comps@[q]@) == spec_path_components(self.entries@[q].0@),
                comps_view(target@) == spec_path_components(relative@),
                forall|k: int| 0 <= k < i ==> !same_path(#[trigger] entries_view(self.entries@)[k].0, relative@),
            decreases self.comps@.len() - i,
        {
            if comps_eq(&self.comps[i], &target) {
                return Some(i);
            }
            i = i + 1;
        }
        None
    }

    /// What the cache remembers of the file at `relative`.
    pub fn get(&self, relative: &str) -> (r: Option<&Entry>)
        ensures
            match r {
                Some(e) => self.lookup_spec(relative@) == Some(*e),
                None => self.lookup_spec(relative@) is None,
            },
    {
        proof {
            use_type_invariant(self);
        }
        match self.position(relative) {
            Some(i) => {
                proof {
                    lemma_lookup_at(self.entries_spec(), i as int, relative@);
                }
                Some(&self.entries[i].1)
            },
            None => {
                proof {
                    lemma_lookup_none(self.entries_spec(), relative@);
                }
                None
            },
        }
    }

    /// What reading the file at `relative` gave, if the cache remembers it
    /// with the same size and modification time; a changed file gets
    /// nothing, so that it is read again.
    pub fn get_fresh(&self, relative: &str, size: u64, mtime: u64) -> (r: Option<&Probed>)
        ensures
            match r {
                Some(p) => self.lookup_spec(relative@) matches Some(e) && e.size == size && e.mtime == mtime && e.probed == *p,
                None => !(self.lookup_spec(relative@) matches Some(e) && e.size == size && e.mtime == mtime),
            },
    {
        match self.get(relative) {
            Some(e) => {
                if e.size == size && e.mtime == mtime {
                    Some(&e.probed)
                } else {
                    None
                }
            },
            None => None,
        }
    }

    /// Remembers `entry` for the file at `relative`, replacing what was
    /// remembered before for the same path (the path as first written is
    /// kept).
    pub fn insert(&mut self, relative: String, entry: Entry)
        ensures
            forall|k: Seq<char>| #[trigger] final(self).lookup_spec(k)
                == (if same_path(k, relative@) { Some(entry) } else { old(self).lookup_spec(k) }),
            old(self).lookup_spec(relative@) is Some ==> final(self).entries_spec().len() == old(self).entries_spec().len(),
            old(self).lookup_spec(relative@) is None ==> final(self).entries_spec().len() == old(self).entries_spec().len() + 1,
    {
        proof {
            use_type_invariant(&*self);
        }
        let ghost before = self.entries_spec();
        match self.position(relative.as_str()) {
            Some(i) => {
                proof {
                    lemma_lookup_at(before, i as int, relative@);
                }
                let mut taken = ScanCache { entries: Vec::new(), comps: Vec::new() };
                std::mem::swap(&mut taken, self);
                let ScanCache { entries: mut entries, comps } = taken;
                let key = String::from_str(entries[i].0.as_str());
                entries.set(i, (key, entry));
                proof {
                    assert(entries_view(entries@) =~= before.update(i as int, (before[i as int].0, entry)));
                    assert forall|k: Seq<char>| #[trigger] lookup(entries_view(entries@), k)
                        == (if same_path(k, relative@) { Some(entry) } else { lookup(before, k) }) by {
                        lemma_lookup_update(before, i as int, entry, k);
                    }
                    assert forall|a: int, b: int| 0 <= a < b < entries_view(entries@).len() implies
                        !same_path(#[trigger] entries_view(entries@)[a].0, #[trigger] entries_view(entries@)[b].0) by {
                        assert(entries_view(entries@)[a].0 == before[a].0);
                        assert(entries_view(entries@)[b].0 == before[b].0);
                    }
                    assert forall|q: int| 0 <= q < comps@.len() implies
                        comps_view(#[trigger] comps@[q]@) == spec_path_components(entries@[q].0@) by {
                        assert(entries@[q].0@ == before[q].0);
                    }
                }
                *self = ScanCache { entries, comps };
            },
            None => {
                proof {
                    lemma_lookup_none(before, relative@);
                }
                let ghost rv = relative@;
                let cs = path_components(relative.as_str());
                let mut taken = ScanCache { entries: Vec::new(), comps: Vec::new() };
                std::mem::swap(&mut taken, self);
                let ScanCache { entries: mut entries, comps: mut comps } = taken;
                let ghost old_comps = comps@;
                let ghost old_entries = entries@;
                entries.push((relative, entry));
                comps.push(cs);
                proof {
                    assert(entries_view(entries@) =~= before.push((rv, entry)));
                    assert(entries_view(entries@).drop_last() =~= before);
                    assert forall|a: int, b: int| 0 <= a < b < entries_view(entries@).len() implies
                        !same_path(#[trigger] entries_view(entries@)[a].0, #[trigger] entries_view(entries@)[b].0) by {
                        if b == before.len() {
                            assert(entries_view(entries@)[a] == before[a]);
                        } else {
                            assert(entries_view(entries@)[a] == before[a] && entries_view(entries@)[b] == before[b]);
                        }
                    }
                    assert forall|q: int| 0 <= q < comps@.len() implies
                        comps_view(#[trigger] comps@[q]@) == spec_path_components(entries@[q].0@) by {
                        if q < before.len() {
                            assert(comps@[q] == old_comps[q]);
                            assert(entries@[q] == old_entries[q]);
                        }
                    }
                }
                *self = ScanCache { entries, comps };
            },
        }
    }

    /// A cache holding the given entries; when a path comes more than once,
    /// the last entry for it wins.
    pub fn from_entries(entries: Vec<(String, Entry)>) -> (c: ScanCache)
        ensures
            forall|k: Seq<char>| #[trigger] c.lookup_spec(k) == lookup(entries_view(entries@), k),
    {
        let mut c = ScanCache::new();
        let ghost ev = entries@;
        let ghost all = entries_view(entries@);
        let n: usize = entries.len();
        let mut source = entries;
        let mut rest: Vec<(String, Entry)> = Vec::new();
        while source.len() > 0
            invariant
                source@.len() + rest@.len() == ev.len(),
                forall|q: int| 0 <= q < source@.len() ==> #[trigger] source@[q] == ev[q],
                forall|q: int| 0 <= q < rest@.len() ==> #[trigger] rest@[q] == ev[ev.len() - 1 - q],
            decreases source@.len(),
        {
            let item = source.pop().unwrap();
            rest.push(item);
        }
        let mut i: usize = 0;
        while rest.len() > 0
            invariant
                all == entries_view(ev),
                rest@.len() + i == ev.len(),
                ev.len() == n,
                forall|q: int| 0 <= q < rest@.len() ==> #[trigger] rest@[q] == ev[ev.len() - 1 - q],
                forall|k: Seq<char>| #[trigger] c.lookup_spec(k) == lookup(all.take(i as int), k),
            decreases rest@.len(),
        {
            let ghost last = rest@[rest@.len() - 1];
            let (path, entry) = rest.pop().unwrap();
            proof {
                assert(last == ev[i as int]);
                assert(all[i as int] == (path@, entry));
                assert(all.take(i as int + 1).drop_last() =~= all.take(i as int));
                assert(all.take(i as int + 1).last() == (path@, entry));
            }
            c.insert(path, entry);
            i = i + 1;
        }
        proof {
            assert(all.take(i as int) =~= all);
        }
        c
    }
}

/// `out` lists the entries `s` in the order `order` gives, which sorts
/// their paths component by component, as `Path::cmp` does.
pub open spec fn in_path_order(out: Seq<(Seq<char>, Entry)>, s: Seq<(Seq<char>, Entry)>, order: Seq<usize>) -> bool {
    &&& is_permutation(order, s.len())
    &&& sorted_by_keys(order, s.map_values(|p: (Seq<char>, Entry)| comps_key(spec_path_components(p.0))))
    &&& out.len() == order.len()
    &&& forall|i: int| 0 <= i < out.len() ==> #[trigger] out[i] == s[order[i] as int]
}

/// The entries with their paths as plain values.
pub open spec fn pairs_view(v: Seq<(&str, &Entry)>) -> Seq<(Seq<char>, Entry)> {
    v.map_values(|p: (&str, &Entry)| (p.0@, *p.1))
}

impl ScanCache {
    /// The remembered files ordered by path, as the cache is written out.
    pub fn ordered_entries(&self) -> (out: Vec<(&str, &Entry)>)
        ensures
            exists|order: Seq<usize>| #[trigger] in_path_order(pairs_view(out@), self.entries_spec(), order),
    {
        let ghost es = self.entries_spec();
        let mut keys: Vec<Vec<KeyPart>> = Vec::new();
        let mut i: usize = 0;
        while i < self.entries.len()
            invariant
                es == entries_view(self.entries@),
                i <= self.entries@.len(),
                keys_view(keys@) == es.map_values(|p: (Seq<char>, Entry)| comps_key(spec_path_components(p.0))).take(i as int),
            decreases self.entries@.len() - i,
        {
            let cs = path_components(self.entries[i].0.as_str());
            let mut k: Vec<KeyPart> = Vec::new();
            push_comps_key(&mut k, &cs);
            let ghost kb = keys_view(keys@);
            let ghost kv = key_view(k@);
            proof {
                assert(key_view(k@) =~= comps_key(comps_view(cs@)));
            }
            keys.push(k);
            proof {
                let all = es.map_values(|p: (Seq<char>, Entry)| comps_key(spec_path_components(p.0)));
                assert(keys_view(keys@) =~= kb.push(kv));
                assert(all.take(i as int + 1) =~= all.take(i as int).push(all[i as int]));
            }
            i = i + 1;
        }
        proof {
            let all = es.map_values(|p: (Seq<char>, Entry)| comps_key(spec_path_components(p.0)));
            assert(keys_view(keys@) =~= all);
        }
        let order = sort_by_keys(&keys);
        let mut out: Vec<(&str, &Entry)> = Vec::new();
        let mut j: usize = 0;
        while j < order.len()
            invariant
                es == entries_view(self.entries@),
                is_permutation(order@, keys@.len()),
                keys@.len() == self.entries@.len(),
                j <= order@.len(),
                out@.len() == j,
                forall|q: int| 0 <= q < j ==> #[trigger] pairs_view(out@)[q] == es[order@[q] as int],
            decreases order@.len() - j,
        {
            let e = &self.entries[order[j]];
            let ghost ob = pairs_view(out@);
            out.push((e.0.as_str(), &e.1));
            proof {
                assert(pairs_view(out@) =~= ob.push((e.0@, e.1)));
                assert(es[order@[j as int] as int] == (e.0@, e.1));
            }
            j = j + 1;
        }
        assert(in_path_order(pairs_view(out@), es, order@));
        out
    }
}

} // verus!
