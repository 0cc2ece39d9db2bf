//! The rows a song panel shows: songs sorted within groups, with a heading
//! for each artist or directory, and search results ranked by relevance.
use vstd::prelude::*;
use crate::navigation::Row;
use crate::song::{Song, SongId, score_runs, spec_prefix_score, term_views};
use crate::sort_key::{is_permutation, key_less, key_view, sort_by_keys, sorted_by_keys, KeyPart, PartView, keys_view};
use crate::state::{filters, is_filtering, Category, PlaylistDisplayMode, Sort};
use crate::text::{search_terms, spec_search_terms, strings_view};
use crate::style::{format_duration, format_mtime, marquee_window_at, marquee_spec, now_millis, spec_duration_text, spec_mtime_text, MARQUEE_GAP_LEN};
use crate::text::{push_char, seq_lt, str_eq};

verus! {

/// The components of a path, as `std::path::Path::components` splits it:
/// each with its kind (0 a Windows prefix, 1 the root, 2 ".", 3 "..", 4 a
/// name) and its text.
pub uninterp spec fn spec_path_components(path: Seq<char>) -> Seq<(u8, Seq<char>)>;

/// One component of a path.
pub struct PathComponent {
    pub kind: u8,
    pub name: String,
}

/// The plain values of a list of components.
pub open spec fn comps_view(v: Seq<PathComponent>) -> Seq<(u8, Seq<char>)> {
    v.map_values(|c: PathComponent| (c.kind, c.name@))
}

/// Trusted: walks `std::path::Path::components` and records each
/// component's kind and its text (`Component::as_os_str`, lossily
/// converted); the contract only names the result, which depends on the
/// path alone.
#[verifier::external_body]
pub(crate) fn path_components(path: &str) -> (v: Vec<PathComponent>)
    ensures
        comps_view(v@) == spec_path_components(path@),
{
    std::path::Path::new(path)
        .components()
        .map(|c| {
            let kind: u8 = match c {
                std::path::Component::Prefix(_) => 0,
                std::path::Component::RootDir => 1,
                std::path::Component::CurDir => 2,
                std::path::Component::ParentDir => 3,
                std::path::Component::Normal(_) => 4,
            };
            PathComponent { kind, name: c.as_os_str().to_string_lossy().into_owned() }
        })
        .collect()
}

/// Whether `p` starts with the components of `q`.
pub open spec fn comps_start_with(p: Seq<(u8, Seq<char>)>, q: Seq<(u8, Seq<char>)>) -> bool {
    q.len() <= p.len() && p.take(q.len() as int) == q
}

/// The components of the directory holding `path`, relative to `root`
/// when `path` lies under it: `Path::strip_prefix` then `Path::parent`.
pub open spec fn rel_parent(path: Seq<char>, root: Seq<char>) -> Seq<(u8, Seq<char>)> {
    let p = spec_path_components(path);
    let r = spec_path_components(root);
    let rel = if comps_start_with(p, r) { p.skip(r.len() as int) } else { p };
    if rel.len() > 0 { rel.drop_last() } else { rel }
}

/// The key parts of a list of components, each as its kind and its text.
pub open spec fn comps_parts(cs: Seq<(u8, Seq<char>)>) -> Seq<PartView>
    decreases cs.len(),
{
    if cs.len() == 0 {
        seq![]
    } else {
        comps_parts(cs.drop_last()) + seq![(false, (cs.last().0 + 1) as u128, Seq::empty()), (true, 0u128, cs.last().1)]
    }
}

/// The key of a path: its components, then an end mark that sorts before
/// any component, so that paths compare component by component as
/// `Path::cmp` does.
pub open spec fn comps_key(cs: Seq<(u8, Seq<char>)>) -> Seq<PartView> {
    comps_parts(cs).push((false, 0u128, Seq::empty()))
}

/// A text key part.
pub open spec fn text_part(s: Seq<char>) -> PartView {
    (true, 0u128, s)
}

/// A number key part.
pub open spec fn num_part(n: u128) -> PartView {
    (false, n, Seq::empty())
}

/// The order within a group: by title; by play time, then title; by
/// artist, then title; by path; or newest first, then by path.
pub open spec fn within_key(s: Song, sort: Sort) -> Seq<PartView> {
    match sort {
        Sort::Title => seq![text_part(s.sort_title_view())],
        Sort::Duration => seq![num_part(s.metadata_view().duration_nanos), text_part(s.sort_title_view())],
        Sort::Artist => seq![text_part(s.sort_artist_view()), text_part(s.sort_title_view())],
        Sort::Path => comps_key(spec_path_components(s.path_view())),
        Sort::DateModified => seq![num_part((u64::MAX - s.mtime_view()) as u128)]
            + comps_key(spec_path_components(s.path_view())),
    }
}

/// The order of groups: none, by artist, or by directory under the root.
pub open spec fn group_key(s: Song, category: Category, root: Seq<char>) -> Seq<PartView> {
    match category {
        Category::Flat => seq![],
        Category::Artist => seq![text_part(s.sort_artist_view())],
        Category::Path => comps_key(rel_parent(s.path_view(), root)),
    }
}

/// The whole sort key of a song in a panel.
pub open spec fn song_key(s: Song, category: Category, sort: Sort, root: Seq<char>) -> Seq<PartView> {
    group_key(s, category, root) + within_key(s, sort)
}

fn push_text(k: &mut Vec<KeyPart>, s: &str)
    ensures
        key_view(final(k)@) == key_view(old(k)@).push(text_part(s@)),
{
    k.push(KeyPart::Text(String::from_str(s)));
    proof {
        assert(key_view(k@) =~= key_view(old(k)@).push(text_part(s@)));
    }
}

fn push_num(k: &mut Vec<KeyPart>, n: u128)
    ensures
        key_view(final(k)@) == key_view(old(k)@).push(num_part(n)),
{
    k.push(KeyPart::Num(n));
    proof {
        assert(key_view(k@) =~= key_view(old(k)@).push(num_part(n)));
    }
}

pub(crate) fn push_comps_key(k: &mut Vec<KeyPart>, cs: &Vec<PathComponent>)
    ensures
        key_view(final(k)@) == key_view(old(k)@) + comps_key(comps_view(cs@)),
{
    let mut i: usize = 0;
    while i < cs.len()
        invariant
            i <= cs@.len(),
            key_view(k@) == key_view(old(k)@) + comps_parts(comps_view(cs@).take(i as int)),
        decreases cs@.len() - i,
    {
        let ghost before = key_view(k@);
        proof {
            assert(comps_view(cs@).take(i as int + 1).drop_last() =~= comps_view(cs@).take(i as int));
        }
        push_num(k, (cs[i].kind as u128) + 1);
        push_text(k, cs[i].name.as_str());
        i = i + 1;
        proof {
            assert(key_view(k@) =~= key_view(old(k)@) + comps_parts(comps_view(cs@).take(i as int)));
        }
    }
    proof {
        assert(comps_view(cs@).take(cs@.len() as int) =~= comps_view(cs@));
    }
    push_num(k, 0);
    proof {
        assert(key_view(k@) =~= key_view(old(k)@) + comps_key(comps_view(cs@)));
    }
}

/// The components of the directory holding `path`, relative to `root`.
fn relative_parent(path: &str, root: &str, root_comps: &Vec<PathComponent>) -> (v: Vec<PathComponent>)
    requires
        comps_view(root_comps@) == spec_path_components(root@),
    ensures
        comps_view(v@) == rel_parent(path@, root@),
{
    let p = path_components(path);
    let mut starts = root_comps.len() <= p.len();
    let mut i: usize = 0;
    while starts && i < root_comps.len()
        invariant
            root_comps@.len() <= p@.len() || !starts,
            i <= root_comps@.len(),
            starts ==> forall|k: int| 0 <= k < i ==> #[trigger] comps_view(p@)[k] == comps_view(root_comps@)[k],
            !starts ==> !comps_start_with(comps_view(p@), comps_view(root_comps@)),
        decreases root_comps@.len() - i,
    {
        if p[i].kind != root_comps[i].kind || !str_eq(p[i].name.as_str(), root_comps[i].name.as_str()) {
            proof {
                if comps_start_with(comps_view(p@), comps_view(root_comps@)) {
                    assert(comps_view(p@).take(root_comps@.len() as int)[i as int] == comps_view(p@)[i as int]);
                }
            }
            starts = false;
        }
        i = i + 1;
    }
    let skip = if starts { root_comps.len() } else { 0 };
    proof {
        if starts {
            assert(comps_view(p@).take(root_comps@.len() as int) =~= comps_view(root_comps@));
        }
    }
    let mut rel: Vec<PathComponent> = Vec::new();
    let mut k: usize = skip;
    while k < p.len()
        invariant
            skip <= k <= p@.len(),
            comps_view(rel@) == comps_view(p@).subrange(skip as int, k as int),
        decreases p@.len() - k,
    {
        let ghost before = rel@;
        let name = p[k].name.clone();
        assert(name@ == p@[k as int].name@);
        rel.push(PathComponent { kind: p[k].kind, name });
        proof {
            assert(comps_view(rel@) =~= comps_view(before).push((p@[k as int].kind, p@[k as int].name@)));
            assert(comps_view(p@).subrange(skip as int, k as int + 1) =~= comps_view(p@).subrange(skip as int, k as int).push(comps_view(p@)[k as int]));
        }
        k = k + 1;
    }
    if rel.len() > 0 {
        rel.pop();
        proof {
            assert(comps_view(rel@) =~= comps_view(p@).skip(skip as int).drop_last());
        }
    } else {
        proof {
            assert(comps_view(rel@) =~= comps_view(p@).skip(skip as int));
        }
    }
    proof {
        assert(comps_view(p@) == spec_path_components(path@));
    }
    rel
}

/// The sort key of one song, built part by part.
fn song_key_exec(song: &Song, category: Category, sort: Sort, root: &str, root_comps: &Vec<PathComponent>) -> (k: Vec<KeyPart>)
    requires
        comps_view(root_comps@) == spec_path_components(root@),
    ensures
        key_view(k@) == song_key(*song, category, sort, root@),
{
    let mut k: Vec<KeyPart> = Vec::new();
    proof {
        assert(key_view(k@) =~= seq![]);
    }
    match category {
        Category::Flat => {},
        Category::Artist => push_text(&mut k, song.sort_artist()),
        Category::Path => {
            let dirs = relative_parent(song.path(), root, root_comps);
            push_comps_key(&mut k, &dirs);
        },
    }
    let ghost g = key_view(k@);
    proof {
        assert(g =~= group_key(*song, category, root@));
    }
    match sort {
        Sort::Title => push_text(&mut k, song.sort_title()),
        Sort::Duration => {
            push_num(&mut k, song.metadata().duration_nanos);
            push_text(&mut k, song.sort_title());
        },
        Sort::Artist => {
            push_text(&mut k, song.sort_artist());
            push_text(&mut k, song.sort_title());
        },
        Sort::Path => {
            let cs = path_components(song.path());
            push_comps_key(&mut k, &cs);
        },
        Sort::DateModified => {
            push_num(&mut k, (u64::MAX - song.modified()) as u128);
            let cs = path_components(song.path());
            push_comps_key(&mut k, &cs);
        },
    }
    proof {
        assert(key_view(k@) =~= g + within_key(*song, sort));
    }
    k
}

/// A row as plain values: whether it is a song, the song's identity, its
/// depth, and a heading's text.
pub type RowView = (bool, u64, usize, Seq<char>);

/// The plain values of a row.
pub open spec fn row_view(r: Row) -> RowView {
    match r {
        Row::Song(id, depth) => (true, id.0, depth, Seq::empty()),
        Row::Header(s) => (false, 0u64, 0usize, s@),
    }
}

/// The plain values of a list of rows.
pub open spec fn rows_view(v: Seq<Row>) -> Seq<RowView> {
    v.map_values(|r: Row| row_view(r))
}

/// The row of a song at a depth.
pub open spec fn song_row(s: Song, depth: usize) -> RowView {
    (true, s.id_view().0, depth, Seq::empty())
}

/// A heading row.
pub open spec fn header_row(text: Seq<char>) -> RowView {
    (false, 0u64, 0usize, text)
}

/// Songs in order, with no headings.
pub open spec fn flat_rows(ss: Seq<Song>) -> Seq<RowView> {
    ss.map_values(|s: Song| song_row(s, 0))
}

/// Songs in order, each run of songs by one artist under a heading that
/// names the artist.
pub open spec fn artist_rows(ss: Seq<Song>) -> Seq<RowView>
    decreases ss.len(),
{
    if ss.len() == 0 {
        seq![]
    } else {
        let s = ss.last();
        let heading = if ss.len() == 1 || ss[ss.len() - 2].artist_view() != s.artist_view() {
            seq![header_row(s.artist_view())]
        } else {
            seq![]
        };
        artist_rows(ss.drop_last()) + heading + seq![song_row(s, 0)]
    }
}

/// The names of the directories that hold a song, under the root.
pub open spec fn dir_names(s: Song, root: Seq<char>) -> Seq<Seq<char>> {
    rel_parent(s.path_view(), root).map_values(|c: (u8, Seq<char>)| c.1)
}

/// How many leading names two directory lists share, from position `i`.
pub open spec fn shared_from(a: Seq<Seq<char>>, b: Seq<Seq<char>>, i: int) -> int
    decreases a.len() - i,
{
    if i < 0 || i >= a.len() || i >= b.len() || a[i] != b[i] {
        i
    } else {
        shared_from(a, b, i + 1)
    }
}

/// Two spaces for each level of depth.
pub open spec fn indent(depth: int) -> Seq<char> {
    Seq::new((2 * depth) as nat, |i: int| ' ')
}

/// The headings a song adds in the directory tree: one for each directory
/// from the first one it does not share with the song before it, indented
/// by its depth.
pub open spec fn dir_headings(dirs: Seq<Seq<char>>, shared: int) -> Seq<RowView> {
    Seq::new((dirs.len() - shared) as nat, |j: int| header_row(indent(shared + j) + dirs[shared + j]))
}

/// Songs in order as a directory tree: each song under headings for the
/// directories it does not share with the song before it, at the depth of
/// its directory.
pub open spec fn path_rows(ss: Seq<Song>, root: Seq<char>) -> Seq<RowView>
    decreases ss.len(),
{
    if ss.len() == 0 {
        seq![]
    } else {
        let s = ss.last();
        let dirs = dir_names(s, root);
        let prev_dirs = if ss.len() >= 2 { dir_names(ss[ss.len() - 2], root) } else { seq![] };
        let shared = shared_from(dirs, prev_dirs, 0);
        path_rows(ss.drop_last(), root) + dir_headings(dirs, shared) + seq![song_row(s, dirs.len() as usize)]
    }
}

/// The rows for songs already in order, grouped as the category says.
pub open spec fn grouped_rows(category: Category, ss: Seq<Song>, root: Seq<char>) -> Seq<RowView> {
    match category {
        Category::Flat => flat_rows(ss),
        Category::Artist => artist_rows(ss),
        Category::Path => path_rows(ss, root),
    }
}

/// The songs at the positions `order` lists.
pub open spec fn arranged(songs: Seq<&Song>, order: Seq<usize>) -> Seq<Song> {
    order.map_values(|i: usize| *songs[i as int])
}

/// The sort keys of the songs.
pub open spec fn song_keys(songs: Seq<&Song>, category: Category, sort: Sort, root: Seq<char>) -> Seq<Seq<PartView>> {
    songs.map_values(|s: &Song| song_key(*s, category, sort, root))
}

/// `rows` shows the songs sorted by their keys (`order` being the sorted
/// arrangement) and grouped as the category says.
pub open spec fn shows_sorted(rows: Seq<RowView>, songs: Seq<&Song>, category: Category, sort: Sort, root: Seq<char>, order: Seq<usize>) -> bool {
    &&& is_permutation(order, songs.len())
    &&& sorted_by_keys(order, song_keys(songs, category, sort, root))
    &&& rows == grouped_rows(category, arranged(songs, order), root)
}

/// The texts of a list of strings.
pub open spec fn names_view(v: Seq<String>) -> Seq<Seq<char>> {
    v.map_values(|s: String| s@)
}

pub(crate) fn indent_string(depth: usize) -> (s: String)
    ensures
        s@ == indent(depth as int),
{
    let mut s = String::new();
    let mut d: usize = 0;
    while d < depth
        invariant
            d <= depth,
            s@ == indent(d as int),
        decreases depth - d,
    {
        push_char(&mut s, ' ');
        push_char(&mut s, ' ');
        d = d + 1;
        proof {
            assert(s@ =~= indent(d as int));
        }
    }
    s
}

fn flat_rows_exec(songs: &[&Song], order: &Vec<usize>) -> (rows: Vec<Row>)
    requires
        forall|i: int| 0 <= i < order@.len() ==> #[trigger] order@[i] < songs@.len(),
    ensures
        rows_view(rows@) == flat_rows(arranged(songs@, order@)),
{
    let ghost ss = arranged(songs@, order@);
    let mut rows: Vec<Row> = Vec::new();
    let mut k: usize = 0;
    while k < order.len()
        invariant
            ss == arranged(songs@, order@),
            forall|i: int| 0 <= i < order@.len() ==> #[trigger] order@[i] < songs@.len(),
            k <= order@.len(),
            rows_view(rows@) == flat_rows(ss.take(k as int)),
        decreases order@.len() - k,
    {
        let song: &Song = songs[order[k]];
        let ghost before = rows_view(rows@);
        let id = song.id();
        rows.push(Row::Song(id, 0));
        proof {
            assert(ss[k as int] == *songs@[order@[k as int] as int]);
            assert(rows_view(rows@) =~= before.push(song_row(ss[k as int], 0)));
            assert(flat_rows(ss.take(k as int + 1)) =~= flat_rows(ss.take(k as int)).push(song_row(ss[k as int], 0)));
        }
        k = k + 1;
    }
    proof {
        assert(ss.take(order@.len() as int) =~= ss);
    }
    rows
}

fn artist_rows_exec(songs: &[&Song], order: &Vec<usize>) -> (rows: Vec<Row>)
    requires
        forall|i: int| 0 <= i < order@.len() ==> #[trigger] order@[i] < songs@.len(),
    ensures
        rows_view(rows@) == artist_rows(arranged(songs@, order@)),
{
    let ghost ss = arranged(songs@, order@);
    let mut rows: Vec<Row> = Vec::new();
    let mut k: usize = 0;
    while k < order.len()
        invariant
            ss == arranged(songs@, order@),
            forall|i: int| 0 <= i < order@.len() ==> #[trigger] order@[i] < songs@.len(),
            k <= order@.len(),
            rows_view(rows@) == artist_rows(ss.take(k as int)),
        decreases order@.len() - k,
    {
        let song: &Song = songs[order[k]];
        let fresh = k == 0 || !str_eq(songs[order[k - 1]].artist(), song.artist());
        let ghost before = rows_view(rows@);
        proof {
            let t = ss.take(k as int + 1);
            assert(t.drop_last() =~= ss.take(k as int));
            assert(t.last() == ss[k as int]);
            assert(ss[k as int] == *songs@[order@[k as int] as int]);
            if k > 0 {
                assert(t[t.len() - 2] == ss[k - 1]);
                assert(ss[k - 1] == *songs@[order@[k - 1] as int]);
            }
        }
        if fresh {
            rows.push(Row::Header(String::from_str(song.artist())));
        }
        rows.push(Row::Song(song.id(), 0));
        proof {
            if fresh {
                assert(rows_view(rows@) =~= before + seq![header_row(ss[k as int].artist_view())] + seq![song_row(ss[k as int], 0)]);
            } else {
                assert(rows_view(rows@) =~= before + seq![] + seq![song_row(ss[k as int], 0)]);
            }
        }
        k = k + 1;
    }
    proof {
        assert(ss.take(order@.len() as int) =~= ss);
    }
    rows
}

fn path_rows_exec(songs: &[&Song], order: &Vec<usize>, root: &str, root_comps: &Vec<PathComponent>) -> (rows: Vec<Row>)
    requires
        forall|i: int| 0 <= i < order@.len() ==> #[trigger] order@[i] < songs@.len(),
        comps_view(root_comps@) == spec_path_components(root@),
    ensures
        rows_view(rows@) == path_rows(arranged(songs@, order@), root@),
{
    let ghost ss = arranged(songs@, order@);
    let mut rows: Vec<Row> = Vec::new();
    let mut last_dirs: Vec<String> = Vec::new();
    let mut k: usize = 0;
    while k < order.len()
        invariant
            ss == arranged(songs@, order@),
            forall|i: int| 0 <= i < order@.len() ==> #[trigger] order@[i] < songs@.len(),
            comps_view(root_comps@) == spec_path_components(root@),
            k <= order@.len(),
            rows_view(rows@) == path_rows(ss.take(k as int), root@),
            names_view(last_dirs@) == (if k == 0 { seq![] } else { dir_names(ss[k - 1], root@) }),
        decreases order@.len() - k,
    {
        let song: &Song = songs[order[k]];
        let dirs = relative_parent(song.path(), root, root_comps);
        let ghost dn = dir_names(ss[k as int], root@);
        let ghost ld = names_view(last_dirs@);
        proof {
            assert(ss[k as int] == *songs@[order@[k as int] as int]);
            assert(dn =~= comps_view(dirs@).map_values(|c: (u8, Seq<char>)| c.1));
        }
        let mut shared: usize = 0;
        while shared < dirs.len() && shared < last_dirs.len() && str_eq(dirs[shared].name.as_str(), last_dirs[shared].as_str())
            invariant
                shared <= dirs@.len(),
                dn =~= comps_view(dirs@).map_values(|c: (u8, Seq<char>)| c.1),
                ld == names_view(last_dirs@),
                shared_from(dn, ld, 0) == shared_from(dn, ld, shared as int),
            decreases dirs@.len() - shared,
        {
            shared = shared + 1;
        }
        let ghost before = rows_view(rows@);
        let mut depth: usize = shared;
        while depth < dirs.len()
            invariant
                shared <= depth <= dirs@.len(),
                dn =~= comps_view(dirs@).map_values(|c: (u8, Seq<char>)| c.1),
                rows_view(rows@) == before + dir_headings(dn, shared as int).take(depth - shared),
            decreases dirs@.len() - depth,
        {
            let mut header = indent_string(depth);
            header.append(dirs[depth].name.as_str());
            let ghost mid = rows_view(rows@);
            proof {
                assert(dn[depth as int] == dirs@[depth as int].name@);
                assert(header@ == indent(depth as int) + dn[depth as int]);
            }
            rows.push(Row::Header(header));
            proof {
                let hs = dir_headings(dn, shared as int);
                assert(hs[depth - shared] == header_row(indent(depth as int) + dn[depth as int]));
                assert(hs.take(depth + 1 - shared) =~= hs.take(depth - shared).push(hs[depth - shared]));
                assert(rows_view(rows@) =~= mid.push(header_row(indent(depth as int) + dn[depth as int])));
            }
            depth = depth + 1;
            proof {
                assert(rows_view(rows@) =~= before + dir_headings(dn, shared as int).take(depth - shared));
            }
        }
        rows.push(Row::Song(song.id(), dirs.len()));
        let mut names: Vec<String> = Vec::new();
        let mut j: usize = 0;
        while j < dirs.len()
            invariant
                j <= dirs@.len(),
                names_view(names@) == comps_view(dirs@).map_values(|c: (u8, Seq<char>)| c.1).take(j as int),
            decreases dirs@.len() - j,
        {
            let nm = dirs[j].name.clone();
            assert(nm@ == dirs@[j as int].name@);
            let ghost nb = names_view(names@);
            names.push(nm);
            proof {
                assert(names_view(names@) =~= nb.push(dirs@[j as int].name@));
            }
            j = j + 1;
            proof {
                assert(names_view(names@) =~= comps_view(dirs@).map_values(|c: (u8, Seq<char>)| c.1).take(j as int));
            }
        }
        last_dirs = names;
        proof {
            let t = ss.take(k as int + 1);
            assert(t.drop_last() =~= ss.take(k as int));
            assert(t.last() == ss[k as int]);
            if k > 0 {
                assert(t[t.len() - 2] == ss[k - 1]);
            }
            assert(dir_headings(dn, shared as int).take(dirs@.len() - shared) =~= dir_headings(dn, shared as int));
            assert(rows_view(rows@) =~= path_rows(t, root@));
            assert(names_view(last_dirs@) =~= dn);
        }
        k = k + 1;
    }
    proof {
        assert(ss.take(order@.len() as int) =~= ss);
    }
    rows
}

/// The rows of a song panel: the songs sorted by group, then within each
/// group by the chosen order (an unstable order: songs with equal keys may
/// come either way), with headings for each artist or directory.
pub fn build_rows(songs: &[&Song], category: Category, sort: Sort, root: &str) -> (rows: Vec<Row>)
    ensures
        exists|order: Seq<usize>| #[trigger] shows_sorted(rows_view(rows@), songs@, category, sort, root@, order),
{
    let root_comps = path_components(root);
    let mut keys: Vec<Vec<KeyPart>> = Vec::new();
    let mut i: usize = 0;
    while i < songs.len()
        invariant
            i <= songs@.len(),
            comps_view(root_comps@) == spec_path_components(root@),
            keys_view(keys@) == song_keys(songs@, category, sort, root@).take(i as int),
        decreases songs@.len() - i,
    {
        let k = song_key_exec(songs[i], category, sort, root, &root_comps);
        let ghost kb = keys_view(keys@);
        let ghost kv = key_view(k@);
        keys.push(k);
        proof {
            assert(keys_view(keys@) =~= kb.push(kv));
            assert(song_keys(songs@, category, sort, root@)[i as int] == kv);
            assert(song_keys(songs@, category, sort, root@).take(i as int + 1)
                =~= song_keys(songs@, category, sort, root@).take(i as int).push(kv));
        }
        i = i + 1;
    }
    proof {
        assert(keys_view(keys@) =~= song_keys(songs@, category, sort, root@));
    }
    let order = sort_by_keys(&keys);
    let rows = match category {
        Category::Flat => flat_rows_exec(songs, &order),
        Category::Artist => artist_rows_exec(songs, &order),
        Category::Path => path_rows_exec(songs, &order, root, &root_comps),
    };
    assert(shows_sorted(rows_view(rows@), songs@, category, sort, root@, order@));
    rows
}

/// The search score of a song: the sum of its term scores, when every term
/// matches.
pub open spec fn search_score(s: Song, terms: Seq<Seq<char>>) -> Option<nat> {
    spec_prefix_score(s, terms, terms.len() as int)
}

/// Scoring every song against the terms stays within the range of `u32`.
pub open spec fn search_fits<'a>(songs: Seq<&'a Song>, terms: Seq<Seq<char>>) -> bool {
    forall|i: int| 0 <= i < songs.len() ==> score_runs(*#[trigger] songs[i], terms, terms.len() as int)
}

/// Whether a song is found by the search.
pub open spec fn is_hit<'a>(terms: Seq<Seq<char>>) -> spec_fn(&'a Song) -> bool {
    |s: &'a Song| search_score(*s, terms) is Some
}

/// The rank key of a found song: higher scores first, then by title.
pub open spec fn relevance_key(s: Song, terms: Seq<Seq<char>>) -> Seq<PartView> {
    let score: nat = match search_score(s, terms) {
        Some(v) => v,
        None => 0,
    };
    seq![num_part((u32::MAX - score) as u128), text_part(s.sort_title_view())]
}

/// `found` is the songs the search finds, ranked (`order` being the ranked
/// arrangement of the hits in their original order).
pub open spec fn ranks<'a>(found: Seq<&'a Song>, songs: Seq<&'a Song>, terms: Seq<Seq<char>>, order: Seq<usize>) -> bool {
    let hits = songs.filter(is_hit(terms));
    &&& is_permutation(order, hits.len())
    &&& sorted_by_keys(order, hits.map_values(|s: &'a Song| relevance_key(*s, terms)))
    &&& found.len() == order.len()
    &&& forall|i: int| 0 <= i < found.len() ==> #[trigger] found[i] == hits[order[i] as int]
}

/// The songs every search term matches, best match first and then by
/// title (songs with equal rank may come either way); `None` when scoring
/// some song would go out of the range of `u32`.
fn filter_checked<'a>(songs: &[&'a Song], terms: &[&str]) -> (r: Option<Vec<&'a Song>>)
    ensures
        r is None <==> !search_fits(songs@, term_views(terms@)),
        r matches Some(found) ==> exists|order: Seq<usize>| #[trigger] ranks(found@, songs@, term_views(terms@), order),
{
    let ghost tv = term_views(terms@);
    let ghost p = is_hit(tv);
    let mut hits: Vec<&'a Song> = Vec::new();
    let mut keys: Vec<Vec<KeyPart>> = Vec::new();
    let mut i: usize = 0;
    proof {
        assert(songs@.take(0).filter(p) =~= seq![]) by {
            reveal(Seq::filter);
        }
    }
    while i < songs.len()
        invariant
            tv == term_views(terms@),
            p == is_hit(tv),
            i <= songs@.len(),
            forall|j: int| 0 <= j < i ==> score_runs(*#[trigger] songs@[j], tv, tv.len() as int),
            hits@ == songs@.take(i as int).filter(p),
            keys_view(keys@) == hits@.map_values(|s: &'a Song| relevance_key(*s, tv)),
        decreases songs@.len() - i,
    {
        let song: &'a Song = songs[i];
        proof {
            reveal(Seq::filter);
            assert(songs@.take(i as int + 1).drop_last() =~= songs@.take(i as int));
            assert(songs@.take(i as int + 1).last() == song);
        }
        match song.checked_fuzzy_score(terms) {
            None => {
                proof {
                    assert(!score_runs(*songs@[i as int], tv, tv.len() as int));
                }
                return None;
            },
            Some(Some(score)) => {
                let mut k: Vec<KeyPart> = Vec::new();
                k.push(KeyPart::Num((u32::MAX - score) as u128));
                k.push(KeyPart::Text(String::from_str(song.sort_title())));
                let ghost kb = keys_view(keys@);
                let ghost hb = hits@;
                proof {
                    assert(key_view(k@) =~= relevance_key(*song, tv));
                }
                keys.push(k);
                hits.push(song);
                proof {
                    assert(keys_view(keys@) =~= kb.push(relevance_key(*song, tv)));
                    assert(hits@.map_values(|s: &'a Song| relevance_key(*s, tv))
                        =~= hb.map_values(|s: &'a Song| relevance_key(*s, tv)).push(relevance_key(*song, tv)));
                }
            },
            Some(None) => {},
        }
        i = i + 1;
    }
    proof {
        assert(songs@.take(songs@.len() as int) =~= songs@);
    }
    let order = sort_by_keys(&keys);
    let mut found: Vec<&'a Song> = Vec::new();
    let mut j: usize = 0;
    while j < order.len()
        invariant
            is_permutation(order@, keys@.len()),
            keys@.len() == hits@.len(),
            j <= order@.len(),
            found@.len() == j,
            forall|q: int| 0 <= q < j ==> #[trigger] found@[q] == hits@[order@[q] as int],
        decreases order@.len() - j,
    {
        found.push(hits[order[j]]);
        j = j + 1;
    }
    proof {
        assert(keys_view(keys@) =~= hits@.map_values(|s: &'a Song| relevance_key(*s, tv)));
        assert(ranks(found@, songs@, tv, order@));
        assert(search_fits(songs@, tv));
    }
    let r = Some(found);
    proof {
        assert(r matches Some(f) && ranks(f@, songs@, term_views(terms@), order@));
    }
    r
}

/// The songs every search term matches, best match first and then by
/// title (songs with equal rank may come either way). Scoring every song
/// must stay within the range of `u32`.
pub fn fuzzy_filter_and_sort<'a>(songs: &[&'a Song], terms: &[&str]) -> (found: Vec<&'a Song>)
    requires
        search_fits(songs@, term_views(terms@)),
    ensures
        exists|order: Seq<usize>| #[trigger] ranks(found@, songs@, term_views(terms@), order),
{
    match filter_checked(songs, terms) {
        Some(found) => found,
        None => Vec::new(),
    }
}

/// The rows for songs ranked by relevance: the songs in order, with no
/// headings.
pub fn build_relevance_rows(songs: &[&Song]) -> (rows: Vec<Row>)
    ensures
        rows_view(rows@) == songs@.map_values(|s: &Song| song_row(*s, 0)),
{
    let mut rows: Vec<Row> = Vec::new();
    let mut i: usize = 0;
    while i < songs.len()
        invariant
            i <= songs@.len(),
            rows_view(rows@) == songs@.take(i as int).map_values(|s: &Song| song_row(*s, 0)),
        decreases songs@.len() - i,
    {
        let ghost before = rows_view(rows@);
        let id = songs[i].id();
        rows.push(Row::Song(id, 0));
        proof {
            assert(rows_view(rows@) =~= before.push(song_row(*songs@[i as int], 0)));
            assert(songs@.take(i as int + 1).map_values(|s: &Song| song_row(*s, 0))
                =~= songs@.take(i as int).map_values(|s: &Song| song_row(*s, 0)).push(song_row(*songs@[i as int], 0)));
        }
        i = i + 1;
    }
    proof {
        assert(songs@.take(songs@.len() as int) =~= songs@);
    }
    rows
}

/// What a song row shows: the title, the artist unless the group heading
/// already names it, and a detail for the chosen order.
pub struct SongLabel<'a> {
    pub title: &'a str,
    pub artist: Option<&'a str>,
    pub detail: Option<String>,
}

/// The detail a sort order shows beside a song: its play time, its
/// modification date, or nothing.
pub open spec fn detail_text(s: Song, sort: Sort) -> Option<Seq<char>> {
    match sort {
        Sort::Duration => Some(spec_duration_text(s.metadata_view().duration_nanos as nat / 1_000_000_000)),
        Sort::DateModified => Some(spec_mtime_text(s.mtime_view() as nat)),
        _ => None,
    }
}

fn detail_for(song: &Song, sort: Sort) -> (d: Option<String>)
    requires
        song.metadata_view().duration_nanos / 1_000_000_000 <= u64::MAX,
    ensures
        match (d, detail_text(*song, sort)) {
            (Some(a), Some(b)) => a@ == b,
            (None, None) => true,
            _ => false,
        },
{
    match sort {
        Sort::Duration => Some(format_duration(song.metadata().duration_nanos)),
        Sort::DateModified => Some(format_mtime(song.modified())),
        Sort::Title | Sort::Artist | Sort::Path => None,
    }
}

/// The label of a song row in a grouped list: no artist when the songs are
/// grouped by artist.
pub fn label_for<'a>(song: &'a Song, category: Category, sort: Sort) -> (l: SongLabel<'a>)
    requires
        song.metadata_view().duration_nanos / 1_000_000_000 <= u64::MAX,
    ensures
        l.title@ == song.title_view(),
        category == Category::Artist ==> l.artist is None,
        category != Category::Artist ==> (l.artist matches Some(a) && a@ == song.artist_view()),
        match (l.detail, detail_text(*song, sort)) {
            (Some(a), Some(b)) => a@ == b,
            (None, None) => true,
            _ => false,
        },
{
    let detail = detail_for(song, sort);
    let artist = if category == Category::Artist { None } else { Some(song.artist()) };
    SongLabel { title: song.title(), artist, detail }
}

/// The label of a song row in search results, which always names the
/// artist.
pub fn filtered_label_for<'a>(song: &'a Song, sort: Sort) -> (l: SongLabel<'a>)
    requires
        song.metadata_view().duration_nanos / 1_000_000_000 <= u64::MAX,
    ensures
        l.title@ == song.title_view(),
        l.artist matches Some(a) && a@ == song.artist_view(),
        match (l.detail, detail_text(*song, sort)) {
            (Some(a), Some(b)) => a@ == b,
            (None, None) => true,
            _ => false,
        },
{
    let detail = detail_for(song, sort);
    SongLabel { title: song.title(), artist: Some(song.artist()), detail }
}

/// Names joined with ", ".
pub open spec fn join_comma(names: Seq<Seq<char>>) -> Seq<char>
    decreases names.len(),
{
    if names.len() == 0 {
        seq![]
    } else if names.len() == 1 {
        names[0]
    } else {
        join_comma(names.drop_last()) + ", "@ + names.last()
    }
}

fn join_names(names: &[String]) -> (s: String)
    ensures
        s@ == join_comma(names_view(names@)),
{
    let mut s = String::new();
    let mut i: usize = 0;
    while i < names.len()
        invariant
            i <= names@.len(),
            s@ == join_comma(names_view(names@.take(i as int))),
        decreases names@.len() - i,
    {
        proof {
            assert(names_view(names@.take(i as int + 1)).drop_last() =~= names_view(names@.take(i as int)));
            if i == 0 {
                assert(names_view(names@.take(1)) =~= seq![names@[0]@]);
            }
        }
        if i > 0 {
            s.append(", ");
        }
        s.append(names[i].as_str());
        i = i + 1;
    }
    proof {
        assert(names@.take(names@.len() as int) =~= names@);
    }
    s
}

/// What a song row adds about the playlists that hold the song, at time
/// `now_ms`: nothing when it is in none or the mode hides them; their count
/// after a playlist icon; or their names, joined and fitted (scrolling)
/// into `available` columns, nothing when there is no room.
pub open spec fn suffix_spec(names: Seq<Seq<char>>, mode: PlaylistDisplayMode, available: nat, now_ms: nat) -> Option<Seq<char>> {
    if names.len() == 0 {
        None
    } else {
        match mode {
            PlaylistDisplayMode::Hidden => None,
            PlaylistDisplayMode::Count => Some("󰲹 "@ + crate::text::spec_decimal(names.len())),
            PlaylistDisplayMode::Expanded => if available == 0 {
                None
            } else {
                Some(marquee_spec(join_comma(names), available, now_ms))
            },
        }
    }
}

/// The playlist suffix of a song row at time `now_ms`.
pub fn playlist_suffix_at(names: &[String], mode: PlaylistDisplayMode, available: usize, now_ms: u128) -> (r: Option<String>)
    requires
        2 * (join_comma(names_view(names@)).len() + MARQUEE_GAP_LEN) + 1 <= usize::MAX,
    ensures
        match (r, suffix_spec(names_view(names@), mode, available as nat, now_ms as nat)) {
            (Some(a), Some(b)) => a@ == b,
            (None, None) => true,
            _ => false,
        },
{
    if names.len() == 0 {
        return None;
    }
    match mode {
        PlaylistDisplayMode::Hidden => None,
        PlaylistDisplayMode::Count => {
            let mut t = String::from_str("󰲹 ");
            let n = crate::text::decimal(names.len() as u64);
            t.append(n.as_str());
            Some(t)
        },
        PlaylistDisplayMode::Expanded => {
            if available == 0 {
                return None;
            }
            let joined = join_names(names);
            Some(marquee_window_at(joined.as_str(), available, now_ms))
        },
    }
}

/// What a song row adds about the playlists that hold the song: nothing
/// when it is in none or the mode hides them; their count after a playlist
/// icon; or their names, joined and fitted (scrolling) into `available`
/// columns as the clock now places the scroll.
pub fn playlist_suffix(names: &[String], mode: PlaylistDisplayMode, available: usize) -> (r: Option<String>)
    requires
        2 * (join_comma(names_view(names@)).len() + MARQUEE_GAP_LEN) + 1 <= usize::MAX,
    ensures
        exists|when: nat| match (r, #[trigger] suffix_spec(names_view(names@), mode, available as nat, when)) {
            (Some(a), Some(b)) => a@ == b,
            (None, None) => true,
            _ => false,
        },
{
    let now = now_millis();
    let r = playlist_suffix_at(names, mode, available, now);
    assert(match (r, suffix_spec(names_view(names@), mode, available as nat, now as nat)) {
        (Some(a), Some(b)) => a@ == b,
        (None, None) => true,
        _ => false,
    });
    r
}

/// The songs a list of rows shows, in order.
pub open spec fn songs_shown(rows: Seq<RowView>) -> Seq<u64>
    decreases rows.len(),
{
    if rows.len() == 0 {
        seq![]
    } else if rows.last().0 {
        songs_shown(rows.drop_last()).push(rows.last().1)
    } else {
        songs_shown(rows.drop_last())
    }
}

proof fn lemma_songs_shown_concat(a: Seq<RowView>, b: Seq<RowView>)
    ensures
        songs_shown(a + b) == songs_shown(a) + songs_shown(b),
    decreases b.len(),
{
    if b.len() == 0 {
        assert(a + b =~= a);
    } else {
        assert((a + b).drop_last() =~= a + b.drop_last());
        lemma_songs_shown_concat(a, b.drop_last());
    }
}

proof fn lemma_headings_show_no_song(h: Seq<RowView>)
    requires
        forall|i: int| 0 <= i < h.len() ==> !(#[trigger] h[i]).0,
    ensures
        songs_shown(h) == Seq::<u64>::empty(),
    decreases h.len(),
{
    if h.len() > 0 {
        lemma_headings_show_no_song(h.drop_last());
    }
}

/// The identities, as numbers, of some songs.
pub open spec fn song_numbers(ss: Seq<Song>) -> Seq<u64> {
    ss.map_values(|s: Song| s.id_view().0)
}

/// Law: whatever the grouping, the rows show every song exactly once and in
/// the sorted order; headings only come between them.
pub proof fn law_rows_show_every_song_once(category: Category, ss: Seq<Song>, root: Seq<char>)
    ensures
        songs_shown(grouped_rows(category, ss, root)) == song_numbers(ss),
    decreases ss.len(),
{
    if ss.len() > 0 {
        law_rows_show_every_song_once(category, ss.drop_last(), root);
        let s = ss.last();
        let prev = grouped_rows(category, ss.drop_last(), root);
        let heads: Seq<RowView> = match category {
            Category::Flat => seq![],
            Category::Artist => if ss.len() == 1 || ss[ss.len() - 2].artist_view() != s.artist_view() {
                seq![header_row(s.artist_view())]
            } else {
                seq![]
            },
            Category::Path => {
                let dirs = dir_names(s, root);
                let prev_dirs = if ss.len() >= 2 { dir_names(ss[ss.len() - 2], root) } else { seq![] };
                dir_headings(dirs, shared_from(dirs, prev_dirs, 0))
            },
        };
        let tail: Seq<RowView> = seq![song_row(s, match category {
            Category::Path => dir_names(s, root).len() as usize,
            _ => 0usize,
        })];
        match category {
            Category::Flat => {
                assert(flat_rows(ss) =~= flat_rows(ss.drop_last()) + heads + tail);
            },
            _ => {
                assert(grouped_rows(category, ss, root) == prev + heads + tail);
            },
        }
        lemma_headings_show_no_song(heads);
        lemma_songs_shown_concat(prev + heads, tail);
        lemma_songs_shown_concat(prev, heads);
        assert(tail.drop_last() =~= Seq::<RowView>::empty());
        assert(songs_shown(tail.drop_last()) =~= Seq::<u64>::empty());
        assert(songs_shown(tail) =~= seq![s.id_view().0]);
        assert(song_numbers(ss) =~= song_numbers(ss.drop_last()).push(s.id_view().0));
    }
}

/// The rows of a song panel for a search query: with no query (or white
/// space alone) the songs grouped and sorted as chosen; with a query the
/// songs it finds, best first, with no headings. `None` when scoring some
/// song against the query would go out of the range of `u32`.
pub fn panel_rows(songs: &[&Song], query: &str, category: Category, sort: Sort, root: &str) -> (r: Option<Vec<Row>>)
    ensures
        !filters(query@) ==> (r matches Some(rows)
            && exists|order: Seq<usize>| #[trigger] shows_sorted(rows_view(rows@), songs@, category, sort, root@, order)),
        filters(query@) && search_fits(songs@, spec_search_terms(query@))
            ==> (r matches Some(rows) && exists|found: Seq<&Song>, order: Seq<usize>|
                #[trigger] ranks(found, songs@, spec_search_terms(query@), order)
                && rows_view(rows@) == found.map_values(|s: &Song| song_row(*s, 0))),
        filters(query@) && !search_fits(songs@, spec_search_terms(query@)) ==> r is None,
{
    if !is_filtering(query) {
        let rows = build_rows(songs, category, sort, root);
        let r = Some(rows);
        proof {
            let order = choose|order: Seq<usize>| shows_sorted(rows_view(rows@), songs@, category, sort, root@, order);
            assert(r matches Some(v) && shows_sorted(rows_view(v@), songs@, category, sort, root@, order));
        }
        return r;
    }
    let terms = search_terms(query);
    let ghost tv = strings_view(terms@);
    let mut refs: Vec<&str> = Vec::new();
    let mut i: usize = 0;
    while i < terms.len()
        invariant
            tv == strings_view(terms@),
            tv == spec_search_terms(query@),
            i <= terms@.len(),
            term_views(refs@) == tv.take(i as int),
        decreases terms@.len() - i,
    {
        let ghost before = term_views(refs@);
        refs.push(terms[i].as_str());
        proof {
            assert(term_views(refs@) =~= before.push(terms@[i as int]@));
            assert(tv.take(i as int + 1) =~= tv.take(i as int).push(tv[i as int]));
        }
        i = i + 1;
    }
    proof {
        assert(tv.take(tv.len() as int) =~= tv);
        assert(term_views(refs@) == tv);
    }
    match filter_checked(songs, refs.as_slice()) {
        Some(found) => {
            let rows = build_relevance_rows(found.as_slice());
            Some(rows)
        },
        None => None,
    }
}

/// Keys that share their first parts compare as what follows them does.
proof fn lemma_common_prefix(g: Seq<PartView>, x: Seq<PartView>, y: Seq<PartView>, i: int)
    requires
        0 <= i <= g.len(),
    ensures
        crate::sort_key::key_lt_from(g + x, g + y, i) == crate::sort_key::key_lt_from(g + x, g + y, g.len() as int),
    decreases g.len() - i,
{
    if i < g.len() {
        assert((g + x)[i] == g[i] && (g + y)[i] == g[i]);
        crate::text::lemma_seq_lt_irreflexive(g[i].2);
        assert(!crate::sort_key::part_lt(g[i], g[i]));
        lemma_common_prefix(g, x, y, i + 1);
    }
}

/// Comparing keys from a position past a common first part is comparing
/// what follows it.
proof fn lemma_shift(g: Seq<PartView>, x: Seq<PartView>, y: Seq<PartView>, i: int)
    requires
        0 <= i,
    ensures
        crate::sort_key::key_lt_from(g + x, g + y, g.len() + i) == crate::sort_key::key_lt_from(x, y, i),
    decreases x.len() - i,
{
    if i < x.len() && i < y.len() {
        assert((g + x)[g.len() + i] == x[i]);
        assert((g + y)[g.len() + i] == y[i]);
        lemma_shift(g, x, y, i + 1);
    }
}

/// Keys with the same first part compare as what follows it does.
proof fn lemma_same_start(g: Seq<PartView>, x: Seq<PartView>, y: Seq<PartView>)
    ensures
        crate::sort_key::key_lt(g + x, g + y) == crate::sort_key::key_lt(x, y),
{
    lemma_common_prefix(g, x, y, 0);
    lemma_shift(g, x, y, 0);
}

/// The first parts of two keys decide when they differ, and the rest
/// decides when they are the same part.
proof fn lemma_first_part(p: PartView, q: PartView, x: Seq<PartView>, y: Seq<PartView>)
    ensures
        crate::sort_key::part_lt(p, q) ==> crate::sort_key::key_lt(seq![p] + x, seq![q] + y),
        p == q ==> crate::sort_key::key_lt(seq![p] + x, seq![q] + y) == crate::sort_key::key_lt(x, y),
{
    assert((seq![p] + x)[0] == p);
    assert((seq![q] + y)[0] == q);
    if p == q {
        lemma_same_start(seq![p], x, y);
    }
}

/// Two songs listed in this order under `order`: the first at position `a`,
/// the second at `b`, with `a` before `b`.
pub open spec fn listed_before(songs: Seq<&Song>, order: Seq<usize>, a: int, b: int) -> bool {
    &&& 0 <= a < b < order.len()
    &&& order[a] < songs.len()
    &&& order[b] < songs.len()
}

/// Law: songs sorted for a panel come in the order the chosen sort names
/// within each group (for two songs of one group, the first listed comes
/// no later): by title; by duration, then title; by artist, then title; by
/// path; or newest first, then by path. Grouped by artist, the artists come
/// in order.
pub proof fn law_sorted_within_groups(songs: Seq<&Song>, category: Category, sort: Sort, root: Seq<char>,
    order: Seq<usize>, a: int, b: int)
    requires
        is_permutation(order, songs.len()),
        sorted_by_keys(order, song_keys(songs, category, sort, root)),
        0 <= a < b < order.len(),
    ensures
        ({
            let sa = *songs[order[a] as int];
            let sb = *songs[order[b] as int];
            &&& category == Category::Artist ==> !seq_lt(sb.sort_artist_view(), sa.sort_artist_view())
            &&& group_key(sa, category, root) == group_key(sb, category, root) ==> match sort {
                Sort::Title => !seq_lt(sb.sort_title_view(), sa.sort_title_view()),
                Sort::Duration => sa.metadata_view().duration_nanos <= sb.metadata_view().duration_nanos
                    && (sa.metadata_view().duration_nanos == sb.metadata_view().duration_nanos
                        ==> !seq_lt(sb.sort_title_view(), sa.sort_title_view())),
                Sort::Artist => !seq_lt(sb.sort_artist_view(), sa.sort_artist_view())
                    && (sa.sort_artist_view() == sb.sort_artist_view() ==> !seq_lt(sb.sort_title_view(), sa.sort_title_view())),
                Sort::Path => !crate::sort_key::key_lt(comps_key(spec_path_components(sb.path_view())),
                    comps_key(spec_path_components(sa.path_view()))),
                Sort::DateModified => sa.mtime_view() >= sb.mtime_view() && (sa.mtime_view() == sb.mtime_view()
                    ==> !crate::sort_key::key_lt(comps_key(spec_path_components(sb.path_view())),
                        comps_key(spec_path_components(sa.path_view())))),
            }
        }),
{
    let sa = *songs[order[a] as int];
    let sb = *songs[order[b] as int];
    let keys = song_keys(songs, category, sort, root);
    let ka = keys[order[a] as int];
    let kb = keys[order[b] as int];
    assert(ka == group_key(sa, category, root) + within_key(sa, sort));
    assert(kb == group_key(sb, category, root) + within_key(sb, sort));
    assert(!crate::sort_key::key_lt(kb, ka));
    let ga = group_key(sa, category, root);
    let gb = group_key(sb, category, root);
    let wa = within_key(sa, sort);
    let wb = within_key(sb, sort);
    if category == Category::Artist {
        lemma_first_part(text_part(sb.sort_artist_view()), text_part(sa.sort_artist_view()), wb, wa);
        assert(gb + wb == seq![text_part(sb.sort_artist_view())] + wb);
        assert(ga + wa == seq![text_part(sa.sort_artist_view())] + wa);
    }
    if ga == gb {
        lemma_same_start(ga, wb, wa);
        assert(!crate::sort_key::key_lt(wb, wa));
        match sort {
            Sort::Title => {
                lemma_first_part(text_part(sb.sort_title_view()), text_part(sa.sort_title_view()), seq![], seq![]);
                assert(wb == seq![text_part(sb.sort_title_view())] + Seq::<PartView>::empty());
                assert(wa == seq![text_part(sa.sort_title_view())] + Seq::<PartView>::empty());
            },
            Sort::Duration => {
                let ta = seq![text_part(sa.sort_title_view())];
                let tb = seq![text_part(sb.sort_title_view())];
                let da = num_part(sa.metadata_view().duration_nanos);
                let db = num_part(sb.metadata_view().duration_nanos);
                assert(wa == seq![da] + ta);
                assert(wb == seq![db] + tb);
                lemma_first_part(db, da, tb, ta);
                lemma_first_part(text_part(sb.sort_title_view()), text_part(sa.sort_title_view()), seq![], seq![]);
                assert(tb == seq![text_part(sb.sort_title_view())] + Seq::<PartView>::empty());
                assert(ta == seq![text_part(sa.sort_title_view())] + Seq::<PartView>::empty());
            },
            Sort::Artist => {
                let ta = seq![text_part(sa.sort_title_view())];
                let tb = seq![text_part(sb.sort_title_view())];
                let aa = text_part(sa.sort_artist_view());
                let ab = text_part(sb.sort_artist_view());
                assert(wa == seq![aa] + ta);
                assert(wb == seq![ab] + tb);
                lemma_first_part(ab, aa, tb, ta);
                lemma_first_part(text_part(sb.sort_title_view()), text_part(sa.sort_title_view()), seq![], seq![]);
                assert(tb == seq![text_part(sb.sort_title_view())] + Seq::<PartView>::empty());
                assert(ta == seq![text_part(sa.sort_title_view())] + Seq::<PartView>::empty());
            },
            Sort::Path => {},
            Sort::DateModified => {
                let pa = comps_key(spec_path_components(sa.path_view()));
                let pb = comps_key(spec_path_components(sb.path_view()));
                let ma = num_part((u64::MAX - sa.mtime_view()) as u128);
                let mb = num_part((u64::MAX - sb.mtime_view()) as u128);
                assert(wa == seq![ma] + pa);
                assert(wb == seq![mb] + pb);
                lemma_first_part(mb, ma, pb, pa);
            },
        }
    }
}

/// Law: sorted by date modified, the songs of one group come newest first:
/// of two songs in the same group, the one listed first was modified no
/// earlier than the other.
pub proof fn law_newest_first(songs: Seq<&Song>, category: Category, root: Seq<char>, order: Seq<usize>, a: int, b: int)
    requires
        is_permutation(order, songs.len()),
        sorted_by_keys(order, song_keys(songs, category, Sort::DateModified, root)),
        0 <= a < b < order.len(),
        group_key(*songs[order[a] as int], category, root) == group_key(*songs[order[b] as int], category, root),
    ensures
        songs[order[a] as int].mtime_view() >= songs[order[b] as int].mtime_view(),
        arranged(songs, order)[a].mtime_view() >= arranged(songs, order)[b].mtime_view(),
{
    law_sorted_within_groups(songs, category, Sort::DateModified, root, order, a, b);
}

proof fn lemma_runs_bound(song: Song, terms: Seq<Seq<char>>)
    requires
        score_runs(song, terms, terms.len() as int),
    ensures
        spec_prefix_score(song, terms, terms.len() as int) matches Some(v) ==> v <= u32::MAX,
{
}

/// A song the search lists is one of the songs searched, and every term
/// matches it.
proof fn lemma_listed_is_hit<'a>(found: Seq<&'a Song>, songs: Seq<&'a Song>, terms: Seq<Seq<char>>, order: Seq<usize>, a: int)
    requires
        ranks(found, songs, terms, order),
        0 <= a < found.len(),
    ensures
        songs.contains(found[a]),
        search_score(*found[a], terms) is Some,
{
    let p = is_hit(terms);
    let hits = songs.filter(p);
    songs.filter_lemma(p);
    let k = order[a] as int;
    assert(found[a] == hits[k]);
    assert(p(hits[k]));
    assert(hits.contains(hits[k]));
    songs.lemma_filter_contains_rev(p, hits[k]);
}

/// Law: a search lists only songs it searched that every term matches,
/// best match first: of two songs listed, the first scores no less than
/// the second, and on equal scores its title comes no later.
pub proof fn law_best_match_first<'a>(found: Seq<&'a Song>, songs: Seq<&'a Song>, terms: Seq<Seq<char>>,
    order: Seq<usize>, a: int, b: int)
    requires
        ranks(found, songs, terms, order),
        search_fits(songs, terms),
        0 <= a < b < found.len(),
    ensures
        songs.contains(found[a]) && songs.contains(found[b]),
        spec_prefix_score(*found[a], terms, terms.len() as int) matches Some(x)
            && spec_prefix_score(*found[b], terms, terms.len() as int) matches Some(y)
            && x >= y && (x == y ==> !seq_lt(found[b].sort_title_view(), found[a].sort_title_view())),
{
    lemma_listed_is_hit(found, songs, terms, order, a);
    lemma_listed_is_hit(found, songs, terms, order, b);
    let ia = choose|i: int| 0 <= i < songs.len() && songs[i] == found[a];
    let ib = choose|i: int| 0 <= i < songs.len() && songs[i] == found[b];
    assert(score_runs(*songs[ia], terms, terms.len() as int));
    assert(score_runs(*songs[ib], terms, terms.len() as int));
    lemma_runs_bound(*found[a], terms);
    lemma_runs_bound(*found[b], terms);
    let hits = songs.filter(is_hit(terms));
    let keys = hits.map_values(|s: &'a Song| relevance_key(*s, terms));
    assert(found[a] == hits[order[a] as int]);
    assert(found[b] == hits[order[b] as int]);
    let ka = keys[order[a] as int];
    let kb = keys[order[b] as int];
    assert(!crate::sort_key::key_lt(kb, ka));
    let x = search_score(*found[a], terms)->0;
    let y = search_score(*found[b], terms)->0;
    let na = num_part((u32::MAX - x) as u128);
    let nb = num_part((u32::MAX - y) as u128);
    let ta = seq![text_part(found[a].sort_title_view())];
    let tb = seq![text_part(found[b].sort_title_view())];
    assert(ka == seq![na] + ta);
    assert(kb == seq![nb] + tb);
    lemma_first_part(nb, na, tb, ta);
    lemma_first_part(text_part(found[b].sort_title_view()), text_part(found[a].sort_title_view()), seq![], seq![]);
    assert(tb == seq![text_part(found[b].sort_title_view())] + Seq::<PartView>::empty());
    assert(ta == seq![text_part(found[a].sort_title_view())] + Seq::<PartView>::empty());
}

} // verus!
