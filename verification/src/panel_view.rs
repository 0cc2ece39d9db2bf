//! The rows a panel shows: the library's songs, or the songs of the
//! playlist being viewed that the library still has, grouped and sorted as
//! chosen, or found by the search.
use vstd::prelude::*;
use crate::library::{find, Library};
use crate::navigation::Row;
use crate::playlist::{PlaylistId, PlaylistStore};
use crate::rows::{panel_rows, ranks, rows_view, search_fits, shows_sorted, song_row};
use crate::song::{Song, SongId};
use crate::state::{filters, Category, LibraryPanelState, Panel, PlaylistPanelState, PlaylistView, Sort};
use crate::text::spec_search_terms;

verus! {

/// The songs behind a list of song references.
pub open spec fn refs_view(v: Seq<&Song>) -> Seq<Song> {
    v.map_values(|s: &Song| *s)
}

/// The songs of `ids` that the library has, in order.
pub open spec fn present(library: Seq<Song>, ids: Seq<SongId>) -> Seq<Song>
    decreases ids.len(),
{
    if ids.len() == 0 {
        seq![]
    } else {
        let rest = present(library, ids.drop_last());
        match find(library, ids.last()) {
            Some(s) => rest.push(s),
            None => rest,
        }
    }
}

/// `rows` are what a song panel shows for `songs` and a search query: with
/// no query (or white space alone) the songs grouped and sorted as chosen;
/// with a query the songs it finds, best first, without headings; nothing
/// when scoring some song against the query would go out of the range of
/// `u32`.
pub open spec fn query_rows(songs: Seq<&Song>, query: Seq<char>, category: Category, sort: Sort, root: Seq<char>, rows: Seq<Row>) -> bool {
    let terms = spec_search_terms(query);
    if !filters(query) {
        exists|order: Seq<usize>| #[trigger] shows_sorted(rows_view(rows), songs, category, sort, root, order)
    } else if search_fits(songs, terms) {
        exists|found: Seq<&Song>, order: Seq<usize>| #[trigger] ranks(found, songs, terms, order)
            && rows_view(rows) == found.map_values(|s: &Song| song_row(*s, 0))
    } else {
        rows.len() == 0
    }
}

/// The songs of the playlist `id` that the library still has, in the
/// playlist's order; `None` when there is no such playlist.
pub fn playlist_songs<'a>(store: &PlaylistStore, library: &'a Library, id: PlaylistId) -> (r: Option<Vec<&'a Song>>)
    requires
        store.wf(),
    ensures
        !store@.contains_key(id) ==> r is None,
        store@.contains_key(id) ==> (r matches Some(v) && refs_view(v@) == present(library.songs_view(), store@[id].1)),
{
    let p = match store.get(id) {
        Some(p) => p,
        None => return None,
    };
    let ids = p.songs();
    let ghost lib = library.songs_view();
    let mut out: Vec<&'a Song> = Vec::new();
    let mut i: usize = 0;
    while i < ids.len()
        invariant
            lib == library.songs_view(),
            i <= ids@.len(),
            refs_view(out@) == present(lib, ids@.take(i as int)),
        decreases ids@.len() - i,
    {
        proof {
            assert(ids@.take(i + 1).drop_last() =~= ids@.take(i as int));
        }
        match library.get(ids[i]) {
            Some(s) => {
                let ghost before = refs_view(out@);
                out.push(s);
                proof {
                    assert(refs_view(out@) =~= before.push(*s));
                }
            },
            None => {},
        }
        i = i + 1;
    }
    proof {
        assert(ids@.take(ids@.len() as int) =~= ids@);
    }
    Some(out)
}

/// `rows` are the rows of the panel shown (see `visible_rows`).
pub open spec fn shown_rows(library: Library, store: PlaylistStore, panel: Panel, library_panel: LibraryPanelState,
    playlist_panel: PlaylistPanelState, rows: Seq<Row>) -> bool {
    &&& panel == Panel::Library ==> exists|songs: Seq<&Song>| refs_view(songs) == library.songs_view()
        && #[trigger] query_rows(songs, library_panel.search_query@, library_panel.category, library_panel.sort,
            library.root_view(), rows)
    &&& panel == Panel::Playlists ==> match playlist_panel.view {
        PlaylistView::Browsing => rows.len() == 0,
        PlaylistView::Viewing(id) => if store@.contains_key(id) {
            exists|songs: Seq<&Song>| refs_view(songs) == present(library.songs_view(), store@[id].1)
                && #[trigger] query_rows(songs, playlist_panel.search_query@, playlist_panel.category,
                    playlist_panel.sort, library.root_view(), rows)
        } else {
            rows.len() == 0
        },
    }
}

/// The rows of the panel shown: the library's songs in the library panel;
/// in the playlists panel nothing while browsing the list of playlists (or
/// when the playlist viewed is gone), else the songs of the playlist viewed
/// that the library still has. Each panel's own search, grouping and order
/// apply (see `query_rows`).
pub fn visible_rows(
    library: &Library,
    store: &PlaylistStore,
    panel: Panel,
    library_panel: &LibraryPanelState,
    playlist_panel: &PlaylistPanelState,
) -> (rows: Vec<Row>)
    requires
        store.wf(),
    ensures
        shown_rows(*library, *store, panel, *library_panel, *playlist_panel, rows@),
{
    let (songs, query, category, sort) = match panel {
        Panel::Library => (
            library.songs_by_path(),
            library_panel.search_query.as_str(),
            library_panel.category,
            library_panel.sort,
        ),
        Panel::Playlists => match playlist_panel.view {
            PlaylistView::Browsing => return Vec::new(),
            PlaylistView::Viewing(id) => match playlist_songs(store, library, id) {
                Some(songs) => (
                    songs,
                    playlist_panel.search_query.as_str(),
                    playlist_panel.category,
                    playlist_panel.sort,
                ),
                None => return Vec::new(),
            },
        },
    };
    proof {
        if panel == Panel::Library {
            assert(refs_view(songs@) =~= library.songs_view());
        }
    }
    let rows = match panel_rows(songs.as_slice(), query, category, sort, library.root()) {
        Some(rows) => rows,
        None => Vec::new(),
    };
    proof {
        assert(query_rows(songs@, query@, category, sort, library.root_view(), rows@));
    }
    rows
}

} // verus!
