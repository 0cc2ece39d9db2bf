//! What the panel commands do to the selection and the view settings: the
//! moves through the song rows (which skip headings) and through the list of
//! playlists, page jumps, and the cycles of grouping, sort order and
//! playlist display, with the status line each cycle shows.
use vstd::prelude::*;
use crate::keymap::Direction;
use crate::navigation::{
    compute_jump, first_selectable, jump_spec, last_selectable, move_wrapping, nearest_song_row, orbit, selectable_rows,
    settles_on, song_mask, wrap_step, wrapped, wrapping_selectable_index, wrapping_target, ListState, Row,
};
use crate::playlist::{PlaylistId, PlaylistStore};
use crate::song::SongId;
use crate::state::{
    category_at, category_index, category_label, sort_at, sort_index, sort_label, Category, LibraryPanelState, Panel,
    PlaylistDisplayMode, PlaylistPanelState, PlaylistView, Sort,
};

verus! {

/// The grouping one step from `c` in `direction`.
pub open spec fn category_step(c: Category, direction: Direction) -> Category {
    match direction {
        Direction::Forwards => category_at((category_index(c) + 1) % 3),
        Direction::Backwards => category_at((category_index(c) + 2) % 3),
    }
}

/// The sort order one step from `s` in `direction`.
pub open spec fn sort_step(s: Sort, direction: Direction) -> Sort {
    match direction {
        Direction::Forwards => sort_at((sort_index(s) + 1) % 5),
        Direction::Backwards => sort_at((sort_index(s) + 4) % 5),
    }
}

/// The grouping step of `cycle_category`, from panels `l0`, `p0` to `l1`,
/// `p1` with the status line `message`.
pub open spec fn category_cycled(panel: Panel, l0: LibraryPanelState, p0: PlaylistPanelState, direction: Direction,
    l1: LibraryPanelState, p1: PlaylistPanelState, message: Option<String>) -> bool {
    &&& panel == Panel::Library ==> {
        &&& l1 == LibraryPanelState { category: category_step(l0.category, direction), ..l0 }
        &&& p1 == p0
        &&& message matches Some(m) && m@ == "grouped by "@ + category_label(l1.category)
    }
    &&& panel == Panel::Playlists && p0.view is Viewing ==> {
        &&& p1 == PlaylistPanelState { category: category_step(p0.category, direction), ..p0 }
        &&& l1 == l0
        &&& message matches Some(m) && m@ == "grouped by "@ + category_label(p1.category)
    }
    &&& panel == Panel::Playlists && p0.view is Browsing ==> p1 == p0 && l1 == l0 && message is None
}

/// Steps the grouping of the panel shown: always in the library, and in the
/// playlists panel only while a playlist's songs are shown. Returns the
/// status line ("grouped by ..."), or `None` when nothing changed; the
/// caller then settles the selection on the new rows.
pub fn cycle_category(
    panel: Panel,
    library: &mut LibraryPanelState,
    playlists: &mut PlaylistPanelState,
    direction: Direction,
) -> (message: Option<String>)
    ensures
        category_cycled(panel, *old(library), *old(playlists), direction, *final(library), *final(playlists), message),
{
    let next = |c: Category| -> (r: Category)
        ensures
            r == category_step(c, direction),
    {
        match direction {
            Direction::Forwards => c.next(),
            Direction::Backwards => c.prev(),
        }
    };
    match panel {
        Panel::Library => {
            library.category = next(library.category);
            let mut m = String::from_str("grouped by ");
            m.append(library.category.label());
            Some(m)
        },
        Panel::Playlists => {
            if matches!(playlists.view, PlaylistView::Viewing(_)) {
                playlists.category = next(playlists.category);
                let mut m = String::from_str("grouped by ");
                m.append(playlists.category.label());
                Some(m)
            } else {
                None
            }
        },
    }
}

/// The sort step of `cycle_sort`, from panels `l0`, `p0` to `l1`, `p1`
/// with the status line `message`.
pub open spec fn sort_cycled(panel: Panel, l0: LibraryPanelState, p0: PlaylistPanelState, direction: Direction,
    l1: LibraryPanelState, p1: PlaylistPanelState, message: Option<String>) -> bool {
    &&& panel == Panel::Library ==> {
        &&& l1 == LibraryPanelState { sort: sort_step(l0.sort, direction), ..l0 }
        &&& p1 == p0
        &&& message matches Some(m) && m@ == "sorted by "@ + sort_label(l1.sort)
    }
    &&& panel == Panel::Playlists && p0.view is Viewing ==> {
        &&& p1 == PlaylistPanelState { sort: sort_step(p0.sort, direction), ..p0 }
        &&& l1 == l0
        &&& message matches Some(m) && m@ == "sorted by "@ + sort_label(p1.sort)
    }
    &&& panel == Panel::Playlists && p0.view is Browsing ==> p1 == p0 && l1 == l0 && message is None
}

/// Steps the sort order of the panel shown, like `cycle_category`; the
/// status line reads "sorted by ...".
pub fn cycle_sort(
    panel: Panel,
    library: &mut LibraryPanelState,
    playlists: &mut PlaylistPanelState,
    direction: Direction,
) -> (message: Option<String>)
    ensures
        sort_cycled(panel, *old(library), *old(playlists), direction, *final(library), *final(playlists), message),
{
    let next = |s: Sort| -> (r: Sort)
        ensures
            r == sort_step(s, direction),
    {
        match direction {
            Direction::Forwards => s.next(),
            Direction::Backwards => s.prev(),
        }
    };
    match panel {
        Panel::Library => {
            library.sort = next(library.sort);
            let mut m = String::from_str("sorted by ");
            m.append(library.sort.label());
            Some(m)
        },
        Panel::Playlists => {
            if matches!(playlists.view, PlaylistView::Viewing(_)) {
                playlists.sort = next(playlists.sort);
                let mut m = String::from_str("sorted by ");
                m.append(playlists.sort.label());
                Some(m)
            } else {
                None
            }
        },
    }
}

/// The display mode's name on screen.
pub open spec fn display_mode_label(m: PlaylistDisplayMode) -> Seq<char> {
    match m {
        PlaylistDisplayMode::Hidden => "hidden"@,
        PlaylistDisplayMode::Count => "count"@,
        PlaylistDisplayMode::Expanded => "names"@,
    }
}

/// The display step of `cycle_playlist_mode`, from `l0` to `l1` with the
/// status line `message`.
pub open spec fn mode_cycled(panel: Panel, l0: LibraryPanelState, l1: LibraryPanelState, message: Option<String>) -> bool {
    &&& panel == Panel::Library ==> {
        &&& l1 == LibraryPanelState { playlist_mode: crate::state::display_mode_after(l0.playlist_mode), ..l0 }
        &&& message matches Some(m) && m@ == "playlists: "@ + display_mode_label(l1.playlist_mode)
    }
    &&& panel == Panel::Playlists ==> l1 == l0 && message is None
}

/// Steps how the library shows the playlists holding each song (only in the
/// library panel); returns the status line ("playlists: ..."), or `None`
/// when nothing changed.
pub fn cycle_playlist_mode(panel: Panel, library: &mut LibraryPanelState) -> (message: Option<String>)
    ensures
        mode_cycled(panel, *old(library), *final(library), message),
{
    if panel != Panel::Library {
        return None;
    }
    library.playlist_mode = library.playlist_mode.cycle();
    let mut m = String::from_str("playlists: ");
    m.append(library.playlist_mode.label());
    Some(m)
}

/// Where a settling selection starts: the selected row when it is still in
/// the list, else the top.
pub open spec fn start_row(selected: Option<usize>, len: int) -> int {
    match selected {
        Some(i) => if i < len { i as int } else { 0 },
        None => 0,
    }
}

/// `s1` is `s0` settled on `rows`: cleared when there are none, else on the
/// song nearest to the old selection (see `nearest_song_row`).
pub open spec fn settled(s0: ListState, rows: Seq<Row>, s1: ListState) -> bool {
    &&& rows.len() == 0 ==> s1.selected is None && s1.offset == 0
    &&& rows.len() > 0 ==> s1.offset == s0.offset && (s1.selected matches Some(t)
        && t < rows.len() && settles_on(rows, start_row(s0.selected, rows.len() as int), t as int))
}

/// Settles the selection on the rows shown: cleared when there are none,
/// else on the song nearest to the old selection (see `nearest_song_row`).
pub fn settle_selection(state: &mut ListState, rows: &[Row])
    ensures
        settled(*old(state), rows@, *final(state)),
{
    if rows.len() == 0 {
        state.select(None);
        return;
    }
    let start = match state.selected {
        Some(i) => if i < rows.len() { i } else { 0 },
        None => 0,
    };
    let landing = nearest_song_row(rows, start);
    state.select(Some(landing));
}

/// Where a move by `delta` from a selection that lies past the end of the
/// list lands: the first song row its wrapping walk reaches (the walk starts
/// one step in); when the walk meets no song, the first step.
pub open spec fn stale_target(start: int, delta: int, len: int, sel: Seq<bool>, r: int) -> bool {
    let first = (start + delta) % len;
    if sel[first] { r == first } else { wrapping_target(first, delta, len, sel, r) }
}

/// `s1` is `s0` moved by `delta` rows over `rows`, wrapping around and
/// skipping headings; cleared when there are no rows.
pub open spec fn moved(s0: ListState, rows: Seq<Row>, delta: isize, s1: ListState) -> bool {
    &&& rows.len() == 0 ==> s1.selected is None && s1.offset == 0
    &&& rows.len() > 0 ==> s1.offset == s0.offset && (s1.selected matches Some(r) && r < rows.len()
        && {
            let start: int = match s0.selected { Some(i) => i as int, None => 0 };
            if start < rows.len() {
                wrapping_target(start, delta as int, rows.len() as int, song_mask(rows), r as int)
            } else {
                stale_target(start, delta as int, rows.len() as int, song_mask(rows), r as int)
            }
        })
}

/// Moves the selection by `delta` rows, wrapping around and skipping
/// headings; clears it when there are no rows.
pub fn move_selection(state: &mut ListState, rows: &[Row], delta: isize)
    ensures
        moved(*old(state), rows@, delta, *final(state)),
{
    let len = rows.len();
    if len == 0 {
        state.select(None);
        return;
    }
    let mask = selectable_rows(rows);
    let start = match state.selected {
        Some(i) => i,
        None => 0,
    };
    let target = if start < len {
        wrapping_selectable_index(start, delta, len, mask.as_slice())
    } else {
        let first = wrap_step(start, delta, len);
        if mask[first] {
            first
        } else {
            wrapping_selectable_index(first, delta, len, mask.as_slice())
        }
    };
    state.select(Some(target));
}

/// `s1` is `s0` moved by `delta` in a list of `len` playlists, wrapping
/// around; cleared when the list is empty.
pub open spec fn browse_moved(s0: ListState, len: usize, delta: isize, s1: ListState) -> bool {
    &&& len == 0 ==> s1.selected is None && s1.offset == 0
    &&& len > 0 ==> s1.selected == Some(wrapped(s0.selected, delta, len)) && s1.offset == s0.offset
}

/// Moves the selection in the list of playlists by `delta`, wrapping
/// around; clears it when the list is empty.
pub fn move_browse_selection(state: &mut ListState, len: usize, delta: isize)
    ensures
        browse_moved(*old(state), len, delta, *final(state)),
{
    if len == 0 {
        state.select(None);
        return;
    }
    move_wrapping(state, len, delta);
}

/// `s1` is `s0` after a page jump through `rows` (see `compute_jump`);
/// cleared when there are no rows.
pub open spec fn paged(s0: ListState, rows: Seq<Row>, height: usize, direction: Direction, s1: ListState) -> bool {
    &&& rows.len() == 0 ==> s1.selected is None && s1.offset == 0
    &&& rows.len() > 0 ==> (s1.selected matches Some(t) && jump_spec(s0.offset, rows.len() as usize,
        height, direction, song_mask(rows), (s1.offset, t)))
}

/// A page jump through the song rows (see `compute_jump`); the selection is
/// cleared when there are no rows.
pub fn jump_page(state: &mut ListState, rows: &[Row], height: usize, direction: Direction)
    ensures
        paged(*old(state), rows@, height, direction, *final(state)),
{
    let len = rows.len();
    if len == 0 {
        state.select(None);
        return;
    }
    let mask = selectable_rows(rows);
    let (offset, target) = compute_jump(state.offset, len, height, direction, mask.as_slice());
    state.offset = offset;
    state.select(Some(target));
}

/// Every row selectable.
pub open spec fn all_rows(len: int) -> Seq<bool> {
    Seq::new(len as nat, |i: int| true)
}

/// `s1` is `s0` after a page jump through a list of `len` playlists, where
/// every row can be selected; cleared when the list is empty.
pub open spec fn browse_paged(s0: ListState, len: usize, height: usize, direction: Direction, s1: ListState) -> bool {
    &&& len == 0 ==> s1.selected is None && s1.offset == 0
    &&& len > 0 ==> (s1.selected matches Some(t) && jump_spec(s0.offset, len, height, direction,
        all_rows(len as int), (s1.offset, t)))
}

/// A page jump through the list of playlists, where every row can be
/// selected; the selection is cleared when the list is empty.
pub fn jump_browse_page(state: &mut ListState, len: usize, height: usize, direction: Direction)
    ensures
        browse_paged(*old(state), len, height, direction, *final(state)),
{
    if len == 0 {
        state.select(None);
        return;
    }
    let mut mask: Vec<bool> = Vec::new();
    let mut i: usize = 0;
    while i < len
        invariant
            i <= len,
            mask@ == all_rows(i as int),
        decreases len - i,
    {
        mask.push(true);
        i = i + 1;
        proof {
            assert(mask@ =~= all_rows(i as int));
        }
    }
    let (offset, target) = compute_jump(state.offset, len, height, direction, mask.as_slice());
    state.offset = offset;
    state.select(Some(target));
}

/// The selection after selecting `target`: no selection also scrolls back
/// to the top.
pub open spec fn selecting(s0: ListState, target: Option<usize>) -> ListState {
    ListState { offset: if target is None { 0 } else { s0.offset }, selected: target }
}

/// `s1` selects the first song row of `rows` (nothing when there is none).
pub open spec fn on_first_song(s0: ListState, rows: Seq<Row>, s1: ListState) -> bool {
    &&& s1 == selecting(s0, s1.selected)
    &&& match s1.selected {
        Some(j) => j < rows.len() && rows[j as int] is Song
            && forall|q: int| 0 <= q < j ==> !(#[trigger] rows[q] is Song),
        None => forall|q: int| 0 <= q < rows.len() ==> !(#[trigger] rows[q] is Song),
    }
}

/// `s1` selects the last song row of `rows` (nothing when there is none).
pub open spec fn on_last_song(s0: ListState, rows: Seq<Row>, s1: ListState) -> bool {
    &&& s1 == selecting(s0, s1.selected)
    &&& match s1.selected {
        Some(j) => j < rows.len() && rows[j as int] is Song
            && forall|q: int| j < q < rows.len() ==> !(#[trigger] rows[q] is Song),
        None => forall|q: int| 0 <= q < rows.len() ==> !(#[trigger] rows[q] is Song),
    }
}

/// Selects the first song row (nothing when there is none).
pub fn select_first_song(state: &mut ListState, rows: &[Row])
    ensures
        on_first_song(*old(state), rows@, *final(state)),
{
    let mask = selectable_rows(rows);
    proof {
        assert forall|q: int| 0 <= q < rows@.len() implies mask@[q] == (#[trigger] rows@[q] is Song) by {}
    }
    let target = first_selectable(rows.len(), mask.as_slice());
    state.select(target);
}

/// Selects the last song row (nothing when there is none).
pub fn select_last_song(state: &mut ListState, rows: &[Row])
    ensures
        on_last_song(*old(state), rows@, *final(state)),
{
    let mask = selectable_rows(rows);
    proof {
        assert forall|q: int| 0 <= q < rows@.len() implies mask@[q] == (#[trigger] rows@[q] is Song) by {}
    }
    let target = last_selectable(rows.len(), mask.as_slice());
    state.select(target);
}

/// Selects the first playlist of the list, if any.
pub fn select_first_playlist(state: &mut ListState, len: usize)
    ensures
        *final(state) == selecting(*old(state), if len == 0 { None } else { Some(0usize) }),
{
    state.select(if len == 0 { None } else { Some(0) });
}

/// Selects the last playlist of the list, if any.
pub fn select_last_playlist(state: &mut ListState, len: usize)
    ensures
        *final(state) == selecting(*old(state), if len == 0 { None } else { Some((len - 1) as usize) }),
{
    state.select(if len == 0 { None } else { Some(len - 1) });
}

/// A fresh selection for the list of playlists: the first one, if any.
pub fn reset_browse_selection(len: usize) -> (s: ListState)
    ensures
        s.offset == 0,
        s.selected == (if len == 0 { None } else { Some(0usize) }),
{
    let mut s = ListState::new();
    if len > 0 {
        s.select(Some(0));
    }
    s
}

/// `s1` is `s0` kept within a list of `len` playlists: cleared when the
/// list is empty, moved to the top when it lies past the end.
pub open spec fn browse_settled(s0: ListState, len: usize, s1: ListState) -> bool {
    s1 == selecting(s0, if len == 0 { None } else { Some(start_row(s0.selected, len as int) as usize) })
}

/// Keeps the selection in the list of playlists within it: cleared when the
/// list is empty, moved to the top when it lies past the end.
pub fn settle_browse_selection(state: &mut ListState, len: usize)
    ensures
        browse_settled(*old(state), len, *final(state)),
{
    if len == 0 {
        state.select(None);
        return;
    }
    let start = match state.selected {
        Some(i) => if i < len { i } else { 0 },
        None => 0,
    };
    state.select(Some(start));
}

/// Selects the first row showing the song `id`; says whether there is one
/// (the selection is left alone otherwise).
pub fn select_song(state: &mut ListState, rows: &[Row], id: SongId) -> (found: bool)
    ensures
        found == exists|i: int| 0 <= i < rows@.len() && (#[trigger] rows@[i] matches Row::Song(s, _) && s == id),
        found ==> (final(state).selected matches Some(i) && i < rows@.len()
            && (rows@[i as int] matches Row::Song(s, _) && s == id)
            && forall|q: int| 0 <= q < i ==> !(#[trigger] rows@[q] matches Row::Song(s, _) && s == id))
            && final(state).offset == old(state).offset,
        !found ==> *final(state) == *old(state),
{
    let mut i: usize = 0;
    while i < rows.len()
        invariant
            i <= rows@.len(),
            *state == *old(state),
            forall|q: int| 0 <= q < i ==> !(#[trigger] rows@[q] matches Row::Song(s, _) && s == id),
        decreases rows@.len() - i,
    {
        match &rows[i] {
            Row::Song(s, _) => {
                if *s == id {
                    state.select(Some(i));
                    return true;
                }
            },
            Row::Header(_) => {},
        }
        i = i + 1;
    }
    false
}

/// `s1` is `s0` after jumping to the song playing in `rows`, with the
/// status line `message` saying why it could not.
pub open spec fn current_jumped(s0: ListState, rows: Seq<Row>, current: Option<SongId>, s1: ListState, message: Option<String>) -> bool {
    &&& current is None ==> s1 == s0 && (message matches Some(m) && m@ == "nothing is playing"@)
    &&& current matches Some(id) ==> if exists|i: int| 0 <= i < rows.len() && (#[trigger] rows[i] matches Row::Song(s, _) && s == id) {
        &&& message is None
        &&& s1.selected matches Some(i) && i < rows.len() && (rows[i as int] matches Row::Song(s, _) && s == id)
        &&& s1.offset == s0.offset
    } else {
        &&& s1 == s0
        &&& message matches Some(m) && m@ == "now playing isn't in the current view -- clear the search to find it"@
    }
}

/// Selects the song playing in the rows shown; the status line says why
/// it could not: nothing plays, or the song is not among the rows.
pub fn jump_to_current(state: &mut ListState, rows: &[Row], current: Option<SongId>) -> (message: Option<String>)
    ensures
        current_jumped(*old(state), rows@, current, *final(state), message),
{
    match current {
        None => Some(String::from_str("nothing is playing")),
        Some(id) => {
            if select_song(state, rows, id) {
                None
            } else {
                Some(String::from_str("now playing isn't in the current view -- clear the search to find it"))
            }
        },
    }
}

/// Law: a selection settled on rows that hold a song is on a song, so a
/// heading is never left selected.
pub proof fn law_settled_selection_is_a_song(rows: Seq<Row>, start: int, t: int)
    requires
        0 <= start < rows.len(),
        settles_on(rows, start, t),
        exists|j: int| 0 <= j < rows.len() && #[trigger] rows[j] is Song,
    ensures
        rows[t] is Song,
{
}

/// `p1` is `p0` after opening the playlist selected among `visible`, with
/// the status line naming it; nothing changes when none is selected.
pub open spec fn playlist_entered(p0: PlaylistPanelState, store: PlaylistStore, visible: Seq<PlaylistId>, p1: PlaylistPanelState, message: Option<String>) -> bool {
    match p0.list_state.selected {
        Some(i) => if i < visible.len() {
            &&& p1 == PlaylistPanelState {
                view: PlaylistView::Viewing(visible[i as int]),
                list_state: ListState::new_spec(),
                ..p0
            }
            &&& message matches Some(m) && m@ == "viewing \""@
                + crate::screen_text::name_or(store, visible[i as int], Seq::<char>::empty()) + "\""@
        } else {
            p1 == p0 && message is None
        },
        None => p1 == p0 && message is None,
    }
}

/// Opens the playlist selected in the list of playlists (`visible`): the
/// panel then shows its songs with a fresh selection, and the status line
/// names it. Nothing changes when no playlist is selected.
pub fn enter_playlist(panel: &mut PlaylistPanelState, store: &PlaylistStore, visible: &[PlaylistId]) -> (message: Option<String>)
    requires
        store.wf(),
    ensures
        playlist_entered(*old(panel), *store, visible@, *final(panel), message),
{
    let target = match panel.list_state.selected {
        Some(i) => if i < visible.len() { Some(visible[i]) } else { None },
        None => None,
    };
    match target {
        None => None,
        Some(id) => {
            panel.view = PlaylistView::Viewing(id);
            panel.list_state = ListState::new();
            let mut m = String::from_str("viewing \"");
            match store.get(id) {
                Some(p) => m.append(p.name()),
                None => {},
            }
            m.append("\"");
            Some(m)
        },
    }
}

} // verus!
