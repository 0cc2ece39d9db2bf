//! The song-actions dialog: adding the selected song to a playlist, or
//! creating a playlist for it, and removing a song from the playlist shown.
use vstd::prelude::*;
use crate::keymap::{KeyCode, KeyPress};
use crate::library::{find, Library};
use crate::navigation::{move_wrapping, wrapped, ListState};
use crate::playlist::{sorted_by_name, without, PlaylistId, PlaylistStore};
use crate::song::SongId;
use crate::state::{shows, ChooseActionField, SidePanel, SongModal, StatusKind, StatusLine};
use crate::text::{pop_char, push_char, spec_trim, trim};
use crate::input::backspaced;

verus! {

/// The playlists' map as the store shows it.
pub type StoreMap = Map<PlaylistId, (Seq<char>, Seq<SongId>)>;

/// The playlists pinned above the choices: the one being viewed, then those
/// that already hold the song, in name order.
pub open spec fn pinned_ids(m: StoreMap, sorted: Seq<PlaylistId>, viewing: Option<PlaylistId>, song: SongId) -> Seq<PlaylistId> {
    let head = match viewing {
        Some(v) => seq![v],
        None => Seq::<PlaylistId>::empty(),
    };
    head + sorted.filter(|id: PlaylistId| viewing != Some(id) && m[id].1.contains(song))
}

/// The playlists the song can be added to: every playlist, in name order,
/// that is not pinned.
pub open spec fn choice_ids(m: StoreMap, sorted: Seq<PlaylistId>, viewing: Option<PlaylistId>, song: SongId) -> Seq<PlaylistId> {
    sorted.filter(|id: PlaylistId| !pinned_ids(m, sorted, viewing, song).contains(id))
}

/// `side` is the add-to-playlist list freshly built from the store: the
/// choices, the pinned playlists, and the first choice selected.
pub open spec fn fresh_side(side: SidePanel, store: PlaylistStore, viewing: Option<PlaylistId>, song: SongId) -> bool {
    side matches SidePanel::AddToPlaylist { options, pinned, list_state }
        && options@ == choice_ids(store@, store.sorted_view(), viewing, song)
        && pinned@ == pinned_ids(store@, store.sorted_view(), viewing, song)
        && list_state == (ListState { offset: 0, selected: Some(0) })
}

/// Whether `x` occurs in `s`.
fn ids_contain(s: &[PlaylistId], x: PlaylistId) -> (b: bool)
    ensures
        b == s@.contains(x),
{
    let mut i: usize = 0;
    while i < s.len()
        invariant
            i <= s@.len(),
            forall|k: int| 0 <= k < i ==> s@[k] != x,
        decreases s@.len() - i,
    {
        if s[i] == x {
            return true;
        }
        i = i + 1;
    }
    false
}

/// The add-to-playlist list for `song`: the playlist being viewed and the
/// playlists already holding the song are pinned, the others are the
/// choices; `None` when there is no choice.
pub fn add_to_playlist_side(store: &PlaylistStore, viewing: Option<PlaylistId>, song: SongId) -> (r: Option<SidePanel>)
    requires
        store.wf(),
    ensures
        choice_ids(store@, store.sorted_view(), viewing, song).len() == 0 ==> r is None,
        choice_ids(store@, store.sorted_view(), viewing, song).len() > 0 ==> (r matches Some(side)
            && fresh_side(side, *store, viewing, song)),
{
    let sorted = store.ids_sorted_by_name();
    let ghost m = store@;
    let ghost pred = |id: PlaylistId| viewing != Some(id) && m[id].1.contains(song);
    let ghost head = match viewing {
        Some(v) => seq![v],
        None => Seq::<PlaylistId>::empty(),
    };
    let mut pinned: Vec<PlaylistId> = Vec::new();
    match viewing {
        Some(v) => pinned.push(v),
        None => {},
    }
    let mut i: usize = 0;
    while i < sorted.len()
        invariant
            store.wf(),
            m == store@,
            sorted@ == store.sorted_view(),
            sorted_by_name(store@, sorted@),
            pred == (|id: PlaylistId| viewing != Some(id) && m[id].1.contains(song)),
            i <= sorted@.len(),
            pinned@ == head + sorted@.take(i as int).filter(pred),
        decreases sorted@.len() - i,
    {
        let id = sorted[i];
        let ghost before = sorted@.take(i as int).filter(pred);
        proof {
            reveal_with_fuel(Seq::<_>::filter, 1);
            assert(sorted@.take(i + 1).drop_last() =~= sorted@.take(i as int));
            assert(sorted@.take(i + 1).last() == id);
            assert(pred(id) == (viewing != Some(id) && store@[id].1.contains(song)));
        }
        if viewing != Some(id) && store.contains(id, song) {
            pinned.push(id);
            proof {
                assert(sorted@.take(i + 1).filter(pred) == before.push(id));
                assert(pinned@ =~= head + sorted@.take(i + 1).filter(pred));
            }
        } else {
            proof {
                assert(sorted@.take(i + 1).filter(pred) == before);
            }
        }
        i = i + 1;
    }
    assert(sorted@.take(sorted@.len() as int) =~= sorted@);
    assert(pred =~= (|id: PlaylistId| viewing != Some(id) && store@[id].1.contains(song)));
    assert(pinned@ == pinned_ids(store@, store.sorted_view(), viewing, song));
    let ghost keep = |id: PlaylistId| !pinned@.contains(id);
    let mut options: Vec<PlaylistId> = Vec::new();
    let mut j: usize = 0;
    while j < sorted.len()
        invariant
            store.wf(),
            sorted@ == store.sorted_view(),
            j <= sorted@.len(),
            pinned@ == pinned_ids(store@, store.sorted_view(), viewing, song),
            keep == (|id: PlaylistId| !pinned@.contains(id)),
            options@ == sorted@.take(j as int).filter(keep),
        decreases sorted@.len() - j,
    {
        let id = sorted[j];
        proof {
            reveal_with_fuel(Seq::<_>::filter, 1);
            assert(sorted@.take(j + 1).drop_last() =~= sorted@.take(j as int));
        }
        if !ids_contain(pinned.as_slice(), id) {
            options.push(id);
        }
        j = j + 1;
    }
    assert(sorted@.take(sorted@.len() as int) =~= sorted@);
    assert(keep =~= (|id: PlaylistId| !pinned_ids(store@, store.sorted_view(), viewing, song).contains(id)));
    if options.len() == 0 {
        return None;
    }
    let mut list_state = ListState::new();
    list_state.select(Some(0));
    Some(SidePanel::AddToPlaylist { options, pinned, list_state })
}

/// `m` is the song-actions dialog as it opens for `song`: the focus on
/// adding to a playlist, or on creating one when there is none yet.
pub open spec fn fresh_song_modal(store: PlaylistStore, song: SongId, m: SongModal) -> bool {
    &&& m.song == song
    &&& m.selected == (if store@.dom().len() == 0 { ChooseActionField::CreatePlaylist } else { ChooseActionField::AddToPlaylist })
    &&& m.name_input@ == Seq::<char>::empty()
    &&& m.side is None
}

/// The song-actions dialog for `song`: the focus starts on adding to a
/// playlist, or on creating one when there is none yet.
pub fn new_song_modal(store: &PlaylistStore, song: SongId) -> (m: SongModal)
    requires
        store.wf(),
    ensures
        fresh_song_modal(*store, song, m),
{
    let selected = if store.is_empty() { ChooseActionField::CreatePlaylist } else { ChooseActionField::AddToPlaylist };
    SongModal { song, selected, name_input: String::new(), side: None }
}

/// The store is as it was.
pub open spec fn unchanged(before: PlaylistStore, after: PlaylistStore) -> bool {
    &&& after.wf()
    &&& after@ == before@
    &&& after.sorted_view() == before.sorted_view()
    &&& after.revision_view() == before.revision_view()
    &&& after.dirty_view() == before.dirty_view()
}

fn status(text: String, kind: StatusKind) -> (l: Option<StatusLine>)
    ensures
        l == Some(StatusLine { text, kind }),
{
    Some(StatusLine { text, kind })
}

/// The dialog's keys while the playlist name is being typed (the focus is
/// on creating a playlist): Esc closes; Up, Down, Tab and Shift+Tab move
/// the focus to adding when there are playlists; Enter creates the playlist
/// from the trimmed name (refusing an empty one) and adds the song to it;
/// Backspace and characters edit the name.
pub open spec fn create_step(s0: PlaylistStore, s1: PlaylistStore, modal: SongModal, key: KeyPress, r: (Option<SongModal>, Option<StatusLine>)) -> bool {
    match key.code {
        KeyCode::Esc => r.0 is None && r.1 is None && unchanged(s0, s1),
        KeyCode::Up | KeyCode::Down | KeyCode::Tab | KeyCode::BackTab => r.1 is None && unchanged(s0, s1) && if s0@.dom().len() > 0 {
            r.0 == Some(SongModal { selected: ChooseActionField::AddToPlaylist, ..modal })
        } else {
            r.0 == Some(modal)
        },
        KeyCode::Enter => {
            let name = spec_trim(modal.name_input@);
            if name.len() == 0 {
                &&& r.0 == Some(modal)
                &&& shows(r.1, StatusKind::Error, "playlist name can't be empty"@)
                &&& unchanged(s0, s1)
            } else {
                &&& r.0 is None
                &&& shows(r.1, StatusKind::Success, "created \""@ + name + "\" and added the song"@)
                &&& s1.wf()
                &&& exists|id: PlaylistId| #[trigger] s0@.insert(id, (name, seq![modal.song])) == s1@
                &&& s1.revision_view() == s0.revision_view() + 2
                &&& s1.dirty_view()
            }
        },
        KeyCode::Backspace => r.1 is None && unchanged(s0, s1) && (r.0 matches Some(m)
            && m.name_input@ == backspaced(modal.name_input@)
            && m.song == modal.song && m.selected == modal.selected && m.side == modal.side),
        KeyCode::Char(c) => r.1 is None && unchanged(s0, s1) && (r.0 matches Some(m)
            && m.name_input@ == modal.name_input@.push(c)
            && m.song == modal.song && m.selected == modal.selected && m.side == modal.side),
        _ => r.0 == Some(modal) && r.1 is None && unchanged(s0, s1),
    }
}

/// The dialog's keys while the focus is on adding to (or removing from) a
/// playlist and no list is open beside it: Esc closes; `j`, `k`, Up, Down,
/// Tab and Shift+Tab move the focus to creating; Enter opens the list of
/// playlists to add to, or says there is none.
pub open spec fn choose_step(s0: PlaylistStore, s1: PlaylistStore, viewing: Option<PlaylistId>, modal: SongModal, key: KeyPress, r: (Option<SongModal>, Option<StatusLine>)) -> bool {
    &&& r.1 is None || key.code == KeyCode::Enter
    &&& unchanged(s0, s1)
    &&& match key.code {
        KeyCode::Esc => r.0 is None,
        KeyCode::Char('j') | KeyCode::Char('k') | KeyCode::Down | KeyCode::Up | KeyCode::Tab | KeyCode::BackTab =>
            r.0 == Some(SongModal { selected: ChooseActionField::CreatePlaylist, ..modal }),
        KeyCode::Enter => if choice_ids(s0@, s0.sorted_view(), viewing, modal.song).len() > 0 {
            &&& r.1 is None
            &&& r.0 matches Some(m) && m.song == modal.song && m.selected == modal.selected
                && m.name_input == modal.name_input && (m.side matches Some(side) && fresh_side(side, s0, viewing, modal.song))
        } else {
            &&& r.0 == Some(modal)
            &&& shows(r.1, StatusKind::Info, "no other playlists to add to -- select Create Playlist instead"@)
        },
        _ => r.0 == Some(modal),
    }
}

/// A list selection moved by `delta` over `len` rows, wrapping; an empty
/// list stays as it is.
pub open spec fn moved_state(s: ListState, len: int, delta: isize) -> ListState {
    if len == 0 { s } else { ListState { selected: Some(wrapped(s.selected, delta, len as usize)), ..s } }
}

/// The dialog with its side list replaced.
pub open spec fn with_side(modal: SongModal, side: Option<SidePanel>) -> SongModal {
    SongModal { song: modal.song, selected: modal.selected, name_input: modal.name_input, side }
}

/// Enter on a playlist of the add-to-playlist list: the song is appended
/// to it unless it is already there, and the status line says which.
pub open spec fn add_outcome(s0: PlaylistStore, s1: PlaylistStore, target: PlaylistId, song: SongId, line: Option<StatusLine>) -> bool {
    let name = if s0@.contains_key(target) { s0@[target].0 } else { Seq::<char>::empty() };
    if s0@.contains_key(target) && !s0@[target].1.contains(song) {
        &&& shows(line, StatusKind::Success, "added to \""@ + name + "\""@)
        &&& s1.wf()
        &&& s1@ == s0@.insert(target, (s0@[target].0, s0@[target].1.push(song)))
        &&& s1.sorted_view() == s0.sorted_view()
        &&& s1.revision_view() == s0.revision_view() + 1
        &&& s1.dirty_view()
    } else {
        shows(line, StatusKind::Info, "already in \""@ + name + "\""@) && unchanged(s0, s1)
    }
}

/// The dialog's keys while the add-to-playlist list is open beside it: Esc
/// closes the list; `j`, Down and Tab move down, `k`, Up and Shift+Tab move
/// up (wrapping); Enter adds the song to the selected playlist and closes
/// the dialog.
pub open spec fn add_side_step(
    s0: PlaylistStore,
    s1: PlaylistStore,
    modal: SongModal,
    options: Vec<PlaylistId>,
    pinned: Vec<PlaylistId>,
    list_state: ListState,
    key: KeyPress,
    r: (Option<SongModal>, Option<StatusLine>),
) -> bool {
    match key.code {
        KeyCode::Esc => r.0 == Some(with_side(modal, None)) && r.1 is None && unchanged(s0, s1),
        KeyCode::Char('j') | KeyCode::Down | KeyCode::Tab => r.1 is None && unchanged(s0, s1) && r.0 == Some(with_side(modal,
            Some(SidePanel::AddToPlaylist { options, pinned, list_state: moved_state(list_state, options@.len() as int, 1isize) }))),
        KeyCode::Char('k') | KeyCode::Up | KeyCode::BackTab => r.1 is None && unchanged(s0, s1) && r.0 == Some(with_side(modal,
            Some(SidePanel::AddToPlaylist { options, pinned, list_state: moved_state(list_state, options@.len() as int, -1isize) }))),
        KeyCode::Enter => r.0 is None && match list_state.selected {
            Some(i) => if i < options@.len() {
                add_outcome(s0, s1, options@[i as int], modal.song, r.1)
            } else {
                r.1 is None && unchanged(s0, s1)
            },
            None => r.1 is None && unchanged(s0, s1),
        },
        _ => r.1 is None && unchanged(s0, s1)
            && r.0 == Some(with_side(modal, Some(SidePanel::AddToPlaylist { options, pinned, list_state }))),
    }
}

/// The dialog's keys while a remove-from-playlist list is open beside it:
/// only Esc and the moves do anything.
pub open spec fn remove_side_step(
    s0: PlaylistStore,
    s1: PlaylistStore,
    modal: SongModal,
    options: Vec<PlaylistId>,
    list_state: ListState,
    key: KeyPress,
    r: (Option<SongModal>, Option<StatusLine>),
) -> bool {
    &&& r.1 is None
    &&& unchanged(s0, s1)
    &&& match key.code {
        KeyCode::Esc => r.0 == Some(with_side(modal, None)),
        KeyCode::Char('j') | KeyCode::Down | KeyCode::Tab => r.0 == Some(with_side(modal,
            Some(SidePanel::RemoveFromPlaylist { options, list_state: moved_state(list_state, options@.len() as int, 1isize) }))),
        KeyCode::Char('k') | KeyCode::Up | KeyCode::BackTab => r.0 == Some(with_side(modal,
            Some(SidePanel::RemoveFromPlaylist { options, list_state: moved_state(list_state, options@.len() as int, -1isize) }))),
        _ => r.0 == Some(with_side(modal, Some(SidePanel::RemoveFromPlaylist { options, list_state }))),
    }
}

/// What a key does to the song-actions dialog and the store.
pub open spec fn song_modal_step(s0: PlaylistStore, s1: PlaylistStore, viewing: Option<PlaylistId>, modal: SongModal, key: KeyPress, r: (Option<SongModal>, Option<StatusLine>)) -> bool {
    match modal.side {
        None => if modal.selected == ChooseActionField::CreatePlaylist {
            create_step(s0, s1, modal, key, r)
        } else {
            choose_step(s0, s1, viewing, modal, key, r)
        },
        Some(SidePanel::AddToPlaylist { options, pinned, list_state }) =>
            add_side_step(s0, s1, modal, options, pinned, list_state, key, r),
        Some(SidePanel::RemoveFromPlaylist { options, list_state }) =>
            remove_side_step(s0, s1, modal, options, list_state, key, r),
    }
}

fn create_key(store: &mut PlaylistStore, modal: SongModal, key: KeyPress) -> (r: (Option<SongModal>, Option<StatusLine>))
    requires
        old(store).wf(),
        old(store).revision_view() < u64::MAX - 1,
        modal.side is None,
        modal.selected == ChooseActionField::CreatePlaylist,
    ensures
        create_step(*old(store), *final(store), modal, key, r),
{
    let SongModal { song, selected, name_input, side } = modal;
    let mut name_input = name_input;
    match key.code {
        KeyCode::Esc => (None, None),
        KeyCode::Up | KeyCode::Down | KeyCode::Tab | KeyCode::BackTab => {
            if !store.is_empty() {
                (Some(SongModal { song, selected: ChooseActionField::AddToPlaylist, name_input, side }), None)
            } else {
                (Some(SongModal { song, selected, name_input, side }), None)
            }
        },
        KeyCode::Enter => {
            let name = trim(name_input.as_str());
            if name.as_str().unicode_len() == 0 {
                let line = status(String::from_str("playlist name can't be empty"), StatusKind::Error);
                return (Some(SongModal { song, selected, name_input, side }), line);
            }
            let mut text = String::from_str("created \"");
            text.append(name.as_str());
            text.append("\" and added the song");
            let ghost s0 = *store;
            let ghost name_view = name@;
            let id = store.create(name);
            let added = store.add_song(id, song);
            proof {
                assert(!Seq::<SongId>::empty().contains(song));
                assert(added);
                assert(store@ =~= s0@.insert(id, (name_view, seq![song])));
            }
            (None, status(text, StatusKind::Success))
        },
        KeyCode::Backspace => {
            pop_char(&mut name_input);
            (Some(SongModal { song, selected, name_input, side }), None)
        },
        KeyCode::Char(c) => {
            push_char(&mut name_input, c);
            (Some(SongModal { song, selected, name_input, side }), None)
        },
        _ => (Some(SongModal { song, selected, name_input, side }), None),
    }
}

fn choose_key(store: &PlaylistStore, viewing: Option<PlaylistId>, modal: SongModal, key: KeyPress) -> (r: (Option<SongModal>, Option<StatusLine>))
    requires
        store.wf(),
        modal.side is None,
    ensures
        choose_step(*store, *store, viewing, modal, key, r),
{
    let SongModal { song, selected, name_input, side } = modal;
    match key.code {
        KeyCode::Esc => (None, None),
        KeyCode::Char('j') | KeyCode::Char('k') | KeyCode::Down | KeyCode::Up | KeyCode::Tab | KeyCode::BackTab => {
            (Some(SongModal { song, selected: ChooseActionField::CreatePlaylist, name_input, side }), None)
        },
        KeyCode::Enter => match add_to_playlist_side(store, viewing, song) {
            Some(panel) => (Some(SongModal { song, selected, name_input, side: Some(panel) }), None),
            None => {
                let line = status(
                    String::from_str("no other playlists to add to -- select Create Playlist instead"),
                    StatusKind::Info,
                );
                (Some(SongModal { song, selected, name_input, side }), line)
            },
        },
        _ => (Some(SongModal { song, selected, name_input, side }), None),
    }
}

fn add_side_key(
    store: &mut PlaylistStore,
    modal: SongModal,
    options: Vec<PlaylistId>,
    pinned: Vec<PlaylistId>,
    list_state: ListState,
    key: KeyPress,
) -> (r: (Option<SongModal>, Option<StatusLine>))
    requires
        old(store).wf(),
        old(store).revision_view() < u64::MAX,
    ensures
        add_side_step(*old(store), *final(store), modal, options, pinned, list_state, key, r),
{
    let song = modal.song;
    let mut list_state = list_state;
    match key.code {
        KeyCode::Esc => (Some(SongModal { side: None, ..modal }), None),
        KeyCode::Char('j') | KeyCode::Down | KeyCode::Tab => {
            move_wrapping(&mut list_state, options.len(), 1);
            (Some(SongModal { side: Some(SidePanel::AddToPlaylist { options, pinned, list_state }), ..modal }), None)
        },
        KeyCode::Char('k') | KeyCode::Up | KeyCode::BackTab => {
            move_wrapping(&mut list_state, options.len(), -1);
            (Some(SongModal { side: Some(SidePanel::AddToPlaylist { options, pinned, list_state }), ..modal }), None)
        },
        KeyCode::Enter => {
            let target = match list_state.selected {
                Some(i) => if i < options.len() { Some(options[i]) } else { None },
                None => None,
            };
            match target {
                None => (None, None),
                Some(target) => {
                    let name = match store.get(target) {
                        Some(p) => String::from_str(p.name()),
                        None => String::new(),
                    };
                    let added = store.add_song(target, song);
                    let (text, kind) = if added {
                        let mut t = String::from_str("added to \"");
                        t.append(name.as_str());
                        t.append("\"");
                        (t, StatusKind::Success)
                    } else {
                        let mut t = String::from_str("already in \"");
                        t.append(name.as_str());
                        t.append("\"");
                        (t, StatusKind::Info)
                    };
                    (None, status(text, kind))
                },
            }
        },
        _ => (Some(SongModal { side: Some(SidePanel::AddToPlaylist { options, pinned, list_state }), ..modal }), None),
    }
}

fn remove_side_key(
    modal: SongModal,
    options: Vec<PlaylistId>,
    list_state: ListState,
    key: KeyPress,
) -> (r: (Option<SongModal>, Option<StatusLine>))
    ensures
        forall|s: PlaylistStore| s.wf() ==> remove_side_step(s, s, modal, options, list_state, key, r),
{
    let mut list_state = list_state;
    match key.code {
        KeyCode::Esc => (Some(SongModal { side: None, ..modal }), None),
        KeyCode::Char('j') | KeyCode::Down | KeyCode::Tab => {
            move_wrapping(&mut list_state, options.len(), 1);
            (Some(SongModal { side: Some(SidePanel::RemoveFromPlaylist { options, list_state }), ..modal }), None)
        },
        KeyCode::Char('k') | KeyCode::Up | KeyCode::BackTab => {
            move_wrapping(&mut list_state, options.len(), -1);
            (Some(SongModal { side: Some(SidePanel::RemoveFromPlaylist { options, list_state }), ..modal }), None)
        },
        _ => (Some(SongModal { side: Some(SidePanel::RemoveFromPlaylist { options, list_state }), ..modal }), None),
    }
}

/// What a key does in the song-actions dialog: the dialog after it (`None`
/// when it closes), the status line to show, and the playlists changed by
/// creating or adding.
pub fn song_modal_key(store: &mut PlaylistStore, viewing: Option<PlaylistId>, modal: SongModal, key: KeyPress) -> (r: (Option<SongModal>, Option<StatusLine>))
    requires
        old(store).wf(),
        old(store).revision_view() < u64::MAX - 1,
    ensures
        final(store).wf(),
        song_modal_step(*old(store), *final(store), viewing, modal, key, r),
{
    let ghost m0 = modal;
    match modal.side {
        None => {
            if modal.selected == ChooseActionField::CreatePlaylist {
                create_key(store, modal, key)
            } else {
                choose_key(store, viewing, modal, key)
            }
        },
        Some(SidePanel::AddToPlaylist { options, pinned, list_state }) => {
            let m = SongModal { song: modal.song, selected: modal.selected, name_input: modal.name_input, side: None };
            let r = add_side_key(store, m, options, pinned, list_state, key);
            r
        },
        Some(SidePanel::RemoveFromPlaylist { options, list_state }) => {
            let m = SongModal { song: modal.song, selected: modal.selected, name_input: modal.name_input, side: None };
            remove_side_key(m, options, list_state, key)
        },
    }
}

/// The song's name in messages: its label, or "song" when the library no
/// longer has it.
pub open spec fn song_text(library: Library, song: SongId) -> Seq<char> {
    match find(library.songs_view(), song) {
        Some(s) => s.label_view(),
        None => "song"@,
    }
}

/// Removing `song` from `playlist` after the user said yes, from store `s0`
/// to `s1`, with the status line `line`: "removed ..." and the song gone
/// from the playlist, or a failure when the playlist does not hold it.
pub open spec fn removal(s0: PlaylistStore, s1: PlaylistStore, library: Library, playlist: PlaylistId, song: SongId, line: StatusLine) -> bool {
    &&& s1.wf()
    &&& s0@.contains_key(playlist) && s0@[playlist].1.contains(song) ==> {
        &&& line.kind == StatusKind::Success
        &&& line.text@ == "removed "@ + song_text(library, song)
        &&& s1@ == s0@.insert(playlist, (s0@[playlist].0, without(s0@[playlist].1, song)))
    }
    &&& !(s0@.contains_key(playlist) && s0@[playlist].1.contains(song)) ==> {
        &&& line.kind == StatusKind::Error
        &&& line.text@ == "failed to remove song from playlist"@
        &&& unchanged(s0, s1)
    }
}

/// Removes a song from a playlist after the user said yes, and says how it
/// went: "removed ..." or a failure.
pub fn remove_confirmed(store: &mut PlaylistStore, library: &Library, playlist: PlaylistId, song: SongId) -> (line: StatusLine)
    requires
        old(store).wf(),
        old(store).revision_view() < u64::MAX,
    ensures
        removal(*old(store), *final(store), *library, playlist, song, line),
{
    let label = match library.get(song) {
        Some(s) => s.label(),
        None => String::from_str("song"),
    };
    if store.remove_song(playlist, song) {
        let mut text = String::from_str("removed ");
        text.append(label.as_str());
        StatusLine { text, kind: StatusKind::Success }
    } else {
        StatusLine { text: String::from_str("failed to remove song from playlist"), kind: StatusKind::Error }
    }
}

/// Law: the add-to-playlist list shows every playlist of the store exactly
/// once: either pinned (the one being viewed, or one already holding the
/// song) or among the choices.
pub proof fn law_side_lists_each_playlist_once(m: StoreMap, sorted: Seq<PlaylistId>, viewing: Option<PlaylistId>, song: SongId, id: PlaylistId)
    requires
        sorted.contains(id),
    ensures
        pinned_ids(m, sorted, viewing, song).contains(id) != choice_ids(m, sorted, viewing, song).contains(id),
{
    let pinned = pinned_ids(m, sorted, viewing, song);
    let pred = |x: PlaylistId| !pinned.contains(x);
    let choices = sorted.filter(pred);
    assert(choices == choice_ids(m, sorted, viewing, song));
    if pinned.contains(id) {
        if choices.contains(id) {
            let k = choose|k: int| 0 <= k < choices.len() && choices[k] == id;
            sorted.lemma_filter_pred(pred, k);
        }
    } else {
        let i = choose|i: int| 0 <= i < sorted.len() && sorted[i] == id;
        sorted.lemma_filter_contains(pred, i);
    }
}

} // verus!
