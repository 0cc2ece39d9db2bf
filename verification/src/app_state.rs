//! What the player shows and edits, and what a key press does to it. The
//! work outside (playback, the play queue, downloads, writing tags, leaving
//! the program) is handed back as an effect for the caller to carry out.
use vstd::prelude::*;
use crate::input::{
    confirms_quit, confirms_removal, dir_input_key, dir_step, metadata_modal_key, metadata_step, pending_jump_message,
    route_key, route_spec, search_key, search_step, KeyContext, KeyRoute, MetadataKeyOutcome,
};
use crate::keymap::{Action, Direction, KeyCode, KeyPress};
use crate::library::{find, ids_of, index_of_id, replaced, InsertOutcome, Library};
use crate::navigation::{law_wrapping_move_stays_on_songs, song_mask, ListState, Row};
use crate::panel_view::{playlist_songs, present, refs_view, shown_rows, visible_rows};
use crate::playlist::{any_holds, map_renamed, name_shown, PlaylistId, PlaylistStore};
use crate::selection::{
    browse_moved, browse_paged, browse_settled, category_cycled, current_jumped, cycle_category, cycle_playlist_mode,
    cycle_sort, mode_cycled, sort_cycled, enter_playlist, jump_browse_page, jump_page,
    jump_to_current, move_browse_selection, move_selection, moved, on_first_song, on_last_song, paged, playlist_entered,
    select_first_playlist, select_first_song, select_last_playlist, select_last_song, selecting, settle_browse_selection,
    settle_selection, settled, reset_browse_selection, select_song,
};
use crate::session::{fresh_metadata_modal, metadata_updated_message, new_metadata_modal, romanized_prompt,
    romanized_prompt_spec, romanized_applied_message, scan_summary, scan_summary_text, picked_row, row_song, selected_row, selected_song};
use crate::queue::{
    advanced, appended, fresh_queue, jumped, played_id, queue_renamed, shuffled, stepped, unshuffled, went_back, Queue,
};
use crate::song::{all_digits, digits_value, parse_digits, Song, SongId};
use crate::text::spec_decimal;
use crate::song_modal::{fresh_song_modal, new_song_modal, removal, remove_confirmed, song_modal_key, song_modal_step, song_text};
use crate::state::{
    Category, DirScanState, LibraryPanelState, PlaylistDisplayMode, QueueSource, RomanizedArtistConfirmModal, Sort, MetadataEditModal, Panel, PlaylistPanelState, PlaylistView, SongModal, StatusKind,
    StatusLine, StatusMessage,
};
use crate::youtube_modal::{event_spec, key_spec, on_event, on_key, DownloadEvent, YoutubeEffect, YoutubeModal};

verus! {

/// Everything the player shows and edits, apart from audio and files.
pub struct AppState {
    pub library: Library,
    pub playlists: PlaylistStore,
    pub panel: Panel,
    pub library_panel: LibraryPanelState,
    pub playlist_panel: PlaylistPanelState,
    pub dir: DirScanState,
    pub song_modal: Option<SongModal>,
    pub metadata_modal: Option<MetadataEditModal>,
    pub youtube: Option<YoutubeModal>,
    pub confirming_remove: Option<(PlaylistId, SongId)>,
    pub romanized_confirm: Option<RomanizedArtistConfirmModal>,
    pub confirming_quit: bool,
    pub showing_help: bool,
    pub pending_number: String,
    /// The play queue.
    pub queue: Queue,
    /// Where the play queue took its songs from.
    pub queue_source: QueueSource,
    pub status: StatusMessage,
}

/// Work a key press leaves to the caller.
pub enum Effect {
    Nothing,
    /// Save the playlists and leave.
    Quit,
    TogglePlayback,
    /// Start playing this song (the queue already stands on it).
    Play(SongId),
    VolumeUp,
    VolumeDown,
    /// Write the edited tags and reload the song.
    SaveMetadata(MetadataEditModal),
    /// What the download dialog asks for.
    Youtube(YoutubeEffect),
    /// Give the artist's other songs the romanized artist (the question
    /// answered yes).
    ApplyRomanized(RomanizedArtistConfirmModal),
}

/// The key context: what is open and what the panels show.
pub open spec fn key_context(s: AppState) -> KeyContext {
    KeyContext {
        confirming_quit: s.confirming_quit,
        confirming_remove: s.confirming_remove is Some,
        confirming_romanized: s.romanized_confirm is Some,
        showing_help: s.showing_help,
        song_modal: s.song_modal is Some,
        metadata_modal: s.metadata_modal is Some,
        youtube_modal: s.youtube is Some,
        editing_dir: s.dir.editing_dir,
        library_searching: s.library_panel.searching,
        playlist_searching: s.playlist_panel.searching,
        panel: s.panel,
        playlist_view: s.playlist_panel.view,
        library_query_empty: s.library_panel.search_query@.len() == 0,
        playlist_query_empty: s.playlist_panel.search_query@.len() == 0,
    }
}

/// The list state of the panel shown.
pub open spec fn active(s: AppState) -> ListState {
    match s.panel {
        Panel::Library => s.library_panel.list_state,
        Panel::Playlists => s.playlist_panel.list_state,
    }
}

/// The state with the list state of the panel shown replaced.
pub open spec fn with_active(s: AppState, ls: ListState) -> AppState {
    match s.panel {
        Panel::Library => AppState { library_panel: LibraryPanelState { list_state: ls, ..s.library_panel }, ..s },
        Panel::Playlists => AppState { playlist_panel: PlaylistPanelState { list_state: ls, ..s.playlist_panel }, ..s },
    }
}

/// The rows the panel shown holds.
pub open spec fn shown(s: AppState, rows: Seq<Row>) -> bool {
    shown_rows(s.library, s.playlists, s.panel, s.library_panel, s.playlist_panel, rows)
}

/// The playlists the list of playlists shows for its search.
pub open spec fn browse_ids(s: AppState) -> Seq<PlaylistId> {
    s.playlists.sorted_view().filter(|id: PlaylistId| name_shown(s.playlists@[id].0, s.playlist_panel.search_query@))
}

/// The status line after a step: `line` when there is one, shown from
/// `now`, else as it was.
pub open spec fn told(s0: AppState, s1: AppState, now: u128, line: Option<(StatusKind, Seq<char>)>) -> bool {
    match line {
        Some((kind, text)) => s1.status.kind == kind && s1.status.text@ == text && s1.status.set_at_nanos == now,
        None => s1.status == s0.status,
    }
}

/// `s1` is `mid` with the selection of the panel shown settled on its rows.
pub open spec fn settled_after(mid: AppState, s1: AppState) -> bool {
    &&& exists|rows: Seq<Row>| #[trigger] shown(mid, rows) && settled(active(mid), rows, active(s1))
    &&& s1 == with_active(mid, active(s1))
}

/// `s1` is `mid` with the selection in the list of playlists kept within it.
pub open spec fn browse_settled_after(mid: AppState, s1: AppState) -> bool {
    &&& browse_settled(mid.playlist_panel.list_state, browse_ids(mid).len() as usize, s1.playlist_panel.list_state)
    &&& s1 == AppState { playlist_panel: PlaylistPanelState { list_state: s1.playlist_panel.list_state, ..mid.playlist_panel }, ..mid }
}

/// `s1` is `s0` with only the queue-jump number and the status line
/// possibly changed.
pub open spec fn same_but_line(s0: AppState, s1: AppState) -> bool {
    s1 == AppState { pending_number: s1.pending_number, status: s1.status, ..s0 }
}

/// The quit question's keys: yes leaves, anything else closes it.
pub open spec fn quit_step(s0: AppState, s1: AppState, key: KeyPress, effect: Effect) -> bool {
    &&& s1.status == s0.status
    &&& if key.code == KeyCode::Char('y') || key.code == KeyCode::Char('Y') || key.code == KeyCode::Enter {
        effect is Quit && same_but_line(s0, s1)
    } else {
        effect is Nothing && same_but_line(AppState { confirming_quit: false, ..s0 }, s1)
    }
}

/// The remove question's keys: yes removes the song from the playlist
/// (settling the selection on what is left); any key closes the question.
pub open spec fn remove_step(s0: AppState, s1: AppState, key: KeyPress, now: u128) -> bool {
    let (playlist, song) = s0.confirming_remove->0;
    let closed = AppState { confirming_remove: None, ..s0 };
    if key.code == KeyCode::Char('y') || key.code == KeyCode::Char('Y') {
        exists|line: StatusLine| #[trigger] removal(s0.playlists, s1.playlists, s0.library, playlist, song, line)
            && told(s0, s1, now, Some((line.kind, line.text@)))
            && {
                let mid = AppState { playlists: s1.playlists, pending_number: s1.pending_number, status: s1.status, ..closed };
                if line.kind == StatusKind::Success { settled_after(mid, s1) } else { s1 == mid }
            }
    } else {
        s1.status == s0.status && same_but_line(closed, s1)
    }
}

/// The song-actions dialog's keys (see `song_modal_step`); the playlist
/// viewed is the one the add-to-playlist list pins first.
pub open spec fn song_dialog_step(s0: AppState, s1: AppState, key: KeyPress, now: u128) -> bool {
    exists|line: Option<StatusLine>| #[trigger] song_dialog_with(s0, s1, key, now, line)
}

/// The playlist whose songs the panel shows, if any.
pub open spec fn viewing(s: AppState) -> Option<PlaylistId> {
    match (s.panel, s.playlist_panel.view) {
        (Panel::Playlists, PlaylistView::Viewing(id)) => Some(id),
        _ => None,
    }
}

/// The song-actions dialog's step with the status line `line` it shows.
pub open spec fn song_dialog_with(s0: AppState, s1: AppState, key: KeyPress, now: u128, line: Option<StatusLine>) -> bool {
    &&& song_modal_step(s0.playlists, s1.playlists, viewing(s0), s0.song_modal->0, key, (s1.song_modal, line))
    &&& told(s0, s1, now, match line { Some(l) => Some((l.kind, l.text@)), None => None })
    &&& s1 == AppState { playlists: s1.playlists, song_modal: s1.song_modal, pending_number: s1.pending_number,
        status: s1.status, ..s0 }
}

/// The metadata editor's keys (see `metadata_step`): saving closes the
/// editor and asks the caller to write the tags.
pub open spec fn metadata_dialog_step(s0: AppState, s1: AppState, key: KeyPress, effect: Effect) -> bool {
    &&& s1.status == s0.status
    &&& exists|r: MetadataKeyOutcome| #[trigger] metadata_step(s0.metadata_modal->0, key, r) && match r {
        MetadataKeyOutcome::Close => effect is Nothing && same_but_line(AppState { metadata_modal: None, ..s0 }, s1),
        MetadataKeyOutcome::Save(m) => effect == Effect::SaveMetadata(m) && same_but_line(AppState { metadata_modal: None, ..s0 }, s1),
        MetadataKeyOutcome::Keep(m) => effect is Nothing && same_but_line(AppState { metadata_modal: Some(m), ..s0 }, s1),
    }
}

/// The download dialog's keys (see `key_spec`); its work goes to the
/// caller.
pub open spec fn youtube_dialog_step(s0: AppState, s1: AppState, key: KeyPress, effect: Effect) -> bool {
    &&& s1.status == s0.status
    &&& exists|r: (Option<YoutubeModal>, YoutubeEffect)| #[trigger] key_spec(s0.youtube->0, key, r)
        && effect == Effect::Youtube(r.1) && same_but_line(AppState { youtube: r.0, ..s0 }, s1)
}

/// The directory prompt's keys (see `dir_step`).
pub open spec fn dir_prompt_step(s0: AppState, s1: AppState, key: KeyPress, now: u128) -> bool {
    exists|status: Option<String>| #[trigger] dir_step(s0.dir, s0.library.root_view(), key, s1.dir, status)
        && told(s0, s1, now, match status { Some(t) => Some((StatusKind::Info, t@)), None => None })
        && same_but_line(AppState { dir: s1.dir, ..s0 }, s1)
}

/// The library search prompt's keys (see `search_step`); the selection
/// follows a changed query.
pub open spec fn library_search_step(s0: AppState, s1: AppState, key: KeyPress) -> bool {
    &&& s1.status == s0.status
    &&& exists|resync: bool| #[trigger] search_step(s0.library_panel.search_query@, s0.library_panel.searching, key,
        s1.library_panel.search_query@, s1.library_panel.searching, resync)
        && {
            let mid = AppState {
                library_panel: LibraryPanelState {
                    search_query: s1.library_panel.search_query,
                    searching: s1.library_panel.searching,
                    ..s0.library_panel
                },
                pending_number: s1.pending_number,
                status: s1.status,
                ..s0
            };
            if resync { settled_after(mid, s1) } else { s1 == mid }
        }
}

/// The playlists search prompt's keys (see `search_step`); the selection
/// follows a changed query, in the list of playlists or in the songs of
/// the playlist viewed.
pub open spec fn playlist_search_step(s0: AppState, s1: AppState, key: KeyPress) -> bool {
    &&& s1.status == s0.status
    &&& exists|resync: bool| #[trigger] search_step(s0.playlist_panel.search_query@, s0.playlist_panel.searching, key,
        s1.playlist_panel.search_query@, s1.playlist_panel.searching, resync)
        && {
            let mid = AppState {
                playlist_panel: PlaylistPanelState {
                    search_query: s1.playlist_panel.search_query,
                    searching: s1.playlist_panel.searching,
                    ..s0.playlist_panel
                },
                pending_number: s1.pending_number,
                status: s1.status,
                ..s0
            };
            if !resync {
                s1 == mid
            } else if s0.playlist_panel.view is Browsing {
                browse_settled_after(mid, s1)
            } else {
                settled_after(mid, s1)
            }
        }
}

/// A status line `text` of `kind`, shown from `now`, and nothing else
/// changed.
pub open spec fn said(s0: AppState, s1: AppState, now: u128, kind: StatusKind, text: Seq<char>) -> bool {
    told(s0, s1, now, Some((kind, text))) && s1 == AppState { status: s1.status, ..s0 }
}

/// The list of playlists is shown (not the songs of one).
pub open spec fn browsing(s: AppState) -> bool {
    s.panel == Panel::Playlists && s.playlist_panel.view is Browsing
}

/// The page height of the panel shown.
pub open spec fn page_height(s: AppState) -> usize {
    match s.panel {
        Panel::Library => s.library_panel.page_height,
        Panel::Playlists => s.playlist_panel.page_height,
    }
}

/// The state with the selection in the list of playlists replaced.
pub open spec fn with_browse(s: AppState, ls: ListState) -> AppState {
    AppState { playlist_panel: PlaylistPanelState { list_state: ls, ..s.playlist_panel }, ..s }
}

/// The song the selected row of the panel shown holds, or the status line
/// saying why there is none, for one arrangement of the rows shown.
pub open spec fn selection_is(s: AppState, r: Result<SongId, Seq<char>>) -> bool {
    exists|rows: Seq<Row>| #[trigger] shown(s, rows) && row_song(picked_row(rows, active(s).selected)) == r
}

/// The selection moved by `delta` rows (wrapping, skipping headings).
pub open spec fn moved_step(s0: AppState, s1: AppState, delta: isize) -> bool {
    if browsing(s0) {
        browse_moved(s0.playlist_panel.list_state, browse_ids(s0).len() as usize, delta, s1.playlist_panel.list_state)
            && s1 == with_browse(s0, s1.playlist_panel.list_state)
    } else {
        (exists|rows: Seq<Row>| #[trigger] shown(s0, rows) && moved(active(s0), rows, delta, active(s1)))
            && s1 == with_active(s0, active(s1))
    }
}

/// The selection moved a page in `direction`.
pub open spec fn paged_step(s0: AppState, s1: AppState, direction: Direction) -> bool {
    if browsing(s0) {
        browse_paged(s0.playlist_panel.list_state, browse_ids(s0).len() as usize, s0.playlist_panel.page_height,
            direction, s1.playlist_panel.list_state) && s1 == with_browse(s0, s1.playlist_panel.list_state)
    } else {
        (exists|rows: Seq<Row>| #[trigger] shown(s0, rows)
            && paged(active(s0), rows, page_height(s0), direction, active(s1)))
            && s1 == with_active(s0, active(s1))
    }
}

/// The selection moved to the first (`top`) or the last row that can be
/// selected.
pub open spec fn end_step(s0: AppState, s1: AppState, top: bool) -> bool {
    if browsing(s0) {
        let len = browse_ids(s0).len();
        let ls = s0.playlist_panel.list_state;
        s1 == with_browse(s0, selecting(ls, if len == 0 { None } else if top { Some(0usize) } else { Some((len - 1) as usize) }))
    } else {
        (exists|rows: Seq<Row>| #[trigger] shown(s0, rows)
            && if top { on_first_song(active(s0), rows, active(s1)) } else { on_last_song(active(s0), rows, active(s1)) })
            && s1 == with_active(s0, active(s1))
    }
}

/// The selection on the song playing, with the status line `message` when
/// there is none or it is not shown.
pub open spec fn current_with(s0: AppState, s1: AppState, now: u128, rows: Seq<Row>, message: Option<String>) -> bool {
    &&& shown(s0, rows)
    &&& current_jumped(active(s0), rows, s0.queue.current_view(), active(s1), message)
    &&& match message {
        Some(t) => said(with_active(s0, active(s1)), s1, now, StatusKind::Info, t@),
        None => s1 == with_active(s0, active(s1)),
    }
}

/// The playlist selected in the list of playlists opened (`p1`), the
/// selection settled on its songs and the status line naming it.
pub open spec fn entered_with(s0: AppState, s1: AppState, now: u128, p1: PlaylistPanelState, message: Option<String>) -> bool {
    &&& playlist_entered(s0.playlist_panel, s0.playlists, browse_ids(s0), p1, message)
    &&& match message {
        Some(t) => told(s0, s1, now, Some((StatusKind::Info, t@)))
            && settled_after(AppState { playlist_panel: p1, status: s1.status, ..s0 }, s1),
        None => s1 == s0,
    }
}

/// What the selected song `id` is put to by `action`.
pub open spec fn picked_outcome(s0: AppState, s1: AppState, now: u128, action: Action, id: SongId, effect: Effect) -> bool {
    match action {
        Action::Activate => exists|q: Queue| #[trigger] activated_via(s0, s1, id, q, effect),
        Action::QueueNext => effect is Nothing
            && stepped(s0.queue, s1.queue, s0.queue.cursor_view(), seq![id] + s0.queue.priority_view(),
                s0.queue.current_view())
            && s1 == AppState { queue: s1.queue, ..s0 },
        Action::OpenSongModal => effect is Nothing && (s1.song_modal matches Some(m) && fresh_song_modal(s0.playlists, id, m))
            && s1 == AppState { song_modal: s1.song_modal, ..s0 },
        Action::OpenMetadataEditModal => effect is Nothing && match find(s0.library.songs_view(), id) {
            Some(song) => (s1.metadata_modal matches Some(m) && fresh_metadata_modal(id, song.metadata_view(), m))
                && s1 == AppState { metadata_modal: s1.metadata_modal, ..s0 },
            None => said(s0, s1, now, StatusKind::Error, "selected song is no longer in the library"@),
        },
        Action::RemoveFromPlaylist => effect is Nothing
            && s1 == AppState { confirming_remove: Some((viewing(s0)->0, id)), ..s0 },
        _ => effect is Nothing && s1 == s0,
    }
}

/// A command on the selected song: carried out when a song is selected,
/// else the status line says why not.
pub open spec fn on_selection(s0: AppState, s1: AppState, now: u128, action: Action, effect: Effect) -> bool {
    exists|r: Result<SongId, Seq<char>>| #[trigger] selection_is(s0, r) && match r {
        Ok(id) => picked_outcome(s0, s1, now, action, id, effect),
        Err(t) => effect is Nothing && said(s0, s1, now, StatusKind::Info, t),
    }
}

/// The grouping (or, `by_sort`, the order) of the panel shown cycled to
/// `l1` and `p1`, the selection settled on the new rows and the status
/// line naming the new choice; nothing changes where there is none.
pub open spec fn cycled_with(s0: AppState, s1: AppState, now: u128, by_sort: bool, direction: Direction,
    l1: LibraryPanelState, p1: PlaylistPanelState, message: Option<String>) -> bool {
    let mid = AppState { library_panel: l1, playlist_panel: p1, ..s0 };
    &&& if by_sort {
        sort_cycled(s0.panel, s0.library_panel, s0.playlist_panel, direction, l1, p1, message)
    } else {
        category_cycled(s0.panel, s0.library_panel, s0.playlist_panel, direction, l1, p1, message)
    }
    &&& match message {
        Some(t) => told(mid, s1, now, Some((StatusKind::Info, t@)))
            && settled_after(AppState { status: s1.status, ..mid }, s1),
        None => s1 == mid,
    }
}

/// How the library shows each song's playlists cycled to `l1`, with the
/// status line naming it.
pub open spec fn mode_with(s0: AppState, s1: AppState, now: u128, l1: LibraryPanelState, message: Option<String>) -> bool {
    &&& mode_cycled(s0.panel, s0.library_panel, l1, message)
    &&& match message {
        Some(t) => said(AppState { library_panel: l1, ..s0 }, s1, now, StatusKind::Info, t@),
        None => s1 == AppState { library_panel: l1, ..s0 },
    }
}

/// What the action bound to a key does (`None` when the key is bound to
/// nothing).
pub open spec fn action_step(s0: AppState, s1: AppState, action: Option<Action>, now: u128, effect: Effect) -> bool {
    match action {
        Some(Action::TogglePanel) => effect is Nothing && s1 == AppState {
            panel: match s0.panel { Panel::Library => Panel::Playlists, Panel::Playlists => Panel::Library },
            ..s0
        },
        Some(Action::MoveDown) => effect is Nothing && moved_step(s0, s1, 1isize),
        Some(Action::MoveUp) => effect is Nothing && moved_step(s0, s1, -1isize),
        Some(Action::PageDown) => effect is Nothing && paged_step(s0, s1, Direction::Forwards),
        Some(Action::PageUp) => effect is Nothing && paged_step(s0, s1, Direction::Backwards),
        Some(Action::JumpTop) => effect is Nothing && end_step(s0, s1, true),
        Some(Action::JumpBottom) => effect is Nothing && end_step(s0, s1, false),
        Some(Action::JumpToCurrent) => effect is Nothing
            && exists|rows: Seq<Row>, m: Option<String>| #[trigger] current_with(s0, s1, now, rows, m),
        Some(Action::Activate) => if browsing(s0) {
            effect is Nothing && exists|p1: PlaylistPanelState, m: Option<String>| #[trigger] entered_with(s0, s1, now, p1, m)
        } else {
            on_selection(s0, s1, now, Action::Activate, effect)
        },
        Some(Action::TogglePlayback) => effect is TogglePlayback && s1 == s0,
        Some(Action::NextOrJump) => if s0.pending_number@.len() == 0 {
            exists|r: Option<SongId>| #[trigger] advanced(s0.queue, s1.queue, r)
                && played_or_said(s0, s1, now, r, "no next track"@, effect)
        } else {
            &&& s1.pending_number@.len() == 0
            &&& exists|r: Option<SongId>| #[trigger] jumped(s0.queue, s1.queue, jump_number(s0.pending_number@), r)
                && played_or_said(AppState { pending_number: s1.pending_number, ..s0 }, s1, now, r,
                    "no song at Up Next #"@ + s0.pending_number@, effect)
        },
        Some(Action::PrevTrack) => exists|r: Option<SongId>| #[trigger] went_back(s0.queue, s1.queue, r)
            && played_or_said(s0, s1, now, r, "no previous track"@, effect),
        Some(Action::QueueNext) => on_selection(s0, s1, now, Action::QueueNext, effect),
        Some(Action::OpenSongModal) => on_selection(s0, s1, now, Action::OpenSongModal, effect),
        Some(Action::OpenMetadataEditModal) => on_selection(s0, s1, now, Action::OpenMetadataEditModal, effect),
        Some(Action::OpenYoutubeModal) => effect is Nothing
            && (s1.youtube matches Some(YoutubeModal::EnteringUrl { url_input, error, restore })
                && url_input@.len() == 0 && error is None && restore is None)
            && s1 == AppState { youtube: s1.youtube, ..s0 },
        Some(Action::RemoveFromPlaylist) => if viewing(s0) is Some {
            on_selection(s0, s1, now, Action::RemoveFromPlaylist, effect)
        } else {
            effect is Nothing && s1 == s0
        },
        Some(Action::ChangeDirectory) => effect is Nothing && s1.dir.dir_input@ == s0.library.root_view()
            && s1 == AppState { dir: DirScanState { dir_input: s1.dir.dir_input, editing_dir: true, ..s0.dir }, ..s0 },
        Some(Action::ToggleSearch) => effect is Nothing && s1 == match s0.panel {
            Panel::Library => AppState { library_panel: LibraryPanelState { searching: true, ..s0.library_panel }, ..s0 },
            Panel::Playlists => AppState { playlist_panel: PlaylistPanelState { searching: true, ..s0.playlist_panel }, ..s0 },
        },
        Some(Action::CycleCategory(d)) => effect is Nothing && exists|l1: LibraryPanelState, p1: PlaylistPanelState,
            m: Option<String>| #[trigger] cycled_with(s0, s1, now, false, d, l1, p1, m),
        Some(Action::CycleSort(d)) => effect is Nothing && exists|l1: LibraryPanelState, p1: PlaylistPanelState,
            m: Option<String>| #[trigger] cycled_with(s0, s1, now, true, d, l1, p1, m),
        Some(Action::CyclePlaylistDisplayMode) => effect is Nothing
            && exists|l1: LibraryPanelState, m: Option<String>| #[trigger] mode_with(s0, s1, now, l1, m),
        Some(Action::Shuffle) => effect is Nothing && shuffled(s0.queue, s1.queue)
            && said(AppState { queue: s1.queue, ..s0 }, s1, now, StatusKind::Info, "shuffled"@),
        Some(Action::Unshuffle) => effect is Nothing && unshuffled(s0.queue, s1.queue)
            && said(AppState { queue: s1.queue, ..s0 }, s1, now, StatusKind::Info, "restored original order"@),
        Some(Action::VolumeUp) => effect is VolumeUp && s1 == s0,
        Some(Action::VolumeDown) => effect is VolumeDown && s1 == s0,
        Some(Action::Quit) => effect is Nothing && s1 == AppState { confirming_quit: true, ..s0 },
        Some(Action::ToggleHelp) => effect is Nothing && s1 == AppState { showing_help: true, ..s0 },
        Some(Action::Unbound) | None => effect is Nothing && s1 == s0,
    }
}

/// What a key press does once it has been routed (`s0` is the state with
/// the queue-jump number already updated by the routing).
pub open spec fn route_step(s0: AppState, s1: AppState, route: KeyRoute, key: KeyPress, now: u128, effect: Effect) -> bool {
    match route {
        KeyRoute::ConfirmQuit => quit_step(s0, s1, key, effect),
        KeyRoute::ConfirmRemove => effect is Nothing && remove_step(s0, s1, key, now),
        KeyRoute::ConfirmRomanized => {
            &&& s1 == AppState { romanized_confirm: None, ..s0 }
            &&& if key.code == KeyCode::Char('y') || key.code == KeyCode::Char('Y') {
                effect == Effect::ApplyRomanized(s0.romanized_confirm->0)
            } else {
                effect is Nothing
            }
        },
        KeyRoute::DismissHelp => effect is Nothing && s1 == AppState { showing_help: false, ..s0 },
        KeyRoute::SongModal => effect is Nothing && song_dialog_step(s0, s1, key, now),
        KeyRoute::MetadataModal => metadata_dialog_step(s0, s1, key, effect),
        KeyRoute::YoutubeModal => youtube_dialog_step(s0, s1, key, effect),
        KeyRoute::DirInput => effect is Nothing && dir_prompt_step(s0, s1, key, now),
        KeyRoute::LibrarySearch => effect is Nothing && library_search_step(s0, s1, key),
        KeyRoute::PlaylistSearch => effect is Nothing && playlist_search_step(s0, s1, key),
        KeyRoute::Digit { grew } => effect is Nothing && if grew {
            said(s0, s1, now, StatusKind::Info, "jump to Up Next #"@ + s0.pending_number@ + " (press <n>, <Esc> to cancel)"@)
        } else {
            s1 == s0
        },
        KeyRoute::CancelJump => effect is Nothing && said(s0, s1, now, StatusKind::Info, "cancelled queue jump"@),
        KeyRoute::LeavePlaylist => effect is Nothing && s1 == AppState {
            playlist_panel: PlaylistPanelState {
                view: PlaylistView::Browsing,
                list_state: ListState { offset: 0, selected: if browse_ids(s0).len() == 0 { None } else { Some(0usize) } },
                ..s0.playlist_panel
            },
            ..s0
        },
        KeyRoute::ClearPlaylistSearch => effect is Nothing && s1.playlist_panel.search_query@.len() == 0
            && told(s0, s1, now, Some((StatusKind::Info, "cleared search"@)))
            && settled_after(AppState {
                playlist_panel: PlaylistPanelState { search_query: s1.playlist_panel.search_query, ..s0.playlist_panel },
                status: s1.status,
                ..s0
            }, s1),
        KeyRoute::ClearBrowseSearch => effect is Nothing && s1.playlist_panel.search_query@.len() == 0
            && told(s0, s1, now, Some((StatusKind::Info, "cleared search"@)))
            && browse_settled_after(AppState {
                playlist_panel: PlaylistPanelState { search_query: s1.playlist_panel.search_query, ..s0.playlist_panel },
                status: s1.status,
                ..s0
            }, s1),
        KeyRoute::ClearLibrarySearch => effect is Nothing && s1.library_panel.search_query@.len() == 0
            && told(s0, s1, now, Some((StatusKind::Info, "cleared search"@)))
            && settled_after(AppState {
                library_panel: LibraryPanelState { search_query: s1.library_panel.search_query, ..s0.library_panel },
                status: s1.status,
                ..s0
            }, s1),
        KeyRoute::AskQuit => effect is Nothing && s1 == AppState { confirming_quit: true, ..s0 },
        KeyRoute::Dispatch(action) => action_step(s0, s1, action, now, effect),
    }
}

/// `mid` is `s0` after routing `key` (only the queue-jump number updated),
/// and `s1` is what the route makes of it.
pub open spec fn routed_via(s0: AppState, mid: AppState, s1: AppState, key: KeyPress, now: u128, effect: Effect) -> bool {
    let (route, pending) = route_spec(key_context(s0), s0.pending_number@, key);
    &&& mid == AppState { pending_number: mid.pending_number, ..s0 }
    &&& mid.pending_number@ == pending
    &&& route_step(mid, s1, route, key, now, effect)
}

/// What a key press does: where `route_spec` sends it, and what happens
/// there.
pub open spec fn key_step(s0: AppState, s1: AppState, key: KeyPress, now: u128, effect: Effect) -> bool {
    exists|mid: AppState| #[trigger] routed_via(s0, mid, s1, key, now, effect)
}

/// `ls1` is `ls0` with the first row of `rows` showing `id` selected; left
/// alone when no row shows it.
pub open spec fn song_selected(ls0: ListState, rows: Seq<Row>, id: SongId, ls1: ListState) -> bool {
    if exists|i: int| 0 <= i < rows.len() && (#[trigger] rows[i] matches Row::Song(s, _) && s == id) {
        &&& ls1.selected matches Some(i) && i < rows.len() && (rows[i as int] matches Row::Song(s, _) && s == id)
            && forall|q: int| 0 <= q < i ==> !(#[trigger] rows[q] matches Row::Song(s, _) && s == id)
        &&& ls1.offset == ls0.offset
    } else {
        ls1 == ls0
    }
}

/// A saved edit (`modal`) read back as `song`: the library holds `song` in
/// place of the song edited, the playlists follow its new identity, the
/// status line says so, the queue follows it, the romanized-artist
/// question comes up where it applies (`mid`), and the selection moves to
/// the song (`s1`).
pub open spec fn saved_via(s0: AppState, mid: AppState, s1: AppState, modal: MetadataEditModal, song: Song, now: u128) -> bool {
    let old_id = modal.song;
    let new_id = song.id_view();
    let songs = s0.library.songs_view();
    &&& mid.library.songs_view() == replaced(songs, index_of_id(songs, old_id), song, songs.len() as int)
    &&& mid.library.root_view() == s0.library.root_view()
    &&& mid.playlists@ == (if old_id != new_id && any_holds(s0.playlists@, old_id) {
        map_renamed(s0.playlists@, old_id, new_id)
    } else {
        s0.playlists@
    })
    &&& told(s0, mid, now, Some((StatusKind::Success, "updated metadata for "@ + song_text(mid.library, new_id))))
    &&& romanized_prompt_spec(mid.library, new_id, modal.edits.artist_sort@, modal.original_artist_sort@,
        mid.romanized_confirm)
    &&& queue_renamed(s0.queue, mid.queue, old_id, new_id)
    &&& mid == AppState {
        library: mid.library,
        playlists: mid.playlists,
        status: mid.status,
        romanized_confirm: mid.romanized_confirm,
        queue: mid.queue,
        ..s0
    }
    &&& exists|rows: Seq<Row>| #[trigger] shown(mid, rows) && song_selected(active(mid), rows, new_id, active(s1))
    &&& s1 == with_active(mid, active(s1))
}

/// What a metadata save leads to once the tags were written and the song
/// read back (`written`), or the write failed: the editor comes back with
/// the error, or the song is replaced as `saved_via` says.
pub open spec fn metadata_saved(s0: AppState, s1: AppState, modal: MetadataEditModal, written: Result<Song, String>, now: u128) -> bool {
    match written {
        Err(e) => s1 == AppState { metadata_modal: Some(MetadataEditModal { error: Some(e), ..modal }), ..s0 },
        Ok(song) => if find(s0.library.songs_view(), modal.song) is None {
            &&& s1.metadata_modal matches Some(m) && m == MetadataEditModal { error: m.error, ..modal }
                && (m.error matches Some(t) && t@ == "song not found"@)
            &&& s1 == AppState { metadata_modal: s1.metadata_modal, ..s0 }
        } else {
            exists|mid: AppState| #[trigger] saved_via(s0, mid, s1, modal, song, now)
        },
    }
}

/// The state after a directory scan found `library` and the playlists kept
/// for it (`removed` songs of them were missing; `skipped` files could not
/// be read): both panels start over, the dialogs on songs close, the
/// queue starts over on the new library with nothing playing, and the
/// status line sums the scan up (with the error that
/// stopped the previous playback, if any).
pub open spec fn scan_installed(s0: AppState, s1: AppState, library: Library, playlists: PlaylistStore, skipped: usize,
    removed: usize, stop_error: Option<String>, now: u128) -> bool {
    let text = scan_summary_text(library.songs_view().len(), library.root_view(), skipped as nat, removed as nat);
    &&& s1.library == library
    &&& s1.playlists == playlists
    &&& s1.library_panel == LibraryPanelState {
        list_state: ListState { offset: 0, selected: if library.songs_view().len() == 0 { None } else { Some(0usize) } },
        search_query: s1.library_panel.search_query,
        ..s0.library_panel
    }
    &&& s1.library_panel.search_query@.len() == 0
    &&& s1.playlist_panel == PlaylistPanelState {
        view: PlaylistView::Browsing,
        searching: false,
        search_query: s1.playlist_panel.search_query,
        list_state: ListState { offset: 0, selected: if browse_ids(s1).len() == 0 { None } else { Some(0usize) } },
        ..s0.playlist_panel
    }
    &&& s1.playlist_panel.search_query@.len() == 0
    &&& s1.dir == DirScanState { dir_input: s1.dir.dir_input, ..s0.dir }
    &&& s1.dir.dir_input@ == library.root_view()
    &&& fresh_queue(s1.queue, ids_of(library.songs_view()))
    &&& s1.queue_source == QueueSource::Library
    &&& match stop_error {
        None => told(s0, s1, now, Some((StatusKind::Success, text))),
        Some(e) => told(s0, s1, now, Some((StatusKind::Error,
            text + " (failed to stop previous playback cleanly: "@ + e@ + ")"@))),
    }
    &&& s1 == AppState {
        library: s1.library,
        playlists: s1.playlists,
        queue: s1.queue,
        queue_source: QueueSource::Library,
        library_panel: s1.library_panel,
        playlist_panel: s1.playlist_panel,
        song_modal: None,
        confirming_remove: None,
        dir: s1.dir,
        status: s1.status,
        ..s0
    }
}

/// A downloaded song added to the library: the status line names it and
/// the selection moves to it (`mid` is the state before the selection
/// moves); a song the library already holds is reported instead.
pub open spec fn download_added(s0: AppState, s1: AppState, song: Song, now: u128) -> bool {
    if find(s0.library.songs_view(), song.id_view()) is Some {
        &&& s1.library.songs_view() == s0.library.songs_view()
        &&& s1.library.root_view() == s0.library.root_view()
        &&& said(AppState { library: s1.library, ..s0 }, s1, now, StatusKind::Info,
            "downloaded song already exists in the library"@)
    } else {
        exists|mid: AppState| #[trigger] added_via(s0, mid, s1, song, now)
    }
}

/// `song` appended to the library (and to the queue when the queue plays
/// the library) and named by the status line (`mid`), then selected
/// (`s1`).
pub open spec fn added_via(s0: AppState, mid: AppState, s1: AppState, song: Song, now: u128) -> bool {
    &&& mid.library.songs_view() == s0.library.songs_view().push(song)
    &&& mid.library.root_view() == s0.library.root_view()
    &&& told(s0, mid, now, Some((StatusKind::Success, "downloaded and added: "@ + song.label_view())))
    &&& if s0.queue_source == QueueSource::Library && s0.queue.original().len() < usize::MAX {
        appended(s0.queue, mid.queue, song.id_view())
    } else {
        mid.queue == s0.queue
    }
    &&& mid == AppState { library: mid.library, status: mid.status, queue: mid.queue, ..s0 }
    &&& exists|rows: Seq<Row>| #[trigger] shown(mid, rows) && song_selected(active(mid), rows, song.id_view(), active(s1))
    &&& s1 == with_active(mid, active(s1))
}

/// The song `old_id` replaced by `song`, read back after its romanized
/// artist was written, with the playlists and the queue following
/// its new identity;
/// nothing changes when the library no longer holds `old_id`.
pub open spec fn retagged(s0: AppState, s1: AppState, old_id: SongId, song: Song, taken: bool) -> bool {
    let songs = s0.library.songs_view();
    let new_id = song.id_view();
    if find(songs, old_id) is Some {
        &&& taken
        &&& s1.library.songs_view() == replaced(songs, index_of_id(songs, old_id), song, songs.len() as int)
        &&& s1.library.root_view() == s0.library.root_view()
        &&& s1.playlists@ == (if old_id != new_id && any_holds(s0.playlists@, old_id) {
            map_renamed(s0.playlists@, old_id, new_id)
        } else {
            s0.playlists@
        })
        &&& queue_renamed(s0.queue, s1.queue, old_id, new_id)
        &&& s1 == AppState { library: s1.library, playlists: s1.playlists, queue: s1.queue, ..s0 }
    } else {
        !taken && s1 == s0
    }
}

/// The state the player starts in with `library` and `playlists`: the
/// library shown with its first song selected, the list of playlists
/// behind it, the directory prompt holding the library's root, the queue
/// holding the library's songs with nothing playing, nothing open, and
/// the status line saying what was loaded.
pub open spec fn fresh_state(library: Library, playlists: PlaylistStore, now: u128, s: AppState) -> bool {
    &&& s.library == library
    &&& s.playlists == playlists
    &&& s.panel == Panel::Library
    &&& s.library_panel.list_state == (ListState {
        offset: 0,
        selected: if library.songs_view().len() == 0 { None } else { Some(0usize) },
    })
    &&& s.library_panel.search_query@.len() == 0 && !s.library_panel.searching
    &&& s.library_panel.category == Category::Flat && s.library_panel.sort == Sort::Title
    &&& s.library_panel.playlist_mode == PlaylistDisplayMode::Hidden && s.library_panel.page_height == 0
    &&& s.playlist_panel.view == PlaylistView::Browsing && s.playlist_panel.list_state == ListState::new_spec()
    &&& s.playlist_panel.search_query@.len() == 0 && !s.playlist_panel.searching
    &&& s.playlist_panel.category == Category::Flat && s.playlist_panel.sort == Sort::Title
    &&& s.playlist_panel.page_height == 0
    &&& s.dir.dir_input@ == library.root_view() && !s.dir.editing_dir && s.dir.pending_scan is None
    &&& s.song_modal is None && s.metadata_modal is None && s.youtube is None
    &&& s.confirming_remove is None && s.romanized_confirm is None
    &&& !s.confirming_quit && !s.showing_help
    &&& s.pending_number@.len() == 0
    &&& fresh_queue(s.queue, ids_of(library.songs_view()))
    &&& s.queue_source == QueueSource::Library
    &&& s.status.kind == StatusKind::Success
    &&& s.status.text@ == scan_summary_text(library.songs_view().len(), library.root_view(), 0, 0)
    &&& s.status.set_at_nanos == now
}

/// Where the queue takes its songs from when a song is played from the
/// panel shown: the playlist viewed, else the library.
pub open spec fn source_of(s: AppState) -> QueueSource {
    match viewing(s) {
        Some(p) => QueueSource::Playlist(p),
        None => QueueSource::Library,
    }
}

/// The songs a queue taken from `src` holds: the library's songs in path
/// order, or the playlist's songs that the library has, in its order.
pub open spec fn source_ids(s: AppState, src: QueueSource) -> Seq<SongId> {
    match src {
        QueueSource::Library => ids_of(s.library.songs_view()),
        QueueSource::Playlist(p) => if s.playlists@.contains_key(p) {
            ids_of(present(s.library.songs_view(), s.playlists@[p].1))
        } else {
            Seq::<SongId>::empty()
        },
    }
}

/// Playing the selected song `id`: the queue is taken anew from the panel
/// shown (`q`) when it came from elsewhere or lacks the song, then plays
/// the song at its nearest place; the caller starts it.
pub open spec fn activated_via(s0: AppState, s1: AppState, id: SongId, q: Queue, effect: Effect) -> bool {
    let src = source_of(s0);
    &&& if src != s0.queue_source || !s0.queue.items().contains(id) {
        fresh_queue(q, source_ids(s0, src))
    } else {
        q == s0.queue
    }
    &&& (played_id(q, s1.queue, id, Some(id)) && effect == Effect::Play(id))
        || (played_id(q, s1.queue, id, None) && effect is Nothing)
    &&& s1 == AppState { queue: s1.queue, queue_source: src, ..s0 }
}

/// After a step of the queue that gave `r`: the caller plays `r`, or the
/// status line says `none` when there was nothing to play.
pub open spec fn played_or_said(s0: AppState, s1: AppState, now: u128, r: Option<SongId>, none: Seq<char>, effect: Effect) -> bool {
    match r {
        Some(x) => effect == Effect::Play(x) && s1 == AppState { queue: s1.queue, ..s0 },
        None => effect is Nothing && said(AppState { queue: s1.queue, ..s0 }, s1, now, StatusKind::Info, none),
    }
}

/// The place in "Up Next" that the typed digits name (0, which names
/// none, when they are not a number that fits).
pub open spec fn jump_number(digits: Seq<char>) -> int {
    if digits.len() > 0 && all_digits(digits) && digits_value(digits) <= u32::MAX { digits_value(digits) as int } else { 0 }
}

fn say(status: &mut StatusMessage, text: String, kind: StatusKind, now: u128)
    ensures
        final(status).text == text,
        final(status).kind == kind,
        final(status).set_at_nanos == now,
{
    *status = StatusMessage::new(text, kind, now);
}

impl AppState {
    /// The state is consistent: the playlist store is.
    pub open spec fn wf(&self) -> bool {
        self.playlists.wf() && self.queue.wf()
    }

    /// The state the player starts in; see `fresh_state`.
    pub fn new(library: Library, playlists: PlaylistStore, now: u128) -> (s: AppState)
        requires
            playlists.wf(),
        ensures
            s.wf(),
            fresh_state(library, playlists, now, s),
    {
        let count = library.len();
        let line = scan_summary(count, library.root(), 0, 0, None);
        let queue = Queue::new(library.ids_by_path());
        let mut library_panel = LibraryPanelState::default();
        library_panel.list_state = ListState { offset: 0, selected: if count == 0 { None } else { Some(0) } };
        let mut dir = DirScanState::default();
        dir.dir_input = String::from_str(library.root());
        AppState {
            library,
            playlists,
            panel: Panel::Library,
            library_panel,
            playlist_panel: PlaylistPanelState::default(),
            dir,
            song_modal: None,
            metadata_modal: None,
            youtube: None,
            confirming_remove: None,
            romanized_confirm: None,
            confirming_quit: false,
            showing_help: false,
            pending_number: String::new(),
            queue,
            queue_source: QueueSource::Library,
            status: StatusMessage::new(line.text, line.kind, now),
        }
    }

    /// What is open and what the panels show, for routing a key.
    pub fn key_context(&self) -> (ctx: KeyContext)
        ensures
            ctx == key_context(*self),
    {
        KeyContext {
            confirming_quit: self.confirming_quit,
            confirming_remove: self.confirming_remove.is_some(),
            confirming_romanized: self.romanized_confirm.is_some(),
            showing_help: self.showing_help,
            song_modal: self.song_modal.is_some(),
            metadata_modal: self.metadata_modal.is_some(),
            youtube_modal: self.youtube.is_some(),
            editing_dir: self.dir.editing_dir,
            library_searching: self.library_panel.searching,
            playlist_searching: self.playlist_panel.searching,
            panel: self.panel,
            playlist_view: self.playlist_panel.view,
            library_query_empty: self.library_panel.search_query.as_str().unicode_len() == 0,
            playlist_query_empty: self.playlist_panel.search_query.as_str().unicode_len() == 0,
        }
    }

    /// Handles a key press: the open dialog or prompt takes it, else the
    /// key map decides. What needs the world outside comes back as the
    /// effect.
    pub fn handle_key(&mut self, key: KeyPress, now: u128) -> (effect: Effect)
        requires
            old(self).wf(),
            old(self).playlists.revision_view() < u64::MAX - 1,
        ensures
            final(self).wf(),
            key_step(*old(self), *final(self), key, now, effect),
    {
        let ctx = self.key_context();
        let route = route_key(&ctx, &mut self.pending_number, key);
        let ghost mid = *self;
        let effect = match route {
            KeyRoute::ConfirmQuit => self.quit_key(key),
            KeyRoute::ConfirmRemove => {
                self.remove_key(key, now);
                Effect::Nothing
            },
            KeyRoute::ConfirmRomanized => match self.romanized_confirm.take() {
                Some(c) => if confirms_removal(key) { Effect::ApplyRomanized(c) } else { Effect::Nothing },
                None => Effect::Nothing,
            },
            KeyRoute::DismissHelp => {
                self.showing_help = false;
                Effect::Nothing
            },
            KeyRoute::SongModal => {
                self.song_dialog_key(key, now);
                Effect::Nothing
            },
            KeyRoute::MetadataModal => self.metadata_dialog_key(key),
            KeyRoute::YoutubeModal => self.youtube_dialog_key(key),
            KeyRoute::DirInput => {
                self.dir_prompt_key(key, now);
                Effect::Nothing
            },
            KeyRoute::LibrarySearch => {
                self.library_search_key(key);
                Effect::Nothing
            },
            KeyRoute::PlaylistSearch => {
                self.playlist_search_key(key);
                Effect::Nothing
            },
            KeyRoute::Digit { grew } => {
                if grew {
                    let m = pending_jump_message(self.pending_number.as_str());
                    say(&mut self.status, m, StatusKind::Info, now);
                }
                Effect::Nothing
            },
            KeyRoute::CancelJump => {
                say(&mut self.status, String::from_str("cancelled queue jump"), StatusKind::Info, now);
                Effect::Nothing
            },
            KeyRoute::LeavePlaylist => {
                self.playlist_panel.view = PlaylistView::Browsing;
                let len = self.browse_len();
                self.playlist_panel.list_state = reset_browse_selection(len);
                Effect::Nothing
            },
            KeyRoute::ClearPlaylistSearch => {
                self.playlist_panel.search_query = String::new();
                say(&mut self.status, String::from_str("cleared search"), StatusKind::Info, now);
                self.settle_rows();
                Effect::Nothing
            },
            KeyRoute::ClearBrowseSearch => {
                self.playlist_panel.search_query = String::new();
                say(&mut self.status, String::from_str("cleared search"), StatusKind::Info, now);
                self.settle_browse();
                Effect::Nothing
            },
            KeyRoute::ClearLibrarySearch => {
                self.library_panel.search_query = String::new();
                say(&mut self.status, String::from_str("cleared search"), StatusKind::Info, now);
                self.settle_rows();
                Effect::Nothing
            },
            KeyRoute::AskQuit => {
                self.confirming_quit = true;
                Effect::Nothing
            },
            KeyRoute::Dispatch(action) => self.dispatch(action, now),
        };
        proof {
            assert(routed_via(*old(self), mid, *self, key, now, effect));
        }
        effect
    }

    /// Finishes saving a metadata edit: `written` is the song read back
    /// after its tags were written, or the error that stopped the write.
    pub fn finish_metadata_save(&mut self, modal: MetadataEditModal, written: Result<Song, String>, now: u128)
        requires
            old(self).wf(),
            old(self).playlists.revision_view() < u64::MAX,
        ensures
            final(self).wf(),
            metadata_saved(*old(self), *final(self), modal, written, now),
    {
        let song = match written {
            Err(e) => {
                self.metadata_modal = Some(MetadataEditModal { error: Some(e), ..modal });
                return;
            },
            Ok(song) => song,
        };
        let old_id = modal.song;
        if self.library.get(old_id).is_none() {
            self.metadata_modal = Some(MetadataEditModal { error: Some(String::from_str("song not found")), ..modal });
            return;
        }
        let ghost s0 = *self;
        let ghost sv = song;
        let ghost mv = modal;
        let new_id = match self.library.replace_song(old_id, song) {
            Ok(id) => id,
            Err(_) => return,
        };
        self.playlists.rename_song_id(old_id, new_id);
        self.queue.rename_song_id(old_id, new_id);
        let message = metadata_updated_message(&self.library, new_id);
        say(&mut self.status, message, StatusKind::Success, now);
        self.romanized_confirm = romanized_prompt(&self.library, new_id, modal.edits.artist_sort.as_str(),
            modal.original_artist_sort.as_str());
        let ghost mid = *self;
        let rows = self.rows();
        match self.panel {
            Panel::Library => {
                select_song(&mut self.library_panel.list_state, rows.as_slice(), new_id);
            },
            Panel::Playlists => {
                select_song(&mut self.playlist_panel.list_state, rows.as_slice(), new_id);
            },
        }
        proof {
            assert(shown(mid, rows@));
            assert(*self == with_active(mid, active(*self)));
            assert(saved_via(s0, mid, *self, mv, sv, now));
        }
    }

    /// Takes over what a directory scan found; see `scan_installed`.
    pub fn install_scan(&mut self, library: Library, playlists: PlaylistStore, skipped: usize, removed: usize,
        stop_error: Option<String>, now: u128)
        requires
            playlists.wf(),
        ensures
            final(self).wf(),
            scan_installed(*old(self), *final(self), library, playlists, skipped, removed, stop_error, now),
    {
        let count = library.len();
        let line = match &stop_error {
            Some(e) => scan_summary(count, library.root(), skipped, removed, Some(e.as_str())),
            None => scan_summary(count, library.root(), skipped, removed, None),
        };
        self.dir.dir_input = String::from_str(library.root());
        self.queue = Queue::new(library.ids_by_path());
        self.queue_source = QueueSource::Library;
        self.library_panel.list_state = ListState { offset: 0, selected: if count == 0 { None } else { Some(0) } };
        self.library_panel.search_query = String::new();
        self.playlists = playlists;
        self.playlist_panel.view = PlaylistView::Browsing;
        self.playlist_panel.search_query = String::new();
        self.playlist_panel.searching = false;
        self.song_modal = None;
        self.confirming_remove = None;
        self.library = library;
        let len = self.browse_len();
        self.playlist_panel.list_state = reset_browse_selection(len);
        say(&mut self.status, line.text, line.kind, now);
    }

    /// Adds a downloaded song (tagged and read back) to the library; see
    /// `download_added`.
    pub fn add_downloaded(&mut self, song: Song, now: u128)
        requires
            old(self).wf(),
        ensures
            final(self).wf(),
            download_added(*old(self), *final(self), song, now),
    {
        let ghost s0 = *self;
        let ghost sv = song;
        let label = song.label();
        match self.library.insert(song) {
            InsertOutcome::Collision { .. } => {
                say(&mut self.status, String::from_str("downloaded song already exists in the library"),
                    StatusKind::Info, now);
            },
            InsertOutcome::Inserted(id) => {
                proof {
                    self.queue.lemma_wf();
                }
                if self.queue_source == QueueSource::Library && self.queue.len() < usize::MAX {
                    self.queue.insert(id);
                }
                let mut message = String::from_str("downloaded and added: ");
                message.append(label.as_str());
                say(&mut self.status, message, StatusKind::Success, now);
                let ghost mid = *self;
                let rows = self.rows();
                match self.panel {
                    Panel::Library => {
                        select_song(&mut self.library_panel.list_state, rows.as_slice(), id);
                    },
                    Panel::Playlists => {
                        select_song(&mut self.playlist_panel.list_state, rows.as_slice(), id);
                    },
                }
                proof {
                    assert(shown(mid, rows@));
                    assert(*self == with_active(mid, active(*self)));
                    assert(added_via(s0, mid, *self, sv, now));
                }
            },
        }
    }

    /// Takes one of the artist's other songs back after its romanized
    /// artist was written; see `retagged`.
    pub fn take_retagged(&mut self, old_id: SongId, song: Song) -> (taken: bool)
        requires
            old(self).wf(),
            old(self).playlists.revision_view() < u64::MAX,
        ensures
            final(self).wf(),
            retagged(*old(self), *final(self), old_id, song, taken),
    {
        if self.library.get(old_id).is_none() {
            return false;
        }
        let new_id = match self.library.replace_song(old_id, song) {
            Ok(id) => id,
            Err(_) => return false,
        };
        self.playlists.rename_song_id(old_id, new_id);
        self.queue.rename_song_id(old_id, new_id);
        true
    }

    /// Reports how many of the artist's other songs got the romanized
    /// artist.
    pub fn report_romanized(&mut self, applied: usize, now: u128)
        ensures
            said(*old(self), *final(self), now, StatusKind::Success, "applied romanized artist to "@
                + spec_decimal(applied as nat) + " other song"@ + (if applied == 1 { ""@ } else { "s"@ })),
    {
        say(&mut self.status, romanized_applied_message(applied), StatusKind::Success, now);
    }

    /// Applies a report from the background download to the download
    /// dialog; the work left comes back.
    pub fn youtube_event(&mut self, event: DownloadEvent) -> (effect: YoutubeEffect)
        ensures
            (final(self).youtube, effect) == event_spec(old(self).youtube, event),
            *final(self) == (AppState { youtube: final(self).youtube, ..*old(self) }),
    {
        let modal = self.youtube.take();
        let (next, effect) = on_event(modal, event);
        self.youtube = next;
        effect
    }

    fn rows(&self) -> (rows: Vec<Row>)
        requires
            self.wf(),
        ensures
            shown(*self, rows@),
    {
        visible_rows(&self.library, &self.playlists, self.panel, &self.library_panel, &self.playlist_panel)
    }

    fn browse_len(&self) -> (n: usize)
        requires
            self.wf(),
        ensures
            n == browse_ids(*self).len(),
    {
        self.playlists.visible_ids(self.playlist_panel.search_query.as_str()).len()
    }

    fn settle_rows(&mut self)
        requires
            old(self).wf(),
        ensures
            final(self).wf(),
            settled_after(*old(self), *final(self)),
    {
        let rows = self.rows();
        let ghost s0 = *self;
        match self.panel {
            Panel::Library => settle_selection(&mut self.library_panel.list_state, rows.as_slice()),
            Panel::Playlists => settle_selection(&mut self.playlist_panel.list_state, rows.as_slice()),
        }
        proof {
            assert(shown(s0, rows@));
            assert(*self == with_active(s0, active(*self)));
        }
    }

    fn settle_browse(&mut self)
        requires
            old(self).wf(),
        ensures
            final(self).wf(),
            browse_settled_after(*old(self), *final(self)),
    {
        let len = self.browse_len();
        settle_browse_selection(&mut self.playlist_panel.list_state, len);
    }

    fn is_browsing(&self) -> (b: bool)
        ensures
            b == browsing(*self),
    {
        self.panel == Panel::Playlists && matches!(self.playlist_panel.view, PlaylistView::Browsing)
    }

    /// The song of the selected row, or the status line saying why there
    /// is none.
    fn picked_song(&self) -> (r: Result<SongId, String>)
        requires
            self.wf(),
        ensures
            selection_is(*self, match r { Ok(id) => Ok(id), Err(t) => Err(t@) }),
    {
        let rows = self.rows();
        let selected = match self.panel {
            Panel::Library => self.library_panel.list_state.selected,
            Panel::Playlists => self.playlist_panel.list_state.selected,
        };
        let row = selected_row(rows.as_slice(), selected);
        let r = selected_song(row);
        proof {
            assert(shown(*self, rows@));
        }
        r
    }

    fn move_by(&mut self, delta: isize)
        requires
            old(self).wf(),
        ensures
            final(self).wf(),
            moved_step(*old(self), *final(self), delta),
    {
        if self.is_browsing() {
            let len = self.browse_len();
            move_browse_selection(&mut self.playlist_panel.list_state, len, delta);
            return;
        }
        let rows = self.rows();
        let ghost s0 = *self;
        match self.panel {
            Panel::Library => move_selection(&mut self.library_panel.list_state, rows.as_slice(), delta),
            Panel::Playlists => move_selection(&mut self.playlist_panel.list_state, rows.as_slice(), delta),
        }
        proof {
            assert(shown(s0, rows@));
            assert(*self == with_active(s0, active(*self)));
        }
    }

    fn page(&mut self, direction: Direction)
        requires
            old(self).wf(),
        ensures
            final(self).wf(),
            paged_step(*old(self), *final(self), direction),
    {
        if self.is_browsing() {
            let len = self.browse_len();
            let height = self.playlist_panel.page_height;
            jump_browse_page(&mut self.playlist_panel.list_state, len, height, direction);
            return;
        }
        let rows = self.rows();
        let ghost s0 = *self;
        match self.panel {
            Panel::Library => {
                let height = self.library_panel.page_height;
                jump_page(&mut self.library_panel.list_state, rows.as_slice(), height, direction);
            },
            Panel::Playlists => {
                let height = self.playlist_panel.page_height;
                jump_page(&mut self.playlist_panel.list_state, rows.as_slice(), height, direction);
            },
        }
        proof {
            assert(shown(s0, rows@));
            assert(*self == with_active(s0, active(*self)));
        }
    }

    fn select_end(&mut self, top: bool)
        requires
            old(self).wf(),
        ensures
            final(self).wf(),
            end_step(*old(self), *final(self), top),
    {
        if self.is_browsing() {
            let len = self.browse_len();
            if top {
                select_first_playlist(&mut self.playlist_panel.list_state, len);
            } else {
                select_last_playlist(&mut self.playlist_panel.list_state, len);
            }
            return;
        }
        let rows = self.rows();
        let ghost s0 = *self;
        match self.panel {
            Panel::Library => if top {
                select_first_song(&mut self.library_panel.list_state, rows.as_slice());
            } else {
                select_last_song(&mut self.library_panel.list_state, rows.as_slice());
            },
            Panel::Playlists => if top {
                select_first_song(&mut self.playlist_panel.list_state, rows.as_slice());
            } else {
                select_last_song(&mut self.playlist_panel.list_state, rows.as_slice());
            },
        }
        proof {
            assert(shown(s0, rows@));
            assert(*self == with_active(s0, active(*self)));
        }
    }

    fn jump_to_playing(&mut self, now: u128)
        requires
            old(self).wf(),
        ensures
            final(self).wf(),
            exists|rows: Seq<Row>, m: Option<String>| #[trigger] current_with(*old(self), *final(self), now, rows, m),
    {
        let rows = self.rows();
        let ghost s0 = *self;
        let current = self.queue.current_id();
        let message = match self.panel {
            Panel::Library => jump_to_current(&mut self.library_panel.list_state, rows.as_slice(), current),
            Panel::Playlists => jump_to_current(&mut self.playlist_panel.list_state, rows.as_slice(), current),
        };
        let ghost mv = message;
        let ghost s_mid = *self;
        proof {
            assert(s_mid == with_active(s0, active(s_mid)));
        }
        match message {
            Some(t) => say(&mut self.status, t, StatusKind::Info, now),
            None => {},
        }
        proof {
            assert(current_with(s0, *self, now, rows@, mv));
        }
    }

    fn open_selected_playlist(&mut self, now: u128)
        requires
            old(self).wf(),
            browsing(*old(self)),
        ensures
            final(self).wf(),
            exists|p1: PlaylistPanelState, m: Option<String>| #[trigger] entered_with(*old(self), *final(self), now, p1, m),
    {
        let ids = self.playlists.visible_ids(self.playlist_panel.search_query.as_str());
        let ghost s0 = *self;
        let message = enter_playlist(&mut self.playlist_panel, &self.playlists, ids.as_slice());
        let ghost p1 = self.playlist_panel;
        let ghost mv = message;
        match message {
            Some(t) => {
                say(&mut self.status, t, StatusKind::Info, now);
                self.settle_rows();
            },
            None => {},
        }
        proof {
            assert(entered_with(s0, *self, now, p1, mv));
        }
    }

    fn act_on_selection(&mut self, action: Action, now: u128) -> (effect: Effect)
        requires
            old(self).wf(),
            action is RemoveFromPlaylist ==> viewing(*old(self)) is Some,
        ensures
            final(self).wf(),
            on_selection(*old(self), *final(self), now, action, effect),
    {
        let picked = self.picked_song();
        let ghost s0 = *self;
        let ghost rv: Result<SongId, Seq<char>> = match &picked { Ok(id) => Ok(*id), Err(t) => Err(t@) };
        let id = match picked {
            Ok(id) => id,
            Err(t) => {
                say(&mut self.status, t, StatusKind::Info, now);
                proof {
                    assert(selection_is(s0, rv));
                }
                return Effect::Nothing;
            },
        };
        let effect = match action {
            Action::Activate => self.play_song(id),
            Action::QueueNext => {
                self.queue.queue_next(id);
                Effect::Nothing
            },
            Action::OpenSongModal => {
                self.song_modal = Some(new_song_modal(&self.playlists, id));
                Effect::Nothing
            },
            Action::OpenMetadataEditModal => {
                match self.library.get(id) {
                    Some(song) => {
                        let m = new_metadata_modal(id, song.metadata());
                        self.metadata_modal = Some(m);
                    },
                    None => say(&mut self.status, String::from_str("selected song is no longer in the library"),
                        StatusKind::Error, now),
                }
                Effect::Nothing
            },
            Action::RemoveFromPlaylist => {
                match (self.panel, self.playlist_panel.view) {
                    (Panel::Playlists, PlaylistView::Viewing(p)) => self.confirming_remove = Some((p, id)),
                    _ => {},
                }
                Effect::Nothing
            },
            _ => Effect::Nothing,
        };
        proof {
            assert(selection_is(s0, rv));
            assert(picked_outcome(s0, *self, now, action, id, effect));
        }
        effect
    }

    /// The songs a queue taken from `src` holds.
    fn source_ids(&self, src: QueueSource) -> (v: Vec<SongId>)
        requires
            self.wf(),
        ensures
            v@ == source_ids(*self, src),
    {
        match src {
            QueueSource::Library => self.library.ids_by_path(),
            QueueSource::Playlist(p) => match playlist_songs(&self.playlists, &self.library, p) {
                Some(songs) => {
                    let mut v: Vec<SongId> = Vec::new();
                    let mut i: usize = 0;
                    while i < songs.len()
                        invariant
                            i <= songs@.len(),
                            v@.len() == i,
                            forall|k: int| 0 <= k < i ==> v@[k] == (*songs@[k]).id_view(),
                        decreases songs@.len() - i,
                    {
                        v.push(songs[i].id());
                        i = i + 1;
                    }
                    proof {
                        assert(v@ =~= ids_of(refs_view(songs@)));
                    }
                    v
                },
                None => Vec::new(),
            },
        }
    }

    /// Plays the selected song `id`; see `activated_via`.
    fn play_song(&mut self, id: SongId) -> (effect: Effect)
        requires
            old(self).wf(),
        ensures
            final(self).wf(),
            exists|q: Queue| #[trigger] activated_via(*old(self), *final(self), id, q, effect),
    {
        let src = match (self.panel, self.playlist_panel.view) {
            (Panel::Playlists, PlaylistView::Viewing(p)) => QueueSource::Playlist(p),
            _ => QueueSource::Library,
        };
        let ghost s0 = *self;
        if src != self.queue_source || !self.queue.contains(id) {
            let ids = self.source_ids(src);
            self.queue = Queue::new(ids);
        }
        let ghost q = self.queue;
        self.queue_source = src;
        let r = self.queue.play_id(id);
        let effect = match r {
            Some(x) => Effect::Play(x),
            None => Effect::Nothing,
        };
        proof {
            assert(activated_via(s0, *self, id, q, effect));
        }
        effect
    }

    /// After a step of the queue: play what it gave, or say `none`.
    fn play_or_say(&mut self, r: Option<SongId>, none: String, now: u128) -> (effect: Effect)
        ensures
            played_or_said(*old(self), *final(self), now, r, none@, effect),
            final(self).queue == old(self).queue,
    {
        match r {
            Some(x) => Effect::Play(x),
            None => {
                say(&mut self.status, none, StatusKind::Info, now);
                Effect::Nothing
            },
        }
    }

    /// Plays the next song of the queue.
    fn advance(&mut self, now: u128) -> (effect: Effect)
        requires
            old(self).wf(),
        ensures
            final(self).wf(),
            exists|r: Option<SongId>| #[trigger] advanced(old(self).queue, final(self).queue, r)
                && played_or_said(*old(self), *final(self), now, r, "no next track"@, effect),
    {
        let r = self.queue.next();
        let ghost q = self.queue;
        let effect = self.play_or_say(r, String::from_str("no next track"), now);
        proof {
            assert(advanced(old(self).queue, q, r));
        }
        effect
    }

    /// Plays the previous song of the queue.
    fn go_back(&mut self, now: u128) -> (effect: Effect)
        requires
            old(self).wf(),
        ensures
            final(self).wf(),
            exists|r: Option<SongId>| #[trigger] went_back(old(self).queue, final(self).queue, r)
                && played_or_said(*old(self), *final(self), now, r, "no previous track"@, effect),
    {
        let r = self.queue.previous();
        let ghost q = self.queue;
        let effect = self.play_or_say(r, String::from_str("no previous track"), now);
        proof {
            assert(went_back(old(self).queue, q, r));
        }
        effect
    }

    /// Jumps to the place in "Up Next" that the typed digits name, and
    /// forgets them.
    fn jump_ahead(&mut self, now: u128) -> (effect: Effect)
        requires
            old(self).wf(),
        ensures
            final(self).wf(),
            final(self).pending_number@.len() == 0,
            exists|r: Option<SongId>| #[trigger] jumped(old(self).queue, final(self).queue,
                jump_number(old(self).pending_number@), r)
                && played_or_said(AppState { pending_number: final(self).pending_number, ..*old(self) }, *final(self), now,
                    r, "no song at Up Next #"@ + old(self).pending_number@, effect),
    {
        let m: usize = match parse_digits(self.pending_number.as_str()) {
            Some(n) => n as usize,
            None => 0,
        };
        let mut none = String::from_str("no song at Up Next #");
        none.append(self.pending_number.as_str());
        self.pending_number = String::new();
        let ghost mid = *self;
        let r = self.queue.play_upcoming(m);
        let ghost q = self.queue;
        let effect = self.play_or_say(r, none, now);
        proof {
            assert(m as int == jump_number(old(self).pending_number@));
            assert(jumped(old(self).queue, q, m as int, r));
            assert(mid == AppState { pending_number: self.pending_number, ..*old(self) });
        }
        effect
    }

    /// Shuffles the queue and says so.
    fn shuffle_queue(&mut self, now: u128)
        requires
            old(self).wf(),
        ensures
            final(self).wf(),
            shuffled(old(self).queue, final(self).queue),
            said(AppState { queue: final(self).queue, ..*old(self) }, *final(self), now, StatusKind::Info, "shuffled"@),
    {
        self.queue.shuffle();
        say(&mut self.status, String::from_str("shuffled"), StatusKind::Info, now);
    }

    /// Puts the queue back in order and says so.
    fn unshuffle_queue(&mut self, now: u128)
        requires
            old(self).wf(),
        ensures
            final(self).wf(),
            unshuffled(old(self).queue, final(self).queue),
            said(AppState { queue: final(self).queue, ..*old(self) }, *final(self), now, StatusKind::Info,
                "restored original order"@),
    {
        self.queue.unshuffle();
        say(&mut self.status, String::from_str("restored original order"), StatusKind::Info, now);
    }

    fn cycle(&mut self, by_sort: bool, direction: Direction, now: u128)
        requires
            old(self).wf(),
        ensures
            final(self).wf(),
            exists|l1: LibraryPanelState, p1: PlaylistPanelState, m: Option<String>|
                #[trigger] cycled_with(*old(self), *final(self), now, by_sort, direction, l1, p1, m),
    {
        let ghost s0 = *self;
        let message = if by_sort {
            cycle_sort(self.panel, &mut self.library_panel, &mut self.playlist_panel, direction)
        } else {
            cycle_category(self.panel, &mut self.library_panel, &mut self.playlist_panel, direction)
        };
        let ghost l1 = self.library_panel;
        let ghost p1 = self.playlist_panel;
        let ghost mv = message;
        match message {
            Some(t) => {
                say(&mut self.status, t, StatusKind::Info, now);
                self.settle_rows();
            },
            None => {},
        }
        proof {
            assert(cycled_with(s0, *self, now, by_sort, direction, l1, p1, mv));
        }
    }

    fn cycle_mode(&mut self, now: u128)
        ensures
            final(self).playlists == old(self).playlists,
            exists|l1: LibraryPanelState, m: Option<String>| #[trigger] mode_with(*old(self), *final(self), now, l1, m),
    {
        let ghost s0 = *self;
        let message = cycle_playlist_mode(self.panel, &mut self.library_panel);
        let ghost l1 = self.library_panel;
        let ghost mv = message;
        match message {
            Some(t) => say(&mut self.status, t, StatusKind::Info, now),
            None => {},
        }
        proof {
            assert(mode_with(s0, *self, now, l1, mv));
        }
    }

    /// Carries out the action bound to a key (`None` when the key is bound
    /// to nothing).
    fn dispatch(&mut self, action: Option<Action>, now: u128) -> (effect: Effect)
        requires
            old(self).wf(),
        ensures
            final(self).wf(),
            action_step(*old(self), *final(self), action, now, effect),
    {
        match action {
            Some(Action::TogglePanel) => {
                self.panel = match self.panel {
                    Panel::Library => Panel::Playlists,
                    Panel::Playlists => Panel::Library,
                };
                Effect::Nothing
            },
            Some(Action::MoveDown) => {
                self.move_by(1);
                Effect::Nothing
            },
            Some(Action::MoveUp) => {
                self.move_by(-1);
                Effect::Nothing
            },
            Some(Action::PageDown) => {
                self.page(Direction::Forwards);
                Effect::Nothing
            },
            Some(Action::PageUp) => {
                self.page(Direction::Backwards);
                Effect::Nothing
            },
            Some(Action::JumpTop) => {
                self.select_end(true);
                Effect::Nothing
            },
            Some(Action::JumpBottom) => {
                self.select_end(false);
                Effect::Nothing
            },
            Some(Action::JumpToCurrent) => {
                self.jump_to_playing(now);
                Effect::Nothing
            },
            Some(Action::Activate) => if self.is_browsing() {
                self.open_selected_playlist(now);
                Effect::Nothing
            } else {
                self.act_on_selection(Action::Activate, now)
            },
            Some(Action::TogglePlayback) => Effect::TogglePlayback,
            Some(Action::NextOrJump) => if self.pending_number.as_str().unicode_len() == 0 {
                self.advance(now)
            } else {
                self.jump_ahead(now)
            },
            Some(Action::PrevTrack) => self.go_back(now),
            Some(Action::QueueNext) => self.act_on_selection(Action::QueueNext, now),
            Some(Action::OpenSongModal) => self.act_on_selection(Action::OpenSongModal, now),
            Some(Action::OpenMetadataEditModal) => self.act_on_selection(Action::OpenMetadataEditModal, now),
            Some(Action::OpenYoutubeModal) => {
                self.youtube = Some(YoutubeModal::EnteringUrl { url_input: String::new(), error: None, restore: None });
                Effect::Nothing
            },
            Some(Action::RemoveFromPlaylist) => match (self.panel, self.playlist_panel.view) {
                (Panel::Playlists, PlaylistView::Viewing(_)) => self.act_on_selection(Action::RemoveFromPlaylist, now),
                _ => Effect::Nothing,
            },
            Some(Action::ChangeDirectory) => {
                self.dir.dir_input = String::from_str(self.library.root());
                self.dir.editing_dir = true;
                Effect::Nothing
            },
            Some(Action::ToggleSearch) => {
                match self.panel {
                    Panel::Library => self.library_panel.searching = true,
                    Panel::Playlists => self.playlist_panel.searching = true,
                }
                Effect::Nothing
            },
            Some(Action::CycleCategory(d)) => {
                self.cycle(false, d, now);
                Effect::Nothing
            },
            Some(Action::CycleSort(d)) => {
                self.cycle(true, d, now);
                Effect::Nothing
            },
            Some(Action::CyclePlaylistDisplayMode) => {
                self.cycle_mode(now);
                Effect::Nothing
            },
            Some(Action::Shuffle) => {
                self.shuffle_queue(now);
                Effect::Nothing
            },
            Some(Action::Unshuffle) => {
                self.unshuffle_queue(now);
                Effect::Nothing
            },
            Some(Action::VolumeUp) => Effect::VolumeUp,
            Some(Action::VolumeDown) => Effect::VolumeDown,
            Some(Action::Quit) => {
                self.confirming_quit = true;
                Effect::Nothing
            },
            Some(Action::ToggleHelp) => {
                self.showing_help = true;
                Effect::Nothing
            },
            Some(Action::Unbound) | None => Effect::Nothing,
        }
    }

    fn quit_key(&mut self, key: KeyPress) -> (effect: Effect)
        ensures
            quit_step(*old(self), *final(self), key, effect),
    {
        if confirms_quit(key) {
            Effect::Quit
        } else {
            self.confirming_quit = false;
            Effect::Nothing
        }
    }

    fn remove_key(&mut self, key: KeyPress, now: u128)
        requires
            old(self).wf(),
            old(self).playlists.revision_view() < u64::MAX,
            old(self).confirming_remove is Some,
        ensures
            final(self).wf(),
            remove_step(*old(self), *final(self), key, now),
    {
        let (playlist, song) = match self.confirming_remove {
            Some(pair) => pair,
            None => return,
        };
        self.confirming_remove = None;
        if confirms_removal(key) {
            let line = remove_confirmed(&mut self.playlists, &self.library, playlist, song);
            let success = line.kind == StatusKind::Success;
            let ghost lv = line;
            say(&mut self.status, line.text, line.kind, now);
            if success {
                self.settle_rows();
            }
            proof {
                assert(removal(old(self).playlists, self.playlists, old(self).library, playlist, song, lv));
            }
        }
    }

    fn song_dialog_key(&mut self, key: KeyPress, now: u128)
        requires
            old(self).wf(),
            old(self).playlists.revision_view() < u64::MAX - 1,
            old(self).song_modal is Some,
        ensures
            final(self).wf(),
            song_dialog_step(*old(self), *final(self), key, now),
    {
        let viewing = match (self.panel, self.playlist_panel.view) {
            (Panel::Playlists, PlaylistView::Viewing(id)) => Some(id),
            _ => None,
        };
        let modal = match self.song_modal.take() {
            Some(m) => m,
            None => return,
        };
        let (next, line) = song_modal_key(&mut self.playlists, viewing, modal, key);
        let ghost lv = line;
        self.song_modal = next;
        match line {
            Some(l) => say(&mut self.status, l.text, l.kind, now),
            None => {},
        }
        proof {
            assert(song_dialog_with(*old(self), *self, key, now, lv));
        }
    }

    fn metadata_dialog_key(&mut self, key: KeyPress) -> (effect: Effect)
        requires
            old(self).metadata_modal is Some,
        ensures
            metadata_dialog_step(*old(self), *final(self), key, effect),
    {
        let modal = match self.metadata_modal.take() {
            Some(m) => m,
            None => return Effect::Nothing,
        };
        let r = metadata_modal_key(modal, key);
        let ghost rv = r;
        let effect = match r {
            MetadataKeyOutcome::Close => Effect::Nothing,
            MetadataKeyOutcome::Save(m) => Effect::SaveMetadata(m),
            MetadataKeyOutcome::Keep(m) => {
                self.metadata_modal = Some(m);
                Effect::Nothing
            },
        };
        proof {
            assert(metadata_step(old(self).metadata_modal->0, key, rv));
        }
        effect
    }

    fn youtube_dialog_key(&mut self, key: KeyPress) -> (effect: Effect)
        requires
            old(self).youtube is Some,
        ensures
            youtube_dialog_step(*old(self), *final(self), key, effect),
    {
        let modal = match self.youtube.take() {
            Some(m) => m,
            None => return Effect::Nothing,
        };
        let r = on_key(modal, key);
        let ghost rv = r;
        let (next, work) = r;
        self.youtube = next;
        proof {
            assert(key_spec(old(self).youtube->0, key, rv));
        }
        Effect::Youtube(work)
    }

    fn dir_prompt_key(&mut self, key: KeyPress, now: u128)
        ensures
            dir_prompt_step(*old(self), *final(self), key, now),
    {
        let root = String::from_str(self.library.root());
        let status = dir_input_key(&mut self.dir, root.as_str(), key);
        let ghost sv = status;
        match status {
            Some(t) => say(&mut self.status, t, StatusKind::Info, now),
            None => {},
        }
        proof {
            assert(dir_step(old(self).dir, old(self).library.root_view(), key, self.dir, sv));
        }
    }

    fn library_search_key(&mut self, key: KeyPress)
        requires
            old(self).wf(),
        ensures
            final(self).wf(),
            library_search_step(*old(self), *final(self), key),
    {
        let resync = search_key(&mut self.library_panel.search_query, &mut self.library_panel.searching, key);
        if resync {
            self.settle_rows();
        }
        proof {
            assert(search_step(old(self).library_panel.search_query@, old(self).library_panel.searching, key,
                self.library_panel.search_query@, self.library_panel.searching, resync));
        }
    }

    fn playlist_search_key(&mut self, key: KeyPress)
        requires
            old(self).wf(),
        ensures
            final(self).wf(),
            playlist_search_step(*old(self), *final(self), key),
    {
        let resync = search_key(&mut self.playlist_panel.search_query, &mut self.playlist_panel.searching, key);
        if resync {
            match self.playlist_panel.view {
                PlaylistView::Browsing => self.settle_browse(),
                PlaylistView::Viewing(_) => self.settle_rows(),
            }
        }
        proof {
            assert(search_step(old(self).playlist_panel.search_query@, old(self).playlist_panel.searching, key,
                self.playlist_panel.search_query@, self.playlist_panel.searching, resync));
        }
    }
}

/// Law: with the help screen up (and no question pending), any key closes
/// it and does nothing else.
pub proof fn law_any_key_closes_help(s0: AppState, s1: AppState, key: KeyPress, now: u128, effect: Effect)
    requires
        s0.showing_help,
        !s0.confirming_quit,
        (s0.confirming_remove is None),
        (s0.romanized_confirm is None),
        key_step(s0, s1, key, now, effect),
    ensures
        (effect is Nothing),
        s1 == (AppState { showing_help: false, pending_number: s1.pending_number, ..s0 }),
        s1.pending_number@ == s0.pending_number@,
{
}

/// Law: a key that moves the selection (down or up) over the songs shown
/// keeps it on a song: when it rested on a song row before, it rests on a
/// song row after, in the same rows (moving past the end wraps round).
pub proof fn law_moves_stay_on_songs(s0: AppState, s1: AppState, key: KeyPress, now: u128, effect: Effect)
    requires
        key_step(s0, s1, key, now, effect),
        route_spec(key_context(s0), s0.pending_number@, key).0 == KeyRoute::Dispatch(Some(Action::MoveDown))
            || route_spec(key_context(s0), s0.pending_number@, key).0 == KeyRoute::Dispatch(Some(Action::MoveUp)),
        !browsing(s0),
    ensures
        exists|rows: Seq<Row>| #[trigger] shown(s0, rows) && shown(s1, rows)
            && ((picked_row(rows, active(s0).selected) matches Some(Row::Song(_, _)))
                ==> (picked_row(rows, active(s1).selected) matches Some(Row::Song(_, _)))),
{
    let mid = choose|mid: AppState| #[trigger] routed_via(s0, mid, s1, key, now, effect);
    let delta: isize = if route_spec(key_context(s0), s0.pending_number@, key).0 == KeyRoute::Dispatch(Some(Action::MoveDown)) {
        1isize
    } else {
        -1isize
    };
    assert(moved_step(mid, s1, delta));
    let rows = choose|rows: Seq<Row>| #[trigger] shown(mid, rows) && moved(active(mid), rows, delta, active(s1));
    assert(shown(s0, rows));
    assert(shown(s1, rows));
    if picked_row(rows, active(s0).selected) matches Some(Row::Song(_, _)) {
        let i = active(s0).selected->0;
        let r = active(s1).selected->0;
        assert(song_mask(rows)[i as int]);
        law_wrapping_move_stays_on_songs(i as int, delta as int, rows.len() as int, song_mask(rows), r as int);
        assert(song_mask(rows)[r as int]);
    }
}

/// Law: the key that toggles help shows the help screen and nothing else,
/// and whatever key comes next closes it again, leaving everything as it
/// was (the queue-jump number aside, which any key but a digit or `n`
/// drops).
pub proof fn law_help_round_trip(s0: AppState, s1: AppState, s2: AppState, k1: KeyPress, k2: KeyPress, t1: u128,
    t2: u128, e1: Effect, e2: Effect)
    requires
        route_spec(key_context(s0), s0.pending_number@, k1).0 == KeyRoute::Dispatch(Some(Action::ToggleHelp)),
        key_step(s0, s1, k1, t1, e1),
        key_step(s1, s2, k2, t2, e2),
    ensures
        s1.showing_help,
        (e1 is Nothing) && (e2 is Nothing),
        s2 == (AppState { pending_number: s2.pending_number, ..s0 }),
{
    let mid = choose|mid: AppState| #[trigger] routed_via(s0, mid, s1, k1, t1, e1);
    assert(s1 == AppState { showing_help: true, ..mid });
    law_any_key_closes_help(s1, s2, k2, t2, e2);
}

} // verus!
