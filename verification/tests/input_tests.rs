use lyre::panel_view::{playlist_songs, visible_rows};
use lyre::playlist::Playlist;
use lyre::screen_text::{
    browse_title, choose_action_lines, dir_title, no_matches_text, playlist_count_text, queue_source_label, quit_question,
    remove_question, side_entries, side_highlight, song_box_height, status_text, LineStyle,
};
use lyre::state::QueueSource;
use lyre::input::{
    confirms_quit, confirms_removal, dir_input_key, metadata_modal_key, pending_jump_message, route_key, route_message,
    search_key, KeyContext, KeyRoute, MetadataKeyOutcome,
};
use lyre::keymap::{Action, Direction, KeyCode, KeyPress, Modifiers};
use lyre::library::Library;
use lyre::navigation::{ListState, Row};
use lyre::playlist::{PlaylistId, PlaylistStore};
use lyre::rows::{panel_rows, SongLabel};
use lyre::selection::{
    cycle_category, cycle_playlist_mode, cycle_sort, jump_browse_page, jump_page, jump_to_current, move_browse_selection,
    move_selection, reset_browse_selection, select_first_playlist, select_first_song, select_last_playlist,
    select_last_song, select_song, settle_browse_selection, settle_selection,
};
use lyre::session::{
    metadata_updated_message, new_metadata_modal, romanized_applied_message, romanized_prompt_value, scan_failed_message,
    scan_summary, selected_song,
};
use lyre::song::{Metadata, MetadataEdits, Song, SongId};
use lyre::song_list::{song_row_segments, SegmentKind};
use lyre::song_modal::{add_to_playlist_side, new_song_modal, remove_confirmed, song_modal_key};
use lyre::state::{
    Category, ChooseActionField, DirScanState, LibraryPanelState, MetadataEditModal, MetadataField, Panel,
    PlaylistDisplayMode, PlaylistPanelState, PlaylistView, SidePanel, Sort, SongModal, StatusKind,
};

fn key(code: KeyCode) -> KeyPress {
    KeyPress { code, modifiers: Modifiers::none() }
}

fn ch(c: char) -> KeyPress {
    key(KeyCode::Char(c))
}

fn idle() -> KeyContext {
    KeyContext {
        confirming_quit: false,
        confirming_remove: false,
        confirming_romanized: false,
        showing_help: false,
        song_modal: false,
        metadata_modal: false,
        youtube_modal: false,
        editing_dir: false,
        library_searching: false,
        playlist_searching: false,
        panel: Panel::Library,
        playlist_view: PlaylistView::Browsing,
        library_query_empty: true,
        playlist_query_empty: true,
    }
}

fn song(path: &str, title: &str, artist: &str, album: &str) -> Song {
    let mut m = Metadata::empty();
    m.title = Some(title.to_string());
    m.artist = Some(artist.to_string());
    m.album = Some(album.to_string());
    Song::from_cached_with_stat(path.to_string(), 1, 2, m)
}

#[test]
fn open_dialogs_take_keys_in_order_and_keep_the_jump_number() {
    let mut pending = "12".to_string();
    let ctx = KeyContext { confirming_quit: true, showing_help: true, song_modal: true, ..idle() };
    assert_eq!(route_key(&ctx, &mut pending, ch('x')), KeyRoute::ConfirmQuit);
    let ctx = KeyContext { showing_help: true, song_modal: true, ..idle() };
    assert_eq!(route_key(&ctx, &mut pending, ch('x')), KeyRoute::DismissHelp);
    let ctx = KeyContext { metadata_modal: true, youtube_modal: true, ..idle() };
    assert_eq!(route_key(&ctx, &mut pending, ch('x')), KeyRoute::MetadataModal);
    let ctx = KeyContext { editing_dir: true, library_searching: true, ..idle() };
    assert_eq!(route_key(&ctx, &mut pending, ch('x')), KeyRoute::DirInput);
    let ctx = KeyContext { playlist_searching: true, ..idle() };
    assert_eq!(route_key(&ctx, &mut pending, ch('x')), KeyRoute::PlaylistSearch);
    assert_eq!(pending, "12");
}

#[test]
fn digits_build_a_jump_number_of_at_most_three_digits() {
    let mut pending = String::new();
    for c in ['4', '0', '7'] {
        assert_eq!(route_key(&idle(), &mut pending, ch(c)), KeyRoute::Digit { grew: true });
    }
    assert_eq!(route_key(&idle(), &mut pending, ch('9')), KeyRoute::Digit { grew: false });
    assert_eq!(pending, "407");
    assert_eq!(pending_jump_message(&pending), "jump to Up Next #407 (press <n>, <Esc> to cancel)");
    assert_eq!(route_key(&idle(), &mut pending, ch('n')), KeyRoute::Dispatch(Some(Action::NextOrJump)));
    assert_eq!(pending, "407", "n keeps the number for the jump");
    assert_eq!(route_key(&idle(), &mut pending, ch('j')), KeyRoute::Dispatch(Some(Action::MoveDown)));
    assert_eq!(pending, "", "any other key drops it");
}

#[test]
fn esc_cascades_from_the_jump_number_to_the_quit_question() {
    let mut pending = "3".to_string();
    let route = route_key(&idle(), &mut pending, key(KeyCode::Esc));
    assert_eq!(route, KeyRoute::CancelJump);
    assert_eq!(route_message(route), Some("cancelled queue jump"));
    assert_eq!(pending, "");
    let viewing = KeyContext { panel: Panel::Playlists, playlist_view: PlaylistView::Viewing(PlaylistId(1)), ..idle() };
    assert_eq!(route_key(&viewing, &mut pending, key(KeyCode::Esc)), KeyRoute::LeavePlaylist);
    let filtered = KeyContext { playlist_query_empty: false, ..viewing };
    assert_eq!(route_key(&filtered, &mut pending, key(KeyCode::Esc)), KeyRoute::ClearPlaylistSearch);
    let browsing = KeyContext { panel: Panel::Playlists, playlist_query_empty: false, ..idle() };
    let route = route_key(&browsing, &mut pending, key(KeyCode::Esc));
    assert_eq!(route, KeyRoute::ClearBrowseSearch);
    assert_eq!(route_message(route), Some("cleared search"));
    let library = KeyContext { library_query_empty: false, ..idle() };
    assert_eq!(route_key(&library, &mut pending, key(KeyCode::Esc)), KeyRoute::ClearLibrarySearch);
    assert_eq!(route_key(&idle(), &mut pending, key(KeyCode::Esc)), KeyRoute::AskQuit);
    assert_eq!(route_message(KeyRoute::AskQuit), None);
}

#[test]
fn unbound_keys_dispatch_nothing() {
    let mut pending = String::new();
    assert_eq!(route_key(&idle(), &mut pending, key(KeyCode::F(5))), KeyRoute::Dispatch(None));
}

#[test]
fn quit_and_remove_questions_accept_their_yes_keys() {
    assert!(confirms_quit(ch('y')) && confirms_quit(ch('Y')) && confirms_quit(key(KeyCode::Enter)));
    assert!(!confirms_quit(ch('n')));
    assert!(confirms_removal(ch('y')) && confirms_removal(ch('Y')));
    assert!(!confirms_removal(key(KeyCode::Enter)));
}

#[test]
fn search_prompt_edits_clears_and_closes() {
    let mut query = "ab".to_string();
    let mut searching = true;
    assert!(search_key(&mut query, &mut searching, ch('c')));
    assert_eq!(query, "abc");
    assert!(search_key(&mut query, &mut searching, key(KeyCode::Backspace)));
    assert_eq!(query, "ab");
    assert!(search_key(&mut query, &mut searching, key(KeyCode::Esc)));
    assert_eq!(query, "");
    assert!(searching, "Esc on a query clears it first");
    assert!(!search_key(&mut query, &mut searching, key(KeyCode::Esc)));
    assert!(!searching);
    let mut searching = true;
    query.push('x');
    assert!(!search_key(&mut query, &mut searching, key(KeyCode::Enter)));
    assert!(!searching);
    assert_eq!(query, "x", "Enter keeps the query");
}

#[test]
fn directory_prompt_asks_for_a_scan_of_the_trimmed_input() {
    let mut dir = DirScanState { dir_input: "  /music/new ".to_string(), editing_dir: true, pending_scan: None };
    let status = dir_input_key(&mut dir, "/music", key(KeyCode::Enter));
    assert_eq!(status.as_deref(), Some("scanning /music/new…"));
    assert_eq!(dir.pending_scan.as_deref(), Some("/music/new"));
    assert!(!dir.editing_dir);

    let mut dir = DirScanState { dir_input: "/elsewhere".to_string(), editing_dir: true, pending_scan: None };
    assert_eq!(dir_input_key(&mut dir, "/music", ch('x')), None);
    assert_eq!(dir.dir_input, "/elsewherex");
    assert_eq!(dir_input_key(&mut dir, "/music", key(KeyCode::Esc)), None);
    assert_eq!(dir.dir_input, "/music");
    assert!(!dir.editing_dir);
    assert!(dir.pending_scan.is_none());
}

fn editor() -> MetadataEditModal {
    let mut m = Metadata::empty();
    m.title = Some("Song".to_string());
    m.artist = Some("Band".to_string());
    m.track = Some(3);
    new_metadata_modal(SongId(5), &m)
}

#[test]
fn metadata_editor_starts_on_the_title_with_the_tags_as_text() {
    let modal = editor();
    assert_eq!(modal.song, SongId(5));
    assert_eq!(modal.edits.title, "Song");
    assert_eq!(modal.edits.artist, "Band");
    assert_eq!(modal.edits.track, "3");
    assert_eq!(modal.edits.album, "");
    assert_eq!(modal.original_artist_sort, "");
    assert_eq!(modal.focused, MetadataField::Title);
    assert!(modal.error.is_none());
}

#[test]
fn metadata_editor_keys_move_edit_save_and_close() {
    let mut modal = editor();
    modal.error = Some("old".to_string());
    let modal = match metadata_modal_key(modal, key(KeyCode::Tab)) {
        MetadataKeyOutcome::Keep(m) => m,
        _ => panic!("Tab keeps the editor open"),
    };
    assert_eq!(modal.focused, MetadataField::Artist, "no romanized field for a plain ASCII title");
    assert!(modal.error.is_none());
    let modal = match metadata_modal_key(modal, ch('s')) {
        MetadataKeyOutcome::Keep(m) => m,
        _ => panic!("typing keeps the editor open"),
    };
    assert_eq!(modal.edits.artist, "Bands");
    let modal = match metadata_modal_key(modal, key(KeyCode::Backspace)) {
        MetadataKeyOutcome::Keep(m) => m,
        _ => panic!("Backspace keeps the editor open"),
    };
    assert_eq!(modal.edits.artist, "Band");
    let modal = match metadata_modal_key(modal, key(KeyCode::BackTab)) {
        MetadataKeyOutcome::Keep(m) => m,
        _ => panic!("Shift+Tab keeps the editor open"),
    };
    assert_eq!(modal.focused, MetadataField::Title);
    let modal = match metadata_modal_key(modal, key(KeyCode::Up)) {
        MetadataKeyOutcome::Keep(m) => m,
        _ => panic!("Up keeps the editor open"),
    };
    assert_eq!(modal.focused, MetadataField::Date, "moving up from the first field wraps to the last");
    assert!(matches!(metadata_modal_key(editor(), key(KeyCode::Enter)), MetadataKeyOutcome::Save(_)));
    assert!(matches!(metadata_modal_key(editor(), key(KeyCode::Esc)), MetadataKeyOutcome::Close));
}

fn store_with(names: &[&str]) -> (PlaylistStore, Vec<PlaylistId>) {
    let mut store = PlaylistStore::empty();
    let ids = names.iter().map(|n| store.create(n.to_string())).collect();
    (store, ids)
}

#[test]
fn song_dialog_starts_on_create_when_there_are_no_playlists() {
    let (store, _) = store_with(&[]);
    let modal = new_song_modal(&store, SongId(1));
    assert_eq!(modal.selected, ChooseActionField::CreatePlaylist);
    let (store, _) = store_with(&["Mix"]);
    assert_eq!(new_song_modal(&store, SongId(1)).selected, ChooseActionField::AddToPlaylist);
}

#[test]
fn song_dialog_creates_a_playlist_holding_the_song() {
    let (mut store, _) = store_with(&[]);
    let mut modal = new_song_modal(&store, SongId(9));
    for c in "  Road Trip ".chars() {
        let (next, line) = song_modal_key(&mut store, None, modal, ch(c));
        assert!(line.is_none());
        modal = next.expect("typing keeps the dialog open");
    }
    assert_eq!(modal.name_input, "  Road Trip ");
    let (next, line) = song_modal_key(&mut store, None, modal, key(KeyCode::Enter));
    assert!(next.is_none());
    let line = line.unwrap();
    assert_eq!(line.text, "created \"Road Trip\" and added the song");
    assert_eq!(line.kind, StatusKind::Success);
    let id = store.ids_sorted_by_name()[0];
    assert_eq!(store.get(id).unwrap().name(), "Road Trip");
    assert_eq!(store.get(id).unwrap().songs(), &[SongId(9)]);
}

#[test]
fn song_dialog_refuses_an_empty_playlist_name() {
    let (mut store, _) = store_with(&[]);
    let modal = SongModal { song: SongId(9), selected: ChooseActionField::CreatePlaylist, name_input: "   ".to_string(), side: None };
    let (next, line) = song_modal_key(&mut store, None, modal, key(KeyCode::Enter));
    let line = line.unwrap();
    assert_eq!(line.text, "playlist name can't be empty");
    assert_eq!(line.kind, StatusKind::Error);
    assert_eq!(next.unwrap().name_input, "   ");
    assert!(store.is_empty());
}

#[test]
fn add_to_playlist_list_pins_the_viewed_playlist_and_those_holding_the_song() {
    let (mut store, ids) = store_with(&["Alpha", "Beta", "Gamma", "Delta"]);
    let song = SongId(3);
    store.add_song(ids[2], song);
    let side = add_to_playlist_side(&store, Some(ids[1]), song).unwrap();
    match side {
        SidePanel::AddToPlaylist { options, pinned, list_state } => {
            assert_eq!(pinned, vec![ids[1], ids[2]]);
            assert_eq!(options, vec![ids[0], ids[3]]);
            assert_eq!(list_state.selected, Some(0));
        }
        _ => panic!("an add-to-playlist list"),
    }
    let (store, ids) = store_with(&["Only"]);
    assert!(add_to_playlist_side(&store, Some(ids[0]), song).is_none());
}

#[test]
fn song_dialog_adds_to_the_chosen_playlist_once() {
    let (mut store, ids) = store_with(&["Alpha", "Beta"]);
    let modal = new_song_modal(&store, SongId(4));
    let (next, line) = song_modal_key(&mut store, None, modal, key(KeyCode::Enter));
    assert!(line.is_none());
    let modal = next.unwrap();
    let modal = song_modal_key(&mut store, None, modal, ch('j')).0.unwrap();
    let (next, line) = song_modal_key(&mut store, None, modal, key(KeyCode::Enter));
    assert!(next.is_none());
    assert_eq!(line.unwrap().text, "added to \"Beta\"");
    assert!(store.contains(ids[1], SongId(4)));
    assert!(!store.contains(ids[0], SongId(4)));

    let side = SidePanel::AddToPlaylist { options: vec![ids[1]], pinned: vec![], list_state: ListState { offset: 0, selected: Some(0) } };
    let modal = SongModal { song: SongId(4), selected: ChooseActionField::AddToPlaylist, name_input: String::new(), side: Some(side) };
    let line = song_modal_key(&mut store, None, modal, key(KeyCode::Enter)).1.unwrap();
    assert_eq!(line.text, "already in \"Beta\"");
    assert_eq!(line.kind, StatusKind::Info);
}

#[test]
fn song_dialog_says_when_there_is_nothing_to_add_to() {
    let (mut store, ids) = store_with(&["Only"]);
    store.add_song(ids[0], SongId(2));
    let modal = new_song_modal(&store, SongId(2));
    let (next, line) = song_modal_key(&mut store, None, modal, key(KeyCode::Enter));
    assert_eq!(line.unwrap().text, "no other playlists to add to -- select Create Playlist instead");
    assert_eq!(next.unwrap().selected, ChooseActionField::AddToPlaylist);
    let modal = new_song_modal(&store, SongId(2));
    let next = song_modal_key(&mut store, None, modal, key(KeyCode::Down)).0.unwrap();
    assert_eq!(next.selected, ChooseActionField::CreatePlaylist);
    assert!(song_modal_key(&mut store, None, next, key(KeyCode::Esc)).0.is_none());
}

#[test]
fn confirmed_removal_names_the_song_or_reports_failure() {
    let mut library = Library::empty("/music".to_string());
    let s = song("/music/a.mp3", "Song", "Band", "Record");
    let id = s.id();
    library.insert(s);
    let (mut store, ids) = store_with(&["Mix"]);
    store.add_song(ids[0], id);
    let line = remove_confirmed(&mut store, &library, ids[0], id);
    assert_eq!(line.text, "removed Band - Song (Record)");
    assert_eq!(line.kind, StatusKind::Success);
    assert!(!store.contains(ids[0], id));
    let line = remove_confirmed(&mut store, &library, ids[0], id);
    assert_eq!(line.text, "failed to remove song from playlist");
    assert_eq!(line.kind, StatusKind::Error);
}

#[test]
fn cycling_grouping_and_sort_reports_the_new_setting() {
    let mut library = LibraryPanelState::default();
    let mut playlists = PlaylistPanelState::default();
    let m = cycle_category(Panel::Library, &mut library, &mut playlists, Direction::Forwards);
    assert_eq!(m.as_deref(), Some("grouped by artist"));
    assert_eq!(library.category, Category::Artist);
    let m = cycle_category(Panel::Library, &mut library, &mut playlists, Direction::Backwards);
    assert_eq!(m.as_deref(), Some("grouped by none"));
    assert_eq!(cycle_category(Panel::Playlists, &mut library, &mut playlists, Direction::Forwards), None);
    assert_eq!(playlists.category, Category::Flat, "the list of playlists has no grouping");
    playlists.view = PlaylistView::Viewing(PlaylistId(1));
    let m = cycle_sort(Panel::Playlists, &mut library, &mut playlists, Direction::Backwards);
    assert_eq!(m.as_deref(), Some("sorted by date modified"));
    assert_eq!(playlists.sort, Sort::DateModified);
    assert_eq!(library.sort, Sort::Title);
    let m = cycle_playlist_mode(Panel::Library, &mut library);
    assert_eq!(m.as_deref(), Some("playlists: count"));
    assert_eq!(library.playlist_mode, PlaylistDisplayMode::Count);
    assert_eq!(cycle_playlist_mode(Panel::Playlists, &mut library), None);
}

fn grouped_rows() -> Vec<Row> {
    vec![
        Row::Header("A".to_string()),
        Row::Song(SongId(1), 0),
        Row::Song(SongId(2), 0),
        Row::Header("B".to_string()),
        Row::Song(SongId(3), 0),
    ]
}

#[test]
fn selection_moves_over_songs_and_settles_on_them() {
    let rows = grouped_rows();
    let mut state = ListState { offset: 0, selected: Some(2) };
    move_selection(&mut state, &rows, 1);
    assert_eq!(state.selected, Some(4), "the heading is skipped");
    move_selection(&mut state, &rows, 1);
    assert_eq!(state.selected, Some(1), "the move wraps past the top heading");
    let mut stale = ListState { offset: 0, selected: Some(9) };
    move_selection(&mut stale, &rows, 1);
    assert_eq!(stale.selected, Some(1), "a selection past the end walks on from where the wrap lands");
    let mut empty = ListState { offset: 3, selected: Some(1) };
    move_selection(&mut empty, &[], 1);
    assert_eq!(empty, ListState { offset: 0, selected: None });

    let mut state = ListState { offset: 0, selected: Some(3) };
    settle_selection(&mut state, &rows);
    assert_eq!(state.selected, Some(4));
    let mut state = ListState { offset: 0, selected: Some(7) };
    settle_selection(&mut state, &rows);
    assert_eq!(state.selected, Some(1));

    select_last_song(&mut state, &rows);
    assert_eq!(state.selected, Some(4));
    select_first_song(&mut state, &rows);
    assert_eq!(state.selected, Some(1));
}

#[test]
fn page_jump_through_rows_lands_on_a_song() {
    let rows = grouped_rows();
    let mut state = ListState { offset: 0, selected: Some(1) };
    jump_page(&mut state, &rows, 2, Direction::Forwards);
    assert_eq!(state, ListState { offset: 1, selected: Some(2) });
}

#[test]
fn playlist_list_selection_wraps_and_stays_in_range() {
    let mut state = ListState { offset: 0, selected: Some(0) };
    move_browse_selection(&mut state, 3, -1);
    assert_eq!(state.selected, Some(2));
    move_browse_selection(&mut state, 0, 1);
    assert_eq!(state.selected, None);
    let mut state = ListState { offset: 0, selected: Some(5) };
    settle_browse_selection(&mut state, 3);
    assert_eq!(state.selected, Some(0));
    select_last_playlist(&mut state, 3);
    assert_eq!(state.selected, Some(2));
    select_first_playlist(&mut state, 0);
    assert_eq!(state.selected, None);
    assert_eq!(reset_browse_selection(2), ListState { offset: 0, selected: Some(0) });
    assert_eq!(reset_browse_selection(0), ListState { offset: 0, selected: None });
    let mut state = ListState { offset: 0, selected: Some(0) };
    jump_browse_page(&mut state, 30, 10, Direction::Forwards);
    assert_eq!(state, ListState { offset: 9, selected: Some(14) });
}

#[test]
fn jumping_to_the_song_playing_selects_it_or_says_why_not() {
    let rows = grouped_rows();
    let mut state = ListState { offset: 0, selected: Some(1) };
    assert_eq!(jump_to_current(&mut state, &rows, Some(SongId(3))), None);
    assert_eq!(state.selected, Some(4));
    assert_eq!(jump_to_current(&mut state, &rows, None).as_deref(), Some("nothing is playing"));
    assert_eq!(
        jump_to_current(&mut state, &rows, Some(SongId(8))).as_deref(),
        Some("now playing isn't in the current view -- clear the search to find it")
    );
    assert_eq!(state.selected, Some(4));
    assert!(select_song(&mut state, &rows, SongId(2)));
    assert_eq!(state.selected, Some(2));
}

#[test]
fn a_command_needs_a_selected_song() {
    assert_eq!(selected_song(Some(&Row::Song(SongId(4), 1))), Ok(SongId(4)));
    assert_eq!(
        selected_song(Some(&Row::Header("Band".to_string()))),
        Err("\"Band\" is a heading -- select a song under it".to_string())
    );
    assert_eq!(selected_song(None), Err("select a song first".to_string()));
}

#[test]
fn scan_summary_mentions_skips_pruning_and_stop_failures() {
    let line = scan_summary(12, "/music", 0, 0, None);
    assert_eq!(line.text, "loaded 12 song(s) from /music");
    assert_eq!(line.kind, StatusKind::Success);
    let line = scan_summary(3, "/m", 2, 5, None);
    assert_eq!(line.text, "loaded 3 song(s) from /m (2 skipped), removed 5 missing song(s) from playlists");
    let line = scan_summary(0, "/m", 0, 0, Some("busy"));
    assert_eq!(line.text, "loaded 0 song(s) from /m (failed to stop previous playback cleanly: busy)");
    assert_eq!(line.kind, StatusKind::Error);
    assert_eq!(scan_failed_message("/x", "path does not exist"), "failed to scan /x: path does not exist");
}

#[test]
fn romanized_artist_is_offered_only_when_it_changed() {
    assert_eq!(romanized_prompt_value("  Utada ", "Utada"), None);
    assert_eq!(romanized_prompt_value("   ", ""), None);
    assert_eq!(romanized_prompt_value(" Utada Hikaru ", "Utada").as_deref(), Some("Utada Hikaru"));
    assert_eq!(romanized_applied_message(1), "applied romanized artist to 1 other song");
    assert_eq!(romanized_applied_message(4), "applied romanized artist to 4 other songs");
}

#[test]
fn metadata_update_message_names_the_song() {
    let mut library = Library::empty("/music".to_string());
    let s = song("/music/a.mp3", "Song", "Band", "Record");
    let id = s.id();
    library.insert(s);
    assert_eq!(metadata_updated_message(&library, id), "updated metadata for Band - Song (Record)");
    assert_eq!(metadata_updated_message(&library, SongId(1)), "updated metadata for song");
}

#[test]
fn song_row_pieces_fit_the_width() {
    let label = SongLabel { title: "Song", artist: Some("Band"), detail: Some("3:05".to_string()) };
    let names = vec!["Mix".to_string(), "Gym".to_string()];
    let segments =
        song_row_segments(1, true, Some(label), 80, Some((PlaylistDisplayMode::Count, names.as_slice())), 0);
    let got: Vec<(SegmentKind, &str)> = segments.iter().map(|s| (s.kind, s.text.as_str())).collect();
    assert_eq!(
        got,
        vec![
            (SegmentKind::Indent, "  "),
            (SegmentKind::Marker, "♪ "),
            (SegmentKind::Title, "Song"),
            (SegmentKind::Separator, " — "),
            (SegmentKind::Artist, "Band"),
            (SegmentKind::Detail, " (3:05)"),
            (SegmentKind::Separator, " · "),
            (SegmentKind::Playlists, "󰲹 2"),
        ]
    );
    let segments = song_row_segments(0, false, None, 80, None, 0);
    let got: Vec<(SegmentKind, &str)> = segments.iter().map(|s| (s.kind, s.text.as_str())).collect();
    assert_eq!(got, vec![(SegmentKind::Marker, "  "), (SegmentKind::Missing, "<missing>")]);
}

#[test]
fn song_row_title_gets_its_share_of_a_narrow_row() {
    let label = SongLabel { title: "A very long title indeed", artist: None, detail: None };
    let segments = song_row_segments(0, false, Some(label), 24, None, 0);
    assert_eq!(segments[1].kind, SegmentKind::Title);
    assert_eq!(segments[1].text, "A very long…", "70% of the 18 columns left, resting with an ellipsis");
}

#[test]
fn panel_rows_sort_without_a_query_and_rank_with_one() {
    let a = song("/music/a.mp3", "Zebra", "Band", "Record");
    let b = song("/music/b.mp3", "Apple", "Band", "Record");
    let songs = vec![&a, &b];
    let rows = panel_rows(&songs, "  ", Category::Flat, Sort::Title, "/music").unwrap();
    let ids: Vec<SongId> = rows.iter().filter_map(|r| if let Row::Song(id, _) = r { Some(*id) } else { None }).collect();
    assert_eq!(ids, vec![b.id(), a.id()]);
    let rows = panel_rows(&songs, "zeb", Category::Artist, Sort::Title, "/music").unwrap();
    assert_eq!(rows.len(), 1);
    assert!(matches!(rows[0], Row::Song(id, 0) if id == a.id()), "search results have no headings");
}

#[test]
fn created_metadata_edits_round_trip_through_the_editor_fields() {
    let edits = MetadataEdits::default();
    let modal = MetadataEditModal {
        song: SongId(1),
        edits,
        original_artist_sort: String::new(),
        focused: MetadataField::Track,
        error: None,
    };
    let modal = match metadata_modal_key(modal, ch('7')) {
        MetadataKeyOutcome::Keep(m) => m,
        _ => panic!("typing keeps the editor open"),
    };
    assert_eq!(modal.edits.track, "7");
    assert_eq!(modal.edits.title, "");
}

#[test]
fn a_digit_then_esc_leaves_no_jump_number() {
    let mut pending = "1".to_string();
    assert_eq!(route_key(&idle(), &mut pending, ch('5')), KeyRoute::Digit { grew: true });
    assert_eq!(route_key(&idle(), &mut pending, key(KeyCode::Esc)), KeyRoute::CancelJump);
    assert_eq!(pending, "");
}

#[test]
fn typing_then_backspace_restores_the_prompt_text() {
    let mut query = "road".to_string();
    let mut searching = true;
    search_key(&mut query, &mut searching, ch('é'));
    search_key(&mut query, &mut searching, key(KeyCode::Backspace));
    assert_eq!(query, "road");
    let mut dir = DirScanState { dir_input: "/m".to_string(), editing_dir: true, pending_scan: None };
    dir_input_key(&mut dir, "/root", ch('x'));
    dir_input_key(&mut dir, "/root", key(KeyCode::Backspace));
    assert_eq!(dir.dir_input, "/m");
}

#[test]
fn the_add_to_playlist_list_shows_each_playlist_once() {
    let (mut store, ids) = store_with(&["One", "Two", "Three", "Four", "Five"]);
    store.add_song(ids[3], SongId(6));
    store.add_song(ids[4], SongId(6));
    match add_to_playlist_side(&store, Some(ids[0]), SongId(6)).unwrap() {
        SidePanel::AddToPlaylist { options, pinned, .. } => {
            for id in &ids {
                let shown = options.iter().filter(|&x| x == id).count() + pinned.iter().filter(|&x| x == id).count();
                assert_eq!(shown, 1);
            }
        }
        _ => panic!("an add-to-playlist list"),
    }
}

#[test]
fn a_settled_selection_is_never_a_heading() {
    let rows = vec![Row::Header("A".to_string()), Row::Header("B".to_string()), Row::Song(SongId(1), 1)];
    for start in 0..4 {
        let mut state = ListState { offset: 0, selected: Some(start) };
        settle_selection(&mut state, &rows);
        assert_eq!(state.selected, Some(2));
    }
}

#[test]
fn screen_texts_read_as_the_player_shows_them() {
    assert_eq!(no_matches_text("songs", "zzz"), "No songs match \"zzz\"");
    assert_eq!(playlist_count_text(1), "  (1 song)");
    assert_eq!(playlist_count_text(12), "  (12 songs)");
    assert_eq!(browse_title(true, false, "", 0), " Playlists — none yet, press <Shift+A> on a song to create one ");
    assert_eq!(browse_title(false, false, "", 3), " Playlists — </> search ");
    assert_eq!(dir_title(true), " Directory (<Enter> to load, <Esc> to cancel) ");
    assert_eq!(dir_title(false), " Directory <d> ");
    assert_eq!(status_text(StatusKind::Error, "boom"), "⚠ boom");
    assert_eq!(status_text(StatusKind::Error, ""), "");
    assert_eq!(status_text(StatusKind::Info, "ok"), "ok");
    assert_eq!(quit_question(), "Quit Lyre?");
    let (mut store, ids) = store_with(&["Mix"]);
    store.add_song(ids[0], SongId(1));
    store.add_song(ids[0], SongId(2));
    assert_eq!(queue_source_label(&store, QueueSource::Playlist(ids[0])), "Playlist: Mix (2 songs)");
    assert_eq!(queue_source_label(&store, QueueSource::Playlist(PlaylistId(99))), "Playlist");
    assert_eq!(queue_source_label(&store, QueueSource::Library), "Library");
    let library = Library::empty("/music".to_string());
    let (song_line, question) = remove_question(&library, &store, ids[0], SongId(1));
    assert_eq!(song_line, "this song");
    assert_eq!(question, "Remove from \"Mix\"?");
    assert_eq!(side_highlight(Some(1), 2), Some(3));
    assert_eq!(side_highlight(None, 2), None);
}

#[test]
fn song_dialog_lines_and_side_list_entries() {
    let s = song("/music/a.mp3", "Song", "Band", "Record");
    let modal = SongModal { song: s.id(), selected: ChooseActionField::CreatePlaylist, name_input: "Mi".to_string(), side: None };
    let lines: Vec<(LineStyle, String)> =
        choose_action_lines(Some(&s), true, &modal).into_iter().map(|l| (l.style, l.text)).collect();
    assert_eq!(
        lines,
        vec![
            (LineStyle::Title, "Song".to_string()),
            (LineStyle::Muted, "Band".to_string()),
            (LineStyle::Muted, "Record".to_string()),
            (LineStyle::Blank, String::new()),
            (LineStyle::Choice { selected: false }, "  Add to Playlist".to_string()),
            (LineStyle::Choice { selected: true }, "▶ New playlist: Mi▏".to_string()),
            (LineStyle::Blank, String::new()),
            (LineStyle::Hint, "<Enter> create · <Esc> cancel".to_string()),
        ]
    );
    assert_eq!(song_box_height(Some(&s), true), 12);
    assert_eq!(song_box_height(None, false), 9);
    let (store, ids) = store_with(&["Alpha", "Beta", "Gamma"]);
    let entries = side_entries(&store, &[ids[2], PlaylistId(77)], &[ids[0], ids[1]], Some(ids[0]));
    assert_eq!(
        entries,
        vec![
            ("Alpha (current)".to_string(), true),
            ("Beta (already added)".to_string(), true),
            ("Gamma".to_string(), false),
            ("<deleted>".to_string(), false),
        ]
    );
}

#[test]
fn playlist_positions_move_and_remove_songs() {
    let mut p = Playlist::from_songs(PlaylistId(1), "Mix".to_string(), vec![SongId(1), SongId(2), SongId(3)]);
    p.move_to(0, 2);
    assert_eq!(p.songs(), &[SongId(2), SongId(3), SongId(1)]);
    p.move_to(0, 9);
    assert_eq!(p.songs(), &[SongId(2), SongId(3), SongId(1)], "an out-of-range move changes nothing");
    assert_eq!(p.remove_at(1), Some(SongId(3)));
    assert_eq!(p.songs(), &[SongId(2), SongId(1)]);
    assert_eq!(p.remove_at(5), None);
    assert_eq!(p.len(), 2);
}

#[test]
fn song_ids_print_as_sixteen_hex_digits() {
    assert_eq!(SongId(0xbeef).to_hex_string(), "000000000000beef");
}

#[test]
fn a_viewed_playlist_shows_the_songs_the_library_still_has() {
    use_panel_view();
}

fn use_panel_view() {
    let mut library = Library::empty("/music".to_string());
    let a = song("/music/a.mp3", "Zed", "Band", "Record");
    let b = song("/music/b.mp3", "Ant", "Band", "Record");
    let (ida, idb) = (a.id(), b.id());
    library.insert(a);
    library.insert(b);
    let (mut store, ids) = store_with(&["Mix"]);
    store.add_song(ids[0], ida);
    store.add_song(ids[0], SongId(12345));
    store.add_song(ids[0], idb);
    let songs = playlist_songs(&store, &library, ids[0]).unwrap();
    let got: Vec<SongId> = songs.iter().map(|s| s.id()).collect();
    assert_eq!(got, vec![ida, idb], "the song the library lacks is left out, the order kept");
    assert!(playlist_songs(&store, &library, PlaylistId(4)).is_none());

    let library_panel = LibraryPanelState::default();
    let mut playlist_panel = PlaylistPanelState::default();
    assert!(visible_rows(&library, &store, Panel::Playlists, &library_panel, &playlist_panel).is_empty());
    playlist_panel.view = PlaylistView::Viewing(ids[0]);
    let rows = visible_rows(&library, &store, Panel::Playlists, &library_panel, &playlist_panel);
    assert_eq!(rows.len(), 2);
    assert!(matches!(rows[0], Row::Song(id, 0) if id == idb), "sorted by title: Ant before Zed");
    let rows = visible_rows(&library, &store, Panel::Library, &library_panel, &playlist_panel);
    assert_eq!(rows.len(), 2);
}
