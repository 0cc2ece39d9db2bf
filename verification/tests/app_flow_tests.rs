use std::ops::{Deref, DerefMut};

use lyre::app_state::{AppState, Effect};
use lyre::keymap::{Direction, KeyCode, KeyPress, Modifiers};
use lyre::library::Library;
use lyre::navigation::Row;
use lyre::playlist::{PlaylistId, PlaylistStore};
use lyre::panel_view::visible_rows;
use lyre::screen_text::romanized_question;
use lyre::song::{parse_track, Metadata, Song, SongId};
use lyre::state::{
    Category, ChooseActionField, MetadataField, Panel, PlaylistView, QueueSource, RomanizedArtistConfirmModal, SidePanel,
    Sort, StatusKind,
};
use lyre::style::{display_width, sort_title_parts};
use lyre::youtube_modal::{DownloadEvent, YoutubeEffect, YoutubeModal};

/// The player's state, driven by key presses as the terminal program
/// drives it; the effects handed back are kept.
struct Harness {
    app: AppState,
    effects: Vec<Effect>,
}

impl Deref for Harness {
    type Target = AppState;
    fn deref(&self) -> &AppState {
        &self.app
    }
}

impl DerefMut for Harness {
    fn deref_mut(&mut self) -> &mut AppState {
        &mut self.app
    }
}

fn fixture_song(path: &str, title: &str, artist: &str, nanos: u128) -> Song {
    let mut m = Metadata::empty();
    m.title = Some(title.to_string());
    m.artist = Some(artist.to_string());
    m.duration_nanos = nanos;
    Song::from_cached_with_stat(path.to_string(), 100, 1_700_000_000, m)
}

fn harness_with(songs: Vec<Song>) -> Harness {
    let mut library = Library::empty("/music".to_string());
    for s in songs {
        library.insert(s);
    }
    let app = AppState::new(library, PlaylistStore::empty(), 0);
    Harness { app, effects: Vec::new() }
}

/// Three artists with a long and a short track each, as the original
/// fixture writes them (4000 and 400 samples at 8 kHz).
fn harness() -> Harness {
    let mut songs = Vec::new();
    for (artist, tracks) in [
        ("Alpha", [("Anchor", 500_000_000u128), ("Azure", 50_000_000u128)]),
        ("Beta", [("Beacon", 500_000_000u128), ("Bright", 50_000_000u128)]),
        ("Gamma", [("Glimmer", 500_000_000u128), ("Grove", 50_000_000u128)]),
    ] {
        for (i, (title, nanos)) in tracks.iter().enumerate() {
            songs.push(fixture_song(&format!("/music/{artist}/{i}-{title}.wav"), title, artist, *nanos));
        }
    }
    harness_with(songs)
}

fn ch_key(c: char) -> KeyPress {
    KeyPress { code: KeyCode::Char(c), modifiers: Modifiers::none() }
}

fn code_key(code: KeyCode) -> KeyPress {
    KeyPress { code, modifiers: Modifiers::none() }
}

impl Harness {
    fn visible_rows(&self) -> Vec<Row> {
        visible_rows(&self.library, &self.playlists, self.panel, &self.library_panel, &self.playlist_panel)
    }

    fn selected_row(&self) -> Option<Row> {
        let rows = self.visible_rows();
        let selected = match self.panel {
            Panel::Library => self.library_panel.list_state.selected,
            Panel::Playlists => self.playlist_panel.list_state.selected,
        };
        rows.into_iter().nth(selected?)
    }

    fn titles(&self) -> Vec<String> {
        self.visible_rows()
            .iter()
            .filter_map(|r| match r {
                Row::Song(id, _) => Some(self.library.get(*id).unwrap().title().to_string()),
                Row::Header(_) => None,
            })
            .collect()
    }

    fn headers(&self) -> Vec<String> {
        self.visible_rows()
            .iter()
            .filter_map(|r| match r {
                Row::Header(name) => Some(name.trim().to_string()),
                Row::Song(_, _) => None,
            })
            .collect()
    }

    fn on_key(&mut self, key: KeyPress) {
        let effect = self.app.handle_key(key, 0);
        self.effects.push(effect);
    }
}

#[test]
fn switching_panels_changes_the_visible_rows() {
    let mut h = harness();
    assert_eq!(h.titles().len(), 6);

    h.on_key(code_key(KeyCode::Tab));
    assert_eq!(h.panel, Panel::Playlists);
    assert!(h.visible_rows().is_empty(), "no playlist is open yet");

    h.on_key(code_key(KeyCode::Tab));
    assert_eq!(h.panel, Panel::Library);
    assert_eq!(h.titles().len(), 6);
}

#[test]
fn viewing_a_playlist_shows_only_its_songs() {
    let mut h = harness();
    let song = h.library.ids_by_path()[0];
    let id = h.playlists.create("Mix".to_string());

    h.panel = Panel::Playlists;
    h.playlist_panel.view = PlaylistView::Viewing(id);
    assert_eq!(h.titles().len(), 0);

    h.playlists.add_song(id, song);
    assert_eq!(h.titles().len(), 1);

    h.playlists.remove_song(id, song);
    assert_eq!(h.titles().len(), 0);
}

#[test]
fn moving_the_selection_wraps_and_never_lands_on_a_header() {
    let mut h = harness();
    h.library_panel.category = Category::Artist;
    h.on_key(ch_key('g'));

    for _ in 0..12 {
        let row = h.selected_row();
        assert!(matches!(row, Some(Row::Song(_, _))), "a header must never be selected");
        h.on_key(ch_key('j'));
    }
}

#[test]
fn shift_g_selects_the_last_song_and_g_selects_the_first() {
    let mut h = harness();
    h.on_key(code_key(KeyCode::Char('G')));
    let last = h.library_panel.list_state.selected;

    h.on_key(ch_key('g'));
    let first = h.library_panel.list_state.selected;

    assert_eq!(first, Some(0));
    assert_eq!(last, Some(5));
}

#[test]
fn lowercase_o_cycles_category_and_shows_a_status_message() {
    let mut h = harness();
    assert!(h.headers().is_empty());

    h.on_key(ch_key('o'));
    assert!(!h.headers().is_empty(), "category should have advanced past None");
    assert!(h.status.text.contains("grouped by"));
}

#[test]
fn lowercase_p_cycles_sort_and_shows_a_status_message() {
    let mut h = harness();
    let before = h.titles();

    h.on_key(ch_key('p'));
    let after = h.titles();

    assert_ne!(before, after, "sort must have changed the order");
    assert!(h.status.text.contains("sorted by"));
}

#[test]
fn shift_a_opens_the_song_actions_modal_not_lowercase_p() {
    let mut h = harness();
    h.on_key(ch_key('g'));

    h.on_key(ch_key('p'));
    assert!(h.song_modal.is_none(), "'p' must cycle sort, not open the song modal");

    h.on_key(code_key(KeyCode::Char('A')));
    assert!(h.song_modal.is_some(), "Shift+A must open the song actions modal");
}

#[test]
fn shift_e_opens_the_metadata_modal_prefilled_with_the_selected_songs_tags() {
    let mut h = harness();
    h.on_key(ch_key('g'));
    let Some(Row::Song(id, _)) = h.selected_row() else { panic!("expected a song row") };
    let expected_title = h.library.get(id).unwrap().title().to_string();

    h.on_key(code_key(KeyCode::Char('E')));

    let modal = h.metadata_modal.as_ref().expect("Shift+E must open the metadata edit modal");
    assert_eq!(modal.song, id);
    assert_eq!(modal.edits.title, expected_title);
    assert_eq!(modal.focused, MetadataField::Title);
    assert!(modal.error.is_none());
}

#[test]
fn metadata_modal_tab_and_shift_tab_cycle_through_every_field_and_wrap() {
    let mut h = harness();
    h.on_key(ch_key('g'));
    h.on_key(code_key(KeyCode::Char('E')));

    let visible = MetadataField::visible(&h.metadata_modal.as_ref().unwrap().edits);
    for expected in &visible {
        assert_eq!(h.metadata_modal.as_ref().unwrap().focused, *expected);
        h.on_key(code_key(KeyCode::Tab));
    }
    assert_eq!(
        h.metadata_modal.as_ref().unwrap().focused,
        MetadataField::Title,
        "tabbing past the last field must wrap back to the first"
    );

    h.on_key(code_key(KeyCode::BackTab));
    assert_eq!(
        h.metadata_modal.as_ref().unwrap().focused,
        *visible.last().unwrap(),
        "shift-tab from the first field must wrap back to the last"
    );
}

#[test]
fn song_modal_tab_and_shift_tab_move_focus_like_j_and_k() {
    let mut h = harness();
    h.playlists.create("First".to_string());
    h.on_key(ch_key('g'));
    h.on_key(code_key(KeyCode::Char('A')));
    assert_eq!(h.song_modal.as_ref().unwrap().selected, ChooseActionField::AddToPlaylist);

    h.on_key(code_key(KeyCode::Tab));
    assert_eq!(
        h.song_modal.as_ref().unwrap().selected,
        ChooseActionField::CreatePlaylist,
        "Tab must move focus in the song actions modal, matching the metadata modal"
    );

    h.on_key(code_key(KeyCode::BackTab));
    assert_eq!(
        h.song_modal.as_ref().unwrap().selected,
        ChooseActionField::AddToPlaylist,
        "Shift+Tab must move focus back, matching the metadata modal"
    );
}

fn side_selection(h: &Harness) -> Option<usize> {
    match h.song_modal.as_ref().unwrap().side.as_ref().unwrap() {
        SidePanel::AddToPlaylist { list_state, .. } => list_state.selected,
        SidePanel::RemoveFromPlaylist { list_state, .. } => list_state.selected,
    }
}

#[test]
fn song_modal_side_panel_tab_and_shift_tab_move_selection_like_j_and_k() {
    let mut h = harness();
    h.playlists.create("First".to_string());
    h.playlists.create("Second".to_string());
    h.on_key(ch_key('g'));
    h.on_key(code_key(KeyCode::Char('A')));
    h.on_key(code_key(KeyCode::Enter));

    let start = side_selection(&h);

    h.on_key(code_key(KeyCode::Tab));
    let after_tab = side_selection(&h);
    assert_ne!(after_tab, start, "Tab must move the side panel selection, matching j/Down");

    h.on_key(code_key(KeyCode::BackTab));
    assert_eq!(side_selection(&h), start, "Shift+Tab must move the side panel selection back, matching k/Up");
}

#[test]
fn metadata_modal_esc_cancels_without_changing_the_library() {
    let mut h = harness();
    h.on_key(ch_key('g'));
    let Some(Row::Song(id, _)) = h.selected_row() else { panic!("expected a song row") };
    let before = h.library.get(id).unwrap().title().to_string();

    h.on_key(code_key(KeyCode::Char('E')));
    h.on_key(ch_key('r'));
    h.on_key(code_key(KeyCode::Esc));

    assert!(h.metadata_modal.is_none());
    assert_eq!(h.library.get(id).unwrap().title(), before);
}

#[test]
fn enter_with_no_song_selected_shows_a_status_message() {
    let mut h = harness();
    h.library_panel.list_state.select(None);
    h.on_key(code_key(KeyCode::Enter));
    assert!(h.status.text.contains("select a song first"));
}

#[test]
fn lowercase_a_with_no_song_selected_shows_a_status_message() {
    let mut h = harness();
    h.library_panel.list_state.select(None);
    h.on_key(ch_key('a'));
    assert!(h.status.text.contains("select a song first"));
}

#[test]
fn shift_a_with_no_song_selected_shows_a_status_message() {
    let mut h = harness();
    h.library_panel.list_state.select(None);
    h.on_key(ch_key('A'));
    assert!(h.status.text.contains("select a song first"));
}

#[test]
fn entering_a_playlist_shows_a_status_message() {
    let mut h = harness();
    let id = h.playlists.create("Mix".to_string());

    h.panel = Panel::Playlists;
    h.playlist_panel.list_state.select(Some(0));
    h.on_key(code_key(KeyCode::Enter));

    assert_eq!(h.playlist_panel.view, PlaylistView::Viewing(id));
    assert!(h.status.text.contains("viewing \"Mix\""));
}

#[test]
fn q_asks_for_confirmation_before_quitting() {
    let mut h = harness();
    h.on_key(ch_key('q'));
    assert!(h.confirming_quit);

    h.on_key(ch_key('r'));
    assert!(!h.confirming_quit, "any key other than y/Y/Enter must cancel the quit confirmation");
}

#[test]
fn question_mark_toggles_the_help_overlay() {
    let mut h = harness();
    assert!(!h.showing_help);

    h.on_key(ch_key('?'));
    assert!(h.showing_help);

    h.on_key(ch_key('r'));
    assert!(!h.showing_help, "any key closes the help overlay");
}

#[test]
fn sort_title_width_is_stable_across_every_category_and_sort_combination() {
    let widths: Vec<usize> = Category::all()
        .iter()
        .flat_map(|category| {
            Sort::all().into_iter().map(move |sort| {
                let (text, fill) = sort_title_parts(category.label(), sort.label());
                display_width(&text) + display_width(&fill)
            })
        })
        .collect();

    let first = widths[0];
    for (i, width) in widths.iter().enumerate() {
        assert_eq!(
            *width, first,
            "combination #{i} has a different rendered width than the others -- the header would jump"
        );
    }
}

#[test]
fn lowercase_y_opens_the_youtube_modal_entering_url() {
    let mut h = harness();
    h.on_key(ch_key('y'));

    let modal = h.youtube.as_ref().expect("<y> must open the youtube modal");
    assert!(matches!(modal, YoutubeModal::EnteringUrl { url_input, error, restore } if url_input.is_empty() && error.is_none() && restore.is_none()));
}

#[test]
fn browsing_moves_through_playlists_and_not_song_rows() {
    let mut h = harness();
    let ids: Vec<PlaylistId> = ["B", "A", "C"].iter().map(|n| h.playlists.create(n.to_string())).collect();
    h.panel = Panel::Playlists;
    h.playlist_panel.list_state.select(Some(0));
    h.on_key(ch_key('k'));
    assert_eq!(h.playlist_panel.list_state.selected, Some(2), "moving up from the first playlist wraps");
    h.on_key(code_key(KeyCode::Enter));
    assert_eq!(h.playlist_panel.view, PlaylistView::Viewing(ids[2]));
    h.on_key(ch_key('o'));
    assert_eq!(h.playlist_panel.category, Category::Artist);
    let _ = Direction::Forwards;
}

#[test]
fn digits_then_n_jump_ahead_in_the_queue_and_clear_the_number() {
    let mut h = harness();
    let ids = h.library.ids_by_path();
    h.on_key(ch_key('3'));
    assert_eq!(h.pending_number, "3");
    assert_eq!(h.status.text, "jump to Up Next #3 (press <n>, <Esc> to cancel)");
    h.on_key(ch_key('n'));
    assert!(matches!(h.effects.last(), Some(Effect::Play(p)) if *p == ids[2]));
    assert!(h.pending_number.is_empty());
    h.on_key(ch_key('n'));
    assert!(matches!(h.effects.last(), Some(Effect::Play(p)) if *p == ids[3]));
    h.on_key(ch_key('9'));
    h.on_key(ch_key('n'));
    assert!(matches!(h.effects.last(), Some(Effect::Nothing)));
    assert_eq!(h.status.text, "no song at Up Next #9");
    assert_eq!(h.queue.current_id(), Some(ids[3]));
}

#[test]
fn esc_drops_a_typed_number_before_anything_else() {
    let mut h = harness();
    h.library_panel.search_query = "alpha".to_string();
    h.on_key(ch_key('1'));
    h.on_key(code_key(KeyCode::Esc));
    assert!(h.pending_number.is_empty());
    assert_eq!(h.status.text, "cancelled queue jump");
    assert_eq!(h.library_panel.search_query, "alpha");
    h.on_key(code_key(KeyCode::Esc));
    assert!(h.library_panel.search_query.is_empty());
    assert_eq!(h.status.text, "cleared search");
    assert!(!h.confirming_quit);
    h.on_key(code_key(KeyCode::Esc));
    assert!(h.confirming_quit);
}

#[test]
fn enter_on_a_song_asks_to_play_it_and_marks_it_playing() {
    let mut h = harness();
    let Some(Row::Song(id, _)) = h.selected_row() else { panic!("expected a song row") };
    h.on_key(code_key(KeyCode::Enter));
    assert!(matches!(h.effects.last(), Some(Effect::Play(p)) if *p == id));
    assert_eq!(h.queue.current_id(), Some(id));
    h.on_key(ch_key('c'));
    assert_eq!(h.selected_row().map(|r| matches!(r, Row::Song(s, _) if s == id)), Some(true));
}

#[test]
fn c_with_nothing_playing_says_so() {
    let mut h = harness();
    h.on_key(ch_key('c'));
    assert_eq!(h.status.text, "nothing is playing");
}

#[test]
fn a_queues_the_selected_song_next() {
    let mut h = harness();
    h.on_key(ch_key('g'));
    let Some(Row::Song(id, _)) = h.selected_row() else { panic!("expected a song row") };

    h.on_key(ch_key('a'));

    assert_eq!(h.queue.priority_queue().first(), Some(&id));
}

#[test]
fn n_advances_and_b_goes_back() {
    let mut h = harness();
    h.on_key(ch_key('n'));
    let first = h.queue.current_id();

    h.on_key(ch_key('n'));
    let second = h.queue.current_id();
    assert_ne!(first, second);

    h.on_key(ch_key('b'));
    assert_eq!(h.queue.current_id(), first);
}

#[test]
fn b_with_no_previous_track_shows_a_status_message() {
    let mut h = harness_with(Vec::new());
    h.on_key(ch_key('b'));
    assert!(h.status.text.contains("no previous track"));
}

#[test]
fn n_on_an_empty_queue_says_there_is_no_next_track() {
    let mut h = harness_with(Vec::new());
    h.on_key(ch_key('n'));
    assert_eq!(h.status.text, "no next track");
    assert!(matches!(h.effects.last(), Some(Effect::Nothing)));
}

#[test]
fn playing_from_a_playlist_takes_the_queue_from_it() {
    let mut h = harness();
    let ids = h.library.ids_by_path();
    let mix = h.playlists.create("Mix".to_string());
    h.playlists.add_song(mix, ids[4]);
    h.playlists.add_song(mix, ids[1]);
    h.panel = Panel::Playlists;
    h.playlist_panel.view = PlaylistView::Viewing(mix);
    h.playlist_panel.list_state.select(Some(0));
    let Some(Row::Song(first, _)) = h.selected_row() else { panic!("expected a song row") };
    h.on_key(code_key(KeyCode::Enter));
    assert_eq!(h.queue_source, QueueSource::Playlist(mix));
    assert_eq!(h.queue.ordered_ids(), vec![ids[4], ids[1]]);
    assert_eq!(h.queue.current_id(), Some(first));
}

#[test]
fn shuffle_and_unshuffle_report_themselves() {
    let mut h = harness();
    let before = h.queue.ordered_ids();
    h.on_key(ch_key('s'));
    assert_eq!(h.status.text, "shuffled");
    h.on_key(ch_key('u'));
    assert_eq!(h.status.text, "restored original order");
    assert_eq!(h.queue.ordered_ids(), before);
}

#[test]
fn d_opens_the_directory_prompt_on_the_library_root() {
    let mut h = harness();
    h.on_key(ch_key('d'));
    assert!(h.dir.editing_dir);
    assert_eq!(h.dir.dir_input, "/music");
}

#[test]
fn quit_question_yes_leaves_and_no_stays() {
    let mut h = harness();
    h.on_key(ch_key('q'));
    h.on_key(ch_key('n'));
    assert!(!h.confirming_quit);
    assert!(matches!(h.effects.last(), Some(Effect::Nothing)));
    h.on_key(ch_key('q'));
    h.on_key(code_key(KeyCode::Enter));
    assert!(matches!(h.effects.last(), Some(Effect::Quit)));
}

#[test]
fn removing_a_song_from_the_viewed_playlist_asks_first() {
    let mut h = harness();
    let song = h.library.ids_by_path()[0];
    let id = h.playlists.create("Mix".to_string());
    h.playlists.add_song(id, song);
    h.panel = Panel::Playlists;
    h.playlist_panel.view = PlaylistView::Viewing(id);
    h.playlist_panel.list_state.select(Some(0));
    h.on_key(ch_key('r'));
    assert_eq!(h.confirming_remove, Some((id, song)));
    h.on_key(ch_key('y'));
    assert_eq!(h.confirming_remove, None);
    assert!(h.playlists.get(id).unwrap().songs().is_empty());
    assert!(h.status.text.starts_with("removed "));
    assert_eq!(h.playlist_panel.list_state.selected, None);
}

#[test]
fn esc_leaves_a_viewed_playlist_for_the_list() {
    let mut h = harness();
    let id = h.playlists.create("Mix".to_string());
    h.panel = Panel::Playlists;
    h.playlist_panel.view = PlaylistView::Viewing(id);
    h.on_key(code_key(KeyCode::Esc));
    assert_eq!(h.playlist_panel.view, PlaylistView::Browsing);
    assert_eq!(h.playlist_panel.list_state.selected, Some(0));
}

impl Harness {
    /// Carries out a metadata save the way the terminal program does; the
    /// song read back is the same file with the edited title, grown and
    /// touched by the write.
    fn save_edits(&mut self) {
        let Some(Effect::SaveMetadata(modal)) = self.effects.pop() else { panic!("expected a save") };
        let old = self.library.get(modal.song).unwrap();
        let mut metadata = Metadata::empty();
        metadata.title = Some(modal.edits.title.trim().to_string());
        metadata.artist = old.metadata().artist.clone();
        metadata.duration_nanos = old.metadata().duration_nanos;
        let written = match parse_track(&modal.edits.track) {
            Ok(_) => Ok(Song::from_cached_with_stat(old.path().to_string(), 164, 1_700_000_060, metadata)),
            Err(e) => Err(e),
        };
        self.app.finish_metadata_save(modal, written, 0);
    }
}

#[test]
fn metadata_modal_editing_the_title_and_saving_updates_the_library() {
    let mut h = harness();
    h.on_key(ch_key('g'));
    let Some(Row::Song(old_id, _)) = h.selected_row() else { panic!("expected a song row") };

    h.on_key(code_key(KeyCode::Char('E')));
    for _ in 0..32 {
        h.on_key(code_key(KeyCode::Backspace));
    }
    for c in "Retitled".chars() {
        h.on_key(ch_key(c));
    }
    h.on_key(code_key(KeyCode::Enter));
    h.save_edits();

    assert!(h.metadata_modal.is_none(), "a successful save must close the modal");
    assert!(!h.library.contains(old_id), "the old song id must no longer resolve");

    let new_song = h.library.songs_by_path().into_iter().find(|s| s.title() == "Retitled");
    assert!(new_song.is_some(), "the library must contain a song with the new title");
    assert!(h.status.text.contains("updated metadata"));
    let Some(Row::Song(selected, _)) = h.selected_row() else { panic!("expected a song row") };
    assert_eq!(Some(selected), new_song.map(|s| s.id()));
}

#[test]
fn a_failed_metadata_write_reopens_the_editor_with_the_error() {
    let mut h = harness();
    h.on_key(code_key(KeyCode::Char('E')));
    h.on_key(code_key(KeyCode::Enter));
    let Some(Effect::SaveMetadata(modal)) = h.effects.pop() else { panic!("expected a save") };
    let song = modal.song;
    h.app.finish_metadata_save(modal, Err("failed to write tags: disk full".to_string()), 0);
    let reopened = h.metadata_modal.as_ref().expect("the editor must come back");
    assert_eq!(reopened.song, song);
    assert_eq!(reopened.error.as_deref(), Some("failed to write tags: disk full"));
}

#[test]
fn a_finished_scan_starts_both_panels_over() {
    let mut h = harness();
    h.playlists.create("Old".to_string());
    h.panel = Panel::Playlists;
    h.playlist_panel.search_query = "ol".to_string();
    h.library_panel.search_query = "alpha".to_string();
    h.on_key(code_key(KeyCode::Char('n')));
    h.on_key(code_key(KeyCode::Char('A')));

    let mut library = Library::empty("/new".to_string());
    library.insert(fixture_song("/new/a.wav", "One", "Solo", 1));
    library.insert(fixture_song("/new/b.wav", "Two", "Solo", 1));
    let mut playlists = PlaylistStore::empty();
    playlists.create("Kept".to_string());
    h.app.install_scan(library, playlists, 3, 1, None, 7);

    assert_eq!(h.status.text, "loaded 2 song(s) from /new (3 skipped), removed 1 missing song(s) from playlists");
    assert_eq!(h.status.kind, StatusKind::Success);
    assert_eq!(h.status.set_at_nanos, 7);
    assert_eq!(h.library_panel.list_state.selected, Some(0));
    assert!(h.library_panel.search_query.is_empty());
    assert_eq!(h.playlist_panel.view, PlaylistView::Browsing);
    assert!(h.playlist_panel.search_query.is_empty());
    assert_eq!(h.playlist_panel.list_state.selected, Some(0));
    assert!(h.song_modal.is_none());
    assert_eq!(h.queue.current_id(), None);
    assert_eq!(h.queue.ordered_ids(), h.library.ids_by_path());
    assert_eq!(h.dir.dir_input, "/new");
    assert_eq!(h.panel, Panel::Playlists, "the panel shown stays");
}

#[test]
fn a_scan_reports_a_playback_that_did_not_stop_cleanly() {
    let mut h = harness();
    let library = Library::empty("/empty".to_string());
    h.app.install_scan(library, PlaylistStore::empty(), 0, 0, Some("device lost".to_string()), 0);
    assert_eq!(h.status.text, "loaded 0 song(s) from /empty (failed to stop previous playback cleanly: device lost)");
    assert_eq!(h.status.kind, StatusKind::Error);
    assert_eq!(h.library_panel.list_state.selected, None);
}

#[test]
fn a_download_joins_the_library_and_is_selected() {
    let mut h = harness();
    let song = fixture_song("/music/Zeta/0-Zenith.wav", "Zenith", "Zeta", 1);
    let id = song.id();
    h.app.add_downloaded(song, 0);
    assert_eq!(h.status.text, "downloaded and added: Zeta - Zenith (Unknown Album)");
    assert_eq!(h.status.kind, StatusKind::Success);
    assert_eq!(h.selected_row().map(|r| matches!(r, Row::Song(s, _) if s == id)), Some(true));

    let again = fixture_song("/music/Zeta/0-Zenith.wav", "Zenith", "Zeta", 1);
    h.app.add_downloaded(again, 0);
    assert_eq!(h.status.text, "downloaded song already exists in the library");
    assert_eq!(h.status.kind, StatusKind::Info);
}

impl Harness {
    /// Saves the metadata editor with the romanized artist (and, when
    /// given, the artist) set as the user would type them.
    fn save_with_artist_sort(&mut self, artist: Option<&str>, artist_sort: &str) {
        self.on_key(code_key(KeyCode::Char('E')));
        {
            let modal = self.app.metadata_modal.as_mut().unwrap();
            if let Some(a) = artist {
                modal.edits.artist = a.to_string();
            }
            modal.edits.artist_sort = artist_sort.to_string();
        }
        self.on_key(code_key(KeyCode::Enter));
        let Some(Effect::SaveMetadata(modal)) = self.effects.pop() else { panic!("expected a save") };
        let old = self.library.get(modal.song).unwrap();
        let mut metadata = Metadata::empty();
        metadata.title = old.metadata().title.clone();
        metadata.artist = Some(modal.edits.artist.trim().to_string());
        metadata.duration_nanos = old.metadata().duration_nanos;
        let written = Ok(Song::from_cached_with_stat(old.path().to_string(), 164, 1_700_000_060, metadata));
        self.app.finish_metadata_save(modal, written, 0);
    }

    /// Carries out a yes to the romanized-artist question the way the
    /// terminal program does; each song read back is the same file, grown
    /// and touched by the write.
    fn apply_romanized(&mut self) {
        let Some(Effect::ApplyRomanized(confirm)) = self.effects.pop() else { panic!("expected the apply") };
        let mut applied = 0;
        for id in self.library.matching_artist(&confirm.artist_sort_key, confirm.reference_song) {
            let old = self.library.get(id).unwrap();
            let mut metadata = Metadata::empty();
            metadata.title = old.metadata().title.clone();
            metadata.artist = old.metadata().artist.clone();
            metadata.duration_nanos = old.metadata().duration_nanos;
            let song = Song::from_cached_with_stat(old.path().to_string(), 164, 1_700_000_060, metadata);
            if self.app.take_retagged(id, song) {
                applied += 1;
            }
        }
        self.app.report_romanized(applied, 0);
    }
}

#[test]
fn saving_a_new_romanized_artist_prompts_to_apply_it_to_sibling_songs() {
    let mut h = harness();
    h.on_key(ch_key('g'));
    let Some(Row::Song(id, _)) = h.selected_row() else { panic!("expected a song row") };
    assert_eq!(h.library.get(id).unwrap().artist(), "Alpha", "sanity check: selected an Alpha song");

    h.save_with_artist_sort(None, "Arufa");

    let confirm = h.romanized_confirm.as_ref().expect("must prompt when a sibling song shares the artist");
    assert_eq!(confirm.artist_display, "Alpha");
    assert_eq!(confirm.value, "Arufa");
    assert_eq!(confirm.count, 1, "only one other Alpha song exists in the fixture");
}

#[test]
fn saving_a_romanized_artist_with_no_siblings_does_not_prompt() {
    let mut h = harness();
    h.on_key(ch_key('g'));

    h.save_with_artist_sort(Some("CompletelyUniqueArtist"), "Yunikuu");

    assert!(h.romanized_confirm.is_none(), "an artist with no other songs must not trigger the confirmation");
}

#[test]
fn declining_the_romanized_artist_prompt_leaves_the_library_untouched() {
    let mut h = harness();
    h.on_key(ch_key('g'));
    let songs_before = h.library.len();

    h.save_with_artist_sort(None, "Arufa");
    assert!(h.romanized_confirm.is_some());

    h.on_key(ch_key('n'));

    assert!(h.romanized_confirm.is_none());
    assert!(matches!(h.effects.last(), Some(Effect::Nothing)));
    assert_eq!(h.library.len(), songs_before, "declining must not change how many songs exist");
}

#[test]
fn accepting_the_romanized_artist_prompt_applies_it_and_closes_the_modal() {
    let mut h = harness();
    h.on_key(ch_key('g'));
    let songs_before = h.library.len();

    h.save_with_artist_sort(None, "Arufa");
    assert!(h.romanized_confirm.is_some());

    h.on_key(ch_key('y'));
    h.apply_romanized();

    assert!(h.romanized_confirm.is_none());
    assert_eq!(h.library.len(), songs_before, "applying must not add or remove songs, only re-tag them");
    assert_eq!(h.status.text, "applied romanized artist to 1 other song");
}

#[test]
fn the_romanized_question_names_the_value_the_count_and_the_artist() {
    let confirm = RomanizedArtistConfirmModal {
        artist_display: "Alpha".to_string(),
        artist_sort_key: "alpha".to_string(),
        value: "Arufa".to_string(),
        reference_song: SongId(1),
        count: 2,
    };
    let (first, second) = romanized_question(&confirm);
    assert_eq!(first, "Apply \"Arufa\" as the romanized artist");
    assert_eq!(second, "to 2 other songs by Alpha?");
    let one = RomanizedArtistConfirmModal { count: 1, ..confirm };
    assert_eq!(romanized_question(&one).1, "to 1 other song by Alpha?");
}

#[test]
fn an_artists_other_songs_are_found_by_how_the_artist_sorts() {
    let h = harness();
    let alpha: Vec<SongId> = h
        .library
        .songs_by_path()
        .into_iter()
        .filter(|s| s.artist() == "Alpha")
        .map(|s| s.id())
        .collect();
    assert_eq!(alpha.len(), 2);
    assert_eq!(h.library.matching_artist("alpha", alpha[0]), vec![alpha[1]]);
    assert_eq!(h.library.count_matching_artist("alpha", alpha[0]), 1);
    assert_eq!(h.library.count_matching_artist("Alpha", alpha[0]), 0, "the key is the lowercased artist");
}

#[test]
fn metadata_modal_saving_a_non_numeric_track_keeps_the_modal_open_with_an_error() {
    let mut h = harness();
    h.on_key(ch_key('g'));
    let Some(Row::Song(old_id, _)) = h.selected_row() else { panic!("expected a song row") };

    h.on_key(code_key(KeyCode::Char('E')));
    let edits = &h.metadata_modal.as_ref().unwrap().edits;
    let tabs = MetadataField::visible(edits).iter().position(|&f| f == MetadataField::Track).unwrap();
    for _ in 0..tabs {
        h.on_key(code_key(KeyCode::Tab));
    }
    for c in "not-a-number".chars() {
        h.on_key(ch_key(c));
    }
    h.on_key(code_key(KeyCode::Enter));
    h.save_edits();

    let modal = h.metadata_modal.as_ref().expect("a failed save must keep the modal open");
    assert!(modal.error.is_some());
    assert_eq!(modal.song, old_id, "the failed edit must be preserved so the user can fix it");
    assert!(h.library.contains(old_id), "the library must be untouched by a failed write");
}

#[test]
fn metadata_modal_save_carries_the_now_playing_song_to_its_new_id() {
    let mut h = harness();
    h.on_key(ch_key('g'));
    let Some(Row::Song(old_id, _)) = h.selected_row() else { panic!("expected a song row") };

    h.on_key(code_key(KeyCode::Enter));
    assert_eq!(h.queue.current_id(), Some(old_id), "sanity check: the song is now playing");

    h.on_key(code_key(KeyCode::Char('E')));
    for _ in 0..32 {
        h.on_key(code_key(KeyCode::Backspace));
    }
    for c in "Retitled".chars() {
        h.on_key(ch_key(c));
    }
    h.on_key(code_key(KeyCode::Enter));
    h.save_edits();

    let new_id = h.library.songs_by_path().into_iter().find(|s| s.title() == "Retitled").unwrap().id();
    assert_eq!(
        h.queue.current_id(),
        Some(new_id),
        "the currently-playing song must follow the id change, not silently stop tracking it"
    );
}

#[test]
fn enter_plays_the_selected_song() {
    let mut h = harness();
    h.on_key(ch_key('g'));
    let selected = h.selected_row();
    let Some(Row::Song(id, _)) = selected else { panic!("expected a song row") };

    h.on_key(code_key(KeyCode::Enter));

    assert_eq!(h.queue.current_id(), Some(id));
}

#[test]
fn a_track_number_is_digits_that_fit() {
    assert_eq!(parse_track("  "), Ok(None));
    assert_eq!(parse_track(" 7 "), Ok(Some(7)));
    assert_eq!(parse_track("4294967295"), Ok(Some(u32::MAX)));
    assert_eq!(parse_track("4294967296"), Err("track must be a number: 4294967296".to_string()));
    assert_eq!(parse_track("1a"), Err("track must be a number: 1a".to_string()));
    assert_eq!(parse_track("+3"), Err("track must be a number: +3".to_string()));
}

#[test]
fn without_the_youtube_feature_submitting_a_url_fails_gracefully_instead_of_hanging() {
    let mut h = harness();
    h.on_key(ch_key('y'));
    for c in "https://example.com/watch?v=x".chars() {
        h.on_key(ch_key(c));
    }
    h.on_key(code_key(KeyCode::Enter));

    // A build without YouTube support answers the fetch at once with a failure.
    let Some(Effect::Youtube(YoutubeEffect::SpawnFetch(url))) = h.effects.pop() else {
        panic!("the stub must report an event, not silently do nothing")
    };
    assert_eq!(url, "https://example.com/watch?v=x");
    h.app.youtube_event(DownloadEvent::Failed("YouTube support was not built into this binary".to_string()));

    match h.youtube.as_ref().expect("a failure must not silently close the modal") {
        YoutubeModal::EnteringUrl { url_input, error, .. } => {
            assert_eq!(url_input, "https://example.com/watch?v=x");
            assert_eq!(error.as_deref(), Some("YouTube support was not built into this binary"));
        }
        _ => panic!("a failure must bounce the user back to the URL screen"),
    }
}

#[test]
fn the_player_starts_on_the_library_with_its_first_song_selected() {
    let h = harness();
    assert_eq!(h.panel, Panel::Library);
    assert_eq!(h.library_panel.list_state.selected, Some(0));
    assert_eq!(h.playlist_panel.view, PlaylistView::Browsing);
    assert_eq!(h.dir.dir_input, "/music");
    assert_eq!(h.status.text, "loaded 6 song(s) from /music");
    assert_eq!(h.status.kind, StatusKind::Success);
    assert!(h.queue.current_id().is_none() && h.pending_number.is_empty());
    assert_eq!(h.queue.ordered_ids(), h.library.ids_by_path());
    let empty = lyre::app_state::AppState::new(Library::empty("/none".to_string()), PlaylistStore::empty(), 5);
    assert_eq!(empty.library_panel.list_state.selected, None);
    assert_eq!(empty.status.set_at_nanos, 5);
}

#[test]
fn the_scan_cache_names_files_relative_to_the_root() {
    assert_eq!(lyre::library::relative_path("/music/Alpha/0-Anchor.wav", "/music"), "Alpha/0-Anchor.wav");
    assert_eq!(lyre::library::relative_path("/other/x.wav", "/music"), "/other/x.wav");
}
