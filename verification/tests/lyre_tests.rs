use lyre::app_name::{cache_file_name, kebab_case, playlists_file_name, snake_case};
use lyre::config::{playlists_path, scan_cache_file_name, scan_cache_path, view_state_from, youtube_binaries_dir, Settings, ViewState};
use lyre::keymap::{display_for, help_rows, Action, Section};
use lyre::library::{assemble_scan, cached_probe, Library, Outcome, ProbeResult, ScanStats};
use lyre::navigation::{
    compute_jump, keep_header_in_view, nearest_selectable, nearest_song_row, selectable_rows, song_count, viewport,
    wrap_step, wrapping_selectable_index, ListState, Row,
};
use lyre::player::{file_uri, BackendCall, BackendEvent, PlaybackState, PlayerCore, PlayerEvent};
use lyre::playlist::PlaylistStore;
use lyre::rows::{build_rows, label_for, panel_rows, playlist_suffix};
use lyre::scan_cache::{Entry, Probed, ScanCache};
use lyre::song::{Metadata, MetadataEdits, Song, SongId};
use lyre::state::{cycle, heading_selected_message, is_filtering, Category, PlaylistDisplayMode, Sort, StatusKind, StatusMessage};
use lyre::keymap::Direction;
use lyre::style::{format_duration, format_mtime, marquee_scrolls, marquee_window_at, plural, sort_title_parts};
use lyre::text::{decimal, hex16, padded, search_terms, split_words, trim};
use lyre::youtube::{capitalize_and_strip, generate_file_name, generate_name_chunk, video_info_from_page, DownloadError};
use lyre::youtube_modal::{check_file_name, on_key, start_or_await_download, YoutubeEffect, YoutubeField, YoutubeModal};
use lyre::keymap::{KeyCode, KeyPress, Modifiers};

fn song_at(path: &str, title: &str, artist: &str) -> Song {
    let mut m = Metadata::empty();
    m.title = Some(title.to_string());
    m.artist = Some(artist.to_string());
    Song::from_cached_with_stat(path.to_string(), 1, 2, m)
}

#[test]
fn wrapping_move_skips_headings_and_wraps() {
    let id = SongId(7);
    let rows = vec![Row::Header("A".to_string()), Row::Song(id, 0), Row::Header("B".to_string()), Row::Song(id, 0)];
    let mask = selectable_rows(&rows);
    assert_eq!(mask, vec![false, true, false, true]);
    assert_eq!(wrapping_selectable_index(1, 1, 4, &mask), 3);
    assert_eq!(wrapping_selectable_index(3, 1, 4, &mask), 1);
    assert_eq!(wrapping_selectable_index(1, -1, 4, &mask), 3);
    assert_eq!(wrapping_selectable_index(0, 1, 1, &[false]), 0, "with nothing selectable the move comes back");
}

#[test]
fn wrap_step_is_euclidean() {
    assert_eq!(wrap_step(0, -1, 5), 4);
    assert_eq!(wrap_step(4, 1, 5), 0);
    assert_eq!(wrap_step(2, -7, 5), 0);
    assert_eq!(wrap_step(2, 13, 5), 0);
}

#[test]
fn page_jumps_scroll_by_a_page_and_land_mid_page() {
    let all = vec![true; 30];
    assert_eq!(compute_jump(0, 30, 10, Direction::Forwards, &all), (9, 14));
    assert_eq!(compute_jump(25, 30, 10, Direction::Forwards, &all), (29, 29));
    assert_eq!(compute_jump(29, 30, 10, Direction::Forwards, &all), (20, 29));
    assert_eq!(compute_jump(15, 30, 10, Direction::Backwards, &all), (6, 11));
    assert_eq!(compute_jump(0, 30, 10, Direction::Backwards, &all), (0, 0));
    let mut some = vec![false; 30];
    some[3] = true;
    assert_eq!(compute_jump(0, 30, 10, Direction::Forwards, &some), (9, 3));
    assert_eq!(nearest_selectable(10, 30, &some), Some(3));
}

#[test]
fn viewport_keeps_the_selection_on_screen() {
    let mut state = ListState { offset: 0, selected: Some(25) };
    let v = viewport(&mut state, 30, 10);
    assert_eq!((v.start, v.end, v.selected), (16, 26, Some(9)));
    assert_eq!(state.offset, 16);

    let mut state = ListState { offset: 20, selected: Some(3) };
    let v = viewport(&mut state, 30, 10);
    assert_eq!((v.start, v.end, v.selected), (3, 13, Some(0)));

    let mut state = ListState { offset: 50, selected: None };
    let v = viewport(&mut state, 30, 10);
    assert_eq!((v.start, v.end, v.selected), (20, 30, None));

    let mut state = ListState { offset: 4, selected: Some(2) };
    let v = viewport(&mut state, 0, 10);
    assert_eq!((v.start, v.end, v.selected), (0, 0, None));
}

#[test]
fn heading_above_the_selection_is_scrolled_into_view() {
    let id = SongId(1);
    let rows = vec![Row::Header("A".to_string()), Row::Song(id, 0), Row::Song(id, 0)];
    let mut state = ListState { offset: 1, selected: Some(1) };
    keep_header_in_view(&mut state, &rows);
    assert_eq!(state.offset, 0);
    let mut state = ListState { offset: 1, selected: Some(2) };
    keep_header_in_view(&mut state, &rows);
    assert_eq!(state.offset, 1);
}

#[test]
fn song_rows_are_counted_and_found() {
    let id = SongId(1);
    let rows = vec![Row::Header("A".to_string()), Row::Song(id, 0), Row::Header("B".to_string()), Row::Song(id, 1)];
    assert_eq!(song_count(&rows), 2);
    assert_eq!(nearest_song_row(&rows, 2), 3);
    assert_eq!(nearest_song_row(&rows, 0), 1);
    let tail = vec![Row::Song(id, 0), Row::Header("B".to_string())];
    assert_eq!(nearest_song_row(&tail, 1), 0, "past the last song the search wraps to the first");
}

#[test]
fn cycles_undo_each_other() {
    for c in [Category::Flat, Category::Artist, Category::Path] {
        assert_eq!(c.next().prev(), c);
        assert_eq!(c.prev().next(), c);
    }
    for s in [Sort::Title, Sort::Duration, Sort::Artist, Sort::Path, Sort::DateModified] {
        assert_eq!(s.next().prev(), s);
    }
    assert_eq!(Sort::DateModified.next(), Sort::Title);
    assert_eq!(Category::Flat.label(), "none");
    assert_eq!(Sort::DateModified.label(), "date modified");
    let m = PlaylistDisplayMode::Hidden;
    assert_eq!(m.cycle(), PlaylistDisplayMode::Count);
    assert_eq!(m.cycle().cycle().cycle(), m);
    assert_eq!(PlaylistDisplayMode::Expanded.label(), "names");
    assert_eq!(cycle(&[Sort::Title, Sort::Path], Sort::Artist, 1), Sort::Path, "a missing value counts as first");
}

#[test]
fn only_a_query_with_a_visible_character_filters() {
    assert!(!is_filtering(""));
    assert!(!is_filtering("  \t "));
    assert!(is_filtering(" a "));
}

#[test]
fn status_messages_expire_after_four_seconds_unless_they_are_errors() {
    let mut info = StatusMessage::new("hello".to_string(), StatusKind::Info, 1_000);
    assert!(!info.expire_if_stale(4_000_001_000));
    assert!(info.expire_if_stale(4_000_001_001));
    assert_eq!(info.text, "");
    let mut error = StatusMessage::new("bad".to_string(), StatusKind::Error, 0);
    assert!(!error.expire_if_stale(10_000_000_000));
    assert_eq!(heading_selected_message("Alpha"), "\"Alpha\" is a heading -- select a song under it");
}

#[test]
fn help_rows_join_keys_that_share_a_description() {
    let rows = help_rows(Section::Global);
    assert_eq!(rows[0], ("<Tab>".to_string(), "Switch between Library / Playlists"));
    assert_eq!(rows[1], ("<j>/<↓> / <k>/<↑>".to_string(), "Move selection"));
    assert!(rows.iter().any(|r| r.0 == "<Ctrl+d> / <Ctrl+u>"));
    let playlists = help_rows(Section::Playlists);
    assert_eq!(playlists.last().unwrap().0, "<r>");
    assert_eq!(display_for(Action::Quit), "<q>");
    assert_eq!(display_for(Action::OpenSongModal), "<Shift+A>");
}

#[test]
fn formats_are_zero_padded() {
    assert_eq!(format_duration(125_000_000_000), "02:05");
    assert_eq!(format_duration(7_200_999_999_999), "120:00");
    assert_eq!(format_duration(0), "00:00");
    assert_eq!(format_mtime(0), "unknown");
    assert_eq!(format_mtime(1), "1970-01-01");
    assert_eq!(format_mtime(1_700_000_000), "2023-11-14");
    assert_eq!(format_mtime(951_782_400), "2000-02-29");
    assert_eq!(plural(1, "es"), "");
    assert_eq!(plural(2, "es"), "es");
    assert_eq!(decimal(0), "0");
    assert_eq!(decimal(1234567), "1234567");
    assert_eq!(padded(7, 3), "007");
    assert_eq!(padded(12345, 2), "12345");
    assert_eq!(hex16(255), "00000000000000ff");
}

#[test]
fn marquee_rests_then_scrolls() {
    assert_eq!(marquee_window_at("Hello World", 6, 0), "Hello…");
    assert_eq!(marquee_window_at("Hello World", 6, 4500 + 150), "ello W");
    assert_eq!(marquee_window_at("Hello World", 6, 4500 + 150 * 9), "ld    ");
    assert_eq!(marquee_window_at("Short", 6, 12345), "Short");
}

#[test]
fn sort_title_is_padded_to_a_fixed_width() {
    let (text, fill) = sort_title_parts("none", "title");
    assert_eq!(text, " <o> group: none  <p> sort: title ");
    let (text2, fill2) = sort_title_parts("artist", "date modified");
    assert_eq!(
        lyre::style::display_width(&text) + fill.chars().count(),
        lyre::style::display_width(&text2) + fill2.chars().count()
    );
}

#[test]
fn file_names_are_built_from_capitalized_words() {
    assert_eq!(generate_file_name("Kate Bush", "Running Up That Hill"), "KateBush-RunningUpThatHill.mp3");
    assert_eq!(generate_name_chunk("a-b  c"), "ABC");
    assert_eq!(generate_name_chunk("rock'n'roll!"), "Rocknroll");
    assert_eq!(capitalize_and_strip("hello, world"), "Helloworld");
    assert_eq!(capitalize_and_strip(""), "");
    assert_eq!(generate_file_name("", ""), "-.mp3");
}

#[test]
fn text_helpers_split_and_trim() {
    assert_eq!(split_words("  neon   sky "), vec!["neon".to_string(), "sky".to_string()]);
    assert_eq!(search_terms("Neon SKY"), vec!["neon".to_string(), "sky".to_string()]);
    assert_eq!(trim("  a b  "), "a b");
    assert_eq!(trim("   "), "");
}

#[test]
fn names_derive_from_the_application_name() {
    assert_eq!(snake_case(), "lyre");
    assert_eq!(kebab_case(), "lyre");
    assert_eq!(cache_file_name(), ".lyre-cache.json");
    assert_eq!(playlists_file_name(), ".lyre-playlists.json");
}

#[test]
fn scan_cache_path_lives_under_the_cache_dir_not_the_library_root() {
    let path = scan_cache_path("/home/me/Music", "/home/me/Music", Some("/home/me/.cache/lyre"));
    assert!(path.starts_with("/home/me/.cache/lyre/"));
    assert!(path.ends_with(".json"));
    assert_eq!(scan_cache_path("/home/me/Music", "/home/me/Music", None), "/home/me/Music/.lyre-cache.json");
}

#[test]
fn scan_cache_path_is_stable_for_the_same_root() {
    assert_eq!(scan_cache_file_name("/home/me/Music"), scan_cache_file_name("/home/me/Music"));
    assert_eq!(scan_cache_file_name("/home/me/Music").len(), 16 + ".json".len());
}

#[test]
fn playlists_path_lives_under_the_data_dir() {
    let path = playlists_path("/home/me/Music", "/home/me/Music", Some("/home/me/.local/share/lyre"));
    assert!(path.starts_with("/home/me/.local/share/lyre/"));
    assert!(path.ends_with("-playlists.json"));
    assert_eq!(playlists_path("/home/me/Music", "/home/me/Music", None), "/home/me/Music/.lyre-playlists.json");
}

#[test]
fn playlists_path_is_stable_for_the_same_root_and_differs_across_roots() {
    let a = playlists_path("/music/a", "/music/a", Some("/data"));
    let b = playlists_path("/music/b", "/music/b", Some("/data"));
    assert_eq!(a, playlists_path("/music/a", "/music/a", Some("/data")));
    assert_ne!(a, b);
}

#[test]
fn without_a_cache_directory_the_files_sit_in_the_root_as_given() {
    assert_eq!(scan_cache_path("music", "/home/me/music", None), "music/.lyre-cache.json");
    assert_eq!(playlists_path("music", "/home/me/music", None), "music/.lyre-playlists.json");
    assert_eq!(
        scan_cache_path("music", "/home/me/music", Some("/c")),
        scan_cache_path("/home/me/music", "/home/me/music", Some("/c"))
    );
}

#[test]
fn saved_view_settings_fill_in_defaults() {
    let v = view_state_from(Some(Category::Artist), None, None, None, Some(Sort::Path));
    assert_eq!(v.library_category, Category::Artist);
    assert_eq!(v.library_sort, Sort::Title);
    assert_eq!(v.playlist_sort, Sort::Path);
    assert_eq!(ViewState::default().library_playlist_mode, PlaylistDisplayMode::Hidden);
}

#[test]
fn player_moves_between_states_as_the_backend_answers() {
    let mut p = PlayerCore::new();
    assert_eq!(p.state(), PlaybackState::Idle);
    assert_eq!(p.toggle_call(), BackendCall::Nothing);
    assert_eq!(p.stop_call(), BackendCall::Nothing);
    p.after_play(true);
    assert_eq!(p.state(), PlaybackState::Playing);
    assert_eq!(p.toggle_call(), BackendCall::Pause);
    p.after_toggle(BackendCall::Pause, true);
    assert_eq!(p.state(), PlaybackState::Paused);
    p.after_toggle(BackendCall::Resume, false);
    assert_eq!(p.state(), PlaybackState::Paused, "a failed call changes nothing");
    p.after_toggle(BackendCall::Resume, true);
    assert_eq!(p.state(), PlaybackState::Playing);
    let events = p.take_events(vec![BackendEvent::EndOfStream]);
    assert_eq!(events.len(), 5);
    assert!(matches!(events[3], PlayerEvent::StateChanged(PlaybackState::Idle)));
    assert!(matches!(events[4], PlayerEvent::SongEnded));
    assert_eq!(p.state(), PlaybackState::Idle);
    assert!(p.take_events(Vec::new()).is_empty());
    assert!(p.position_poll_due(1_000));
    assert!(!p.position_poll_due(1_000 + 99_999_999));
    assert!(p.position_poll_due(1_000 + 100_000_000));
}

#[test]
fn file_uris_percent_encode_unsafe_bytes() {
    assert_eq!(file_uri(b"/music/a b.mp3"), "file:///music/a%20b.mp3");
    assert_eq!(file_uri("/m/é~_-.x".as_bytes()), "file:///m/%C3%A9~_-.x");
}

#[test]
fn scan_assembly_counts_hits_reads_and_skips() {
    let mut meta = Metadata::empty();
    meta.title = Some("One".to_string());
    let files = vec![
        ("/music/a.wav".to_string(), Outcome { size: 1, mtime: 1, result: ProbeResult::Tags { metadata: meta.duplicate(), freshly_probed: true } }),
        ("/music/b.wav".to_string(), Outcome { size: 2, mtime: 2, result: ProbeResult::Tags { metadata: meta.duplicate(), freshly_probed: false } }),
        ("/music/c.wav".to_string(), Outcome { size: 0, mtime: 0, result: ProbeResult::Unstattable }),
        ("/music/d.wav".to_string(), Outcome { size: 3, mtime: 3, result: ProbeResult::Unreadable { freshly_probed: false } }),
    ];
    let (library, stats, cache, changed) = assemble_scan("/music".to_string(), files, 3, 1, 0);
    assert_eq!(library.len(), 2);
    assert_eq!(
        stats,
        ScanStats { cache_hits: 2, reprobed: 1, skipped_files: 2, unreadable_dirs: 1, files_considered: 4 }
    );
    assert_eq!(stats.skipped(), 3);
    assert_eq!(cache.len(), 3);
    assert!(changed);
    assert!(matches!(cache.get_fresh("d.wav", 3, 3), Some(Probed::Unreadable)));
    assert!(matches!(cached_probe(&cache, "a.wav", 1, 1), Some(ProbeResult::Tags { freshly_probed: false, .. })));
    assert!(cached_probe(&cache, "a.wav", 1, 9).is_none());

    let files = vec![("/music/c.wav".to_string(), Outcome { size: 0, mtime: 0, result: ProbeResult::Unstattable })];
    let (_, stats, _, _) = assemble_scan("/music".to_string(), files, 0, 0, 2);
    assert_eq!(stats.skipped_files, 3);
}

#[test]
fn replacing_a_song_keeps_its_place() {
    let mut library = Library::empty("/music".to_string());
    let a = song_at("/music/a.wav", "A", "X");
    let b = song_at("/music/b.wav", "B", "X");
    let a_id = a.id();
    library.insert(a);
    library.insert(b);
    let renamed = Song::from_cached_with_stat("/music/a.wav".to_string(), 5, 9, Metadata::empty());
    let new_id = renamed.id();
    assert!(matches!(library.replace_song(a_id, renamed), Ok(id) if id == new_id));
    assert_eq!(library.ids_by_path()[0], new_id);
    assert!(!library.contains(a_id));
    assert!(matches!(library.replace_song(SongId(12345), song_at("/x", "x", "y")), Err(_)));
}

#[test]
fn scan_cache_keeps_the_last_entry_for_a_path_and_orders_by_component() {
    let cache = ScanCache::from_entries(vec![
        ("b/x.mp3".to_string(), Entry { size: 1, mtime: 1, probed: Probed::Unreadable }),
        ("a-b/y.mp3".to_string(), Entry { size: 2, mtime: 2, probed: Probed::Unreadable }),
        ("a/z.mp3".to_string(), Entry { size: 3, mtime: 3, probed: Probed::Unreadable }),
        ("b/x.mp3".to_string(), Entry { size: 4, mtime: 4, probed: Probed::Unreadable }),
    ]);
    assert_eq!(cache.len(), 3);
    assert_eq!(cache.get("b/x.mp3").unwrap().size, 4);
    let order: Vec<&str> = cache.ordered_entries().iter().map(|e| e.0).collect();
    assert_eq!(order, vec!["a/z.mp3", "a-b/y.mp3", "b/x.mp3"], "paths compare component by component");
}

#[test]
fn playlist_browser_filters_names_case_insensitively() {
    let mut store = PlaylistStore::empty();
    let road = store.create("Road Trip".to_string());
    let _gym = store.create("Gym".to_string());
    assert_eq!(store.visible_ids("TRIP"), vec![road]);
    assert_eq!(store.visible_ids("").len(), 2);
}

#[test]
fn directory_rows_indent_nested_headings() {
    let songs = vec![
        song_at("/music/Alpha/Live/1.wav", "One", "Alpha"),
        song_at("/music/Alpha/2.wav", "Two", "Alpha"),
        song_at("/music/Beta/3.wav", "Three", "Beta"),
    ];
    let refs: Vec<&Song> = songs.iter().collect();
    let rows = build_rows(&refs, Category::Path, Sort::Title, "/music");
    let shown: Vec<String> = rows
        .iter()
        .map(|r| match r {
            Row::Header(h) => h.clone(),
            Row::Song(_, depth) => format!("song@{depth}"),
        })
        .collect();
    assert_eq!(shown, vec!["Alpha", "song@1", "  Live", "song@2", "Beta", "song@1"]);
}

#[test]
fn song_labels_show_the_detail_of_the_sort() {
    let mut m = Metadata::empty();
    m.title = Some("T".to_string());
    m.artist = Some("A".to_string());
    m.duration_nanos = 61_000_000_000;
    let song = Song::from_cached_with_stat("/m/t.wav".to_string(), 1, 1_700_000_000, m);
    let l = label_for(&song, Category::Artist, Sort::Duration);
    assert_eq!(l.title, "T");
    assert!(l.artist.is_none());
    assert_eq!(l.detail.as_deref(), Some("01:01"));
    let l = label_for(&song, Category::Flat, Sort::DateModified);
    assert_eq!(l.artist, Some("A"));
    assert_eq!(l.detail.as_deref(), Some("2023-11-14"));
    assert!(label_for(&song, Category::Flat, Sort::Title).detail.is_none());
    assert_eq!(song.label(), "A - T (Unknown Album)");
}

#[test]
fn playlist_suffix_counts_or_names_the_playlists() {
    let names = vec!["Mix".to_string(), "Gym".to_string()];
    assert_eq!(playlist_suffix(&names, PlaylistDisplayMode::Count, 10).as_deref(), Some("󰲹 2"));
    assert_eq!(playlist_suffix(&names, PlaylistDisplayMode::Expanded, 20).as_deref(), Some("Mix, Gym"));
    assert!(playlist_suffix(&names, PlaylistDisplayMode::Hidden, 20).is_none());
    assert!(playlist_suffix(&names, PlaylistDisplayMode::Expanded, 0).is_none());
    assert!(playlist_suffix(&[], PlaylistDisplayMode::Count, 10).is_none());
}

#[test]
fn the_download_dialog_waits_for_or_saves_the_download() {
    let fields = lyre::youtube_modal::start_youtube_fields("u".to_string(), None);
    let (modal, effect) = start_or_await_download(fields, "/music/x.mp3".to_string());
    assert!(matches!(modal, Some(YoutubeModal::Downloading { .. })));
    assert!(matches!(effect, YoutubeEffect::Nothing));
    assert_eq!(check_file_name("  ").as_deref(), Some("filename can't be empty"));
    assert!(check_file_name("a.mp3").is_none());

    let fields = lyre::youtube_modal::start_youtube_fields("u".to_string(), None);
    let collision = YoutubeModal::ResolvingCollision { fields, existing_path: "/music/x.mp3".to_string() };
    let (next, _) = on_key(collision, KeyPress { code: KeyCode::Char('r'), modifiers: Modifiers::none() });
    assert!(matches!(next, Some(YoutubeModal::EditingFields(f)) if f.focused == YoutubeField::FileName));

    let url = YoutubeModal::EnteringUrl { url_input: "  ".to_string(), error: None, restore: None };
    let (next, effect) = on_key(url, KeyPress { code: KeyCode::Enter, modifiers: Modifiers::none() });
    assert!(matches!(effect, YoutubeEffect::Nothing));
    assert!(matches!(next, Some(YoutubeModal::EnteringUrl { error: Some(e), .. }) if e == "enter a URL first"));

    let url = YoutubeModal::EnteringUrl { url_input: " https://x ".to_string(), error: None, restore: None };
    let (next, effect) = on_key(url, KeyPress { code: KeyCode::Enter, modifiers: Modifiers::none() });
    assert!(matches!(effect, YoutubeEffect::SpawnFetch(u) if u == "https://x"));
    assert!(matches!(next, Some(YoutubeModal::EditingFields(_))));
}

#[test]
fn metadata_edits_start_from_the_tags() {
    let mut m = Metadata::empty();
    m.title = Some("T".to_string());
    m.track = Some(7);
    let e = MetadataEdits::from_metadata(&m);
    assert_eq!(e.title, "T");
    assert_eq!(e.track, "7");
    assert_eq!(e.artist, "");
}

#[test]
fn a_title_scrolls_only_when_it_is_wider_than_its_window() {
    assert!(!marquee_scrolls("Beacon", 20));
    assert!(!marquee_scrolls("Beacon", 6));
    assert!(marquee_scrolls("Beacon", 5));
    assert!(!marquee_scrolls("Beacon", 0));
    assert!(marquee_scrolls("日本語", 5));
}

#[test]
fn every_sort_title_takes_the_same_columns() {
    for c in [Category::Flat, Category::Artist, Category::Path] {
        for s in [Sort::Title, Sort::Duration, Sort::Artist, Sort::Path, Sort::DateModified] {
            let (text, fill) = sort_title_parts(c.label(), s.label());
            assert_eq!(text.chars().count() + fill.chars().count(), 44);
        }
    }
}

#[test]
fn a_live_video_is_refused_and_any_other_is_described() {
    let r = video_info_from_page(Some(true), "Stream".to_string(), None, Some(10));
    assert!(matches!(&r, Err(DownloadError::Live)));
    if let Err(e) = r {
        assert_eq!(e.message(), "this video is a live stream and cannot be downloaded");
    }
    let r = video_info_from_page(Some(false), "Song".to_string(), Some("Band".to_string()), Some(215));
    let v = r.ok().expect("a recorded video is described");
    assert_eq!(v.title, "Song");
    assert_eq!(v.uploader.as_deref(), Some("Band"));
    assert_eq!(v.duration_secs, Some(215));
    let v = video_info_from_page(None, "Odd".to_string(), None, Some(-3)).ok().expect("not live");
    assert_eq!(v.duration_secs, None);
    assert_eq!(DownloadError::Downloader("no network".to_string()).message(), "no network");
}

#[test]
fn the_downloader_lives_in_the_cache_directory() {
    assert_eq!(youtube_binaries_dir(Some("/home/u/.cache/lyre")).as_deref(), Some("/home/u/.cache/lyre/yt-dlp"));
    assert_eq!(youtube_binaries_dir(None), None);
}

#[test]
fn saved_view_settings_read_back_and_keep_the_last_directory() {
    let mut s = Settings {
        last_dir: Some("/music".to_string()),
        library_category: None,
        library_sort: Some(Sort::Artist),
        library_playlist_mode: None,
        playlist_category: None,
        playlist_sort: None,
    };
    let before = s.view_state();
    assert_eq!(before.library_sort, Sort::Artist);
    assert_eq!(before.library_category, Category::Flat);
    let v = ViewState {
        library_category: Category::Path,
        library_sort: Sort::Duration,
        library_playlist_mode: PlaylistDisplayMode::Hidden,
        playlist_category: Category::Artist,
        playlist_sort: Sort::DateModified,
    };
    s.save_view_state(v);
    assert_eq!(s.view_state(), v);
    assert_eq!(s.last_dir.as_deref(), Some("/music"));
    s.save_last_dir("/other".to_string());
    assert_eq!(s.view_state(), v);
    assert_eq!(s.last_dir.as_deref(), Some("/other"));
}

#[test]
fn a_long_search_is_scored_like_any_other() {
    let s = song_at("/music/a.wav", "Neon Skyline", "Static Prairie");
    let songs = vec![&s];
    let long_query = "z".repeat(1_000_001);
    let rows = panel_rows(&songs, &long_query, Category::Flat, Sort::Title, "/music").expect("scoring fits");
    assert!(rows.is_empty());
    assert_eq!(s.checked_fuzzy_score(&["neon", "prairie"]), Some(s.fuzzy_score(&["neon", "prairie"])));
    assert_eq!(s.checked_fuzzy_score(&["neon", "zzz"]), Some(None));
}

#[test]
fn a_score_past_the_range_of_u32_is_refused() {
    let n = 2_200_000;
    let long = "a".repeat(n);
    let s = song_at("/music/a.wav", &long, "x");
    assert!(!s.term_fits_check(&long));
    assert_eq!(s.checked_fuzzy_score(&[long.as_str()]), None);
    let songs = vec![&s];
    assert!(panel_rows(&songs, &long, Category::Flat, Sort::Title, "/music").is_none());
    assert!(s.term_fits_check("a"));
}
