use lyre::keymap::{lookup, Action, KeyCode, KeyPress, Modifiers};
use lyre::navigation::Row;
use lyre::rows::{build_relevance_rows, build_rows, fuzzy_filter_and_sort};
use lyre::song::{needs_romanization, Metadata, MetadataEdits, Song};
use lyre::state::{Category, MetadataField, Sort};
use lyre::style::{display_width, marquee_window};
use lyre::text::search_terms;
use lyre::youtube_modal::{
    check_directory, on_event, on_key, start_youtube_fields, DownloadEvent, DownloadStatus, FetchStatus, YoutubeEffect,
    YoutubeField, YoutubeFieldsModal, YoutubeModal,
};

fn youtube_fields(url: &str, focused: YoutubeField) -> YoutubeFieldsModal {
    YoutubeFieldsModal {
        url: url.to_string(),
        title: String::new(),
        artist: String::new(),
        album: String::new(),
        title_sort: String::new(),
        artist_sort: String::new(),
        directory: String::new(),
        file_name: String::new(),
        file_name_overridden: false,
        focused,
        error: None,
        fetch_status: FetchStatus::Pending,
        download_status: DownloadStatus::Pending,
    }
}

fn key(c: char) -> KeyPress {
    KeyPress { code: KeyCode::Char(c), modifiers: Modifiers::none() }
}

fn special(code: KeyCode) -> KeyPress {
    KeyPress { code, modifiers: Modifiers::none() }
}

/// The six songs of the test library: three artists, two songs each, one
/// long (4000 samples at 8 kHz) and one short (400 samples).
fn library_songs() -> Vec<Song> {
    let mut songs = Vec::new();
    for (artist, tracks) in [
        ("Alpha", [("Anchor", 4000u128), ("Azure", 400u128)]),
        ("Beta", [("Beacon", 4000u128), ("Bright", 400u128)]),
        ("Gamma", [("Glimmer", 4000u128), ("Grove", 400u128)]),
    ] {
        for (i, (title, samples)) in tracks.iter().enumerate() {
            let mut m = Metadata::empty();
            m.title = Some(title.to_string());
            m.artist = Some(artist.to_string());
            m.duration_nanos = samples * 1_000_000_000 / 8000;
            let path = format!("/music/{artist}/{i}-{title}.wav");
            songs.push(Song::from_cached_with_stat(path, 100, 1_700_000_000, m));
        }
    }
    songs
}

fn rows_for(songs: &[Song], category: Category, sort: Sort, query: &str) -> Vec<Row> {
    let refs: Vec<&Song> = songs.iter().collect();
    let terms = search_terms(query);
    if terms.is_empty() {
        build_rows(&refs, category, sort, "/music")
    } else {
        let term_refs: Vec<&str> = terms.iter().map(|t| t.as_str()).collect();
        let found = fuzzy_filter_and_sort(&refs, &term_refs);
        build_relevance_rows(&found)
    }
}

fn song_titles(songs: &[Song], rows: &[Row]) -> Vec<String> {
    rows.iter()
        .filter_map(|r| match r {
            Row::Song(id, _) => Some(songs.iter().find(|s| s.id() == *id).unwrap().title().to_string()),
            Row::Header(_) => None,
        })
        .collect()
}

fn header_names(rows: &[Row]) -> Vec<String> {
    rows.iter()
        .filter_map(|r| match r {
            Row::Header(name) => Some(name.trim().to_string()),
            Row::Song(_, _) => None,
        })
        .collect()
}

#[test]
fn default_category_is_none_and_lists_every_song_with_no_headers() {
    let songs = library_songs();
    let rows = rows_for(&songs, Category::default(), Sort::default(), "");
    assert_eq!(header_names(&rows).len(), 0);
    assert_eq!(song_titles(&songs, &rows).len(), 6);
}

#[test]
fn default_sort_is_title_and_orders_songs_alphabetically() {
    let songs = library_songs();
    let rows = rows_for(&songs, Category::default(), Sort::default(), "");
    let titles = song_titles(&songs, &rows);
    let mut sorted = titles.clone();
    sorted.sort_by_key(|t| t.to_lowercase());
    assert_eq!(titles, sorted);
}

#[test]
fn category_artist_creates_one_header_per_artist() {
    let songs = library_songs();
    let rows = rows_for(&songs, Category::Artist, Sort::Title, "");
    assert_eq!(header_names(&rows), vec!["Alpha", "Beta", "Gamma"]);
}

#[test]
fn category_path_creates_one_header_per_directory() {
    let songs = library_songs();
    let rows = rows_for(&songs, Category::Path, Sort::Title, "");
    assert_eq!(header_names(&rows), vec!["Alpha", "Beta", "Gamma"]);
}

#[test]
fn category_and_sort_apply_independently() {
    let songs = library_songs();
    let rows: Vec<Option<String>> = rows_for(&songs, Category::Artist, Sort::Duration, "")
        .iter()
        .map(|r| match r {
            Row::Header(name) => Some(format!("#{}", name.trim())),
            Row::Song(id, _) => Some(songs.iter().find(|s| s.id() == *id).unwrap().title().to_string()),
        })
        .collect();

    assert_eq!(
        rows,
        vec![
            Some("#Alpha".into()),
            Some("Azure".into()),
            Some("Anchor".into()),
            Some("#Beta".into()),
            Some("Bright".into()),
            Some("Beacon".into()),
            Some("#Gamma".into()),
            Some("Grove".into()),
            Some("Glimmer".into()),
        ],
        "grouping must stay by artist while the shorter (lower duration) song leads within each group"
    );
}

#[test]
fn switching_category_back_to_none_removes_all_headers() {
    let songs = library_songs();
    assert!(!header_names(&rows_for(&songs, Category::Artist, Sort::Title, "")).is_empty());
    assert!(header_names(&rows_for(&songs, Category::Flat, Sort::Title, "")).is_empty());
}

#[test]
fn search_query_filters_rows_and_clearing_restores_them() {
    let songs = library_songs();
    assert_eq!(song_titles(&songs, &rows_for(&songs, Category::Flat, Sort::Title, "")).len(), 6);
    assert_eq!(song_titles(&songs, &rows_for(&songs, Category::Flat, Sort::Title, "azure")), vec!["Azure"]);
    assert_eq!(song_titles(&songs, &rows_for(&songs, Category::Flat, Sort::Title, "")).len(), 6);
}

#[test]
fn repeated_visible_rows_calls_are_stable_when_nothing_changed() {
    let songs = library_songs();
    let first = song_titles(&songs, &rows_for(&songs, Category::Flat, Sort::Title, ""));
    let second = song_titles(&songs, &rows_for(&songs, Category::Flat, Sort::Title, ""));
    assert_eq!(first, second);
}

#[test]
fn ctrl_d_pages_down_instead_of_changing_directory() {
    assert_eq!(
        lookup(KeyPress { code: KeyCode::Char('d'), modifiers: Modifiers::control() }),
        Some(Action::PageDown),
        "Ctrl+d must resolve to PageDown, not be shadowed by plain d's ChangeDirectory binding"
    );
    assert_eq!(lookup(KeyPress { code: KeyCode::Char('d'), modifiers: Modifiers::none() }), Some(Action::ChangeDirectory));
}

#[test]
fn ctrl_u_pages_up_instead_of_unshuffling() {
    assert_eq!(
        lookup(KeyPress { code: KeyCode::Char('u'), modifiers: Modifiers::control() }),
        Some(Action::PageUp),
        "Ctrl+u must resolve to PageUp, not be shadowed by plain u's Unshuffle binding"
    );
    assert_eq!(lookup(KeyPress { code: KeyCode::Char('u'), modifiers: Modifiers::none() }), Some(Action::Unshuffle));
}

#[test]
fn marquee_window_returns_short_ascii_text_unchanged() {
    assert_eq!(marquee_window("Beacon", 20), "Beacon");
}

#[test]
fn marquee_window_never_exceeds_the_visible_width_for_wide_characters() {
    for text in ["初音ミク", "こんにちは世界", "안녕하세요", "Beacon 灯台 Artist"] {
        for width in 1..12 {
            let windowed = marquee_window(text, width);
            assert!(
                display_width(&windowed) <= width,
                "marquee_window({text:?}, {width}) returned {windowed:?} with display width {}, exceeding the {width}-column budget",
                display_width(&windowed)
            );
        }
    }
}

#[test]
fn marquee_window_zero_width_returns_empty() {
    assert_eq!(marquee_window("Beacon", 0), "");
}

#[test]
fn youtube_modal_entering_url_accumulates_typed_characters_and_esc_cancels() {
    let mut modal = YoutubeModal::EnteringUrl { url_input: String::new(), error: None, restore: None };
    for c in ['h', 'i'] {
        let (next, _) = on_key(modal, key(c));
        modal = next.unwrap();
    }

    match &modal {
        YoutubeModal::EnteringUrl { url_input, .. } => assert_eq!(url_input, "hi"),
        _ => panic!("expected EnteringUrl"),
    }

    let (next, _) = on_key(modal, special(KeyCode::Esc));
    assert!(next.is_none());
}

#[test]
fn youtube_modal_rejects_a_directory_that_escapes_the_library_root() {
    let error = check_directory("../escape").unwrap_err();
    assert!(error.contains(".."));
}

#[test]
fn youtube_modal_auto_generates_the_file_name_from_title_and_artist_until_overridden() {
    let mut modal = YoutubeModal::EditingFields(youtube_fields("https://example.com/watch?v=x", YoutubeField::Title));
    for c in "Bush".chars() {
        modal = on_key(modal, key(c)).0.unwrap();
    }
    modal = on_key(modal, special(KeyCode::Tab)).0.unwrap();
    for c in "Kate".chars() {
        modal = on_key(modal, key(c)).0.unwrap();
    }

    match &modal {
        YoutubeModal::EditingFields(fields) => {
            assert_eq!(fields.file_name, "Kate-Bush.mp3");
            assert!(!fields.file_name_overridden);
        }
        _ => panic!("expected EditingFields"),
    }
}

#[test]
fn metadata_field_visible_hides_the_romanized_fields_by_default() {
    let edits = MetadataEdits::default();
    let visible = MetadataField::visible(&edits);

    assert!(!visible.contains(&MetadataField::TitleSort));
    assert!(!visible.contains(&MetadataField::ArtistSort));
}

#[test]
fn metadata_field_visible_shows_title_sort_only_when_the_title_needs_romanization() {
    let edits = MetadataEdits { title: "夜明け".to_string(), ..MetadataEdits::default() };
    let visible = MetadataField::visible(&edits);

    assert!(visible.contains(&MetadataField::TitleSort));
    assert!(!visible.contains(&MetadataField::ArtistSort));
}

#[test]
fn metadata_modal_typing_a_non_ascii_title_reveals_the_title_sort_field_in_the_tab_order() {
    let mut edits = MetadataEdits::default();
    for c in "夜明け".chars() {
        MetadataField::Title.value_mut(&mut edits).push(c);
    }
    let visible = MetadataField::visible(&edits);
    assert!(visible.contains(&MetadataField::TitleSort), "a non-ASCII title must reveal the romanized field");
    assert_eq!(MetadataField::Title.next(&edits), MetadataField::TitleSort);
}

#[test]
fn youtube_field_visible_hides_the_romanized_fields_by_default() {
    let fields = youtube_fields("https://example.com/watch?v=x", YoutubeField::Title);
    let visible = YoutubeField::visible(&fields);

    assert!(!visible.contains(&YoutubeField::TitleSort));
    assert!(!visible.contains(&YoutubeField::ArtistSort));
}

#[test]
fn youtube_modal_typing_a_non_ascii_artist_reveals_the_artist_sort_field_in_the_tab_order() {
    let mut modal = YoutubeModal::EditingFields(youtube_fields("https://example.com/watch?v=x", YoutubeField::Artist));
    for c in "夜明けバンド".chars() {
        modal = on_key(modal, key(c)).0.unwrap();
    }

    match &modal {
        YoutubeModal::EditingFields(fields) => {
            let visible = YoutubeField::visible(fields);
            assert!(visible.contains(&YoutubeField::ArtistSort), "a non-ASCII artist must reveal the romanized field");
        }
        _ => panic!("expected EditingFields"),
    }

    modal = on_key(modal, special(KeyCode::Tab)).0.unwrap();
    match &modal {
        YoutubeModal::EditingFields(fields) => assert_eq!(fields.focused, YoutubeField::ArtistSort),
        _ => panic!("expected EditingFields"),
    }
}

#[test]
fn start_youtube_fields_with_no_restore_defaults_the_directory_to_the_library_root() {
    let fields = start_youtube_fields("https://example.com/watch?v=x".to_string(), None);

    assert_eq!(fields.directory, "./");
    assert!(matches!(fields.fetch_status, FetchStatus::Pending));
    assert!(matches!(fields.download_status, DownloadStatus::Pending));
    assert_eq!(fields.focused, YoutubeField::Title);
}

#[test]
fn start_youtube_fields_with_a_restore_snapshot_keeps_everything_but_the_url_and_resets_status() {
    let mut previous = youtube_fields("https://old-url.example.com", YoutubeField::Album);
    previous.title = "Yoake".to_string();
    previous.artist = "Some Band".to_string();
    previous.directory = "custom/subdir".to_string();
    previous.error = Some("a stale error".to_string());

    let fields = start_youtube_fields("https://new-url.example.com".to_string(), Some(previous));

    assert_eq!(fields.url, "https://new-url.example.com");
    assert_eq!(fields.title, "Yoake");
    assert_eq!(fields.artist, "Some Band");
    assert_eq!(fields.directory, "custom/subdir", "a retried attempt must keep the user's edits");
    assert!(fields.error.is_none(), "the error from the previous attempt must be cleared");
    assert_eq!(fields.focused, YoutubeField::Title, "focus always resets to Title on retry");
    assert!(matches!(fields.fetch_status, FetchStatus::Pending));
    assert!(matches!(fields.download_status, DownloadStatus::Pending));
}

#[test]
fn a_download_failure_interrupts_the_user_and_preserves_their_fields_for_retry() {
    let mut fields = youtube_fields("https://example.com/watch?v=x", YoutubeField::Album);
    fields.title = "Yoake".to_string();
    fields.artist = "Some Band".to_string();
    fields.directory = "custom/subdir".to_string();
    let modal = Some(YoutubeModal::EditingFields(fields));

    let (next, _) = on_event(modal, DownloadEvent::Failed("network error".to_string()));

    match next.expect("a failure must not silently close the modal") {
        YoutubeModal::EnteringUrl { url_input, error, restore } => {
            assert_eq!(url_input, "https://example.com/watch?v=x");
            assert_eq!(error.as_deref(), Some("network error"));
            let restore = restore.expect("the typed fields must be preserved for a retry");
            assert_eq!(restore.title, "Yoake");
            assert_eq!(restore.artist, "Some Band");
            assert_eq!(restore.directory, "custom/subdir");
        }
        _ => panic!("a failure must bounce the user back to the URL screen"),
    }
}

#[test]
fn a_fetch_failure_while_still_downloading_also_interrupts_and_preserves_fields() {
    let fields = youtube_fields("https://example.com/watch?v=x", YoutubeField::Title);
    let modal = Some(YoutubeModal::Downloading {
        file_name: "song.mp3".to_string(),
        dest_path: "/music/song.mp3".to_string(),
        fields,
    });

    let (next, _) = on_event(modal, DownloadEvent::Failed("this video is a live stream".to_string()));

    match next.unwrap() {
        YoutubeModal::EnteringUrl { error, restore, .. } => {
            assert_eq!(error.as_deref(), Some("this video is a live stream"));
            assert!(restore.is_some());
        }
        _ => panic!("a failure while waiting on the download must also interrupt"),
    }
}

#[test]
fn closing_the_modal_after_a_failure_discards_the_saved_fields() {
    let modal = Some(YoutubeModal::EditingFields(youtube_fields("https://example.com/watch?v=x", YoutubeField::Title)));
    let (next, _) = on_event(modal, DownloadEvent::Failed("network error".to_string()));
    assert!(next.is_some());

    let (closed, _) = on_key(next.unwrap(), special(KeyCode::Esc));

    assert!(closed.is_none(), "exiting the whole modal must not keep anything around");
}

#[test]
fn a_download_finishing_while_still_editing_fields_is_remembered_without_leaving_the_screen() {
    let modal = Some(YoutubeModal::EditingFields(youtube_fields("https://example.com/watch?v=x", YoutubeField::Title)));
    let temp_path = "/tmp/lyre-test-download.mp3".to_string();

    let (next, effect) = on_event(modal, DownloadEvent::DownloadReady(temp_path.clone()));

    assert!(matches!(effect, YoutubeEffect::Nothing));
    match next.unwrap() {
        YoutubeModal::EditingFields(fields) => {
            assert!(
                matches!(&fields.download_status, DownloadStatus::Ready(p) if p == &temp_path),
                "the finished download must be recorded without forcing the user off the fields screen"
            );
        }
        _ => panic!("the user must stay on EditingFields while still typing"),
    }
}

#[test]
fn info_ready_while_editing_fields_updates_the_inline_status_without_touching_typed_fields() {
    let mut fields = youtube_fields("https://example.com/watch?v=x", YoutubeField::Title);
    fields.title = "user typed this".to_string();
    let modal = Some(YoutubeModal::EditingFields(fields));

    let (next, _) = on_event(
        modal,
        DownloadEvent::InfoReady { title: "Fetched Video Title".to_string(), uploader: Some("Some Uploader".to_string()) },
    );

    match next.unwrap() {
        YoutubeModal::EditingFields(fields) => {
            assert_eq!(fields.title, "user typed this", "fetched info must never overwrite what the user typed");
            match &fields.fetch_status {
                FetchStatus::Ready { title, uploader } => {
                    assert_eq!(title, "Fetched Video Title");
                    assert_eq!(uploader.as_deref(), Some("Some Uploader"));
                }
                FetchStatus::Pending => panic!("fetch status must update to Ready"),
            }
        }
        _ => panic!("expected EditingFields"),
    }
}

#[test]
fn needs_romanization_is_exactly_a_non_ascii_character() {
    assert!(!needs_romanization(""));
    assert!(!needs_romanization("Plain Title"));
    assert!(needs_romanization("夜明け"));
    assert!(needs_romanization("Café"));
}
