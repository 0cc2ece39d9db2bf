use lyre::library::{assemble_scan, InsertOutcome, Library, Outcome, ProbeResult};
use lyre::playlist::{Playlist, PlaylistStore};
use lyre::scan_cache::{Entry, Probed, ScanCache};
use lyre::song::{is_supported_audio, Metadata, Song, SongId};

fn tags(title: &str, artist: &str, album: &str) -> Metadata {
    let mut m = Metadata::empty();
    if !title.is_empty() {
        m.title = Some(title.to_string());
    }
    if !artist.is_empty() {
        m.artist = Some(artist.to_string());
    }
    if !album.is_empty() {
        m.album = Some(album.to_string());
    }
    m
}

fn song(path: &str, title: &str, artist: &str, album: &str) -> Song {
    Song::from_cached_with_stat(path.to_string(), 100, 1_700_000_000, tags(title, artist, album))
}

fn scanned(files: &[(&str, &str)]) -> Library {
    let paths: Vec<String> = files.iter().map(|(p, _)| p.to_string()).collect();
    let found: Vec<(String, Outcome)> = paths
        .into_iter()
        .map(|p| {
            let title = files.iter().find(|(q, _)| *q == p).unwrap().1;
            let outcome = Outcome {
                size: 10,
                mtime: 20,
                result: ProbeResult::Tags { metadata: tags(title, "Artist", "Album"), freshly_probed: true },
            };
            (p, outcome)
        })
        .collect();
    let (library, _, _, _) = assemble_scan("/music".to_string(), found, 0, 0, 0);
    library
}

#[test]
fn is_supported_audio_accepts_known_extensions_case_insensitively() {
    for name in ["track.mp3", "track.MP3", "track.Flac", "track.OGG", "track.wav", "track.opus"] {
        assert!(is_supported_audio(name), "{name} should be recognised as audio");
    }
}

#[test]
fn is_supported_audio_rejects_non_audio_and_malformed_names() {
    for name in ["cover.jpg", "readme.txt", "playlist.m3u", "no_extension", "track.mp3.bak", "."] {
        assert!(!is_supported_audio(name), "{name} should not be recognised as audio");
    }
}

#[test]
fn library_get_and_contains_agree_with_each_other() {
    let library = scanned(&[("/music/one.wav", "One")]);

    let id = library.ids_by_path()[0];
    assert!(library.contains(id));
    assert!(library.get(id).is_some());

    let bogus = SongId::compute("/nowhere", 0, 0);
    assert!(!library.contains(bogus));
    assert!(library.get(bogus).is_none());
}

#[test]
fn library_ids_by_path_are_sorted_by_file_path() {
    let library = scanned(&[("/music/z.wav", "Z Song"), ("/music/a.wav", "A Song"), ("/music/m.wav", "M Song")]);

    let titles: Vec<&str> = library.songs_by_path().iter().map(|s| s.title()).collect();
    assert_eq!(titles, vec!["A Song", "M Song", "Z Song"]);
}

#[test]
fn scan_cache_get_fresh_rejects_a_stale_fingerprint() {
    let mut cache = ScanCache::new();
    cache.insert("song.mp3".to_string(), Entry { size: 100, mtime: 200, probed: Probed::Unreadable });

    assert!(cache.get_fresh("song.mp3", 999, 200).is_none());
    assert!(cache.get_fresh("song.mp3", 100, 999).is_none());
    assert!(cache.get_fresh("song.mp3", 100, 200).is_some());
}

#[test]
fn playlist_store_create_rename_and_delete_round_trip() {
    let mut store = PlaylistStore::empty();

    let id = store.create("Road Trip".to_string());
    assert_eq!(store.get(id).unwrap().name(), "Road Trip");

    assert!(store.rename(id, "Summer Trip".to_string()));
    assert_eq!(store.get(id).unwrap().name(), "Summer Trip");

    assert!(store.delete(id));
    assert!(store.get(id).is_none());
}

#[test]
fn playlist_store_prunes_songs_that_are_no_longer_in_the_library() {
    let missing_song = SongId::compute("missing.mp3", 1, 1);
    let mut saved = PlaylistStore::empty();
    let id = saved.create("Mix".to_string());
    saved.add_song(id, missing_song);
    let loaded: Vec<Playlist> = vec![saved.get(id).unwrap().clone_playlist()];

    let (store, stats) = PlaylistStore::from_loaded(loaded, &[]);

    assert_eq!(stats.songs_removed, 1);
    let id = store.ids_sorted_by_name()[0];
    assert!(store.get(id).unwrap().is_empty());
}

#[test]
fn playlist_store_add_song_is_idempotent() {
    let mut store = PlaylistStore::empty();
    let id = store.create("Mix".to_string());
    let song = SongId::compute("song.mp3", 1, 1);

    assert!(store.add_song(id, song));
    assert!(!store.add_song(id, song), "adding the same song twice should be a no-op");
    assert_eq!(store.get(id).unwrap().len(), 1);
}

#[test]
fn playlist_store_remove_song_updates_membership() {
    let mut store = PlaylistStore::empty();
    let id = store.create("Mix".to_string());
    let song = SongId::compute("song.mp3", 1, 1);
    store.add_song(id, song);

    assert!(store.contains(id, song));
    assert!(store.remove_song(id, song));
    assert!(!store.contains(id, song));
    assert!(store.containing(song).is_empty());
}

#[test]
fn playlist_store_containing_lists_every_playlist_holding_a_song() {
    let mut store = PlaylistStore::empty();
    let song = SongId::compute("song.mp3", 1, 1);

    let a = store.create("A".to_string());
    let b = store.create("B".to_string());
    store.add_song(a, song);
    store.add_song(b, song);

    let membership = store.containing(song);
    assert_eq!(membership.len(), 2);
    assert!(membership.contains(&a));
    assert!(membership.contains(&b));
}

#[test]
fn playlist_store_ids_sorted_by_name_are_case_insensitive() {
    let mut store = PlaylistStore::empty();
    store.create("banana".to_string());
    store.create("Apple".to_string());
    store.create("cherry".to_string());

    let names: Vec<&str> = store.ids_sorted_by_name().iter().map(|&id| store.get(id).unwrap().name()).collect();
    assert_eq!(names, vec!["Apple", "banana", "cherry"]);
}

#[test]
fn playlist_store_revision_advances_on_mutation_but_not_on_reads() {
    let mut store = PlaylistStore::empty();
    let before = store.revision();

    let id = store.create("Mix".to_string());
    assert!(store.revision() > before);

    let after_create = store.revision();
    let _ = store.get(id);
    let _ = store.ids_sorted_by_name();
    assert_eq!(store.revision(), after_create, "read-only calls must not bump the revision");
}

#[test]
fn song_falls_back_to_the_file_stem_when_no_title_tag_is_present() {
    let song = song("/tmp/x/untitled_track.wav", "", "", "");

    assert_eq!(song.title(), "untitled_track");
    assert_eq!(song.artist(), "Unknown Artist");
    assert_eq!(song.album(), "Unknown Album");
}

#[test]
fn song_sort_keys_are_lowercase() {
    let song = song("/tmp/x/song.wav", "Song Title", "Song Artist", "Song Album");

    assert_eq!(song.sort_title(), "song title");
    assert_eq!(song.sort_artist(), "song artist");
}

#[test]
fn song_fuzzy_term_score_requires_every_term_to_match() {
    let song = song("/tmp/x/song.wav", "Neon Skyline", "Static Prairie", "Wide Fields");

    assert!(song.fuzzy_score(&["neon"]).is_some());
    assert!(song.fuzzy_score(&["neon", "prairie"]).is_some());
    assert!(song.fuzzy_score(&["neon", "zzz"]).is_none(), "a term that matches nothing should fail the whole query");
}

#[test]
fn song_fuzzy_term_score_expects_an_already_lowercased_term() {
    let song = song("/tmp/x/song.wav", "Neon Skyline", "Artist", "Album");

    assert!(song.fuzzy_score(&["neon"]).is_some(), "callers are expected to lowercase the query before matching");
}

#[test]
fn song_fuzzy_term_score_rewards_a_match_at_a_word_boundary() {
    let boundary_song = song("/tmp/x/boundary.wav", "Blue Sky", "Artist", "Album");
    let midword_song = song("/tmp/x/midword.wav", "Ruby Sky", "Artist", "Album");

    let boundary_score = boundary_song.fuzzy_term_score("b").unwrap();
    let midword_score = midword_song.fuzzy_term_score("b").unwrap();

    assert!(boundary_score > midword_score, "a match at a word boundary should score higher than mid-word");
}

#[test]
fn song_fuzzy_term_score_of_an_empty_term_matches_everything_with_zero_score() {
    let song = song("/tmp/x/song.wav", "Anything", "Artist", "Album");

    assert_eq!(song.fuzzy_term_score(""), Some(0));
}

#[test]
fn library_insert_reports_a_collision_and_keeps_the_first_song() {
    let mut library = Library::empty("/music".to_string());
    let first = song("/music/a.wav", "A", "Artist", "Album");
    let id = first.id();
    assert_eq!(library.insert(first), InsertOutcome::Inserted(id));
    let twin = song("/music/a.wav", "Other", "Artist", "Album");
    assert_eq!(library.insert(twin), InsertOutcome::Collision { existing: id });
    assert_eq!(library.len(), 1);
    assert_eq!(library.get(id).unwrap().title(), "A");
}

#[test]
fn the_scan_cache_compares_paths_as_paths() {
    let mut cache = ScanCache::new();
    cache.insert("Alpha//0-Anchor.wav".to_string(), Entry { size: 10, mtime: 20, probed: Probed::Unreadable });
    assert!(cache.get("Alpha/0-Anchor.wav").is_some(), "a doubled separator names the same file");
    assert!(cache.get_fresh("Alpha/./0-Anchor.wav", 10, 20).is_some());
    cache.insert("Alpha/0-Anchor.wav".to_string(), Entry { size: 11, mtime: 20, probed: Probed::Unreadable });
    assert_eq!(cache.len(), 1, "the same path is remembered once");
    assert_eq!(cache.get("Alpha//0-Anchor.wav").map(|e| e.size), Some(11));
    assert!(cache.get("Alpha/1-Azure.wav").is_none());
}

#[test]
fn player_toggle_moves_between_playing_and_paused() {
    let mut player = lyre::player::PlayerCore::new();

    // The backend started the song.
    player.after_play(true);
    assert_eq!(player.state(), lyre::player::PlaybackState::Playing);

    let call = player.toggle_call();
    player.after_toggle(call, true);
    assert_eq!(player.state(), lyre::player::PlaybackState::Paused);

    let call = player.toggle_call();
    player.after_toggle(call, true);
    assert_eq!(player.state(), lyre::player::PlaybackState::Playing);
}

#[test]
fn player_stop_returns_to_idle_and_is_a_no_op_when_already_idle() {
    let mut player = lyre::player::PlayerCore::new();
    assert_eq!(player.state(), lyre::player::PlaybackState::Idle);

    assert_eq!(player.stop_call(), lyre::player::BackendCall::Nothing, "stopping an idle player asks nothing");
    player.after_stop();
    assert_eq!(player.state(), lyre::player::PlaybackState::Idle);
}

#[test]
fn a_scan_keeps_its_songs_in_path_order_and_remembers_them() {
    let root = "/music".to_string();
    let files = vec!["/music/z.wav".to_string(), "/music/a.wav".to_string(), "/music/m.wav".to_string()];
    let found: Vec<(String, Outcome)> = files
        .iter()
        .map(|p| {
            let title = format!("{} Song", p[7..8].to_uppercase());
            (p.clone(), Outcome { size: 1, mtime: 2, result: ProbeResult::Tags { metadata: tags(&title, "", ""), freshly_probed: true } })
        })
        .collect();
    let (library, stats, cache, changed) = assemble_scan(root.clone(), found, 0, 0, 0);
    let titles: Vec<String> = library.songs_by_path().iter().map(|s| s.title().to_string()).collect();
    assert_eq!(titles, vec!["A Song", "M Song", "Z Song"]);
    assert_eq!((stats.reprobed, stats.cache_hits), (3, 0));
    assert!(changed);

    // The second pass over the unchanged files is answered by the cache.
    let again: Vec<(String, Outcome)> = files
        .iter()
        .map(|p| {
            let rel = lyre::library::relative_path(p, &root);
            let result = lyre::library::cached_probe(&cache, &rel, 1, 2).expect("an unchanged file is remembered");
            (p.clone(), Outcome { size: 1, mtime: 2, result })
        })
        .collect();
    let (second, stats2, _, changed2) = assemble_scan(root, again, cache.len(), 0, 0);
    assert_eq!((stats2.reprobed, stats2.cache_hits), (0, 3));
    assert!(!changed2);
    assert_eq!(second.len(), 3);
}
