use lyre::queue::Queue;
use lyre::song::SongId;

fn ids(n: u64) -> Vec<SongId> {
    (0..n).map(|i| SongId::compute(&format!("{i}.mp3"), i, i)).collect()
}

#[test]
fn queue_next_walks_forward_and_wraps_to_the_start() {
    let ids = ids(3);
    let mut queue = Queue::new(ids.clone());

    assert_eq!(queue.next(), Some(ids[0]));
    assert_eq!(queue.next(), Some(ids[1]));
    assert_eq!(queue.next(), Some(ids[2]));
    assert_eq!(queue.next(), Some(ids[0]), "past the end must wrap to the start");
}

#[test]
fn queue_previous_walks_backward_and_wraps_to_the_end() {
    let ids = ids(3);
    let mut queue = Queue::new(ids.clone());

    assert_eq!(queue.previous(), Some(ids[2]), "previous with nothing playing must land on the last song");
    assert_eq!(queue.previous(), Some(ids[1]));
}

#[test]
fn queue_on_an_empty_queue_returns_nothing() {
    let mut queue = Queue::new(Vec::new());
    assert_eq!(queue.next(), None);
    assert_eq!(queue.previous(), None);
    assert_eq!(queue.current_id(), None);
}

#[test]
fn queue_play_id_jumps_to_a_specific_song() {
    let ids = ids(3);
    let mut queue = Queue::new(ids.clone());

    assert_eq!(queue.play_id(ids[2]), Some(ids[2]));
    assert_eq!(queue.current_id(), Some(ids[2]));
}

#[test]
fn queue_play_id_prefers_the_nearest_occurrence_after_the_cursor() {
    let a = SongId::compute("a.mp3", 1, 1);
    let b = SongId::compute("b.mp3", 2, 2);

    let mut queue = Queue::new(vec![a, b, a, b]);
    queue.play_at(1);

    queue.play_id(a);
    assert_eq!(queue.current_position(), Some(2), "should land on the closer occurrence of `a` at index 2");
}

#[test]
fn queue_play_upcoming_jumps_forward_by_n() {
    let ids = ids(5);
    let mut queue = Queue::new(ids.clone());

    assert_eq!(queue.play_upcoming(3), Some(ids[2]));
}

#[test]
fn queue_play_upcoming_zero_does_nothing() {
    let ids = ids(3);
    let mut queue = Queue::new(ids);

    assert_eq!(queue.play_upcoming(0), None);
    assert_eq!(queue.current_id(), None);
}

#[test]
fn queue_priority_songs_play_before_the_regular_queue() {
    let ids = ids(3);
    let priority = SongId::compute("priority.mp3", 9, 9);

    let mut queue = Queue::new(ids.clone());
    queue.queue_next(priority);

    assert_eq!(queue.next(), Some(priority));
    assert_eq!(queue.next(), Some(ids[0]), "after the priority song, playback resumes at the queue's start");
}

#[test]
fn queue_upcoming_lists_priority_songs_then_the_regular_queue() {
    let ids = ids(3);
    let priority = SongId::compute("priority.mp3", 9, 9);

    let mut queue = Queue::new(ids.clone());
    queue.play_at(0);
    queue.queue_next(priority);

    assert_eq!(queue.upcoming(3), vec![priority, ids[1], ids[2]]);
}

#[test]
fn queue_shuffle_preserves_the_currently_playing_song() {
    let ids = ids(20);
    let mut queue = Queue::new(ids.clone());
    queue.play_at(5);
    let current = queue.current_id();

    queue.shuffle();

    assert_eq!(queue.current_id(), current, "shuffling must not change which song is playing");
}

#[test]
fn queue_unshuffle_restores_original_order() {
    let ids = ids(5);
    let mut queue = Queue::new(ids.clone());

    queue.shuffle();
    queue.unshuffle();

    assert_eq!(queue.ordered_ids(), ids);
}

#[test]
fn queue_contains_reflects_membership() {
    let a = SongId::compute("a.mp3", 1, 1);
    let b = SongId::compute("b.mp3", 2, 2);
    let queue = Queue::new(vec![a]);

    assert!(queue.contains(a));
    assert!(!queue.contains(b));
}

#[test]
fn shuffling_keeps_the_same_songs_and_playback_position() {
    let ids = ids(12);
    let mut queue = Queue::new(ids.clone());
    queue.play_at(7);
    queue.shuffle();
    let mut shuffled = queue.ordered_ids();
    let at = queue.current_position().unwrap();
    assert_eq!(shuffled[at], ids[7], "the cursor follows the song playing");
    shuffled.sort_by_key(|id| ids.iter().position(|x| x == id));
    assert_eq!(shuffled, ids, "a shuffle only reorders");
    queue.unshuffle();
    assert_eq!(queue.current_position(), Some(7));
}

#[test]
fn upcoming_wraps_past_the_end_and_skips_the_song_playing() {
    let ids = ids(4);
    let mut queue = Queue::new(ids.clone());
    assert_eq!(queue.upcoming(2), vec![ids[0], ids[1]], "with nothing playing, the queue from its start");
    queue.play_at(2);
    assert_eq!(queue.upcoming(10), vec![ids[3], ids[0], ids[1]]);
    assert_eq!(queue.upcoming(0), Vec::<SongId>::new());
}

#[test]
fn jumping_into_the_songs_queued_next_drops_the_ones_before() {
    let ids = ids(3);
    let p1 = SongId::compute("p1.mp3", 1, 1);
    let p2 = SongId::compute("p2.mp3", 2, 2);
    let mut queue = Queue::new(ids.clone());
    queue.play_at(0);
    queue.queue_next(p2);
    queue.queue_next(p1);
    assert_eq!(queue.priority_queue(), vec![p1, p2], "the song queued last plays first");
    assert_eq!(queue.play_upcoming(2), Some(p2));
    assert!(queue.priority_queue().is_empty());
    assert_eq!(queue.current_position(), Some(0), "a song queued next leaves the cursor alone");
    assert_eq!(queue.play_upcoming(2), Some(ids[2]));
    assert_eq!(queue.play_upcoming(3), None, "past the end nothing happens");
    assert_eq!(queue.current_id(), Some(ids[2]));
}

#[test]
fn a_renamed_song_is_followed_everywhere_in_the_queue() {
    let ids = ids(3);
    let renamed = SongId::compute("new.mp3", 5, 5);
    let mut queue = Queue::new(ids.clone());
    queue.play_at(1);
    queue.queue_next(ids[1]);
    queue.rename_song_id(ids[1], renamed);
    assert_eq!(queue.current_id(), Some(renamed));
    assert_eq!(queue.priority_queue(), vec![renamed]);
    assert_eq!(queue.ordered_ids(), vec![ids[0], renamed, ids[2]]);
}

#[test]
fn an_inserted_song_goes_last() {
    let ids = ids(2);
    let extra = SongId::compute("extra.mp3", 3, 3);
    let mut queue = Queue::new(ids.clone());
    queue.insert(extra);
    assert_eq!(queue.ordered_ids(), vec![ids[0], ids[1], extra]);
    assert_eq!(queue.len(), 3);
}
