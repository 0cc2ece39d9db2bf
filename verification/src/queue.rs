//! The play queue: the songs in play order (shuffled or as given), where
//! playback stands in them, the song playing, and songs queued to play
//! next.
use vstd::prelude::*;
use crate::playlist::{random_uuid_bits, renamed};
use crate::song::SongId;
use crate::sort_key::is_permutation;

verus! {

/// `songs` in the order `order` gives: the song at position `order[i]`
/// comes `i`-th.
pub open spec fn arranged(songs: Seq<SongId>, order: Seq<usize>) -> Seq<SongId> {
    Seq::new(order.len(), |i: int| songs[order[i] as int])
}

/// The positions `0..n` in increasing order.
pub open spec fn identity(n: nat) -> Seq<usize> {
    Seq::new(n, |i: int| i as usize)
}

/// Where the cursor goes on "next" in a queue of `n` songs: the first song
/// when nothing was playing, else the following one, wrapping around.
pub open spec fn next_pos(cursor: Option<usize>, n: nat) -> int {
    match cursor {
        None => 0,
        Some(c) => (c + 1) % (n as int),
    }
}

/// Where the cursor goes on "previous" in a queue of `n` songs: the last
/// song when nothing was playing, else the one before, wrapping around.
pub open spec fn prev_pos(cursor: Option<usize>, n: nat) -> int {
    match cursor {
        None => n - 1,
        Some(c) => (c + n - 1) % (n as int),
    }
}

/// The songs of the queue after the cursor, in the order they would play:
/// all of them when nothing is playing, else every other one, wrapping
/// around.
pub open spec fn after_cursor(items: Seq<SongId>, cursor: Option<usize>) -> Seq<SongId> {
    match cursor {
        None => items,
        Some(c) => Seq::new((items.len() - 1) as nat, |j: int| items[(c + 1 + j) % (items.len() as int)]),
    }
}

/// The song `k` steps from `start`, wrapping around.
pub open spec fn wrapped_at(items: Seq<SongId>, start: int, k: int) -> SongId {
    items[(start + k) % (items.len() as int)]
}

/// `j` steps from `start` (wrapping) is the first place holding `id`.
pub open spec fn found_at(items: Seq<SongId>, start: int, id: SongId, j: int) -> bool {
    &&& 0 <= j < items.len()
    &&& wrapped_at(items, start, j) == id
    &&& forall|k: int| 0 <= k < j ==> #[trigger] wrapped_at(items, start, k) != id
}

/// `q1` is `q0` with its cursor, its songs queued next and its song
/// playing set as given; the songs and their order stay.
pub open spec fn stepped(q0: Queue, q1: Queue, cursor: Option<usize>, priority: Seq<SongId>, current: Option<SongId>) -> bool {
    &&& q1.wf()
    &&& q1.original() == q0.original()
    &&& q1.order_view() == q0.order_view()
    &&& q1.cursor_view() == cursor
    &&& q1.priority_view() == priority
    &&& q1.current_view() == current
}

/// Where a search for a song starts: just after the cursor, or at the
/// start when nothing is playing.
pub open spec fn search_start(q: Queue) -> int {
    match q.cursor_view() {
        Some(c) => c + 1,
        None => 0,
    }
}

/// `id` found `j` steps from where the search starts in `q0`, and played
/// there in `q1`.
pub open spec fn played_at(q0: Queue, q1: Queue, id: SongId, j: int) -> bool {
    let items = q0.items();
    &&& found_at(items, search_start(q0), id, j)
    &&& stepped(q0, q1, Some(((search_start(q0) + j) % (items.len() as int)) as usize), q0.priority_view(), Some(id))
}

/// Where the cursor lands `m` songs ahead in a queue of `n` songs.
pub open spec fn ahead_pos(cursor: Option<usize>, m: int, n: nat) -> int {
    match cursor {
        None => m - 1,
        Some(c) => (c + m) % (n as int),
    }
}

/// `q1` is `q0` after jumping to the `n`-th song of "Up Next" (`r` the
/// song): a song queued next drops it and those before it; a song of the
/// queue empties the songs queued next and moves the cursor; nothing
/// changes for 0 or for a number past the end.
pub open spec fn jumped(q0: Queue, q1: Queue, n: int, r: Option<SongId>) -> bool {
    let p = q0.priority_view().len() as int;
    let items = q0.items();
    let avail = after_cursor(items, q0.cursor_view()).len() as int;
    if 1 <= n <= p {
        r == Some(q0.priority_view()[n - 1])
            && stepped(q0, q1, q0.cursor_view(), q0.priority_view().skip(n), r)
    } else if p < n && n - p <= avail {
        let c = ahead_pos(q0.cursor_view(), n - p, items.len());
        r == Some(items[c]) && stepped(q0, q1, Some(c as usize), Seq::<SongId>::empty(), r)
    } else {
        r is None && stepped(q0, q1, q0.cursor_view(), q0.priority_view(), q0.current_view())
    }
}

/// The song playing after a song took a new identity.
pub open spec fn renamed_current(current: Option<SongId>, old_id: SongId, new_id: SongId) -> Option<SongId> {
    if current == Some(old_id) { Some(new_id) } else { current }
}

/// `q` is a queue of `ids` in the order given, with nothing playing.
pub open spec fn fresh_queue(q: Queue, ids: Seq<SongId>) -> bool {
    &&& q.wf()
    &&& q.original() == ids
    &&& q.order_view() == identity(ids.len())
    &&& q.cursor_view() is None
    &&& q.priority_view() == Seq::<SongId>::empty()
    &&& q.current_view() is None
}

/// `q1` is `q0` after "next" gave `r`: the first song queued next if there
/// is one (the cursor stays), else the song after the cursor, wrapping
/// around; nothing on an empty queue.
pub open spec fn advanced(q0: Queue, q1: Queue, r: Option<SongId>) -> bool {
    if q0.priority_view().len() > 0 {
        r == Some(q0.priority_view()[0]) && stepped(q0, q1, q0.cursor_view(), q0.priority_view().drop_first(), r)
    } else if q0.items().len() == 0 {
        r is None && stepped(q0, q1, q0.cursor_view(), q0.priority_view(), q0.current_view())
    } else {
        let c = next_pos(q0.cursor_view(), q0.items().len());
        r == Some(q0.items()[c]) && stepped(q0, q1, Some(c as usize), q0.priority_view(), r)
    }
}

/// `q1` is `q0` after "previous" gave `r`: the song before the cursor
/// (the last one when nothing was playing), wrapping around; nothing on an
/// empty queue.
pub open spec fn went_back(q0: Queue, q1: Queue, r: Option<SongId>) -> bool {
    if q0.items().len() == 0 {
        r is None && stepped(q0, q1, q0.cursor_view(), q0.priority_view(), q0.current_view())
    } else {
        let c = prev_pos(q0.cursor_view(), q0.items().len());
        r == Some(q0.items()[c]) && stepped(q0, q1, Some(c as usize), q0.priority_view(), r)
    }
}

/// `q1` is `q0` after playing `id` at its nearest place after the cursor
/// (`r` is `id`), or unchanged when the queue does not hold it (`r` is
/// `None`).
pub open spec fn played_id(q0: Queue, q1: Queue, id: SongId, r: Option<SongId>) -> bool {
    &&& (exists|j: int| #[trigger] found_at(q0.items(), search_start(q0), id, j))
        ==> (r == Some(id) && exists|j: int| #[trigger] played_at(q0, q1, id, j))
    &&& !(exists|j: int| #[trigger] found_at(q0.items(), search_start(q0), id, j))
        ==> (r is None && stepped(q0, q1, q0.cursor_view(), q0.priority_view(), q0.current_view()))
}

/// `q1` is `q0` in a new play order (any order): the same songs, the song
/// playing kept where playback stands, the songs queued next kept.
pub open spec fn shuffled(q0: Queue, q1: Queue) -> bool {
    &&& q1.wf()
    &&& q1.original() == q0.original()
    &&& q1.priority_view() == q0.priority_view()
    &&& q1.current_view() == q0.current_view()
    &&& q0.cursor_view() is None ==> q1.cursor_view() is None
    &&& q0.cursor_view() matches Some(c) ==> (q1.cursor_view() matches Some(d)
        && q1.order_view()[d as int] == q0.order_view()[c as int])
}

/// `s` with the entries at `i` and `j` exchanged.
pub open spec fn swapped(s: Seq<usize>, i: int, j: int) -> Seq<usize> {
    s.update(i, s[j]).update(j, s[i])
}

/// The play order `s` after the draws for positions `i` down to 1: each
/// position, from the last down, exchanged with the position its draw
/// picks (the draw modulo one more than the position).
pub open spec fn drawn_order(s: Seq<usize>, draws: Seq<u128>, i: int) -> Seq<usize>
    decreases i,
{
    if i <= 0 {
        s
    } else {
        drawn_order(swapped(s, i, (draws[i] as int) % (i + 1)), draws, i - 1)
    }
}

/// `after` is the play order `before` shuffled with `draws` (an order of
/// fewer than two songs stays as it is).
pub open spec fn drawn_shuffle(before: Seq<usize>, draws: Seq<u128>, after: Seq<usize>) -> bool {
    if before.len() < 2 { after == before } else { after == drawn_order(before, draws, before.len() - 1) }
}

proof fn lemma_drawn_keeps_above(s: Seq<usize>, draws: Seq<u128>, i: int, k: int)
    requires
        0 <= i < k < s.len(),
    ensures
        drawn_order(s, draws, i).len() == s.len(),
        drawn_order(s, draws, i)[k] == s[k],
    decreases i,
{
    if i > 0 {
        let j = (draws[i] as int) % (i + 1);
        vstd::arithmetic::div_mod::lemma_mod_bound(draws[i] as int, i + 1);
        let t = swapped(s, i, j);
        assert(t[k] == s[k]);
        lemma_drawn_keeps_above(t, draws, i - 1, k);
    }
}

/// Law: shuffling puts in the last place the song the last draw picks: the
/// one at the position given by that draw modulo the number of songs.
pub proof fn law_last_place_is_drawn(s: Seq<usize>, draws: Seq<u128>)
    requires
        s.len() >= 2,
        draws.len() == s.len(),
    ensures
        drawn_order(s, draws, s.len() - 1)[s.len() - 1] == s[(draws[s.len() - 1] as int) % (s.len() as int)],
{
    let n = s.len() as int;
    let j = (draws[n - 1] as int) % n;
    vstd::arithmetic::div_mod::lemma_mod_bound(draws[n - 1] as int, n);
    let t = swapped(s, n - 1, j);
    assert(drawn_order(s, draws, n - 1) == drawn_order(t, draws, n - 2));
    if n - 2 > 0 {
        lemma_drawn_keeps_above(t, draws, n - 2, n - 1);
    }
    assert(t[n - 1] == s[j]);
}

/// Law: a shuffle whose last draw does not pick the last place changes the
/// play order (its positions being all different).
pub proof fn law_shuffle_moves_songs(s: Seq<usize>, draws: Seq<u128>)
    requires
        is_permutation(s, s.len()),
        s.len() >= 2,
        draws.len() == s.len(),
        (draws[s.len() - 1] as int) % (s.len() as int) != s.len() - 1,
    ensures
        drawn_order(s, draws, s.len() - 1) != s,
{
    let n = s.len() as int;
    let j = (draws[n - 1] as int) % n;
    vstd::arithmetic::div_mod::lemma_mod_bound(draws[n - 1] as int, n);
    law_last_place_is_drawn(s, draws);
    assert(s[j] != s[n - 1]);
}

/// Draws that settle positions `i` down to 1 of `cur` into `t`, keeping the
/// draws above `i`: `m` says where in `cur` each of `t`'s first `i + 1`
/// entries stands.
proof fn lemma_draws_reaching(cur: Seq<usize>, t: Seq<usize>, m: Seq<usize>, draws: Seq<u128>, i: int) -> (d: Seq<u128>)
    requires
        0 <= i < cur.len(),
        cur.len() <= usize::MAX,
        t.len() == cur.len(),
        draws.len() == cur.len(),
        m.len() == i + 1,
        forall|k: int| 0 <= k <= i ==> #[trigger] m[k] <= i && t[k] == cur[m[k] as int],
        forall|a: int, b: int| 0 <= a < b <= i ==> m[a] != m[b],
        forall|k: int| i < k < cur.len() ==> cur[k] == t[k],
    ensures
        d.len() == cur.len(),
        forall|k: int| i < k < cur.len() ==> d[k] == draws[k],
        drawn_order(cur, d, i) == t,
    decreases i,
{
    if i == 0 {
        assert(m[0] <= 0);
        assert(cur =~= t);
        draws
    } else {
        let j = m[i] as int;
        let d1 = draws.update(i, j as u128);
        let c2 = swapped(cur, i, j);
        let m2 = Seq::new(i as nat, |k: int| if m[k] as int == i { j as usize } else { m[k] });
        assert forall|k: int| 0 <= k <= i - 1 implies #[trigger] m2[k] <= i - 1 && t[k] == c2[m2[k] as int] by {
            assert(m[k] != m[i]);
            if m[k] as int == i {
                assert(m2[k] as int == j);
                assert(j != i);
            } else {
                assert(m2[k] == m[k]);
            }
        }
        assert forall|a: int, b: int| 0 <= a < b <= i - 1 implies m2[a] != m2[b] by {
            assert(m[a] != m[b]);
            assert(m[a] != m[i]);
            assert(m[b] != m[i]);
        }
        assert forall|k: int| i - 1 < k < c2.len() implies c2[k] == t[k] by {
            if k == i {
                assert(c2[k] == cur[j]);
            } else {
                assert(c2[k] == cur[k]);
            }
        }
        let d = lemma_draws_reaching(c2, t, m2, d1, i - 1);
        assert(d[i] == j as u128);
        vstd::arithmetic::div_mod::lemma_small_mod(j as nat, (i + 1) as nat);
        assert((d[i] as int) % (i + 1) == j);
        assert(drawn_order(cur, d, i) == drawn_order(c2, d, i - 1));
        d
    }
}

/// Law: every arrangement of the play order can come out of a shuffle:
/// whenever `t` lists the entries of `s` rearranged (`t[k]` is `s[m[k]]`
/// for positions `m` all different), some draws give exactly `t`.
pub proof fn law_every_order_can_come_out(s: Seq<usize>, t: Seq<usize>, m: Seq<usize>)
    requires
        s.len() <= usize::MAX,
        t.len() == s.len(),
        is_permutation(m, s.len()),
        forall|k: int| 0 <= k < t.len() ==> t[k] == s[#[trigger] m[k] as int],
    ensures
        exists|draws: Seq<u128>| draws.len() == s.len() && #[trigger] drawn_shuffle(s, draws, t),
{
    let n = s.len() as int;
    let zeros = Seq::new(n as nat, |k: int| 0u128);
    if n == 0 {
        assert(t =~= s);
        assert(drawn_shuffle(s, zeros, t));
    } else {
        assert forall|k: int| 0 <= k <= n - 1 implies #[trigger] m[k] <= n - 1 && t[k] == s[m[k] as int] by {
            assert(m[k] < n);
        }
        let d = lemma_draws_reaching(s, t, m, zeros, n - 1);
        if n == 1 {
            assert(drawn_order(s, d, 0) == s);
        }
        assert(drawn_shuffle(s, d, t));
    }
}

/// `q1` is `q0` back in the order the songs were given, playback standing
/// where the song playing now is.
pub open spec fn unshuffled(q0: Queue, q1: Queue) -> bool {
    &&& q1.wf()
    &&& q1.original() == q0.original()
    &&& q1.order_view() == identity(q0.original().len())
    &&& q1.cursor_view() == (match q0.cursor_view() {
        Some(c) => Some(q0.order_view()[c as int]),
        None => None,
    })
    &&& q1.priority_view() == q0.priority_view()
    &&& q1.current_view() == q0.current_view()
}

/// `q1` is `q0` following a song that took a new identity.
pub open spec fn queue_renamed(q0: Queue, q1: Queue, old_id: SongId, new_id: SongId) -> bool {
    &&& q1.wf()
    &&& q1.original() == renamed(q0.original(), old_id, new_id)
    &&& q1.order_view() == q0.order_view()
    &&& q1.cursor_view() == q0.cursor_view()
    &&& q1.priority_view() == renamed(q0.priority_view(), old_id, new_id)
    &&& q1.current_view() == renamed_current(q0.current_view(), old_id, new_id)
}

/// `q1` is `q0` with `id` added at the end (of the play order too).
pub open spec fn appended(q0: Queue, q1: Queue, id: SongId) -> bool {
    &&& q1.wf()
    &&& q1.original() == q0.original().push(id)
    &&& q1.order_view() == q0.order_view().push(q0.original().len() as usize)
    &&& q1.items() == q0.items().push(id)
    &&& q1.cursor_view() == q0.cursor_view()
    &&& q1.priority_view() == q0.priority_view()
    &&& q1.current_view() == q0.current_view()
}

/// Law: a shuffle undone puts the songs back in the order given, with the
/// same song playing and playback standing on it.
pub proof fn law_unshuffle_undoes_shuffle(q0: Queue, q1: Queue, q2: Queue)
    requires
        q0.wf(),
        shuffled(q0, q1),
        unshuffled(q1, q2),
    ensures
        q2.items() == q0.original(),
        q2.current_view() == q0.current_view(),
        q2.priority_view() == q0.priority_view(),
        q0.cursor_view() matches Some(c) ==> (q2.cursor_view() matches Some(d) && q2.items()[d as int] == q0.items()[c as int]),
        q0.cursor_view() is None ==> q2.cursor_view() is None,
{
    assert(q2.items() =~= q0.original());
    if let Some(c) = q0.cursor_view() {
        let d = q1.cursor_view()->0;
        assert(q2.cursor_view() == Some(q1.order_view()[d as int]));
        assert(q1.order_view()[d as int] == q0.order_view()[c as int]);
        assert(q0.order_view()[c as int] < q0.original().len());
    }
}

/// Law: "previous" right after "next" (with no song queued next and a song
/// playing) goes back to where playback stood, and gives that song.
pub proof fn law_previous_undoes_next(q0: Queue, q1: Queue, q2: Queue, r1: Option<SongId>, r2: Option<SongId>)
    requires
        q0.wf(),
        q0.priority_view().len() == 0,
        q0.cursor_view() is Some,
        advanced(q0, q1, r1),
        went_back(q1, q2, r2),
    ensures
        q2.cursor_view() == q0.cursor_view(),
        r2 == Some(q0.items()[q0.cursor_view()->0 as int]),
{
    let n = q0.items().len() as int;
    let c = q0.cursor_view()->0 as int;
    if c + 1 < n {
        vstd::arithmetic::div_mod::lemma_small_mod((c + 1) as nat, n as nat);
        lemma_prev_index(c + 1, n);
    } else {
        vstd::arithmetic::div_mod::lemma_mod_self_0(n);
        lemma_prev_index(0, n);
    }
}

/// Law: jumping to the `n`-th place of "Up Next" plays the song listed
/// there.
pub proof fn law_jump_plays_the_song_listed(q0: Queue, q1: Queue, n: int, r: Option<SongId>)
    requires
        q0.wf(),
        jumped(q0, q1, n, r),
        1 <= n <= up_next(q0).len(),
    ensures
        r == Some(up_next(q0)[n - 1]),
{
    let p = q0.priority_view().len() as int;
    if n > p {
        let m = n - p;
        if let Some(c) = q0.cursor_view() {
            assert(after_cursor(q0.items(), q0.cursor_view())[m - 1] == q0.items()[(c + 1 + (m - 1)) % (q0.items().len() as int)]);
        }
    }
}

/// The songs that would play next, in order: the songs queued next, then
/// the songs after the cursor.
pub open spec fn up_next(q: Queue) -> Seq<SongId> {
    q.priority_view() + after_cursor(q.items(), q.cursor_view())
}

/// A step back from `c` in a list of `n` wraps only from the first place.
proof fn lemma_prev_index(c: int, n: int)
    requires
        0 <= c < n,
    ensures
        (c + n - 1) % n == if c == 0 { n - 1 } else { c - 1 },
{
    if c == 0 {
        vstd::arithmetic::div_mod::lemma_small_mod((n - 1) as nat, n as nat);
    } else {
        vstd::arithmetic::div_mod::lemma_mod_sub_multiples_vanish(c + n - 1, n);
        vstd::arithmetic::div_mod::lemma_small_mod((c - 1) as nat, n as nat);
    }
}

/// A step of `j` from `start` in a list of `n` wraps at most once.
proof fn lemma_wrap_index(start: int, j: int, n: int)
    requires
        0 <= start <= n,
        0 <= j < n,
    ensures
        (start + j) % n == if j < n - start { start + j } else { j - (n - start) },
{
    if j < n - start {
        vstd::arithmetic::div_mod::lemma_small_mod((start + j) as nat, n as nat);
    } else {
        vstd::arithmetic::div_mod::lemma_mod_sub_multiples_vanish(start + j, n);
        vstd::arithmetic::div_mod::lemma_small_mod((start + j - n) as nat, n as nat);
    }
}

/// The play queue.
pub struct Queue {
    songs: Vec<SongId>,
    order: Vec<usize>,
    cursor: Option<usize>,
    priority: Vec<SongId>,
    current: Option<SongId>,
}

impl Queue {
    /// The play order lists every position once, and the cursor lies
    /// within it.
    pub closed spec fn wf(&self) -> bool {
        &&& self.songs@.len() <= usize::MAX
        &&& is_permutation(self.order@, self.songs@.len())
        &&& self.cursor matches Some(c) ==> c < self.order@.len()
    }

    /// The songs as given, before any shuffle.
    pub closed spec fn original(&self) -> Seq<SongId> {
        self.songs@
    }

    /// The play order, as positions in `original`.
    pub closed spec fn order_view(&self) -> Seq<usize> {
        self.order@
    }

    /// The songs in play order.
    pub open spec fn items(&self) -> Seq<SongId> {
        arranged(self.original(), self.order_view())
    }

    /// Where playback stands in the play order, if anywhere.
    pub closed spec fn cursor_view(&self) -> Option<usize> {
        self.cursor
    }

    /// The songs queued to play next, first one first.
    pub closed spec fn priority_view(&self) -> Seq<SongId> {
        self.priority@
    }

    /// The song playing, if any.
    pub closed spec fn current_view(&self) -> Option<SongId> {
        self.current
    }

    /// What the queue's invariant says: the play order lists every
    /// position once, and the cursor lies within it.
    pub proof fn lemma_wf(&self)
        requires
            self.wf(),
        ensures
            is_permutation(self.order_view(), self.original().len()),
            self.original().len() <= usize::MAX,
            self.items().len() == self.original().len(),
            self.cursor_view() matches Some(c) ==> c < self.items().len(),
    {
    }

    /// A queue of `ids` in the order given, with nothing playing.
    pub fn new(ids: Vec<SongId>) -> (q: Queue)
        ensures
            fresh_queue(q, ids@),
            q.items() == ids@,
    {
        let n = ids.len();
        let mut order: Vec<usize> = Vec::new();
        let mut i: usize = 0;
        while i < n
            invariant
                n == ids@.len(),
                i <= ids@.len(),
                order@ == identity(i as nat),
            decreases ids@.len() - i,
        {
            order.push(i);
            i = i + 1;
            proof {
                assert(order@ =~= identity(i as nat));
            }
        }
        let q = Queue { songs: ids, order, cursor: None, priority: Vec::new(), current: None };
        proof {
            assert(q.items() =~= ids@);
        }
        q
    }

    /// Moves on: to the first song queued next if there is one (the cursor
    /// stays), else to the song after the cursor, wrapping around. None on
    /// an empty queue.
    pub fn next(&mut self) -> (r: Option<SongId>)
        requires
            old(self).wf(),
        ensures
            advanced(*old(self), *final(self), r),
    {
        if self.priority.len() > 0 {
            let id = self.priority.remove(0);
            self.current = Some(id);
            proof {
                assert(self.priority@ =~= old(self).priority@.drop_first());
            }
            return Some(id);
        }
        let n = self.order.len();
        if n == 0 {
            return None;
        }
        let c = match self.cursor {
            None => 0,
            Some(c) => (c + 1) % n,
        };
        let id = self.songs[self.order[c]];
        self.cursor = Some(c);
        self.current = Some(id);
        Some(id)
    }

    /// Steps back to the song before the cursor (the last song when nothing
    /// was playing), wrapping around; the songs queued next stay. None on an
    /// empty queue.
    pub fn previous(&mut self) -> (r: Option<SongId>)
        requires
            old(self).wf(),
        ensures
            went_back(*old(self), *final(self), r),
    {
        let n = self.order.len();
        if n == 0 {
            return None;
        }
        let c = match self.cursor {
            None => n - 1,
            Some(c) => if c == 0 { n - 1 } else { c - 1 },
        };
        proof {
            if let Some(c0) = old(self).cursor {
                lemma_prev_index(c0 as int, n as int);
            }
        }
        let id = self.songs[self.order[c]];
        self.cursor = Some(c);
        self.current = Some(id);
        Some(id)
    }

    /// Plays the song at position `i` of the play order, if there is one.
    pub fn play_at(&mut self, i: usize) -> (r: Option<SongId>)
        requires
            old(self).wf(),
        ensures
            i < old(self).items().len() ==> r == Some(old(self).items()[i as int])
                && stepped(*old(self), *final(self), Some(i), old(self).priority_view(), r),
            i >= old(self).items().len() ==> r is None
                && stepped(*old(self), *final(self), old(self).cursor_view(), old(self).priority_view(), old(self).current_view()),
    {
        if i >= self.order.len() {
            return None;
        }
        let id = self.songs[self.order[i]];
        self.cursor = Some(i);
        self.current = Some(id);
        Some(id)
    }

    /// Plays `id` at its nearest place after the cursor (from the start when
    /// nothing is playing), wrapping around. None, changing nothing, when
    /// the queue does not hold it.
    pub fn play_id(&mut self, id: SongId) -> (r: Option<SongId>)
        requires
            old(self).wf(),
        ensures
            played_id(*old(self), *final(self), id, r),
    {
        let n = self.order.len();
        let start: usize = match self.cursor {
            Some(c) => c + 1,
            None => 0,
        };
        let ghost items = self.items();
        let mut j: usize = 0;
        while j < n
            invariant
                n == items.len(),
                items == self.items(),
                start <= n,
                start as int == search_start(*old(self)),
                self.wf(),
                *self == *old(self),
                j <= n,
                forall|k: int| 0 <= k < j ==> #[trigger] wrapped_at(items, start as int, k) != id,
            decreases n - j,
        {
            let rest = n - start;
            let p = if j < rest { start + j } else { j - rest };
            proof {
                lemma_wrap_index(start as int, j as int, n as int);
                assert(p == (start + j) % (n as int));
            }
            if self.songs[self.order[p]] == id {
                self.cursor = Some(p);
                self.current = Some(id);
                proof {
                    assert(wrapped_at(items, start as int, j as int) == id);
                    assert(found_at(items, start as int, id, j as int));
                    assert(played_at(*old(self), *self, id, j as int));
                }
                return Some(id);
            }
            proof {
                assert(wrapped_at(items, start as int, j as int) != id);
            }
            j = j + 1;
        }
        proof {
            assert forall|j: int| !#[trigger] found_at(items, start as int, id, j) by {
                if 0 <= j < items.len() {
                    assert(wrapped_at(items, start as int, j) != id);
                }
            }
        }
        None
    }

    /// Jumps to the `n`-th song of "Up Next" (see `jumped`).
    pub fn play_upcoming(&mut self, n: usize) -> (r: Option<SongId>)
        requires
            old(self).wf(),
        ensures
            jumped(*old(self), *final(self), n as int, r),
    {
        if n == 0 {
            return None;
        }
        let p = self.priority.len();
        if n <= p {
            let id = self.priority[n - 1];
            let mut rest: Vec<SongId> = Vec::new();
            let mut k: usize = n;
            while k < p
                invariant
                    n <= k <= p,
                    p == self.priority@.len(),
                    rest@ == self.priority@.subrange(n as int, k as int),
                decreases p - k,
            {
                rest.push(self.priority[k]);
                k = k + 1;
                proof {
                    assert(rest@ =~= self.priority@.subrange(n as int, k as int));
                }
            }
            self.priority = rest;
            self.current = Some(id);
            proof {
                assert(self.priority@ =~= old(self).priority@.skip(n as int));
            }
            return Some(id);
        }
        let m = n - p;
        let len = self.order.len();
        let avail = match self.cursor {
            None => len,
            Some(_) => len - 1,
        };
        if m > avail {
            return None;
        }
        let c = match self.cursor {
            None => m - 1,
            Some(c) => {
                proof {
                    lemma_wrap_index(c as int, m as int, len as int);
                }
                let rest = len - c;
                if m < rest { c + m } else { m - rest }
            },
        };
        let id = self.songs[self.order[c]];
        self.priority = Vec::new();
        self.cursor = Some(c);
        self.current = Some(id);
        Some(id)
    }

    /// The first `k` songs of "Up Next": the songs queued next, then the
    /// songs after the cursor.
    pub fn upcoming(&self, k: usize) -> (v: Vec<SongId>)
        requires
            self.wf(),
        ensures
            v@ == up_next(*self).take(if k < up_next(*self).len() { k as int } else { up_next(*self).len() as int }),
    {
        let ghost all = up_next(*self);
        let mut v: Vec<SongId> = Vec::new();
        let p = self.priority.len();
        let mut i: usize = 0;
        while i < p && v.len() < k
            invariant
                p == self.priority@.len(),
                all == up_next(*self),
                i <= p,
                v@.len() == i,
                v@ == all.take(i as int),
                i <= k,
            decreases p - i,
        {
            v.push(self.priority[i]);
            i = i + 1;
            proof {
                assert(v@ =~= all.take(i as int));
            }
        }
        if v.len() >= k {
            proof {
                assert(v@.len() == k);
            }
            return v;
        }
        let len = self.order.len();
        let ghost items = self.items();
        let ghost after = after_cursor(items, self.cursor);
        let (start, avail): (usize, usize) = match self.cursor {
            None => (0, len),
            Some(c) => (c + 1, len - 1),
        };
        let mut j: usize = 0;
        while j < avail && v.len() < k
            invariant
                self.wf(),
                len == items.len(),
                items == self.items(),
                after == after_cursor(items, self.cursor),
                avail == after.len(),
                start <= len,
                self.cursor is None ==> start == 0,
                self.cursor matches Some(c) ==> start == c + 1,
                p == self.priority@.len(),
                all == self.priority@ + after,
                j <= avail,
                v@.len() == p + j,
                v@.len() <= k,
                v@ == all.take(v@.len() as int),
            decreases avail - j,
        {
            let rest = len - start;
            let pos = if j < rest { start + j } else { j - rest };
            proof {
                lemma_wrap_index(start as int, j as int, len as int);
                assert(after[j as int] == items[pos as int]);
                assert(all[p + j] == after[j as int]);
            }
            v.push(self.songs[self.order[pos]]);
            j = j + 1;
            proof {
                assert(v@ =~= all.take(v@.len() as int));
            }
        }
        proof {
            if j == avail {
                assert(all.len() == p + avail);
            }
        }
        v
    }

    /// Queues `id` to play next, ahead of songs queued before.
    pub fn queue_next(&mut self, id: SongId)
        requires
            old(self).wf(),
        ensures
            stepped(*old(self), *final(self), old(self).cursor_view(), seq![id] + old(self).priority_view(),
                old(self).current_view()),
    {
        self.priority.insert(0, id);
        proof {
            assert(self.priority@ =~= seq![id] + old(self).priority@);
        }
    }

    /// Follows a song that took a new identity (its tags were rewritten).
    pub fn rename_song_id(&mut self, old_id: SongId, new_id: SongId)
        requires
            old(self).wf(),
        ensures
            queue_renamed(*old(self), *final(self), old_id, new_id),
    {
        let mut i: usize = 0;
        while i < self.songs.len()
            invariant
                i <= self.songs@.len(),
                self.songs@.len() == old(self).songs@.len(),
                self.order == old(self).order,
                self.cursor == old(self).cursor,
                self.priority == old(self).priority,
                self.current == old(self).current,
                forall|k: int| 0 <= k < self.songs@.len() ==> #[trigger] self.songs@[k] == if k < i {
                    renamed(old(self).songs@, old_id, new_id)[k]
                } else {
                    old(self).songs@[k]
                },
            decreases self.songs@.len() - i,
        {
            if self.songs[i] == old_id {
                self.songs.set(i, new_id);
            }
            i = i + 1;
        }
        let mut j: usize = 0;
        while j < self.priority.len()
            invariant
                j <= self.priority@.len(),
                self.priority@.len() == old(self).priority@.len(),
                self.songs@ == renamed(old(self).songs@, old_id, new_id),
                self.order == old(self).order,
                self.cursor == old(self).cursor,
                self.current == old(self).current,
                forall|k: int| 0 <= k < self.priority@.len() ==> #[trigger] self.priority@[k] == if k < j {
                    renamed(old(self).priority@, old_id, new_id)[k]
                } else {
                    old(self).priority@[k]
                },
            decreases self.priority@.len() - j,
        {
            if self.priority[j] == old_id {
                self.priority.set(j, new_id);
            }
            j = j + 1;
        }
        if self.current == Some(old_id) {
            self.current = Some(new_id);
        }
        proof {
            assert(self.songs@ =~= renamed(old(self).songs@, old_id, new_id));
            assert(self.priority@ =~= renamed(old(self).priority@, old_id, new_id));
        }
    }

    /// Adds `id` at the end of the queue (at the end of the play order).
    pub fn insert(&mut self, id: SongId)
        requires
            old(self).wf(),
            old(self).original().len() < usize::MAX,
        ensures
            appended(*old(self), *final(self), id),
    {
        let n = self.songs.len();
        self.songs.push(id);
        self.order.push(n);
        proof {
            assert(self.items() =~= old(self).items().push(id));
        }
    }

    /// Puts the play order in a random order; the song playing stays where
    /// playback stands, and the songs queued next stay. The order is the
    /// one `shuffle_with` gives for random draws.
    pub fn shuffle(&mut self)
        requires
            old(self).wf(),
        ensures
            shuffled(*old(self), *final(self)),
            exists|draws: Seq<u128>| draws.len() == old(self).order_view().len()
                && #[trigger] drawn_shuffle(old(self).order_view(), draws, final(self).order_view()),
    {
        let n = self.order.len();
        let mut draws: Vec<u128> = Vec::new();
        while draws.len() < n
            invariant
                draws@.len() <= n,
            decreases n - draws@.len(),
        {
            draws.push(random_uuid_bits());
        }
        self.shuffle_with(draws.as_slice());
    }

    /// Puts the play order in the order the draws give (see
    /// `drawn_order`); the song playing stays where playback stands, and the
    /// songs queued next stay.
    pub fn shuffle_with(&mut self, draws: &[u128])
        requires
            old(self).wf(),
            draws@.len() == old(self).order_view().len(),
        ensures
            shuffled(*old(self), *final(self)),
            drawn_shuffle(old(self).order_view(), draws@, final(self).order_view()),
    {
        let n = self.order.len();
        if n < 2 {
            return;
        }
        let ghost start = self.order@;
        let mut target = self.cursor;
        let mut i: usize = n - 1;
        while i > 0
            invariant
                self.order@.len() == n,
                n == self.songs@.len(),
                draws@.len() == n,
                n >= 2,
                start == old(self).order@,
                is_permutation(self.order@, self.songs@.len()),
                self.songs == old(self).songs,
                self.cursor == old(self).cursor,
                self.priority == old(self).priority,
                self.current == old(self).current,
                i < n,
                drawn_order(self.order@, draws@, i as int) == drawn_order(start, draws@, n - 1),
                old(self).cursor is None ==> target is None,
                old(self).cursor matches Some(c) ==> (target matches Some(t) && t < n
                    && self.order@[t as int] == old(self).order@[c as int]),
            decreases i,
        {
            let j = (draws[i] % ((i + 1) as u128)) as usize;
            proof {
                vstd::arithmetic::div_mod::lemma_mod_bound(draws@[i as int] as int, i + 1);
                assert(j as int == (draws@[i as int] as int) % (i + 1));
            }
            let a = self.order[i];
            let b = self.order[j];
            let ghost before = self.order@;
            self.order.set(i, b);
            self.order.set(j, a);
            proof {
                assert(self.order@ =~= swapped(before, i as int, j as int));
                assert forall|x: int, y: int| 0 <= x < y < self.order@.len() implies self.order@[x] != self.order@[y] by {
                    let sx = if x == i { j as int } else if x == j { i as int } else { x };
                    let sy = if y == i { j as int } else if y == j { i as int } else { y };
                    assert(self.order@[x] == before[sx]);
                    assert(self.order@[y] == before[sy]);
                    assert(sx != sy);
                    if sx < sy {
                        assert(before[sx] != before[sy]);
                    } else {
                        assert(before[sy] != before[sx]);
                    }
                }
                assert forall|x: int| 0 <= x < self.order@.len() implies #[trigger] self.order@[x] < n by {
                    let sx = if x == i { j as int } else if x == j { i as int } else { x };
                    assert(self.order@[x] == before[sx]);
                }
            }
            target = match target {
                Some(t) => if t == i { Some(j) } else if t == j { Some(i) } else { Some(t) },
                None => None,
            };
            i = i - 1;
        }
        self.cursor = target;
    }

    /// Puts the play order back as the songs were given; the song playing
    /// stays where playback stands.
    pub fn unshuffle(&mut self)
        requires
            old(self).wf(),
        ensures
            unshuffled(*old(self), *final(self)),
            final(self).items() == old(self).original(),
    {
        let cursor = match self.cursor {
            Some(c) => Some(self.order[c]),
            None => None,
        };
        let n = self.songs.len();
        let mut order: Vec<usize> = Vec::new();
        let mut i: usize = 0;
        while i < n
            invariant
                i <= n,
                order@ == identity(i as nat),
            decreases n - i,
        {
            order.push(i);
            i = i + 1;
            proof {
                assert(order@ =~= identity(i as nat));
            }
        }
        self.order = order;
        self.cursor = cursor;
        proof {
            assert(self.items() =~= old(self).original());
        }
    }

    /// The song playing, if any.
    pub fn current_id(&self) -> (r: Option<SongId>)
        ensures
            r == self.current_view(),
    {
        self.current
    }

    /// Where playback stands in the play order, if anywhere.
    pub fn current_position(&self) -> (r: Option<usize>)
        ensures
            r == self.cursor_view(),
    {
        self.cursor
    }

    /// The songs queued to play next, first one first.
    pub fn priority_queue(&self) -> (v: Vec<SongId>)
        ensures
            v@ == self.priority_view(),
    {
        self.priority.clone()
    }

    /// How many songs the queue holds (songs queued next aside).
    pub fn len(&self) -> (n: usize)
        requires
            self.wf(),
        ensures
            n == self.items().len(),
    {
        self.order.len()
    }

    /// The songs in play order.
    pub fn ordered_ids(&self) -> (v: Vec<SongId>)
        requires
            self.wf(),
        ensures
            v@ == self.items(),
    {
        let mut v: Vec<SongId> = Vec::new();
        let mut i: usize = 0;
        while i < self.order.len()
            invariant
                i <= self.order@.len(),
                is_permutation(self.order@, self.songs@.len()),
                v@ == self.items().take(i as int),
            decreases self.order@.len() - i,
        {
            let k = self.order[i];
            v.push(self.songs[k]);
            i = i + 1;
            proof {
                assert(v@ =~= self.items().take(i as int));
            }
        }
        proof {
            assert(self.items().take(self.order@.len() as int) =~= self.items());
        }
        v
    }

    /// Whether the queue holds `id` (songs queued next aside).
    pub fn contains(&self, id: SongId) -> (b: bool)
        requires
            self.wf(),
        ensures
            b == self.items().contains(id),
    {
        let mut i: usize = 0;
        while i < self.order.len()
            invariant
                i <= self.order@.len(),
                is_permutation(self.order@, self.songs@.len()),
                forall|k: int| 0 <= k < i ==> self.items()[k] != id,
            decreases self.order@.len() - i,
        {
            let k = self.order[i];
            if self.songs[k] == id {
                proof {
                    assert(self.items()[i as int] == id);
                }
                return true;
            }
            i = i + 1;
        }
        false
    }
}

} // verus!
