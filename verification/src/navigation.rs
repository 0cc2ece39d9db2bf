//! Moving the selection through a list whose rows are either section
//! headings or songs: wrapping moves that skip headings, page jumps, and the
//! window of rows a panel of a given height shows.
use vstd::prelude::*;
use crate::song::SongId;
use crate::keymap::Direction;

verus! {

/// One row of a song list: a heading that groups the songs below it, or a
/// song shown at an indentation depth.
pub enum Row {
    Header(String),
    Song(SongId, usize),
}

impl Row {
    /// Whether the row is a song (and so can be selected).
    pub fn is_song(&self) -> (b: bool)
        ensures
            b == (*self is Song),
    {
        match self {
            Row::Song(_, _) => true,
            Row::Header(_) => false,
        }
    }
}

/// The scroll offset and the selected row of a list on screen.
#[derive(Clone, Copy, Debug, PartialEq, Eq, Structural)]
pub struct ListState {
    pub offset: usize,
    pub selected: Option<usize>,
}

impl ListState {
    /// No scrolling and no selection.
    pub open spec fn new_spec() -> ListState {
        ListState { offset: 0, selected: None }
    }

    /// No scrolling and no selection.
    pub fn new() -> (s: ListState)
        ensures
            s.offset == 0,
            s.selected is None,
    {
        ListState { offset: 0, selected: None }
    }

    /// Selects a row, or clears the selection; clearing also scrolls back
    /// to the top.
    pub fn select(&mut self, index: Option<usize>)
        ensures
            final(self).selected == index,
            index is None ==> final(self).offset == 0,
            index is Some ==> final(self).offset == old(self).offset,
    {
        self.selected = index;
        if index.is_none() {
            self.offset = 0;
        }
    }
}

/// Whether each row is a song.
pub open spec fn song_mask(rows: Seq<Row>) -> Seq<bool> {
    rows.map_values(|r: Row| r is Song)
}

/// For each row, whether it is a song.
pub fn selectable_rows(rows: &[Row]) -> (m: Vec<bool>)
    ensures
        m@ == song_mask(rows@),
{
    let mut m: Vec<bool> = Vec::new();
    let mut i: usize = 0;
    while i < rows.len()
        invariant
            i <= rows@.len(),
            m@.len() == i,
            forall|k: int| 0 <= k < i ==> m@[k] == (rows@[k] is Song),
        decreases rows@.len() - i,
    {
        m.push(rows[i].is_song());
        i = i + 1;
    }
    assert(m@ =~= song_mask(rows@));
    m
}

/// `start` moved by `k` steps of `delta`, wrapping around a list of `len`
/// rows.
pub open spec fn orbit(start: int, delta: int, len: int, k: int) -> int {
    (start + k * delta) % len
}

/// `idx` moved by `delta`, wrapping around a list of `len` rows: Rust's
/// `rem_euclid`.
pub fn wrap_step(idx: usize, delta: isize, len: usize) -> (r: usize)
    requires
        len > 0,
    ensures
        r as int == (idx + delta) % (len as int),
        r < len,
{
    let base = idx % len;
    let dm: usize = if delta >= 0 {
        (delta as usize) % len
    } else {
        let m: usize = ((-(delta + 1)) as usize) + 1;
        let r = m % len;
        proof {
            lemma_neg_mod(m as int, len as int);
        }
        if r == 0 { 0 } else { len - r }
    };
    proof {
        vstd::arithmetic::div_mod::lemma_add_mod_noop(idx as int, delta as int, len as int);
        assert(dm as int == (delta as int) % (len as int));
        assert(base as int == (idx as int) % (len as int));
        vstd::arithmetic::div_mod::lemma_add_mod_noop_right(base as int, delta as int, len as int);
        vstd::arithmetic::div_mod::lemma_add_mod_noop_right(delta as int, idx as int, len as int);
        if base + dm < len {
            vstd::arithmetic::div_mod::lemma_small_mod((base + dm) as nat, len as nat);
        } else {
            vstd::arithmetic::div_mod::lemma_mod_sub_multiples_vanish((base + dm) as int, len as int);
            vstd::arithmetic::div_mod::lemma_small_mod((base + dm - len) as nat, len as nat);
        }
    }
    if base >= len - dm {
        base - (len - dm)
    } else {
        base + dm
    }
}

proof fn lemma_neg_mod(m: int, len: int)
    requires
        m >= 0,
        len > 0,
    ensures
        (-m) % len == (if m % len == 0 { 0 } else { len - m % len }),
{
    let q = m / len;
    let r = m % len;
    vstd::arithmetic::div_mod::lemma_fundamental_div_mod(m, len);
    assert(m == len * q + r);
    if r == 0 {
        assert(-m == len * (-q) + 0) by (nonlinear_arith)
            requires m == len * q + r, r == 0;
        vstd::arithmetic::div_mod::lemma_mod_multiples_vanish(-q, 0, len);
    } else {
        assert(-m == len * (-q - 1) + (len - r)) by (nonlinear_arith)
            requires m == len * q + r;
        vstd::arithmetic::div_mod::lemma_mod_multiples_vanish(-q - 1, len - r, len);
        vstd::arithmetic::div_mod::lemma_small_mod((len - r) as nat, len as nat);
    }
}

proof fn lemma_orbit_step(start: int, delta: int, len: int, k: int)
    requires
        len > 0,
    ensures
        (orbit(start, delta, len, k) + delta) % len == orbit(start, delta, len, k + 1),
{
    vstd::arithmetic::div_mod::lemma_add_mod_noop_right(delta, start + k * delta, len);
    assert(start + k * delta + delta == start + (k + 1) * delta) by (nonlinear_arith);
}

proof fn lemma_orbit_returns(start: int, delta: int, len: int)
    requires
        len > 0,
        0 <= start < len,
    ensures
        orbit(start, delta, len, len) == start,
{
    assert(start + len * delta == len * delta + start) by (nonlinear_arith);
    vstd::arithmetic::div_mod::lemma_mod_multiples_vanish(delta, start, len);
    vstd::arithmetic::div_mod::lemma_small_mod(start as nat, len as nat);
}

/// The row reached from `start` by repeatedly moving `delta` rows, wrapping
/// around, until the row is selectable or the walk is back at `start`.
pub open spec fn wrapping_target(start: int, delta: int, len: int, sel: Seq<bool>, r: int) -> bool {
    exists|k: int| 1 <= k <= len && #[trigger] orbit(start, delta, len, k) == r && (r == start || sel[r])
        && forall|j: int| 1 <= j < k ==> #[trigger] orbit(start, delta, len, j) != start && !sel[orbit(start, delta, len, j)]
}

/// Moves from `start` by `delta` rows, wrapping around the list, and keeps
/// going until it reaches a selectable row; if there is none it comes back
/// to `start`.
pub fn wrapping_selectable_index(start: usize, delta: isize, len: usize, selectable: &[bool]) -> (r: usize)
    requires
        len > 0,
        start < len,
        selectable@.len() == len,
    ensures
        r < len,
        wrapping_target(start as int, delta as int, len as int, selectable@, r as int),
        r == start || selectable@[r as int],
{
    let mut idx = start;
    let mut k: usize = 0;
    proof {
        assert(orbit(start as int, delta as int, len as int, 0) == start as int) by {
            vstd::arithmetic::div_mod::lemma_small_mod(start as nat, len as nat);
        }
    }
    loop
        invariant
            len > 0,
            start < len,
            selectable@.len() == len,
            k < len,
            idx < len,
            idx as int == orbit(start as int, delta as int, len as int, k as int),
            forall|j: int| 1 <= j <= k ==> #[trigger] orbit(start as int, delta as int, len as int, j) != start
                && !selectable@[orbit(start as int, delta as int, len as int, j)],
        decreases len - k,
    {
        proof {
            lemma_orbit_step(start as int, delta as int, len as int, k as int);
        }
        idx = wrap_step(idx, delta, len);
        k = k + 1;
        if idx == start || selectable[idx] {
            proof {
                assert(orbit(start as int, delta as int, len as int, k as int) == idx as int);
            }
            return idx;
        }
        proof {
            if k == len {
                lemma_orbit_returns(start as int, delta as int, len as int);
            }
        }
    }
}

/// Law: moving the selection never lands on a heading when it starts on a
/// song.
pub proof fn law_wrapping_move_stays_on_songs(start: int, delta: int, len: int, sel: Seq<bool>, r: int)
    requires
        0 <= start < len,
        sel.len() == len,
        sel[start],
        wrapping_target(start, delta, len, sel, r),
    ensures
        sel[r],
{
}

/// Moves a plain list selection by `delta`, wrapping around `len` rows; an
/// empty list is left alone.
pub fn move_wrapping(state: &mut ListState, len: usize, delta: isize)
    ensures
        len == 0 ==> *final(state) == *old(state),
        len > 0 ==> final(state).selected == Some(wrapped(old(state).selected, delta, len)),
        len > 0 ==> final(state).offset == old(state).offset,
{
    if len == 0 {
        return;
    }
    let start = match state.selected {
        Some(i) => i,
        None => 0,
    };
    let idx = wrap_step(start, delta, len);
    state.select(Some(idx));
}

/// Where a wrapping move by `delta` from the selection (or from the top)
/// lands.
pub open spec fn wrapped(selected: Option<usize>, delta: isize, len: usize) -> usize {
    let start: int = match selected {
        Some(i) => i as int,
        None => 0,
    };
    ((start + delta) % (len as int)) as usize
}

/// The selectable row nearest to `idx` (clamped to the list): the distance
/// grows one row at a time, and at each distance the row below is tried
/// before the row above.
pub fn nearest_selectable(idx: usize, len: usize, selectable: &[bool]) -> (r: Option<usize>)
    requires
        selectable@.len() == len,
    ensures
        r matches Some(j) ==> j < len && selectable@[j as int] && nearest_at(idx, len, selectable@, j),
        r is None <==> forall|j: int| 0 <= j < len ==> !#[trigger] selectable@[j],
{
    if len == 0 {
        return None;
    }
    let c = if idx < len - 1 { idx } else { len - 1 };
    let mut radius: usize = 0;
    while radius < len
        invariant
            selectable@.len() == len,
            len > 0,
            c < len,
            c == (if idx < len - 1 { idx } else { (len - 1) as usize }),
            radius <= len,
            forall|j: int| 0 <= j < len && dist(j, c as int) < radius ==> !#[trigger] selectable@[j],
        decreases len - radius,
    {
        if radius < len - c && selectable[c + radius] {
            return Some(c + radius);
        }
        if radius <= c && selectable[c - radius] {
            return Some(c - radius);
        }
        radius = radius + 1;
    }
    assert forall|j: int| 0 <= j < len implies !#[trigger] selectable@[j] by {
        assert(dist(j, c as int) < radius);
    }
    None
}

/// The distance between two rows.
pub open spec fn dist(a: int, b: int) -> int {
    if a >= b { a - b } else { b - a }
}

/// `j` is the row `nearest_selectable` picks around `idx`: no selectable
/// row is closer, and at equal distance the row below wins.
pub open spec fn nearest_at(idx: usize, len: usize, sel: Seq<bool>, j: usize) -> bool {
    let c: int = if idx < len - 1 { idx as int } else { len - 1 };
    &&& forall|q: int| 0 <= q < len && dist(q, c) < dist(j as int, c) ==> !#[trigger] sel[q]
    &&& (j < c ==> !(c + (c - j) < len && sel[c + (c - j)]))
}

/// The first selectable row.
pub fn first_selectable(len: usize, selectable: &[bool]) -> (r: Option<usize>)
    requires
        selectable@.len() == len,
    ensures
        r matches Some(j) ==> j < len && selectable@[j as int] && forall|q: int| 0 <= q < j ==> !#[trigger] selectable@[q],
        r is None <==> forall|q: int| 0 <= q < len ==> !#[trigger] selectable@[q],
{
    let mut i: usize = 0;
    while i < len
        invariant
            selectable@.len() == len,
            i <= len,
            forall|q: int| 0 <= q < i ==> !#[trigger] selectable@[q],
        decreases len - i,
    {
        if selectable[i] {
            return Some(i);
        }
        i = i + 1;
    }
    None
}

/// The last selectable row.
pub fn last_selectable(len: usize, selectable: &[bool]) -> (r: Option<usize>)
    requires
        selectable@.len() == len,
    ensures
        r matches Some(j) ==> j < len && selectable@[j as int] && forall|q: int| j < q < len ==> !#[trigger] selectable@[q],
        r is None <==> forall|q: int| 0 <= q < len ==> !#[trigger] selectable@[q],
{
    let mut i: usize = len;
    while i > 0
        invariant
            selectable@.len() == len,
            i <= len,
            forall|q: int| i <= q < len ==> !#[trigger] selectable@[q],
        decreases i,
    {
        i = i - 1;
        if selectable[i] {
            return Some(i);
        }
    }
    None
}


/// `t` is the row a jump lands on near `mid`: the nearest selectable row,
/// or `mid` itself when no row is selectable.
pub open spec fn lands_near(mid: usize, len: usize, sel: Seq<bool>, t: usize) -> bool {
    if exists|j: int| 0 <= j < len && #[trigger] sel[j] {
        t < len && sel[t as int] && nearest_at(mid, len, sel, t)
    } else {
        t == mid
    }
}

/// `t` is the last selectable row, or the last row when none is selectable.
pub open spec fn lands_last(len: usize, sel: Seq<bool>, t: usize) -> bool {
    if exists|j: int| 0 <= j < len && #[trigger] sel[j] {
        t < len && sel[t as int] && forall|q: int| t < q < len ==> !#[trigger] sel[q]
    } else {
        t == len - 1
    }
}

/// `t` is the first selectable row, or the first row when none is
/// selectable.
pub open spec fn lands_first(len: usize, sel: Seq<bool>, t: usize) -> bool {
    if exists|j: int| 0 <= j < len && #[trigger] sel[j] {
        t < len && sel[t as int] && forall|q: int| 0 <= q < t ==> !#[trigger] sel[q]
    } else {
        t == 0
    }
}

/// The smaller of two integers.
pub open spec fn min_int(a: int, b: int) -> int {
    if a <= b { a } else { b }
}

/// A page jump: the new scroll offset and the row it selects.
///
/// Forwards, the view scrolls so that the last visible row comes to the
/// top, and the selection lands near the middle of the new page; when the
/// view already shows the end, the view snaps to the last page and the last
/// song is selected. Backwards mirrors this, ending at the first song.
pub open spec fn jump_spec(offset: usize, len: usize, height: usize, direction: Direction, sel: Seq<bool>, r: (usize, usize)) -> bool {
    let h: int = if height >= 1 { height as int } else { 1 };
    let o: int = min_int(offset as int, len - 1);
    match direction {
        Direction::Forwards => {
            let lv = min_int(o + h - 1, len - 1);
            if lv > o {
                &&& r.0 == lv
                &&& lands_near(min_int(lv + h / 2, len - 1) as usize, len, sel, r.1)
            } else {
                &&& r.0 == (if len >= h { len - h } else { 0 })
                &&& lands_last(len, sel, r.1)
            }
        },
        Direction::Backwards => {
            if o > 0 {
                let no: int = if o >= h - 1 { o - (h - 1) } else { 0 };
                &&& r.0 == no
                &&& lands_near(min_int(no + h / 2, len - 1) as usize, len, sel, r.1)
            } else {
                &&& r.0 == 0
                &&& lands_first(len, sel, r.1)
            }
        },
    }
}

/// `a + b`, capped at `cap`, without overflowing.
fn add_capped(a: usize, b: usize, cap: usize) -> (r: usize)
    requires
        a <= cap,
    ensures
        r as int == min_int(a + b, cap as int),
{
    if b >= cap - a { cap } else { a + b }
}

/// Where a page jump takes the view of a list of `len` rows that shows
/// `height` rows from `offset`: the new offset and the selected row.
pub fn compute_jump(offset: usize, len: usize, height: usize, direction: Direction, selectable: &[bool]) -> (r: (usize, usize))
    requires
        len > 0,
        selectable@.len() == len,
    ensures
        jump_spec(offset, len, height, direction, selectable@, r),
        r.0 < len,
        r.1 < len,
{
    let h = if height >= 1 { height } else { 1 };
    let o = if offset < len - 1 { offset } else { len - 1 };
    match direction {
        Direction::Forwards => {
            let lv = add_capped(o, h - 1, len - 1);
            if lv > o {
                let mid = add_capped(lv, h / 2, len - 1);
                let target = match nearest_selectable(mid, len, selectable) {
                    Some(t) => t,
                    None => mid,
                };
                (lv, target)
            } else {
                let target = match last_selectable(len, selectable) {
                    Some(t) => t,
                    None => len - 1,
                };
                (if len >= h { len - h } else { 0 }, target)
            }
        },
        Direction::Backwards => {
            if o > 0 {
                let no = if o >= h - 1 { o - (h - 1) } else { 0 };
                let mid = add_capped(no, h / 2, len - 1);
                let target = match nearest_selectable(mid, len, selectable) {
                    Some(t) => t,
                    None => mid,
                };
                (no, target)
            } else {
                let target = match first_selectable(len, selectable) {
                    Some(t) => t,
                    None => 0,
                };
                (0, target)
            }
        },
    }
}

/// `t` is the song row a selection at `start` settles on: `start` itself
/// when it is a song, else the first song at or after it, else the first
/// song of all, else `start`.
pub open spec fn settles_on(rows: Seq<Row>, start: int, t: int) -> bool {
    if rows[start] is Song {
        t == start
    } else if exists|j: int| start <= j < rows.len() && #[trigger] rows[j] is Song {
        start <= t < rows.len() && rows[t] is Song && forall|q: int| start <= q < t ==> !(#[trigger] rows[q] is Song)
    } else if exists|j: int| 0 <= j < rows.len() && #[trigger] rows[j] is Song {
        0 <= t < rows.len() && rows[t] is Song && forall|q: int| 0 <= q < t ==> !(#[trigger] rows[q] is Song)
    } else {
        t == start
    }
}

/// The song row nearest to `start` going down, wrapping to the top; `start`
/// when the list holds no song.
pub fn nearest_song_row(rows: &[Row], start: usize) -> (t: usize)
    requires
        start < rows@.len(),
    ensures
        t < rows@.len(),
        settles_on(rows@, start as int, t as int),
{
    if rows[start].is_song() {
        return start;
    }
    let mut i: usize = start;
    while i < rows.len()
        invariant
            start <= i <= rows@.len(),
            forall|q: int| start <= q < i ==> !(#[trigger] rows@[q] is Song),
        decreases rows@.len() - i,
    {
        if rows[i].is_song() {
            return i;
        }
        i = i + 1;
    }
    let mut k: usize = 0;
    while k < rows.len()
        invariant
            k <= rows@.len(),
            start < rows@.len(),
            forall|q: int| start <= q < rows@.len() ==> !(#[trigger] rows@[q] is Song),
            forall|q: int| 0 <= q < k ==> !(#[trigger] rows@[q] is Song),
        decreases rows@.len() - k,
    {
        if rows[k].is_song() {
            return k;
        }
        k = k + 1;
    }
    start
}

/// The number of song rows.
pub open spec fn count_songs(rows: Seq<Row>) -> nat
    decreases rows.len(),
{
    if rows.len() == 0 {
        0
    } else {
        count_songs(rows.drop_last()) + (if rows.last() is Song { 1nat } else { 0nat })
    }
}

/// How many of the rows are songs.
pub fn song_count(rows: &[Row]) -> (n: usize)
    ensures
        n == count_songs(rows@),
{
    let mut n: usize = 0;
    let mut i: usize = 0;
    while i < rows.len()
        invariant
            i <= rows@.len(),
            n == count_songs(rows@.take(i as int)),
            n <= i,
        decreases rows@.len() - i,
    {
        assert(rows@.take(i as int + 1).drop_last() =~= rows@.take(i as int));
        if rows[i].is_song() {
            n = n + 1;
        }
        i = i + 1;
    }
    assert(rows@.take(i as int) =~= rows@);
    n
}

/// Scrolls up by one row when the selected song sits just below a heading
/// that is scrolled out of view, so the heading stays visible.
pub fn keep_header_in_view(list_state: &mut ListState, rows: &[Row])
    ensures
        final(list_state).selected == old(list_state).selected,
        final(list_state).offset == (match old(list_state).selected {
            Some(s) => if s > 0 && s - 1 < rows@.len() && rows@[s - 1] is Header && old(list_state).offset > s - 1 {
                (s - 1) as usize
            } else {
                old(list_state).offset
            },
            None => old(list_state).offset,
        }),
{
    if let Some(selected) = list_state.selected {
        if selected > 0 && selected - 1 < rows.len() && !rows[selected - 1].is_song() && list_state.offset > selected - 1 {
            list_state.offset = selected - 1;
        }
    }
}

/// The rows of a list that fit on screen: `start..end`, and the selected
/// row counted from `start`.
#[derive(Clone, Copy, Debug, PartialEq, Eq, Structural)]
pub struct Viewport {
    pub start: usize,
    pub end: usize,
    pub selected: Option<usize>,
}

/// The scroll offset `viewport` settles on: the stored offset, moved just
/// enough to show the selected row, and never past the last full page.
pub open spec fn settled_offset(offset: usize, selected: Option<usize>, len: int, height: int) -> int {
    let o1 = min_int(offset as int, len - 1);
    let o2 = match selected {
        Some(s) => if s < o1 { s as int } else if s >= o1 + height { s + 1 - height } else { o1 },
        None => o1,
    };
    min_int(o2, len - min_int(height, len))
}

/// The selection, kept only when it points inside a list of `len` rows.
pub open spec fn selection_in(selected: Option<usize>, len: usize) -> Option<usize> {
    match selected {
        Some(s) => if s < len { Some(s) } else { None },
        None => None,
    }
}

/// The list state after `viewport` and the window it returns.
pub open spec fn viewport_spec(state: ListState, len: usize, height: usize) -> (ListState, Viewport) {
    if len == 0 || height == 0 {
        (state, Viewport { start: 0, end: 0, selected: None })
    } else {
        let sel = selection_in(state.selected, len);
        let o = settled_offset(state.offset, sel, len as int, height as int);
        let local = match sel {
            Some(s) => Some((s - o) as usize),
            None => None,
        };
        (
            ListState { offset: o as usize, selected: state.selected },
            Viewport { start: o as usize, end: min_int(o + height, len as int) as usize, selected: local },
        )
    }
}

/// The window of rows that a panel `height` rows high shows, scrolling the
/// list just enough to keep the selection in view. The new offset is stored
/// back into the list state.
pub fn viewport(list_state: &mut ListState, len: usize, height: usize) -> (v: Viewport)
    ensures
        (*final(list_state), v) == viewport_spec(*old(list_state), len, height),
        v.start <= v.end <= len,
        v.end - v.start <= height,
        (v.selected matches Some(k) ==> v.start + k < v.end),
{
    if len == 0 || height == 0 {
        return Viewport { start: 0, end: 0, selected: None };
    }
    let selected = match list_state.selected {
        Some(s) => if s < len { Some(s) } else { None },
        None => None,
    };
    let mut offset = if list_state.offset < len - 1 { list_state.offset } else { len - 1 };
    if let Some(sel) = selected {
        if sel < offset {
            offset = sel;
        } else if sel - offset >= height {
            offset = sel + 1 - height;
        }
    }
    let shown = if height < len { height } else { len };
    if offset > len - shown {
        offset = len - shown;
    }
    list_state.offset = offset;
    let end = if height >= len - offset { len } else { offset + height };
    let local = match selected {
        Some(s) => Some(s - offset),
        None => None,
    };
    Viewport { start: offset, end, selected: local }
}

/// Law: the window `viewport` returns shows the selected row, whenever the
/// selection points inside the list.
pub proof fn law_viewport_shows_selection(offset: usize, s: usize, len: usize, height: usize)
    requires
        s < len,
        height > 0,
    ensures
        ({
            let o = settled_offset(offset, Some(s), len as int, height as int);
            o <= s < min_int(o + height, len as int)
        }),
{
}

} // verus!
