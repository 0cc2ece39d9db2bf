//! The view settings of the two panels (grouping, sort order, how playlists
//! are shown), the panel and playlist views, the status line, and the small
//! cycles that step through them.
use vstd::prelude::*;
use crate::navigation::{wrap_step, ListState};
use crate::playlist::PlaylistId;
use crate::song::{MetadataEdits, SongId, needs_romanization, spec_needs_romanization};
use crate::text::{chars_of, is_whitespace, spec_is_whitespace};

verus! {

/// Values that can be stepped through in a fixed list and told apart.
pub trait Cyclic: Copy {
    /// Whether two values are the same.
    fn same(&self, other: &Self) -> (b: bool)
        ensures
            b == (*self == *other);
}

/// The position of the first `x` in `s`, from position `i` on; 0 when `x`
/// does not occur there.
pub open spec fn position_from<T>(s: Seq<T>, x: T, i: int) -> int
    decreases s.len() - i,
{
    if i < 0 || i >= s.len() {
        0
    } else if s[i] == x {
        i
    } else {
        position_from(s, x, i + 1)
    }
}

/// The position of the first `x` in `s`, or 0 when it is missing.
pub open spec fn position_of<T>(s: Seq<T>, x: T) -> int {
    position_from(s, x, 0)
}

/// The value `delta` places after `current` in `all`, wrapping around; a
/// value missing from `all` counts as standing first.
pub open spec fn cycled<T>(all: Seq<T>, current: T, delta: int) -> T {
    all[(position_of(all, current) + delta) % (all.len() as int)]
}

proof fn lemma_position_from<T>(s: Seq<T>, x: T, i: int)
    requires
        0 <= i <= s.len(),
    ensures
        0 <= position_from(s, x, i) < s.len() || (s.len() == 0 && position_from(s, x, i) == 0),
        (exists|k: int| i <= k < s.len() && s[k] == x) ==> s[position_from(s, x, i)] == x && i <= position_from(s, x, i)
            && forall|k: int| i <= k < position_from(s, x, i) ==> s[k] != x,
        !(exists|k: int| i <= k < s.len() && s[k] == x) ==> position_from(s, x, i) == 0,
    decreases s.len() - i,
{
    if i < s.len() && s[i] != x {
        lemma_position_from(s, x, i + 1);
        if exists|k: int| i <= k < s.len() && s[k] == x {
            let k = choose|k: int| i <= k < s.len() && s[k] == x;
            assert(i + 1 <= k);
        }
    }
}

/// Steps from `current` by `delta` places through `all`, wrapping around.
/// A value missing from `all` counts as standing first.
pub fn cycle<T: Cyclic>(all: &[T], current: T, delta: isize) -> (r: T)
    requires
        all@.len() > 0,
    ensures
        r == cycled(all@, current, delta as int),
{
    let mut idx: usize = 0;
    while idx < all.len()
        invariant
            idx <= all@.len(),
            forall|k: int| 0 <= k < idx ==> all@[k] != current,
            position_of(all@, current) == position_from(all@, current, idx as int),
        decreases all@.len() - idx,
    {
        if all[idx].same(&current) {
            let k = wrap_step(idx, delta, all.len());
            return all[k];
        }
        idx = idx + 1;
    }
    let k = wrap_step(0, delta, all.len());
    all[k]
}

/// Law: stepping forwards then backwards (or backwards then forwards) from a
/// value of a list whose values are distinct comes back to the value.
pub proof fn law_cycle_round_trip<T>(all: Seq<T>, x: T, delta: int)
    requires
        all.len() > 0,
        all.contains(x),
        forall|i: int, j: int| 0 <= i < all.len() && 0 <= j < all.len() && all[i] == all[j] ==> i == j,
    ensures
        cycled(all, cycled(all, x, delta), -delta) == x,
{
    let n = all.len() as int;
    let i = choose|i: int| 0 <= i < n && all[i] == x;
    lemma_position_from(all, x, 0);
    let p = position_of(all, x);
    assert(p == i);
    let q = (p + delta) % n;
    let y = all[q];
    lemma_position_from(all, y, 0);
    assert(position_of(all, y) == q);
    vstd::arithmetic::div_mod::lemma_add_mod_noop(p + delta, -delta, n);
    vstd::arithmetic::div_mod::lemma_mod_self_0(n);
    vstd::arithmetic::div_mod::lemma_small_mod(p as nat, n as nat);
    vstd::arithmetic::div_mod::lemma_mod_bound(p + delta, n);
    assert((q + -delta) % n == (p + delta + -delta) % n) by {
        vstd::arithmetic::div_mod::lemma_add_mod_noop(p + delta, -delta, n);
        vstd::arithmetic::div_mod::lemma_add_mod_noop(q, -delta, n);
        vstd::arithmetic::div_mod::lemma_mod_twice(p + delta, n);
    }
}

/// How the songs of a panel are grouped under headings.
#[derive(Clone, Copy, Debug, PartialEq, Eq, Structural)]
pub enum Category {
    Flat,
    Artist,
    Path,
}

impl Cyclic for Category {
    fn same(&self, other: &Self) -> (b: bool) {
        *self == *other
    }
}

/// The place of a grouping in the cycle: flat, by artist, by directory.
pub open spec fn category_index(c: Category) -> int {
    match c {
        Category::Flat => 0,
        Category::Artist => 1,
        Category::Path => 2,
    }
}

/// The grouping at a place of the cycle.
pub open spec fn category_at(i: int) -> Category {
    if i == 0 { Category::Flat } else if i == 1 { Category::Artist } else { Category::Path }
}

impl Default for Category {
    fn default() -> (c: Category)
        ensures
            c == Category::Flat,
    {
        Category::Flat
    }
}

impl Category {
    /// Every grouping, in cycle order.
    pub fn all() -> (v: Vec<Category>)
        ensures
            v@ == seq![Category::Flat, Category::Artist, Category::Path],
    {
        vec![Category::Flat, Category::Artist, Category::Path]
    }

    /// The grouping's name on screen.
    pub fn label(&self) -> (s: &'static str)
        ensures
            s@ == category_label(*self),
    {
        match self {
            Category::Flat => "none",
            Category::Artist => "artist",
            Category::Path => "path",
        }
    }

    /// The next grouping, wrapping from the last to the first.
    pub fn next(self) -> (c: Category)
        ensures
            c == category_at((category_index(self) + 1) % 3),
    {
        match self {
            Category::Flat => Category::Artist,
            Category::Artist => Category::Path,
            Category::Path => Category::Flat,
        }
    }

    /// The previous grouping, wrapping from the first to the last.
    pub fn prev(self) -> (c: Category)
        ensures
            c == category_at((category_index(self) + 2) % 3),
    {
        match self {
            Category::Flat => Category::Path,
            Category::Artist => Category::Flat,
            Category::Path => Category::Artist,
        }
    }
}

/// The name of a grouping on screen.
pub open spec fn category_label(c: Category) -> Seq<char> {
    match c {
        Category::Flat => "none"@,
        Category::Artist => "artist"@,
        Category::Path => "path"@,
    }
}

/// Law: `next` and `prev` undo each other for groupings.
pub proof fn law_category_next_prev(c: Category)
    ensures
        category_at((category_index(category_at((category_index(c) + 1) % 3)) + 2) % 3) == c,
        category_at((category_index(category_at((category_index(c) + 2) % 3)) + 1) % 3) == c,
{
}

/// The order of the songs within a group.
#[derive(Clone, Copy, Debug, PartialEq, Eq, Structural)]
pub enum Sort {
    Title,
    Duration,
    Artist,
    Path,
    DateModified,
}

impl Cyclic for Sort {
    fn same(&self, other: &Self) -> (b: bool) {
        *self == *other
    }
}

/// The place of a sort order in the cycle.
pub open spec fn sort_index(s: Sort) -> int {
    match s {
        Sort::Title => 0,
        Sort::Duration => 1,
        Sort::Artist => 2,
        Sort::Path => 3,
        Sort::DateModified => 4,
    }
}

/// The sort order at a place of the cycle.
pub open spec fn sort_at(i: int) -> Sort {
    if i == 0 {
        Sort::Title
    } else if i == 1 {
        Sort::Duration
    } else if i == 2 {
        Sort::Artist
    } else if i == 3 {
        Sort::Path
    } else {
        Sort::DateModified
    }
}

impl Default for Sort {
    fn default() -> (s: Sort)
        ensures
            s == Sort::Title,
    {
        Sort::Title
    }
}

impl Sort {
    /// Every sort order, in cycle order.
    pub fn all() -> (v: Vec<Sort>)
        ensures
            v@ == seq![Sort::Title, Sort::Duration, Sort::Artist, Sort::Path, Sort::DateModified],
    {
        vec![Sort::Title, Sort::Duration, Sort::Artist, Sort::Path, Sort::DateModified]
    }

    /// The sort order's name on screen.
    pub fn label(&self) -> (s: &'static str)
        ensures
            s@ == sort_label(*self),
    {
        match self {
            Sort::Title => "title",
            Sort::Duration => "duration",
            Sort::Artist => "artist",
            Sort::Path => "path",
            Sort::DateModified => "date modified",
        }
    }

    /// The next sort order, wrapping from the last to the first.
    pub fn next(self) -> (s: Sort)
        ensures
            s == sort_at((sort_index(self) + 1) % 5),
    {
        match self {
            Sort::Title => Sort::Duration,
            Sort::Duration => Sort::Artist,
            Sort::Artist => Sort::Path,
            Sort::Path => Sort::DateModified,
            Sort::DateModified => Sort::Title,
        }
    }

    /// The previous sort order, wrapping from the first to the last.
    pub fn prev(self) -> (s: Sort)
        ensures
            s == sort_at((sort_index(self) + 4) % 5),
    {
        match self {
            Sort::Title => Sort::DateModified,
            Sort::Duration => Sort::Title,
            Sort::Artist => Sort::Duration,
            Sort::Path => Sort::Artist,
            Sort::DateModified => Sort::Path,
        }
    }
}

/// The name of a sort order on screen.
pub open spec fn sort_label(s: Sort) -> Seq<char> {
    match s {
        Sort::Title => "title"@,
        Sort::Duration => "duration"@,
        Sort::Artist => "artist"@,
        Sort::Path => "path"@,
        Sort::DateModified => "date modified"@,
    }
}

/// Law: `next` and `prev` undo each other for sort orders.
pub proof fn law_sort_next_prev(s: Sort)
    ensures
        sort_at((sort_index(sort_at((sort_index(s) + 1) % 5)) + 4) % 5) == s,
        sort_at((sort_index(sort_at((sort_index(s) + 4) % 5)) + 1) % 5) == s,
{
}

/// Whether a search query filters anything: it holds a character that is
/// not white space.
pub open spec fn filters(query: Seq<char>) -> bool {
    exists|i: int| 0 <= i < query.len() && !spec_is_whitespace(#[trigger] query[i])
}

/// Whether a search query filters the list: a query of white space alone
/// does not.
pub fn is_filtering(query: &str) -> (b: bool)
    ensures
        b == filters(query@),
{
    let cs = chars_of(query);
    let mut i: usize = 0;
    while i < cs.len()
        invariant
            cs@ == query@,
            i <= cs@.len(),
            forall|k: int| 0 <= k < i ==> spec_is_whitespace(#[trigger] cs@[k]),
        decreases cs@.len() - i,
    {
        if !is_whitespace(cs[i]) {
            return true;
        }
        i = i + 1;
    }
    false
}

/// Which panel has the focus.
#[derive(Clone, Copy, Debug, PartialEq, Eq, Structural)]
pub enum Panel {
    Library,
    Playlists,
}

/// How a song row shows the playlists that hold the song.
#[derive(Clone, Copy, Debug, PartialEq, Eq, Structural)]
pub enum PlaylistDisplayMode {
    Hidden,
    Count,
    Expanded,
}

impl Default for PlaylistDisplayMode {
    fn default() -> (m: PlaylistDisplayMode)
        ensures
            m == PlaylistDisplayMode::Hidden,
    {
        PlaylistDisplayMode::Hidden
    }
}

/// The display mode after `m` in the cycle hidden, count, names.
pub open spec fn display_mode_after(m: PlaylistDisplayMode) -> PlaylistDisplayMode {
    match m {
        PlaylistDisplayMode::Hidden => PlaylistDisplayMode::Count,
        PlaylistDisplayMode::Count => PlaylistDisplayMode::Expanded,
        PlaylistDisplayMode::Expanded => PlaylistDisplayMode::Hidden,
    }
}

impl PlaylistDisplayMode {
    /// The next display mode: hidden, then the count, then the names.
    pub fn cycle(self) -> (m: PlaylistDisplayMode)
        ensures
            m == display_mode_after(self),
    {
        match self {
            PlaylistDisplayMode::Hidden => PlaylistDisplayMode::Count,
            PlaylistDisplayMode::Count => PlaylistDisplayMode::Expanded,
            PlaylistDisplayMode::Expanded => PlaylistDisplayMode::Hidden,
        }
    }

    /// The display mode's name on screen.
    pub fn label(&self) -> (s: &'static str)
        ensures
            s@ == (match *self {
                PlaylistDisplayMode::Hidden => "hidden"@,
                PlaylistDisplayMode::Count => "count"@,
                PlaylistDisplayMode::Expanded => "names"@,
            }),
    {
        match self {
            PlaylistDisplayMode::Hidden => "hidden",
            PlaylistDisplayMode::Count => "count",
            PlaylistDisplayMode::Expanded => "names",
        }
    }
}

/// Law: three steps of the display-mode cycle come back to the start.
pub proof fn law_display_mode_cycle_returns(m: PlaylistDisplayMode)
    ensures
        display_mode_after(display_mode_after(display_mode_after(m))) == m,
{
}

/// Where the play queue takes its songs from.
#[derive(Clone, Copy, Debug, PartialEq, Eq, Structural)]
pub enum QueueSource {
    Library,
    Playlist(PlaylistId),
}

/// What the playlists panel shows: the list of playlists, or the songs of
/// one of them.
#[derive(Clone, Copy, Debug, PartialEq, Eq, Structural)]
pub enum PlaylistView {
    Browsing,
    Viewing(PlaylistId),
}

impl Default for PlaylistView {
    fn default() -> (v: PlaylistView)
        ensures
            v == PlaylistView::Browsing,
    {
        PlaylistView::Browsing
    }
}

/// The field of the song-actions dialog that has the focus.
#[derive(Clone, Copy, Debug, PartialEq, Eq, Structural)]
pub enum ChooseActionField {
    AddToPlaylist,
    RemoveFromPlaylist,
    CreatePlaylist,
}

/// How a status message is shown.
#[derive(Clone, Copy, Debug, PartialEq, Eq, Structural)]
pub enum StatusKind {
    Info,
    Success,
    Error,
}

/// A field of the metadata editor.
#[derive(Clone, Copy, Debug, PartialEq, Eq, Structural)]
pub enum MetadataField {
    Title,
    TitleSort,
    Artist,
    ArtistSort,
    Album,
    Genre,
    Track,
    Date,
}

impl Cyclic for MetadataField {
    fn same(&self, other: &Self) -> (b: bool) {
        *self == *other
    }
}

/// The editor's fields in tab order, the romanized ones shown only when the
/// title or the artist needs one.
pub open spec fn metadata_visible(e: MetadataEdits) -> Seq<MetadataField> {
    seq![MetadataField::Title]
        + (if spec_needs_romanization(e.title@) { seq![MetadataField::TitleSort] } else { seq![] })
        + seq![MetadataField::Artist]
        + (if spec_needs_romanization(e.artist@) { seq![MetadataField::ArtistSort] } else { seq![] })
        + seq![MetadataField::Album, MetadataField::Genre, MetadataField::Track, MetadataField::Date]
}

/// The text of a field of the edits.
pub open spec fn metadata_value(e: MetadataEdits, f: MetadataField) -> String {
    match f {
        MetadataField::Title => e.title,
        MetadataField::TitleSort => e.title_sort,
        MetadataField::Artist => e.artist,
        MetadataField::ArtistSort => e.artist_sort,
        MetadataField::Album => e.album,
        MetadataField::Genre => e.genre,
        MetadataField::Track => e.track,
        MetadataField::Date => e.date,
    }
}

/// The edits with one field replaced.
pub open spec fn metadata_with(e: MetadataEdits, f: MetadataField, v: String) -> MetadataEdits {
    match f {
        MetadataField::Title => MetadataEdits { title: v, ..e },
        MetadataField::TitleSort => MetadataEdits { title_sort: v, ..e },
        MetadataField::Artist => MetadataEdits { artist: v, ..e },
        MetadataField::ArtistSort => MetadataEdits { artist_sort: v, ..e },
        MetadataField::Album => MetadataEdits { album: v, ..e },
        MetadataField::Genre => MetadataEdits { genre: v, ..e },
        MetadataField::Track => MetadataEdits { track: v, ..e },
        MetadataField::Date => MetadataEdits { date: v, ..e },
    }
}

impl MetadataField {
    /// Every field, in tab order.
    pub fn all() -> (v: Vec<MetadataField>)
        ensures
            v@ == seq![
                MetadataField::Title, MetadataField::TitleSort, MetadataField::Artist, MetadataField::ArtistSort,
                MetadataField::Album, MetadataField::Genre, MetadataField::Track, MetadataField::Date,
            ],
    {
        vec![
            MetadataField::Title, MetadataField::TitleSort, MetadataField::Artist, MetadataField::ArtistSort,
            MetadataField::Album, MetadataField::Genre, MetadataField::Track, MetadataField::Date,
        ]
    }

    /// The fields the editor shows for these edits, in tab order: the
    /// romanized title and artist only when the title or the artist holds a
    /// character outside ASCII.
    pub fn visible(edits: &MetadataEdits) -> (v: Vec<MetadataField>)
        ensures
            v@ == metadata_visible(*edits),
    {
        let mut v: Vec<MetadataField> = Vec::new();
        v.push(MetadataField::Title);
        if needs_romanization(edits.title.as_str()) {
            v.push(MetadataField::TitleSort);
        }
        v.push(MetadataField::Artist);
        if needs_romanization(edits.artist.as_str()) {
            v.push(MetadataField::ArtistSort);
        }
        v.push(MetadataField::Album);
        v.push(MetadataField::Genre);
        v.push(MetadataField::Track);
        v.push(MetadataField::Date);
        assert(v@ =~= metadata_visible(*edits));
        v
    }

    /// The field's name in the editor.
    pub fn label(&self) -> (s: &'static str)
        ensures
            s@ == (match *self {
                MetadataField::Title => "Title"@,
                MetadataField::TitleSort => "Title (roman.)"@,
                MetadataField::Artist => "Artist"@,
                MetadataField::ArtistSort => "Artist (roman.)"@,
                MetadataField::Album => "Album"@,
                MetadataField::Genre => "Genre"@,
                MetadataField::Track => "Track"@,
                MetadataField::Date => "Date"@,
            }),
    {
        match self {
            MetadataField::Title => "Title",
            MetadataField::TitleSort => "Title (roman.)",
            MetadataField::Artist => "Artist",
            MetadataField::ArtistSort => "Artist (roman.)",
            MetadataField::Album => "Album",
            MetadataField::Genre => "Genre",
            MetadataField::Track => "Track",
            MetadataField::Date => "Date",
        }
    }

    /// The next shown field, wrapping around.
    pub fn next(self, edits: &MetadataEdits) -> (f: MetadataField)
        ensures
            f == cycled(metadata_visible(*edits), self, 1),
    {
        let v = MetadataField::visible(edits);
        cycle(v.as_slice(), self, 1)
    }

    /// The previous shown field, wrapping around.
    pub fn prev(self, edits: &MetadataEdits) -> (f: MetadataField)
        ensures
            f == cycled(metadata_visible(*edits), self, -1),
    {
        let v = MetadataField::visible(edits);
        cycle(v.as_slice(), self, -1)
    }

    /// The text of this field of the edits.
    pub fn value<'a>(&self, edits: &'a MetadataEdits) -> (s: &'a str)
        ensures
            s@ == metadata_value(*edits, *self)@,
    {
        match self {
            MetadataField::Title => edits.title.as_str(),
            MetadataField::TitleSort => edits.title_sort.as_str(),
            MetadataField::Artist => edits.artist.as_str(),
            MetadataField::ArtistSort => edits.artist_sort.as_str(),
            MetadataField::Album => edits.album.as_str(),
            MetadataField::Genre => edits.genre.as_str(),
            MetadataField::Track => edits.track.as_str(),
            MetadataField::Date => edits.date.as_str(),
        }
    }

    /// The text of this field of the edits, to change in place.
    pub fn value_mut<'a>(&self, edits: &'a mut MetadataEdits) -> (s: &'a mut String)
        ensures
            *s == metadata_value(*old(edits), *self),
            *final(edits) == metadata_with(*old(edits), *self, *final(s)),
    {
        match self {
            MetadataField::Title => &mut edits.title,
            MetadataField::TitleSort => &mut edits.title_sort,
            MetadataField::Artist => &mut edits.artist,
            MetadataField::ArtistSort => &mut edits.artist_sort,
            MetadataField::Album => &mut edits.album,
            MetadataField::Genre => &mut edits.genre,
            MetadataField::Track => &mut edits.track,
            MetadataField::Date => &mut edits.date,
        }
    }
}

/// Law: the editor's tab order always starts at the title, holds no field
/// twice, and Tab then Shift+Tab (or the reverse) comes back to the field
/// that had the focus.
pub proof fn law_metadata_tab_round_trip(e: MetadataEdits, f: MetadataField)
    requires
        metadata_visible(e).contains(f),
    ensures
        metadata_visible(e)[0] == MetadataField::Title,
        cycled(metadata_visible(e), cycled(metadata_visible(e), f, 1), -1) == f,
        cycled(metadata_visible(e), cycled(metadata_visible(e), f, -1), 1) == f,
{
    let v = metadata_visible(e);
    assert forall|i: int, j: int| 0 <= i < v.len() && 0 <= j < v.len() && v[i] == v[j] implies i == j by {
        assert(v[i] == v[j]);
    }
    law_cycle_round_trip(v, f, 1);
    law_cycle_round_trip(v, f, -1);
}

/// The status line's message when a heading is selected where a song is
/// needed.
pub fn heading_selected_message(heading: &str) -> (s: String)
    ensures
        s@ == "\""@ + heading@ + "\" is a heading -- select a song under it"@,
{
    let mut s = String::from_str("\"");
    s.append(heading);
    s.append("\" is a heading -- select a song under it");
    s
}

/// A status message to show, and how to show it.
pub struct StatusLine {
    pub text: String,
    pub kind: StatusKind,
}

/// `line` is present and shows `text` as `kind`.
pub open spec fn shows(line: Option<StatusLine>, kind: StatusKind, text: Seq<char>) -> bool {
    line matches Some(l) && l.kind == kind && l.text@ == text
}

/// How long an informational status message stays, in nanoseconds.
pub const STATUS_TTL_NANOS: u128 = 4_000_000_000;

/// The status line: a message, how it is shown, and when it was set (in
/// nanoseconds on a monotonic clock).
pub struct StatusMessage {
    pub text: String,
    pub kind: StatusKind,
    pub set_at_nanos: u128,
}

impl StatusMessage {
    /// A message set at `now_nanos`.
    pub fn new(text: String, kind: StatusKind, now_nanos: u128) -> (m: StatusMessage)
        ensures
            m.text == text,
            m.kind == kind,
            m.set_at_nanos == now_nanos,
    {
        StatusMessage { text, kind, set_at_nanos: now_nanos }
    }

    /// Clears a message that has been shown longer than four seconds, unless
    /// it reports an error (errors stay until replaced); says whether it
    /// cleared anything.
    pub fn expire_if_stale(&mut self, now_nanos: u128) -> (cleared: bool)
        ensures
            cleared == (old(self).kind != StatusKind::Error && old(self).text@.len() > 0
                && now_nanos > old(self).set_at_nanos && now_nanos - old(self).set_at_nanos > STATUS_TTL_NANOS),
            cleared ==> final(self).text@ == Seq::<char>::empty() && final(self).kind == old(self).kind
                && final(self).set_at_nanos == old(self).set_at_nanos,
            !cleared ==> *final(self) == *old(self),
    {
        let elapsed = if now_nanos > self.set_at_nanos { now_nanos - self.set_at_nanos } else { 0 };
        if self.kind != StatusKind::Error && chars_of(self.text.as_str()).len() > 0 && elapsed > STATUS_TTL_NANOS {
            self.text = String::new();
            return true;
        }
        false
    }
}

/// The directory prompt: the text typed, whether it is being edited, and a
/// directory waiting to be scanned.
pub struct DirScanState {
    pub dir_input: String,
    pub editing_dir: bool,
    pub pending_scan: Option<String>,
}

impl Default for DirScanState {
    fn default() -> (d: DirScanState)
        ensures
            d.dir_input@ == Seq::<char>::empty(),
            !d.editing_dir,
            d.pending_scan is None,
    {
        DirScanState { dir_input: String::new(), editing_dir: false, pending_scan: None }
    }
}

/// The library panel's settings and selection.
pub struct LibraryPanelState {
    pub list_state: ListState,
    pub search_query: String,
    pub searching: bool,
    pub category: Category,
    pub sort: Sort,
    pub playlist_mode: PlaylistDisplayMode,
    pub page_height: usize,
}

impl Default for LibraryPanelState {
    fn default() -> (p: LibraryPanelState)
        ensures
            p.list_state == ListState::new_spec(),
            p.search_query@ == Seq::<char>::empty(),
            !p.searching,
            p.category == Category::Flat,
            p.sort == Sort::Title,
            p.playlist_mode == PlaylistDisplayMode::Hidden,
            p.page_height == 0,
    {
        LibraryPanelState {
            list_state: ListState::new(),
            search_query: String::new(),
            searching: false,
            category: Category::Flat,
            sort: Sort::Title,
            playlist_mode: PlaylistDisplayMode::Hidden,
            page_height: 0,
        }
    }
}

/// The playlists panel's view, settings and selection.
pub struct PlaylistPanelState {
    pub view: PlaylistView,
    pub list_state: ListState,
    pub search_query: String,
    pub searching: bool,
    pub category: Category,
    pub sort: Sort,
    pub page_height: usize,
}

impl Default for PlaylistPanelState {
    fn default() -> (p: PlaylistPanelState)
        ensures
            p.view == PlaylistView::Browsing,
            p.list_state == ListState::new_spec(),
            p.search_query@ == Seq::<char>::empty(),
            !p.searching,
            p.category == Category::Flat,
            p.sort == Sort::Title,
            p.page_height == 0,
    {
        PlaylistPanelState {
            view: PlaylistView::Browsing,
            list_state: ListState::new(),
            search_query: String::new(),
            searching: false,
            category: Category::Flat,
            sort: Sort::Title,
            page_height: 0,
        }
    }
}

/// The metadata editor: the song, the edits, the romanized artist it
/// started with, the focused field and an error to show.
pub struct MetadataEditModal {
    pub song: SongId,
    pub edits: MetadataEdits,
    pub original_artist_sort: String,
    pub focused: MetadataField,
    pub error: Option<String>,
}

/// The question whether to give the other songs of an artist the
/// romanized artist just saved.
pub struct RomanizedArtistConfirmModal {
    pub artist_display: String,
    pub artist_sort_key: String,
    pub value: String,
    pub reference_song: SongId,
    pub count: usize,
}

/// The list beside the song-actions dialog.
pub enum SidePanel {
    AddToPlaylist { options: Vec<PlaylistId>, pinned: Vec<PlaylistId>, list_state: ListState },
    RemoveFromPlaylist { options: Vec<PlaylistId>, list_state: ListState },
}

/// The song-actions dialog.
pub struct SongModal {
    pub song: SongId,
    pub selected: ChooseActionField,
    pub name_input: String,
    pub side: Option<SidePanel>,
}

} // verus!
