//! What a key press does while the player runs: which dialog or prompt
//! takes it, the number typed to jump in the queue, the Esc cascade, and
//! the key handling of the text prompts and the metadata editor.
use vstd::prelude::*;
use crate::keymap::{binding_table, first_match, lookup, Action, KeyCode, KeyPress};
use crate::state::{
    cycled, metadata_value, metadata_visible, metadata_with, DirScanState, MetadataEditModal, MetadataField, Panel,
    PlaylistView,
};
use crate::text::{pop_char, push_char, spec_trim, trim};

verus! {

/// The most digits the queue-jump number holds.
pub const MAX_PENDING_DIGITS: usize = 3;

/// What is open and what the panels show when a key arrives.
#[derive(Clone, Copy, Debug, PartialEq, Eq)]
pub struct KeyContext {
    pub confirming_quit: bool,
    pub confirming_remove: bool,
    pub confirming_romanized: bool,
    pub showing_help: bool,
    pub song_modal: bool,
    pub metadata_modal: bool,
    pub youtube_modal: bool,
    pub editing_dir: bool,
    pub library_searching: bool,
    pub playlist_searching: bool,
    pub panel: Panel,
    pub playlist_view: PlaylistView,
    pub library_query_empty: bool,
    pub playlist_query_empty: bool,
}

/// Where a key press goes.
#[derive(Clone, Copy, Debug, PartialEq, Eq)]
pub enum KeyRoute {
    /// The quit question takes it.
    ConfirmQuit,
    /// The question whether to remove a song from a playlist takes it.
    ConfirmRemove,
    /// The question whether the artist's other songs get the romanized
    /// artist takes it.
    ConfirmRomanized,
    /// Any key closes the help screen.
    DismissHelp,
    /// The song-actions dialog takes it.
    SongModal,
    /// The metadata editor takes it.
    MetadataModal,
    /// The download dialog takes it.
    YoutubeModal,
    /// The directory prompt takes it.
    DirInput,
    /// The library search prompt takes it.
    LibrarySearch,
    /// The playlists search prompt takes it.
    PlaylistSearch,
    /// A digit of the queue-jump number; `grew` when it was appended (the
    /// number is full otherwise).
    Digit { grew: bool },
    /// Esc dropped a queue-jump number.
    CancelJump,
    /// Esc goes back from a playlist's songs to the list of playlists.
    LeavePlaylist,
    /// Esc clears the search over a playlist's songs.
    ClearPlaylistSearch,
    /// Esc clears the search over the list of playlists.
    ClearBrowseSearch,
    /// Esc clears the library search.
    ClearLibrarySearch,
    /// Esc with nothing else to undo asks whether to quit.
    AskQuit,
    /// The key map decides: the action bound to the key, if any.
    Dispatch(Option<Action>),
}

/// The digit a key press types, if it types one (modifiers do not matter).
pub open spec fn digit_of(key: KeyPress) -> Option<char> {
    match key.code {
        KeyCode::Char(c) => if '0' <= c && c <= '9' { Some(c) } else { None },
        _ => None,
    }
}

/// Where Esc goes when no dialog or prompt is open: it drops a queue-jump
/// number first, then leaves or clears what the panel shows, and finally
/// asks whether to quit.
pub open spec fn esc_route(ctx: KeyContext, had_pending: bool) -> KeyRoute {
    if had_pending {
        KeyRoute::CancelJump
    } else if ctx.panel == Panel::Playlists && ctx.playlist_view is Viewing {
        if ctx.playlist_query_empty { KeyRoute::LeavePlaylist } else { KeyRoute::ClearPlaylistSearch }
    } else if ctx.panel == Panel::Playlists && ctx.playlist_view is Browsing && !ctx.playlist_query_empty {
        KeyRoute::ClearBrowseSearch
    } else if ctx.panel == Panel::Library && !ctx.library_query_empty {
        KeyRoute::ClearLibrarySearch
    } else {
        KeyRoute::AskQuit
    }
}

/// Where a key goes when no dialog or prompt is open, and the queue-jump
/// number after it: a digit grows the number (up to three digits), `n`
/// keeps it for the jump, and any other key drops it.
pub open spec fn main_route(ctx: KeyContext, pending: Seq<char>, key: KeyPress) -> (KeyRoute, Seq<char>) {
    match digit_of(key) {
        Some(c) => if pending.len() < MAX_PENDING_DIGITS {
            (KeyRoute::Digit { grew: true }, pending.push(c))
        } else {
            (KeyRoute::Digit { grew: false }, pending)
        },
        None => {
            let kept = if key.code == KeyCode::Char('n') { pending } else { Seq::<char>::empty() };
            if key.code == KeyCode::Esc {
                (esc_route(ctx, pending.len() > 0), kept)
            } else {
                (KeyRoute::Dispatch(first_match(binding_table(), key, 0)), kept)
            }
        },
    }
}

/// Where a key goes, and the queue-jump number after it. The open dialogs
/// and prompts take it first, in this order: the quit question, the remove
/// question, the romanized-artist question, the help screen, the song-actions dialog, the metadata editor,
/// the download dialog, the directory prompt, the library search and the
/// playlists search; each of them leaves the number alone.
pub open spec fn route_spec(ctx: KeyContext, pending: Seq<char>, key: KeyPress) -> (KeyRoute, Seq<char>) {
    if ctx.confirming_quit {
        (KeyRoute::ConfirmQuit, pending)
    } else if ctx.confirming_remove {
        (KeyRoute::ConfirmRemove, pending)
    } else if ctx.confirming_romanized {
        (KeyRoute::ConfirmRomanized, pending)
    } else if ctx.showing_help {
        (KeyRoute::DismissHelp, pending)
    } else if ctx.song_modal {
        (KeyRoute::SongModal, pending)
    } else if ctx.metadata_modal {
        (KeyRoute::MetadataModal, pending)
    } else if ctx.youtube_modal {
        (KeyRoute::YoutubeModal, pending)
    } else if ctx.editing_dir {
        (KeyRoute::DirInput, pending)
    } else if ctx.library_searching {
        (KeyRoute::LibrarySearch, pending)
    } else if ctx.playlist_searching {
        (KeyRoute::PlaylistSearch, pending)
    } else {
        main_route(ctx, pending, key)
    }
}

fn esc_target(ctx: &KeyContext, had_pending: bool) -> (r: KeyRoute)
    ensures
        r == esc_route(*ctx, had_pending),
{
    if had_pending {
        KeyRoute::CancelJump
    } else if ctx.panel == Panel::Playlists && matches!(ctx.playlist_view, PlaylistView::Viewing(_)) {
        if ctx.playlist_query_empty { KeyRoute::LeavePlaylist } else { KeyRoute::ClearPlaylistSearch }
    } else if ctx.panel == Panel::Playlists && ctx.playlist_view == PlaylistView::Browsing && !ctx.playlist_query_empty {
        KeyRoute::ClearBrowseSearch
    } else if ctx.panel == Panel::Library && !ctx.library_query_empty {
        KeyRoute::ClearLibrarySearch
    } else {
        KeyRoute::AskQuit
    }
}

/// Decides where a key press goes and updates the queue-jump number.
pub fn route_key(ctx: &KeyContext, pending: &mut String, key: KeyPress) -> (r: KeyRoute)
    ensures
        r == route_spec(*ctx, old(pending)@, key).0,
        final(pending)@ == route_spec(*ctx, old(pending)@, key).1,
{
    if ctx.confirming_quit {
        return KeyRoute::ConfirmQuit;
    }
    if ctx.confirming_remove {
        return KeyRoute::ConfirmRemove;
    }
    if ctx.confirming_romanized {
        return KeyRoute::ConfirmRomanized;
    }
    if ctx.showing_help {
        return KeyRoute::DismissHelp;
    }
    if ctx.song_modal {
        return KeyRoute::SongModal;
    }
    if ctx.metadata_modal {
        return KeyRoute::MetadataModal;
    }
    if ctx.youtube_modal {
        return KeyRoute::YoutubeModal;
    }
    if ctx.editing_dir {
        return KeyRoute::DirInput;
    }
    if ctx.library_searching {
        return KeyRoute::LibrarySearch;
    }
    if ctx.playlist_searching {
        return KeyRoute::PlaylistSearch;
    }
    let digit = match key.code {
        KeyCode::Char(c) => if c >= '0' && c <= '9' { Some(c) } else { None },
        _ => None,
    };
    let had_pending = pending.as_str().unicode_len() > 0;
    match digit {
        Some(c) => {
            if pending.as_str().unicode_len() < MAX_PENDING_DIGITS {
                push_char(pending, c);
                KeyRoute::Digit { grew: true }
            } else {
                KeyRoute::Digit { grew: false }
            }
        },
        None => {
            if key.code != KeyCode::Char('n') {
                *pending = String::new();
            }
            if key.code == KeyCode::Esc {
                esc_target(ctx, had_pending)
            } else {
                KeyRoute::Dispatch(lookup(key))
            }
        },
    }
}

/// The status line a route brings by itself: Esc dropping a queue-jump
/// number, or Esc clearing a search.
pub fn route_message(route: KeyRoute) -> (s: Option<&'static str>)
    ensures
        route is CancelJump ==> (s matches Some(t) && t@ == "cancelled queue jump"@),
        route is ClearPlaylistSearch || route is ClearBrowseSearch || route is ClearLibrarySearch
            ==> (s matches Some(t) && t@ == "cleared search"@),
        !(route is CancelJump || route is ClearPlaylistSearch || route is ClearBrowseSearch || route is ClearLibrarySearch)
            ==> s is None,
{
    match route {
        KeyRoute::CancelJump => Some("cancelled queue jump"),
        KeyRoute::ClearPlaylistSearch | KeyRoute::ClearBrowseSearch | KeyRoute::ClearLibrarySearch => Some("cleared search"),
        _ => None,
    }
}

/// The status line while a queue-jump number is typed.
pub fn pending_jump_message(pending: &str) -> (s: String)
    ensures
        s@ == "jump to Up Next #"@ + pending@ + " (press <n>, <Esc> to cancel)"@,
{
    let mut s = String::from_str("jump to Up Next #");
    s.append(pending);
    s.append(" (press <n>, <Esc> to cancel)");
    s
}

/// Whether a key answers the quit question with yes: `y`, `Y` or Enter.
pub fn confirms_quit(key: KeyPress) -> (yes: bool)
    ensures
        yes == (key.code == KeyCode::Char('y') || key.code == KeyCode::Char('Y') || key.code == KeyCode::Enter),
{
    key.code == KeyCode::Char('y') || key.code == KeyCode::Char('Y') || key.code == KeyCode::Enter
}

/// Whether a key answers the remove question with yes: `y` or `Y`.
pub fn confirms_removal(key: KeyPress) -> (yes: bool)
    ensures
        yes == (key.code == KeyCode::Char('y') || key.code == KeyCode::Char('Y')),
{
    key.code == KeyCode::Char('y') || key.code == KeyCode::Char('Y')
}

/// `s` without its last character (unchanged when empty), as Backspace
/// leaves it.
pub open spec fn backspaced(s: Seq<char>) -> Seq<char> {
    if s.len() == 0 { s } else { s.drop_last() }
}

/// A search prompt's keys, from query `q0` and prompt state `on0` to `q1`
/// and `on1`; `resync` says whether the selection has to follow.
pub open spec fn search_step(q0: Seq<char>, on0: bool, key: KeyPress, q1: Seq<char>, on1: bool, resync: bool) -> bool {
    match key.code {
        KeyCode::Enter => !resync && q1 == q0 && !on1,
        KeyCode::Esc => if q0.len() == 0 {
            !resync && q1 == q0 && !on1
        } else {
            resync && q1 == Seq::<char>::empty() && on1 == on0
        },
        KeyCode::Backspace => resync && q1 == backspaced(q0) && on1 == on0,
        KeyCode::Char(c) => resync && q1 == q0.push(c) && on1 == on0,
        _ => !resync && q1 == q0 && on1 == on0,
    }
}

/// A search prompt's keys: Enter closes the prompt keeping the query; Esc
/// clears a query, or closes the prompt when it is already empty;
/// Backspace and characters edit the query. Says whether the selection has
/// to follow the new query.
pub fn search_key(query: &mut String, searching: &mut bool, key: KeyPress) -> (resync: bool)
    ensures
        search_step(old(query)@, *old(searching), key, final(query)@, *final(searching), resync),
{
    match key.code {
        KeyCode::Enter => {
            *searching = false;
            false
        },
        KeyCode::Esc => {
            if query.as_str().unicode_len() == 0 {
                *searching = false;
                false
            } else {
                *query = String::new();
                true
            }
        },
        KeyCode::Backspace => {
            pop_char(query);
            true
        },
        KeyCode::Char(c) => {
            push_char(query, c);
            true
        },
        _ => false,
    }
}

/// The status line when a directory scan starts.
pub fn scanning_message(dir: &str) -> (s: String)
    ensures
        s@ == "scanning "@ + dir@ + "…"@,
{
    let mut s = String::from_str("scanning ");
    s.append(dir);
    s.append("…");
    s
}

/// The directory prompt's keys, from `d0` to `d1` with the status line to
/// show: Enter asks for a scan of the typed directory (trimmed) and closes
/// the prompt; Esc closes the prompt and puts the library root back;
/// Backspace and characters edit the input.
pub open spec fn dir_step(d0: DirScanState, root: Seq<char>, key: KeyPress, d1: DirScanState, status: Option<String>) -> bool {
    match key.code {
        KeyCode::Enter => {
            &&& d1.pending_scan matches Some(p) && p@ == spec_trim(d0.dir_input@)
            &&& status matches Some(s) && s@ == "scanning "@ + spec_trim(d0.dir_input@) + "…"@
            &&& !d1.editing_dir
            &&& d1.dir_input == d0.dir_input
        },
        KeyCode::Esc => {
            &&& status is None
            &&& !d1.editing_dir
            &&& d1.dir_input@ == root
            &&& d1.pending_scan == d0.pending_scan
        },
        KeyCode::Backspace => {
            &&& status is None
            &&& d1.dir_input@ == backspaced(d0.dir_input@)
            &&& d1.editing_dir == d0.editing_dir
            &&& d1.pending_scan == d0.pending_scan
        },
        KeyCode::Char(c) => {
            &&& status is None
            &&& d1.dir_input@ == d0.dir_input@.push(c)
            &&& d1.editing_dir == d0.editing_dir
            &&& d1.pending_scan == d0.pending_scan
        },
        _ => status is None && d1 == d0,
    }
}

/// The directory prompt's keys: Enter asks for a scan of the typed
/// directory (trimmed) and closes the prompt, returning the status line to
/// show; Esc closes the prompt and puts the library root back; Backspace
/// and characters edit the input.
pub fn dir_input_key(dir: &mut DirScanState, root: &str, key: KeyPress) -> (status: Option<String>)
    ensures
        dir_step(*old(dir), root@, key, *final(dir), status),
{
    match key.code {
        KeyCode::Enter => {
            let target = trim(dir.dir_input.as_str());
            let message = scanning_message(target.as_str());
            dir.pending_scan = Some(target);
            dir.editing_dir = false;
            Some(message)
        },
        KeyCode::Esc => {
            dir.editing_dir = false;
            dir.dir_input = String::from_str(root);
            None
        },
        KeyCode::Backspace => {
            pop_char(&mut dir.dir_input);
            None
        },
        KeyCode::Char(c) => {
            push_char(&mut dir.dir_input, c);
            None
        },
        _ => None,
    }
}

/// What the metadata editor does with a key.
pub enum MetadataKeyOutcome {
    /// The editor closes without saving.
    Close,
    /// The edits are to be saved.
    Save(MetadataEditModal),
    /// The editor stays open with this state.
    Keep(MetadataEditModal),
}

/// The editor with the focused field's text replaced by `text`, and the
/// error cleared.
pub open spec fn edited_field(before: MetadataEditModal, after: MetadataEditModal, text: Seq<char>) -> bool {
    &&& after.song == before.song
    &&& after.original_artist_sort == before.original_artist_sort
    &&& after.focused == before.focused
    &&& after.error is None
    &&& metadata_value(after.edits, before.focused)@ == text
    &&& after.edits == metadata_with(before.edits, before.focused, metadata_value(after.edits, before.focused))
}

/// The metadata editor's keys: Esc closes it, Enter saves, Tab / Down and
/// Shift+Tab / Up move the focus through the shown fields (wrapping), and
/// Backspace and characters edit the focused field. Moving and editing
/// clear the error shown.
pub open spec fn metadata_step(modal: MetadataEditModal, key: KeyPress, r: MetadataKeyOutcome) -> bool {
    match key.code {
        KeyCode::Esc => r is Close,
        KeyCode::Enter => r == MetadataKeyOutcome::Save(modal),
        KeyCode::Tab | KeyCode::Down => r == MetadataKeyOutcome::Keep(MetadataEditModal {
            focused: cycled(metadata_visible(modal.edits), modal.focused, 1),
            error: None,
            ..modal
        }),
        KeyCode::BackTab | KeyCode::Up => r == MetadataKeyOutcome::Keep(MetadataEditModal {
            focused: cycled(metadata_visible(modal.edits), modal.focused, -1),
            error: None,
            ..modal
        }),
        KeyCode::Backspace => r matches MetadataKeyOutcome::Keep(m)
            && edited_field(modal, m, backspaced(metadata_value(modal.edits, modal.focused)@)),
        KeyCode::Char(c) => r matches MetadataKeyOutcome::Keep(m)
            && edited_field(modal, m, metadata_value(modal.edits, modal.focused)@.push(c)),
        _ => r == MetadataKeyOutcome::Keep(modal),
    }
}

/// Applies a key to the metadata editor (see `metadata_step`).
pub fn metadata_modal_key(modal: MetadataEditModal, key: KeyPress) -> (r: MetadataKeyOutcome)
    ensures
        metadata_step(modal, key, r),
{
    let mut modal = modal;
    match key.code {
        KeyCode::Esc => MetadataKeyOutcome::Close,
        KeyCode::Enter => MetadataKeyOutcome::Save(modal),
        KeyCode::Tab | KeyCode::Down => {
            modal.focused = modal.focused.next(&modal.edits);
            modal.error = None;
            MetadataKeyOutcome::Keep(modal)
        },
        KeyCode::BackTab | KeyCode::Up => {
            modal.focused = modal.focused.prev(&modal.edits);
            modal.error = None;
            MetadataKeyOutcome::Keep(modal)
        },
        KeyCode::Backspace => {
            let field = modal.focused;
            pop_char(field.value_mut(&mut modal.edits));
            modal.error = None;
            MetadataKeyOutcome::Keep(modal)
        },
        KeyCode::Char(c) => {
            let field = modal.focused;
            push_char(field.value_mut(&mut modal.edits), c);
            modal.error = None;
            MetadataKeyOutcome::Keep(modal)
        },
        _ => MetadataKeyOutcome::Keep(modal),
    }
}

/// No dialog or prompt is open, so the key map and the queue-jump number
/// see the key.
pub open spec fn nothing_open(ctx: KeyContext) -> bool {
    !ctx.confirming_quit && !ctx.confirming_remove && !ctx.confirming_romanized && !ctx.showing_help && !ctx.song_modal && !ctx.metadata_modal
        && !ctx.youtube_modal && !ctx.editing_dir && !ctx.library_searching && !ctx.playlist_searching
}

/// Law: a digit typed (with room for it) and then Esc leaves no queue-jump
/// number behind, and the Esc only cancels the jump: it neither closes a
/// view nor asks to quit.
pub proof fn law_digit_then_esc_cancels(ctx: KeyContext, pending: Seq<char>, digit: KeyPress, esc: KeyPress)
    requires
        nothing_open(ctx),
        digit_of(digit) is Some,
        pending.len() < MAX_PENDING_DIGITS,
        esc.code == KeyCode::Esc,
    ensures
        route_spec(ctx, route_spec(ctx, pending, digit).1, esc) == (KeyRoute::CancelJump, Seq::<char>::empty()),
{
}

/// Law: in a text prompt (a search, the directory prompt, a field of the
/// metadata editor) typing a character and then Backspace gives back the
/// text as it was.
pub proof fn law_type_then_backspace(text: Seq<char>, c: char)
    ensures
        backspaced(text.push(c)) == text,
{
    assert(text.push(c).drop_last() =~= text);
}

} // verus!
