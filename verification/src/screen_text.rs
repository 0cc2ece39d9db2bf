//! The words on screen: panel titles, the lines of the song-actions dialog
//! and its list of playlists, the questions the dialogs ask, and the
//! status line.
use vstd::prelude::*;
use crate::app_name::APP_NAME;
use crate::keymap::{binding_table, display_for, first_display, Action};
use crate::library::{find, Library};
use crate::playlist::{PlaylistId, PlaylistStore};
use crate::song::{Song, SongId};
use crate::state::{ChooseActionField, QueueSource, RomanizedArtistConfirmModal, SongModal, StatusKind};
use crate::style::{plural, search_segment, search_title_text};
use crate::text::{decimal, spec_decimal};

verus! {

/// "s" unless there is exactly one.
pub open spec fn plural_s(count: nat) -> Seq<char> {
    if count == 1 { ""@ } else { "s"@ }
}

/// The message a list shows when a search finds nothing.
pub fn no_matches_text(noun: &str, query: &str) -> (s: String)
    ensures
        s@ == "No "@ + noun@ + " match \""@ + query@ + "\""@,
{
    let mut s = String::from_str("No ");
    s.append(noun);
    s.append(" match \"");
    s.append(query);
    s.append("\"");
    s
}

/// The song count after a playlist's name in the list of playlists.
pub fn playlist_count_text(count: usize) -> (s: String)
    ensures
        s@ == "  ("@ + spec_decimal(count as nat) + " song"@ + plural_s(count as nat) + ")"@,
{
    let mut s = String::from_str("  (");
    let n = decimal(count as u64);
    s.append(n.as_str());
    s.append(" song");
    s.append(plural(count, "s"));
    s.append(")");
    s
}

/// The title of the list of playlists: an invitation to create one while
/// there is none and no search is going on, else the search title.
pub fn browse_title(store_empty: bool, searching: bool, query: &str, match_count: usize) -> (s: String)
    ensures
        store_empty && !searching && query@.len() == 0 ==> s@ == " Playlists — none yet, press "@
            + first_display(binding_table(), Action::OpenSongModal, 0) + " on a song to create one "@,
        !(store_empty && !searching && query@.len() == 0) ==> s@ == " "@ + "Playlists"@ + " — "@ + search_segment(searching, query@,
            spec_decimal(match_count as nat), match_count == 1) + " "@,
{
    if store_empty && !searching && query.unicode_len() == 0 {
        let mut s = String::from_str(" Playlists — none yet, press ");
        s.append(display_for(Action::OpenSongModal));
        s.append(" on a song to create one ");
        s
    } else {
        search_title_text("Playlists", searching, query, match_count)
    }
}

/// The title of the directory prompt.
pub fn dir_title(editing: bool) -> (s: String)
    ensures
        editing ==> s@ == " Directory (<Enter> to load, <Esc> to cancel) "@,
        !editing ==> s@ == " Directory "@ + first_display(binding_table(), Action::ChangeDirectory, 0) + " "@,
{
    if editing {
        String::from_str(" Directory (<Enter> to load, <Esc> to cancel) ")
    } else {
        let mut s = String::from_str(" Directory ");
        s.append(display_for(Action::ChangeDirectory));
        s.append(" ");
        s
    }
}

/// The status line as shown: an error that says something gets a warning
/// sign in front.
pub fn status_text(kind: StatusKind, text: &str) -> (s: String)
    ensures
        kind == StatusKind::Error && text@.len() > 0 ==> s@ == "⚠ "@ + text@,
        !(kind == StatusKind::Error && text@.len() > 0) ==> s@ == text@,
{
    if kind == StatusKind::Error && text.unicode_len() > 0 {
        let mut s = String::from_str("⚠ ");
        s.append(text);
        s
    } else {
        String::from_str(text)
    }
}

/// The quit question.
pub fn quit_question() -> (s: String)
    ensures
        s@ == "Quit "@ + APP_NAME@ + "?"@,
{
    let mut s = String::from_str("Quit ");
    s.append(APP_NAME);
    s.append("?");
    s
}

/// A playlist's name, or `fallback` when the store has no such playlist.
pub open spec fn name_or(store: PlaylistStore, id: PlaylistId, fallback: Seq<char>) -> Seq<char> {
    if store@.contains_key(id) { store@[id].0 } else { fallback }
}

fn playlist_name_or(store: &PlaylistStore, id: PlaylistId, fallback: &str) -> (s: String)
    requires
        store.wf(),
    ensures
        s@ == name_or(*store, id, fallback@),
{
    match store.get(id) {
        Some(p) => String::from_str(p.name()),
        None => String::from_str(fallback),
    }
}

/// The two lines of the remove question: the song, and which playlist it
/// would leave.
pub fn remove_question(library: &Library, store: &PlaylistStore, playlist: PlaylistId, song: SongId) -> (r: (String, String))
    requires
        store.wf(),
    ensures
        r.0@ == (match find(library.songs_view(), song) {
            Some(s) => s.label_view(),
            None => "this song"@,
        }),
        r.1@ == "Remove from \""@ + name_or(*store, playlist, "this playlist"@) + "\"?"@,
{
    let song_line = match library.get(song) {
        Some(s) => s.label(),
        None => String::from_str("this song"),
    };
    let name = playlist_name_or(store, playlist, "this playlist");
    let mut second = String::from_str("Remove from \"");
    second.append(name.as_str());
    second.append("\"?");
    (song_line, second)
}

/// The two lines of the romanized-artist question: the value, and how many
/// of whose songs would get it.
pub fn romanized_question(c: &RomanizedArtistConfirmModal) -> (r: (String, String))
    ensures
        r.0@ == "Apply \""@ + c.value@ + "\" as the romanized artist"@,
        r.1@ == "to "@ + spec_decimal(c.count as nat) + " other song"@ + plural_s(c.count as nat) + " by "@
            + c.artist_display@ + "?"@,
{
    let mut first = String::from_str("Apply \"");
    first.append(c.value.as_str());
    first.append("\" as the romanized artist");
    let mut second = String::from_str("to ");
    let n = decimal(c.count as u64);
    second.append(n.as_str());
    second.append(" other song");
    second.append(plural(c.count, "s"));
    second.append(" by ");
    second.append(c.artist_display.as_str());
    second.append("?");
    (first, second)
}

/// The title of the "Up Next" list: where the queue takes its songs from.
pub fn queue_source_label(store: &PlaylistStore, source: QueueSource) -> (s: String)
    requires
        store.wf(),
    ensures
        source is Library ==> s@ == "Library"@,
        source matches QueueSource::Playlist(id) ==> if store@.contains_key(id) {
            s@ == "Playlist: "@ + store@[id].0 + " ("@ + spec_decimal(store@[id].1.len()) + " song"@
                + plural_s(store@[id].1.len()) + ")"@
        } else {
            s@ == "Playlist"@
        },
{
    match source {
        QueueSource::Library => String::from_str("Library"),
        QueueSource::Playlist(id) => match store.get(id) {
            Some(p) => {
                let count = p.len();
                let mut s = String::from_str("Playlist: ");
                s.append(p.name());
                s.append(" (");
                let n = decimal(count as u64);
                s.append(n.as_str());
                s.append(" song");
                s.append(plural(count, "s"));
                s.append(")");
                s
            },
            None => String::from_str("Playlist"),
        },
    }
}

/// How a line of the song-actions dialog is shown.
#[derive(Clone, Copy, Debug, PartialEq, Eq)]
pub enum LineStyle {
    Title,
    Muted,
    Blank,
    Choice { selected: bool },
    Hint,
}

/// A line of a dialog.
pub struct DialogLine {
    pub style: LineStyle,
    pub text: String,
}

/// The lines as styles and texts.
pub open spec fn lines_view(v: Seq<DialogLine>) -> Seq<(LineStyle, Seq<char>)> {
    v.map_values(|l: DialogLine| (l.style, l.text@))
}

/// The selection marker before a choice.
pub open spec fn marker(selected: bool) -> Seq<char> {
    if selected { "▶ "@ } else { "  "@ }
}

/// The lines of the song-actions dialog: the song's title, artist and album
/// (the album when tagged), then the choices (adding only when there are
/// playlists; the playlist name being typed with a cursor while creating
/// has the focus), and the keys that work.
pub open spec fn choose_action_spec(song: Option<Song>, has_playlists: bool, selected: ChooseActionField, name: Seq<char>) -> Seq<(LineStyle, Seq<char>)> {
    song_lines(song).push((LineStyle::Blank, Seq::<char>::empty())) + choice_lines(has_playlists, selected, name)
}

/// The song's lines at the top of the dialog.
pub open spec fn song_lines(song: Option<Song>) -> Seq<(LineStyle, Seq<char>)> {
    match song {
        Some(s) => match s.metadata_view().album {
            Some(a) => seq![(LineStyle::Title, s.title_view()), (LineStyle::Muted, s.artist_view()), (LineStyle::Muted, a@)],
            None => seq![(LineStyle::Title, s.title_view()), (LineStyle::Muted, s.artist_view())],
        },
        None => seq![(LineStyle::Title, "this song"@)],
    }
}

/// The choices of the dialog and the keys that work.
pub open spec fn choice_lines(has_playlists: bool, selected: ChooseActionField, name: Seq<char>) -> Seq<(LineStyle, Seq<char>)> {
    let create = selected == ChooseActionField::CreatePlaylist;
    let add = if has_playlists {
        let on = selected == ChooseActionField::AddToPlaylist;
        seq![(LineStyle::Choice { selected: on }, marker(on) + "Add to Playlist"@)]
    } else {
        Seq::<(LineStyle, Seq<char>)>::empty()
    };
    let create_line = (LineStyle::Choice { selected: create },
        marker(create) + "New playlist: "@ + name + (if create { "▏"@ } else { Seq::<char>::empty() }));
    let hint = if create { "<Enter> create · <Esc> cancel"@ } else { "<j>/<k> select · <Enter> choose · <Esc> cancel"@ };
    add + seq![create_line, (LineStyle::Blank, Seq::<char>::empty()), (LineStyle::Hint, hint)]
}

fn line(style: LineStyle, text: String) -> (l: DialogLine)
    ensures
        l.style == style,
        l.text == text,
{
    DialogLine { style, text }
}

fn marker_text(selected: bool) -> (s: String)
    ensures
        s@ == marker(selected),
{
    if selected { String::from_str("▶ ") } else { String::from_str("  ") }
}

/// The lines of the song-actions dialog for `song` (`None` when the library
/// no longer has it).
pub fn choose_action_lines(song: Option<&Song>, has_playlists: bool, modal: &SongModal) -> (v: Vec<DialogLine>)
    ensures
        lines_view(v@) == choose_action_spec(match song { Some(s) => Some(*s), None => None }, has_playlists,
            modal.selected, modal.name_input@),
{
    let create = modal.selected == ChooseActionField::CreatePlaylist;
    let mut v: Vec<DialogLine> = Vec::new();
    match song {
        Some(s) => {
            v.push(line(LineStyle::Title, String::from_str(s.title())));
            v.push(line(LineStyle::Muted, String::from_str(s.artist())));
            match &s.metadata().album {
                Some(a) => v.push(line(LineStyle::Muted, String::from_str(a.as_str()))),
                None => {},
            }
        },
        None => v.push(line(LineStyle::Title, String::from_str("this song"))),
    }
    proof {
        assert(lines_view(v@) =~= song_lines(match song { Some(s) => Some(*s), None => None }));
    }
    v.push(line(LineStyle::Blank, String::new()));
    let ghost after_head = lines_view(v@);
    proof {
        assert(after_head =~= song_lines(match song { Some(s) => Some(*s), None => None }).push((LineStyle::Blank, Seq::<char>::empty())));
    }
    if has_playlists {
        let on = modal.selected == ChooseActionField::AddToPlaylist;
        let mut t = marker_text(on);
        t.append("Add to Playlist");
        v.push(line(LineStyle::Choice { selected: on }, t));
    }
    let mut t = marker_text(create);
    t.append("New playlist: ");
    t.append(modal.name_input.as_str());
    if create {
        t.append("▏");
    }
    v.push(line(LineStyle::Choice { selected: create }, t));
    v.push(line(LineStyle::Blank, String::new()));
    let hint = if create {
        String::from_str("<Enter> create · <Esc> cancel")
    } else {
        String::from_str("<j>/<k> select · <Enter> choose · <Esc> cancel")
    };
    v.push(line(LineStyle::Hint, hint));
    proof {
        assert(lines_view(v@) =~= after_head + choice_lines(has_playlists, modal.selected, modal.name_input@));
        assert(lines_view(v@) =~= choose_action_spec(match song { Some(s) => Some(*s), None => None }, has_playlists,
            modal.selected, modal.name_input@));
    }
    v
}

/// The entries of the add-to-playlist list: the pinned playlists first,
/// each marked as the one being viewed or as already holding the song, then
/// the choices; a playlist the store no longer has shows as "<deleted>".
/// Each entry says whether it is pinned.
pub open spec fn side_entries_spec(store: PlaylistStore, options: Seq<PlaylistId>, pinned: Seq<PlaylistId>, viewing: Option<PlaylistId>) -> Seq<(Seq<char>, bool)> {
    Seq::new(pinned.len(), |i: int| (name_or(store, pinned[i], "<deleted>"@) + " ("@
        + (if viewing == Some(pinned[i]) { "current"@ } else { "already added"@ }) + ")"@, true))
        + Seq::new(options.len(), |j: int| (name_or(store, options[j], "<deleted>"@), false))
}

/// The entries as texts and pinned marks.
pub open spec fn entries_view(v: Seq<(String, bool)>) -> Seq<(Seq<char>, bool)> {
    v.map_values(|e: (String, bool)| (e.0@, e.1))
}

/// The entries of the add-to-playlist list, as `side_entries_spec` says.
pub fn side_entries(store: &PlaylistStore, options: &[PlaylistId], pinned: &[PlaylistId], viewing: Option<PlaylistId>) -> (v: Vec<(String, bool)>)
    requires
        store.wf(),
    ensures
        entries_view(v@) == side_entries_spec(*store, options@, pinned@, viewing),
{
    let mut v: Vec<(String, bool)> = Vec::new();
    let mut i: usize = 0;
    while i < pinned.len()
        invariant
            store.wf(),
            i <= pinned@.len(),
            entries_view(v@) == side_entries_spec(*store, options@, pinned@, viewing).take(i as int),
        decreases pinned@.len() - i,
    {
        let id = pinned[i];
        let mut t = playlist_name_or(store, id, "<deleted>");
        t.append(" (");
        if viewing == Some(id) {
            t.append("current");
        } else {
            t.append("already added");
        }
        t.append(")");
        let ghost before = entries_view(v@);
        let ghost tv = t@;
        v.push((t, true));
        proof {
            assert(entries_view(v@) =~= before.push((tv, true)));
            assert(side_entries_spec(*store, options@, pinned@, viewing).take(i + 1)
                =~= side_entries_spec(*store, options@, pinned@, viewing).take(i as int).push((tv, true)));
        }
        i = i + 1;
    }
    let mut j: usize = 0;
    while j < options.len()
        invariant
            store.wf(),
            j <= options@.len(),
            entries_view(v@) == side_entries_spec(*store, options@, pinned@, viewing).take(pinned@.len() + j),
        decreases options@.len() - j,
    {
        let t = playlist_name_or(store, options[j], "<deleted>");
        let ghost before = entries_view(v@);
        let ghost tv = t@;
        v.push((t, false));
        proof {
            assert(entries_view(v@) =~= before.push((tv, false)));
            assert(side_entries_spec(*store, options@, pinned@, viewing).take(pinned@.len() + j + 1)
                =~= side_entries_spec(*store, options@, pinned@, viewing).take(pinned@.len() + j).push((tv, false)));
        }
        j = j + 1;
    }
    proof {
        assert(side_entries_spec(*store, options@, pinned@, viewing).take((pinned@.len() + options@.len()) as int)
            =~= side_entries_spec(*store, options@, pinned@, viewing));
    }
    v
}

/// Which entry of the add-to-playlist list is highlighted: the selected
/// choice, counted after the pinned entries.
pub fn side_highlight(selected: Option<usize>, pinned_len: usize) -> (r: Option<usize>)
    requires
        selected matches Some(i) ==> i + pinned_len <= usize::MAX,
    ensures
        r == (match selected {
            Some(i) => Some((i + pinned_len) as usize),
            None => None,
        }),
{
    match selected {
        Some(i) => Some(i + pinned_len),
        None => None,
    }
}

/// The number of lines the song-actions dialog needs: its text and the
/// blank and hint lines, plus its border and padding.
pub fn song_box_height(song: Option<&Song>, has_playlists: bool) -> (h: u16)
    ensures
        h == 9 + (if has_playlists { 1int } else { 0 }) + (if song is Some { 1int } else { 0 })
            + (if song matches Some(s) && s.metadata_view().album is Some { 1int } else { 0 }),
{
    let mut lines: u16 = 5;
    if has_playlists {
        lines = lines + 1;
    }
    match song {
        Some(s) => {
            lines = lines + 1;
            if s.metadata().album.is_some() {
                lines = lines + 1;
            }
        },
        None => {},
    }
    lines + 4
}

} // verus!
