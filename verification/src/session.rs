//! What the player tells the user after its larger steps (a directory scan,
//! a metadata save, the romanized-artist question) and what a command needs
//! from the selected row.
use vstd::prelude::*;
use crate::library::{artist_siblings, find, Library};
use crate::navigation::Row;
use crate::song::{tag_text, Metadata, MetadataEdits, SongId};
use crate::song_modal::song_text;
use crate::state::{
    heading_selected_message, MetadataEditModal, MetadataField, RomanizedArtistConfirmModal, StatusKind, StatusLine,
};
use crate::style::plural;
use crate::text::{decimal, spec_decimal, spec_trim, str_eq, trim};

verus! {

/// The song a command acts on: the selected row's song, or the status line
/// saying why there is none (no row is selected, or it is a heading).
pub open spec fn row_song(row: Option<Row>) -> Result<SongId, Seq<char>> {
    match row {
        Some(Row::Song(id, _)) => Ok(id),
        Some(Row::Header(h)) => Err("\""@ + h@ + "\" is a heading -- select a song under it"@),
        None => Err("select a song first"@),
    }
}

/// The song a command acts on: the selected row's song, or the status line
/// saying why there is none (no row is selected, or it is a heading).
pub fn selected_song(row: Option<&Row>) -> (r: Result<SongId, String>)
    ensures
        match (r, row_song(match row { Some(x) => Some(*x), None => None })) {
            (Ok(a), Ok(b)) => a == b,
            (Err(a), Err(b)) => a@ == b,
            _ => false,
        },
{
    match row {
        Some(Row::Song(id, _)) => Ok(*id),
        Some(Row::Header(h)) => Err(heading_selected_message(h.as_str())),
        None => Err(String::from_str("select a song first")),
    }
}

/// The selected row of `rows`, if the selection lies within them.
pub open spec fn picked_row(rows: Seq<Row>, selected: Option<usize>) -> Option<Row> {
    match selected {
        Some(i) => if i < rows.len() { Some(rows[i as int]) } else { None },
        None => None,
    }
}

/// The selected row of `rows`, if the selection lies within them.
pub fn selected_row(rows: &[Row], selected: Option<usize>) -> (r: Option<&Row>)
    ensures
        match r { Some(x) => Some(*x), None => None } == picked_row(rows@, selected),
{
    match selected {
        Some(i) => if i < rows.len() { Some(&rows[i]) } else { None },
        None => None,
    }
}

/// "loaded N song(s) from ROOT", with the number skipped and the number of
/// missing songs dropped from playlists when there are any.
pub open spec fn scan_summary_text(count: nat, root: Seq<char>, skipped: nat, removed: nat) -> Seq<char> {
    "loaded "@ + spec_decimal(count) + " song(s) from "@ + root
        + (if skipped > 0 { " ("@ + spec_decimal(skipped) + " skipped)"@ } else { Seq::<char>::empty() })
        + (if removed > 0 {
            ", removed "@ + spec_decimal(removed) + " missing song(s) from playlists"@
        } else {
            Seq::<char>::empty()
        })
}

/// The status line after a directory was scanned and loaded: a success,
/// or an error when the playback before it did not stop cleanly.
pub fn scan_summary(count: usize, root: &str, skipped: usize, removed: usize, stop_error: Option<&str>) -> (line: StatusLine)
    ensures
        stop_error is None ==> line.kind == StatusKind::Success
            && line.text@ == scan_summary_text(count as nat, root@, skipped as nat, removed as nat),
        stop_error matches Some(e) ==> line.kind == StatusKind::Error
            && line.text@ == scan_summary_text(count as nat, root@, skipped as nat, removed as nat)
                + " (failed to stop previous playback cleanly: "@ + e@ + ")"@,
{
    let mut text = String::from_str("loaded ");
    let n = decimal(count as u64);
    text.append(n.as_str());
    text.append(" song(s) from ");
    text.append(root);
    if skipped > 0 {
        let k = decimal(skipped as u64);
        text.append(" (");
        text.append(k.as_str());
        text.append(" skipped)");
    }
    if removed > 0 {
        let m = decimal(removed as u64);
        text.append(", removed ");
        text.append(m.as_str());
        text.append(" missing song(s) from playlists");
    }
    proof {
        assert(text@ =~= scan_summary_text(count as nat, root@, skipped as nat, removed as nat));
    }
    match stop_error {
        None => StatusLine { text, kind: StatusKind::Success },
        Some(e) => {
            text.append(" (failed to stop previous playback cleanly: ");
            text.append(e);
            text.append(")");
            StatusLine { text, kind: StatusKind::Error }
        },
    }
}

/// The status line when a directory could not be scanned.
pub fn scan_failed_message(dir: &str, error: &str) -> (s: String)
    ensures
        s@ == "failed to scan "@ + dir@ + ": "@ + error@,
{
    let mut s = String::from_str("failed to scan ");
    s.append(dir);
    s.append(": ");
    s.append(error);
    s
}

/// `m` is the metadata editor as it opens for a song: its tags as text,
/// the focus on the title, no error, and the romanized artist it started
/// with remembered.
pub open spec fn fresh_metadata_modal(song: SongId, metadata: Metadata, m: MetadataEditModal) -> bool {
    &&& m.song == song
    &&& m.edits.title@ == tag_text(metadata.title)
    &&& m.edits.artist@ == tag_text(metadata.artist)
    &&& m.edits.album@ == tag_text(metadata.album)
    &&& m.edits.genre@ == tag_text(metadata.genre)
    &&& m.edits.date@ == tag_text(metadata.date)
    &&& m.edits.track@ == (match metadata.track {
        Some(n) => spec_decimal(n as nat),
        None => Seq::empty(),
    })
    &&& m.edits.title_sort@ == Seq::<char>::empty()
    &&& m.edits.artist_sort@ == Seq::<char>::empty()
    &&& m.original_artist_sort@ == m.edits.artist_sort@
    &&& m.focused == MetadataField::Title
    &&& m.error is None
}

/// The metadata editor for a song: its tags as text, the focus on the
/// title, no error; it remembers the romanized artist it started with.
pub fn new_metadata_modal(song: SongId, metadata: &Metadata) -> (m: MetadataEditModal)
    ensures
        fresh_metadata_modal(song, *metadata, m),
{
    let edits = MetadataEdits::from_metadata(metadata);
    let original_artist_sort = String::from_str(edits.artist_sort.as_str());
    MetadataEditModal { song, edits, original_artist_sort, focused: MetadataField::Title, error: None }
}

/// The status line after a song's tags were saved.
pub fn metadata_updated_message(library: &Library, song: SongId) -> (s: String)
    ensures
        s@ == "updated metadata for "@ + song_text(*library, song),
{
    let label = match library.get(song) {
        Some(s) => s.label(),
        None => String::from_str("song"),
    };
    let mut s = String::from_str("updated metadata for ");
    s.append(label.as_str());
    s
}

/// The romanized artist to offer for the artist's other songs after a
/// save: the saved value trimmed, unless it is empty or the same as the
/// value the editor started with (trimmed).
pub fn romanized_prompt_value(artist_sort: &str, original: &str) -> (r: Option<String>)
    ensures
        spec_trim(artist_sort@).len() == 0 || spec_trim(artist_sort@) == spec_trim(original@) ==> r is None,
        spec_trim(artist_sort@).len() > 0 && spec_trim(artist_sort@) != spec_trim(original@) ==> (r matches Some(v)
            && v@ == spec_trim(artist_sort@)),
{
    let value = trim(artist_sort);
    let before = trim(original);
    if value.as_str().unicode_len() == 0 || str_eq(value.as_str(), before.as_str()) {
        None
    } else {
        Some(value)
    }
}

/// The question to ask after the song `saved` was given the romanized
/// artist `artist_sort` (the editor started with `original`): whether the
/// artist's other songs should get it too. None when the value is empty or
/// unchanged, or the artist has no other song.
pub open spec fn romanized_prompt_spec(library: Library, saved: SongId, artist_sort: Seq<char>, original: Seq<char>,
    m: Option<RomanizedArtistConfirmModal>) -> bool {
    let value = spec_trim(artist_sort);
    if value.len() == 0 || value == spec_trim(original) {
        m is None
    } else {
        match find(library.songs_view(), saved) {
            None => m is None,
            Some(r) => {
                let n = artist_siblings(library.songs_view(), r.sort_artist_view(), saved).len();
                if n == 0 {
                    m is None
                } else {
                    m matches Some(c) && c.artist_display@ == r.artist_view() && c.artist_sort_key@ == r.sort_artist_view()
                        && c.value@ == value && c.reference_song == saved && c.count == n
                }
            },
        }
    }
}

/// The question whether the artist's other songs should get the romanized
/// artist just saved; see `romanized_prompt_spec`.
pub fn romanized_prompt(library: &Library, saved: SongId, artist_sort: &str, original: &str)
    -> (m: Option<RomanizedArtistConfirmModal>)
    ensures
        romanized_prompt_spec(*library, saved, artist_sort@, original@, m),
{
    let value = match romanized_prompt_value(artist_sort, original) {
        Some(v) => v,
        None => return None,
    };
    let reference = match library.get(saved) {
        Some(r) => r,
        None => return None,
    };
    let count = library.count_matching_artist(reference.sort_artist(), saved);
    if count == 0 {
        return None;
    }
    Some(RomanizedArtistConfirmModal {
        artist_display: String::from_str(reference.artist()),
        artist_sort_key: String::from_str(reference.sort_artist()),
        value,
        reference_song: saved,
        count,
    })
}

/// The status line after the romanized artist was given to the artist's
/// other songs.
pub fn romanized_applied_message(applied: usize) -> (s: String)
    ensures
        s@ == "applied romanized artist to "@ + spec_decimal(applied as nat) + " other song"@
            + (if applied == 1 { ""@ } else { "s"@ }),
{
    let mut s = String::from_str("applied romanized artist to ");
    let n = decimal(applied as u64);
    s.append(n.as_str());
    s.append(" other song");
    s.append(plural(applied, "s"));
    s
}

} // verus!
