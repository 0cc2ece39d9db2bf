//! The download dialog: typing a video address, filling in the tags and the
//! file name while the audio downloads in the background, and what each key
//! press and each report from the download does to it.
use vstd::prelude::*;
use crate::keymap::{KeyCode, KeyPress};
use crate::song::{needs_romanization, spec_needs_romanization, MetadataEdits};
use crate::state::{cycle, cycled, Cyclic};
use crate::text::{chars_of, pop_char, push_char, spec_trim, trim};
use crate::youtube::{generate_file_name, spec_file_name};

verus! {

/// Whether the video's details have arrived.
pub enum FetchStatus {
    Pending,
    Ready { title: String, uploader: Option<String> },
}

/// Whether the audio has finished downloading, and where it waits.
pub enum DownloadStatus {
    Pending,
    Ready(String),
}

/// A field of the download dialog.
#[derive(Clone, Copy, Debug, PartialEq, Eq, Structural)]
pub enum YoutubeField {
    Title,
    TitleSort,
    Artist,
    ArtistSort,
    Album,
    Directory,
    FileName,
}

impl Cyclic for YoutubeField {
    fn same(&self, other: &Self) -> (b: bool) {
        *self == *other
    }
}

/// What the user has typed into the download dialog, and how the download
/// is going.
pub struct YoutubeFieldsModal {
    pub url: String,
    pub title: String,
    pub artist: String,
    pub album: String,
    pub title_sort: String,
    pub artist_sort: String,
    pub directory: String,
    pub file_name: String,
    /// Whether the user typed a file name of their own, which then stops
    /// following the title and the artist.
    pub file_name_overridden: bool,
    pub focused: YoutubeField,
    pub error: Option<String>,
    pub fetch_status: FetchStatus,
    pub download_status: DownloadStatus,
}

/// The screens of the download dialog.
pub enum YoutubeModal {
    /// Typing the address; `restore` keeps the fields of an attempt that
    /// failed, for a retry.
    EnteringUrl { url_input: String, error: Option<String>, restore: Option<YoutubeFieldsModal> },
    EditingFields(YoutubeFieldsModal),
    /// The chosen file exists; overwrite it or rename.
    ResolvingCollision { fields: YoutubeFieldsModal, existing_path: String },
    /// Waiting for the download to finish before saving it.
    Downloading { file_name: String, dest_path: String, fields: YoutubeFieldsModal },
}

/// A report from the background download.
pub enum DownloadEvent {
    InfoReady { title: String, uploader: Option<String> },
    DownloadReady(String),
    Failed(String),
}

/// Work that a step of the dialog leaves to the caller, which owns the
/// network, the file system and the library.
pub enum YoutubeEffect {
    Nothing,
    /// Start fetching the video's details and its audio.
    SpawnFetch(String),
    /// Check the directory and the file name and go on to save.
    Confirm(YoutubeFieldsModal),
    /// Move the downloaded audio into place, tag it and add it to the
    /// library.
    Finalize { fields: YoutubeFieldsModal, temp_path: String, dest_path: String },
    /// Delete a download nobody waits for any more.
    DiscardTemp(String),
}

/// The dialog's fields in tab order, the romanized ones shown only when the
/// title or the artist needs one.
pub open spec fn youtube_visible(f: YoutubeFieldsModal) -> Seq<YoutubeField> {
    seq![YoutubeField::Title]
        + (if spec_needs_romanization(f.title@) { seq![YoutubeField::TitleSort] } else { seq![] })
        + seq![YoutubeField::Artist]
        + (if spec_needs_romanization(f.artist@) { seq![YoutubeField::ArtistSort] } else { seq![] })
        + seq![YoutubeField::Album, YoutubeField::Directory, YoutubeField::FileName]
}

/// The text of a field of the dialog.
pub open spec fn youtube_value(f: YoutubeFieldsModal, field: YoutubeField) -> String {
    match field {
        YoutubeField::Title => f.title,
        YoutubeField::TitleSort => f.title_sort,
        YoutubeField::Artist => f.artist,
        YoutubeField::ArtistSort => f.artist_sort,
        YoutubeField::Album => f.album,
        YoutubeField::Directory => f.directory,
        YoutubeField::FileName => f.file_name,
    }
}

/// The dialog with one text field replaced.
pub open spec fn youtube_with(f: YoutubeFieldsModal, field: YoutubeField, v: String) -> YoutubeFieldsModal {
    match field {
        YoutubeField::Title => YoutubeFieldsModal { title: v, ..f },
        YoutubeField::TitleSort => YoutubeFieldsModal { title_sort: v, ..f },
        YoutubeField::Artist => YoutubeFieldsModal { artist: v, ..f },
        YoutubeField::ArtistSort => YoutubeFieldsModal { artist_sort: v, ..f },
        YoutubeField::Album => YoutubeFieldsModal { album: v, ..f },
        YoutubeField::Directory => YoutubeFieldsModal { directory: v, ..f },
        YoutubeField::FileName => YoutubeFieldsModal { file_name: v, ..f },
    }
}

impl YoutubeField {
    /// Every field, in tab order.
    pub fn all() -> (v: Vec<YoutubeField>)
        ensures
            v@ == seq![
                YoutubeField::Title, YoutubeField::TitleSort, YoutubeField::Artist, YoutubeField::ArtistSort,
                YoutubeField::Album, YoutubeField::Directory, YoutubeField::FileName,
            ],
    {
        vec![
            YoutubeField::Title, YoutubeField::TitleSort, YoutubeField::Artist, YoutubeField::ArtistSort,
            YoutubeField::Album, YoutubeField::Directory, YoutubeField::FileName,
        ]
    }

    /// The fields the dialog shows, in tab order: the romanized title and
    /// artist only when the title or the artist holds a character outside
    /// ASCII.
    pub fn visible(fields: &YoutubeFieldsModal) -> (v: Vec<YoutubeField>)
        ensures
            v@ == youtube_visible(*fields),
    {
        let mut v: Vec<YoutubeField> = Vec::new();
        v.push(YoutubeField::Title);
        if needs_romanization(fields.title.as_str()) {
            v.push(YoutubeField::TitleSort);
        }
        v.push(YoutubeField::Artist);
        if needs_romanization(fields.artist.as_str()) {
            v.push(YoutubeField::ArtistSort);
        }
        v.push(YoutubeField::Album);
        v.push(YoutubeField::Directory);
        v.push(YoutubeField::FileName);
        assert(v@ =~= youtube_visible(*fields));
        v
    }

    /// The field's name in the dialog.
    pub fn label(&self) -> (s: &'static str)
        ensures
            s@ == (match *self {
                YoutubeField::Title => "Title"@,
                YoutubeField::TitleSort => "Title (roman.)"@,
                YoutubeField::Artist => "Artist"@,
                YoutubeField::ArtistSort => "Artist (roman.)"@,
                YoutubeField::Album => "Album"@,
                YoutubeField::Directory => "Directory"@,
                YoutubeField::FileName => "Filename"@,
            }),
    {
        match self {
            YoutubeField::Title => "Title",
            YoutubeField::TitleSort => "Title (roman.)",
            YoutubeField::Artist => "Artist",
            YoutubeField::ArtistSort => "Artist (roman.)",
            YoutubeField::Album => "Album",
            YoutubeField::Directory => "Directory",
            YoutubeField::FileName => "Filename",
        }
    }

    /// The next shown field, wrapping around.
    pub fn next(self, fields: &YoutubeFieldsModal) -> (f: YoutubeField)
        ensures
            f == cycled(youtube_visible(*fields), self, 1),
    {
        let v = YoutubeField::visible(fields);
        cycle(v.as_slice(), self, 1)
    }

    /// The previous shown field, wrapping around.
    pub fn prev(self, fields: &YoutubeFieldsModal) -> (f: YoutubeField)
        ensures
            f == cycled(youtube_visible(*fields), self, -1),
    {
        let v = YoutubeField::visible(fields);
        cycle(v.as_slice(), self, -1)
    }

    /// The text of this field.
    pub fn value<'a>(&self, fields: &'a YoutubeFieldsModal) -> (s: &'a str)
        ensures
            s@ == youtube_value(*fields, *self)@,
    {
        match self {
            YoutubeField::Title => fields.title.as_str(),
            YoutubeField::TitleSort => fields.title_sort.as_str(),
            YoutubeField::Artist => fields.artist.as_str(),
            YoutubeField::ArtistSort => fields.artist_sort.as_str(),
            YoutubeField::Album => fields.album.as_str(),
            YoutubeField::Directory => fields.directory.as_str(),
            YoutubeField::FileName => fields.file_name.as_str(),
        }
    }

    /// The text of this field, to change in place.
    pub fn value_mut<'a>(&self, fields: &'a mut YoutubeFieldsModal) -> (s: &'a mut String)
        ensures
            *s == youtube_value(*old(fields), *self),
            *final(fields) == youtube_with(*old(fields), *self, *final(s)),
    {
        match self {
            YoutubeField::Title => &mut fields.title,
            YoutubeField::TitleSort => &mut fields.title_sort,
            YoutubeField::Artist => &mut fields.artist,
            YoutubeField::ArtistSort => &mut fields.artist_sort,
            YoutubeField::Album => &mut fields.album,
            YoutubeField::Directory => &mut fields.directory,
            YoutubeField::FileName => &mut fields.file_name,
        }
    }
}

/// Law: the dialog's tab order starts at the title, and Tab then Shift+Tab
/// (or the reverse) comes back to the field that had the focus.
pub proof fn law_youtube_tab_round_trip(f: YoutubeFieldsModal, field: YoutubeField)
    requires
        youtube_visible(f).contains(field),
    ensures
        youtube_visible(f)[0] == YoutubeField::Title,
        cycled(youtube_visible(f), cycled(youtube_visible(f), field, 1), -1) == field,
        cycled(youtube_visible(f), cycled(youtube_visible(f), field, -1), 1) == field,
{
    let v = youtube_visible(f);
    assert forall|i: int, j: int| 0 <= i < v.len() && 0 <= j < v.len() && v[i] == v[j] implies i == j by {
        assert(v[i] == v[j]);
    }
    crate::state::law_cycle_round_trip(v, field, 1);
    crate::state::law_cycle_round_trip(v, field, -1);
}

/// `f` is how a new attempt at `url` starts, from the snapshot of a
/// failed attempt or from nothing.
pub open spec fn started_from(f: YoutubeFieldsModal, url: String, restore: Option<YoutubeFieldsModal>) -> bool {
    &&& f.url == url
    &&& f.focused == YoutubeField::Title
    &&& f.error is None
    &&& f.fetch_status is Pending
    &&& f.download_status is Pending
    &&& restore matches Some(r) ==> f == (YoutubeFieldsModal {
        url: f.url, focused: f.focused, error: f.error, fetch_status: f.fetch_status,
        download_status: f.download_status, ..r
    })
    &&& restore is None ==> {
        &&& f.title@ == Seq::<char>::empty()
        &&& f.artist@ == Seq::<char>::empty()
        &&& f.album@ == Seq::<char>::empty()
        &&& f.title_sort@ == Seq::<char>::empty()
        &&& f.artist_sort@ == Seq::<char>::empty()
        &&& f.directory@ == "./"@
        &&& f.file_name@ == Seq::<char>::empty()
        &&& !f.file_name_overridden
    }
}

/// The fields a new attempt starts with: a snapshot of a failed attempt
/// keeps everything but gets the new address, the focus on the title, no
/// error and fresh download status; without one every field is empty and
/// the directory is the library root, "./".
pub fn start_youtube_fields(url: String, restore: Option<YoutubeFieldsModal>) -> (f: YoutubeFieldsModal)
    ensures
        started_from(f, url, restore),
{
    match restore {
        Some(mut fields) => {
            fields.url = url;
            fields.focused = YoutubeField::Title;
            fields.error = None;
            fields.fetch_status = FetchStatus::Pending;
            fields.download_status = DownloadStatus::Pending;
            fields
        },
        None => YoutubeFieldsModal {
            url,
            title: String::new(),
            artist: String::new(),
            album: String::new(),
            title_sort: String::new(),
            artist_sort: String::new(),
            directory: String::from_str("./"),
            file_name: String::new(),
            file_name_overridden: false,
            focused: YoutubeField::Title,
            error: None,
            fetch_status: FetchStatus::Pending,
            download_status: DownloadStatus::Pending,
        },
    }
}

/// The dialog with its file name replaced.
pub open spec fn with_file_name(f: YoutubeFieldsModal, name: String) -> YoutubeFieldsModal {
    YoutubeFieldsModal { file_name: name, ..f }
}

/// Keeps the file name in step with an edit: typing in the file name field
/// marks it as the user's own (unless it was cleared); typing in the title
/// or the artist regenerates it, unless the user chose their own.
pub fn sync_file_name(fields: &mut YoutubeFieldsModal)
    ensures
        old(fields).focused == YoutubeField::FileName ==> *final(fields) == (YoutubeFieldsModal {
            file_name_overridden: old(fields).file_name@.len() > 0,
            ..*old(fields)
        }),
        (old(fields).focused == YoutubeField::Title || old(fields).focused == YoutubeField::Artist)
            && !old(fields).file_name_overridden ==> {
            &&& *final(fields) == with_file_name(*old(fields), final(fields).file_name)
            &&& final(fields).file_name@ == spec_file_name(old(fields).artist@, old(fields).title@)
        },
        old(fields).focused != YoutubeField::FileName && !((old(fields).focused == YoutubeField::Title
            || old(fields).focused == YoutubeField::Artist) && !old(fields).file_name_overridden)
            ==> *final(fields) == *old(fields),
{
    match fields.focused {
        YoutubeField::FileName => {
            let n = chars_of(fields.file_name.as_str()).len();
            fields.file_name_overridden = n > 0;
        },
        YoutubeField::Title | YoutubeField::Artist => {
            if !fields.file_name_overridden {
                fields.file_name = generate_file_name(fields.artist.as_str(), fields.title.as_str());
            }
        },
        _ => {},
    }
}

/// A text after a key press: the typed character added, or for Backspace
/// (`None`) the last character removed.
pub open spec fn edited_text(s: Seq<char>, typed: Option<char>) -> Seq<char> {
    match typed {
        Some(c) => s.push(c),
        None => if s.len() > 0 { s.drop_last() } else { s },
    }
}

/// Whether the file name follows the title and the artist after an edit of
/// the field `focused`.
pub open spec fn regenerates_name(focused: YoutubeField, overridden: bool) -> bool {
    (focused == YoutubeField::Title || focused == YoutubeField::Artist) && !overridden
}

/// The dialog after a key press in a text field: the focused field gains
/// the typed character, or loses its last one for Backspace (`None`); the
/// file name then follows (see `sync_file_name`), and any error is cleared.
/// `n` is the dialog `o` after a key press in its focused text field.
pub open spec fn edit_relation(o: YoutubeFieldsModal, typed: Option<char>, n: YoutubeFieldsModal) -> bool {
    &&& youtube_value(n, o.focused)@ == edited_text(youtube_value(o, o.focused)@, typed)
    &&& n == (YoutubeFieldsModal {
        file_name: n.file_name,
        file_name_overridden: n.file_name_overridden,
        error: None,
        ..youtube_with(o, o.focused, youtube_value(n, o.focused))
    })
    &&& o.focused == YoutubeField::FileName ==> n.file_name_overridden == (n.file_name@.len() > 0)
    &&& regenerates_name(o.focused, o.file_name_overridden) ==> n.file_name@ == spec_file_name(n.artist@, n.title@)
    &&& o.focused != YoutubeField::FileName && !regenerates_name(o.focused, o.file_name_overridden)
        ==> n.file_name == o.file_name && n.file_name_overridden == o.file_name_overridden
}

pub fn edit_focused(fields: &mut YoutubeFieldsModal, typed: Option<char>)
    ensures
        edit_relation(*old(fields), typed, *final(fields)),
{
    let focused = fields.focused;
    {
        let slot = focused.value_mut(fields);
        match typed {
            Some(c) => push_char(slot, c),
            None => {
                pop_char(slot);
            },
        }
    }
    sync_file_name(fields);
    fields.error = None;
}

/// The fields a screen of the dialog holds, if it holds any.
pub open spec fn fields_of(m: YoutubeModal) -> Option<YoutubeFieldsModal> {
    match m {
        YoutubeModal::EditingFields(f) => Some(f),
        YoutubeModal::ResolvingCollision { fields, .. } => Some(fields),
        YoutubeModal::Downloading { fields, .. } => Some(fields),
        YoutubeModal::EnteringUrl { .. } => None,
    }
}

/// A screen of the dialog with its fields replaced.
pub open spec fn with_fields(m: YoutubeModal, f: YoutubeFieldsModal) -> YoutubeModal {
    match m {
        YoutubeModal::EditingFields(_) => YoutubeModal::EditingFields(f),
        YoutubeModal::ResolvingCollision { existing_path, .. } => YoutubeModal::ResolvingCollision { fields: f, existing_path },
        YoutubeModal::Downloading { file_name, dest_path, .. } => YoutubeModal::Downloading { file_name, dest_path, fields: f },
        YoutubeModal::EnteringUrl { .. } => m,
    }
}

/// What a report from the download does to the dialog.
///
/// The video's details are recorded beside the fields, never over what the
/// user typed. A finished download is saved at once when the dialog waits
/// for it, recorded when the user is still typing or choosing, and deleted
/// when nobody waits for it. A failure takes the user back to the address
/// screen with the error and keeps the typed fields for a retry; with no
/// fields to keep, it closes the dialog.
pub open spec fn event_spec(modal: Option<YoutubeModal>, event: DownloadEvent) -> (Option<YoutubeModal>, YoutubeEffect) {
    match event {
        DownloadEvent::InfoReady { title, uploader } => match modal {
            Some(m) => match fields_of(m) {
                Some(f) => (
                    Some(with_fields(m, YoutubeFieldsModal { fetch_status: FetchStatus::Ready { title, uploader }, ..f })),
                    YoutubeEffect::Nothing,
                ),
                None => (modal, YoutubeEffect::Nothing),
            },
            None => (modal, YoutubeEffect::Nothing),
        },
        DownloadEvent::DownloadReady(path) => match modal {
            Some(YoutubeModal::Downloading { fields, dest_path, .. }) => (
                None,
                YoutubeEffect::Finalize { fields, temp_path: path, dest_path },
            ),
            Some(YoutubeModal::EditingFields(f)) => (
                Some(YoutubeModal::EditingFields(YoutubeFieldsModal { download_status: DownloadStatus::Ready(path), ..f })),
                YoutubeEffect::Nothing,
            ),
            Some(YoutubeModal::ResolvingCollision { fields, existing_path }) => (
                Some(YoutubeModal::ResolvingCollision {
                    fields: YoutubeFieldsModal { download_status: DownloadStatus::Ready(path), ..fields },
                    existing_path,
                }),
                YoutubeEffect::Nothing,
            ),
            _ => (modal, YoutubeEffect::DiscardTemp(path)),
        },
        DownloadEvent::Failed(message) => match modal {
            Some(m) => match fields_of(m) {
                Some(f) => (
                    Some(YoutubeModal::EnteringUrl { url_input: f.url, error: Some(message), restore: Some(f) }),
                    YoutubeEffect::Nothing,
                ),
                None => (None, YoutubeEffect::Nothing),
            },
            None => (None, YoutubeEffect::Nothing),
        },
    }
}

/// Applies a report from the background download to the dialog, and says
/// what work is left for the caller.
pub fn on_event(modal: Option<YoutubeModal>, event: DownloadEvent) -> (r: (Option<YoutubeModal>, YoutubeEffect))
    ensures
        r == event_spec(modal, event),
{
    match event {
        DownloadEvent::InfoReady { title, uploader } => match modal {
            Some(YoutubeModal::EditingFields(mut f)) => {
                f.fetch_status = FetchStatus::Ready { title, uploader };
                (Some(YoutubeModal::EditingFields(f)), YoutubeEffect::Nothing)
            },
            Some(YoutubeModal::ResolvingCollision { mut fields, existing_path }) => {
                fields.fetch_status = FetchStatus::Ready { title, uploader };
                (Some(YoutubeModal::ResolvingCollision { fields, existing_path }), YoutubeEffect::Nothing)
            },
            Some(YoutubeModal::Downloading { file_name, dest_path, mut fields }) => {
                fields.fetch_status = FetchStatus::Ready { title, uploader };
                (Some(YoutubeModal::Downloading { file_name, dest_path, fields }), YoutubeEffect::Nothing)
            },
            other => (other, YoutubeEffect::Nothing),
        },
        DownloadEvent::DownloadReady(path) => match modal {
            Some(YoutubeModal::Downloading { fields, dest_path, .. }) => {
                (None, YoutubeEffect::Finalize { fields, temp_path: path, dest_path })
            },
            Some(YoutubeModal::EditingFields(mut f)) => {
                f.download_status = DownloadStatus::Ready(path);
                (Some(YoutubeModal::EditingFields(f)), YoutubeEffect::Nothing)
            },
            Some(YoutubeModal::ResolvingCollision { mut fields, existing_path }) => {
                fields.download_status = DownloadStatus::Ready(path);
                (Some(YoutubeModal::ResolvingCollision { fields, existing_path }), YoutubeEffect::Nothing)
            },
            other => (other, YoutubeEffect::DiscardTemp(path)),
        },
        DownloadEvent::Failed(message) => {
            let fields = match modal {
                Some(YoutubeModal::EditingFields(f)) => f,
                Some(YoutubeModal::ResolvingCollision { fields, .. }) => fields,
                Some(YoutubeModal::Downloading { fields, .. }) => fields,
                _ => {
                    return (None, YoutubeEffect::Nothing);
                },
            };
            let url_input = fields.url.clone();
            (Some(YoutubeModal::EnteringUrl { url_input, error: Some(message), restore: Some(fields) }), YoutubeEffect::Nothing)
        },
    }
}

/// Goes on to save once the file's place is settled: at once when the audio
/// is already downloaded, else by waiting for it.
pub open spec fn start_or_await_spec(fields: YoutubeFieldsModal, dest_path: String) -> (Option<YoutubeModal>, YoutubeEffect) {
    match fields.download_status {
        DownloadStatus::Ready(temp) => (None, YoutubeEffect::Finalize { fields, temp_path: temp, dest_path }),
        DownloadStatus::Pending => (
            Some(YoutubeModal::Downloading { file_name: fields.file_name, dest_path, fields }),
            YoutubeEffect::Nothing,
        ),
    }
}

/// Saves the download at `dest_path` when it is ready, or waits for it.
pub fn start_or_await_download(fields: YoutubeFieldsModal, dest_path: String) -> (r: (Option<YoutubeModal>, YoutubeEffect))
    ensures
        r == start_or_await_spec(fields, dest_path),
{
    let temp = match &fields.download_status {
        DownloadStatus::Ready(t) => Some(t.clone()),
        DownloadStatus::Pending => None,
    };
    match temp {
        Some(temp_path) => (None, YoutubeEffect::Finalize { fields, temp_path, dest_path }),
        None => {
            let file_name = fields.file_name.clone();
            (Some(YoutubeModal::Downloading { file_name, dest_path, fields }), YoutubeEffect::Nothing)
        },
    }
}

/// The character a text-editing key adds (`Some`), or `None` for
/// Backspace.
pub open spec fn typed_char(code: KeyCode) -> Option<char> {
    match code {
        KeyCode::Char(c) => Some(c),
        _ => None,
    }
}

/// What a key press does to the dialog, and the work it leaves for the
/// caller. Only the key counts, not the modifiers.
pub open spec fn key_spec(modal: YoutubeModal, key: KeyPress, r: (Option<YoutubeModal>, YoutubeEffect)) -> bool {
    match modal {
        YoutubeModal::EnteringUrl { url_input, error, restore } => match key.code {
            KeyCode::Esc => r == (None::<YoutubeModal>, YoutubeEffect::Nothing),
            KeyCode::Enter => if spec_trim(url_input@).len() == 0 {
                &&& r.1 is Nothing
                &&& r.0 matches Some(YoutubeModal::EnteringUrl { url_input: u2, error: Some(e), restore: r2 })
                    && u2 == url_input && e@ == "enter a URL first"@ && r2 == restore
            } else {
                &&& r.1 matches YoutubeEffect::SpawnFetch(u) && u@ == spec_trim(url_input@)
                &&& r.0 matches Some(YoutubeModal::EditingFields(f)) && started_from(f, r.1->SpawnFetch_0, restore)
            },
            KeyCode::Backspace | KeyCode::Char(_) => {
                &&& r.1 is Nothing
                &&& r.0 matches Some(YoutubeModal::EnteringUrl { url_input: u2, error: None, restore: r2 })
                    && u2@ == edited_text(url_input@, typed_char(key.code)) && r2 == restore
            },
            _ => r == (Some(YoutubeModal::EnteringUrl { url_input, error: None, restore }), YoutubeEffect::Nothing),
        },
        YoutubeModal::EditingFields(f) => match key.code {
            KeyCode::Esc => r == (None::<YoutubeModal>, YoutubeEffect::Nothing),
            KeyCode::Tab | KeyCode::Down => r == (
                Some(YoutubeModal::EditingFields(YoutubeFieldsModal {
                    focused: cycled(youtube_visible(f), f.focused, 1), error: None, ..f
                })),
                YoutubeEffect::Nothing,
            ),
            KeyCode::BackTab | KeyCode::Up => r == (
                Some(YoutubeModal::EditingFields(YoutubeFieldsModal {
                    focused: cycled(youtube_visible(f), f.focused, -1), error: None, ..f
                })),
                YoutubeEffect::Nothing,
            ),
            KeyCode::Backspace | KeyCode::Char(_) => {
                &&& r.1 is Nothing
                &&& r.0 matches Some(YoutubeModal::EditingFields(g)) && edit_relation(f, typed_char(key.code), g)
            },
            KeyCode::Enter => r == (None::<YoutubeModal>, YoutubeEffect::Confirm(f)),
            _ => r == (Some(YoutubeModal::EditingFields(f)), YoutubeEffect::Nothing),
        },
        YoutubeModal::ResolvingCollision { fields, existing_path } => match key.code {
            KeyCode::Char('o') => r == start_or_await_spec(fields, existing_path),
            KeyCode::Char('r') | KeyCode::Esc => r == (
                Some(YoutubeModal::EditingFields(YoutubeFieldsModal { focused: YoutubeField::FileName, ..fields })),
                YoutubeEffect::Nothing,
            ),
            _ => r == (Some(YoutubeModal::ResolvingCollision { fields, existing_path }), YoutubeEffect::Nothing),
        },
        YoutubeModal::Downloading { file_name, dest_path, fields } => match key.code {
            KeyCode::Esc => r == (None::<YoutubeModal>, YoutubeEffect::Nothing),
            _ => r == (Some(YoutubeModal::Downloading { file_name, dest_path, fields }), YoutubeEffect::Nothing),
        },
    }
}

/// Applies a key press to the open dialog, and says what work is left for
/// the caller; `None` closes the dialog.
pub fn on_key(modal: YoutubeModal, key: KeyPress) -> (r: (Option<YoutubeModal>, YoutubeEffect))
    ensures
        key_spec(modal, key, r),
{
    match modal {
        YoutubeModal::EnteringUrl { mut url_input, error, restore } => match key.code {
            KeyCode::Esc => (None, YoutubeEffect::Nothing),
            KeyCode::Enter => {
                let url = trim(url_input.as_str());
                if chars_of(url.as_str()).len() == 0 {
                    (
                        Some(YoutubeModal::EnteringUrl {
                            url_input,
                            error: Some(String::from_str("enter a URL first")),
                            restore,
                        }),
                        YoutubeEffect::Nothing,
                    )
                } else {
                    let fields = start_youtube_fields(url.clone(), restore);
                    (Some(YoutubeModal::EditingFields(fields)), YoutubeEffect::SpawnFetch(url))
                }
            },
            KeyCode::Backspace => {
                pop_char(&mut url_input);
                (Some(YoutubeModal::EnteringUrl { url_input, error: None, restore }), YoutubeEffect::Nothing)
            },
            KeyCode::Char(c) => {
                push_char(&mut url_input, c);
                (Some(YoutubeModal::EnteringUrl { url_input, error: None, restore }), YoutubeEffect::Nothing)
            },
            _ => (Some(YoutubeModal::EnteringUrl { url_input, error: None, restore }), YoutubeEffect::Nothing),
        },
        YoutubeModal::EditingFields(mut fields) => match key.code {
            KeyCode::Esc => (None, YoutubeEffect::Nothing),
            KeyCode::Tab | KeyCode::Down => {
                let focused = fields.focused;
                fields.focused = focused.next(&fields);
                fields.error = None;
                (Some(YoutubeModal::EditingFields(fields)), YoutubeEffect::Nothing)
            },
            KeyCode::BackTab | KeyCode::Up => {
                let focused = fields.focused;
                fields.focused = focused.prev(&fields);
                fields.error = None;
                (Some(YoutubeModal::EditingFields(fields)), YoutubeEffect::Nothing)
            },
            KeyCode::Backspace => {
                edit_focused(&mut fields, None);
                (Some(YoutubeModal::EditingFields(fields)), YoutubeEffect::Nothing)
            },
            KeyCode::Char(c) => {
                edit_focused(&mut fields, Some(c));
                (Some(YoutubeModal::EditingFields(fields)), YoutubeEffect::Nothing)
            },
            KeyCode::Enter => (None, YoutubeEffect::Confirm(fields)),
            _ => (Some(YoutubeModal::EditingFields(fields)), YoutubeEffect::Nothing),
        },
        YoutubeModal::ResolvingCollision { mut fields, existing_path } => match key.code {
            KeyCode::Char('o') => start_or_await_download(fields, existing_path),
            KeyCode::Char('r') | KeyCode::Esc => {
                fields.focused = YoutubeField::FileName;
                (Some(YoutubeModal::EditingFields(fields)), YoutubeEffect::Nothing)
            },
            _ => (Some(YoutubeModal::ResolvingCollision { fields, existing_path }), YoutubeEffect::Nothing),
        },
        YoutubeModal::Downloading { file_name, dest_path, fields } => match key.code {
            KeyCode::Esc => (None, YoutubeEffect::Nothing),
            _ => (Some(YoutubeModal::Downloading { file_name, dest_path, fields }), YoutubeEffect::Nothing),
        },
    }
}

/// Whether a path has a ".." component: two dots standing between
/// slashes or at an end.
pub open spec fn has_parent_component(s: Seq<char>) -> bool {
    exists|i: int| 0 <= i && i + 2 <= s.len() && #[trigger] s[i] == '.' && s[i + 1] == '.'
        && (i == 0 || s[i - 1] == '/') && (i + 2 == s.len() || s[i + 2] == '/')
}

/// The checks on the directory a download goes to, before it is created:
/// the trimmed text must be a relative path with no ".." component.
pub open spec fn directory_check(subpath: Seq<char>) -> Result<Seq<char>, Seq<char>> {
    let t = spec_trim(subpath);
    if t.len() > 0 && t[0] == '/' {
        Err("directory must be relative to the library root"@)
    } else if has_parent_component(t) {
        Err("directory cannot contain '..'"@)
    } else {
        Ok(t)
    }
}

/// The directory text as typed, trimmed and checked: it must be relative to
/// the library root and must not climb out of it with "..".
pub fn check_directory(subpath: &str) -> (r: Result<String, String>)
    ensures
        match (r, directory_check(subpath@)) {
            (Ok(a), Ok(b)) => a@ == b,
            (Err(a), Err(b)) => a@ == b,
            _ => false,
        },
{
    let t = trim(subpath);
    let cs = chars_of(t.as_str());
    if cs.len() > 0 && cs[0] == '/' {
        return Err(String::from_str("directory must be relative to the library root"));
    }
    let mut i: usize = 0;
    while cs.len() >= 2 && i <= cs.len() - 2
        invariant
            cs@ == t@,
            t@ == spec_trim(subpath@),
            !(cs@.len() > 0 && cs@[0] == '/'),
            i <= cs@.len(),
            forall|k: int| 0 <= k < i && k + 2 <= cs@.len() ==> !(#[trigger] cs@[k] == '.' && cs@[k + 1] == '.'
                && (k == 0 || cs@[k - 1] == '/') && (k + 2 == cs@.len() || cs@[k + 2] == '/')),
        decreases cs@.len() - i,
    {
        if cs[i] == '.' && cs[i + 1] == '.' && (i == 0 || cs[i - 1] == '/') && (i + 2 == cs.len() || cs[i + 2] == '/') {
            assert(has_parent_component(t@)) by {
                assert(cs@[i as int] == '.');
            }
            return Err(String::from_str("directory cannot contain '..'"));
        }
        i = i + 1;
    }
    Ok(t)
}

/// The error for a file name that is blank once trimmed, if it is.
pub fn check_file_name(name: &str) -> (r: Option<String>)
    ensures
        spec_trim(name@).len() == 0 <==> r is Some,
        r matches Some(e) ==> e@ == "filename can't be empty"@,
{
    let t = trim(name);
    if chars_of(t.as_str()).len() == 0 {
        Some(String::from_str("filename can't be empty"))
    } else {
        None
    }
}

/// The dialog back on the fields screen with an error shown.
pub fn with_error(fields: YoutubeFieldsModal, message: String) -> (m: YoutubeModal)
    ensures
        m == YoutubeModal::EditingFields(YoutubeFieldsModal { error: Some(message), ..fields }),
{
    let mut fields = fields;
    fields.error = Some(message);
    YoutubeModal::EditingFields(fields)
}

/// The tags a finished download is given: the dialog's title, artist,
/// album and romanized forms, the rest left empty.
pub fn download_edits(fields: &YoutubeFieldsModal) -> (e: MetadataEdits)
    ensures
        e.title@ == fields.title@,
        e.artist@ == fields.artist@,
        e.album@ == fields.album@,
        e.title_sort@ == fields.title_sort@,
        e.artist_sort@ == fields.artist_sort@,
        e.genre@.len() == 0,
        e.track@.len() == 0,
        e.date@.len() == 0,
{
    MetadataEdits {
        title: fields.title.clone(),
        title_sort: fields.title_sort.clone(),
        artist: fields.artist.clone(),
        artist_sort: fields.artist_sort.clone(),
        album: fields.album.clone(),
        genre: String::new(),
        track: String::new(),
        date: String::new(),
    }
}

} // verus!
