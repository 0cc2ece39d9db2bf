//! Songs: their identity, their tags and the lowercase keys they are sorted
//! and searched by.
use vstd::prelude::*;
use std::hash::{Hash, Hasher};
use crate::fuzzy::{
    is_subsequence, law_score_some_iff_subsequence, max_score, normalize_by_length, spec_subsequence_score,
    subsequence_score,
};
use crate::text::{
    all_ascii, ascii_lower, ascii_lower_char, chars_of, contains_str, has_substring, lowercase,
    spec_lowercase, spec_trim, string_from_chars, to_ascii_lower, trim,
};

verus! {

/// The identity of a song: a hash of its path, its size and its
/// modification time, so that a changed file gets a new identity.
#[derive(Clone, Copy, PartialEq, Eq, Structural, Hash, Debug)]
pub struct SongId(pub u64);

/// The hash that identifies a song with the given path, size in bytes and
/// modification time in seconds.
pub uninterp spec fn song_key_hash(path: Seq<char>, len: u64, modified_secs: u64) -> u64;

/// Trusted: feeds `std::path::Path::hash` of the path, then the size and the
/// modification time, into a `fnv::FnvHasher` and returns `finish()`. The
/// contract only names the result; FNV-1a is deterministic, so the same
/// arguments always give the same hash.
#[verifier::external_body]
fn hash_song_key(path: &str, len: u64, modified_secs: u64) -> (h: u64)
    ensures
        h == song_key_hash(path@, len, modified_secs),
{
    let mut hasher = fnv::FnvHasher::default();
    std::path::Path::new(path).hash(&mut hasher);
    len.hash(&mut hasher);
    modified_secs.hash(&mut hasher);
    hasher.finish()
}

impl SongId {
    /// The identity of the song at `path` with the given size and
    /// modification time.
    pub fn compute(path: &str, len: u64, modified_secs: u64) -> (id: SongId)
        ensures
            id == SongId(song_key_hash(path@, len, modified_secs)),
    {
        SongId(hash_song_key(path, len, modified_secs))
    }

    /// The identity as 16 lowercase hexadecimal digits.
    pub fn to_hex_string(&self) -> (s: String)
        ensures
            s@ == crate::text::spec_hex16(self.0 as nat),
    {
        crate::text::hex16(self.0)
    }
}

/// The extension of the last component of a path, if it has one.
pub uninterp spec fn spec_path_extension(path: Seq<char>) -> Option<Seq<char>>;

/// The file name of a path without its extension, if it has a file name.
pub uninterp spec fn spec_file_stem(path: Seq<char>) -> Option<Seq<char>>;

/// The characters of an optional string.
pub open spec fn opt_view(o: Option<String>) -> Option<Seq<char>> {
    match o {
        Some(s) => Some(s@),
        None => None,
    }
}

/// Trusted: calls `std::path::Path::extension` and converts the result to a
/// `String`; the contract only names the result.
#[verifier::external_body]
pub(crate) fn path_extension(path: &str) -> (r: Option<String>)
    ensures
        opt_view(r) == spec_path_extension(path@),
{
    std::path::Path::new(path).extension().and_then(|e| e.to_str()).map(|e| e.to_string())
}

/// Trusted: calls `std::path::Path::file_stem` and converts the result to a
/// `String`; the contract only names the result.
#[verifier::external_body]
pub(crate) fn path_file_stem(path: &str) -> (r: Option<String>)
    ensures
        opt_view(r) == spec_file_stem(path@),
{
    std::path::Path::new(path).file_stem().and_then(|e| e.to_str()).map(|e| e.to_string())
}

/// The longest file extension that can name a supported format.
pub const MAX_EXTENSION_LEN: usize = 5;

/// The lowercase extensions of the audio formats the player recognises.
pub open spec fn supported_extensions() -> Seq<Seq<char>> {
    seq![
        "aac"@, "aif"@, "aifc"@, "aiff"@, "ape"@, "flac"@, "m4a"@, "m4b"@, "m4p"@, "mp1"@,
        "mp2"@, "mp3"@, "mp4"@, "mpc"@, "mpp"@, "oga"@, "ogg"@, "opus"@, "spx"@, "wav"@,
        "wave"@, "wv"@,
    ]
}

/// The supported extensions, in the order `supported_extensions` lists them.
pub fn supported_extension_list() -> (v: Vec<&'static str>)
    ensures
        v@.len() == supported_extensions().len(),
        forall|k: int| 0 <= k < v@.len() ==> (#[trigger] v@[k])@ == supported_extensions()[k],
{
    vec![
        "aac", "aif", "aifc", "aiff", "ape", "flac", "m4a", "m4b", "m4p", "mp1", "mp2", "mp3",
        "mp4", "mpc", "mpp", "oga", "ogg", "opus", "spx", "wav", "wave", "wv",
    ]
}

/// Whether an extension names a supported audio format, ignoring ASCII case.
pub open spec fn is_supported_extension(ext: Seq<char>) -> bool {
    &&& 1 <= ext.len() <= MAX_EXTENSION_LEN
    &&& all_ascii(ext)
    &&& supported_extensions().contains(ascii_lower(ext))
}

/// Whether the path names a file in a supported audio format.
pub open spec fn spec_is_supported_audio(path: Seq<char>) -> bool {
    match spec_path_extension(path) {
        Some(ext) => is_supported_extension(ext),
        None => false,
    }
}

/// Whether the file at `path` has the extension of a supported audio format,
/// in any ASCII case.
pub fn is_supported_audio(path: &str) -> (b: bool)
    ensures
        b == spec_is_supported_audio(path@),
{
    let found = path_extension(path);
    let ext = match found {
        Some(e) => e,
        None => return false,
    };
    assert(spec_path_extension(path@) == Some(ext@));
    let chars = chars_of(ext.as_str());
    let n = chars.len();
    if n == 0 || n > MAX_EXTENSION_LEN {
        return false;
    }
    let mut lower: Vec<char> = Vec::new();
    let mut i: usize = 0;
    while i < n
        invariant
            spec_path_extension(path@) == Some(ext@),
            chars@ == ext@,
            n == chars@.len(),
            i <= n,
            lower@.len() == i,
            forall|k: int| 0 <= k < i ==> crate::text::is_ascii_char(#[trigger] chars@[k]),
            forall|k: int| 0 <= k < i ==> lower@[k] == ascii_lower_char(chars@[k]),
        decreases n - i,
    {
        let c = chars[i];
        if (c as u32) >= 128 {
            assert(!crate::text::is_ascii_char(chars@[i as int]));
            assert(!all_ascii(ext@));
            assert(!is_supported_extension(ext@));
            return false;
        }
        lower.push(to_ascii_lower(c));
        i = i + 1;
    }
    assert(all_ascii(ext@));
    assert(lower@ =~= ascii_lower(ext@));
    let known = supported_extension_list();
    let mut k: usize = 0;
    while k < known.len()
        invariant
            spec_path_extension(path@) == Some(ext@),
            1 <= ext@.len() <= MAX_EXTENSION_LEN,
            all_ascii(ext@),
            lower@ == ascii_lower(ext@),
            known@.len() == supported_extensions().len(),
            forall|m: int| 0 <= m < known@.len() ==> (#[trigger] known@[m])@ == supported_extensions()[m],
            k <= known@.len(),
            forall|m: int| 0 <= m < k ==> supported_extensions()[m] != ascii_lower(ext@),
        decreases known@.len() - k,
    {
        let candidate = chars_of(known[k]);
        if candidate.len() == lower.len() {
            let mut m: usize = 0;
            let mut same = true;
            while m < lower.len()
                invariant
                    candidate@.len() == lower@.len(),
                    m <= lower@.len(),
                    same == (forall|q: int| 0 <= q < m ==> candidate@[q] == lower@[q]),
                decreases lower@.len() - m,
            {
                if candidate[m] != lower[m] {
                    same = false;
                }
                m = m + 1;
            }
            if same {
                assert(candidate@ =~= lower@);
                assert(supported_extensions()[k as int] == ascii_lower(ext@));
                assert(supported_extensions().contains(ascii_lower(ext@)));
                return true;
            }
            assert(candidate@ != lower@) by {
                if candidate@ == lower@ {
                }
            }
        }
        k = k + 1;
    }
    assert(!supported_extensions().contains(ascii_lower(ext@)));
    false
}

/// The title shown for songs without a title tag or file name.
pub const UNKNOWN_TITLE: &'static str = "Unknown Title";
/// The artist shown for songs without an artist tag.
pub const UNKNOWN_ARTIST: &'static str = "Unknown Artist";
/// The album shown for songs without an album tag.
pub const UNKNOWN_ALBUM: &'static str = "Unknown Album";

/// The tags of an audio file, as the player uses them.
pub struct Metadata {
    pub title: Option<String>,
    pub artist: Option<String>,
    pub album: Option<String>,
    pub genre: Option<String>,
    pub track: Option<u32>,
    /// The recording date as written in the tag.
    pub date: Option<String>,
    /// The play time in nanoseconds.
    pub duration_nanos: u128,
}

fn dup_opt(o: &Option<String>) -> (r: Option<String>)
    ensures
        r == *o,
{
    match o {
        Some(s) => Some(s.clone()),
        None => None,
    }
}

impl Metadata {
    /// A copy of these tags.
    pub fn duplicate(&self) -> (m: Metadata)
        ensures
            m == *self,
    {
        Metadata {
            title: dup_opt(&self.title),
            artist: dup_opt(&self.artist),
            album: dup_opt(&self.album),
            genre: dup_opt(&self.genre),
            track: self.track,
            date: dup_opt(&self.date),
            duration_nanos: self.duration_nanos,
        }
    }

    /// Metadata with no tags and zero duration.
    pub fn empty() -> (m: Metadata)
        ensures
            m.title is None,
            m.artist is None,
            m.album is None,
            m.genre is None,
            m.track is None,
            m.date is None,
            m.duration_nanos == 0,
    {
        Metadata {
            title: None,
            artist: None,
            album: None,
            genre: None,
            track: None,
            date: None,
            duration_nanos: 0,
        }
    }
}

/// The title shown for a song: its title tag, else its file stem.
pub open spec fn display_title(m: Metadata, stem: Seq<char>) -> Seq<char> {
    match m.title {
        Some(t) => t@,
        None => stem,
    }
}

/// The artist shown for a song: its artist tag, else "Unknown Artist".
pub open spec fn display_artist(m: Metadata) -> Seq<char> {
    match m.artist {
        Some(a) => a@,
        None => UNKNOWN_ARTIST@,
    }
}

/// The album shown for a song: its album tag, else "Unknown Album".
pub open spec fn display_album(m: Metadata) -> Seq<char> {
    match m.album {
        Some(a) => a@,
        None => UNKNOWN_ALBUM@,
    }
}

/// The file stem used as a title: the path's stem, else "Unknown Title".
pub open spec fn stem_title(path: Seq<char>) -> Seq<char> {
    match spec_file_stem(path) {
        Some(s) => s,
        None => UNKNOWN_TITLE@,
    }
}

/// One song of the library.
pub struct Song {
    id: SongId,
    path: String,
    stem: String,
    metadata: Metadata,
    key_title: String,
    key_artist: String,
    key_album: String,
    mtime_secs: u64,
}

impl Song {
    /// The song's identity.
    pub closed spec fn id_view(&self) -> SongId {
        self.id
    }

    /// The song's path.
    pub closed spec fn path_view(&self) -> Seq<char> {
        self.path@
    }

    /// The song's tags.
    pub closed spec fn metadata_view(&self) -> Metadata {
        self.metadata
    }

    /// The song's modification time in seconds.
    pub closed spec fn mtime_view(&self) -> u64 {
        self.mtime_secs
    }

    /// The title as shown.
    pub open spec fn title_view(&self) -> Seq<char> {
        display_title(self.metadata_view(), stem_title(self.path_view()))
    }

    /// The artist as shown.
    pub open spec fn artist_view(&self) -> Seq<char> {
        display_artist(self.metadata_view())
    }

    /// The album as shown.
    pub open spec fn album_view(&self) -> Seq<char> {
        display_album(self.metadata_view())
    }

    /// The lowercase title the song is sorted and searched by.
    pub open spec fn sort_title_view(&self) -> Seq<char> {
        spec_lowercase(self.title_view())
    }

    /// The lowercase artist the song is sorted and searched by.
    pub open spec fn sort_artist_view(&self) -> Seq<char> {
        spec_lowercase(self.artist_view())
    }

    /// The lowercase album the song is searched by.
    pub open spec fn sort_album_view(&self) -> Seq<char> {
        spec_lowercase(self.album_view())
    }

    #[verifier::type_invariant]
    closed spec fn keys_match(&self) -> bool {
        &&& self.stem@ == stem_title(self.path@)
        &&& self.key_title@ == spec_lowercase(display_title(self.metadata, self.stem@))
        &&& self.key_artist@ == spec_lowercase(display_artist(self.metadata))
        &&& self.key_album@ == spec_lowercase(display_album(self.metadata))
    }

    /// A song built from a path, its size and modification time, and tags
    /// read earlier (from the file or from the scan cache). Its identity is
    /// computed from the path, size and modification time.
    pub fn from_cached_with_stat(path: String, len: u64, modified_secs: u64, metadata: Metadata) -> (s: Song)
        ensures
            s.id_view() == SongId(song_key_hash(path@, len, modified_secs)),
            s.path_view() == path@,
            s.metadata_view() == metadata,
            s.mtime_view() == modified_secs,
    {
        let id = SongId::compute(path.as_str(), len, modified_secs);
        Song::assemble(id, path, metadata, modified_secs)
    }

    /// A song with the given identity, path, tags and modification time.
    pub fn assemble(id: SongId, path: String, metadata: Metadata, mtime_secs: u64) -> (s: Song)
        ensures
            s.id_view() == id,
            s.path_view() == path@,
            s.metadata_view() == metadata,
            s.mtime_view() == mtime_secs,
    {
        let stem = match path_file_stem(path.as_str()) {
            Some(s) => s,
            None => UNKNOWN_TITLE.to_owned(),
        };
        proof {
            reveal_strlit("Unknown Title");
        }
        let key_title = match &metadata.title {
            Some(t) => lowercase(t.as_str()),
            None => lowercase(stem.as_str()),
        };
        let key_artist = match &metadata.artist {
            Some(a) => lowercase(a.as_str()),
            None => lowercase(UNKNOWN_ARTIST),
        };
        let key_album = match &metadata.album {
            Some(a) => lowercase(a.as_str()),
            None => lowercase(UNKNOWN_ALBUM),
        };
        Song { id, path, stem, metadata, key_title, key_artist, key_album, mtime_secs }
    }

    /// How the song is named in messages: "artist - title (album)".
    pub open spec fn label_view(&self) -> Seq<char> {
        self.artist_view() + " - "@ + self.title_view() + " ("@ + self.album_view() + ")"@
    }

    /// How the song is named in messages: "artist - title (album)".
    pub fn label(&self) -> (s: String)
        ensures
            s@ == self.label_view(),
    {
        let mut s = String::from_str(self.artist());
        s.append(" - ");
        s.append(self.title());
        s.append(" (");
        s.append(self.album());
        s.append(")");
        s
    }

    /// A copy of the song.
    pub fn duplicate(&self) -> (s: Song)
        ensures
            s == *self,
    {
        proof {
            use_type_invariant(self);
        }
        Song {
            id: self.id,
            path: self.path.clone(),
            stem: self.stem.clone(),
            metadata: self.metadata.duplicate(),
            key_title: self.key_title.clone(),
            key_artist: self.key_artist.clone(),
            key_album: self.key_album.clone(),
            mtime_secs: self.mtime_secs,
        }
    }

    /// The song's identity.
    pub fn id(&self) -> (id: SongId)
        ensures
            id == self.id_view(),
    {
        self.id
    }

    /// The song's path.
    pub fn path(&self) -> (p: &str)
        ensures
            p@ == self.path_view(),
    {
        self.path.as_str()
    }

    /// The song's tags.
    pub fn metadata(&self) -> (m: &Metadata)
        ensures
            *m == self.metadata_view(),
    {
        &self.metadata
    }

    /// The song's modification time in seconds since the epoch.
    pub fn modified(&self) -> (t: u64)
        ensures
            t == self.mtime_view(),
    {
        self.mtime_secs
    }

    /// The title tag, or the file name without its extension when there is
    /// no title tag.
    pub fn title(&self) -> (t: &str)
        ensures
            t@ == self.title_view(),
    {
        proof {
            use_type_invariant(self);
        }
        match &self.metadata.title {
            Some(t) => t.as_str(),
            None => self.stem.as_str(),
        }
    }

    /// The artist tag, or "Unknown Artist".
    pub fn artist(&self) -> (a: &str)
        ensures
            a@ == self.artist_view(),
    {
        match &self.metadata.artist {
            Some(a) => a.as_str(),
            None => UNKNOWN_ARTIST,
        }
    }

    /// The album tag, or "Unknown Album".
    pub fn album(&self) -> (a: &str)
        ensures
            a@ == self.album_view(),
    {
        match &self.metadata.album {
            Some(a) => a.as_str(),
            None => UNKNOWN_ALBUM,
        }
    }

    /// The lowercase title.
    pub fn sort_title(&self) -> (t: &str)
        ensures
            t@ == self.sort_title_view(),
    {
        proof {
            use_type_invariant(self);
        }
        self.key_title.as_str()
    }

    /// The lowercase artist.
    pub fn sort_artist(&self) -> (a: &str)
        ensures
            a@ == self.sort_artist_view(),
    {
        proof {
            use_type_invariant(self);
        }
        self.key_artist.as_str()
    }

    /// The lowercase album.
    pub fn sort_album(&self) -> (a: &str)
        ensures
            a@ == self.sort_album_view(),
    {
        proof {
            use_type_invariant(self);
        }
        self.key_album.as_str()
    }

    /// Whether the (already lowercased) needle occurs in the song's
    /// lowercase title, artist or album. The empty needle matches every song.
    pub fn matches(&self, needle: &str) -> (b: bool)
        ensures
            b == (needle@.len() == 0 || has_substring(self.sort_title_view(), needle@)
                || has_substring(self.sort_artist_view(), needle@)
                || has_substring(self.sort_album_view(), needle@)),
    {
        needle.is_empty() || contains_str(self.sort_title(), needle) || contains_str(
            self.sort_artist(),
            needle,
        ) || contains_str(self.sort_album(), needle)
    }
}


/// The score of a search term within one field, scaled by the field's length.
pub open spec fn field_score(term: Seq<char>, field: Seq<char>) -> Option<nat> {
    match spec_subsequence_score(term, field) {
        Some(s) => Some((s * 100) / ((field.len() as u32) as nat + 8)),
        None => None,
    }
}

/// Title matches count half as much again as artist and album matches.
pub open spec fn title_weight(o: Option<nat>) -> Option<nat> {
    match o {
        Some(v) => Some(v * 3 / 2),
        None => None,
    }
}

/// The larger of two optional scores; `None` only when both are `None`.
pub open spec fn max_opt(a: Option<nat>, b: Option<nat>) -> Option<nat> {
    match (a, b) {
        (Some(x), Some(y)) => Some(if x >= y { x } else { y }),
        (Some(x), None) => Some(x),
        (None, Some(y)) => Some(y),
        (None, None) => None,
    }
}

/// The score of one search term against a song: the best of its weighted
/// title, artist and album scores, and zero for the empty term.
pub open spec fn spec_term_score(song: Song, term: Seq<char>) -> Option<nat> {
    if term.len() == 0 {
        Some(0)
    } else {
        max_opt(
            max_opt(
                title_weight(field_score(term, song.sort_title_view())),
                field_score(term, song.sort_artist_view()),
            ),
            field_score(term, song.sort_album_view()),
        )
    }
}

/// Scoring `term` in `field` stays within `u32`: the field's length cut to
/// 32 bits leaves room for 8 more, and a match's score times 100 (and, for
/// the title, the scaled score times 3) fits. Nothing is computed when the
/// term does not match.
pub open spec fn field_fits(term: Seq<char>, field: Seq<char>, weighted: bool) -> bool {
    spec_subsequence_score(term, field) matches Some(s) ==> {
        &&& s * 100 <= u32::MAX
        &&& (field.len() as u32) + 8 <= u32::MAX
        &&& weighted ==> (s * 100) / ((field.len() as u32) as nat + 8) * 3 <= u32::MAX
    }
}

/// Scoring `term` against the song stays within `u32` throughout.
pub open spec fn term_fits(song: Song, term: Seq<char>) -> bool {
    term.len() == 0 || {
        &&& max_score(term.len()) <= u32::MAX
        &&& field_fits(term, song.sort_title_view(), true)
        &&& field_fits(term, song.sort_artist_view(), false)
        &&& field_fits(term, song.sort_album_view(), false)
    }
}

/// Scoring the first `k` terms against the song, one after another and
/// stopping at the first that matches nothing, stays within `u32`: each
/// term scored fits, and so does each running total.
pub open spec fn score_runs(song: Song, terms: Seq<Seq<char>>, k: int) -> bool
    decreases k,
{
    if k <= 0 {
        true
    } else {
        score_runs(song, terms, k - 1) && match spec_prefix_score(song, terms, k - 1) {
            None => true,
            Some(t) => term_fits(song, terms[k - 1]) && (spec_term_score(song, terms[k - 1]) matches Some(x)
                ==> t + x <= u32::MAX),
        }
    }
}

proof fn lemma_score_runs_prefix(song: Song, terms: Seq<Seq<char>>, k: int, n: int)
    requires
        k <= n,
        score_runs(song, terms, n),
    ensures
        score_runs(song, terms, k),
    decreases n - k,
{
    if k < n {
        lemma_score_runs_prefix(song, terms, k, n - 1);
    }
}

/// Once a term has matched nothing, scoring the later ones does not happen,
/// so it cannot go out of range.
proof fn lemma_score_runs_after_miss(song: Song, terms: Seq<Seq<char>>, k: int, n: int)
    requires
        k <= n,
        score_runs(song, terms, k),
        spec_prefix_score(song, terms, k) is None,
    ensures
        score_runs(song, terms, n),
    decreases n - k,
{
    if k < n {
        lemma_score_runs_after_miss(song, terms, k, n - 1);
        lemma_prefix_none_stays(song, terms, k, n - 1);
    }
}

/// The total score of the first `k` terms, or `None` as soon as one of them
/// fails to match.
pub open spec fn spec_prefix_score(song: Song, terms: Seq<Seq<char>>, k: int) -> Option<nat>
    decreases k,
{
    if k <= 0 {
        Some(0)
    } else {
        match spec_prefix_score(song, terms, k - 1) {
            None => None,
            Some(t) => match spec_term_score(song, terms[k - 1]) {
                None => None,
                Some(x) => Some(t + x),
            },
        }
    }
}

/// The characters of each term.
pub open spec fn term_views(terms: Seq<&str>) -> Seq<Seq<char>> {
    terms.map_values(|t: &str| t@)
}

/// Whether scoring `term` in `field` stays within `u32` (see `field_fits`).
fn field_fits_check(term: &str, field: &str, weighted: bool) -> (b: bool)
    requires
        term@.len() > 0,
        max_score(term@.len()) <= u32::MAX,
    ensures
        b == field_fits(term@, field@, weighted),
{
    match subsequence_score(term, field) {
        None => true,
        Some(s) => {
            let field_len = chars_of(field).len();
            let d: u32 = field_len as u32;
            proof {
                assert(d == (field@.len() as u32));
            }
            if s > u32::MAX / 100 {
                false
            } else if d > u32::MAX - 8 {
                false
            } else if weighted {
                let x: u32 = s * 100 / (d + 8);
                x <= u32::MAX / 3
            } else {
                true
            }
        },
    }
}

/// The score of `term` in one field, scaled by the field's length.
fn score_field(term: &str, field: &str, weighted: bool) -> (r: Option<u32>)
    requires
        term@.len() > 0,
        max_score(term@.len()) <= u32::MAX,
        field_fits(term@, field@, weighted),
    ensures
        weighted ==> opt_nat(r) == title_weight(field_score(term@, field@)),
        !weighted ==> opt_nat(r) == field_score(term@, field@),
{
    let field_len = chars_of(field).len();
    match subsequence_score(term, field) {
        Some(s) => {
            let n = normalize_by_length(s, field_len);
            if weighted {
                Some(n * 3 / 2)
            } else {
                Some(n)
            }
        },
        None => None,
    }
}

/// An optional `u32` as an optional natural number.
pub open spec fn opt_nat(o: Option<u32>) -> Option<nat> {
    match o {
        Some(v) => Some(v as nat),
        None => None,
    }
}

/// The larger of two optional scores.
fn max_option(a: Option<u32>, b: Option<u32>) -> (r: Option<u32>)
    ensures
        opt_nat(r) == max_opt(opt_nat(a), opt_nat(b)),
{
    match (a, b) {
        (Some(x), Some(y)) => Some(if x >= y { x } else { y }),
        (Some(x), None) => Some(x),
        (None, Some(y)) => Some(y),
        (None, None) => None,
    }
}

impl Song {
    /// The score of one lowercase search term against this song: the best
    /// of its title score (weighted by one half again), artist score and
    /// album score, each scaled by the field's length; `None` when the term
    /// matches none of them; zero for the empty term.
    pub fn fuzzy_term_score(&self, term: &str) -> (r: Option<u32>)
        requires
            term_fits(*self, term@),
        ensures
            opt_nat(r) == spec_term_score(*self, term@),
    {
        if term.is_empty() {
            return Some(0);
        }
        let title = score_field(term, self.sort_title(), true);
        let artist = score_field(term, self.sort_artist(), false);
        let album = score_field(term, self.sort_album(), false);
        max_option(max_option(title, artist), album)
    }

    /// Whether scoring `term` against the song stays within `u32` (see
    /// `term_fits`).
    pub fn term_fits_check(&self, term: &str) -> (b: bool)
        ensures
            b == term_fits(*self, term@),
    {
        let n = chars_of(term).len();
        if n == 0 {
            return true;
        }
        if n > u32::MAX as usize / 35 {
            return false;
        }
        field_fits_check(term, self.sort_title(), true) && field_fits_check(term, self.sort_artist(), false)
            && field_fits_check(term, self.sort_album(), false)
    }

    /// The summed score of every term as `fuzzy_score` gives it, or `None`
    /// when that scoring would go out of the range of `u32` (`score_runs`
    /// fails).
    pub fn checked_fuzzy_score(&self, terms: &[&str]) -> (r: Option<Option<u32>>)
        ensures
            r is None <==> !score_runs(*self, term_views(terms@), terms@.len() as int),
            r matches Some(v) ==> opt_nat(v) == spec_prefix_score(*self, term_views(terms@), terms@.len() as int),
    {
        let ghost tv = term_views(terms@);
        let mut total: u32 = 0;
        let mut i: usize = 0;
        while i < terms.len()
            invariant
                tv == term_views(terms@),
                i <= terms@.len(),
                score_runs(*self, tv, i as int),
                spec_prefix_score(*self, tv, i as int) == Some(total as nat),
            decreases terms@.len() - i,
        {
            let term: &str = terms[i];
            assert(tv[i as int] == term@);
            if !self.term_fits_check(term) {
                proof {
                    if score_runs(*self, tv, terms@.len() as int) {
                        lemma_score_runs_prefix(*self, tv, i + 1, terms@.len() as int);
                    }
                }
                return None;
            }
            match self.fuzzy_term_score(term) {
                Some(x) => {
                    if x > u32::MAX - total {
                        proof {
                            if score_runs(*self, tv, terms@.len() as int) {
                                lemma_score_runs_prefix(*self, tv, i + 1, terms@.len() as int);
                            }
                        }
                        return None;
                    }
                    assert(spec_prefix_score(*self, tv, i + 1) == Some((total + x) as nat));
                    total = total + x;
                },
                None => {
                    proof {
                        assert(spec_prefix_score(*self, tv, i + 1) is None);
                        assert(score_runs(*self, tv, i + 1));
                        lemma_score_runs_after_miss(*self, tv, i + 1, terms@.len() as int);
                        lemma_prefix_none_stays(*self, tv, i as int + 1, terms@.len() as int);
                    }
                    return Some(None);
                },
            }
            i = i + 1;
        }
        Some(Some(total))
    }

    /// The summed score of every term, or `None` when any term matches
    /// nothing: a song is found only when all of the query's words match.
    pub fn fuzzy_score(&self, terms: &[&str]) -> (r: Option<u32>)
        requires
            score_runs(*self, term_views(terms@), terms@.len() as int),
        ensures
            opt_nat(r) == spec_prefix_score(*self, term_views(terms@), terms@.len() as int),
    {
        let mut total: u32 = 0;
        let mut i: usize = 0;
        while i < terms.len()
            invariant
                i <= terms@.len(),
                score_runs(*self, term_views(terms@), terms@.len() as int),
                spec_prefix_score(*self, term_views(terms@), i as int) == Some(total as nat),
            decreases terms@.len() - i,
        {
            let term: &str = terms[i];
            assert(term_views(terms@)[i as int] == term@);
            proof {
                lemma_score_runs_prefix(*self, term_views(terms@), i + 1, terms@.len() as int);
            }
            match self.fuzzy_term_score(term) {
                Some(x) => {
                    assert(spec_prefix_score(*self, term_views(terms@), i + 1) == Some((total + x) as nat));
                    total = total + x;
                },
                None => {
                    proof {
                        lemma_prefix_none_stays(*self, term_views(terms@), i as int + 1, terms@.len() as int);
                    }
                    return None;
                },
            }
            i = i + 1;
        }
        Some(total)
    }
}

/// Once a term fails to match, every longer prefix fails too.
proof fn lemma_prefix_none_stays(song: Song, terms: Seq<Seq<char>>, k: int, n: int)
    requires
        k <= n,
        spec_prefix_score(song, terms, k) is None,
    ensures
        spec_prefix_score(song, terms, n) is None,
    decreases n - k,
{
    if k < n {
        lemma_prefix_none_stays(song, terms, k + 1, n);
    }
}

/// Whether a name needs a romanized form to sort by: it holds a character
/// outside ASCII.
pub open spec fn spec_needs_romanization(s: Seq<char>) -> bool {
    !all_ascii(s)
}

/// Whether a title or artist needs a romanized form to sort by, which is
/// the case when it holds a character outside ASCII.
pub fn needs_romanization(s: &str) -> (b: bool)
    ensures
        b == spec_needs_romanization(s@),
{
    let cs = chars_of(s);
    let mut i: usize = 0;
    while i < cs.len()
        invariant
            cs@ == s@,
            i <= cs@.len(),
            forall|k: int| 0 <= k < i ==> crate::text::is_ascii_char(#[trigger] cs@[k]),
        decreases cs@.len() - i,
    {
        if (cs[i] as u32) >= 128 {
            return true;
        }
        i = i + 1;
    }
    false
}

/// The tag values a user edits, as text: an empty field clears the tag.
pub struct MetadataEdits {
    pub title: String,
    pub title_sort: String,
    pub artist: String,
    pub artist_sort: String,
    pub album: String,
    pub genre: String,
    pub track: String,
    pub date: String,
}

impl Default for MetadataEdits {
    fn default() -> (e: MetadataEdits)
        ensures
            e.title@ == Seq::<char>::empty(),
            e.title_sort@ == Seq::<char>::empty(),
            e.artist@ == Seq::<char>::empty(),
            e.artist_sort@ == Seq::<char>::empty(),
            e.album@ == Seq::<char>::empty(),
            e.genre@ == Seq::<char>::empty(),
            e.track@ == Seq::<char>::empty(),
            e.date@ == Seq::<char>::empty(),
    {
        MetadataEdits {
            title: String::new(),
            title_sort: String::new(),
            artist: String::new(),
            artist_sort: String::new(),
            album: String::new(),
            genre: String::new(),
            track: String::new(),
            date: String::new(),
        }
    }
}

/// The text of an optional tag: the tag, or nothing.
pub open spec fn tag_text(o: Option<String>) -> Seq<char> {
    match o {
        Some(s) => s@,
        None => Seq::empty(),
    }
}

fn tag_string(o: &Option<String>) -> (s: String)
    ensures
        s@ == tag_text(*o),
{
    match o {
        Some(t) => t.clone(),
        None => String::new(),
    }
}

impl MetadataEdits {
    /// The edit fields for a song's current tags: each tag as text (the
    /// track number in decimal), empty where the tag is missing. The tags
    /// hold no romanized forms, so those fields start empty.
    pub fn from_metadata(m: &Metadata) -> (e: MetadataEdits)
        ensures
            e.title@ == tag_text(m.title),
            e.artist@ == tag_text(m.artist),
            e.album@ == tag_text(m.album),
            e.genre@ == tag_text(m.genre),
            e.date@ == tag_text(m.date),
            e.track@ == (match m.track {
                Some(n) => crate::text::spec_decimal(n as nat),
                None => Seq::empty(),
            }),
            e.title_sort@ == Seq::<char>::empty(),
            e.artist_sort@ == Seq::<char>::empty(),
    {
        let track = match m.track {
            Some(n) => crate::text::decimal(n as u64),
            None => String::new(),
        };
        MetadataEdits {
            title: tag_string(&m.title),
            title_sort: String::new(),
            artist: tag_string(&m.artist),
            artist_sort: String::new(),
            album: tag_string(&m.album),
            genre: tag_string(&m.genre),
            track,
            date: tag_string(&m.date),
        }
    }
}

/// Law: a song is found by a search exactly when every one of the
/// search's terms matches it.
pub proof fn law_found_iff_every_term_matches(song: Song, terms: Seq<Seq<char>>, k: int)
    requires
        0 <= k <= terms.len(),
    ensures
        (spec_prefix_score(song, terms, k) is Some) <==> (forall|i: int| 0 <= i < k ==> #[trigger] spec_term_score(song, terms[i]) is Some),
    decreases k,
{
    if k > 0 {
        law_found_iff_every_term_matches(song, terms, k - 1);
        if spec_prefix_score(song, terms, k) is Some {
            assert forall|i: int| 0 <= i < k implies #[trigger] spec_term_score(song, terms[i]) is Some by {
                if i < k - 1 {
                    assert(spec_prefix_score(song, terms, k - 1) is Some);
                }
            }
        }
    }
}

/// Every character of `s` is an ASCII digit.
pub open spec fn all_digits(s: Seq<char>) -> bool {
    forall|i: int| 0 <= i < s.len() ==> '0' <= #[trigger] s[i] && s[i] <= '9'
}

/// The number the ASCII digits `s` write in decimal.
pub open spec fn digits_value(s: Seq<char>) -> nat
    decreases s.len(),
{
    if s.len() == 0 {
        0
    } else {
        digits_value(s.drop_last()) * 10 + ((s.last() as int) - ('0' as int)) as nat
    }
}

proof fn lemma_digits_value_grows(s: Seq<char>, k: int)
    requires
        all_digits(s),
        0 <= k <= s.len(),
    ensures
        digits_value(s.take(k)) <= digits_value(s),
    decreases s.len() - k,
{
    if k < s.len() {
        lemma_digits_value_grows(s, k + 1);
        assert(s.take(k + 1).drop_last() =~= s.take(k));
    } else {
        assert(s.take(k) =~= s);
    }
}

/// The number that `text` writes in decimal, when it is ASCII digits (at
/// least one) whose value fits in a `u32`.
pub fn parse_digits(text: &str) -> (r: Option<u32>)
    ensures
        text@.len() > 0 && all_digits(text@) && digits_value(text@) <= u32::MAX ==> r == Some(
            digits_value(text@) as u32,
        ),
        !(text@.len() > 0 && all_digits(text@) && digits_value(text@) <= u32::MAX) ==> r is None,
{
    let cs = chars_of(text);
    if cs.len() == 0 {
        return None;
    }
    let ghost ts = text@;
    let mut value: u64 = 0;
    let mut i: usize = 0;
    let mut ok = true;
    proof {
        assert(ts.take(0) =~= Seq::<char>::empty());
    }
    while i < cs.len()
        invariant_except_break
            ok,
        invariant
            cs@ == ts,
            i <= ts.len(),
            all_digits(ts.take(i as int)),
            value == digits_value(ts.take(i as int)),
            value <= u32::MAX,
        ensures
            ok ==> i == ts.len(),
            !ok ==> !(all_digits(ts) && digits_value(ts) <= u32::MAX),
        decreases ts.len() - i,
    {
        let c = cs[i];
        proof {
            assert(ts.take(i as int + 1).drop_last() =~= ts.take(i as int));
            assert(ts.take(i as int + 1).last() == c);
        }
        if c < '0' || c > '9' {
            ok = false;
            proof {
                assert(ts[i as int] == c);
            }
            break;
        }
        let d = (c as u32 - '0' as u32) as u64;
        let next = value * 10 + d;
        proof {
            assert(all_digits(ts.take(i as int + 1)));
            assert(next == digits_value(ts.take(i as int + 1)));
        }
        if next > 0xffff_ffff {
            ok = false;
            proof {
                if all_digits(ts) {
                    lemma_digits_value_grows(ts, i as int + 1);
                }
            }
            break;
        }
        value = next;
        i = i + 1;
    }
    if ok {
        proof {
            assert(ts.take(ts.len() as int) =~= ts);
        }
        Some(value as u32)
    } else {
        None
    }
}

/// The track number an edit gives (its text trimmed): none when it is
/// empty, the number when it is ASCII digits that fit in a `u32`, and an
/// error saying so otherwise.
pub fn parse_track(text: &str) -> (r: Result<Option<u32>, String>)
    ensures
        spec_trim(text@).len() == 0 ==> r matches Ok(None),
        spec_trim(text@).len() > 0 && all_digits(spec_trim(text@)) && digits_value(spec_trim(text@)) <= u32::MAX
            ==> (r matches Ok(Some(n)) && n == digits_value(spec_trim(text@))),
        spec_trim(text@).len() > 0 && !(all_digits(spec_trim(text@)) && digits_value(spec_trim(text@)) <= u32::MAX)
            ==> (r matches Err(e) && e@ == "track must be a number: "@ + spec_trim(text@)),
{
    let t = trim(text);
    if t.as_str().unicode_len() == 0 {
        return Ok(None);
    }
    match parse_digits(t.as_str()) {
        Some(n) => Ok(Some(n)),
        None => {
            let mut e = String::from_str("track must be a number: ");
            e.append(t.as_str());
            Err(e)
        },
    }
}

/// A match score scaled by the length of its field, the length taken as a
/// `u32` as the scorer takes it.
pub open spec fn scaled(score: nat, field_len: nat) -> nat {
    (score * 100) / ((field_len as u32) as nat + 8)
}

/// Law: a search term (not empty) finds a song exactly when its characters
/// occur in order in the song's lowercase title, artist or album; its score
/// is then at least the length-scaled match score of each of those fields
/// it occurs in (the title's counting half as much again), and it is one of
/// them.
pub proof fn law_term_finds_every_field(song: Song, term: Seq<char>)
    requires
        term.len() > 0,
    ensures
        spec_term_score(song, term) is Some <==> (is_subsequence(term, song.sort_title_view())
            || is_subsequence(term, song.sort_artist_view()) || is_subsequence(term, song.sort_album_view())),
        spec_subsequence_score(term, song.sort_title_view()) matches Some(t) ==> (spec_term_score(song, term) matches Some(v)
            && v >= scaled(t, song.sort_title_view().len()) * 3 / 2),
        spec_subsequence_score(term, song.sort_artist_view()) matches Some(a) ==> (spec_term_score(song, term) matches Some(v)
            && v >= scaled(a, song.sort_artist_view().len())),
        spec_subsequence_score(term, song.sort_album_view()) matches Some(b) ==> (spec_term_score(song, term) matches Some(v)
            && v >= scaled(b, song.sort_album_view().len())),
        spec_term_score(song, term) matches Some(v) ==> (
            (spec_subsequence_score(term, song.sort_title_view()) matches Some(t)
                && v == scaled(t, song.sort_title_view().len()) * 3 / 2)
            || (spec_subsequence_score(term, song.sort_artist_view()) matches Some(a)
                && v == scaled(a, song.sort_artist_view().len()))
            || (spec_subsequence_score(term, song.sort_album_view()) matches Some(b)
                && v == scaled(b, song.sort_album_view().len()))),
{
    law_score_some_iff_subsequence(term, song.sort_title_view());
    law_score_some_iff_subsequence(term, song.sort_artist_view());
    law_score_some_iff_subsequence(term, song.sort_album_view());
}

} // verus!
