//! Where the player keeps its files: the scan cache and the playlists of a
//! library, named after a hash of the library's path, and the view settings
//! it remembers.
use vstd::prelude::*;
use std::hash::{Hash, Hasher};
use crate::app_name::{cache_file_name, playlists_file_name, spec_slug};
use crate::state::{Category, PlaylistDisplayMode, Sort};
use crate::text::{hex16, spec_hex16};

verus! {

/// The hash that names a library's files: FNV-1a over the path as
/// `std::path::Path::hash` feeds it.
pub uninterp spec fn path_hash(path: Seq<char>) -> u64;

/// Trusted: feeds `std::path::Path::hash` of the path into a
/// `fnv::FnvHasher` and returns `finish()`; FNV-1a is deterministic, so the
/// result depends on the path alone, and the contract only names it.
#[verifier::external_body]
fn hash_path(path: &str) -> (h: u64)
    ensures
        h == path_hash(path@),
{
    let mut hasher = fnv::FnvHasher::default();
    std::path::Path::new(path).hash(&mut hasher);
    hasher.finish()
}

/// `base` joined with `name`, as `std::path::Path::join` gives it.
pub uninterp spec fn spec_path_join(base: Seq<char>, name: Seq<char>) -> Seq<char>;

/// Trusted: calls `std::path::Path::join` and converts the result back to a
/// `String`; the contract only names the result, which depends on the two
/// paths alone.
#[verifier::external_body]
fn path_join(base: &str, name: &str) -> (p: String)
    ensures
        p@ == spec_path_join(base@, name@),
{
    std::path::Path::new(base).join(name).to_string_lossy().into_owned()
}

/// The scan cache's file name in the cache directory, for a library at
/// `root` (already made canonical).
pub open spec fn spec_scan_cache_file(root: Seq<char>) -> Seq<char> {
    spec_hex16(path_hash(root) as nat) + ".json"@
}

/// The playlists file's name in the data directory, for a library at
/// `root` (already made canonical).
pub open spec fn spec_playlists_file(root: Seq<char>) -> Seq<char> {
    spec_hex16(path_hash(root) as nat) + "-playlists.json"@
}

/// The scan cache's file name for a library: the path's hash as 16
/// hexadecimal digits, then ".json".
pub fn scan_cache_file_name(canonical_root: &str) -> (s: String)
    ensures
        s@ == spec_scan_cache_file(canonical_root@),
{
    let mut s = hex16(hash_path(canonical_root));
    s.append(".json");
    s
}

/// The playlists file's name for a library: the path's hash as 16
/// hexadecimal digits, then "-playlists.json".
pub fn playlists_data_file_name(canonical_root: &str) -> (s: String)
    ensures
        s@ == spec_playlists_file(canonical_root@),
{
    let mut s = hex16(hash_path(canonical_root));
    s.append("-playlists.json");
    s
}

/// Where the scan cache of the library at `root` lives: in the cache
/// directory when there is one, named after the library's canonical path
/// `canonical_root`, and otherwise in `root` itself, as it was given.
pub fn scan_cache_path(root: &str, canonical_root: &str, cache_dir: Option<&str>) -> (p: String)
    ensures
        p@ == (match cache_dir {
            Some(d) => spec_path_join(d@, spec_scan_cache_file(canonical_root@)),
            None => spec_path_join(root@, "."@ + spec_slug('-') + "-cache.json"@),
        }),
{
    match cache_dir {
        Some(d) => {
            let name = scan_cache_file_name(canonical_root);
            path_join(d, name.as_str())
        },
        None => {
            let name = cache_file_name();
            path_join(root, name.as_str())
        },
    }
}

/// Where the playlists of the library at `root` live: in the data
/// directory when there is one, named after the library's canonical path
/// `canonical_root`, and otherwise in `root` itself, as it was given.
pub fn playlists_path(root: &str, canonical_root: &str, data_dir: Option<&str>) -> (p: String)
    ensures
        p@ == (match data_dir {
            Some(d) => spec_path_join(d@, spec_playlists_file(canonical_root@)),
            None => spec_path_join(root@, "."@ + spec_slug('-') + "-playlists.json"@),
        }),
{
    match data_dir {
        Some(d) => {
            let name = playlists_data_file_name(canonical_root);
            path_join(d, name.as_str())
        },
        None => {
            let name = playlists_file_name();
            path_join(root, name.as_str())
        },
    }
}

/// Where the downloader's programs are kept: a `yt-dlp` directory in the
/// cache directory, when there is one.
pub fn youtube_binaries_dir(cache_dir: Option<&str>) -> (p: Option<String>)
    ensures
        cache_dir is None ==> p is None,
        cache_dir matches Some(d) ==> (p matches Some(q) && q@ == spec_path_join(d@, "yt-dlp"@)),
{
    match cache_dir {
        Some(d) => Some(path_join(d, "yt-dlp")),
        None => None,
    }
}

/// Law: a library's scan cache and its playlists file never share a name.
pub proof fn law_library_files_differ(root: Seq<char>)
    ensures
        spec_scan_cache_file(root) != spec_playlists_file(root),
{
    let h = spec_hex16(path_hash(root) as nat);
    reveal_strlit(".json");
    reveal_strlit("-playlists.json");
    assert((h + ".json"@)[h.len() as int] != (h + "-playlists.json"@)[h.len() as int]);
}

/// The view settings the player remembers between runs.
#[derive(Clone, Copy, Debug, PartialEq, Eq, Structural)]
pub struct ViewState {
    pub library_category: Category,
    pub library_sort: Sort,
    pub library_playlist_mode: PlaylistDisplayMode,
    pub playlist_category: Category,
    pub playlist_sort: Sort,
}

impl Default for ViewState {
    fn default() -> (v: ViewState)
        ensures
            v == (ViewState {
                library_category: Category::Flat,
                library_sort: Sort::Title,
                library_playlist_mode: PlaylistDisplayMode::Hidden,
                playlist_category: Category::Flat,
                playlist_sort: Sort::Title,
            }),
    {
        ViewState {
            library_category: Category::Flat,
            library_sort: Sort::Title,
            library_playlist_mode: PlaylistDisplayMode::Hidden,
            playlist_category: Category::Flat,
            playlist_sort: Sort::Title,
        }
    }
}

/// The view settings read back from a saved configuration: each setting
/// that was saved, and the default for each that was not.
pub fn view_state_from(
    library_category: Option<Category>,
    library_sort: Option<Sort>,
    library_playlist_mode: Option<PlaylistDisplayMode>,
    playlist_category: Option<Category>,
    playlist_sort: Option<Sort>,
) -> (v: ViewState)
    ensures
        v.library_category == (match library_category { Some(c) => c, None => Category::Flat }),
        v.library_sort == (match library_sort { Some(s) => s, None => Sort::Title }),
        v.library_playlist_mode == (match library_playlist_mode { Some(m) => m, None => PlaylistDisplayMode::Hidden }),
        v.playlist_category == (match playlist_category { Some(c) => c, None => Category::Flat }),
        v.playlist_sort == (match playlist_sort { Some(s) => s, None => Sort::Title }),
{
    ViewState {
        library_category: match library_category { Some(c) => c, None => Category::Flat },
        library_sort: match library_sort { Some(s) => s, None => Sort::Title },
        library_playlist_mode: match library_playlist_mode { Some(m) => m, None => PlaylistDisplayMode::Hidden },
        playlist_category: match playlist_category { Some(c) => c, None => Category::Flat },
        playlist_sort: match playlist_sort { Some(s) => s, None => Sort::Title },
    }
}

/// What the settings file holds: the directory scanned last, and each view
/// setting that was saved.
pub struct Settings {
    pub last_dir: Option<String>,
    pub library_category: Option<Category>,
    pub library_sort: Option<Sort>,
    pub library_playlist_mode: Option<PlaylistDisplayMode>,
    pub playlist_category: Option<Category>,
    pub playlist_sort: Option<Sort>,
}

/// The view settings that `settings` gives back: each saved one, and the
/// default for each that was not saved.
pub open spec fn read_view_state(settings: Settings) -> ViewState {
    ViewState {
        library_category: match settings.library_category { Some(c) => c, None => Category::Flat },
        library_sort: match settings.library_sort { Some(s) => s, None => Sort::Title },
        library_playlist_mode: match settings.library_playlist_mode { Some(m) => m, None => PlaylistDisplayMode::Hidden },
        playlist_category: match settings.playlist_category { Some(c) => c, None => Category::Flat },
        playlist_sort: match settings.playlist_sort { Some(s) => s, None => Sort::Title },
    }
}

/// `settings` with every view setting of `v` saved; the last directory is
/// kept.
pub open spec fn record_view_state(settings: Settings, v: ViewState) -> Settings {
    Settings {
        library_category: Some(v.library_category),
        library_sort: Some(v.library_sort),
        library_playlist_mode: Some(v.library_playlist_mode),
        playlist_category: Some(v.playlist_category),
        playlist_sort: Some(v.playlist_sort),
        ..settings
    }
}

impl Settings {
    /// The view settings these settings give back.
    pub fn view_state(&self) -> (v: ViewState)
        ensures
            v == read_view_state(*self),
    {
        view_state_from(self.library_category, self.library_sort, self.library_playlist_mode, self.playlist_category,
            self.playlist_sort)
    }

    /// Saves every view setting of `v`, keeping the last directory.
    pub fn save_view_state(&mut self, v: ViewState)
        ensures
            *final(self) == record_view_state(*old(self), v),
    {
        self.library_category = Some(v.library_category);
        self.library_sort = Some(v.library_sort);
        self.library_playlist_mode = Some(v.library_playlist_mode);
        self.playlist_category = Some(v.playlist_category);
        self.playlist_sort = Some(v.playlist_sort);
    }

    /// Saves the directory scanned last, keeping the view settings.
    pub fn save_last_dir(&mut self, dir: String)
        ensures
            *final(self) == (Settings { last_dir: Some(dir), ..*old(self) }),
    {
        self.last_dir = Some(dir);
    }
}

/// Law: the view settings saved are the ones read back, and saving them
/// leaves the last directory alone; saving the last directory leaves the
/// view settings read back alone.
pub proof fn law_saved_settings_read_back(settings: Settings, v: ViewState, dir: String)
    ensures
        read_view_state(record_view_state(settings, v)) == v,
        record_view_state(settings, v).last_dir == settings.last_dir,
        read_view_state(Settings { last_dir: Some(dir), ..settings }) == read_view_state(settings),
{
}

} // verus!
