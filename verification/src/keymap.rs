//! Key bindings: which key runs which action, and the help text that lists
//! them.
use vstd::prelude::*;

verus! {

/// Something a key press asks the player to do.
#[derive(Clone, Copy, Debug, PartialEq, Eq, Structural)]
pub enum Action {
    TogglePanel,
    MoveDown,
    MoveUp,
    PageDown,
    PageUp,
    JumpTop,
    JumpBottom,
    JumpToCurrent,
    Activate,
    TogglePlayback,
    NextOrJump,
    PrevTrack,
    QueueNext,
    OpenSongModal,
    OpenMetadataEditModal,
    OpenYoutubeModal,
    RemoveFromPlaylist,
    ChangeDirectory,
    ToggleSearch,
    CycleCategory(Direction),
    CycleSort(Direction),
    CyclePlaylistDisplayMode,
    Shuffle,
    Unshuffle,
    VolumeUp,
    VolumeDown,
    Quit,
    ToggleHelp,
    Unbound,
}

/// The part of the help screen a binding is listed under.
#[derive(Clone, Copy, Debug, PartialEq, Eq, Structural)]
pub enum Section {
    Global,
    Library,
    Playlists,
}

/// Which way a cycle or a page jump goes.
#[derive(Clone, Copy, Debug, PartialEq, Eq, Structural)]
pub enum Direction {
    Forwards,
    Backwards,
}


/// The key hints the footer shows.
pub const FOOTER_HINT: &'static str = "<↑>/<↓> select · <Enter> play · <Space> pause · <Tab> playlists · <?> more · <q> quit";

/// A key on the keyboard, without its modifiers.
#[derive(Clone, Copy, Debug, PartialEq, Eq, Structural)]
pub enum KeyCode {
    Char(char),
    Tab,
    BackTab,
    Enter,
    Esc,
    Backspace,
    Delete,
    Insert,
    Up,
    Down,
    Left,
    Right,
    Home,
    End,
    PageUp,
    PageDown,
    F(u8),
    Other,
}

/// The modifier keys held down with a key.
#[derive(Clone, Copy, Debug, PartialEq, Eq, Structural)]
pub struct Modifiers {
    pub shift: bool,
    pub control: bool,
    pub alt: bool,
    pub super_key: bool,
    pub hyper: bool,
    pub meta: bool,
}

impl Modifiers {
    /// No modifier held.
    pub fn none() -> (m: Modifiers)
        ensures
            m == no_modifiers(),
    {
        Modifiers { shift: false, control: false, alt: false, super_key: false, hyper: false, meta: false }
    }

    /// Control held alone.
    pub fn control() -> (m: Modifiers)
        ensures
            m == (Modifiers { control: true, ..no_modifiers() }),
    {
        Modifiers { shift: false, control: true, alt: false, super_key: false, hyper: false, meta: false }
    }

    /// Alt held alone.
    pub fn alt() -> (m: Modifiers)
        ensures
            m == (Modifiers { alt: true, ..no_modifiers() }),
    {
        Modifiers { shift: false, control: false, alt: true, super_key: false, hyper: false, meta: false }
    }

    /// Whether every modifier held in `other` is held in `self` too.
    pub fn contains(&self, other: Modifiers) -> (b: bool)
        ensures
            b == mods_contain(*self, other),
    {
        (self.shift || !other.shift) && (self.control || !other.control) && (self.alt || !other.alt)
            && (self.super_key || !other.super_key) && (self.hyper || !other.hyper) && (self.meta || !other.meta)
    }
}

/// No modifier held.
pub open spec fn no_modifiers() -> Modifiers {
    Modifiers { shift: false, control: false, alt: false, super_key: false, hyper: false, meta: false }
}

/// Every modifier held in `b` is held in `a` too.
pub open spec fn mods_contain(a: Modifiers, b: Modifiers) -> bool {
    &&& (b.shift ==> a.shift)
    &&& (b.control ==> a.control)
    &&& (b.alt ==> a.alt)
    &&& (b.super_key ==> a.super_key)
    &&& (b.hyper ==> a.hyper)
    &&& (b.meta ==> a.meta)
}

/// A key press: the key and the modifiers held with it.
#[derive(Clone, Copy, Debug, PartialEq, Eq, Structural)]
pub struct KeyPress {
    pub code: KeyCode,
    pub modifiers: Modifiers,
}

/// One key of a binding: the key and the modifiers it needs.
pub type KeyChord = KeyPress;

/// A key with no modifier.
pub open spec fn key_chord(code: KeyCode) -> KeyChord {
    KeyPress { code, modifiers: no_modifiers() }
}

/// A character key with no modifier.
pub open spec fn plain_chord(c: char) -> KeyChord {
    key_chord(KeyCode::Char(c))
}

/// A character key with Control.
pub open spec fn ctrl_chord(c: char) -> KeyChord {
    KeyPress { code: KeyCode::Char(c), modifiers: Modifiers { control: true, ..no_modifiers() } }
}

fn key(code: KeyCode) -> (k: KeyChord)
    ensures
        k == key_chord(code),
{
    KeyPress { code, modifiers: Modifiers::none() }
}

fn plain(c: char) -> (k: KeyChord)
    ensures
        k == plain_chord(c),
{
    key(KeyCode::Char(c))
}

fn ctrl(c: char) -> (k: KeyChord)
    ensures
        k == ctrl_chord(c),
{
    KeyPress { code: KeyCode::Char(c), modifiers: Modifiers::control() }
}

/// A line of the key map: the keys that run an action, how the help screen
/// shows them and describes the action, the help section, and whether a key
/// press is dispatched through it (some lines only document keys that are
/// handled elsewhere).
pub struct Binding {
    pub keys: Vec<KeyChord>,
    pub action: Action,
    pub display: &'static str,
    pub desc: &'static str,
    pub section: Section,
    pub dispatch: bool,
}

/// A binding as plain values: keys, action, display, description, section,
/// dispatch.
pub type BindingView = (Seq<KeyChord>, Action, Seq<char>, Seq<char>, Section, bool);

impl View for Binding {
    type V = BindingView;

    open spec fn view(&self) -> BindingView {
        (self.keys@, self.action, self.display@, self.desc@, self.section, self.dispatch)
    }
}

/// Builds the view of a binding.
pub open spec fn binding_view(keys: Seq<KeyChord>, action: Action, display: Seq<char>, desc: Seq<char>, section: Section, dispatch: bool) -> BindingView {
    (keys, action, display, desc, section, dispatch)
}

fn bind(keys: Vec<KeyChord>, action: Action, display: &'static str, desc: &'static str, section: Section, dispatch: bool) -> (b: Binding)
    ensures
        b@ == binding_view(keys@, action, display@, desc@, section, dispatch),
{
    Binding { keys, action, display, desc, section, dispatch }
}

/// The line at position `i` of the key map.
pub open spec fn binding_at(i: int) -> BindingView {
    if i == 0 {
        binding_view(seq![key_chord(KeyCode::Tab)], Action::TogglePanel, "<Tab>"@, "Switch between Library / Playlists"@, Section::Global, true)
    } else if i == 1 {
        binding_view(seq![plain_chord('j'), key_chord(KeyCode::Down)], Action::MoveDown, "<j>/<↓>"@, "Move selection"@, Section::Global, true)
    } else if i == 2 {
        binding_view(seq![plain_chord('k'), key_chord(KeyCode::Up)], Action::MoveUp, "<k>/<↑>"@, "Move selection"@, Section::Global, true)
    } else if i == 3 {
        binding_view(seq![ctrl_chord('d')], Action::PageDown, "<Ctrl+d>"@, "Jump a page down / up"@, Section::Global, true)
    } else if i == 4 {
        binding_view(seq![ctrl_chord('u')], Action::PageUp, "<Ctrl+u>"@, "Jump a page down / up"@, Section::Global, true)
    } else if i == 5 {
        binding_view(seq![plain_chord('g'), key_chord(KeyCode::Home)], Action::JumpTop, "<g>/<Home>"@, "Jump to top / bottom"@, Section::Global, true)
    } else if i == 6 {
        binding_view(seq![plain_chord('G'), key_chord(KeyCode::End)], Action::JumpBottom, "<Shift+G>/<End>"@, "Jump to top / bottom"@, Section::Global, true)
    } else if i == 7 {
        binding_view(seq![plain_chord('c')], Action::JumpToCurrent, "<c>"@, "Jump to now playing"@, Section::Global, true)
    } else if i == 8 {
        binding_view(seq![key_chord(KeyCode::Enter)], Action::Activate, "<Enter>"@, "Play selected song / open selected playlist"@, Section::Global, true)
    } else if i == 9 {
        binding_view(seq![plain_chord(' ')], Action::TogglePlayback, "<Space>"@, "Pause / resume"@, Section::Global, true)
    } else if i == 10 {
        binding_view(seq![plain_chord('n')], Action::NextOrJump, "<n>"@, "Next track"@, Section::Global, true)
    } else if i == 11 {
        binding_view(seq![], Action::Unbound, "<1-9> then <n>"@, "Jump to Nth song in Up Next (<Esc> cancels)"@, Section::Global, false)
    } else if i == 12 {
        binding_view(seq![plain_chord('b')], Action::PrevTrack, "<b>"@, "Previous track"@, Section::Global, true)
    } else if i == 13 {
        binding_view(seq![plain_chord('a')], Action::QueueNext, "<a>"@, "Queue selected song next"@, Section::Global, true)
    } else if i == 14 {
        binding_view(seq![plain_chord('s')], Action::Shuffle, "<s>"@, "Shuffle"@, Section::Global, true)
    } else if i == 15 {
        binding_view(seq![plain_chord('u')], Action::Unshuffle, "<u>"@, "Un-shuffle"@, Section::Global, true)
    } else if i == 16 {
        binding_view(seq![plain_chord('['), plain_chord('-')], Action::VolumeDown, "<[>/<->"@, "Volume down / up"@, Section::Global, true)
    } else if i == 17 {
        binding_view(seq![plain_chord(']'), plain_chord('=')], Action::VolumeUp, "<]>/<=>"@, "Volume down / up"@, Section::Global, true)
    } else if i == 18 {
        binding_view(seq![plain_chord('A')], Action::OpenSongModal, "<Shift+A>"@, "Song actions: add to / create playlist"@, Section::Global, true)
    } else if i == 19 {
        binding_view(seq![plain_chord('E')], Action::OpenMetadataEditModal, "<Shift+E>"@, "Edit song metadata (title/artist/album/genre/track/date)"@, Section::Global, true)
    } else if i == 20 {
        binding_view(seq![plain_chord('y')], Action::OpenYoutubeModal, "<y>"@, "Download audio from a YouTube URL"@, Section::Global, true)
    } else if i == 21 {
        binding_view(seq![plain_chord('d')], Action::ChangeDirectory, "<d>"@, "Change directory (used by both Library and Playlists)"@, Section::Global, true)
    } else if i == 22 {
        binding_view(seq![plain_chord('q')], Action::Quit, "<q>"@, "Quit (with confirmation)"@, Section::Global, true)
    } else if i == 23 {
        binding_view(seq![], Action::Unbound, "<Esc>"@, "Quit (with confirmation)"@, Section::Global, false)
    } else if i == 24 {
        binding_view(seq![plain_chord('?')], Action::ToggleHelp, "<?>"@, "Toggle this help"@, Section::Global, true)
    } else if i == 25 {
        binding_view(seq![plain_chord('/')], Action::ToggleSearch, "</>"@, "Search the library (live filter)"@, Section::Library, true)
    } else if i == 26 {
        binding_view(seq![plain_chord('o')], Action::CycleCategory(Direction::Forwards), "<o>"@, "Cycle library category (grouping)"@, Section::Library, true)
    } else if i == 27 {
        binding_view(seq![plain_chord('O')], Action::CycleCategory(Direction::Backwards), "<Shift+O>"@, "Cycle library category (grouping)"@, Section::Library, true)
    } else if i == 28 {
        binding_view(seq![plain_chord('p')], Action::CycleSort(Direction::Forwards), "<p>"@, "Cycle library sort (order within group)"@, Section::Library, true)
    } else if i == 29 {
        binding_view(seq![plain_chord('P')], Action::CycleSort(Direction::Backwards), "<Shift+P>"@, "Cycle library sort (order within group)"@, Section::Library, true)
    } else if i == 30 {
        binding_view(seq![plain_chord('m')], Action::CyclePlaylistDisplayMode, "<m>"@, "Cycle playlist display: hidden / count / names"@, Section::Library, true)
    } else if i == 31 {
        binding_view(seq![], Action::Unbound, "</>"@, "Search by name / within the open playlist (live filter)"@, Section::Playlists, false)
    } else if i == 32 {
        binding_view(seq![], Action::Unbound, "<Enter>"@, "Open playlist / play selected song within it"@, Section::Playlists, false)
    } else if i == 33 {
        binding_view(seq![], Action::Unbound, "<Esc>"@, "Back to playlist browser"@, Section::Playlists, false)
    } else if i == 34 {
        binding_view(seq![], Action::Unbound, "<o>"@, "Cycle category within the open playlist"@, Section::Playlists, false)
    } else if i == 35 {
        binding_view(seq![], Action::Unbound, "<Shift+O>"@, "Cycle category within the open playlist"@, Section::Playlists, false)
    } else if i == 36 {
        binding_view(seq![], Action::Unbound, "<p>"@, "Cycle sort within the open playlist"@, Section::Playlists, false)
    } else if i == 37 {
        binding_view(seq![], Action::Unbound, "<Shift+P>"@, "Cycle sort within the open playlist"@, Section::Playlists, false)
    } else if i == 38 {
        binding_view(seq![plain_chord('r')], Action::RemoveFromPlaylist, "<r>"@, "Remove selected song from playlist (confirm)"@, Section::Playlists, true)
    } else {
        binding_view(seq![], Action::Unbound, seq![], seq![], Section::Global, false)
    }
}

/// The number of lines in the key map.
pub const BINDING_COUNT: usize = 39;

/// The key map, in the order lookups and the help screen walk it.
pub open spec fn binding_table() -> Seq<BindingView> {
    Seq::new(BINDING_COUNT as nat, |i: int| binding_at(i))
}

/// The views of a list of bindings.
pub open spec fn views_of(v: Seq<Binding>) -> Seq<BindingView> {
    v.map_values(|b: Binding| b@)
}

/// The key map.
pub fn bindings() -> (v: Vec<Binding>)
    ensures
        views_of(v@) == binding_table(),
{
    let mut v: Vec<Binding> = Vec::new();
    v.push(bind(vec![key(KeyCode::Tab)], Action::TogglePanel, "<Tab>", "Switch between Library / Playlists", Section::Global, true));
    assert(v@[0]@ == binding_at(0));
    v.push(bind(vec![plain('j'), key(KeyCode::Down)], Action::MoveDown, "<j>/<↓>", "Move selection", Section::Global, true));
    assert(v@[1]@ == binding_at(1));
    v.push(bind(vec![plain('k'), key(KeyCode::Up)], Action::MoveUp, "<k>/<↑>", "Move selection", Section::Global, true));
    assert(v@[2]@ == binding_at(2));
    v.push(bind(vec![ctrl('d')], Action::PageDown, "<Ctrl+d>", "Jump a page down / up", Section::Global, true));
    assert(v@[3]@ == binding_at(3));
    v.push(bind(vec![ctrl('u')], Action::PageUp, "<Ctrl+u>", "Jump a page down / up", Section::Global, true));
    assert(v@[4]@ == binding_at(4));
    v.push(bind(vec![plain('g'), key(KeyCode::Home)], Action::JumpTop, "<g>/<Home>", "Jump to top / bottom", Section::Global, true));
    assert(v@[5]@ == binding_at(5));
    v.push(bind(vec![plain('G'), key(KeyCode::End)], Action::JumpBottom, "<Shift+G>/<End>", "Jump to top / bottom", Section::Global, true));
    assert(v@[6]@ == binding_at(6));
    v.push(bind(vec![plain('c')], Action::JumpToCurrent, "<c>", "Jump to now playing", Section::Global, true));
    assert(v@[7]@ == binding_at(7));
    v.push(bind(vec![key(KeyCode::Enter)], Action::Activate, "<Enter>", "Play selected song / open selected playlist", Section::Global, true));
    assert(v@[8]@ == binding_at(8));
    v.push(bind(vec![plain(' ')], Action::TogglePlayback, "<Space>", "Pause / resume", Section::Global, true));
    assert(v@[9]@ == binding_at(9));
    v.push(bind(vec![plain('n')], Action::NextOrJump, "<n>", "Next track", Section::Global, true));
    assert(v@[10]@ == binding_at(10));
    v.push(bind(Vec::new(), Action::Unbound, "<1-9> then <n>", "Jump to Nth song in Up Next (<Esc> cancels)", Section::Global, false));
    assert(v@[11]@ == binding_at(11));
    v.push(bind(vec![plain('b')], Action::PrevTrack, "<b>", "Previous track", Section::Global, true));
    assert(v@[12]@ == binding_at(12));
    v.push(bind(vec![plain('a')], Action::QueueNext, "<a>", "Queue selected song next", Section::Global, true));
    assert(v@[13]@ == binding_at(13));
    v.push(bind(vec![plain('s')], Action::Shuffle, "<s>", "Shuffle", Section::Global, true));
    assert(v@[14]@ == binding_at(14));
    v.push(bind(vec![plain('u')], Action::Unshuffle, "<u>", "Un-shuffle", Section::Global, true));
    assert(v@[15]@ == binding_at(15));
    v.push(bind(vec![plain('['), plain('-')], Action::VolumeDown, "<[>/<->", "Volume down / up", Section::Global, true));
    assert(v@[16]@ == binding_at(16));
    v.push(bind(vec![plain(']'), plain('=')], Action::VolumeUp, "<]>/<=>", "Volume down / up", Section::Global, true));
    assert(v@[17]@ == binding_at(17));
    v.push(bind(vec![plain('A')], Action::OpenSongModal, "<Shift+A>", "Song actions: add to / create playlist", Section::Global, true));
    assert(v@[18]@ == binding_at(18));
    v.push(bind(vec![plain('E')], Action::OpenMetadataEditModal, "<Shift+E>", "Edit song metadata (title/artist/album/genre/track/date)", Section::Global, true));
    assert(v@[19]@ == binding_at(19));
    v.push(bind(vec![plain('y')], Action::OpenYoutubeModal, "<y>", "Download audio from a YouTube URL", Section::Global, true));
    assert(v@[20]@ == binding_at(20));
    v.push(bind(vec![plain('d')], Action::ChangeDirectory, "<d>", "Change directory (used by both Library and Playlists)", Section::Global, true));
    assert(v@[21]@ == binding_at(21));
    v.push(bind(vec![plain('q')], Action::Quit, "<q>", "Quit (with confirmation)", Section::Global, true));
    assert(v@[22]@ == binding_at(22));
    v.push(bind(Vec::new(), Action::Unbound, "<Esc>", "Quit (with confirmation)", Section::Global, false));
    assert(v@[23]@ == binding_at(23));
    v.push(bind(vec![plain('?')], Action::ToggleHelp, "<?>", "Toggle this help", Section::Global, true));
    assert(v@[24]@ == binding_at(24));
    v.push(bind(vec![plain('/')], Action::ToggleSearch, "</>", "Search the library (live filter)", Section::Library, true));
    assert(v@[25]@ == binding_at(25));
    v.push(bind(vec![plain('o')], Action::CycleCategory(Direction::Forwards), "<o>", "Cycle library category (grouping)", Section::Library, true));
    assert(v@[26]@ == binding_at(26));
    v.push(bind(vec![plain('O')], Action::CycleCategory(Direction::Backwards), "<Shift+O>", "Cycle library category (grouping)", Section::Library, true));
    assert(v@[27]@ == binding_at(27));
    v.push(bind(vec![plain('p')], Action::CycleSort(Direction::Forwards), "<p>", "Cycle library sort (order within group)", Section::Library, true));
    assert(v@[28]@ == binding_at(28));
    v.push(bind(vec![plain('P')], Action::CycleSort(Direction::Backwards), "<Shift+P>", "Cycle library sort (order within group)", Section::Library, true));
    assert(v@[29]@ == binding_at(29));
    v.push(bind(vec![plain('m')], Action::CyclePlaylistDisplayMode, "<m>", "Cycle playlist display: hidden / count / names", Section::Library, true));
    assert(v@[30]@ == binding_at(30));
    v.push(bind(Vec::new(), Action::Unbound, "</>", "Search by name / within the open playlist (live filter)", Section::Playlists, false));
    assert(v@[31]@ == binding_at(31));
    v.push(bind(Vec::new(), Action::Unbound, "<Enter>", "Open playlist / play selected song within it", Section::Playlists, false));
    assert(v@[32]@ == binding_at(32));
    v.push(bind(Vec::new(), Action::Unbound, "<Esc>", "Back to playlist browser", Section::Playlists, false));
    assert(v@[33]@ == binding_at(33));
    v.push(bind(Vec::new(), Action::Unbound, "<o>", "Cycle category within the open playlist", Section::Playlists, false));
    assert(v@[34]@ == binding_at(34));
    v.push(bind(Vec::new(), Action::Unbound, "<Shift+O>", "Cycle category within the open playlist", Section::Playlists, false));
    assert(v@[35]@ == binding_at(35));
    v.push(bind(Vec::new(), Action::Unbound, "<p>", "Cycle sort within the open playlist", Section::Playlists, false));
    assert(v@[36]@ == binding_at(36));
    v.push(bind(Vec::new(), Action::Unbound, "<Shift+P>", "Cycle sort within the open playlist", Section::Playlists, false));
    assert(v@[37]@ == binding_at(37));
    v.push(bind(vec![plain('r')], Action::RemoveFromPlaylist, "<r>", "Remove selected song from playlist (confirm)", Section::Playlists, true));
    assert(v@[38]@ == binding_at(38));
    assert(views_of(v@) =~= binding_table());
    v
}

/// A binding that dispatches and lists a key matching the press: the same
/// key, with every modifier the binding needs held.
pub open spec fn binding_matches(b: BindingView, key: KeyPress) -> bool {
    &&& b.5
    &&& exists|j: int| 0 <= j < b.0.len() && (#[trigger] b.0[j]).code == key.code && mods_contain(key.modifiers, b.0[j].modifiers)
}

/// The action of the first binding from position `i` on that matches the
/// key press.
pub open spec fn first_match(t: Seq<BindingView>, key: KeyPress, i: int) -> Option<Action>
    decreases t.len() - i,
{
    if i < 0 || i >= t.len() {
        None
    } else if binding_matches(t[i], key) {
        Some(t[i].1)
    } else {
        first_match(t, key, i + 1)
    }
}

/// Whether one of the binding's keys matches the press.
fn matches_key(b: &Binding, key: KeyPress) -> (m: bool)
    ensures
        m == binding_matches(b@, key),
{
    if !b.dispatch {
        return false;
    }
    let mut j: usize = 0;
    while j < b.keys.len()
        invariant
            b.dispatch,
            j <= b.keys@.len(),
            forall|q: int| 0 <= q < j ==> !((#[trigger] b.keys@[q]).code == key.code && mods_contain(key.modifiers, b.keys@[q].modifiers)),
        decreases b.keys@.len() - j,
    {
        let chord = b.keys[j];
        if chord.code == key.code && key.modifiers.contains(chord.modifiers) {
            assert(b@.0[j as int] == chord);
            return true;
        }
        j = j + 1;
    }
    false
}

/// The action a key press runs: the first dispatching binding that lists the
/// key with modifiers the press holds. A binding that needs Control is
/// listed before the plain binding of the same key, so Control+key finds it
/// first.
pub fn lookup(key: KeyPress) -> (r: Option<Action>)
    ensures
        r == first_match(binding_table(), key, 0),
{
    let v = bindings();
    proof {
        assert(v@.len() == binding_table().len());
    }
    let mut i: usize = 0;
    while i < v.len()
        invariant
            i <= v@.len(),
            v@.len() == binding_table().len(),
            views_of(v@) == binding_table(),
            first_match(binding_table(), key, 0) == first_match(binding_table(), key, i as int),
        decreases v@.len() - i,
    {
        proof {
            assert(v@[i as int]@ == binding_table()[i as int]);
        }
        if matches_key(&v[i], key) {
            return Some(v[i].action);
        }
        i = i + 1;
    }
    None
}

/// How the first binding from position `i` on that runs `action` shows its
/// keys; empty when none does.
pub open spec fn first_display(t: Seq<BindingView>, action: Action, i: int) -> Seq<char>
    decreases t.len() - i,
{
    if i < 0 || i >= t.len() {
        ""@
    } else if t[i].1 == action {
        t[i].2
    } else {
        first_display(t, action, i + 1)
    }
}

/// How the help screen shows the keys of an action: the display text of the
/// first binding that runs it, or an empty string.
pub fn display_for(action: Action) -> (s: &'static str)
    ensures
        s@ == first_display(binding_table(), action, 0),
{
    let v = bindings();
    let mut i: usize = 0;
    while i < v.len()
        invariant
            i <= v@.len(),
            v@.len() == binding_table().len(),
            views_of(v@) == binding_table(),
            first_display(binding_table(), action, 0) == first_display(binding_table(), action, i as int),
        decreases v@.len() - i,
    {
        proof {
            assert(v@[i as int]@ == binding_table()[i as int]);
        }
        if v[i].action == action {
            return v[i].display;
        }
        i = i + 1;
    }
    ""
}

/// The help rows for a list of bindings: each binding gives a row of its
/// keys and its description, and a binding with the same description as the
/// row before it joins that row, its keys added after " / ".
pub open spec fn help_spec(bs: Seq<BindingView>) -> Seq<(Seq<char>, Seq<char>)>
    decreases bs.len(),
{
    if bs.len() == 0 {
        seq![]
    } else {
        let prev = help_spec(bs.drop_last());
        let b = bs.last();
        if prev.len() > 0 && prev.last().1 == b.3 {
            prev.update(prev.len() - 1, (prev.last().0 + " / "@ + b.2, prev.last().1))
        } else {
            prev.push((b.2, b.3))
        }
    }
}

/// Whether a binding belongs to a help section.
pub open spec fn in_section(section: Section) -> spec_fn(BindingView) -> bool {
    |b: BindingView| b.4 == section
}

/// Help rows as plain values.
pub open spec fn rows_view(v: Seq<(String, &'static str)>) -> Seq<(Seq<char>, Seq<char>)> {
    v.map_values(|p: (String, &'static str)| (p.0@, p.1@))
}

proof fn lemma_filter_step(t: Seq<BindingView>, p: spec_fn(BindingView) -> bool, i: int)
    requires
        0 <= i < t.len(),
    ensures
        t.take(i + 1).filter(p) == (if p(t[i]) { t.take(i).filter(p).push(t[i]) } else { t.take(i).filter(p) }),
{
    reveal(Seq::filter);
    assert(t.take(i + 1).drop_last() =~= t.take(i));
    assert(t.take(i + 1).last() == t[i]);
}

/// The rows of the help screen for one section, in key-map order, with
/// bindings that share a description joined into one row.
pub fn help_rows(section: Section) -> (rows: Vec<(String, &'static str)>)
    ensures
        rows_view(rows@) == help_spec(binding_table().filter(in_section(section))),
{
    let v = bindings();
    let ghost t = binding_table();
    let ghost p = in_section(section);
    let mut rows: Vec<(String, &'static str)> = Vec::new();
    let mut i: usize = 0;
    proof {
        assert(t.take(0).filter(p) =~= seq![]) by {
            reveal(Seq::filter);
        }
        assert(rows_view(rows@) =~= help_spec(t.take(0).filter(p)));
    }
    while i < v.len()
        invariant
            i <= v@.len(),
            v@.len() == t.len(),
            t == binding_table(),
            p == in_section(section),
            views_of(v@) == t,
            rows_view(rows@) == help_spec(t.take(i as int).filter(p)),
        decreases v@.len() - i,
    {
        proof {
            assert(v@[i as int]@ == t[i as int]);
            lemma_filter_step(t, p, i as int);
        }
        let b = &v[i];
        if b.section == section {
            let ghost before = rows_view(rows@);
            let ghost fs = t.take(i as int).filter(p).push(t[i as int]);
            proof {
                assert(fs.drop_last() =~= t.take(i as int).filter(p));
                assert(fs.last() == t[i as int]);
            }
            let joins = if rows.len() > 0 {
                let last = rows.len() - 1;
                crate::text::str_eq(rows[last].1, b.desc)
            } else {
                false
            };
            if joins {
                let (mut shown, desc) = rows.pop().unwrap();
                shown.append(" / ");
                shown.append(b.display);
                rows.push((shown, desc));
                proof {
                    assert(rows_view(rows@) =~= before.update(before.len() - 1, (before.last().0 + " / "@ + t[i as int].2, before.last().1)));
                }
            } else {
                rows.push((String::from_str(b.display), b.desc));
                proof {
                    assert(rows_view(rows@) =~= before.push((t[i as int].2, t[i as int].3)));
                }
            }
        }
        i = i + 1;
    }
    proof {
        assert(t.take(v@.len() as int) =~= t);
    }
    rows
}

/// No key of the key map needs Shift: a capital letter is listed as the
/// character itself.
proof fn lemma_table_never_needs_shift(i: int, j: int)
    requires
        0 <= i < BINDING_COUNT,
        0 <= j < binding_at(i).0.len(),
    ensures
        !binding_at(i).0[j].modifiers.shift,
{
}

/// Whether a binding matches is the same for two presses of one key whose
/// modifiers differ in Shift alone.
proof fn lemma_shift_alone_same_match(i: int, k1: KeyPress, k2: KeyPress)
    requires
        0 <= i < BINDING_COUNT,
        k1.code == k2.code,
        k1.modifiers.control == k2.modifiers.control,
        k1.modifiers.alt == k2.modifiers.alt,
        k1.modifiers.super_key == k2.modifiers.super_key,
        k1.modifiers.hyper == k2.modifiers.hyper,
        k1.modifiers.meta == k2.modifiers.meta,
    ensures
        binding_matches(binding_table()[i], k1) == binding_matches(binding_table()[i], k2),
{
    let b = binding_table()[i];
    assert(b == binding_at(i));
    if binding_matches(b, k1) {
        let j = choose|j: int| 0 <= j < b.0.len() && (#[trigger] b.0[j]).code == k1.code && mods_contain(k1.modifiers, b.0[j].modifiers);
        lemma_table_never_needs_shift(i, j);
        assert(b.0[j].code == k2.code && mods_contain(k2.modifiers, b.0[j].modifiers));
    }
    if binding_matches(b, k2) {
        let j = choose|j: int| 0 <= j < b.0.len() && (#[trigger] b.0[j]).code == k2.code && mods_contain(k2.modifiers, b.0[j].modifiers);
        lemma_table_never_needs_shift(i, j);
        assert(b.0[j].code == k1.code && mods_contain(k1.modifiers, b.0[j].modifiers));
    }
}

proof fn lemma_shift_alone_same_action(k1: KeyPress, k2: KeyPress, i: int)
    requires
        0 <= i,
        k1.code == k2.code,
        k1.modifiers.control == k2.modifiers.control,
        k1.modifiers.alt == k2.modifiers.alt,
        k1.modifiers.super_key == k2.modifiers.super_key,
        k1.modifiers.hyper == k2.modifiers.hyper,
        k1.modifiers.meta == k2.modifiers.meta,
    ensures
        first_match(binding_table(), k1, i) == first_match(binding_table(), k2, i),
    decreases BINDING_COUNT - i,
{
    if i < BINDING_COUNT {
        lemma_shift_alone_same_match(i, k1, k2);
        lemma_shift_alone_same_action(k1, k2, i + 1);
    }
}

/// Law: holding Shift, or not, never changes what a key press runs: a
/// capital letter and Shift with it find the same action as the letter
/// alone (so Shift+G, as a terminal reports it, jumps to the bottom).
pub proof fn law_shift_changes_nothing(code: KeyCode, held: Modifiers)
    ensures
        first_match(binding_table(), KeyPress { code, modifiers: Modifiers { shift: true, ..held } }, 0)
            == first_match(binding_table(), KeyPress { code, modifiers: Modifiers { shift: false, ..held } }, 0),
{
    lemma_shift_alone_same_action(
        KeyPress { code, modifiers: Modifiers { shift: true, ..held } },
        KeyPress { code, modifiers: Modifiers { shift: false, ..held } },
        0,
    );
}

/// Law: a binding that matches a press still matches when more modifiers
/// are held with it: a chord names the modifiers it needs, not the only
/// ones allowed.
pub proof fn law_more_modifiers_still_match(b: BindingView, key: KeyPress, extra: Modifiers)
    requires
        binding_matches(b, key),
    ensures
        binding_matches(b, KeyPress {
            code: key.code,
            modifiers: Modifiers {
                shift: key.modifiers.shift || extra.shift,
                control: key.modifiers.control || extra.control,
                alt: key.modifiers.alt || extra.alt,
                super_key: key.modifiers.super_key || extra.super_key,
                hyper: key.modifiers.hyper || extra.hyper,
                meta: key.modifiers.meta || extra.meta,
            },
        }),
{
    let k2 = KeyPress {
        code: key.code,
        modifiers: Modifiers {
            shift: key.modifiers.shift || extra.shift,
            control: key.modifiers.control || extra.control,
            alt: key.modifiers.alt || extra.alt,
            super_key: key.modifiers.super_key || extra.super_key,
            hyper: key.modifiers.hyper || extra.hyper,
            meta: key.modifiers.meta || extra.meta,
        },
    };
    let j = choose|j: int| 0 <= j < b.0.len() && (#[trigger] b.0[j]).code == key.code && mods_contain(key.modifiers, b.0[j].modifiers);
    assert(b.0[j].code == k2.code && mods_contain(k2.modifiers, b.0[j].modifiers));
}

} // verus!
