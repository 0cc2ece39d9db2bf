//! The player's decisions: which state playback is in, what each request
//! asks of the audio backend, what the backend's reports change, and the
//! `file://` address a song is played from. Running the backend is left to
//! the caller, which reports each call's result back.
use vstd::prelude::*;
use crate::text::{hex_digit_char, push_char};

verus! {

/// Whether something is playing.
#[derive(Clone, Copy, Debug, PartialEq, Eq, Structural)]
pub enum PlaybackState {
    Idle,
    Playing,
    Paused,
}

/// What the audio backend reports.
pub enum BackendEvent {
    EndOfStream,
    Error(String),
}

/// What the player reports to the application.
pub enum PlayerEvent {
    SongEnded,
    Error(String),
    /// The position in the song, in nanoseconds.
    PositionTick(u128),
    StateChanged(PlaybackState),
}

/// A call the player asks the backend to make.
#[derive(Clone, Copy, Debug, PartialEq, Eq, Structural)]
pub enum BackendCall {
    Nothing,
    Pause,
    Resume,
    Stop,
}

/// How often the position is reported while playing, in nanoseconds.
pub const POSITION_POLL_INTERVAL_NANOS: u128 = 100_000_000;

/// The player's state: the playback state, the reports not yet handed out,
/// and when the position was last reported (nanoseconds on a monotonic
/// clock).
pub struct PlayerCore {
    state: PlaybackState,
    pending: Vec<PlayerEvent>,
    last_position_poll: Option<u128>,
}

impl PlayerCore {
    /// The playback state.
    pub closed spec fn state_view(&self) -> PlaybackState {
        self.state
    }

    /// The reports waiting to be handed out.
    pub closed spec fn pending_view(&self) -> Seq<PlayerEvent> {
        self.pending@
    }

    /// When the position was last reported.
    pub closed spec fn last_poll_view(&self) -> Option<u128> {
        self.last_position_poll
    }

    /// A player with nothing loaded.
    pub fn new() -> (p: PlayerCore)
        ensures
            p.state_view() == PlaybackState::Idle,
            p.pending_view().len() == 0,
            p.last_poll_view() is None,
    {
        PlayerCore { state: PlaybackState::Idle, pending: Vec::new(), last_position_poll: None }
    }

    /// The playback state.
    pub fn state(&self) -> (s: PlaybackState)
        ensures
            s == self.state_view(),
    {
        self.state
    }

    /// Moves to `new_state`, reporting the change when it is one.
    fn set_state(&mut self, new_state: PlaybackState)
        ensures
            final(self).state_view() == new_state,
            final(self).last_poll_view() == old(self).last_poll_view(),
            old(self).state_view() == new_state ==> final(self).pending_view() == old(self).pending_view(),
            old(self).state_view() != new_state ==> final(self).pending_view() == old(self).pending_view().push(
                PlayerEvent::StateChanged(new_state),
            ),
    {
        if self.state != new_state {
            self.state = new_state;
            self.pending.push(PlayerEvent::StateChanged(new_state));
        }
    }

    /// After the backend was asked to play a song: playing when it
    /// started, idle when it failed.
    pub fn after_play(&mut self, started: bool)
        ensures
            final(self).state_view() == (if started { PlaybackState::Playing } else { PlaybackState::Idle }),
            final(self).last_poll_view() == old(self).last_poll_view(),
            old(self).state_view() == final(self).state_view() ==> final(self).pending_view() == old(self).pending_view(),
            old(self).state_view() != final(self).state_view() ==> final(self).pending_view()
                == old(self).pending_view().push(PlayerEvent::StateChanged(final(self).state_view())),
    {
        if started {
            self.set_state(PlaybackState::Playing);
        } else {
            self.set_state(PlaybackState::Idle);
        }
    }

    /// The call that pausing or resuming asks of the backend: pause while
    /// playing, resume while paused, nothing while idle.
    pub fn toggle_call(&self) -> (c: BackendCall)
        ensures
            c == (match self.state_view() {
                PlaybackState::Idle => BackendCall::Nothing,
                PlaybackState::Playing => BackendCall::Pause,
                PlaybackState::Paused => BackendCall::Resume,
            }),
    {
        match self.state {
            PlaybackState::Idle => BackendCall::Nothing,
            PlaybackState::Playing => BackendCall::Pause,
            PlaybackState::Paused => BackendCall::Resume,
        }
    }

    /// After the backend made the toggle's call: a call that succeeded moves
    /// between playing and paused; a failed one changes nothing.
    pub fn after_toggle(&mut self, call: BackendCall, succeeded: bool)
        ensures
            call == BackendCall::Pause && succeeded ==> final(self).state_view() == PlaybackState::Paused,
            call == BackendCall::Resume && succeeded ==> final(self).state_view() == PlaybackState::Playing,
            !(succeeded && (call == BackendCall::Pause || call == BackendCall::Resume)) ==> final(self).state_view()
                == old(self).state_view() && final(self).pending_view() == old(self).pending_view(),
            final(self).last_poll_view() == old(self).last_poll_view(),
    {
        if succeeded {
            match call {
                BackendCall::Pause => self.set_state(PlaybackState::Paused),
                BackendCall::Resume => self.set_state(PlaybackState::Playing),
                _ => {},
            }
        }
    }

    /// The call that stopping asks of the backend: none when idle.
    pub fn stop_call(&self) -> (c: BackendCall)
        ensures
            c == (if self.state_view() == PlaybackState::Idle { BackendCall::Nothing } else { BackendCall::Stop }),
    {
        if self.state == PlaybackState::Idle {
            BackendCall::Nothing
        } else {
            BackendCall::Stop
        }
    }

    /// After the backend was asked to stop: idle, whatever the call gave.
    pub fn after_stop(&mut self)
        ensures
            final(self).state_view() == PlaybackState::Idle,
            final(self).last_poll_view() == old(self).last_poll_view(),
    {
        self.set_state(PlaybackState::Idle);
    }

    /// Whether the position is due to be reported at `now_nanos`: the
    /// first time, or once the interval has passed since the last report,
    /// which is then recorded.
    pub fn position_poll_due(&mut self, now_nanos: u128) -> (due: bool)
        ensures
            due == (match old(self).last_poll_view() {
                Some(last) => !(now_nanos >= last && now_nanos - last < POSITION_POLL_INTERVAL_NANOS),
                None => true,
            }),
            due ==> final(self).last_poll_view() == Some(now_nanos),
            !due ==> final(self).last_poll_view() == old(self).last_poll_view(),
            final(self).state_view() == old(self).state_view(),
            final(self).pending_view() == old(self).pending_view(),
    {
        match self.last_position_poll {
            Some(last) => {
                if now_nanos >= last && now_nanos - last < POSITION_POLL_INTERVAL_NANOS {
                    return false;
                }
            },
            None => {},
        }
        self.last_position_poll = Some(now_nanos);
        true
    }

    /// Hands out the waiting reports followed by what the backend's events
    /// mean: each end of stream or error makes the player idle (reported
    /// once, when that is a change) and is reported as the song ending or
    /// as the error.
    pub fn take_events(&mut self, backend_events: Vec<BackendEvent>) -> (out: Vec<PlayerEvent>)
        ensures
            final(self).pending_view().len() == 0,
            backend_events@.len() > 0 ==> final(self).state_view() == PlaybackState::Idle,
            backend_events@.len() == 0 ==> final(self).state_view() == old(self).state_view(),
            out@ == old(self).pending_view() + reported(backend_events@, old(self).state_view() == PlaybackState::Idle),
            final(self).last_poll_view() == old(self).last_poll_view(),
    {
        let n: usize = backend_events.len();
        let ghost ev = backend_events@;
        let ghost was_idle = self.state == PlaybackState::Idle;
        let mut out: Vec<PlayerEvent> = Vec::new();
        std::mem::swap(&mut out, &mut self.pending);
        let ghost first = out@;
        let mut events = backend_events;
        let mut queue: Vec<BackendEvent> = Vec::new();
        while events.len() > 0
            invariant
                events@.len() + queue@.len() == ev.len(),
                forall|q: int| 0 <= q < events@.len() ==> #[trigger] events@[q] == ev[q],
                forall|q: int| 0 <= q < queue@.len() ==> #[trigger] queue@[q] == ev[ev.len() - 1 - q],
            decreases events@.len(),
        {
            let e = events.pop().unwrap();
            queue.push(e);
        }
        let mut handled: usize = 0;
        while queue.len() > 0
            invariant
                queue@.len() + handled == ev.len(),
                ev.len() == n,
                forall|q: int| 0 <= q < queue@.len() ==> #[trigger] queue@[q] == ev[ev.len() - 1 - q],
                self.pending@.len() == 0,
                out@ == first + reported(ev.take(handled as int), was_idle),
                was_idle == (old(self).state == PlaybackState::Idle),
                handled > 0 ==> self.state == PlaybackState::Idle,
                handled == 0 ==> self.state == old(self).state,
                self.last_position_poll == old(self).last_position_poll,
            decreases queue@.len(),
        {
            let ghost last = queue@[queue@.len() - 1];
            let e = queue.pop().unwrap();
            let ghost before = out@;
            proof {
                assert(last == ev[handled as int]);
                assert(ev.take(handled as int + 1).drop_last() =~= ev.take(handled as int));
            }
            if self.state != PlaybackState::Idle {
                self.state = PlaybackState::Idle;
                out.push(PlayerEvent::StateChanged(PlaybackState::Idle));
            }
            match e {
                BackendEvent::EndOfStream => out.push(PlayerEvent::SongEnded),
                BackendEvent::Error(text) => out.push(PlayerEvent::Error(text)),
            }
            proof {
                assert(out@ =~= before + event_reports(last, handled == 0 && !was_idle));
            }
            handled = handled + 1;
        }
        proof {
            assert(ev.take(ev.len() as int) =~= ev);
        }
        out
    }
}

/// What one backend event is reported as: the player going idle (when
/// `changes` says this is a change), then the song's end or the error.
pub open spec fn event_reports(e: BackendEvent, changes: bool) -> Seq<PlayerEvent> {
    let head: Seq<PlayerEvent> = if changes { seq![PlayerEvent::StateChanged(PlaybackState::Idle)] } else { seq![] };
    head + match e {
        BackendEvent::EndOfStream => seq![PlayerEvent::SongEnded],
        BackendEvent::Error(t) => seq![PlayerEvent::Error(t)],
    }
}

/// What backend events are reported as, for a player that was idle or not
/// before them: only the first can change the state.
pub open spec fn reported(events: Seq<BackendEvent>, was_idle: bool) -> Seq<PlayerEvent>
    decreases events.len(),
{
    if events.len() == 0 {
        seq![]
    } else {
        reported(events.drop_last(), was_idle) + event_reports(events.last(), events.len() == 1 && !was_idle)
    }
}

/// Whether a byte stands for itself in a `file://` address: a letter, a
/// digit, or one of `-`, `_`, `.`, `~` and `/`.
pub open spec fn uri_safe(b: u8) -> bool {
    (65 <= b <= 90) || (97 <= b <= 122) || (48 <= b <= 57) || b == 45 || b == 95 || b == 46 || b == 126 || b == 47
}

/// The uppercase hexadecimal digit for a value below 16.
pub open spec fn upper_hex(d: nat) -> char {
    if d < 10 { ((d + 48) as u32) as char } else { ((d + 55) as u32) as char }
}

/// The encoding of one byte: itself when safe, else `%` and two uppercase
/// hexadecimal digits.
pub open spec fn encode_byte(b: u8) -> Seq<char> {
    if uri_safe(b) {
        seq![(b as u32) as char]
    } else {
        seq!['%', upper_hex(b as nat / 16), upper_hex(b as nat % 16)]
    }
}

/// The encoding of some bytes, byte by byte.
pub open spec fn encode_bytes(bytes: Seq<u8>) -> Seq<char>
    decreases bytes.len(),
{
    if bytes.len() == 0 {
        seq![]
    } else {
        encode_bytes(bytes.drop_last()) + encode_byte(bytes.last())
    }
}

fn upper_hex_char(d: u8) -> (c: char)
    requires
        d < 16,
    ensures
        c == upper_hex(d as nat),
{
    if d < 10 {
        (d + 48) as char
    } else {
        (d + 55) as char
    }
}

/// The `file://` address of an absolute path given as bytes, every byte
/// that is not a letter, a digit or one of `-_.~/` percent-encoded.
pub fn file_uri(path_bytes: &[u8]) -> (uri: String)
    ensures
        uri@ == "file://"@ + encode_bytes(path_bytes@),
{
    let mut uri = String::from_str("file://");
    let ghost start = uri@;
    let mut i: usize = 0;
    while i < path_bytes.len()
        invariant
            i <= path_bytes@.len(),
            start == "file://"@,
            uri@ == start + encode_bytes(path_bytes@.take(i as int)),
        decreases path_bytes@.len() - i,
    {
        let b = path_bytes[i];
        let ghost before = uri@;
        if (b >= 65 && b <= 90) || (b >= 97 && b <= 122) || (b >= 48 && b <= 57) || b == 45 || b == 95 || b == 46
            || b == 126 || b == 47 {
            push_char(&mut uri, b as char);
        } else {
            push_char(&mut uri, '%');
            push_char(&mut uri, upper_hex_char(b / 16));
            push_char(&mut uri, upper_hex_char(b % 16));
        }
        proof {
            assert(path_bytes@.take(i as int + 1).drop_last() =~= path_bytes@.take(i as int));
            assert(uri@ =~= before + encode_byte(b));
        }
        i = i + 1;
    }
    proof {
        assert(path_bytes@.take(path_bytes@.len() as int) =~= path_bytes@);
    }
    uri
}

} // verus!
