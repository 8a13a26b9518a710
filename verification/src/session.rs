//! What a session records, and what it does with the keyboard.

use vstd::prelude::*;

use crate::time::Duration;
use crate::tty::TtySize;
use crate::util::{decode, Utf8Decoder};

verus! {

/// Something that happened in a session, with the session time it happened at.
#[derive(Debug)]
pub enum Event {
    Output(Duration, String),
    Input(Duration, String),
    Resize(Duration, TtySize),
    Marker(Duration, String),
    Exit(Duration, i32),
}

/// The model of an [`Event`].
pub enum Recorded {
    Output(nat, Seq<char>),
    Input(nat, Seq<char>),
    Resize(nat, TtySize),
    Marker(nat, Seq<char>),
    Exit(nat, i32),
}

impl Recorded {
    /// The session time of the event.
    pub open spec fn time(self) -> nat {
        match self {
            Recorded::Output(time, _) => time,
            Recorded::Input(time, _) => time,
            Recorded::Resize(time, _) => time,
            Recorded::Marker(time, _) => time,
            Recorded::Exit(time, _) => time,
        }
    }
}

impl View for Event {
    type V = Recorded;

    open spec fn view(&self) -> Recorded {
        match *self {
            Event::Output(time, text) => Recorded::Output(time@, text@),
            Event::Input(time, text) => Recorded::Input(time@, text@),
            Event::Resize(time, size) => Recorded::Resize(time@, size),
            Event::Marker(time, label) => Recorded::Marker(time@, label@),
            Event::Exit(time, status) => Recorded::Exit(time@, status),
        }
    }
}

impl Clone for Event {
    fn clone(&self) -> (copy: Self)
        ensures
            copy@ == self@,
    {
        match self {
            Event::Output(time, text) => Event::Output(*time, text.clone()),
            Event::Input(time, text) => Event::Input(*time, text.clone()),
            Event::Resize(time, size) => Event::Resize(*time, *size),
            Event::Marker(time, label) => Event::Marker(*time, label.clone()),
            Event::Exit(time, status) => Event::Exit(*time, *status),
        }
    }
}

/// The bytes a keyboard shortcut is typed with, if it is bound.
pub type Key = Option<Vec<u8>>;

/// The model of a [`Key`].
pub open spec fn bound(key: Key) -> Option<Seq<u8>> {
    match key {
        Some(bytes) => Some(bytes@),
        None => None,
    }
}

/// The model of an optional event.
pub open spec fn recorded(event: Option<Event>) -> Option<Recorded> {
    match event {
        Some(event) => Some(event@),
        None => None,
    }
}

/// The model of an optional message.
pub open spec fn told(notice: Option<String>) -> Option<Seq<char>> {
    match notice {
        Some(text) => Some(text@),
        None => None,
    }
}

/// Keyboard shortcuts of a session. With a prefix key bound, the other two
/// only work right after it.
#[derive(Debug)]
pub struct KeyBindings {
    pub prefix: Key,
    pub pause: Key,
    pub add_marker: Key,
}

impl Default for KeyBindings {
    fn default() -> (keys: Self)
        ensures
            keys.prefix is None,
            bound(keys.pause) == Some(seq![0x1cu8]),
            keys.add_marker is None,
    {
        let pause: Vec<u8> = vec![0x1c];  // ^\
        assert(pause@ =~= seq![0x1cu8]);
        KeyBindings { prefix: None, pause: Some(pause), add_marker: None }
    }
}

/// The model of [`KeyBindings`].
pub struct Bindings {
    pub prefix: Option<Seq<u8>>,
    pub pause: Option<Seq<u8>>,
    pub add_marker: Option<Seq<u8>>,
}

impl View for KeyBindings {
    type V = Bindings;

    open spec fn view(&self) -> Bindings {
        Bindings {
            prefix: bound(self.prefix),
            pause: bound(self.pause),
            add_marker: bound(self.add_marker),
        }
    }
}

/// Tells whether `data` is what the shortcut is typed with.
fn is_pressed(key: &Key, data: &[u8]) -> (pressed: bool)
    ensures
        pressed == (bound(*key) == Some(data@)),
{
    match key {
        None => false,
        Some(bytes) => {
            if bytes.len() != data.len() {
                return false;
            }
            let mut i: usize = 0;
            while i < data.len()
                invariant
                    bound(*key) == Some(bytes@),
                    bytes@.len() == data@.len(),
                    i <= data@.len(),
                    forall|j: int| 0 <= j < i ==> bytes@[j] == data@[j],
                decreases data@.len() - i,
            {
                if bytes[i] != data[i] {
                    assert(bytes@[i as int] != data@[i as int]);
                    return false;
                }
                i += 1;
            }
            assert(bytes@ =~= data@);
            true
        },
    }
}

/// What a burst of keyboard input means to the session.
pub enum Press {
    /// The prefix key, which makes the next burst a shortcut.
    Prefix,
    /// The shortcut which pauses and resumes the recording.
    Pause,
    /// The shortcut which adds a marker.
    AddMarker,
    /// Anything else, meant for the recorded command.
    Plain,
}

/// The model of a [`Session`].
#[verifier::ext_equal]
pub struct SessionState {
    pub capture_input: bool,
    pub keys: Bindings,
    /// Input bytes of a character which isn't complete yet.
    pub input_pending: Seq<u8>,
    /// Output bytes of a character which isn't complete yet.
    pub output_pending: Seq<u8>,
    /// The session time the recording was paused at, while it is paused.
    pub pause_time: Option<nat>,
    pub prefix_mode: bool,
    /// How much of the time passed so far was spent paused.
    pub time_offset: nat,
    pub tty_size: TtySize,
}

impl SessionState {
    /// A session which has just started.
    pub open spec fn initial(
        capture_input: bool,
        keys: Bindings,
        tty_size: TtySize,
    ) -> SessionState {
        SessionState {
            capture_input,
            keys,
            input_pending: Seq::empty(),
            output_pending: Seq::empty(),
            pause_time: None,
            prefix_mode: false,
            time_offset: 0,
            tty_size,
        }
    }

    /// The session time, when `now` has passed since the start of the session.
    pub open spec fn elapsed(self, now: nat) -> nat {
        match self.pause_time {
            Some(pause_time) => pause_time,
            None => (now - self.time_offset) as nat,
        }
    }

    /// Whether `now` is no earlier than the times the session already knows
    /// of. A clock which never runs backwards always is.
    pub open spec fn keeps_time(self, now: nat) -> bool {
        match self.pause_time {
            Some(pause_time) => self.time_offset + pause_time <= now,
            None => self.time_offset <= now,
        }
    }

    /// What a burst of keyboard input means.
    pub open spec fn press(self, data: Seq<u8>) -> Press {
        let shortcut = self.prefix_mode || self.keys.prefix is None;
        if !self.prefix_mode && self.keys.prefix == Some(data) {
            Press::Prefix
        } else if shortcut && self.keys.pause == Some(data) {
            Press::Pause
        } else if shortcut && self.keys.add_marker == Some(data) {
            Press::AddMarker
        } else {
            Press::Plain
        }
    }

    /// The session after the command has written `data`.
    pub open spec fn after_output(self, data: Seq<u8>) -> SessionState {
        if self.pause_time is None {
            SessionState { output_pending: decode(self.output_pending + data).1, ..self }
        } else {
            self
        }
    }

    /// What is recorded of `data` written by the command.
    pub open spec fn output_event(self, data: Seq<u8>, now: nat) -> Option<Recorded> {
        let text = decode(self.output_pending + data).0;
        if self.pause_time is None && text.len() > 0 {
            Some(Recorded::Output(self.elapsed(now), text))
        } else {
            None
        }
    }

    /// The session after a burst of keyboard input.
    pub open spec fn after_input(self, data: Seq<u8>, now: nat) -> SessionState {
        let press = self.press(data);
        let next = SessionState { prefix_mode: press is Prefix, ..self };
        match press {
            Press::Prefix => next,
            Press::Pause => match self.pause_time {
                Some(pause_time) => SessionState {
                    pause_time: None,
                    time_offset: (now - pause_time) as nat,
                    ..next
                },
                None => SessionState { pause_time: Some(self.elapsed(now)), ..next },
            },
            Press::AddMarker => next,
            Press::Plain => if self.capture_input && self.pause_time is None {
                SessionState { input_pending: decode(self.input_pending + data).1, ..next }
            } else {
                next
            },
        }
    }

    /// What is recorded of a burst of keyboard input.
    pub open spec fn input_event(self, data: Seq<u8>, now: nat) -> Option<Recorded> {
        match self.press(data) {
            Press::Prefix => None,
            Press::Pause => None,
            Press::AddMarker => Some(Recorded::Marker(self.elapsed(now), Seq::empty())),
            Press::Plain => {
                let text = decode(self.input_pending + data).0;
                if self.capture_input && self.pause_time is None && text.len() > 0 {
                    Some(Recorded::Input(self.elapsed(now), text))
                } else {
                    None
                }
            },
        }
    }

    /// What the user is told about a burst of keyboard input.
    pub open spec fn input_notice(self, data: Seq<u8>) -> Option<Seq<char>> {
        match self.press(data) {
            Press::Prefix => None,
            Press::Pause => if self.pause_time is Some {
                Some("Resumed recording"@)
            } else {
                Some("Paused recording"@)
            },
            Press::AddMarker => Some("Marker added"@),
            Press::Plain => None,
        }
    }

    /// The session after the terminal was found to have a given size.
    pub open spec fn after_resize(self, tty_size: TtySize) -> SessionState {
        SessionState { tty_size, ..self }
    }

    /// What is recorded of the size of the terminal: changes of it.
    pub open spec fn resize_event(self, tty_size: TtySize, now: nat) -> Option<Recorded> {
        if tty_size != self.tty_size {
            Some(Recorded::Resize(self.elapsed(now), tty_size))
        } else {
            None
        }
    }
}

/// How a session reacts to a burst of keyboard input.
#[derive(Debug)]
pub struct Reaction {
    /// Whether the input is meant for the recorded command.
    pub forward: bool,
    /// The event to record.
    pub event: Option<Event>,
    /// What to tell the user, after the event is recorded.
    pub notice: Option<String>,
}

/// The recording side of a session: what becomes of the bytes which pass
/// through it, and of the time which passes.
///
/// Times are passed in, counted from the start of the session.
#[derive(Debug)]
pub struct Session {
    capture_input: bool,
    input_decoder: Utf8Decoder,
    keys: KeyBindings,
    output_decoder: Utf8Decoder,
    pause_time: Option<Duration>,
    prefix_mode: bool,
    time_offset: Duration,
    tty_size: TtySize,
}

impl View for Session {
    type V = SessionState;

    closed spec fn view(&self) -> SessionState {
        SessionState {
            capture_input: self.capture_input,
            keys: self.keys@,
            input_pending: self.input_decoder@,
            output_pending: self.output_decoder@,
            pause_time: match self.pause_time {
                Some(pause_time) => Some(pause_time@),
                None => None,
            },
            prefix_mode: self.prefix_mode,
            time_offset: self.time_offset@,
            tty_size: self.tty_size,
        }
    }
}

impl Session {
    pub fn new(capture_input: bool, keys: KeyBindings, tty_size: TtySize) -> (session: Self)
        ensures
            session@ == SessionState::initial(capture_input, keys@, tty_size),
            session@.capture_input == capture_input,
            match keys.prefix {
                Some(key) => session@.keys.prefix == Some(key@),
                None => session@.keys.prefix is None,
            },
            match keys.pause {
                Some(key) => session@.keys.pause == Some(key@),
                None => session@.keys.pause is None,
            },
            match keys.add_marker {
                Some(key) => session@.keys.add_marker == Some(key@),
                None => session@.keys.add_marker is None,
            },
            session@.input_pending.len() == 0,
            session@.output_pending.len() == 0,
            session@.pause_time is None,
            !session@.prefix_mode,
            session@.time_offset == 0,
            session@.tty_size == tty_size,
    {
        Session {
            capture_input,
            input_decoder: Utf8Decoder::new(),
            keys,
            output_decoder: Utf8Decoder::new(),
            pause_time: None,
            prefix_mode: false,
            time_offset: Duration { nanos: 0 },
            tty_size,
        }
    }

    /// Tells whether `now` is no earlier than the times the session already
    /// knows of.
    pub fn keeps_time(&self, now: Duration) -> (keeps: bool)
        ensures
            keeps == self@.keeps_time(now@),
            self@.pause_time is None ==> (keeps <==> self@.time_offset <= now.nanos),
            self@.pause_time matches Some(pause_time) ==> (keeps <==> self@.time_offset
                + pause_time <= now.nanos),
    {
        self.time_offset.nanos <= now.nanos && match self.pause_time {
            Some(pause_time) => pause_time.nanos <= now.nanos - self.time_offset.nanos,
            None => true,
        }
    }

    /// The session time: stands still while paused, and leaves pauses out.
    pub fn elapsed_time(&self, now: Duration) -> (time: Duration)
        requires
            self@.pause_time is None ==> self@.time_offset <= now@,
        ensures
            time@ == self@.elapsed(now@),
            self@.pause_time is None ==> time.nanos + self@.time_offset == now.nanos,
            self@.pause_time matches Some(pause_time) ==> time.nanos == pause_time,
    {
        if let Some(pause_time) = self.pause_time {
            pause_time
        } else {
            Duration { nanos: now.nanos - self.time_offset.nanos }
        }
    }

    /// Takes in what the command has written to its terminal.
    pub fn handle_output(&mut self, data: &[u8], now: Duration) -> (event: Option<Event>)
        requires
            old(self)@.keeps_time(now@),
        ensures
            final(self)@ == old(self)@.after_output(data@),
            recorded(event) == old(self)@.output_event(data@, now@),
            event matches Some(some) ==> some is Output,
    {
        if self.pause_time.is_none() {
            let text = self.output_decoder.feed(data);
            if !text_is_empty(&text) {
                return Some(Event::Output(self.elapsed_time(now), text));
            }
        }
        None
    }

    /// Takes in a burst of keyboard input.
    pub fn handle_input(&mut self, data: &[u8], now: Duration) -> (reaction: Reaction)
        requires
            old(self)@.keeps_time(now@),
        ensures
            final(self)@ == old(self)@.after_input(data@, now@),
            recorded(reaction.event) == old(self)@.input_event(data@, now@),
            told(reaction.notice) == old(self)@.input_notice(data@),
            reaction.forward == (old(self)@.press(data@) is Plain),
            reaction.event matches Some(event) ==> event is Input || event is Marker,
    {
        if !self.prefix_mode && is_pressed(&self.keys.prefix, data) {
            self.prefix_mode = true;
            return Reaction { forward: false, event: None, notice: None };
        }
        if self.prefix_mode || self.keys.prefix.is_none() {
            self.prefix_mode = false;
            if is_pressed(&self.keys.pause, data) {
                let notice = if let Some(pause_time) = self.pause_time {
                    self.pause_time = None;
                    let skipped = self.elapsed_time(now).nanos - pause_time.nanos;
                    self.time_offset = Duration { nanos: self.time_offset.nanos + skipped };
                    "Resumed recording".to_owned()
                } else {
                    self.pause_time = Some(self.elapsed_time(now));
                    "Paused recording".to_owned()
                };
                return Reaction { forward: false, event: None, notice: Some(notice) };
            } else if is_pressed(&self.keys.add_marker, data) {
                let event = Event::Marker(self.elapsed_time(now), String::new());
                return Reaction {
                    forward: false,
                    event: Some(event),
                    notice: Some("Marker added".to_owned()),
                };
            }
        }
        let mut event = None;
        if self.capture_input && self.pause_time.is_none() {
            let text = self.input_decoder.feed(data);
            if !text_is_empty(&text) {
                event = Some(Event::Input(self.elapsed_time(now), text));
            }
        }
        Reaction { forward: true, event, notice: None }
    }

    /// Takes in the size the terminal has.
    pub fn handle_resize(&mut self, tty_size: TtySize, now: Duration) -> (event: Option<Event>)
        requires
            old(self)@.keeps_time(now@),
        ensures
            final(self)@ == old(self)@.after_resize(tty_size),
            recorded(event) == old(self)@.resize_event(tty_size, now@),
            event is Some <==> tty_size != old(self)@.tty_size,
            event matches Some(some) ==> (some matches Event::Resize(_, size) && size == tty_size),
    {
        if tty_size != self.tty_size {
            let event = Event::Resize(self.elapsed_time(now), tty_size);
            self.tty_size = tty_size;
            Some(event)
        } else {
            None
        }
    }

    /// Takes in the status the command has exited with.
    pub fn handle_exit(&self, status: i32, now: Duration) -> (event: Event)
        requires
            self@.keeps_time(now@),
        ensures
            event@ == Recorded::Exit(self@.elapsed(now@), status),
            event matches Event::Exit(_, code) && code == status,
    {
        Event::Exit(self.elapsed_time(now), status)
    }
}

/// Tells whether a text holds no characters.
fn text_is_empty(text: &String) -> (empty: bool)
    ensures
        empty == (text@.len() == 0),
{
    text.as_str().is_empty()
}

/// Session time runs at the speed of the clock while the recording isn't
/// paused, and starts at zero along with it. While paused, it stands still.
pub proof fn session_time_runs_with_the_clock(
    session: SessionState,
    capture_input: bool,
    keys: Bindings,
    tty_size: TtySize,
    now: nat,
    later: nat,
)
    requires
        session.keeps_time(now),
        now <= later,
    ensures
        SessionState::initial(capture_input, keys, tty_size).elapsed(now) == now,
        session.pause_time is None ==> session.elapsed(later) - session.elapsed(now) == later - now,
        session.pause_time is None ==> session.elapsed(now) + session.time_offset == now,
        session.pause_time matches Some(pause_time) ==> session.elapsed(now) == pause_time
            && session.elapsed(later) == pause_time,
{
}

/// Which times a session can place: any one at first, and after pausing or
/// resuming it those no earlier than that leaves room for.
pub proof fn placeable_times(session: SessionState, data: Seq<u8>, now: nat, other: nat)
    requires
        session.keeps_time(now),
    ensures
        SessionState::initial(session.capture_input, session.keys, session.tty_size).keeps_time(
            other,
        ),
        session.press(data) is Pause && session.pause_time is None ==> (session.after_input(
            data,
            now,
        ).keeps_time(other) <==> now <= other),
        session.press(data) is Pause ==> (session.pause_time matches Some(pause_time) ==> (
        session.after_input(data, now).keeps_time(other) <==> now <= other + pause_time)),
        !(session.press(data) is Pause) ==> session.after_input(data, now).keeps_time(other)
            == session.keeps_time(other),
        session.after_output(data).keeps_time(other) == session.keeps_time(other),
{
}

/// Only pausing and resuming touch the clock of a session. Whatever else is
/// typed, written or found out about the terminal, all later times stay what
/// they would have been.
pub proof fn only_pausing_touches_the_clock(
    session: SessionState,
    data: Seq<u8>,
    size: TtySize,
    now: nat,
    later: nat,
)
    ensures
        !(session.press(data) is Pause) ==> {
            let after = session.after_input(data, now);
            &&& after.elapsed(later) == session.elapsed(later)
            &&& after.pause_time == session.pause_time
            &&& after.time_offset == session.time_offset
        },
        session.after_output(data).elapsed(later) == session.elapsed(later),
        session.after_output(data).pause_time == session.pause_time,
        session.after_output(data).time_offset == session.time_offset,
        session.after_resize(size).elapsed(later) == session.elapsed(later),
        session.after_resize(size).pause_time == session.pause_time,
        session.after_resize(size).time_offset == session.time_offset,
{
}

/// What a burst of input means depends on the keys it is compared with, as a
/// whole, and on whether the prefix key was typed just before.
///
/// Without a prefix key bound, or right after it, the pause key pauses, and the
/// marker key, unless it is the same, adds a marker. Otherwise only the prefix
/// key means anything. All other bursts are plain.
pub proof fn keys_have_their_meaning(session: SessionState, data: Seq<u8>)
    ensures
        (session.prefix_mode || session.keys.prefix is None) && session.keys.pause == Some(data)
            ==> session.press(data) is Pause,
        (session.prefix_mode || session.keys.prefix is None) && session.keys.pause != Some(data)
            && session.keys.add_marker == Some(data) ==> session.press(data) is AddMarker,
        !session.prefix_mode && session.keys.prefix == Some(data) ==> session.press(data)
            is Prefix,
        !session.prefix_mode && session.keys.prefix is Some && session.keys.prefix != Some(data)
            ==> session.press(data) is Plain,
        session.prefix_mode && session.keys.pause != Some(data) && session.keys.add_marker != Some(
            data,
        ) ==> session.press(data) is Plain,
        session.keys.prefix != Some(data) && session.keys.pause != Some(data)
            && session.keys.add_marker != Some(data) ==> session.press(data) is Plain,
{
}

/// The pause key pauses a recording which runs, and resumes a paused one. The
/// session remembers the time it was paused at, and a resumed session goes on
/// from there. Nothing is recorded of it, and the user is told.
pub proof fn pause_key_toggles(session: SessionState, data: Seq<u8>, now: nat, later: nat)
    requires
        session.keeps_time(now),
        session.press(data) is Pause,
        now <= later,
    ensures
        ({
            let after = session.after_input(data, now);
            &&& session.input_event(data, now) is None
            &&& after.prefix_mode == false
            &&& after.capture_input == session.capture_input
            &&& after.keys == session.keys
            &&& after.input_pending == session.input_pending
            &&& after.output_pending == session.output_pending
            &&& after.tty_size == session.tty_size
            &&& match session.pause_time {
                None => {
                    &&& after.pause_time == Some(session.elapsed(now))
                    &&& after.time_offset == session.time_offset
                    &&& session.input_notice(data) == Some("Paused recording"@)
                },
                Some(pause_time) => {
                    &&& after.pause_time is None
                    &&& after.elapsed(later) == pause_time + (later - now)
                    &&& after.time_offset + pause_time == now
                    &&& session.input_notice(data) == Some("Resumed recording"@)
                },
            }
        }),
{
}

/// The marker key adds a marker without a label, at the current session time,
/// paused or not, and the user is told. The session goes on as it was, out of
/// prefix mode.
pub proof fn marker_key_adds_a_marker(session: SessionState, data: Seq<u8>, now: nat)
    ensures
        session.press(data) is AddMarker ==> {
            let after = session.after_input(data, now);
            &&& session.input_event(data, now) matches Some(Recorded::Marker(time, label))
            &&& time == session.elapsed(now)
            &&& label.len() == 0
            &&& session.input_notice(data) == Some("Marker added"@)
            &&& !after.prefix_mode
            &&& SessionState { prefix_mode: session.prefix_mode, ..after } == session
        },
        session.input_event(data, now) matches Some(Recorded::Marker(_, _)) ==> session.press(data)
            is AddMarker,
{
}

/// The prefix key has no effect but that the next burst is a shortcut.
pub proof fn prefix_key_only_arms(session: SessionState, data: Seq<u8>, now: nat)
    ensures
        session.press(data) is Prefix ==> {
            let after = session.after_input(data, now);
            &&& session.input_event(data, now) is None
            &&& session.input_notice(data) is None
            &&& after.prefix_mode
            &&& SessionState { prefix_mode: session.prefix_mode, ..after } == session
        },
        session.after_input(data, now).prefix_mode ==> session.press(data) is Prefix,
{
}

/// A plain burst is recorded as input when input is captured and the recording
/// isn't paused, as the text it completes, if any, at the current session time.
/// Otherwise nothing is recorded, and nothing is held back of it. The user is
/// told nothing, and the session is the same otherwise, out of prefix mode.
pub proof fn plain_input_is_recorded(session: SessionState, data: Seq<u8>, now: nat)
    requires
        session.press(data) is Plain,
    ensures
        ({
            let after = session.after_input(data, now);
            let stream = session.input_pending + data;
            let captured = session.capture_input && session.pause_time is None;
            &&& session.input_notice(data) is None
            &&& !after.prefix_mode
            &&& SessionState {
                prefix_mode: session.prefix_mode,
                input_pending: session.input_pending,
                ..after
            } == session
            &&& captured ==> after.input_pending == decode(stream).1
            &&& !captured ==> after.input_pending == session.input_pending
            &&& match session.input_event(data, now) {
                Some(event) => {
                    &&& captured
                    &&& event == Recorded::Input(session.elapsed(now), decode(stream).0)
                    &&& decode(stream).0.len() > 0
                },
                None => captured ==> decode(stream).0.len() == 0,
            }
        }),
{
}

/// Output is recorded while the recording isn't paused, as the text it
/// completes, if any, at the current session time. Otherwise nothing is
/// recorded, and nothing is held back of it. The session is the same otherwise.
pub proof fn output_is_recorded(session: SessionState, data: Seq<u8>, now: nat)
    ensures
        ({
            let after = session.after_output(data);
            let stream = session.output_pending + data;
            let running = session.pause_time is None;
            &&& SessionState { output_pending: session.output_pending, ..after } == session
            &&& running ==> after.output_pending == decode(stream).1
            &&& !running ==> after.output_pending == session.output_pending
            &&& match session.output_event(data, now) {
                Some(event) => {
                    &&& running
                    &&& event == Recorded::Output(session.elapsed(now), decode(stream).0)
                    &&& decode(stream).0.len() > 0
                },
                None => running ==> decode(stream).0.len() == 0,
            }
        }),
{
}

/// A recorded resize holds the size the terminal has now, and the session
/// remembers it, and changes in nothing else. The size it had is not recorded
/// again.
pub proof fn resize_is_recorded(session: SessionState, size: TtySize, now: nat)
    ensures
        match session.resize_event(size, now) {
            Some(event) => {
                &&& (size.0 != session.tty_size.0 || size.1 != session.tty_size.1)
                &&& event matches Recorded::Resize(time, seen)
                &&& seen.0 == size.0
                &&& seen.1 == size.1
                &&& time == session.elapsed(now)
            },
            None => size.0 == session.tty_size.0 && size.1 == session.tty_size.1,
        },
        session.after_resize(size).tty_size == size,
        (SessionState { tty_size: session.tty_size, ..session.after_resize(size) }) == session,
{
}

/// The parts of an event are what its model holds.
pub proof fn event_models_hold_their_parts(
    time: Duration,
    text: String,
    size: TtySize,
    status: i32,
)
    ensures
        Event::Output(time, text)@ == Recorded::Output(time.nanos as nat, text@),
        Event::Input(time, text)@ == Recorded::Input(time.nanos as nat, text@),
        Event::Resize(time, size)@ == Recorded::Resize(time.nanos as nat, size),
        Event::Marker(time, text)@ == Recorded::Marker(time.nanos as nat, text@),
        Event::Exit(time, status)@ == Recorded::Exit(time.nanos as nat, status),
{
}

/// Nothing is lost between an optional event, notice or key and its model.
pub proof fn optional_models_hold_their_parts(event: Event, notice: String, key: Vec<u8>)
    ensures
        recorded(Some(event)) == Some(event@),
        recorded(None) is None,
        told(Some(notice)) == Some(notice@),
        told(None) is None,
        bound(Some(key)) == Some(key@),
        bound(None) is None,
{
}

} // verus!
