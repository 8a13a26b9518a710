//! The course of a session: shuffles bytes between the terminal and the
//! recorded command until the command is done.
//!
//! A [`Pump`] performs no I/O of its own. It says what to do next, and is told
//! what came of it.

use bytes::BytesMut;
use vstd::prelude::*;

use crate::buffer::{self, buffered, MAX_BUFFERED};
use crate::session::{recorded, told, Event, KeyBindings, Recorded, Session, SessionState};
use crate::time::Duration;
use crate::tty::TtySize;

verus! {

/// The most bytes read from either side at once.
pub const BUF_SIZE: usize = 131072;

/// A signal a session may be sent.
#[derive(Clone, Copy, Debug, PartialEq, Eq, Structural)]
pub enum Signal {
    Winch,
    Int,
    Term,
    Quit,
    Hup,
    Alrm,
    Chld,
    Other,
}

/// What became of the recorded command.
#[derive(Clone, Copy, Debug, PartialEq, Eq, Structural)]
pub enum WaitStatus {
    /// It exited, with this status.
    Exited(i32),
    /// It was killed by the signal of this number.
    Signaled(u8),
    /// It is still running.
    StillAlive,
    /// Something else happened to it.
    Other,
}

impl WaitStatus {
    /// The status a session reports for the command.
    pub open spec fn spec_exit_status(self) -> i32 {
        match self {
            WaitStatus::Exited(status) => status,
            WaitStatus::Signaled(signal) => (128 + signal) as i32,
            WaitStatus::StillAlive => 1,
            WaitStatus::Other => 1,
        }
    }

    /// The status a session reports for the command: the one it exited with,
    /// or, when a signal killed it, the signal's number past 128.
    pub fn exit_status(self) -> (status: i32)
        ensures
            self matches WaitStatus::Exited(code) ==> status == code,
            self matches WaitStatus::Signaled(signal) ==> status == 128 + signal,
            self is StillAlive || self is Other ==> status == 1,
            status == self.spec_exit_status(),
    {
        match self {
            WaitStatus::Exited(status) => status,
            WaitStatus::Signaled(signal) => 128 + signal as i32,
            WaitStatus::StillAlive => 1,
            WaitStatus::Other => 1,
        }
    }
}

/// What a session was waiting for.
pub enum Happening<'a, E> {
    /// The command wrote these bytes; none, when it closed its side.
    PtyRead(Result<&'a [u8], E>),
    /// That many bytes of pending input were passed to the command.
    PtyWritten(Result<usize, E>),
    /// These bytes were typed; none, when the terminal was closed.
    TtyRead(Result<&'a [u8], E>),
    /// That many bytes of pending output were passed to the terminal.
    TtyWritten(Result<usize, E>),
    /// A signal came in.
    Signal(Signal),
    /// The command's terminal was given the size of the user's one.
    Resized(TtySize),
    /// The command was asked for its status.
    ChildPolled(Result<WaitStatus, E>),
    /// The remaining output was passed to the terminal, or failed to.
    Flushed,
    /// The command was waited for.
    ChildExited(Result<WaitStatus, E>),
}

/// The model of a [`Happening`].
pub enum Occurrence<E> {
    PtyRead(Result<Seq<u8>, E>),
    PtyWritten(Result<usize, E>),
    TtyRead(Result<Seq<u8>, E>),
    TtyWritten(Result<usize, E>),
    Signal(Signal),
    Resized(TtySize),
    ChildPolled(Result<WaitStatus, E>),
    Flushed,
    ChildExited(Result<WaitStatus, E>),
}

/// The model of what a read gave.
pub open spec fn bytes_read<E>(result: Result<&[u8], E>) -> Result<Seq<u8>, E> {
    match result {
        Ok(data) => Ok(data@),
        Err(error) => Err(error),
    }
}

impl<'a, E> View for Happening<'a, E> {
    type V = Occurrence<E>;

    open spec fn view(&self) -> Occurrence<E> {
        match *self {
            Happening::PtyRead(result) => Occurrence::PtyRead(bytes_read(result)),
            Happening::PtyWritten(result) => Occurrence::PtyWritten(result),
            Happening::TtyRead(result) => Occurrence::TtyRead(bytes_read(result)),
            Happening::TtyWritten(result) => Occurrence::TtyWritten(result),
            Happening::Signal(signal) => Occurrence::Signal(signal),
            Happening::Resized(size) => Occurrence::Resized(size),
            Happening::ChildPolled(result) => Occurrence::ChildPolled(result),
            Happening::Flushed => Occurrence::Flushed,
            Happening::ChildExited(result) => Occurrence::ChildExited(result),
        }
    }
}

/// What a session is waiting for.
#[derive(Clone, Copy, Debug, PartialEq, Eq, Structural)]
pub enum Stage {
    /// Whatever comes first: bytes from either side, the chance to pass
    /// pending bytes on, or a signal.
    Selecting,
    Resizing,
    Polling,
    /// The rest of the command's output.
    Draining,
    Flushing,
    Reaping,
    /// Nothing anymore.
    Done,
}

/// What to do next.
#[derive(Debug)]
pub enum Next<E> {
    /// Wait for bytes from either side, for a signal, and, with input or
    /// output pending, for the chance to pass it on.
    Select,
    /// Give the command's terminal the size of the user's one.
    Resize,
    /// Kill the command, and go on as with [`Next::Select`].
    Kill,
    /// Ask whether the command is done, without waiting for it.
    PollChild,
    /// Read what else the command has written.
    Drain,
    /// Pass the pending output to the terminal.
    Flush,
    /// Wait for the command.
    AwaitChild,
    /// End the session with this result.
    Finish(Result<i32, E>),
}

impl<E> Next<E> {
    /// What the session is waiting for once it was told to do this.
    pub open spec fn spec_stage(self) -> Stage {
        match self {
            Next::Select => Stage::Selecting,
            Next::Resize => Stage::Resizing,
            Next::Kill => Stage::Selecting,
            Next::PollChild => Stage::Polling,
            Next::Drain => Stage::Draining,
            Next::Flush => Stage::Flushing,
            Next::AwaitChild => Stage::Reaping,
            Next::Finish(_) => Stage::Done,
        }
    }

    fn stage(&self) -> (stage: Stage)
        ensures
            stage == self.spec_stage(),
    {
        match self {
            Next::Select => Stage::Selecting,
            Next::Resize => Stage::Resizing,
            Next::Kill => Stage::Selecting,
            Next::PollChild => Stage::Polling,
            Next::Drain => Stage::Draining,
            Next::Flush => Stage::Flushing,
            Next::AwaitChild => Stage::Reaping,
            Next::Finish(_) => Stage::Done,
        }
    }
}

/// The model of a [`Pump`].
#[verifier::ext_equal]
pub struct PumpState {
    pub session: SessionState,
    /// Bytes on their way to the command.
    pub input: Seq<u8>,
    /// Bytes on their way to the terminal.
    pub output: Seq<u8>,
    /// How the command ended, once known.
    pub wait_status: Option<WaitStatus>,
    pub stage: Stage,
}

impl PumpState {
    /// A session about to wait for its first happening.
    pub open spec fn initial(session: SessionState) -> PumpState {
        PumpState {
            session,
            input: Seq::empty(),
            output: Seq::empty(),
            wait_status: None,
            stage: Stage::Selecting,
        }
    }

    /// Whether the session is waiting for this. It waits for pending bytes to
    /// be passed on only when there are any, and for no more than there are.
    pub open spec fn expects<E>(self, occurrence: Occurrence<E>) -> bool {
        match occurrence {
            Occurrence::PtyRead(_) => self.stage is Selecting || self.stage is Draining,
            Occurrence::PtyWritten(result) => {
                &&& self.stage is Selecting
                &&& self.input.len() > 0
                &&& result matches Ok(n) ==> n <= self.input.len()
            },
            Occurrence::TtyRead(_) => self.stage is Selecting,
            Occurrence::TtyWritten(result) => {
                &&& self.stage is Selecting
                &&& self.output.len() > 0
                &&& result matches Ok(n) ==> n <= self.output.len()
            },
            Occurrence::Signal(_) => self.stage is Selecting,
            Occurrence::Resized(_) => self.stage is Resizing,
            Occurrence::ChildPolled(_) => self.stage is Polling,
            Occurrence::Flushed => self.stage is Flushing,
            Occurrence::ChildExited(_) => self.stage is Reaping,
        }
    }

    /// Whether the buffers can take in the bytes which came.
    pub open spec fn has_room<E>(self, occurrence: Occurrence<E>) -> bool {
        match occurrence {
            Occurrence::PtyRead(Ok(data)) => self.output.len() + data.len() <= MAX_BUFFERED,
            Occurrence::TtyRead(Ok(data)) => self.input.len() + data.len() <= MAX_BUFFERED,
            _ => true,
        }
    }

    /// What to do once the terminal has all the output.
    pub open spec fn conclusion<E>(self) -> Next<E> {
        match self.wait_status {
            Some(status) => Next::Finish(Ok(status.spec_exit_status())),
            None => Next::AwaitChild,
        }
    }

    /// What to do once the command has no more output.
    pub open spec fn after_drain<E>(self) -> Next<E> {
        if self.output.len() > 0 {
            Next::Flush
        } else {
            self.conclusion()
        }
    }

    /// What to do next.
    pub open spec fn next<E>(self, occurrence: Occurrence<E>) -> Next<E> {
        let draining = self.stage is Draining;
        match occurrence {
            Occurrence::PtyRead(Ok(data)) => if data.len() == 0 && draining {
                self.after_drain()
            } else if data.len() == 0 || draining {
                Next::Drain
            } else {
                Next::Select
            },
            Occurrence::PtyRead(Err(error)) => if draining {
                self.after_drain()
            } else {
                Next::Finish(Err(error))
            },
            Occurrence::PtyWritten(Ok(_)) => Next::Select,
            Occurrence::PtyWritten(Err(error)) => Next::Finish(Err(error)),
            Occurrence::TtyRead(Ok(data)) => if data.len() == 0 {
                Next::Drain
            } else {
                Next::Select
            },
            Occurrence::TtyRead(Err(error)) => Next::Finish(Err(error)),
            Occurrence::TtyWritten(Ok(_)) => Next::Select,
            Occurrence::TtyWritten(Err(error)) => Next::Finish(Err(error)),
            Occurrence::Signal(signal) => match signal {
                Signal::Winch => Next::Resize,
                Signal::Int => Next::Kill,
                Signal::Term => Next::Kill,
                Signal::Quit => Next::Kill,
                Signal::Hup => Next::Kill,
                Signal::Alrm => Next::Select,
                Signal::Chld => Next::PollChild,
                Signal::Other => Next::Select,
            },
            Occurrence::Resized(_) => Next::Select,
            Occurrence::ChildPolled(Ok(status)) => if status == WaitStatus::StillAlive {
                Next::Select
            } else {
                Next::Drain
            },
            Occurrence::ChildPolled(Err(_)) => Next::Select,
            Occurrence::Flushed => self.conclusion(),
            Occurrence::ChildExited(Ok(status)) => Next::Finish(Ok(status.spec_exit_status())),
            Occurrence::ChildExited(Err(error)) => Next::Finish(Err(error)),
        }
    }

    /// The recording side, after this happened.
    pub open spec fn session_after<E>(self, occurrence: Occurrence<E>, now: nat) -> SessionState {
        match occurrence {
            Occurrence::PtyRead(Ok(data)) => if data.len() > 0 {
                self.session.after_output(data)
            } else {
                self.session
            },
            Occurrence::TtyRead(Ok(data)) => if data.len() > 0 {
                self.session.after_input(data, now)
            } else {
                self.session
            },
            Occurrence::Resized(size) => self.session.after_resize(size),
            _ => self.session,
        }
    }

    /// Whether these typed bytes go to the command.
    pub open spec fn forwards(self, data: Seq<u8>) -> bool {
        data.len() > 0 && self.session.press(data) is Plain
    }

    /// The session after this happened.
    pub open spec fn after<E>(self, occurrence: Occurrence<E>, now: nat) -> PumpState {
        PumpState {
            session: self.session_after(occurrence, now),
            input: match occurrence {
                Occurrence::TtyRead(Ok(data)) => if self.forwards(data) {
                    self.input + data
                } else {
                    self.input
                },
                Occurrence::PtyWritten(Ok(n)) => self.input.skip(n as int),
                _ => self.input,
            },
            output: match occurrence {
                Occurrence::PtyRead(Ok(data)) => self.output + data,
                Occurrence::TtyWritten(Ok(n)) => self.output.skip(n as int),
                _ => self.output,
            },
            wait_status: match occurrence {
                Occurrence::ChildPolled(Ok(status)) => if status == WaitStatus::StillAlive {
                    self.wait_status
                } else {
                    Some(status)
                },
                _ => self.wait_status,
            },
            stage: self.next(occurrence).spec_stage(),
        }
    }

    /// What is recorded of it.
    pub open spec fn event<E>(self, occurrence: Occurrence<E>, now: nat) -> Option<Recorded> {
        match self.next(occurrence) {
            Next::Finish(Ok(status)) => Some(Recorded::Exit(self.session.elapsed(now), status)),
            _ => match occurrence {
                Occurrence::PtyRead(Ok(data)) => if data.len() > 0 {
                    self.session.output_event(data, now)
                } else {
                    None
                },
                Occurrence::TtyRead(Ok(data)) => if data.len() > 0 {
                    self.session.input_event(data, now)
                } else {
                    None
                },
                Occurrence::Resized(size) => self.session.resize_event(size, now),
                _ => None,
            },
        }
    }

    /// What the user is told about it.
    pub open spec fn notice<E>(self, occurrence: Occurrence<E>) -> Option<Seq<char>> {
        match occurrence {
            Occurrence::TtyRead(Ok(data)) => if data.len() > 0 {
                self.session.input_notice(data)
            } else {
                None
            },
            _ => None,
        }
    }
}

/// What a session does about a happening: records the event, then tells the
/// user, then goes on.
#[derive(Debug)]
pub struct Step<E> {
    pub event: Option<Event>,
    pub notice: Option<String>,
    pub next: Next<E>,
}

/// A session under way.
#[derive(Debug)]
pub struct Pump {
    session: Session,
    input: BytesMut,
    output: BytesMut,
    wait_status: Option<WaitStatus>,
    stage: Stage,
}

impl View for Pump {
    type V = PumpState;

    closed spec fn view(&self) -> PumpState {
        PumpState {
            session: self.session@,
            input: buffered(self.input),
            output: buffered(self.output),
            wait_status: self.wait_status,
            stage: self.stage,
        }
    }
}

impl Pump {
    /// Starts a session. Its first step is [`Next::Select`].
    pub fn new(capture_input: bool, keys: KeyBindings, tty_size: TtySize) -> (pump: Self)
        ensures
            pump@ == PumpState::initial(SessionState::initial(capture_input, keys@, tty_size)),
            pump@.input.len() == 0,
            pump@.output.len() == 0,
            pump@.wait_status is None,
            pump@.stage is Selecting,
            pump@.session.capture_input == capture_input,
            pump@.session.keys == keys@,
            pump@.session.tty_size == tty_size,
            pump@.session.pause_time is None,
            pump@.session.time_offset == 0,
            !pump@.session.prefix_mode,
    {
        Pump {
            session: Session::new(capture_input, keys, tty_size),
            input: buffer::with_capacity(BUF_SIZE),
            output: buffer::with_capacity(BUF_SIZE),
            wait_status: None,
            stage: Stage::Selecting,
        }
    }

    /// The bytes to pass to the command.
    pub fn pending_input(&self) -> (data: &[u8])
        ensures
            data@ == self@.input,
    {
        buffer::as_slice(&self.input)
    }

    /// The bytes to pass to the terminal.
    pub fn pending_output(&self) -> (data: &[u8])
        ensures
            data@ == self@.output,
    {
        buffer::as_slice(&self.output)
    }

    /// Tells whether the session can take this in.
    pub fn accepts<E>(&self, happening: &Happening<E>, now: Duration) -> (accepts: bool)
        ensures
            accepts == (self@.expects(happening@) && self@.has_room(happening@)
                && self@.session.keeps_time(now@)),
    {
        let input_len = self.pending_input().len();
        let output_len = self.pending_output().len();
        let expected = match happening {
            Happening::PtyRead(result) => (self.stage == Stage::Selecting || self.stage
                == Stage::Draining) && match result {
                Ok(data) => output_len <= MAX_BUFFERED && data.len() <= MAX_BUFFERED - output_len,
                Err(_) => true,
            },
            Happening::PtyWritten(result) => self.stage == Stage::Selecting && input_len > 0
                && match result {
                Ok(n) => *n <= input_len,
                Err(_) => true,
            },
            Happening::TtyRead(result) => self.stage == Stage::Selecting && match result {
                Ok(data) => input_len <= MAX_BUFFERED && data.len() <= MAX_BUFFERED - input_len,
                Err(_) => true,
            },
            Happening::TtyWritten(result) => self.stage == Stage::Selecting && output_len > 0
                && match result {
                Ok(n) => *n <= output_len,
                Err(_) => true,
            },
            Happening::Signal(_) => self.stage == Stage::Selecting,
            Happening::Resized(_) => self.stage == Stage::Resizing,
            Happening::ChildPolled(_) => self.stage == Stage::Polling,
            Happening::Flushed => self.stage == Stage::Flushing,
            Happening::ChildExited(_) => self.stage == Stage::Reaping,
        };
        expected && self.session.keeps_time(now)
    }

    fn conclusion<E>(&self) -> (next: Next<E>)
        ensures
            next == self@.conclusion::<E>(),
    {
        match self.wait_status {
            Some(status) => Next::Finish(Ok(status.exit_status())),
            None => Next::AwaitChild,
        }
    }

    fn after_drain<E>(&self) -> (next: Next<E>)
        ensures
            next == self@.after_drain::<E>(),
    {
        if buffer::is_empty(&self.output) {
            self.conclusion()
        } else {
            Next::Flush
        }
    }

    /// Takes in what happened, and says what to do about it.
    pub fn step<E>(&mut self, happening: Happening<E>, now: Duration) -> (step: Step<E>)
        requires
            old(self)@.expects(happening@),
            old(self)@.has_room(happening@),
            old(self)@.session.keeps_time(now@),
        ensures
            final(self)@ == old(self)@.after(happening@, now@),
            step.next == old(self)@.next(happening@),
            recorded(step.event) == old(self)@.event(happening@, now@),
            told(step.notice) == old(self)@.notice(happening@),
            happening matches Happening::PtyRead(Ok(data)) ==> final(self)@.output == old(
                self,
            )@.output + data@,
            happening matches Happening::TtyRead(Ok(data)) ==> (data@.len() > 0 && old(
                self,
            )@.session.press(data@) is Plain ==> final(self)@.input == old(self)@.input + data@),
            happening matches Happening::Resized(size) ==> final(self)@.session.tty_size == size,
            happening matches Happening::ChildPolled(Ok(status)) ==> (status
                != WaitStatus::StillAlive ==> step.next is Drain && final(self)@.wait_status
                == Some(status)),
            step.next matches Next::Finish(Ok(status)) ==> (step.event matches Some(
                Event::Exit(_, code),
            ) && code == status),
            happening matches Happening::ChildExited(Ok(WaitStatus::Exited(code))) ==> (
            step.next matches Next::Finish(Ok(status)) && status == code),
            happening matches Happening::ChildExited(Ok(WaitStatus::Signaled(signal))) ==> (
            step.next matches Next::Finish(Ok(status)) && status == 128 + signal),
    {
        let ghost before = self@;
        let ghost occurrence = happening@;
        let draining = self.stage == Stage::Draining;
        let mut event: Option<Event> = None;
        let mut notice: Option<String> = None;
        let next = match happening {
            Happening::PtyRead(Ok(data)) => {
                if data.len() > 0 {
                    event = self.session.handle_output(data, now);
                    buffer::extend_from_slice(&mut self.output, data);
                    if draining {
                        Next::Drain
                    } else {
                        Next::Select
                    }
                } else {
                    assert(before.output + data@ =~= before.output);
                    if draining {
                        self.after_drain()
                    } else {
                        Next::Drain
                    }
                }
            },
            Happening::PtyRead(Err(error)) => {
                if draining {
                    self.after_drain()
                } else {
                    Next::Finish(Err(error))
                }
            },
            Happening::PtyWritten(Ok(n)) => {
                buffer::advance(&mut self.input, n);
                Next::Select
            },
            Happening::PtyWritten(Err(error)) => Next::Finish(Err(error)),
            Happening::TtyRead(Ok(data)) => {
                if data.len() > 0 {
                    let reaction = self.session.handle_input(data, now);
                    event = reaction.event;
                    notice = reaction.notice;
                    if reaction.forward {
                        buffer::extend_from_slice(&mut self.input, data);
                    }
                    Next::Select
                } else {
                    Next::Drain
                }
            },
            Happening::TtyRead(Err(error)) => Next::Finish(Err(error)),
            Happening::TtyWritten(Ok(n)) => {
                buffer::advance(&mut self.output, n);
                Next::Select
            },
            Happening::TtyWritten(Err(error)) => Next::Finish(Err(error)),
            Happening::Signal(signal) => match signal {
                Signal::Winch => Next::Resize,
                Signal::Int | Signal::Term | Signal::Quit | Signal::Hup => Next::Kill,
                Signal::Chld => Next::PollChild,
                Signal::Alrm | Signal::Other => Next::Select,
            },
            Happening::Resized(size) => {
                event = self.session.handle_resize(size, now);
                Next::Select
            },
            Happening::ChildPolled(Ok(status)) => {
                if status != WaitStatus::StillAlive {
                    self.wait_status = Some(status);
                    Next::Drain
                } else {
                    Next::Select
                }
            },
            Happening::ChildPolled(Err(_)) => Next::Select,
            Happening::Flushed => self.conclusion(),
            Happening::ChildExited(Ok(status)) => Next::Finish(Ok(status.exit_status())),
            Happening::ChildExited(Err(error)) => Next::Finish(Err(error)),
        };
        if let Next::Finish(Ok(status)) = &next {
            event = Some(self.session.handle_exit(*status, now));
        }
        self.stage = next.stage();
        assert(self@ =~= before.after(occurrence, now@));
        Step { event, notice, next }
    }
}

/// How many events may pile up on their way to the sinks.
pub const MAX_FORWARDED_EVENTS: usize = 1024;

/// Why a session failed.
#[derive(Debug)]
pub enum Failure<F, S, E> {
    /// Events couldn't be forwarded to the sinks.
    Forwarder(F),
    /// The session itself failed.
    Session(S),
    /// An essential sink failed.
    Sink(E),
}

/// The result of a session, given how it ended, and what became of forwarding
/// its events: the failure of an essential sink, if any, unless the forwarder
/// failed. The session's own failure takes precedence over a failed sink.
pub fn run_result<F, S, E>(
    ended: Result<i32, S>,
    forwarded: Result<Option<E>, F>,
) -> (result: Result<i32, Failure<F, S, E>>)
    ensures
        forwarded matches Err(error) ==> result == Err::<i32, _>(
            Failure::<F, S, E>::Forwarder(error),
        ),
        forwarded is Ok ==> (ended matches Err(error) ==> result == Err::<i32, _>(
            Failure::<F, S, E>::Session(error),
        )),
        ended is Ok ==> (forwarded matches Ok(Some(error)) ==> result == Err::<i32, _>(
            Failure::<F, S, E>::Sink(error),
        )),
        forwarded == Ok::<Option<E>, F>(None) ==> (ended matches Ok(status) ==> result == Ok::<
            i32,
            Failure<F, S, E>,
        >(status)),
{
    match forwarded {
        Err(error) => Err(Failure::Forwarder(error)),
        Ok(failure) => match ended {
            Err(error) => Err(Failure::Session(error)),
            Ok(status) => match failure {
                Some(error) => Err(Failure::Sink(error)),
                None => Ok(status),
            },
        },
    }
}

/// The status of a command which exited is its own, and that of one a signal
/// killed lies above 128, a different one for each signal. A command which was
/// killed is never taken for one which succeeded.
pub proof fn exit_status_tells_how_it_ended(code: i32, signal: u8, other: u8)
    ensures
        WaitStatus::Exited(code).spec_exit_status() == code,
        WaitStatus::Signaled(signal).spec_exit_status() == 128 + signal,
        WaitStatus::Signaled(signal).spec_exit_status() != 0,
        WaitStatus::Signaled(signal).spec_exit_status() - WaitStatus::Signaled(
            other,
        ).spec_exit_status() == signal - other,
        WaitStatus::StillAlive.spec_exit_status() == 1,
        WaitStatus::Other.spec_exit_status() == 1,
{
}

/// A session polls the command for each SIGCHLD, resizes its terminal for each
/// SIGWINCH, kills it for each signal asking the session to end, and does none
/// of this otherwise. No signal ends the session by itself.
pub proof fn signals_are_acted_upon<E>(state: PumpState, occurrence: Occurrence<E>)
    requires
        state.expects(occurrence),
    ensures
        state.next(occurrence) is PollChild <==> occurrence == Occurrence::<E>::Signal(
            Signal::Chld,
        ),
        state.next(occurrence) is Resize <==> occurrence == Occurrence::<E>::Signal(Signal::Winch),
        state.next(occurrence) is Kill <==> {
            ||| occurrence == Occurrence::<E>::Signal(Signal::Int)
            ||| occurrence == Occurrence::<E>::Signal(Signal::Term)
            ||| occurrence == Occurrence::<E>::Signal(Signal::Quit)
            ||| occurrence == Occurrence::<E>::Signal(Signal::Hup)
        },
        occurrence == Occurrence::<E>::Signal(Signal::Alrm) || occurrence == Occurrence::<
            E,
        >::Signal(Signal::Other) ==> state.next(occurrence) is Select,
{
}

/// What a session does about a signal does not depend on what it has pending,
/// or on how far the recording is.
pub proof fn signals_are_treated_alike<E>(state: PumpState, other: PumpState, signal: Signal)
    ensures
        state.next(Occurrence::<E>::Signal(signal)) == other.next(Occurrence::<E>::Signal(signal)),
{
}

/// A session fails with the error which occurred, when either side can't be
/// read or written while it selects, or the command can't be waited for. It
/// never fails for another reason: neither the end of a drain nor a failed
/// poll is an error.
pub proof fn errors_end_the_session<E>(state: PumpState, occurrence: Occurrence<E>, error: E)
    requires
        state.expects(occurrence),
    ensures
        state.next(occurrence) == Next::<E>::Finish(Err(error)) <==> {
            ||| occurrence == Occurrence::PtyRead(Err(error)) && state.stage is Selecting
            ||| occurrence == Occurrence::PtyWritten(Err(error))
            ||| occurrence == Occurrence::TtyRead(Err(error))
            ||| occurrence == Occurrence::TtyWritten(Err(error))
            ||| occurrence == Occurrence::ChildExited(Err(error))
        },
{
}

/// Once either side is closed, or the command is found to have ended, however
/// it did, a session reads the rest of the output, and goes on as long as there
/// is some. It starts for no other reason.
pub proof fn output_is_drained<E>(state: PumpState, occurrence: Occurrence<E>)
    requires
        state.expects(occurrence),
    ensures
        state.next(occurrence) is Drain <==> match occurrence {
            Occurrence::PtyRead(Ok(data)) => state.stage is Draining <==> data.len() > 0,
            Occurrence::TtyRead(Ok(data)) => data.len() == 0,
            Occurrence::ChildPolled(Ok(status)) => !(status is StillAlive),
            _ => false,
        },
{
}

/// When the rest of the output was read, to its end or up to an error, a
/// session passes what is pending to the terminal, if anything is, and then
/// waits for the command, unless it is known to have ended. It does neither at
/// any other point, and ends well only after both.
pub proof fn drained_session_ends<E>(state: PumpState, occurrence: Occurrence<E>)
    requires
        state.expects(occurrence),
    ensures
        ({
            let drained = state.stage is Draining && match occurrence {
                Occurrence::PtyRead(Ok(data)) => data.len() == 0,
                Occurrence::PtyRead(Err(_)) => true,
                _ => false,
            };
            let shown = occurrence is Flushed || drained && state.output.len() == 0;
            &&& state.next(occurrence) is Flush <==> drained && state.output.len() > 0
            &&& state.next(occurrence) is AwaitChild <==> shown && state.wait_status is None
            &&& (state.next(occurrence) matches Next::Finish(Ok(_))) <==> {
                ||| shown && state.wait_status is Some
                ||| occurrence matches Occurrence::ChildExited(Ok(_))
            }
        }),
{
}

/// A session which ends well ends with what the command ended with: its own
/// status, or that of the signal which killed it.
pub proof fn session_ends_as_the_command_did<E>(
    state: PumpState,
    occurrence: Occurrence<E>,
    ended: WaitStatus,
    status: i32,
)
    requires
        state.expects(occurrence),
        state.next(occurrence) == Next::<E>::Finish(Ok(status)),
        if occurrence is ChildExited {
            occurrence == Occurrence::<E>::ChildExited(Ok(ended))
        } else {
            state.wait_status == Some(ended)
        },
    ensures
        ended matches WaitStatus::Exited(code) ==> status == code,
        ended matches WaitStatus::Signaled(signal) ==> status == 128 + signal,
        ended is StillAlive || ended is Other ==> status == 1,
{
}

/// In every other case a session goes on selecting. In particular, it does so
/// after passing bytes on, after reading some, after resizing, and when the
/// command is still running or couldn't be asked.
pub proof fn session_goes_on_selecting<E>(state: PumpState, occurrence: Occurrence<E>)
    requires
        state.expects(occurrence),
    ensures
        occurrence matches Occurrence::PtyWritten(Ok(_)) ==> state.next(occurrence) is Select,
        occurrence matches Occurrence::TtyWritten(Ok(_)) ==> state.next(occurrence) is Select,
        occurrence matches Occurrence::TtyRead(Ok(data)) ==> (data.len() > 0 ==> state.next(
            occurrence,
        ) is Select),
        occurrence matches Occurrence::PtyRead(Ok(data)) ==> (data.len() > 0
            && state.stage is Selecting ==> state.next(occurrence) is Select),
        occurrence is Resized ==> state.next(occurrence) is Select,
        occurrence matches Occurrence::ChildPolled(Ok(WaitStatus::StillAlive)) ==> state.next(
            occurrence,
        ) is Select,
        occurrence matches Occurrence::ChildPolled(Err(_)) ==> state.next(occurrence) is Select,
{
}

/// How the command ended is kept from the moment it is known, and learned only
/// by asking.
pub proof fn wait_status_is_kept<E>(state: PumpState, occurrence: Occurrence<E>, now: nat)
    ensures
        match occurrence {
            Occurrence::ChildPolled(Ok(WaitStatus::StillAlive)) => state.after(
                occurrence,
                now,
            ).wait_status == state.wait_status,
            Occurrence::ChildPolled(Ok(status)) => state.after(occurrence, now).wait_status
                == Some(status),
            _ => state.after(occurrence, now).wait_status == state.wait_status,
        },
{
}

/// Bytes are added to the end of what is pending, and taken from its front, as
/// many as were passed on. Nothing else changes either buffer.
pub proof fn buffers_are_queues<E>(state: PumpState, occurrence: Occurrence<E>, now: nat)
    requires
        state.expects(occurrence),
    ensures
        ({
            let after = state.after(occurrence, now);
            &&& match occurrence {
                Occurrence::PtyRead(Ok(data)) => after.output == state.output + data,
                Occurrence::TtyWritten(Ok(n)) => {
                    &&& after.output.len() + n == state.output.len()
                    &&& state.output.take(n as int) + after.output == state.output
                },
                _ => after.output == state.output,
            }
            &&& match occurrence {
                Occurrence::TtyRead(Ok(data)) => if data.len() > 0 && state.session.press(
                    data,
                ) is Plain {
                    after.input == state.input + data
                } else {
                    after.input == state.input
                },
                Occurrence::PtyWritten(Ok(n)) => {
                    &&& after.input.len() + n == state.input.len()
                    &&& state.input.take(n as int) + after.input == state.input
                },
                _ => after.input == state.input,
            }
        }),
{
    let after = state.after(occurrence, now);
    if let Occurrence::TtyWritten(Ok(n)) = occurrence {
        assert(state.output.take(n as int) + after.output =~= state.output);
    }
    if let Occurrence::PtyWritten(Ok(n)) = occurrence {
        assert(state.input.take(n as int) + after.input =~= state.input);
    }
}

/// Only bytes read from either side, and the size of the terminal, matter to
/// the recording side. Each is handed to it once, as it came.
pub proof fn recording_side_sees_what_came<E>(
    state: PumpState,
    occurrence: Occurrence<E>,
    now: nat,
)
    ensures
        ({
            let session = state.session;
            let after = state.after(occurrence, now).session;
            match occurrence {
                Occurrence::PtyRead(Ok(data)) => data.len() > 0 ==> after == session.after_output(
                    data,
                ),
                Occurrence::TtyRead(Ok(data)) => data.len() > 0 ==> after == session.after_input(
                    data,
                    now,
                ),
                Occurrence::Resized(size) => after == session.after_resize(size),
                _ => after == session,
            }
        }),
        occurrence matches Occurrence::PtyRead(Ok(data)) ==> (data.len() == 0 ==> state.after(
            occurrence,
            now,
        ).session == state.session),
        occurrence matches Occurrence::TtyRead(Ok(data)) ==> (data.len() == 0 ==> state.after(
            occurrence,
            now,
        ).session == state.session),
{
}

/// What is recorded is what the recording side makes of it, and, at the end of
/// a session which ends well, its exit. Nothing is recorded of anything else.
pub proof fn events_are_recorded<E>(state: PumpState, occurrence: Occurrence<E>, now: nat)
    requires
        state.expects(occurrence),
    ensures
        ({
            let event = state.event(occurrence, now);
            &&& event matches Some(Recorded::Exit(time, status)) ==> {
                &&& state.next(occurrence) == Next::<E>::Finish(Ok(status))
                &&& time == state.session.elapsed(now)
            }
            &&& event is None ==> !(state.next(occurrence) matches Next::Finish(Ok(_)))
            &&& match occurrence {
                Occurrence::PtyRead(Ok(data)) => data.len() > 0 ==> event
                    == state.session.output_event(data, now),
                Occurrence::TtyRead(Ok(data)) => if data.len() > 0 {
                    event == state.session.input_event(data, now)
                } else {
                    event is None
                },
                Occurrence::Resized(size) => event == state.session.resize_event(size, now),
                _ => event matches Some(some) ==> some is Exit,
            }
            &&& occurrence matches Occurrence::PtyRead(Ok(data)) ==> (data.len() == 0 ==> (
            event matches Some(some) ==> some is Exit))
        }),
{
}

/// The user is told about shortcuts, and about nothing else.
pub proof fn notices_are_about_shortcuts<E>(state: PumpState, occurrence: Occurrence<E>)
    ensures
        state.notice(occurrence) == (match occurrence {
            Occurrence::TtyRead(Ok(data)) => if data.len() == 0 {
                None
            } else if state.session.press(data) is AddMarker {
                Some("Marker added"@)
            } else if !(state.session.press(data) is Pause) {
                None
            } else if state.session.pause_time is None {
                Some("Paused recording"@)
            } else {
                Some("Resumed recording"@)
            },
            _ => None,
        }),
{
}

/// A session which has just started waits for bytes from either side and for
/// signals, with nothing pending.
pub proof fn new_session_selects<E>(
    session: SessionState,
    read: Result<Seq<u8>, E>,
    signal: Signal,
    other: Occurrence<E>,
)
    ensures
        ({
            let state = PumpState::initial(session);
            &&& state.session == session
            &&& state.input.len() == 0
            &&& state.output.len() == 0
            &&& state.wait_status is None
            &&& state.expects(Occurrence::<E>::PtyRead(read))
            &&& state.expects(Occurrence::<E>::TtyRead(read))
            &&& state.expects(Occurrence::<E>::Signal(signal))
            &&& state.expects(other) ==> other is PtyRead || other is TtyRead || other is Signal
        }),
{
}

/// A session waits for nothing it didn't ask for. It never passes on more than
/// is pending, and asks for one thing at a time.
pub proof fn nothing_unasked_is_expected<E>(state: PumpState, occurrence: Occurrence<E>)
    requires
        state.expects(occurrence),
    ensures
        occurrence is PtyRead ==> state.stage is Selecting || state.stage is Draining,
        occurrence is TtyRead || occurrence is Signal ==> state.stage is Selecting,
        occurrence matches Occurrence::PtyWritten(result) ==> state.stage is Selecting
            && state.input.len() > 0 && (result matches Ok(n) ==> n <= state.input.len()),
        occurrence matches Occurrence::TtyWritten(result) ==> state.stage is Selecting
            && state.output.len() > 0 && (result matches Ok(n) ==> n <= state.output.len()),
        occurrence is Resized ==> state.stage is Resizing,
        occurrence is ChildPolled ==> state.stage is Polling,
        occurrence is Flushed ==> state.stage is Flushing,
        occurrence is ChildExited ==> state.stage is Reaping,
{
}

/// What a session asks for is what it then waits for.
pub proof fn stage_follows_from_step<E>(state: PumpState, occurrence: Occurrence<E>, now: nat)
    ensures
        ({
            let next = state.next(occurrence);
            let stage = state.after(occurrence, now).stage;
            &&& stage is Selecting <==> next is Select || next is Kill
            &&& stage is Resizing <==> next is Resize
            &&& stage is Polling <==> next is PollChild
            &&& stage is Draining <==> next is Drain
            &&& stage is Flushing <==> next is Flush
            &&& stage is Reaping <==> next is AwaitChild
            &&& stage is Done <==> next is Finish
        }),
{
}

/// There is room for hundreds of megabytes on their way to either side, and
/// always for everything which doesn't bring bytes.
pub proof fn buffers_have_room<E>(state: PumpState, occurrence: Occurrence<E>)
    ensures
        occurrence matches Occurrence::PtyRead(Ok(data)) ==> (state.output.len() + data.len()
            < 0x2000_0000 ==> state.has_room(occurrence)),
        occurrence matches Occurrence::TtyRead(Ok(data)) ==> (state.input.len() + data.len()
            < 0x2000_0000 ==> state.has_room(occurrence)),
        !(occurrence is PtyRead) && !(occurrence is TtyRead) ==> state.has_room(occurrence),
        occurrence matches Occurrence::PtyRead(Err(_)) ==> state.has_room(occurrence),
        occurrence matches Occurrence::TtyRead(Err(_)) ==> state.has_room(occurrence),
{
}

/// A read takes at most 128 KiB, and at most 1024 events pile up on their way
/// to the sinks.
pub proof fn session_limits()
    ensures
        BUF_SIZE == 128 * 1024,
        MAX_FORWARDED_EVENTS == 1024,
{
}

/// Nothing is lost between what happened and its model.
pub proof fn happenings_are_modelled<'a, E>(
    data: &'a [u8],
    error: E,
    written: Result<usize, E>,
    signal: Signal,
    size: TtySize,
    status: Result<WaitStatus, E>,
)
    ensures
        Happening::PtyRead(Ok::<&'a [u8], E>(data))@ == Occurrence::<E>::PtyRead(Ok(data@)),
        Happening::TtyRead(Ok::<&'a [u8], E>(data))@ == Occurrence::<E>::TtyRead(Ok(data@)),
        Happening::PtyRead(Err::<&'a [u8], E>(error))@ == Occurrence::<E>::PtyRead(Err(error)),
        Happening::TtyRead(Err::<&'a [u8], E>(error))@ == Occurrence::<E>::TtyRead(Err(error)),
        Happening::PtyWritten(written)@ == Occurrence::PtyWritten(written),
        Happening::TtyWritten(written)@ == Occurrence::TtyWritten(written),
        Happening::<'a, E>::Signal(signal)@ == Occurrence::<E>::Signal(signal),
        Happening::<'a, E>::Resized(size)@ == Occurrence::<E>::Resized(size),
        Happening::ChildPolled(status)@ == Occurrence::ChildPolled(status),
        Happening::<'a, E>::Flushed@ == Occurrence::<E>::Flushed,
        Happening::ChildExited(status)@ == Occurrence::ChildExited(status),
{
}

} // verus!
