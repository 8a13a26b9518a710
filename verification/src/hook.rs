//! Commands fed with the live stream of a session.
//!
//! Neither [`LiveHook`] nor [`StreamWriter`] performs I/O of its own. Each says
//! what to do next, and is told what came of it.

use vstd::prelude::*;

use crate::session::{told, Event, Recorded};
use crate::sink::Sink;
use crate::spawn::{companion, shell, Context, ExitStatus, Launch, Stdio};

verus! {

/// How many session events may pile up for a hook which doesn't read its
/// standard input fast enough.
pub const MAX_QUEUED_EVENTS: usize = 128;

/// How many seconds a hook may keep running, after its standard input is
/// closed, before the user is told that it's being waited for.
pub const QUIET_WAIT_SECS: u64 = 2;

/// A command fed with the live asciicast v3 stream of a session.
#[derive(Debug)]
pub struct Hook(pub String);

impl Clone for Hook {
    fn clone(&self) -> (copy: Self)
        ensures
            copy.0@ == self.0@,
    {
        Hook(self.0.clone())
    }
}

impl Hook {
    /// Says how to spawn the hook: with its standard input piped, and its
    /// standard output discarded.
    pub fn spawn(&self, context: &Context) -> (launch: Launch)
        ensures
            launch@ == companion(self.0@, *context, Stdio::Piped, Stdio::Null),
            launch.program@ == "/bin/sh"@,
            launch.args@.len() == 2,
            launch.args@[0]@ == "-c"@,
            launch.args@[1]@ == self.0@,
            launch.stdin is Piped,
            launch.stdout is Null,
            launch.stderr is Piped,
            launch.kill_on_drop,
            launch.process_group == 0,
    {
        shell(self.0.as_str(), context, Stdio::Piped, Stdio::Null)
    }

    /// Makes a hook which was spawned a sink whose failure fails the session.
    pub fn start<O, E>(&self, spawned: Result<O, E>) -> (sink: Result<Sink<O>, E>)
        ensures
            match spawned {
                Ok(output) => sink == Ok::<Sink<O>, E>(Sink { output, essential: true }),
                Err(error) => sink == Err::<Sink<O>, E>(error),
            },
    {
        match spawned {
            Ok(output) => Ok(Sink::new(output).essential()),
            Err(error) => Err(error),
        }
    }
}

/// Why a hook failed.
#[derive(Debug)]
pub enum Fault<S, E> {
    /// Feeding it, or waiting for it, failed.
    Io(E),
    /// It didn't do what a hook should, as this message says.
    Hook(S),
}

impl<E> View for Fault<String, E> {
    type V = Fault<Seq<char>, E>;

    open spec fn view(&self) -> Fault<Seq<char>, E> {
        match *self {
            Fault::Io(error) => Fault::Io(error),
            Fault::Hook(message) => Fault::Hook(message@),
        }
    }
}

/// The model of what became of a hook.
pub open spec fn outcome<E>(result: Result<(), Fault<String, E>>) -> Result<
    (),
    Fault<Seq<char>, E>,
> {
    match result {
        Ok(()) => Ok(()),
        Err(fault) => Err(fault@),
    }
}

/// What to do next about a hook.
#[derive(Debug)]
pub enum HookStep<S, V, E> {
    /// Queue this event, unless the queue is full or nobody reads from it.
    Queue(V),
    /// Check whether the command has exited, without waiting.
    Check,
    /// Kill the command.
    Kill,
    /// Close the queue, and wait for the stream to be written.
    JoinWriter,
    /// Wait for the command, for [`QUIET_WAIT_SECS`] seconds at most.
    WaitQuietly,
    /// Tell the user this, and wait for the command for as long as it takes.
    WaitOn(S),
    /// Tell the user this.
    Notify(S),
    /// Return this.
    Return(Result<(), Fault<S, E>>),
}

impl<E> View for HookStep<String, Event, E> {
    type V = HookStep<Seq<char>, Recorded, E>;

    open spec fn view(&self) -> HookStep<Seq<char>, Recorded, E> {
        match *self {
            HookStep::Queue(event) => HookStep::Queue(event@),
            HookStep::Check => HookStep::Check,
            HookStep::Kill => HookStep::Kill,
            HookStep::JoinWriter => HookStep::JoinWriter,
            HookStep::WaitQuietly => HookStep::WaitQuietly,
            HookStep::WaitOn(text) => HookStep::WaitOn(text@),
            HookStep::Notify(text) => HookStep::Notify(text@),
            HookStep::Return(result) => HookStep::Return(outcome(result)),
        }
    }
}

/// What came of the last step. Where a command's status is known, it comes
/// with the last line the command has logged.
#[derive(Debug)]
pub enum Reply<S, E> {
    /// The event was queued, or not.
    Queued(bool),
    /// The command was checked on.
    Checked(Result<Option<ExitStatus<S>>, E>, Option<S>),
    /// The command was killed.
    Killed,
    /// The writer of the stream is done.
    Joined(Result<(), E>),
    /// The command didn't finish in time.
    TimedOut,
    /// The command was waited for.
    Waited(Result<ExitStatus<S>, E>, Option<S>),
    /// The user was told, or couldn't be.
    Notified,
}

/// The model of an exit status.
pub open spec fn status_model(status: ExitStatus<String>) -> ExitStatus<Seq<char>> {
    ExitStatus { success: status.success, text: status.text@ }
}

impl<E> View for Reply<String, E> {
    type V = Reply<Seq<char>, E>;

    open spec fn view(&self) -> Reply<Seq<char>, E> {
        match *self {
            Reply::Queued(queued) => Reply::Queued(queued),
            Reply::Checked(result, line) => Reply::Checked(
                match result {
                    Ok(Some(status)) => Ok(Some(status_model(status))),
                    Ok(None) => Ok(None),
                    Err(error) => Err(error),
                },
                told(line),
            ),
            Reply::Killed => Reply::Killed,
            Reply::Joined(result) => Reply::Joined(result),
            Reply::TimedOut => Reply::TimedOut,
            Reply::Waited(result, line) => Reply::Waited(
                match result {
                    Ok(status) => Ok(status_model(status)),
                    Err(error) => Err(error),
                },
                told(line),
            ),
            Reply::Notified => Reply::Notified,
        }
    }
}

/// What is being done about a hook. While it is shut down because it failed,
/// its failure is kept.
pub enum HookStage<S, V, E> {
    Idle,
    /// An event is being queued.
    Queueing(V),
    Checking,
    Killing(S),
    Joining(Option<S>),
    Waiting(Option<S>, Result<(), E>),
    WaitingOn(Option<S>, Result<(), E>),
    Notifying(S),
}

impl<E> View for HookStage<String, Ghost<Recorded>, E> {
    type V = HookStage<Seq<char>, Recorded, E>;

    open spec fn view(&self) -> HookStage<Seq<char>, Recorded, E> {
        match *self {
            HookStage::Idle => HookStage::Idle,
            HookStage::Queueing(event) => HookStage::Queueing(event@),
            HookStage::Checking => HookStage::Checking,
            HookStage::Killing(failure) => HookStage::Killing(failure@),
            HookStage::Joining(failure) => HookStage::Joining(told(failure)),
            HookStage::Waiting(failure, written) => HookStage::Waiting(told(failure), written),
            HookStage::WaitingOn(failure, written) => HookStage::WaitingOn(told(failure), written),
            HookStage::Notifying(failure) => HookStage::Notifying(failure@),
        }
    }
}

/// The message for a hook which exited with a non-zero status, including its
/// last stderr line, when it logged one.
pub open spec fn status_message(
    command: Seq<char>,
    status: Seq<char>,
    line: Option<Seq<char>>,
) -> Seq<char> {
    let message = "hook `"@ + command + "` "@ + status;
    match line {
        Some(line) => message + ": "@ + line,
        None => message,
    }
}

/// The message for a hook which doesn't keep up.
pub open spec fn lag_message(command: Seq<char>) -> Seq<char> {
    "hook `"@ + command + "` is not reading the session stream fast enough"@
}

/// Why a hook couldn't be fed. One which already exited on its own with an
/// error explains it by that.
pub open spec fn failure_message<E>(
    command: Seq<char>,
    check: Result<Option<ExitStatus<Seq<char>>>, E>,
    line: Option<Seq<char>>,
) -> Seq<char> {
    match check {
        Ok(Some(status)) if !status.success => status_message(command, status.text, line),
        _ => lag_message(command),
    }
}

/// What waiting for a hook says about it.
pub open spec fn wait_result<E>(
    command: Seq<char>,
    result: Result<ExitStatus<Seq<char>>, E>,
    line: Option<Seq<char>>,
) -> Result<(), Fault<Seq<char>, E>> {
    match result {
        Ok(status) => if status.success {
            Ok(())
        } else {
            Err(Fault::Hook(status_message(command, status.text, line)))
        },
        Err(error) => Err(Fault::Io(error)),
    }
}

/// What became of a hook which was shut down: how it ended comes before how
/// writing to it ended.
pub open spec fn shutdown_result<E>(
    waited: Result<(), Fault<Seq<char>, E>>,
    written: Result<(), E>,
) -> Result<(), Fault<Seq<char>, E>> {
    match waited {
        Ok(()) => match written {
            Ok(()) => Ok(()),
            Err(error) => Err(Fault::Io(error)),
        },
        Err(fault) => Err(fault),
    }
}

/// The model of a [`LiveHook`].
#[verifier::ext_equal]
pub struct HookState<E> {
    pub command: Seq<char>,
    /// Whether the queue of events, and with it the stream, is open.
    pub open: bool,
    pub stage: HookStage<Seq<char>, Recorded, E>,
    /// The events which were queued so far, the oldest first.
    pub accepted: Seq<Recorded>,
}

impl<E> HookState<E> {
    /// Whether nothing is being done about the hook.
    pub open spec fn is_idle(self) -> bool {
        self.stage is Idle
    }

    /// Whether this may have come of the last step.
    pub open spec fn expects(self, reply: Reply<Seq<char>, E>) -> bool {
        match reply {
            Reply::Queued(_) => self.stage is Queueing,
            Reply::Checked(_, _) => self.stage is Checking,
            Reply::Killed => self.stage is Killing,
            Reply::Joined(_) => self.stage is Joining,
            Reply::TimedOut => self.stage is Waiting,
            Reply::Waited(_, _) => self.stage is Waiting || self.stage is WaitingOn,
            Reply::Notified => self.stage is Notifying,
        }
    }

    /// The hook in another stage, with what to do there.
    pub open spec fn at(self, stage: HookStage<Seq<char>, Recorded, E>, step: HookStep<Seq<char>, Recorded, E>) -> (
        HookState<E>,
        HookStep<Seq<char>, Recorded, E>,
    ) {
        (HookState { stage, ..self }, step)
    }

    /// Feeds the hook with an event, as long as its queue is open.
    pub open spec fn feed(self, event: Recorded) -> (
        HookState<E>,
        HookStep<Seq<char>, Recorded, E>,
    ) {
        if self.open {
            self.at(HookStage::Queueing(event), HookStep::Queue(event))
        } else {
            self.at(HookStage::Checking, HookStep::Check)
        }
    }

    /// Shuts the hook down: closes its stream, and waits for it.
    pub open spec fn shut_down(self, failure: Option<Seq<char>>) -> (
        HookState<E>,
        HookStep<Seq<char>, Recorded, E>,
    ) {
        let closed = HookState { open: false, ..self };
        if self.open {
            closed.at(HookStage::Joining(failure), HookStep::JoinWriter)
        } else {
            closed.at(HookStage::Waiting(failure, Ok(())), HookStep::WaitQuietly)
        }
    }

    /// Leaves a hook which was shut down. One which failed is reported.
    pub open spec fn leave(
        self,
        failure: Option<Seq<char>>,
        result: Result<(), Fault<Seq<char>, E>>,
    ) -> (HookState<E>, HookStep<Seq<char>, Recorded, E>) {
        match failure {
            Some(message) => self.at(
                HookStage::Notifying(message),
                HookStep::Notify("Hook failed: "@ + message),
            ),
            None => self.at(HookStage::Idle, HookStep::Return(result)),
        }
    }

    /// Goes on with what came of the last step.
    pub open spec fn go_on(self, reply: Reply<Seq<char>, E>) -> (
        HookState<E>,
        HookStep<Seq<char>, Recorded, E>,
    ) {
        match (self.stage, reply) {
            (HookStage::Queueing(event), Reply::Queued(queued)) => if queued {
                let fed = HookState { accepted: self.accepted.push(event), ..self };
                fed.at(HookStage::Idle, HookStep::Return(Ok(())))
            } else {
                self.at(HookStage::Checking, HookStep::Check)
            },
            (HookStage::Checking, Reply::Checked(check, line)) => self.at(
                HookStage::Killing(failure_message(self.command, check, line)),
                HookStep::Kill,
            ),
            (HookStage::Killing(failure), Reply::Killed) => self.shut_down(Some(failure)),
            (HookStage::Joining(failure), Reply::Joined(written)) => self.at(
                HookStage::Waiting(failure, written),
                HookStep::WaitQuietly,
            ),
            (HookStage::Waiting(failure, written), Reply::TimedOut) => self.at(
                HookStage::WaitingOn(failure, written),
                HookStep::WaitOn("Waiting for hook to finish: "@ + self.command),
            ),
            (HookStage::Waiting(failure, written), Reply::Waited(result, line)) => self.leave(
                failure,
                shutdown_result(wait_result(self.command, result, line), written),
            ),
            (HookStage::WaitingOn(failure, written), Reply::Waited(result, line)) => self.leave(
                failure,
                shutdown_result(wait_result(self.command, result, line), written),
            ),
            (HookStage::Notifying(failure), Reply::Notified) => self.at(
                HookStage::Idle,
                HookStep::Return(Err(Fault::Hook(failure))),
            ),
            _ => (self, HookStep::Return(Ok(()))),
        }
    }
}

/// A running [`Hook`], fed by the session.
pub struct LiveHook<E> {
    command: String,
    open: bool,
    stage: HookStage<String, Ghost<Recorded>, E>,
    accepted: Ghost<Seq<Recorded>>,
}

impl<E> View for LiveHook<E> {
    type V = HookState<E>;

    closed spec fn view(&self) -> HookState<E> {
        HookState {
            command: self.command@,
            open: self.open,
            stage: self.stage@,
            accepted: self.accepted@,
        }
    }
}

impl<E> LiveHook<E> {
    /// A hook just spawned, with its queue open.
    pub fn new(hook: &Hook) -> (live: Self)
        ensures
            live@ == (HookState::<E> {
                command: hook.0@,
                open: true,
                stage: HookStage::Idle,
                accepted: Seq::empty(),
            }),
    {
        LiveHook {
            command: hook.0.clone(),
            open: true,
            stage: HookStage::Idle,
            accepted: Ghost(Seq::empty()),
        }
    }

    /// Tells whether nothing is being done about the hook.
    pub fn is_idle(&self) -> (idle: bool)
        ensures
            idle == self@.is_idle(),
            idle <==> self@.stage is Idle,
    {
        match self.stage {
            HookStage::Idle => true,
            _ => false,
        }
    }

    /// Tells whether this may have come of the last step.
    pub fn expects(&self, reply: &Reply<String, E>) -> (expected: bool)
        ensures
            expected == self@.expects(reply@),
    {
        match (reply, &self.stage) {
            (Reply::Queued(_), HookStage::Queueing(_)) => true,
            (Reply::Checked(_, _), HookStage::Checking) => true,
            (Reply::Killed, HookStage::Killing(_)) => true,
            (Reply::Joined(_), HookStage::Joining(_)) => true,
            (Reply::TimedOut, HookStage::Waiting(_, _)) => true,
            (Reply::Waited(_, _), HookStage::Waiting(_, _)) => true,
            (Reply::Waited(_, _), HookStage::WaitingOn(_, _)) => true,
            (Reply::Notified, HookStage::Notifying(_)) => true,
            _ => false,
        }
    }

    /// The message for a hook which exited with a non-zero status, including
    /// its last stderr line, when it logged one.
    pub fn status_error(&self, status: &ExitStatus<String>, line: &Option<String>) -> (message:
        String)
        ensures
            message@ == status_message(self@.command, status.text@, told(*line)),
            *line matches Some(last) ==> message@ == "hook `"@ + self@.command + "` "@
                + status.text@ + ": "@ + last@,
            (*line) is None ==> message@ == "hook `"@ + self@.command + "` "@ + status.text@,
    {
        let mut message = "hook `".to_owned();
        message.append(self.command.as_str());
        message.append("` ");
        message.append(status.text.as_str());
        if let Some(line) = line {
            message.append(": ");
            message.append(line.as_str());
        }
        message
    }

    fn lag_error(&self) -> (message: String)
        ensures
            message@ == lag_message(self@.command),
            message@ == "hook `"@ + self@.command
                + "` is not reading the session stream fast enough"@,
    {
        let mut message = "hook `".to_owned();
        message.append(self.command.as_str());
        message.append("` is not reading the session stream fast enough");
        message
    }

    /// Feeds the hook with an event. A hook which can't be fed is shut down,
    /// and the reason why it stopped is returned.
    pub fn event(&mut self, event: Event) -> (step: HookStep<String, Event, E>)
        requires
            old(self)@.is_idle(),
        ensures
            (final(self)@, step@) == old(self)@.feed(event@),
            old(self)@.open ==> step == HookStep::<String, Event, E>::Queue(event),
            !old(self)@.open ==> step is Check,
    {
        if self.open {
            self.stage = HookStage::Queueing(Ghost(event@));
            HookStep::Queue(event)
        } else {
            self.stage = HookStage::Checking;
            HookStep::Check
        }
    }

    /// Shuts the hook down, and returns what became of it.
    pub fn finish(&mut self) -> (step: HookStep<String, Event, E>)
        requires
            old(self)@.is_idle(),
        ensures
            (final(self)@, step@) == old(self)@.shut_down(None),
            !final(self)@.open,
            old(self)@.open ==> step is JoinWriter,
            !old(self)@.open ==> step is WaitQuietly,
    {
        self.shutdown()
    }

    /// Shuts the hook down: closes its queue, and with it the stream, and waits
    /// for the command.
    pub fn shutdown(&mut self) -> (step: HookStep<String, Event, E>)
        requires
            old(self)@.is_idle(),
        ensures
            (final(self)@, step@) == old(self)@.shut_down(None),
            !final(self)@.open,
            old(self)@.open ==> step is JoinWriter,
            !old(self)@.open ==> step is WaitQuietly,
            final(self)@.command == old(self)@.command,
            final(self)@.accepted == old(self)@.accepted,
    {
        self.begin_shutdown(None)
    }

    fn begin_shutdown(&mut self, failure: Option<String>) -> (step: HookStep<String, Event, E>)
        ensures
            (final(self)@, step@) == old(self)@.shut_down(told(failure)),
    {
        if self.open {
            self.open = false;
            self.stage = HookStage::Joining(failure);
            HookStep::JoinWriter
        } else {
            self.stage = HookStage::Waiting(failure, Ok(()));
            HookStep::WaitQuietly
        }
    }

    fn leave(&mut self, failure: Option<String>, result: Result<(), Fault<String, E>>) -> (step:
        HookStep<String, Event, E>)
        ensures
            (final(self)@, step@) == old(self)@.leave(told(failure), outcome(result)),
    {
        match failure {
            Some(message) => {
                let mut text = "Hook failed: ".to_owned();
                text.append(message.as_str());
                self.stage = HookStage::Notifying(message);
                HookStep::Notify(text)
            },
            None => {
                self.stage = HookStage::Idle;
                HookStep::Return(result)
            },
        }
    }

    /// What waiting for the hook, and writing to it, say about it.
    fn verdict(
        &self,
        result: Result<ExitStatus<String>, E>,
        line: &Option<String>,
        written: Result<(), E>,
    ) -> (verdict: Result<(), Fault<String, E>>)
        ensures
            outcome(verdict) == shutdown_result(
                wait_result(
                    self@.command,
                    (match result {
                        Ok(status) => Ok(status_model(status)),
                        Err(error) => Err(error),
                    }),
                    told(*line),
                ),
                written,
            ),
    {
        match result {
            Ok(status) => {
                if status.success {
                    match written {
                        Ok(()) => Ok(()),
                        Err(error) => Err(Fault::Io(error)),
                    }
                } else {
                    Err(Fault::Hook(self.status_error(&status, line)))
                }
            },
            Err(error) => Err(Fault::Io(error)),
        }
    }

    /// Takes in what came of the last step, and says what to do next.
    pub fn go_on(&mut self, reply: Reply<String, E>) -> (step: HookStep<String, Event, E>)
        requires
            old(self)@.expects(reply@),
        ensures
            (final(self)@, step@) == old(self)@.go_on(reply@),
            final(self)@.command == old(self)@.command,
            !(reply is Killed) ==> final(self)@.open == old(self)@.open,
    {
        let mut stage: HookStage<String, Ghost<Recorded>, E> = HookStage::Idle;
        std::mem::swap(&mut stage, &mut self.stage);
        match (stage, reply) {
            (HookStage::Queueing(event), Reply::Queued(queued)) => {
                if queued {
                    self.accepted = Ghost(self.accepted@.push(event@));
                    HookStep::Return(Ok(()))
                } else {
                    self.stage = HookStage::Checking;
                    HookStep::Check
                }
            },
            (HookStage::Checking, Reply::Checked(check, line)) => {
                let failure = match &check {
                    Ok(Some(status)) => if status.success {
                        self.lag_error()
                    } else {
                        self.status_error(status, &line)
                    },
                    _ => self.lag_error(),
                };
                self.stage = HookStage::Killing(failure);
                HookStep::Kill
            },
            (HookStage::Killing(failure), Reply::Killed) => self.begin_shutdown(Some(failure)),
            (HookStage::Joining(failure), Reply::Joined(written)) => {
                self.stage = HookStage::Waiting(failure, written);
                HookStep::WaitQuietly
            },
            (HookStage::Waiting(failure, written), Reply::TimedOut) => {
                let mut text = "Waiting for hook to finish: ".to_owned();
                text.append(self.command.as_str());
                self.stage = HookStage::WaitingOn(failure, written);
                HookStep::WaitOn(text)
            },
            (HookStage::Waiting(failure, written), Reply::Waited(result, line)) => {
                let verdict = self.verdict(result, &line, written);
                self.leave(failure, verdict)
            },
            (HookStage::WaitingOn(failure, written), Reply::Waited(result, line)) => {
                let verdict = self.verdict(result, &line, written);
                self.leave(failure, verdict)
            },
            (HookStage::Notifying(failure), Reply::Notified) => HookStep::Return(
                Err(Fault::Hook(failure)),
            ),
            _ => HookStep::Return(Ok(())),
        }
    }
}

/// A hook which can't be fed is killed, shut down and reported, in this
/// order. What is returned is why it couldn't be fed, however the shutdown goes
/// and however long it takes.
pub proof fn unfed_hook_is_taken_down<E>(
    hook: HookState<E>,
    event: Recorded,
    check: Result<Option<ExitStatus<Seq<char>>>, E>,
    line: Option<Seq<char>>,
    written: Result<(), E>,
    slow: bool,
    waited: Result<ExitStatus<Seq<char>>, E>,
    last_line: Option<Seq<char>>,
)
    requires
        hook.is_idle(),
    ensures
        ({
            let message = failure_message(hook.command, check, line);
            let fed = hook.feed(event);
            let unfed = if hook.open {
                fed.0.go_on(Reply::Queued(false))
            } else {
                fed
            };
            let checked = unfed.0.go_on(Reply::Checked(check, line));
            let killed = checked.0.go_on(Reply::Killed);
            let closed = if hook.open {
                killed.0.go_on(Reply::Joined(written))
            } else {
                killed
            };
            let late = if slow {
                closed.0.go_on(Reply::TimedOut)
            } else {
                closed
            };
            let gone = late.0.go_on(Reply::Waited(waited, last_line));
            let reported = gone.0.go_on(Reply::Notified);
            &&& hook.open ==> fed.1 == HookStep::<Seq<char>, Recorded, E>::Queue(event)
            &&& unfed.1 is Check
            &&& checked.1 is Kill
            &&& hook.open ==> killed.1 is JoinWriter
            &&& closed.1 is WaitQuietly
            &&& slow ==> late.1 == HookStep::<Seq<char>, Recorded, E>::WaitOn(
                "Waiting for hook to finish: "@ + hook.command,
            )
            &&& gone.1 == HookStep::<Seq<char>, Recorded, E>::Notify("Hook failed: "@ + message)
            &&& reported.1 == HookStep::<Seq<char>, Recorded, E>::Return(Err(Fault::Hook(message)))
            &&& reported.0 == (HookState::<E> { open: false, ..hook })
        }),
{
}

/// Finishing a hook closes its stream, then waits for it, however long it
/// takes. It succeeds when the hook exited successfully and took in all of the
/// stream. Otherwise how the hook ended explains more than how writing to it
/// ended.
pub proof fn finished_hook_is_waited_for<E>(
    hook: HookState<E>,
    written: Result<(), E>,
    slow: bool,
    waited: Result<ExitStatus<Seq<char>>, E>,
    line: Option<Seq<char>>,
)
    requires
        hook.is_idle(),
        hook.open,
    ensures
        ({
            let begun = hook.shut_down(None);
            let closed = begun.0.go_on(Reply::Joined(written));
            let late = if slow {
                closed.0.go_on(Reply::TimedOut)
            } else {
                closed
            };
            let gone = late.0.go_on(Reply::Waited(waited, line));
            &&& begun.1 is JoinWriter
            &&& closed.1 is WaitQuietly
            &&& gone.0 == (HookState::<E> { open: false, ..hook })
            &&& gone.1 matches HookStep::Return(result) && match waited {
                Err(error) => result == Err::<(), Fault<Seq<char>, E>>(Fault::Io(error)),
                Ok(status) => if !status.success {
                    result == Err::<(), Fault<Seq<char>, E>>(
                        Fault::Hook(status_message(hook.command, status.text, line)),
                    )
                } else {
                    match written {
                        Err(error) => result == Err::<(), Fault<Seq<char>, E>>(Fault::Io(error)),
                        Ok(()) => result is Ok,
                    }
                },
            }
        }),
{
}

/// Once the queue of a hook is closed, it is never opened again, and no
/// event is put in it.
pub proof fn closed_queue_stays_closed<E>(
    hook: HookState<E>,
    event: Recorded,
    reply: Reply<Seq<char>, E>,
)
    requires
        !hook.open,
    ensures
        !hook.feed(event).0.open,
        !(hook.feed(event).1 is Queue),
        !hook.shut_down(None).0.open,
        !hook.go_on(reply).0.open,
        !(hook.go_on(reply).1 is Queue),
{
}

/// Whether a hook is waiting for what may come of a step. With nothing left to
/// be done, it is idle.
pub open spec fn awaits<E>(hook: HookState<E>, step: HookStep<Seq<char>, Recorded, E>) -> bool {
    match step {
        HookStep::Queue(_) => forall|queued| #[trigger]
            hook.expects(Reply::<Seq<char>, E>::Queued(queued)),
        HookStep::Check => forall|check, line| #[trigger]
            hook.expects(Reply::<Seq<char>, E>::Checked(check, line)),
        HookStep::Kill => hook.expects(Reply::<Seq<char>, E>::Killed),
        HookStep::JoinWriter => forall|written| #[trigger]
            hook.expects(Reply::<Seq<char>, E>::Joined(written)),
        HookStep::WaitQuietly => {
            &&& hook.expects(Reply::<Seq<char>, E>::TimedOut)
            &&& forall|waited, line| #[trigger]
                hook.expects(Reply::<Seq<char>, E>::Waited(waited, line))
        },
        HookStep::WaitOn(_) => forall|waited, line| #[trigger]
            hook.expects(Reply::<Seq<char>, E>::Waited(waited, line)),
        HookStep::Notify(_) => hook.expects(Reply::<Seq<char>, E>::Notified),
        HookStep::Return(_) => hook.is_idle(),
    }
}

/// A hook is always waiting for what it asked for, and is idle again once it
/// has returned.
pub proof fn hook_expects_what_it_asked_for<E>(
    hook: HookState<E>,
    event: Recorded,
    reply: Reply<Seq<char>, E>,
)
    ensures
        awaits(hook.feed(event).0, hook.feed(event).1),
        awaits(hook.shut_down(None).0, hook.shut_down(None).1),
        hook.expects(reply) ==> awaits(hook.go_on(reply).0, hook.go_on(reply).1),
{
}

/// What the writer of a stream is waiting for.
#[derive(Clone, Copy, Debug, PartialEq, Eq, Structural)]
pub enum WriterStage {
    WritingHeader,
    Receiving,
    WritingEvent,
    Closing,
    Done,
}

/// What to do next about a stream.
#[derive(Debug)]
pub enum WriterStep<V, E> {
    /// Write the header.
    WriteHeader,
    /// Wait for an event, or for the queue to be closed.
    Receive,
    /// Encode this event, and write it.
    WriteEvent(V),
    /// Close the stream.
    Close,
    /// Return this.
    Return(Result<(), E>),
}

impl<E> View for WriterStep<Event, E> {
    type V = WriterStep<Recorded, E>;

    open spec fn view(&self) -> WriterStep<Recorded, E> {
        match *self {
            WriterStep::WriteHeader => WriterStep::WriteHeader,
            WriterStep::Receive => WriterStep::Receive,
            WriterStep::WriteEvent(event) => WriterStep::WriteEvent(event@),
            WriterStep::Close => WriterStep::Close,
            WriterStep::Return(result) => WriterStep::Return(result),
        }
    }
}

/// What came of the last step about a stream.
#[derive(Debug)]
pub enum WriterReply<V, E> {
    /// The header or an event was written.
    Written(Result<(), E>),
    /// An event came, or the queue was closed.
    Received(Option<V>),
    /// The stream was closed.
    Closed(Result<(), E>),
}

impl<E> View for WriterReply<Event, E> {
    type V = WriterReply<Recorded, E>;

    open spec fn view(&self) -> WriterReply<Recorded, E> {
        match *self {
            WriterReply::Written(result) => WriterReply::Written(result),
            WriterReply::Received(event) => WriterReply::Received(
                crate::session::recorded(event),
            ),
            WriterReply::Closed(result) => WriterReply::Closed(result),
        }
    }
}

impl WriterStage {
    /// Whether this may have come of the last step.
    pub open spec fn spec_expects<E>(self, reply: WriterReply<Recorded, E>) -> bool {
        match reply {
            WriterReply::Written(_) => self is WritingHeader || self is WritingEvent,
            WriterReply::Received(_) => self is Receiving,
            WriterReply::Closed(_) => self is Closing,
        }
    }
}

/// What the writer of a stream does about a reply, and what it waits for then.
pub open spec fn writer_goes_on<E>(reply: WriterReply<Recorded, E>) -> (
    WriterStage,
    WriterStep<Recorded, E>,
) {
    match reply {
        WriterReply::Written(Ok(())) => (WriterStage::Receiving, WriterStep::Receive),
        WriterReply::Written(Err(error)) => (WriterStage::Done, WriterStep::Return(Err(error))),
        WriterReply::Received(Some(event)) => (
            WriterStage::WritingEvent,
            WriterStep::WriteEvent(event),
        ),
        WriterReply::Received(None) => (WriterStage::Closing, WriterStep::Close),
        WriterReply::Closed(result) => (WriterStage::Done, WriterStep::Return(result)),
    }
}

/// Feeds the session stream to a hook's standard input until the session
/// closes the queue.
#[derive(Debug)]
pub struct StreamWriter {
    stage: WriterStage,
}

impl View for StreamWriter {
    type V = WriterStage;

    closed spec fn view(&self) -> WriterStage {
        self.stage
    }
}

impl StreamWriter {
    /// A writer about to write. Its first step is [`WriterStep::WriteHeader`].
    pub fn new() -> (writer: Self)
        ensures
            writer@ == WriterStage::WritingHeader,
    {
        StreamWriter { stage: WriterStage::WritingHeader }
    }

    /// Tells whether this may have come of the last step.
    pub fn expects<E>(&self, reply: &WriterReply<Event, E>) -> (expected: bool)
        ensures
            expected == self@.spec_expects(reply@),
    {
        match reply {
            WriterReply::Written(_) => self.stage == WriterStage::WritingHeader || self.stage
                == WriterStage::WritingEvent,
            WriterReply::Received(_) => self.stage == WriterStage::Receiving,
            WriterReply::Closed(_) => self.stage == WriterStage::Closing,
        }
    }

    /// Takes in what came of the last step, and says what to do next.
    pub fn go_on<E>(&mut self, reply: WriterReply<Event, E>) -> (step: WriterStep<Event, E>)
        requires
            old(self)@.spec_expects(reply@),
        ensures
            (final(self)@, step@) == writer_goes_on(reply@),
            reply matches WriterReply::Received(Some(event)) ==> step == WriterStep::<
                Event,
                E,
            >::WriteEvent(event),
    {
        match reply {
            WriterReply::Written(Ok(())) => {
                self.stage = WriterStage::Receiving;
                WriterStep::Receive
            },
            WriterReply::Written(Err(error)) => {
                self.stage = WriterStage::Done;
                WriterStep::Return(Err(error))
            },
            WriterReply::Received(Some(event)) => {
                self.stage = WriterStage::WritingEvent;
                WriterStep::WriteEvent(event)
            },
            WriterReply::Received(None) => {
                self.stage = WriterStage::Closing;
                WriterStep::Close
            },
            WriterReply::Closed(result) => {
                self.stage = WriterStage::Done;
                WriterStep::Return(result)
            },
        }
    }
}

/// What the writer of a stream waits for after some replies.
pub open spec fn writer_reached<E>(replies: Seq<WriterReply<Recorded, E>>) -> WriterStage {
    if replies.len() == 0 {
        WriterStage::WritingHeader
    } else {
        writer_goes_on(replies.last()).0
    }
}

/// Whether the writer of a stream was waiting for each reply when it came.
pub open spec fn writer_possible<E>(replies: Seq<WriterReply<Recorded, E>>) -> bool
    decreases replies.len(),
{
    replies.len() > 0 ==> {
        &&& writer_possible(replies.drop_last())
        &&& writer_reached(replies.drop_last()).spec_expects(replies.last())
    }
}

/// Everything the writer of a stream was told to do.
pub open spec fn writer_steps<E>(replies: Seq<WriterReply<Recorded, E>>) -> Seq<
    WriterStep<Recorded, E>,
> {
    seq![WriterStep::WriteHeader] + replies.map_values(
        |reply: WriterReply<Recorded, E>| writer_goes_on(reply).1,
    )
}

/// The events which came out of the queue.
pub open spec fn events_received<E>(replies: Seq<WriterReply<Recorded, E>>) -> Seq<Recorded>
    decreases replies.len(),
{
    if replies.len() == 0 {
        Seq::empty()
    } else {
        let so_far = events_received(replies.drop_last());
        match replies.last() {
            WriterReply::Received(Some(event)) => so_far.push(event),
            _ => so_far,
        }
    }
}

/// The events which are to be written.
pub open spec fn events_written<E>(steps: Seq<WriterStep<Recorded, E>>) -> Seq<Recorded>
    decreases steps.len(),
{
    if steps.len() == 0 {
        Seq::empty()
    } else {
        let so_far = events_written(steps.drop_last());
        match steps.last() {
            WriterStep::WriteEvent(event) => so_far.push(event),
            _ => so_far,
        }
    }
}

/// A stream starts with its header, which is written once. After it come
/// the events of the session, all of them, once each, in the order they were
/// queued.
pub proof fn stream_holds_header_and_events<E>(replies: Seq<WriterReply<Recorded, E>>)
    requires
        writer_possible(replies),
    ensures
        writer_steps(replies)[0] is WriteHeader,
        forall|i: int|
            0 < i < writer_steps(replies).len() ==> !((#[trigger] writer_steps(replies)[i])
                is WriteHeader),
        events_written(writer_steps(replies)) == events_received(replies),
    decreases replies.len(),
{
    let steps = writer_steps(replies);
    if replies.len() == 0 {
        assert(steps.drop_last() =~= Seq::empty());
        assert(steps.last() is WriteHeader);
        assert(events_written(steps.drop_last()) =~= Seq::empty());
    } else {
        stream_holds_header_and_events(replies.drop_last());
        assert(steps.drop_last() =~= writer_steps(replies.drop_last()));
        assert(steps.last() == writer_goes_on(replies.last()).1);
    }
}

/// A stream is closed only once the session has closed the queue, and is
/// reported as written only when all writes, and closing it, went well.
pub proof fn stream_is_written_when_all_went_well<E>(replies: Seq<WriterReply<Recorded, E>>)
    requires
        writer_possible(replies),
        replies.len() > 0,
        writer_goes_on(replies.last()).1 == WriterStep::<Recorded, E>::Return(Ok(())),
    ensures
        replies.last() == WriterReply::<Recorded, E>::Closed(Ok(())),
        replies.len() >= 2,
        replies[replies.len() - 2] == WriterReply::<Recorded, E>::Received(None),
        forall|i: int|
            0 <= i < replies.len() ==> !(#[trigger] replies[i] matches WriterReply::Written(
                Err(_),
            )),
{
    let earlier = replies.drop_last();
    assert(earlier.last() == replies[replies.len() - 2]);
    lemma_writer_not_failed(earlier);
    assert forall|i: int| 0 <= i < replies.len() implies !(
    #[trigger] replies[i] matches WriterReply::Written(Err(_))) by {
        if i < earlier.len() {
            assert(earlier[i] == replies[i]);
        }
    }
}

proof fn lemma_writer_not_failed<E>(replies: Seq<WriterReply<Recorded, E>>)
    requires
        writer_possible(replies),
        !(writer_reached(replies) is Done),
    ensures
        forall|i: int|
            0 <= i < replies.len() ==> !(#[trigger] replies[i] matches WriterReply::Written(
                Err(_),
            )),
    decreases replies.len(),
{
    if replies.len() > 0 {
        let earlier = replies.drop_last();
        lemma_writer_not_failed(earlier);
        assert forall|i: int| 0 <= i < replies.len() implies !(
        #[trigger] replies[i] matches WriterReply::Written(Err(_))) by {
            if i < earlier.len() {
                assert(earlier[i] == replies[i]);
            }
        }
    }
}

/// The writer of a stream is always waiting for what it asked for.
pub proof fn writer_expects_what_it_asked_for<E>(reply: WriterReply<Recorded, E>)
    ensures
        ({
            let (stage, step) = writer_goes_on(reply);
            match step {
                WriterStep::WriteHeader => false,
                WriterStep::Receive => forall|event| #[trigger]
                    stage.spec_expects(WriterReply::<Recorded, E>::Received(event)),
                WriterStep::WriteEvent(_) => forall|written| #[trigger]
                    stage.spec_expects(WriterReply::<Recorded, E>::Written(written)),
                WriterStep::Close => forall|closed| #[trigger]
                    stage.spec_expects(WriterReply::<Recorded, E>::Closed(closed)),
                WriterStep::Return(_) => stage is Done,
            }
        }),
{
}

/// An event counts as accepted when it was queued, which is when feeding it to
/// the hook returns `Ok`. Nothing else changes which events were accepted, and
/// an event which can't be queued makes feeding it return an error.
pub proof fn accepted_events_were_fed<E>(hook: HookState<E>, event: Recorded)
    requires
        hook.is_idle(),
    ensures
        hook.open ==> {
            let queued = hook.feed(event).0.go_on(Reply::Queued(true));
            &&& hook.feed(event).1 == HookStep::<Seq<char>, Recorded, E>::Queue(event)
            &&& queued.1 == HookStep::<Seq<char>, Recorded, E>::Return(Ok(()))
            &&& queued.0 == (HookState::<E> { accepted: hook.accepted.push(event), ..hook })
        },
        hook.feed(event).0.accepted == hook.accepted,
        hook.shut_down(None).0.accepted == hook.accepted,
        forall|busy: HookState<E>, reply: Reply<Seq<char>, E>|
            reply != Reply::<Seq<char>, E>::Queued(true) ==> (#[trigger] busy.go_on(
                reply,
            )).0.accepted == busy.accepted,
{
}

/// Whether the queue of a hook gives its events out the way a queue does: in
/// the order they were accepted, and all of them before the writer is told that
/// the queue is closed.
pub open spec fn given_out_in_order<E>(
    accepted: Seq<Recorded>,
    replies: Seq<WriterReply<Recorded, E>>,
) -> bool {
    &&& events_received(replies).is_prefix_of(accepted)
    &&& replies.contains(WriterReply::<Recorded, E>::Received(None)) ==> events_received(replies)
        == accepted
}

/// Shutting a hook down closes its queue, and nothing else is waited for until
/// the writer of the stream is done. Only then the command is waited for. The
/// hook keeps its command.
///
/// When the shutdown succeeds, the command was given the header, and then all
/// accepted events, in order and nothing more, and its standard input was
/// closed, all before it was waited for. When it doesn't, it was given the
/// header and at most the first of the accepted events, in order.
pub proof fn shutdown_hands_over_accepted_events<E>(
    hook: HookState<E>,
    replies: Seq<WriterReply<Recorded, E>>,
    written: Result<(), E>,
    slow: bool,
    waited: Result<ExitStatus<Seq<char>>, E>,
    line: Option<Seq<char>>,
)
    requires
        hook.is_idle(),
        hook.open,
        writer_possible(replies),
        given_out_in_order(hook.accepted, replies),
        writer_steps(replies).last() == WriterStep::<Recorded, E>::Return(written),
    ensures
        ({
            let begun = hook.shut_down(None);
            let closed = begun.0.go_on(Reply::Joined(written));
            let late = if slow {
                closed.0.go_on(Reply::TimedOut)
            } else {
                closed
            };
            let gone = late.0.go_on(Reply::Waited(waited, line));
            let steps = writer_steps(replies);
            &&& begun.1 is JoinWriter
            &&& !begun.0.open
            &&& forall|reply: Reply<Seq<char>, E>| #[trigger]
                begun.0.expects(reply) ==> reply is Joined
            &&& closed.1 is WaitQuietly
            &&& gone.0 == (HookState::<E> { open: false, ..hook })
            &&& steps[0] is WriteHeader
            &&& forall|i: int| 0 < i < steps.len() ==> !((#[trigger] steps[i]) is WriteHeader)
            &&& events_written(steps).is_prefix_of(hook.accepted)
            &&& gone.1 == HookStep::<Seq<char>, Recorded, E>::Return(Ok(())) ==> {
                &&& events_written(steps) == hook.accepted
                &&& steps.len() >= 3
                &&& steps[steps.len() - 2] is Close
                &&& steps.last() == WriterStep::<Recorded, E>::Return(Ok(()))
            }
        }),
{
    let steps = writer_steps(replies);
    let last = replies.len() - 1;
    stream_holds_header_and_events(replies);
    assert(replies.len() > 0) by {
        if replies.len() == 0 {
            assert(steps.last() is WriteHeader);
        }
    }
    assert(steps.last() == writer_goes_on(replies.last()).1);
    if let Ok(unit) = written {
        assert(unit == ());
        stream_is_written_when_all_went_well(replies);
        assert(replies[last - 1] == WriterReply::<Recorded, E>::Received(None));
        assert(replies.contains(WriterReply::<Recorded, E>::Received(None)));
        assert(steps[steps.len() - 2] == writer_goes_on(replies[last - 1]).1);
    }
}

/// Why a hook couldn't be fed is put into words: what it exited with, when it
/// exited with an error, and what it logged last, or else that it is too slow.
/// The command is always quoted as it is.
pub proof fn hook_failures_are_explained<E>(
    command: Seq<char>,
    check: Result<Option<ExitStatus<Seq<char>>>, E>,
    status: ExitStatus<Seq<char>>,
    line: Option<Seq<char>>,
    text: Seq<char>,
)
    ensures
        status_message(command, text, None) == "hook `"@ + command + "` "@ + text,
        line matches Some(last) ==> status_message(command, text, line) == status_message(
            command,
            text,
            None,
        ) + ": "@ + last,
        lag_message(command) == "hook `"@ + command
            + "` is not reading the session stream fast enough"@,
        check == Ok::<Option<ExitStatus<Seq<char>>>, E>(Some(status)) && !status.success
            ==> failure_message(command, check, line) == status_message(
            command,
            status.text,
            line,
        ),
        check == Ok::<Option<ExitStatus<Seq<char>>>, E>(Some(status)) && status.success
            ==> failure_message(command, check, line) == "hook `"@ + command
            + "` is not reading the session stream fast enough"@,
        check == Ok::<Option<ExitStatus<Seq<char>>>, E>(None) || check is Err ==> failure_message(
            command,
            check,
            line,
        ) == "hook `"@ + command + "` is not reading the session stream fast enough"@,
{
}

/// What became of a hook: it succeeded if it exited successfully and its stream
/// was written. A failure is, in this order, that of waiting for it, that of
/// the hook itself, and that of writing to it.
pub proof fn hook_outcome_is_decided<E>(
    command: Seq<char>,
    waited: Result<ExitStatus<Seq<char>>, E>,
    line: Option<Seq<char>>,
    written: Result<(), E>,
)
    ensures
        ({
            let result = shutdown_result(wait_result(command, waited, line), written);
            &&& result is Ok <==> written is Ok && (waited matches Ok(status) && status.success)
            &&& waited matches Err(error) ==> result == Err::<(), Fault<Seq<char>, E>>(
                Fault::Io(error),
            )
            &&& waited matches Ok(status) ==> {
                &&& !status.success && line is None ==> result == Err::<(), Fault<Seq<char>, E>>(
                    Fault::Hook("hook `"@ + command + "` "@ + status.text),
                )
                &&& !status.success ==> (line matches Some(last) ==> result == Err::<
                    (),
                    Fault<Seq<char>, E>,
                >(Fault::Hook("hook `"@ + command + "` "@ + status.text + ": "@ + last)))
                &&& status.success ==> (written matches Err(error) ==> result == Err::<
                    (),
                    Fault<Seq<char>, E>,
                >(Fault::Io(error)))
            }
        }),
{
    if let Ok(unit) = written {
        assert(unit == ());
    }
}

/// Finishing a hook whose stream is closed already goes straight to waiting for
/// it, and returns how it ended.
pub proof fn closed_hook_is_waited_for<E>(
    hook: HookState<E>,
    slow: bool,
    waited: Result<ExitStatus<Seq<char>>, E>,
    line: Option<Seq<char>>,
)
    requires
        hook.is_idle(),
        !hook.open,
    ensures
        ({
            let begun = hook.shut_down(None);
            let late = if slow {
                begun.0.go_on(Reply::TimedOut)
            } else {
                begun
            };
            let gone = late.0.go_on(Reply::Waited(waited, line));
            &&& begun.1 is WaitQuietly
            &&& slow ==> late.1 == HookStep::<Seq<char>, Recorded, E>::WaitOn(
                "Waiting for hook to finish: "@ + hook.command,
            )
            &&& gone.0 == hook
            &&& gone.1 matches HookStep::Return(result) && match waited {
                Err(error) => result == Err::<(), Fault<Seq<char>, E>>(Fault::Io(error)),
                Ok(status) => if status.success {
                    result is Ok
                } else {
                    result matches Err(Fault::Hook(message)) && message == "hook `"@
                        + hook.command + "` "@ + status.text + match line {
                        Some(last) => ": "@ + last,
                        None => Seq::empty(),
                    }
                },
            }
        }),
{
    if let Ok(status) = waited {
        if let Some(last) = line {
            assert("hook `"@ + hook.command + "` "@ + status.text + ": "@ + last =~= "hook `"@
                + hook.command + "` "@ + status.text + (": "@ + last));
        } else {
            assert("hook `"@ + hook.command + "` "@ + status.text + Seq::empty() =~= "hook `"@
                + hook.command + "` "@ + status.text);
        }
    }
}

/// A hook which takes long to finish is waited for all the same, and the user
/// is told once.
pub proof fn user_is_told_of_slow_hooks<E>(
    hook: HookState<E>,
    failure: Option<Seq<char>>,
    written: Result<(), E>,
)
    requires
        hook.stage == HookStage::<Seq<char>, Recorded, E>::Waiting(failure, written),
    ensures
        ({
            let late = hook.go_on(Reply::TimedOut);
            &&& late.1 == HookStep::<Seq<char>, Recorded, E>::WaitOn(
                "Waiting for hook to finish: "@ + hook.command,
            )
            &&& late.0.stage == HookStage::<Seq<char>, Recorded, E>::WaitingOn(failure, written)
            &&& !late.0.expects(Reply::TimedOut)
        }),
{
}

/// A hook keeps its command. Its queue is closed by shutting it down, or once it
/// was killed, and by nothing else.
pub proof fn queue_is_closed_by_shutting_down<E>(
    hook: HookState<E>,
    event: Recorded,
    failure: Option<Seq<char>>,
    reply: Reply<Seq<char>, E>,
)
    ensures
        hook.feed(event).0.command == hook.command,
        hook.feed(event).0.open == hook.open,
        hook.shut_down(failure).0.command == hook.command,
        !hook.shut_down(failure).0.open,
        hook.shut_down(failure).0.accepted == hook.accepted,
        hook.go_on(reply).0.command == hook.command,
        !(reply is Killed) ==> hook.go_on(reply).0.open == hook.open,
        reply is Killed && hook.expects(reply) ==> !hook.go_on(reply).0.open,
{
}

/// A hook waits for nothing it didn't ask for.
pub proof fn hook_awaits_one_thing<E>(hook: HookState<E>, reply: Reply<Seq<char>, E>)
    ensures
        hook.is_idle() <==> hook.stage is Idle,
        hook.expects(reply) ==> {
            &&& reply is Queued <==> hook.stage is Queueing
            &&& reply is Checked <==> hook.stage is Checking
            &&& reply is Killed <==> hook.stage is Killing
            &&& reply is Joined <==> hook.stage is Joining
            &&& reply is TimedOut ==> hook.stage is Waiting
            &&& reply is Waited ==> hook.stage is Waiting || hook.stage is WaitingOn
            &&& reply is Notified <==> hook.stage is Notifying
            &&& !(hook.stage is Idle)
        },
{
}

/// The writer of a stream starts with the header, and writes what came out of
/// the queue, as long as writing goes well. It ends with the first error, or
/// with what came of closing the stream.
pub proof fn writer_does_what_is_due<E>(reply: WriterReply<Recorded, E>, event: Recorded, error: E)
    ensures
        ({
            let step = writer_goes_on(reply).1;
            &&& step is Receive <==> (reply matches WriterReply::Written(Ok(_)))
            &&& step == WriterStep::<Recorded, E>::WriteEvent(event) <==> reply
                == WriterReply::<Recorded, E>::Received(Some(event))
            &&& step is Close <==> reply == WriterReply::<Recorded, E>::Received(None)
            &&& step == WriterStep::<Recorded, E>::Return(Err(error)) <==> reply == WriterReply::<
                Recorded,
                E,
            >::Written(Err(error)) || reply == WriterReply::<Recorded, E>::Closed(Err(error))
            &&& step == WriterStep::<Recorded, E>::Return(Ok(())) <==> reply == WriterReply::<
                Recorded,
                E,
            >::Closed(Ok(()))
        }),
{
}

/// The writer of a stream waits for nothing it didn't ask for. At first that is
/// for the header to be written, and at last nothing.
pub proof fn writer_awaits_one_thing<E>(stage: WriterStage, reply: WriterReply<Recorded, E>)
    ensures
        stage.spec_expects(reply) <==> match stage {
            WriterStage::WritingHeader => reply is Written,
            WriterStage::Receiving => reply is Received,
            WriterStage::WritingEvent => reply is Written,
            WriterStage::Closing => reply is Closed,
            WriterStage::Done => false,
        },
{
}

/// The first error of a stream ends it: nothing is written after it, and it is
/// what the writer returns.
pub proof fn failed_stream_ends<E>(
    replies: Seq<WriterReply<Recorded, E>>,
    k: int,
    error: E,
)
    requires
        writer_possible(replies),
        0 <= k < replies.len(),
        replies[k] == WriterReply::<Recorded, E>::Written(Err(error)),
    ensures
        k == replies.len() - 1,
        writer_steps(replies).last() == WriterStep::<Recorded, E>::Return(Err(error)),
    decreases replies.len(),
{
    let earlier = replies.drop_last();
    if k < replies.len() - 1 {
        assert(earlier[k] == replies[k]);
        failed_stream_ends(earlier, k, error);
        assert(earlier.last() == replies[k]);
    } else {
        assert(replies.last() == replies[k]);
        assert(writer_steps(replies).last() == writer_goes_on(replies.last()).1);
    }
}

/// A hook may lag behind by 128 events, and is waited for in silence for two
/// seconds.
pub proof fn hook_limits()
    ensures
        MAX_QUEUED_EVENTS == 128,
        QUIET_WAIT_SECS == 2,
{
}

/// Nothing is lost between a step and its model.
pub proof fn hook_steps_are_modelled<E>(event: Event, text: String, error: E)
    ensures
        HookStep::<String, Event, E>::Queue(event)@ == HookStep::<Seq<char>, Recorded, E>::Queue(
            event@,
        ),
        HookStep::<String, Event, E>::Check@ is Check,
        HookStep::<String, Event, E>::Kill@ is Kill,
        HookStep::<String, Event, E>::JoinWriter@ is JoinWriter,
        HookStep::<String, Event, E>::WaitQuietly@ is WaitQuietly,
        HookStep::<String, Event, E>::WaitOn(text)@ == HookStep::<
            Seq<char>,
            Recorded,
            E,
        >::WaitOn(text@),
        HookStep::<String, Event, E>::Notify(text)@ == HookStep::<
            Seq<char>,
            Recorded,
            E,
        >::Notify(text@),
        HookStep::<String, Event, E>::Return(Ok(()))@ == HookStep::<
            Seq<char>,
            Recorded,
            E,
        >::Return(Ok(())),
        HookStep::<String, Event, E>::Return(Err(Fault::Io(error)))@ == HookStep::<
            Seq<char>,
            Recorded,
            E,
        >::Return(Err(Fault::Io(error))),
        HookStep::<String, Event, E>::Return(Err(Fault::Hook(text)))@ == HookStep::<
            Seq<char>,
            Recorded,
            E,
        >::Return(Err(Fault::Hook(text@))),
{
}

/// Nothing is lost between a reply and its model.
pub proof fn hook_replies_are_modelled<E>(
    queued: bool,
    status: ExitStatus<String>,
    line: Option<String>,
    written: Result<(), E>,
    error: E,
)
    ensures
        status_model(status).success == status.success,
        status_model(status).text == status.text@,
        Reply::<String, E>::Queued(queued)@ == Reply::<Seq<char>, E>::Queued(queued),
        Reply::<String, E>::Checked(Ok(Some(status)), line)@ == Reply::<Seq<char>, E>::Checked(
            Ok(Some(status_model(status))),
            told(line),
        ),
        Reply::<String, E>::Checked(Ok(None), line)@ == Reply::<Seq<char>, E>::Checked(
            Ok(None),
            told(line),
        ),
        Reply::<String, E>::Checked(Err(error), line)@ == Reply::<Seq<char>, E>::Checked(
            Err(error),
            told(line),
        ),
        Reply::<String, E>::Killed@ is Killed,
        Reply::<String, E>::Joined(written)@ == Reply::<Seq<char>, E>::Joined(written),
        Reply::<String, E>::TimedOut@ is TimedOut,
        Reply::<String, E>::Waited(Ok(status), line)@ == Reply::<Seq<char>, E>::Waited(
            Ok(status_model(status)),
            told(line),
        ),
        Reply::<String, E>::Waited(Err(error), line)@ == Reply::<Seq<char>, E>::Waited(
            Err(error),
            told(line),
        ),
        Reply::<String, E>::Notified@ is Notified,
{
}

/// Nothing is lost between the steps and replies about a stream and their
/// models.
pub proof fn stream_is_modelled<E>(event: Event, result: Result<(), E>)
    ensures
        WriterStep::<Event, E>::WriteHeader@ is WriteHeader,
        WriterStep::<Event, E>::Receive@ is Receive,
        WriterStep::<Event, E>::WriteEvent(event)@ == WriterStep::<Recorded, E>::WriteEvent(
            event@,
        ),
        WriterStep::<Event, E>::Close@ is Close,
        WriterStep::<Event, E>::Return(result)@ == WriterStep::<Recorded, E>::Return(result),
        WriterReply::<Event, E>::Written(result)@ == WriterReply::<Recorded, E>::Written(result),
        WriterReply::<Event, E>::Received(Some(event))@ == WriterReply::<Recorded, E>::Received(
            Some(event@),
        ),
        WriterReply::<Event, E>::Received(None)@ == WriterReply::<Recorded, E>::Received(None),
        WriterReply::<Event, E>::Closed(result)@ == WriterReply::<Recorded, E>::Closed(result),
{
}

} // verus!
