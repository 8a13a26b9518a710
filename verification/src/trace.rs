//! What holds of a session from its start to any later point, whatever
//! happens in it.

use vstd::prelude::*;

use crate::pump::{Next, Occurrence, PumpState, WaitStatus};
use crate::session::{Recorded, SessionState};
use crate::tty::TtySize;
use crate::util::{decode, decoding_in_pieces};

verus! {

/// What happened in a session so far, each with the time passed since its
/// start.
pub type Trace<E> = Seq<(Occurrence<E>, nat)>;

/// Whether the clock a trace was taken with never runs backwards.
pub open spec fn monotonic<E>(trace: Trace<E>) -> bool {
    forall|i: int, j: int| 0 <= i <= j < trace.len() ==> (#[trigger] trace[i]).1 <= (
    #[trigger] trace[j]).1
}

/// The session after everything in the trace has happened.
pub open spec fn reached<E>(start: PumpState, trace: Trace<E>) -> PumpState
    decreases trace.len(),
{
    if trace.len() == 0 {
        start
    } else {
        reached(start, trace.drop_last()).after(trace.last().0, trace.last().1)
    }
}

/// Whether a session started this way was waiting for everything in the trace
/// when it happened.
pub open spec fn possible<E>(start: PumpState, trace: Trace<E>) -> bool
    decreases trace.len(),
{
    trace.len() > 0 ==> {
        &&& possible(start, trace.drop_last())
        &&& reached(start, trace.drop_last()).expects(trace.last().0)
    }
}

/// Everything recorded along the trace.
pub open spec fn recording<E>(start: PumpState, trace: Trace<E>) -> Seq<Recorded>
    decreases trace.len(),
{
    if trace.len() == 0 {
        Seq::empty()
    } else {
        let so_far = recording(start, trace.drop_last());
        match reached(start, trace.drop_last()).event(trace.last().0, trace.last().1) {
            Some(event) => so_far.push(event),
            None => so_far,
        }
    }
}

/// Everything the command wrote.
pub open spec fn written_by_command<E>(trace: Trace<E>) -> Seq<u8>
    decreases trace.len(),
{
    if trace.len() == 0 {
        Seq::empty()
    } else {
        let so_far = written_by_command(trace.drop_last());
        match trace.last().0 {
            Occurrence::PtyRead(Ok(data)) => so_far + data,
            _ => so_far,
        }
    }
}

/// Everything passed to the terminal, pending bytes taken from their front.
pub open spec fn shown_on_terminal<E>(start: PumpState, trace: Trace<E>) -> Seq<u8>
    decreases trace.len(),
{
    if trace.len() == 0 {
        Seq::empty()
    } else {
        let so_far = shown_on_terminal(start, trace.drop_last());
        match trace.last().0 {
            Occurrence::TtyWritten(Ok(n)) => so_far + reached(
                start,
                trace.drop_last(),
            ).output.take(n as int),
            _ => so_far,
        }
    }
}

/// Everything given to the terminal: what it took of the pending bytes while
/// the session went on, and the rest of them, written for good at the end.
pub open spec fn given_to_terminal<E>(start: PumpState, trace: Trace<E>) -> Seq<u8>
    decreases trace.len(),
{
    if trace.len() == 0 {
        Seq::empty()
    } else {
        let so_far = given_to_terminal(start, trace.drop_last());
        let before = reached(start, trace.drop_last());
        match trace.last().0 {
            Occurrence::TtyWritten(Ok(n)) => so_far + before.output.take(n as int),
            Occurrence::Flushed => so_far + before.output,
            _ => so_far,
        }
    }
}

/// Everything typed which is meant for the command.
pub open spec fn typed_for_command<E>(start: PumpState, trace: Trace<E>) -> Seq<u8>
    decreases trace.len(),
{
    if trace.len() == 0 {
        Seq::empty()
    } else {
        let so_far = typed_for_command(start, trace.drop_last());
        match trace.last().0 {
            Occurrence::TtyRead(Ok(data)) => if reached(start, trace.drop_last()).forwards(data) {
                so_far + data
            } else {
                so_far
            },
            _ => so_far,
        }
    }
}

/// Everything passed to the command, pending bytes taken from their front.
pub open spec fn passed_to_command<E>(start: PumpState, trace: Trace<E>) -> Seq<u8>
    decreases trace.len(),
{
    if trace.len() == 0 {
        Seq::empty()
    } else {
        let so_far = passed_to_command(start, trace.drop_last());
        match trace.last().0 {
            Occurrence::PtyWritten(Ok(n)) => so_far + reached(
                start,
                trace.drop_last(),
            ).input.take(n as int),
            _ => so_far,
        }
    }
}

/// The terminal shows what the command writes, in order, with nothing
/// lost, added or shown twice. What isn't shown yet is pending. Pausing the
/// recording makes no difference.
pub proof fn terminal_shows_output<E>(start: PumpState, trace: Trace<E>)
    requires
        start.output.len() == 0,
        possible(start, trace),
    ensures
        shown_on_terminal(start, trace) + reached(start, trace).output == written_by_command(trace),
    decreases trace.len(),
{
    if trace.len() == 0 {
        assert(shown_on_terminal(start, trace) + reached(start, trace).output
            =~= written_by_command(trace));
    } else {
        terminal_shows_output(start, trace.drop_last());
        let before = reached(start, trace.drop_last());
        assert(shown_on_terminal(start, trace) + reached(start, trace).output
            =~= written_by_command(trace)) by {
            if let Occurrence::TtyWritten(Ok(n)) = trace.last().0 {
                assert(before.output =~= before.output.take(n as int) + before.output.skip(
                    n as int,
                ));
            }
        }
    }
}

/// The command gets what is typed, shortcuts left out, in order, with
/// nothing lost, added or passed twice. What isn't passed yet is pending.
pub proof fn command_gets_input<E>(start: PumpState, trace: Trace<E>)
    requires
        start.input.len() == 0,
        possible(start, trace),
    ensures
        passed_to_command(start, trace) + reached(start, trace).input == typed_for_command(
            start,
            trace,
        ),
    decreases trace.len(),
{
    if trace.len() == 0 {
        assert(passed_to_command(start, trace) + reached(start, trace).input
            =~= typed_for_command(start, trace));
    } else {
        command_gets_input(start, trace.drop_last());
        let before = reached(start, trace.drop_last());
        assert(passed_to_command(start, trace) + reached(start, trace).input
            =~= typed_for_command(start, trace)) by {
            if let Occurrence::PtyWritten(Ok(n)) = trace.last().0 {
                assert(before.input =~= before.input.take(n as int) + before.input.skip(n as int));
            }
        }
    }
}

/// Whatever happens, session time doesn't run backwards, and the session
/// goes on keeping time, provided that the clock doesn't run backwards.
pub proof fn session_time_is_monotonic<E>(
    state: PumpState,
    occurrence: Occurrence<E>,
    now: nat,
    later: nat,
)
    requires
        state.session.keeps_time(now),
        now <= later,
    ensures
        state.after(occurrence, now).session.keeps_time(later),
        state.session.elapsed(now) <= state.after(occurrence, now).session.elapsed(later),
        state.event(occurrence, now) matches Some(event) ==> event.time() == state.session.elapsed(
            now,
        ),
{
}

/// With a clock which never runs backwards, a session can place every
/// moment of it in session time.
pub proof fn session_keeps_time<E>(start: PumpState, trace: Trace<E>, now: nat)
    requires
        start.session.keeps_time(0),
        monotonic(trace),
        trace.len() > 0 ==> trace.last().1 <= now,
    ensures
        reached(start, trace).session.keeps_time(now),
    decreases trace.len(),
{
    if trace.len() > 0 {
        session_keeps_time(start, trace.drop_last(), trace.last().1);
        session_time_is_monotonic(
            reached(start, trace.drop_last()),
            trace.last().0,
            trace.last().1,
            now,
        );
    }
}

/// Recorded events come in the order of their times, and none is later
/// than the current session time.
pub proof fn recording_is_in_order<E>(start: PumpState, trace: Trace<E>, now: nat)
    requires
        start.session.keeps_time(0),
        monotonic(trace),
        trace.len() > 0 ==> trace.last().1 <= now,
    ensures
        forall|i: int|
            0 <= i < recording(start, trace).len() ==> (#[trigger] recording(
                start,
                trace,
            )[i]).time() <= reached(start, trace).session.elapsed(now),
        forall|i: int, j: int|
            0 <= i <= j < recording(start, trace).len() ==> (#[trigger] recording(
                start,
                trace,
            )[i]).time() <= (#[trigger] recording(start, trace)[j]).time(),
    decreases trace.len(),
{
    if trace.len() > 0 {
        let earlier = trace.drop_last();
        let (occurrence, time) = trace.last();
        recording_is_in_order(start, earlier, time);
        session_keeps_time(start, earlier, time);
        session_time_is_monotonic(reached(start, earlier), occurrence, time, now);
        let so_far = recording(start, earlier);
        assert forall|i: int|
            0 <= i < recording(start, trace).len() implies (#[trigger] recording(
            start,
            trace,
        )[i]).time() <= reached(start, earlier).session.elapsed(time) by {
            if i < so_far.len() {
                assert(recording(start, trace)[i] == so_far[i]);
            }
        }
        assert forall|i: int, j: int|
            0 <= i <= j < recording(start, trace).len() implies (#[trigger] recording(
            start,
            trace,
        )[i]).time() <= (#[trigger] recording(start, trace)[j]).time() by {
            if j < so_far.len() {
                assert(recording(start, trace)[i] == so_far[i]);
                assert(recording(start, trace)[j] == so_far[j]);
            } else if i < so_far.len() {
                assert(recording(start, trace)[i] == so_far[i]);
            }
        }
    }
}

/// A pause takes exactly the time it lasts out of the session. It freezes
/// the session time, and once resumed the session goes on from there.
pub proof fn pause_is_left_out(
    session: SessionState,
    first: Seq<u8>,
    second: Seq<u8>,
    paused_at: nat,
    resumed_at: nat,
    later: nat,
)
    requires
        session.keeps_time(paused_at),
        session.pause_time is None,
        session.press(first) is Pause,
        session.after_input(first, paused_at).press(second) is Pause,
        paused_at <= resumed_at <= later,
    ensures
        ({
            let paused = session.after_input(first, paused_at);
            let resumed = paused.after_input(second, resumed_at);
            &&& paused.elapsed(later) == session.elapsed(paused_at)
            &&& resumed.elapsed(resumed_at) == session.elapsed(paused_at)
            &&& resumed.pause_time is None
            &&& resumed.time_offset == session.time_offset + (resumed_at - paused_at)
            &&& resumed.elapsed(later) + (resumed_at - paused_at) == session.elapsed(later)
        }),
{
}

/// While paused, neither output nor input is recorded, and what is
/// pending of either is kept as it is.
pub proof fn nothing_is_recorded_while_paused<E>(
    state: PumpState,
    occurrence: Occurrence<E>,
    now: nat,
)
    requires
        state.session.pause_time is Some,
    ensures
        state.event(occurrence, now) matches Some(event) ==> !(event is Output) && !(
        event is Input),
        state.after(occurrence, now).session.output_pending == state.session.output_pending,
        state.after(occurrence, now).session.input_pending == state.session.input_pending,
{
}

/// A session keeps its settings.
pub proof fn settings_are_kept<E>(start: PumpState, trace: Trace<E>)
    ensures
        reached(start, trace).session.capture_input == start.session.capture_input,
        reached(start, trace).session.keys == start.session.keys,
    decreases trace.len(),
{
    if trace.len() > 0 {
        settings_are_kept(start, trace.drop_last());
    }
}

/// A session which doesn't capture input records none.
pub proof fn input_is_recorded_only_when_captured<E>(start: PumpState, trace: Trace<E>)
    requires
        !start.session.capture_input,
    ensures
        forall|i: int|
            0 <= i < recording(start, trace).len() ==> !((#[trigger] recording(
                start,
                trace,
            )[i]) is Input),
    decreases trace.len(),
{
    if trace.len() > 0 {
        input_is_recorded_only_when_captured(start, trace.drop_last());
        settings_are_kept(start, trace.drop_last());
        let so_far = recording(start, trace.drop_last());
        assert forall|i: int| 0 <= i < recording(start, trace).len() implies !((
        #[trigger] recording(start, trace)[i]) is Input) by {
            if i < so_far.len() {
                assert(recording(start, trace)[i] == so_far[i]);
            }
        }
    }
}

/// A shortcut reaches neither the command nor the recording as input, and
/// anything else which is typed reaches the command unchanged.
pub proof fn shortcuts_are_kept_from_command<E>(state: PumpState, data: Seq<u8>, now: nat)
    requires
        data.len() > 0,
    ensures
        ({
            let typed = Occurrence::<E>::TtyRead(Ok(data));
            if state.session.press(data) is Plain {
                &&& state.after(typed, now).input == state.input + data
                &&& state.notice(typed) is None
            } else {
                &&& state.after(typed, now).input == state.input
                &&& state.event(typed, now) matches Some(event) ==> event is Marker
            }
        }),
{
}

/// With a prefix key bound, a shortcut works only right after it, and the
/// prefix key typed twice is meant for the command.
pub proof fn prefix_guards_shortcuts(session: SessionState, data: Seq<u8>, now: nat)
    requires
        session.keys.prefix is Some,
        !session.prefix_mode,
    ensures
        session.press(data) is Prefix || session.press(data) is Plain,
        session.press(data) is Prefix <==> session.keys.prefix == Some(data),
        session.press(data) is Prefix && session.keys.pause != Some(data)
            && session.keys.add_marker != Some(data) ==> session.after_input(data, now).press(
            data,
        ) is Plain,
        session.after_input(data, now).prefix_mode == (session.press(data) is Prefix),
{
}

/// Prefix mode lasts for one burst of input.
pub proof fn prefix_mode_lasts_one_press(session: SessionState, data: Seq<u8>, now: nat)
    requires
        session.prefix_mode,
    ensures
        !session.after_input(data, now).prefix_mode,
{
}

/// The size of the terminal is recorded when it changes, and only then.
pub proof fn size_is_recorded_once(session: SessionState, size: TtySize, now: nat, later: nat)
    ensures
        session.resize_event(size, now) is Some <==> size != session.tty_size,
        session.after_resize(size).resize_event(size, later) is None,
{
}

/// A session records its exit once, as its last event, with the status it
/// ends with, and only if it ends without an error of its own.
pub proof fn exit_is_recorded_last<E>(start: PumpState, trace: Trace<E>)
    requires
        !(start.stage is Done),
        possible(start, trace),
    ensures
        ({
            let events = recording(start, trace);
            &&& forall|i: int| 0 <= i < events.len() - 1 ==> !((#[trigger] events[i]) is Exit)
            &&& events.len() > 0 && events.last() is Exit ==> reached(start, trace).stage is Done
            &&& trace.len() > 0 ==> match reached(start, trace.drop_last()).next(trace.last().0) {
                Next::Finish(Ok(status)) => {
                    &&& events.len() > 0
                    &&& events.last() matches Recorded::Exit(_, code) && code == status
                },
                _ => events.len() > 0 ==> !(events.last() is Exit),
            }
        }),
    decreases trace.len(),
{
    if trace.len() > 0 {
        let earlier = trace.drop_last();
        exit_is_recorded_last(start, earlier);
        let so_far = recording(start, earlier);
        let events = recording(start, trace);
        assert(!(reached(start, earlier).stage is Done));
        assert forall|i: int| 0 <= i < events.len() - 1 implies !((#[trigger] events[i])
            is Exit) by {
            assert(events[i] == so_far[i]);
            if i == so_far.len() - 1 {
                assert(so_far.last() == so_far[i]);
            }
        }
    }
}

/// Whether the pending output was written to the terminal for good.
pub open spec fn flushed<E>(trace: Trace<E>) -> bool {
    exists|k: int| 0 <= k < trace.len() && (#[trigger] trace[k]).0 is Flushed
}

/// Whether the command was found to have ended this way.
pub open spec fn seen_to_end<E>(trace: Trace<E>, status: WaitStatus) -> bool {
    exists|k: int|
        0 <= k < trace.len() && ((#[trigger] trace[k]).0 == Occurrence::<E>::ChildPolled(Ok(status))
            || trace[k].0 == Occurrence::<E>::ChildExited(Ok(status)))
}

proof fn lemma_seen_so_far<E>(start: PumpState, trace: Trace<E>)
    requires
        start.stage is Selecting,
        start.wait_status is None,
        start.output.len() == 0,
        possible(start, trace),
    ensures
        reached(start, trace).stage is Reaping ==> reached(start, trace).output.len() == 0
            || flushed(trace),
        reached(start, trace).wait_status matches Some(status) ==> seen_to_end(trace, status),
        if flushed(trace) {
            &&& reached(start, trace).stage is Reaping || reached(start, trace).stage is Done
            &&& given_to_terminal(start, trace) == written_by_command(trace)
        } else {
            given_to_terminal(start, trace) + reached(start, trace).output == written_by_command(
                trace,
            )
        },
    decreases trace.len(),
{
    if trace.len() == 0 {
        assert(given_to_terminal(start, trace) + start.output =~= written_by_command(trace));
    } else {
        let earlier = trace.drop_last();
        let last = trace.len() - 1;
        let before = reached(start, earlier);
        lemma_seen_so_far(start, earlier);
        assert(trace[last] == trace.last());
        assert forall|k: int| 0 <= k < last implies #[trigger] trace[k] == earlier[k] by {}
        if let Some(status) = before.wait_status {
            let k = choose|k: int|
                0 <= k < earlier.len() && ((#[trigger] earlier[k]).0 == Occurrence::<
                    E,
                >::ChildPolled(Ok(status)) || earlier[k].0 == Occurrence::<E>::ChildExited(
                    Ok(status),
                ));
            assert(trace[k] == earlier[k]);
        }
        if flushed(earlier) {
            let k = choose|k: int| 0 <= k < earlier.len() && (#[trigger] earlier[k]).0 is Flushed;
            assert(trace[k] == earlier[k]);
        } else {
            if flushed(trace) {
                assert(trace.last().0 is Flushed);
            }
            if let Occurrence::TtyWritten(Ok(n)) = trace.last().0 {
                assert(before.output =~= before.output.take(n as int) + before.output.skip(
                    n as int,
                ));
            }
            if !(trace.last().0 is Flushed) {
                assert(given_to_terminal(start, trace) + reached(start, trace).output
                    =~= written_by_command(trace));
            }
        }
    }
}

/// A session which ends without an error of its own has seen its command end,
/// and reports the status it ended with. By then the terminal was given
/// everything the command wrote, in order, once.
pub proof fn finish_leaves_nothing_behind<E>(start: PumpState, trace: Trace<E>, status: i32)
    requires
        start.stage is Selecting,
        start.wait_status is None,
        start.output.len() == 0,
        possible(start, trace),
        trace.len() > 0,
        reached(start, trace.drop_last()).next(trace.last().0) == Next::<E>::Finish(Ok(status)),
    ensures
        exists|ended: WaitStatus| #[trigger]
            seen_to_end(trace, ended) && status == ended.spec_exit_status(),
        exists|ended: WaitStatus| #[trigger]
            seen_to_end(trace, ended) && (match ended {
                WaitStatus::Exited(code) => status == code,
                WaitStatus::Signaled(signal) => status == 128 + signal,
                _ => status == 1,
            }),
        given_to_terminal(start, trace) == written_by_command(trace),
{
    let earlier = trace.drop_last();
    let before = reached(start, earlier);
    lemma_seen_so_far(start, earlier);
    lemma_seen_so_far(start, trace);
    assert(trace[trace.len() - 1] == trace.last());
    if !flushed(trace) {
        if flushed(earlier) {
            let k = choose|k: int| 0 <= k < earlier.len() && (#[trigger] earlier[k]).0 is Flushed;
            assert(trace[k] == earlier[k]);
        }
        assert(reached(start, trace).output.len() == 0);
        assert(given_to_terminal(start, trace) + reached(start, trace).output
            =~= given_to_terminal(start, trace));
    }
    if let Occurrence::ChildExited(Ok(ended)) = trace.last().0 {
        assert(seen_to_end(trace, ended));
    } else {
        let ended = before.wait_status->0;
        assert(reached(start, trace).wait_status == Some(ended));
        assert(seen_to_end(trace, ended));
    }
}

/// The bytes the command wrote while the recording wasn't paused.
pub open spec fn written_while_recording<E>(start: PumpState, trace: Trace<E>) -> Seq<u8>
    decreases trace.len(),
{
    if trace.len() == 0 {
        Seq::empty()
    } else {
        let so_far = written_while_recording(start, trace.drop_last());
        match trace.last().0 {
            Occurrence::PtyRead(Ok(data)) => if reached(
                start,
                trace.drop_last(),
            ).session.pause_time is None {
                so_far + data
            } else {
                so_far
            },
            _ => so_far,
        }
    }
}

/// The bytes typed for the command while input was captured and the recording
/// wasn't paused.
pub open spec fn typed_while_captured<E>(start: PumpState, trace: Trace<E>) -> Seq<u8>
    decreases trace.len(),
{
    if trace.len() == 0 {
        Seq::empty()
    } else {
        let so_far = typed_while_captured(start, trace.drop_last());
        let before = reached(start, trace.drop_last());
        match trace.last().0 {
            Occurrence::TtyRead(Ok(data)) => if before.forwards(data)
                && before.session.capture_input && before.session.pause_time is None {
                so_far + data
            } else {
                so_far
            },
            _ => so_far,
        }
    }
}

/// The text of the output among recorded events.
pub open spec fn output_text(events: Seq<Recorded>) -> Seq<char>
    decreases events.len(),
{
    if events.len() == 0 {
        Seq::empty()
    } else {
        let so_far = output_text(events.drop_last());
        match events.last() {
            Recorded::Output(_, text) => so_far + text,
            _ => so_far,
        }
    }
}

/// The text of the input among recorded events.
pub open spec fn input_text(events: Seq<Recorded>) -> Seq<char>
    decreases events.len(),
{
    if events.len() == 0 {
        Seq::empty()
    } else {
        let so_far = input_text(events.drop_last());
        match events.last() {
            Recorded::Input(_, text) => so_far + text,
            _ => so_far,
        }
    }
}

proof fn lemma_text_of_pushed(events: Seq<Recorded>, event: Recorded)
    ensures
        output_text(events.push(event)) == (match event {
            Recorded::Output(_, text) => output_text(events) + text,
            _ => output_text(events),
        }),
        input_text(events.push(event)) == (match event {
            Recorded::Input(_, text) => input_text(events) + text,
            _ => input_text(events),
        }),
{
    assert(events.push(event).drop_last() =~= events);
}

/// The recorded output is the text of what the command wrote while the
/// recording wasn't paused, however its writes were cut into pieces. At most
/// an unfinished character at the very end is held back.
pub proof fn recording_shows_output<E>(start: PumpState, trace: Trace<E>)
    requires
        start.session.output_pending.len() == 0,
        possible(start, trace),
    ensures
        ({
            let written = decode(written_while_recording(start, trace));
            &&& output_text(recording(start, trace)) == written.0
            &&& reached(start, trace).session.output_pending == written.1
        }),
    decreases trace.len(),
{
    if trace.len() == 0 {
        assert(start.session.output_pending =~= Seq::empty());
    } else {
        let earlier = trace.drop_last();
        let (occurrence, now) = trace.last();
        let before = reached(start, earlier);
        let so_far = written_while_recording(start, earlier);
        recording_shows_output(start, earlier);
        if let Some(event) = before.event(occurrence, now) {
            lemma_text_of_pushed(recording(start, earlier), event);
        }
        if let Occurrence::PtyRead(Ok(data)) = occurrence {
            if before.session.pause_time is None {
                decoding_in_pieces(so_far, data);
                if data.len() == 0 {
                    assert(so_far + data =~= so_far);
                } else {
                    let text = decode(before.session.output_pending + data).0;
                    assert(text.len() == 0 ==> decode(so_far).0 + text =~= decode(so_far).0);
                }
            }
        }
    }
}

/// The recorded input is the text of what was typed for the command while
/// input was captured and the recording wasn't paused.
pub proof fn recording_shows_input<E>(start: PumpState, trace: Trace<E>)
    requires
        start.session.input_pending.len() == 0,
        possible(start, trace),
    ensures
        ({
            let typed = decode(typed_while_captured(start, trace));
            &&& input_text(recording(start, trace)) == typed.0
            &&& reached(start, trace).session.input_pending == typed.1
        }),
    decreases trace.len(),
{
    if trace.len() == 0 {
        assert(start.session.input_pending =~= Seq::empty());
    } else {
        let earlier = trace.drop_last();
        let (occurrence, now) = trace.last();
        let before = reached(start, earlier);
        let so_far = typed_while_captured(start, earlier);
        recording_shows_input(start, earlier);
        if let Some(event) = before.event(occurrence, now) {
            lemma_text_of_pushed(recording(start, earlier), event);
        }
        if let Occurrence::TtyRead(Ok(data)) = occurrence {
            if before.forwards(data) && before.session.capture_input
                && before.session.pause_time is None {
                decoding_in_pieces(so_far, data);
                let text = decode(before.session.input_pending + data).0;
                assert(text.len() == 0 ==> decode(so_far).0 + text =~= decode(so_far).0);
            }
        }
    }
}

/// A session is always waiting for what it asked for. While it selects, bytes
/// from either side and signals may come at any time, and pending bytes may be
/// passed on in pieces of any size.
pub proof fn session_expects_what_it_asked_for<E>(
    state: PumpState,
    occurrence: Occurrence<E>,
    now: nat,
)
    ensures
        ({
            let after = state.after(occurrence, now);
            match state.next(occurrence) {
                Next::Select | Next::Kill => {
                    &&& forall|read| #[trigger] after.expects(Occurrence::<E>::PtyRead(read))
                    &&& forall|read| #[trigger] after.expects(Occurrence::<E>::TtyRead(read))
                    &&& forall|signal| #[trigger] after.expects(Occurrence::<E>::Signal(signal))
                    &&& forall|n: usize|
                        #![trigger after.expects(Occurrence::<E>::PtyWritten(Ok(n)))]
                        0 < after.input.len() && n <= after.input.len() ==> after.expects(
                            Occurrence::<E>::PtyWritten(Ok(n)),
                        )
                    &&& forall|n: usize|
                        #![trigger after.expects(Occurrence::<E>::TtyWritten(Ok(n)))]
                        0 < after.output.len() && n <= after.output.len() ==> after.expects(
                            Occurrence::<E>::TtyWritten(Ok(n)),
                        )
                },
                Next::Resize => forall|size| #[trigger]
                    after.expects(Occurrence::<E>::Resized(size)),
                Next::PollChild => forall|polled| #[trigger]
                    after.expects(Occurrence::<E>::ChildPolled(polled)),
                Next::Drain => forall|read| #[trigger]
                    after.expects(Occurrence::<E>::PtyRead(read)),
                Next::Flush => after.expects(Occurrence::<E>::Flushed) && after.output.len() > 0,
                Next::AwaitChild => forall|exited| #[trigger]
                    after.expects(Occurrence::<E>::ChildExited(exited)),
                Next::Finish(_) => forall|any: Occurrence<E>| !#[trigger] after.expects(any),
            }
        }),
{
}

/// Once a poll has found the command to have ended, in whatever way, the
/// session never selects, polls or waits for it again. It remembers how the
/// command ended, and a session which then ends without an error ends with the
/// command's own status, or with that of the signal which killed it.
pub proof fn ended_command_ends_the_session<E>(
    start: PumpState,
    trace: Trace<E>,
    k: int,
    ended: WaitStatus,
)
    requires
        possible(start, trace),
        0 <= k < trace.len(),
        trace[k].0 == Occurrence::<E>::ChildPolled(Ok(ended)),
        !(ended is StillAlive),
    ensures
        reached(start, trace).wait_status == Some(ended),
        match reached(start, trace.drop_last()).next(trace.last().0) {
            Next::Drain => true,
            Next::Flush => true,
            Next::Finish(Ok(status)) => match ended {
                WaitStatus::Exited(code) => status == code,
                WaitStatus::Signaled(signal) => status == 128 + signal,
                _ => status == 1,
            },
            _ => false,
        },
        !(reached(start, trace).stage is Selecting),
        !(reached(start, trace).stage is Resizing),
        !(reached(start, trace).stage is Polling),
        !(reached(start, trace).stage is Reaping),
    decreases trace.len(),
{
    if k < trace.len() - 1 {
        assert(trace.drop_last()[k] == trace[k]);
        ended_command_ends_the_session(start, trace.drop_last(), k, ended);
    } else {
        assert(trace.last() == trace[k]);
    }
}

/// A session which reads the rest of the output never goes back: it flushes,
/// waits for the command and ends, in this order, without repeating or
/// exchanging any of it.
pub proof fn session_winds_down_in_order<E>(state: PumpState, occurrence: Occurrence<E>, now: nat)
    requires
        state.expects(occurrence),
    ensures
        ({
            let after = state.after(occurrence, now);
            &&& state.stage is Draining ==> after.stage is Draining || after.stage is Flushing
                || after.stage is Reaping || after.stage is Done
            &&& state.stage is Flushing ==> after.stage is Reaping || after.stage is Done
            &&& state.stage is Reaping ==> after.stage is Done
            &&& !(state.stage is Done)
        }),
{
}

/// Session time runs at the speed of the clock. Whatever happens, unless it
/// pauses or resumes the recording, all later moments are placed where they
/// would have been placed without it.
pub proof fn clock_is_left_alone<E>(
    state: PumpState,
    occurrence: Occurrence<E>,
    now: nat,
    later: nat,
)
    requires
        now <= later,
    ensures
        ({
            let before = state.session;
            let after = state.after(occurrence, now).session;
            (before.pause_time is None <==> after.pause_time is None) ==> after.elapsed(later)
                == before.elapsed(later)
        }),
{
}

/// How much of the time up to `now` the recording was paused: the time from
/// each thing which happened to the next one, wherever the first left the
/// recording paused.
pub open spec fn time_paused<E>(start: PumpState, trace: Trace<E>, now: nat) -> int
    decreases trace.len(),
{
    if trace.len() == 0 {
        0
    } else {
        let time = trace.last().1;
        time_paused(start, trace.drop_last(), time) + if reached(
            start,
            trace,
        ).session.pause_time is Some {
            now - time
        } else {
            0
        }
    }
}

/// Session time is the time since the start of the session without the pauses:
/// the two add up to the time on the clock, at any point.
pub proof fn session_time_leaves_out_pauses<E>(start: PumpState, trace: Trace<E>, now: nat)
    requires
        start.session.pause_time is None,
        start.session.time_offset == 0,
        monotonic(trace),
        trace.len() > 0 ==> trace.last().1 <= now,
    ensures
        reached(start, trace).session.elapsed(now) + time_paused(start, trace, now) == now,
    decreases trace.len(),
{
    if trace.len() > 0 {
        let earlier = trace.drop_last();
        let (occurrence, time) = trace.last();
        session_time_leaves_out_pauses(start, earlier, time);
        session_keeps_time(start, earlier, time);
        session_keeps_time(start, trace, now);
    }
}

/// How often the recording was paused or resumed.
pub open spec fn times_toggled<E>(start: PumpState, trace: Trace<E>) -> nat
    decreases trace.len(),
{
    if trace.len() == 0 {
        0
    } else {
        let so_far = times_toggled(start, trace.drop_last());
        match trace.last().0 {
            Occurrence::TtyRead(Ok(data)) => if data.len() > 0 && reached(
                start,
                trace.drop_last(),
            ).session.press(data) is Pause {
                so_far + 1
            } else {
                so_far
            },
            _ => so_far,
        }
    }
}

/// The recording is paused if and only if the pause key was pressed an odd
/// number of times.
pub proof fn pause_key_alternates<E>(start: PumpState, trace: Trace<E>)
    requires
        start.session.pause_time is None,
    ensures
        reached(start, trace).session.pause_time is Some <==> times_toggled(start, trace) % 2 == 1,
    decreases trace.len(),
{
    if trace.len() > 0 {
        pause_key_alternates(start, trace.drop_last());
    }
}

/// A key typed as a shortcut works. With no prefix key bound, or right after
/// it, the pause key pauses or resumes the recording, and the marker key,
/// unless it is the same, records a marker.
pub proof fn shortcuts_work<E>(state: PumpState, data: Seq<u8>, now: nat)
    requires
        data.len() > 0,
        state.session.prefix_mode || state.session.keys.prefix is None,
    ensures
        ({
            let typed = Occurrence::<E>::TtyRead(Ok(data));
            let before = state.session;
            let after = state.after(typed, now).session;
            &&& before.keys.pause == Some(data) ==> {
                &&& before.pause_time is None ==> after.pause_time == Some(before.elapsed(now))
                &&& before.pause_time is Some ==> after.pause_time is None
                &&& state.event(typed, now) is None
                &&& state.notice(typed) is Some
                &&& state.after(typed, now).input == state.input
            }
            &&& before.keys.pause != Some(data) && before.keys.add_marker == Some(data) ==> {
                &&& state.event(typed, now) matches Some(Recorded::Marker(time, label))
                &&& time == before.elapsed(now)
                &&& label.len() == 0
                &&& after.pause_time == before.pause_time
                &&& state.notice(typed) is Some
                &&& state.after(typed, now).input == state.input
            }
            &&& before.keys.pause != Some(data) && before.keys.add_marker != Some(data)
                ==> state.after(typed, now).input == state.input + data
        }),
{
}

/// How many markers are among recorded events.
pub open spec fn markers_in(events: Seq<Recorded>) -> nat
    decreases events.len(),
{
    if events.len() == 0 {
        0
    } else {
        markers_in(events.drop_last()) + if events.last() is Marker {
            1nat
        } else {
            0nat
        }
    }
}

/// How often a marker was asked for.
pub open spec fn times_marked<E>(start: PumpState, trace: Trace<E>) -> nat
    decreases trace.len(),
{
    if trace.len() == 0 {
        0
    } else {
        let so_far = times_marked(start, trace.drop_last());
        let before = reached(start, trace.drop_last()).session;
        match trace.last().0 {
            Occurrence::TtyRead(Ok(data)) => if data.len() > 0 && (before.prefix_mode
                || before.keys.prefix is None) && before.keys.pause != Some(data)
                && before.keys.add_marker == Some(data) {
                so_far + 1
            } else {
                so_far
            },
            _ => so_far,
        }
    }
}

/// Every marker which was asked for is recorded, even while paused, and no
/// other.
pub proof fn markers_are_recorded<E>(start: PumpState, trace: Trace<E>)
    requires
        possible(start, trace),
    ensures
        markers_in(recording(start, trace)) == times_marked(start, trace),
    decreases trace.len(),
{
    if trace.len() > 0 {
        let earlier = trace.drop_last();
        let so_far = recording(start, earlier);
        markers_are_recorded(start, earlier);
        if let Some(event) = reached(start, earlier).event(trace.last().0, trace.last().1) {
            assert(so_far.push(event).drop_last() =~= so_far);
        }
    }
}

/// The size the terminal has after everything in the trace.
pub open spec fn size_after<E>(size: TtySize, trace: Trace<E>) -> TtySize
    decreases trace.len(),
{
    if trace.len() == 0 {
        size
    } else {
        match trace.last().0 {
            Occurrence::Resized(resized) => resized,
            _ => size_after(size, trace.drop_last()),
        }
    }
}

/// The size recorded events leave the terminal with.
pub open spec fn recorded_size(size: TtySize, events: Seq<Recorded>) -> TtySize
    decreases events.len(),
{
    if events.len() == 0 {
        size
    } else {
        match events.last() {
            Recorded::Resize(_, resized) => resized,
            _ => recorded_size(size, events.drop_last()),
        }
    }
}

/// Going by the recording alone, the terminal has the size it really has, at
/// any point: the last size recorded, or the one it started with, is the one
/// last found.
pub proof fn recording_shows_size<E>(start: PumpState, trace: Trace<E>)
    requires
        possible(start, trace),
    ensures
        recorded_size(start.session.tty_size, recording(start, trace)) == size_after(
            start.session.tty_size,
            trace,
        ),
        reached(start, trace).session.tty_size == size_after(start.session.tty_size, trace),
    decreases trace.len(),
{
    if trace.len() > 0 {
        let earlier = trace.drop_last();
        let so_far = recording(start, earlier);
        recording_shows_size(start, earlier);
        if let Some(event) = reached(start, earlier).event(trace.last().0, trace.last().1) {
            assert(so_far.push(event).drop_last() =~= so_far);
        }
    }
}

/// A recorded event has the time and the contents of what happened. Sizes are
/// recorded as found, and no event comes out empty.
pub proof fn events_hold_what_happened<E>(state: PumpState, occurrence: Occurrence<E>, now: nat)
    requires
        state.expects(occurrence),
    ensures
        match state.event(occurrence, now) {
            Some(Recorded::Output(time, text)) => {
                &&& occurrence matches Occurrence::PtyRead(Ok(data))
                &&& time == state.session.elapsed(now)
                &&& text == decode(state.session.output_pending + data).0
                &&& text.len() > 0
            },
            Some(Recorded::Input(time, text)) => {
                &&& occurrence matches Occurrence::TtyRead(Ok(data))
                &&& time == state.session.elapsed(now)
                &&& text == decode(state.session.input_pending + data).0
                &&& text.len() > 0
            },
            Some(Recorded::Resize(time, size)) => {
                &&& occurrence == Occurrence::<E>::Resized(size)
                &&& time == state.session.elapsed(now)
            },
            Some(Recorded::Marker(time, label)) => {
                &&& occurrence is TtyRead
                &&& time == state.session.elapsed(now)
                &&& label.len() == 0
            },
            Some(Recorded::Exit(time, _)) => time == state.session.elapsed(now),
            None => true,
        },
{
}

} // verus!
