use asciinema::pump::{run_result, Failure, Happening, Next, Pump, Signal, Step, WaitStatus};
use asciinema::session::{Event, KeyBindings};
use asciinema::time::Duration;
use asciinema::tty::TtySize;

fn pump(capture_input: bool) -> Pump {
    Pump::new(capture_input, KeyBindings::default(), TtySize(80, 24))
}

fn feed(pump: &mut Pump, happening: Happening<&'static str>, nanos: u128) -> Step<&'static str> {
    let now = Duration { nanos };
    assert!(pump.accepts(&happening, now));
    pump.step(happening, now)
}

fn is_select(step: &Step<&'static str>) -> bool {
    matches!(step.next, Next::Select)
}

#[test]
fn output_goes_to_the_terminal_and_the_recording() {
    let mut pump = pump(false);
    let step = feed(&mut pump, Happening::PtyRead(Ok(b"hello")), 4);
    assert!(is_select(&step));
    assert!(matches!(step.event, Some(Event::Output(time, text)) if time.nanos == 4 && text == "hello"));
    assert_eq!(step.notice, None);
    assert_eq!(pump.pending_output(), b"hello");
    feed(&mut pump, Happening::TtyWritten(Ok(2)), 5);
    assert_eq!(pump.pending_output(), b"llo");
    feed(&mut pump, Happening::PtyRead(Ok(b" world")), 6);
    assert_eq!(pump.pending_output(), b"llo world");
    feed(&mut pump, Happening::TtyWritten(Ok(9)), 7);
    assert_eq!(pump.pending_output(), b"");
    assert_eq!(pump.pending_input(), b"");
}

#[test]
fn input_goes_to_the_command_shortcuts_left_out() {
    let mut pump = pump(true);
    let step = feed(&mut pump, Happening::TtyRead(Ok(b"ls\n")), 1);
    assert!(matches!(step.event, Some(Event::Input(_, text)) if text == "ls\n"));
    let step = feed(&mut pump, Happening::TtyRead(Ok(&[0x1c])), 2);
    assert!(step.event.is_none());
    assert_eq!(step.notice, Some("Paused recording".to_owned()));
    feed(&mut pump, Happening::TtyRead(Ok(b"pwd\n")), 3);
    assert_eq!(pump.pending_input(), b"ls\npwd\n");
    feed(&mut pump, Happening::PtyWritten(Ok(3)), 4);
    assert_eq!(pump.pending_input(), b"pwd\n");
}

#[test]
fn paused_output_still_shows() {
    let mut pump = pump(false);
    feed(&mut pump, Happening::TtyRead(Ok(&[0x1c])), 1);
    let step = feed(&mut pump, Happening::PtyRead(Ok(b"shown")), 2);
    assert!(step.event.is_none());
    assert_eq!(pump.pending_output(), b"shown");
}

#[test]
fn nothing_pending_means_nothing_written() {
    let pump = pump(false);
    let now = Duration { nanos: 0 };
    assert!(!pump.accepts(&Happening::<()>::PtyWritten(Ok(0)), now));
    assert!(!pump.accepts(&Happening::<()>::TtyWritten(Ok(0)), now));
    assert!(!pump.accepts(&Happening::<()>::Flushed, now));
    assert!(pump.accepts(&Happening::<()>::Signal(Signal::Alrm), now));
}

#[test]
fn more_than_pending_is_never_written() {
    let mut pump = pump(false);
    feed(&mut pump, Happening::PtyRead(Ok(b"abc")), 1);
    let now = Duration { nanos: 2 };
    assert!(!pump.accepts(&Happening::<()>::TtyWritten(Ok(4)), now));
    assert!(pump.accepts(&Happening::<()>::TtyWritten(Ok(3)), now));
}

#[test]
fn signals_are_acted_upon() {
    for (signal, expected) in [
        (Signal::Winch, "resize"),
        (Signal::Int, "kill"),
        (Signal::Term, "kill"),
        (Signal::Quit, "kill"),
        (Signal::Hup, "kill"),
        (Signal::Alrm, "select"),
        (Signal::Chld, "poll"),
        (Signal::Other, "select"),
    ] {
        let step = feed(&mut pump(false), Happening::Signal(signal), 1);
        let next = match step.next {
            Next::Resize => "resize",
            Next::Kill => "kill",
            Next::Select => "select",
            Next::PollChild => "poll",
            other => panic!("{other:?}"),
        };
        assert_eq!(next, expected);
    }
}

#[test]
fn resizing_is_recorded() {
    let mut pump = pump(false);
    feed(&mut pump, Happening::Signal(Signal::Winch), 1);
    let step = feed(&mut pump, Happening::Resized(TtySize(100, 30)), 2);
    assert!(is_select(&step));
    assert!(matches!(step.event, Some(Event::Resize(_, size)) if size == TtySize(100, 30)));
}

#[test]
fn command_found_done_ends_the_session() {
    let mut pump = pump(false);
    feed(&mut pump, Happening::Signal(Signal::Chld), 1);
    let step = feed(&mut pump, Happening::ChildPolled(Ok(WaitStatus::StillAlive)), 2);
    assert!(is_select(&step));
    feed(&mut pump, Happening::Signal(Signal::Chld), 3);
    let step = feed(&mut pump, Happening::ChildPolled(Err("no child")), 4);
    assert!(is_select(&step));
    feed(&mut pump, Happening::Signal(Signal::Chld), 5);
    let step = feed(&mut pump, Happening::ChildPolled(Ok(WaitStatus::Exited(3))), 6);
    assert!(matches!(step.next, Next::Drain));

    // What is left is read, shown, and only then the session ends.
    let step = feed(&mut pump, Happening::PtyRead(Ok(b"bye")), 7);
    assert!(matches!(step.next, Next::Drain));
    assert!(step.event.is_some());
    let step = feed(&mut pump, Happening::PtyRead(Err("closed")), 8);
    assert!(matches!(step.next, Next::Flush));
    assert_eq!(pump.pending_output(), b"bye");
    let step = feed(&mut pump, Happening::Flushed, 9);
    assert!(matches!(step.next, Next::Finish(Ok(3))));
    assert!(matches!(step.event, Some(Event::Exit(time, 3)) if time.nanos == 9));
    assert!(!pump.accepts(&Happening::<()>::Flushed, Duration { nanos: 10 }));
}

#[test]
fn closed_sides_end_the_session() {
    for from_terminal in [true, false] {
        let mut pump = pump(false);
        let closed = if from_terminal {
            Happening::TtyRead(Ok(b"".as_slice()))
        } else {
            Happening::PtyRead(Ok(b"".as_slice()))
        };
        let step = feed(&mut pump, closed, 1);
        assert!(matches!(step.next, Next::Drain));
        let step = feed(&mut pump, Happening::PtyRead(Ok(b"")), 2);
        assert!(matches!(step.next, Next::AwaitChild));
        let step = feed(&mut pump, Happening::ChildExited(Ok(WaitStatus::Signaled(9))), 3);
        assert!(matches!(step.next, Next::Finish(Ok(137))));
        assert!(matches!(step.event, Some(Event::Exit(_, 137))));
    }
}

#[test]
fn errors_end_the_session_without_an_exit_event() {
    let mut broken: Vec<(Pump, Happening<&'static str>)> = vec![
        (pump(false), Happening::PtyRead(Err("broken"))),
        (pump(false), Happening::TtyRead(Err("broken"))),
    ];
    let mut busy = pump(false);
    feed(&mut busy, Happening::PtyRead(Ok(b"x")), 1);
    broken.push((busy, Happening::TtyWritten(Err("broken"))));
    let mut busy = pump(false);
    feed(&mut busy, Happening::TtyRead(Ok(b"x")), 1);
    broken.push((busy, Happening::PtyWritten(Err("broken"))));
    let mut busy = pump(false);
    feed(&mut busy, Happening::TtyRead(Ok(b"")), 1);
    feed(&mut busy, Happening::PtyRead(Ok(b"")), 1);
    broken.push((busy, Happening::ChildExited(Err("broken"))));
    for (mut pump, happening) in broken {
        let step = feed(&mut pump, happening, 2);
        assert!(matches!(step.next, Next::Finish(Err("broken"))));
        assert!(step.event.is_none());
    }
}

#[test]
fn exit_statuses() {
    assert_eq!(WaitStatus::Exited(0).exit_status(), 0);
    assert_eq!(WaitStatus::Exited(255).exit_status(), 255);
    assert_eq!(WaitStatus::Signaled(2).exit_status(), 130);
    assert_eq!(WaitStatus::StillAlive.exit_status(), 1);
    assert_eq!(WaitStatus::Other.exit_status(), 1);
}

#[test]
fn failures_have_an_order_of_precedence() {
    type Outcome = Result<i32, Failure<&'static str, &'static str, &'static str>>;
    let all_well: Outcome = run_result(Ok(5), Ok(None));
    assert!(matches!(all_well, Ok(5)));
    let sink: Outcome = run_result(Ok(5), Ok(Some("sink")));
    assert!(matches!(sink, Err(Failure::Sink("sink"))));
    let own: Outcome = run_result(Err("session"), Ok(Some("sink")));
    assert!(matches!(own, Err(Failure::Session("session"))));
    let own: Outcome = run_result(Err("session"), Ok(None));
    assert!(matches!(own, Err(Failure::Session("session"))));
    for ended in [Ok(5), Err("session")] {
        let forwarder: Outcome = run_result(ended, Err("forwarder"));
        assert!(matches!(forwarder, Err(Failure::Forwarder("forwarder"))));
    }
}
