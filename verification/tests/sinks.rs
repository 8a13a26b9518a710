use asciinema::forward::{ForwardReply, ForwardStep, Forwarder};
use asciinema::pump::{Happening, Next, Pump, Signal, WaitStatus};
use asciinema::session::{Event, KeyBindings};
use asciinema::sink::{Fanout, Sink};
use asciinema::time::Duration;
use asciinema::tty::TtySize;

/// How a [`TestOutput`] fails, when it does.
#[derive(Clone, Copy, PartialEq)]
enum Fails {
    Events,
    Finish,
}

/// An output which remembers what it was fed, and can be made to fail.
struct TestOutput {
    events: Vec<Event>,
    fail: Option<Fails>,
}

impl TestOutput {
    fn new(fail: Option<Fails>) -> Self {
        TestOutput { events: Vec::new(), fail }
    }

    fn event(&mut self, event: Event) -> Result<(), &'static str> {
        if self.fail == Some(Fails::Events) {
            return Err("event failed");
        }
        self.events.push(event);
        Ok(())
    }

    fn finish(&mut self) -> Result<(), &'static str> {
        if self.fail == Some(Fails::Finish) {
            Err("finish failed")
        } else {
            Ok(())
        }
    }
}

type TestFanout = Fanout<TestOutput, &'static str>;

fn deliver(fanout: &mut TestFanout, event: &Event) -> Vec<&'static str> {
    let results = fanout
        .sinks
        .iter_mut()
        .map(|sink| sink.output.event(event.clone()))
        .collect();
    fanout.delivered(results)
}

/// Extracts inputs or outputs from the recorded test events.
fn extract_texts(events: &[Event], is_input: bool) -> Vec<String> {
    events
        .iter()
        .filter_map(|e| match (is_input, e) {
            (true, Event::Input(_, text)) => Some(text.clone()),
            (false, Event::Output(_, text)) => Some(text.clone()),
            _ => None,
        })
        .collect()
}

/// Runs a session whose command reads a single line from the terminal, and
/// then exits.
fn read_line(input: &'static [u8], capture_input: bool, fanout: &mut TestFanout) -> i32 {
    let mut pump = Pump::new(capture_input, KeyBindings::default(), TtySize(80, 24));
    let mut nanos = 0;
    for happening in [
        Happening::<()>::TtyRead(Ok(input)),
        Happening::PtyWritten(Ok(input.len())),
        Happening::Signal(Signal::Chld),
        Happening::ChildPolled(Ok(WaitStatus::Exited(0))),
        Happening::PtyRead(Ok(b"")),
    ] {
        nanos += 1;
        assert!(pump.accepts(&happening, Duration { nanos }));
        let step = pump.step(happening, Duration { nanos });
        if let Some(event) = step.event {
            deliver(fanout, &event);
        }
        if let Next::Finish(result) = step.next {
            return result.unwrap();
        }
    }
    panic!("the session should have ended");
}

/// Forwards events until there are no more, and finishes the sinks. Returns the
/// failure, what is to be logged, and what each finished sink was fed with.
fn forward(
    forwarder: &mut Forwarder<TestOutput, &'static str>,
    events: Vec<Event>,
) -> (Option<&'static str>, Vec<&'static str>, Vec<Vec<Event>>) {
    let mut events = events.into_iter();
    let mut all_logged = Vec::new();
    let mut finished = Vec::new();
    let mut step: ForwardStep<Event, &'static str> = ForwardStep::Receive;
    loop {
        let reply = match step {
            ForwardStep::Receive => ForwardReply::Received(events.next()),
            ForwardStep::Feed(event) => ForwardReply::Fed(
                forwarder
                    .sinks_mut()
                    .iter_mut()
                    .map(|sink| sink.output.event(event.clone()))
                    .collect(),
            ),
            ForwardStep::FinishFirst => {
                let output = &mut forwarder.sinks_mut()[0].output;
                finished.push(output.events.clone());
                ForwardReply::Finished(output.finish())
            }
            ForwardStep::Return(failure) => return (failure, all_logged, finished),
        };
        assert!(forwarder.expects(&reply));
        let (next, logged) = forwarder.go_on(reply);
        all_logged.extend(logged);
        step = next;
    }
}

#[test]
fn test_sink_routing_and_fault_tolerance() {
    // Scenario A: Input filtering logic across multiple sinks
    for capture_input in [true, false] {
        let mut fanout: TestFanout = Fanout::new(vec![
            Sink::new(TestOutput::new(None)),
            Sink::new(TestOutput::new(None)),
        ]);
        assert_eq!(read_line(b"hi\n", capture_input, &mut fanout), 0);

        let expected: Vec<&str> = if capture_input { vec!["hi\n"] } else { vec![] };
        assert_eq!(extract_texts(&fanout.sinks[0].output.events, true), expected);
        assert_eq!(extract_texts(&fanout.sinks[1].output.events, true), expected);
    }

    // Scenario B: Sink failure logic (Essential vs Non-essential & Event vs Finish failures)
    for fail_stage in [Fails::Events, Fails::Finish] {
        for essential in [true, false] {
            let failing_output = TestOutput::new(Some(fail_stage));
            let failing_sink = if essential {
                Sink::new(failing_output).essential()
            } else {
                Sink::new(failing_output)
            };
            let healthy = Sink::new(TestOutput::new(None));
            let mut forwarder = Forwarder::new(vec![failing_sink, healthy]);
            let events = ["a", "b"]
                .map(|text| Event::Output(Duration { nanos: 1_000_000_000 }, text.to_owned()));
            let (failure, logged, finished) = forward(&mut forwarder, events.to_vec());

            // Regardless of the other sink failing, the healthy one gets everything.
            let last = finished.last().unwrap();
            assert_eq!(extract_texts(last, false), vec!["a", "b"]);
            assert_eq!(finished.len(), if fail_stage == Fails::Events { 1 } else { 2 });
            // Only essential failures crash the session.
            assert_eq!(failure.is_some(), essential);
            let message = if fail_stage == Fails::Events { "event failed" } else { "finish failed" };
            assert_eq!(failure, if essential { Some(message) } else { None });
            assert_eq!(logged, if essential { vec![] } else { vec![message] });
        }
    }
}

#[test]
fn first_essential_failure_is_kept() {
    let mut fanout: Fanout<char, i32> = Fanout::new(vec![
        Sink::new('a'),
        Sink::new('b').essential(),
        Sink::new('c').essential(),
        Sink::new('d'),
        Sink::new('e').essential(),
    ]);
    assert_eq!(
        fanout.delivered(vec![Err(1), Ok(()), Err(3), Ok(()), Err(5)]),
        vec![1]
    );
    assert_eq!(fanout.failure, Some(3));
    let fed: Vec<char> = fanout.sinks.iter().map(|sink| sink.output).collect();
    assert_eq!(fed, vec!['b', 'd']);
    assert_eq!(fanout.delivered(vec![Err(2), Err(4)]), vec![4]);
    assert_eq!(fanout.failure, Some(3));
    assert!(fanout.sinks.is_empty());
}

#[test]
fn failures_are_reported_by_weight() {
    let ordinary = Sink::new(());
    let mut failure = None;
    assert_eq!(ordinary.failed("minor", &mut failure), Some("minor"));
    assert_eq!(failure, None);
    let essential = Sink::new(()).essential();
    assert_eq!(essential.failed("first", &mut failure), None);
    assert_eq!(essential.failed("second", &mut failure), None);
    assert_eq!(failure, Some("first"));
}

#[test]
fn sinks_are_finished_one_by_one() {
    let mut fanout: Fanout<char, i32> = Fanout::new(vec![
        Sink::new('a'),
        Sink::new('b').essential(),
        Sink::new('c').essential(),
        Sink::new('d'),
    ]);
    assert_eq!(fanout.finished_first(Err(1)), Some(1));
    assert_eq!(fanout.failure, None);
    assert_eq!(fanout.finished_first(Err(2)), None);
    assert_eq!(fanout.failure, Some(2));
    assert_eq!(fanout.finished_first(Err(3)), None);
    assert_eq!(fanout.failure, Some(2));
    assert_eq!(fanout.sinks[0].output, 'd');
    assert_eq!(fanout.finished_first(Ok(())), None);
    assert!(fanout.sinks.is_empty());
}

#[test]
fn sinks_are_finished_only_once_the_queue_is_closed() {
    let mut forwarder: Forwarder<char, i32> =
        Forwarder::new(vec![Sink::new('a').essential(), Sink::new('b'), Sink::new('c')]);
    assert!(!forwarder.expects(&ForwardReply::Finished(Ok(()))));
    let event = Event::Exit(Duration { nanos: 1 }, 0);
    let (step, _) = forwarder.go_on(ForwardReply::Received(Some(event)));
    assert!(matches!(step, ForwardStep::Feed(Event::Exit(_, 0))));
    assert!(!forwarder.expects(&ForwardReply::Received(None)));
    assert!(!forwarder.expects(&ForwardReply::Fed(vec![Ok(()), Ok(())])));
    let (step, logged) = forwarder.go_on(ForwardReply::Fed(vec![Ok(()), Err(7), Ok(())]));
    assert!(matches!(step, ForwardStep::Receive));
    assert_eq!(logged, vec![7]);
    let (step, _) = forwarder.go_on(ForwardReply::Received(None));
    assert!(matches!(step, ForwardStep::FinishFirst));
    assert!(!forwarder.expects(&ForwardReply::Received(None)));
    assert_eq!(forwarder.sinks_mut()[0].output, 'a');
    let (step, logged) = forwarder.go_on(ForwardReply::Finished(Err(8)));
    assert!(matches!(step, ForwardStep::FinishFirst));
    assert!(logged.is_empty());
    assert_eq!(forwarder.sinks_mut()[0].output, 'c');
    let (step, logged) = forwarder.go_on(ForwardReply::Finished(Err(9)));
    assert!(matches!(step, ForwardStep::Return(Some(8))));
    assert_eq!(logged, vec![9]);
    assert!(!forwarder.expects(&ForwardReply::Received(None)));
    assert!(!forwarder.expects(&ForwardReply::Finished(Ok(()))));
}

#[test]
fn forwarding_to_nobody_returns_at_once() {
    let mut forwarder: Forwarder<char, i32> = Forwarder::new(vec![]);
    let (step, logged) = forwarder.go_on(ForwardReply::Received(None));
    assert!(matches!(step, ForwardStep::Return(None)));
    assert!(logged.is_empty());
}
