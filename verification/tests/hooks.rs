use asciinema::hook::{
    Fault, Hook, HookStep, LiveHook, Reply, StreamWriter, WriterReply, WriterStep,
};
use asciinema::session::Event;
use asciinema::spawn::{Context, ExitStatus, Stdio};
use asciinema::time::Duration;

type Live = LiveHook<&'static str>;
type Outcome = Result<(), Fault<String, &'static str>>;

const COMMAND: &str = "echo 'renderer blew up' >&2; exit 7";

fn exited(success: bool, text: &str) -> ExitStatus<String> {
    ExitStatus { success, text: text.to_owned() }
}

fn live(command: &str) -> Live {
    LiveHook::new(&Hook(command.to_owned()))
}

fn go_on(hook: &mut Live, reply: Reply<String, &'static str>) -> HookStep<String, Event, &'static str> {
    assert!(hook.expects(&reply));
    hook.go_on(reply)
}

/// The steps of a conversation by name, and what was returned at its end.
fn converse(
    hook: &mut Live,
    first: HookStep<String, Event, &'static str>,
    replies: Vec<Reply<String, &'static str>>,
) -> (Vec<String>, Option<Outcome>) {
    let mut steps = Vec::new();
    let mut step = first;
    let mut replies = replies.into_iter();
    loop {
        steps.push(match &step {
            HookStep::Queue(event) => {
                assert!(matches!(event, Event::Output(_, text) if text == "x"));
                "queue".to_owned()
            }
            HookStep::Check => "check".to_owned(),
            HookStep::Kill => "kill".to_owned(),
            HookStep::JoinWriter => "join".to_owned(),
            HookStep::WaitQuietly => "wait".to_owned(),
            HookStep::WaitOn(text) => text.clone(),
            HookStep::Notify(text) => text.clone(),
            HookStep::Return(_) => "return".to_owned(),
        });
        if let HookStep::Return(result) = step {
            assert!(replies.next().is_none());
            return (steps, Some(result));
        }
        match replies.next() {
            Some(reply) => step = go_on(hook, reply),
            None => return (steps, None),
        }
    }
}

fn message(result: Option<Outcome>) -> String {
    match result {
        Some(Err(Fault::Hook(message))) => message,
        other => panic!("{other:?}"),
    }
}

#[test]
fn fed_hook_is_well() {
    let mut hook = live("cat");
    let first = hook.event(output("x"));
    let (steps, result) = converse(&mut hook, first, vec![Reply::Queued(true)]);
    assert_eq!(steps, vec!["queue", "return"]);
    assert!(matches!(result, Some(Ok(()))));
    assert!(hook.is_idle());
}

#[test]
fn test_error_reporting_and_broken_pipes() {
    let expected = "hook `echo 'renderer blew up' >&2; exit 7` exit status: 7: renderer blew up";

    // Scenario A: Fails abruptly, input closed.
    let mut hook = live(COMMAND);
    let first = hook.finish();
    let (steps, result) = converse(
        &mut hook,
        first,
        vec![
            Reply::Joined(Err("broken pipe")),
            Reply::Waited(
                Ok(exited(false, "exit status: 7")),
                Some("renderer blew up".to_owned()),
            ),
        ],
    );
    assert_eq!(steps, vec!["join", "wait", "return"]);
    let error = message(result);
    assert!(error.contains("exit status: 7") && error.contains("renderer blew up"), "{error}");
    assert_eq!(error, expected);

    // Scenario B: Fails abruptly, session keeps writing to closed pipe.
    let mut hook = live(COMMAND);
    let first = hook.event(output("x"));
    let (steps, result) = converse(
        &mut hook,
        first,
        vec![
            Reply::Queued(false),
            Reply::Checked(
                Ok(Some(exited(false, "exit status: 7"))),
                Some("renderer blew up".to_owned()),
            ),
            Reply::Killed,
            Reply::Joined(Err("broken pipe")),
            Reply::Waited(Ok(exited(false, "exit status: 7")), None),
            Reply::Notified,
        ],
    );
    let notice = format!("Hook failed: {expected}");
    assert_eq!(steps, vec!["queue", "check", "kill", "join", "wait", &notice, "return"]);
    let error = message(result);
    assert!(error.contains("exit status: 7") && error.contains("renderer blew up"), "{error}");
    assert_eq!(error, expected);

    // Scenario C: Exits cleanly, but stops reading early (broken pipe variant).
    let mut hook = live("exit 0");
    let first = hook.event(output("x"));
    let (_, result) = converse(
        &mut hook,
        first,
        vec![
            Reply::Queued(false),
            Reply::Checked(Ok(Some(exited(true, "exit status: 0"))), None),
            Reply::Killed,
            Reply::Joined(Err("broken pipe")),
            Reply::Waited(Ok(exited(true, "exit status: 0")), None),
            Reply::Notified,
        ],
    );
    let error = message(result);
    assert!(error.contains("not reading"), "{error}");
}

#[test]
fn hook_which_does_not_read_is_killed() {
    for check in [Ok(Some(exited(true, "exit status: 0"))), Ok(None), Err("no child")] {
        let mut hook = live("exit 0");
        let first = hook.event(output("x"));
        let (steps, result) = converse(
            &mut hook,
            first,
            vec![
                Reply::Queued(false),
                Reply::Checked(check, Some("noise".to_owned())),
                Reply::Killed,
                Reply::Joined(Ok(())),
                Reply::TimedOut,
                Reply::Waited(Ok(exited(false, "signal: 9 (SIGKILL)")), None),
                Reply::Notified,
            ],
        );
        let expected = "hook `exit 0` is not reading the session stream fast enough";
        assert_eq!(steps[2], "kill");
        assert_eq!(steps[5], "Waiting for hook to finish: exit 0");
        assert_eq!(steps[6], format!("Hook failed: {expected}"));
        assert_eq!(message(result), expected);
    }
}

#[test]
fn slow_hook_is_waited_for() {
    let mut hook = live("sleep 3");
    let first = hook.finish();
    let (steps, result) = converse(
        &mut hook,
        first,
        vec![
            Reply::Joined(Ok(())),
            Reply::TimedOut,
            Reply::Waited(Ok(exited(true, "exit status: 0")), None),
        ],
    );
    assert_eq!(steps, vec!["join", "wait", "Waiting for hook to finish: sleep 3", "return"]);
    assert!(matches!(result, Some(Ok(()))));
}

#[test]
fn how_a_hook_ended_comes_before_how_writing_ended() {
    let mut hook = live("a");
    let first = hook.finish();
    let replies = vec![
        Reply::Joined(Err("write")),
        Reply::Waited(Ok(exited(true, "exit status: 0")), None),
    ];
    let (_, result) = converse(&mut hook, first, replies);
    assert!(matches!(result, Some(Err(Fault::Io("write")))));

    let mut hook = live("b");
    let first = hook.finish();
    let replies = vec![Reply::Joined(Err("write")), Reply::Waited(Err("wait"), None)];
    let (_, result) = converse(&mut hook, first, replies);
    assert!(matches!(result, Some(Err(Fault::Io("wait")))));

    let mut hook = live("c");
    let first = hook.finish();
    let replies = vec![
        Reply::Joined(Ok(())),
        Reply::Waited(Ok(exited(false, "exit status: 1")), None),
    ];
    let (_, result) = converse(&mut hook, first, replies);
    assert_eq!(message(result), "hook `c` exit status: 1");
}

#[test]
fn finished_hook_is_never_fed_again() {
    let mut hook = live("cat");
    let first = hook.finish();
    converse(
        &mut hook,
        first,
        vec![
            Reply::Joined(Ok(())),
            Reply::Waited(Ok(exited(true, "exit status: 0")), None),
        ],
    );
    let first = hook.event(output("x"));
    let (steps, _) = converse(&mut hook, first, vec![Reply::Checked(Ok(None), None), Reply::Killed]);
    // Nothing is left to be closed.
    assert_eq!(steps, vec!["check", "kill", "wait"]);
    assert!(!hook.is_idle());
}

#[test]
fn hook_is_started_as_an_essential_sink() {
    let hook = Hook("cat".to_owned());
    let sink = hook.start(Ok::<i32, &str>(5)).unwrap();
    assert!(sink.essential);
    assert_eq!(sink.output, 5);
    assert!(matches!(hook.start(Err::<i32, &str>("spawn")), Err("spawn")));
}

#[test]
fn hook_is_spawned_with_piped_input() {
    let context = Context { session_id: "test-session", output_file: None, server_url: None };
    let launch = Hook("cat > x".to_owned()).spawn(&context);
    assert_eq!(launch.program, "/bin/sh");
    assert_eq!(launch.args, vec!["-c", "cat > x"]);
    assert_eq!(launch.stdin, Stdio::Piped);
    assert_eq!(launch.stdout, Stdio::Null);
    assert_eq!(launch.stderr, Stdio::Piped);
}

#[test]
fn cloned_hooks_are_equal() {
    assert_eq!(Hook("cat".to_owned()).clone().0, "cat");
}

fn write(writer: &mut StreamWriter, reply: WriterReply<Event, &'static str>) -> WriterStep<Event, &'static str> {
    assert!(writer.expects(&reply));
    writer.go_on(reply)
}

fn output(text: &str) -> Event {
    Event::Output(Duration { nanos: 1 }, text.to_owned())
}

#[test]
fn stream_is_header_then_events() {
    let mut writer = StreamWriter::new();
    assert!(matches!(write(&mut writer, WriterReply::Written(Ok(()))), WriterStep::Receive));
    for expected in ["hello", "note"] {
        match write(&mut writer, WriterReply::Received(Some(output(expected)))) {
            WriterStep::WriteEvent(Event::Output(_, text)) => assert_eq!(text, expected),
            other => panic!("{other:?}"),
        }
        assert!(matches!(write(&mut writer, WriterReply::Written(Ok(()))), WriterStep::Receive));
    }
    assert!(matches!(write(&mut writer, WriterReply::Received(None)), WriterStep::Close));
    assert!(matches!(
        write(&mut writer, WriterReply::Closed(Ok(()))),
        WriterStep::Return(Ok(()))
    ));
    assert!(!writer.expects::<()>(&WriterReply::Received(None)));
}

#[test]
fn stream_ends_with_the_first_error() {
    let mut writer = StreamWriter::new();
    assert!(matches!(
        write(&mut writer, WriterReply::Written(Err("header"))),
        WriterStep::Return(Err("header"))
    ));

    let mut writer = StreamWriter::new();
    write(&mut writer, WriterReply::Written(Ok(())));
    write(&mut writer, WriterReply::Received(Some(output("x"))));
    assert!(matches!(
        write(&mut writer, WriterReply::Written(Err("event"))),
        WriterStep::Return(Err("event"))
    ));

    let mut writer = StreamWriter::new();
    write(&mut writer, WriterReply::Written(Ok(())));
    write(&mut writer, WriterReply::Received(None));
    assert!(matches!(
        write(&mut writer, WriterReply::Closed(Err("close"))),
        WriterStep::Return(Err("close"))
    ));
}

#[test]
fn shut_down_hook_was_given_all_accepted_events() {
    let mut hook = live("cat");
    let mut queue = Vec::new();
    for text in ["a", "b", "c"] {
        match hook.event(output(text)) {
            HookStep::Queue(event) => queue.push(event),
            other => panic!("{other:?}"),
        }
        assert!(matches!(go_on(&mut hook, Reply::Queued(true)), HookStep::Return(Ok(()))));
    }
    assert!(matches!(hook.shutdown(), HookStep::JoinWriter));
    assert!(!hook.expects(&Reply::Waited(Ok(exited(true, "exit status: 0")), None)));

    let mut writer = StreamWriter::new();
    let mut queue = queue.into_iter();
    let mut stream = vec!["header".to_owned()];
    let mut step = write(&mut writer, WriterReply::Written(Ok(())));
    let result = loop {
        step = match step {
            WriterStep::Receive => write(&mut writer, WriterReply::Received(queue.next())),
            WriterStep::WriteEvent(Event::Output(_, text)) => {
                stream.push(text);
                write(&mut writer, WriterReply::Written(Ok(())))
            }
            WriterStep::Close => {
                stream.push("closed".to_owned());
                write(&mut writer, WriterReply::Closed(Ok(())))
            }
            WriterStep::Return(result) => break result,
            other => panic!("{other:?}"),
        };
    };
    assert_eq!(stream, vec!["header", "a", "b", "c", "closed"]);
    assert!(matches!(go_on(&mut hook, Reply::Joined(result)), HookStep::WaitQuietly));
    let waited = Reply::Waited(Ok(exited(true, "exit status: 0")), None);
    assert!(matches!(go_on(&mut hook, waited), HookStep::Return(Ok(()))));
}
