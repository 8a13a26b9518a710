use asciinema::session::{Event, KeyBindings, Reaction, Session};
use asciinema::time::Duration;
use asciinema::tty::TtySize;

const SIZE: TtySize = TtySize(80, 24);

fn at(nanos: u128) -> Duration {
    Duration { nanos }
}

fn session(capture_input: bool) -> Session {
    Session::new(capture_input, KeyBindings::default(), SIZE)
}

fn prefixed() -> KeyBindings {
    KeyBindings {
        prefix: Some(vec![0x01]),
        pause: Some(vec![b'p']),
        add_marker: Some(vec![b'm']),
    }
}

/// An event as a kind, a time and a text.
fn told(event: Option<Event>) -> Option<(&'static str, u128, String)> {
    event.map(|event| match event {
        Event::Output(time, text) => ("output", time.nanos, text),
        Event::Input(time, text) => ("input", time.nanos, text),
        Event::Resize(time, size) => ("resize", time.nanos, format!("{}x{}", size.0, size.1)),
        Event::Marker(time, label) => ("marker", time.nanos, label),
        Event::Exit(time, status) => ("exit", time.nanos, status.to_string()),
    })
}

fn some(kind: &'static str, nanos: u128, text: &str) -> Option<(&'static str, u128, String)> {
    Some((kind, nanos, text.to_owned()))
}

fn parts(reaction: Reaction) -> (bool, Option<(&'static str, u128, String)>, Option<String>) {
    (reaction.forward, told(reaction.event), reaction.notice)
}

#[test]
fn default_keys_pause_with_ctrl_backslash() {
    let keys = KeyBindings::default();
    assert_eq!(keys.prefix, None);
    assert_eq!(keys.pause, Some(vec![0x1c]));
    assert_eq!(keys.add_marker, None);
}

#[test]
fn output_is_recorded() {
    let mut session = session(false);
    assert_eq!(told(session.handle_output(b"hi\n", at(5))), some("output", 5, "hi\n"));
    assert_eq!(told(session.handle_output(b"", at(6))), None);
    assert_eq!(told(session.handle_output(&[0xe2, 0x82], at(7))), None);
    assert_eq!(told(session.handle_output(&[0xac], at(8))), some("output", 8, "€"));
}

#[test]
fn input_is_recorded_when_captured() {
    for capture_input in [true, false] {
        let mut session = session(capture_input);
        let expected = if capture_input { some("input", 3, "hi\n") } else { None };
        assert_eq!(parts(session.handle_input(b"hi\n", at(3))), (true, expected, None));
    }
}

#[test]
fn pause_stops_the_recording_and_its_clock() {
    let mut session = session(true);
    let reaction = session.handle_input(&[0x1c], at(10));
    assert_eq!(parts(reaction), (false, None, Some("Paused recording".to_owned())));
    assert_eq!(session.elapsed_time(at(90)), at(10));
    assert_eq!(told(session.handle_output(b"secret", at(20))), None);
    assert_eq!(parts(session.handle_input(b"x", at(30))), (true, None, None));
    assert_eq!(
        told(session.handle_resize(TtySize(100, 30), at(40))),
        some("resize", 10, "100x30")
    );
    let reaction = session.handle_input(&[0x1c], at(110));
    assert_eq!(parts(reaction), (false, None, Some("Resumed recording".to_owned())));
    assert_eq!(session.elapsed_time(at(110)), at(10));
    assert_eq!(told(session.handle_output(b"a", at(115))), some("output", 15, "a"));

    // A second pause adds to the first one.
    session.handle_input(&[0x1c], at(120));
    session.handle_input(&[0x1c], at(220));
    assert_eq!(session.elapsed_time(at(221)), at(21));
}

#[test]
fn pause_keeps_an_unfinished_character() {
    let mut session = session(false);
    assert_eq!(told(session.handle_output(&[0xe2, 0x82], at(1))), None);
    session.handle_input(&[0x1c], at(2));
    assert_eq!(told(session.handle_output(b"lost", at(3))), None);
    session.handle_input(&[0x1c], at(4));
    assert_eq!(told(session.handle_output(&[0xac], at(5))), some("output", 3, "€"));
}

#[test]
fn shortcuts_need_the_prefix_when_bound() {
    let mut session = Session::new(true, prefixed(), SIZE);
    assert_eq!(
        parts(session.handle_input(b"p", at(1))),
        (true, some("input", 1, "p"), None)
    );
    assert_eq!(parts(session.handle_input(&[0x01], at(2))), (false, None, None));
    assert_eq!(
        parts(session.handle_input(b"m", at(3))),
        (false, some("marker", 3, ""), Some("Marker added".to_owned()))
    );
    // Prefix mode is over.
    assert_eq!(
        parts(session.handle_input(b"m", at(4))),
        (true, some("input", 4, "m"), None)
    );
    // Something which isn't a shortcut goes to the command, and ends it too.
    assert_eq!(parts(session.handle_input(&[0x01], at(5))), (false, None, None));
    assert_eq!(
        parts(session.handle_input(b"x", at(6))),
        (true, some("input", 6, "x"), None)
    );
    assert_eq!(
        parts(session.handle_input(b"p", at(7))),
        (true, some("input", 7, "p"), None)
    );
}

#[test]
fn prefix_typed_twice_goes_to_the_command() {
    let mut session = Session::new(false, prefixed(), SIZE);
    assert_eq!(parts(session.handle_input(&[0x01], at(1))), (false, None, None));
    assert_eq!(parts(session.handle_input(&[0x01], at(2))), (true, None, None));
    assert_eq!(parts(session.handle_input(&[0x01], at(3))), (false, None, None));
}

#[test]
fn markers_are_added_while_paused() {
    let mut session = Session::new(false, prefixed(), SIZE);
    session.handle_input(&[0x01], at(1));
    session.handle_input(b"p", at(2));
    session.handle_input(&[0x01], at(3));
    assert_eq!(
        parts(session.handle_input(b"m", at(4))),
        (false, some("marker", 2, ""), Some("Marker added".to_owned()))
    );
}

#[test]
fn keys_match_whole_bursts_only() {
    let mut session = session(false);
    assert_eq!(parts(session.handle_input(&[0x1c, 0x1c], at(1))), (true, None, None));
    assert_eq!(parts(session.handle_input(&[b'a', 0x1c], at(2))), (true, None, None));
    assert_eq!(parts(session.handle_input(&[], at(3))), (true, None, None));
}

#[test]
fn only_changes_of_size_are_recorded() {
    let mut session = session(false);
    assert_eq!(told(session.handle_resize(SIZE, at(1))), None);
    assert_eq!(told(session.handle_resize(TtySize(100, 24), at(2))), some("resize", 2, "100x24"));
    assert_eq!(told(session.handle_resize(TtySize(100, 24), at(3))), None);
    assert_eq!(told(session.handle_resize(SIZE, at(4))), some("resize", 4, "80x24"));
}

#[test]
fn exit_is_recorded_with_its_status() {
    let mut session = session(false);
    assert_eq!(told(Some(session.handle_exit(7, at(9)))), some("exit", 9, "7"));
    session.handle_input(&[0x1c], at(10));
    assert_eq!(told(Some(session.handle_exit(-1, at(90)))), some("exit", 10, "-1"));
}

#[test]
fn clock_running_backwards_is_noticed() {
    let mut session = session(false);
    assert!(session.keeps_time(at(0)));
    session.handle_input(&[0x1c], at(50));
    assert!(!session.keeps_time(at(49)));
    assert!(session.keeps_time(at(50)));
    session.handle_input(&[0x1c], at(80));
    assert!(!session.keeps_time(at(29)));
    assert!(session.keeps_time(at(30)));
}

#[test]
fn cloned_events_are_equal() {
    for event in [
        Event::Output(at(1), "o".to_owned()),
        Event::Input(at(2), "i".to_owned()),
        Event::Resize(at(3), SIZE),
        Event::Marker(at(4), "m".to_owned()),
        Event::Exit(at(5), 6),
    ] {
        assert_eq!(told(Some(event.clone())), told(Some(event)));
    }
}
