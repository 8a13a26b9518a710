use asciinema::spawn::{
    is_blank, shell, without_line_ending, Child, Context, ExitStatus, Stdio,
};

fn exited() -> ExitStatus<String> {
    ExitStatus { success: true, text: "exit status: 0".to_owned() }
}

fn environment(context: &Context) -> Vec<(String, String)> {
    shell("true", context, Stdio::Null, Stdio::Inherit).env
}

fn pair(name: &str, value: &str) -> (String, String) {
    (name.to_owned(), value.to_owned())
}

#[test]
fn companions_are_told_about_the_session() {
    let context = Context {
        session_id: "test-session",
        output_file: Some("demo.cast"),
        server_url: Some("https://asciinema.example.com"),
    };
    assert_eq!(
        environment(&context),
        vec![
            pair("ASCIINEMA_SESSION", "test-session"),
            pair("ASCIINEMA_OUTPUT_FILE", "demo.cast"),
            pair("ASCIINEMA_SERVER_URL", "https://asciinema.example.com"),
        ]
    );
    let context = Context { session_id: "test-session", output_file: None, server_url: None };
    assert_eq!(environment(&context), vec![pair("ASCIINEMA_SESSION", "test-session")]);
    let context = Context { session_id: "", output_file: None, server_url: Some("u") };
    assert_eq!(
        environment(&context),
        vec![pair("ASCIINEMA_SESSION", ""), pair("ASCIINEMA_SERVER_URL", "u")]
    );
}

#[test]
fn companions_run_in_a_group_of_their_own() {
    let context = Context { session_id: "s", output_file: None, server_url: None };
    let launch = shell("sleep 30 & wait", &context, Stdio::Null, Stdio::Inherit);
    assert_eq!(launch.program, "/bin/sh");
    assert_eq!(launch.args, vec!["-c", "sleep 30 & wait"]);
    assert_eq!(launch.process_group, 0);
    assert!(launch.kill_on_drop);
    assert_eq!(launch.stdin, Stdio::Null);
    assert_eq!(launch.stdout, Stdio::Inherit);
    assert_eq!(launch.stderr, Stdio::Piped);
}

#[test]
fn whole_group_is_killed() {
    let child: Child<()> = Child::new(Some(4242), None);
    assert_eq!(child.id(), Some(4242));
    assert_eq!(child.kill(), Some(-4242));
    let child: Child<()> = Child::new(Some(0x7fff_ffff), None);
    assert_eq!(child.kill(), Some(-0x7fff_ffff));
    let child: Child<()> = Child::new(Some(u32::MAX), None);
    assert_eq!(child.kill(), Some(1));
    let child: Child<()> = Child::new(None, None);
    assert_eq!(child.kill(), None);
}

#[test]
fn finished_command_is_not_killed() {
    let mut child: Child<()> = Child::new(Some(7), None);
    assert!(child.wait(Err::<ExitStatus<String>, _>("interrupted")).is_err());
    assert_eq!(child.kill(), Some(-7));
    assert!(child.wait(Ok::<_, ()>(exited())).unwrap().success);
    assert_eq!(child.id(), None);
    assert_eq!(child.kill(), None);

    let mut child: Child<()> = Child::new(Some(7), None);
    assert!(child.try_wait(Ok::<Option<ExitStatus<String>>, ()>(None)).unwrap().is_none());
    assert_eq!(child.kill(), Some(-7));
    assert!(child.try_wait(Err::<Option<ExitStatus<String>>, _>("bad")).is_err());
    assert_eq!(child.kill(), Some(-7));
    let status = child.try_wait(Ok::<_, ()>(Some(exited()))).unwrap().unwrap();
    assert_eq!(status.text, "exit status: 0");
    assert_eq!(child.kill(), None);
}

#[test]
fn standard_input_is_taken_once() {
    let mut child = Child::new(Some(1), Some("pipe"));
    assert_eq!(child.take_stdin(), Some("pipe"));
    assert_eq!(child.take_stdin(), None);
    let mut child = Child::new(Some(1), Some("pipe"));
    let _ = child.wait(Err::<ExitStatus<String>, _>(()));
    assert_eq!(child.take_stdin(), None);
}

#[test]
fn last_error_line_skips_blank_ones() {
    let mut child: Child<()> = Child::new(Some(1), None);
    assert_eq!(child.last_error_line(), None);
    assert_eq!(child.log_error("cat", "".to_owned()), None);
    assert_eq!(child.log_error("cat", " \t\u{2003}".to_owned()), None);
    assert_eq!(child.last_error_line(), None);
    assert_eq!(child.log_error("cat", "first".to_owned()), Some("cat: first".to_owned()));
    assert_eq!(child.log_error("cat", " second ".to_owned()), Some("cat:  second ".to_owned()));
    assert_eq!(child.log_error("cat", "   ".to_owned()), None);
    assert_eq!(child.last_error_line(), Some(" second ".to_owned()));
}

#[test]
fn blank_text_is_what_trims_to_nothing() {
    for code in 0..=0x10ffffu32 {
        if let Some(c) = char::from_u32(code) {
            let text = format!(" {c}\t");
            assert_eq!(is_blank(&text), text.trim().is_empty());
        }
    }
    assert!(is_blank(""));
}

#[test]
fn lines_which_are_not_text_are_kept_too() {
    let mut child: Child<()> = Child::new(Some(1), None);
    assert_eq!(child.log_error_bytes("cat", b"first"), Some("cat: first".to_owned()));
    assert_eq!(
        child.log_error_bytes("cat", &[b'b', 0xff, b'd']),
        Some("cat: b\u{fffd}d".to_owned())
    );
    assert_eq!(child.last_error_line(), Some("b\u{fffd}d".to_owned()));
    assert_eq!(
        child.log_error_bytes("cat", &[0xe2, 0x82]),
        Some("cat: \u{fffd}".to_owned())
    );
    assert_eq!(child.log_error_bytes("cat", "ostatni łan".as_bytes()), Some("cat: ostatni łan".to_owned()));
    assert_eq!(child.log_error_bytes("cat", b" \t"), None);
    assert_eq!(child.last_error_line(), Some("ostatni łan".to_owned()));
}

#[test]
fn line_endings_are_taken_off() {
    let cases: [(&[u8], &[u8]); 8] = [
        (b"", b""),
        (b"\n", b""),
        (b"\r\n", b""),
        (b"a\n", b"a"),
        (b"a\r\n", b"a"),
        (b"a\r\r\n", b"a\r"),
        (b"a\r", b"a\r"),
        (b"a", b"a"),
    ];
    for (raw, line) in cases {
        assert_eq!(without_line_ending(raw), line);
    }
}
