//! Companion commands of a session.

use vstd::prelude::*;
use vstd::utf8::valid_utf8;

use crate::session::told;
use crate::util::{decode_whole, malformed_bytes_show, text_of_whole};

verus! {

/// Session details a companion command can't get from the asciicast header,
/// passed to it in the environment.
pub struct Context<'a> {
    /// Value of the `ASCIINEMA_SESSION` variable of the recorded command.
    pub session_id: &'a str,
    /// Path of the recording file, when the session is saved to one.
    pub output_file: Option<&'a str>,
    /// URL of the asciinema server this CLI is pointed at, when configured.
    pub server_url: Option<&'a str>,
}

/// A variable set only when there is a value for it.
pub open spec fn variable(name: Seq<char>, value: Option<&str>) -> Seq<(Seq<char>, Seq<char>)> {
    match value {
        Some(value) => seq![(name, value@)],
        None => Seq::empty(),
    }
}

impl<'a> Context<'a> {
    /// The environment variables the details are passed in.
    pub open spec fn variables(self) -> Seq<(Seq<char>, Seq<char>)> {
        seq![("ASCIINEMA_SESSION"@, self.session_id@)] + variable(
            "ASCIINEMA_OUTPUT_FILE"@,
            self.output_file,
        ) + variable("ASCIINEMA_SERVER_URL"@, self.server_url)
    }
}

/// What a standard stream of a command is connected to.
#[derive(Clone, Copy, Debug, PartialEq, Eq, Structural)]
pub enum Stdio {
    Inherit,
    Null,
    Piped,
}

/// How to spawn a command.
#[derive(Debug)]
pub struct Launch {
    pub program: String,
    pub args: Vec<String>,
    /// Variables to set, on top of the environment of the session.
    pub env: Vec<(String, String)>,
    pub stdin: Stdio,
    pub stdout: Stdio,
    pub stderr: Stdio,
    /// Whether the command is killed when nothing refers to it anymore.
    pub kill_on_drop: bool,
    /// The process group to put the command in, zero for one of its own.
    pub process_group: i32,
}

/// The model of a [`Launch`].
#[verifier::ext_equal]
pub struct LaunchModel {
    pub program: Seq<char>,
    pub args: Seq<Seq<char>>,
    pub env: Seq<(Seq<char>, Seq<char>)>,
    pub stdin: Stdio,
    pub stdout: Stdio,
    pub stderr: Stdio,
    pub kill_on_drop: bool,
    pub process_group: i32,
}

impl View for Launch {
    type V = LaunchModel;

    open spec fn view(&self) -> LaunchModel {
        LaunchModel {
            program: self.program@,
            args: self.args@.map_values(|arg: String| arg@),
            env: self.env@.map_values(|pair: (String, String)| (pair.0@, pair.1@)),
            stdin: self.stdin,
            stdout: self.stdout,
            stderr: self.stderr,
            kill_on_drop: self.kill_on_drop,
            process_group: self.process_group,
        }
    }
}

/// How a command is spawned as a companion of a session.
pub open spec fn companion(
    command: Seq<char>,
    context: Context,
    stdin: Stdio,
    stdout: Stdio,
) -> LaunchModel {
    LaunchModel {
        program: "/bin/sh"@,
        args: seq!["-c"@, command],
        env: context.variables(),
        stdin,
        stdout,
        stderr: Stdio::Piped,
        kill_on_drop: true,
        process_group: 0,
    }
}

/// Says how to spawn a command, via `/bin/sh -c`, as a companion of the
/// recording session.
///
/// The command runs in its very own process group. This means that it survives
/// ctrl+c and gets a chance to finish.
pub fn shell(command: &str, context: &Context, stdin: Stdio, stdout: Stdio) -> (launch: Launch)
    ensures
        launch@ == companion(command@, *context, stdin, stdout),
        launch.program@ == "/bin/sh"@,
        launch.args@.len() == 2,
        launch.args@[0]@ == "-c"@,
        launch.args@[1]@ == command@,
        launch.env@.len() >= 1,
        launch.env@[0].0@ == "ASCIINEMA_SESSION"@,
        launch.env@[0].1@ == context.session_id@,
        context.output_file matches Some(path) ==> launch.env@.len() >= 2 && launch.env@[1].0@
            == "ASCIINEMA_OUTPUT_FILE"@ && launch.env@[1].1@ == path@,
        context.server_url matches Some(url) ==> launch.env@.len() >= 2 && launch.env@.last().0@
            == "ASCIINEMA_SERVER_URL"@ && launch.env@.last().1@ == url@,
        launch.env@.len() == 1 + (if context.output_file is Some {
            1int
        } else {
            0
        }) + (if context.server_url is Some {
            1int
        } else {
            0
        }),
        launch.stdin == stdin,
        launch.stdout == stdout,
        launch.stderr is Piped,
        launch.kill_on_drop,
        launch.process_group == 0,
{
    let mut args: Vec<String> = Vec::new();
    args.push("-c".to_owned());
    args.push(command.to_owned());
    let mut env: Vec<(String, String)> = Vec::new();
    env.push(("ASCIINEMA_SESSION".to_owned(), context.session_id.to_owned()));
    if let Some(path) = context.output_file {
        env.push(("ASCIINEMA_OUTPUT_FILE".to_owned(), path.to_owned()));
    }
    if let Some(url) = context.server_url {
        env.push(("ASCIINEMA_SERVER_URL".to_owned(), url.to_owned()));
    }
    let launch = Launch {
        program: "/bin/sh".to_owned(),
        args,
        env,
        stdin,
        stdout,
        stderr: Stdio::Piped,
        kill_on_drop: true,
        process_group: 0,
    };
    assert(launch@.args =~= seq!["-c"@, command@]);
    assert(launch@.env =~= context.variables());
    launch
}

/// Each variable is set exactly when there is a value for it, and to that
/// value. The session variable always is.
pub proof fn variables_are_set_when_known(context: Context, value: Seq<char>)
    ensures
        context.variables().contains(("ASCIINEMA_SESSION"@, value)) <==> value
            == context.session_id@,
        context.variables().contains(("ASCIINEMA_OUTPUT_FILE"@, value)) <==> (
        context.output_file matches Some(path) && path@ == value),
        context.variables().contains(("ASCIINEMA_SERVER_URL"@, value)) <==> (
        context.server_url matches Some(url) && url@ == value),
{
    reveal_strlit("ASCIINEMA_SESSION");
    reveal_strlit("ASCIINEMA_OUTPUT_FILE");
    reveal_strlit("ASCIINEMA_SERVER_URL");
    let session = "ASCIINEMA_SESSION"@;
    let file = "ASCIINEMA_OUTPUT_FILE"@;
    let server = "ASCIINEMA_SERVER_URL"@;
    assert(session.len() != file.len() && session.len() != server.len() && file.len()
        != server.len());
    let all = context.variables();
    assert(all[0] == (session, context.session_id@));
    if let Some(path) = context.output_file {
        assert(all[1] == (file, path@));
    }
    if let Some(url) = context.server_url {
        assert(all.last() == (server, url@));
    }
}

/// How a command has ended.
#[derive(Debug)]
pub struct ExitStatus<S> {
    /// Whether it did what it was meant to do.
    pub success: bool,
    /// The status in words.
    pub text: S,
}

/// Whether a character has the `White_Space` property of Unicode.
pub open spec fn is_white_space(c: char) -> bool {
    let v = c as u32;
    ||| 0x9 <= v <= 0xd
    ||| v == 0x20
    ||| v == 0x85
    ||| v == 0xa0
    ||| v == 0x1680
    ||| 0x2000 <= v <= 0x200a
    ||| v == 0x2028
    ||| v == 0x2029
    ||| v == 0x202f
    ||| v == 0x205f
    ||| v == 0x3000
}

/// Whether a text is made of white space only.
pub open spec fn is_blank_text(text: Seq<char>) -> bool {
    forall|i: int| 0 <= i < text.len() ==> is_white_space(#[trigger] text[i])
}

/// Tells whether a text is made of white space only.
pub fn is_blank(text: &str) -> (blank: bool)
    ensures
        blank == is_blank_text(text@),
{
    for c in each: text.chars()
        invariant
            each.seq() == text@,
            forall|i: int| 0 <= i < each.index() ==> is_white_space(#[trigger] text@[i]),
    {
        let v = c as u32;
        let white = (0x9 <= v && v <= 0xd) || v == 0x20 || v == 0x85 || v == 0xa0 || v == 0x1680
            || (0x2000 <= v && v <= 0x200a) || v == 0x2028 || v == 0x2029 || v == 0x202f || v
            == 0x205f || v == 0x3000;
        if !white {
            assert(!is_white_space(text@[each.index()]));
            return false;
        }
    }
    true
}

/// The content of a line read up to and including its line feed: without the
/// line feed, and a carriage return before it. The last line of a stream may
/// have no line feed, and is kept as it is.
pub open spec fn line_content(raw: Seq<u8>) -> Seq<u8> {
    if raw.len() > 0 && raw.last() == 0x0a {
        if raw.len() > 1 && raw[raw.len() - 2] == 0x0d {
            raw.take(raw.len() - 2)
        } else {
            raw.take(raw.len() - 1)
        }
    } else {
        raw
    }
}

/// Takes the line ending off a line.
pub fn without_line_ending(raw: &[u8]) -> (line: Vec<u8>)
    ensures
        line@ == line_content(raw@),
{
    let mut line: Vec<u8> = Vec::new();
    line.extend_from_slice(raw);
    assert(line@ =~= raw@);
    let len = line.len();
    if len > 0 && line[len - 1] == 0x0a {
        if len > 1 && line[len - 2] == 0x0d {
            line.truncate(len - 2);
        } else {
            line.truncate(len - 1);
        }
    }
    assert(line@ =~= line_content(raw@));
    line
}

/// The process group a process leads, as the target of a signal: its ID,
/// negated as a signed number.
pub open spec fn group_of(pid: u32) -> int {
    if pid <= 0x7fff_ffff {
        -(pid as int)
    } else {
        0x1_0000_0000 - pid
    }
}

/// The model of a [`Child`].
pub struct ChildModel<P> {
    pub pid: Option<u32>,
    pub stdin: Option<P>,
    pub last_error_line: Option<Seq<char>>,
}

impl<P> ChildModel<P> {
    /// The command, after waiting for it to finish, or failing to.
    pub open spec fn after_wait(self, finished: bool) -> ChildModel<P> {
        ChildModel {
            pid: if finished {
                None
            } else {
                self.pid
            },
            stdin: None,
            ..self
        }
    }

    /// The command, after checking whether it has exited.
    pub open spec fn after_try_wait(self, exited: bool) -> ChildModel<P> {
        ChildModel {
            pid: if exited {
                None
            } else {
                self.pid
            },
            ..self
        }
    }

    /// The command, after it wrote a line to its standard error.
    pub open spec fn after_line(self, line: Seq<char>) -> ChildModel<P> {
        if is_blank_text(line) {
            self
        } else {
            ChildModel { last_error_line: Some(line), ..self }
        }
    }

    /// The command, after it wrote some lines to its standard error.
    pub open spec fn after_lines(self, lines: Seq<Seq<char>>) -> ChildModel<P>
        decreases lines.len(),
    {
        if lines.len() == 0 {
            self
        } else {
            self.after_lines(lines.drop_last()).after_line(lines.last())
        }
    }

    /// Where to send the signal which kills the command, if anywhere.
    pub open spec fn kill_target(self) -> Option<int> {
        match self.pid {
            Some(pid) => Some(group_of(pid)),
            None => None,
        }
    }
}

/// Killing a command is a no-op once it has been waited for, or found to
/// have exited, whatever it wrote since. Failing to wait for it, or finding it
/// running, changes nothing in that.
pub proof fn kill_spares_finished_commands<P>(child: ChildModel<P>, lines: Seq<Seq<char>>)
    ensures
        child.after_wait(true).after_lines(lines).kill_target() is None,
        child.after_try_wait(true).after_lines(lines).kill_target() is None,
        child.after_wait(false).kill_target() == child.kill_target(),
        child.after_try_wait(false).kill_target() == child.kill_target(),
        child.after_lines(lines).kill_target() == child.kill_target(),
    decreases lines.len(),
{
    if lines.len() > 0 {
        kill_spares_finished_commands(child, lines.drop_last());
    }
}

/// The line kept is the last one which isn't blank, of all a command wrote
/// to its standard error.
pub proof fn last_error_line_is_kept<P>(child: ChildModel<P>, lines: Seq<Seq<char>>)
    requires
        child.last_error_line is None,
    ensures
        match child.after_lines(lines).last_error_line {
            None => forall|i: int| 0 <= i < lines.len() ==> is_blank_text(#[trigger] lines[i]),
            Some(line) => exists|i: int|
                {
                    &&& 0 <= i < lines.len()
                    &&& #[trigger] lines[i] == line
                    &&& !is_blank_text(line)
                    &&& forall|j: int| i < j < lines.len() ==> is_blank_text(#[trigger] lines[j])
                },
        },
    decreases lines.len(),
{
    if lines.len() > 0 {
        let earlier = lines.drop_last();
        let last = lines.len() - 1;
        last_error_line_is_kept(child, earlier);
        assert(lines[last] == lines.last());
        if is_blank_text(lines.last()) {
            match child.after_lines(earlier).last_error_line {
                None => {
                    assert forall|i: int| 0 <= i < lines.len() implies is_blank_text(
                        #[trigger] lines[i],
                    ) by {
                        if i < last {
                            assert(earlier[i] == lines[i]);
                        }
                    }
                },
                Some(line) => {
                    let i = choose|i: int|
                        {
                            &&& 0 <= i < earlier.len()
                            &&& #[trigger] earlier[i] == line
                            &&& !is_blank_text(line)
                            &&& forall|j: int|
                                i < j < earlier.len() ==> is_blank_text(#[trigger] earlier[j])
                        };
                    assert(lines[i] == line);
                    assert forall|j: int| i < j < lines.len() implies is_blank_text(
                        #[trigger] lines[j],
                    ) by {
                        if j < last {
                            assert(earlier[j] == lines[j]);
                        }
                    }
                },
            }
        }
    }
}

/// The line kept is the last one which isn't blank, whatever bytes a command
/// wrote to its standard error. A line which isn't text neither stands in the
/// way of those after it, nor goes unnoticed itself.
pub proof fn last_error_line_is_kept_of_bytes<P>(child: ChildModel<P>, lines: Seq<Seq<u8>>)
    requires
        child.last_error_line is None,
    ensures
        forall|i: int|
            0 <= i < lines.len() && !valid_utf8(lines[i]) ==> !is_blank_text(
                decode_whole(#[trigger] lines[i]),
            ),
        match child.after_lines(
            lines.map_values(|line: Seq<u8>| decode_whole(line)),
        ).last_error_line {
            None => forall|i: int|
                0 <= i < lines.len() ==> is_blank_text(decode_whole(#[trigger] lines[i])),
            Some(text) => exists|i: int|
                {
                    &&& 0 <= i < lines.len()
                    &&& decode_whole(#[trigger] lines[i]) == text
                    &&& !is_blank_text(text)
                    &&& forall|j: int|
                        i < j < lines.len() ==> is_blank_text(decode_whole(#[trigger] lines[j]))
                },
        },
{
    let texts = lines.map_values(|line: Seq<u8>| decode_whole(line));
    last_error_line_is_kept(child, texts);
    assert forall|i: int|
        0 <= i < lines.len() && !valid_utf8(lines[i]) implies !is_blank_text(
        decode_whole(#[trigger] lines[i]),
    ) by {
        let text = decode_whole(lines[i]);
        malformed_bytes_show(lines[i]);
        let k = choose|k: int| 0 <= k < text.len() && text[k] == '\u{FFFD}';
        assert(!is_white_space(text[k]));
    }
    assert forall|i: int| 0 <= i < lines.len() implies texts[i] == decode_whole(
        #[trigger] lines[i],
    ) by {}
    if let Some(text) = child.after_lines(texts).last_error_line {
        let i = choose|i: int|
            {
                &&& 0 <= i < texts.len()
                &&& #[trigger] texts[i] == text
                &&& !is_blank_text(text)
                &&& forall|j: int| i < j < texts.len() ==> is_blank_text(#[trigger] texts[j])
            };
        assert(decode_whole(lines[i]) == text);
        assert forall|j: int| i < j < lines.len() implies is_blank_text(
            decode_whole(#[trigger] lines[j]),
        ) by {
            assert(is_blank_text(texts[j]));
        }
    } else {
        assert forall|i: int| 0 <= i < lines.len() implies is_blank_text(
            decode_whole(#[trigger] lines[i]),
        ) by {
            assert(is_blank_text(texts[i]));
        }
    }
}

/// A companion command spawned as [`shell`] says.
#[derive(Debug)]
pub struct Child<P> {
    pid: Option<u32>,
    stdin: Option<P>,
    last_error_line: Option<String>,
}

impl<P> View for Child<P> {
    type V = ChildModel<P>;

    closed spec fn view(&self) -> ChildModel<P> {
        ChildModel {
            pid: self.pid,
            stdin: self.stdin,
            last_error_line: match self.last_error_line {
                Some(line) => Some(line@),
                None => None,
            },
        }
    }
}

impl<P> Child<P> {
    /// A command just spawned.
    pub fn new(pid: Option<u32>, stdin: Option<P>) -> (child: Self)
        ensures
            child@ == (ChildModel::<P> { pid, stdin, last_error_line: None }),
    {
        Child { pid, stdin, last_error_line: None }
    }

    /// The process ID, if the command has not been waited for.
    pub fn id(&self) -> (pid: Option<u32>)
        ensures
            pid == self@.pid,
    {
        self.pid
    }

    /// Takes the command's standard input pipe, if it was spawned piped.
    pub fn take_stdin(&mut self) -> (stdin: Option<P>)
        ensures
            stdin == old(self)@.stdin,
            final(self)@ == (ChildModel::<P> { stdin: None, ..old(self)@ }),
    {
        self.stdin.take()
    }

    /// Takes in what came of waiting for the command to finish, its standard
    /// input closed.
    pub fn wait<S, E>(&mut self, result: Result<ExitStatus<S>, E>) -> (same: Result<
        ExitStatus<S>,
        E,
    >)
        ensures
            same == result,
            final(self)@ == old(self)@.after_wait(result is Ok),
            final(self)@.stdin is None,
            final(self)@.pid == (if result is Ok {
                None
            } else {
                old(self)@.pid
            }),
            final(self)@.last_error_line == old(self)@.last_error_line,
    {
        self.stdin = None;
        if result.is_ok() {
            self.pid = None;
        }
        result
    }

    /// Takes in what came of checking whether the command has exited, without
    /// waiting.
    pub fn try_wait<S, E>(&mut self, result: Result<Option<ExitStatus<S>>, E>) -> (same: Result<
        Option<ExitStatus<S>>,
        E,
    >)
        ensures
            same == result,
            final(self)@ == old(self)@.after_try_wait(result matches Ok(Some(_))),
            final(self)@.stdin == old(self)@.stdin,
            result matches Ok(Some(_)) ==> final(self)@.pid is None,
            result == Ok::<Option<ExitStatus<S>>, E>(None) || result is Err ==> final(self)@.pid
                == old(self)@.pid,
            final(self)@.last_error_line == old(self)@.last_error_line,
    {
        if let Ok(Some(_)) = &result {
            self.pid = None;
        }
        result
    }

    /// The last non-empty line the command wrote to its standard error.
    pub fn last_error_line(&self) -> (line: Option<String>)
        ensures
            told(line) == self@.last_error_line,
    {
        match &self.last_error_line {
            Some(line) => Some(line.clone()),
            None => None,
        }
    }

    /// Takes in a line the command wrote to its standard error. Returns what
    /// to log about it.
    pub fn log_error(&mut self, command: &str, line: String) -> (logged: Option<String>)
        ensures
            final(self)@ == old(self)@.after_line(line@),
            final(self)@.pid == old(self)@.pid,
            final(self)@.stdin == old(self)@.stdin,
            final(self)@.last_error_line == (if is_blank_text(line@) {
                old(self)@.last_error_line
            } else {
                Some(line@)
            }),
            told(logged) == (if is_blank_text(line@) {
                None
            } else {
                Some(command@ + ": "@ + line@)
            }),
    {
        if is_blank(line.as_str()) {
            return None;
        }
        let mut logged = command.to_owned();
        logged.append(": ");
        logged.append(line.as_str());
        self.last_error_line = Some(line);
        Some(logged)
    }

    /// Takes in the bytes of a line the command wrote to its standard error.
    /// Bytes which aren't text read as U+FFFD. Returns what to log about the
    /// line.
    pub fn log_error_bytes(&mut self, command: &str, line: &[u8]) -> (logged: Option<String>)
        ensures
            final(self)@ == old(self)@.after_line(decode_whole(line@)),
            final(self)@.pid == old(self)@.pid,
            final(self)@.stdin == old(self)@.stdin,
            final(self)@.last_error_line == (if is_blank_text(decode_whole(line@)) {
                old(self)@.last_error_line
            } else {
                Some(decode_whole(line@))
            }),
            told(logged) == (if is_blank_text(decode_whole(line@)) {
                None
            } else {
                Some(command@ + ": "@ + decode_whole(line@))
            }),
    {
        self.log_error(command, text_of_whole(line))
    }

    /// Says where to send the signal which takes the command's whole process
    /// group down, children included. Nowhere, once the command has been
    /// waited for.
    pub fn kill(&self) -> (group: Option<i32>)
        requires
            self@.pid != Some(0x8000_0000u32),
        ensures
            match group {
                Some(target) => self@.kill_target() == Some(target as int),
                None => self@.kill_target() is None,
            },
            group is Some <==> self@.pid is Some,
            group matches Some(target) ==> (target + self@.pid->0) % 0x1_0000_0000 == 0,
    {
        if let Some(pid) = self.pid {
            let signed = pid as i32;
            assert(pid <= 0x7fff_ffff ==> signed == pid) by (bit_vector)
                requires
                    signed == pid as i32,
            ;
            assert(pid > 0x7fff_ffff ==> signed == pid - 0x1_0000_0000) by (bit_vector)
                requires
                    signed == pid as i32,
            ;
            Some(-signed)
        } else {
            None
        }
    }
}

/// No variable is set twice, and none but those of the session are set.
pub proof fn no_other_variables_are_set(context: Context, name: Seq<char>, value: Seq<char>)
    ensures
        context.variables().contains((name, value)) ==> {
            ||| name == "ASCIINEMA_SESSION"@
            ||| name == "ASCIINEMA_OUTPUT_FILE"@
            ||| name == "ASCIINEMA_SERVER_URL"@
        },
        context.variables().len() == 1 + (if context.output_file is Some {
            1int
        } else {
            0
        }) + (if context.server_url is Some {
            1int
        } else {
            0
        }),
{
}

/// A command is handed to the shell as it is, and differs from another one in
/// nothing but that. Its streams are those asked for, except that its standard
/// error is read.
pub proof fn companions_are_spawned_alike(
    command: Seq<char>,
    other: Seq<char>,
    context: Context,
    stdin: Stdio,
    stdout: Stdio,
)
    ensures
        ({
            let launch = companion(command, context, stdin, stdout);
            let alike = companion(other, context, stdin, stdout);
            &&& launch.program == "/bin/sh"@
            &&& launch.args.len() == 2
            &&& launch.args[0] == "-c"@
            &&& launch.args[1] == command
            &&& launch.env == context.variables()
            &&& launch.stdin == stdin
            &&& launch.stdout == stdout
            &&& launch.stderr is Piped
            &&& launch.kill_on_drop
            &&& launch.process_group == 0
            &&& alike == (LaunchModel { args: seq!["-c"@, other], ..launch })
        }),
{
}

/// A text is blank when all its parts are, down to its characters.
pub proof fn blank_text_has_blank_parts(text: Seq<char>, more: Seq<char>, c: char)
    ensures
        is_blank_text(Seq::empty()),
        is_blank_text(seq![c]) <==> is_white_space(c),
        is_blank_text(text + more) <==> is_blank_text(text) && is_blank_text(more),
{
    assert(seq![c][0] == c);
    if is_blank_text(text + more) {
        assert forall|i: int| 0 <= i < text.len() implies is_white_space(#[trigger] text[i]) by {
            assert((text + more)[i] == text[i]);
        }
        assert forall|i: int| 0 <= i < more.len() implies is_white_space(#[trigger] more[i]) by {
            assert((text + more)[text.len() + i] == more[i]);
        }
    }
}

/// The characters with the `White_Space` property, one by one.
pub open spec fn white_space() -> Seq<char> {
    seq![
        '\u{9}',
        '\u{a}',
        '\u{b}',
        '\u{c}',
        '\u{d}',
        ' ',
        '\u{85}',
        '\u{a0}',
        '\u{1680}',
        '\u{2000}',
        '\u{2001}',
        '\u{2002}',
        '\u{2003}',
        '\u{2004}',
        '\u{2005}',
        '\u{2006}',
        '\u{2007}',
        '\u{2008}',
        '\u{2009}',
        '\u{200a}',
        '\u{2028}',
        '\u{2029}',
        '\u{202f}',
        '\u{205f}',
        '\u{3000}',
    ]
}

/// There are 25 characters of white space, and all others show.
pub proof fn white_space_is_listed(c: char)
    ensures
        white_space().len() == 25,
        is_white_space(c) <==> white_space().contains(c),
{
    let all = white_space();
    if is_white_space(c) {
        let v = c as u32;
        let i: int = if v <= 0xd {
            v - 0x9
        } else if v == 0x20 {
            5
        } else if v == 0x85 {
            6
        } else if v == 0xa0 {
            7
        } else if v == 0x1680 {
            8
        } else if v <= 0x200a {
            v - 0x2000 + 9
        } else if v == 0x2028 {
            20
        } else if v == 0x2029 {
            21
        } else if v == 0x202f {
            22
        } else if v == 0x205f {
            23
        } else {
            24
        };
        assert(all[i] == c);
    }
}

/// A line is what stands before its line ending, with or without a carriage
/// return. Only one line ending is taken off, and a line without one is kept.
pub proof fn line_endings_are_taken_off(line: Seq<u8>)
    ensures
        line.len() == 0 || line.last() != 0x0d ==> line_content(line.push(0x0a)) == line,
        line_content(line.push(0x0d).push(0x0a)) == line,
        line.len() == 0 || line.last() != 0x0a ==> line_content(line) == line,
{
    assert(line.push(0x0d).push(0x0a).take(line.len() as int) =~= line);
    assert(line.push(0x0a).take(line.len() as int) =~= line);
}

/// The target of a signal to the group a process leads is the opposite of its
/// ID, as a signed number of 32 bits.
pub proof fn group_is_opposite_of_leader(pid: u32)
    ensures
        (group_of(pid) + pid) % 0x1_0000_0000 == 0,
        -0x8000_0000 <= group_of(pid) <= 0x8000_0000,
        pid <= 0x7fff_ffff ==> group_of(pid) + pid == 0,
{
}

/// A command is killed where it runs, for as long as it isn't known to have
/// finished.
pub proof fn running_command_can_be_killed<P>(child: ChildModel<P>)
    ensures
        child.kill_target() is Some <==> child.pid is Some,
        child.pid matches Some(pid) ==> (pid <= 0x7fff_ffff ==> (child.kill_target() matches Some(
            target,
        ) && target + pid == 0)),
{
}

/// Waiting for a command, or checking on it, keeps the line it logged last.
/// Waiting for it closes its standard input, and checking on it doesn't.
pub proof fn waiting_keeps_what_was_logged<P>(
    child: ChildModel<P>,
    finished: bool,
    lines: Seq<Seq<char>>,
)
    ensures
        child.after_wait(finished).last_error_line == child.last_error_line,
        child.after_wait(finished).stdin is None,
        child.after_wait(finished).pid is None <==> finished || child.pid is None,
        child.after_try_wait(finished).last_error_line == child.last_error_line,
        child.after_try_wait(finished).stdin == child.stdin,
        child.after_try_wait(finished).pid is None <==> finished || child.pid is None,
        child.after_lines(lines).stdin == child.stdin,
        child.after_lines(lines).pid == child.pid,
    decreases lines.len(),
{
    if lines.len() > 0 {
        waiting_keeps_what_was_logged(child, finished, lines.drop_last());
    }
}

} // verus!
