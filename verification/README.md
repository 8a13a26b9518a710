# asciinema

The logic of recording terminal sessions, written in Rust and verified with
Verus.

A session runs a command in a terminal of its own, passes bytes between the user
and the command, and records what happens as a stream of timed events. The
events go to sinks: recording files, and hooks, which are companion commands fed
with the live stream.

- `src/` is the library. It performs no I/O: its state machines say what to do
  next, and are told what came of it. Every function has a contract, and what
  holds of whole sessions, of sinks and of hooks is proved.
- `app/` is the part which talks to terminals, processes and pipes, on top of
  tokio. The terminal, the pseudo-terminal, the notifier and the encoder of the
  recording are traits there.
- `tests/` runs the library.

Two things are taken on trust: how `bytes::BytesMut` keeps bytes
(`src/buffer.rs`), and that `String::from_utf8` reads valid UTF-8
(`src/util.rs`).
