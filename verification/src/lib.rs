//! The logic of recording terminal sessions.
//!
//! A session runs a command in a terminal of its own, passes bytes between the
//! user and the command, and records what happens as a stream of timed events.
//! The events go to a number of sinks, such as a recording file, or a hook: a
//! companion command which is fed with the live stream.
//!
//! Nothing here performs I/O. Where a decision depends on what comes of it, the
//! decision is made by a state machine, which says what to do next and is told
//! what came of it.
//!
//! - [`util`] turns byte streams into text,
//! - [`session`] decides what is recorded, and when it happened,
//! - [`pump`] runs a session from start to end, with the bytes in flight kept
//!   in a [`buffer`],
//! - [`trace`] states what holds of whole sessions,
//! - [`sink`] copes with failing sinks, and [`forward`] feeds events to sinks
//!   until the session ends,
//! - [`spawn`] and [`hook`] deal with companion commands.

pub mod buffer;
pub mod forward;
pub mod hook;
pub mod pump;
pub mod session;
pub mod sink;
pub mod spawn;
pub mod time;
pub mod trace;
pub mod tty;
pub mod util;
