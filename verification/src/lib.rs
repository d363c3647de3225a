//! Real-time streaming of a terminal session: the verified core.
//!
//! A terminal driver calls the [`streamer::Streamer`] on every output chunk,
//! input chunk and resize; the events that come back go, in call order, to the
//! event loop, which owns the [`session::Session`]. Viewers join through the
//! [`server::AdmissionGate`], get the history so far as their catch-up and
//! every later event through their queue. Threads, sockets and clocks are the
//! caller's: everything here is a function of what it is given.

pub mod event;
pub mod event_loop;
pub mod keys;
pub mod lifecycle;
pub mod notifier;
pub mod server;
pub mod session;
pub mod streamer;
pub mod timeline;
pub mod viewers;

pub use crate::keys::{get_key_bindings, KeyBindings};
pub use crate::streamer::Streamer;
