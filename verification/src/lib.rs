//! A peer-to-peer chat node without a server: each node keeps a roster and a
//! message log, finds peers on the local network, connects to all of them,
//! and tells each of them what its user writes.
//!
//! The library holds the rules of the node, each with its contract:
//!
//! - [`chat`] and [`roster`]: the store of one node and the laws of its roster;
//! - [`packet`], [`json`] and [`wire`]: the packets and how they are written
//!   and read;
//! - [`handler`]: what a received packet does;
//! - [`session`]: one connection, from its opening to the end of its stream;
//! - [`registry`]: the queues of the open sessions and the fan-out to them;
//! - [`discovery`] and [`dialer`]: finding peers and choosing the first one;
//! - [`screen`] and [`clock`]: what the terminal shows, and the time.
//!
//! Sockets, tasks, locks and the command line live in the program around it.

pub mod chat;
pub mod roster;
pub mod packet;
pub mod json;
pub mod wire;
pub mod handler;
pub mod session;
pub mod registry;
pub mod discovery;
pub mod dialer;
pub mod screen;
pub mod clock;
