//! The protocol of a small token-guarded line service: a peer first presents
//! a shared secret, and is then answered one short text command at a time.
//!
//! The library holds the decisions of one connection: how a chunk of bytes
//! becomes text, whether a first message authenticates, which reply a command
//! earns, and how the session moves between its phases. Sockets, threads and
//! logging are left to the program around it.

pub mod clock;
pub mod laws;
pub mod protocol;
pub mod session;
pub mod text;
