//! A verified core for a line-oriented telnet game client.
//!
//! The library holds the protocol-independent logic of the client: the
//! input pump that gathers keyboard bytes into complete lines, the
//! session state machine that reacts to decoded telnet events, and the
//! terminal echo flag computation. All I/O (the socket, the terminal,
//! standard input) stays outside, in the binary that drives the loop.

pub mod echo;
pub mod pump;
pub mod session;
