//! The decision logic of a transparent TCP relay.
//!
//! Every type here is a plain state machine: the caller performs the socket
//! work, reports what happened as an event, and carries out the action that
//! the machine answers with.

pub mod acceptor;
pub mod config;
pub mod gate;
pub mod handshake;
pub mod numeral;
pub mod pump;
pub mod session;
pub mod timer;
