//! Turns a nested configuration into dotted `key = value` lines and frames
//! them, with the window they are meant for, as the message a running
//! terminal emulator accepts on its control socket.

pub mod args;
pub mod flatten;
pub mod message;
pub mod number;
pub mod text;
