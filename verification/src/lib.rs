//! A bridge between a host application and a shell running on a
//! pseudoterminal: the rules for sizing the terminal and choosing the shell,
//! and an incremental UTF-8 decoder for the shell's output.

pub mod decoder;
pub mod input;
pub mod session;
pub mod shell;
pub mod size;
pub mod stream_laws;
pub mod utf8;
