//! A registry of pseudo-terminal sessions and the rules that govern them.
//!
//! The registry owns one handle per session, hands out stable indices, and
//! decides what every command does: which index is valid, what is written,
//! how filled bytes become text, which geometry a session has. Talking to the
//! operating system is left to the caller, who reports each outcome back.

pub mod decode;
pub mod error;
pub mod geometry;
pub mod laws;
pub mod registry;
pub mod session;
pub mod shell;
