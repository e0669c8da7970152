//! Verified core of a chat-protocol frame-data bot: the line codec that
//! classifies inbound protocol lines, the command extractor, the command
//! dispatcher with its error taxonomy, reply formatting, and the
//! connection-session state machine.
//!
//! Transport I/O and the external frame-data lookup collaborator stay outside
//! this crate; the library works on plain text lines and on the collaborator's
//! injected answers, so every decision it makes is verified.

pub mod codec;
pub mod command;
pub mod dispatch;
pub mod session;
pub mod text;
