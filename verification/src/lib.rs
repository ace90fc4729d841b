//! Communication engine for a Coolbox Autofan board.
//!
//! The board talks over a serial line without any framing: a message ends
//! when the line falls silent. This crate holds the decisions of the engine
//! that keeps the line open: how bytes read from the board are gathered into
//! broadcast chunks and command replies, how one command at a time is taken
//! through writing, settling and waiting, and how broadcast chunks are fanned
//! out to subscribers. Reading, writing, sleeping and waiting are left to the
//! program that owns the port; it reports what happened as events and carries
//! out the actions that the engine answers with.
pub mod autofan;
pub mod bus;
pub mod framing;
pub mod laws;
pub mod port;
pub mod protocol;
pub mod request;
pub mod text;
