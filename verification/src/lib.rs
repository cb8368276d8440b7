//! A leveled, structured event and span logging facility.
//!
//! The library decides what is logged and how a record reads; the caller
//! supplies the clock, the thread identity and the stream that the text is
//! written to.

pub mod clean;
pub mod config;
pub mod event;
pub mod format;
pub mod logger;
pub mod parse;
pub mod roundtrip;
pub mod severity;
pub mod sink;
pub mod span;
pub mod text;
