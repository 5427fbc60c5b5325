//! Zero-copy parser for a fixed, space-delimited access-log line format.
//!
//! The entry point is [`record::LogMessage::try_parse`], which walks one line
//! left to right under per-field scan windows and returns either a fully
//! populated borrowed record or `None`.

pub mod scan;

pub mod digits;

pub mod ip;

pub mod date;

pub mod record;

pub mod parse;

pub mod laws;
