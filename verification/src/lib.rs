//! Decoder for HAProxy HTTP access-log lines.
//!
//! One log line is tokenized against the fixed default HTTP log grammar and
//! decoded into an immutable [`entry::HaproxyLogEntry`]: every slash-delimited
//! numeric sub-field (timers, connection counters, queue stats) is validated
//! and typed, and the four-character termination-state code is expanded into
//! per-position descriptions.  Decoding a line is a pure function of the line:
//! it either yields a complete record or a [`DecodeError`], never part of one.
//!
//! The grammar lives in [`grammar`], the numeric sub-field decoders in
//! [`subfields`] on top of [`split`] and [`digits`], the termination-state
//! tables in [`termination`], and the assembled record in [`entry`].
//! [`laws`] proves the round-trip properties that relate them; [`paint`] and
//! [`table`] render records for a terminal.

use vstd::prelude::*;

pub mod chars;
pub mod digits;
pub mod split;
pub mod subfields;
pub mod termination;
pub mod grammar;
pub mod paint;
pub mod entry;
pub mod laws;
pub mod table;

verus! {

/// Why a line failed to decode.  Every failure is returned to the caller;
/// no partial record is ever produced.
#[derive(Debug, Clone, Copy, PartialEq, Eq, Structural)]
pub enum DecodeError {
    /// The line does not conform to the token grammar.
    GrammarMismatch,
    /// A slash-delimited sub-field has the wrong number of segments.
    SubfieldArity,
    /// A segment of a sub-field is not a non-negative integer fitting 64 bits.
    SubfieldInteger,
}

} // verus!
