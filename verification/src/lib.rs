//! Verified extraction of a cinema showtime schedule from markup text.
//!
//! The library builds a title-to-runtime table from the grid region of a
//! page, walks the per-date block region to collect individual showings,
//! joins each showing against the table to derive an end time, and groups
//! and orders the result by date and start time.
//!
//! - `text`: byte-level helpers (trimming, substring search).
//! - `parse`: the three fixed grammars (clock time, calendar date, runtime
//!   label).
//! - `model`: dates, times, language flags and showings, with their
//!   invariants.
//! - `table`: the title-to-runtime mapping (last write wins).
//! - `extract`: the per-card and per-item decisions, with the laws on
//!   malformed dates and times.
//! - `schedule`: grouping and ordering, with the laws on order and count.
//! - `dom`: the trusted boundary to the document tree, and the full
//!   pipeline over it.

pub mod dom;
pub mod extract;
pub mod model;
pub mod parse;
pub mod schedule;
pub mod table;
pub mod text;
