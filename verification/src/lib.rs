//! Flow: the filtering core of a realtime log analyzer.
//!
//! Incoming lines are kept in a bounded store. Each filter view scans the
//! store from the newest line to the oldest and keeps the lines of the
//! blocks that its start, content and end patterns delimit; a buffer cuts a
//! page of bounded height out of what the scan yields and keeps its place
//! while the store grows.
//!
//! - `pattern`: compiled patterns, and the names under which the answers of
//!   the pattern matcher enter the contracts;
//! - `ansi`: styling sequences, stripped from a payload and cut out of it;
//! - `line`: lines and the bounded store;
//! - `filter`: filters, their kinds, and the state machine of a scan;
//! - `scan`: the backward scan and what holds of its outcome;
//! - `buffer`: buffers, their positions and pages, and their collection;
//! - `rendered_line`: the record of the rows drawn;
//! - `flow`: the coordinator of store and buffers;
//! - `tail`: the decisions of the reader of the file's end;
//! - `settings`: what a run is started with.

pub mod pattern;
pub mod ansi;
pub mod line;
pub mod filter;
pub mod scan;
pub mod buffer;
pub mod rendered_line;
pub mod flow;
pub mod tail;
pub mod settings;
