//! A file-backed note ledger and an interactive review engine.
//!
//! The library keeps two parallel ordered lists of notes ("necessary" and
//! "optional") in a human-readable text format, guarantees that rendering and
//! re-parsing a ledger loses nothing, and drives a small command-driven
//! state machine that turns lines of operator input into ledger mutations.
//! All file and console traffic stays outside the library: callers hand in
//! file contents and input lines as plain strings and write back what the
//! library renders.

pub mod command;
pub mod context;
pub mod ledger;
pub mod lines;
pub mod notes;
pub mod review;
pub mod textfmt;
pub mod tokens;
