//! A line-oriented text-concatenation library.
//!
//! The library resolves raw command-line tokens into a [`config::Config`],
//! and turns the lines read from an ordered list of sources into the exact
//! output and diagnostic lines to emit, applying the numbering policy the
//! configuration asks for.  All of it is verified; the surrounding binary
//! only opens sources, reads lines, and prints what the library hands back.

pub mod args;
pub mod config;
pub mod emit;
pub mod laws;
pub mod numbering;
