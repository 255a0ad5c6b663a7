//! A terminal-emulation engine: a byte-stream decoder for ANSI/VT100/xterm
//! control sequences driving a persistent character grid.
//!
//! The crate is layered bottom-up:
//! - [`glyph`]: the per-cell unit of the grid (codepoint, colors, attributes)
//!   and the pure color-resolution function used by a renderer.
//! - [`term`]: the two-dimensional cell buffer, cursor, mode flags, and the
//!   primitive mutations (scroll, clear, insert/delete) a decoder invokes.
//! - [`parser`]: the escape-sequence state machine that consumes one input
//!   byte at a time and drives the grid.

pub mod glyph;
pub mod laws;
pub mod parser;
pub mod term;

pub use glyph::Glyph;
pub use parser::Parser;
pub use term::Term;
