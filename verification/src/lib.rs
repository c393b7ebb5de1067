//! Rainbow terminal text for the cat-fax utility.
//!
//! The heart of the crate is a stateful stream colorizer: it consumes a
//! character or line stream and emits the same text with every visible
//! character wrapped in a 24-bit ANSI color whose hue is a deterministic,
//! position-dependent function of a row/column cursor. Around it stand the
//! pieces of the command-line tool that are pure computation: word wrapping,
//! argument parsing, and the ASCII-art box layout.
//!
//! All color parameters are fixed-point integers in thousandths, so the
//! whole hue computation is exact integer arithmetic.

pub mod args;
pub mod color;
pub mod escape;
pub mod facts;
pub mod layout;
pub mod stream;
pub mod strutil;
pub mod wrap;
