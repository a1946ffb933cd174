//! A terminal system-fetch library: a configurable layout engine that turns
//! collected facts about the host into rows, and a rendering layer that
//! formats those rows next to a distribution logo with ANSI colors.
//!
//! All formatting and layout logic is verified; the probes that read the
//! host (system statistics, environment, subprocess output) hand plain
//! values to the verified core.

pub mod ascii;
pub mod bar;
pub mod config;
pub mod configtext;
pub mod disk;
pub mod gpu;
pub mod gradient;
pub mod item;
pub mod json;
pub mod logos;
pub mod numfmt;
pub mod parsers;
pub mod probes;
pub mod render;
pub mod rows;
pub mod sys;
pub mod text;
pub mod theme;
pub mod tree;
pub mod width;

use vstd::prelude::*;

verus! {

/// Width, in characters, of the glyph region of every usage bar.
pub const BAR_WIDTH: u8 = 10;

} // verus!
