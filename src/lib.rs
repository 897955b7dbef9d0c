//! A falling-sand cellular automaton: a boolean occupancy grid, a
//! gravity-driven update rule that reads a per-tick snapshot, and an encoder
//! that packs 2×4 blocks of cells into braille glyphs.

pub mod grid;
pub mod rules;
pub mod world;
pub mod glyph;
pub mod laws;
