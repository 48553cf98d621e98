//! Removes stray noise blocks from a black-glyph-on-white raster that was
//! upscaled 2x, by locating the logical 2x2 pixel grid and erasing isolated
//! blocks that are not part of a glyph stroke.

pub mod raster;
pub mod classify;
pub mod locate;
pub mod candidates;
pub mod judge;
pub mod pipeline;
