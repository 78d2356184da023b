//! Caller-supplied configuration for one stitch run.

use vstd::prelude::*;

verus! {

/// The layout policy controlling the grid shape.
#[derive(Debug, Clone, Copy, PartialEq, Eq, Structural)]
pub enum Alignment {
    /// Rows and columns chosen as square as possible, ties toward fewer rows.
    Grid,
    /// All images in a single row.
    Horizontal,
    /// All images in a single column.
    Vertical,
}

/// A width or height cap of this value means "no cap": no canvas can
/// exceed it, so it never forces a downscale.
pub const NO_LIMIT: u32 = 0xFFFF_FFFF;

/// Alignment mode, maximum canvas dimensions, and encoder quality for one
/// run. Limits are positive; `NO_LIMIT` leaves a dimension uncapped, and a
/// zero limit makes every layout infeasible.
#[derive(Debug, Clone, Copy, PartialEq, Eq, Structural)]
pub struct StitchConfig {
    pub alignment: Alignment,
    pub width_limit: u32,
    pub height_limit: u32,
    /// Compression quality, 0-100; meaningful only for lossy output formats.
    pub quality: u32,
}

} // verus!
