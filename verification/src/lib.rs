//! A verified image-stitching pipeline: validates a set of raster image
//! sources, arranges them on a single canvas under alignment and size
//! constraints, composites them into one pixel buffer, and encodes the
//! result in a caller-chosen container format.

pub mod error;
pub mod config;
pub mod format;
pub mod source;
pub mod files;
pub mod layout;
pub mod compose;
pub mod imgio;
pub mod stitch;
pub mod pipeline;
