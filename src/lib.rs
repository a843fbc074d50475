//! Batch compositing of layered images: each manifest line names an output
//! and the components stacked into it, bottom first. Components are decoded
//! once into a cache shared by all workers, laid over one another with alpha
//! blending, and the composite is encoded as PNG.

pub mod raster;
pub mod compose;
pub mod manifest;
pub mod codec;
pub mod cache;
pub mod pipeline;
pub mod progress;
