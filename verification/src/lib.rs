//! A verified core for a sketchpad that captures a single drawing as pixel
//! data: a stroke state machine over a raster surface, a channel sampler that
//! reduces the raster to a flat byte vector, and an export formatter that
//! renders that vector as a human-readable string.

pub mod export;
pub mod laws;
pub mod model;
pub mod router;
pub mod sampler;
pub mod surface;
