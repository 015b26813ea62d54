//! Coarse image-gradient fields rendered as arrow glyphs.
//!
//! The pipeline has three stages: per-pixel gradients over clamped
//! neighbours, box pooling of those gradients into 8x8 cells, and the
//! quantisation of each cell's direction into one of eight compass glyphs.
//! All arithmetic is exact integer arithmetic.
pub mod raster;
pub mod decode;
pub mod gradient;
pub mod cells;
pub mod glyphs;
pub mod pipeline;

pub use raster::{Pixel, Image};
pub use decode::{decode_image, DecodeError};
pub use gradient::compute_gradient;
pub use cells::pack_cells;
pub use glyphs::{sector, glyph_for_sector, cell_glyph, render_grad};
pub use pipeline::gradient_glyphs;
