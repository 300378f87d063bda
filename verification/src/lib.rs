//! The integer skeleton of two-dimensional gradient noise.
//!
//! A noise field is laid out over a rectangle of square chunks. Everything
//! about it that is decided in whole numbers lives here: how large the field
//! is, which gradient vertices surround a pixel and how far away they lie,
//! and which finer fields are laid over a base field to make fractal noise.
//! The real-valued blending itself is left to the caller.

pub mod grid;
pub mod octave;
pub mod seeds;
pub mod terrain;

pub use grid::Corner;
pub use grid::Offset;
pub use grid::Perlin;
pub use grid::Stencil;
pub use octave::covering_chunks;
pub use octave::Layout;
pub use octave::OctavePlan;
pub use octave::Step;
pub use terrain::shift_shade;
pub use terrain::Band;
