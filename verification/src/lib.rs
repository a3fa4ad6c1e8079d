//! A verified Mandelbrot-set rasterizer.
//!
//! The library works on a rectangular viewport of the complex plane and a
//! pixel grid.  Complex points are held in fixed-point arithmetic (a pair of
//! scaled integers), which makes every arithmetic step exact and provable.
//! The escape-time evaluator iterates `z := z*z + c` and reports the first
//! iteration at which `z` leaves the disk of radius 2, the coordinate mapper
//! turns a pixel coordinate into a complex point, and the render pass fills a
//! row-major byte buffer with intensities derived from escape times.  The
//! parser reads image sizes and complex coordinates from text, and the PNG
//! module encodes a finished buffer in memory.

pub mod complex;
pub mod escape;
pub mod mapper;
pub mod parse;
pub mod png;
pub mod render;
