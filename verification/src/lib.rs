//! Rasterization of geometric primitives onto an addressable pixel surface.
//!
//! Shapes (points, lines, triangles, axis-aligned rectangles, circles,
//! regular pentagons and a pseudo-3D cube) are plain values over integer
//! coordinates.  Each shape draws itself onto any surface offering a single
//! "set pixel" operation, and the exact sequence of emitted pixel-set calls
//! is stated by a specification function per shape and proved against it.

pub mod canvas;
pub mod circle;
pub mod color;
pub mod cube;
pub mod drawable;
pub mod line;
pub mod pentagon;
pub mod point;
pub mod rectangle;
pub mod sample;
pub mod triangle;
