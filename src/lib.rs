//! Platform-independent core of a Direct2D backend for the piet drawing
//! abstraction: colour and gradient conversion, the shape fast paths, and
//! the figure tracking that turns a path into geometry-sink calls.

pub mod color;
pub mod draw;
pub mod image;
pub mod path;
pub mod text;
