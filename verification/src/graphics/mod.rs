//! Drawing routines: filled and outlined shapes, lines, gradients, text,
//! drop shadows, the mouse cursor and the application grid layout.
pub mod raster;
pub mod shadow;
pub mod compositor;
pub mod text;
pub mod icons;
pub mod stars;
