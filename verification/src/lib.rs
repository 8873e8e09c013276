//! A colour picker of the classic kind: a ring of hues round a triangle of
//! saturation and value.
//!
//! The library holds everything about the picker that is arithmetic, in whole
//! numbers throughout:
//!
//! - [`color`]: one colour as RGB, CMY and HSV at 16 bits per channel, kept
//!   in step whichever of them is written;
//! - [`round_trip`]: how much a colour can change on its way from RGB to HSV
//!   and back;
//! - [`ring`]: the 360 arcs of the hue ring and their colours;
//! - [`geometry`]: where ring and triangle lie on a canvas of a given size;
//! - [`raster`]: the triangle pixel by pixel, blended from the colours of its
//!   three corners;
//! - [`picker`]: what presses, moves and drags of the pointer do to rotation
//!   and colour.
//!
//! No function here takes or returns a floating-point number. Positions have
//! 256 units to the pixel and angles a million units to the degree. Cosines,
//! sines and the angles of vectors come from the caller, and so does the
//! drawing itself.

pub mod color;
pub mod geometry;
pub mod picker;
pub mod raster;
pub mod ring;
pub mod round_trip;
