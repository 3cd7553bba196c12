//! A spinning cube drawn with characters, computed in exact fixed-point
//! arithmetic.
//!
//! Each frame samples the six faces of a cube on a grid, turns every sample by
//! three angles, projects it onto a character canvas with perspective, and
//! keeps for every cell the sample nearest to the camera. Lengths, angles and
//! the other parameters are integers that count hundredths; sines and cosines
//! are integers that count millionths. No step rounds except the last one,
//! which picks the pixel.
//!
//! The library takes the sines and cosines of the angles from its caller, and
//! hands back a canvas of characters; it reads no key and prints nothing.

pub mod constants;
pub mod rounding;
pub mod cube_actions;
pub mod cube_parameters;
pub mod rotation;
pub mod rotation_laws;
pub mod near_inverse;
pub mod isometry;
pub mod projection;
pub mod frame;
pub mod rendering;
pub mod visibility;
pub mod face_order;
pub mod presentation;
