//! The fixed numbers of the scene and the limits of its parameters.

use vstd::prelude::*;

verus! {

/// How many steps of a sine or cosine make up the real value one.
pub const TRIG_UNIT: i32 = 1_000_000;

/// `TRIG_UNIT` to the third power: how many parts of a turned coordinate make
/// up one hundredth.
pub const TRIG_UNIT_CUBED: i128 = 1_000_000_000_000_000_000;

/// How far the squares of a sine and a cosine, each rounded to the nearest
/// part of `TRIG_UNIT`, may add up beside the square of `TRIG_UNIT`: each is
/// off by at most half a part, which moves the sum by less than
/// `TRIG_UNIT` · √2 + 1.
pub const CIRCLE_TOLERANCE: i32 = 1_414_215;

/// The cube's edge, in hundredths.
pub const CUBE_WIDTH: i32 = 2500;

/// Half the cube's edge cut down to a whole number, in hundredths.
pub const HALF_CUBE_WIDTH: i32 = 1200;

/// Columns of the canvas.
pub const CANVAS_WIDTH: usize = 80;

/// Rows of the canvas.
pub const CANVAS_HEIGHT: usize = 40;

/// The character of a cell on which nothing is drawn.
pub const BACKGROUND_ASCII_CODE: char = ' ';

/// The camera's distance from the cube's centre at the start, in hundredths.
pub const DISTANCE_FROM_CAMERA: i64 = 6500;

/// The projection scale at the start, in hundredths.
pub const PROJECTION_SCALE: i64 = 3250;

/// The spacing of the samples on a face at the start, in hundredths.
pub const RESOLUTION_STEP: i64 = 60;

/// The smallest spacing of samples that is ever used, in hundredths.
pub const MIN_RESOLUTION_STEP: i64 = 5;

/// The camera distance, the projection scale and the resolution step do not
/// go beyond this, nor the first two below minus this: the projection works
/// within 128 bits.
pub const PARAMETER_LIMIT: i64 = 1_000_000;

/// The auto flag of an angle that turns by itself: one, in hundredths.
pub const AUTO_ON: i64 = 100;

/// The largest number of columns, and of rows, that a canvas can have.
pub const MAX_CANVAS_SIDE: usize = 1_024;

} // verus!
