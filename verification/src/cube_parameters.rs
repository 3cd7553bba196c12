//! The parameters that a user can tune while the cube spins.
//!
//! Angles are in hundredths of a degree; the camera distance, the projection
//! scale and the resolution step are in hundredths. The three auto flags are
//! multipliers in hundredths: 0 or 100, which stands for one, unless they are
//! set directly. An angle or a flag can be any 64-bit number, and an edit that
//! would leave that range stops at its end. The camera distance, the
//! projection scale and the resolution step have narrower ranges, at whose
//! ends their edits stop.

use vstd::prelude::*;
use crate::constants::AUTO_ON;
use crate::constants::DISTANCE_FROM_CAMERA;
use crate::constants::MIN_RESOLUTION_STEP;
use crate::constants::PARAMETER_LIMIT;
use crate::constants::PROJECTION_SCALE;
use crate::constants::RESOLUTION_STEP;
use crate::cube_actions::Control;
use crate::cube_actions::CubeAction;
use crate::rounding::lemma_nearest_is_nearest;
use crate::rounding::nearest;
use crate::rounding::nearest_whole;

verus! {

/// The parameters of the scene.
#[derive(Clone, Copy, Debug, PartialEq, Eq, Structural)]
pub struct CubeParameters {
    /// Turn about the z axis, in hundredths of a degree.
    pub alpha: i64,
    /// Turn about the y axis, in hundredths of a degree.
    pub beta: i64,
    /// Turn about the x axis, in hundredths of a degree.
    pub gamma: i64,
    /// The part of its step by which alpha moves on with each frame, in
    /// hundredths.
    pub auto_alpha: i64,
    /// The part of its step by which beta moves on with each frame, in
    /// hundredths.
    pub auto_beta: i64,
    /// The part of its step by which gamma moves on with each frame, in
    /// hundredths.
    pub auto_gamma: i64,
    /// Distance of the camera from the cube's centre, in hundredths.
    pub distance_from_camera: i64,
    /// Magnification of the picture, in hundredths.
    pub projection_scale: i64,
    /// Spacing of the samples on a face, in hundredths.
    pub resolution_step: i64,
}

/// `v` brought into the range of a 64-bit number.
pub open spec fn saturated(v: int) -> int {
    if v < i64::MIN {
        i64::MIN as int
    } else if v > i64::MAX {
        i64::MAX as int
    } else {
        v
    }
}

/// `v` brought into the range of the camera distance and the projection scale.
pub open spec fn limited(v: int) -> int {
    if v < -PARAMETER_LIMIT {
        -PARAMETER_LIMIT as int
    } else if v > PARAMETER_LIMIT {
        PARAMETER_LIMIT as int
    } else {
        v
    }
}

/// `v` brought into the range of a resolution step, which is never below
/// `MIN_RESOLUTION_STEP`.
pub open spec fn step_limited(v: int) -> int {
    if v < MIN_RESOLUTION_STEP {
        MIN_RESOLUTION_STEP as int
    } else if v > PARAMETER_LIMIT {
        PARAMETER_LIMIT as int
    } else {
        v
    }
}

/// Brings a value into the range of a 64-bit number.
fn saturate(v: i128) -> (r: i64)
    ensures
        r == saturated(v as int),
{
    if v < i64::MIN as i128 {
        i64::MIN
    } else if v > i64::MAX as i128 {
        i64::MAX
    } else {
        v as i64
    }
}

/// Brings a value into the range of the camera distance and the projection
/// scale.
fn limit(v: i128) -> (r: i64)
    ensures
        r == limited(v as int),
{
    if v < -(PARAMETER_LIMIT as i128) {
        -PARAMETER_LIMIT
    } else if v > PARAMETER_LIMIT as i128 {
        PARAMETER_LIMIT
    } else {
        v as i64
    }
}

/// Brings a value into the range of a resolution step.
fn limit_step(v: i128) -> (r: i64)
    ensures
        r == step_limited(v as int),
{
    if v < MIN_RESOLUTION_STEP as i128 {
        MIN_RESOLUTION_STEP
    } else if v > PARAMETER_LIMIT as i128 {
        PARAMETER_LIMIT
    } else {
        v as i64
    }
}

/// The step of an angle, in hundredths of a degree, times its auto flag, in
/// hundredths, to the nearest hundredth of a degree.
fn part_of_step(step: i64, flag: i64) -> (part: i128)
    requires
        0 <= step <= 250,
    ensures
        part == nearest(step * flag, 100),
        -0x2_0000_0000_0000_0000 <= part <= 0x2_0000_0000_0000_0000,
{
    proof {
        assert(-250 * 0x8000_0000_0000_0000 <= step * flag <= 250 * 0x8000_0000_0000_0000)
            by (nonlinear_arith)
            requires
                0 <= step <= 250,
                -0x8000_0000_0000_0000 <= flag <= 0x8000_0000_0000_0000,
        ;
        lemma_nearest_is_nearest(step * flag, 100);
    }
    nearest_whole((step as i128) * (flag as i128), 100)
}

impl CubeParameters {
    /// The parameters at the start, and after a reset.
    pub open spec fn defaults() -> CubeParameters {
        CubeParameters {
            alpha: 0,
            beta: 0,
            gamma: 0,
            auto_alpha: 0,
            auto_beta: 0,
            auto_gamma: 0,
            distance_from_camera: DISTANCE_FROM_CAMERA,
            projection_scale: PROJECTION_SCALE,
            resolution_step: RESOLUTION_STEP,
        }
    }

    /// These parameters with the camera distance, the projection scale and the
    /// resolution step brought into their ranges.
    pub open spec fn normal_form(self) -> CubeParameters {
        CubeParameters {
            distance_from_camera: limited(self.distance_from_camera as int) as i64,
            projection_scale: limited(self.projection_scale as int) as i64,
            resolution_step: step_limited(self.resolution_step as int) as i64,
            ..self
        }
    }

    /// Every parameter lies in its range.
    pub open spec fn wf(self) -> bool {
        self == self.normal_form()
    }

    /// These parameters one frame later: each angle has moved on by its fixed
    /// step, 2.5, 2 and 1.5 degrees, times its auto flag, to the nearest
    /// hundredth of a degree.
    pub open spec fn advanced(self) -> CubeParameters {
        CubeParameters {
            alpha: saturated(self.alpha + nearest(250 * self.auto_alpha, 100)) as i64,
            beta: saturated(self.beta + nearest(200 * self.auto_beta, 100)) as i64,
            gamma: saturated(self.gamma + nearest(150 * self.auto_gamma, 100)) as i64,
            ..self
        }
    }

    /// These parameters after one action of the user.
    pub open spec fn after(self, action: CubeAction) -> CubeParameters {
        match action {
            CubeAction::ToggleAutoAlpha => CubeParameters {
                auto_alpha: saturated(AUTO_ON - self.auto_alpha) as i64,
                ..self
            },
            CubeAction::IncreaseAlpha => CubeParameters {
                alpha: saturated(self.alpha + 250) as i64,
                ..self
            },
            CubeAction::DecreaseAlpha => CubeParameters {
                alpha: saturated(self.alpha - 500) as i64,
                ..self
            },
            CubeAction::ToggleAutoBeta => CubeParameters {
                auto_beta: saturated(AUTO_ON - self.auto_beta) as i64,
                ..self
            },
            CubeAction::IncreaseBeta => CubeParameters {
                beta: saturated(self.beta + 250) as i64,
                ..self
            },
            CubeAction::DecreaseBeta => CubeParameters {
                beta: saturated(self.beta - 500) as i64,
                ..self
            },
            CubeAction::ToggleAutoGamma => CubeParameters {
                auto_gamma: saturated(AUTO_ON - self.auto_gamma) as i64,
                ..self
            },
            CubeAction::IncreaseGamma => CubeParameters {
                gamma: saturated(self.gamma + 250) as i64,
                ..self
            },
            CubeAction::DecreaseGamma => CubeParameters {
                gamma: saturated(self.gamma - 500) as i64,
                ..self
            },
            CubeAction::IncreaseDistanceFromCamera => CubeParameters {
                distance_from_camera: limited(self.distance_from_camera + 150) as i64,
                ..self
            },
            CubeAction::DecreaseDistanceFromCamera => CubeParameters {
                distance_from_camera: limited(self.distance_from_camera - 100) as i64,
                ..self
            },
            CubeAction::IncreaseProjectionScale => CubeParameters {
                projection_scale: limited(self.projection_scale + 150) as i64,
                ..self
            },
            CubeAction::DecreaseProjectionScale => CubeParameters {
                projection_scale: limited(self.projection_scale - 100) as i64,
                ..self
            },
            CubeAction::IncreaseResolutionStep => CubeParameters {
                resolution_step: step_limited(self.resolution_step + 10) as i64,
                ..self
            },
            CubeAction::DecreaseResolutionStep => CubeParameters {
                resolution_step: step_limited(self.resolution_step - 10) as i64,
                ..self
            },
            CubeAction::Reset => CubeParameters::defaults(),
            CubeAction::Quit => self,
        }
    }

    /// The parameters at the start: no turn, no auto rotation, and the fixed
    /// camera distance, projection scale and resolution step.
    pub fn new() -> (made: CubeParameters)
        ensures
            made == CubeParameters::defaults(),
            made.wf(),
    {
        CubeParameters {
            alpha: 0,
            beta: 0,
            gamma: 0,
            auto_alpha: 0,
            auto_beta: 0,
            auto_gamma: 0,
            distance_from_camera: DISTANCE_FROM_CAMERA,
            projection_scale: PROJECTION_SCALE,
            resolution_step: RESOLUTION_STEP,
        }
    }

    /// Puts every parameter back to its value at the start.
    pub fn reset(&mut self)
        ensures
            *final(self) == CubeParameters::defaults(),
    {
        *self = CubeParameters::new();
    }

    /// Whether every parameter lies in its range.
    pub fn is_wf(&self) -> (ok: bool)
        ensures
            ok == self.wf(),
    {
        let n = self.normalized();
        n.alpha == self.alpha && n.beta == self.beta && n.gamma == self.gamma && n.auto_alpha
            == self.auto_alpha && n.auto_beta == self.auto_beta && n.auto_gamma == self.auto_gamma
            && n.distance_from_camera == self.distance_from_camera && n.projection_scale
            == self.projection_scale && n.resolution_step == self.resolution_step
    }

    /// These parameters with the camera distance, the projection scale and the
    /// resolution step brought into their ranges. This is what the drawing
    /// works with, so that a resolution step that was set to zero or
    /// less cannot keep it from ending.
    pub fn normalized(&self) -> (bounded: CubeParameters)
        ensures
            bounded == self.normal_form(),
            bounded.wf(),
    {
        CubeParameters {
            alpha: self.alpha,
            beta: self.beta,
            gamma: self.gamma,
            auto_alpha: self.auto_alpha,
            auto_beta: self.auto_beta,
            auto_gamma: self.auto_gamma,
            distance_from_camera: limit(self.distance_from_camera as i128),
            projection_scale: limit(self.projection_scale as i128),
            resolution_step: limit_step(self.resolution_step as i128),
        }
    }

    /// Moves each angle on by its fixed step per frame times its auto flag, to
    /// the nearest hundredth of a degree.
    pub fn update_auto_rotations(&mut self)
        ensures
            *final(self) == old(self).advanced(),
            old(self).wf() ==> final(self).wf(),
    {
        self.alpha = saturate(self.alpha as i128 + part_of_step(250, self.auto_alpha));
        self.beta = saturate(self.beta as i128 + part_of_step(200, self.auto_beta));
        self.gamma = saturate(self.gamma as i128 + part_of_step(150, self.auto_gamma));
    }

    /// Carries out one action of the user and says whether the program is to
    /// go on. `Reset` gives the parameters of the start. `Quit` changes
    /// nothing and asks the caller to stop.
    pub fn apply_action(&mut self, action: CubeAction) -> (control: Control)
        ensures
            *final(self) == old(self).after(action),
            action == CubeAction::Reset ==> *final(self) == CubeParameters::defaults(),
            control == action.control(),
            old(self).wf() ==> final(self).wf(),
    {
        match action {
            CubeAction::ToggleAutoAlpha => {
                self.auto_alpha = saturate(AUTO_ON as i128 - self.auto_alpha as i128);
            },
            CubeAction::IncreaseAlpha => {
                self.alpha = saturate(self.alpha as i128 + 250);
            },
            CubeAction::DecreaseAlpha => {
                self.alpha = saturate(self.alpha as i128 - 500);
            },
            CubeAction::ToggleAutoBeta => {
                self.auto_beta = saturate(AUTO_ON as i128 - self.auto_beta as i128);
            },
            CubeAction::IncreaseBeta => {
                self.beta = saturate(self.beta as i128 + 250);
            },
            CubeAction::DecreaseBeta => {
                self.beta = saturate(self.beta as i128 - 500);
            },
            CubeAction::ToggleAutoGamma => {
                self.auto_gamma = saturate(AUTO_ON as i128 - self.auto_gamma as i128);
            },
            CubeAction::IncreaseGamma => {
                self.gamma = saturate(self.gamma as i128 + 250);
            },
            CubeAction::DecreaseGamma => {
                self.gamma = saturate(self.gamma as i128 - 500);
            },
            CubeAction::IncreaseDistanceFromCamera => {
                self.distance_from_camera = limit(self.distance_from_camera as i128 + 150);
            },
            CubeAction::DecreaseDistanceFromCamera => {
                self.distance_from_camera = limit(self.distance_from_camera as i128 - 100);
            },
            CubeAction::IncreaseProjectionScale => {
                self.projection_scale = limit(self.projection_scale as i128 + 150);
            },
            CubeAction::DecreaseProjectionScale => {
                self.projection_scale = limit(self.projection_scale as i128 - 100);
            },
            CubeAction::IncreaseResolutionStep => {
                self.resolution_step = limit_step(self.resolution_step as i128 + 10);
            },
            CubeAction::DecreaseResolutionStep => {
                self.resolution_step = limit_step(self.resolution_step as i128 - 10);
            },
            CubeAction::Reset => {
                self.reset();
            },
            CubeAction::Quit => {},
        }
        match action {
            CubeAction::Quit => Control::Stop,
            _ => Control::Continue,
        }
    }
}

} // verus!
