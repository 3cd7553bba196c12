//! The actions of the user, and the keys that are bound to them.

use vstd::prelude::*;
use crate::cube_parameters::CubeParameters;

verus! {

/// One edit of the parameters, or the wish to start afresh or to leave.
#[derive(Clone, Copy, Debug, PartialEq, Eq, Structural)]
pub enum CubeAction {
    ToggleAutoAlpha,
    IncreaseAlpha,
    DecreaseAlpha,
    ToggleAutoBeta,
    IncreaseBeta,
    DecreaseBeta,
    ToggleAutoGamma,
    IncreaseGamma,
    DecreaseGamma,
    IncreaseDistanceFromCamera,
    DecreaseDistanceFromCamera,
    IncreaseProjectionScale,
    DecreaseProjectionScale,
    IncreaseResolutionStep,
    DecreaseResolutionStep,
    Reset,
    Quit,
}

/// What the main loop is to do after an action.
#[derive(Clone, Copy, Debug, PartialEq, Eq, Structural)]
pub enum Control {
    /// Draw the next frame.
    Continue,
    /// Leave the loop and end the program.
    Stop,
}

/// A key as far as the bindings care: a character key or any other key.
#[derive(Clone, Copy, Debug, PartialEq, Eq, Structural)]
pub enum Key {
    /// The key of a character.
    Char(char),
    /// A key that stands for no character.
    Other,
}

impl CubeAction {
    /// Only `Quit` stops the loop.
    pub open spec fn control(self) -> Control {
        if self == CubeAction::Quit {
            Control::Stop
        } else {
            Control::Continue
        }
    }
}

/// The action that a key is bound to, if any.
pub open spec fn bound_action(key: Key) -> Option<CubeAction> {
    match key {
        Key::Char('a') => Some(CubeAction::ToggleAutoAlpha),
        Key::Char('e') => Some(CubeAction::IncreaseAlpha),
        Key::Char('r') => Some(CubeAction::DecreaseAlpha),
        Key::Char('b') => Some(CubeAction::ToggleAutoBeta),
        Key::Char('d') => Some(CubeAction::IncreaseBeta),
        Key::Char('f') => Some(CubeAction::DecreaseBeta),
        Key::Char('g') => Some(CubeAction::ToggleAutoGamma),
        Key::Char('c') => Some(CubeAction::IncreaseGamma),
        Key::Char('v') => Some(CubeAction::DecreaseGamma),
        Key::Char('u') => Some(CubeAction::IncreaseDistanceFromCamera),
        Key::Char('j') => Some(CubeAction::DecreaseDistanceFromCamera),
        Key::Char('i') => Some(CubeAction::IncreaseProjectionScale),
        Key::Char('k') => Some(CubeAction::DecreaseProjectionScale),
        Key::Char('o') => Some(CubeAction::IncreaseResolutionStep),
        Key::Char('l') => Some(CubeAction::DecreaseResolutionStep),
        Key::Char('z') => Some(CubeAction::Reset),
        Key::Char('q') => Some(CubeAction::Quit),
        _ => None,
    }
}

/// Looks up the action that a key is bound to.
pub fn key_to_action(key: Key) -> (action: Option<CubeAction>)
    ensures
        action == bound_action(key),
{
    match key {
        Key::Char('a') => Some(CubeAction::ToggleAutoAlpha),
        Key::Char('e') => Some(CubeAction::IncreaseAlpha),
        Key::Char('r') => Some(CubeAction::DecreaseAlpha),
        Key::Char('b') => Some(CubeAction::ToggleAutoBeta),
        Key::Char('d') => Some(CubeAction::IncreaseBeta),
        Key::Char('f') => Some(CubeAction::DecreaseBeta),
        Key::Char('g') => Some(CubeAction::ToggleAutoGamma),
        Key::Char('c') => Some(CubeAction::IncreaseGamma),
        Key::Char('v') => Some(CubeAction::DecreaseGamma),
        Key::Char('u') => Some(CubeAction::IncreaseDistanceFromCamera),
        Key::Char('j') => Some(CubeAction::DecreaseDistanceFromCamera),
        Key::Char('i') => Some(CubeAction::IncreaseProjectionScale),
        Key::Char('k') => Some(CubeAction::DecreaseProjectionScale),
        Key::Char('o') => Some(CubeAction::IncreaseResolutionStep),
        Key::Char('l') => Some(CubeAction::DecreaseResolutionStep),
        Key::Char('z') => Some(CubeAction::Reset),
        Key::Char('q') => Some(CubeAction::Quit),
        _ => None,
    }
}

/// The parameters after the key event that was pending for a frame, if one
/// was: a bound key has its action carried out, any other changes nothing.
pub open spec fn after_input(params: CubeParameters, pending: Option<Key>) -> CubeParameters {
    match pending {
        Some(key) => match bound_action(key) {
            Some(action) => params.after(action),
            None => params,
        },
        None => params,
    }
}

/// Whether the loop goes on after the key event that was pending, if one was:
/// it stops only on the key that is bound to `Quit`.
pub open spec fn control_after_input(pending: Option<Key>) -> Control {
    match pending {
        Some(key) => match bound_action(key) {
            Some(action) => action.control(),
            None => Control::Continue,
        },
        None => Control::Continue,
    }
}

/// Folds the key event that was pending for this frame, if any, into the
/// parameters, and says whether the program is to go on.
pub fn process_input(pending: Option<Key>, params: &mut CubeParameters) -> (control: Control)
    ensures
        *final(params) == after_input(*old(params), pending),
        control == control_after_input(pending),
        old(params).wf() ==> final(params).wf(),
{
    match pending {
        Some(key) => match key_to_action(key) {
            Some(action) => params.apply_action(action),
            None => Control::Continue,
        },
        None => Control::Continue,
    }
}

} // verus!
