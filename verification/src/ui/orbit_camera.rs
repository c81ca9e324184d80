use vstd::prelude::*;

verus! {

/// What a mouse drag does to the orbit camera this frame.
#[derive(Debug, Clone, Copy, PartialEq, Eq, Structural)]
pub enum DragMode {
    /// Rotate around the focus point.
    Orbit,
    /// Move the focus point in the view plane.
    Pan,
    /// Leave the camera alone.
    Idle,
}

/// The drag mode for the buttons and keys held this frame: the right button,
/// or the middle button without left shift, orbits; the middle button with
/// left shift pans; nothing happens while the UI wants the pointer.
pub open spec fn drag_mode_of(right_held: bool, middle_held: bool, shift_held: bool, ui_wants_pointer: bool) -> DragMode {
    if (right_held || (middle_held && !shift_held)) && !ui_wants_pointer {
        DragMode::Orbit
    } else if middle_held && !ui_wants_pointer {
        DragMode::Pan
    } else {
        DragMode::Idle
    }
}

/// Decides whether the camera orbits, pans or stays put this frame.
pub fn drag_mode(right_held: bool, middle_held: bool, shift_held: bool, ui_wants_pointer: bool) -> (m: DragMode)
    ensures
        m == drag_mode_of(right_held, middle_held, shift_held, ui_wants_pointer),
{
    let is_orbiting = (right_held || (middle_held && !shift_held)) && !ui_wants_pointer;
    let is_panning = middle_held && !is_orbiting && !ui_wants_pointer;
    if is_orbiting {
        DragMode::Orbit
    } else if is_panning {
        DragMode::Pan
    } else {
        DragMode::Idle
    }
}

/// Law: the pointer over the UI never moves the camera, and panning needs the
/// middle button with left shift and no right button.
pub proof fn law_pan_needs_shifted_middle(right_held: bool, middle_held: bool, shift_held: bool, ui_wants_pointer: bool)
    ensures
        ui_wants_pointer ==> drag_mode_of(right_held, middle_held, shift_held, ui_wants_pointer) == DragMode::Idle,
        drag_mode_of(right_held, middle_held, shift_held, ui_wants_pointer) == DragMode::Pan
            <==> (middle_held && shift_held && !right_held && !ui_wants_pointer),
{
}

} // verus!
