//! The camera's pointer-drag state machine.
use vstd::prelude::*;

verus! {

/// The mouse button that orbits the camera while held.
pub const DRAG_BUTTON: u8 = 0;

/// Whether the camera is being dragged, and whether it was moving at its
/// latest update.
#[derive(Debug, Clone, Copy, PartialEq, Eq, Structural)]
pub struct DragState {
    pub dragging: bool,
    pub moving: bool,
}

impl DragState {
    /// At rest: not dragging, not moving.
    pub fn new() -> (d: DragState)
        ensures
            !d.dragging,
            !d.moving,
    {
        DragState { dragging: false, moving: false }
    }

    /// A button event. The drag button starts a drag when pressed and ends it
    /// when released; any other button changes nothing. Returns whether the
    /// cursor position must be taken as the new drag anchor, which is the case
    /// exactly when a drag starts.
    pub fn process_mouse_button(&mut self, button: u8, pressed: bool) -> (anchor: bool)
        ensures
            final(self).dragging == if button == DRAG_BUTTON { pressed } else { old(self).dragging },
            final(self).moving == old(self).moving,
            anchor == (button == DRAG_BUTTON && pressed),
    {
        if button == DRAG_BUTTON {
            self.dragging = pressed;
        }
        button == DRAG_BUTTON && pressed
    }

    /// A pointer move. Returns whether it orbits the camera (only while
    /// dragging); the camera then counts as moving exactly while dragged.
    pub fn process_mouse_move(&mut self) -> (orbit: bool)
        ensures
            orbit == old(self).dragging,
            final(self).dragging == old(self).dragging,
            final(self).moving == old(self).dragging,
    {
        self.update();
        self.dragging
    }

    /// The per-frame update: the camera is moving exactly while dragged.
    pub fn update(&mut self)
        ensures
            final(self).dragging == old(self).dragging,
            final(self).moving == old(self).dragging,
    {
        self.moving = self.dragging;
    }
}

} // verus!
