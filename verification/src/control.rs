//! Whether the scene has the input focus, and the key that toggles it.
use vstd::prelude::*;

use crate::engine::input::Input;
use crate::input::KeyCode;

verus! {

/// Who owns the keyboard and mouse: the scene (focused, cursor locked) or the editor.
pub struct ControlState {
    pub is_focused: bool,
    pub is_over_scene: bool,
    /// Set by the editor when it used Escape itself this frame (to cancel a
    /// rename), so the scene does not act on it too.
    pub escape_consumed_by_editor: bool,
}

impl Default for ControlState {
    /// The scene starts focused, with the pointer over it.
    fn default() -> (state: Self)
        ensures
            state.is_focused,
            state.is_over_scene,
            !state.escape_consumed_by_editor,
    {
        ControlState { is_focused: true, is_over_scene: true, escape_consumed_by_editor: false }
    }
}

/// Escape, when it went down this frame and the editor did not use it, toggles
/// the scene's focus. Returns whether it did, in which case the caller shows or
/// hides and locks or frees the cursor accordingly.
pub fn sys_input_implement(input: &Input, escape: KeyCode, control_state: &mut ControlState) -> (toggled: bool)
    ensures
        toggled == (input.down_keys@.contains(escape) && !old(control_state).escape_consumed_by_editor),
        final(control_state).is_focused == (old(control_state).is_focused != toggled),
        final(control_state).is_over_scene == old(control_state).is_over_scene,
        final(control_state).escape_consumed_by_editor == old(control_state).escape_consumed_by_editor,
{
    if input.is_key_down(escape) && !control_state.escape_consumed_by_editor {
        control_state.is_focused = !control_state.is_focused;
        true
    } else {
        false
    }
}

/// How the window holds the cursor.
#[derive(Debug, Clone, Copy, PartialEq, Eq, Structural)]
pub enum CursorGrabMode {
    /// The cursor moves freely.
    Free,
    /// The cursor is locked in place, for looking around the scene.
    Locked,
}

/// The cursor that goes with the focus: hidden and locked while the scene has
/// the focus, shown and free otherwise.
pub fn cursor_mode(control_state: &ControlState) -> (mode: (bool, CursorGrabMode))
    ensures
        mode.0 == !control_state.is_focused,
        mode.1 == (if control_state.is_focused { CursorGrabMode::Locked } else { CursorGrabMode::Free }),
{
    let grab = if control_state.is_focused {
        CursorGrabMode::Locked
    } else {
        CursorGrabMode::Free
    };
    (!control_state.is_focused, grab)
}

} // verus!
