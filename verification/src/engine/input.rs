//! Per-frame input state of the engine: keys, mouse buttons and cursor motion.
use std::collections::HashSet;

use vstd::prelude::*;

use crate::editor::data_types::FloatBits;
use crate::input::{apply_key_event, spec_key_event, KeyCode, WindowEvent};

verus! {

broadcast use vstd::std_specs::hash::group_hash_axioms;

/// A mouse button.
#[derive(Debug, Clone, Copy, Hash, PartialEq, Eq, Structural)]
pub enum CursorButton {
    Left,
    Middle,
    Right,
}

/// A set of mouse buttons.
#[derive(Debug, Clone, Copy)]
pub struct CursorButtonSet {
    left: bool,
    middle: bool,
    right: bool,
}

impl View for CursorButtonSet {
    type V = Set<CursorButton>;

    closed spec fn view(&self) -> Set<CursorButton> {
        Set::new(
            |b: CursorButton|
                match b {
                    CursorButton::Left => self.left,
                    CursorButton::Middle => self.middle,
                    CursorButton::Right => self.right,
                },
        )
    }
}

impl CursorButtonSet {
    /// No button.
    pub fn new() -> (set: Self)
        ensures
            set@ == Set::<CursorButton>::empty(),
    {
        let set = CursorButtonSet { left: false, middle: false, right: false };
        assert(set@ =~= Set::<CursorButton>::empty());
        set
    }

    /// Whether `button` is in the set.
    pub fn contains(&self, button: &CursorButton) -> (result: bool)
        ensures
            result == self@.contains(*button),
    {
        match button {
            CursorButton::Left => self.left,
            CursorButton::Middle => self.middle,
            CursorButton::Right => self.right,
        }
    }

    /// Adds `button`.
    pub fn insert(&mut self, button: CursorButton)
        ensures
            final(self)@ == old(self)@.insert(button),
    {
        match button {
            CursorButton::Left => self.left = true,
            CursorButton::Middle => self.middle = true,
            CursorButton::Right => self.right = true,
        }
        assert(self@ =~= old(self)@.insert(button));
    }

    /// Removes every button.
    pub fn clear(&mut self)
        ensures
            final(self)@ == Set::<CursorButton>::empty(),
    {
        self.left = false;
        self.middle = false;
        self.right = false;
        assert(self@ =~= Set::<CursorButton>::empty());
    }
}

/// The engine's input state. Cursor coordinates are `f32` bit patterns; the
/// arithmetic on them is done by the caller.
pub struct Input {
    pub down_keys: HashSet<KeyCode>,
    pub hold_keys: HashSet<KeyCode>,
    pub up_keys: HashSet<KeyCode>,
    pub last_cursor_position: (FloatBits, FloatBits),
    pub cursor_position: (FloatBits, FloatBits),
    /// Always zero while the cursor is locked; use `cursor_delta` instead.
    pub cursor_offset: (FloatBits, FloatBits),
    pub down_cursor_buttons: CursorButtonSet,
    /// Raw device motion, not affected by cursor locking.
    pub cursor_delta: (FloatBits, FloatBits),
}

impl Input {
    /// No key or button down, held or up; the cursor at the origin, not moving.
    pub fn new() -> (input: Self)
        ensures
            input.down_keys@ == Set::<KeyCode>::empty(),
            input.hold_keys@ == Set::<KeyCode>::empty(),
            input.up_keys@ == Set::<KeyCode>::empty(),
            input.down_cursor_buttons@ == Set::<CursorButton>::empty(),
            input.last_cursor_position == (0u32, 0u32),
            input.cursor_position == (0u32, 0u32),
            input.cursor_offset == (0u32, 0u32),
            input.cursor_delta == (0u32, 0u32),
    {
        Input {
            down_keys: HashSet::with_capacity(100),
            hold_keys: HashSet::with_capacity(100),
            up_keys: HashSet::with_capacity(100),
            last_cursor_position: (0, 0),
            cursor_position: (0, 0),
            cursor_offset: (0, 0),
            down_cursor_buttons: CursorButtonSet::new(),
            cursor_delta: (0, 0),
        }
    }

    /// Whether `key` went down this frame.
    pub fn is_key_down(&self, key: KeyCode) -> (result: bool)
        ensures
            result == self.down_keys@.contains(key),
    {
        self.down_keys.contains(&key)
    }

    /// Whether `key` went up this frame.
    pub fn is_key_up(&self, key: KeyCode) -> (result: bool)
        ensures
            result == self.up_keys@.contains(key),
    {
        self.up_keys.contains(&key)
    }

    /// Whether `key` is held.
    pub fn is_key_hold(&self, key: KeyCode) -> (result: bool)
        ensures
            result == self.hold_keys@.contains(key),
    {
        self.hold_keys.contains(&key)
    }

    /// Whether `button` went down this frame.
    pub fn is_cursor_button_down(&self, button: CursorButton) -> (result: bool)
        ensures
            result == self.down_cursor_buttons@.contains(button),
    {
        self.down_cursor_buttons.contains(&button)
    }

    /// Applies a window event to the key state; the frame's down and up keys
    /// accumulate until `sys_post_update`.
    pub fn window_input(&mut self, event: &WindowEvent)
        ensures
            (final(self).down_keys@, final(self).hold_keys@, final(self).up_keys@) == spec_key_event(
                old(self).down_keys@,
                old(self).hold_keys@,
                old(self).up_keys@,
                *event,
            ),
            final(self).down_cursor_buttons@ == old(self).down_cursor_buttons@,
            final(self).cursor_position == old(self).cursor_position,
            final(self).last_cursor_position == old(self).last_cursor_position,
            final(self).cursor_offset == old(self).cursor_offset,
            final(self).cursor_delta == old(self).cursor_delta,
    {
        apply_key_event(&mut self.down_keys, &mut self.hold_keys, &mut self.up_keys, event);
    }

    /// End of frame: forgets the keys and buttons that went down or up and the
    /// device motion; held keys and cursor positions stay.
    pub fn sys_post_update(input: &mut Input)
        ensures
            final(input).down_keys@ == Set::<KeyCode>::empty(),
            final(input).up_keys@ == Set::<KeyCode>::empty(),
            final(input).down_cursor_buttons@ == Set::<CursorButton>::empty(),
            final(input).cursor_delta == (0u32, 0u32),
            final(input).hold_keys@ == old(input).hold_keys@,
            final(input).cursor_position == old(input).cursor_position,
            final(input).last_cursor_position == old(input).last_cursor_position,
            final(input).cursor_offset == old(input).cursor_offset,
    {
        input.down_keys.clear();
        input.up_keys.clear();
        input.down_cursor_buttons.clear();
        input.cursor_delta = (0, 0);
    }
}

} // verus!
