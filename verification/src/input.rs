//! Keyboard state: which keys went down this frame, which are held, which went up.
use std::collections::HashSet;

use vstd::prelude::*;

verus! {

broadcast use vstd::std_specs::hash::group_hash_axioms;

/// A physical key, by its position in the window system's key-code table.
pub type KeyCode = u32;

/// Whether a key was pressed or released.
#[derive(Debug, Clone, Copy, PartialEq, Eq, Structural)]
pub enum ElementState {
    Pressed,
    Released,
}

/// The window events that the input state reads: a keyboard event for an
/// identified key, or anything else.
#[derive(Debug, Clone, Copy, PartialEq, Eq, Structural)]
pub enum WindowEvent {
    KeyboardInput { key: KeyCode, state: ElementState },
    Other,
}

/// The key sets `(down, hold, up)` after one event: pressing a key that is not
/// held makes it "down"; pressing marks it held; releasing a held key makes it
/// "up"; releasing un-holds it. Other events change nothing.
pub open spec fn spec_key_event(
    down: Set<KeyCode>,
    hold: Set<KeyCode>,
    up: Set<KeyCode>,
    event: WindowEvent,
) -> (Set<KeyCode>, Set<KeyCode>, Set<KeyCode>) {
    match event {
        WindowEvent::KeyboardInput { key, state } => match state {
            ElementState::Pressed => (
                if hold.contains(key) { down } else { down.insert(key) },
                hold.insert(key),
                up,
            ),
            ElementState::Released => (
                down,
                hold.remove(key),
                if hold.contains(key) { up.insert(key) } else { up },
            ),
        },
        WindowEvent::Other => (down, hold, up),
    }
}

/// Applies one keyboard event to the three key sets.
pub fn apply_key_event(
    down: &mut HashSet<KeyCode>,
    hold: &mut HashSet<KeyCode>,
    up: &mut HashSet<KeyCode>,
    event: &WindowEvent,
)
    ensures
        (final(down)@, final(hold)@, final(up)@) == spec_key_event(old(down)@, old(hold)@, old(up)@, *event),
{
    match event {
        WindowEvent::KeyboardInput { key, state } => match state {
            ElementState::Pressed => {
                if !hold.contains(key) {
                    down.insert(*key);
                }
                hold.insert(*key);
            },
            ElementState::Released => {
                if hold.contains(key) {
                    up.insert(*key);
                }
                hold.remove(key);
            },
        },
        WindowEvent::Other => {},
    }
}

/// Keyboard state of the game loop, updated once per window event.
pub struct GameInput {
    pub down_keys: HashSet<KeyCode>,
    pub hold_keys: HashSet<KeyCode>,
    pub up_keys: HashSet<KeyCode>,
}

impl GameInput {
    /// No key down, held or up.
    pub fn new() -> (input: Self)
        ensures
            input.down_keys@ == Set::<KeyCode>::empty(),
            input.hold_keys@ == Set::<KeyCode>::empty(),
            input.up_keys@ == Set::<KeyCode>::empty(),
    {
        GameInput {
            down_keys: HashSet::with_capacity(100),
            hold_keys: HashSet::with_capacity(100),
            up_keys: HashSet::with_capacity(100),
        }
    }

    /// Whether `key` went down with the last event.
    pub fn is_key_down(&self, key: KeyCode) -> (result: bool)
        ensures
            result == self.down_keys@.contains(key),
    {
        self.down_keys.contains(&key)
    }

    /// Whether `key` went up with the last event.
    pub fn is_key_up(&self, key: KeyCode) -> (result: bool)
        ensures
            result == self.up_keys@.contains(key),
    {
        self.up_keys.contains(&key)
    }

    /// Whether `key` is held.
    pub fn is_key_hold(&self, key: KeyCode) -> (result: bool)
        ensures
            result == self.hold_keys@.contains(key),
    {
        self.hold_keys.contains(&key)
    }

    /// Forgets which keys went down or up, then applies `event`.
    pub fn update(&mut self, event: &WindowEvent)
        ensures
            (final(self).down_keys@, final(self).hold_keys@, final(self).up_keys@) == spec_key_event(
                Set::empty(),
                old(self).hold_keys@,
                Set::empty(),
                *event,
            ),
    {
        self.down_keys.clear();
        self.up_keys.clear();
        apply_key_event(&mut self.down_keys, &mut self.hold_keys, &mut self.up_keys, event);
    }
}

/// A key pressed while not held goes down and is held; pressed again while
/// held it does not go down again; released it goes up and is no longer held.
/// With a per-event reset of the down and up sets (as `GameInput::update`
/// does), the event touches no other key's down or up state.
pub proof fn lemma_press_then_release(hold: Set<KeyCode>, key: KeyCode)
    requires
        !hold.contains(key),
    ensures
        ({
            let pressed = spec_key_event(
                Set::empty(),
                hold,
                Set::empty(),
                WindowEvent::KeyboardInput { key, state: ElementState::Pressed },
            );
            let repeated = spec_key_event(
                Set::empty(),
                pressed.1,
                Set::empty(),
                WindowEvent::KeyboardInput { key, state: ElementState::Pressed },
            );
            let released = spec_key_event(
                Set::empty(),
                repeated.1,
                Set::empty(),
                WindowEvent::KeyboardInput { key, state: ElementState::Released },
            );
            &&& pressed.0 == Set::<KeyCode>::empty().insert(key)
            &&& pressed.1.contains(key)
            &&& pressed.2 == Set::<KeyCode>::empty()
            &&& repeated.0 == Set::<KeyCode>::empty()
            &&& repeated.1.contains(key)
            &&& released.2 == Set::<KeyCode>::empty().insert(key)
            &&& !released.1.contains(key)
            &&& released.1 == hold
        }),
{
    let pressed = spec_key_event(
        Set::empty(),
        hold,
        Set::empty(),
        WindowEvent::KeyboardInput { key, state: ElementState::Pressed },
    );
    assert(pressed.1.insert(key) =~= pressed.1);
    assert(pressed.1.remove(key) =~= hold);
}

/// Releasing a key that is not held reports no "up" for it.
pub proof fn lemma_release_unheld_is_silent(
    down: Set<KeyCode>,
    hold: Set<KeyCode>,
    up: Set<KeyCode>,
    key: KeyCode,
)
    requires
        !hold.contains(key),
    ensures
        spec_key_event(down, hold, up, WindowEvent::KeyboardInput { key, state: ElementState::Released })
            == (down, hold, up),
{
    assert(hold.remove(key) =~= hold);
}

/// Within a frame the "down" and "up" sets only grow: no event takes a key out
/// of them (only the end of the frame clears them). Releasing a held key puts
/// it among the "up" keys and un-holds it, and leaves every other key's "up"
/// membership as it was.
pub proof fn lemma_key_event_keeps_frame_keys(
    down: Set<KeyCode>,
    hold: Set<KeyCode>,
    up: Set<KeyCode>,
    event: WindowEvent,
)
    ensures
        ({
            let r = spec_key_event(down, hold, up, event);
            &&& down.subset_of(r.0)
            &&& up.subset_of(r.2)
            &&& forall|key: KeyCode|
                event == (WindowEvent::KeyboardInput { key, state: ElementState::Released }) && hold.contains(key) ==> {
                    &&& r.2.contains(key)
                    &&& !r.1.contains(key)
                    &&& forall|k: KeyCode| k != key ==> (#[trigger] r.2.contains(k) == up.contains(k))
                }
        }),
{
}

/// The key sets after the events of a frame, one after the other.
pub open spec fn key_events(
    sets: (Set<KeyCode>, Set<KeyCode>, Set<KeyCode>),
    events: Seq<WindowEvent>,
) -> (Set<KeyCode>, Set<KeyCode>, Set<KeyCode>)
    decreases events.len(),
{
    if events.len() == 0 {
        sets
    } else {
        let before = key_events(sets, events.drop_last());
        spec_key_event(before.0, before.1, before.2, events.last())
    }
}

/// Every key released while held at some point of a frame is among the frame's
/// "up" keys at its end, whatever came after, and the "up" keys the frame
/// started with stay.
pub proof fn lemma_frame_reports_every_release(
    sets: (Set<KeyCode>, Set<KeyCode>, Set<KeyCode>),
    events: Seq<WindowEvent>,
)
    ensures
        sets.2.subset_of(key_events(sets, events).2),
        forall|i: int, key: KeyCode|
            0 <= i < events.len() && events[i] == (WindowEvent::KeyboardInput { key, state: ElementState::Released })
                && #[trigger] key_events(sets, events.take(i)).1.contains(key) ==> key_events(sets, events).2.contains(key),
    decreases events.len(),
{
    if events.len() > 0 {
        let init = events.drop_last();
        lemma_frame_reports_every_release(sets, init);
        let before = key_events(sets, init);
        lemma_key_event_keeps_frame_keys(before.0, before.1, before.2, events.last());
        assert forall|i: int, key: KeyCode|
            0 <= i < events.len() && events[i] == (WindowEvent::KeyboardInput { key, state: ElementState::Released })
                && #[trigger] key_events(sets, events.take(i)).1.contains(key) implies key_events(sets, events).2.contains(key) by {
            if i < init.len() {
                assert(events.take(i) =~= init.take(i));
                assert(init[i] == events[i]);
            } else {
                assert(events.take(i) =~= init);
            }
        }
    }
}

} // verus!
