use std::collections::HashMap;

use wgpu_pbr::control::{cursor_mode, sys_input_implement, ControlState, CursorGrabMode};
use wgpu_pbr::editor::basics::{from_rgb, Frame, ThemeColor};
use wgpu_pbr::editor::property_window::{
    forget_closed_windows, should_create_property_window, EntityPropertyWindow,
};
use wgpu_pbr::engine::input::{CursorButton, Input};
use wgpu_pbr::input::{ElementState, GameInput, KeyCode, WindowEvent};

const KEY_W: KeyCode = 22;
const KEY_ESCAPE: KeyCode = 1;

fn key(key: KeyCode, state: ElementState) -> WindowEvent {
    WindowEvent::KeyboardInput { key, state }
}

#[test]
fn game_input_press_hold_release() {
    let mut input = GameInput::new();
    input.update(&key(KEY_W, ElementState::Pressed));
    assert!(input.is_key_down(KEY_W));
    assert!(input.is_key_hold(KEY_W));
    assert!(!input.is_key_up(KEY_W));

    // Key repeat: still held, no new "down".
    input.update(&key(KEY_W, ElementState::Pressed));
    assert!(!input.is_key_down(KEY_W));
    assert!(input.is_key_hold(KEY_W));

    // Any other event clears down and up.
    input.update(&WindowEvent::Other);
    assert!(input.is_key_hold(KEY_W));

    input.update(&key(KEY_W, ElementState::Released));
    assert!(input.is_key_up(KEY_W));
    assert!(!input.is_key_hold(KEY_W));

    // Releasing again does not report "up" a second time.
    input.update(&key(KEY_W, ElementState::Released));
    assert!(!input.is_key_up(KEY_W));
}

#[test]
fn engine_input_accumulates_until_post_update() {
    let mut input = Input::new();
    input.window_input(&key(KEY_W, ElementState::Pressed));
    input.window_input(&key(KEY_ESCAPE, ElementState::Pressed));
    input.down_cursor_buttons.insert(CursorButton::Right);
    input.cursor_delta = (1.5f32.to_bits(), 0);
    assert!(input.is_key_down(KEY_W) && input.is_key_down(KEY_ESCAPE));
    assert!(input.is_cursor_button_down(CursorButton::Right));
    assert!(!input.is_cursor_button_down(CursorButton::Left));

    Input::sys_post_update(&mut input);
    assert!(!input.is_key_down(KEY_W));
    assert!(input.is_key_hold(KEY_W));
    assert!(!input.is_cursor_button_down(CursorButton::Right));
    assert_eq!(input.cursor_delta, (0, 0));
}

#[test]
fn escape_toggles_focus_unless_editor_used_it() {
    let mut input = Input::new();
    let mut state = ControlState::default();
    assert!(state.is_focused);
    assert!(!sys_input_implement(&input, KEY_ESCAPE, &mut state));
    input.window_input(&key(KEY_ESCAPE, ElementState::Pressed));
    assert!(sys_input_implement(&input, KEY_ESCAPE, &mut state));
    assert!(!state.is_focused);
    state.escape_consumed_by_editor = true;
    assert!(!sys_input_implement(&input, KEY_ESCAPE, &mut state));
    assert!(!state.is_focused);
}

#[test]
fn theme_and_frame_style() {
    assert_eq!(ThemeColor::bg2(), from_rgb(60, 60, 60));
    assert_eq!(ThemeColor::bg1().a, 255);
    assert_eq!(ThemeColor::bg0().r, 27);
    let frame = Frame::new();
    assert_eq!(frame.corner_radius, 6);
    assert_eq!(frame.outer_margin, 4);
    assert_eq!(f32::from_bits(frame.stroke_width), 1.0);
    assert_eq!(frame.fill, ThemeColor::bg1());
    assert_eq!(frame.stroke_color, ThemeColor::bg2());
}

#[test]
fn property_windows_open_close_and_pin() {
    let mut window = EntityPropertyWindow::default();
    assert!(window.open && !window.pinned && window.entity.is_none());
    window.toggle_pin();
    assert!(window.pinned);
    window.entity = Some(4);
    window.close();
    assert!(!window.open && !window.pinned);

    let mut map: HashMap<u64, u64> = HashMap::new();
    assert!(should_create_property_window(&map, 4));
    map.insert(4, 100);
    map.insert(5, 101);
    assert!(!should_create_property_window(&map, 4));

    let mut still_open = EntityPropertyWindow::default();
    still_open.entity = Some(5);
    let closed = forget_closed_windows(&[still_open, window], &mut map);
    assert_eq!(closed, vec![1]);
    assert!(!map.contains_key(&4));
    assert_eq!(map.get(&5), Some(&101));
}

use wgpu_pbr::editor::csm_preview::CsmPreviewRefreshState;

#[test]
fn csm_preview_refreshes_once_or_continuously() {
    let mut state = CsmPreviewRefreshState::default();
    assert!(!state.take_refresh());
    state.request_refresh();
    assert!(state.take_refresh());
    assert!(!state.take_refresh());
    state.toggle_continuous();
    assert!(state.take_refresh());
    assert!(state.take_refresh());
    state.toggle_continuous();
    assert!(!state.take_refresh());
}

#[test]
fn cursor_follows_focus() {
    let mut state = ControlState::default();
    assert_eq!(cursor_mode(&state), (false, CursorGrabMode::Locked));
    state.is_focused = false;
    assert_eq!(cursor_mode(&state), (true, CursorGrabMode::Free));
}
