use wgpu_pbr::editor::widgets::{set_option_checked, Pane};

#[test]
fn pane_titles() {
    assert_eq!(Pane::RightPanel.title(), "🗺️ CSM Preview");
    assert_eq!(Pane::WorldPanel.title(), "📋 Control Panel");
    assert_eq!(Pane::Scene.title(), "🎬 Scene");
}

#[test]
fn checkbox_switches_optional_value() {
    let mut roughness: Option<u32> = None;
    set_option_checked(&mut roughness, true, 0);
    assert_eq!(roughness, Some(0));
    roughness = Some(7);
    set_option_checked(&mut roughness, true, 0);
    assert_eq!(roughness, Some(7));
    set_option_checked(&mut roughness, false, 0);
    assert_eq!(roughness, None);
    set_option_checked(&mut roughness, false, 3);
    assert_eq!(roughness, None);
}
