use std::collections::HashSet;

use wgpu_pbr::editor::data_types::{
    EditorUiState, Entity, EntityTreeRow, IcedMessage, PropertyField, PropertyFieldId,
    SplitterSide, DEFAULT_PANEL_WIDTH_BITS,
};
use wgpu_pbr::editor::logic::{
    build_entity_tree_from_data, entity_tree_walk_ends, parse_color, process_messages, ColorText,
};

fn e(id: u32) -> Entity {
    id as u64
}

// ------------------------------------------------------------------
// Entity tree
// ------------------------------------------------------------------

#[test]
fn test_empty_tree() {
    let rows = build_entity_tree_from_data(&[], &HashSet::new());
    assert!(rows.is_empty());
}

#[test]
fn test_single_root() {
    let data = vec![(e(1), "Root".to_string(), None, false)];
    let rows = build_entity_tree_from_data(&data, &HashSet::new());
    assert_eq!(rows.len(), 1);
    assert_eq!(rows[0].name, "Root");
    assert_eq!(rows[0].depth, 0);
}

#[test]
fn test_parent_child_collapsed() {
    let data = vec![
        (e(1), "Parent".to_string(), None, true),
        (e(2), "Child".to_string(), Some(e(1)), false),
    ];
    let expanded: HashSet<Entity> = HashSet::new();
    let rows = build_entity_tree_from_data(&data, &expanded);
    assert_eq!(rows.len(), 1, "Child should be hidden when parent is collapsed");
    assert_eq!(rows[0].name, "Parent");
}

#[test]
fn test_parent_child_expanded() {
    let data = vec![
        (e(1), "Parent".to_string(), None, true),
        (e(2), "Child".to_string(), Some(e(1)), false),
    ];
    let mut expanded = HashSet::new();
    expanded.insert(e(1));
    let rows = build_entity_tree_from_data(&data, &expanded);
    assert_eq!(rows.len(), 2);
    assert_eq!(rows[0].name, "Parent");
    assert_eq!(rows[0].depth, 0);
    assert_eq!(rows[1].name, "Child");
    assert_eq!(rows[1].depth, 1);
}

#[test]
fn test_nested_hierarchy() {
    let data = vec![
        (e(1), "A".to_string(), None, true),
        (e(2), "B".to_string(), Some(e(1)), true),
        (e(3), "C".to_string(), Some(e(2)), false),
    ];
    let mut expanded = HashSet::new();
    expanded.insert(e(1));
    expanded.insert(e(2));
    let rows = build_entity_tree_from_data(&data, &expanded);
    assert_eq!(rows.len(), 3);
    assert_eq!(rows[0].depth, 0);
    assert_eq!(rows[1].depth, 1);
    assert_eq!(rows[2].depth, 2);
}

#[test]
fn test_multiple_roots() {
    let data = vec![
        (e(1), "R1".to_string(), None, false),
        (e(2), "R2".to_string(), None, false),
    ];
    let rows = build_entity_tree_from_data(&data, &HashSet::new());
    assert_eq!(rows.len(), 2);
    assert!(rows.iter().all(|r| r.depth == 0));
}

#[test]
fn tree_children_listed_in_order_and_flag_from_grandchildren() {
    // Root 1 with children 2 and 3 (listed before their parent); 3 has child 4.
    let data = vec![
        (e(2), "B".to_string(), Some(e(1)), false),
        (e(3), "C".to_string(), Some(e(1)), false),
        (e(4), "D".to_string(), Some(e(3)), false),
        (e(1), "A".to_string(), None, true),
    ];
    let mut expanded = HashSet::new();
    expanded.insert(e(1));
    let rows = build_entity_tree_from_data(&data, &expanded);
    let names: Vec<&str> = rows.iter().map(|r| r.name.as_str()).collect();
    assert_eq!(names, vec!["A", "B", "C"]);
    // C has a child (D), so it can be expanded even though its own flag says false.
    assert!(!rows[1].has_children);
    assert!(rows[2].has_children);
    expanded.insert(e(3));
    let rows = build_entity_tree_from_data(&data, &expanded);
    let names: Vec<&str> = rows.iter().map(|r| r.name.as_str()).collect();
    assert_eq!(names, vec!["A", "B", "C", "D"]);
    assert_eq!(rows[3].depth, 2);
}

#[test]
fn tree_root_without_children_flag_is_not_expanded() {
    // The root says it has no children, so its child is never shown.
    let data = vec![
        (e(1), "A".to_string(), None, false),
        (e(2), "B".to_string(), Some(e(1)), false),
    ];
    let mut expanded = HashSet::new();
    expanded.insert(e(1));
    let rows = build_entity_tree_from_data(&data, &expanded);
    assert_eq!(rows.len(), 1);
}

#[test]
fn tree_walk_that_would_loop_is_recognised() {
    // Entity 1 is a root and also a child of 2, which is a child of 1.
    let data = vec![
        (e(1), "A".to_string(), None, true),
        (e(2), "B".to_string(), Some(e(1)), true),
        (e(1), "A again".to_string(), Some(e(2)), true),
    ];
    let mut expanded = HashSet::new();
    assert!(entity_tree_walk_ends(&data, &expanded));
    expanded.insert(e(1));
    assert!(entity_tree_walk_ends(&data, &expanded));
    expanded.insert(e(2));
    assert!(!entity_tree_walk_ends(&data, &expanded));
    let acyclic = vec![
        (e(1), "A".to_string(), None, true),
        (e(2), "B".to_string(), Some(e(1)), true),
        (e(3), "C".to_string(), Some(e(2)), false),
    ];
    assert!(entity_tree_walk_ends(&acyclic, &expanded));
}

// ------------------------------------------------------------------
// Message processing
// ------------------------------------------------------------------

fn default_state() -> EditorUiState {
    EditorUiState::default()
}

#[test]
fn test_select_entity() {
    let mut state = default_state();
    let msgs = vec![IcedMessage::SelectEntity(e(42))];
    let (names, props) = process_messages(&mut state, &msgs, None);
    assert_eq!(state.selected_entity, Some(e(42)));
    assert!(state.renaming_entity.is_none());
    assert!(state.editing_property_index.is_none());
    assert!(names.is_empty());
    assert!(props.is_empty());
}

#[test]
fn test_start_stop_rename() {
    let mut state = default_state();
    state.entity_tree.push(EntityTreeRow {
        entity: e(42),
        name: "Foo".to_string(),
        depth: 0,
        has_children: false,
    });

    let msgs = vec![IcedMessage::StartRenaming(e(42))];
    process_messages(&mut state, &msgs, None);
    assert_eq!(state.renaming_entity, Some(e(42)));
    assert_eq!(state.name_draft, "Foo");

    let msgs = vec![IcedMessage::EntityNameInput(e(42), "Bar".to_string())];
    process_messages(&mut state, &msgs, None);
    assert_eq!(state.name_draft, "Bar");

    let msgs = vec![IcedMessage::EntityNameSubmitted(e(42))];
    let (names, _) = process_messages(&mut state, &msgs, None);
    assert!(state.renaming_entity.is_none());
    assert_eq!(names.len(), 1);
    assert_eq!(names[0], (e(42), "Bar".to_string()));
}

#[test]
fn test_rename_empty_name_not_committed() {
    let mut state = default_state();
    state.renaming_entity = Some(e(1));
    state.name_draft = "   ".to_string();

    let msgs = vec![IcedMessage::EntityNameSubmitted(e(1))];
    let (names, _) = process_messages(&mut state, &msgs, None);
    assert!(state.renaming_entity.is_none());
    assert!(names.is_empty(), "Empty name should not be committed");
}

#[test]
fn test_toggle_expand() {
    let mut state = default_state();
    state.expanded_entities.insert(e(1));

    let msgs = vec![IcedMessage::ToggleEntityExpanded(e(1))];
    process_messages(&mut state, &msgs, None);
    assert!(!state.expanded_entities.contains(&e(1)), "Should collapse");

    process_messages(&mut state, &msgs, None);
    assert!(state.expanded_entities.contains(&e(1)), "Should expand again");
}

#[test]
fn rename_commit_is_trimmed_and_other_entity_input_ignored() {
    let mut state = default_state();
    let msgs = vec![
        IcedMessage::StartRenaming(e(7)),
        IcedMessage::EntityNameInput(e(8), "ignored".to_string()),
        IcedMessage::EntityNameInput(e(7), "  Lamp \t".to_string()),
        IcedMessage::EntityNameSubmitted(e(7)),
        IcedMessage::EntityNameSubmitted(e(7)),
    ];
    let (names, props) = process_messages(&mut state, &msgs, None);
    // Entity 7 is not in the tree, so the draft started empty.
    assert_eq!(names, vec![(e(7), "Lamp".to_string())]);
    assert!(props.is_empty());
    assert!(state.renaming_entity.is_none());
}

#[test]
fn splitter_drag_records_anchor_and_start_width() {
    let mut state = default_state();
    state.renaming_entity = Some(e(3));
    let cursor = Some((123.5f32.to_bits(), 9.0f32.to_bits()));
    process_messages(&mut state, &[IcedMessage::SplitterDragStarted(SplitterSide::Right)], cursor);
    assert_eq!(state.splitter_drag_side, Some(SplitterSide::Right));
    assert_eq!(f32::from_bits(state.splitter_drag_anchor_x), 123.5);
    assert_eq!(state.splitter_drag_start_width, DEFAULT_PANEL_WIDTH_BITS);
    assert_eq!(f32::from_bits(DEFAULT_PANEL_WIDTH_BITS), 260.0);
    assert!(state.renaming_entity.is_none());
    process_messages(&mut state, &[IcedMessage::SplitterDragEnded], cursor);
    assert!(state.splitter_drag_side.is_none());

    // Without a cursor position the drag does not start, but renaming still ends.
    let mut state = default_state();
    state.renaming_entity = Some(e(3));
    process_messages(&mut state, &[IcedMessage::SplitterDragStarted(SplitterSide::Left)], None);
    assert!(state.splitter_drag_side.is_none());
    assert!(state.renaming_entity.is_none());
}

fn line(label: &str, value: &str, field_id: PropertyFieldId, is_header: bool) -> PropertyField {
    PropertyField {
        label: label.to_string(),
        value: value.to_string(),
        draft: String::new(),
        field_id,
        is_header,
        error: None,
    }
}

#[test]
fn property_edit_commits_old_and_new_value() {
    let mut state = default_state();
    state.property_lines.push(line("Transform", "", PropertyFieldId::PositionX, true));
    state.property_lines.push(line("X", "1.000", PropertyFieldId::PositionX, false));
    state.selected_entity = Some(e(5));

    // A header cannot be edited.
    process_messages(&mut state, &[IcedMessage::StartEditingProperty(0)], None);
    assert!(state.editing_property_index.is_none());

    let msgs = vec![
        IcedMessage::StartEditingProperty(1),
        IcedMessage::PropertyValueInput(1, " 2.5 ".to_string()),
        IcedMessage::PropertyValueSubmitted(1),
    ];
    let (names, props) = process_messages(&mut state, &msgs, None);
    assert!(names.is_empty());
    assert_eq!(
        props,
        vec![(e(5), PropertyFieldId::PositionX, "1.000".to_string(), "2.5".to_string())]
    );
    assert!(state.editing_property_index.is_none());
    assert_eq!(state.property_lines[1].draft, " 2.5 ");
}

#[test]
fn property_edit_without_selection_commits_nothing() {
    let mut state = default_state();
    state.property_lines.push(line("X", "1.000", PropertyFieldId::ScaleY, false));
    let msgs = vec![
        IcedMessage::StartEditingProperty(1),
        IcedMessage::StartEditingProperty(0),
        IcedMessage::PropertyValueInput(0, "4".to_string()),
        IcedMessage::SelectEntity(e(9)),
        IcedMessage::PropertyValueSubmitted(0),
    ];
    let (_, props) = process_messages(&mut state, &msgs, None);
    // Selecting ended the edit, so the submit is ignored.
    assert!(props.is_empty());
    assert_eq!(state.property_lines[0].draft, "4");
    assert_eq!(state.selected_entity, Some(e(9)));
}

#[test]
fn ignored_messages_change_nothing() {
    let mut state = default_state();
    let msgs = vec![
        IcedMessage::DeleteSelectedEntity,
        IcedMessage::TreeFilterChanged("x".to_string()),
        IcedMessage::Undo,
        IcedMessage::Redo,
        IcedMessage::StopRenaming,
        IcedMessage::StopEditingProperty,
    ];
    let (names, props) = process_messages(&mut state, &msgs, None);
    assert!(names.is_empty() && props.is_empty());
    assert!(state.tree_filter.is_empty());
}

// ------------------------------------------------------------------
// Colour parsing
// ------------------------------------------------------------------

fn as_floats(c: ColorText) -> (f32, f32, f32) {
    match c {
        ColorText::Hex(r, g, b) => (r as f32 / 255.0, g as f32 / 255.0, b as f32 / 255.0),
        ColorText::Components(r, g, b) => (
            r.parse::<f32>().unwrap(),
            g.parse::<f32>().unwrap(),
            b.parse::<f32>().unwrap(),
        ),
    }
}

#[test]
fn test_parse_color_rgb() {
    let (r, g, b) = as_floats(parse_color("0.5, 0.25, 0.75").unwrap());
    assert!((r - 0.5).abs() < 0.001);
    assert!((g - 0.25).abs() < 0.001);
    assert!((b - 0.75).abs() < 0.001);
}

#[test]
fn test_parse_color_hex() {
    let (r, g, b) = as_floats(parse_color("#FF8033").unwrap());
    assert!((r - 1.0).abs() < 0.01);
    assert!((g - 0.502).abs() < 0.01);
    assert!((b - 0.2).abs() < 0.01);
}

#[test]
fn test_parse_color_invalid() {
    assert!(parse_color("not_a_color").is_err());
    assert!(parse_color("1,2").is_err());
    assert!(parse_color("#XYZ").is_err());
}

#[test]
fn parse_color_exact_results_and_messages() {
    match parse_color("  #0a+b1F \n").unwrap() {
        ColorText::Hex(r, g, b) => assert_eq!((r, g, b), (10, 11, 31)),
        other => panic!("unexpected {:?}", other),
    }
    match parse_color(" 1 ,2,  3.5 ").unwrap() {
        ColorText::Components(r, g, b) => {
            assert_eq!((r.as_str(), g.as_str(), b.as_str()), ("1", "2", "3.5"))
        }
        other => panic!("unexpected {:?}", other),
    }
    assert_eq!(parse_color("#12345").unwrap_err(), "Hex color must be #RRGGBB (6 hex digits)");
    assert_eq!(parse_color("#12G456").unwrap_err(), "Invalid hex");
    assert_eq!(parse_color("#-11111").unwrap_err(), "Invalid hex");
    assert_eq!(parse_color("1,,2,3").unwrap_err(), "Use 'r,g,b' or '#RRGGBB' format");
    // A two-byte character fills one byte pair: not a hexadecimal number.
    assert_eq!(parse_color("#é1234").unwrap_err(), "Invalid hex");
    // The first pair fails before the pair that would split "é" is read.
    assert_eq!(parse_color("#zzcéd").unwrap_err(), "Invalid hex");
}

use wgpu_pbr::editor::data_types::EditorUiResource;
use wgpu_pbr::editor::logic::{filter_matches, tree_row_arrow, tree_row_visible};

#[test]
fn tree_filter_ignores_case() {
    assert!(tree_row_visible("Point Light", ""));
    assert!(tree_row_visible("Point Light", "light"));
    assert!(tree_row_visible("Point Light", "POINT L"));
    assert!(!tree_row_visible("Point Light", "camera"));
    assert!(filter_matches("abc", ""));
    assert!(filter_matches("abc", "bc"));
    assert!(!filter_matches("abc", "cb"));
    assert!(!filter_matches("", "a"));
}

#[test]
fn tree_row_markers() {
    assert_eq!(tree_row_arrow(true, true), "\u{25be}");
    assert_eq!(tree_row_arrow(true, false), "\u{25b8}");
    assert_eq!(tree_row_arrow(false, true), "\u{2022}");
}

#[test]
fn editor_resource_starts_with_a_rebuild() {
    let resource = EditorUiResource::default();
    assert!(resource.tree_force_rebuild);
    assert!(resource.pending_messages.is_empty());
    assert_eq!(f32::from_bits(resource.ui_state.left_panel_width), 260.0);
}

use wgpu_pbr::editor::tree_view::{inspector_shows_properties, shown_tree_rows, ShownTreeRow};

fn tree_row(id: u32, name: &str, depth: usize) -> EntityTreeRow {
    EntityTreeRow { entity: e(id), name: name.to_string(), depth, has_children: false }
}

#[test]
fn shown_rows_follow_filter_and_marks() {
    let mut state = default_state();
    state.entity_tree.push(tree_row(1, "Camera", 0));
    state.entity_tree.push(tree_row(2, "Lamp", 0));
    state.entity_tree.push(tree_row(3, "CAMERA rig", 1));
    state.selected_entity = Some(e(3));
    state.renaming_entity = Some(e(1));
    state.expanded_entities.insert(e(1));
    let rows = shown_tree_rows(&state);
    assert_eq!(rows.len(), 3);
    assert_eq!(rows[0], ShownTreeRow { index: 0, is_selected: false, is_renaming: true, is_expanded: true });
    assert_eq!(rows[2], ShownTreeRow { index: 2, is_selected: true, is_renaming: false, is_expanded: false });
    state.tree_filter = "cAm".to_string();
    let rows = shown_tree_rows(&state);
    assert_eq!(rows.iter().map(|r| r.index).collect::<Vec<_>>(), vec![0, 2]);
    state.tree_filter = "zzz".to_string();
    assert!(shown_tree_rows(&state).is_empty());
}

#[test]
fn inspector_needs_selection_and_lines() {
    let mut state = default_state();
    assert!(!inspector_shows_properties(&state));
    state.selected_entity = Some(e(1));
    assert!(!inspector_shows_properties(&state));
    state.property_lines.push(PropertyField {
        label: "X".to_string(),
        value: "1".to_string(),
        draft: String::new(),
        field_id: PropertyFieldId::PositionX,
        is_header: false,
        error: None,
    });
    assert!(inspector_shows_properties(&state));
    state.selected_entity = None;
    assert!(!inspector_shows_properties(&state));
}
