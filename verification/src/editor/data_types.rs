use vstd::prelude::*;

verus! {

/// An ECS entity, identified by its 64-bit id (index and generation).
pub type Entity = u64;

/// One visible line of the world tree: an entity, its name, its nesting depth
/// and whether it has children that can be expanded.
#[derive(Debug, Clone)]
pub struct EntityTreeRow {
    pub entity: Entity,
    pub name: String,
    pub depth: usize,
    pub has_children: bool,
}

impl View for EntityTreeRow {
    type V = (Entity, Seq<char>, nat, bool);

    open spec fn view(&self) -> Self::V {
        (self.entity, self.name@, self.depth as nat, self.has_children)
    }
}

} // verus!

verus! {

/// The bit pattern of an `f32` layout value (a width, a position, a rate).
/// The editor logic only copies such values; it never computes with them.
pub type FloatBits = u32;

/// The bits of `260.0f32`, the initial width of both side panels.
pub const DEFAULT_PANEL_WIDTH_BITS: FloatBits = 0x4382_0000u32;

/// Which splitter handle is being dragged.
#[derive(Debug, Clone, Copy, PartialEq, Eq, Structural)]
pub enum SplitterSide {
    Left,
    Right,
}

/// Identifies which component field a property line corresponds to, so that
/// edits can be routed back to the right component.
#[derive(Debug, Clone, Copy, PartialEq, Eq, Structural)]
pub enum PropertyFieldId {
    PositionX,
    PositionY,
    PositionZ,
    RotationX,
    RotationY,
    RotationZ,
    ScaleX,
    ScaleY,
    ScaleZ,
    CameraFov,
    CameraNear,
    CameraFar,
    PointLightIntensity,
    PointLightColor,
    DirLightIntensity,
    DirLightColor,
}

/// A single row in the property inspector. Section headers have `is_header` set.
#[derive(Debug)]
pub struct PropertyField {
    pub label: String,
    /// Formatted current value, shown while the field is not edited.
    pub value: String,
    /// Live draft while the field is being edited.
    pub draft: String,
    pub field_id: PropertyFieldId,
    /// A section heading, not editable.
    pub is_header: bool,
    /// Set when the last commit of this field failed to parse.
    pub error: Option<String>,
}

/// The view of a property line: label, value, draft, field, header flag, error.
pub type PropertyFieldView = (Seq<char>, Seq<char>, Seq<char>, PropertyFieldId, bool, Option<Seq<char>>);

impl View for PropertyField {
    type V = PropertyFieldView;

    open spec fn view(&self) -> Self::V {
        (
            self.label@,
            self.value@,
            self.draft@,
            self.field_id,
            self.is_header,
            match self.error {
                Some(e) => Some(e@),
                None => None,
            },
        )
    }
}

/// The state that drives the editor UI each frame.
pub struct EditorUiState {
    pub fps: FloatBits,
    pub frame_time_ms: FloatBits,
    pub left_panel_width: FloatBits,
    pub right_panel_width: FloatBits,
    pub scene_bounds: Option<(FloatBits, FloatBits, FloatBits, FloatBits)>,
    pub splitter_drag_side: Option<SplitterSide>,
    pub splitter_drag_anchor_x: FloatBits,
    pub splitter_drag_start_width: FloatBits,
    pub entity_tree: Vec<EntityTreeRow>,
    pub expanded_entities: std::collections::HashSet<Entity>,
    pub selected_entity: Option<Entity>,
    pub property_lines: Vec<PropertyField>,
    /// Which property line (an index into `property_lines`) is being edited.
    pub editing_property_index: Option<usize>,
    /// Estimated height of the inspector section.
    pub inspector_height: FloatBits,
    /// Entity whose name is being edited in place in the world tree.
    pub renaming_entity: Option<Entity>,
    /// Live draft of the active rename.
    pub name_draft: String,
    /// Filter text for the entity tree.
    pub tree_filter: String,
}

/// The mathematical content of an `EditorUiState`.
pub struct EditorUiStateView {
    pub fps: FloatBits,
    pub frame_time_ms: FloatBits,
    pub left_panel_width: FloatBits,
    pub right_panel_width: FloatBits,
    pub scene_bounds: Option<(FloatBits, FloatBits, FloatBits, FloatBits)>,
    pub splitter_drag_side: Option<SplitterSide>,
    pub splitter_drag_anchor_x: FloatBits,
    pub splitter_drag_start_width: FloatBits,
    pub entity_tree: Seq<(Entity, Seq<char>, nat, bool)>,
    pub expanded_entities: Set<Entity>,
    pub selected_entity: Option<Entity>,
    pub property_lines: Seq<PropertyFieldView>,
    pub editing_property_index: Option<usize>,
    pub inspector_height: FloatBits,
    pub renaming_entity: Option<Entity>,
    pub name_draft: Seq<char>,
    pub tree_filter: Seq<char>,
}

impl View for EditorUiState {
    type V = EditorUiStateView;

    open spec fn view(&self) -> EditorUiStateView {
        EditorUiStateView {
            fps: self.fps,
            frame_time_ms: self.frame_time_ms,
            left_panel_width: self.left_panel_width,
            right_panel_width: self.right_panel_width,
            scene_bounds: self.scene_bounds,
            splitter_drag_side: self.splitter_drag_side,
            splitter_drag_anchor_x: self.splitter_drag_anchor_x,
            splitter_drag_start_width: self.splitter_drag_start_width,
            entity_tree: self.entity_tree@.map_values(|r: EntityTreeRow| r@),
            expanded_entities: self.expanded_entities@,
            selected_entity: self.selected_entity,
            property_lines: self.property_lines@.map_values(|f: PropertyField| f@),
            editing_property_index: self.editing_property_index,
            inspector_height: self.inspector_height,
            renaming_entity: self.renaming_entity,
            name_draft: self.name_draft@,
            tree_filter: self.tree_filter@,
        }
    }
}

impl Default for EditorUiState {
    /// Both panels 260 wide, nothing selected, expanded, renamed or edited.
    fn default() -> (state: Self)
        ensures
            state@.left_panel_width == DEFAULT_PANEL_WIDTH_BITS,
            state@.right_panel_width == DEFAULT_PANEL_WIDTH_BITS,
            state@.fps == 0,
            state@.frame_time_ms == 0,
            state@.scene_bounds is None,
            state@.splitter_drag_side is None,
            state@.splitter_drag_anchor_x == 0,
            state@.splitter_drag_start_width == 0,
            state@.entity_tree == Seq::<(Entity, Seq<char>, nat, bool)>::empty(),
            state@.expanded_entities == Set::<Entity>::empty(),
            state@.selected_entity is None,
            state@.property_lines == Seq::<PropertyFieldView>::empty(),
            state@.editing_property_index is None,
            state@.inspector_height == 0,
            state@.renaming_entity is None,
            state@.name_draft == Seq::<char>::empty(),
            state@.tree_filter == Seq::<char>::empty(),
    {
        let state = EditorUiState {
            fps: 0,
            frame_time_ms: 0,
            left_panel_width: DEFAULT_PANEL_WIDTH_BITS,
            right_panel_width: DEFAULT_PANEL_WIDTH_BITS,
            scene_bounds: None,
            splitter_drag_side: None,
            splitter_drag_anchor_x: 0,
            splitter_drag_start_width: 0,
            entity_tree: Vec::new(),
            expanded_entities: std::collections::HashSet::new(),
            selected_entity: None,
            property_lines: Vec::new(),
            editing_property_index: None,
            inspector_height: 0,
            renaming_entity: None,
            name_draft: String::new(),
            tree_filter: String::new(),
        };
        assert(state@.entity_tree =~= Seq::<(Entity, Seq<char>, nat, bool)>::empty());
        assert(state@.property_lines =~= Seq::<PropertyFieldView>::empty());
        state
    }
}

/// Messages produced by the editor widgets; they are applied to the editor
/// state after each UI frame.
#[derive(Debug)]
pub enum IcedMessage {
    SplitterDragStarted(SplitterSide),
    SplitterDragEnded,
    ToggleEntityExpanded(Entity),
    SelectEntity(Entity),
    /// Begin in-place rename of the given entity.
    StartRenaming(Entity),
    /// Leave rename mode without committing.
    StopRenaming,
    /// Live text while the rename input is edited.
    EntityNameInput(Entity, String),
    /// Commit the rename of the given entity; the new name is the name draft.
    EntityNameSubmitted(Entity),
    /// Begin editing a property line.
    StartEditingProperty(usize),
    /// Cancel property editing without committing.
    StopEditingProperty,
    /// Live text while a property value is edited.
    PropertyValueInput(usize, String),
    /// Commit the property edit; the new value is the line's draft.
    PropertyValueSubmitted(usize),
    /// Delete the selected entity.
    DeleteSelectedEntity,
    /// Filter the entity tree by the given text.
    TreeFilterChanged(String),
    /// Undo the last property edit of the selected entity.
    Undo,
    /// Redo the last undone property edit.
    Redo,
}

/// Editor UI state and the work it queues for the world, apart from the GUI renderer.
pub struct EditorUiResource {
    pub ui_state: EditorUiState,
    pub pending_messages: Vec<IcedMessage>,
    /// Renames submitted in the UI, waiting to be written to the entities' names.
    pub pending_name_commits: Vec<(Entity, String)>,
    /// Property edits submitted in the UI, waiting to be written to components.
    pub pending_property_commits: Vec<(Entity, PropertyFieldId, String)>,
    /// Set when rename mode starts, so the next UI build focuses the rename input.
    pub focus_rename_input: bool,
    /// Set when property editing starts, so the next UI build focuses the value input.
    pub focus_property_input: bool,
    /// Entity count at the last tree rebuild.
    pub last_entity_count: usize,
    /// Forces a full tree rebuild next frame.
    pub tree_force_rebuild: bool,
    /// Errors of the last property commit, by line index.
    pub property_errors: Vec<(usize, String)>,
    /// Entities to despawn next frame.
    pub delete_entity_queue: Vec<Entity>,
    /// Applied property edits: entity, field, old value, new value.
    pub undo_stack: Vec<(Entity, PropertyFieldId, String, String)>,
    /// Undone property edits.
    pub redo_stack: Vec<(Entity, PropertyFieldId, String, String)>,
}

impl Default for EditorUiResource {
    /// Default UI state, nothing queued, and a tree rebuild on the first frame.
    fn default() -> (resource: Self)
        ensures
            resource.ui_state@.selected_entity is None,
            resource.ui_state@.renaming_entity is None,
            resource.ui_state@.editing_property_index is None,
            resource.ui_state@.entity_tree == Seq::<(Entity, Seq<char>, nat, bool)>::empty(),
            resource.pending_messages@.len() == 0,
            resource.pending_name_commits@.len() == 0,
            resource.pending_property_commits@.len() == 0,
            !resource.focus_rename_input,
            !resource.focus_property_input,
            resource.last_entity_count == 0,
            resource.tree_force_rebuild,
            resource.property_errors@.len() == 0,
            resource.delete_entity_queue@.len() == 0,
            resource.undo_stack@.len() == 0,
            resource.redo_stack@.len() == 0,
    {
        EditorUiResource {
            ui_state: EditorUiState::default(),
            pending_messages: Vec::new(),
            pending_name_commits: Vec::new(),
            pending_property_commits: Vec::new(),
            focus_rename_input: false,
            focus_property_input: false,
            last_entity_count: 0,
            tree_force_rebuild: true,
            property_errors: Vec::new(),
            delete_entity_queue: Vec::new(),
            undo_stack: Vec::new(),
            redo_stack: Vec::new(),
        }
    }
}

} // verus!
