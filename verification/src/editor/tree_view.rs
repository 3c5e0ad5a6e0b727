//! What the editor panels show of the editor state, apart from their drawing:
//! the world-tree rows that pass the filter, with their marks, and whether the
//! inspector lists property lines.
use vstd::prelude::*;

use crate::editor::data_types::{EditorUiState, EditorUiStateView, Entity};
use crate::editor::logic::{filter_matches, spec_filter_matches, TreeRow};
use crate::text::{lowercase, to_lowercase_str};

verus! {

/// A row of the world tree as it is shown: its position in the state's row
/// list and how it is marked.
#[derive(Debug, Clone, Copy, PartialEq, Eq, Structural)]
pub struct ShownTreeRow {
    /// The row's position in `entity_tree`.
    pub index: usize,
    /// The row's entity is the selected one (drawn highlighted).
    pub is_selected: bool,
    /// The row's entity is being renamed (its name is a text field).
    pub is_renaming: bool,
    /// The row's entity is expanded (an open triangle when it has children).
    pub is_expanded: bool,
}

/// The shown rows among the first rows of `tree`, in order: those whose name,
/// lower-cased, contains the lower-cased filter (every row when the filter is empty).
pub open spec fn spec_shown_rows(
    tree: Seq<TreeRow>,
    filter: Seq<char>,
    selected: Option<Entity>,
    renaming: Option<Entity>,
    expanded: Set<Entity>,
) -> Seq<ShownTreeRow>
    decreases tree.len(),
{
    if tree.len() == 0 {
        seq![]
    } else {
        let rest = spec_shown_rows(tree.drop_last(), filter, selected, renaming, expanded);
        let row = tree.last();
        if spec_filter_matches(lowercase(row.1), lowercase(filter)) {
            rest.push(
                ShownTreeRow {
                    index: (tree.len() - 1) as usize,
                    is_selected: selected == Some(row.0),
                    is_renaming: renaming == Some(row.0),
                    is_expanded: expanded.contains(row.0),
                },
            )
        } else {
            rest
        }
    }
}

/// The rows the world tree shows for `state`, in order, with their marks.
pub fn shown_tree_rows(state: &EditorUiState) -> (rows: Vec<ShownTreeRow>)
    ensures
        rows@ == spec_shown_rows(
            state@.entity_tree,
            state@.tree_filter,
            state@.selected_entity,
            state@.renaming_entity,
            state@.expanded_entities,
        ),
{
    let ghost tree = state@.entity_tree;
    let filter_lower = to_lowercase_str(state.tree_filter.as_str());
    let mut rows: Vec<ShownTreeRow> = Vec::new();
    let mut i: usize = 0;
    while i < state.entity_tree.len()
        invariant
            i <= state.entity_tree@.len(),
            tree == state@.entity_tree,
            tree.len() == state.entity_tree@.len(),
            filter_lower@ == lowercase(state@.tree_filter),
            rows@ == spec_shown_rows(
                tree.take(i as int),
                state@.tree_filter,
                state@.selected_entity,
                state@.renaming_entity,
                state@.expanded_entities,
            ),
        decreases state.entity_tree@.len() - i,
    {
        let row = &state.entity_tree[i];
        proof {
            assert(tree.take(i + 1).drop_last() =~= tree.take(i as int));
            assert(tree.take(i + 1).last() == tree[i as int]);
            assert(tree[i as int] == row@);
        }
        let name_lower = to_lowercase_str(row.name.as_str());
        if filter_matches(name_lower.as_str(), filter_lower.as_str()) {
            let is_selected = match state.selected_entity {
                Some(e) => e == row.entity,
                None => false,
            };
            let is_renaming = match state.renaming_entity {
                Some(e) => e == row.entity,
                None => false,
            };
            let is_expanded = state.expanded_entities.contains(&row.entity);
            rows.push(ShownTreeRow { index: i, is_selected, is_renaming, is_expanded });
        }
        i = i + 1;
    }
    proof {
        assert(tree.take(i as int) =~= tree);
    }
    rows
}

/// Whether the inspector lists the property lines: an entity is selected and
/// there are lines; otherwise it asks for a selection.
pub fn inspector_shows_properties(state: &EditorUiState) -> (shows: bool)
    ensures
        shows == (state@.selected_entity is Some && state@.property_lines.len() > 0),
{
    state.selected_entity.is_some() && state.property_lines.len() > 0
}

} // verus!
