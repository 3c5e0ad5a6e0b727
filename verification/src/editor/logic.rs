use std::collections::HashSet;

use vstd::prelude::*;

use crate::editor::data_types::{
    EditorUiState, EditorUiStateView, Entity, EntityTreeRow, FloatBits, IcedMessage, PropertyField,
    PropertyFieldId, PropertyFieldView, SplitterSide,
};
use crate::text::{
    contains_seq, lowercase, parse_hex_u8, spec_parse_hex_u8, split_commas, split_on_commas,
    str_contains, strip_hash, to_lowercase_str, trim_spec, trim_str,
};
use vstd::string::StringSliceAdditionalSpecFns;
use vstd::utf8::{decode_utf8, encode_utf8, is_char_boundary};

verus! {

broadcast use vstd::std_specs::hash::group_hash_axioms;

/// One entity as the world query reports it: id, name, parent, and whether it has children.
pub type NamedEntity = (Entity, String, Option<Entity>, bool);

/// A candidate row before its depth is known: id, name, has-children flag.
pub type TreeItem = (Entity, Seq<char>, bool);

/// A row of the flattened tree: id, name, depth, has-children flag.
pub type TreeRow = (Entity, Seq<char>, nat, bool);

/// Whether some entry names `x` as its parent, or `x` has a parent and reports children.
pub open spec fn has_child_list(named: Seq<NamedEntity>, x: Entity) -> bool {
    exists|i: int|
        0 <= i < named.len() && (#[trigger] named[i].2 == Some(x) || (named[i].2 is Some
            && named[i].0 == x && named[i].3))
}

/// The entries of `prefix` whose parent is `parent`, in order. Roots (parent `None`)
/// keep their own has-children flag; a child counts as having children when
/// `has_child_list` holds for it over the whole list `all`.
pub open spec fn kids_in(prefix: Seq<NamedEntity>, all: Seq<NamedEntity>, parent: Option<Entity>) -> Seq<TreeItem>
    decreases prefix.len(),
{
    if prefix.len() == 0 {
        seq![]
    } else {
        let rest = kids_in(prefix.drop_last(), all, parent);
        let e = prefix.last();
        if e.2 == parent {
            let flag = if parent is None { e.3 } else { has_child_list(all, e.0) };
            rest.push((e.0, e.1@, flag))
        } else {
            rest
        }
    }
}

/// The rows shown for one item at `depth`: the item itself, then, when it has
/// children and is expanded, the rows of its children one level deeper. At most
/// `fuel` further levels are descended.
pub open spec fn rows_for(
    named: Seq<NamedEntity>,
    expanded: Set<Entity>,
    item: TreeItem,
    depth: nat,
    fuel: nat,
) -> Seq<TreeRow>
    decreases fuel, 0nat, 0nat,
{
    let head = seq![(item.0, item.1, depth, item.2)];
    if fuel > 0 && item.2 && expanded.contains(item.0) {
        head + rows_list(
            named,
            expanded,
            kids_in(named, named, Some(item.0)),
            depth + 1,
            (fuel - 1) as nat,
        )
    } else {
        head
    }
}

/// The rows of a list of sibling items, in order.
pub open spec fn rows_list(
    named: Seq<NamedEntity>,
    expanded: Set<Entity>,
    items: Seq<TreeItem>,
    depth: nat,
    fuel: nat,
) -> Seq<TreeRow>
    decreases fuel, 1nat, items.len(),
{
    if items.len() == 0 {
        seq![]
    } else {
        rows_list(named, expanded, items.drop_last(), depth, fuel) + rows_for(
            named,
            expanded,
            items.last(),
            depth,
            fuel,
        )
    }
}

/// The flattened world tree: each root at depth 0, followed depth-first by the
/// rows of its expanded descendants. The descent is given an allowance of
/// `named.len()` levels, which a walk that ends never uses up
/// (`entity_tree_ends`, `lemma_entity_tree_allowance_unused`).
pub open spec fn spec_entity_tree(named: Seq<NamedEntity>, expanded: Set<Entity>) -> Seq<TreeRow> {
    rows_list(named, expanded, kids_in(named, named, None), 0, named.len())
}

/// Whether the walk below `item`, allowed `fuel` further levels, would have to
/// list children past its allowance: an expanded item with children reached
/// when no level is left.
pub open spec fn rows_for_cut(named: Seq<NamedEntity>, expanded: Set<Entity>, item: TreeItem, fuel: nat) -> bool
    decreases fuel, 0nat, 0nat,
{
    item.2 && expanded.contains(item.0) && if fuel == 0 {
        kids_in(named, named, Some(item.0)).len() > 0
    } else {
        rows_list_cut(named, expanded, kids_in(named, named, Some(item.0)), (fuel - 1) as nat)
    }
}

/// Whether the walk below one of `items` would have to go past its allowance.
pub open spec fn rows_list_cut(named: Seq<NamedEntity>, expanded: Set<Entity>, items: Seq<TreeItem>, fuel: nat) -> bool
    decreases fuel, 1nat, items.len(),
{
    items.len() > 0 && (rows_list_cut(named, expanded, items.drop_last(), fuel) || rows_for_cut(
        named,
        expanded,
        items.last(),
        fuel,
    ))
}

/// The depth-first walk from the roots ends. Going past `named.len()` levels
/// takes a chain of more entries with a parent than the list holds, so some
/// entry would come back along it and the walk below it would repeat without
/// end; and a walk that never ends does go that deep. So the walk ends exactly
/// when it stays within its allowance.
pub open spec fn entity_tree_ends(named: Seq<NamedEntity>, expanded: Set<Entity>) -> bool {
    !rows_list_cut(named, expanded, kids_in(named, named, None), named.len())
}

/// The view of a list of rows.
pub open spec fn rows_view(rows: Seq<EntityTreeRow>) -> Seq<TreeRow> {
    rows.map_values(|r: EntityTreeRow| r@)
}

fn has_child_entry(named: &[NamedEntity], x: Entity) -> (result: bool)
    ensures
        result == has_child_list(named@, x),
{
    let mut i: usize = 0;
    while i < named.len()
        invariant
            i <= named@.len(),
            forall|j: int|
                0 <= j < i ==> !(#[trigger] named@[j].2 == Some(x) || (named@[j].2 is Some
                    && named@[j].0 == x && named@[j].3)),
        decreases named@.len() - i,
    {
        let parent = named[i].2;
        let child = named[i].0;
        let flag = named[i].3;
        match parent {
            Some(p) => {
                if p == x || (child == x && flag) {
                    return true;
                }
            },
            None => {},
        }
        i = i + 1;
    }
    false
}

fn collect_kids(named: &[NamedEntity], parent: Option<Entity>) -> (kids: Vec<(Entity, String, bool)>)
    ensures
        kids@.map_values(|k: (Entity, String, bool)| (k.0, k.1@, k.2)) == kids_in(named@, named@, parent),
{
    let mut kids: Vec<(Entity, String, bool)> = Vec::new();
    let mut i: usize = 0;
    while i < named.len()
        invariant
            i <= named@.len(),
            kids@.map_values(|k: (Entity, String, bool)| (k.0, k.1@, k.2)) == kids_in(
                named@.take(i as int),
                named@,
                parent,
            ),
        decreases named@.len() - i,
    {
        assert(named@.take(i + 1).drop_last() =~= named@.take(i as int));
        let entry_parent = named[i].2;
        let same = match (entry_parent, parent) {
            (Some(a), Some(b)) => a == b,
            (None, None) => true,
            _ => false,
        };
        if same {
            let flag = match parent {
                None => named[i].3,
                Some(_) => has_child_entry(named, named[i].0),
            };
            kids.push((named[i].0, named[i].1.clone(), flag));
            assert(kids@.map_values(|k: (Entity, String, bool)| (k.0, k.1@, k.2)) =~= kids_in(
                named@.take(i as int),
                named@,
                parent,
            ).push((named@[i as int].0, named@[i as int].1@, flag)));
        }
        i = i + 1;
    }
    assert(named@.take(named@.len() as int) =~= named@);
    kids
}

fn collect_rows(
    named: &[NamedEntity],
    expanded: &HashSet<Entity>,
    entity: Entity,
    name: &String,
    has_children: bool,
    depth: usize,
    fuel: usize,
    rows: &mut Vec<EntityTreeRow>,
)
    requires
        depth + fuel <= named@.len(),
    ensures
        rows_view(final(rows)@) == rows_view(old(rows)@) + rows_for(
            named@,
            expanded@,
            (entity, name@, has_children),
            depth as nat,
            fuel as nat,
        ),
    decreases fuel, 0nat,
{
    let ghost before = rows_view(rows@);
    rows.push(EntityTreeRow { entity, name: name.clone(), depth, has_children });
    assert(rows_view(rows@) =~= before + seq![(entity, name@, depth as nat, has_children)]);
    let total = named.len();
    if fuel > 0 && has_children && expanded.contains(&entity) {
        assert(depth + 1 <= total);
        let kids = collect_kids(named, Some(entity));
        collect_list(named, expanded, &kids, depth + 1, fuel - 1, rows);
        assert(rows_view(rows@) =~= before + rows_for(
            named@,
            expanded@,
            (entity, name@, has_children),
            depth as nat,
            fuel as nat,
        ));
    }
}

fn collect_list(
    named: &[NamedEntity],
    expanded: &HashSet<Entity>,
    kids: &Vec<(Entity, String, bool)>,
    depth: usize,
    fuel: usize,
    rows: &mut Vec<EntityTreeRow>,
)
    requires
        depth + fuel <= named@.len(),
    ensures
        rows_view(final(rows)@) == rows_view(old(rows)@) + rows_list(
            named@,
            expanded@,
            kids@.map_values(|k: (Entity, String, bool)| (k.0, k.1@, k.2)),
            depth as nat,
            fuel as nat,
        ),
    decreases fuel, 1nat,
{
    let ghost before = rows_view(rows@);
    let ghost items = kids@.map_values(|k: (Entity, String, bool)| (k.0, k.1@, k.2));
    let mut i: usize = 0;
    while i < kids.len()
        invariant
            i <= kids@.len(),
            depth + fuel <= named@.len(),
            items == kids@.map_values(|k: (Entity, String, bool)| (k.0, k.1@, k.2)),
            rows_view(rows@) == before + rows_list(
                named@,
                expanded@,
                items.take(i as int),
                depth as nat,
                fuel as nat,
            ),
        decreases kids@.len() - i,
    {
        assert(items.take(i + 1).drop_last() =~= items.take(i as int));
        collect_rows(named, expanded, kids[i].0, &kids[i].1, kids[i].2, depth, fuel, rows);
        assert(items.take(i + 1).last() == items[i as int]);
        i = i + 1;
    }
    assert(items.take(kids@.len() as int) =~= items);
}

fn item_walk_cut(
    named: &[NamedEntity],
    expanded: &HashSet<Entity>,
    entity: Entity,
    name: &String,
    has_children: bool,
    fuel: usize,
) -> (cut: bool)
    ensures
        cut == rows_for_cut(named@, expanded@, (entity, name@, has_children), fuel as nat),
    decreases fuel, 0nat,
{
    if has_children && expanded.contains(&entity) {
        let kids = collect_kids(named, Some(entity));
        if fuel == 0 {
            kids.len() > 0
        } else {
            list_walk_cut(named, expanded, &kids, fuel - 1)
        }
    } else {
        false
    }
}

fn list_walk_cut(named: &[NamedEntity], expanded: &HashSet<Entity>, kids: &Vec<(Entity, String, bool)>, fuel: usize) -> (cut: bool)
    ensures
        cut == rows_list_cut(
            named@,
            expanded@,
            kids@.map_values(|k: (Entity, String, bool)| (k.0, k.1@, k.2)),
            fuel as nat,
        ),
    decreases fuel, 1nat,
{
    let ghost items = kids@.map_values(|k: (Entity, String, bool)| (k.0, k.1@, k.2));
    let mut i: usize = 0;
    while i < kids.len()
        invariant
            i <= kids@.len(),
            items == kids@.map_values(|k: (Entity, String, bool)| (k.0, k.1@, k.2)),
            !rows_list_cut(named@, expanded@, items.take(i as int), fuel as nat),
        decreases kids@.len() - i,
    {
        assert(items.take(i + 1).drop_last() =~= items.take(i as int));
        assert(items.take(i + 1).last() == items[i as int]);
        if item_walk_cut(named, expanded, kids[i].0, &kids[i].1, kids[i].2, fuel) {
            proof {
                lemma_rows_list_cut_prefix(named@, expanded@, items, i + 1, fuel as nat);
            }
            return true;
        }
        i = i + 1;
    }
    assert(items.take(kids@.len() as int) =~= items);
    false
}

proof fn lemma_rows_list_cut_prefix(named: Seq<NamedEntity>, expanded: Set<Entity>, items: Seq<TreeItem>, n: int, fuel: nat)
    requires
        0 <= n <= items.len(),
        rows_list_cut(named, expanded, items.take(n), fuel),
    ensures
        rows_list_cut(named, expanded, items, fuel),
    decreases items.len(),
{
    if n < items.len() {
        assert(items.drop_last().take(n) =~= items.take(n));
        lemma_rows_list_cut_prefix(named, expanded, items.drop_last(), n, fuel);
    } else {
        assert(items.take(n) =~= items);
    }
}

/// Whether the depth-first walk of the world tree ends, which building the
/// rows needs: it does not when parent links make an expanded entity that has
/// children its own descendant.
pub fn entity_tree_walk_ends(named: &[NamedEntity], expanded: &HashSet<Entity>) -> (ends: bool)
    ensures
        ends == entity_tree_ends(named@, expanded@),
{
    let roots = collect_kids(named, None);
    !list_walk_cut(named, expanded, &roots, named.len())
}

/// Builds the flat, depth-first list of rows of the world tree from the
/// entities that the world query reports, when that walk ends (where parent
/// links make an expanded entity its own descendant, it would not). Roots come in the order they are
/// listed; the children of an expanded entity that has children follow it, in
/// the order they are listed, one level deeper.
pub fn build_entity_tree_from_data(
    named: &[NamedEntity],
    expanded: &HashSet<Entity>,
) -> (rows: Vec<EntityTreeRow>)
    requires
        entity_tree_ends(named@, expanded@),
    ensures
        rows_view(rows@) == spec_entity_tree(named@, expanded@),
{
    let roots = collect_kids(named, None);
    let mut rows: Vec<EntityTreeRow> = Vec::new();
    assert(rows_view(rows@) =~= seq![]);
    collect_list(named, expanded, &roots, 0, named.len(), &mut rows);
    assert(rows_view(rows@) =~= spec_entity_tree(named@, expanded@));
    rows
}


/// A committed rename: the entity and its new name.
pub type NameCommit = (Entity, Seq<char>);

/// A committed property edit: the entity, the field, the old and the new value.
pub type PropertyCommit = (Entity, PropertyFieldId, Seq<char>, Seq<char>);

/// The name of the first row of `rows` that shows `e`, or the empty text when none does.
pub open spec fn row_name(rows: Seq<TreeRow>, e: Entity) -> Seq<char>
    decreases rows.len(),
{
    if rows.len() == 0 {
        Seq::empty()
    } else if rows[0].0 == e {
        rows[0].1
    } else {
        row_name(rows.drop_first(), e)
    }
}

/// The property line `line` with its draft replaced.
pub open spec fn with_draft(line: PropertyFieldView, draft: Seq<char>) -> PropertyFieldView {
    (line.0, line.1, draft, line.3, line.4, line.5)
}

/// What one message does to the editor state, and the rename and property
/// commits it produces (at most one in all). `cursor` is the pointer position,
/// when known.
pub open spec fn spec_step(
    s: EditorUiStateView,
    msg: IcedMessage,
    cursor: Option<(FloatBits, FloatBits)>,
) -> (EditorUiStateView, Seq<NameCommit>, Seq<PropertyCommit>) {
    let none_n = Seq::<NameCommit>::empty();
    let none_p = Seq::<PropertyCommit>::empty();
    match msg {
        IcedMessage::SplitterDragStarted(side) => {
            let dragged = match cursor {
                Some((x, _)) => EditorUiStateView {
                    splitter_drag_side: Some(side),
                    splitter_drag_anchor_x: x,
                    splitter_drag_start_width: match side {
                        SplitterSide::Left => s.left_panel_width,
                        SplitterSide::Right => s.right_panel_width,
                    },
                    ..s
                },
                None => s,
            };
            (EditorUiStateView { renaming_entity: None, ..dragged }, none_n, none_p)
        },
        IcedMessage::SplitterDragEnded => (
            EditorUiStateView { splitter_drag_side: None, ..s },
            none_n,
            none_p,
        ),
        IcedMessage::ToggleEntityExpanded(e) => {
            let expanded = if s.expanded_entities.contains(e) {
                s.expanded_entities.remove(e)
            } else {
                s.expanded_entities.insert(e)
            };
            (
                EditorUiStateView { expanded_entities: expanded, renaming_entity: None, ..s },
                none_n,
                none_p,
            )
        },
        IcedMessage::SelectEntity(e) => (
            EditorUiStateView {
                selected_entity: Some(e),
                renaming_entity: None,
                editing_property_index: None,
                ..s
            },
            none_n,
            none_p,
        ),
        IcedMessage::StartRenaming(e) => (
            EditorUiStateView {
                name_draft: row_name(s.entity_tree, e),
                renaming_entity: Some(e),
                ..s
            },
            none_n,
            none_p,
        ),
        IcedMessage::StopRenaming => (
            EditorUiStateView { renaming_entity: None, ..s },
            none_n,
            none_p,
        ),
        IcedMessage::EntityNameInput(e, text) => {
            if s.renaming_entity == Some(e) {
                (EditorUiStateView { name_draft: text@, ..s }, none_n, none_p)
            } else {
                (s, none_n, none_p)
            }
        },
        IcedMessage::EntityNameSubmitted(e) => {
            if s.renaming_entity == Some(e) {
                let new_name = trim_spec(s.name_draft);
                let commits = if new_name.len() > 0 {
                    seq![(e, new_name)]
                } else {
                    none_n
                };
                (EditorUiStateView { renaming_entity: None, ..s }, commits, none_p)
            } else {
                (s, none_n, none_p)
            }
        },
        IcedMessage::StartEditingProperty(i) => {
            if i < s.property_lines.len() && !s.property_lines[i as int].4 {
                let line = s.property_lines[i as int];
                (
                    EditorUiStateView {
                        property_lines: s.property_lines.update(i as int, with_draft(line, line.1)),
                        editing_property_index: Some(i),
                        ..s
                    },
                    none_n,
                    none_p,
                )
            } else {
                (s, none_n, none_p)
            }
        },
        IcedMessage::StopEditingProperty => (
            EditorUiStateView { editing_property_index: None, ..s },
            none_n,
            none_p,
        ),
        IcedMessage::PropertyValueInput(i, text) => {
            if s.editing_property_index == Some(i) && i < s.property_lines.len() {
                let line = s.property_lines[i as int];
                (
                    EditorUiStateView {
                        property_lines: s.property_lines.update(i as int, with_draft(line, text@)),
                        ..s
                    },
                    none_n,
                    none_p,
                )
            } else {
                (s, none_n, none_p)
            }
        },
        IcedMessage::PropertyValueSubmitted(i) => {
            if s.editing_property_index == Some(i) {
                let commits = if i < s.property_lines.len() {
                    let line = s.property_lines[i as int];
                    let new_value = trim_spec(line.2);
                    if new_value.len() > 0 && s.selected_entity is Some {
                        seq![(s.selected_entity->0, line.3, line.1, new_value)]
                    } else {
                        none_p
                    }
                } else {
                    none_p
                };
                (EditorUiStateView { editing_property_index: None, ..s }, none_n, commits)
            } else {
                (s, none_n, none_p)
            }
        },
        IcedMessage::DeleteSelectedEntity => (s, none_n, none_p),
        IcedMessage::TreeFilterChanged(_) => (s, none_n, none_p),
        IcedMessage::Undo => (s, none_n, none_p),
        IcedMessage::Redo => (s, none_n, none_p),
    }
}

/// What a batch of messages does, applied in order: the final state, and all
/// rename and property commits in the order they were made.
pub open spec fn spec_process_messages(
    s: EditorUiStateView,
    msgs: Seq<IcedMessage>,
    cursor: Option<(FloatBits, FloatBits)>,
) -> (EditorUiStateView, Seq<NameCommit>, Seq<PropertyCommit>)
    decreases msgs.len(),
{
    if msgs.len() == 0 {
        (s, Seq::empty(), Seq::empty())
    } else {
        let before = spec_process_messages(s, msgs.drop_last(), cursor);
        let after = spec_step(before.0, msgs.last(), cursor);
        (after.0, before.1 + after.1, before.2 + after.2)
    }
}

/// The view of a list of rename commits.
pub open spec fn name_commits_view(v: Seq<(Entity, String)>) -> Seq<NameCommit> {
    v.map_values(|c: (Entity, String)| (c.0, c.1@))
}

/// The view of a list of property commits.
pub open spec fn property_commits_view(
    v: Seq<(Entity, PropertyFieldId, String, String)>,
) -> Seq<PropertyCommit> {
    v.map_values(|c: (Entity, PropertyFieldId, String, String)| (c.0, c.1, c.2@, c.3@))
}

fn find_row_name(rows: &Vec<EntityTreeRow>, e: Entity) -> (name: String)
    ensures
        name@ == row_name(rows@.map_values(|r: EntityTreeRow| r@), e),
{
    let ghost all = rows@.map_values(|r: EntityTreeRow| r@);
    assert(all.skip(0) =~= all);
    let mut i: usize = 0;
    while i < rows.len()
        invariant
            i <= rows@.len(),
            all == rows@.map_values(|r: EntityTreeRow| r@),
            row_name(all, e) == row_name(all.skip(i as int), e),
        decreases rows@.len() - i,
    {
        assert(all.skip(i as int).drop_first() =~= all.skip(i + 1));
        if rows[i].entity == e {
            return rows[i].name.clone();
        }
        i = i + 1;
    }
    String::new()
}

fn set_draft(lines: &mut Vec<PropertyField>, i: usize, draft: String)
    requires
        i < old(lines)@.len(),
    ensures
        final(lines)@.map_values(|f: PropertyField| f@) == old(lines)@.map_values(
            |f: PropertyField| f@,
        ).update(i as int, with_draft(old(lines)@[i as int]@, draft@)),
{
    let ghost before = lines@;
    let line = lines.remove(i);
    let updated = PropertyField {
        label: line.label,
        value: line.value,
        draft,
        field_id: line.field_id,
        is_header: line.is_header,
        error: line.error,
    };
    lines.insert(i, updated);
    assert(lines@.map_values(|f: PropertyField| f@) =~= before.map_values(
        |f: PropertyField| f@,
    ).update(i as int, with_draft(before[i as int]@, draft@)));
}

fn same_entity(a: Option<Entity>, b: Entity) -> (result: bool)
    ensures
        result == (a == Some(b)),
{
    match a {
        Some(x) => x == b,
        None => false,
    }
}

fn same_index(a: Option<usize>, b: usize) -> (result: bool)
    ensures
        result == (a == Some(b)),
{
    match a {
        Some(x) => x == b,
        None => false,
    }
}

fn apply_message(
    state: &mut EditorUiState,
    msg: &IcedMessage,
    cursor: Option<(FloatBits, FloatBits)>,
    name_commits: &mut Vec<(Entity, String)>,
    prop_commits: &mut Vec<(Entity, PropertyFieldId, String, String)>,
)
    ensures
        final(state)@ == spec_step(old(state)@, *msg, cursor).0,
        name_commits_view(final(name_commits)@) == name_commits_view(old(name_commits)@) + spec_step(
            old(state)@,
            *msg,
            cursor,
        ).1,
        property_commits_view(final(prop_commits)@) == property_commits_view(old(prop_commits)@)
            + spec_step(old(state)@, *msg, cursor).2,
{
    let ghost s0 = state@;
    let ghost n0 = name_commits_view(name_commits@);
    let ghost p0 = property_commits_view(prop_commits@);
    match msg {
        IcedMessage::SplitterDragStarted(side) => {
            match cursor {
                Some((x, _)) => {
                    state.splitter_drag_side = Some(*side);
                    state.splitter_drag_anchor_x = x;
                    state.splitter_drag_start_width = match side {
                        SplitterSide::Left => state.left_panel_width,
                        SplitterSide::Right => state.right_panel_width,
                    };
                },
                None => {},
            }
            state.renaming_entity = None;
        },
        IcedMessage::SplitterDragEnded => {
            state.splitter_drag_side = None;
        },
        IcedMessage::ToggleEntityExpanded(entity) => {
            if state.expanded_entities.contains(entity) {
                state.expanded_entities.remove(entity);
            } else {
                state.expanded_entities.insert(*entity);
            }
            state.renaming_entity = None;
        },
        IcedMessage::SelectEntity(entity) => {
            state.selected_entity = Some(*entity);
            state.renaming_entity = None;
            state.editing_property_index = None;
        },
        IcedMessage::StartRenaming(entity) => {
            let current = find_row_name(&state.entity_tree, *entity);
            state.name_draft = current;
            state.renaming_entity = Some(*entity);
        },
        IcedMessage::StopRenaming => {
            state.renaming_entity = None;
        },
        IcedMessage::EntityNameInput(entity, text) => {
            if same_entity(state.renaming_entity, *entity) {
                state.name_draft = text.clone();
            }
        },
        IcedMessage::EntityNameSubmitted(entity) => {
            if same_entity(state.renaming_entity, *entity) {
                let trimmed = trim_str(state.name_draft.as_str());
                if !trimmed.is_empty() {
                    let new_name = trimmed.to_string();
                    name_commits.push((*entity, new_name));
                    assert(name_commits_view(name_commits@) =~= n0 + seq![(*entity, trim_spec(s0.name_draft))]);
                }
                state.renaming_entity = None;
            }
        },
        IcedMessage::StartEditingProperty(index) => {
            let i = *index;
            if i < state.property_lines.len() && !state.property_lines[i].is_header {
                let value = state.property_lines[i].value.clone();
                set_draft(&mut state.property_lines, i, value);
                state.editing_property_index = Some(i);
            }
        },
        IcedMessage::StopEditingProperty => {
            state.editing_property_index = None;
        },
        IcedMessage::PropertyValueInput(index, text) => {
            let i = *index;
            if same_index(state.editing_property_index, i) && i < state.property_lines.len() {
                set_draft(&mut state.property_lines, i, text.clone());
            }
        },
        IcedMessage::PropertyValueSubmitted(index) => {
            let i = *index;
            if same_index(state.editing_property_index, i) {
                if i < state.property_lines.len() {
                    let trimmed = trim_str(state.property_lines[i].draft.as_str());
                    match state.selected_entity {
                        Some(selected) => {
                            if !trimmed.is_empty() {
                                let new_value = trimmed.to_string();
                                let old_value = state.property_lines[i].value.clone();
                                let field_id = state.property_lines[i].field_id;
                                prop_commits.push((selected, field_id, old_value, new_value));
                                assert(property_commits_view(prop_commits@) =~= p0 + spec_step(
                                    s0,
                                    *msg,
                                    cursor,
                                ).2);
                            }
                        },
                        None => {},
                    }
                }
                state.editing_property_index = None;
            }
        },
        IcedMessage::DeleteSelectedEntity => {},
        IcedMessage::TreeFilterChanged(_) => {},
        IcedMessage::Undo => {},
        IcedMessage::Redo => {},
    }
}

/// Applies a batch of editor messages to the UI state, in order, and returns
/// the renames and the property edits that were committed: `(entity, new
/// name)` and `(entity, field, old value, new value)`. `cursor` is the current
/// pointer position (as `f32` bit patterns), used when a splitter drag starts.
pub fn process_messages(
    state: &mut EditorUiState,
    messages: &[IcedMessage],
    cursor: Option<(FloatBits, FloatBits)>,
) -> (result: (Vec<(Entity, String)>, Vec<(Entity, PropertyFieldId, String, String)>))
    ensures
        final(state)@ == spec_process_messages(old(state)@, messages@, cursor).0,
        name_commits_view(result.0@) == spec_process_messages(old(state)@, messages@, cursor).1,
        property_commits_view(result.1@) == spec_process_messages(old(state)@, messages@, cursor).2,
{
    let ghost s0 = state@;
    let mut name_commits: Vec<(Entity, String)> = Vec::new();
    let mut prop_commits: Vec<(Entity, PropertyFieldId, String, String)> = Vec::new();
    assert(name_commits_view(name_commits@) =~= Seq::empty());
    assert(property_commits_view(prop_commits@) =~= Seq::empty());
    let mut i: usize = 0;
    while i < messages.len()
        invariant
            i <= messages@.len(),
            state@ == spec_process_messages(s0, messages@.take(i as int), cursor).0,
            name_commits_view(name_commits@) == spec_process_messages(
                s0,
                messages@.take(i as int),
                cursor,
            ).1,
            property_commits_view(prop_commits@) == spec_process_messages(
                s0,
                messages@.take(i as int),
                cursor,
            ).2,
        decreases messages@.len() - i,
    {
        assert(messages@.take(i + 1).drop_last() =~= messages@.take(i as int));
        apply_message(state, &messages[i], cursor, &mut name_commits, &mut prop_commits);
        i = i + 1;
    }
    assert(messages@.take(messages@.len() as int) =~= messages@);
    (name_commits, prop_commits)
}

/// A colour as the user typed it: three hexadecimal bytes, or three decimal
/// components (trimmed) still to be read as numbers.
#[derive(Debug)]
pub enum ColorText {
    Hex(u8, u8, u8),
    Components(String, String, String),
}

/// The view of a `ColorText`.
pub enum ColorTextView {
    Hex(u8, u8, u8),
    Components(Seq<char>, Seq<char>, Seq<char>),
}

impl View for ColorText {
    type V = ColorTextView;

    open spec fn view(&self) -> ColorTextView {
        match self {
            ColorText::Hex(r, g, b) => ColorTextView::Hex(*r, *g, *b),
            ColorText::Components(r, g, b) => ColorTextView::Components(r@, g@, b@),
        }
    }
}

/// The UTF-8 bytes of what follows `#` in a trimmed colour text.
pub open spec fn hex_bytes(t: Seq<char>) -> Seq<u8> {
    encode_utf8(t.drop_first())
}

/// Whether the text starts with `#`.
pub open spec fn starts_with_hash(t: Seq<char>) -> bool {
    t.len() > 0 && t[0] == '#'
}

/// The inputs on which reading a colour does not split a character: when the
/// trimmed text is `#` followed by six bytes, byte 2 starts a character, and
/// so does byte 4 when the first pair reads as a byte (otherwise reading
/// stops there).
pub open spec fn parse_color_splits_cleanly(s: Seq<char>) -> bool {
    let t = trim_spec(s);
    let b = hex_bytes(t);
    starts_with_hash(t) && b.len() == 6 ==> is_char_boundary(b, 2) && (spec_parse_hex_u8(
        decode_utf8(b.subrange(0, 2)),
    ) is Some ==> is_char_boundary(b, 4))
}

/// How a colour text is read: after trimming, `#` and six bytes read as three
/// hexadecimal byte pairs, or else three comma-separated components.
pub open spec fn spec_parse_color(s: Seq<char>) -> Result<ColorTextView, Seq<char>> {
    let t = trim_spec(s);
    if starts_with_hash(t) {
        let b = hex_bytes(t);
        if b.len() != 6 {
            Err("Hex color must be #RRGGBB (6 hex digits)"@)
        } else {
            let r = spec_parse_hex_u8(decode_utf8(b.subrange(0, 2)));
            let g = spec_parse_hex_u8(decode_utf8(b.subrange(2, 4)));
            let bl = spec_parse_hex_u8(decode_utf8(b.subrange(4, 6)));
            if r is Some && g is Some && bl is Some {
                Ok(ColorTextView::Hex(r->0, g->0, bl->0))
            } else {
                Err("Invalid hex"@)
            }
        }
    } else {
        let parts = split_on_commas(t);
        if parts.len() != 3 {
            Err("Use 'r,g,b' or '#RRGGBB' format"@)
        } else {
            Ok(
                ColorTextView::Components(
                    trim_spec(parts[0]),
                    trim_spec(parts[1]),
                    trim_spec(parts[2]),
                ),
            )
        }
    }
}

/// Reads a colour typed as `"r,g,b"` or `"#RRGGBB"`. The hexadecimal form
/// yields the three bytes; the decimal form yields the three trimmed
/// components, which the caller reads as numbers. Fails with the message the
/// editor shows when the text has neither form.
pub fn parse_color(s: &str) -> (result: Result<ColorText, String>)
    requires
        parse_color_splits_cleanly(s@),
    ensures
        match result {
            Ok(c) => spec_parse_color(s@) == Ok::<ColorTextView, Seq<char>>(c@),
            Err(e) => spec_parse_color(s@) == Err::<ColorTextView, Seq<char>>(e@),
        },
{
    broadcast use vstd::utf8::group_utf8_lib, vstd::string::group_string_axioms;

    let t = trim_str(s);
    match strip_hash(t) {
        Some(hex) => {
            if hex.as_bytes().len() != 6 {
                return Err("Hex color must be #RRGGBB (6 hex digits)".to_string());
            }
            let ghost b = hex_bytes(t@);
            assert(hex@ == t@.drop_first());
            assert(hex.spec_bytes() == b);
            assert(starts_with_hash(t@));
            assert(b.len() == 6);
            assert(is_char_boundary(b, 2));
            let (p0, rest) = hex.split_at(2);
            proof {
                vstd::utf8::encode_utf8_valid_utf8(hex@);
                vstd::utf8::valid_utf8_split(b, 2);
                vstd::utf8::encode_utf8_decode_utf8(p0@);
            }
            let r = match parse_hex_u8(p0) {
                Some(r) => r,
                None => return Err("Invalid hex".to_string()),
            };
            proof {
                assert(is_char_boundary(b, 4));
                vstd::utf8::is_char_boundary_iff_not_is_continuation_byte(b, 4);
                vstd::utf8::is_char_boundary_iff_not_is_continuation_byte(rest.spec_bytes(), 2);
                assert(rest.spec_bytes()[2] == b[4]);
            }
            let (p1, p2) = rest.split_at(2);
            proof {
                vstd::utf8::encode_utf8_decode_utf8(p1@);
                vstd::utf8::encode_utf8_decode_utf8(p2@);
                assert(p1.spec_bytes() =~= b.subrange(2, 4));
                assert(p2.spec_bytes() =~= b.subrange(4, 6));
            }
            let g = parse_hex_u8(p1);
            let bl = parse_hex_u8(p2);
            match (g, bl) {
                (Some(g), Some(bl)) => Ok(ColorText::Hex(r, g, bl)),
                _ => Err("Invalid hex".to_string()),
            }
        },
        None => {
            let parts = split_commas(t);
            if parts.len() != 3 {
                return Err("Use 'r,g,b' or '#RRGGBB' format".to_string());
            }
            let red = trim_str(parts[0]).to_string();
            let green = trim_str(parts[1]).to_string();
            let blue = trim_str(parts[2]).to_string();
            Ok(ColorText::Components(red, green, blue))
        },
    }
}

/// Whether a row whose lower-cased name is `name_lower` passes the lower-cased
/// tree filter `filter_lower`: every row passes an empty filter, otherwise the
/// name must contain the filter.
pub open spec fn spec_filter_matches(name_lower: Seq<char>, filter_lower: Seq<char>) -> bool {
    filter_lower.len() == 0 || contains_seq(name_lower, filter_lower)
}

/// The tree filter on lower-cased texts.
pub fn filter_matches(name_lower: &str, filter_lower: &str) -> (visible: bool)
    ensures
        visible == spec_filter_matches(name_lower@, filter_lower@),
{
    filter_lower.is_empty() || str_contains(name_lower, filter_lower)
}

/// Whether the world tree shows a row named `name` under the filter text
/// `filter`: the match ignores case.
pub fn tree_row_visible(name: &str, filter: &str) -> (visible: bool)
    ensures
        visible == spec_filter_matches(lowercase(name@), lowercase(filter@)),
{
    let filter_lower = to_lowercase_str(filter);
    let name_lower = to_lowercase_str(name);
    filter_matches(name_lower.as_str(), filter_lower.as_str())
}

/// The marker in front of a tree row: an open or a closed triangle for an
/// expanded or collapsed entity with children, a bullet for one without.
pub fn tree_row_arrow(has_children: bool, expanded: bool) -> (arrow: &'static str)
    ensures
        arrow@ == (if has_children {
            if expanded { "\u{25be}"@ } else { "\u{25b8}"@ }
        } else {
            "\u{2022}"@
        }),
{
    if has_children {
        if expanded {
            "\u{25be}"
        } else {
            "\u{25b8}"
        }
    } else {
        "\u{2022}"
    }
}

} // verus!
