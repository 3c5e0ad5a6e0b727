//! The scene hierarchy panel: the folder and leaf entries that the tree view is
//! built from, one per entity, nested as the transforms' parent links nest them.
use vstd::prelude::*;

use crate::editor::data_types::Entity;

verus! {

/// What the hierarchy panel reads of one entity: its id, its name if it has
/// one, its transform's parent and its transform's children.
pub struct HierarchyEntry {
    pub id: Entity,
    pub name: Option<String>,
    pub parent: Option<Entity>,
    pub children: Vec<Entity>,
}

/// The view of an entry: id, name, parent, children.
pub type EntryView = (Entity, Option<Seq<char>>, Option<Entity>, Seq<Entity>);

impl View for HierarchyEntry {
    type V = EntryView;

    open spec fn view(&self) -> EntryView {
        (
            self.id,
            match self.name {
                Some(n) => Some(n@),
                None => None,
            },
            self.parent,
            self.children@,
        )
    }
}

/// One call on the tree view builder: open a folder, add a leaf, or close the
/// folder opened last.
#[derive(Debug, Clone, PartialEq, Eq)]
pub enum HierarchyNode {
    Dir(Entity, String),
    Leaf(Entity, String),
    CloseDir,
}

/// The view of a builder call.
pub enum NodeView {
    Dir(Entity, Seq<char>),
    Leaf(Entity, Seq<char>),
    CloseDir,
}

impl View for HierarchyNode {
    type V = NodeView;

    open spec fn view(&self) -> NodeView {
        match self {
            HierarchyNode::Dir(id, label) => NodeView::Dir(*id, label@),
            HierarchyNode::Leaf(id, label) => NodeView::Leaf(*id, label@),
            HierarchyNode::CloseDir => NodeView::CloseDir,
        }
    }
}

/// The views of a list of entries.
pub open spec fn entries_view(entries: Seq<HierarchyEntry>) -> Seq<EntryView> {
    entries.map_values(|e: HierarchyEntry| e@)
}

/// The views of a list of builder calls.
pub open spec fn nodes_view(nodes: Seq<HierarchyNode>) -> Seq<NodeView> {
    nodes.map_values(|n: HierarchyNode| n@)
}

/// The position of the first entry of `id`, if any.
pub open spec fn find_entry(entries: Seq<EntryView>, id: Entity) -> Option<int>
    decreases entries.len(),
{
    if entries.len() == 0 {
        None
    } else {
        match find_entry(entries.drop_last(), id) {
            Some(i) => Some(i),
            None => if entries.last().0 == id {
                Some(entries.len() - 1)
            } else {
                None
            },
        }
    }
}

/// The decimal digits of `n`, without leading zeros.
pub open spec fn decimal(n: nat) -> Seq<char>
    decreases n,
{
    let digit = (('0' as int) + (n % 10) as int) as char;
    if n < 10 {
        seq![digit]
    } else {
        decimal(n / 10).push(digit)
    }
}

/// The index part of an entity id (its low 32 bits), which the panel shows.
pub open spec fn spec_entity_index(id: Entity) -> nat {
    (id % 0x1_0000_0000) as nat
}

/// The label of an entity in the panel: `name #index`, or `#index` when it has no name.
pub open spec fn spec_entity_label(name: Option<Seq<char>>, id: Entity) -> Seq<char> {
    match name {
        Some(n) => n + seq![' ', '#'] + decimal(spec_entity_index(id)),
        None => seq!['#'] + decimal(spec_entity_index(id)),
    }
}

/// The builder calls for the subtree of `id`: nothing when no entry has that id;
/// a leaf when the entity has no children; else a folder holding the children's
/// subtrees, in order. At most `fuel` further levels are descended.
pub open spec fn subtree_nodes(entries: Seq<EntryView>, id: Entity, fuel: nat) -> Seq<NodeView>
    decreases fuel, 0nat, 0nat,
{
    match find_entry(entries, id) {
        None => seq![],
        Some(i) => {
            let e = entries[i];
            let label = spec_entity_label(e.1, id);
            if e.3.len() == 0 {
                seq![NodeView::Leaf(id, label)]
            } else {
                let inner = if fuel > 0 { forest_nodes(entries, e.3, (fuel - 1) as nat) } else { seq![] };
                seq![NodeView::Dir(id, label)] + inner + seq![NodeView::CloseDir]
            }
        },
    }
}

/// The builder calls for the subtrees of `ids`, one after the other.
pub open spec fn forest_nodes(entries: Seq<EntryView>, ids: Seq<Entity>, fuel: nat) -> Seq<NodeView>
    decreases fuel, 1nat, ids.len(),
{
    if ids.len() == 0 {
        seq![]
    } else {
        forest_nodes(entries, ids.drop_last(), fuel) + subtree_nodes(entries, ids.last(), fuel)
    }
}

/// The entities whose transform has no parent, in order.
pub open spec fn root_ids(entries: Seq<EntryView>) -> Seq<Entity>
    decreases entries.len(),
{
    if entries.len() == 0 {
        seq![]
    } else if entries.last().2 is None {
        root_ids(entries.drop_last()).push(entries.last().0)
    } else {
        root_ids(entries.drop_last())
    }
}

/// The whole panel below the world folder: the subtree of every root entity.
/// The descent is given an allowance of `entries.len()` levels, which a walk
/// that ends never uses up (`world_hierarchy_ends`,
/// `lemma_world_hierarchy_allowance_unused`).
pub open spec fn spec_world_hierarchy(entries: Seq<EntryView>) -> Seq<NodeView> {
    forest_nodes(entries, root_ids(entries), entries.len())
}

/// Whether the walk below `id`, allowed `fuel` further levels, would have to
/// open the folder of an entity with children when no level is left.
pub open spec fn subtree_cut(entries: Seq<EntryView>, id: Entity, fuel: nat) -> bool
    decreases fuel, 0nat, 0nat,
{
    match find_entry(entries, id) {
        None => false,
        Some(i) => entries[i].3.len() > 0 && (fuel == 0 || forest_cut(entries, entries[i].3, (fuel - 1) as nat)),
    }
}

/// Whether the walk below one of `ids` would have to go past its allowance.
pub open spec fn forest_cut(entries: Seq<EntryView>, ids: Seq<Entity>, fuel: nat) -> bool
    decreases fuel, 1nat, ids.len(),
{
    ids.len() > 0 && (forest_cut(entries, ids.drop_last(), fuel) || subtree_cut(entries, ids.last(), fuel))
}

/// The walk of the hierarchy from its roots ends. Going past `entries.len()`
/// levels takes a chain of more entities with children than there are
/// entries, so some entity comes back along it and the walk below it repeats
/// without end; and a walk that never ends does go that deep. So the walk ends
/// exactly when it stays within its allowance.
pub open spec fn world_hierarchy_ends(entries: Seq<EntryView>) -> bool {
    !forest_cut(entries, root_ids(entries), entries.len())
}

/// `name #index`, as `format!` writes it.
#[verifier::external_body]
fn named_index_label(name: &str, index: u32) -> (label: String)
    ensures
        label@ == name@ + seq![' ', '#'] + decimal(index as nat),
{
    format!("{} #{}", name, index)
}

/// `#index`, as `format!` writes it.
#[verifier::external_body]
fn index_label(index: u32) -> (label: String)
    ensures
        label@ == seq!['#'] + decimal(index as nat),
{
    format!("#{}", index)
}

/// The index part of an entity id.
pub fn entity_index(id: Entity) -> (index: u32)
    ensures
        index == spec_entity_index(id),
{
    (id % 0x1_0000_0000) as u32
}

/// The label shown for an entity.
pub fn entity_label(name: &Option<String>, id: Entity) -> (label: String)
    ensures
        label@ == spec_entity_label(
            match name {
                Some(n) => Some(n@),
                None => None,
            },
            id,
        ),
{
    let index = entity_index(id);
    match name {
        Some(n) => named_index_label(n.as_str(), index),
        None => index_label(index),
    }
}

proof fn lemma_find_entry_extends(s: Seq<EntryView>, n: int, id: Entity)
    requires
        0 <= n <= s.len(),
        find_entry(s.take(n), id) is Some,
    ensures
        find_entry(s, id) == find_entry(s.take(n), id),
    decreases s.len(),
{
    if n < s.len() {
        assert(s.drop_last().take(n) =~= s.take(n));
        lemma_find_entry_extends(s.drop_last(), n, id);
    } else {
        assert(s.take(n) =~= s);
    }
}

fn find_entry_index(entries: &Vec<HierarchyEntry>, id: Entity) -> (found: Option<usize>)
    ensures
        match found {
            Some(i) => i < entries.len() && find_entry(entries_view(entries@), id) == Some(i as int),
            None => find_entry(entries_view(entries@), id) is None,
        },
{
    let ghost all = entries_view(entries@);
    let mut i: usize = 0;
    while i < entries.len()
        invariant
            i <= entries.len(),
            all == entries_view(entries@),
            find_entry(all.take(i as int), id) is None,
        decreases entries.len() - i,
    {
        proof {
            assert(all.take(i + 1).drop_last() =~= all.take(i as int));
        }
        if entries[i].id == id {
            proof {
                assert(all.take(i + 1).last().0 == id);
                lemma_find_entry_extends(all, i + 1, id);
            }
            return Some(i);
        }
        i = i + 1;
    }
    proof {
        assert(all.take(i as int) =~= all);
    }
    None
}

fn push_subtree(entries: &Vec<HierarchyEntry>, id: Entity, fuel: usize, out: &mut Vec<HierarchyNode>)
    ensures
        nodes_view(final(out)@) == nodes_view(old(out)@) + subtree_nodes(entries_view(entries@), id, fuel as nat),
    decreases fuel, 0nat,
{
    let ghost start = nodes_view(out@);
    match find_entry_index(entries, id) {
        None => {
            assert(nodes_view(out@) =~= start + Seq::<NodeView>::empty());
        },
        Some(i) => {
            let entry = &entries[i];
            let label = entity_label(&entry.name, id);
            proof {
                assert(entries_view(entries@)[i as int] == entry@);
            }
            if entry.children.len() == 0 {
                out.push(HierarchyNode::Leaf(id, label));
                assert(nodes_view(out@) =~= start + subtree_nodes(entries_view(entries@), id, fuel as nat));
            } else {
                out.push(HierarchyNode::Dir(id, label));
                let ghost opened = nodes_view(out@);
                proof {
                    assert(opened =~= start + seq![NodeView::Dir(id, spec_entity_label(entry@.1, id))]);
                }
                if fuel > 0 {
                    push_forest(entries, &entry.children, fuel - 1, out);
                }
                let ghost inner = if fuel > 0 {
                    forest_nodes(entries_view(entries@), entry.children@, (fuel - 1) as nat)
                } else {
                    Seq::<NodeView>::empty()
                };
                assert(nodes_view(out@) =~= opened + inner);
                let ghost before_close = nodes_view(out@);
                out.push(HierarchyNode::CloseDir);
                proof {
                    assert(nodes_view(out@) =~= before_close.push(NodeView::CloseDir));
                    let ev = entries_view(entries@);
                    assert(ev[i as int].3 == entry.children@);
                    assert(ev[i as int].3.len() != 0);
                    assert(subtree_nodes(ev, id, fuel as nat) == seq![NodeView::Dir(id, spec_entity_label(entry@.1, id))]
                        + inner + seq![NodeView::CloseDir]);
                    assert(nodes_view(out@) =~= start + subtree_nodes(ev, id, fuel as nat));
                }
            }
        },
    }
}

fn push_forest(entries: &Vec<HierarchyEntry>, ids: &Vec<Entity>, fuel: usize, out: &mut Vec<HierarchyNode>)
    ensures
        nodes_view(final(out)@) == nodes_view(old(out)@) + forest_nodes(entries_view(entries@), ids@, fuel as nat),
    decreases fuel, 1nat,
{
    let ghost start = nodes_view(out@);
    let ghost ev = entries_view(entries@);
    let mut k: usize = 0;
    while k < ids.len()
        invariant
            k <= ids.len(),
            ev == entries_view(entries@),
            nodes_view(out@) == start + forest_nodes(ev, ids@.take(k as int), fuel as nat),
        decreases ids.len() - k,
    {
        push_subtree(entries, ids[k], fuel, out);
        proof {
            let taken = ids@.take(k + 1);
            assert(taken.drop_last() =~= ids@.take(k as int));
            assert(taken.last() == ids@[k as int]);
            assert(nodes_view(out@) =~= start + forest_nodes(ev, taken, fuel as nat));
        }
        k = k + 1;
    }
    proof {
        assert(ids@.take(k as int) =~= ids@);
    }
}

/// The entities whose transform has no parent, in the order of `entries`.
pub fn hierarchy_roots(entries: &Vec<HierarchyEntry>) -> (roots: Vec<Entity>)
    ensures
        roots@ == root_ids(entries_view(entries@)),
{
    let ghost all = entries_view(entries@);
    let mut roots: Vec<Entity> = Vec::new();
    let mut i: usize = 0;
    while i < entries.len()
        invariant
            i <= entries.len(),
            all == entries_view(entries@),
            roots@ == root_ids(all.take(i as int)),
        decreases entries.len() - i,
    {
        proof {
            assert(all.take(i + 1).drop_last() =~= all.take(i as int));
        }
        if entries[i].parent.is_none() {
            roots.push(entries[i].id);
        }
        i = i + 1;
    }
    proof {
        assert(all.take(i as int) =~= all);
    }
    roots
}

/// The builder calls of the hierarchy panel below its world folder: the subtree
/// of every root entity, in order, when that walk ends (where children links
/// make an entity with children its own descendant, it would not).
pub fn world_hierarchy(entries: &Vec<HierarchyEntry>) -> (nodes: Vec<HierarchyNode>)
    requires
        world_hierarchy_ends(entries_view(entries@)),
    ensures
        nodes_view(nodes@) == spec_world_hierarchy(entries_view(entries@)),
{
    let roots = hierarchy_roots(entries);
    let mut nodes: Vec<HierarchyNode> = Vec::new();
    push_forest(entries, &roots, entries.len(), &mut nodes);
    assert(nodes_view(Seq::<HierarchyNode>::empty()) =~= Seq::<NodeView>::empty());
    proof {
        assert(Seq::<NodeView>::empty() + spec_world_hierarchy(entries_view(entries@)) =~= spec_world_hierarchy(entries_view(entries@)));
    }
    nodes
}

fn subtree_walk_cut(entries: &Vec<HierarchyEntry>, id: Entity, fuel: usize) -> (cut: bool)
    ensures
        cut == subtree_cut(entries_view(entries@), id, fuel as nat),
    decreases fuel, 0nat,
{
    match find_entry_index(entries, id) {
        None => false,
        Some(i) => {
            proof {
                assert(entries_view(entries@)[i as int] == entries@[i as int]@);
            }
            if entries[i].children.len() == 0 {
                false
            } else if fuel == 0 {
                true
            } else {
                forest_walk_cut(entries, &entries[i].children, fuel - 1)
            }
        },
    }
}

proof fn lemma_forest_cut_prefix(entries: Seq<EntryView>, ids: Seq<Entity>, n: int, fuel: nat)
    requires
        0 <= n <= ids.len(),
        forest_cut(entries, ids.take(n), fuel),
    ensures
        forest_cut(entries, ids, fuel),
    decreases ids.len(),
{
    if n < ids.len() {
        assert(ids.drop_last().take(n) =~= ids.take(n));
        lemma_forest_cut_prefix(entries, ids.drop_last(), n, fuel);
    } else {
        assert(ids.take(n) =~= ids);
    }
}

fn forest_walk_cut(entries: &Vec<HierarchyEntry>, ids: &Vec<Entity>, fuel: usize) -> (cut: bool)
    ensures
        cut == forest_cut(entries_view(entries@), ids@, fuel as nat),
    decreases fuel, 1nat,
{
    let ghost ev = entries_view(entries@);
    let mut k: usize = 0;
    while k < ids.len()
        invariant
            k <= ids.len(),
            ev == entries_view(entries@),
            !forest_cut(ev, ids@.take(k as int), fuel as nat),
        decreases ids.len() - k,
    {
        assert(ids@.take(k + 1).drop_last() =~= ids@.take(k as int));
        assert(ids@.take(k + 1).last() == ids@[k as int]);
        if subtree_walk_cut(entries, ids[k], fuel) {
            proof {
                lemma_forest_cut_prefix(ev, ids@, k + 1, fuel as nat);
            }
            return true;
        }
        k = k + 1;
    }
    assert(ids@.take(k as int) =~= ids@);
    false
}

/// Whether the walk of the hierarchy from its roots ends, which building the
/// panel needs.
pub fn world_hierarchy_walk_ends(entries: &Vec<HierarchyEntry>) -> (ends: bool)
    ensures
        ends == world_hierarchy_ends(entries_view(entries@)),
{
    let roots = hierarchy_roots(entries);
    !forest_walk_cut(entries, &roots, entries.len())
}

} // verus!
