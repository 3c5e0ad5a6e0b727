//! What holds of every hierarchy panel: the builder calls open and close
//! folders in matching pairs.
use vstd::prelude::*;

use crate::editor::data_types::Entity;
use crate::editor::hierarchy::{
    find_entry, forest_cut, forest_nodes, root_ids, spec_world_hierarchy, subtree_cut, subtree_nodes,
    world_hierarchy_ends, EntryView, NodeView,
};

verus! {

/// The number of folders left open after the calls `nodes`.
pub open spec fn open_folders(nodes: Seq<NodeView>) -> int
    decreases nodes.len(),
{
    if nodes.len() == 0 {
        0
    } else {
        open_folders(nodes.drop_last()) + match nodes.last() {
            NodeView::Dir(_, _) => 1int,
            NodeView::Leaf(_, _) => 0int,
            NodeView::CloseDir => -1int,
        }
    }
}

/// No call closes a folder that is not open, and every folder opened is closed.
pub open spec fn folders_well_nested(nodes: Seq<NodeView>) -> bool {
    &&& open_folders(nodes) == 0
    &&& forall|k: int| 0 <= k <= nodes.len() ==> open_folders(#[trigger] nodes.take(k)) >= 0
}

proof fn lemma_open_folders_concat(a: Seq<NodeView>, b: Seq<NodeView>)
    ensures
        open_folders(a + b) == open_folders(a) + open_folders(b),
    decreases b.len(),
{
    if b.len() == 0 {
        assert(a + b =~= a);
    } else {
        assert((a + b).drop_last() =~= a + b.drop_last());
        lemma_open_folders_concat(a, b.drop_last());
    }
}

proof fn lemma_concat_well_nested(a: Seq<NodeView>, b: Seq<NodeView>)
    requires
        folders_well_nested(a),
        folders_well_nested(b),
    ensures
        folders_well_nested(a + b),
{
    lemma_open_folders_concat(a, b);
    assert forall|k: int| 0 <= k <= (a + b).len() implies open_folders(#[trigger] (a + b).take(k)) >= 0 by {
        if k <= a.len() {
            assert((a + b).take(k) =~= a.take(k));
        } else {
            assert((a + b).take(k) =~= a + b.take(k - a.len()));
            assert(a.take(a.len() as int) =~= a);
            lemma_open_folders_concat(a, b.take(k - a.len()));
        }
    }
}

proof fn lemma_wrap_well_nested(id: Entity, label: Seq<char>, inner: Seq<NodeView>)
    requires
        folders_well_nested(inner),
    ensures
        folders_well_nested(seq![NodeView::Dir(id, label)] + inner + seq![NodeView::CloseDir]),
{
    let open = seq![NodeView::Dir(id, label)];
    let close = seq![NodeView::CloseDir];
    let whole = open + inner + close;
    assert(open.drop_last() =~= Seq::<NodeView>::empty());
    assert(open_folders(Seq::<NodeView>::empty()) == 0);
    assert(open.last() == NodeView::Dir(id, label));
    assert(open_folders(open) == 1);
    lemma_open_folders_concat(open, inner);
    lemma_open_folders_concat(open + inner, close);
    assert(close.drop_last() =~= Seq::<NodeView>::empty());
    assert forall|k: int| 0 <= k <= whole.len() implies open_folders(#[trigger] whole.take(k)) >= 0 by {
        if k == 0 {
            assert(whole.take(k) =~= Seq::<NodeView>::empty());
        } else if k <= 1 + inner.len() {
            assert(whole.take(k) =~= open + inner.take(k - 1));
            lemma_open_folders_concat(open, inner.take(k - 1));
        } else {
            assert(whole.take(k) =~= whole);
        }
    }
}

proof fn lemma_subtree_well_nested(entries: Seq<EntryView>, id: Entity, fuel: nat)
    ensures
        folders_well_nested(subtree_nodes(entries, id, fuel)),
    decreases fuel, 0nat, 0nat,
{
    let nodes = subtree_nodes(entries, id, fuel);
    match find_entry(entries, id) {
        None => {
            assert forall|k: int| 0 <= k <= nodes.len() implies open_folders(#[trigger] nodes.take(k)) >= 0 by {
                assert(nodes.take(k) =~= Seq::<NodeView>::empty());
            }
        },
        Some(i) => {
            let e = entries[i];
            if e.3.len() == 0 {
                assert forall|k: int| 0 <= k <= nodes.len() implies open_folders(#[trigger] nodes.take(k)) >= 0 by {
                    if k == 0 {
                        assert(nodes.take(k) =~= Seq::<NodeView>::empty());
                    } else {
                        assert(nodes.take(k) =~= nodes);
                        assert(nodes.drop_last() =~= Seq::<NodeView>::empty());
                        assert(open_folders(Seq::<NodeView>::empty()) == 0);
                    }
                }
                assert(nodes.drop_last() =~= Seq::<NodeView>::empty());
                assert(open_folders(Seq::<NodeView>::empty()) == 0);
            } else {
                let inner = if fuel > 0 { forest_nodes(entries, e.3, (fuel - 1) as nat) } else { seq![] };
                if fuel > 0 {
                    lemma_forest_well_nested(entries, e.3, (fuel - 1) as nat);
                } else {
                    assert forall|k: int| 0 <= k <= inner.len() implies open_folders(#[trigger] inner.take(k)) >= 0 by {
                        assert(inner.take(k) =~= Seq::<NodeView>::empty());
                    }
                }
                lemma_wrap_well_nested(id, crate::editor::hierarchy::spec_entity_label(e.1, id), inner);
            }
        },
    }
}

proof fn lemma_forest_well_nested(entries: Seq<EntryView>, ids: Seq<Entity>, fuel: nat)
    ensures
        folders_well_nested(forest_nodes(entries, ids, fuel)),
    decreases fuel, 1nat, ids.len(),
{
    if ids.len() == 0 {
        let nodes = forest_nodes(entries, ids, fuel);
        assert forall|k: int| 0 <= k <= nodes.len() implies open_folders(#[trigger] nodes.take(k)) >= 0 by {
            assert(nodes.take(k) =~= Seq::<NodeView>::empty());
        }
    } else {
        lemma_forest_well_nested(entries, ids.drop_last(), fuel);
        lemma_subtree_well_nested(entries, ids.last(), fuel);
        lemma_concat_well_nested(forest_nodes(entries, ids.drop_last(), fuel), subtree_nodes(entries, ids.last(), fuel));
    }
}

/// Whatever the entities and their links, the hierarchy panel's builder calls
/// never close a folder that is not open and leave no folder open.
pub proof fn lemma_world_hierarchy_well_nested(entries: Seq<EntryView>)
    ensures
        folders_well_nested(spec_world_hierarchy(entries)),
{
    lemma_forest_well_nested(entries, root_ids(entries), entries.len());
}

proof fn lemma_subtree_allowance(entries: Seq<EntryView>, id: Entity, fuel: nat, more: nat)
    requires
        !subtree_cut(entries, id, fuel),
        fuel <= more,
    ensures
        subtree_nodes(entries, id, fuel) == subtree_nodes(entries, id, more),
    decreases fuel, 0nat, 0nat,
{
    match find_entry(entries, id) {
        None => {},
        Some(i) => {
            if entries[i].3.len() > 0 {
                lemma_forest_allowance(entries, entries[i].3, (fuel - 1) as nat, (more - 1) as nat);
            }
        },
    }
}

proof fn lemma_forest_allowance(entries: Seq<EntryView>, ids: Seq<Entity>, fuel: nat, more: nat)
    requires
        !forest_cut(entries, ids, fuel),
        fuel <= more,
    ensures
        forest_nodes(entries, ids, fuel) == forest_nodes(entries, ids, more),
    decreases fuel, 1nat, ids.len(),
{
    if ids.len() > 0 {
        lemma_forest_allowance(entries, ids.drop_last(), fuel, more);
        lemma_subtree_allowance(entries, ids.last(), fuel, more);
    }
}

/// When the walk of the hierarchy ends, its allowance of levels is never used
/// up: any larger allowance gives the same builder calls, so the panel is the
/// unbounded walk of the children links.
pub proof fn lemma_world_hierarchy_allowance_unused(entries: Seq<EntryView>, more: nat)
    requires
        world_hierarchy_ends(entries),
        entries.len() <= more,
    ensures
        forest_nodes(entries, root_ids(entries), more) == spec_world_hierarchy(entries),
{
    lemma_forest_allowance(entries, root_ids(entries), entries.len(), more);
}

} // verus!
