//! Properties of the asset store that relate its operations.
use std::sync::Arc;

use vstd::prelude::*;

use crate::asset::{spec_assets_wf, spec_get, spec_get_by_name};

verus! {

/// After storing `value` under `id`, looking `id` up gives `value`.
pub proof fn lemma_get_after_insert<T>(
    entries: Map<u128, (Seq<char>, Arc<T>)>,
    id: u128,
    name: Seq<char>,
    value: Arc<T>,
)
    ensures
        spec_get(entries.insert(id, (name, value)), id) == Some(value),
{
}

/// After storing `value` under a new name, looking the name up gives `value`.
pub proof fn lemma_get_by_name_after_insert<T>(
    entries: Map<u128, (Seq<char>, Arc<T>)>,
    names: Map<Seq<char>, u128>,
    id: u128,
    name: Seq<char>,
    value: Arc<T>,
)
    ensures
        spec_get_by_name(entries.insert(id, (name, value)), names.insert(name, id), name) == Some(
            value,
        ),
{
}

/// After removing a handle, looking it up gives nothing.
pub proof fn lemma_get_after_remove<T>(entries: Map<u128, (Seq<char>, Arc<T>)>, id: u128)
    ensures
        spec_get(entries.remove(id), id) is None,
{
}

/// After removing a name, looking it up gives nothing, whatever happened to the entries.
pub proof fn lemma_get_by_name_after_remove<T>(
    entries: Map<u128, (Seq<char>, Arc<T>)>,
    names: Map<Seq<char>, u128>,
    name: Seq<char>,
)
    ensures
        spec_get_by_name(entries, names.remove(name), name) is None,
{
}

/// Storing under a name that is not taken and a UUID that is not in use keeps
/// names and entries in step.
pub proof fn lemma_insert_keeps_wf<T>(
    entries: Map<u128, (Seq<char>, Arc<T>)>,
    names: Map<Seq<char>, u128>,
    id: u128,
    name: Seq<char>,
    value: Arc<T>,
)
    requires
        spec_assets_wf(entries, names),
        !entries.contains_key(id),
        !names.contains_key(name),
    ensures
        spec_assets_wf(entries.insert(id, (name, value)), names.insert(name, id)),
{
    let e2 = entries.insert(id, (name, value));
    let n2 = names.insert(name, id);
    assert forall|n: Seq<char>| #[trigger] n2.contains_key(n) implies e2.contains_key(n2[n])
        && e2[n2[n]].0 == n by {
        if n != name {
            assert(entries.contains_key(names[n]));
        }
    }
    assert forall|i: u128| #[trigger] e2.contains_key(i) implies n2.contains_key(e2[i].0)
        && n2[e2[i].0] == i by {
        if i != id {
            assert(names.contains_key(entries[i].0));
        }
    }
}

/// Removing an asset by handle keeps names and entries in step.
pub proof fn lemma_remove_keeps_wf<T>(
    entries: Map<u128, (Seq<char>, Arc<T>)>,
    names: Map<Seq<char>, u128>,
    id: u128,
)
    requires
        spec_assets_wf(entries, names),
    ensures
        entries.contains_key(id) ==> spec_assets_wf(entries.remove(id), names.remove(entries[id].0)),
        !entries.contains_key(id) ==> spec_assets_wf(entries.remove(id), names),
{
    if entries.contains_key(id) {
        let e2 = entries.remove(id);
        let n2 = names.remove(entries[id].0);
        assert forall|n: Seq<char>| #[trigger] n2.contains_key(n) implies e2.contains_key(n2[n])
            && e2[n2[n]].0 == n by {
            assert(entries.contains_key(names[n]));
        }
        assert forall|i: u128| #[trigger] e2.contains_key(i) implies n2.contains_key(e2[i].0)
            && n2[e2[i].0] == i by {
            assert(names.contains_key(entries[i].0));
        }
    } else {
        assert(entries.remove(id) =~= entries);
    }
}

/// Removing an asset by name keeps names and entries in step.
pub proof fn lemma_remove_by_name_keeps_wf<T>(
    entries: Map<u128, (Seq<char>, Arc<T>)>,
    names: Map<Seq<char>, u128>,
    name: Seq<char>,
)
    requires
        spec_assets_wf(entries, names),
    ensures
        names.contains_key(name) ==> spec_assets_wf(entries.remove(names[name]), names.remove(name)),
        !names.contains_key(name) ==> spec_assets_wf(entries, names.remove(name)),
{
    if names.contains_key(name) {
        let e2 = entries.remove(names[name]);
        let n2 = names.remove(name);
        assert forall|n: Seq<char>| #[trigger] n2.contains_key(n) implies e2.contains_key(n2[n])
            && e2[n2[n]].0 == n by {
            assert(entries.contains_key(names[n]));
        }
        assert forall|i: u128| #[trigger] e2.contains_key(i) implies n2.contains_key(e2[i].0)
            && n2[e2[i].0] == i by {
            assert(names.contains_key(entries[i].0));
        }
    } else {
        assert(names.remove(name) =~= names);
    }
}

} // verus!
