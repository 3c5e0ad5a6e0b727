pub mod laws;
pub mod cubemap;
pub mod load;
pub mod uuid_text;

use std::collections::HashMap;
use std::marker::PhantomData;
use std::sync::Arc;

use vstd::hash_map::StringHashMap;
use vstd::prelude::*;

use crate::asset::uuid_text::{new_uuid_v4, uuid_hyphenated, uuid_to_string};

verus! {

broadcast use vstd::std_specs::hash::group_hash_axioms;

/// Where an asset lives, relative to the application's asset root.
#[derive(Clone)]
pub enum AssetPath {
    Assets(String),
}

/// The path of every asset file is `assets/` followed by the asset's relative path.
pub open spec fn spec_final_path(path: AssetPath) -> Seq<char> {
    match path {
        AssetPath::Assets(p) => seq!['a', 's', 's', 'e', 't', 's', '/'] + p@,
    }
}

impl AssetPath {
    /// The file-system path of this asset.
    pub fn final_path(&self) -> (result: String)
        ensures
            result@ == spec_final_path(*self),
    {
        match self {
            AssetPath::Assets(p) => {
                let prefix: &str = "assets/";
                proof {
                    reveal_strlit("assets/");
                }
                let mut out = prefix.to_string();
                out.append(p.as_str());
                out
            },
        }
    }
}

/// Why an asset could not be stored.
#[derive(Debug, Clone, Copy, PartialEq, Eq, Structural)]
pub enum AssetError {
    /// Another asset is already stored under the requested name.
    SameName,
}

impl AssetError {
    /// The human-readable text of the error.
    pub fn message(&self) -> (text: &'static str)
        ensures
            text@ == "Same name in the assets!"@,
    {
        match self {
            AssetError::SameName => "Same name in the assets!",
        }
    }
}

/// A typed reference to an asset stored in an `Assets<T>`, identified by a UUID.
#[derive(Debug)]
pub struct Handle<T> {
    pha: PhantomData<T>,
    uuid: u128,
}

impl<T> Handle<T> {
    /// The UUID of the asset, as a 128-bit number.
    pub closed spec fn id(self) -> u128 {
        self.uuid
    }

    /// The UUID of the asset, as a 128-bit number.
    pub fn uuid(&self) -> (id: u128)
        ensures
            id == self.id(),
    {
        self.uuid
    }
}

impl<T> Clone for Handle<T> {
    fn clone(&self) -> (result: Self)
        ensures
            result.id() == self.id(),
    {
        Handle { pha: PhantomData, uuid: self.uuid }
    }
}

impl<T> Copy for Handle<T> {
}

impl<T> PartialEq for Handle<T> {
    fn eq(&self, other: &Self) -> (result: bool) {
        self.uuid == other.uuid
    }
}

impl<T> vstd::std_specs::cmp::PartialEqSpecImpl for Handle<T> {
    open spec fn obeys_eq_spec() -> bool {
        true
    }

    open spec fn eq_spec(&self, other: &Self) -> bool {
        self.id() == other.id()
    }
}

impl<T> Eq for Handle<T> {
}

/// `Arc::clone`: a second pointer to the same value, so the clone equals its source.
#[verifier::external_body]
pub(crate) fn arc_clone<T>(a: &Arc<T>) -> (result: Arc<T>)
    ensures
        result == *a,
{
    Arc::clone(a)
}

/// The value stored under `id`, if any.
pub open spec fn spec_get<T>(entries: Map<u128, (Seq<char>, Arc<T>)>, id: u128) -> Option<Arc<T>> {
    if entries.contains_key(id) {
        Some(entries[id].1)
    } else {
        None
    }
}

/// The value stored under the handle that `name` refers to, if any.
pub open spec fn spec_get_by_name<T>(
    entries: Map<u128, (Seq<char>, Arc<T>)>,
    names: Map<Seq<char>, u128>,
    name: Seq<char>,
) -> Option<Arc<T>> {
    if names.contains_key(name) {
        spec_get(entries, names[name])
    } else {
        None
    }
}

/// Every name refers to an entry stored under that name, and every entry's
/// name refers back to it.
pub open spec fn spec_assets_wf<T>(
    entries: Map<u128, (Seq<char>, Arc<T>)>,
    names: Map<Seq<char>, u128>,
) -> bool {
    &&& forall|n: Seq<char>|
        #[trigger] names.contains_key(n) ==> entries.contains_key(names[n]) && entries[names[n]].0
            == n
    &&& forall|id: u128|
        #[trigger] entries.contains_key(id) ==> names.contains_key(entries[id].0) && names[entries[id].0]
            == id
}

/// A store of shared assets, found by handle or by name.
pub struct Assets<T> {
    map: HashMap<u128, (String, Arc<T>)>,
    name_map: StringHashMap<u128>,
}

impl<T> Assets<T> {
    /// The stored assets: for each UUID, the asset's name and value.
    pub closed spec fn entries(&self) -> Map<u128, (Seq<char>, Arc<T>)> {
        self.map@.map_values(|v: (String, Arc<T>)| (v.0@, v.1))
    }

    /// The names: for each name, the UUID it refers to.
    pub closed spec fn names(&self) -> Map<Seq<char>, u128> {
        self.name_map@
    }

    /// An empty store.
    pub fn new() -> (result: Self)
        ensures
            result.entries() == Map::<u128, (Seq<char>, Arc<T>)>::empty(),
            result.names() == Map::<Seq<char>, u128>::empty(),
    {
        let result = Assets { map: HashMap::new(), name_map: StringHashMap::new() };
        assert(result.entries() =~= Map::<u128, (Seq<char>, Arc<T>)>::empty());
        result
    }

    /// The asset that `handle` refers to, if it is stored.
    pub fn get(&self, handle: &Handle<T>) -> (result: Option<Arc<T>>)
        ensures
            result == spec_get(self.entries(), handle.id()),
    {
        match self.map.get(&handle.uuid) {
            Some(entry) => Some(arc_clone(&entry.1)),
            None => None,
        }
    }

    /// The asset stored under `name`, if any.
    pub fn get_by_name(&mut self, name: &str) -> (result: Option<Arc<T>>)
        ensures
            final(self).entries() == old(self).entries(),
            final(self).names() == old(self).names(),
            result == spec_get_by_name(old(self).entries(), old(self).names(), name@),
    {
        match self.name_map.get(name) {
            Some(id) => {
                let id: u128 = *id;
                match self.map.get(&id) {
                    Some(entry) => Some(arc_clone(&entry.1)),
                    None => None,
                }
            },
            None => None,
        }
    }

    /// Stores `value` under `name` and a fresh random UUID, unless the name is
    /// already taken.
    pub fn insert_with_name(&mut self, name: &str, value: Arc<T>) -> (result: Result<
        Handle<T>,
        AssetError,
    >)
        ensures
            result is Err <==> old(self).names().contains_key(name@),
            match result {
                Ok(handle) => {
                    &&& final(self).entries() == old(self).entries().insert(
                        handle.id(),
                        (name@, value),
                    )
                    &&& final(self).names() == old(self).names().insert(name@, handle.id())
                },
                Err(e) => {
                    &&& e == AssetError::SameName
                    &&& final(self).entries() == old(self).entries()
                    &&& final(self).names() == old(self).names()
                },
            },
    {
        if !self.name_map.contains_key(name) {
            let uuid = new_uuid_v4();
            let handle = Handle { pha: PhantomData, uuid };
            let owned = name.to_string();
            self.map.insert(uuid, (owned.clone(), value));
            self.name_map.insert(owned, uuid);
            assert(self.entries() =~= old(self).entries().insert(uuid, (name@, value)));
            return Ok(handle);
        }
        Err(AssetError::SameName)
    }

    /// Stores `value` under a fresh random UUID; its name is the UUID's
    /// hyphenated lower-case text.
    pub fn insert(&mut self, value: Arc<T>) -> (handle: Handle<T>)
        ensures
            final(self).entries() == old(self).entries().insert(
                handle.id(),
                (uuid_hyphenated(handle.id()), value),
            ),
            final(self).names() == old(self).names().insert(uuid_hyphenated(handle.id()), handle.id()),
    {
        let uuid = new_uuid_v4();
        let handle = Handle { pha: PhantomData, uuid };
        let name = uuid_to_string(uuid);
        self.map.insert(uuid, (name.clone(), value));
        self.name_map.insert(name, uuid);
        assert(self.entries() =~= old(self).entries().insert(
            uuid,
            (uuid_hyphenated(uuid), value),
        ));
        handle
    }

    /// Removes the name `name` and the asset it refers to, returning that asset.
    pub fn remove_by_name(&mut self, name: &String) -> (result: Option<Arc<T>>)
        ensures
            final(self).names() == old(self).names().remove(name@),
            result == spec_get_by_name(old(self).entries(), old(self).names(), name@),
            old(self).names().contains_key(name@) ==> final(self).entries() == old(
                self,
            ).entries().remove(old(self).names()[name@]),
            !old(self).names().contains_key(name@) ==> final(self).entries() == old(self).entries(),
    {
        let found = match self.name_map.get(name.as_str()) {
            Some(id) => Some(*id),
            None => None,
        };
        self.name_map.remove(name.as_str());
        match found {
            Some(id) => {
                let removed = self.map.remove(&id);
                assert(self.entries() =~= old(self).entries().remove(id));
                match removed {
                    Some((_, value)) => Some(value),
                    None => None,
                }
            },
            None => None,
        }
    }

    /// Removes the asset that `handle` refers to and its name, returning the asset.
    pub fn remove(&mut self, handle: &Handle<T>) -> (result: Option<Arc<T>>)
        ensures
            final(self).entries() == old(self).entries().remove(handle.id()),
            result == spec_get(old(self).entries(), handle.id()),
            old(self).entries().contains_key(handle.id()) ==> final(self).names() == old(
                self,
            ).names().remove(old(self).entries()[handle.id()].0),
            !old(self).entries().contains_key(handle.id()) ==> final(self).names() == old(
                self,
            ).names(),
    {
        let out = self.map.remove(&handle.uuid);
        assert(self.entries() =~= old(self).entries().remove(handle.id()));
        match out {
            Some((name, value)) => {
                self.name_map.remove(name.as_str());
                Some(value)
            },
            None => None,
        }
    }
}

} // verus!
