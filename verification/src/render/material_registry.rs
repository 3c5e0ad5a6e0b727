//! The bind group layout of each kind of material, registered once per kind.
use std::collections::HashMap;
use std::sync::Arc;

use vstd::prelude::*;

use crate::asset::arc_clone;

verus! {

broadcast use vstd::std_specs::hash::group_hash_axioms;

/// Stands for the type of a material's data: each type has one layout.
pub type MaterialTypeKey = u64;

/// Why a registry request was refused.
#[derive(Debug, Clone, Copy, PartialEq, Eq, Structural)]
pub enum MaterialError {
    /// The material type already has a layout: it must not be registered twice.
    AlreadyRegistered,
    /// The material type has no layout yet.
    LayoutNotFound,
}

/// The registered layout of a kind of material.
pub struct MaterialLayout<L> {
    pub layout: Arc<L>,
}

/// The registered layout of a kind of buffer-backed material.
pub struct UploadedBufferMaterialLayout<L> {
    pub layout: Arc<L>,
}

/// The layouts `L` of the registered material types.
pub struct MaterialManager<L> {
    pub map: HashMap<MaterialTypeKey, MaterialLayout<L>>,
}

impl<L> MaterialManager<L> {
    /// The registered layouts, by material type.
    pub open spec fn layouts(&self) -> Map<MaterialTypeKey, L> {
        Map::new(|k: MaterialTypeKey| self.map@.contains_key(k), |k: MaterialTypeKey| *self.map@[k].layout)
    }

    /// No material type registered.
    pub fn new() -> (manager: Self)
        ensures
            manager.layouts() == Map::<MaterialTypeKey, L>::empty(),
    {
        let manager = MaterialManager { map: HashMap::new() };
        assert(manager.layouts() =~= Map::<MaterialTypeKey, L>::empty());
        manager
    }

    /// Registers the layout of material type `key`, made by `make_layout` only
    /// when the type has none yet, and returns it. A type that already has a
    /// layout is refused and the registry is left as it was.
    pub fn register<F: FnOnce() -> L>(&mut self, key: MaterialTypeKey, make_layout: F) -> (result: Result<Arc<L>, MaterialError>)
        requires
            call_requires(make_layout, ()),
        ensures
            old(self).layouts().contains_key(key) ==> {
                &&& result == Err::<Arc<L>, MaterialError>(MaterialError::AlreadyRegistered)
                &&& final(self).layouts() == old(self).layouts()
            },
            !old(self).layouts().contains_key(key) ==> exists|layout: L| {
                &&& call_ensures(make_layout, (), layout)
                &&& result == Ok::<Arc<L>, MaterialError>(Arc::new(layout))
                &&& final(self).layouts() == old(self).layouts().insert(key, layout)
            },
    {
        if self.map.contains_key(&key) {
            return Err(MaterialError::AlreadyRegistered);
        }
        let layout = make_layout();
        let shared = Arc::new(layout);
        let ghost before = self.layouts();
        self.map.insert(key, MaterialLayout { layout: arc_clone(&shared) });
        assert(self.layouts() =~= before.insert(key, layout));
        Ok(shared)
    }

    /// The layout of material type `key`, which creating or rebinding a
    /// material instance of that type needs.
    pub fn registered_layout(&self, key: MaterialTypeKey) -> (result: Result<Arc<L>, MaterialError>)
        ensures
            self.layouts().contains_key(key) ==> (result matches Ok(layout) && *layout == self.layouts()[key]),
            !self.layouts().contains_key(key) ==> result == Err::<Arc<L>, MaterialError>(MaterialError::LayoutNotFound),
    {
        match self.map.get(&key) {
            Some(entry) => Ok(arc_clone(&entry.layout)),
            None => Err(MaterialError::LayoutNotFound),
        }
    }
}

/// The layouts `L` of the registered buffer-backed material types.
pub struct BufferMaterialManager<L> {
    pub map: HashMap<MaterialTypeKey, UploadedBufferMaterialLayout<L>>,
}

impl<L> BufferMaterialManager<L> {
    /// The registered layouts, by material type.
    pub open spec fn layouts(&self) -> Map<MaterialTypeKey, L> {
        Map::new(|k: MaterialTypeKey| self.map@.contains_key(k), |k: MaterialTypeKey| *self.map@[k].layout)
    }

    /// No material type registered.
    pub fn new() -> (manager: Self)
        ensures
            manager.layouts() == Map::<MaterialTypeKey, L>::empty(),
    {
        let manager = BufferMaterialManager { map: HashMap::new() };
        assert(manager.layouts() =~= Map::<MaterialTypeKey, L>::empty());
        manager
    }

    /// Registers the layout of material type `key`, made by `make_layout` only
    /// when the type has none yet, and returns it. A type that already has a
    /// layout is refused and the registry is left as it was.
    pub fn register<F: FnOnce() -> L>(&mut self, key: MaterialTypeKey, make_layout: F) -> (result: Result<Arc<L>, MaterialError>)
        requires
            call_requires(make_layout, ()),
        ensures
            old(self).layouts().contains_key(key) ==> {
                &&& result == Err::<Arc<L>, MaterialError>(MaterialError::AlreadyRegistered)
                &&& final(self).layouts() == old(self).layouts()
            },
            !old(self).layouts().contains_key(key) ==> exists|layout: L| {
                &&& call_ensures(make_layout, (), layout)
                &&& result == Ok::<Arc<L>, MaterialError>(Arc::new(layout))
                &&& final(self).layouts() == old(self).layouts().insert(key, layout)
            },
    {
        if self.map.contains_key(&key) {
            return Err(MaterialError::AlreadyRegistered);
        }
        let layout = make_layout();
        let shared = Arc::new(layout);
        let ghost before = self.layouts();
        self.map.insert(key, UploadedBufferMaterialLayout { layout: arc_clone(&shared) });
        assert(self.layouts() =~= before.insert(key, layout));
        Ok(shared)
    }

    /// The layout of material type `key`, which creating or rebinding a
    /// material instance of that type needs.
    pub fn registered_layout(&self, key: MaterialTypeKey) -> (result: Result<Arc<L>, MaterialError>)
        ensures
            self.layouts().contains_key(key) ==> (result matches Ok(layout) && *layout == self.layouts()[key]),
            !self.layouts().contains_key(key) ==> result == Err::<Arc<L>, MaterialError>(MaterialError::LayoutNotFound),
    {
        match self.map.get(&key) {
            Some(entry) => Ok(arc_clone(&entry.layout)),
            None => Err(MaterialError::LayoutNotFound),
        }
    }
}

/// Once the layout of a type is registered, looking the type up gives that
/// layout, and registering the type again is refused; the other types keep
/// their layouts.
pub proof fn lemma_registered_layout_is_kept<L>(before: Map<MaterialTypeKey, L>, key: MaterialTypeKey, layout: L, other: MaterialTypeKey)
    requires
        !before.contains_key(key),
    ensures
        before.insert(key, layout).contains_key(key),
        before.insert(key, layout)[key] == layout,
        other != key ==> before.insert(key, layout).contains_key(other) == before.contains_key(other),
        other != key && before.contains_key(other) ==> before.insert(key, layout)[other] == before[other],
{
}

} // verus!
