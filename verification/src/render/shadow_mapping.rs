use vstd::prelude::*;

verus! {

/// Marks an object that is drawn into the shadow map.
#[derive(Clone, Copy, Default)]
pub struct CastShadow;

} // verus!
