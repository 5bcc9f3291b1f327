use vstd::prelude::*;

verus! {

/// Stable identity for a type, used purely as an opaque key: only equality
/// is ever asked of it. The surrounding application assigns one distinct
/// key per distinct plugin / unique / storage type.
#[derive(Clone, Copy, PartialEq, Eq, Hash, Debug, Structural)]
pub struct TypeKey {
    pub id: u64,
}

impl TypeKey {
    pub fn new(id: u64) -> (k: TypeKey)
        ensures
            k.id == id,
    {
        TypeKey { id }
    }
}

} // verus!
