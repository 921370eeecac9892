use vstd::prelude::*;

verus! {

/// Identifier of a node of the document.
#[derive(Clone, Copy, PartialEq, Eq, Structural, Debug, Hash)]
pub struct DomId {
    pub id: u64,
}

/// The identifier of the root node, the one that is mounted first.
pub open spec fn root_id() -> u64 {
    1
}

impl DomId {
    /// The root node.
    pub fn root() -> (r: DomId)
        ensures
            r.id == root_id(),
    {
        DomId { id: 1 }
    }

    pub fn from_u64(id: u64) -> (r: DomId)
        ensures
            r.id == id,
    {
        DomId { id }
    }

    pub fn to_u64(&self) -> (r: u64)
        ensures
            r == self.id,
    {
        self.id
    }
}

} // verus!
