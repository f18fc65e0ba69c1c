use vstd::prelude::*;

verus! {

/// Identifier of a relation, one-to-one with the relation's name.
pub type RelId = usize;

/// Identifier of an index (arrangement), one-to-one with the index's name.
pub type IdxId = usize;

/// Runtime tag of a value type declared by the schema.
pub type TypeTag = u64;

/// A runtime-typed value: the tag of its type and its payload.
#[derive(Clone, Copy, Debug, PartialEq, Eq, Structural, Hash)]
pub struct DDValue {
    pub type_id: TypeTag,
    pub payload: u64,
}

/// A generic record, as an external caller writes a value before it is
/// converted to the typed value of a relation or index.
#[derive(Clone, Copy, Debug, PartialEq, Eq, Structural, Hash)]
pub struct Record {
    pub type_id: TypeTag,
    pub payload: u64,
}

/// A typed update bound to a relation.
#[derive(Clone, Copy, Debug, PartialEq, Eq, Structural)]
pub enum Update {
    Insert { relid: RelId, v: DDValue },
    InsertOrUpdate { relid: RelId, v: DDValue },
    DeleteValue { relid: RelId, v: DDValue },
    DeleteKey { relid: RelId, k: DDValue },
    Modify { relid: RelId, k: DDValue, m: Record },
}

impl Update {
    pub open spec fn spec_relid(self) -> RelId {
        match self {
            Update::Insert { relid, .. } => relid,
            Update::InsertOrUpdate { relid, .. } => relid,
            Update::DeleteValue { relid, .. } => relid,
            Update::DeleteKey { relid, .. } => relid,
            Update::Modify { relid, .. } => relid,
        }
    }

    /// The value that the update carries, for the variants that carry one.
    pub open spec fn spec_value(self) -> Option<DDValue> {
        match self {
            Update::Insert { v, .. } => Some(v),
            Update::InsertOrUpdate { v, .. } => Some(v),
            Update::DeleteValue { v, .. } => Some(v),
            _ => None,
        }
    }

    pub fn relid(&self) -> (r: RelId)
        ensures
            r == self.spec_relid(),
    {
        match self {
            Update::Insert { relid, .. } => *relid,
            Update::InsertOrUpdate { relid, .. } => *relid,
            Update::DeleteValue { relid, .. } => *relid,
            Update::DeleteKey { relid, .. } => *relid,
            Update::Modify { relid, .. } => *relid,
        }
    }

    pub fn get_value(&self) -> (r: Option<DDValue>)
        ensures
            r == self.spec_value(),
    {
        match self {
            Update::Insert { v, .. } => Some(*v),
            Update::InsertOrUpdate { v, .. } => Some(*v),
            Update::DeleteValue { v, .. } => Some(*v),
            _ => None,
        }
    }
}

/// One changed fact, as the engine reports it during a commit.
#[derive(Clone, Copy, Debug, PartialEq, Eq, Structural)]
pub struct Change {
    pub relid: RelId,
    pub value: DDValue,
    pub weight: i64,
}

} // verus!
