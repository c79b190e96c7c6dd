//! Host groups: the entity of the inventory.

use crate::pipeline::{Duplicate, Identified};
use vstd::prelude::*;

verus! {

/// A group of hosts, which may lie in another group.
#[derive(Debug, PartialEq, Eq)]
pub struct HostGroup {
    pub id: i32,
    pub parent: Option<i32>,
    pub name: Option<String>,
}

/// A host group that is yet to be created: it has no identity.
#[derive(Debug, PartialEq, Eq)]
pub struct NewHostGroup {
    pub parent: Option<i32>,
    pub name: Option<String>,
}

/// The query of a listing: an optional free-text filter and optional
/// pagination bounds, a limit and an offset.
#[derive(Debug, PartialEq, Eq)]
pub struct RestCollectionGetParameters {
    pub q: Option<String>,
    pub limit: Option<(i64, i64)>,
}

fn duplicate_name(name: &Option<String>) -> (copy: Option<String>)
    ensures
        copy == *name,
{
    match name {
        Some(text) => Some(text.clone()),
        None => None,
    }
}

impl Duplicate for HostGroup {
    fn duplicate(&self) -> (copy: Self) {
        HostGroup { id: self.id, parent: self.parent, name: duplicate_name(&self.name) }
    }
}

impl Duplicate for NewHostGroup {
    fn duplicate(&self) -> (copy: Self) {
        NewHostGroup { parent: self.parent, name: duplicate_name(&self.name) }
    }
}

impl Identified for HostGroup {
    open spec fn identity(&self) -> i32 {
        self.id
    }

    open spec fn with_identity(self, id: i32) -> Self {
        HostGroup { id, ..self }
    }

    proof fn lemma_with_identity(self, id: i32) {
    }

    fn id(&self) -> (id: i32) {
        self.id
    }

    fn with_id(self, id: i32) -> (row: Self) {
        HostGroup { id, parent: self.parent, name: self.name }
    }
}

impl HostGroup {
    /// The group that a creation request for `new` describes, once it has
    /// the identity `id`.
    pub open spec fn created(id: i32, new: NewHostGroup) -> HostGroup {
        HostGroup { id, parent: new.parent, name: new.name }
    }

    /// What a creation request for this group would carry: the group
    /// without its identity.
    pub fn companion(&self) -> (new: NewHostGroup)
        ensures
            HostGroup::created(self.id, new) == *self,
    {
        NewHostGroup { parent: self.parent, name: duplicate_name(&self.name) }
    }
}

} // verus!
