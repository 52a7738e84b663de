//! What a live node carries besides its place in the graph.
use vstd::prelude::*;
use crate::payload::DirworldEntityPayload;

verus! {

/// A tooltip on an object, which can be displayed.
#[derive(Debug)]
pub struct Tooltip(pub String);

/// Marks a node as made for a filesystem entry. Such nodes leave the graph
/// when the room changes.
#[derive(Debug)]
pub struct DirworldEntity {
    /// Path of the entry on the filesystem.
    pub path: String,
    /// Payload of the entry, if it has one.
    pub payload: Option<DirworldEntityPayload>,
}

impl DirworldEntity {
    /// The invariant: the payload, if there is one, is well formed.
    pub open spec fn wf(&self) -> bool {
        match self.payload {
            Some(payload) => payload.wf(),
            None => true,
        }
    }

    /// Identifier of the payload, if there is one.
    pub open spec fn spec_payload_id(&self) -> Option<u128> {
        match self.payload {
            Some(payload) => Some(payload.id),
            None => None,
        }
    }

    /// Tells whether the entity has a payload with the identifier `id`.
    pub fn has_id(&self, id: u128) -> (matches: bool)
        ensures
            matches == (self.spec_payload_id() == Some(id)),
    {
        match &self.payload {
            Some(payload) => payload.id == id,
            None => false,
        }
    }
}

impl Clone for DirworldEntity {
    fn clone(&self) -> (copy: DirworldEntity)
        ensures
            copy.path@ == self.path@,
            copy.payload.is_some() == self.payload.is_some(),
            self.wf() ==> copy.wf() && copy.spec_payload_id() == self.spec_payload_id() && (
            self.payload.is_some() ==> copy.payload.unwrap()@ == self.payload.unwrap()@),
    {
        DirworldEntity {
            path: self.path.clone(),
            payload: match &self.payload {
                Some(payload) => Some(payload.clone()),
                None => None,
            },
        }
    }
}

/// Marks a node that stays in the graph when the room changes.
#[derive(Clone, Copy, Debug, PartialEq, Eq, Structural)]
pub struct Persist;

} // verus!
