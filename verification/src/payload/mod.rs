//! The state stored with a filesystem entry.
use vstd::prelude::*;
use self::components::{
    clone_scripts, scripts_view, Actor, ActorView, MeshCollider, Name, Pickup, Relationships,
    Rigidbody, Script, Transform, Voice,
};

pub mod components;

verus! {

/// The state stored with one filesystem entry: embedded in the entry's file,
/// or, for a directory, kept in its marker file.
#[derive(Debug)]
pub struct DirworldEntityPayload {
    /// Identifier of the entity, as the 128-bit number of its UUID.
    pub id: u128,
    /// Transform of the entity.
    pub transform: Transform,
    /// Name of the entity.
    pub name: Option<Name>,
    /// Dialogue of the entity.
    pub actor: Option<Actor>,
    /// Voice of the entity.
    pub voice: Option<Voice>,
    /// Rigid body of the entity.
    pub rigidbody: Option<Rigidbody>,
    /// Mesh colliders of the entity.
    pub mesh_collider: Option<MeshCollider>,
    /// Scripts of the entity, in the order in which they run.
    pub scripts: Option<Vec<Script>>,
    /// Relationships of the entity.
    pub relationships: Option<Relationships>,
    /// Whether the entity can be picked up.
    pub pickup: Option<Pickup>,
}

/// What a [`DirworldEntityPayload`] holds.
pub struct PayloadView {
    pub id: u128,
    pub transform: Transform,
    pub name: Option<Seq<char>>,
    pub actor: Option<ActorView>,
    pub voice: Option<Voice>,
    pub rigidbody: Option<Rigidbody>,
    pub mesh_collider: Option<MeshCollider>,
    pub scripts: Option<Seq<Seq<u8>>>,
    pub relationships: Option<Map<Seq<char>, u128>>,
    pub pickup: bool,
}

impl View for DirworldEntityPayload {
    type V = PayloadView;

    open spec fn view(&self) -> PayloadView {
        PayloadView {
            id: self.id,
            transform: self.transform,
            name: match self.name {
                Some(name) => Some(name@),
                None => None,
            },
            actor: match self.actor {
                Some(actor) => Some(actor@),
                None => None,
            },
            voice: self.voice,
            rigidbody: self.rigidbody,
            mesh_collider: self.mesh_collider,
            scripts: match self.scripts {
                Some(scripts) => Some(scripts_view(scripts@)),
                None => None,
            },
            relationships: match self.relationships {
                Some(relationships) => Some(relationships@),
                None => None,
            },
            pickup: self.pickup.is_some(),
        }
    }
}

/// The payload with identifier `id`, the identity transform and no
/// component.
pub open spec fn spec_bare_payload(id: u128) -> PayloadView {
    PayloadView {
        id,
        transform: Transform::spec_identity(),
        name: None,
        actor: None,
        voice: None,
        rigidbody: None,
        mesh_collider: None,
        scripts: None,
        relationships: None,
        pickup: false,
    }
}

/// Draws a random (version 4) UUID with `uuid::Uuid::new_v4` and hands it
/// back as a 128-bit number. Nothing is claimed of the number drawn.
#[verifier::external_body]
fn random_id() -> (id: u128) {
    uuid::Uuid::new_v4().as_u128()
}

impl DirworldEntityPayload {
    /// The invariant of a payload: no relationship label occurs twice.
    pub open spec fn wf(&self) -> bool {
        match self.relationships {
            Some(relationships) => relationships.wf(),
            None => true,
        }
    }

    /// A payload with the identifier `id`, the identity transform and no
    /// component.
    pub fn with_id(id: u128) -> (payload: DirworldEntityPayload)
        ensures
            payload.wf(),
            payload@ == spec_bare_payload(id),
    {
        DirworldEntityPayload {
            id,
            transform: Transform::identity(),
            name: None,
            actor: None,
            voice: None,
            rigidbody: None,
            mesh_collider: None,
            scripts: None,
            relationships: None,
            pickup: None,
        }
    }

    /// A payload with a randomly drawn identifier, the identity transform
    /// and no component.
    pub fn new() -> (payload: DirworldEntityPayload)
        ensures
            payload.wf(),
            payload@ == spec_bare_payload(payload.id),
    {
        DirworldEntityPayload::with_id(random_id())
    }
}

impl Default for DirworldEntityPayload {
    fn default() -> (payload: DirworldEntityPayload)
        ensures
            payload.wf(),
            payload@ == spec_bare_payload(0),
    {
        DirworldEntityPayload::with_id(0)
    }
}

impl Clone for DirworldEntityPayload {
    fn clone(&self) -> (copy: DirworldEntityPayload)
        ensures
            copy@.id == self@.id,
            copy@.transform == self@.transform,
            copy@.name == self@.name,
            copy@.actor == self@.actor,
            copy@.voice == self@.voice,
            copy@.rigidbody == self@.rigidbody,
            copy@.mesh_collider == self@.mesh_collider,
            copy@.scripts == self@.scripts,
            copy@.pickup == self@.pickup,
            copy@.relationships.is_some() == self@.relationships.is_some(),
            self.wf() ==> copy.wf() && copy@ == self@,
    {
        let copy = DirworldEntityPayload {
            id: self.id,
            transform: self.transform,
            name: match &self.name {
                Some(name) => Some(name.clone()),
                None => None,
            },
            actor: match &self.actor {
                Some(actor) => Some(actor.clone()),
                None => None,
            },
            voice: self.voice,
            rigidbody: self.rigidbody,
            mesh_collider: self.mesh_collider,
            scripts: match &self.scripts {
                Some(scripts) => Some(clone_scripts(scripts)),
                None => None,
            },
            relationships: match &self.relationships {
                Some(relationships) => Some(relationships.clone()),
                None => None,
            },
            pickup: self.pickup,
        };
        copy
    }
}

} // verus!
