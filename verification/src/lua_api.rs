//! The conditions as Lua scripts call them: identifiers come as text.
use vstd::prelude::*;
use crate::conditionals::{parse_uuid, uuid_from_text, Condition};
use crate::graph::{spec_has_node, spec_node_index};
use crate::world::World;

verus! {

/// The lower-case hexadecimal digit for `value`, a number below 16.
pub open spec fn spec_hex_digit(value: int) -> char {
    seq!['0', '1', '2', '3', '4', '5', '6', '7', '8', '9', 'a', 'b', 'c', 'd', 'e', 'f'][value]
}

/// Digit `at` of the 32 hexadecimal digits of `id`, the highest first.
pub open spec fn spec_uuid_digit(id: u128, at: int) -> int {
    ((id >> ((4 * (31 - at)) as u128)) & 0xf) as int
}

/// Number of hyphens that stand before place `place` of a UUID's text.
pub open spec fn spec_hyphens_before(place: int) -> int {
    if place > 23 {
        4
    } else if place > 18 {
        3
    } else if place > 13 {
        2
    } else if place > 8 {
        1
    } else {
        0
    }
}

/// The text of the UUID with the number `id`: its 32 hexadecimal digits in
/// lower case, the highest first, in groups of 8, 4, 4, 4 and 12 with a
/// hyphen between them.
pub open spec fn uuid_text(id: u128) -> Seq<char> {
    Seq::new(
        36,
        |place: int|
            if place == 8 || place == 13 || place == 18 || place == 23 {
                '-'
            } else {
                spec_hex_digit(spec_uuid_digit(id, place - spec_hyphens_before(place)))
            },
    )
}

/// Writes the UUID with the number `id` as `uuid::Uuid` displays it: in
/// lower case, in five groups with hyphens between them.
#[verifier::external_body]
fn format_uuid(id: u128) -> (text: String)
    ensures
        text@ == uuid_text(id),
{
    uuid::Uuid::from_u128(id).to_string()
}

/// Why a script could not be told the identifier of a node.
#[derive(Clone, Copy, Debug, PartialEq, Eq, Structural)]
pub enum IdError {
    /// The node was not made for a filesystem entry.
    NotAnEntity,
    /// The node has no payload.
    NoPayload,
}

impl IdError {
    /// What the script is told.
    pub fn message(&self) -> (text: &'static str)
        ensures
            text@ == (match *self {
                IdError::NotAnEntity => "Entity missing DirworldEntity component"@,
                IdError::NoPayload => "Failed to get entity id from payload"@,
            }),
    {
        match self {
            IdError::NotAnEntity => "Entity missing DirworldEntity component",
            IdError::NoPayload => "Failed to get entity id from payload",
        }
    }
}

/// The identifier of the payload of the node `entity`, as text.
pub fn get_dirworld_id(world: &World, entity: u64) -> (id: Result<String, IdError>)
    requires
        world.wf(),
    ensures
        match id {
            Ok(text) => spec_has_node(world.graph.nodes@, entity) && world.graph.nodes@[spec_node_index(
                world.graph.nodes@,
                entity,
            )].entity.payload.is_some() && text@ == uuid_text(
                world.graph.nodes@[spec_node_index(
                    world.graph.nodes@,
                    entity,
                )].entity.payload.unwrap().id,
            ),
            Err(IdError::NotAnEntity) => !spec_has_node(world.graph.nodes@, entity),
            Err(IdError::NoPayload) => spec_has_node(world.graph.nodes@, entity)
                && world.graph.nodes@[spec_node_index(
                world.graph.nodes@,
                entity,
            )].entity.payload.is_none(),
        },
{
    match world.graph.index_of(entity) {
        Some(at) => match &world.graph.nodes[at].entity.payload {
            Some(payload) => Ok(format_uuid(payload.id)),
            None => Err(IdError::NoPayload),
        },
        None => Err(IdError::NotAnEntity),
    }
}

/// The condition always true, evaluated.
pub fn condition_true(world: &World) -> (holds: bool)
    requires
        world.wf(),
    ensures
        holds,
{
    Condition::True.evaluate(world)
}

/// What a condition on two identifiers given as text comes to: what
/// `make` of the two identifiers comes to, and false where one of the
/// texts spells no identifier.
pub open spec fn spec_on_pair(
    world: World,
    first: Seq<char>,
    second: Seq<char>,
    make: spec_fn(u128, u128) -> Condition,
) -> bool {
    match (uuid_from_text(first), uuid_from_text(second)) {
        (Some(one), Some(other)) => make(one, other).spec_evaluate(world),
        _ => false,
    }
}

/// What a condition on one identifier given as text comes to: what `make`
/// of the identifier comes to, and false where the text spells none.
pub open spec fn spec_on_one(world: World, text: Seq<char>, make: spec_fn(u128) -> Condition) -> bool {
    match uuid_from_text(text) {
        Some(id) => make(id).spec_evaluate(world),
        None => false,
    }
}

/// Tells whether `ancestor` stands above `descendant`.
pub fn condition_ancestor_of(world: &World, ancestor: &str, descendant: &str) -> (holds: bool)
    requires
        world.wf(),
    ensures
        holds == spec_on_pair(
            *world,
            ancestor@,
            descendant@,
            |ancestor: u128, descendant: u128| Condition::AncestorOf { ancestor, descendant },
        ),
{
    let Some(ancestor) = parse_uuid(ancestor) else {
        return false;
    };
    let Some(descendant) = parse_uuid(descendant) else {
        return false;
    };
    (Condition::AncestorOf { ancestor, descendant }).evaluate(world)
}

/// Tells whether `descendant` stands below `ancestor`.
pub fn condition_descendant_of(world: &World, descendant: &str, ancestor: &str) -> (holds: bool)
    requires
        world.wf(),
    ensures
        holds == spec_on_pair(
            *world,
            descendant@,
            ancestor@,
            |descendant: u128, ancestor: u128| Condition::DescendantOf { descendant, ancestor },
        ),
{
    let Some(ancestor) = parse_uuid(ancestor) else {
        return false;
    };
    let Some(descendant) = parse_uuid(descendant) else {
        return false;
    };
    (Condition::DescendantOf { ancestor, descendant }).evaluate(world)
}

/// Tells whether `parent` is the parent of `child`.
pub fn condition_parent_of(world: &World, parent: &str, child: &str) -> (holds: bool)
    requires
        world.wf(),
    ensures
        holds == spec_on_pair(
            *world,
            parent@,
            child@,
            |parent: u128, child: u128| Condition::ParentOf { parent, child },
        ),
{
    let Some(parent) = parse_uuid(parent) else {
        return false;
    };
    let Some(child) = parse_uuid(child) else {
        return false;
    };
    (Condition::ParentOf { parent, child }).evaluate(world)
}

/// Tells whether `child` is a child of `parent`.
pub fn condition_child_of(world: &World, child: &str, parent: &str) -> (holds: bool)
    requires
        world.wf(),
    ensures
        holds == spec_on_pair(
            *world,
            child@,
            parent@,
            |child: u128, parent: u128| Condition::ChildOf { child, parent },
        ),
{
    let Some(parent) = parse_uuid(parent) else {
        return false;
    };
    let Some(child) = parse_uuid(child) else {
        return false;
    };
    (Condition::ChildOf { parent, child }).evaluate(world)
}

/// Tells whether the current room has the identifier `room`.
pub fn condition_in_room(world: &World, room: &str) -> (holds: bool)
    requires
        world.wf(),
    ensures
        holds == spec_on_one(*world, room@, |room: u128| Condition::InRoom(room)),
{
    let Some(room) = parse_uuid(room) else {
        return false;
    };
    Condition::InRoom(room).evaluate(world)
}

/// Tells whether an object with the identifier `object` is in the current
/// room.
pub fn condition_object_in_room(world: &World, object: &str) -> (holds: bool)
    requires
        world.wf(),
    ensures
        holds == spec_on_one(*world, object@, |object: u128| Condition::ObjectInRoom(object)),
{
    let Some(object) = parse_uuid(object) else {
        return false;
    };
    Condition::ObjectInRoom(object).evaluate(world)
}

} // verus!
