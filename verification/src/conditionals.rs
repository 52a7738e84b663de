//! Conditions on the live graph that scripts can ask about.
use vstd::prelude::*;
use crate::graph::{spec_ancestor, spec_find_payload, spec_has_node, spec_node_index, Node};
use crate::text::same_text;
use crate::world::World;

verus! {

/// The 128-bit number of the UUID that `text` spells, where it spells one.
pub uninterp spec fn uuid_from_text(text: Seq<char>) -> Option<u128>;

/// Parses `text` with `uuid::Uuid::parse_str` and hands the UUID back as a
/// 128-bit number; `None` where the outside parser reports an error.
#[verifier::external_body]
pub(crate) fn parse_uuid(text: &str) -> (id: Option<u128>)
    ensures
        id == uuid_from_text(text@),
{
    match uuid::Uuid::parse_str(text) {
        Ok(id) => Some(id.as_u128()),
        Err(_) => None,
    }
}

/// Conditions which scripts can check.
#[derive(Clone, Copy, Debug, PartialEq, Eq, Structural)]
pub enum Condition {
    /// Always true.
    True,
    /// True if `child` is a child of `parent`.
    ChildOf {
        /// Entity that must be child.
        child: u128,
        /// Entity that must be parent.
        parent: u128,
    },
    /// True if `parent` is the parent of `child`.
    ParentOf {
        /// Entity that must be parent.
        parent: u128,
        /// Entity that must be child.
        child: u128,
    },
    /// True if `descendant` is a descendant of `ancestor`.
    DescendantOf {
        /// Entity that must be descendant.
        descendant: u128,
        /// Entity that must be ancestor.
        ancestor: u128,
    },
    /// True if `ancestor` is an ancestor of `descendant`.
    AncestorOf {
        /// Entity that must be ancestor.
        ancestor: u128,
        /// Entity that must be descendant.
        descendant: u128,
    },
    /// True if the current room has the given identifier.
    InRoom(u128),
    /// True if an object with the given identifier is in the current room.
    ObjectInRoom(u128),
}

impl AsRef<str> for Condition {
    fn as_ref(&self) -> (name: &str)
        ensures
            name@ == self.spec_label(),
    {
        self.label()
    }
}

impl Default for Condition {
    fn default() -> (condition: Condition)
        ensures
            condition == Condition::True,
    {
        Condition::True
    }
}

/// Whether the first node with the payload identifier `ancestor` stands
/// above the first node with the payload identifier `descendant`.
pub open spec fn spec_ancestor_of(nodes: Seq<Node>, ancestor: u128, descendant: u128) -> bool {
    match (spec_find_payload(nodes, ancestor), spec_find_payload(nodes, descendant)) {
        (Some(above), Some(below)) => spec_ancestor(nodes, nodes[above].id, nodes[below].id),
        _ => false,
    }
}

/// Whether the first node with the payload identifier `child` hangs directly
/// under the first node with the payload identifier `parent`.
pub open spec fn spec_parent_of(nodes: Seq<Node>, parent: u128, child: u128) -> bool {
    match (spec_find_payload(nodes, parent), spec_find_payload(nodes, child)) {
        (Some(above), Some(below)) => nodes[below].parent == Some(nodes[above].id),
        _ => false,
    }
}

/// Whether the current room has the identifier `room`.
pub open spec fn spec_in_room(world: World, room: u128) -> bool {
    world.current_dir.spec_room_id() == Some(room)
}

/// Whether a node with the payload identifier `object` is live.
pub open spec fn spec_object_in_room(nodes: Seq<Node>, object: u128) -> bool {
    spec_find_payload(nodes, object).is_some()
}

/// Tells whether `ancestor` stands above `descendant` in the live graph.
pub fn ancestor_of(world: &World, ancestor: u128, descendant: u128) -> (holds: bool)
    requires
        world.wf(),
    ensures
        holds == spec_ancestor_of(world.graph.nodes@, ancestor, descendant),
{
    let above = match world.graph.find_payload(ancestor) {
        Some(at) => at,
        None => {
            return false;
        },
    };
    let below = match world.graph.find_payload(descendant) {
        Some(at) => at,
        None => {
            return false;
        },
    };
    world.graph.is_ancestor(world.graph.nodes[above].id, world.graph.nodes[below].id)
}

/// Tells whether `child` hangs directly under `parent` in the live graph.
pub fn parent_of(world: &World, parent: u128, child: u128) -> (holds: bool)
    requires
        world.wf(),
    ensures
        holds == spec_parent_of(world.graph.nodes@, parent, child),
{
    let above = match world.graph.find_payload(parent) {
        Some(at) => at,
        None => {
            return false;
        },
    };
    let below = match world.graph.find_payload(child) {
        Some(at) => at,
        None => {
            return false;
        },
    };
    match world.graph.nodes[below].parent {
        Some(id) => id == world.graph.nodes[above].id,
        None => false,
    }
}

/// Tells whether the current room has the identifier `room`.
pub fn in_room(world: &World, room: u128) -> (holds: bool)
    ensures
        holds == spec_in_room(*world, room),
{
    match &world.current_dir.payload {
        Some(payload) => payload.id == room,
        None => false,
    }
}

/// Tells whether a node with the payload identifier `object` is live.
pub fn object_in_room(world: &World, object: u128) -> (holds: bool)
    ensures
        holds == spec_object_in_room(world.graph.nodes@, object),
{
    world.graph.find_payload(object).is_some()
}

/// The identifier that argument `at` of `args` spells, where there is such
/// an argument and it spells one.
pub open spec fn spec_arg_id(args: Seq<&str>, at: int) -> Option<u128> {
    if 0 <= at < args.len() {
        uuid_from_text(args[at]@)
    } else {
        None
    }
}

/// The condition that a function name stands for, given the identifiers
/// that its first two arguments spell. The two functions on rooms are read
/// under the names `condtitional_in_room` and `condtitional_object_in_room`.
pub open spec fn spec_condition_of(
    name: Seq<char>,
    first: Option<u128>,
    second: Option<u128>,
) -> Option<Condition> {
    if name == "conditional_true"@ {
        Some(Condition::True)
    } else if name == "conditional_child_of"@ {
        if first.is_some() && second.is_some() {
            Some(Condition::ChildOf { child: first.unwrap(), parent: second.unwrap() })
        } else {
            None
        }
    } else if name == "conditional_parent_of"@ {
        if first.is_some() && second.is_some() {
            Some(Condition::ParentOf { parent: first.unwrap(), child: second.unwrap() })
        } else {
            None
        }
    } else if name == "conditional_descendant_of"@ {
        if first.is_some() && second.is_some() {
            Some(Condition::DescendantOf { descendant: first.unwrap(), ancestor: second.unwrap() })
        } else {
            None
        }
    } else if name == "conditional_ancestor_of"@ {
        if first.is_some() && second.is_some() {
            Some(Condition::AncestorOf { ancestor: first.unwrap(), descendant: second.unwrap() })
        } else {
            None
        }
    } else if name == "condtitional_in_room"@ {
        match first {
            Some(room) => Some(Condition::InRoom(room)),
            None => None,
        }
    } else if name == "condtitional_object_in_room"@ {
        match first {
            Some(object) => Some(Condition::ObjectInRoom(object)),
            None => None,
        }
    } else {
        None
    }
}

/// The condition that a function name and the texts of its arguments stand
/// for.
pub open spec fn spec_condition_from(name: Seq<char>, args: Seq<&str>) -> Option<Condition> {
    spec_condition_of(name, spec_arg_id(args, 0), spec_arg_id(args, 1))
}

/// The identifier that argument `at` of `args` spells.
fn arg_id(args: &[&str], at: usize) -> (id: Option<u128>)
    ensures
        id == spec_arg_id(args@, at as int),
{
    if at < args.len() {
        parse_uuid(args[at])
    } else {
        None
    }
}

impl Condition {
    /// What the condition comes to in `world`.
    pub open spec fn spec_evaluate(&self, world: World) -> bool {
        match *self {
            Condition::True => true,
            Condition::ChildOf { child, parent } => spec_parent_of(
                world.graph.nodes@,
                parent,
                child,
            ),
            Condition::ParentOf { parent, child } => spec_parent_of(
                world.graph.nodes@,
                parent,
                child,
            ),
            Condition::DescendantOf { descendant, ancestor } => spec_ancestor_of(
                world.graph.nodes@,
                ancestor,
                descendant,
            ),
            Condition::AncestorOf { ancestor, descendant } => spec_ancestor_of(
                world.graph.nodes@,
                ancestor,
                descendant,
            ),
            Condition::InRoom(room) => spec_in_room(world, room),
            Condition::ObjectInRoom(object) => spec_object_in_room(world.graph.nodes@, object),
        }
    }

    /// The name of the function by which scripts ask for the condition.
    pub open spec fn spec_api_function_name(&self) -> Seq<char> {
        match *self {
            Condition::True => "conditional_true"@,
            Condition::ChildOf { .. } => "conditional_child_of"@,
            Condition::ParentOf { .. } => "conditional_parent_of"@,
            Condition::DescendantOf { .. } => "conditional_descendant_of"@,
            Condition::AncestorOf { .. } => "conditional_ancestor_of"@,
            Condition::InRoom(_) => "conditional_in_room"@,
            Condition::ObjectInRoom(_) => "conditional_object_in_room"@,
        }
    }

    /// The name under which the condition is shown.
    pub open spec fn spec_label(&self) -> Seq<char> {
        match *self {
            Condition::True => "Always True"@,
            Condition::ChildOf { .. } => "Child Of"@,
            Condition::ParentOf { .. } => "Parent Of"@,
            Condition::DescendantOf { .. } => "Descendant Of"@,
            Condition::AncestorOf { .. } => "Ancestor Of"@,
            Condition::InRoom(_) => "In Room"@,
            Condition::ObjectInRoom(_) => "Object In Room"@,
        }
    }

    /// The name under which the condition is shown.
    pub fn label(&self) -> (name: &'static str)
        ensures
            name@ == self.spec_label(),
    {
        match self {
            Condition::True => "Always True",
            Condition::ChildOf { .. } => "Child Of",
            Condition::ParentOf { .. } => "Parent Of",
            Condition::DescendantOf { .. } => "Descendant Of",
            Condition::AncestorOf { .. } => "Ancestor Of",
            Condition::InRoom(_) => "In Room",
            Condition::ObjectInRoom(_) => "Object In Room",
        }
    }

    /// Evaluates the condition in `world`.
    pub fn evaluate(&self, world: &World) -> (holds: bool)
        requires
            world.wf(),
        ensures
            holds == self.spec_evaluate(*world),
    {
        match *self {
            Condition::True => true,
            Condition::ChildOf { child, parent } => parent_of(world, parent, child),
            Condition::ParentOf { parent, child } => parent_of(world, parent, child),
            Condition::DescendantOf { descendant, ancestor } => ancestor_of(
                world,
                ancestor,
                descendant,
            ),
            Condition::AncestorOf { ancestor, descendant } => ancestor_of(
                world,
                ancestor,
                descendant,
            ),
            Condition::InRoom(room) => in_room(world, room),
            Condition::ObjectInRoom(object) => object_in_room(world, object),
        }
    }

    /// The name of the function by which scripts ask for the condition.
    pub fn get_api_function_name(&self) -> (name: &'static str)
        ensures
            name@ == self.spec_api_function_name(),
    {
        match self {
            Condition::True => "conditional_true",
            Condition::ChildOf { .. } => "conditional_child_of",
            Condition::ParentOf { .. } => "conditional_parent_of",
            Condition::DescendantOf { .. } => "conditional_descendant_of",
            Condition::AncestorOf { .. } => "conditional_ancestor_of",
            Condition::InRoom(_) => "conditional_in_room",
            Condition::ObjectInRoom(_) => "conditional_object_in_room",
        }
    }

    /// Reads a condition from a function name and the identifiers that its
    /// first two arguments spell, `None` for an argument that is missing or
    /// spells none.
    pub fn from_api_function_name_and_ids(
        name: &str,
        first: Option<u128>,
        second: Option<u128>,
    ) -> (condition: Option<Condition>)
        ensures
            condition == spec_condition_of(name@, first, second),
    {
        if same_text(name, "conditional_true") {
            Some(Condition::True)
        } else if same_text(name, "conditional_child_of") {
            let Some(child) = first else {
                return None;
            };
            let Some(parent) = second else {
                return None;
            };
            Some(Condition::ChildOf { child, parent })
        } else if same_text(name, "conditional_parent_of") {
            let Some(child) = second else {
                return None;
            };
            let Some(parent) = first else {
                return None;
            };
            Some(Condition::ParentOf { child, parent })
        } else if same_text(name, "conditional_descendant_of") {
            let Some(descendant) = first else {
                return None;
            };
            let Some(ancestor) = second else {
                return None;
            };
            Some(Condition::DescendantOf { descendant, ancestor })
        } else if same_text(name, "conditional_ancestor_of") {
            let Some(descendant) = second else {
                return None;
            };
            let Some(ancestor) = first else {
                return None;
            };
            Some(Condition::AncestorOf { descendant, ancestor })
        } else if same_text(name, "condtitional_in_room") {
            let Some(room_id) = first else {
                return None;
            };
            Some(Condition::InRoom(room_id))
        } else if same_text(name, "condtitional_object_in_room") {
            let Some(object_id) = first else {
                return None;
            };
            Some(Condition::ObjectInRoom(object_id))
        } else {
            None
        }
    }

    /// Parses function name and argument strings into the corresponding
    /// condition representation.
    pub fn from_api_function_name_and_args(name: &str, args: &[&str]) -> (condition: Option<
        Condition,
    >)
        ensures
            condition == spec_condition_from(name@, args@),
    {
        Condition::from_api_function_name_and_ids(name, arg_id(args, 0), arg_id(args, 1))
    }
}

} // verus!
