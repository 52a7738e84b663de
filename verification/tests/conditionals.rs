use dirworld::actor::FunctionLibrary;
use dirworld::components::DirworldEntity;
use dirworld::conditionals::{ancestor_of, in_room, object_in_room, parent_of, Condition};
use dirworld::lua_api::{
    condition_ancestor_of, condition_child_of, condition_descendant_of, condition_in_room,
    condition_object_in_room, condition_parent_of, condition_true, get_dirworld_id, IdError,
};
use dirworld::payload::components::Transform;
use dirworld::payload::DirworldEntityPayload;
use dirworld::resources::DirworldCurrentDir;
use dirworld::world::World;
use dirworld::yarnspinner_api::{conditional, conditional_true, setup_yarnspinner_functions};

const A: &str = "550e8400-e29b-41d4-a716-446655440000";
const B: &str = "550e8400-e29b-41d4-a716-446655440001";
const C: &str = "550e8400e29b41d4a716446655440002";
const ID_A: u128 = 0x550e8400_e29b_41d4_a716_446655440000;
const ID_B: u128 = 0x550e8400_e29b_41d4_a716_446655440001;
const ID_C: u128 = 0x550e8400_e29b_41d4_a716_446655440002;

fn spawn(world: &mut World, parent: Option<u64>, path: &str, id: Option<u128>) -> u64 {
    let entity = DirworldEntity {
        path: path.to_string(),
        payload: id.map(DirworldEntityPayload::with_id),
    };
    world.graph.spawn(parent, Transform::identity(), entity, false).unwrap()
}

/// a above b above c; d has no payload.
fn family() -> World {
    let mut world = World::new();
    let a = spawn(&mut world, None, "/a", Some(ID_A));
    let b = spawn(&mut world, Some(a), "/a/b", Some(ID_B));
    spawn(&mut world, Some(b), "/a/b/c", Some(ID_C));
    spawn(&mut world, None, "/d", None);
    world.current_dir = DirworldCurrentDir {
        path: "/".to_string(),
        payload: Some(DirworldEntityPayload::with_id(ID_A)),
    };
    world
}

#[test]
fn parse_names_and_arguments() {
    let parse = Condition::from_api_function_name_and_args;
    assert_eq!(parse("conditional_true", &[]), Some(Condition::True));
    assert_eq!(parse("conditional_true", &["ignored"]), Some(Condition::True));
    assert_eq!(
        parse("conditional_child_of", &[A, B]),
        Some(Condition::ChildOf { child: ID_A, parent: ID_B })
    );
    assert_eq!(
        parse("conditional_parent_of", &[A, B]),
        Some(Condition::ParentOf { parent: ID_A, child: ID_B })
    );
    assert_eq!(
        parse("conditional_descendant_of", &[A, C]),
        Some(Condition::DescendantOf { descendant: ID_A, ancestor: ID_C })
    );
    assert_eq!(
        parse("conditional_ancestor_of", &[A, B]),
        Some(Condition::AncestorOf { ancestor: ID_A, descendant: ID_B })
    );
    assert_eq!(parse("condtitional_in_room", &[B]), Some(Condition::InRoom(ID_B)));
    assert_eq!(
        parse("condtitional_object_in_room", &[C]),
        Some(Condition::ObjectInRoom(ID_C))
    );
}

#[test]
fn parse_refuses_what_it_cannot_read() {
    let parse = Condition::from_api_function_name_and_args;
    assert_eq!(parse("conditional_child_of", &[A]), None);
    assert_eq!(parse("conditional_child_of", &[]), None);
    assert_eq!(parse("conditional_child_of", &[A, "not-a-uuid"]), None);
    assert_eq!(parse("conditional_parent_of", &["xyz", B]), None);
    assert_eq!(parse("conditional_ancestor_of", &[A]), None);
    assert_eq!(parse("conditional_descendant_of", &["", ""]), None);
    assert_eq!(parse("condtitional_in_room", &[]), None);
    assert_eq!(parse("conditional_in_room", &[A]), None);
    assert_eq!(parse("conditional_object_in_room", &[A]), None);
    assert_eq!(parse("something_else", &[A, B]), None);
    assert_eq!(parse("", &[]), None);
}

#[test]
fn function_names() {
    assert_eq!(Condition::True.get_api_function_name(), "conditional_true");
    assert_eq!(
        Condition::ChildOf { child: 1, parent: 2 }.get_api_function_name(),
        "conditional_child_of"
    );
    assert_eq!(
        Condition::ParentOf { child: 1, parent: 2 }.get_api_function_name(),
        "conditional_parent_of"
    );
    assert_eq!(
        Condition::DescendantOf { descendant: 1, ancestor: 2 }.get_api_function_name(),
        "conditional_descendant_of"
    );
    assert_eq!(
        Condition::AncestorOf { descendant: 1, ancestor: 2 }.get_api_function_name(),
        "conditional_ancestor_of"
    );
    assert_eq!(Condition::InRoom(1).get_api_function_name(), "conditional_in_room");
    assert_eq!(Condition::ObjectInRoom(1).get_api_function_name(), "conditional_object_in_room");
    assert_eq!(Condition::default(), Condition::True);
}

#[test]
fn shown_names() {
    assert_eq!(Condition::True.label(), "Always True");
    assert_eq!(Condition::ChildOf { child: 1, parent: 2 }.label(), "Child Of");
    assert_eq!(Condition::ParentOf { child: 1, parent: 2 }.label(), "Parent Of");
    assert_eq!(Condition::DescendantOf { descendant: 1, ancestor: 2 }.label(), "Descendant Of");
    assert_eq!(Condition::AncestorOf { descendant: 1, ancestor: 2 }.label(), "Ancestor Of");
    assert_eq!(Condition::InRoom(1).label(), "In Room");
    assert_eq!(Condition::ObjectInRoom(1).label(), "Object In Room");
    let shown: &str = Condition::InRoom(1).as_ref();
    assert_eq!(shown, "In Room");
}

#[test]
fn relations_in_the_graph() {
    let world = family();
    assert!(ancestor_of(&world, ID_A, ID_B));
    assert!(ancestor_of(&world, ID_A, ID_C));
    assert!(!ancestor_of(&world, ID_C, ID_A));
    assert!(!ancestor_of(&world, ID_A, ID_A));
    assert!(!ancestor_of(&world, ID_A, 12345));
    assert!(!ancestor_of(&world, 12345, ID_A));
    assert!(parent_of(&world, ID_A, ID_B));
    assert!(parent_of(&world, ID_B, ID_C));
    assert!(!parent_of(&world, ID_A, ID_C));
    assert!(!parent_of(&world, ID_B, ID_A));
    assert!(in_room(&world, ID_A));
    assert!(!in_room(&world, ID_B));
    assert!(object_in_room(&world, ID_C));
    assert!(!object_in_room(&world, 12345));
    assert!(!in_room(&World::new(), ID_A));
}

#[test]
fn evaluate_every_kind() {
    let world = family();
    assert!(Condition::True.evaluate(&world));
    assert!(Condition::ChildOf { child: ID_B, parent: ID_A }.evaluate(&world));
    assert!(!Condition::ChildOf { child: ID_A, parent: ID_B }.evaluate(&world));
    assert!(Condition::ParentOf { parent: ID_A, child: ID_B }.evaluate(&world));
    assert!(!Condition::ParentOf { parent: ID_A, child: ID_C }.evaluate(&world));
    assert!(Condition::DescendantOf { descendant: ID_C, ancestor: ID_A }.evaluate(&world));
    assert!(!Condition::DescendantOf { descendant: ID_A, ancestor: ID_C }.evaluate(&world));
    assert!(Condition::AncestorOf { ancestor: ID_A, descendant: ID_C }.evaluate(&world));
    assert!(!Condition::AncestorOf { ancestor: ID_C, descendant: ID_A }.evaluate(&world));
    assert!(Condition::InRoom(ID_A).evaluate(&world));
    assert!(!Condition::InRoom(ID_C).evaluate(&world));
    assert!(Condition::ObjectInRoom(ID_B).evaluate(&world));
    assert!(!Condition::ObjectInRoom(5).evaluate(&world));
}

#[test]
fn conditions_from_text() {
    let world = family();
    assert!(condition_true(&world));
    assert!(condition_ancestor_of(&world, A, C));
    assert!(!condition_ancestor_of(&world, C, A));
    assert!(condition_descendant_of(&world, C, A));
    assert!(!condition_descendant_of(&world, A, C));
    assert!(condition_parent_of(&world, A, B));
    assert!(!condition_parent_of(&world, B, A));
    assert!(condition_child_of(&world, B, A));
    assert!(!condition_child_of(&world, A, B));
    assert!(condition_in_room(&world, A));
    assert!(!condition_in_room(&world, B));
    assert!(condition_object_in_room(&world, C));
    assert!(!condition_object_in_room(&world, "550e8400-e29b-41d4-a716-446655449999"));
}

#[test]
fn text_that_spells_no_identifier_gives_false() {
    let world = family();
    assert!(!condition_ancestor_of(&world, "nope", C));
    assert!(!condition_ancestor_of(&world, A, "nope"));
    assert!(!condition_descendant_of(&world, "", A));
    assert!(!condition_parent_of(&world, A, ""));
    assert!(!condition_child_of(&world, "x", "y"));
    assert!(!condition_in_room(&world, "room"));
    assert!(!condition_object_in_room(&world, "object"));
}

#[test]
fn identifier_of_a_node_as_text() {
    let world = family();
    assert_eq!(get_dirworld_id(&world, 0), Ok(A.to_string()));
    assert_eq!(get_dirworld_id(&world, 2), Ok("550e8400-e29b-41d4-a716-446655440002".to_string()));
    assert_eq!(get_dirworld_id(&world, 3), Err(IdError::NoPayload));
    assert_eq!(get_dirworld_id(&world, 99), Err(IdError::NotAnEntity));
    assert_eq!(IdError::NoPayload.message(), "Failed to get entity id from payload");
    assert_eq!(IdError::NotAnEntity.message(), "Entity missing DirworldEntity component");
}

#[test]
fn conditions_for_dialogue() {
    let world = family();
    assert!(conditional_true(&world));
    assert!(conditional_true(&World::new()));
    assert!(conditional(&world, Condition::InRoom(ID_A)));
    assert!(!conditional(&world, Condition::InRoom(ID_B)));
    let mut library = FunctionLibrary::new();
    setup_yarnspinner_functions(&mut library);
    assert_eq!(library.0, vec!["get_string", "get_number", "get_bool", "conditional_true"]);
}
