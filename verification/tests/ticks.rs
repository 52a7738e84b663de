use dirworld::actor::{
    get_bool, get_number, get_string, handle_variable_set_commands, DirworldVariableStorage,
};
use dirworld::components::DirworldEntity;
use dirworld::graph::LiveGraph;
use dirworld::payload::components::{Transform, VariableValue};
use dirworld::payload::DirworldEntityPayload;
use dirworld::resources::DirworldRootDir;
use dirworld::systems::{sync_entity_transforms, TransformUpdate};
use dirworld::watcher::{update, FileWatcher, WatcherUpdate, DEBOUNCE_MILLIS};

fn moved(x: f32) -> Transform {
    let mut transform = Transform::identity();
    transform.translation.x = x.to_bits();
    transform
}

#[test]
fn transforms_reach_node_and_payload() {
    let mut graph = LiveGraph::new();
    let with_payload = DirworldEntity {
        path: "/world/a".to_string(),
        payload: Some(DirworldEntityPayload::with_id(1)),
    };
    let without = DirworldEntity { path: "/world/b".to_string(), payload: None };
    graph.spawn(None, Transform::identity(), with_payload, false);
    graph.spawn(None, Transform::identity(), without, false);
    sync_entity_transforms(
        &mut graph,
        &vec![
            TransformUpdate { entity: 0, transform: moved(1.0) },
            TransformUpdate { entity: 7, transform: moved(5.0) },
            TransformUpdate { entity: 1, transform: moved(2.0) },
            TransformUpdate { entity: 0, transform: moved(3.0) },
        ],
    );
    assert_eq!(graph.nodes.len(), 2);
    assert_eq!(graph.nodes[0].id, 0);
    assert_eq!(graph.nodes[0].transform, moved(3.0));
    assert_eq!(graph.nodes[0].entity.payload.as_ref().unwrap().transform, moved(3.0));
    assert_eq!(graph.nodes[0].entity.payload.as_ref().unwrap().id, 1);
    assert_eq!(graph.nodes[1].transform, moved(2.0));
    assert!(graph.nodes[1].entity.payload.is_none());
    assert_eq!(graph.nodes[1].entity.path, "/world/b");
}

#[test]
fn tick_of_the_watcher_queues() {
    let root = DirworldRootDir(Some("/world".to_string()));
    assert!(matches!(update(true, &root), WatcherUpdate::Watch(path) if path == "/world"));
    assert!(matches!(update(false, &root), WatcherUpdate::Drain));
    assert!(matches!(update(true, &DirworldRootDir(None)), WatcherUpdate::Idle));
    assert!(matches!(update(false, &DirworldRootDir(None)), WatcherUpdate::Drain));
    assert_eq!(DEBOUNCE_MILLIS, 500);
}

#[test]
fn watcher_drops_the_old_directory_for_the_new() {
    let mut watcher = FileWatcher::new();
    assert_eq!(watcher.watched, None);
    let first = watcher.change_root("/world".to_string());
    assert_eq!(first.unwatch, None);
    assert_eq!(first.watch, "/world");
    assert!(!first.recursive);
    let second = watcher.change_root("/world/room1".to_string());
    assert_eq!(second.unwatch, Some("/world".to_string()));
    assert_eq!(second.watch, "/world/room1");
    assert_eq!(watcher.watched, Some("/world/room1".to_string()));
}

#[test]
fn variables_are_kept_per_instance() {
    let mut storage = DirworldVariableStorage::new();
    assert!(storage.get("global", "met").is_none());
    storage.set("global", "met", VariableValue::Boolean(true));
    storage.set("guard", "name", VariableValue::Text("Ann".to_string()));
    storage.set("guard", "coins", VariableValue::Number(2.5f32.to_bits()));
    assert!(matches!(storage.get("global", "met"), Some(VariableValue::Boolean(true))));
    assert!(storage.get("guard", "met").is_none());
    assert!(get_bool(&storage, "global", "met"));
    assert!(!get_bool(&storage, "guard", "met"));
    assert!(!get_bool(&storage, "guard", "name"));
    assert_eq!(get_string(&storage, "guard", "name"), "Ann");
    assert_eq!(get_string(&storage, "guard", "coins"), "");
    assert_eq!(get_string(&storage, "nobody", "name"), "");
    assert_eq!(f32::from_bits(get_number(&storage, "guard", "coins")), 2.5);
    assert_eq!(f32::from_bits(get_number(&storage, "guard", "name")), 0.0);
    assert_eq!(f32::from_bits(get_number(&storage, "nobody", "coins")), 0.0);
    storage.set("guard", "coins", VariableValue::Number(4.0f32.to_bits()));
    assert_eq!(f32::from_bits(get_number(&storage, "guard", "coins")), 4.0);
    assert_eq!(storage.0.len(), 3);
    assert_eq!(storage.0.key_at(1), "guard.name");
}

#[test]
fn set_var_sets_a_variable() {
    let mut storage = DirworldVariableStorage::new();
    let parameters = vec![
        VariableValue::Text("guard".to_string()),
        VariableValue::Text("coins".to_string()),
        VariableValue::Number(1.0f32.to_bits()),
    ];
    assert!(handle_variable_set_commands(&mut storage, "set_var", &parameters));
    assert_eq!(f32::from_bits(get_number(&storage, "guard", "coins")), 1.0);
    // Another command is none of its business.
    assert!(!handle_variable_set_commands(&mut storage, "wave", &parameters));
    assert_eq!(storage.0.len(), 1);
}

#[test]
fn set_var_with_other_parameters_sets_nothing_but_goes_on() {
    let mut storage = DirworldVariableStorage::new();
    let text = |value: &str| VariableValue::Text(value.to_string());
    assert!(handle_variable_set_commands(&mut storage, "set_var", &vec![text("a"), text("b")]));
    assert!(handle_variable_set_commands(
        &mut storage,
        "set_var",
        &vec![text("a"), text("b"), text("c"), text("d")]
    ));
    assert!(handle_variable_set_commands(
        &mut storage,
        "set_var",
        &vec![VariableValue::Boolean(true), text("b"), text("c")]
    ));
    assert!(handle_variable_set_commands(
        &mut storage,
        "set_var",
        &vec![text("a"), VariableValue::Number(0), text("c")]
    ));
    assert_eq!(storage.0.len(), 0);
}
