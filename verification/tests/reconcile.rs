use dirworld::components::DirworldEntity;
use dirworld::events::{DirworldChangeRoot, DirworldEnterRoom, DirworldLeaveRoom, DirworldSpawn};
use dirworld::observers::{
    change_class, change_root, despawn_all, handle_changes, load_all, navigate_from_room,
    navigate_to_room, needs_reads, room_entries, ChangeClass, EnterError, ListedEntry,
};
use dirworld::payload::components::Transform;
use dirworld::payload::DirworldEntityPayload;
use dirworld::preload::{
    handle_preload, handle_spawn, load_entity, PreloadState, RoomAsset, SpawnTrigger,
};
use dirworld::resources::{DirworldRootDir, EntryType};
use dirworld::utils::{
    despawn_entity_by_path, entry_codec, entry_type, extract_entity_payload, CodecError, Decoded,
    EntryRead, MarkerRead,
};
use dirworld::watcher::{
    DirworldWatcherEvent, EventKind, MetadataKind, ModifyKind, RenameMode,
};
use dirworld::world::World;
use dirworld::{DirworldApp, DirworldPlugin};

fn payload(id: u128) -> DirworldEntityPayload {
    DirworldEntityPayload::with_id(id)
}

fn opaque(bytes: &[u8]) -> EntryRead {
    EntryRead::File { raw: Some(bytes.to_vec()), decoded: None }
}

fn embedded(raw: &[u8], carrier: &[u8], id: u128) -> EntryRead {
    EntryRead::File {
        raw: Some(raw.to_vec()),
        decoded: Some(Decoded::Embedded { carrier: carrier.to_vec(), payload: Some(payload(id)) }),
    }
}

fn listed(path: &str, read: EntryRead) -> ListedEntry {
    ListedEntry { path: path.to_string(), read }
}

fn paths(world: &World) -> Vec<String> {
    world.graph.nodes.iter().map(|node| node.entity.path.clone()).collect()
}

fn ids(world: &World) -> Vec<u64> {
    world.graph.nodes.iter().map(|node| node.id).collect()
}

fn event(kind: EventKind, paths: &[&str]) -> DirworldWatcherEvent {
    DirworldWatcherEvent { kind, paths: paths.iter().map(|path| path.to_string()).collect() }
}

// The state the engine starts from.

#[test]
fn fresh_world_holds_nothing() {
    for world in [DirworldPlugin.build(), World::new()] {
        assert!(world.root_dir.0.is_none());
        assert_eq!(world.current_dir.path, "");
        assert!(world.current_dir.payload.is_none());
        assert_eq!(world.cache.len(), 0);
        assert_eq!(world.codecs.get("png"), None);
        assert_eq!(world.observers.get(&EntryType::Folder), None);
        assert_eq!(world.observers.get(&EntryType::File(None)), None);
        assert!(world.graph.nodes.is_empty());
        assert_eq!(world.graph.next_id, 0);
        assert_eq!(world.preload_state, PreloadState::Loading);
        assert_eq!(world.room_assets.0.len(), 0);
    }
}

// Extraction.

#[test]
fn folder_with_marker_file_has_its_payload_and_no_carrier() {
    let (found, data) = extract_entity_payload(EntryRead::Folder(MarkerRead::Payload(payload(5))));
    assert_eq!(found.unwrap().id, 5);
    assert_eq!(data, None);
}

#[test]
fn folder_without_usable_marker_file_has_nothing() {
    for marker in [MarkerRead::Missing, MarkerRead::Unreadable, MarkerRead::Malformed] {
        let (found, data) = extract_entity_payload(EntryRead::Folder(marker));
        assert!(found.is_none());
        assert_eq!(data, None);
    }
}

#[test]
fn file_with_embedded_payload_has_payload_and_carrier() {
    let (found, data) = extract_entity_payload(embedded(b"raw bytes", b"carrier", 9));
    assert_eq!(found.unwrap().id, 9);
    assert_eq!(data, Some(b"carrier".to_vec()));
}

#[test]
fn file_whose_embedded_bytes_hold_no_payload_keeps_the_decoded_carrier() {
    let read = EntryRead::File {
        raw: Some(b"raw bytes".to_vec()),
        decoded: Some(Decoded::Embedded { carrier: b"carrier".to_vec(), payload: None }),
    };
    let (found, data) = extract_entity_payload(read);
    assert!(found.is_none());
    assert_eq!(data, Some(b"carrier".to_vec()));
}

#[test]
fn file_without_embedded_payload_is_all_carrier() {
    let read = EntryRead::File {
        raw: Some(b"raw bytes".to_vec()),
        decoded: Some(Decoded::Refused(CodecError::DataNotEncoded)),
    };
    let (found, data) = extract_entity_payload(read);
    assert!(found.is_none());
    assert_eq!(data, Some(b"raw bytes".to_vec()));
}

#[test]
fn codec_failure_leaves_nothing() {
    for error in [CodecError::DependencyError, CodecError::Other] {
        let read = EntryRead::File {
            raw: Some(b"raw bytes".to_vec()),
            decoded: Some(Decoded::Refused(error)),
        };
        let (found, data) = extract_entity_payload(read);
        assert!(found.is_none());
        assert_eq!(data, None);
    }
}

#[test]
fn file_without_codec_is_all_carrier() {
    let (found, data) = extract_entity_payload(opaque(b"raw bytes"));
    assert!(found.is_none());
    assert_eq!(data, Some(b"raw bytes".to_vec()));
}

#[test]
fn unreadable_file_has_nothing() {
    let read = EntryRead::File {
        raw: None,
        decoded: Some(Decoded::Embedded { carrier: vec![1], payload: Some(payload(1)) }),
    };
    let (found, data) = extract_entity_payload(read);
    assert!(found.is_none());
    assert_eq!(data, None);
    let (found, data) = extract_entity_payload(EntryRead::File { raw: None, decoded: None });
    assert!(found.is_none());
    assert_eq!(data, None);
}

#[test]
fn codec_and_kind_of_an_entry() {
    let mut world = World::new();
    world.register_dirworld_entry_codec(vec!["png".to_string(), "tar.xz.aes".to_string()], 3);
    assert_eq!(entry_codec("/world/a.png", &world.codecs), Some(3));
    assert_eq!(entry_codec("/world/door.tar.xz.aes", &world.codecs), Some(3));
    assert_eq!(entry_codec("/world/a.b.png", &world.codecs), None);
    assert_eq!(entry_codec("/world/plain", &world.codecs), None);
    assert!(matches!(entry_type("/world/sub", true), EntryType::Folder));
    assert!(matches!(entry_type("/world/sub.d", true), EntryType::Folder));
    assert!(matches!(entry_type("/world/a.tar.xz", false), EntryType::File(Some(text)) if text == "tar.xz"));
    assert!(matches!(entry_type("/world/plain", false), EntryType::File(None)));
}

// Making entries live.

#[test]
fn load_entity_without_payload_stands_at_the_identity() {
    let mut world = World::new();
    let outcome = load_entity(&mut world, "/world/a.png", opaque(b"pixels"));
    assert_eq!(outcome.entity, 0);
    assert!(outcome.preload.is_none());
    assert_eq!(world.graph.nodes.len(), 1);
    let node = &world.graph.nodes[0];
    assert_eq!(node.id, 0);
    assert_eq!(node.parent, None);
    assert!(!node.persist);
    assert!(!node.folder);
    assert_eq!(node.transform, Transform::identity());
    assert_eq!(node.entity.path, "/world/a.png");
    assert!(node.entity.payload.is_none());
    assert_eq!(world.preload_state, PreloadState::Loading);
}

#[test]
fn load_entity_takes_the_transform_of_the_payload() {
    let mut world = World::new();
    let mut found = payload(4);
    found.transform.translation.y = 3.0f32.to_bits();
    let read = EntryRead::Folder(MarkerRead::Payload(found));
    load_entity(&mut world, "/world/sub", read);
    let node = &world.graph.nodes[0];
    assert!(node.folder);
    assert_eq!(f32::from_bits(node.transform.translation.y), 3.0);
    assert_eq!(node.entity.payload.as_ref().unwrap().id, 4);
}

#[test]
fn cached_payload_goes_before_the_one_on_disk_and_is_used_once() {
    let mut world = World::new();
    let mut edited = payload(1);
    edited.transform.translation.x = 7.0f32.to_bits();
    world.cache.cache_entity(&DirworldEntity {
        path: "/world/a.png".to_string(),
        payload: Some(edited),
    });
    assert!(world.cache.contains("/world/a.png"));

    load_entity(&mut world, "/world/a.png", embedded(b"raw", b"carrier", 2));
    let node = &world.graph.nodes[0];
    assert_eq!(node.entity.payload.as_ref().unwrap().id, 1);
    assert_eq!(f32::from_bits(node.transform.translation.x), 7.0);
    assert!(!world.cache.contains("/world/a.png"));
    assert_eq!(world.cache.len(), 0);

    // The next time the path goes live, the disk is all there is.
    load_entity(&mut world, "/world/a.png", embedded(b"raw", b"carrier", 2));
    assert_eq!(world.graph.nodes[1].entity.payload.as_ref().unwrap().id, 2);
}

#[test]
fn cached_payload_is_used_where_the_disk_has_none() {
    let mut world = World::new();
    world.cache.cache_entity(&DirworldEntity {
        path: "/world/a.png".to_string(),
        payload: Some(payload(1)),
    });
    load_entity(&mut world, "/world/a.png", opaque(b"pixels"));
    assert_eq!(world.graph.nodes[0].entity.payload.as_ref().unwrap().id, 1);
    assert!(!world.cache.contains("/world/a.png"));
}

#[test]
fn cache_of_another_path_is_left_alone() {
    let mut world = World::new();
    world.cache.cache_entity(&DirworldEntity {
        path: "/world/b.png".to_string(),
        payload: Some(payload(1)),
    });
    load_entity(&mut world, "/world/a.png", embedded(b"raw", b"carrier", 2));
    assert_eq!(world.graph.nodes[0].entity.payload.as_ref().unwrap().id, 2);
    assert!(world.cache.contains("/world/b.png"));
    assert_eq!(world.cache.get_entity_cache("/world/b.png").unwrap().id, 1);
    assert!(world.cache.get_entity_cache("/world/b.png").is_none());
}

#[test]
fn cache_entity_without_payload_keeps_nothing() {
    let mut world = World::new();
    world.cache.cache_entity(&DirworldEntity { path: "/world/a".to_string(), payload: None });
    assert_eq!(world.cache.len(), 0);
}

#[test]
fn observer_of_the_kind_is_asked_to_preload() {
    let mut world = World::new();
    world.register_dirworld_entry_callbacks(vec![EntryType::File(Some("png".to_string()))], 21);
    world.register_dirworld_entry_callbacks(vec![EntryType::Folder], 22);
    world.preload_state = PreloadState::Done;

    let plain = load_entity(&mut world, "/world/a.txt", opaque(b"text"));
    assert!(plain.preload.is_none());
    assert_eq!(world.preload_state, PreloadState::Done);
    assert_eq!(world.room_assets.0.len(), 0);

    let image = load_entity(&mut world, "/world/a.png", embedded(b"raw", b"carrier", 2));
    let trigger = image.preload.unwrap();
    assert_eq!(trigger.observer, 21);
    assert_eq!(trigger.event.entity, image.entity);
    assert_eq!(trigger.event.data, Some(b"carrier".to_vec()));
    assert_eq!(world.preload_state, PreloadState::Loading);
    assert!(world.room_assets.0.get("/world/a.png").unwrap().is_empty());

    let folder = load_entity(&mut world, "/world/sub", EntryRead::Folder(MarkerRead::Missing));
    let trigger = folder.preload.unwrap();
    assert_eq!(trigger.observer, 22);
    assert_eq!(trigger.event.data, None);
    assert_eq!(world.room_assets.0.len(), 2);
}

#[test]
fn preloading_ends_when_every_asset_is_loaded() {
    let mut world = World::new();
    assert_eq!(PreloadState::default(), PreloadState::Loading);
    // Nothing to wait for.
    handle_preload(&mut world, &Vec::new());
    assert_eq!(world.preload_state, PreloadState::Done);

    world.preload_state = PreloadState::Loading;
    world.room_assets.0.insert(
        "/world/a.png".to_string(),
        vec![RoomAsset { name: "image".to_string(), handle: 1 }],
    );
    world.room_assets.0.insert(
        "/world/b.glb".to_string(),
        vec![
            RoomAsset { name: "mesh".to_string(), handle: 2 },
            RoomAsset { name: "skin".to_string(), handle: 3 },
        ],
    );
    handle_preload(&mut world, &vec![1, 2]);
    assert_eq!(world.preload_state, PreloadState::Loading);
    handle_preload(&mut world, &vec![3, 1]);
    assert_eq!(world.preload_state, PreloadState::Loading);
    handle_preload(&mut world, &vec![3, 9, 2, 1]);
    assert_eq!(world.preload_state, PreloadState::Done);
}

#[test]
fn spawn_requests_go_to_the_observers_in_node_order() {
    let mut world = World::new();
    world.register_dirworld_entry_callbacks(vec![EntryType::File(Some("png".to_string()))], 21);
    world.register_dirworld_entry_callbacks(vec![EntryType::Folder], 22);
    load_entity(&mut world, "/world/a.png", opaque(b"1"));
    load_entity(&mut world, "/world/b.txt", opaque(b"2"));
    load_entity(&mut world, "/world/sub.png", EntryRead::Folder(MarkerRead::Missing));
    load_entity(&mut world, "/world/c.png", opaque(b"3"));
    assert_eq!(
        handle_spawn(&world),
        vec![
            SpawnTrigger { observer: 21, event: DirworldSpawn(0) },
            SpawnTrigger { observer: 22, event: DirworldSpawn(2) },
            SpawnTrigger { observer: 21, event: DirworldSpawn(3) },
        ]
    );
    assert!(handle_spawn(&World::new()).is_empty());
}

// Removing by path.

#[test]
fn despawn_by_path_twice_finds_nothing_the_second_time() {
    let mut world = World::new();
    load_entity(&mut world, "/world/a.png", opaque(b"1"));
    load_entity(&mut world, "/world/b.png", opaque(b"2"));
    assert_eq!(despawn_entity_by_path(&mut world.graph, "/world/a.png"), Some(0));
    assert_eq!(paths(&world), vec!["/world/b.png"]);
    assert_eq!(despawn_entity_by_path(&mut world.graph, "/world/a.png"), None);
    assert_eq!(paths(&world), vec!["/world/b.png"]);
    assert_eq!(ids(&world), vec![1]);
    assert_eq!(world.graph.next_id, 2);
}

#[test]
fn despawn_by_path_takes_the_subtree() {
    let mut world = World::new();
    load_entity(&mut world, "/world/a", EntryRead::Folder(MarkerRead::Missing));
    let child = DirworldEntity { path: "/world/a/held".to_string(), payload: None };
    world.graph.spawn(Some(0), Transform::identity(), child, false);
    load_entity(&mut world, "/world/b", EntryRead::Folder(MarkerRead::Missing));
    assert_eq!(despawn_entity_by_path(&mut world.graph, "/world/a"), Some(0));
    assert_eq!(paths(&world), vec!["/world/b"]);
}

#[test]
fn despawn_all_goes_path_by_path() {
    let mut world = World::new();
    load_entity(&mut world, "/world/a", opaque(b"1"));
    load_entity(&mut world, "/world/b", opaque(b"2"));
    load_entity(&mut world, "/world/a", opaque(b"3"));
    let gone = despawn_all(
        &mut world.graph,
        &vec!["/world/a".to_string(), "/world/zzz".to_string(), "/world/a".to_string()],
    );
    assert_eq!(gone, vec![Some(0), None, Some(2)]);
    assert_eq!(paths(&world), vec!["/world/b"]);
}

// Rooms.

#[test]
fn hidden_entries_never_go_live() {
    let root = DirworldRootDir(Some("/world".to_string()));
    let listing = vec![
        listed("/world/.door", opaque(b"marker")),
        listed("/world/a.png", opaque(b"1")),
        listed("/world/.git", EntryRead::Folder(MarkerRead::Missing)),
        listed("/world/sub", EntryRead::Folder(MarkerRead::Missing)),
        listed("/world/.hidden.png", opaque(b"2")),
    ];
    let entries = room_entries(&root, "/world", listing, MarkerRead::Missing);
    let shown: Vec<&str> = entries.iter().map(|entry| entry.path.as_str()).collect();
    assert_eq!(shown, vec!["/world/a.png", "/world/sub"]);
}

#[test]
fn a_room_below_the_root_has_a_way_up() {
    let root = DirworldRootDir(Some("/world".to_string()));
    let listing = vec![listed("/world/room1/.door", opaque(b"m")), listed("/world/room1/a", opaque(b"1"))];
    let entries = room_entries(&root, "/world/room1", listing, MarkerRead::Payload(payload(3)));
    let shown: Vec<&str> = entries.iter().map(|entry| entry.path.as_str()).collect();
    assert_eq!(shown, vec!["/world/room1/a", "/world/room1/.."]);
    assert!(matches!(&entries[1].read, EntryRead::Folder(MarkerRead::Payload(found)) if found.id == 3));
    // Without a root there is no way up.
    let none = room_entries(&DirworldRootDir(None), "/world/room1", Vec::new(), MarkerRead::Missing);
    assert!(none.is_empty());
}

#[test]
fn navigate_into_room_with_no_marker_file() {
    let mut world = DirworldPlugin.build();
    change_root(&mut world, &DirworldChangeRoot("/world/room1".to_string()));
    let listing = vec![
        listed("/world/room1/a.png", opaque(b"all of the file")),
        listed("/world/room1/sub", EntryRead::Folder(MarkerRead::Missing)),
    ];
    world.register_dirworld_entry_callbacks(vec![EntryType::File(Some("png".to_string()))], 1);
    let entered = navigate_to_room(
        &mut world,
        &DirworldEnterRoom("/world/room1".to_string()),
        MarkerRead::Missing,
        Some(listing),
        MarkerRead::Missing,
    )
    .unwrap();
    assert_eq!(entered.notice.0, "/world/room1");
    assert_eq!(world.current_dir.path, "/world/room1");
    assert!(world.current_dir.payload.is_none());
    assert_eq!(world.graph.nodes.len(), 2);

    let image = &world.graph.nodes[0];
    assert_eq!(image.entity.path, "/world/room1/a.png");
    assert!(image.entity.payload.is_none());
    let trigger = entered.loaded[0].preload.as_ref().unwrap();
    assert_eq!(trigger.event.data, Some(b"all of the file".to_vec()));
    assert_eq!(trigger.event.entity, image.id);

    let sub = &world.graph.nodes[1];
    assert_eq!(sub.entity.path, "/world/room1/sub");
    assert!(sub.entity.payload.is_none());
    assert_eq!(sub.transform, Transform::identity());
    assert!(sub.folder);
    assert!(entered.loaded[1].preload.is_none());
}

#[test]
fn entering_takes_the_room_payload_from_its_marker_file() {
    let mut world = World::new();
    change_root(&mut world, &DirworldChangeRoot("/world".to_string()));
    let entered = navigate_to_room(
        &mut world,
        &DirworldEnterRoom("/world/room1".to_string()),
        MarkerRead::Payload(payload(77)),
        Some(vec![listed("/world/room1/.door", opaque(b"m")), listed("/world/room1/a", opaque(b"1"))]),
        MarkerRead::Payload(payload(78)),
    )
    .unwrap();
    assert_eq!(world.current_dir.payload.as_ref().unwrap().id, 77);
    assert_eq!(paths(&world), vec!["/world/room1/a", "/world/room1/.."]);
    assert_eq!(world.graph.nodes[1].entity.payload.as_ref().unwrap().id, 78);
    assert!(world.graph.nodes[1].folder);
    assert_eq!(entered.loaded.len(), 2);
    assert_eq!(entered.loaded[0].entity, 0);
    assert_eq!(entered.loaded[1].entity, 1);
}

#[test]
fn unreadable_directory_leaves_everything_as_it_was() {
    let mut world = World::new();
    change_root(&mut world, &DirworldChangeRoot("/world".to_string()));
    navigate_to_room(
        &mut world,
        &DirworldEnterRoom("/world".to_string()),
        MarkerRead::Payload(payload(1)),
        Some(vec![listed("/world/a", opaque(b"1"))]),
        MarkerRead::Missing,
    )
    .unwrap();
    let outcome = navigate_to_room(
        &mut world,
        &DirworldEnterRoom("/world/locked".to_string()),
        MarkerRead::Payload(payload(2)),
        None,
        MarkerRead::Missing,
    );
    assert!(matches!(outcome, Err(EnterError::DirectoryUnreadable)));
    assert_eq!(world.current_dir.path, "/world");
    assert_eq!(world.current_dir.payload.as_ref().unwrap().id, 1);
    assert_eq!(paths(&world), vec!["/world/a"]);
    assert_eq!(world.graph.next_id, 1);
}

#[test]
fn entering_fails_when_identities_run_out() {
    let mut world = World::new();
    world.graph.next_id = u64::MAX - 1;
    let outcome = navigate_to_room(
        &mut world,
        &DirworldEnterRoom("/world".to_string()),
        MarkerRead::Missing,
        Some(vec![listed("/world/a", opaque(b"1"))]),
        MarkerRead::Missing,
    );
    assert!(matches!(outcome, Err(EnterError::OutOfIdentities)));
    assert!(world.graph.nodes.is_empty());
    assert_eq!(world.current_dir.path, "");
}

#[test]
fn leaving_sets_payloads_aside_as_the_nodes_carry_them() {
    let mut world = World::new();
    load_all(
        &mut world,
        vec![
            listed("/world/a.png", embedded(b"raw", b"carrier", 1)),
            listed("/world/b.png", opaque(b"2")),
            listed("/world/keep.png", embedded(b"raw", b"carrier", 3)),
        ],
    );
    // A live edit.
    world.graph.nodes[0].entity.payload.as_mut().unwrap().transform.scale.x = 2.0f32.to_bits();
    world.graph.mark_persistent(2);

    let notice = navigate_from_room(&mut world, &DirworldLeaveRoom("/world".to_string()));
    assert_eq!(notice.0, "/world");
    assert_eq!(paths(&world), vec!["/world/keep.png"]);
    assert_eq!(world.cache.len(), 1);
    assert!(!world.cache.contains("/world/b.png"));
    assert!(!world.cache.contains("/world/keep.png"));
    let kept = world.cache.get_entity_cache("/world/a.png").unwrap();
    assert_eq!(kept.id, 1);
    assert_eq!(f32::from_bits(kept.transform.scale.x), 2.0);
}

#[test]
fn leaving_and_coming_back_brings_the_edit_back() {
    let mut world = World::new();
    load_entity(&mut world, "/world/a.png", embedded(b"raw", b"carrier", 1));
    world.graph.nodes[0].entity.payload.as_mut().unwrap().transform.translation.z =
        9.0f32.to_bits();
    navigate_from_room(&mut world, &DirworldLeaveRoom("/world".to_string()));
    assert!(world.graph.nodes.is_empty());
    navigate_to_room(
        &mut world,
        &DirworldEnterRoom("/world".to_string()),
        MarkerRead::Missing,
        Some(vec![listed("/world/a.png", embedded(b"raw", b"carrier", 1))]),
        MarkerRead::Missing,
    )
    .unwrap();
    assert_eq!(f32::from_bits(world.graph.nodes[0].transform.translation.z), 9.0);
    assert_eq!(world.cache.len(), 0);
}

#[test]
fn change_root_leaves_the_old_root_and_enters_the_new() {
    let mut world = World::new();
    let first = change_root(&mut world, &DirworldChangeRoot("/world".to_string()));
    assert!(first.leave.is_none());
    assert_eq!(first.enter.0, "/world");
    assert_eq!(world.root_dir.0.as_deref(), Some("/world"));
    let second = change_root(&mut world, &DirworldChangeRoot("/other".to_string()));
    assert_eq!(second.leave.unwrap().0, "/world");
    assert_eq!(second.enter.0, "/other");
    assert_eq!(world.root_dir.0.as_deref(), Some("/other"));
}

// Changes the watcher reports.

#[test]
fn classes_of_changes() {
    assert_eq!(change_class(EventKind::Remove), ChangeClass::DespawnAll);
    assert_eq!(
        change_class(EventKind::Modify(ModifyKind::Name(RenameMode::From))),
        ChangeClass::DespawnAll
    );
    assert_eq!(change_class(EventKind::Create), ChangeClass::LoadAll);
    assert_eq!(
        change_class(EventKind::Modify(ModifyKind::Name(RenameMode::To))),
        ChangeClass::LoadAll
    );
    assert_eq!(
        change_class(EventKind::Modify(ModifyKind::Name(RenameMode::Both))),
        ChangeClass::Rename
    );
    for metadata in [
        MetadataKind::Any,
        MetadataKind::AccessTime,
        MetadataKind::WriteTime,
        MetadataKind::Permissions,
        MetadataKind::Ownership,
        MetadataKind::Extended,
        MetadataKind::Other,
    ] {
        let kind = EventKind::Modify(ModifyKind::Metadata(metadata));
        assert_eq!(change_class(kind), ChangeClass::Refresh);
        assert!(needs_reads(kind));
    }
    for kind in [
        EventKind::Any,
        EventKind::Access,
        EventKind::Other,
        EventKind::Modify(ModifyKind::Any),
        EventKind::Modify(ModifyKind::Data),
        EventKind::Modify(ModifyKind::Other),
        EventKind::Modify(ModifyKind::Name(RenameMode::Any)),
        EventKind::Modify(ModifyKind::Name(RenameMode::Other)),
    ] {
        assert_eq!(change_class(kind), ChangeClass::Ignore);
        assert!(!needs_reads(kind));
    }
    assert!(!needs_reads(EventKind::Remove));
    assert!(needs_reads(EventKind::Create));
    assert!(needs_reads(EventKind::Modify(ModifyKind::Name(RenameMode::Both))));
    assert!(needs_reads(EventKind::Modify(ModifyKind::Metadata(MetadataKind::Any))));
}

#[test]
fn watcher_rename() {
    let mut world = World::new();
    load_entity(&mut world, "/world/old.png", opaque(b"1"));
    load_entity(&mut world, "/world/other.png", opaque(b"2"));
    let outcome = handle_changes(
        &mut world,
        &event(
            EventKind::Modify(ModifyKind::Name(RenameMode::Both)),
            &["/world/old.png", "/world/new.png"],
        ),
        vec![EntryRead::File { raw: None, decoded: None }, embedded(b"raw", b"carrier", 5)],
    );
    assert_eq!(outcome.despawned, vec![Some(0)]);
    assert_eq!(outcome.loaded.len(), 1);
    assert_eq!(outcome.loaded[0].entity, 2);
    assert_eq!(paths(&world), vec!["/world/other.png", "/world/new.png"]);
    assert_eq!(ids(&world), vec![1, 2]);
    assert_eq!(world.graph.nodes[1].entity.payload.as_ref().unwrap().id, 5);
}

#[test]
fn rename_of_an_entry_that_was_not_live_adds_one_node() {
    let mut world = World::new();
    let outcome = handle_changes(
        &mut world,
        &event(EventKind::Modify(ModifyKind::Name(RenameMode::Both)), &["/world/a", "/world/b"]),
        vec![opaque(b"1"), opaque(b"2")],
    );
    assert_eq!(outcome.despawned, vec![None]);
    assert_eq!(paths(&world), vec!["/world/b"]);
}

#[test]
fn removed_entries_lose_their_nodes() {
    let mut world = World::new();
    load_entity(&mut world, "/world/a", opaque(b"1"));
    load_entity(&mut world, "/world/b", opaque(b"2"));
    load_entity(&mut world, "/world/c", opaque(b"3"));
    let outcome = handle_changes(
        &mut world,
        &event(EventKind::Remove, &["/world/a", "/world/c", "/world/a"]),
        Vec::new(),
    );
    assert_eq!(outcome.despawned, vec![Some(0), Some(2), None]);
    assert!(outcome.loaded.is_empty());
    assert_eq!(paths(&world), vec!["/world/b"]);

    let outcome = handle_changes(
        &mut world,
        &event(EventKind::Modify(ModifyKind::Name(RenameMode::From)), &["/world/b"]),
        Vec::new(),
    );
    assert_eq!(outcome.despawned, vec![Some(1)]);
    assert!(world.graph.nodes.is_empty());
}

#[test]
fn created_entries_go_live() {
    let mut world = World::new();
    let outcome = handle_changes(
        &mut world,
        &event(EventKind::Create, &["/world/a.png", "/world/sub"]),
        vec![embedded(b"raw", b"carrier", 8), EntryRead::Folder(MarkerRead::Missing)],
    );
    assert!(outcome.despawned.is_empty());
    assert_eq!(outcome.loaded.len(), 2);
    assert_eq!(paths(&world), vec!["/world/a.png", "/world/sub"]);
    assert_eq!(world.graph.nodes[0].entity.payload.as_ref().unwrap().id, 8);

    handle_changes(
        &mut world,
        &event(EventKind::Modify(ModifyKind::Name(RenameMode::To)), &["/world/b.png"]),
        vec![opaque(b"2")],
    );
    assert_eq!(paths(&world), vec!["/world/a.png", "/world/sub", "/world/b.png"]);
}

#[test]
fn change_of_metadata_refreshes_the_node() {
    let mut world = World::new();
    load_entity(&mut world, "/world/a.png", embedded(b"raw", b"carrier", 1));
    load_entity(&mut world, "/world/b.png", opaque(b"2"));
    let outcome = handle_changes(
        &mut world,
        &event(EventKind::Modify(ModifyKind::Metadata(MetadataKind::Any)), &["/world/a.png"]),
        vec![embedded(b"raw", b"carrier", 2)],
    );
    assert_eq!(outcome.despawned, vec![Some(0)]);
    assert_eq!(outcome.loaded[0].entity, 2);
    assert_eq!(paths(&world), vec!["/world/b.png", "/world/a.png"]);
    assert_eq!(world.graph.nodes[1].entity.payload.as_ref().unwrap().id, 2);
}

#[test]
fn change_of_permissions_refreshes_the_node_too() {
    let mut world = World::new();
    load_entity(&mut world, "/world/a.png", embedded(b"raw", b"carrier", 1));
    let outcome = handle_changes(
        &mut world,
        &event(
            EventKind::Modify(ModifyKind::Metadata(MetadataKind::Permissions)),
            &["/world/a.png"],
        ),
        vec![embedded(b"raw", b"carrier", 2)],
    );
    assert_eq!(outcome.despawned, vec![Some(0)]);
    assert_eq!(outcome.loaded.len(), 1);
    assert_eq!(paths(&world), vec!["/world/a.png"]);
    assert_eq!(ids(&world), vec![1]);
    assert_eq!(world.graph.nodes[0].entity.payload.as_ref().unwrap().id, 2);
}

#[test]
fn other_changes_and_incomplete_events_change_nothing() {
    let mut world = World::new();
    load_entity(&mut world, "/world/a", opaque(b"1"));
    for (kind, names, reads) in [
        (EventKind::Access, vec!["/world/a"], vec![opaque(b"1")]),
        (EventKind::Modify(ModifyKind::Data), vec!["/world/a"], vec![opaque(b"1")]),
        // A rename that names one path only.
        (EventKind::Modify(ModifyKind::Name(RenameMode::Both)), vec!["/world/a"], vec![opaque(b"1")]),
        // Entries to make live without what was read of them.
        (EventKind::Create, vec!["/world/b", "/world/c"], vec![opaque(b"1")]),
        (EventKind::Modify(ModifyKind::Metadata(MetadataKind::Any)), vec![], vec![]),
    ] {
        let outcome = handle_changes(&mut world, &event(kind, &names), reads);
        assert!(outcome.despawned.is_empty());
        assert!(outcome.loaded.is_empty());
        assert_eq!(paths(&world), vec!["/world/a"]);
        assert_eq!(world.graph.next_id, 1);
    }
}

#[test]
fn changes_without_identities_left_change_nothing() {
    let mut world = World::new();
    load_entity(&mut world, "/world/a", opaque(b"1"));
    world.graph.next_id = u64::MAX;
    for (kind, names, reads) in [
        (EventKind::Create, vec!["/world/b"], vec![opaque(b"1")]),
        (
            EventKind::Modify(ModifyKind::Name(RenameMode::Both)),
            vec!["/world/a", "/world/b"],
            vec![opaque(b"1"), opaque(b"2")],
        ),
        (
            EventKind::Modify(ModifyKind::Metadata(MetadataKind::Any)),
            vec!["/world/a"],
            vec![opaque(b"1")],
        ),
    ] {
        let outcome = handle_changes(&mut world, &event(kind, &names), reads);
        assert!(outcome.despawned.is_empty());
        assert!(outcome.loaded.is_empty());
        assert_eq!(paths(&world), vec!["/world/a"]);
    }
    // Removing needs no identity.
    let outcome = handle_changes(&mut world, &event(EventKind::Remove, &["/world/a"]), Vec::new());
    assert_eq!(outcome.despawned, vec![Some(0)]);
}

#[test]
fn duplicate_events_do_not_break_the_graph() {
    let mut world = World::new();
    let create = event(EventKind::Create, &["/world/a"]);
    handle_changes(&mut world, &create, vec![opaque(b"1")]);
    let remove = event(EventKind::Remove, &["/world/a"]);
    assert_eq!(handle_changes(&mut world, &remove, Vec::new()).despawned, vec![Some(0)]);
    assert_eq!(handle_changes(&mut world, &remove, Vec::new()).despawned, vec![None]);
    assert!(world.graph.nodes.is_empty());
    handle_changes(&mut world, &create, vec![opaque(b"1")]);
    assert_eq!(ids(&world), vec![1]);
}
