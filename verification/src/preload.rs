//! Making entries live, and waiting for what their observers load.
use vstd::prelude::*;
use crate::components::DirworldEntity;
use crate::events::DirworldSpawn;
use crate::graph::Node;
use crate::payload::components::Transform;
use crate::payload::DirworldEntityPayload;
use crate::resources::DirworldObservers;
use crate::text_map::TextMap;
use crate::utils::{entry_type, extract_entity_payload, spec_entry_type, spec_extract, EntryRead};
use crate::world::World;

verus! {

/// State of asset preloading.
#[derive(Clone, Copy, Debug, PartialEq, Eq, Hash, Structural)]
pub enum PreloadState {
    /// Assets are in the process of loading.
    Loading,
    /// All room assets are loaded, with what they depend on.
    Done,
}

impl Default for PreloadState {
    fn default() -> (state: PreloadState)
        ensures
            state == PreloadState::Loading,
    {
        PreloadState::Loading
    }
}

/// An asset that an entry of the room needs: its name, and the number by
/// which the host knows it.
#[derive(Debug)]
pub struct RoomAsset {
    pub name: String,
    pub handle: u64,
}

/// The assets that each entry of the room needs, by the entry's path.
#[derive(Debug)]
pub struct RoomAssets(pub TextMap<Vec<RoomAsset>>);

impl View for RoomAssets {
    type V = Map<Seq<char>, Vec<RoomAsset>>;

    open spec fn view(&self) -> Map<Seq<char>, Vec<RoomAsset>> {
        self.0@
    }
}

impl RoomAssets {
    /// The invariant: no path occurs twice.
    pub open spec fn wf(&self) -> bool {
        self.0.wf()
    }

    /// No assets.
    pub fn new() -> (assets: RoomAssets)
        ensures
            assets.wf(),
            assets@ == Map::<Seq<char>, Vec<RoomAsset>>::empty(),
            assets.0.spec_len() == 0,
    {
        RoomAssets(TextMap::new())
    }
}

/// Asks an observer to load what a new node needs.
#[derive(Debug)]
pub struct DirworldPreload {
    /// Identity of the node being loaded.
    pub entity: u64,
    /// The carrier bytes of the node's file, once its payload is taken out.
    pub data: Option<Vec<u8>>,
}

/// A [`DirworldPreload`] with the observer it goes to.
#[derive(Debug)]
pub struct PreloadTrigger {
    pub observer: u64,
    pub event: DirworldPreload,
}

/// A [`DirworldSpawn`] with the observer it goes to.
#[derive(Clone, Copy, Debug, PartialEq, Eq, Structural)]
pub struct SpawnTrigger {
    pub observer: u64,
    pub event: DirworldSpawn,
}

/// What making an entry live gave: the identity of its node, and the
/// request to the observer of its kind, where there is one.
#[derive(Debug)]
pub struct LoadOutcome {
    pub entity: u64,
    pub preload: Option<PreloadTrigger>,
}

/// The payload an entry goes live with: the one set aside for its path,
/// where there is one, else the one read from disk.
pub open spec fn spec_resolved(
    cache: Map<Seq<char>, DirworldEntityPayload>,
    entry: Seq<char>,
    disk: Option<DirworldEntityPayload>,
) -> Option<DirworldEntityPayload> {
    if cache.contains_key(entry) {
        Some(cache[entry])
    } else {
        disk
    }
}

/// The transform a node with `payload` starts at.
pub open spec fn spec_start_transform(payload: Option<DirworldEntityPayload>) -> Transform {
    match payload {
        Some(found) => found.transform,
        None => Transform::spec_identity(),
    }
}

/// Whether `node` is the node that `entry` goes live as in a world with
/// `cache`, given what was read of it and the identity it gets.
pub open spec fn spec_is_loaded_node(
    node: Node,
    id: u64,
    cache: Map<Seq<char>, DirworldEntityPayload>,
    entry: Seq<char>,
    read: EntryRead,
) -> bool {
    let payload = spec_resolved(cache, entry, spec_extract(read).0);
    &&& node.id == id
    &&& node.parent.is_none()
    &&& !node.persist
    &&& node.folder == read.spec_is_folder()
    &&& node.transform == spec_start_transform(payload)
    &&& node.entity.path@ == entry
    &&& node.entity.payload == payload
}

/// Whether `after` is what making `entry` live turns `before` into, with
/// `outcome` as the answer.
///
/// The payload set aside for the path, if any, leaves the cache. One node
/// is added, with the next identity. Where an observer is registered for
/// the kind of the entry, it is asked to preload with the carrier bytes,
/// preloading starts over, and the entry gets an empty list of assets.
/// Nothing else changes.
pub open spec fn spec_load_step(
    before: World,
    after: World,
    entry: Seq<char>,
    read: EntryRead,
    outcome: LoadOutcome,
) -> bool {
    &&& after.root_dir == before.root_dir
    &&& after.current_dir == before.current_dir
    &&& after.codecs == before.codecs
    &&& after.observers == before.observers
    &&& after.cache@ == before.cache@.remove(entry)
    &&& outcome.entity == before.graph.next_id
    &&& after.graph.next_id == before.graph.next_id + 1
    &&& after.graph.nodes@.len() == before.graph.nodes@.len() + 1
    &&& after.graph.nodes@.drop_last() == before.graph.nodes@
    &&& spec_is_loaded_node(
        after.graph.nodes@.last(),
        outcome.entity,
        before.cache@,
        entry,
        read,
    )
    &&& match before.observers.spec_get(spec_entry_type(entry, read.spec_is_folder())) {
        Some(observer) => {
            &&& outcome.preload.is_some()
            &&& outcome.preload.unwrap().observer == observer
            &&& outcome.preload.unwrap().event.entity == outcome.entity
            &&& outcome.preload.unwrap().event.data == spec_extract(read).1
            &&& after.preload_state == PreloadState::Loading
            &&& after.room_assets@.dom() == before.room_assets@.dom().insert(entry)
            &&& after.room_assets@[entry]@.len() == 0
            &&& forall|path: Seq<char>|
                path != entry && before.room_assets@.contains_key(path)
                    ==> #[trigger] after.room_assets@[path] == before.room_assets@[path]
        },
        None => {
            &&& outcome.preload.is_none()
            &&& after.preload_state == before.preload_state
            &&& after.room_assets == before.room_assets
        },
    }
}

/// Makes the entry at `entry` live: resolves its payload, adds its node,
/// and asks the observer of its kind, where one is registered, to load
/// what the node needs.
///
/// A payload set aside for the path goes before the one on disk, and is
/// taken out of the cache.
pub fn load_entity(world: &mut World, entry: &str, read: EntryRead) -> (outcome: LoadOutcome)
    requires
        old(world).wf(),
        read.wf(),
        old(world).graph.next_id < u64::MAX,
    ensures
        final(world).wf(),
        spec_load_step(*old(world), *final(world), entry@, read, outcome),
{
    let folder = read.is_folder();
    let (disk, data) = extract_entity_payload(read);
    let cached = world.cache.get_entity_cache(entry);
    let payload = match cached {
        Some(kept) => Some(kept),
        None => disk,
    };
    let kind = entry_type(entry, folder);
    let transform = match &payload {
        Some(found) => found.transform,
        None => Transform::identity(),
    };
    let entity = DirworldEntity { path: entry.to_owned(), payload };
    let ghost before = world.graph.nodes@;
    let spawned = world.graph.spawn(None, transform, entity, folder);
    let id = spawned.unwrap();
    proof {
        assert(world.graph.nodes@.drop_last() =~= before);
    }
    let preload = match world.observers.get(&kind) {
        Some(observer) => {
            world.preload_state = PreloadState::Loading;
            let ghost assets = world.room_assets.0@;
            let _ = world.room_assets.0.insert(entry.to_owned(), Vec::new());
            proof {
                assert(world.room_assets.0@.dom() =~= assets.dom().insert(entry@));
            }
            Some(PreloadTrigger { observer, event: DirworldPreload { entity: id, data } })
        },
        None => None,
    };
    LoadOutcome { entity: id, preload }
}

/// Whether every asset of the room is among the loaded ones.
pub open spec fn spec_all_loaded(assets: Seq<Vec<RoomAsset>>, loaded: Seq<u64>) -> bool {
    forall|i: int, j: int|
        0 <= i < assets.len() && 0 <= j < assets[i]@.len() ==> loaded.contains(
            #[trigger] assets[i]@[j].handle,
        )
}

/// Tells whether `handle` is among `loaded`.
fn is_loaded(loaded: &Vec<u64>, handle: u64) -> (found: bool)
    ensures
        found == loaded@.contains(handle),
{
    let mut at: usize = 0;
    while at < loaded.len()
        invariant
            at <= loaded@.len(),
            forall|k: int| 0 <= k < at ==> loaded@[k] != handle,
        decreases loaded@.len() - at,
    {
        if loaded[at] == handle {
            return true;
        }
        at = at + 1;
    }
    false
}

/// Ends preloading once nothing is left to wait for: when the room needs no
/// asset, or every asset it needs is among `loaded`, the handles that the
/// host has loaded with all they depend on.
pub fn handle_preload(world: &mut World, loaded: &Vec<u64>)
    requires
        old(world).wf(),
    ensures
        final(world).wf(),
        final(world).preload_state == (if spec_all_loaded(
            old(world).room_assets.0.values@,
            loaded@,
        ) {
            PreloadState::Done
        } else {
            old(world).preload_state
        }),
        final(world).root_dir == old(world).root_dir,
        final(world).current_dir == old(world).current_dir,
        final(world).cache == old(world).cache,
        final(world).codecs == old(world).codecs,
        final(world).observers == old(world).observers,
        final(world).graph == old(world).graph,
        final(world).room_assets == old(world).room_assets,
{
    let mut entry: usize = 0;
    while entry < world.room_assets.0.values.len()
        invariant
            *world == *old(world),
            world.wf(),
            entry <= world.room_assets.0.values@.len(),
            forall|i: int, j: int|
                0 <= i < entry && 0 <= j < world.room_assets.0.values@[i]@.len()
                    ==> loaded@.contains(#[trigger] world.room_assets.0.values@[i]@[j].handle),
        decreases world.room_assets.0.values@.len() - entry,
    {
        let mut asset: usize = 0;
        while asset < world.room_assets.0.values[entry].len()
            invariant
                *world == *old(world),
                world.wf(),
                entry < world.room_assets.0.values@.len(),
                asset <= world.room_assets.0.values@[entry as int]@.len(),
                forall|j: int|
                    0 <= j < asset ==> loaded@.contains(
                        #[trigger] world.room_assets.0.values@[entry as int]@[j].handle,
                    ),
            decreases world.room_assets.0.values@[entry as int]@.len() - asset,
        {
            if !is_loaded(loaded, world.room_assets.0.values[entry][asset].handle) {
                return ;
            }
            asset = asset + 1;
        }
        entry = entry + 1;
    }
    world.preload_state = PreloadState::Done;
}

/// The requests that go out once preloading is done, for the first `upto`
/// nodes: one for each node whose kind has an observer, in the order of the
/// nodes.
pub open spec fn spec_spawn_triggers(
    nodes: Seq<Node>,
    observers: DirworldObservers,
    upto: int,
) -> Seq<SpawnTrigger>
    decreases upto,
{
    if upto <= 0 || upto > nodes.len() {
        Seq::empty()
    } else {
        let earlier = spec_spawn_triggers(nodes, observers, upto - 1);
        let node = nodes[upto - 1];
        match observers.spec_get(spec_entry_type(node.entity.path@, node.folder)) {
            Some(observer) => earlier.push(
                SpawnTrigger { observer, event: DirworldSpawn(node.id) },
            ),
            None => earlier,
        }
    }
}

/// Asks the observer of each live node's kind to materialise the node.
pub fn handle_spawn(world: &World) -> (triggers: Vec<SpawnTrigger>)
    ensures
        triggers@ == spec_spawn_triggers(
            world.graph.nodes@,
            world.observers,
            world.graph.nodes@.len() as int,
        ),
{
    let mut triggers: Vec<SpawnTrigger> = Vec::new();
    let mut at: usize = 0;
    while at < world.graph.nodes.len()
        invariant
            at <= world.graph.nodes@.len(),
            triggers@ == spec_spawn_triggers(world.graph.nodes@, world.observers, at as int),
        decreases world.graph.nodes@.len() - at,
    {
        let node = &world.graph.nodes[at];
        let kind = entry_type(node.entity.path.as_str(), node.folder);
        if let Some(observer) = world.observers.get(&kind) {
            triggers.push(SpawnTrigger { observer, event: DirworldSpawn(node.id) });
        }
        at = at + 1;
    }
    triggers
}

} // verus!
