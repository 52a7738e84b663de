//! Everything the engine knows, in one place.
use vstd::prelude::*;
use crate::cache::DirworldCache;
use crate::graph::{LiveGraph, Node};
use crate::payload::DirworldEntityPayload;
use crate::preload::{PreloadState, RoomAsset, RoomAssets};
use crate::resources::{
    DirworldCodecs, DirworldCurrentDir, DirworldObservers, DirworldRootDir, EntryTypeView,
};

verus! {

/// The engine's state: where the world is rooted, which room is current,
/// the live graph, the payloads set aside, and what the host registered.
pub struct World {
    pub root_dir: DirworldRootDir,
    pub current_dir: DirworldCurrentDir,
    pub cache: DirworldCache,
    pub codecs: DirworldCodecs,
    pub observers: DirworldObservers,
    pub graph: LiveGraph,
    pub preload_state: PreloadState,
    pub room_assets: RoomAssets,
}

impl World {
    /// The invariant of the state: that of each of its parts.
    pub open spec fn wf(&self) -> bool {
        &&& self.current_dir.wf()
        &&& self.cache.wf()
        &&& self.codecs.wf()
        &&& self.observers.wf()
        &&& self.graph.wf()
        &&& self.room_assets.wf()
    }

    /// A world without root, room, nodes, kept payloads or registrations.
    pub fn new() -> (world: World)
        ensures
            world.wf(),
            world.spec_is_fresh(),
    {
        World {
            root_dir: DirworldRootDir(None),
            current_dir: DirworldCurrentDir::default(),
            cache: DirworldCache::new(),
            codecs: DirworldCodecs::new(),
            observers: DirworldObservers::new(),
            graph: LiveGraph::new(),
            preload_state: PreloadState::Loading,
            room_assets: RoomAssets::new(),
        }
    }

    /// Whether the state is the one the engine starts from: the world has
    /// no root, the current room has no path and no payload, the graph has
    /// no node and hands out identities from 0, nothing is set aside, no
    /// codec and no observer is registered, and preloading waits for no
    /// asset.
    pub open spec fn spec_is_fresh(&self) -> bool {
        &&& self.root_dir.0.is_none()
        &&& self.current_dir.path@ == Seq::<char>::empty()
        &&& self.current_dir.payload.is_none()
        &&& self.cache@ == Map::<Seq<char>, DirworldEntityPayload>::empty()
        &&& self.codecs@ == Map::<Seq<char>, u64>::empty()
        &&& forall|kind: EntryTypeView| (#[trigger] self.observers.spec_get(kind)).is_none()
        &&& self.graph.nodes@ == Seq::<Node>::empty()
        &&& self.graph.next_id == 0
        &&& self.preload_state == PreloadState::Loading
        &&& self.room_assets@ == Map::<Seq<char>, Vec<RoomAsset>>::empty()
    }
}

} // verus!
