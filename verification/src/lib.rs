//! Keeps a navigable graph of rooms and their contents in step with a
//! directory tree, with per-entry state embedded in the files themselves.
//!
//! The engine decides; the host reads and writes the disk, runs the codecs
//! and mirrors the live graph into its own scene.
use vstd::prelude::*;

pub use crate::watcher::DirworldWatcherEvent;
pub use crate::watcher::DirworldWatcherSet;
use crate::paths::{
    spec_extensions, spec_file_stem_no_extensions, spec_no_extensions,
};
use crate::registry::spec_with_keys;
use crate::resources::{EntryType, EntryTypeView};
use crate::world::World;

/// Small helpers on text.
pub mod text;

/// Paths of filesystem entries.
pub mod paths;

/// A map keyed by text.
pub mod text_map;

/// Payload for dirworld entities.
pub mod payload;

/// Sealing and opening archives.
pub mod archive;

/// Components used by the engine.
pub mod components;

/// The live graph.
pub mod graph;

/// Tables of registered handles.
pub mod registry;

/// Payloads of entries that are not live.
pub mod cache;

/// Resources used by the engine.
pub mod resources;

/// The engine's state.
pub mod world;

/// Conditions that scripts can check.
pub mod conditionals;

/// Events used by the engine.
pub mod events;

/// Utility functions.
pub mod utils;

/// Room and asset preloading.
pub mod preload;

/// The filesystem watcher.
pub mod watcher;

/// Leaving and entering rooms, following changes.
pub mod observers;

/// Commands of the host.
pub mod commands;

/// What runs on every tick.
pub mod systems;

/// Conditions for dialogue scripts.
pub mod yarnspinner_api;

/// Conditions for Lua scripts.
pub mod lua_api;

/// Variables of dialogue scripts.
pub mod actor;

/// What holds of the engine as a whole.
pub mod laws;

verus! {

/// Sets the engine up.
#[derive(Clone, Copy, Debug, Default)]
pub struct DirworldPlugin;

impl DirworldPlugin {
    /// Makes the state the engine starts from: no root, no room, no node,
    /// nothing set aside and nothing registered.
    pub fn build(&self) -> (world: World)
        ensures
            world.wf(),
            world.spec_is_fresh(),
    {
        World::new()
    }
}

/// Working with the extensions of a path, of which there may be several.
pub trait Extensions {
    /// Get all the extensions on this path if applicable
    fn extensions(&self) -> Option<String>;

    /// Gets the file stem (without any extensions) of this path if applicable
    fn file_stem_no_extensions(&self) -> Option<String>;

    /// Gets the path with any extensions removed
    fn no_extensions(&self) -> String;
}

impl Extensions for String {
    fn extensions(&self) -> (extensions: Option<String>)
        ensures
            match extensions {
                Some(text) => spec_extensions(self@) == Some(text@),
                None => spec_extensions(self@).is_none(),
            },
    {
        crate::paths::extensions(self.as_str())
    }

    fn file_stem_no_extensions(&self) -> (stem: Option<String>)
        ensures
            match stem {
                Some(text) => spec_file_stem_no_extensions(self@) == Some(text@),
                None => spec_file_stem_no_extensions(self@).is_none(),
            },
    {
        crate::paths::file_stem_no_extensions(self.as_str())
    }

    fn no_extensions(&self) -> (stripped: String)
        ensures
            stripped@ == spec_no_extensions(self@),
    {
        crate::paths::no_extensions(self.as_str())
    }
}

/// Registering observers and codecs for kinds of entries.
pub trait DirworldApp {
    /// Whether the state that holds the registrations is in order.
    spec fn registrable(&self) -> bool;

    /// Registers `observer`, the number by which the host knows a pair of
    /// preload and spawn callbacks, for entries of the given kinds. Tells
    /// whether it did.
    fn register_dirworld_entry_callbacks(&mut self, extensions: Vec<EntryType>, observer: u64) -> bool
        requires
            old(self).registrable(),
    ;

    /// Registers `codec`, the number by which the host knows a codec, for
    /// files with the given extensions. Tells whether it did.
    fn register_dirworld_entry_codec(&mut self, extensions: Vec<String>, codec: u64) -> bool
        requires
            old(self).registrable(),
    ;
}

impl DirworldApp for World {
    open spec fn registrable(&self) -> bool {
        self.wf()
    }

    fn register_dirworld_entry_callbacks(&mut self, extensions: Vec<EntryType>, observer: u64) -> (registered:
        bool)
        ensures
            final(self).wf(),
            registered == old(self).observers.spec_accepts(extensions@),
            forall|kind: EntryTypeView| #[trigger]
                final(self).observers.spec_get(kind) == (if registered && exists|i: int|
                    0 <= i < extensions@.len() && extensions@[i]@ == kind {
                    Some(observer)
                } else {
                    old(self).observers.spec_get(kind)
                }),
            final(self).root_dir == old(self).root_dir,
            final(self).current_dir == old(self).current_dir,
            final(self).cache == old(self).cache,
            final(self).codecs == old(self).codecs,
            final(self).graph == old(self).graph,
            final(self).preload_state == old(self).preload_state,
            final(self).room_assets == old(self).room_assets,
    {
        self.observers.insert_many(extensions, observer)
    }

    fn register_dirworld_entry_codec(&mut self, extensions: Vec<String>, codec: u64) -> (registered:
        bool)
        ensures
            final(self).wf(),
            registered == old(self).codecs.0.spec_accepts(extensions@),
            registered ==> final(self).codecs@ == spec_with_keys(
                old(self).codecs@,
                extensions@,
                codec,
            ),
            !registered ==> final(self).codecs@ == old(self).codecs@,
            final(self).root_dir == old(self).root_dir,
            final(self).current_dir == old(self).current_dir,
            final(self).cache == old(self).cache,
            final(self).observers == old(self).observers,
            final(self).graph == old(self).graph,
            final(self).preload_state == old(self).preload_state,
            final(self).room_assets == old(self).room_assets,
    {
        self.codecs.insert_many(extensions, codec)
    }
}

} // verus!
