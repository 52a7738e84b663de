//! Watching the current root for changes.
//!
//! The watch itself runs beside the engine and talks to it through two
//! queues: the engine names the directory to watch, the watcher reports
//! what changed in it. Here stand the events as the engine reads them and
//! the decisions on both sides of the queues.
use vstd::prelude::*;
use crate::resources::DirworldRootDir;

verus! {

/// Length of the window within which changes are merged, in milliseconds.
pub const DEBOUNCE_MILLIS: u64 = 500;

/// How a rename was seen.
#[derive(Clone, Copy, Debug, PartialEq, Eq, Structural)]
pub enum RenameMode {
    Any,
    /// The entry appeared under its new name.
    To,
    /// The entry left under its old name.
    From,
    /// Both names are known: the old one first, the new one second.
    Both,
    Other,
}

/// Which metadata changed.
#[derive(Clone, Copy, Debug, PartialEq, Eq, Structural)]
pub enum MetadataKind {
    Any,
    AccessTime,
    WriteTime,
    Permissions,
    Ownership,
    Extended,
    Other,
}

/// What was modified.
#[derive(Clone, Copy, Debug, PartialEq, Eq, Structural)]
pub enum ModifyKind {
    Any,
    Data,
    Metadata(MetadataKind),
    Name(RenameMode),
    Other,
}

/// What happened to the entries of an event.
#[derive(Clone, Copy, Debug, PartialEq, Eq, Structural)]
pub enum EventKind {
    Any,
    Access,
    Create,
    Modify(ModifyKind),
    Remove,
    Other,
}

/// Names the systems that serve the watcher.
#[derive(Clone, Copy, Debug, PartialEq, Eq, Hash, Structural)]
pub struct DirworldWatcherSet;

/// A change the watcher reports: what happened, and to which paths.
#[derive(Debug)]
pub struct DirworldWatcherEvent {
    pub kind: EventKind,
    pub paths: Vec<String>,
}

/// What the engine does with the queues on one tick.
#[derive(Debug)]
pub enum WatcherUpdate {
    /// Send the path to the watcher as the directory to watch.
    Watch(String),
    /// Take every waiting change off the queue and handle it.
    Drain,
    /// Nothing.
    Idle,
}

/// Decides what to do with the queues on this tick. `root_changed` says
/// whether the root was set since the last tick.
pub fn update(root_changed: bool, root_dir: &DirworldRootDir) -> (action: WatcherUpdate)
    ensures
        match action {
            WatcherUpdate::Watch(path) => root_changed && root_dir.0.is_some() && path@
                == root_dir.0.unwrap()@,
            WatcherUpdate::Idle => root_changed && root_dir.0.is_none(),
            WatcherUpdate::Drain => !root_changed,
        },
{
    if root_changed {
        match &root_dir.0 {
            Some(path) => WatcherUpdate::Watch(path.clone()),
            None => WatcherUpdate::Idle,
        }
    } else {
        WatcherUpdate::Drain
    }
}

/// What the watcher does when it is given a new directory: stop watching
/// `unwatch`, if there is one, then watch `watch`. `recursive` says whether
/// what lies below `watch` is watched too.
#[derive(Debug)]
pub struct WatchChange {
    pub unwatch: Option<String>,
    pub watch: String,
    pub recursive: bool,
}

/// The watcher's side: the directory it watches at the moment.
#[derive(Debug)]
pub struct FileWatcher {
    pub watched: Option<String>,
}

impl FileWatcher {
    /// A watcher that watches nothing yet.
    pub fn new() -> (watcher: FileWatcher)
        ensures
            watcher.watched.is_none(),
    {
        FileWatcher { watched: None }
    }

    /// Takes `root` as the directory to watch from now on, and says what to
    /// stop and what to start watching. Only the directory itself is
    /// watched: each room keeps to its own entries.
    pub fn change_root(&mut self, root: String) -> (change: WatchChange)
        ensures
            change.unwatch == old(self).watched,
            change.watch@ == root@,
            !change.recursive,
            final(self).watched == Some(root),
    {
        let watch = root.clone();
        let mut unwatch = Some(root);
        core::mem::swap(&mut self.watched, &mut unwatch);
        WatchChange { unwatch, watch, recursive: false }
    }
}

} // verus!
