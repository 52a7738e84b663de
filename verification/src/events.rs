//! What the engine is told, and what it tells.
use vstd::prelude::*;

verus! {

/// Told to collaborators when the engine has left or entered a room.
#[derive(Debug)]
pub enum DirworldNavigationEvent {
    /// A room was left.
    LeftRoom {
        /// Path of the room just left.
        path: String,
    },
    /// A room was entered.
    EnteredRoom {
        /// Path of the room just entered.
        path: String,
    },
}

/// Asks the engine to leave the room at the path.
#[derive(Debug)]
pub struct DirworldLeaveRoom(pub String);

/// Asks the engine to enter the room at the path.
#[derive(Debug)]
pub struct DirworldEnterRoom(pub String);

/// Asks the engine to root the world at the path.
#[derive(Debug)]
pub struct DirworldChangeRoot(pub String);

/// Asks an observer to materialise the node with this identity.
#[derive(Clone, Copy, Debug, PartialEq, Eq, Structural)]
pub struct DirworldSpawn(pub u64);

} // verus!
