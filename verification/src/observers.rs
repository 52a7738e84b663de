//! Leaving and entering rooms, and following the changes the watcher
//! reports.
use vstd::prelude::*;
use crate::cache::DirworldCache;
use crate::events::{DirworldChangeRoot, DirworldEnterRoom, DirworldLeaveRoom};
use crate::graph::{
    lemma_filter_one, spec_find_path, spec_staying, spec_without_subtree, LiveGraph, Node,
};
use crate::paths::{is_hidden, join, spec_is_hidden, spec_join};
use crate::payload::PayloadView;
use crate::preload::{load_entity, spec_load_step, LoadOutcome};
use crate::resources::{DirworldCurrentDir, DirworldRootDir};
use crate::text::same_text;
use crate::utils::{
    despawn_entity_by_path, extract_entity_payload, spec_extract, EntryRead, MarkerRead,
};
use crate::watcher::{DirworldWatcherEvent, EventKind, ModifyKind, RenameMode};
use crate::world::World;

verus! {

/// One entry of a directory listing: its path and what was read of it.
#[derive(Debug)]
pub struct ListedEntry {
    pub path: String,
    pub read: EntryRead,
}

/// Why a room could not be entered.
#[derive(Clone, Copy, Debug, PartialEq, Eq, Structural)]
pub enum EnterError {
    /// The directory could not be listed.
    DirectoryUnreadable,
    /// The graph has too few identities left for the entries of the room.
    OutOfIdentities,
}

/// What the cache holds once the first `upto` of `nodes` have been set
/// aside: each node that is not marked to persist and has a payload leaves
/// that payload under its path, a later node going before an earlier one.
pub open spec fn spec_set_aside(
    cache: Map<Seq<char>, PayloadView>,
    nodes: Seq<Node>,
    upto: int,
) -> Map<Seq<char>, PayloadView>
    decreases upto,
{
    if upto <= 0 || upto > nodes.len() {
        cache
    } else {
        let earlier = spec_set_aside(cache, nodes, upto - 1);
        let node = nodes[upto - 1];
        match node.entity.payload {
            Some(payload) if !node.persist => earlier.insert(node.entity.path@, payload@),
            _ => earlier,
        }
    }
}

/// Leaves the room: sets the payload of every node that is not marked to
/// persist aside under the node's path, as the node carries it now, then
/// removes each such node with all that stands below it. Hands back the
/// notice that the room was left.
pub fn navigate_from_room(world: &mut World, event: &DirworldLeaveRoom) -> (notice:
    DirworldLeaveRoom)
    requires
        old(world).wf(),
    ensures
        final(world).wf(),
        notice.0@ == event.0@,
        final(world).cache.spec_views() == spec_set_aside(
            old(world).cache.spec_views(),
            old(world).graph.nodes@,
            old(world).graph.nodes@.len() as int,
        ),
        final(world).graph.nodes@ == spec_staying(old(world).graph.nodes@),
        final(world).graph.next_id == old(world).graph.next_id,
        final(world).root_dir == old(world).root_dir,
        final(world).current_dir == old(world).current_dir,
        final(world).codecs == old(world).codecs,
        final(world).observers == old(world).observers,
        final(world).preload_state == old(world).preload_state,
        final(world).room_assets == old(world).room_assets,
{
    let mut at: usize = 0;
    while at < world.graph.nodes.len()
        invariant
            world.wf(),
            at <= world.graph.nodes@.len(),
            world.graph == old(world).graph,
            world.root_dir == old(world).root_dir,
            world.current_dir == old(world).current_dir,
            world.codecs == old(world).codecs,
            world.observers == old(world).observers,
            world.preload_state == old(world).preload_state,
            world.room_assets == old(world).room_assets,
            world.cache.spec_views() == spec_set_aside(
                old(world).cache.spec_views(),
                world.graph.nodes@,
                at as int,
            ),
        decreases world.graph.nodes@.len() - at,
    {
        if !world.graph.nodes[at].persist {
            world.cache.cache_entity(&world.graph.nodes[at].entity);
        }
        at = at + 1;
    }
    let _ = world.graph.despawn_transient();
    DirworldLeaveRoom(event.0.clone())
}

/// The test by which an entry of a listing is shown: it is not hidden.
pub open spec fn spec_shown() -> spec_fn(ListedEntry) -> bool {
    |entry: ListedEntry| !spec_is_hidden(entry.path@)
}

/// Whether a room has a way up: the world has a root, and the room is not
/// it.
pub open spec fn spec_has_way_up(root: DirworldRootDir, room: Seq<char>) -> bool {
    match root.0 {
        Some(path) => path@ != room,
        None => false,
    }
}

/// Whether `entries` are the entries of the room at `room`: the entries of
/// `listing` that are not hidden, in their order, followed, where the room
/// has a way up, by an entry for `..` with the parent's marker file.
pub open spec fn spec_is_room_entries(
    entries: Seq<ListedEntry>,
    root: DirworldRootDir,
    room: Seq<char>,
    listing: Seq<ListedEntry>,
    parent: MarkerRead,
) -> bool {
    let shown = listing.filter(spec_shown());
    if spec_has_way_up(root, room) {
        &&& entries.len() == shown.len() + 1
        &&& entries.drop_last() == shown
        &&& entries.last().path@ == spec_join(room, seq!['.', '.'])
        &&& entries.last().read == EntryRead::Folder(parent)
    } else {
        entries == shown
    }
}

/// Picks the entries of the room at `room` from its listing: leaves the
/// hidden ones out, and adds the way up where there is one.
pub fn room_entries(
    root: &DirworldRootDir,
    room: &str,
    listing: Vec<ListedEntry>,
    parent: MarkerRead,
) -> (entries: Vec<ListedEntry>)
    ensures
        spec_is_room_entries(entries@, *root, room@, listing@, parent),
        forall|i: int|
            0 <= i < listing@.filter(spec_shown()).len() ==> !spec_is_hidden(
                (#[trigger] entries@[i]).path@,
            ),
{
    let ghost keep = spec_shown();
    let mut entries = listing;
    let mut at: usize = entries.len();
    proof {
        assert(listing@.skip(at as int) =~= Seq::<ListedEntry>::empty());
        reveal(Seq::filter);
        assert(listing@.take(at as int) + listing@.skip(at as int).filter(keep) =~= listing@);
    }
    while at > 0
        invariant
            keep == spec_shown(),
            at <= listing@.len(),
            entries@ == listing@.take(at as int) + listing@.skip(at as int).filter(keep),
        decreases at,
    {
        let this: usize = at - 1;
        proof {
            let rest = listing@.skip(at as int);
            let one = seq![listing@[this as int]];
            assert(listing@.skip(this as int) =~= one + rest);
            Seq::filter_distributes_over_add(one, rest, keep);
            lemma_filter_one(listing@[this as int], keep);
            assert(listing@.take(at as int) =~= listing@.take(this as int) + one);
            assert(entries@[this as int] == listing@[this as int]);
        }
        if is_hidden(entries[this].path.as_str()) {
            let _ = entries.remove(this);
        }
        proof {
            assert(entries@ =~= listing@.take(this as int) + listing@.skip(this as int).filter(
                keep,
            ));
        }
        at = this;
    }
    proof {
        assert(listing@.skip(0) =~= listing@);
        assert(listing@.take(0) =~= Seq::<ListedEntry>::empty());
        assert(entries@ =~= listing@.filter(keep));
        broadcast use vstd::seq_lib::group_filter_ensures;

        assert forall|i: int| 0 <= i < listing@.filter(keep).len() implies !spec_is_hidden(
            (#[trigger] entries@[i]).path@,
        ) by {
            assert(keep(listing@.filter(keep)[i]));
        }
    }
    let way_up = match &root.0 {
        Some(path) => !same_text(path.as_str(), room),
        None => false,
    };
    if way_up {
        let ghost shown = entries@;
        proof {
            reveal_strlit("..");
            assert(".."@ =~= seq!['.', '.']);
        }
        entries.push(ListedEntry { path: join(room, ".."), read: EntryRead::Folder(parent) });
        proof {
            assert(entries@.drop_last() =~= shown);
        }
    }
    entries
}

/// Whether `worlds` are the states that making `entries` live one after the
/// other leads through, with `outcomes` as the answers.
pub open spec fn spec_load_chain(
    worlds: Seq<World>,
    entries: Seq<ListedEntry>,
    outcomes: Seq<LoadOutcome>,
) -> bool {
    &&& worlds.len() == entries.len() + 1
    &&& outcomes.len() == entries.len()
    &&& forall|k: int|
        0 <= k < entries.len() ==> spec_load_step(
            worlds[k],
            worlds[k + 1],
            entries[k].path@,
            entries[k].read,
            #[trigger] outcomes[k],
        )
}

/// Whether making `entries` live one after the other turns `before` into
/// `after`, with `outcomes` as the answers.
pub open spec fn spec_loaded_all(
    before: World,
    after: World,
    entries: Seq<ListedEntry>,
    outcomes: Seq<LoadOutcome>,
) -> bool {
    exists|worlds: Seq<World>|
        spec_load_chain(worlds, entries, outcomes) && worlds[0] == before && worlds.last()
            == after
}

/// Whether every read of `entries` is well formed.
pub open spec fn spec_entries_wf(entries: Seq<ListedEntry>) -> bool {
    forall|i: int| 0 <= i < entries.len() ==> (#[trigger] entries[i]).read.wf()
}

/// Makes `entries` live, one after the other.
pub fn load_all(world: &mut World, entries: Vec<ListedEntry>) -> (outcomes: Vec<LoadOutcome>)
    requires
        old(world).wf(),
        spec_entries_wf(entries@),
        old(world).graph.next_id + entries@.len() <= u64::MAX,
    ensures
        final(world).wf(),
        spec_loaded_all(*old(world), *final(world), entries@, outcomes@),
        final(world).graph.next_id == old(world).graph.next_id + entries@.len(),
        final(world).graph.nodes@.len() == old(world).graph.nodes@.len() + entries@.len(),
        final(world).root_dir == old(world).root_dir,
        final(world).current_dir == old(world).current_dir,
        final(world).codecs == old(world).codecs,
        final(world).observers == old(world).observers,
{
    let ghost wanted = entries@;
    let total: usize = entries.len();
    let ghost mut worlds: Seq<World> = seq![*world];
    let mut left = entries;
    let mut outcomes: Vec<LoadOutcome> = Vec::new();
    let mut done: usize = 0;
    while left.len() > 0
        invariant
            world.wf(),
            spec_entries_wf(wanted),
            wanted.len() == total,
            done <= wanted.len(),
            world.root_dir == old(world).root_dir,
            world.current_dir == old(world).current_dir,
            world.codecs == old(world).codecs,
            world.observers == old(world).observers,
            left@ == wanted.skip(done as int),
            outcomes@.len() == done,
            worlds.len() == done + 1,
            worlds[0] == *old(world),
            worlds.last() == *world,
            world.graph.next_id == old(world).graph.next_id + done,
            world.graph.nodes@.len() == old(world).graph.nodes@.len() + done,
            old(world).graph.next_id + wanted.len() <= u64::MAX,
            forall|k: int|
                0 <= k < done ==> spec_load_step(
                    worlds[k],
                    worlds[k + 1],
                    wanted[k].path@,
                    wanted[k].read,
                    #[trigger] outcomes@[k],
                ),
        decreases left@.len(),
    {
        let entry = left.remove(0);
        proof {
            assert(entry == wanted[done as int]);
            assert(left@ =~= wanted.skip(done + 1));
        }
        let ghost earlier = worlds;
        let ghost answers = outcomes@;
        let outcome = load_entity(world, entry.path.as_str(), entry.read);
        outcomes.push(outcome);
        proof {
            worlds = worlds.push(*world);
            assert forall|k: int| 0 <= k < done + 1 implies spec_load_step(
                worlds[k],
                worlds[k + 1],
                wanted[k].path@,
                wanted[k].read,
                #[trigger] outcomes@[k],
            ) by {
                if k < done {
                    assert(worlds[k] == earlier[k]);
                    assert(worlds[k + 1] == earlier[k + 1]);
                    assert(outcomes@[k] == answers[k]);
                }
            }
        }
        done = done + 1;
    }
    proof {
        assert(wanted.skip(done as int).len() == 0);
        assert(spec_load_chain(worlds, wanted, outcomes@));
    }
    outcomes
}

/// What entering a room gave: the answer to each entry made live, and the
/// notice that the room was entered.
#[derive(Debug)]
pub struct EnterOutcome {
    pub loaded: Vec<LoadOutcome>,
    pub notice: DirworldEnterRoom,
}

/// Enters the room at the path of `event`.
///
/// `room` is what reading the room's own marker file gave, `listing` the
/// entries of the directory with what was read of each, or `None` where the
/// directory could not be listed, and `parent` what reading the marker file
/// of the directory above gave.
///
/// Where the directory could not be listed nothing changes. Otherwise the
/// room becomes the current one, with the payload of its marker file, and
/// its entries go live in order: those of the listing that are not hidden,
/// then the way up, where the room is not the root.
pub fn navigate_to_room(
    world: &mut World,
    event: &DirworldEnterRoom,
    room: MarkerRead,
    listing: Option<Vec<ListedEntry>>,
    parent: MarkerRead,
) -> (outcome: Result<EnterOutcome, EnterError>)
    requires
        old(world).wf(),
        EntryRead::Folder(room).wf(),
        EntryRead::Folder(parent).wf(),
        listing.is_some() ==> spec_entries_wf(listing.unwrap()@),
    ensures
        final(world).wf(),
        match outcome {
            Ok(entered) => listing.is_some() && entered.notice.0@ == event.0@ && final(world).current_dir.path@ == event.0@ && final(world).current_dir.payload == spec_extract(
                EntryRead::Folder(room),
            ).0 && exists|entries: Seq<ListedEntry>|
                #[trigger] spec_is_room_entries(
                    entries,
                    old(world).root_dir,
                    event.0@,
                    listing.unwrap()@,
                    parent,
                ) && spec_loaded_all(
                    World { current_dir: final(world).current_dir, ..*old(world) },
                    *final(world),
                    entries,
                    entered.loaded@,
                ),
            Err(EnterError::DirectoryUnreadable) => listing.is_none() && *final(world) == *old(world),
            Err(EnterError::OutOfIdentities) => listing.is_some() && *final(world) == *old(world)
                && old(world).graph.next_id + listing.unwrap()@.len() + 1 > u64::MAX,
        },
{
    let found = match listing {
        Some(found) => found,
        None => {
            return Err(EnterError::DirectoryUnreadable);
        },
    };
    if found.len() as u64 >= u64::MAX - world.graph.next_id {
        return Err(EnterError::OutOfIdentities);
    }
    proof {
        broadcast use vstd::seq_lib::group_filter_ensures;

    }
    let entries = room_entries(&world.root_dir, event.0.as_str(), found, parent);
    proof {
        found@.lemma_filter_len(spec_shown());
        assert forall|i: int| 0 <= i < entries@.len() implies (#[trigger] entries@[i]).read.wf() by {
            let shown = found@.filter(spec_shown());
            if i < shown.len() {
                crate::graph::lemma_filter_subset(found@, spec_shown(), i);
                if spec_has_way_up(world.root_dir, event.0@) {
                    assert(entries@.drop_last()[i] == shown[i]);
                }
            }
        }
    }
    let (payload, _) = extract_entity_payload(EntryRead::Folder(room));
    world.current_dir = DirworldCurrentDir { path: event.0.clone(), payload };
    let ghost chosen = entries@;
    let ghost entered = *world;
    let loaded = load_all(world, entries);
    proof {
        assert(entered == World { current_dir: world.current_dir, ..*old(world) });
        assert(spec_is_room_entries(chosen, old(world).root_dir, event.0@, found@, parent));
        assert(spec_loaded_all(entered, *world, chosen, loaded@));
    }
    Ok(EnterOutcome { loaded, notice: DirworldEnterRoom(event.0.clone()) })
}

/// What the engine does about a change the watcher reports.
#[derive(Clone, Copy, Debug, PartialEq, Eq, Structural)]
pub enum ChangeClass {
    /// Remove the node of each path.
    DespawnAll,
    /// Make each path live.
    LoadAll,
    /// Remove the node of the first path, make the second path live.
    Rename,
    /// Remove the node of the first path, then make that path live again.
    Refresh,
    /// Nothing.
    Ignore,
}

/// What the engine does about a change of `kind`: an entry that was removed
/// or renamed away loses its node, one that was created or renamed in gets
/// one, a rename of which both names are known does both, and a change of
/// metadata, of whatever kind, refreshes the node. Every other kind is
/// ignored.
pub open spec fn spec_change_class(kind: EventKind) -> ChangeClass {
    match kind {
        EventKind::Remove => ChangeClass::DespawnAll,
        EventKind::Modify(ModifyKind::Name(RenameMode::From)) => ChangeClass::DespawnAll,
        EventKind::Create => ChangeClass::LoadAll,
        EventKind::Modify(ModifyKind::Name(RenameMode::To)) => ChangeClass::LoadAll,
        EventKind::Modify(ModifyKind::Name(RenameMode::Both)) => ChangeClass::Rename,
        EventKind::Modify(ModifyKind::Metadata(_)) => ChangeClass::Refresh,
        _ => ChangeClass::Ignore,
    }
}

/// Tells what the engine does about a change of `kind`.
pub fn change_class(kind: EventKind) -> (class: ChangeClass)
    ensures
        class == spec_change_class(kind),
{
    match kind {
        EventKind::Remove => ChangeClass::DespawnAll,
        EventKind::Modify(ModifyKind::Name(RenameMode::From)) => ChangeClass::DespawnAll,
        EventKind::Create => ChangeClass::LoadAll,
        EventKind::Modify(ModifyKind::Name(RenameMode::To)) => ChangeClass::LoadAll,
        EventKind::Modify(ModifyKind::Name(RenameMode::Both)) => ChangeClass::Rename,
        EventKind::Modify(ModifyKind::Metadata(_)) => ChangeClass::Refresh,
        _ => ChangeClass::Ignore,
    }
}

/// Whether handling a change of `kind` makes entries live, so that the
/// paths of the event have to be read first.
pub open spec fn spec_needs_reads(kind: EventKind) -> bool {
    spec_change_class(kind) == ChangeClass::LoadAll || spec_change_class(kind)
        == ChangeClass::Rename || spec_change_class(kind) == ChangeClass::Refresh
}

/// Tells whether the paths of an event of `kind` have to be read before the
/// event is handled.
pub fn needs_reads(kind: EventKind) -> (needed: bool)
    ensures
        needed == spec_needs_reads(kind),
{
    match change_class(kind) {
        ChangeClass::LoadAll => true,
        ChangeClass::Rename => true,
        ChangeClass::Refresh => true,
        _ => false,
    }
}

/// The identity of the node that goes when the node of `path` is removed
/// from `nodes`.
pub open spec fn spec_despawned(nodes: Seq<Node>, path: Seq<char>) -> Option<u64> {
    match spec_find_path(nodes, path) {
        Some(at) => Some(nodes[at].id),
        None => None,
    }
}

/// `nodes` without the node of `path` and all that stands below it.
pub open spec fn spec_despawn_path(nodes: Seq<Node>, path: Seq<char>) -> Seq<Node> {
    match spec_find_path(nodes, path) {
        Some(at) => spec_without_subtree(nodes, nodes[at].id),
        None => nodes,
    }
}

/// `nodes` once the node of each of the first `upto` of `paths` has been
/// removed, one after the other.
pub open spec fn spec_despawn_all(nodes: Seq<Node>, paths: Seq<String>, upto: int) -> Seq<Node>
    decreases upto,
{
    if upto <= 0 || upto > paths.len() {
        nodes
    } else {
        spec_despawn_path(spec_despawn_all(nodes, paths, upto - 1), paths[upto - 1]@)
    }
}

/// Whether `after` is `before` without the node of `path`, with `despawned`
/// as the identity of that node.
pub open spec fn spec_despawn_step(
    before: World,
    after: World,
    path: Seq<char>,
    despawned: Option<u64>,
) -> bool {
    &&& despawned == spec_despawned(before.graph.nodes@, path)
    &&& after.graph.nodes@ == spec_despawn_path(before.graph.nodes@, path)
    &&& after.graph.next_id == before.graph.next_id
    &&& after.root_dir == before.root_dir
    &&& after.current_dir == before.current_dir
    &&& after.cache == before.cache
    &&& after.codecs == before.codecs
    &&& after.observers == before.observers
    &&& after.preload_state == before.preload_state
    &&& after.room_assets == before.room_assets
}

/// Whether `after` is `before` once the node of `gone` has been removed and
/// the entry at `come` made live.
pub open spec fn spec_replaced(
    before: World,
    after: World,
    gone: Seq<char>,
    come: Seq<char>,
    read: EntryRead,
    despawned: Option<u64>,
    outcome: LoadOutcome,
) -> bool {
    exists|between: World| #[trigger]
        spec_despawn_step(before, between, gone, despawned) && spec_load_step(
            between,
            after,
            come,
            read,
            outcome,
        )
}

/// The paths of an event, each with what was read of it.
pub open spec fn spec_zip(paths: Seq<String>, reads: Seq<EntryRead>) -> Seq<ListedEntry> {
    Seq::new(paths.len(), |i: int| ListedEntry { path: paths[i], read: reads[i] })
}

/// Pairs each path with what was read of it.
fn zip_entries(paths: &Vec<String>, reads: Vec<EntryRead>) -> (entries: Vec<ListedEntry>)
    requires
        paths@.len() == reads@.len(),
    ensures
        entries@ == spec_zip(paths@, reads@),
{
    let mut left = reads;
    let mut entries: Vec<ListedEntry> = Vec::new();
    let mut at: usize = 0;
    while at < paths.len()
        invariant
            at <= paths@.len(),
            paths@.len() == reads@.len(),
            left@ == reads@.skip(at as int),
            entries@.len() == at,
            forall|i: int|
                0 <= i < at ==> entries@[i] == (ListedEntry { path: paths@[i], read: reads@[i] }),
        decreases paths@.len() - at,
    {
        let read = left.remove(0);
        proof {
            assert(read == reads@[at as int]);
            assert(left@ =~= reads@.skip(at + 1));
        }
        entries.push(ListedEntry { path: paths[at].clone(), read });
        at = at + 1;
    }
    proof {
        assert(entries@ =~= spec_zip(paths@, reads@));
    }
    entries
}

/// Removes the node of each of `paths`, one after the other, and hands back
/// the identity of each node that went, `None` where a path had no node.
pub fn despawn_all(graph: &mut LiveGraph, paths: &Vec<String>) -> (despawned: Vec<Option<u64>>)
    requires
        old(graph).wf(),
    ensures
        final(graph).wf(),
        final(graph).next_id == old(graph).next_id,
        final(graph).nodes@ == spec_despawn_all(old(graph).nodes@, paths@, paths@.len() as int),
        despawned@.len() == paths@.len(),
        forall|k: int|
            0 <= k < paths@.len() ==> #[trigger] despawned@[k] == spec_despawned(
                spec_despawn_all(old(graph).nodes@, paths@, k),
                paths@[k]@,
            ),
{
    let mut despawned: Vec<Option<u64>> = Vec::new();
    let mut at: usize = 0;
    while at < paths.len()
        invariant
            graph.wf(),
            at <= paths@.len(),
            graph.next_id == old(graph).next_id,
            graph.nodes@ == spec_despawn_all(old(graph).nodes@, paths@, at as int),
            despawned@.len() == at,
            forall|k: int|
                0 <= k < at ==> #[trigger] despawned@[k] == spec_despawned(
                    spec_despawn_all(old(graph).nodes@, paths@, k),
                    paths@[k]@,
                ),
        decreases paths@.len() - at,
    {
        let gone = despawn_entity_by_path(graph, paths[at].as_str());
        despawned.push(gone);
        at = at + 1;
    }
    despawned
}

/// What handling a change gave: the identity of each node that went, in the
/// order of the removals, and the answer to each entry made live.
#[derive(Debug)]
pub struct ChangeOutcome {
    pub despawned: Vec<Option<u64>>,
    pub loaded: Vec<LoadOutcome>,
}

/// Whether an event can be handled as it stands: a rename names both paths,
/// a refresh names one, and where entries are made live, each path comes
/// with what was read of it and the graph, whose next identity is
/// `next_id`, has an identity left for each new node.
pub open spec fn spec_well_formed_change(
    kind: EventKind,
    paths: Seq<String>,
    reads: Seq<EntryRead>,
    next_id: u64,
) -> bool {
    match spec_change_class(kind) {
        ChangeClass::DespawnAll => true,
        ChangeClass::LoadAll => reads.len() == paths.len() && next_id + paths.len() <= u64::MAX,
        ChangeClass::Rename => reads.len() == paths.len() && paths.len() >= 2 && next_id
            < u64::MAX,
        ChangeClass::Refresh => reads.len() == paths.len() && paths.len() >= 1 && next_id
            < u64::MAX,
        ChangeClass::Ignore => true,
    }
}

/// Whether `after` and `outcome` are what handling the change turns
/// `before` into.
pub open spec fn spec_handled(
    before: World,
    after: World,
    kind: EventKind,
    paths: Seq<String>,
    reads: Seq<EntryRead>,
    outcome: ChangeOutcome,
) -> bool {
    if !spec_well_formed_change(kind, paths, reads, before.graph.next_id) {
        after == before && outcome.despawned@.len() == 0 && outcome.loaded@.len() == 0
    } else {
        match spec_change_class(kind) {
            ChangeClass::DespawnAll => {
                &&& outcome.loaded@.len() == 0
                &&& outcome.despawned@.len() == paths.len()
                &&& forall|k: int|
                    0 <= k < paths.len() ==> #[trigger] outcome.despawned@[k] == spec_despawned(
                        spec_despawn_all(before.graph.nodes@, paths, k),
                        paths[k]@,
                    )
                &&& after.graph.nodes@ == spec_despawn_all(
                    before.graph.nodes@,
                    paths,
                    paths.len() as int,
                )
                &&& after.graph.next_id == before.graph.next_id
                &&& after.root_dir == before.root_dir
                &&& after.current_dir == before.current_dir
                &&& after.cache == before.cache
                &&& after.codecs == before.codecs
                &&& after.observers == before.observers
                &&& after.preload_state == before.preload_state
                &&& after.room_assets == before.room_assets
            },
            ChangeClass::LoadAll => {
                &&& outcome.despawned@.len() == 0
                &&& spec_loaded_all(before, after, spec_zip(paths, reads), outcome.loaded@)
            },
            ChangeClass::Rename => {
                &&& outcome.despawned@.len() == 1
                &&& outcome.loaded@.len() == 1
                &&& spec_replaced(
                    before,
                    after,
                    paths[0]@,
                    paths[1]@,
                    reads[1],
                    outcome.despawned@[0],
                    outcome.loaded@[0],
                )
            },
            ChangeClass::Refresh => {
                &&& outcome.despawned@.len() == 1
                &&& outcome.loaded@.len() == 1
                &&& spec_replaced(
                    before,
                    after,
                    paths[0]@,
                    paths[0]@,
                    reads[0],
                    outcome.despawned@[0],
                    outcome.loaded@[0],
                )
            },
            ChangeClass::Ignore => after == before && outcome.despawned@.len() == 0
                && outcome.loaded@.len() == 0,
        }
    }
}

/// Removes the node of `gone`, then makes the entry at `come` live.
fn replace_entity(world: &mut World, gone: &str, come: &str, read: EntryRead) -> (outcome:
    ChangeOutcome)
    requires
        old(world).wf(),
        read.wf(),
        old(world).graph.next_id < u64::MAX,
    ensures
        final(world).wf(),
        outcome.despawned@.len() == 1,
        outcome.loaded@.len() == 1,
        spec_replaced(
            *old(world),
            *final(world),
            gone@,
            come@,
            read,
            outcome.despawned@[0],
            outcome.loaded@[0],
        ),
{
    let went = despawn_entity_by_path(&mut world.graph, gone);
    let ghost between = *world;
    let came = load_entity(world, come, read);
    proof {
        assert(spec_despawn_step(*old(world), between, gone@, went));
    }
    let mut despawned: Vec<Option<u64>> = Vec::new();
    despawned.push(went);
    let mut loaded: Vec<LoadOutcome> = Vec::new();
    loaded.push(came);
    ChangeOutcome { despawned, loaded }
}

/// Follows a change the watcher reports. `reads` holds, for an event whose
/// kind makes entries live, what was read of each of its paths, in their
/// order.
///
/// A removed entry, or one renamed away, loses its node; where no node has
/// its path nothing goes. A created entry, or one renamed in, is made live.
/// A rename with both names removes the node of the old name and makes the
/// new name live. A change of metadata removes the node of the first path
/// and makes that path live again. Every other kind, and an event that
/// lacks a path or a read it needs, or for which the graph has too few
/// identities left, leaves the world as it is.
pub fn handle_changes(world: &mut World, event: &DirworldWatcherEvent, reads: Vec<EntryRead>) -> (outcome:
    ChangeOutcome)
    requires
        old(world).wf(),
        forall|i: int| 0 <= i < reads@.len() ==> (#[trigger] reads@[i]).wf(),
    ensures
        final(world).wf(),
        spec_handled(*old(world), *final(world), event.kind, event.paths@, reads@, outcome),
{
    let class = change_class(event.kind);
    let paths = &event.paths;
    match class {
        ChangeClass::DespawnAll => {
            let despawned = despawn_all(&mut world.graph, paths);
            ChangeOutcome { despawned, loaded: Vec::new() }
        },
        ChangeClass::LoadAll => {
            if reads.len() != paths.len() || paths.len() as u64 > u64::MAX
                - world.graph.next_id {
                return ChangeOutcome { despawned: Vec::new(), loaded: Vec::new() };
            }
            let entries = zip_entries(paths, reads);
            let loaded = load_all(world, entries);
            ChangeOutcome { despawned: Vec::new(), loaded }
        },
        ChangeClass::Rename => {
            if reads.len() != paths.len() || paths.len() < 2 || world.graph.next_id
                == u64::MAX {
                return ChangeOutcome { despawned: Vec::new(), loaded: Vec::new() };
            }
            let mut left = reads;
            let read = left.swap_remove(1);
            replace_entity(world, paths[0].as_str(), paths[1].as_str(), read)
        },
        ChangeClass::Refresh => {
            if reads.len() != paths.len() || paths.len() < 1 || world.graph.next_id
                == u64::MAX {
                return ChangeOutcome { despawned: Vec::new(), loaded: Vec::new() };
            }
            let mut left = reads;
            let read = left.swap_remove(0);
            replace_entity(world, paths[0].as_str(), paths[0].as_str(), read)
        },
        ChangeClass::Ignore => ChangeOutcome { despawned: Vec::new(), loaded: Vec::new() },
    }
}

/// What changing the root asks for next: leaving the old root, where there
/// was one, then entering the new one.
#[derive(Debug)]
pub struct RootChange {
    pub leave: Option<DirworldLeaveRoom>,
    pub enter: DirworldEnterRoom,
}

/// Roots the world at the path of `event`.
pub fn change_root(world: &mut World, event: &DirworldChangeRoot) -> (change: RootChange)
    ensures
        final(world).root_dir.0.is_some(),
        final(world).root_dir.0.unwrap()@ == event.0@,
        change.enter.0@ == event.0@,
        match old(world).root_dir.0 {
            Some(path) => change.leave.is_some() && change.leave.unwrap().0@ == path@,
            None => change.leave.is_none(),
        },
        final(world).current_dir == old(world).current_dir,
        final(world).cache == old(world).cache,
        final(world).codecs == old(world).codecs,
        final(world).observers == old(world).observers,
        final(world).graph == old(world).graph,
        final(world).preload_state == old(world).preload_state,
        final(world).room_assets == old(world).room_assets,
{
    let leave = match &world.root_dir.0 {
        Some(path) => Some(DirworldLeaveRoom(path.clone())),
        None => None,
    };
    world.root_dir = DirworldRootDir(Some(event.0.clone()));
    RootChange { leave, enter: DirworldEnterRoom(event.0.clone()) }
}

} // verus!
