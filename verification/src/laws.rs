//! What holds of the engine as a whole.
use vstd::prelude::*;
use crate::archive::ArchiveError;
use crate::commands::{
    spec_key_label, spec_lock_removal, spec_lock_yield, spec_locked_payload,
    spec_relationships, spec_unlock_yield, spec_unlocked_payload, LockedDoor, UnlockError,
    UnlockedDoor,
};
use crate::graph::{
    lemma_filter_subset, lemma_path_index, lemma_without_subtree, spec_find_path,
    spec_in_subtree, spec_nodes_wf, spec_outside, spec_path_index_from, Node,
};
use crate::observers::{
    spec_change_class, spec_despawn_path, spec_despawn_step, spec_despawned, spec_handled,
    spec_has_way_up, spec_is_room_entries, spec_load_chain, spec_loaded_all, spec_shown,
    spec_well_formed_change, ChangeClass, ChangeOutcome, ListedEntry,
};
use crate::watcher::EventKind;
use crate::paths::{
    lemma_component_found, lemma_component_start, lemma_dot_from, lemma_no_dot_from,
    lemma_trimmed_len, separator, spec_component_start, spec_extensions, spec_file_name,
    spec_is_hidden, spec_is_navigation, spec_join, spec_last_component, spec_name_extensions,
    spec_name_stem, spec_no_extensions, spec_stem_len, spec_trimmed_len,
};
use crate::payload::components::Transform;
use crate::payload::PayloadView;
use crate::preload::{spec_load_step, LoadOutcome};
use crate::resources::DirworldRootDir;
use crate::utils::{spec_extract, EntryRead, MarkerRead};
use crate::world::World;

verus! {

/// A payload set aside goes before the one on disk, and is used once: when
/// an entry whose path has a payload in the cache is made live, its node
/// carries that payload, whatever was read from disk, and the cache holds
/// nothing for the path afterwards.
pub proof fn law_cache_precedence(
    before: World,
    after: World,
    entry: Seq<char>,
    read: EntryRead,
    outcome: LoadOutcome,
)
    requires
        spec_load_step(before, after, entry, read, outcome),
        before.cache@.contains_key(entry),
    ensures
        after.graph.nodes@.last().entity.payload == Some(before.cache@[entry]),
        !after.cache@.contains_key(entry),
{
}

/// Removing the node of a path twice is safe: where every node with the
/// path stands in the subtree of the first of them, the second removal
/// finds no node and changes nothing.
pub proof fn law_despawn_idempotent(nodes: Seq<Node>, next_id: u64, path: Seq<char>)
    requires
        spec_nodes_wf(nodes, next_id),
        forall|i: int|
            0 <= i < nodes.len() && nodes[i].entity.path@ == path ==> spec_find_path(
                nodes,
                path,
            ).is_some() && spec_in_subtree(
                nodes,
                nodes[spec_find_path(nodes, path).unwrap()].id,
                #[trigger] nodes[i].id,
            ),
    ensures
        spec_despawned(spec_despawn_path(nodes, path), path).is_none(),
        spec_despawn_path(spec_despawn_path(nodes, path), path) == spec_despawn_path(nodes, path),
{
    broadcast use vstd::seq_lib::group_filter_ensures;

    let left = spec_despawn_path(nodes, path);
    lemma_path_index(nodes, path, 0);
    lemma_path_index(left, path, 0);
    match spec_find_path(nodes, path) {
        Some(first) => {
            let root = nodes[first].id;
            let keep = spec_outside(nodes, root);
            let found = spec_path_index_from(left, path, 0);
            if found < left.len() {
                lemma_filter_subset(nodes, keep, found);
                let at = choose|at: int| 0 <= at < nodes.len() && nodes[at] == left[found];
                assert(keep(left[found]));
                assert(spec_in_subtree(nodes, root, nodes[at].id));
            }
        },
        None => {},
    }
}

/// Unlocking undoes what locking did to a payload, but for the digest of
/// the key: the payload of an entry that was locked and unlocked again is
/// the payload it had, except that it has relationships even where it had
/// none, and that nothing is recorded under the key label. While the entry
/// is locked, the digest of the key is recorded there.
pub proof fn law_unlock_inverts_lock(payload: PayloadView, digest: u128)
    ensures
        spec_relationships(spec_locked_payload(payload, digest)).contains_key(spec_key_label()),
        spec_relationships(spec_locked_payload(payload, digest))[spec_key_label()] == digest,
        spec_unlocked_payload(spec_locked_payload(payload, digest)) == (PayloadView {
            relationships: Some(spec_relationships(payload).remove(spec_key_label())),
            ..payload
        }),
        !spec_relationships(
            spec_unlocked_payload(spec_locked_payload(payload, digest)),
        ).contains_key(spec_key_label()),
{
    let locked = spec_locked_payload(payload, digest);
    assert(spec_relationships(payload).insert(spec_key_label(), digest).remove(spec_key_label())
        =~= spec_relationships(payload).remove(spec_key_label()));
}

/// The way up out of a room is no hidden entry.
pub proof fn lemma_way_up_shown(room: Seq<char>)
    ensures
        !spec_is_hidden(spec_join(room, seq!['.', '.'])),
{
    let up = seq!['.', '.'];
    let joined = spec_join(room, up);
    let len = joined.len() as int;
    assert(joined[len - 1] == '.');
    assert(joined[len - 2] == '.');
    assert(spec_trimmed_len(joined) == len);
    assert(spec_component_start(joined, len) == spec_component_start(joined, len - 1));
    assert(spec_component_start(joined, len - 1) == spec_component_start(joined, len - 2));
    if len - 2 > 0 {
        assert(joined[len - 3] == separator());
    }
    assert(spec_component_start(joined, len - 2) == len - 2);
    assert(spec_last_component(joined) =~= up);
    assert(spec_is_navigation(up));
    assert(spec_file_name(joined).is_none());
}

/// The entries of a room never hold a hidden entry: no entry that goes live
/// when a room is entered has a name that starts with a dot.
pub proof fn law_dotfiles_excluded(
    entries: Seq<ListedEntry>,
    root: DirworldRootDir,
    room: Seq<char>,
    listing: Seq<ListedEntry>,
    parent: MarkerRead,
)
    requires
        spec_is_room_entries(entries, root, room, listing, parent),
    ensures
        forall|i: int| 0 <= i < entries.len() ==> !spec_is_hidden((#[trigger] entries[i]).path@),
{
    broadcast use vstd::seq_lib::group_filter_ensures;

    let shown = listing.filter(spec_shown());
    assert forall|i: int| 0 <= i < entries.len() implies !spec_is_hidden(
        (#[trigger] entries[i]).path@,
    ) by {
        if i < shown.len() {
            assert(spec_shown()(shown[i]));
            if spec_has_way_up(root, room) {
                assert(entries.drop_last()[i] == entries[i]);
            }
        } else {
            lemma_way_up_shown(room);
        }
    }
}

/// A name is its stem, a dot and its extensions, where it has extensions,
/// and its stem alone where it has none.
pub proof fn law_name_parts(name: Seq<char>)
    requires
        name.len() > 0,
    ensures
        match spec_name_extensions(name) {
            Some(extensions) => name == spec_name_stem(name) + seq!['.'] + extensions,
            None => name == spec_name_stem(name),
        },
{
    lemma_dot_from(name, 1);
    let stem = spec_stem_len(name);
    if stem < name.len() {
        assert(name =~= name.subrange(0, stem) + seq!['.'] + name.subrange(
            stem + 1,
            name.len() as int,
        ));
    } else {
        assert(name =~= name.subrange(0, stem));
    }
}

/// A path with its extensions removed has none left.
pub proof fn law_no_extensions_left(path: Seq<char>)
    ensures
        spec_extensions(spec_no_extensions(path)).is_none(),
{
    match spec_file_name(path) {
        None => {},
        Some(name) => {
            let end = spec_trimmed_len(path);
            lemma_trimmed_len(path);
            lemma_component_start(path, end);
            let start = spec_component_start(path, end);
            assert(name == path.subrange(start, end));
            lemma_dot_from(name, 1);
            let stem = spec_stem_len(name);
            let cut = path.subrange(0, start + stem);
            assert(cut.len() == start + stem);
            assert(cut[start + stem - 1] == name[stem - 1]);
            assert(name[stem - 1] == path[start + stem - 1]);
            assert(spec_trimmed_len(cut) == cut.len());
            assert forall|i: int| start <= i < start + stem implies cut[i] != separator() by {
                assert(cut[i] == path[i]);
            }
            if start > 0 {
                assert(cut[start - 1] == path[start - 1]);
            }
            lemma_component_found(cut, start, start + stem);
            let short = name.subrange(0, stem);
            assert(spec_last_component(cut) =~= short);
            if !spec_is_navigation(short) {
                assert(spec_file_name(cut) == Some(short));
                assert forall|i: int| 1 <= i < short.len() implies short[i] != '.' by {
                    assert(short[i] == name[i]);
                }
                lemma_no_dot_from(short, 1);
            }
        },
    }
}

/// A failed lock hands no command to the engine and removes nothing:
/// commands come only from a job whose computing part succeeded, whose
/// archive was written and whose directory was removed, and the directory
/// is asked to be removed only once the archive was written. So a cipher
/// that fails, or an archive that cannot be written, leaves the directory
/// and enqueues nothing.
pub proof fn law_failed_lock_yields_nothing(
    run: Result<LockedDoor, ArchiveError>,
    written: bool,
    removed: bool,
)
    ensures
        spec_lock_yield(run, written, removed).is_some() == (run.is_ok() && written && removed),
        spec_lock_removal(run, written).is_some() == (run.is_ok() && written),
        spec_lock_yield(run, written, removed).is_some() ==> spec_lock_yield(
            run,
            written,
            removed,
        ) == Some(run.unwrap().commands) && spec_lock_removal(run, written) == Some(
            run.unwrap().remove,
        ),
{
}

/// A failed unlock restores nothing and hands no command to the engine:
/// that happens only where the computing part succeeded, the archive was
/// unpacked and the archive file was removed.
pub proof fn law_failed_unlock_yields_nothing(
    run: Result<UnlockedDoor, UnlockError>,
    unpacked: bool,
    removed: bool,
)
    ensures
        spec_unlock_yield(run, unpacked, removed).is_some() ==> run.is_ok() && unpacked && removed,
        run.is_ok() && unpacked && removed ==> spec_unlock_yield(run, unpacked, removed)
            == run.unwrap().restored,
{
}

/// Along a chain of states that making entries live leads through, state
/// `upto` holds the nodes of the first state, in their places, followed by
/// one node for each of the first `upto` entries, in the order of the
/// entries, each with the path of its entry and the next identity.
pub proof fn lemma_load_chain(
    worlds: Seq<World>,
    entries: Seq<ListedEntry>,
    outcomes: Seq<LoadOutcome>,
    upto: int,
)
    requires
        spec_load_chain(worlds, entries, outcomes),
        0 <= upto <= entries.len(),
    ensures
        worlds[upto].graph.nodes@.len() == worlds[0].graph.nodes@.len() + upto,
        worlds[upto].graph.next_id == worlds[0].graph.next_id + upto,
        worlds[upto].graph.nodes@.take(worlds[0].graph.nodes@.len() as int)
            == worlds[0].graph.nodes@,
        forall|k: int|
            0 <= k < upto ==> (#[trigger] worlds[upto].graph.nodes@[worlds[0].graph.nodes@.len()
                + k]).entity.path@ == entries[k].path@ && worlds[upto].graph.nodes@[
                worlds[0].graph.nodes@.len() + k].id == worlds[0].graph.next_id + k
                && outcomes[k].entity == worlds[0].graph.next_id + k,
    decreases upto,
{
    let base = worlds[0].graph.nodes@.len() as int;
    if upto == 0 {
        assert(worlds[0].graph.nodes@.take(base) =~= worlds[0].graph.nodes@);
    } else {
        lemma_load_chain(worlds, entries, outcomes, upto - 1);
        let before = worlds[upto - 1];
        let after = worlds[upto];
        assert(spec_load_step(
            before,
            after,
            entries[upto - 1].path@,
            entries[upto - 1].read,
            outcomes[upto - 1],
        ));
        assert(after.graph.nodes@.drop_last() == before.graph.nodes@);
        assert forall|k: int| 0 <= k < base + upto - 1 implies after.graph.nodes@[k]
            == before.graph.nodes@[k] by {
            assert(after.graph.nodes@.drop_last()[k] == after.graph.nodes@[k]);
        }
        assert(after.graph.nodes@.take(base) =~= before.graph.nodes@.take(base));
        assert(after.graph.nodes@.last() == after.graph.nodes@[base + upto - 1]);
    }
}

/// Making entries live adds exactly one node for each entry: the nodes that
/// were live stay as they were, and behind them stands one node for each
/// entry, in the order of the entries, with the entry's path.
pub proof fn law_each_entry_goes_live_once(
    before: World,
    after: World,
    entries: Seq<ListedEntry>,
    outcomes: Seq<LoadOutcome>,
)
    requires
        spec_loaded_all(before, after, entries, outcomes),
    ensures
        after.graph.nodes@.len() == before.graph.nodes@.len() + entries.len(),
        after.graph.nodes@.take(before.graph.nodes@.len() as int) == before.graph.nodes@,
        forall|k: int|
            0 <= k < entries.len() ==> (#[trigger] after.graph.nodes@[before.graph.nodes@.len()
                + k]).entity.path@ == entries[k].path@,
{
    let worlds = choose|worlds: Seq<World>|
        spec_load_chain(worlds, entries, outcomes) && worlds[0] == before && worlds.last()
            == after;
    lemma_load_chain(worlds, entries, outcomes, entries.len() as int);
}

/// A rename of which both names are known removes one node and adds one:
/// the first node with the old path goes, with all that stands below it
/// (nothing goes where no node has that path), and exactly one node is
/// added, with the new path.
pub proof fn law_rename_one_out_one_in(
    before: World,
    after: World,
    kind: EventKind,
    paths: Seq<String>,
    reads: Seq<EntryRead>,
    outcome: ChangeOutcome,
)
    requires
        spec_handled(before, after, kind, paths, reads, outcome),
        spec_change_class(kind) == ChangeClass::Rename,
        spec_well_formed_change(kind, paths, reads, before.graph.next_id),
    ensures
        outcome.despawned@.len() == 1,
        outcome.despawned@[0] == spec_despawned(before.graph.nodes@, paths[0]@),
        outcome.loaded@.len() == 1,
        after.graph.nodes@.len() == spec_despawn_path(before.graph.nodes@, paths[0]@).len() + 1,
        after.graph.nodes@.drop_last() == spec_despawn_path(before.graph.nodes@, paths[0]@),
        after.graph.nodes@.last().entity.path@ == paths[1]@,
{
    let between = choose|between: World| #[trigger]
        spec_despawn_step(before, between, paths[0]@, outcome.despawned@[0]) && spec_load_step(
            between,
            after,
            paths[1]@,
            reads[1],
            outcome.loaded@[0],
        );
}

/// An entry for which nothing is set aside and nothing was found on disk
/// goes live without payload, at the identity transform: so does a folder
/// without marker file, and a file for which no codec is registered. The
/// observer of its kind, where there is one, gets what was left of the
/// file as data: all of it for a file without codec, nothing for a folder.
pub proof fn law_entry_without_payload(
    before: World,
    after: World,
    entry: Seq<char>,
    read: EntryRead,
    outcome: LoadOutcome,
)
    requires
        spec_load_step(before, after, entry, read, outcome),
        !before.cache@.contains_key(entry),
        read == EntryRead::Folder(MarkerRead::Missing) || (read is File && read->raw.is_some()
            && read->decoded.is_none()),
    ensures
        after.graph.nodes@.len() == before.graph.nodes@.len() + 1,
        after.graph.nodes@.last().entity.path@ == entry,
        after.graph.nodes@.last().entity.payload.is_none(),
        after.graph.nodes@.last().transform == Transform::spec_identity(),
        outcome.preload.is_some() ==> outcome.preload.unwrap().event.data == (if read is Folder {
            None
        } else {
            read->raw
        }),
{
}

} // verus!
