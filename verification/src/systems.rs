//! What the engine does on every tick besides reconciling.
use vstd::prelude::*;
use crate::components::DirworldEntity;
use crate::graph::{
    lemma_node_index, lemma_same_shape_wf, spec_has_node, spec_node_index, LiveGraph, Node,
};
use crate::payload::components::Transform;
use crate::payload::DirworldEntityPayload;
use crate::resources::{DirworldTasks, TaskState};
use crate::text_map::{has_key, index_of};

verus! {

/// The commands of a job in `state`: what a finished job handed back, and
/// none for any other.
pub open spec fn spec_commands_of<C>(state: TaskState<C>) -> Seq<C> {
    match state {
        TaskState::Finished(Some(commands)) => commands@,
        _ => Seq::empty(),
    }
}

/// The commands that the first `upto` jobs of the ledger hand back, job
/// after job in the order of the ledger, each job's commands in their own
/// order.
pub open spec fn spec_drained<C>(states: Seq<TaskState<C>>, upto: int) -> Seq<C>
    decreases upto,
{
    if upto <= 0 || upto > states.len() {
        Seq::empty()
    } else {
        spec_drained(states, upto - 1) + spec_commands_of(states[upto - 1])
    }
}

/// The labels whose job is still at work.
pub open spec fn spec_running<C>(tasks: Map<Seq<char>, TaskState<C>>) -> Set<Seq<char>> {
    Set::new(|label: Seq<char>| tasks.contains_key(label) && tasks[label] is Running)
}

/// Takes every finished job out of the ledger and hands back the commands
/// of those that have any, to be applied once. Jobs still at work stay.
pub fn remove_completed_tasks<C>(tasks: &mut DirworldTasks<C>) -> (commands: Vec<C>)
    requires
        old(tasks).wf(),
    ensures
        final(tasks).wf(),
        final(tasks)@ == old(tasks)@.restrict(spec_running(old(tasks)@)),
        commands@ == spec_drained(old(tasks).0.values@, old(tasks).0.values@.len() as int),
        forall|i: int|
            0 <= i < final(tasks).0.values@.len() ==> #[trigger] final(tasks).0.values@[i]
                is Running,
{
    let ghost before = tasks.0;
    let mut commands: Vec<C> = Vec::new();
    let mut at: usize = 0;
    let ghost mut seen: int = 0;
    while at < tasks.0.len()
        invariant
            tasks.wf(),
            before.wf(),
            0 <= seen <= before.keys@.len(),
            at <= tasks.0.keys@.len(),
            tasks.0.keys@.len() - at == before.keys@.len() - seen,
            tasks.0.keys@.skip(at as int) == before.keys@.skip(seen),
            tasks.0.values@.skip(at as int) == before.values@.skip(seen),
            forall|i: int| 0 <= i < at ==> #[trigger] tasks.0.values@[i] is Running,
            forall|label: Seq<char>| #[trigger]
                tasks@.contains_key(label) <==> before@.contains_key(label) && !(index_of(
                    before.keys@,
                    label,
                ) < seen && !(before@[label] is Running)),
            forall|label: Seq<char>| #[trigger]
                tasks@.contains_key(label) ==> tasks@[label] == before@[label],
            commands@ == spec_drained(before.values@, seen),
        decreases tasks.0.keys@.len() - at,
    {
        let ghost current = tasks.0;
        let ghost held = tasks@;
        proof {
            assert(held == current@);
            assert(current.keys@[at as int] == current.keys@.skip(at as int)[0]);
            assert(current.values@[at as int] == current.values@.skip(at as int)[0]);
            assert(before.keys@[seen] == before.keys@.skip(seen)[0]);
            assert(before.values@[seen] == before.values@.skip(seen)[0]);
            before.lemma_entry(seen);
            current.lemma_entry(at as int);
        }
        let running = match tasks.0.value_at(at) {
            TaskState::Running => true,
            TaskState::Finished(_) => false,
        };
        if running {
            proof {
                assert(tasks.0.keys@.skip(at + 1) =~= tasks.0.keys@.skip(at as int).skip(1));
                assert(tasks.0.values@.skip(at + 1) =~= tasks.0.values@.skip(at as int).skip(1));
                assert(before.keys@.skip(seen + 1) =~= before.keys@.skip(seen).skip(1));
                assert(before.values@.skip(seen + 1) =~= before.values@.skip(seen).skip(1));
                assert(spec_commands_of(before.values@[seen]) =~= Seq::<C>::empty());
                assert(spec_drained(before.values@, seen + 1) =~= spec_drained(
                    before.values@,
                    seen,
                ));
                assert forall|label: Seq<char>| #[trigger]
                    tasks@.contains_key(label) <==> before@.contains_key(label) && !(index_of(
                        before.keys@,
                        label,
                    ) < seen + 1 && !(before@[label] is Running)) by {
                    if before@.contains_key(label) && index_of(before.keys@, label) == seen {
                        before.lemma_entry(index_of(before.keys@, label));
                    }
                }
                seen = seen + 1;
            }
            at = at + 1;
        } else {
            let label = tasks.0.key_at(at).clone();
            let state = tasks.0.remove(label.as_str());
            let ghost gone = before.values@[seen];
            proof {
                assert(state == Some(gone));
                assert(tasks.0.keys@ =~= current.keys@.remove(at as int));
                assert(tasks.0.values@ =~= current.values@.remove(at as int));
                assert(tasks.0.keys@.skip(at as int) =~= current.keys@.skip(at as int).skip(1));
                assert(tasks.0.values@.skip(at as int) =~= current.values@.skip(at as int).skip(
                    1,
                ));
                assert(before.keys@.skip(seen + 1) =~= before.keys@.skip(seen).skip(1));
                assert(before.values@.skip(seen + 1) =~= before.values@.skip(seen).skip(1));
                assert(label@ == before.keys@[seen]@);
                assert(!(before@[label@] is Running));
                assert(tasks@ == current@.remove(label@));
                assert forall|other: Seq<char>| #[trigger]
                    tasks@.contains_key(other) <==> before@.contains_key(other) && !(index_of(
                        before.keys@,
                        other,
                    ) < seen + 1 && !(before@[other] is Running)) by {
                    assert(tasks@.contains_key(other) == (held.contains_key(other) && other
                        != label@));
                    assert(held.contains_key(other) <==> before@.contains_key(other) && !(
                    index_of(before.keys@, other) < seen && !(before@[other] is Running)));
                    if before@.contains_key(other) {
                        let found = index_of(before.keys@, other);
                        assert(has_key(before.keys@, other));
                        assert(before.keys@[found]@ == other);
                        before.lemma_entry(found);
                    }
                }
                assert forall|other: Seq<char>| #[trigger]
                    tasks@.contains_key(other) implies tasks@[other] == before@[other] by {
                    assert(held.contains_key(other));
                    assert(tasks@[other] == held[other]);
                    assert(held[other] == before@[other]);
                }
            }
            match state {
                Some(TaskState::Finished(Some(handed))) => {
                    let mut handed = handed;
                    let ghost taken = handed@;
                    commands.append(&mut handed);
                    proof {
                        assert(spec_commands_of(gone) == taken);
                    }
                },
                _ => {
                    proof {
                        assert(spec_commands_of(gone) =~= Seq::<C>::empty());
                        assert(commands@ + Seq::<C>::empty() =~= commands@);
                    }
                },
            }
            proof {
                seen = seen + 1;
            }
        }
    }
    proof {
        assert(seen == before.keys@.len());
        assert(tasks@ =~= before@.restrict(spec_running(before@)));
    }
    commands
}

/// A transform the host reports for a node.
#[derive(Clone, Copy, Debug, PartialEq, Eq, Structural)]
pub struct TransformUpdate {
    pub entity: u64,
    pub transform: Transform,
}

/// `node` moved to `transform`, in the node itself and in its payload.
pub open spec fn spec_moved(node: Node, transform: Transform) -> Node {
    Node {
        transform,
        entity: DirworldEntity {
            payload: match node.entity.payload {
                Some(payload) => Some(DirworldEntityPayload { transform, ..payload }),
                None => None,
            },
            ..node.entity
        },
        ..node
    }
}

/// `nodes` with the node `update` names moved to where it says; `nodes`
/// itself where it names none of them.
pub open spec fn spec_with_update(nodes: Seq<Node>, update: TransformUpdate) -> Seq<Node> {
    if spec_has_node(nodes, update.entity) {
        let at = spec_node_index(nodes, update.entity);
        nodes.update(at, spec_moved(nodes[at], update.transform))
    } else {
        nodes
    }
}

/// `nodes` once the first `upto` of `updates` have been applied in order.
pub open spec fn spec_synced(nodes: Seq<Node>, updates: Seq<TransformUpdate>, upto: int) -> Seq<
    Node,
>
    decreases upto,
{
    if upto <= 0 || upto > updates.len() {
        nodes
    } else {
        spec_with_update(spec_synced(nodes, updates, upto - 1), updates[upto - 1])
    }
}

/// Moves the node that `update` names.
fn apply_update(graph: &mut LiveGraph, update: TransformUpdate)
    requires
        old(graph).wf(),
    ensures
        final(graph).wf(),
        final(graph).next_id == old(graph).next_id,
        final(graph).nodes@ == spec_with_update(old(graph).nodes@, update),
{
    let ghost before = graph.nodes@;
    match graph.index_of(update.entity) {
        Some(at) => {
            let mut node = graph.nodes.remove(at);
            node.transform = update.transform;
            let mut entity = node.entity;
            entity.payload = match entity.payload {
                Some(payload) => {
                    let mut moved = payload;
                    moved.transform = update.transform;
                    Some(moved)
                },
                None => None,
            };
            node.entity = entity;
            graph.nodes.insert(at, node);
            proof {
                assert(graph.nodes@ =~= before.update(
                    at as int,
                    spec_moved(before[at as int], update.transform),
                ));
                lemma_same_shape_wf(before, graph.nodes@, graph.next_id);
            }
        },
        None => {},
    }
}

/// Takes the transforms the host reports into the graph: each named node
/// moves, and so does its payload, so that the payload says where the node
/// stood last.
pub fn sync_entity_transforms(graph: &mut LiveGraph, updates: &Vec<TransformUpdate>)
    requires
        old(graph).wf(),
    ensures
        final(graph).wf(),
        final(graph).next_id == old(graph).next_id,
        final(graph).nodes@ == spec_synced(old(graph).nodes@, updates@, updates@.len() as int),
{
    let mut at: usize = 0;
    while at < updates.len()
        invariant
            graph.wf(),
            at <= updates@.len(),
            graph.next_id == old(graph).next_id,
            graph.nodes@ == spec_synced(old(graph).nodes@, updates@, at as int),
        decreases updates@.len() - at,
    {
        apply_update(graph, updates[at]);
        at = at + 1;
    }
}

} // verus!
