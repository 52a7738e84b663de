use dirworld::components::DirworldEntity;
use dirworld::graph::LiveGraph;
use dirworld::payload::components::Transform;
use dirworld::payload::DirworldEntityPayload;

fn entity(path: &str, id: Option<u128>) -> DirworldEntity {
    DirworldEntity { path: path.to_string(), payload: id.map(DirworldEntityPayload::with_id) }
}

fn spawn(graph: &mut LiveGraph, parent: Option<u64>, path: &str) -> u64 {
    graph.spawn(parent, Transform::identity(), entity(path, None), false).unwrap()
}

fn ids(graph: &LiveGraph) -> Vec<u64> {
    graph.nodes.iter().map(|node| node.id).collect()
}

#[test]
fn spawn_hands_out_growing_identities() {
    let mut graph = LiveGraph::new();
    assert_eq!(spawn(&mut graph, None, "/a"), 0);
    assert_eq!(spawn(&mut graph, None, "/b"), 1);
    assert_eq!(spawn(&mut graph, Some(0), "/a/c"), 2);
    assert_eq!(graph.next_id, 3);
    assert_eq!(ids(&graph), vec![0, 1, 2]);
    assert_eq!(graph.nodes[2].parent, Some(0));
    assert!(!graph.nodes[2].persist);
    assert_eq!(graph.nodes[1].entity.path, "/b");
}

#[test]
fn spawn_under_a_missing_parent_adds_nothing() {
    let mut graph = LiveGraph::new();
    spawn(&mut graph, None, "/a");
    assert_eq!(graph.spawn(Some(9), Transform::identity(), entity("/x", None), false), None);
    assert_eq!(ids(&graph), vec![0]);
    assert_eq!(graph.next_id, 1);
}

#[test]
fn spawn_without_identities_left_adds_nothing() {
    let mut graph = LiveGraph::new();
    graph.next_id = u64::MAX;
    assert_eq!(graph.spawn(None, Transform::identity(), entity("/x", None), false), None);
    assert!(graph.nodes.is_empty());
}

#[test]
fn despawn_subtree_takes_all_below() {
    let mut graph = LiveGraph::new();
    let a = spawn(&mut graph, None, "/a");
    let b = spawn(&mut graph, None, "/b");
    let c = spawn(&mut graph, Some(a), "/a/c");
    let d = spawn(&mut graph, Some(c), "/a/c/d");
    let e = spawn(&mut graph, Some(b), "/b/e");
    assert_eq!(graph.despawn_subtree(a), 3);
    assert_eq!(ids(&graph), vec![b, e]);
    assert_eq!(graph.index_of(c), None);
    assert_eq!(graph.index_of(d), None);
    // A second removal finds nothing.
    assert_eq!(graph.despawn_subtree(a), 0);
    assert_eq!(ids(&graph), vec![b, e]);
    assert_eq!(graph.next_id, 5);
}

#[test]
fn despawn_of_a_leaf_leaves_the_rest() {
    let mut graph = LiveGraph::new();
    let a = spawn(&mut graph, None, "/a");
    let c = spawn(&mut graph, Some(a), "/a/c");
    assert_eq!(graph.despawn_subtree(c), 1);
    assert_eq!(ids(&graph), vec![a]);
}

#[test]
fn ancestors_and_parents() {
    let mut graph = LiveGraph::new();
    let a = spawn(&mut graph, None, "/a");
    let b = spawn(&mut graph, Some(a), "/a/b");
    let c = spawn(&mut graph, Some(b), "/a/b/c");
    let d = spawn(&mut graph, None, "/d");
    assert!(graph.is_ancestor(a, b));
    assert!(graph.is_ancestor(a, c));
    assert!(graph.is_ancestor(b, c));
    assert!(!graph.is_ancestor(c, a));
    assert!(!graph.is_ancestor(a, a));
    assert!(!graph.is_ancestor(a, d));
    assert!(!graph.is_ancestor(d, c));
    assert!(!graph.is_ancestor(a, 99));
    assert!(graph.is_parent(a, b));
    assert!(graph.is_parent(b, c));
    assert!(!graph.is_parent(a, c));
    assert!(!graph.is_parent(a, d));
    assert!(!graph.is_parent(a, 99));
}

#[test]
fn find_by_path_and_payload_takes_the_first() {
    let mut graph = LiveGraph::new();
    graph.spawn(None, Transform::identity(), entity("/a", Some(7)), false);
    graph.spawn(None, Transform::identity(), entity("/b", None), false);
    graph.spawn(None, Transform::identity(), entity("/a", Some(8)), true);
    graph.spawn(None, Transform::identity(), entity("/c", Some(7)), false);
    assert_eq!(graph.find_path("/a"), Some(0));
    assert_eq!(graph.find_path("/b"), Some(1));
    assert_eq!(graph.find_path("/zzz"), None);
    assert_eq!(graph.find_payload(7), Some(0));
    assert_eq!(graph.find_payload(8), Some(2));
    assert_eq!(graph.find_payload(9), None);
    assert!(graph.nodes[2].folder);
}

#[test]
fn mark_persistent_marks_one_node() {
    let mut graph = LiveGraph::new();
    let a = spawn(&mut graph, None, "/a");
    let b = spawn(&mut graph, None, "/b");
    assert!(graph.mark_persistent(b));
    assert!(!graph.mark_persistent(42));
    assert!(!graph.nodes[0].persist);
    assert!(graph.nodes[1].persist);
    assert_eq!(ids(&graph), vec![a, b]);
    assert_eq!(graph.nodes[1].entity.path, "/b");
}

#[test]
fn despawn_transient_keeps_what_persists_all_the_way_up() {
    let mut graph = LiveGraph::new();
    let a = spawn(&mut graph, None, "/a");
    let b = spawn(&mut graph, Some(a), "/a/b");
    let c = spawn(&mut graph, None, "/c");
    let d = spawn(&mut graph, Some(c), "/c/d");
    let e = spawn(&mut graph, Some(d), "/c/d/e");
    // a persists, and b below it; d persists under c, which does not.
    graph.mark_persistent(a);
    graph.mark_persistent(b);
    graph.mark_persistent(d);
    graph.mark_persistent(e);
    assert_eq!(graph.despawn_transient(), 3);
    assert_eq!(ids(&graph), vec![a, b]);
    assert_eq!(graph.next_id, 5);
}
