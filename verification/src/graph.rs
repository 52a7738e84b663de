//! The live graph as the engine sees it: the nodes made for filesystem
//! entries, each with its parent, its transform and what it carries.
//!
//! The host keeps its own scene in step with this graph; the engine decides
//! on this one.
use vstd::prelude::*;
use crate::components::DirworldEntity;
use crate::payload::components::Transform;
use crate::text::same_text;

verus! {

/// One live node.
#[derive(Debug)]
pub struct Node {
    /// Identity of the node; never used twice in one graph.
    pub id: u64,
    /// Identity of the node this one hangs under, if any.
    pub parent: Option<u64>,
    /// Where the node stands.
    pub transform: Transform,
    /// Path and payload of the entry the node was made for.
    pub entity: DirworldEntity,
    /// Whether the entry is a folder.
    pub folder: bool,
    /// Whether the node stays when the room is left.
    pub persist: bool,
}

/// The live nodes, oldest first.
#[derive(Debug)]
pub struct LiveGraph {
    pub nodes: Vec<Node>,
    /// Identity the next node gets.
    pub next_id: u64,
}

/// Whether one of `nodes` has the identity `id`.
pub open spec fn spec_has_node(nodes: Seq<Node>, id: u64) -> bool {
    exists|i: int| 0 <= i < nodes.len() && nodes[i].id == id
}

/// An index at which `nodes` holds the node `id`, where there is one.
pub open spec fn spec_node_index(nodes: Seq<Node>, id: u64) -> int {
    choose|i: int| 0 <= i < nodes.len() && nodes[i].id == id
}

/// Whether `ancestor` stands above `node` in `nodes`: it is the parent of
/// `node`, or stands above that parent.
pub open spec fn spec_ancestor(nodes: Seq<Node>, ancestor: u64, node: u64) -> bool
    decreases node,
{
    if spec_has_node(nodes, node) {
        match nodes[spec_node_index(nodes, node)].parent {
            Some(parent) => parent < node && (parent == ancestor || spec_ancestor(
                nodes,
                ancestor,
                parent,
            )),
            None => false,
        }
    } else {
        false
    }
}

/// Whether `node` belongs to the subtree of `root`: it is `root` or stands
/// below it.
pub open spec fn spec_in_subtree(nodes: Seq<Node>, root: u64, node: u64) -> bool {
    node == root || spec_ancestor(nodes, root, node)
}

/// The test by which a node outlives the removal of the subtree of `root`.
pub open spec fn spec_outside(nodes: Seq<Node>, root: u64) -> spec_fn(Node) -> bool {
    |node: Node| !spec_in_subtree(nodes, root, node.id)
}

/// `nodes` without the subtree of `root`.
pub open spec fn spec_without_subtree(nodes: Seq<Node>, root: u64) -> Seq<Node> {
    nodes.filter(spec_outside(nodes, root))
}

/// The invariant of a list of live nodes: identities grow along the list
/// and stay below `next_id`, every parent is an older node of the list, and
/// every payload is well formed.
pub open spec fn spec_nodes_wf(nodes: Seq<Node>, next_id: u64) -> bool {
    &&& forall|i: int, j: int| 0 <= i < j < nodes.len() ==> nodes[i].id < nodes[j].id
    &&& forall|i: int| 0 <= i < nodes.len() ==> nodes[i].id < next_id
    &&& forall|i: int|
        0 <= i < nodes.len() && nodes[i].parent.is_some() ==> #[trigger] nodes[i].parent.unwrap()
            < nodes[i].id && spec_has_node(nodes, nodes[i].parent.unwrap())
    &&& forall|i: int| 0 <= i < nodes.len() ==> (#[trigger] nodes[i]).entity.wf()
}

/// Index of the first of `nodes` at `from` or later whose path is `path`;
/// the length of `nodes` where there is none.
pub open spec fn spec_path_index_from(nodes: Seq<Node>, path: Seq<char>, from: int) -> int
    decreases nodes.len() - from,
{
    if from < 0 || from >= nodes.len() {
        nodes.len() as int
    } else if nodes[from].entity.path@ == path {
        from
    } else {
        spec_path_index_from(nodes, path, from + 1)
    }
}

/// The first of `nodes` whose path is `path`.
pub open spec fn spec_find_path(nodes: Seq<Node>, path: Seq<char>) -> Option<int> {
    let at = spec_path_index_from(nodes, path, 0);
    if at < nodes.len() {
        Some(at)
    } else {
        None
    }
}

/// Index of the first of `nodes` at `from` or later whose payload has the
/// identifier `id`; the length of `nodes` where there is none.
pub open spec fn spec_payload_index_from(nodes: Seq<Node>, id: u128, from: int) -> int
    decreases nodes.len() - from,
{
    if from < 0 || from >= nodes.len() {
        nodes.len() as int
    } else if nodes[from].entity.spec_payload_id() == Some(id) {
        from
    } else {
        spec_payload_index_from(nodes, id, from + 1)
    }
}

/// The first of `nodes` whose payload has the identifier `id`.
pub open spec fn spec_find_payload(nodes: Seq<Node>, id: u128) -> Option<int> {
    let at = spec_payload_index_from(nodes, id, 0);
    if at < nodes.len() {
        Some(at)
    } else {
        None
    }
}

/// The first index found from `from` on lies in range, holds `path`, and no
/// earlier index from `from` on does.
pub proof fn lemma_path_index(nodes: Seq<Node>, path: Seq<char>, from: int)
    requires
        0 <= from <= nodes.len(),
    ensures
        from <= spec_path_index_from(nodes, path, from) <= nodes.len(),
        spec_path_index_from(nodes, path, from) < nodes.len() ==> nodes[spec_path_index_from(
            nodes,
            path,
            from,
        )].entity.path@ == path,
        forall|i: int|
            from <= i < spec_path_index_from(nodes, path, from) ==> nodes[i].entity.path@ != path,
    decreases nodes.len() - from,
{
    if from < nodes.len() && nodes[from].entity.path@ != path {
        lemma_path_index(nodes, path, from + 1);
    }
}

/// In a well-formed list the index found for the identity of the node at
/// `i` is `i`.
pub proof fn lemma_node_index(nodes: Seq<Node>, next_id: u64, i: int)
    requires
        spec_nodes_wf(nodes, next_id),
        0 <= i < nodes.len(),
    ensures
        spec_has_node(nodes, nodes[i].id),
        spec_node_index(nodes, nodes[i].id) == i,
{
    let found = spec_node_index(nodes, nodes[i].id);
    if found < i {
        assert(nodes[found].id < nodes[i].id);
    } else if i < found {
        assert(nodes[i].id < nodes[found].id);
    }
}

/// A node with a parent belongs to a subtree exactly if it is the root or
/// its parent belongs to the subtree.
pub proof fn lemma_subtree_step(nodes: Seq<Node>, next_id: u64, root: u64, i: int)
    requires
        spec_nodes_wf(nodes, next_id),
        0 <= i < nodes.len(),
    ensures
        spec_in_subtree(nodes, root, nodes[i].id) == (nodes[i].id == root || (
        nodes[i].parent.is_some() && spec_in_subtree(nodes, root, nodes[i].parent.unwrap()))),
{
    lemma_node_index(nodes, next_id, i);
}

/// Whatever stands above a node of a well-formed list is a node of it.
pub proof fn lemma_ancestor_is_node(nodes: Seq<Node>, next_id: u64, ancestor: u64, node: u64)
    requires
        spec_nodes_wf(nodes, next_id),
        spec_ancestor(nodes, ancestor, node),
    ensures
        spec_has_node(nodes, ancestor),
        ancestor < node,
    decreases node,
{
    let at = spec_node_index(nodes, node);
    let parent = nodes[at].parent.unwrap();
    if parent != ancestor {
        lemma_ancestor_is_node(nodes, next_id, ancestor, parent);
    }
}

/// Filtering by a test that every element passes changes nothing.
pub proof fn lemma_filter_all<A>(items: Seq<A>, test: spec_fn(A) -> bool)
    requires
        forall|i: int| 0 <= i < items.len() ==> test(items[i]),
    ensures
        items.filter(test) == items,
    decreases items.len(),
{
    reveal(Seq::filter);
    if items.len() > 0 {
        lemma_filter_all(items.drop_last(), test);
        assert(items.drop_last().push(items.last()) =~= items);
    }
}

/// Filtering a list of one element keeps it or leaves nothing.
pub proof fn lemma_filter_one<A>(item: A, test: spec_fn(A) -> bool)
    ensures
        seq![item].filter(test) == (if test(item) {
            seq![item]
        } else {
            Seq::<A>::empty()
        }),
{
    reveal_with_fuel(Seq::filter, 2);
    assert(seq![item].drop_last() =~= Seq::<A>::empty());
    assert(Seq::<A>::empty().push(item) =~= seq![item]);
}

impl LiveGraph {
    /// The invariant of the graph.
    pub open spec fn wf(&self) -> bool {
        spec_nodes_wf(self.nodes@, self.next_id)
    }

    /// A graph without nodes.
    pub fn new() -> (graph: LiveGraph)
        ensures
            graph.wf(),
            graph.nodes@ == Seq::<Node>::empty(),
            graph.next_id == 0,
    {
        LiveGraph { nodes: Vec::new(), next_id: 0 }
    }

    /// Index of the node with the identity `id`.
    pub fn index_of(&self, id: u64) -> (found: Option<usize>)
        requires
            self.wf(),
        ensures
            match found {
                Some(at) => at < self.nodes@.len() && self.nodes@[at as int].id == id
                    && spec_node_index(self.nodes@, id) == at,
                None => !spec_has_node(self.nodes@, id),
            },
    {
        let mut at: usize = 0;
        while at < self.nodes.len()
            invariant
                self.wf(),
                at <= self.nodes@.len(),
                forall|j: int| 0 <= j < at ==> self.nodes@[j].id != id,
            decreases self.nodes@.len() - at,
        {
            if self.nodes[at].id == id {
                proof {
                    lemma_node_index(self.nodes@, self.next_id, at as int);
                }
                return Some(at);
            }
            at = at + 1;
        }
        None
    }

    /// Index of the first node whose path is `path`.
    pub fn find_path(&self, path: &str) -> (found: Option<usize>)
        ensures
            match found {
                Some(at) => spec_find_path(self.nodes@, path@) == Some(at as int),
                None => spec_find_path(self.nodes@, path@).is_none(),
            },
            found.is_some() ==> found.unwrap() < self.nodes@.len(),
    {
        let mut at: usize = 0;
        while at < self.nodes.len()
            invariant
                at <= self.nodes@.len(),
                spec_path_index_from(self.nodes@, path@, 0) == spec_path_index_from(
                    self.nodes@,
                    path@,
                    at as int,
                ),
            decreases self.nodes@.len() - at,
        {
            if same_text(self.nodes[at].entity.path.as_str(), path) {
                return Some(at);
            }
            at = at + 1;
        }
        None
    }

    /// Index of the first node whose payload has the identifier `id`.
    pub fn find_payload(&self, id: u128) -> (found: Option<usize>)
        ensures
            match found {
                Some(at) => spec_find_payload(self.nodes@, id) == Some(at as int),
                None => spec_find_payload(self.nodes@, id).is_none(),
            },
            found.is_some() ==> found.unwrap() < self.nodes@.len(),
    {
        let mut at: usize = 0;
        while at < self.nodes.len()
            invariant
                at <= self.nodes@.len(),
                spec_payload_index_from(self.nodes@, id, 0) == spec_payload_index_from(
                    self.nodes@,
                    id,
                    at as int,
                ),
            decreases self.nodes@.len() - at,
        {
            if self.nodes[at].entity.has_id(id) {
                return Some(at);
            }
            at = at + 1;
        }
        None
    }

    /// Adds a node for `entity` at `transform`, under `parent` if one is
    /// given, and hands back its identity. `folder` says whether the entry
    /// is a folder. Nothing is added, and `None`
    /// comes back, where `parent` is no node of the graph or the graph has
    /// run out of identities.
    pub fn spawn(
        &mut self,
        parent: Option<u64>,
        transform: Transform,
        entity: DirworldEntity,
        folder: bool,
    ) -> (id: Option<u64>)
        requires
            old(self).wf(),
            entity.wf(),
        ensures
            final(self).wf(),
            id.is_some() == (old(self).next_id < u64::MAX && (parent.is_some() ==> spec_has_node(
                old(self).nodes@,
                parent.unwrap(),
            ))),
            match id {
                Some(new_id) => new_id == old(self).next_id && final(self).next_id == new_id + 1
                    && final(self).nodes@ == old(self).nodes@.push(
                    Node { id: new_id, parent, transform, entity, folder, persist: false },
                ),
                None => *final(self) == *old(self),
            },
    {
        if self.next_id == u64::MAX {
            return None;
        }
        if let Some(above) = parent {
            if self.index_of(above).is_none() {
                return None;
            }
        }
        let ghost before = self.nodes@;
        let id = self.next_id;
        self.nodes.push(Node { id, parent, transform, entity, folder, persist: false });
        self.next_id = id + 1;
        proof {
            let after = self.nodes@;
            let last = before.len() as int;
            assert forall|i: int| 0 <= i < after.len() && after[i].parent.is_some() implies (
            #[trigger] after[i].parent.unwrap()) < after[i].id && spec_has_node(
                after,
                after[i].parent.unwrap(),
            ) by {
                let above = after[i].parent.unwrap();
                if i < last {
                    assert(after[i] == before[i]);
                    assert(before[i].parent.unwrap() < before[i].id);
                    assert(spec_has_node(before, above));
                }
                let found = spec_node_index(before, above);
                assert(after[found].id == above);
            }
        }
        Some(id)
    }

    /// Marks the node `id` as one that stays when the room is left. Tells
    /// whether there is such a node; if not, nothing changes.
    pub fn mark_persistent(&mut self, id: u64) -> (found: bool)
        requires
            old(self).wf(),
        ensures
            final(self).wf(),
            found == spec_has_node(old(self).nodes@, id),
            final(self).next_id == old(self).next_id,
            final(self).nodes@.len() == old(self).nodes@.len(),
            forall|i: int|
                0 <= i < old(self).nodes@.len() ==> #[trigger] final(self).nodes@[i] == (if old(
                    self,
                ).nodes@[i].id == id {
                    Node { persist: true, ..old(self).nodes@[i] }
                } else {
                    old(self).nodes@[i]
                }),
    {
        let ghost before = self.nodes@;
        match self.index_of(id) {
            Some(at) => {
                let mut node = self.nodes.remove(at);
                node.persist = true;
                self.nodes.insert(at, node);
                proof {
                    let after = self.nodes@;
                    assert(after =~= before.update(
                        at as int,
                        Node { persist: true, ..before[at as int] },
                    ));
                    assert forall|i: int| 0 <= i < before.len() implies #[trigger] after[i] == (
                    if before[i].id == id {
                        Node { persist: true, ..before[i] }
                    } else {
                        before[i]
                    }) by {
                        if i != at as int && before[i].id == id {
                            lemma_node_index(before, self.next_id, i);
                        }
                    }
                    lemma_same_shape_wf(before, after, self.next_id);
                }
                true
            },
            None => false,
        }
    }

    /// Tells whether `ancestor` stands above `node`.
    pub fn is_ancestor(&self, ancestor: u64, node: u64) -> (above: bool)
        requires
            self.wf(),
        ensures
            above == spec_ancestor(self.nodes@, ancestor, node),
    {
        let mut current: usize = match self.index_of(node) {
            Some(at) => at,
            None => {
                return false;
            },
        };
        loop
            invariant
                self.wf(),
                current < self.nodes@.len(),
                spec_ancestor(self.nodes@, ancestor, node) == spec_ancestor(
                    self.nodes@,
                    ancestor,
                    self.nodes@[current as int].id,
                ),
            decreases current,
        {
            proof {
                lemma_node_index(self.nodes@, self.next_id, current as int);
            }
            match self.nodes[current].parent {
                None => {
                    return false;
                },
                Some(parent) => {
                    if parent == ancestor {
                        return true;
                    }
                    match self.index_of(parent) {
                        Some(found) => {
                            assert(found < current) by {
                                if found > current {
                                    assert(self.nodes@[current as int].id
                                        < self.nodes@[found as int].id);
                                }
                            }
                            current = found;
                        },
                        None => {
                            return false;
                        },
                    }
                },
            }
        }
    }

    /// Tells whether `parent` is the node that `node` hangs under.
    pub fn is_parent(&self, parent: u64, node: u64) -> (direct: bool)
        requires
            self.wf(),
        ensures
            direct == (spec_has_node(self.nodes@, node) && self.nodes@[spec_node_index(
                self.nodes@,
                node,
            )].parent == Some(parent)),
    {
        match self.index_of(node) {
            Some(at) => match self.nodes[at].parent {
                Some(above) => above == parent,
                None => false,
            },
            None => false,
        }
    }

    /// For each node, whether it belongs to the subtree of `root`.
    fn subtree_flags(&self, root: u64) -> (flags: Vec<bool>)
        requires
            self.wf(),
        ensures
            flags@.len() == self.nodes@.len(),
            forall|i: int|
                0 <= i < flags@.len() ==> flags@[i] == spec_in_subtree(
                    self.nodes@,
                    root,
                    self.nodes@[i].id,
                ),
    {
        let mut flags: Vec<bool> = Vec::new();
        let mut at: usize = 0;
        while at < self.nodes.len()
            invariant
                self.wf(),
                at <= self.nodes@.len(),
                flags@.len() == at,
                forall|i: int|
                    0 <= i < at ==> flags@[i] == spec_in_subtree(
                        self.nodes@,
                        root,
                        self.nodes@[i].id,
                    ),
            decreases self.nodes@.len() - at,
        {
            let mut inside = self.nodes[at].id == root;
            proof {
                lemma_subtree_step(self.nodes@, self.next_id, root, at as int);
            }
            if !inside {
                if let Some(above) = self.nodes[at].parent {
                    match self.index_of(above) {
                        Some(found) => {
                            assert(found < at) by {
                                if found > at {
                                    assert(self.nodes@[at as int].id
                                        < self.nodes@[found as int].id);
                                }
                            }
                            inside = flags[found];
                        },
                        None => {},
                    }
                }
            }
            flags.push(inside);
            at = at + 1;
        }
        flags
    }

    /// For each node, whether it goes when the room is left.
    fn transient_flags(&self) -> (flags: Vec<bool>)
        requires
            self.wf(),
        ensures
            flags@.len() == self.nodes@.len(),
            forall|i: int|
                0 <= i < flags@.len() ==> flags@[i] == !spec_stays(
                    self.nodes@,
                    self.nodes@[i].id,
                ),
    {
        let mut flags: Vec<bool> = Vec::new();
        let mut at: usize = 0;
        while at < self.nodes.len()
            invariant
                self.wf(),
                at <= self.nodes@.len(),
                flags@.len() == at,
                forall|i: int|
                    0 <= i < at ==> flags@[i] == !spec_stays(self.nodes@, self.nodes@[i].id),
            decreases self.nodes@.len() - at,
        {
            let mut goes = !self.nodes[at].persist;
            proof {
                lemma_node_index(self.nodes@, self.next_id, at as int);
            }
            if !goes {
                if let Some(above) = self.nodes[at].parent {
                    match self.index_of(above) {
                        Some(found) => {
                            assert(found < at) by {
                                if found > at {
                                    assert(self.nodes@[at as int].id
                                        < self.nodes@[found as int].id);
                                }
                            }
                            goes = flags[found];
                        },
                        None => {},
                    }
                }
            }
            flags.push(goes);
            at = at + 1;
        }
        flags
    }

    /// Removes the nodes that `flags` marks; the others keep their order.
    fn remove_flagged(&mut self, flags: &Vec<bool>, Ghost(keep): Ghost<spec_fn(Node) -> bool>) -> (removed:
        usize)
        requires
            old(self).wf(),
            flags@.len() == old(self).nodes@.len(),
            forall|i: int| 0 <= i < flags@.len() ==> flags@[i] == !keep(old(self).nodes@[i]),
        ensures
            final(self).next_id == old(self).next_id,
            final(self).nodes@ == old(self).nodes@.filter(keep),
            removed == old(self).nodes@.len() - final(self).nodes@.len(),
    {
        let ghost before = self.nodes@;
        let total: usize = flags.len();
        let mut at: usize = self.nodes.len();
        let mut removed: usize = 0;
        proof {
            assert(before.skip(at as int) =~= Seq::<Node>::empty());
            reveal(Seq::filter);
            assert(before.take(at as int) + before.skip(at as int).filter(keep) =~= before);
        }
        while at > 0
            invariant
                self.next_id == old(self).next_id,
                at <= before.len(),
                total == before.len(),
                flags@.len() == before.len(),
                forall|i: int| 0 <= i < flags@.len() ==> flags@[i] == !keep(before[i]),
                self.nodes@ == before.take(at as int) + before.skip(at as int).filter(keep),
                self.nodes@.len() <= before.len(),
                removed == before.len() - self.nodes@.len(),
            decreases at,
        {
            let this: usize = at - 1;
            proof {
                let rest = before.skip(at as int);
                let one = seq![before[this as int]];
                assert(before.skip(this as int) =~= one + rest);
                Seq::filter_distributes_over_add(one, rest, keep);
                lemma_filter_one(before[this as int], keep);
                assert(before.take(at as int) =~= before.take(this as int) + one);
                assert(self.nodes@[this as int] == before[this as int]);
            }
            if flags[this] {
                assert(removed < total) by {
                    assert(self.nodes@.len() > this);
                }
                let _ = self.nodes.remove(this);
                removed = removed + 1;
                proof {
                    assert(self.nodes@ =~= before.take(this as int) + before.skip(
                        this as int,
                    ).filter(keep));
                }
            } else {
                proof {
                    assert(self.nodes@ =~= before.take(this as int) + before.skip(
                        this as int,
                    ).filter(keep));
                }
            }
            at = this;
        }
        proof {
            assert(before.skip(0) =~= before);
            assert(before.take(0) =~= Seq::<Node>::empty());
            assert(self.nodes@ =~= before.filter(keep));
        }
        removed
    }

    /// Removes the node `root` and all that stands below it, and hands back
    /// how many nodes left. Where `root` is no node of the graph, nothing
    /// changes.
    pub fn despawn_subtree(&mut self, root: u64) -> (removed: usize)
        requires
            old(self).wf(),
        ensures
            final(self).wf(),
            final(self).next_id == old(self).next_id,
            final(self).nodes@ == spec_without_subtree(old(self).nodes@, root),
            removed == old(self).nodes@.len() - final(self).nodes@.len(),
            !spec_has_node(old(self).nodes@, root) ==> final(self).nodes@ == old(self).nodes@,
            spec_has_node(old(self).nodes@, root) ==> removed > 0,
            !spec_has_node(final(self).nodes@, root),
    {
        let flags = self.subtree_flags(root);
        let ghost keep = spec_outside(self.nodes@, root);
        let removed = self.remove_flagged(&flags, Ghost(keep));
        proof {
            lemma_without_subtree(old(self).nodes@, self.next_id, root);
        }
        removed
    }

    /// Removes every node that does not stay when the room is left: the
    /// nodes not marked to persist, and all that stands below one of them.
    /// Hands back how many nodes left.
    pub fn despawn_transient(&mut self) -> (removed: usize)
        requires
            old(self).wf(),
        ensures
            final(self).wf(),
            final(self).next_id == old(self).next_id,
            final(self).nodes@ == spec_staying(old(self).nodes@),
            removed == old(self).nodes@.len() - final(self).nodes@.len(),
    {
        let flags = self.transient_flags();
        let ghost keep = spec_stays_test(self.nodes@);
        let removed = self.remove_flagged(&flags, Ghost(keep));
        proof {
            lemma_staying(old(self).nodes@, self.next_id);
        }
        removed
    }
}

/// Whether the node `id` stays when the room is left: it is marked to
/// persist, and so is every node above it.
pub open spec fn spec_stays(nodes: Seq<Node>, id: u64) -> bool
    decreases id,
{
    if spec_has_node(nodes, id) {
        let node = nodes[spec_node_index(nodes, id)];
        node.persist && match node.parent {
            Some(parent) => parent < id && spec_stays(nodes, parent),
            None => true,
        }
    } else {
        false
    }
}

/// The test by which a node stays when the room is left.
pub open spec fn spec_stays_test(nodes: Seq<Node>) -> spec_fn(Node) -> bool {
    |node: Node| spec_stays(nodes, node.id)
}

/// The nodes that stay when the room is left.
pub open spec fn spec_staying(nodes: Seq<Node>) -> Seq<Node> {
    nodes.filter(spec_stays_test(nodes))
}

/// A list that differs from a well-formed one only in what its nodes carry
/// besides identity, parent and entity is well formed too.
pub proof fn lemma_same_shape_wf(before: Seq<Node>, after: Seq<Node>, next_id: u64)
    requires
        spec_nodes_wf(before, next_id),
        after.len() == before.len(),
        forall|i: int|
            0 <= i < before.len() ==> after[i].id == before[i].id && after[i].parent
                == before[i].parent && after[i].entity.wf(),
    ensures
        spec_nodes_wf(after, next_id),
{
    assert forall|i: int, j: int| 0 <= i < j < after.len() implies after[i].id < after[j].id by {
        assert(before[i].id < before[j].id);
    }
    assert forall|i: int| 0 <= i < after.len() && after[i].parent.is_some() implies (
    #[trigger] after[i].parent.unwrap()) < after[i].id && spec_has_node(
        after,
        after[i].parent.unwrap(),
    ) by {
        let above = after[i].parent.unwrap();
        assert(before[i].parent.unwrap() < before[i].id);
        assert(spec_has_node(before, above));
        let found = spec_node_index(before, above);
        assert(after[found].id == above);
    }
}

/// Every element of a filtered list is an element of the list.
pub proof fn lemma_filter_subset<A>(items: Seq<A>, test: spec_fn(A) -> bool, i: int)
    requires
        0 <= i < items.filter(test).len(),
    ensures
        items.contains(items.filter(test)[i]),
    decreases items.len(),
{
    reveal(Seq::filter);
    if items.len() > 0 {
        let front = items.drop_last().filter(test);
        if i < front.len() {
            lemma_filter_subset(items.drop_last(), test, i);
            let found = choose|k: int|
                0 <= k < items.drop_last().len() && items.drop_last()[k] == front[i];
            assert(items[found] == front[i]);
        } else {
            assert(items[items.len() - 1] == items.filter(test)[i]);
        }
    }
}

/// A filtered list is shorter than the list where an element fails the test.
pub proof fn lemma_filter_shrinks<A>(items: Seq<A>, test: spec_fn(A) -> bool, at: int)
    requires
        0 <= at < items.len(),
        !test(items[at]),
    ensures
        items.filter(test).len() < items.len(),
    decreases items.len(),
{
    reveal(Seq::filter);
    items.drop_last().lemma_filter_len(test);
    if at < items.len() - 1 {
        lemma_filter_shrinks(items.drop_last(), test, at);
    }
}

/// Filtering keeps identities growing along the list.
pub proof fn lemma_filter_sorted(nodes: Seq<Node>, test: spec_fn(Node) -> bool)
    requires
        forall|i: int, j: int| 0 <= i < j < nodes.len() ==> nodes[i].id < nodes[j].id,
    ensures
        forall|i: int, j: int|
            0 <= i < j < nodes.filter(test).len() ==> nodes.filter(test)[i].id < nodes.filter(
                test,
            )[j].id,
    decreases nodes.len(),
{
    reveal(Seq::filter);
    if nodes.len() > 0 {
        let shorter = nodes.drop_last();
        let front = shorter.filter(test);
        assert forall|i: int, j: int| 0 <= i < j < shorter.len() implies shorter[i].id
            < shorter[j].id by {
            assert(nodes[i].id < nodes[j].id);
        }
        lemma_filter_sorted(shorter, test);
        let left = nodes.filter(test);
        assert forall|i: int, j: int| 0 <= i < j < left.len() implies left[i].id < left[j].id by {
            if j < front.len() {
                assert(front[i].id < front[j].id);
            } else {
                lemma_filter_subset(shorter, test, i);
                let found = choose|k: int| 0 <= k < shorter.len() && shorter[k] == front[i];
                assert(nodes[found].id < nodes[nodes.len() - 1].id);
            }
        }
    }
}

/// Filtering a well-formed list by a test that holds of the parent of every
/// node it holds of leaves a well-formed list.
pub proof fn lemma_filter_wf(nodes: Seq<Node>, next_id: u64, test: spec_fn(Node) -> bool)
    requires
        spec_nodes_wf(nodes, next_id),
        forall|i: int|
            0 <= i < nodes.len() && test(nodes[i]) && nodes[i].parent.is_some() ==> test(
                #[trigger] nodes[spec_node_index(nodes, nodes[i].parent.unwrap())],
            ),
    ensures
        spec_nodes_wf(nodes.filter(test), next_id),
{
    broadcast use vstd::seq_lib::group_filter_ensures;

    let left = nodes.filter(test);
    lemma_filter_sorted(nodes, test);
    assert forall|i: int| 0 <= i < left.len() implies nodes.contains(#[trigger] left[i]) by {
        lemma_filter_subset(nodes, test, i);
    }
    assert forall|i: int| 0 <= i < left.len() implies left[i].id < next_id && (
    #[trigger] left[i]).entity.wf() by {
        assert(nodes.contains(left[i]));
    }
    assert forall|i: int| 0 <= i < left.len() && left[i].parent.is_some() implies (
    #[trigger] left[i].parent.unwrap()) < left[i].id && spec_has_node(
        left,
        left[i].parent.unwrap(),
    ) by {
        assert(nodes.contains(left[i]));
        let at = choose|at: int| 0 <= at < nodes.len() && nodes[at] == left[i];
        let above = nodes[at].parent.unwrap();
        assert(above < nodes[at].id && spec_has_node(nodes, above));
        let found = spec_node_index(nodes, above);
        assert(test(left[i]));
        assert(test(nodes[found]));
        assert(left.contains(nodes[found]));
        let kept = choose|kept: int| 0 <= kept < left.len() && left[kept] == nodes[found];
        assert(left[kept].id == above);
    }
}

/// What removing a subtree leaves: a well-formed list without the root, and
/// the whole list where the root is no node of it.
pub proof fn lemma_without_subtree(nodes: Seq<Node>, next_id: u64, root: u64)
    requires
        spec_nodes_wf(nodes, next_id),
    ensures
        spec_nodes_wf(spec_without_subtree(nodes, root), next_id),
        !spec_has_node(spec_without_subtree(nodes, root), root),
        !spec_has_node(nodes, root) ==> spec_without_subtree(nodes, root) == nodes,
        spec_has_node(nodes, root) ==> spec_without_subtree(nodes, root).len() < nodes.len(),
{
    broadcast use vstd::seq_lib::group_filter_ensures;

    let keep = spec_outside(nodes, root);
    let left = nodes.filter(keep);
    assert forall|i: int|
        0 <= i < nodes.len() && keep(nodes[i]) && nodes[i].parent.is_some() implies keep(
        #[trigger] nodes[spec_node_index(nodes, nodes[i].parent.unwrap())],
    ) by {
        lemma_subtree_step(nodes, next_id, root, i);
    }
    lemma_filter_wf(nodes, next_id, keep);
    if spec_has_node(left, root) {
        let at = spec_node_index(left, root);
        assert(keep(left[at]));
    }
    if !spec_has_node(nodes, root) {
        assert forall|i: int| 0 <= i < nodes.len() implies keep(nodes[i]) by {
            if spec_ancestor(nodes, root, nodes[i].id) {
                lemma_ancestor_is_node(nodes, next_id, root, nodes[i].id);
            }
        }
        lemma_filter_all(nodes, keep);
    } else {
        let at = spec_node_index(nodes, root);
        lemma_filter_shrinks(nodes, keep, at);
    }
}

/// What leaving a room leaves: a well-formed list of nodes marked to
/// persist.
pub proof fn lemma_staying(nodes: Seq<Node>, next_id: u64)
    requires
        spec_nodes_wf(nodes, next_id),
    ensures
        spec_nodes_wf(spec_staying(nodes), next_id),
        forall|i: int| 0 <= i < spec_staying(nodes).len() ==> (#[trigger] spec_staying(
            nodes,
        )[i]).persist,
{
    broadcast use vstd::seq_lib::group_filter_ensures;

    let keep = spec_stays_test(nodes);
    let left = nodes.filter(keep);
    assert forall|i: int|
        0 <= i < nodes.len() && keep(nodes[i]) && nodes[i].parent.is_some() implies keep(
        #[trigger] nodes[spec_node_index(nodes, nodes[i].parent.unwrap())],
    ) by {
        lemma_node_index(nodes, next_id, i);
    }
    lemma_filter_wf(nodes, next_id, keep);
    assert forall|i: int| 0 <= i < left.len() implies (#[trigger] left[i]).persist by {
        lemma_filter_subset(nodes, keep, i);
        let at = choose|at: int| 0 <= at < nodes.len() && nodes[at] == left[i];
        assert(keep(left[i]));
        lemma_node_index(nodes, next_id, at);
    }
}

} // verus!
