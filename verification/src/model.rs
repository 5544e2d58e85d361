//! The mathematical call graph: a list of function records and a list of
//! edges between positions of that list, with the insert-or-find operations
//! and the merge as functions on such values.

use crate::types::FunctionView;
use vstd::prelude::*;

verus! {

/// A call graph as a value: the nodes in insertion order and the edges,
/// each a pair of node positions (caller, callee), in insertion order.
pub ghost struct CallGraph {
    pub nodes: Seq<FunctionView>,
    pub edges: Seq<(int, int)>,
}

impl CallGraph {
    /// The graph without nodes.
    pub open spec fn empty() -> CallGraph {
        CallGraph { nodes: Seq::empty(), edges: Seq::empty() }
    }

    /// Some node carries this name.
    pub open spec fn has_name(self, name: Seq<char>) -> bool {
        exists|i: int| 0 <= i < self.nodes.len() && #[trigger] self.nodes[i].name == name
    }

    /// `i` is the first position whose node carries this name.
    pub open spec fn is_first(self, name: Seq<char>, i: int) -> bool {
        &&& 0 <= i < self.nodes.len()
        &&& self.nodes[i].name == name
        &&& forall|j: int| 0 <= j < i ==> #[trigger] self.nodes[j].name != name
    }

    /// The handle of a name: the first position that carries it.
    pub open spec fn handle(self, name: Seq<char>) -> int {
        choose|i: int| self.is_first(name, i)
    }

    /// Some edge leads from position `source` to position `target`.
    pub open spec fn has_edge(self, source: int, target: int) -> bool {
        exists|e: int| 0 <= e < self.edges.len() && #[trigger] self.edges[e] == (source, target)
    }

    /// Some edge leads from a node named `caller` to a node named `callee`.
    pub open spec fn has_call(self, caller: Seq<char>, callee: Seq<char>) -> bool {
        exists|e: int|
            0 <= e < self.edges.len() && self.nodes[(#[trigger] self.edges[e]).0].name == caller
                && self.nodes[self.edges[e].1].name == callee
    }

    /// The set of node names.
    pub open spec fn node_names(self) -> Set<Seq<char>> {
        Set::new(|name: Seq<char>| self.has_name(name))
    }

    /// The set of calls, each as the pair of the caller's and the callee's
    /// name.
    pub open spec fn call_pairs(self) -> Set<(Seq<char>, Seq<char>)> {
        Set::new(|pair: (Seq<char>, Seq<char>)| self.has_call(pair.0, pair.1))
    }

    /// Referential integrity: both ends of every edge are positions of the
    /// node list.
    pub open spec fn linked(self) -> bool {
        forall|e: int|
            0 <= e < self.edges.len() ==> 0 <= (#[trigger] self.edges[e]).0 < self.nodes.len() && 0
                <= self.edges[e].1 < self.nodes.len()
    }

    /// No two nodes carry the same name.
    pub open spec fn unique_nodes(self) -> bool {
        forall|i: int, j: int|
            0 <= i < j < self.nodes.len() ==> #[trigger] self.nodes[i].name
                != #[trigger] self.nodes[j].name
    }

    /// No two edges join the same ordered pair of positions.
    pub open spec fn unique_edges(self) -> bool {
        forall|i: int, j: int|
            0 <= i < j < self.edges.len() ==> #[trigger] self.edges[i] != #[trigger] self.edges[j]
    }

    /// The three invariants of a call graph.
    pub open spec fn well_formed(self) -> bool {
        self.linked() && self.unique_nodes() && self.unique_edges()
    }

    /// `self` is what `earlier` was, with nodes and edges appended: every
    /// position of `earlier` still holds the same record and the same edge.
    pub open spec fn extends(self, earlier: CallGraph) -> bool {
        &&& earlier.nodes.len() <= self.nodes.len()
        &&& earlier.edges.len() <= self.edges.len()
        &&& self.nodes.subrange(0, earlier.nodes.len() as int) == earlier.nodes
        &&& self.edges.subrange(0, earlier.edges.len() as int) == earlier.edges
    }

    /// Insert-or-find of a node: unchanged where the name is present,
    /// the record appended where it is not.
    pub open spec fn with_node(self, node: FunctionView) -> CallGraph {
        if self.has_name(node.name) {
            self
        } else {
            CallGraph { nodes: self.nodes.push(node), edges: self.edges }
        }
    }

    /// Insert-or-find of an edge between two positions: unchanged where
    /// such an edge is present, the edge appended where it is not.
    pub open spec fn with_link(self, source: int, target: int) -> CallGraph {
        if self.has_edge(source, target) {
            self
        } else {
            CallGraph { nodes: self.nodes, edges: self.edges.push((source, target)) }
        }
    }

    /// Insert-or-find of an edge between two records: both ends are
    /// inserted or found, caller first, then the edge between their handles.
    pub open spec fn with_edge(self, caller: FunctionView, callee: FunctionView) -> CallGraph {
        let both = self.with_node(caller).with_node(callee);
        both.with_link(both.handle(caller.name), both.handle(callee.name))
    }

    /// The first `count` records of `nodes`, inserted or found in order.
    pub open spec fn merge_nodes(self, nodes: Seq<FunctionView>, count: nat) -> CallGraph
        decreases count,
    {
        if count == 0 {
            self
        } else {
            self.merge_nodes(nodes, (count - 1) as nat).with_node(nodes[count - 1])
        }
    }

    /// The first `count` edges of `source`, inserted or found in order, each
    /// by the records at its two ends in `source`.
    pub open spec fn merge_edges(self, source: CallGraph, count: nat) -> CallGraph
        decreases count,
    {
        if count == 0 {
            self
        } else {
            let ends = source.edges[count - 1];
            self.merge_edges(source, (count - 1) as nat).with_edge(
                source.nodes[ends.0],
                source.nodes[ends.1],
            )
        }
    }

    /// The merge of `source` into `self`: all its nodes, then all its edges.
    pub open spec fn merge(self, source: CallGraph) -> CallGraph {
        self.merge_nodes(source.nodes, source.nodes.len()).merge_edges(source, source.edges.len())
    }

    /// Both lists fit the 32-bit indices of the container.
    pub open spec fn fits(self) -> bool {
        self.nodes.len() <= u32::MAX && self.edges.len() <= u32::MAX
    }
}

/// A name has one first position.
pub proof fn lemma_first_unique(graph: CallGraph, name: Seq<char>, i: int, j: int)
    requires
        graph.is_first(name, i),
        graph.is_first(name, j),
    ensures
        i == j,
{
    if i < j {
        assert(graph.nodes[i].name == name);
    } else if j < i {
        assert(graph.nodes[j].name == name);
    }
}

/// A name that occurs at `at` has a first position, at or before `at`.
proof fn lemma_first_exists(graph: CallGraph, name: Seq<char>, at: int)
    requires
        0 <= at < graph.nodes.len(),
        graph.nodes[at].name == name,
    ensures
        exists|i: int| 0 <= i <= at && graph.is_first(name, i),
    decreases at,
{
    if exists|j: int| 0 <= j < at && #[trigger] graph.nodes[j].name == name {
        let j = choose|j: int| 0 <= j < at && #[trigger] graph.nodes[j].name == name;
        lemma_first_exists(graph, name, j);
    } else {
        assert(graph.is_first(name, at));
    }
}

/// The handle of a name that occurs is its first position.
pub proof fn lemma_handle_is_first(graph: CallGraph, name: Seq<char>)
    requires
        graph.has_name(name),
    ensures
        graph.is_first(name, graph.handle(name)),
{
    let at = choose|i: int| 0 <= i < graph.nodes.len() && #[trigger] graph.nodes[i].name == name;
    lemma_first_exists(graph, name, at);
}

/// A first position is the handle.
pub proof fn lemma_first_is_handle(graph: CallGraph, name: Seq<char>, i: int)
    requires
        graph.is_first(name, i),
    ensures
        graph.handle(name) == i,
        graph.has_name(name),
{
    lemma_first_unique(graph, name, i, graph.handle(name));
}

/// Inserting a node keeps every first position, and gives the new name one.
pub proof fn lemma_with_node(graph: CallGraph, node: FunctionView)
    ensures
        graph.with_node(node).extends(graph),
        graph.with_node(node).has_name(node.name),
        graph.with_node(node).edges == graph.edges,
        forall|name: Seq<char>, i: int|
            graph.is_first(name, i) ==> graph.with_node(node).is_first(name, i),
        !graph.has_name(node.name) ==> graph.with_node(node).is_first(
            node.name,
            graph.nodes.len() as int,
        ),
{
    let after = graph.with_node(node);
    if !graph.has_name(node.name) {
        assert(after.nodes[graph.nodes.len() as int].name == node.name);
        assert(after.is_first(node.name, graph.nodes.len() as int)) by {
            assert forall|j: int| 0 <= j < graph.nodes.len() implies #[trigger] after.nodes[j].name
                != node.name by {
                assert(graph.nodes[j].name != node.name);
            }
        }
    }
    assert(after.nodes.subrange(0, graph.nodes.len() as int) =~= graph.nodes);
    assert(after.edges.subrange(0, graph.edges.len() as int) =~= graph.edges);
    assert forall|name: Seq<char>, i: int| graph.is_first(name, i) implies after.is_first(
        name,
        i,
    ) by {
        assert forall|j: int| 0 <= j < i implies #[trigger] after.nodes[j].name != name by {
            assert(graph.nodes[j].name != name);
        }
    }
}

/// Inserting an edge appends to both lists at most, and ends with an edge
/// between the handles of the two names.
pub proof fn lemma_with_edge(graph: CallGraph, caller: FunctionView, callee: FunctionView)
    ensures
        graph.with_edge(caller, callee).extends(graph),
        graph.with_edge(caller, callee).nodes == graph.with_node(caller).with_node(callee).nodes,
        graph.with_edge(caller, callee).is_first(
            caller.name,
            graph.with_edge(caller, callee).handle(caller.name),
        ),
        graph.with_edge(caller, callee).is_first(
            callee.name,
            graph.with_edge(caller, callee).handle(callee.name),
        ),
        graph.with_edge(caller, callee).has_edge(
            graph.with_edge(caller, callee).handle(caller.name),
            graph.with_edge(caller, callee).handle(callee.name),
        ),
        graph.with_edge(caller, callee).edges.len() <= graph.edges.len() + 1,
{
    let first = graph.with_node(caller);
    let both = first.with_node(callee);
    let after = graph.with_edge(caller, callee);
    lemma_with_node(graph, caller);
    lemma_with_node(first, callee);
    lemma_handle_is_first(both, callee.name);
    assert(both.has_name(caller.name)) by {
        lemma_handle_is_first(first, caller.name);
        assert(both.is_first(caller.name, first.handle(caller.name)));
        lemma_first_is_handle(both, caller.name, first.handle(caller.name));
    }
    lemma_handle_is_first(both, caller.name);
    let source = both.handle(caller.name);
    let target = both.handle(callee.name);
    assert(after.nodes == both.nodes);
    assert(after.is_first(caller.name, source));
    assert(after.is_first(callee.name, target));
    lemma_first_is_handle(after, caller.name, source);
    lemma_first_is_handle(after, callee.name, target);
    if both.has_edge(source, target) {
    } else {
        assert(after.edges[both.edges.len() as int] == (source, target));
    }
    assert(after.nodes.subrange(0, graph.nodes.len() as int) =~= graph.nodes) by {
        assert(both.nodes.subrange(0, first.nodes.len() as int) == first.nodes);
        assert(first.nodes.subrange(0, graph.nodes.len() as int) == graph.nodes);
        assert forall|i: int| 0 <= i < graph.nodes.len() implies after.nodes[i]
            == graph.nodes[i] by {
            assert(both.nodes.subrange(0, first.nodes.len() as int)[i] == both.nodes[i]);
            assert(first.nodes.subrange(0, graph.nodes.len() as int)[i] == first.nodes[i]);
        }
    }
    assert(after.edges.subrange(0, graph.edges.len() as int) =~= graph.edges);
}

/// Appending twice is appending.
pub proof fn lemma_extends_transitive(first: CallGraph, second: CallGraph, third: CallGraph)
    requires
        second.extends(first),
        third.extends(second),
    ensures
        third.extends(first),
{
    assert(third.nodes.subrange(0, first.nodes.len() as int) =~= first.nodes) by {
        assert forall|i: int| 0 <= i < first.nodes.len() implies third.nodes[i]
            == first.nodes[i] by {
            assert(third.nodes.subrange(0, second.nodes.len() as int)[i] == third.nodes[i]);
            assert(second.nodes.subrange(0, first.nodes.len() as int)[i] == second.nodes[i]);
        }
    }
    assert(third.edges.subrange(0, first.edges.len() as int) =~= first.edges) by {
        assert forall|i: int| 0 <= i < first.edges.len() implies third.edges[i]
            == first.edges[i] by {
            assert(third.edges.subrange(0, second.edges.len() as int)[i] == third.edges[i]);
            assert(second.edges.subrange(0, first.edges.len() as int)[i] == second.edges[i]);
        }
    }
}

/// Every graph extends itself.
pub proof fn lemma_extends_reflexive(graph: CallGraph)
    ensures
        graph.extends(graph),
{
    assert(graph.nodes.subrange(0, graph.nodes.len() as int) =~= graph.nodes);
    assert(graph.edges.subrange(0, graph.edges.len() as int) =~= graph.edges);
}

/// Merging more nodes only appends nodes, and never touches the edges.
pub proof fn lemma_merge_nodes_grows(
    graph: CallGraph,
    nodes: Seq<FunctionView>,
    count: nat,
    upto: nat,
)
    requires
        count <= upto,
    ensures
        graph.merge_nodes(nodes, upto).extends(graph.merge_nodes(nodes, count)),
        graph.merge_nodes(nodes, upto).edges == graph.edges,
    decreases upto,
{
    if upto == 0 {
        lemma_extends_reflexive(graph);
    } else if count == upto {
        lemma_extends_reflexive(graph.merge_nodes(nodes, count));
        lemma_merge_nodes_grows(graph, nodes, 0, (upto - 1) as nat);
        lemma_with_node(graph.merge_nodes(nodes, (upto - 1) as nat), nodes[upto - 1]);
    } else {
        let before = graph.merge_nodes(nodes, (upto - 1) as nat);
        lemma_merge_nodes_grows(graph, nodes, count, (upto - 1) as nat);
        lemma_with_node(before, nodes[upto - 1]);
        lemma_extends_transitive(
            graph.merge_nodes(nodes, count),
            before,
            graph.merge_nodes(nodes, upto),
        );
    }
}

/// Merging more edges only appends.
pub proof fn lemma_merge_edges_grows(graph: CallGraph, source: CallGraph, count: nat, upto: nat)
    requires
        count <= upto,
    ensures
        graph.merge_edges(source, upto).extends(graph.merge_edges(source, count)),
    decreases upto,
{
    if count == upto {
        lemma_extends_reflexive(graph.merge_edges(source, count));
    } else {
        let before = graph.merge_edges(source, (upto - 1) as nat);
        let ends = source.edges[upto - 1];
        lemma_merge_edges_grows(graph, source, count, (upto - 1) as nat);
        lemma_with_edge(before, source.nodes[ends.0], source.nodes[ends.1]);
        lemma_extends_transitive(
            graph.merge_edges(source, count),
            before,
            graph.merge_edges(source, upto),
        );
    }
}

} // verus!
