//! The graph container: `petgraph`'s adjacency-list graph, seen through the
//! two lists that it stores. Nothing in this file is proved: each function
//! makes one call into `petgraph` and states what that call does.
//!
//! Positions are handed in and out as `usize`. A graph with 32-bit indices
//! holds no more than `u32::MAX` nodes and as many edges, so that every
//! position of its lists is one of its indices.

use crate::types::{Function, FunctionView};
use petgraph::graph::{Graph, NodeIndex};
use petgraph::Directed;
use vstd::prelude::*;

verus! {

/// `petgraph::graph::Graph`, as a value that is carried through and read
/// only by the functions of this file.
#[verifier::external_type_specification]
#[verifier::external_body]
#[verifier::reject_recursive_types(N)]
#[verifier::reject_recursive_types(E)]
#[verifier::reject_recursive_types(Ty)]
#[verifier::reject_recursive_types(Ix)]
pub struct ExGraph<N, E, Ty, Ix>(Graph<N, E, Ty, Ix>);

/// `petgraph::Directed`, the marker of a graph with directed edges.
#[verifier::external_type_specification]
#[verifier::external_body]
pub struct ExDirected(Directed);

/// The node weights that a graph holds, in index order.
pub uninterp spec fn graph_nodes(graph: Graph<Function, (), Directed, u32>) -> Seq<FunctionView>;

/// The edges that a graph holds, in index order, each as the pair of the
/// positions of its source and its target in the node list.
pub uninterp spec fn graph_edges(graph: Graph<Function, (), Directed, u32>) -> Seq<(int, int)>;

/// `Graph::new`: a graph without nodes and without edges.
#[verifier::external_body]
pub(crate) fn new_graph() -> (graph: Graph<Function, (), Directed, u32>)
    ensures
        graph_nodes(graph) == Seq::<FunctionView>::empty(),
        graph_edges(graph) == Seq::<(int, int)>::empty(),
{
    Graph::new()
}

/// `Graph::node_count`: the length of the node list.
#[verifier::external_body]
pub(crate) fn node_count(graph: &Graph<Function, (), Directed, u32>) -> (count: usize)
    ensures
        count == graph_nodes(*graph).len(),
{
    graph.node_count()
}

/// `Graph::edge_count`: the length of the edge list.
#[verifier::external_body]
pub(crate) fn edge_count(graph: &Graph<Function, (), Directed, u32>) -> (count: usize)
    ensures
        count == graph_edges(*graph).len(),
{
    graph.edge_count()
}

/// Indexing a graph by a node index: the weight stored at that position.
/// `petgraph` panics on a position outside the node list, which `requires`
/// leaves out.
#[verifier::external_body]
pub(crate) fn node_weight(graph: &Graph<Function, (), Directed, u32>, index: usize) -> (node:
    &Function)
    requires
        index < graph_nodes(*graph).len(),
    ensures
        node@ == graph_nodes(*graph)[index as int],
{
    &graph[NodeIndex::new(index)]
}

/// `Graph::raw_edges`, read at one position with `Edge::source` and
/// `Edge::target`: the positions of that edge's two ends. Both lie inside
/// the node list: `petgraph` links an edge only between nodes that exist
/// (`add_edge` panics otherwise, and reading a stored graph back rejects
/// such an edge), and removes a node together with its edges. A position
/// outside the edge list panics, which `requires` leaves out.
#[verifier::external_body]
pub(crate) fn edge_endpoints(graph: &Graph<Function, (), Directed, u32>, index: usize) -> (ends: (
    usize,
    usize,
))
    requires
        index < graph_edges(*graph).len(),
    ensures
        (ends.0 as int, ends.1 as int) == graph_edges(*graph)[index as int],
        ends.0 < graph_nodes(*graph).len(),
        ends.1 < graph_nodes(*graph).len(),
{
    let edge = &graph.raw_edges()[index];
    (edge.source().index(), edge.target().index())
}

/// `Graph::find_edge` on a directed graph: the position of some edge from
/// `source` to `target`, or `None` when the edge list holds no such edge.
/// Where several such edges exist, which of them comes back is left open.
#[verifier::external_body]
pub(crate) fn find_edge(
    graph: &Graph<Function, (), Directed, u32>,
    source: usize,
    target: usize,
) -> (found: Option<usize>)
    requires
        source < graph_nodes(*graph).len(),
        target < graph_nodes(*graph).len(),
    ensures
        match found {
            Some(index) => index < graph_edges(*graph).len() && graph_edges(*graph)[index as int]
                == (source as int, target as int),
            None => forall|e: int|
                0 <= e < graph_edges(*graph).len() ==> graph_edges(*graph)[e] != (
                    source as int,
                    target as int,
                ),
        },
{
    graph.find_edge(NodeIndex::new(source), NodeIndex::new(target)).map(|edge| edge.index())
}

/// `Graph::add_node`: appends the weight to the node list, leaves the edges
/// alone and returns the position of the new node. The call panics when the
/// list already holds `u32::MAX` nodes, which `requires` leaves out.
#[verifier::external_body]
pub(crate) fn add_node(graph: &mut Graph<Function, (), Directed, u32>, node: Function) -> (index:
    usize)
    requires
        graph_nodes(*old(graph)).len() < u32::MAX,
    ensures
        graph_nodes(*final(graph)) == graph_nodes(*old(graph)).push(node@),
        graph_edges(*final(graph)) == graph_edges(*old(graph)),
        index == graph_nodes(*old(graph)).len(),
{
    graph.add_node(node).index()
}

/// `Graph::add_edge`: appends an edge from `source` to `target` to the edge
/// list, leaves the nodes alone and returns the position of the new edge.
/// The call panics when an endpoint is missing or when the list already
/// holds `u32::MAX` edges; `requires` leaves both out.
#[verifier::external_body]
pub(crate) fn add_edge(
    graph: &mut Graph<Function, (), Directed, u32>,
    source: usize,
    target: usize,
) -> (index: usize)
    requires
        source < graph_nodes(*old(graph)).len(),
        target < graph_nodes(*old(graph)).len(),
        graph_edges(*old(graph)).len() < u32::MAX,
    ensures
        graph_nodes(*final(graph)) == graph_nodes(*old(graph)),
        graph_edges(*final(graph)) == graph_edges(*old(graph)).push(
            (source as int, target as int),
        ),
        index == graph_edges(*old(graph)).len(),
{
    graph.add_edge(NodeIndex::new(source), NodeIndex::new(target), ()).index()
}

} // verus!
