//! What holds of insertion and merge on every call graph: the effect of
//! each operation on the set of names and on the set of calls, the
//! invariants that it keeps, and the laws of deduplication and merging.

use crate::model::{
    lemma_extends_transitive, lemma_first_is_handle, lemma_handle_is_first,
    lemma_merge_edges_grows, lemma_merge_nodes_grows, lemma_with_edge, lemma_with_node, CallGraph,
};
use crate::types::FunctionView;
use vstd::prelude::*;

verus! {

/// One of the first `count` records carries this name.
pub open spec fn named_among(nodes: Seq<FunctionView>, count: nat, name: Seq<char>) -> bool {
    exists|i: int| 0 <= i < count && #[trigger] nodes[i].name == name
}

/// One of the first `count` edges of `source` leads from a node named
/// `caller` to a node named `callee`.
pub open spec fn called_among(
    source: CallGraph,
    count: nat,
    caller: Seq<char>,
    callee: Seq<char>,
) -> bool {
    exists|e: int|
        0 <= e < count && source.nodes[(#[trigger] source.edges[e]).0].name == caller
            && source.nodes[source.edges[e].1].name == callee
}

/// Inserting a node adds its name to the names, leaves the calls as they
/// are and keeps each invariant.
pub proof fn lemma_with_node_sets(graph: CallGraph, node: FunctionView)
    requires
        graph.linked(),
    ensures
        graph.with_node(node).linked(),
        forall|name: Seq<char>| #[trigger]
            graph.with_node(node).has_name(name) <==> graph.has_name(name) || name == node.name,
        forall|caller: Seq<char>, callee: Seq<char>| #[trigger]
            graph.with_node(node).has_call(caller, callee) <==> graph.has_call(caller, callee),
        graph.unique_nodes() ==> graph.with_node(node).unique_nodes(),
        graph.unique_edges() ==> graph.with_node(node).unique_edges(),
{
    let after = graph.with_node(node);
    lemma_with_node(graph, node);
    if !graph.has_name(node.name) {
        let last = graph.nodes.len() as int;
        assert forall|name: Seq<char>| #[trigger]
            after.has_name(name) <==> graph.has_name(name) || name == node.name by {
            if after.has_name(name) {
                let i = choose|i: int|
                    0 <= i < after.nodes.len() && #[trigger] after.nodes[i].name == name;
                if i < last {
                    assert(graph.nodes[i].name == name);
                }
            }
            if graph.has_name(name) {
                let i = choose|i: int|
                    0 <= i < graph.nodes.len() && #[trigger] graph.nodes[i].name == name;
                assert(after.nodes[i].name == name);
            }
            if name == node.name {
                assert(after.nodes[last].name == name);
            }
        }
        assert forall|caller: Seq<char>, callee: Seq<char>| #[trigger]
            after.has_call(caller, callee) <==> graph.has_call(caller, callee) by {
            if after.has_call(caller, callee) {
                let e = choose|e: int|
                    0 <= e < after.edges.len() && after.nodes[(#[trigger] after.edges[e]).0].name
                        == caller && after.nodes[after.edges[e].1].name == callee;
                assert(graph.nodes[graph.edges[e].0].name == caller);
                assert(graph.nodes[graph.edges[e].1].name == callee);
            }
            if graph.has_call(caller, callee) {
                let e = choose|e: int|
                    0 <= e < graph.edges.len() && graph.nodes[(#[trigger] graph.edges[e]).0].name
                        == caller && graph.nodes[graph.edges[e].1].name == callee;
                assert(after.nodes[after.edges[e].0].name == caller);
                assert(after.nodes[after.edges[e].1].name == callee);
            }
        }
        if graph.unique_nodes() {
            assert forall|i: int, j: int| 0 <= i < j < after.nodes.len() implies #[trigger]
                after.nodes[i].name != #[trigger] after.nodes[j].name by {
                if j < last {
                    assert(graph.nodes[i].name != graph.nodes[j].name);
                } else {
                    assert(graph.nodes[i].name != node.name);
                }
            }
        }
    }
}

/// Inserting an edge between two positions adds the call between their
/// names, leaves the nodes as they are and keeps each invariant.
pub proof fn lemma_with_link_sets(graph: CallGraph, source: int, target: int)
    requires
        graph.linked(),
        0 <= source < graph.nodes.len(),
        0 <= target < graph.nodes.len(),
    ensures
        graph.with_link(source, target).linked(),
        graph.with_link(source, target).nodes == graph.nodes,
        graph.with_link(source, target).has_edge(source, target),
        forall|caller: Seq<char>, callee: Seq<char>| #[trigger]
            graph.with_link(source, target).has_call(caller, callee) <==> graph.has_call(
                caller,
                callee,
            ) || (caller == graph.nodes[source].name && callee == graph.nodes[target].name),
        graph.unique_edges() ==> graph.with_link(source, target).unique_edges(),
{
    let after = graph.with_link(source, target);
    let from = graph.nodes[source].name;
    let to = graph.nodes[target].name;
    if graph.has_edge(source, target) {
        let e = choose|e: int| 0 <= e < graph.edges.len() && #[trigger] graph.edges[e] == (
            source,
            target,
        );
        assert(graph.nodes[graph.edges[e].0].name == from);
        assert(graph.has_call(from, to));
    } else {
        let last = graph.edges.len() as int;
        assert(after.edges[last] == (source, target));
        assert forall|e: int| 0 <= e < after.edges.len() implies 0 <= (
        #[trigger] after.edges[e]).0 < after.nodes.len() && 0 <= after.edges[e].1
            < after.nodes.len() by {
            if e < last {
                assert(after.edges[e] == graph.edges[e]);
            }
        }
        assert forall|caller: Seq<char>, callee: Seq<char>| #[trigger]
            after.has_call(caller, callee) <==> graph.has_call(caller, callee) || (caller == from
                && callee == to) by {
            if after.has_call(caller, callee) {
                let e = choose|e: int|
                    0 <= e < after.edges.len() && after.nodes[(#[trigger] after.edges[e]).0].name
                        == caller && after.nodes[after.edges[e].1].name == callee;
                if e < last {
                    assert(graph.nodes[graph.edges[e].0].name == caller);
                    assert(graph.nodes[graph.edges[e].1].name == callee);
                }
            }
            if graph.has_call(caller, callee) {
                let e = choose|e: int|
                    0 <= e < graph.edges.len() && graph.nodes[(#[trigger] graph.edges[e]).0].name
                        == caller && graph.nodes[graph.edges[e].1].name == callee;
                assert(after.nodes[after.edges[e].0].name == caller);
                assert(after.nodes[after.edges[e].1].name == callee);
            }
            if caller == from && callee == to {
                assert(after.nodes[after.edges[last].0].name == caller);
                assert(after.nodes[after.edges[last].1].name == callee);
            }
        }
        if graph.unique_edges() {
            assert forall|i: int, j: int| 0 <= i < j < after.edges.len() implies #[trigger]
                after.edges[i] != #[trigger] after.edges[j] by {
                if j < last {
                    assert(graph.edges[i] != graph.edges[j]);
                } else {
                    assert(graph.edges[i] != (source, target));
                }
            }
        }
    }
}

/// Inserting an edge between two records adds their names to the names and
/// the call between them to the calls, and keeps each invariant.
pub proof fn lemma_with_edge_sets(graph: CallGraph, caller: FunctionView, callee: FunctionView)
    requires
        graph.linked(),
    ensures
        graph.with_edge(caller, callee).linked(),
        forall|name: Seq<char>| #[trigger]
            graph.with_edge(caller, callee).has_name(name) <==> graph.has_name(name) || name
                == caller.name || name == callee.name,
        forall|from: Seq<char>, to: Seq<char>| #[trigger]
            graph.with_edge(caller, callee).has_call(from, to) <==> graph.has_call(from, to) || (
            from == caller.name && to == callee.name),
        graph.unique_nodes() ==> graph.with_edge(caller, callee).unique_nodes(),
        graph.unique_edges() ==> graph.with_edge(caller, callee).unique_edges(),
{
    let first = graph.with_node(caller);
    let both = first.with_node(callee);
    let after = graph.with_edge(caller, callee);
    lemma_with_node_sets(graph, caller);
    lemma_with_node_sets(first, callee);
    assert(first.has_name(caller.name));
    assert(both.has_name(caller.name));
    assert(both.has_name(callee.name));
    lemma_handle_is_first(both, caller.name);
    lemma_handle_is_first(both, callee.name);
    let source = both.handle(caller.name);
    let target = both.handle(callee.name);
    lemma_with_link_sets(both, source, target);
    assert forall|name: Seq<char>| #[trigger]
        after.has_name(name) <==> graph.has_name(name) || name == caller.name || name
            == callee.name by {
        assert(after.has_name(name) <==> both.has_name(name));
        assert(both.has_name(name) <==> first.has_name(name) || name == callee.name);
        assert(first.has_name(name) <==> graph.has_name(name) || name == caller.name);
    }
    assert forall|from: Seq<char>, to: Seq<char>| #[trigger]
        after.has_call(from, to) <==> graph.has_call(from, to) || (from == caller.name && to
            == callee.name) by {
        assert(both.has_call(from, to) <==> first.has_call(from, to));
        assert(first.has_call(from, to) <==> graph.has_call(from, to));
    }
}

/// Merging the first `count` records adds their names to the names,
/// leaves the edges as they are and keeps each invariant.
pub proof fn lemma_merge_nodes_sets(graph: CallGraph, nodes: Seq<FunctionView>, count: nat)
    requires
        graph.linked(),
    ensures
        graph.merge_nodes(nodes, count).linked(),
        graph.merge_nodes(nodes, count).edges == graph.edges,
        forall|name: Seq<char>| #[trigger]
            graph.merge_nodes(nodes, count).has_name(name) <==> graph.has_name(name)
                || named_among(nodes, count, name),
        forall|caller: Seq<char>, callee: Seq<char>| #[trigger]
            graph.merge_nodes(nodes, count).has_call(caller, callee) <==> graph.has_call(
                caller,
                callee,
            ),
        graph.unique_nodes() ==> graph.merge_nodes(nodes, count).unique_nodes(),
        graph.unique_edges() ==> graph.merge_nodes(nodes, count).unique_edges(),
    decreases count,
{
    if count > 0 {
        let before = graph.merge_nodes(nodes, (count - 1) as nat);
        let after = graph.merge_nodes(nodes, count);
        lemma_merge_nodes_sets(graph, nodes, (count - 1) as nat);
        lemma_with_node_sets(before, nodes[count - 1]);
        assert forall|name: Seq<char>| #[trigger]
            after.has_name(name) <==> graph.has_name(name) || named_among(nodes, count, name) by {
            assert(after.has_name(name) <==> before.has_name(name) || name == nodes[count
                - 1].name);
            assert(before.has_name(name) <==> graph.has_name(name) || named_among(
                nodes,
                (count - 1) as nat,
                name,
            ));
            if named_among(nodes, count, name) {
                let i = choose|i: int| 0 <= i < count && #[trigger] nodes[i].name == name;
                if i < count - 1 {
                    assert(named_among(nodes, (count - 1) as nat, name));
                }
            }
            if named_among(nodes, (count - 1) as nat, name) {
                let i = choose|i: int| 0 <= i < count - 1 && #[trigger] nodes[i].name == name;
                assert(nodes[i].name == name);
            }
            if name == nodes[count - 1].name {
                assert(nodes[count - 1].name == name);
            }
        }
        assert forall|caller: Seq<char>, callee: Seq<char>| #[trigger]
            after.has_call(caller, callee) <==> graph.has_call(caller, callee) by {
            assert(after.has_call(caller, callee) <==> before.has_call(caller, callee));
            assert(before.has_call(caller, callee) <==> graph.has_call(caller, callee));
        }
    }
}

/// Merging the first `count` edges of a graph whose names are all present
/// adds their calls to the calls, leaves the nodes as they are and keeps
/// each invariant.
pub proof fn lemma_merge_edges_sets(graph: CallGraph, source: CallGraph, count: nat)
    requires
        graph.linked(),
        source.linked(),
        count <= source.edges.len(),
        forall|i: int|
            0 <= i < source.nodes.len() ==> graph.has_name(#[trigger] source.nodes[i].name),
    ensures
        graph.merge_edges(source, count).linked(),
        graph.merge_edges(source, count).nodes == graph.nodes,
        forall|caller: Seq<char>, callee: Seq<char>| #[trigger]
            graph.merge_edges(source, count).has_call(caller, callee) <==> graph.has_call(
                caller,
                callee,
            ) || called_among(source, count, caller, callee),
        graph.unique_edges() ==> graph.merge_edges(source, count).unique_edges(),
    decreases count,
{
    if count > 0 {
        let before = graph.merge_edges(source, (count - 1) as nat);
        let after = graph.merge_edges(source, count);
        let ends = source.edges[count - 1];
        let from = source.nodes[ends.0];
        let to = source.nodes[ends.1];
        lemma_merge_edges_sets(graph, source, (count - 1) as nat);
        assert(graph.has_name(from.name));
        assert(graph.has_name(to.name));
        assert(before.has_name(from.name));
        assert(before.has_name(to.name));
        lemma_with_edge_sets(before, from, to);
        lemma_with_edge(before, from, to);
        assert(after.nodes == graph.nodes);
        assert forall|caller: Seq<char>, callee: Seq<char>| #[trigger]
            after.has_call(caller, callee) <==> graph.has_call(caller, callee) || called_among(
                source,
                count,
                caller,
                callee,
            ) by {
            assert(after.has_call(caller, callee) <==> before.has_call(caller, callee) || (caller
                == from.name && callee == to.name));
            assert(before.has_call(caller, callee) <==> graph.has_call(caller, callee)
                || called_among(source, (count - 1) as nat, caller, callee));
            if called_among(source, count, caller, callee) {
                let e = choose|e: int|
                    0 <= e < count && source.nodes[(#[trigger] source.edges[e]).0].name == caller
                        && source.nodes[source.edges[e].1].name == callee;
                if e < count - 1 {
                    assert(called_among(source, (count - 1) as nat, caller, callee));
                }
            }
            if called_among(source, (count - 1) as nat, caller, callee) {
                let e = choose|e: int|
                    0 <= e < count - 1 && source.nodes[(#[trigger] source.edges[e]).0].name
                        == caller && source.nodes[source.edges[e].1].name == callee;
                assert(source.nodes[source.edges[e].0].name == caller);
            }
            if caller == from.name && callee == to.name {
                assert(source.nodes[source.edges[count - 1].0].name == caller);
            }
        }
    }
}

/// What a merge does: the destination is extended, never rewritten; the
/// names become the union of the two sets of names and the calls the union
/// of the two sets of calls; each invariant of the destination is kept.
pub proof fn lemma_merge_sets(dest: CallGraph, source: CallGraph)
    requires
        dest.linked(),
        source.linked(),
    ensures
        dest.merge(source).extends(dest),
        dest.merge(source).linked(),
        dest.merge(source).node_names() == dest.node_names().union(source.node_names()),
        dest.merge(source).call_pairs() == dest.call_pairs().union(source.call_pairs()),
        dest.unique_nodes() ==> dest.merge(source).unique_nodes(),
        dest.unique_edges() ==> dest.merge(source).unique_edges(),
        dest.well_formed() ==> dest.merge(source).well_formed(),
{
    let count = source.nodes.len();
    let middle = dest.merge_nodes(source.nodes, count);
    let merged = dest.merge(source);
    lemma_merge_nodes_sets(dest, source.nodes, count);
    lemma_merge_nodes_grows(dest, source.nodes, 0, count);
    assert forall|i: int| 0 <= i < source.nodes.len() implies middle.has_name(
        #[trigger] source.nodes[i].name,
    ) by {
        assert(named_among(source.nodes, count, source.nodes[i].name));
    }
    lemma_merge_edges_sets(middle, source, source.edges.len());
    lemma_merge_edges_grows(middle, source, 0, source.edges.len());
    lemma_extends_transitive(dest, middle, merged);
    assert forall|name: Seq<char>| #[trigger]
        merged.has_name(name) <==> dest.has_name(name) || source.has_name(name) by {
        assert(merged.has_name(name) <==> middle.has_name(name));
        assert(middle.has_name(name) <==> dest.has_name(name) || named_among(
            source.nodes,
            count,
            name,
        ));
    }
    assert(merged.node_names() =~= dest.node_names().union(source.node_names()));
    assert forall|caller: Seq<char>, callee: Seq<char>| #[trigger]
        merged.has_call(caller, callee) <==> dest.has_call(caller, callee) || source.has_call(
            caller,
            callee,
        ) by {
        assert(merged.has_call(caller, callee) <==> middle.has_call(caller, callee)
            || called_among(source, source.edges.len(), caller, callee));
        assert(middle.has_call(caller, callee) <==> dest.has_call(caller, callee));
    }
    assert(merged.call_pairs() =~= dest.call_pairs().union(source.call_pairs()));
}

/// Node deduplication. Two records of one name, inserted one after the
/// other, get the same handle, and the second insertion changes nothing.
/// Two records of different names get different handles.
pub proof fn law_node_dedup(graph: CallGraph, first: FunctionView, second: FunctionView)
    ensures
        first.name == second.name ==> graph.with_node(first).with_node(second) == graph.with_node(
            first,
        ) && graph.with_node(first).with_node(second).handle(second.name) == graph.with_node(
            first,
        ).handle(first.name),
        first.name != second.name ==> graph.with_node(first).with_node(second).handle(second.name)
            != graph.with_node(first).handle(first.name),
{
    let one = graph.with_node(first);
    let two = one.with_node(second);
    lemma_with_node(graph, first);
    lemma_with_node(one, second);
    lemma_handle_is_first(one, first.name);
    lemma_handle_is_first(two, second.name);
    assert(two.is_first(first.name, one.handle(first.name)));
}

/// Edge deduplication. Inserting a call between the same two names a
/// second time changes nothing, so that the two insertions together add
/// one edge at most.
pub proof fn law_edge_dedup(
    graph: CallGraph,
    caller: FunctionView,
    callee: FunctionView,
    caller_again: FunctionView,
    callee_again: FunctionView,
)
    requires
        caller.name == caller_again.name,
        callee.name == callee_again.name,
    ensures
        graph.with_edge(caller, callee).with_edge(caller_again, callee_again) == graph.with_edge(
            caller,
            callee,
        ),
        graph.with_edge(caller, callee).edges.len() <= graph.edges.len() + 1,
{
    let once = graph.with_edge(caller, callee);
    lemma_with_edge(graph, caller, callee);
    lemma_first_is_handle(once, caller.name, once.handle(caller.name));
    lemma_first_is_handle(once, callee.name, once.handle(callee.name));
    assert(once.with_node(caller_again) == once);
    assert(once.with_node(caller_again).with_node(callee_again) == once);
}

/// Merging the first `count` nodes of a graph into itself changes nothing.
proof fn lemma_merge_own_nodes(graph: CallGraph, count: nat)
    requires
        count <= graph.nodes.len(),
    ensures
        graph.merge_nodes(graph.nodes, count) == graph,
    decreases count,
{
    if count > 0 {
        lemma_merge_own_nodes(graph, (count - 1) as nat);
        assert(graph.nodes[count - 1].name == graph.nodes[count - 1].name);
        assert(graph.has_name(graph.nodes[count - 1].name));
    }
}

/// Merging the first `count` edges of a graph without duplicate names into
/// itself changes nothing.
proof fn lemma_merge_own_edges(graph: CallGraph, count: nat)
    requires
        graph.linked(),
        graph.unique_nodes(),
        count <= graph.edges.len(),
    ensures
        graph.merge_edges(graph, count) == graph,
    decreases count,
{
    if count > 0 {
        lemma_merge_own_edges(graph, (count - 1) as nat);
        let ends = graph.edges[count - 1];
        let from = graph.nodes[ends.0];
        let to = graph.nodes[ends.1];
        assert(graph.is_first(from.name, ends.0));
        assert(graph.is_first(to.name, ends.1));
        lemma_first_is_handle(graph, from.name, ends.0);
        lemma_first_is_handle(graph, to.name, ends.1);
        assert(graph.edges[count - 1] == (ends.0, ends.1));
        assert(graph.has_edge(ends.0, ends.1));
    }
}

/// Merge idempotence. Merging a graph into itself leaves its set of names
/// and its set of calls as they are; where no two nodes share a name, it
/// leaves the graph itself as it is.
pub proof fn law_merge_idempotent(graph: CallGraph)
    requires
        graph.linked(),
    ensures
        graph.merge(graph).node_names() == graph.node_names(),
        graph.merge(graph).call_pairs() == graph.call_pairs(),
        graph.unique_nodes() ==> graph.merge(graph) == graph,
{
    lemma_merge_sets(graph, graph);
    assert(graph.node_names().union(graph.node_names()) =~= graph.node_names());
    assert(graph.call_pairs().union(graph.call_pairs()) =~= graph.call_pairs());
    if graph.unique_nodes() {
        lemma_merge_own_nodes(graph, graph.nodes.len());
        lemma_merge_own_edges(graph, graph.edges.len());
    }
}

/// Merge commutativity. Merging two graphs into an empty destination gives
/// the same set of names and the same set of calls in either order, and the
/// same sets as merging the second into the first directly.
pub proof fn law_merge_commutes(left: CallGraph, right: CallGraph)
    requires
        left.linked(),
        right.linked(),
    ensures
        CallGraph::empty().merge(left).merge(right).node_names() == CallGraph::empty().merge(
            right,
        ).merge(left).node_names(),
        CallGraph::empty().merge(left).merge(right).call_pairs() == CallGraph::empty().merge(
            right,
        ).merge(left).call_pairs(),
        left.merge(right).node_names() == CallGraph::empty().merge(left).merge(right).node_names(),
        left.merge(right).call_pairs() == CallGraph::empty().merge(left).merge(right).call_pairs(),
{
    let none = CallGraph::empty();
    lemma_merge_sets(none, left);
    lemma_merge_sets(none, right);
    lemma_merge_sets(none.merge(left), right);
    lemma_merge_sets(none.merge(right), left);
    lemma_merge_sets(left, right);
    assert(none.node_names() =~= Set::<Seq<char>>::empty());
    assert(none.call_pairs() =~= Set::<(Seq<char>, Seq<char>)>::empty());
    let names_l = left.node_names();
    let names_r = right.node_names();
    let calls_l = left.call_pairs();
    let calls_r = right.call_pairs();
    assert(none.node_names().union(names_l).union(names_r) =~= none.node_names().union(
        names_r,
    ).union(names_l));
    assert(none.call_pairs().union(calls_l).union(calls_r) =~= none.call_pairs().union(
        calls_r,
    ).union(calls_l));
    assert(names_l.union(names_r) =~= none.node_names().union(names_l).union(names_r));
    assert(calls_l.union(calls_r) =~= none.call_pairs().union(calls_l).union(calls_r));
}

/// Merging the first `count` records appends `count` nodes at most.
proof fn lemma_merge_nodes_size(graph: CallGraph, nodes: Seq<FunctionView>, count: nat)
    ensures
        graph.merge_nodes(nodes, count).nodes.len() <= graph.nodes.len() + count,
        graph.merge_nodes(nodes, count).edges == graph.edges,
    decreases count,
{
    if count > 0 {
        lemma_merge_nodes_size(graph, nodes, (count - 1) as nat);
    }
}

/// Merging the first `count` edges appends `count` edges at most.
proof fn lemma_merge_edges_size(graph: CallGraph, source: CallGraph, count: nat)
    ensures
        graph.merge_edges(source, count).edges.len() <= graph.edges.len() + count,
    decreases count,
{
    if count > 0 {
        let ends = source.edges[count - 1];
        lemma_merge_edges_size(graph, source, (count - 1) as nat);
        lemma_with_edge(
            graph.merge_edges(source, (count - 1) as nat),
            source.nodes[ends.0],
            source.nodes[ends.1],
        );
    }
}

/// A merge appends no more nodes than the source has, and no more edges.
pub proof fn lemma_merge_size(dest: CallGraph, source: CallGraph)
    requires
        dest.linked(),
        source.linked(),
    ensures
        dest.merge(source).nodes.len() <= dest.nodes.len() + source.nodes.len(),
        dest.merge(source).edges.len() <= dest.edges.len() + source.edges.len(),
{
    let count = source.nodes.len();
    let middle = dest.merge_nodes(source.nodes, count);
    lemma_merge_nodes_size(dest, source.nodes, count);
    lemma_merge_nodes_sets(dest, source.nodes, count);
    assert forall|i: int| 0 <= i < source.nodes.len() implies middle.has_name(
        #[trigger] source.nodes[i].name,
    ) by {
        assert(named_among(source.nodes, count, source.nodes[i].name));
    }
    lemma_merge_edges_sets(middle, source, source.edges.len());
    lemma_merge_edges_size(middle, source, source.edges.len());
}

} // verus!
