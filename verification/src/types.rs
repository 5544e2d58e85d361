use crate::document::{decode_graph, encode_graph, graph_of_json, json_of_graph};
use crate::error::GraphVizError;
use crate::laws::{lemma_merge_sets, lemma_with_edge_sets, lemma_with_node_sets};
use crate::model::{
    lemma_extends_transitive, lemma_first_is_handle, lemma_merge_edges_grows,
    lemma_merge_nodes_grows, lemma_with_edge, lemma_with_node, CallGraph,
};
use crate::store::{
    add_edge, add_node, edge_count, edge_endpoints, find_edge, graph_edges, graph_nodes, node_count,
    node_weight,
};
use crate::text::{describe, parse, parsed_json, render, rendered_json};
use petgraph::graph::Graph;
use petgraph::Directed;
use vstd::prelude::*;

verus! {

/// A function of the analysed program: the payload of a call-graph node.
///
/// Identity is the `name` alone; `source_file` is descriptive metadata.
#[derive(Debug)]
pub struct Function {
    pub name: String,
    pub source_file: Option<String>,
}

/// The mathematical value of a [`Function`].
pub ghost struct FunctionView {
    pub name: Seq<char>,
    pub source_file: Option<Seq<char>>,
}

/// The view of an optional string.
pub open spec fn option_string_view(s: Option<String>) -> Option<Seq<char>> {
    match s {
        Some(text) => Some(text@),
        None => None,
    }
}

impl View for Function {
    type V = FunctionView;

    open spec fn view(&self) -> FunctionView {
        FunctionView { name: self.name@, source_file: option_string_view(self.source_file) }
    }
}

impl Clone for Function {
    fn clone(&self) -> (copy: Self)
        ensures
            copy@ == self@,
    {
        let source_file = match &self.source_file {
            Some(text) => Some(text.clone()),
            None => None,
        };
        Function { name: self.name.clone(), source_file }
    }
}

/// Two records are equal when they carry the same name, whatever their
/// source files.
impl PartialEq for Function {
    fn eq(&self, other: &Self) -> (equal: bool) {
        self.name == other.name
    }
}

impl vstd::std_specs::cmp::PartialEqSpecImpl for Function {
    open spec fn obeys_eq_spec() -> bool {
        true
    }

    open spec fn eq_spec(&self, other: &Self) -> bool {
        self.name@ == other.name@
    }
}

/// Builds a [`Function`]: the name is fixed at the start, the source file
/// may be attached afterwards.
pub struct FunctionBuilder {
    pub name: String,
    pub source_file: Option<String>,
}

impl FunctionBuilder {
    /// Starts a record of this name, without a source file.
    pub fn new(name: &str) -> (builder: Self)
        ensures
            builder.name@ == name@,
            builder.source_file is None,
    {
        Self { name: name.to_owned(), source_file: None }
    }

    /// The record that was built.
    pub fn build(self) -> (function: Function)
        ensures
            function.name == self.name,
            function.source_file == self.source_file,
    {
        Function { name: self.name, source_file: self.source_file }
    }

    /// Attaches a source file, in the place of any that was attached.
    pub fn source_file(&mut self, source_file: &str) -> (builder: &mut Self)
        ensures
            builder.name == old(self).name,
            option_string_view(builder.source_file) == Some(source_file@),
            *final(self) == *final(builder),
    {
        self.source_file = Some(source_file.to_owned());
        self
    }
}

/// The value of a graph: its node list and its edge list.
pub open spec fn graph_model(graph: Graph<Function, (), Directed, u32>) -> CallGraph {
    CallGraph { nodes: graph_nodes(graph), edges: graph_edges(graph) }
}

/// Finds the node that carries `node`'s name, or appends `node` where no
/// node carries it, and returns the handle of that node: the first
/// position of the node list that carries the name.
///
/// A node that is found is left as it is: its recorded source file stays.
/// The graph must have room for the node where it is new.
pub fn get_index_or_insert_node(graph: &mut Graph<Function, ()>, node: Function) -> (index: usize)
    requires
        graph_model(*old(graph)).with_node(node@).nodes.len() <= u32::MAX,
    ensures
        graph_model(*final(graph)) == graph_model(*old(graph)).with_node(node@),
        graph_model(*final(graph)).is_first(node@.name, index as int),
        index == graph_model(*final(graph)).handle(node@.name),
        graph_model(*final(graph)).extends(graph_model(*old(graph))),
        graph_model(*old(graph)).well_formed() ==> graph_model(*final(graph)).well_formed(),
{
    proof {
        lemma_with_node(graph_model(*graph), node@);
        if graph_model(*graph).linked() {
            lemma_with_node_sets(graph_model(*graph), node@);
        }
    }
    let count = node_count(graph);
    let mut i: usize = 0;
    while i < count
        invariant
            i <= count,
            count == graph_nodes(*graph).len(),
            *graph == *old(graph),
            forall|j: int| 0 <= j < i ==> (#[trigger] graph_nodes(*graph)[j]).name != node@.name,
        decreases count - i,
    {
        if node_weight(graph, i).name == node.name {
            proof {
                let model = graph_model(*graph);
                assert(model.nodes[i as int].name == node@.name);
                assert(model.is_first(node@.name, i as int));
                lemma_first_is_handle(model, node@.name, i as int);
                lemma_with_node(model, node@);
            }
            return i;
        }
        i += 1;
    }
    proof {
        let model = graph_model(*graph);
        assert(!model.has_name(node@.name));
        lemma_with_node(model, node@);
        lemma_first_is_handle(model.with_node(node@), node@.name, count as int);
    }
    add_node(graph, node)
}

/// Finds or inserts the nodes that carry the names of `a` and of `b`, then
/// finds the edge from the first to the second, or appends it where there
/// is none, and returns the position of that edge. Where the graph came
/// with several such edges, the position is that of one of them.
///
/// The graph must have room for what is new.
pub fn get_index_or_insert_edge(
    graph: &mut Graph<Function, ()>,
    a: Function,
    b: Function,
    _edge: (),
) -> (index: usize)
    requires
        graph_model(*old(graph)).with_edge(a@, b@).fits(),
    ensures
        graph_model(*final(graph)) == graph_model(*old(graph)).with_edge(a@, b@),
        index < graph_model(*final(graph)).edges.len(),
        graph_model(*final(graph)).edges[index as int] == (
            graph_model(*final(graph)).handle(a@.name),
            graph_model(*final(graph)).handle(b@.name),
        ),
        graph_model(*final(graph)).edges.len() > graph_model(*old(graph)).edges.len() ==> index
            == graph_model(*old(graph)).edges.len(),
        graph_model(*final(graph)).extends(graph_model(*old(graph))),
        graph_model(*old(graph)).well_formed() ==> graph_model(*final(graph)).well_formed(),
{
    proof {
        if graph_model(*graph).linked() {
            lemma_with_edge_sets(graph_model(*graph), a@, b@);
        }
    }
    let ghost before = graph_model(*graph);
    let ghost caller = a@;
    let ghost callee = b@;
    proof {
        lemma_with_node(before, caller);
        lemma_with_node(before.with_node(caller), callee);
        lemma_with_edge(before, caller, callee);
    }
    let source = get_index_or_insert_node(graph, a);
    let target = get_index_or_insert_node(graph, b);
    proof {
        let both = graph_model(*graph);
        assert(both.is_first(caller.name, source as int));
        lemma_first_is_handle(both, caller.name, source as int);
        lemma_first_is_handle(both, callee.name, target as int);
    }
    match find_edge(graph, source, target) {
        Some(found) => found,
        None => add_edge(graph, source, target),
    }
}

/// Folds `source` into `dest`: every node of `source` is inserted or found
/// in `dest`, then every edge of `source` is inserted or found between the
/// nodes that carry the names of its two ends. `source` is only read, and
/// what `dest` held stays where it was and as it was.
///
/// `dest` must have room for the result. The merge then always succeeds.
pub fn append_graph(dest: &mut Graph<Function, ()>, source: &mut Graph<Function, ()>) -> (result:
    Result<(), GraphVizError>)
    requires
        graph_model(*old(dest)).merge(graph_model(*old(source))).fits(),
    ensures
        result is Ok,
        *final(source) == *old(source),
        graph_model(*final(dest)) == graph_model(*old(dest)).merge(graph_model(*old(source))),
        graph_model(*old(source)).linked(),
        graph_model(*final(dest)).extends(graph_model(*old(dest))),
        graph_model(*old(dest)).linked() ==> {
            &&& graph_model(*final(dest)).linked()
            &&& graph_model(*final(dest)).node_names() == graph_model(
                *old(dest),
            ).node_names().union(graph_model(*old(source)).node_names())
            &&& graph_model(*final(dest)).call_pairs() == graph_model(
                *old(dest),
            ).call_pairs().union(graph_model(*old(source)).call_pairs())
        },
        graph_model(*old(dest)).well_formed() ==> graph_model(*final(dest)).well_formed(),
{
    let ghost before = graph_model(*dest);
    let ghost from = graph_model(*source);
    let ghost merged = before.merge(from);
    let nodes = node_count(source);
    let edges = edge_count(source);
    let ghost middle = before.merge_nodes(from.nodes, nodes as nat);
    proof {
        lemma_merge_edges_grows(middle, from, 0, edges as nat);
    }
    let mut i: usize = 0;
    while i < nodes
        invariant
            i <= nodes,
            nodes == from.nodes.len(),
            *source == *old(source),
            from == graph_model(*source),
            middle == before.merge_nodes(from.nodes, nodes as nat),
            middle.nodes.len() <= u32::MAX,
            graph_model(*dest) == before.merge_nodes(from.nodes, i as nat),
        decreases nodes - i,
    {
        let node = node_weight(source, i).clone();
        proof {
            lemma_merge_nodes_grows(before, from.nodes, (i + 1) as nat, nodes as nat);
        }
        let _ = get_index_or_insert_node(dest, node);
        i += 1;
    }
    let mut j: usize = 0;
    while j < edges
        invariant
            j <= edges,
            edges == from.edges.len(),
            *source == *old(source),
            from == graph_model(*source),
            merged == middle.merge_edges(from, edges as nat),
            merged.fits(),
            graph_model(*dest) == middle.merge_edges(from, j as nat),
            forall|e: int|
                0 <= e < j ==> 0 <= (#[trigger] from.edges[e]).0 < from.nodes.len() && 0
                    <= from.edges[e].1 < from.nodes.len(),
        decreases edges - j,
    {
        let ends = edge_endpoints(source, j);
        let caller = node_weight(source, ends.0).clone();
        let callee = node_weight(source, ends.1).clone();
        proof {
            lemma_merge_edges_grows(middle, from, (j + 1) as nat, edges as nat);
        }
        let _ = get_index_or_insert_edge(dest, caller, callee, ());
        j += 1;
    }
    proof {
        lemma_merge_nodes_grows(before, from.nodes, 0, nodes as nat);
        lemma_extends_transitive(before, middle, merged);
        if before.linked() {
            lemma_merge_sets(before, from);
        }
    }
    Ok(())
}

/// The graph that a durable text stands for, or `None` where the text is
/// no JSON or its document is not well-formed.
pub open spec fn stored_graph(content: Seq<char>) -> Option<CallGraph> {
    match parsed_json(content) {
        Some(document) => graph_of_json(document),
        None => None,
    }
}

/// The durable text of a graph, or `None` where the encoder refuses it.
pub open spec fn durable_text(graph: CallGraph) -> Option<Seq<char>> {
    rendered_json(json_of_graph(graph))
}

/// Reads a graph back from its durable text. A text that stands for no
/// graph is a decoding failure; nothing is made up in its place.
pub fn graph_from_json(content: &str) -> (result: Result<Graph<Function, ()>, GraphVizError>)
    ensures
        match stored_graph(content@) {
            Some(expected) => result is Ok && graph_model(result->Ok_0) == expected,
            None => result is Err && result->Err_0 is Decode,
        },
{
    match parse(content) {
        Ok(document) => decode_graph(&document),
        Err(error) => Err(GraphVizError::Decode(describe(&error))),
    }
}

/// Writes a graph as its durable text. The failure, where the encoder
/// refuses the document, counts as a failure to write.
pub fn graph_to_json(data: &Graph<Function, ()>) -> (result: Result<String, GraphVizError>)
    ensures
        match durable_text(graph_model(*data)) {
            Some(expected) => result is Ok && result->Ok_0@ == expected,
            None => result is Err && result->Err_0 is IO,
        },
{
    let document = encode_graph(data);
    match render(&document) {
        Ok(text) => Ok(text),
        Err(error) => Err(GraphVizError::IO(describe(&error))),
    }
}

} // verus!
