//! The durable form of a call graph: a JSON document with the list of the
//! node records and the list of the edges, each edge a triple of the
//! positions of its two ends and an empty label.
//!
//! ```text
//! { "nodes": [ { "name": "main", "source_file": "a.ll" }, ... ],
//!   "node_holes": [],
//!   "edge_property": "directed",
//!   "edges": [ [0, 1, null], ... ] }
//! ```
//!
//! A reader takes fields that it does not know, in the document and in a
//! node record, for granted and passes over them.

use crate::error::GraphVizError;
use crate::json::{
    field, fields_view, is_first_key, items_view, lemma_lookup_found, lemma_view_of_lists, lookup,
    Json, JsonView,
};
use crate::model::CallGraph;
use crate::store::{
    add_edge, add_node, edge_count, edge_endpoints, new_graph, node_count, node_weight,
};
use crate::types::{graph_model, Function, FunctionView};
use petgraph::graph::Graph;
use vstd::prelude::*;

verus! {

/// The record that a JSON value stands for: an object with a text under
/// `name` and, under `source_file`, a text, `null` or nothing.
pub open spec fn record_of_json(node: JsonView) -> Option<FunctionView> {
    match node {
        JsonView::Object(fields) => match lookup(fields, "name"@) {
            Some(JsonView::Text(name)) => match lookup(fields, "source_file"@) {
                None | Some(JsonView::Null) => Some(FunctionView { name, source_file: None }),
                Some(JsonView::Text(file)) => Some(FunctionView { name, source_file: Some(file) }),
                Some(_) => None,
            },
            _ => None,
        },
        _ => None,
    }
}

/// The edge that a JSON value stands for, in a graph of `nodes` nodes: an
/// array of two positions below `nodes` and `null`.
pub open spec fn edge_of_json(edge: JsonView, nodes: nat) -> Option<(int, int)> {
    match edge {
        JsonView::Array(parts) => if parts.len() == 3 && parts[2] is Null {
            match (parts[0], parts[1]) {
                (
                    JsonView::Number(Some(source)),
                    JsonView::Number(Some(target)),
                ) => if source < nodes && target < nodes {
                    Some((source as int, target as int))
                } else {
                    None
                },
                _ => None,
            }
        } else {
            None
        },
        _ => None,
    }
}

/// What a document may hold under `node_holes`: nothing, or an empty list.
pub open spec fn holes_allowed(holes: Option<JsonView>) -> bool {
    match holes {
        None => true,
        Some(JsonView::Array(items)) => items.len() == 0,
        Some(_) => false,
    }
}

/// The graph that a list of JSON nodes and a list of JSON edges stand for,
/// or `None` where one list is longer than a graph can hold, or holds a
/// value that is no node or no edge.
pub open spec fn graph_of_lists(nodes: Seq<JsonView>, edges: Seq<JsonView>) -> Option<CallGraph> {
    if nodes.len() <= u32::MAX && edges.len() <= u32::MAX && (forall|i: int|
        0 <= i < nodes.len() ==> record_of_json(#[trigger] nodes[i]) is Some) && (forall|e: int|
        0 <= e < edges.len() ==> edge_of_json(#[trigger] edges[e], nodes.len()) is Some) {
        Some(
            CallGraph {
                nodes: Seq::new(nodes.len(), |i: int| record_of_json(nodes[i])->0),
                edges: Seq::new(edges.len(), |e: int| edge_of_json(edges[e], nodes.len())->0),
            },
        )
    } else {
        None
    }
}

/// The graph that a JSON document stands for, or `None` where the document
/// is not well-formed: where it is no object, lacks the node list or the
/// edge list, names holes, is not marked as directed, or where its lists
/// stand for no graph.
pub open spec fn graph_of_json(document: JsonView) -> Option<CallGraph> {
    match document {
        JsonView::Object(fields) => match (lookup(fields, "nodes"@), lookup(fields, "edges"@)) {
            (Some(JsonView::Array(nodes)), Some(JsonView::Array(edges))) => if holes_allowed(
                lookup(fields, "node_holes"@),
            ) && lookup(fields, "edge_property"@) == Some(JsonView::Text("directed"@)) {
                graph_of_lists(nodes, edges)
            } else {
                None
            },
            _ => None,
        },
        _ => None,
    }
}

/// The JSON value of a record.
pub open spec fn json_of_record(record: FunctionView) -> JsonView {
    JsonView::Object(
        seq![
            ("name"@, JsonView::Text(record.name)),
            (
                "source_file"@,
                match record.source_file {
                    Some(file) => JsonView::Text(file),
                    None => JsonView::Null,
                },
            ),
        ],
    )
}

/// The JSON value of an edge.
pub open spec fn json_of_edge(ends: (int, int)) -> JsonView {
    JsonView::Array(
        seq![
            JsonView::Number(Some(ends.0 as u64)),
            JsonView::Number(Some(ends.1 as u64)),
            JsonView::Null,
        ],
    )
}

/// The JSON document of a graph.
pub open spec fn json_of_graph(graph: CallGraph) -> JsonView {
    JsonView::Object(
        seq![
            (
                "nodes"@,
                JsonView::Array(
                    Seq::new(graph.nodes.len(), |i: int| json_of_record(graph.nodes[i])),
                ),
            ),
            ("node_holes"@, JsonView::Array(Seq::empty())),
            ("edge_property"@, JsonView::Text("directed"@)),
            (
                "edges"@,
                JsonView::Array(Seq::new(graph.edges.len(), |e: int| json_of_edge(graph.edges[e]))),
            ),
        ],
    )
}

/// Reads a record from a JSON value.
pub fn decode_record(node: &Json) -> (record: Option<Function>)
    ensures
        match record_of_json(node@) {
            Some(expected) => record is Some && record->0@ == expected,
            None => record is None,
        },
{
    proof {
        lemma_view_of_lists(*node);
    }
    match node {
        Json::Object(fields) => {
            match field(fields, "name") {
                Some(Json::Text(name)) => {
                    match field(fields, "source_file") {
                        None => Some(Function { name: name.clone(), source_file: None }),
                        Some(Json::Null) => Some(
                            Function { name: name.clone(), source_file: None },
                        ),
                        Some(Json::Text(file)) => Some(
                            Function { name: name.clone(), source_file: Some(file.clone()) },
                        ),
                        Some(other) => {
                            proof {
                                lemma_view_of_lists(*other);
                            }
                            None
                        },
                    }
                },
                Some(other) => {
                    proof {
                        lemma_view_of_lists(*other);
                    }
                    None
                },
                None => None,
            }
        },
        _ => None,
    }
}

/// Reads an edge of a graph of `nodes` nodes from a JSON value.
pub fn decode_edge(edge: &Json, nodes: usize) -> (ends: Option<(usize, usize)>)
    ensures
        match edge_of_json(edge@, nodes as nat) {
            Some(expected) => ends matches Some(found) && found.0 == expected.0 && found.1
                == expected.1,
            None => ends is None,
        },
{
    proof {
        lemma_view_of_lists(*edge);
    }
    match edge {
        Json::Array(parts) => {
            if parts.len() != 3 {
                return None;
            }
            proof {
                lemma_view_of_lists(parts@[0]);
                lemma_view_of_lists(parts@[1]);
                lemma_view_of_lists(parts@[2]);
            }
            match &parts[2] {
                Json::Null => {},
                _ => {
                    return None;
                },
            }
            match &parts[0] {
                Json::Number(Some(source)) => {
                    match &parts[1] {
                        Json::Number(Some(target)) => {
                            if *source < nodes as u64 && *target < nodes as u64 {
                                Some((*source as usize, *target as usize))
                            } else {
                                None
                            }
                        },
                        _ => None,
                    }
                },
                _ => None,
            }
        },
        _ => None,
    }
}

/// The failure of a reader on a document that is not well-formed.
fn malformed(reason: &str) -> (error: GraphVizError)
    ensures
        error is Decode,
        error.detail() == reason@,
{
    GraphVizError::Decode(reason.to_owned())
}

/// Reads a graph from a JSON document.
pub fn decode_graph(document: &Json) -> (result: Result<Graph<Function, ()>, GraphVizError>)
    ensures
        match graph_of_json(document@) {
            Some(expected) => result is Ok && graph_model(result->Ok_0) == expected,
            None => result is Err && result->Err_0 is Decode,
        },
{
    proof {
        lemma_view_of_lists(*document);
    }
    let fields = match document {
        Json::Object(fields) => fields,
        _ => {
            return Err(malformed("the document is no object"));
        },
    };
    let nodes = match field(fields, "nodes") {
        Some(found) => {
            proof {
                lemma_view_of_lists(*found);
            }
            match found {
                Json::Array(items) => items,
                _ => {
                    return Err(malformed("the node list is no list"));
                },
            }
        },
        None => {
            return Err(malformed("the node list is missing"));
        },
    };
    let edges = match field(fields, "edges") {
        Some(found) => {
            proof {
                lemma_view_of_lists(*found);
            }
            match found {
                Json::Array(items) => items,
                _ => {
                    return Err(malformed("the edge list is no list"));
                },
            }
        },
        None => {
            return Err(malformed("the edge list is missing"));
        },
    };
    match field(fields, "node_holes") {
        None => {},
        Some(found) => {
            proof {
                lemma_view_of_lists(*found);
            }
            match found {
                Json::Array(items) => {
                    if items.len() != 0 {
                        return Err(malformed("a graph has no holes among its nodes"));
                    }
                },
                _ => {
                    return Err(malformed("the list of holes is no list"));
                },
            }
        },
    }
    match field(fields, "edge_property") {
        Some(found) => {
            proof {
                lemma_view_of_lists(*found);
            }
            match found {
                Json::Text(property) => {
                    let directed = "directed".to_owned();
                    if !(*property == directed) {
                        return Err(malformed("the graph is not marked as directed"));
                    }
                },
                _ => {
                    return Err(malformed("the edge property is no text"));
                },
            }
        },
        None => {
            return Err(malformed("the edge property is missing"));
        },
    }
    let limit: usize = 0xFFFF_FFFF;
    let node_total = nodes.len();
    let edge_total = edges.len();
    if node_total > limit || edge_total > limit {
        return Err(malformed("the document holds more than a graph can"));
    }
    let ghost node_views = items_view(nodes@);
    let ghost edge_views = items_view(edges@);
    assert(graph_of_json(document@) == graph_of_lists(node_views, edge_views));
    let mut graph = new_graph();
    let mut i: usize = 0;
    while i < node_total
        invariant
            i <= node_total,
            node_total == nodes@.len(),
            node_total <= u32::MAX,
            node_views == items_view(nodes@),
            graph_of_json(document@) == graph_of_lists(node_views, edge_views),
            forall|j: int| 0 <= j < i ==> record_of_json(#[trigger] node_views[j]) is Some,
            graph_model(graph).nodes == Seq::new(
                i as nat,
                |j: int| record_of_json(node_views[j])->0,
            ),
            graph_model(graph).edges == Seq::<(int, int)>::empty(),
        decreases node_total - i,
    {
        match decode_record(&nodes[i]) {
            Some(record) => {
                let ghost before = graph_model(graph).nodes;
                let _ = add_node(&mut graph, record);
                assert(graph_model(graph).nodes =~= Seq::new(
                    (i + 1) as nat,
                    |j: int| record_of_json(node_views[j])->0,
                ));
            },
            None => {
                assert(record_of_json(node_views[i as int]) is None);
                return Err(malformed("a node is no record of a function"));
            },
        }
        i += 1;
    }
    let mut e: usize = 0;
    while e < edge_total
        invariant
            e <= edge_total,
            edge_total == edges@.len(),
            edge_total <= u32::MAX,
            node_total == nodes@.len(),
            edge_views == items_view(edges@),
            node_views == items_view(nodes@),
            graph_of_json(document@) == graph_of_lists(node_views, edge_views),
            forall|j: int| 0 <= j < node_total ==> record_of_json(#[trigger] node_views[j]) is Some,
            forall|j: int|
                0 <= j < e ==> edge_of_json(#[trigger] edge_views[j], node_total as nat) is Some,
            graph_model(graph).nodes == Seq::new(
                node_total as nat,
                |j: int| record_of_json(node_views[j])->0,
            ),
            graph_model(graph).edges == Seq::new(
                e as nat,
                |j: int| edge_of_json(edge_views[j], node_total as nat)->0,
            ),
        decreases edge_total - e,
    {
        match decode_edge(&edges[e], node_total) {
            Some(ends) => {
                let _ = add_edge(&mut graph, ends.0, ends.1);
                assert(graph_model(graph).edges =~= Seq::new(
                    (e + 1) as nat,
                    |j: int| edge_of_json(edge_views[j], node_total as nat)->0,
                ));
            },
            None => {
                assert(edge_of_json(edge_views[e as int], node_total as nat) is None);
                return Err(malformed("an edge does not join two nodes of the document"));
            },
        }
        e += 1;
    }
    Ok(graph)
}

/// Writes a record as a JSON value.
pub fn encode_record(function: &Function) -> (tree: Json)
    ensures
        tree@ == json_of_record(function@),
{
    let file = match &function.source_file {
        Some(text) => Json::Text(text.clone()),
        None => Json::Null,
    };
    let mut fields: Vec<(String, Json)> = Vec::new();
    fields.push(("name".to_owned(), Json::Text(function.name.clone())));
    fields.push(("source_file".to_owned(), file));
    let ghost listed = fields@;
    let tree = Json::Object(fields);
    proof {
        lemma_view_of_lists(tree);
        assert(fields_view(listed) =~= json_of_record(function@)->Object_0);
    }
    tree
}

/// Writes an edge as a JSON value.
pub fn encode_edge(source: usize, target: usize) -> (tree: Json)
    ensures
        tree@ == json_of_edge((source as int, target as int)),
{
    let mut parts: Vec<Json> = Vec::new();
    parts.push(Json::Number(Some(source as u64)));
    parts.push(Json::Number(Some(target as u64)));
    parts.push(Json::Null);
    let ghost listed = parts@;
    let tree = Json::Array(parts);
    proof {
        lemma_view_of_lists(tree);
        assert(items_view(listed) =~= json_of_edge((source as int, target as int))->Array_0);
    }
    tree
}

/// Writes a graph as a JSON document.
pub fn encode_graph(graph: &Graph<Function, ()>) -> (tree: Json)
    ensures
        tree@ == json_of_graph(graph_model(*graph)),
{
    let ghost model = graph_model(*graph);
    let node_total = node_count(graph);
    let mut nodes: Vec<Json> = Vec::new();
    let mut i: usize = 0;
    while i < node_total
        invariant
            i <= node_total,
            node_total == model.nodes.len(),
            model == graph_model(*graph),
            nodes@.len() == i,
            forall|j: int| 0 <= j < i ==> (#[trigger] nodes@[j])@ == json_of_record(model.nodes[j]),
        decreases node_total - i,
    {
        nodes.push(encode_record(node_weight(graph, i)));
        i += 1;
    }
    let edge_total = edge_count(graph);
    let mut edges: Vec<Json> = Vec::new();
    let mut e: usize = 0;
    while e < edge_total
        invariant
            e <= edge_total,
            edge_total == model.edges.len(),
            model == graph_model(*graph),
            edges@.len() == e,
            forall|j: int| 0 <= j < e ==> (#[trigger] edges@[j])@ == json_of_edge(model.edges[j]),
        decreases edge_total - e,
    {
        let ends = edge_endpoints(graph, e);
        edges.push(encode_edge(ends.0, ends.1));
        e += 1;
    }
    let ghost node_list = nodes@;
    let ghost edge_list = edges@;
    let node_tree = Json::Array(nodes);
    let hole_tree = Json::Array(Vec::new());
    let edge_tree = Json::Array(edges);
    let mut fields: Vec<(String, Json)> = Vec::new();
    fields.push(("nodes".to_owned(), node_tree));
    fields.push(("node_holes".to_owned(), hole_tree));
    fields.push(("edge_property".to_owned(), Json::Text("directed".to_owned())));
    fields.push(("edges".to_owned(), edge_tree));
    let ghost listed = fields@;
    let tree = Json::Object(fields);
    proof {
        lemma_view_of_lists(tree);
        lemma_view_of_lists(node_tree);
        lemma_view_of_lists(hole_tree);
        lemma_view_of_lists(edge_tree);
        let expected = json_of_graph(model)->Object_0;
        assert(items_view(node_list) =~= expected[0].1->Array_0);
        assert(items_view(hole_tree->Array_0@) =~= expected[1].1->Array_0);
        assert(items_view(edge_list) =~= expected[3].1->Array_0);
        assert(fields_view(listed) =~= expected);
    }
    tree
}

/// A record that is written and read again is the same record.
pub proof fn lemma_record_round_trip(record: FunctionView)
    ensures
        record_of_json(json_of_record(record)) == Some(record),
{
    reveal_strlit("name");
    reveal_strlit("source_file");
    let fields = json_of_record(record)->Object_0;
    assert(is_first_key(fields, "name"@, 0));
    lemma_lookup_found(fields, "name"@, 0);
    assert(fields[0].0.len() != "source_file"@.len());
    assert(is_first_key(fields, "source_file"@, 1));
    lemma_lookup_found(fields, "source_file"@, 1);
}

/// An edge between two nodes of a graph that is written and read again is
/// the same edge.
pub proof fn lemma_edge_round_trip(ends: (int, int), nodes: nat)
    requires
        0 <= ends.0 < nodes,
        0 <= ends.1 < nodes,
        nodes <= u32::MAX,
    ensures
        edge_of_json(json_of_edge(ends), nodes) == Some(ends),
{
}

/// Round trip. A graph that is written as a document and read again is
/// the same graph: the same records in the same order, each with its
/// source file, and the same edges in the same order.
pub proof fn law_round_trip(graph: CallGraph)
    requires
        graph.linked(),
        graph.fits(),
    ensures
        graph_of_json(json_of_graph(graph)) == Some(graph),
{
    reveal_strlit("nodes");
    reveal_strlit("node_holes");
    reveal_strlit("edge_property");
    reveal_strlit("edges");
    let fields = json_of_graph(graph)->Object_0;
    let nodes = fields[0].1->Array_0;
    let edges = fields[3].1->Array_0;
    assert(is_first_key(fields, "nodes"@, 0));
    lemma_lookup_found(fields, "nodes"@, 0);
    assert(fields[0].0.len() != "node_holes"@.len());
    assert(is_first_key(fields, "node_holes"@, 1));
    lemma_lookup_found(fields, "node_holes"@, 1);
    assert(fields[0].0.len() != "edge_property"@.len());
    assert(fields[1].0.len() != "edge_property"@.len());
    assert(is_first_key(fields, "edge_property"@, 2));
    lemma_lookup_found(fields, "edge_property"@, 2);
    assert(fields[0].0[0] != "edges"@[0]);
    assert(fields[1].0.len() != "edges"@.len());
    assert(fields[2].0.len() != "edges"@.len());
    assert(is_first_key(fields, "edges"@, 3));
    lemma_lookup_found(fields, "edges"@, 3);
    assert forall|i: int| 0 <= i < nodes.len() implies record_of_json(#[trigger] nodes[i])
        == Some(graph.nodes[i]) by {
        lemma_record_round_trip(graph.nodes[i]);
    }
    assert forall|e: int| 0 <= e < edges.len() implies edge_of_json(
        #[trigger] edges[e],
        nodes.len(),
    ) == Some(graph.edges[e]) by {
        lemma_edge_round_trip(graph.edges[e], nodes.len());
    }
    let read = graph_of_lists(nodes, edges);
    assert(read is Some);
    assert(read->0.nodes =~= graph.nodes);
    assert(read->0.edges =~= graph.edges);
}

/// A graph that a document stands for keeps the invariants of the
/// container: its edges join nodes that exist, and both lists fit.
pub proof fn lemma_read_graph_is_sound(document: JsonView)
    requires
        graph_of_json(document) is Some,
    ensures
        graph_of_json(document)->0.linked(),
        graph_of_json(document)->0.fits(),
{
    let graph = graph_of_json(document)->0;
    let fields = document->Object_0;
    let nodes = lookup(fields, "nodes"@)->0->Array_0;
    let edges = lookup(fields, "edges"@)->0->Array_0;
    assert(graph_of_json(document) == graph_of_lists(nodes, edges));
    assert forall|e: int| 0 <= e < graph.edges.len() implies 0 <= (#[trigger] graph.edges[e]).0
        < graph.nodes.len() && 0 <= graph.edges[e].1 < graph.nodes.len() by {
        assert(edge_of_json(edges[e], nodes.len()) is Some);
    }
}

} // verus!
