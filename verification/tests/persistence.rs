use llvm_viz::document::{
    decode_edge, decode_graph, decode_record, encode_edge, encode_graph, encode_record,
};
use llvm_viz::error::GraphVizError;
use llvm_viz::json::{field, Json};
use llvm_viz::types::{graph_from_json, graph_to_json, Function, FunctionBuilder};
use petgraph::Graph;
use std::collections::BTreeMap;

fn named(name: &str) -> Function {
    FunctionBuilder::new(name).build()
}

fn defined_in(name: &str, file: &str) -> Function {
    let mut builder = FunctionBuilder::new(name);
    builder.source_file(file);
    builder.build()
}

fn sample() -> Graph<Function, ()> {
    let mut g = Graph::<_, ()>::new();
    let main = g.add_node(defined_in("main", "a.ll"));
    let helper = g.add_node(named("helper"));
    g.add_edge(main, helper, ());
    g
}

fn names(graph: &Graph<Function, ()>) -> Vec<String> {
    graph.raw_nodes().iter().map(|node| node.weight.name.clone()).collect()
}

fn files(graph: &Graph<Function, ()>) -> Vec<Option<String>> {
    graph.raw_nodes().iter().map(|node| node.weight.source_file.clone()).collect()
}

fn links(graph: &Graph<Function, ()>) -> Vec<(usize, usize)> {
    graph
        .raw_edges()
        .iter()
        .map(|edge| (edge.source().index(), edge.target().index()))
        .collect()
}

fn is_decode_failure(result: Result<Graph<Function, ()>, GraphVizError>) -> bool {
    matches!(result, Err(GraphVizError::Decode(_)))
}

fn text(content: &str) -> Json {
    Json::Text(content.to_owned())
}

fn object(fields: Vec<(&str, Json)>) -> Json {
    Json::Object(fields.into_iter().map(|(key, value)| (key.to_owned(), value)).collect())
}

#[test]
fn the_durable_text_of_a_small_graph() {
    let expected = r#"{
  "edge_property": "directed",
  "edges": [
    [
      0,
      1,
      null
    ]
  ],
  "node_holes": [],
  "nodes": [
    {
      "name": "main",
      "source_file": "a.ll"
    },
    {
      "name": "helper",
      "source_file": null
    }
  ]
}"#;
    assert_eq!(graph_to_json(&sample()).unwrap(), expected);
}

#[test]
fn round_trip_keeps_nodes_edges_and_files() {
    let mut g = sample();
    let other = g.add_node(defined_in("other", "b.ll"));
    let helper = petgraph::graph::NodeIndex::new(1);
    g.add_edge(helper, other, ());
    g.add_edge(other, other, ());
    g.add_edge(other, helper, ());
    let read = graph_from_json(&graph_to_json(&g).unwrap()).unwrap();
    assert_eq!(names(&read), vec!["main", "helper", "other"]);
    assert_eq!(
        files(&read),
        vec![Some("a.ll".to_owned()), None, Some("b.ll".to_owned())]
    );
    assert_eq!(links(&read), vec![(0, 1), (1, 2), (2, 2), (2, 1)]);
}

#[test]
fn round_trip_of_the_empty_graph() {
    let g = Graph::<Function, ()>::new();
    let read = graph_from_json(&graph_to_json(&g).unwrap()).unwrap();
    assert_eq!(read.node_count(), 0);
    assert_eq!(read.edge_count(), 0);
}

#[test]
fn round_trip_keeps_duplicates_and_odd_names() {
    let mut g = Graph::<_, ()>::new();
    let a = g.add_node(named(""));
    let b = g.add_node(defined_in("caf\u{e9} \"quoted\"\n", "dir\\file.ll"));
    g.add_node(named(""));
    g.add_edge(a, b, ());
    g.add_edge(a, b, ());
    let read = graph_from_json(&graph_to_json(&g).unwrap()).unwrap();
    assert_eq!(names(&read), vec!["", "caf\u{e9} \"quoted\"\n", ""]);
    assert_eq!(files(&read), vec![None, Some("dir\\file.ll".to_owned()), None]);
    assert_eq!(links(&read), vec![(0, 1), (0, 1)]);
}

#[test]
fn writing_twice_gives_the_same_text() {
    let first = graph_to_json(&sample()).unwrap();
    let second = graph_to_json(&graph_from_json(&first).unwrap()).unwrap();
    assert_eq!(first, second);
}

#[test]
fn reads_what_the_container_writes_of_itself() {
    let mut g = Graph::<BTreeMap<String, Option<String>>, ()>::new();
    let mut main = BTreeMap::new();
    main.insert("name".to_owned(), Some("main".to_owned()));
    main.insert("source_file".to_owned(), Some("a.ll".to_owned()));
    let mut helper = BTreeMap::new();
    helper.insert("name".to_owned(), Some("helper".to_owned()));
    helper.insert("source_file".to_owned(), None);
    let main = g.add_node(main);
    let helper = g.add_node(helper);
    g.add_edge(main, helper, ());
    g.add_edge(helper, helper, ());
    let written = serde_json::to_string_pretty(&g).unwrap();
    let read = graph_from_json(&written).unwrap();
    assert_eq!(names(&read), vec!["main", "helper"]);
    assert_eq!(files(&read), vec![Some("a.ll".to_owned()), None]);
    assert_eq!(links(&read), vec![(0, 1), (1, 1)]);
}

#[test]
fn the_container_reads_what_is_written() {
    let written = graph_to_json(&sample()).unwrap();
    let read: Graph<BTreeMap<String, Option<String>>, ()> =
        serde_json::from_str(&written).unwrap();
    assert_eq!(read.node_count(), 2);
    assert_eq!(read.raw_nodes()[0].weight["name"], Some("main".to_owned()));
    assert_eq!(read.raw_nodes()[0].weight["source_file"], Some("a.ll".to_owned()));
    assert_eq!(read.raw_nodes()[1].weight["name"], Some("helper".to_owned()));
    assert_eq!(read.raw_nodes()[1].weight["source_file"], None);
    assert_eq!(read.edge_count(), 1);
    assert_eq!(read.raw_edges()[0].source().index(), 0);
    assert_eq!(read.raw_edges()[0].target().index(), 1);
}

#[test]
fn unknown_fields_are_passed_over() {
    let content = r#"{
        "format": 7,
        "nodes": [
            {"name": "main", "source_file": "a.ll", "hotness": 3.5, "tags": ["x", {"y": -1}]},
            {"line": 12, "name": "helper"}
        ],
        "node_holes": [],
        "edge_property": "directed",
        "edges": [[0, 1, null]],
        "comment": null
    }"#;
    let read = graph_from_json(content).unwrap();
    assert_eq!(names(&read), vec!["main", "helper"]);
    assert_eq!(files(&read), vec![Some("a.ll".to_owned()), None]);
    assert_eq!(links(&read), vec![(0, 1)]);
}

#[test]
fn the_list_of_holes_may_be_missing() {
    let content = r#"{"nodes": [{"name": "f"}], "edge_property": "directed", "edges": []}"#;
    let read = graph_from_json(content).unwrap();
    assert_eq!(names(&read), vec!["f"]);
    assert_eq!(read.edge_count(), 0);
}

#[test]
fn text_that_is_no_json_is_refused() {
    assert!(is_decode_failure(graph_from_json("")));
    assert!(is_decode_failure(graph_from_json("omega tree")));
    assert!(is_decode_failure(graph_from_json("{\"nodes\": [")));
    assert!(is_decode_failure(graph_from_json("{\"nodes\": [], } trailing")));
}

#[test]
fn a_document_that_is_no_object_is_refused() {
    assert!(is_decode_failure(graph_from_json("null")));
    assert!(is_decode_failure(graph_from_json("[]")));
    assert!(is_decode_failure(graph_from_json("\"graph\"")));
    assert!(is_decode_failure(graph_from_json("3")));
}

#[test]
fn a_document_without_its_lists_is_refused() {
    assert!(is_decode_failure(graph_from_json(
        r#"{"node_holes": [], "edge_property": "directed", "edges": []}"#
    )));
    assert!(is_decode_failure(graph_from_json(
        r#"{"nodes": [], "node_holes": [], "edge_property": "directed"}"#
    )));
    assert!(is_decode_failure(graph_from_json(
        r#"{"nodes": {}, "node_holes": [], "edge_property": "directed", "edges": []}"#
    )));
    assert!(is_decode_failure(graph_from_json(
        r#"{"nodes": [], "node_holes": [], "edge_property": "directed", "edges": null}"#
    )));
}

#[test]
fn a_document_with_holes_is_refused() {
    assert!(is_decode_failure(graph_from_json(
        r#"{"nodes": [{"name": "f"}], "node_holes": [0], "edge_property": "directed", "edges": []}"#
    )));
    assert!(is_decode_failure(graph_from_json(
        r#"{"nodes": [], "node_holes": null, "edge_property": "directed", "edges": []}"#
    )));
}

#[test]
fn a_document_that_is_not_directed_is_refused() {
    assert!(is_decode_failure(graph_from_json(
        r#"{"nodes": [], "node_holes": [], "edge_property": "undirected", "edges": []}"#
    )));
    assert!(is_decode_failure(graph_from_json(
        r#"{"nodes": [], "node_holes": [], "edge_property": 1, "edges": []}"#
    )));
    assert!(is_decode_failure(graph_from_json(r#"{"nodes": [], "node_holes": [], "edges": []}"#)));
}

#[test]
fn a_node_that_is_no_record_is_refused() {
    let with_node = |node: &str| {
        format!(
            r#"{{"nodes": [{}], "node_holes": [], "edge_property": "directed", "edges": []}}"#,
            node
        )
    };
    assert!(graph_from_json(&with_node(r#"{"name": "f"}"#)).is_ok());
    assert!(graph_from_json(&with_node(r#"{"name": "f", "source_file": null}"#)).is_ok());
    assert!(is_decode_failure(graph_from_json(&with_node(r#"{"source_file": "a.ll"}"#))));
    assert!(is_decode_failure(graph_from_json(&with_node(r#"{"name": 3}"#))));
    assert!(is_decode_failure(graph_from_json(&with_node(r#"{"name": null}"#))));
    assert!(is_decode_failure(graph_from_json(&with_node(r#"{"name": "f", "source_file": 1}"#))));
    assert!(is_decode_failure(graph_from_json(&with_node(r#"{"name": "f", "source_file": []}"#))));
    assert!(is_decode_failure(graph_from_json(&with_node(r#""f""#))));
    assert!(is_decode_failure(graph_from_json(&with_node("null"))));
}

#[test]
fn an_edge_that_joins_no_two_nodes_is_refused() {
    let with_edge = |edge: &str| {
        format!(
            r#"{{"nodes": [{{"name": "f"}}, {{"name": "g"}}], "node_holes": [],
                "edge_property": "directed", "edges": [{}]}}"#,
            edge
        )
    };
    assert!(graph_from_json(&with_edge("[0, 1, null]")).is_ok());
    assert!(graph_from_json(&with_edge("[1, 1, null]")).is_ok());
    assert!(is_decode_failure(graph_from_json(&with_edge("[0, 2, null]"))));
    assert!(is_decode_failure(graph_from_json(&with_edge("[2, 0, null]"))));
    assert!(is_decode_failure(graph_from_json(&with_edge("[0, -1, null]"))));
    assert!(is_decode_failure(graph_from_json(&with_edge("[0, 1.0, null]"))));
    assert!(is_decode_failure(graph_from_json(&with_edge("[0, \"1\", null]"))));
    assert!(is_decode_failure(graph_from_json(&with_edge("[0, 1]"))));
    assert!(is_decode_failure(graph_from_json(&with_edge("[0, 1, null, null]"))));
    assert!(is_decode_failure(graph_from_json(&with_edge("[0, 1, 5]"))));
    assert!(is_decode_failure(graph_from_json(&with_edge("[0, 18446744073709551616, null]"))));
    assert!(is_decode_failure(graph_from_json(&with_edge("null"))));
    assert!(is_decode_failure(graph_from_json(&with_edge("{}"))));
}

#[test]
fn a_refused_document_says_why() {
    match graph_from_json("{\"nodes\": [") {
        Err(error) => assert!(error.message().starts_with("Decode error: ")),
        Ok(_) => panic!("a broken text was read as a graph"),
    }
    match graph_from_json("{}") {
        Err(error) => assert_eq!(error.message(), "Decode error: the node list is missing"),
        Ok(_) => panic!("an empty object was read as a graph"),
    }
}

#[test]
fn the_first_field_of_a_key_is_found() {
    let fields = vec![
        ("a".to_owned(), Json::Number(Some(1))),
        ("b".to_owned(), Json::Null),
        ("a".to_owned(), Json::Number(Some(2))),
    ];
    assert!(matches!(field(&fields, "a"), Some(Json::Number(Some(1)))));
    assert!(matches!(field(&fields, "b"), Some(Json::Null)));
    assert!(field(&fields, "c").is_none());
    assert!(field(&fields, "").is_none());
    assert!(field(&Vec::new(), "a").is_none());
}

#[test]
fn a_record_is_an_object_with_a_name() {
    let record = decode_record(&object(vec![("name", text("f")), ("source_file", text("a.ll"))]))
        .unwrap();
    assert_eq!(record.name, "f");
    assert_eq!(record.source_file, Some("a.ll".to_owned()));
    let record = decode_record(&object(vec![("source_file", Json::Null), ("name", text("g"))]))
        .unwrap();
    assert_eq!(record.name, "g");
    assert_eq!(record.source_file, None);
    assert!(decode_record(&object(vec![("source_file", text("a.ll"))])).is_none());
    assert!(decode_record(&object(vec![("name", Json::Bool(true))])).is_none());
    assert!(decode_record(&text("f")).is_none());
    assert!(decode_record(&Json::Array(vec![text("f")])).is_none());
}

#[test]
fn a_record_is_written_with_both_fields() {
    match encode_record(&defined_in("f", "a.ll")) {
        Json::Object(fields) => {
            assert_eq!(fields.len(), 2);
            assert_eq!(fields[0].0, "name");
            assert!(matches!(&fields[0].1, Json::Text(name) if name == "f"));
            assert_eq!(fields[1].0, "source_file");
            assert!(matches!(&fields[1].1, Json::Text(file) if file == "a.ll"));
        }
        other => panic!("a record was written as {:?}", other),
    }
    match encode_record(&named("g")) {
        Json::Object(fields) => assert!(matches!(&fields[1].1, Json::Null)),
        other => panic!("a record was written as {:?}", other),
    }
}

#[test]
fn an_edge_is_a_triple() {
    match encode_edge(3, 5) {
        Json::Array(parts) => {
            assert_eq!(parts.len(), 3);
            assert!(matches!(parts[0], Json::Number(Some(3))));
            assert!(matches!(parts[1], Json::Number(Some(5))));
            assert!(matches!(parts[2], Json::Null));
        }
        other => panic!("an edge was written as {:?}", other),
    }
    assert_eq!(decode_edge(&encode_edge(3, 5), 6), Some((3, 5)));
    assert_eq!(decode_edge(&encode_edge(3, 5), 5), None);
    assert_eq!(decode_edge(&encode_edge(5, 3), 5), None);
    assert_eq!(decode_edge(&encode_edge(0, 0), 0), None);
    let fraction = Json::Array(vec![Json::Number(None), Json::Number(Some(0)), Json::Null]);
    assert_eq!(decode_edge(&fraction, 1), None);
}

#[test]
fn a_document_is_read_without_its_text() {
    let read = decode_graph(&encode_graph(&sample())).unwrap();
    assert_eq!(names(&read), vec!["main", "helper"]);
    assert_eq!(links(&read), vec![(0, 1)]);
    assert!(matches!(decode_graph(&Json::Null), Err(GraphVizError::Decode(_))));
}

#[test]
fn a_document_lists_nodes_holes_property_and_edges() {
    match encode_graph(&sample()) {
        Json::Object(fields) => {
            let keys: Vec<&str> = fields.iter().map(|(key, _)| key.as_str()).collect();
            assert_eq!(keys, vec!["nodes", "node_holes", "edge_property", "edges"]);
            assert!(matches!(&fields[1].1, Json::Array(holes) if holes.is_empty()));
            assert!(matches!(&fields[2].1, Json::Text(property) if property == "directed"));
        }
        other => panic!("a graph was written as {:?}", other),
    }
}
