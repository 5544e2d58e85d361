use llvm_viz::types::{
    append_graph, get_index_or_insert_edge, get_index_or_insert_node, Function, FunctionBuilder,
};
use petgraph::Graph;

fn named(name: &str) -> Function {
    FunctionBuilder::new(name).build()
}

fn defined_in(name: &str, file: &str) -> Function {
    let mut builder = FunctionBuilder::new(name);
    builder.source_file(file);
    builder.build()
}

fn names(graph: &Graph<Function, ()>) -> Vec<String> {
    graph.raw_nodes().iter().map(|node| node.weight.name.clone()).collect()
}

fn links(graph: &Graph<Function, ()>) -> Vec<(usize, usize)> {
    graph
        .raw_edges()
        .iter()
        .map(|edge| (edge.source().index(), edge.target().index()))
        .collect()
}

#[test]
fn builder_fixes_the_name_and_leaves_the_file_out() {
    let function = FunctionBuilder::new("toto").build();
    assert_eq!(function.name, "toto");
    assert_eq!(function.source_file, None);
}

#[test]
fn builder_attaches_a_source_file() {
    let function = defined_in("toto", "a.ll");
    assert_eq!(function.name, "toto");
    assert_eq!(function.source_file, Some("a.ll".to_owned()));
}

#[test]
fn equality_looks_at_the_name_only() {
    assert!(named("f") == defined_in("f", "a.ll"));
    assert!(defined_in("f", "a.ll") == defined_in("f", "b.ll"));
    assert!(named("f") != named("g"));
}

#[test]
fn clone_keeps_both_fields() {
    let copy = defined_in("f", "a.ll").clone();
    assert_eq!(copy.name, "f");
    assert_eq!(copy.source_file, Some("a.ll".to_owned()));
}

#[test]
fn first_node_gets_handle_zero() {
    let mut g = Graph::<_, ()>::new();
    assert_eq!(get_index_or_insert_node(&mut g, named("main")), 0);
    assert_eq!(g.node_count(), 1);
}

#[test]
fn handles_follow_insertion_order() {
    let mut g = Graph::<_, ()>::new();
    assert_eq!(get_index_or_insert_node(&mut g, named("a")), 0);
    assert_eq!(get_index_or_insert_node(&mut g, named("b")), 1);
    assert_eq!(get_index_or_insert_node(&mut g, named("c")), 2);
    assert_eq!(get_index_or_insert_node(&mut g, named("b")), 1);
    assert_eq!(get_index_or_insert_node(&mut g, named("a")), 0);
    assert_eq!(names(&g), vec!["a", "b", "c"]);
}

#[test]
fn a_found_node_keeps_its_source_file() {
    let mut g = Graph::<_, ()>::new();
    get_index_or_insert_node(&mut g, defined_in("helper", "a.ll"));
    let again = get_index_or_insert_node(&mut g, defined_in("helper", "b.ll"));
    assert_eq!(again, 0);
    assert_eq!(g.node_count(), 1);
    assert_eq!(g.raw_nodes()[0].weight.source_file, Some("a.ll".to_owned()));
}

#[test]
fn a_found_node_without_file_stays_without() {
    let mut g = Graph::<_, ()>::new();
    get_index_or_insert_node(&mut g, named("helper"));
    get_index_or_insert_node(&mut g, defined_in("helper", "b.ll"));
    assert_eq!(g.raw_nodes()[0].weight.source_file, None);
}

#[test]
fn the_first_of_two_equal_names_is_found() {
    let mut g = Graph::<_, ()>::new();
    g.add_node(named("x"));
    g.add_node(named("dup"));
    g.add_node(named("dup"));
    assert_eq!(get_index_or_insert_node(&mut g, named("dup")), 1);
    assert_eq!(g.node_count(), 3);
}

#[test]
fn the_empty_name_is_a_name() {
    let mut g = Graph::<_, ()>::new();
    let first = get_index_or_insert_node(&mut g, named(""));
    let other = get_index_or_insert_node(&mut g, named("f"));
    let again = get_index_or_insert_node(&mut g, named(""));
    assert_eq!(first, again);
    assert_ne!(first, other);
    assert_eq!(g.node_count(), 2);
}

#[test]
fn an_edge_brings_its_ends() {
    let mut g = Graph::<_, ()>::new();
    let edge = get_index_or_insert_edge(&mut g, named("main"), named("helper"), ());
    assert_eq!(edge, 0);
    assert_eq!(names(&g), vec!["main", "helper"]);
    assert_eq!(links(&g), vec![(0, 1)]);
}

#[test]
fn the_same_call_twice_is_one_edge() {
    let mut g = Graph::<_, ()>::new();
    let first = get_index_or_insert_edge(&mut g, named("main"), named("helper"), ());
    let second = get_index_or_insert_edge(&mut g, named("main"), named("helper"), ());
    assert_eq!(first, second);
    assert_eq!(g.edge_count(), 1);
    assert_eq!(g.node_count(), 2);
}

#[test]
fn the_same_call_with_other_files_is_one_edge() {
    let mut g = Graph::<_, ()>::new();
    get_index_or_insert_edge(&mut g, defined_in("main", "a.ll"), named("helper"), ());
    get_index_or_insert_edge(&mut g, named("main"), defined_in("helper", "b.ll"), ());
    assert_eq!(g.edge_count(), 1);
    assert_eq!(g.raw_nodes()[0].weight.source_file, Some("a.ll".to_owned()));
    assert_eq!(g.raw_nodes()[1].weight.source_file, None);
}

#[test]
fn the_reverse_call_is_another_edge() {
    let mut g = Graph::<_, ()>::new();
    let there = get_index_or_insert_edge(&mut g, named("a"), named("b"), ());
    let back = get_index_or_insert_edge(&mut g, named("b"), named("a"), ());
    assert_eq!(there, 0);
    assert_eq!(back, 1);
    assert_eq!(links(&g), vec![(0, 1), (1, 0)]);
}

#[test]
fn a_function_may_call_itself() {
    let mut g = Graph::<_, ()>::new();
    let edge = get_index_or_insert_edge(&mut g, named("rec"), named("rec"), ());
    let again = get_index_or_insert_edge(&mut g, named("rec"), named("rec"), ());
    assert_eq!(edge, again);
    assert_eq!(g.node_count(), 1);
    assert_eq!(links(&g), vec![(0, 0)]);
}

#[test]
fn an_edge_between_known_nodes_adds_no_node() {
    let mut g = Graph::<_, ()>::new();
    get_index_or_insert_node(&mut g, named("a"));
    get_index_or_insert_node(&mut g, named("b"));
    get_index_or_insert_node(&mut g, named("c"));
    let edge = get_index_or_insert_edge(&mut g, named("c"), named("a"), ());
    assert_eq!(edge, 0);
    assert_eq!(g.node_count(), 3);
    assert_eq!(links(&g), vec![(2, 0)]);
}

#[test]
fn merge_leaves_the_source_as_it_was() {
    let mut dest = Graph::<_, ()>::new();
    let mut source = Graph::<_, ()>::new();
    let a = source.add_node(defined_in("a", "s.ll"));
    let b = source.add_node(named("b"));
    source.add_edge(a, b, ());
    append_graph(&mut dest, &mut source).unwrap();
    assert_eq!(names(&source), vec!["a", "b"]);
    assert_eq!(links(&source), vec![(0, 1)]);
    assert_eq!(source.raw_nodes()[0].weight.source_file, Some("s.ll".to_owned()));
}

#[test]
fn merge_resolves_edges_by_name() {
    let mut dest = Graph::<_, ()>::new();
    dest.add_node(named("x"));
    dest.add_node(named("b"));
    let mut source = Graph::<_, ()>::new();
    let a = source.add_node(named("a"));
    let b = source.add_node(named("b"));
    source.add_edge(a, b, ());
    append_graph(&mut dest, &mut source).unwrap();
    assert_eq!(names(&dest), vec!["x", "b", "a"]);
    assert_eq!(links(&dest), vec![(2, 1)]);
}

#[test]
fn merge_keeps_the_metadata_of_the_destination() {
    let mut dest = Graph::<_, ()>::new();
    dest.add_node(defined_in("helper", "a.ll"));
    let mut source = Graph::<_, ()>::new();
    source.add_node(defined_in("helper", "b.ll"));
    source.add_node(defined_in("other", "b.ll"));
    append_graph(&mut dest, &mut source).unwrap();
    assert_eq!(names(&dest), vec!["helper", "other"]);
    assert_eq!(dest.raw_nodes()[0].weight.source_file, Some("a.ll".to_owned()));
    assert_eq!(dest.raw_nodes()[1].weight.source_file, Some("b.ll".to_owned()));
}

#[test]
fn merge_of_an_empty_source_changes_nothing() {
    let mut dest = Graph::<_, ()>::new();
    let a = dest.add_node(named("a"));
    dest.add_edge(a, a, ());
    let mut source = Graph::<Function, ()>::new();
    append_graph(&mut dest, &mut source).unwrap();
    assert_eq!(names(&dest), vec!["a"]);
    assert_eq!(links(&dest), vec![(0, 0)]);
}

#[test]
fn merge_into_itself_changes_nothing() {
    let mut g = Graph::<_, ()>::new();
    let a = g.add_node(defined_in("a", "a.ll"));
    let b = g.add_node(named("b"));
    let c = g.add_node(named("c"));
    g.add_edge(a, b, ());
    g.add_edge(b, c, ());
    g.add_edge(c, a, ());
    let mut copy = g.clone();
    append_graph(&mut g, &mut copy).unwrap();
    assert_eq!(names(&g), vec!["a", "b", "c"]);
    assert_eq!(links(&g), vec![(0, 1), (1, 2), (2, 0)]);
    assert_eq!(g.raw_nodes()[0].weight.source_file, Some("a.ll".to_owned()));
}

#[test]
fn merge_in_either_order_gives_the_same_sets() {
    let mut left = Graph::<_, ()>::new();
    let a = left.add_node(named("a"));
    let b = left.add_node(named("b"));
    left.add_edge(a, b, ());
    let mut right = Graph::<_, ()>::new();
    let b = right.add_node(named("b"));
    let c = right.add_node(named("c"));
    right.add_edge(b, c, ());
    right.add_edge(c, b, ());

    let mut one = Graph::<_, ()>::new();
    append_graph(&mut one, &mut left).unwrap();
    append_graph(&mut one, &mut right).unwrap();
    let mut two = Graph::<_, ()>::new();
    append_graph(&mut two, &mut right).unwrap();
    append_graph(&mut two, &mut left).unwrap();
    let mut direct = left.clone();
    append_graph(&mut direct, &mut right).unwrap();

    let name_set = |g: &Graph<Function, ()>| {
        let mut all = names(g);
        all.sort();
        all
    };
    let call_set = |g: &Graph<Function, ()>| {
        let all = names(g);
        let mut calls: Vec<(String, String)> =
            links(g).iter().map(|(s, t)| (all[*s].clone(), all[*t].clone())).collect();
        calls.sort();
        calls
    };
    assert_eq!(name_set(&one), vec!["a", "b", "c"]);
    assert_eq!(name_set(&one), name_set(&two));
    assert_eq!(name_set(&one), name_set(&direct));
    assert_eq!(call_set(&one).len(), 3);
    assert_eq!(call_set(&one), call_set(&two));
    assert_eq!(call_set(&one), call_set(&direct));
    assert_eq!(names(&one), vec!["a", "b", "c"]);
    assert_eq!(names(&two), vec!["b", "c", "a"]);
}
