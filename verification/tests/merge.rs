use llvm_viz::types::{append_graph, get_index_or_insert_node, FunctionBuilder};
use petgraph::Graph;

fn graph_eq<N, E, Ty, Ix>(
    a: &petgraph::Graph<N, E, Ty, Ix>,
    b: &petgraph::Graph<N, E, Ty, Ix>,
) -> bool
where
    N: PartialEq,
    E: PartialEq,
    Ty: petgraph::EdgeType,
    Ix: petgraph::graph::IndexType + PartialEq,
{
    let a_ns = a.raw_nodes().iter().map(|n| &n.weight);
    let b_ns = b.raw_nodes().iter().map(|n| &n.weight);
    let a_es = a
        .raw_edges()
        .iter()
        .map(|e| (e.source(), e.target(), &e.weight));
    let b_es = b
        .raw_edges()
        .iter()
        .map(|e| (e.source(), e.target(), &e.weight));
    a_ns.eq(b_ns) && a_es.eq(b_es)
}

#[test]
fn merge_nodes_with_edge_to_empty() {
    let mut g = Graph::<_, ()>::new();
    let n1 = g.add_node(FunctionBuilder::new("fn1").build());
    let n2 = g.add_node(FunctionBuilder::new("fn2").build());
    _ = g.add_edge(n1, n2, ());

    let mut g1 = Graph::<_, ()>::new();
    let mut g2 = g.clone();
    append_graph(&mut g1, &mut g2).unwrap();

    assert!(graph_eq(&g, &g1));
}

#[test]
fn merge_two_nodes() {
    let mut g = Graph::<_, ()>::new();
    _ = g.add_node(FunctionBuilder::new("fn1").build());
    _ = g.add_node(FunctionBuilder::new("fn2").build());

    let mut g1 = Graph::<_, ()>::new();
    _ = g1.add_node(FunctionBuilder::new("fn1").build());
    let mut g2 = Graph::<_, ()>::new();
    _ = g2.add_node(FunctionBuilder::new("fn2").build());
    append_graph(&mut g1, &mut g2).unwrap();

    assert!(graph_eq(&g, &g1));
}

#[test]
fn merge_two_graphs_with_edges_and_common_node() {
    let mut g = Graph::<_, ()>::new();
    let fn1 = g.add_node(FunctionBuilder::new("fn1").build());
    let fn2 = g.add_node(FunctionBuilder::new("fn2").build());
    let fn3 = g.add_node(FunctionBuilder::new("fn3").build());
    let fn4 = g.add_node(FunctionBuilder::new("fn4").build());
    let fn5 = g.add_node(FunctionBuilder::new("fn5").build());
    _ = g.add_edge(fn1, fn2, ());
    _ = g.add_edge(fn1, fn3, ());
    _ = g.add_edge(fn1, fn4, ());
    _ = g.add_edge(fn1, fn5, ());

    let mut g123 = Graph::<_, ()>::new();
    let fn1 = g123.add_node(FunctionBuilder::new("fn1").build());
    let fn2 = g123.add_node(FunctionBuilder::new("fn2").build());
    let fn3 = g123.add_node(FunctionBuilder::new("fn3").build());
    _ = g123.add_edge(fn1, fn2, ());
    _ = g123.add_edge(fn1, fn3, ());

    let mut g145 = Graph::<_, ()>::new();
    let fn1 = g145.add_node(FunctionBuilder::new("fn1").build());
    let fn4 = g145.add_node(FunctionBuilder::new("fn4").build());
    let fn5 = g145.add_node(FunctionBuilder::new("fn5").build());
    _ = g145.add_edge(fn1, fn4, ());
    _ = g145.add_edge(fn1, fn5, ());

    append_graph(&mut g123, &mut g145).unwrap();

    println!("lhs: {:?}", g);
    println!("rhs: {:?}", g123);
    assert!(graph_eq(&g, &g123));
}

#[test]
fn insert_new_node_twice() {
    let mut g = Graph::<_, ()>::new();
    let fn1_id = get_index_or_insert_node(&mut g, FunctionBuilder::new("fn1").build());
    let fn1_id_bis = get_index_or_insert_node(&mut g, FunctionBuilder::new("fn1").build());

    assert_eq!(fn1_id, fn1_id_bis);
}

#[test]
fn insert_two_nodes() {
    let mut g = Graph::<_, ()>::new();
    let fn1_id = get_index_or_insert_node(&mut g, FunctionBuilder::new("fn1").build());
    let fn2_id = get_index_or_insert_node(&mut g, FunctionBuilder::new("fn2").build());

    assert_ne!(fn1_id, fn2_id);
}
