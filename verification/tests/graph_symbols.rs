use std::collections::BTreeSet;

use incin_core::exec::symbolic::{DimExpr, RankExpr, ShapeExpr, SymbolId};
use incin_core::error::OperationKind;
use incin_core::graph::{collect_shape_symbols, DescriptorPayload, Graph, NamedSymbols, SymbolRemapper};

fn dims_of(graph: &Graph, id: usize) -> Vec<DimExpr> {
    graph.value(id).unwrap().shape_expr.dims.clone()
}

#[test]
fn added_values_get_sequential_ids_and_concrete_shapes() {
    let mut graph = Graph::new();
    let a = graph.add_value(vec![2, 3], Some("x".to_string()));
    let b = graph.add_value(vec![4], None);
    assert_eq!((a, b), (0, 1));
    let value = graph.value(a).unwrap();
    assert_eq!(value.id, 0);
    assert_eq!(value.shape, vec![2, 3]);
    assert_eq!(value.name.as_deref(), Some("x"));
    assert_eq!(value.shape_expr.rank, RankExpr::Static(2));
    assert_eq!(value.shape_expr.dims, vec![DimExpr::Const(2), DimExpr::Const(3)]);
    assert!(graph.value(2).is_none());
}

#[test]
fn marking_an_input_gives_each_axis_a_fresh_graph_symbol() {
    let mut graph = Graph::new();
    let a = graph.add_value(vec![2, 3], None);
    let b = graph.add_value(vec![4], None);
    graph.mark_input(a);
    assert_eq!(
        dims_of(&graph, a),
        vec![DimExpr::Symbol(SymbolId(0)), DimExpr::Symbol(SymbolId(1))]
    );
    // The second input's axis must not reuse the symbols the first one took.
    graph.mark_input(b);
    assert_eq!(dims_of(&graph, b), vec![DimExpr::Symbol(SymbolId(2))]);
    assert_eq!(graph.inputs(), &vec![a, b]);
}

#[test]
fn marking_twice_adds_no_duplicate_input() {
    let mut graph = Graph::new();
    let a = graph.add_value(vec![5], None);
    graph.mark_input(a);
    graph.mark_input(a);
    assert_eq!(graph.inputs(), &vec![a]);
    // The shape is renamed again, avoiding the symbol it already held.
    assert_eq!(dims_of(&graph, a), vec![DimExpr::Symbol(SymbolId(1))]);
}

#[test]
fn marking_an_unknown_value_only_records_the_input() {
    let mut graph = Graph::new();
    graph.mark_input(7);
    assert_eq!(graph.inputs(), &vec![7]);
    assert!(graph.value(7).is_none());
}

#[test]
fn outputs_are_recorded_once() {
    let mut graph = Graph::new();
    let a = graph.add_value(vec![1], None);
    graph.mark_output(a);
    graph.mark_output(a);
    assert_eq!(graph.outputs(), &vec![a]);
}

fn named(identity: &str) -> DimExpr {
    DimExpr::NamedFresh { source: 9, name: "batch".to_string(), identity: identity.to_string() }
}

#[test]
fn the_same_identity_is_renamed_to_the_same_symbol() {
    let used: BTreeSet<u32> = [0u32, 1, 3].into_iter().collect();
    let mut remapper = SymbolRemapper::new(NamedSymbols::new(), 0, 0, used);
    let first = remapper.remap_dim(named("producer.batch"));
    let second = remapper.remap_dim(named("producer.batch"));
    let other = remapper.remap_dim(named("producer.seq"));
    // 0 and 1 are in use, so the first fresh id is 2; 3 is skipped next.
    let expect = |id: u32, identity: &str| DimExpr::NamedSymbol {
        id: SymbolId(id),
        name: "batch".to_string(),
        identity: identity.to_string(),
    };
    assert_eq!(first, expect(2, "producer.batch"));
    assert_eq!(second, expect(2, "producer.batch"));
    assert_eq!(other, expect(4, "producer.seq"));
    let (names, named_next, next) = remapper.finish();
    assert_eq!(names.len(), 2);
    assert_eq!(names.ids(), vec![2, 4]);
    assert_eq!(named_next, 5);
    assert_eq!(next, 5);
}

#[test]
fn an_anonymous_symbol_is_renamed_consistently_inside_an_expression() {
    let mut remapper = SymbolRemapper::new(NamedSymbols::new(), 0, 10, BTreeSet::new());
    let expr = DimExpr::Mul(
        Box::new(DimExpr::Fresh(7)),
        Box::new(DimExpr::Add(Box::new(DimExpr::Fresh(7)), Box::new(DimExpr::Const(1)))),
    );
    let renamed = remapper.remap_dim(expr);
    assert_eq!(
        renamed,
        DimExpr::Mul(
            Box::new(DimExpr::Symbol(SymbolId(10))),
            Box::new(DimExpr::Add(
                Box::new(DimExpr::Symbol(SymbolId(10))),
                Box::new(DimExpr::Const(1))
            )),
        )
    );
}

#[test]
fn a_named_alias_of_a_symbol_collapses_to_a_named_symbol() {
    let mut remapper = SymbolRemapper::new(NamedSymbols::new(), 0, 0, BTreeSet::new());
    let alias = DimExpr::NamedExpr {
        expr: Box::new(DimExpr::Symbol(SymbolId(40))),
        id: SymbolId(99),
        name: "n".to_string(),
        identity: "op.n".to_string(),
    };
    let renamed = remapper.remap_dim(alias);
    assert_eq!(
        renamed,
        DimExpr::NamedSymbol { id: SymbolId(0), name: "n".to_string(), identity: "op.n".to_string() }
    );
    let derived = DimExpr::NamedExpr {
        expr: Box::new(DimExpr::Const(6)),
        id: SymbolId(99),
        name: "m".to_string(),
        identity: "op.m".to_string(),
    };
    assert_eq!(
        remapper.remap_dim(derived),
        DimExpr::NamedExpr {
            expr: Box::new(DimExpr::Const(6)),
            id: SymbolId(2),
            name: "m".to_string(),
            identity: "op.m".to_string(),
        }
    );
}

#[test]
fn collected_symbols_skip_fresh_tokens_and_alias_ids() {
    let shape = ShapeExpr::symbolic(&[2, 2], 1).with_constraints(vec![]);
    let mut symbols = BTreeSet::new();
    collect_shape_symbols(&shape, &mut symbols);
    assert!(symbols.is_empty());
    let shape = ShapeExpr {
        rank: RankExpr::Static(2),
        dims: vec![
            DimExpr::Symbol(SymbolId(4)),
            DimExpr::NamedExpr {
                expr: Box::new(DimExpr::Symbol(SymbolId(6))),
                id: SymbolId(8),
                name: "k".to_string(),
                identity: "k".to_string(),
            },
        ],
        constraints: vec![],
    };
    collect_shape_symbols(&shape, &mut symbols);
    assert_eq!(symbols.into_iter().collect::<Vec<_>>(), vec![4, 6]);
}

#[test]
fn nodes_get_sequential_ids_and_keep_their_references() {
    let mut graph = Graph::new();
    let a = graph.add_value(vec![2], None);
    let b = graph.add_value(vec![2], None);
    let n0 = graph.add_node(OperationKind::Add, vec![a, b], vec![b]);
    let payload = DescriptorPayload { schema: 3, payload: vec![1, 2] };
    let n1 = graph.add_node_with_descriptor_payload(OperationKind::MatMul, vec![b], vec![], Some(payload.clone()));
    assert_eq!((n0, n1), (0, 1));
    let node = graph.node(n0).unwrap();
    assert_eq!(node.operation, OperationKind::Add);
    assert_eq!(node.inputs, vec![a, b]);
    assert_eq!(node.outputs, vec![b]);
    assert!(node.descriptor_payload.is_none());
    assert_eq!(graph.node(n1).unwrap().descriptor_payload, Some(payload));
    assert!(graph.node(2).is_none());
}
