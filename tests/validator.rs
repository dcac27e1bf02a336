use shape_validation::graph::{Graph, Node, Triple};
use shape_validation::schema::{CompiledSchema, NodeConstraint, ShapeExpr};
use shape_validation::validator::{ResultEntry, ResultValue, Validator, ValidatorError};

const KNOWS: u64 = 100;

fn iri(i: u64) -> Node {
    Node::Iri(i)
}

fn knows(a: u64, b: u64) -> Triple {
    Triple { subject: iri(a), pred: KNOWS, object: iri(b) }
}

fn schema(shapes: Vec<(&str, ShapeExpr)>) -> CompiledSchema {
    CompiledSchema::new(shapes.into_iter().map(|(l, se)| (l.to_string(), se)).collect())
}

fn tc(pred: u64, value: Option<ShapeExpr>, min: Option<i64>, max: Option<i64>) -> ShapeExpr {
    ShapeExpr::TripleConstraint { pred, value_expr: value.map(Box::new), min, max }
}

/// S = knows @S {0,*}
fn knows_schema() -> CompiledSchema {
    schema(vec![("S", tc(KNOWS, Some(ShapeExpr::Ref(0)), Some(0), Some(-1)))])
}

fn run(s: CompiledSchema, g: &Graph, node: Node, label: &str, max_steps: usize) -> ResultValue {
    let mut v = Validator::new(s).with_max_steps(max_steps);
    v.validate_node_shape(node, &label.to_string(), g).unwrap();
    v.get_result(node, &label.to_string()).unwrap()
}

/// S = knows @T {1,1}, T = IRI
fn exactly_one_schema() -> CompiledSchema {
    schema(vec![
        ("S", tc(KNOWS, Some(ShapeExpr::Ref(1)), Some(1), Some(1))),
        ("T", ShapeExpr::NodeConstraint(NodeConstraint::Iri)),
    ])
}

#[test]
fn cardinality_exactly_one_conforming_value_conforms() {
    let g = Graph::new(vec![knows(1, 2)]);
    assert_eq!(run(exactly_one_schema(), &g, iri(1), "S", 20), ResultValue::Conforms);
}

#[test]
fn cardinality_zero_values_fails() {
    let g = Graph::new(vec![knows(2, 3)]);
    assert_eq!(run(exactly_one_schema(), &g, iri(1), "S", 20), ResultValue::Fails);
}

#[test]
fn cardinality_two_values_fails() {
    let g = Graph::new(vec![knows(1, 2), knows(1, 3)]);
    assert_eq!(run(exactly_one_schema(), &g, iri(1), "S", 20), ResultValue::Fails);
}

#[test]
fn cardinality_value_not_conforming_fails() {
    let g = Graph::new(vec![Triple { subject: iri(1), pred: KNOWS, object: Node::Literal(4) }]);
    assert_eq!(run(exactly_one_schema(), &g, iri(1), "S", 20), ResultValue::Fails);
}

#[test]
fn knows_no_edges_conforms() {
    let g = Graph::new(vec![]);
    assert_eq!(run(knows_schema(), &g, iri(1), "S", 20), ResultValue::Conforms);
}

#[test]
fn knows_one_edge_to_leaf_conforms() {
    let g = Graph::new(vec![knows(1, 2)]);
    assert_eq!(run(knows_schema(), &g, iri(1), "S", 20), ResultValue::Conforms);
}

#[test]
fn knows_one_edge_needs_three_steps() {
    let g = Graph::new(vec![knows(1, 2)]);
    assert_eq!(run(knows_schema(), &g, iri(1), "S", 2), ResultValue::Pending);
    assert_eq!(run(knows_schema(), &g, iri(1), "S", 3), ResultValue::Conforms);
}

#[test]
fn knows_mutual_cycle_one_step_pending() {
    let g = Graph::new(vec![knows(1, 2), knows(2, 1)]);
    assert_eq!(run(knows_schema(), &g, iri(1), "S", 1), ResultValue::Pending);
}

#[test]
fn knows_mutual_cycle_without_base_case_stays_pending() {
    let g = Graph::new(vec![knows(1, 2), knows(2, 1)]);
    assert_eq!(run(knows_schema(), &g, iri(1), "S", 200), ResultValue::Pending);
}

#[test]
fn self_reference_stays_pending_for_every_bound() {
    let g = Graph::new(vec![knows(1, 1)]);
    for k in [0usize, 1, 2, 5, 50] {
        let s = schema(vec![("S", ShapeExpr::Ref(0))]);
        assert_eq!(run(s, &g, iri(1), "S", k), ResultValue::Pending);
    }
}

#[test]
fn non_recursive_schema_resolves() {
    // S = knows @T {1,*}; T = knows @U {0,1}; U = literal
    let s = schema(vec![
        ("S", tc(KNOWS, Some(ShapeExpr::Ref(1)), None, None)),
        ("T", tc(KNOWS, Some(ShapeExpr::Ref(2)), Some(0), Some(1))),
        ("U", ShapeExpr::NodeConstraint(NodeConstraint::Literal)),
    ]);
    let g = Graph::new(vec![
        knows(1, 2),
        knows(1, 3),
        Triple { subject: iri(2), pred: KNOWS, object: Node::Literal(7) },
    ]);
    let mut v = Validator::new(s);
    v.validate_node_shape(iri(1), &"S".to_string(), &g).unwrap();
    assert_eq!(v.get_result(iri(1), &"S".to_string()).unwrap(), ResultValue::Conforms);
    assert_eq!(v.get_result(iri(2), &"T".to_string()).unwrap(), ResultValue::Conforms);
    assert_eq!(v.get_result(iri(3), &"T".to_string()).unwrap(), ResultValue::Conforms);
    assert_eq!(v.get_result(Node::Literal(7), &"U".to_string()).unwrap(), ResultValue::Conforms);
}

#[test]
fn ref_free_shape_resolves_in_one_step() {
    let s = schema(vec![("S", tc(KNOWS, None, Some(2), None))]);
    let g = Graph::new(vec![knows(1, 2)]);
    assert_eq!(run(s, &g, iri(1), "S", 1), ResultValue::Fails);
}

#[test]
fn resubmitting_keeps_result() {
    let g = Graph::new(vec![knows(1, 2)]);
    let mut v = Validator::new(knows_schema());
    let s = "S".to_string();
    v.validate_node_shape(iri(1), &s, &g).unwrap();
    assert_eq!(v.get_result(iri(1), &s).unwrap(), ResultValue::Conforms);
    v.validate_node_shape(iri(1), &s, &g).unwrap();
    assert_eq!(v.get_result(iri(1), &s).unwrap(), ResultValue::Conforms);
    v.submit(iri(1), 0);
    assert_eq!(v.get_result(iri(1), &s).unwrap(), ResultValue::Conforms);
}

#[test]
fn negative_atom_is_polarity_flip() {
    let s = schema(vec![("S", ShapeExpr::NodeConstraint(NodeConstraint::Literal))]);
    let g = Graph::new(vec![]);
    let mut v = Validator::new(s);
    v.validate_node_shape(iri(1), &"S".to_string(), &g).unwrap();
    v.validate_node_shape(Node::Literal(3), &"S".to_string(), &g).unwrap();
    assert_eq!(v.classification(iri(1), 0, true), Ok(ResultValue::Fails));
    assert_eq!(v.classification(iri(1), 0, false), Ok(ResultValue::Conforms));
    assert_eq!(v.classification(Node::Literal(3), 0, true), Ok(ResultValue::Conforms));
    assert_eq!(v.classification(Node::Literal(3), 0, false), Ok(ResultValue::Fails));
}

#[test]
fn unknown_label_is_an_error() {
    let g = Graph::new(vec![]);
    let mut v = Validator::new(knows_schema());
    let missing = "Missing".to_string();
    assert_eq!(
        v.validate_node_shape(iri(1), &missing, &g),
        Err(ValidatorError::NotFoundShapeLabel { shape: missing.clone() })
    );
    assert_eq!(v.get_result(iri(1), &missing), Err(ValidatorError::NotFoundShapeLabel { shape: missing }));
    assert_eq!(v.classification(iri(1), 3, true), Err(ValidatorError::NotFoundShapeIdx { idx: 3 }));
}

#[test]
fn never_submitted_is_unknown() {
    let v = Validator::new(knows_schema());
    assert_eq!(v.get_result(iri(1), &"S".to_string()).unwrap(), ResultValue::Unknown);
    assert_eq!(v.get_shape_label(0), "S");
}

#[test]
fn logical_combinators() {
    let lit = || Box::new(ShapeExpr::NodeConstraint(NodeConstraint::Literal));
    let small = || Box::new(ShapeExpr::NodeConstraint(NodeConstraint::MaxInclusive(10)));
    let s = schema(vec![
        ("And", ShapeExpr::And(lit(), small())),
        ("Or", ShapeExpr::Or(Box::new(ShapeExpr::NodeConstraint(NodeConstraint::Iri)), small())),
        ("Not", ShapeExpr::Not(lit())),
        ("Min", ShapeExpr::NodeConstraint(NodeConstraint::MinInclusive(3))),
        ("Val", ShapeExpr::NodeConstraint(NodeConstraint::Value(iri(9)))),
    ]);
    let g = Graph::new(vec![]);
    let mut v = Validator::new(s);
    let cases = [
        ("And", Node::Literal(5), ResultValue::Conforms),
        ("And", Node::Literal(11), ResultValue::Fails),
        ("Or", iri(1), ResultValue::Conforms),
        ("Or", Node::Literal(11), ResultValue::Fails),
        ("Not", iri(1), ResultValue::Conforms),
        ("Not", Node::Literal(1), ResultValue::Fails),
        ("Min", Node::Literal(3), ResultValue::Conforms),
        ("Min", Node::Literal(2), ResultValue::Fails),
        ("Val", iri(9), ResultValue::Conforms),
        ("Val", iri(8), ResultValue::Fails),
    ];
    for (label, node, expected) in cases {
        v.validate_node_shape(node, &label.to_string(), &g).unwrap();
        assert_eq!(v.get_result(node, &label.to_string()).unwrap(), expected, "{label} {node:?}");
    }
}

#[test]
fn unbounded_max_forms() {
    let g = Graph::new(vec![knows(1, 2), knows(1, 3), knows(1, 4)]);
    let none = schema(vec![("S", tc(KNOWS, None, None, None))]);
    let star = schema(vec![("S", tc(KNOWS, None, None, Some(-1)))]);
    let two = schema(vec![("S", tc(KNOWS, None, None, Some(2)))]);
    assert_eq!(run(none, &g, iri(1), "S", 5), ResultValue::Conforms);
    assert_eq!(run(star, &g, iri(1), "S", 5), ResultValue::Conforms);
    assert_eq!(run(two, &g, iri(1), "S", 5), ResultValue::Fails);
}

#[test]
fn default_min_is_one() {
    let g = Graph::new(vec![]);
    let s = schema(vec![("S", tc(KNOWS, None, None, None))]);
    assert_eq!(run(s, &g, iri(1), "S", 5), ResultValue::Fails);
}

#[test]
fn graph_neighbours_in_order() {
    let g = Graph::new(vec![knows(1, 3), knows(2, 4), knows(1, 2)]);
    assert_eq!(g.neighbours(iri(1), KNOWS), vec![iri(3), iri(2)]);
    assert_eq!(g.neighbours(iri(1), 7), vec![]);
}

#[test]
fn result_map_lists_verdicts_then_pending() {
    let g = Graph::new(vec![knows(1, 2)]);
    let mut v = Validator::new(knows_schema()).with_max_steps(2);
    v.validate_node_shape(iri(1), &"S".to_string(), &g).unwrap();
    let m = v.result_map();
    assert_eq!(
        m.entries,
        vec![
            ResultEntry { node: iri(2), label: "S".to_string(), value: ResultValue::Conforms },
            ResultEntry { node: iri(1), label: "S".to_string(), value: ResultValue::Pending },
        ]
    );
}

#[test]
fn raising_the_bound_never_unsettles_a_result() {
    let graphs = [
        Graph::new(vec![knows(1, 2)]),
        Graph::new(vec![knows(1, 2), knows(2, 3), knows(1, 4)]),
        Graph::new(vec![knows(1, 2), knows(2, 1)]),
    ];
    for g in graphs.iter() {
        let mut previous = ResultValue::Pending;
        for k in 0..12usize {
            let r = run(knows_schema(), g, iri(1), "S", k);
            if previous != ResultValue::Pending {
                assert_eq!(r, previous);
            }
            previous = r;
        }
    }
}

#[test]
fn non_recursive_schema_needs_a_step_per_obligation() {
    // S = knows @T {0,*}; T = IRI: node 1 defers, its two values take a step each
    let s = || schema(vec![
        ("S", tc(KNOWS, Some(ShapeExpr::Ref(1)), Some(0), Some(-1))),
        ("T", ShapeExpr::NodeConstraint(NodeConstraint::Iri)),
    ]);
    let g = Graph::new(vec![knows(1, 2), knows(1, 3)]);
    assert_eq!(run(s(), &g, iri(1), "S", 3), ResultValue::Pending);
    assert_eq!(run(s(), &g, iri(1), "S", 4), ResultValue::Conforms);
}

#[test]
fn unknown_label_changes_nothing() {
    let g = Graph::new(vec![knows(1, 2)]);
    let mut v = Validator::new(knows_schema()).with_max_steps(2);
    v.validate_node_shape(iri(1), &"S".to_string(), &g).unwrap();
    let before = v.result_map();
    assert!(v.validate_node_shape(iri(3), &"Nope".to_string(), &g).is_err());
    assert_eq!(v.result_map(), before);
    assert_eq!(v.get_result(iri(1), &"S".to_string()).unwrap(), ResultValue::Pending);
}

#[test]
fn result_map_pairs_are_distinct() {
    let g = Graph::new(vec![knows(1, 2), knows(2, 3), knows(1, 3)]);
    let mut v = Validator::new(knows_schema()).with_max_steps(4);
    v.validate_node_shape(iri(1), &"S".to_string(), &g).unwrap();
    let m = v.result_map();
    for i in 0..m.entries.len() {
        for j in 0..m.entries.len() {
            if i != j {
                assert!(!(m.entries[i].node == m.entries[j].node && m.entries[i].label == m.entries[j].label));
            }
        }
    }
}
