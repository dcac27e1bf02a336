use shape_validation::graph::{Graph, Node, Triple};
use shape_validation::shacl::{
    ConstraintError, Context, MaxInclusive, Strategy, ReportVocabulary, RequiredField, ResultError, ValidationResult,
};

fn ctx() -> Context {
    Context { component: Node::Iri(50), source_shape: Some(Node::Iri(51)), path: Some(Node::Iri(52)), severity: Node::Iri(53) }
}

fn record(focus: Node, value: Node) -> ValidationResult {
    ValidationResult::new(focus, Some(Node::Iri(52)), Some(value), Some(Node::Iri(51)), Node::Iri(50), None, None, Node::Iri(53))
}

#[test]
fn max_inclusive_strategies_agree_on_five_against_ten() {
    let c = MaxInclusive::new(10);
    let v = Node::Literal(5);
    let default_verdict = c.violates(v);
    // a store answers the query "5 > 10" with false
    let query_verdict = c.violates_from_answer(v, 5 > 10);
    assert!(!default_verdict);
    assert_eq!(default_verdict, query_verdict);
}

#[test]
fn max_inclusive_boundary_and_above() {
    let c = MaxInclusive::new(10);
    assert!(!c.violates(Node::Literal(10)));
    assert!(c.violates(Node::Literal(11)));
    assert!(c.violates(Node::Iri(1)));
    assert_eq!(c.violates_from_answer(Node::Literal(11), 11 > 10), true);
}

#[test]
fn ask_query_text() {
    let c = MaxInclusive::new(10);
    assert_eq!(c.ask_query(Node::Literal(5)), Some(" ASK { FILTER (5 > 10) } ".to_string()));
    assert_eq!(MaxInclusive::new(-3).ask_query(Node::Literal(-12)), Some(" ASK { FILTER (-12 > -3) } ".to_string()));
    assert_eq!(c.ask_query(Node::Iri(4)), None);
}

#[test]
fn evaluate_default_reports_each_violation() {
    let c = MaxInclusive::new(10);
    let focus = Node::Iri(1);
    let values = vec![Node::Literal(5), Node::Literal(12), Node::Iri(7), Node::Literal(10)];
    let r = c.evaluate_default(focus, ctx(), &values);
    assert_eq!(r, vec![record(focus, Node::Literal(12)), record(focus, Node::Iri(7))]);
}

#[test]
fn evaluate_query_matches_default() {
    let c = MaxInclusive::new(10);
    let focus = Node::Iri(1);
    let values = vec![Node::Literal(5), Node::Literal(12), Node::Iri(7), Node::Literal(10)];
    let answers = vec![Some(false), Some(true), None, Some(false)];
    let q = c.evaluate_query(focus, ctx(), &values, &answers).unwrap();
    assert_eq!(q, c.evaluate_default(focus, ctx(), &values));
}

#[test]
fn evaluate_query_failure() {
    let c = MaxInclusive::new(10);
    let values = vec![Node::Literal(5)];
    assert_eq!(c.evaluate_query(Node::Iri(1), ctx(), &values, &vec![None]), Err(ConstraintError::Query));
}

fn voc() -> ReportVocabulary {
    ReportVocabulary { focus_node: 1, result_severity: 2, source_constraint_component: 3, result_path: 4, source_shape: 5, value: 6 }
}

fn t(s: Node, p: u64, o: Node) -> Triple {
    Triple { subject: s, pred: p, object: o }
}

#[test]
fn parse_full_record() {
    let r = Node::Iri(900);
    let g = Graph::new(vec![
        t(r, 1, Node::Iri(10)),
        t(r, 2, Node::Iri(11)),
        t(r, 3, Node::Iri(12)),
        t(r, 4, Node::Iri(13)),
        t(r, 6, Node::Literal(42)),
    ]);
    let expected = ValidationResult::new(Node::Iri(10), Some(Node::Iri(13)), Some(Node::Literal(42)), None, Node::Iri(12), None, None, Node::Iri(11));
    assert_eq!(ValidationResult::parse(&g, &voc(), r), Ok(expected));
}

#[test]
fn parse_missing_required_fields() {
    let r = Node::Iri(900);
    let none = Graph::new(vec![]);
    assert_eq!(ValidationResult::parse(&none, &voc(), r), Err(ResultError::MissingRequiredField(RequiredField::FocusNode)));
    let focus = Graph::new(vec![t(r, 1, Node::Iri(10))]);
    assert_eq!(ValidationResult::parse(&focus, &voc(), r), Err(ResultError::MissingRequiredField(RequiredField::Severity)));
    let two = Graph::new(vec![t(r, 1, Node::Iri(10)), t(r, 2, Node::Iri(11))]);
    assert_eq!(
        ValidationResult::parse(&two, &voc(), r),
        Err(ResultError::MissingRequiredField(RequiredField::SourceConstraintComponent))
    );
}

#[test]
fn parse_literal_where_iri_expected() {
    let r = Node::Iri(900);
    let g = Graph::new(vec![t(r, 1, Node::Literal(3))]);
    assert_eq!(ValidationResult::parse(&g, &voc(), r), Err(ResultError::ExpectedIri { found: Node::Literal(3) }));
}

#[test]
fn strategy_dispatch() {
    let c = MaxInclusive::new(10);
    let focus = Node::Iri(1);
    let values = vec![Node::Literal(5), Node::Literal(15)];
    assert_eq!(Strategy::for_store(true), Strategy::Query);
    assert_eq!(Strategy::for_store(false), Strategy::Default);
    let d = c.evaluate(Strategy::Default, focus, ctx(), &values, None).unwrap();
    assert_eq!(d, vec![record(focus, Node::Literal(15))]);
    let answers = vec![Some(false), Some(true)];
    assert_eq!(c.evaluate(Strategy::Query, focus, ctx(), &values, Some(&answers)), Ok(d));
    assert_eq!(c.evaluate(Strategy::Query, focus, ctx(), &values, None), Err(ConstraintError::NotImplemented));
}

#[test]
fn evaluate_query_follows_the_answers() {
    let c = MaxInclusive::new(10);
    let focus = Node::Iri(1);
    let values = vec![Node::Literal(5), Node::Literal(12), Node::Iri(7)];
    // the records follow the answers as given, even untruthful ones
    let answers = vec![Some(true), Some(false), Some(false)];
    let q = c.evaluate_query(focus, ctx(), &values, &answers).unwrap();
    assert_eq!(q, vec![record(focus, Node::Literal(5)), record(focus, Node::Iri(7))]);
}
