use shape_validation::errors::Shacl2ShExError;
use shape_validation::tap2shex::{
    DCTap, ShapeDecl, Tap2ShEx, Tap2ShExConfig, Tap2ShExError, TapShape, TapStatement, TripleExpr, ValueExpr,
};
use shape_validation::tap_reader_state::TapReaderState;

fn config(base: Option<&str>, dt_base: Option<&str>) -> Tap2ShExConfig {
    Tap2ShExConfig {
        base_iri: base.map(|s| s.to_string()),
        datatype_base_iri: dt_base.map(|s| s.to_string()),
        prefixmap: vec![("xsd".to_string(), "http://www.w3.org/2001/XMLSchema#".to_string())],
    }
}

fn statement(prop: &str, mandatory: Option<bool>, repeatable: Option<bool>, dt: Option<&str>, shape: Option<&str>) -> TapStatement {
    TapStatement {
        property_id: prop.to_string(),
        mandatory,
        repeatable,
        value_datatype: dt.map(|s| s.to_string()),
        value_shape: shape.map(|s| s.to_string()),
    }
}

#[test]
fn converts_profile() {
    let tap = DCTap {
        shapes: vec![
            TapShape {
                shape_id: Some("Person".to_string()),
                statements: vec![
                    statement("name", Some(true), Some(false), Some("xsd:string"), None),
                    statement("knows", Some(false), Some(true), None, Some("Person")),
                    statement("note", None, None, None, None),
                ],
            },
            TapShape { shape_id: Some("Empty".to_string()), statements: vec![] },
        ],
    };
    let schema = Tap2ShEx::new(config(Some("http://e.org/"), None)).convert(&tap).unwrap();
    assert_eq!(schema.prefixmap, config(None, None).prefixmap);
    assert_eq!(
        schema.shapes,
        vec![
            ShapeDecl {
                label: "http://e.org/Person".to_string(),
                triple_exprs: vec![
                    TripleExpr {
                        predicate: "http://e.org/name".to_string(),
                        value_expr: Some(ValueExpr::Datatype("http://www.w3.org/2001/XMLSchema#string".to_string())),
                        min: Some(1),
                        max: Some(1),
                    },
                    TripleExpr {
                        predicate: "http://e.org/knows".to_string(),
                        value_expr: Some(ValueExpr::ShapeRef("http://e.org/Person".to_string())),
                        min: Some(0),
                        max: Some(-1),
                    },
                    TripleExpr { predicate: "http://e.org/note".to_string(), value_expr: None, min: Some(1), max: None },
                ],
            },
            ShapeDecl { label: "http://e.org/Empty".to_string(), triple_exprs: vec![] },
        ]
    );
}

#[test]
fn datatype_base_iri_is_used_when_given() {
    let tap = DCTap {
        shapes: vec![TapShape {
            shape_id: Some("S".to_string()),
            statements: vec![statement("p", None, None, Some("integer"), None)],
        }],
    };
    let schema = Tap2ShEx::new(config(Some("http://e.org/"), Some("http://dt.org/"))).convert(&tap).unwrap();
    assert_eq!(
        schema.shapes[0].triple_exprs[0].value_expr,
        Some(ValueExpr::Datatype("http://dt.org/integer".to_string()))
    );
}

fn one_statement(st: TapStatement) -> DCTap {
    DCTap { shapes: vec![TapShape { shape_id: Some("S".to_string()), statements: vec![st] }] }
}

#[test]
fn conversion_errors() {
    let c = Tap2ShEx::new(config(Some("http://e.org/"), None));
    let no_id = DCTap { shapes: vec![TapShape { shape_id: None, statements: vec![] }] };
    assert_eq!(c.convert(&no_id), Err(Tap2ShExError::NoShapeId { shape_index: 0 }));
    assert_eq!(
        c.convert(&one_statement(statement("p", None, None, Some("xsd:int"), Some("S")))),
        Err(Tap2ShExError::MultipleValueExprInStatement { value_datatype: "xsd:int".to_string(), value_shape: "S".to_string() })
    );
    assert_eq!(
        c.convert(&one_statement(statement("p", None, None, Some("integer"), None))),
        Err(Tap2ShExError::DatatypeId2IriNoPrefix { datatype_id: "integer".to_string() })
    );
    assert_eq!(
        c.convert(&one_statement(statement("p", None, None, Some("foaf:x"), None))),
        Err(Tap2ShExError::PrefixNotFound { prefix: "foaf".to_string() })
    );
    let no_base = Tap2ShEx::new(config(None, None));
    assert_eq!(no_base.convert(&one_statement(statement("p", None, None, None, None))), Err(Tap2ShExError::NoBaseIri));
    assert!(no_base.convert(&DCTap { shapes: vec![] }).unwrap().shapes.is_empty());
}

#[test]
fn placeholder_ids_count_per_name() {
    let mut st = TapReaderState::new();
    assert_eq!(st.placeholder_id("a"), 0);
    assert_eq!(st.placeholder_id("a"), 1);
    assert_eq!(st.placeholder_id("b"), 0);
    assert_eq!(st.placeholder_id("a"), 2);
    assert_eq!(st.placeholder_id("b"), 1);
}

#[test]
fn cached_record_round_trip() {
    let mut st = TapReaderState::new();
    assert!(st.get_cached_next_record().is_none());
    let rec = csv::StringRecord::from(vec!["shapeID", "propertyID"]);
    let mut pos = csv::Position::new();
    pos.set_line(3);
    st.set_next_record(&rec, &pos);
    let (r, p) = st.get_cached_next_record().unwrap();
    assert_eq!(r, &rec);
    assert_eq!(p.line(), 3);
    assert_eq!(st.placeholder_id("x"), 0);
    st.reset_next_record();
    assert!(st.get_cached_next_record().is_none());
    assert_eq!(st.placeholder_id("x"), 1);
}

#[test]
fn first_failing_statement_and_shape_give_the_error() {
    let c = Tap2ShEx::new(config(Some("http://e.org/"), None));
    let tap = DCTap {
        shapes: vec![
            TapShape {
                shape_id: Some("S".to_string()),
                statements: vec![
                    statement("ok", None, None, None, None),
                    statement("p", None, None, Some("nope"), None),
                    statement("q", None, None, Some("a:b"), Some("S")),
                ],
            },
            TapShape { shape_id: None, statements: vec![] },
        ],
    };
    assert_eq!(c.convert(&tap), Err(Tap2ShExError::DatatypeId2IriNoPrefix { datatype_id: "nope".to_string() }));
    let tap2 = DCTap {
        shapes: vec![
            TapShape { shape_id: Some("S".to_string()), statements: vec![] },
            TapShape { shape_id: None, statements: vec![] },
            TapShape { shape_id: Some("T".to_string()), statements: vec![statement("p", None, None, Some("x:y"), None)] },
        ],
    };
    assert_eq!(c.convert(&tap2), Err(Tap2ShExError::NoShapeId { shape_index: 1 }));
}

#[test]
fn shacl2shex_not_implemented() {
    let e = Shacl2ShExError::not_implemented("paths");
    assert_eq!(e, Shacl2ShExError::NotImplemented { msg: "paths".to_string() });
}
