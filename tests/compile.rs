use shex_ast::cardinality::{Cardinality, Max, Min};
use shex_ast::compiled_schema::{CompiledSchema, ShapeExpr};
use shex_ast::compiled_schema_error::CompiledSchemaError;
use shex_ast::match_cond::SingleCond;
use shex_ast::prefixmap::{IriRef, PrefixMap, PrefixMapError};
use shex_ast::rbe::Rbe;
use shex_ast::rdf::NodeKind;
use shex_ast::schema_json::{SchemaJson, ShapeDecl, ShapeExpr as AstShapeExpr, ShapeExprLabel, TripleExpr, XsFacet};
use shex_ast::schema_json_compiler::SchemaJsonCompiler;
use shex_ast::shape_label::{ShapeLabel, ShapeLabelIdx};
use shex_ast::rdf::Object;
use shex_ast::validator::{check_shape_expr, ValidatorError};

fn tc(pred: &str, value_expr: Option<Box<AstShapeExpr>>, min: Option<i32>, max: Option<i32>) -> TripleExpr {
    TripleExpr::TripleConstraint { predicate: pred.to_string(), value_expr, min, max }
}

fn shape(te: TripleExpr) -> AstShapeExpr {
    AstShapeExpr::Shape { closed: None, extra: None, expression: Some(te) }
}

fn decl(id: &str, se: AstShapeExpr) -> ShapeDecl {
    ShapeDecl { id: id.to_string(), shape_expr: se }
}

fn iri_ref(s: &str) -> AstShapeExpr {
    AstShapeExpr::Ref(ShapeExprLabel::IriRef { value: IriRef::Iri(s.to_string()) })
}

fn compile(decls: Vec<ShapeDecl>) -> (CompiledSchema, Result<(), CompiledSchemaError>) {
    let schema = SchemaJson { shapes: Some(decls) };
    let mut cs = CompiledSchema::new();
    let r = cs.from_schema_json(&schema);
    (cs, r)
}

#[test]
fn test_find_component() {
    let schema = SchemaJson {
        shapes: Some(vec![decl("http://a.example/S1", shape(tc("http://a.example/p1", None, None, None)))]),
    };
    let mut compiled_schema = CompiledSchema::new();
    compiled_schema.from_schema_json(&schema).unwrap();
}

#[test]
fn compiled_single_constraint_is_symbol_one_one() {
    let (cs, r) = compile(vec![decl("http://a.example/S1", shape(tc("http://a.example/p1", None, None, None)))]);
    assert_eq!(r, Ok(()));
    let (idx, se) = cs.find_label(&ShapeLabel::iri("http://a.example/S1")).unwrap();
    assert_eq!(idx, ShapeLabelIdx::new(0));
    match se {
        ShapeExpr::Shape { closed, extra, rbe_table } => {
            assert!(!closed);
            assert!(extra.is_empty());
            assert_eq!(rbe_table.components.len(), 1);
            assert_eq!(rbe_table.components[0].0, "http://a.example/p1");
            assert_eq!(rbe_table.components[0].1.conds, vec![SingleCond::Any]);
            assert_eq!(
                rbe_table.rbe,
                Rbe::Symbol { value: 0, card: Cardinality { min: Min { value: 1 }, max: Max::IntMax(1) } }
            );
        }
        _ => panic!("expected a shape"),
    }
}

#[test]
fn mutual_references_resolve_to_indices() {
    let (cs, r) = compile(vec![
        decl("http://e/A", shape(tc("http://e/p", Some(Box::new(iri_ref("http://e/B"))), None, None))),
        decl("http://e/B", shape(tc("http://e/q", Some(Box::new(iri_ref("http://e/A"))), None, None))),
    ]);
    assert_eq!(r, Ok(()));
    let (_, a) = cs.find_label(&ShapeLabel::iri("http://e/A")).unwrap();
    match a {
        ShapeExpr::Shape { rbe_table, .. } => {
            assert_eq!(rbe_table.components[0].1.conds, vec![SingleCond::Ref(ShapeLabelIdx::new(1))]);
        }
        _ => panic!("expected a shape"),
    }
    let (_, b) = cs.find_label(&ShapeLabel::iri("http://e/B")).unwrap();
    match b {
        ShapeExpr::Shape { rbe_table, .. } => {
            assert_eq!(rbe_table.components[0].1.conds, vec![SingleCond::Ref(ShapeLabelIdx::new(0))]);
        }
        _ => panic!("expected a shape"),
    }
}

#[test]
fn every_declared_label_is_found() {
    let (cs, r) = compile(vec![
        decl("http://e/A", iri_ref("http://e/B")),
        decl("http://e/B", AstShapeExpr::NodeConstraint { node_kind: Some(NodeKind::Iri), datatype: None, xs_facet: None, values: None }),
        decl("http://e/C", AstShapeExpr::ShapeAnd { shape_exprs: vec![iri_ref("http://e/A"), iri_ref("http://e/C")] }),
    ]);
    assert_eq!(r, Ok(()));
    for id in ["http://e/A", "http://e/B", "http://e/C"] {
        assert!(cs.find_label(&ShapeLabel::iri(id)).is_some());
    }
    assert_eq!(cs.existing_labels().len(), 3);
    assert_eq!(cs.find_label(&ShapeLabel::iri("http://e/A")).unwrap().1, &ShapeExpr::Ref { idx: ShapeLabelIdx::new(1) });
    match cs.find_label(&ShapeLabel::iri("http://e/C")).unwrap().1 {
        ShapeExpr::ShapeAnd { exprs } => {
            assert_eq!(exprs, &vec![ShapeExpr::Ref { idx: ShapeLabelIdx::new(0) }, ShapeExpr::Ref { idx: ShapeLabelIdx::new(2) }]);
        }
        _ => panic!("expected a conjunction"),
    }
}

#[test]
fn unknown_reference_is_a_compile_error() {
    let (_, r) = compile(vec![decl("http://e/A", iri_ref("http://e/Missing"))]);
    assert_eq!(r, Err(CompiledSchemaError::ShapeLabelNotFound { shape_label: ShapeLabel::iri("http://e/Missing") }));
}

#[test]
fn negative_min_is_rejected() {
    let (_, r) = compile(vec![decl("http://e/A", shape(tc("http://e/p", None, Some(-1), None)))]);
    assert_eq!(r, Err(CompiledSchemaError::MinLessZero { min: -1 }));
}

#[test]
fn max_below_minus_one_is_rejected() {
    let (_, r) = compile(vec![decl("http://e/A", shape(tc("http://e/p", None, None, Some(-2))))]);
    assert_eq!(r, Err(CompiledSchemaError::MaxIncorrect { max: -2 }));
}

#[test]
fn max_minus_one_is_unbounded() {
    let (cs, r) = compile(vec![decl("http://e/A", shape(tc("http://e/p", None, Some(0), Some(-1))))]);
    assert_eq!(r, Ok(()));
    match &cs.shapes[0].1 {
        ShapeExpr::Shape { rbe_table, .. } => assert_eq!(
            rbe_table.rbe,
            Rbe::Symbol { value: 0, card: Cardinality { min: Min { value: 0 }, max: Max::Unbounded } }
        ),
        _ => panic!("expected a shape"),
    }
}

#[test]
fn group_cardinalities_wrap_the_group() {
    let each = |min, max| TripleExpr::EachOf {
        expressions: vec![tc("http://e/p", None, None, None), tc("http://e/q", None, None, None)],
        min,
        max,
    };
    let cases = vec![
        (each(None, None), "and"),
        (each(Some(0), Some(-1)), "star"),
        (each(Some(1), Some(-1)), "plus"),
        (each(Some(2), Some(3)), "repeat"),
    ];
    for (te, kind) in cases {
        let (cs, r) = compile(vec![decl("http://e/A", shape(te))]);
        assert_eq!(r, Ok(()));
        let rbe = match &cs.shapes[0].1 {
            ShapeExpr::Shape { rbe_table, .. } => rbe_table.rbe.clone(),
            _ => panic!("expected a shape"),
        };
        match (kind, rbe) {
            ("and", Rbe::And { values }) => assert_eq!(values.len(), 2),
            ("star", Rbe::Star { value }) => assert!(matches!(*value, Rbe::And { .. })),
            ("plus", Rbe::Plus { value }) => assert!(matches!(*value, Rbe::And { .. })),
            ("repeat", Rbe::Repeat { value, card }) => {
                assert!(matches!(*value, Rbe::And { .. }));
                assert_eq!(card, Cardinality { min: Min { value: 2 }, max: Max::IntMax(3) });
            }
            (k, other) => panic!("unexpected pattern for {k}: {other:?}"),
        }
    }
}

#[test]
fn one_of_compiles_to_or() {
    let te = TripleExpr::OneOf {
        expressions: vec![tc("http://e/p", None, None, None), tc("http://e/q", None, None, None)],
        min: None,
        max: None,
    };
    let (cs, r) = compile(vec![decl("http://e/A", shape(te))]);
    assert_eq!(r, Ok(()));
    match &cs.shapes[0].1 {
        ShapeExpr::Shape { rbe_table, .. } => {
            assert!(matches!(&rbe_table.rbe, Rbe::Or { values } if values.len() == 2));
            assert_eq!(rbe_table.components.len(), 2);
        }
        _ => panic!("expected a shape"),
    }
}

#[test]
fn unsupported_constructs_are_errors() {
    let (_, r) = compile(vec![decl("http://e/A", AstShapeExpr::ShapeExternal)]);
    assert!(matches!(r, Err(CompiledSchemaError::Unsupported { .. })));
    let (_, r) = compile(vec![decl("http://e/A", shape(TripleExpr::TripleExprRef("http://e/t".to_string())))]);
    assert!(matches!(r, Err(CompiledSchemaError::Unsupported { .. })));
    let facets = AstShapeExpr::NodeConstraint {
        node_kind: None,
        datatype: None,
        xs_facet: Some(vec![XsFacet::Length(3)]),
        values: None,
    };
    let (_, r) = compile(vec![decl("http://e/A", facets)]);
    assert!(matches!(r, Err(CompiledSchemaError::Unsupported { .. })));
}

#[test]
fn prefixed_reference_resolves_through_prefix_map() {
    let schema = SchemaJson {
        shapes: Some(vec![
            decl("http://e/A", AstShapeExpr::Ref(ShapeExprLabel::IriRef {
                value: IriRef::Prefixed { prefix: "ex".to_string(), local: "B".to_string() },
            })),
            decl("http://e/B", AstShapeExpr::NodeConstraint { node_kind: None, datatype: None, xs_facet: None, values: None }),
        ]),
    };
    let mut pm = PrefixMap::new();
    pm.add_prefix("ex", "http://e/");
    let mut cs = CompiledSchema::new();
    cs.set_prefixmap(Some(pm));
    assert_eq!(cs.from_schema_json(&schema), Ok(()));
    assert_eq!(cs.shapes[0].1, ShapeExpr::Ref { idx: ShapeLabelIdx::new(1) });

    let mut bare = CompiledSchema::new();
    let r = bare.from_schema_json(&schema);
    assert_eq!(
        r,
        Err(CompiledSchemaError::PrefixedNotFound {
            prefix: "ex".to_string(),
            local: "B".to_string(),
            err: Box::new(PrefixMapError::PrefixNotFound { prefix: "ex".to_string() }),
        })
    );
}

#[test]
fn find_ref_resolves_start_and_blank_nodes() {
    let mut cs = CompiledSchema::new();
    cs.add_shape(ShapeLabel::start(), ShapeExpr::Empty);
    cs.add_shape(ShapeLabel::from_bnode("b1"), ShapeExpr::Empty);
    assert_eq!(cs.find_ref(&ShapeExprLabel::Start), Ok(ShapeLabelIdx::new(0)));
    assert_eq!(cs.find_ref(&ShapeExprLabel::BNode { value: "b1".to_string() }), Ok(ShapeLabelIdx::new(1)));
    assert_eq!(
        cs.find_ref(&ShapeExprLabel::BNode { value: "b2".to_string() }),
        Err(CompiledSchemaError::LabelNotFound { shape_label: ShapeLabel::from_bnode("b2") })
    );
}

#[test]
fn registering_a_label_again_rebinds_it() {
    let mut cs = CompiledSchema::new();
    cs.add_shape(ShapeLabel::iri("http://e/A"), ShapeExpr::Empty);
    cs.add_shape(ShapeLabel::iri("http://e/A"), ShapeExpr::Ref { idx: ShapeLabelIdx::new(0) });
    assert_eq!(cs.find_shape_label_idx(&ShapeLabel::iri("http://e/A")), Some(ShapeLabelIdx::new(1)));
    assert_eq!(cs.existing_labels(), vec![&ShapeLabel::iri("http://e/A")]);
    assert_eq!(cs.get_shape_expr(&ShapeLabel::iri("http://e/A")), Some(&ShapeExpr::Ref { idx: ShapeLabelIdx::new(0) }));
}

#[test]
fn replace_shape_at_unknown_index_changes_nothing() {
    let mut cs = CompiledSchema::new();
    cs.add_shape(ShapeLabel::iri("http://e/A"), ShapeExpr::Empty);
    cs.replace_shape(&ShapeLabelIdx::new(5), ShapeExpr::Ref { idx: ShapeLabelIdx::new(0) });
    assert_eq!(cs.shapes.len(), 1);
    assert_eq!(cs.shapes[0].1, ShapeExpr::Empty);
    cs.replace_shape(&ShapeLabelIdx::new(0), ShapeExpr::Ref { idx: ShapeLabelIdx::new(0) });
    assert_eq!(cs.shapes[0].1, ShapeExpr::Ref { idx: ShapeLabelIdx::new(0) });
    assert_eq!(cs.find_shape_idx(&ShapeLabelIdx::new(0)).unwrap().0, ShapeLabel::iri("http://e/A"));
    assert!(cs.find_shape_idx(&ShapeLabelIdx::new(1)).is_none());
}

#[test]
fn get_shape_label_idx_reports_missing_label() {
    let cs = CompiledSchema::new();
    assert_eq!(
        cs.get_shape_label_idx(&ShapeLabel::iri("http://e/X")),
        Err(CompiledSchemaError::ShapeLabelNotFound { shape_label: ShapeLabel::iri("http://e/X") })
    );
}

#[test]
fn show_label_uses_prefixes() {
    let mut pm = PrefixMap::new();
    pm.add_prefix("ex", "http://e/");
    let mut cs = CompiledSchema::new();
    cs.set_prefixmap(Some(pm));
    assert_eq!(cs.show_label(&ShapeLabel::iri("http://e/A")), "ex:A");
    assert_eq!(cs.show_label(&ShapeLabel::iri("http://other/A")), "<http://other/A>");
    assert_eq!(cs.show_label(&ShapeLabel::from_bnode("b")), "_:b");
    assert_eq!(cs.show_label(&ShapeLabel::start()), "START");
}

#[test]
fn compiler_passes_can_run_one_by_one() {
    let schema = SchemaJson { shapes: Some(vec![decl("http://e/A", iri_ref("http://e/A"))]) };
    let mut compiler = SchemaJsonCompiler::new();
    let mut cs = CompiledSchema::new();
    assert_eq!(compiler.collect_shape_exprs(&schema, &mut cs), Err(CompiledSchemaError::ShapeLabelNotFound { shape_label: ShapeLabel::iri("http://e/A") }));
    assert_eq!(compiler.collect_shape_labels(&schema, &mut cs), Ok(()));
    assert_eq!(cs.shapes[0].1, ShapeExpr::Empty);
    assert_eq!(compiler.collect_shape_exprs(&schema, &mut cs), Ok(()));
    assert_eq!(cs.shapes[0].1, ShapeExpr::Ref { idx: ShapeLabelIdx::new(0) });
}

#[test]
fn compiled_closed_shape_with_extra_validates() {
    let se = AstShapeExpr::Shape {
        closed: Some(true),
        extra: Some(vec!["http://e/p2".to_string()]),
        expression: Some(tc("http://e/p1", None, None, None)),
    };
    let (cs, r) = compile(vec![decl("http://e/S", se)]);
    assert_eq!(r, Ok(()));
    let s = &cs.shapes[0].1;
    let node = Object::iri("http://e/n");
    let item = |p: &str, v: &str| (p.to_string(), Object::iri(v));
    assert!(check_shape_expr(s, &node, &vec![item("http://e/p1", "http://e/v1")]).is_ok());
    assert!(check_shape_expr(s, &node, &vec![item("http://e/p1", "http://e/v1"), item("http://e/p2", "http://e/v2")]).is_ok());
    assert_eq!(
        check_shape_expr(s, &node, &vec![item("http://e/p1", "http://e/v1"), item("http://e/p3", "http://e/v3")]),
        Err(ValidatorError::ClosedShapeWithRemainderPreds {
            remainder: vec!["http://e/p3".to_string()],
            declared: vec!["http://e/p1".to_string()],
        })
    );
}

#[test]
fn first_failing_member_decides_the_error() {
    let both = AstShapeExpr::ShapeAnd {
        shape_exprs: vec![iri_ref("http://e/Missing"), shape(tc("http://e/p", None, Some(-1), None))],
    };
    let (_, r) = compile(vec![decl("http://e/A", both)]);
    assert_eq!(r, Err(CompiledSchemaError::ShapeLabelNotFound { shape_label: ShapeLabel::iri("http://e/Missing") }));
    let group = TripleExpr::EachOf {
        expressions: vec![tc("http://e/p", None, None, Some(-3)), tc("http://e/q", None, Some(-2), None)],
        min: Some(-5),
        max: None,
    };
    let (_, r) = compile(vec![decl("http://e/A", shape(group))]);
    assert_eq!(r, Err(CompiledSchemaError::MaxIncorrect { max: -3 }));
}

#[test]
fn max_below_min_is_rejected() {
    let (_, r) = compile(vec![decl("http://e/A", shape(tc("http://e/p", None, Some(2), Some(1))))]);
    assert_eq!(r, Err(CompiledSchemaError::MaxIncorrect { max: 1 }));
    let (_, r) = compile(vec![decl("http://e/A", shape(tc("http://e/p", None, Some(2), None)))]);
    assert_eq!(r, Err(CompiledSchemaError::MaxIncorrect { max: 1 }));
    let group = TripleExpr::EachOf { expressions: vec![tc("http://e/p", None, Some(0), Some(1))], min: Some(2), max: Some(1) };
    let (_, r) = compile(vec![decl("http://e/A", shape(group))]);
    assert_eq!(r, Err(CompiledSchemaError::MaxIncorrect { max: 1 }));
    let (_, r) = compile(vec![decl("http://e/A", shape(tc("http://e/p", None, Some(2), Some(-1))))]);
    assert_eq!(r, Ok(()));
}
