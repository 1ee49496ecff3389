use shex_ast::cardinality::Max;
use shex_ast::compiled_schema::ShapeExpr;
use shex_ast::compiled_schema_error::CompiledSchemaError;
use shex_ast::match_cond::{MatchCond, Pending, SingleCond};
use shex_ast::rbe::Rbe;
use shex_ast::rbe_table::{RbeError, RbeTable};
use shex_ast::rdf::{NodeKind, Object};
use shex_ast::shape_label::ShapeLabelIdx;
use shex_ast::validator::{check_shape_expr, match_shape, ValidatorError};

fn item(p: &str, v: Object) -> (String, Object) {
    (p.to_string(), v)
}

fn table_one(pred: &str, cond: MatchCond, min: usize, max: Max) -> RbeTable {
    let mut t = RbeTable::new();
    let c = t.add_component(pred.to_string(), cond);
    t.with_rbe(Rbe::symbol(c, min, max));
    t
}

#[test]
fn star_constraint_accepts_any_count() {
    let t = table_one("p", MatchCond::empty(), 0, Max::Unbounded);
    for n in [0usize, 1, 2, 5] {
        let bag: Vec<(String, Object)> = (0..n).map(|i| item("p", Object::iri(&format!("http://e/{i}")))).collect();
        assert!(t.matches(&bag).is_ok(), "{n} occurrences");
    }
}

#[test]
fn required_constraint_rejects_empty_bag() {
    let t = table_one("p", MatchCond::empty(), 1, Max::IntMax(1));
    assert_eq!(t.matches(&vec![]).err(), Some(RbeError::CardinalityFailed));
    let t = table_one("p", MatchCond::empty(), 2, Max::Unbounded);
    assert_eq!(t.matches(&vec![item("p", Object::iri("http://e/a"))]).err(), Some(RbeError::CardinalityFailed));
}

#[test]
fn too_many_occurrences_fail() {
    let t = table_one("p", MatchCond::empty(), 0, Max::IntMax(1));
    let bag = vec![item("p", Object::iri("http://e/a")), item("p", Object::iri("http://e/b"))];
    assert_eq!(t.matches(&bag).err(), Some(RbeError::CardinalityFailed));
}

#[test]
fn unclaimed_item_is_unexpected() {
    let t = table_one("p", MatchCond::empty(), 0, Max::Unbounded);
    let bag = vec![item("p", Object::iri("http://e/a")), item("q", Object::iri("http://e/b"))];
    assert_eq!(t.matches(&bag).err(), Some(RbeError::UnexpectedItem { index: 1 }));
}

#[test]
fn failing_condition_is_propagated() {
    let t = table_one("p", MatchCond::single(SingleCond::NodeKind(NodeKind::Literal)), 1, Max::IntMax(1));
    let bag = vec![item("p", Object::iri("http://e/a"))];
    assert_eq!(
        t.matches(&bag).err(),
        Some(RbeError::ConditionFailed {
            index: 0,
            error: CompiledSchemaError::NodeKindLiteral { node: Object::iri("http://e/a") }
        })
    );
}

#[test]
fn search_tries_every_component_of_a_predicate() {
    // Two components on the same predicate: one wants an IRI, one a literal. A greedy
    // choice of the first component for the IRI-less first item would fail.
    let mut t = RbeTable::new();
    let c0 = t.add_component("p".to_string(), MatchCond::empty());
    let c1 = t.add_component("p".to_string(), MatchCond::single(SingleCond::NodeKind(NodeKind::Iri)));
    t.with_rbe(Rbe::and(vec![Rbe::symbol(c0, 1, Max::IntMax(1)), Rbe::symbol(c1, 1, Max::IntMax(1))]));
    let bag = vec![item("p", Object::iri("http://e/a")), item("p", Object::str_literal("x"))];
    assert!(t.matches(&bag).is_ok());
    let bag = vec![item("p", Object::str_literal("x")), item("p", Object::str_literal("y"))];
    assert_eq!(t.matches(&bag).err(), Some(RbeError::CardinalityFailed));
}

#[test]
fn or_and_repeat_patterns() {
    let mut t = RbeTable::new();
    let a = t.add_component("a".to_string(), MatchCond::empty());
    let b = t.add_component("b".to_string(), MatchCond::empty());
    let group = Rbe::or(vec![Rbe::symbol(a, 1, Max::IntMax(1)), Rbe::symbol(b, 1, Max::IntMax(1))]);
    t.with_rbe(Rbe::Repeat {
        value: Box::new(group),
        card: shex_ast::cardinality::Cardinality::from(
            shex_ast::cardinality::Min::from(2),
            Max::from(2),
        ),
    });
    let v = || Object::iri("http://e/v");
    assert!(t.matches(&vec![item("a", v()), item("b", v())]).is_ok());
    assert!(t.matches(&vec![item("a", v()), item("a", v())]).is_ok());
    assert!(t.matches(&vec![item("a", v())]).is_err());
    assert!(t.matches(&vec![item("a", v()), item("b", v()), item("b", v())]).is_err());
}

#[test]
fn reference_conditions_leave_obligations() {
    let t = table_one("p", MatchCond::single(SingleCond::Ref(ShapeLabelIdx::new(3))), 1, Max::Unbounded);
    let bag = vec![item("p", Object::iri("http://e/a")), item("p", Object::iri("http://e/b"))];
    let p = t.matches(&bag).unwrap();
    assert_eq!(
        p,
        Pending {
            pairs: vec![(Object::iri("http://e/a"), ShapeLabelIdx::new(3)), (Object::iri("http://e/b"), ShapeLabelIdx::new(3))]
        }
    );
}

#[test]
fn closed_shape_with_extra() {
    let t = table_one("p1", MatchCond::empty(), 1, Max::IntMax(1));
    let extra = vec!["p2".to_string()];
    let v1 = Object::iri("http://e/v1");
    assert!(match_shape(true, &extra, &t, &vec![item("p1", v1.clone())]).is_ok());
    assert!(match_shape(true, &extra, &t, &vec![item("p1", v1.clone()), item("p2", Object::iri("http://e/v2"))]).is_ok());
    let r = match_shape(true, &extra, &t, &vec![item("p1", v1.clone()), item("p3", Object::iri("http://e/v3"))]);
    assert_eq!(
        r.err(),
        Some(ValidatorError::ClosedShapeWithRemainderPreds {
            remainder: vec!["p3".to_string()],
            declared: vec!["p1".to_string()],
        })
    );
    // an open shape ignores the other predicate
    assert!(match_shape(false, &extra, &t, &vec![item("p1", v1.clone()), item("p3", Object::iri("http://e/v3"))]).is_ok());
    // a missing required predicate is a matching failure, reported before the closed check
    let r = match_shape(true, &extra, &t, &vec![item("p3", Object::iri("http://e/v3"))]);
    assert_eq!(r.err(), Some(ValidatorError::RbeError { error: RbeError::CardinalityFailed }));
}

#[test]
fn remainder_lists_each_predicate_once() {
    let t = table_one("p1", MatchCond::empty(), 0, Max::Unbounded);
    let r = match_shape(
        true,
        &vec![],
        &t,
        &vec![item("p3", Object::iri("http://e/a")), item("p3", Object::iri("http://e/b")), item("p4", Object::iri("http://e/c"))],
    );
    assert_eq!(
        r.err(),
        Some(ValidatorError::ClosedShapeWithRemainderPreds {
            remainder: vec!["p3".to_string(), "p4".to_string()],
            declared: vec!["p1".to_string()],
        })
    );
}

fn nk(k: NodeKind) -> ShapeExpr {
    ShapeExpr::NodeConstraint { node_kind: Some(k), datatype: None, cond: MatchCond::single(SingleCond::NodeKind(k)) }
}

#[test]
fn shape_and_collects_every_failure() {
    let node = Object::iri("http://e/n");
    let both = ShapeExpr::ShapeAnd { exprs: vec![nk(NodeKind::Iri), nk(NodeKind::NonLiteral)] };
    assert!(check_shape_expr(&both, &node, &vec![]).is_ok());
    let one_fails = ShapeExpr::ShapeAnd { exprs: vec![nk(NodeKind::Iri), nk(NodeKind::Literal)] };
    match check_shape_expr(&one_fails, &node, &vec![]) {
        Err(ValidatorError::ShapeAndError { errors }) => assert_eq!(errors.errs.len(), 1),
        other => panic!("unexpected {other:?}"),
    }
    let two_fail = ShapeExpr::ShapeAnd { exprs: vec![nk(NodeKind::BNode), nk(NodeKind::Literal)] };
    match check_shape_expr(&two_fail, &node, &vec![]) {
        Err(ValidatorError::ShapeAndError { errors }) => {
            assert_eq!(
                errors.errs,
                vec![
                    ValidatorError::CompiledSchemaError { error: CompiledSchemaError::NodeKindBNode { node: node.clone() } },
                    ValidatorError::CompiledSchemaError { error: CompiledSchemaError::NodeKindLiteral { node: node.clone() } },
                ]
            );
        }
        other => panic!("unexpected {other:?}"),
    }
}

#[test]
fn shape_or_succeeds_with_either() {
    let node = Object::iri("http://e/n");
    let either = ShapeExpr::ShapeOr { exprs: vec![nk(NodeKind::Literal), nk(NodeKind::Iri)] };
    assert_eq!(check_shape_expr(&either, &node, &vec![]), Ok(Pending::new()));
    let neither = ShapeExpr::ShapeOr { exprs: vec![nk(NodeKind::Literal), nk(NodeKind::BNode)] };
    match check_shape_expr(&neither, &node, &vec![]) {
        Err(ValidatorError::ShapeOrError { errors }) => assert_eq!(errors.errs.len(), 2),
        other => panic!("unexpected {other:?}"),
    }
}

#[test]
fn shape_not_and_references() {
    let node = Object::bnode("b");
    let not_iri = ShapeExpr::ShapeNot { expr: Box::new(nk(NodeKind::Iri)) };
    assert!(check_shape_expr(&not_iri, &node, &vec![]).is_ok());
    let not_bnode = ShapeExpr::ShapeNot { expr: Box::new(nk(NodeKind::BNode)) };
    assert_eq!(check_shape_expr(&not_bnode, &node, &vec![]), Err(ValidatorError::ShapeNotError));
    let r = ShapeExpr::Ref { idx: ShapeLabelIdx::new(7) };
    assert_eq!(
        check_shape_expr(&r, &node, &vec![]),
        Ok(Pending { pairs: vec![(Object::bnode("b"), ShapeLabelIdx::new(7))] })
    );
}

#[test]
fn shape_and_joins_obligations_in_order() {
    let node = Object::iri("http://e/n");
    let both = ShapeExpr::ShapeAnd {
        exprs: vec![ShapeExpr::Ref { idx: ShapeLabelIdx::new(1) }, ShapeExpr::Ref { idx: ShapeLabelIdx::new(2) }],
    };
    assert_eq!(
        check_shape_expr(&both, &node, &vec![]),
        Ok(Pending { pairs: vec![(node.clone(), ShapeLabelIdx::new(1)), (node.clone(), ShapeLabelIdx::new(2))] })
    );
    let either = ShapeExpr::ShapeOr {
        exprs: vec![nk(NodeKind::Literal), ShapeExpr::Ref { idx: ShapeLabelIdx::new(4) }, ShapeExpr::Ref { idx: ShapeLabelIdx::new(5) }],
    };
    assert_eq!(
        check_shape_expr(&either, &node, &vec![]),
        Ok(Pending { pairs: vec![(node.clone(), ShapeLabelIdx::new(4))] })
    );
}

#[test]
fn shape_expression_checks_neighbourhood() {
    let t = table_one("http://e/p", MatchCond::single(SingleCond::NodeKind(NodeKind::Literal)), 1, Max::IntMax(1));
    let se = ShapeExpr::Shape { closed: true, extra: vec![], rbe_table: t };
    let node = Object::iri("http://e/n");
    assert_eq!(check_shape_expr(&se, &node, &vec![item("http://e/p", Object::str_literal("x"))]), Ok(Pending::new()));
    assert!(check_shape_expr(&se, &node, &vec![item("http://e/p", Object::iri("http://e/x"))]).is_err());
}

#[test]
fn repeat_with_min_above_max_matches_nothing() {
    let mut t = RbeTable::new();
    let a = t.add_component("a".to_string(), MatchCond::empty());
    t.with_rbe(Rbe::Repeat {
        value: Box::new(Rbe::symbol(a, 0, Max::IntMax(1))),
        card: shex_ast::cardinality::Cardinality::from(shex_ast::cardinality::Min::from(2), Max::from(1)),
    });
    assert_eq!(t.matches(&vec![]).err(), Some(RbeError::CardinalityFailed));
    assert_eq!(t.matches(&vec![item("a", Object::iri("http://e/v"))]).err(), Some(RbeError::CardinalityFailed));
}
