use vstd::prelude::*;
use crate::prefixmap::IriRef;
use crate::rdf::NodeKind;
use crate::value_set::ValueSetValue;

verus! {

/// A reference to a shape as the parser gives it.
#[derive(PartialEq, Eq, Debug, Clone)]
pub enum ShapeExprLabel {
    IriRef { value: IriRef },
    BNode { value: String },
    Start,
}

/// A string facet of a node constraint.
#[derive(PartialEq, Eq, Debug, Clone)]
pub enum XsFacet {
    Length(usize),
    MinLength(usize),
    MaxLength(usize),
    Pattern { pat: String, flags: Option<String> },
}

/// A shape expression as the parser gives it.
#[derive(PartialEq, Eq, Debug)]
pub enum ShapeExpr {
    ShapeOr { shape_exprs: Vec<ShapeExpr> },
    ShapeAnd { shape_exprs: Vec<ShapeExpr> },
    ShapeNot { shape_expr: Box<ShapeExpr> },
    NodeConstraint {
        node_kind: Option<NodeKind>,
        datatype: Option<String>,
        xs_facet: Option<Vec<XsFacet>>,
        values: Option<Vec<ValueSetValue>>,
    },
    Shape { closed: Option<bool>, extra: Option<Vec<String>>, expression: Option<TripleExpr> },
    ShapeExternal,
    Ref(ShapeExprLabel),
}

/// A triple expression as the parser gives it; an absent bound means 1, a maximum of -1
/// means unbounded.
#[derive(PartialEq, Eq, Debug)]
pub enum TripleExpr {
    EachOf { expressions: Vec<TripleExpr>, min: Option<i32>, max: Option<i32> },
    OneOf { expressions: Vec<TripleExpr>, min: Option<i32>, max: Option<i32> },
    TripleConstraint {
        predicate: String,
        value_expr: Option<Box<ShapeExpr>>,
        min: Option<i32>,
        max: Option<i32>,
    },
    /// A reference to a triple expression declared elsewhere by name.
    TripleExprRef(String),
}

/// A declaration of a shape under a label (an IRI).
#[derive(PartialEq, Eq, Debug)]
pub struct ShapeDecl {
    pub id: String,
    pub shape_expr: ShapeExpr,
}

/// A schema as the parser gives it.
#[derive(PartialEq, Eq, Debug)]
pub struct SchemaJson {
    pub shapes: Option<Vec<ShapeDecl>>,
}

} // verus!
