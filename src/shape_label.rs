use vstd::prelude::*;
use crate::text::{copy_string, str_eq};

verus! {

/// The name of a shape: an absolute IRI, a blank node, or the reserved start label.
#[derive(PartialEq, Eq, Hash, Debug, Clone)]
pub enum ShapeLabel {
    Iri(String),
    BNode(String),
    Start,
}

/// Dense integer handle of a shape in a compiled schema.
#[derive(Clone, Copy, PartialEq, Eq, Structural, Hash, Debug, PartialOrd, Ord)]
pub struct ShapeLabelIdx {
    pub idx: usize,
}

/// The value used for "no such index"; never the index of an entry.
pub const ERROR_IDX: usize = usize::MAX;

/// The identity of a label: the characters of its IRI or blank node, or start.
pub enum LabelKey {
    Iri(Seq<char>),
    BNode(Seq<char>),
    Start,
}

pub open spec fn label_key(l: ShapeLabel) -> LabelKey {
    match l {
        ShapeLabel::Iri(x) => LabelKey::Iri(x@),
        ShapeLabel::BNode(x) => LabelKey::BNode(x@),
        ShapeLabel::Start => LabelKey::Start,
    }
}

/// Two labels name the same shape.
pub open spec fn same_label(a: ShapeLabel, b: ShapeLabel) -> bool {
    label_key(a) == label_key(b)
}

impl ShapeLabel {
    pub fn iri(iri: &str) -> (r: ShapeLabel)
        ensures
            r matches ShapeLabel::Iri(s) && s@ == iri@,
    {
        ShapeLabel::Iri(String::from_str(iri))
    }

    pub fn from_bnode(id: &str) -> (r: ShapeLabel)
        ensures
            r matches ShapeLabel::BNode(s) && s@ == id@,
    {
        ShapeLabel::BNode(String::from_str(id))
    }

    pub fn start() -> (r: ShapeLabel)
        ensures
            r is Start,
    {
        ShapeLabel::Start
    }

    pub fn copy(&self) -> (r: ShapeLabel)
        ensures
            r == *self,
    {
        match self {
            ShapeLabel::Iri(s) => ShapeLabel::Iri(copy_string(s)),
            ShapeLabel::BNode(s) => ShapeLabel::BNode(copy_string(s)),
            ShapeLabel::Start => ShapeLabel::Start,
        }
    }

    /// Whether the two labels name the same shape.
    pub fn same_as(&self, other: &ShapeLabel) -> (r: bool)
        ensures
            r == same_label(*self, *other),
    {
        match (self, other) {
            (ShapeLabel::Iri(x), ShapeLabel::Iri(y)) => str_eq(x.as_str(), y.as_str()),
            (ShapeLabel::BNode(x), ShapeLabel::BNode(y)) => str_eq(x.as_str(), y.as_str()),
            (ShapeLabel::Start, ShapeLabel::Start) => true,
            _ => false,
        }
    }
}

impl ShapeLabelIdx {
    pub fn new(idx: usize) -> (r: ShapeLabelIdx)
        ensures
            r.idx == idx,
    {
        ShapeLabelIdx { idx }
    }

    /// The reserved index that stands for "no such shape".
    pub fn error() -> (r: ShapeLabelIdx)
        ensures
            r.idx == ERROR_IDX,
    {
        ShapeLabelIdx { idx: ERROR_IDX }
    }

    pub fn value(&self) -> (r: usize)
        ensures
            r == self.idx,
    {
        self.idx
    }
}

} // verus!
