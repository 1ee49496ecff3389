use vstd::prelude::*;
use crate::prefixmap::PrefixMapError;
use crate::rdf::{Lang, Node};
use crate::shape_label::ShapeLabel;

verus! {

/// Errors of compiling a schema, and of checking a node against a node constraint.
#[derive(PartialEq, Eq, Debug, Clone)]
pub enum CompiledSchemaError {
    ShapeLabelNotFound { shape_label: ShapeLabel },
    LabelNotFound { shape_label: ShapeLabel },
    PrefixedNotFound { prefix: String, local: String, err: Box<PrefixMapError> },
    MinLessZero { min: i32 },
    MaxIncorrect { max: i32 },
    /// A construct that this compiler does not handle.
    Unsupported { msg: String },
    NodeKindIri { node: Node },
    NodeKindBNode { node: Node },
    NodeKindLiteral { node: Node },
    NodeKindNonLiteral { node: Node },
    DatatypeDontMatch { expected: String, found: String, lexical_form: String },
    DatatypeDontMatchString { expected: String, lexical_form: String },
    DatatypeDontMatchLangString { expected: String, lexical_form: String, lang: Lang },
    DatatypeNoLiteral { expected: String, node: Node },
    ValueNotInSet { node: Node },
}

/// Result of the operations of this crate that compile or check.
pub type CResult<T> = Result<T, CompiledSchemaError>;

} // verus!
