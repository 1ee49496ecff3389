//! Shape expressions over RDF graphs: a compiler from a parsed schema to an indexed,
//! cycle-safe table of shapes, and a matcher of a node's neighbourhood against a shape,
//! built on regular bag expressions over multisets of `(predicate, value)` pairs.

use vstd::prelude::*;

pub mod cardinality;
pub mod text;
pub mod rdf;
pub mod prefixmap;
pub mod shape_label;
pub mod value_set;
pub mod compiled_schema_error;
pub mod match_cond;
pub mod rbe;
pub mod rbe_table;
pub mod schema_json;
pub mod compiled_schema;
pub mod schema_json_compiler;
pub mod formats;
pub mod validator;
pub mod grammar;

verus! {

} // verus!
