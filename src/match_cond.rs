use vstd::prelude::*;
use crate::compiled_schema_error::{CResult, CompiledSchemaError};
use crate::rdf::{has_node_kind, Literal, Node, NodeKind, Object, RDF_LANG_STRING, XSD_STRING};
use crate::shape_label::ShapeLabelIdx;
use crate::text::{copy_string, str_eq};
use crate::value_set::{in_value_set, ValueSet};

verus! {

/// One atomic condition on a node.
#[derive(PartialEq, Eq, Debug, Clone)]
pub enum SingleCond {
    /// Every node satisfies it.
    Any,
    NodeKind(NodeKind),
    Datatype(String),
    ValueSet(ValueSet),
    /// The node must conform to the shape with this index; checked later, not here.
    Ref(ShapeLabelIdx),
}

/// The conjunction of some atomic conditions; with none it accepts every node.
#[derive(PartialEq, Eq, Debug, Clone)]
pub struct MatchCond {
    pub conds: Vec<SingleCond>,
}

/// Obligations `(node, shape)` left by a successful local check.
#[derive(PartialEq, Eq, Debug, Clone)]
pub struct Pending {
    pub pairs: Vec<(Node, ShapeLabelIdx)>,
}

/// What checking the kind of `node` gives.
pub open spec fn node_kind_result(node: Node, nk: NodeKind) -> Result<(), CompiledSchemaError> {
    if has_node_kind(node, nk) {
        Ok(())
    } else {
        Err(
            match nk {
                NodeKind::Iri => CompiledSchemaError::NodeKindIri { node },
                NodeKind::BNode => CompiledSchemaError::NodeKindBNode { node },
                NodeKind::Literal => CompiledSchemaError::NodeKindLiteral { node },
                NodeKind::NonLiteral => CompiledSchemaError::NodeKindNonLiteral { node },
            },
        )
    }
}

/// What checking the datatype of `node` against `dt` gives. A plain string literal has
/// the datatype `xsd:string`, a language-tagged one `rdf:langString`.
pub open spec fn datatype_result(node: Node, dt: String) -> Result<(), CompiledSchemaError> {
    match node {
        Object::Literal(Literal::DatatypeLiteral { lexical_form, datatype }) => if dt@ == datatype@ {
            Ok(())
        } else {
            Err(CompiledSchemaError::DatatypeDontMatch { expected: dt, found: datatype, lexical_form })
        },
        Object::Literal(Literal::StringLiteral { lexical_form, lang: None }) => if dt@ == XSD_STRING@ {
            Ok(())
        } else {
            Err(CompiledSchemaError::DatatypeDontMatchString { expected: dt, lexical_form })
        },
        Object::Literal(Literal::StringLiteral { lexical_form, lang: Some(lang) }) => if dt@
            == RDF_LANG_STRING@ {
            Ok(())
        } else {
            Err(CompiledSchemaError::DatatypeDontMatchLangString { expected: dt, lexical_form, lang })
        },
        _ => Err(CompiledSchemaError::DatatypeNoLiteral { expected: dt, node }),
    }
}

/// What one atomic condition gives on `node`: its obligations, or the reason it fails.
pub open spec fn single_result(c: SingleCond, node: Node) -> Result<
    Seq<(Node, ShapeLabelIdx)>,
    CompiledSchemaError,
> {
    match c {
        SingleCond::Any => Ok(Seq::empty()),
        SingleCond::NodeKind(nk) => match node_kind_result(node, nk) {
            Ok(_) => Ok(Seq::empty()),
            Err(e) => Err(e),
        },
        SingleCond::Datatype(dt) => match datatype_result(node, dt) {
            Ok(_) => Ok(Seq::empty()),
            Err(e) => Err(e),
        },
        SingleCond::ValueSet(vs) => if in_value_set(vs.values@, node) {
            Ok(Seq::empty())
        } else {
            Err(CompiledSchemaError::ValueNotInSet { node })
        },
        SingleCond::Ref(idx) => Ok(seq![(node, idx)]),
    }
}

/// What a conjunction gives on `node`: the first failure in order, else all obligations.
pub open spec fn conds_result(cs: Seq<SingleCond>, node: Node) -> Result<
    Seq<(Node, ShapeLabelIdx)>,
    CompiledSchemaError,
>
    decreases cs.len(),
{
    if cs.len() == 0 {
        Ok(Seq::empty())
    } else {
        match conds_result(cs.drop_last(), node) {
            Err(e) => Err(e),
            Ok(p) => match single_result(cs.last(), node) {
                Err(e) => Err(e),
                Ok(q) => Ok(p + q),
            },
        }
    }
}

proof fn lemma_conds_error_stays(cs: Seq<SingleCond>, node: Node, k: int, m: int)
    requires
        0 <= k <= m <= cs.len(),
        conds_result(cs.take(k), node) is Err,
    ensures
        conds_result(cs.take(m), node) == conds_result(cs.take(k), node),
    decreases m - k,
{
    if m > k {
        lemma_conds_error_stays(cs, node, k, m - 1);
        assert(cs.take(m).drop_last() == cs.take(m - 1));
    }
}

/// Checks the kind of `node`.
pub fn check_node_node_kind(node: &Node, nk: &NodeKind) -> (r: CResult<()>)
    ensures
        r == node_kind_result(*node, *nk),
{
    match (nk, node) {
        (NodeKind::Iri, Object::Iri { .. }) => Ok(()),
        (NodeKind::Iri, _) => Err(CompiledSchemaError::NodeKindIri { node: node.copy() }),
        (NodeKind::BNode, Object::BlankNode(_)) => Ok(()),
        (NodeKind::BNode, _) => Err(CompiledSchemaError::NodeKindBNode { node: node.copy() }),
        (NodeKind::Literal, Object::Literal(_)) => Ok(()),
        (NodeKind::Literal, _) => Err(CompiledSchemaError::NodeKindLiteral { node: node.copy() }),
        (NodeKind::NonLiteral, Object::BlankNode(_)) => Ok(()),
        (NodeKind::NonLiteral, Object::Iri { .. }) => Ok(()),
        (NodeKind::NonLiteral, _) => Err(CompiledSchemaError::NodeKindNonLiteral { node: node.copy() }),
    }
}

/// Checks the kind of `node` where a kind is asked for.
pub fn check_node_maybe_node_kind(node: &Node, nodekind: &Option<NodeKind>) -> (r: CResult<()>)
    ensures
        nodekind is None ==> r is Ok,
        *nodekind matches Some(nk) ==> r == node_kind_result(*node, nk),
{
    match nodekind {
        None => Ok(()),
        Some(nk) => check_node_node_kind(node, nk),
    }
}

/// Checks the datatype of `node`.
pub fn check_node_datatype(node: &Node, dt: &String) -> (r: CResult<()>)
    ensures
        r == datatype_result(*node, *dt),
{
    match node {
        Object::Literal(Literal::DatatypeLiteral { datatype, lexical_form }) => {
            if str_eq(dt.as_str(), datatype.as_str()) {
                Ok(())
            } else {
                Err(
                    CompiledSchemaError::DatatypeDontMatch {
                        expected: copy_string(dt),
                        found: copy_string(datatype),
                        lexical_form: copy_string(lexical_form),
                    },
                )
            }
        },
        Object::Literal(Literal::StringLiteral { lexical_form, lang: None }) => {
            if str_eq(dt.as_str(), XSD_STRING) {
                Ok(())
            } else {
                Err(
                    CompiledSchemaError::DatatypeDontMatchString {
                        expected: copy_string(dt),
                        lexical_form: copy_string(lexical_form),
                    },
                )
            }
        },
        Object::Literal(Literal::StringLiteral { lexical_form, lang: Some(lang) }) => {
            if str_eq(dt.as_str(), RDF_LANG_STRING) {
                Ok(())
            } else {
                Err(
                    CompiledSchemaError::DatatypeDontMatchLangString {
                        expected: copy_string(dt),
                        lexical_form: copy_string(lexical_form),
                        lang: lang.copy(),
                    },
                )
            }
        },
        _ => Err(CompiledSchemaError::DatatypeNoLiteral { expected: copy_string(dt), node: node.copy() }),
    }
}

/// Checks the datatype of `node` where a datatype is asked for.
pub fn check_node_maybe_datatype(node: &Node, datatype: &Option<String>) -> (r: CResult<()>)
    ensures
        datatype is None ==> r is Ok,
        *datatype matches Some(dt) ==> r == datatype_result(*node, dt),
{
    match datatype {
        None => Ok(()),
        Some(dt) => check_node_datatype(node, dt),
    }
}

impl SingleCond {
    /// Evaluates the condition on `node`.
    pub fn matches(&self, node: &Node) -> (r: CResult<Pending>)
        ensures
            r matches Ok(p) ==> single_result(*self, *node) == Ok::<_, CompiledSchemaError>(p.pairs@),
            r matches Err(e) ==> single_result(*self, *node) == Err::<Seq<(Node, ShapeLabelIdx)>, _>(e),
    {
        match self {
            SingleCond::Any => Ok(Pending::new()),
            SingleCond::NodeKind(nk) => match check_node_node_kind(node, nk) {
                Ok(_) => Ok(Pending::new()),
                Err(e) => Err(e),
            },
            SingleCond::Datatype(dt) => match check_node_datatype(node, dt) {
                Ok(_) => Ok(Pending::new()),
                Err(e) => Err(e),
            },
            SingleCond::ValueSet(vs) => if vs.check_value(node) {
                Ok(Pending::new())
            } else {
                Err(CompiledSchemaError::ValueNotInSet { node: node.copy() })
            },
            SingleCond::Ref(idx) => {
                let p = Pending::from_pair(node.copy(), *idx);
                Ok(p)
            },
        }
    }
}

impl MatchCond {
    /// The condition that every node satisfies.
    pub fn empty() -> (r: MatchCond)
        ensures
            r.conds@.len() == 0,
    {
        MatchCond { conds: Vec::new() }
    }

    pub fn single(c: SingleCond) -> (r: MatchCond)
        ensures
            r.conds@ == seq![c],
    {
        let mut conds = Vec::new();
        conds.push(c);
        MatchCond { conds }
    }

    /// Evaluates the conjunction on `node`: the first failing condition decides the error,
    /// else the obligations of all of them are returned, in order.
    pub fn matches(&self, node: &Node) -> (r: CResult<Pending>)
        ensures
            r matches Ok(p) ==> conds_result(self.conds@, *node) == Ok::<_, CompiledSchemaError>(p.pairs@),
            r matches Err(e) ==> conds_result(self.conds@, *node) == Err::<Seq<(Node, ShapeLabelIdx)>, _>(e),
    {
        let mut acc: Vec<(Node, ShapeLabelIdx)> = Vec::new();
        let mut i: usize = 0;
        assert(self.conds@.take(0) =~= Seq::<SingleCond>::empty());
        while i < self.conds.len()
            invariant
                0 <= i <= self.conds@.len(),
                conds_result(self.conds@.take(i as int), *node) == Ok::<_, CompiledSchemaError>(acc@),
            decreases self.conds.len() - i,
        {
            assert(self.conds@.take(i + 1).drop_last() == self.conds@.take(i as int));
            match self.conds[i].matches(node) {
                Ok(p) => {
                    let mut ps = p.pairs;
                    acc.append(&mut ps);
                },
                Err(e) => {
                    proof {
                        lemma_conds_error_stays(self.conds@, *node, i + 1, self.conds@.len() as int);
                        assert(self.conds@.take(self.conds@.len() as int) == self.conds@);
                    }
                    return Err(e);
                },
            }
            i = i + 1;
        }
        assert(self.conds@.take(i as int) == self.conds@);
        Ok(Pending { pairs: acc })
    }
}

impl Pending {
    pub fn new() -> (r: Pending)
        ensures
            r.pairs@ == Seq::<(Node, ShapeLabelIdx)>::empty(),
    {
        let r = Pending { pairs: Vec::new() };
        assert(r.pairs@ =~= Seq::<(Node, ShapeLabelIdx)>::empty());
        r
    }

    pub fn from_pair(node: Node, idx: ShapeLabelIdx) -> (r: Pending)
        ensures
            r.pairs@ == seq![(node, idx)],
    {
        let mut pairs = Vec::new();
        pairs.push((node, idx));
        Pending { pairs }
    }

    /// Adds the obligations of `other` after those of `self`.
    pub fn merge(&mut self, other: Pending)
        ensures
            final(self).pairs@ == old(self).pairs@ + other.pairs@,
    {
        let mut ps = other.pairs;
        self.pairs.append(&mut ps);
    }
}

} // verus!
