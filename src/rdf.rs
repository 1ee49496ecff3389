use vstd::prelude::*;
use crate::text::copy_string;

verus! {

/// IRI of the datatype that an untyped string literal has.
pub const XSD_STRING: &'static str = "http://www.w3.org/2001/XMLSchema#string";

/// IRI of the datatype that a language-tagged string literal has.
pub const RDF_LANG_STRING: &'static str = "http://www.w3.org/1999/02/22-rdf-syntax-ns#langString";

/// A language tag, such as `en` or `en-GB`.
#[derive(Default, PartialEq, Eq, Hash, Debug, Clone)]
pub struct Lang {
    pub lang: String,
}

impl Lang {
    pub fn new(lang: &str) -> (r: Lang)
        ensures
            r.lang@ == lang@,
    {
        Lang { lang: String::from_str(lang) }
    }

    pub fn value(&self) -> (r: String)
        ensures
            r@ == self.lang@,
    {
        copy_string(&self.lang)
    }

    /// The tag as written after a literal: `@` and the tag.
    pub fn show(&self) -> (r: String)
        ensures
            r@ == seq!['@'] + self.lang@,
    {
        let mut r = String::from_str("@");
        proof {
            reveal_strlit("@");
        }
        r.append(self.lang.as_str());
        r
    }

    pub fn copy(&self) -> (r: Lang)
        ensures
            r == *self,
    {
        Lang { lang: copy_string(&self.lang) }
    }
}

/// A literal: a plain string, optionally language-tagged, or a lexical form with its datatype.
#[derive(PartialEq, Eq, Hash, Debug, Clone)]
pub enum Literal {
    StringLiteral { lexical_form: String, lang: Option<Lang> },
    DatatypeLiteral { lexical_form: String, datatype: String },
}

/// An RDF term: an IRI, a blank node or a literal.
#[derive(PartialEq, Eq, Hash, Debug, Clone)]
pub enum Object {
    Iri { iri: String },
    BlankNode(String),
    Literal(Literal),
}

/// A node of the data graph.
pub type Node = Object;

impl Literal {
    pub fn copy(&self) -> (r: Literal)
        ensures
            r == *self,
    {
        match self {
            Literal::StringLiteral { lexical_form, lang } => Literal::StringLiteral {
                lexical_form: copy_string(lexical_form),
                lang: match lang {
                    Some(l) => Some(l.copy()),
                    None => None,
                },
            },
            Literal::DatatypeLiteral { lexical_form, datatype } => Literal::DatatypeLiteral {
                lexical_form: copy_string(lexical_form),
                datatype: copy_string(datatype),
            },
        }
    }

    /// The lexical form of the literal.
    pub open spec fn spec_lexical_form(self) -> Seq<char> {
        match self {
            Literal::StringLiteral { lexical_form, .. } => lexical_form@,
            Literal::DatatypeLiteral { lexical_form, .. } => lexical_form@,
        }
    }

    pub fn lexical_form(&self) -> (r: &String)
        ensures
            r@ == self.spec_lexical_form(),
    {
        match self {
            Literal::StringLiteral { lexical_form, .. } => lexical_form,
            Literal::DatatypeLiteral { lexical_form, .. } => lexical_form,
        }
    }
}

impl Object {
    pub fn iri(iri: &str) -> (r: Object)
        ensures
            r matches Object::Iri { iri: i } && i@ == iri@,
    {
        Object::Iri { iri: String::from_str(iri) }
    }

    pub fn bnode(id: &str) -> (r: Object)
        ensures
            r matches Object::BlankNode(i) && i@ == id@,
    {
        Object::BlankNode(String::from_str(id))
    }

    /// A plain string literal without language tag.
    pub fn str_literal(lexical_form: &str) -> (r: Object)
        ensures
            r matches Object::Literal(Literal::StringLiteral { lexical_form: l, lang: None })
                && l@ == lexical_form@,
    {
        Object::Literal(Literal::StringLiteral { lexical_form: String::from_str(lexical_form), lang: None })
    }

    /// A string literal with a language tag.
    pub fn lang_literal(lexical_form: &str, lang: &str) -> (r: Object)
        ensures
            r matches Object::Literal(Literal::StringLiteral { lexical_form: l, lang: Some(t) })
                && l@ == lexical_form@ && t.lang@ == lang@,
    {
        Object::Literal(
            Literal::StringLiteral {
                lexical_form: String::from_str(lexical_form),
                lang: Some(Lang::new(lang)),
            },
        )
    }

    /// A literal with an explicit datatype.
    pub fn datatype_literal(lexical_form: &str, datatype: &str) -> (r: Object)
        ensures
            r matches Object::Literal(Literal::DatatypeLiteral { lexical_form: l, datatype: d })
                && l@ == lexical_form@ && d@ == datatype@,
    {
        Object::Literal(
            Literal::DatatypeLiteral {
                lexical_form: String::from_str(lexical_form),
                datatype: String::from_str(datatype),
            },
        )
    }

    pub fn copy(&self) -> (r: Object)
        ensures
            r == *self,
    {
        match self {
            Object::Iri { iri } => Object::Iri { iri: copy_string(iri) },
            Object::BlankNode(id) => Object::BlankNode(copy_string(id)),
            Object::Literal(l) => Object::Literal(l.copy()),
        }
    }
}

/// The kinds of node that a node constraint can ask for.
#[derive(Clone, Copy, PartialEq, Eq, Structural, Hash, Debug)]
pub enum NodeKind {
    Iri,
    BNode,
    Literal,
    NonLiteral,
}

/// Whether a node is of the given kind.
pub open spec fn has_node_kind(node: Object, nk: NodeKind) -> bool {
    match nk {
        NodeKind::Iri => node is Iri,
        NodeKind::BNode => node is BlankNode,
        NodeKind::Literal => node is Literal,
        NodeKind::NonLiteral => node is Iri || node is BlankNode,
    }
}

} // verus!
