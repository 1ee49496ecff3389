use vstd::prelude::*;
use crate::text::{copy_string, is_prefix, starts_with, str_eq};

verus! {

/// A reference to an IRI: written out in full, or as a prefix and a local name.
#[derive(PartialEq, Eq, Hash, Debug, Clone)]
pub enum IriRef {
    Iri(String),
    Prefixed { prefix: String, local: String },
}

impl IriRef {
    pub fn copy(&self) -> (r: IriRef)
        ensures
            r == *self,
    {
        match self {
            IriRef::Iri(s) => IriRef::Iri(copy_string(s)),
            IriRef::Prefixed { prefix, local } => IriRef::Prefixed {
                prefix: copy_string(prefix),
                local: copy_string(local),
            },
        }
    }
}

/// Bindings of prefix aliases to namespace IRIs. A later binding of an alias hides an
/// earlier one.
#[derive(PartialEq, Eq, Debug, Clone)]
pub struct PrefixMap {
    pub entries: Vec<(String, String)>,
}

/// Failure to resolve a prefixed name.
#[derive(PartialEq, Eq, Debug, Clone)]
pub enum PrefixMapError {
    PrefixNotFound { prefix: String },
}

/// `i` is the position of the binding of `alias` that counts: the last one.
pub open spec fn binding_at(entries: Seq<(String, String)>, alias: Seq<char>, i: int) -> bool {
    &&& 0 <= i < entries.len()
    &&& entries[i].0@ == alias
    &&& forall|j: int| i < j < entries.len() ==> entries[j].0@ != alias
}

/// `alias` is bound somewhere in `entries`.
pub open spec fn is_bound(entries: Seq<(String, String)>, alias: Seq<char>) -> bool {
    exists|i: int| 0 <= i < entries.len() && entries[i].0@ == alias
}

/// `i` is the last binding whose namespace starts `iri`.
pub open spec fn qualifier_at(entries: Seq<(String, String)>, iri: Seq<char>, i: int) -> bool {
    &&& 0 <= i < entries.len()
    &&& is_prefix(entries[i].1@, iri)
    &&& forall|j: int| i < j < entries.len() ==> !is_prefix(#[trigger] entries[j].1@, iri)
}

impl PrefixMap {
    pub fn new() -> (r: PrefixMap)
        ensures
            r.entries@.len() == 0,
    {
        PrefixMap { entries: Vec::new() }
    }

    /// Binds `alias` to the namespace `iri`.
    pub fn add_prefix(&mut self, alias: &str, iri: &str)
        ensures
            final(self).entries@.len() == old(self).entries@.len() + 1,
            final(self).entries@.drop_last() == old(self).entries@,
            final(self).entries@.last().0@ == alias@,
            final(self).entries@.last().1@ == iri@,
    {
        self.entries.push((String::from_str(alias), String::from_str(iri)));
        assert(self.entries@.drop_last() == old(self).entries@);
    }

    /// The position of the binding of `alias` that counts, if any.
    pub fn find(&self, alias: &str) -> (r: Option<usize>)
        ensures
            r matches Some(i) ==> binding_at(self.entries@, alias@, i as int),
            r is None <==> !is_bound(self.entries@, alias@),
    {
        let mut i = self.entries.len();
        while i > 0
            invariant
                i <= self.entries@.len(),
                forall|j: int| i <= j < self.entries@.len() ==> self.entries@[j].0@ != alias@,
            decreases i,
        {
            i = i - 1;
            if str_eq(self.entries[i].0.as_str(), alias) {
                return Some(i);
            }
        }
        None
    }

    /// The IRI that `prefix:local` stands for: the namespace bound to `prefix` followed by
    /// `local`.
    pub fn resolve_prefix_local(&self, prefix: &str, local: &str) -> (r: Result<String, PrefixMapError>)
        ensures
            r matches Ok(iri) ==> exists|i: int|
                binding_at(self.entries@, prefix@, i) && iri@ == self.entries@[i].1@ + local@,
            r matches Err(e) ==> e matches PrefixMapError::PrefixNotFound { prefix: p } && p@ == prefix@,
            r is Err <==> !is_bound(self.entries@, prefix@),
    {
        match self.find(prefix) {
            Some(i) => {
                let mut iri = copy_string(&self.entries[i].1);
                iri.append(local);
                Ok(iri)
            },
            None => Err(PrefixMapError::PrefixNotFound { prefix: String::from_str(prefix) }),
        }
    }

    /// The shortest form of `iri`: `alias:rest` where a namespace starts it, else `<iri>`.
    pub fn qualify(&self, iri: &str) -> (r: String)
        ensures
            (exists|i: int| qualifier_at(self.entries@, iri@, i)) ==> exists|i: int|
                qualifier_at(self.entries@, iri@, i) && r@ == self.entries@[i].0@ + seq![':']
                    + iri@.subrange(self.entries@[i].1@.len() as int, iri@.len() as int),
            !(exists|i: int| qualifier_at(self.entries@, iri@, i)) ==> r@ == seq!['<'] + iri@ + seq!['>'],
    {
        let mut i = self.entries.len();
        while i > 0
            invariant
                i <= self.entries@.len(),
                forall|j: int| i <= j < self.entries@.len() ==> !is_prefix(#[trigger] self.entries@[j].1@, iri@),
            decreases i,
        {
            i = i - 1;
            if starts_with(iri, self.entries[i].1.as_str()) {
                let mut r = copy_string(&self.entries[i].0);
                proof {
                    reveal_strlit(":");
                }
                r.append(":");
                let n = self.entries[i].1.unicode_len();
                r.append(iri.substring_char(n, iri.unicode_len()));
                assert(qualifier_at(self.entries@, iri@, i as int));
                return r;
            }
        }
        assert forall|k: int| !qualifier_at(self.entries@, iri@, k) by {
        }
        let mut r = String::from_str("<");
        proof {
            reveal_strlit("<");
            reveal_strlit(">");
        }
        r.append(iri);
        r.append(">");
        r
    }
}

} // verus!
