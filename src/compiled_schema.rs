use vstd::prelude::*;
use crate::compiled_schema_error::{CResult, CompiledSchemaError};
use crate::match_cond::{MatchCond, SingleCond};
use crate::prefixmap::{binding_at, is_bound, qualifier_at, IriRef, PrefixMap, PrefixMapError};
use crate::rbe_table::RbeTable;
use crate::rdf::NodeKind;
use crate::schema_json::ShapeExprLabel;
use crate::shape_label::{label_key, LabelKey, ShapeLabel, ShapeLabelIdx};
use crate::text::copy_string;

verus! {

/// A compiled shape expression. Composites own their members; references to declared
/// shapes go through their index.
#[derive(PartialEq, Eq, Debug)]
pub enum ShapeExpr {
    ShapeOr { exprs: Vec<ShapeExpr> },
    ShapeAnd { exprs: Vec<ShapeExpr> },
    ShapeNot { expr: Box<ShapeExpr> },
    NodeConstraint { node_kind: Option<NodeKind>, datatype: Option<String>, cond: MatchCond },
    Shape { closed: bool, extra: Vec<String>, rbe_table: RbeTable },
    Ref { idx: ShapeLabelIdx },
    /// Placeholder of a declared shape whose body is not compiled yet.
    Empty,
}

/// The shapes of a schema, each at its index with its label, and the prefixes that
/// prefixed references are resolved with.
#[derive(PartialEq, Eq, Debug)]
pub struct CompiledSchema {
    pub shapes: Vec<(ShapeLabel, ShapeExpr)>,
    pub prefixmap: PrefixMap,
}

pub type Shapes = Seq<(ShapeLabel, ShapeExpr)>;

/// The label keys of the entries, in index order.
pub open spec fn keys_of(shapes: Shapes) -> Seq<LabelKey> {
    Seq::new(shapes.len(), |i: int| label_key(shapes[i].0))
}

/// `i` is the index that the label with key `k` has: the last entry with that label.
pub open spec fn label_at(keys: Seq<LabelKey>, k: LabelKey, i: int) -> bool {
    &&& 0 <= i < keys.len()
    &&& keys[i] == k
    &&& forall|j: int| i < j < keys.len() ==> #[trigger] keys[j] != k
}

/// `l` is the label of an entry that its label names.
pub open spec fn is_existing_label(shapes: Shapes, l: ShapeLabel) -> bool {
    exists|i: int| 0 <= i < shapes.len() && label_at(keys_of(shapes), label_key(shapes[i].0), i) && l == shapes[i].0
}

/// The index of the label with key `k`, if it is declared.
pub open spec fn index_of(keys: Seq<LabelKey>, k: LabelKey) -> Option<int> {
    if exists|i: int| label_at(keys, k, i) {
        Some(choose|i: int| label_at(keys, k, i))
    } else {
        None
    }
}

/// The key of the label that a reference names, once its prefix is resolved; `None` where
/// the prefix is not bound.
pub open spec fn ref_key(pm: PrefixMap, r: ShapeExprLabel) -> Option<LabelKey> {
    match r {
        ShapeExprLabel::IriRef { value: IriRef::Iri(s) } => Some(LabelKey::Iri(s@)),
        ShapeExprLabel::IriRef { value: IriRef::Prefixed { prefix, local } } => if is_bound(
            pm.entries@,
            prefix@,
        ) {
            let i = choose|i: int| binding_at(pm.entries@, prefix@, i);
            Some(LabelKey::Iri(pm.entries@[i].1@ + local@))
        } else {
            None
        },
        ShapeExprLabel::BNode { value } => Some(LabelKey::BNode(value@)),
        ShapeExprLabel::Start => Some(LabelKey::Start),
    }
}

/// Every shape reference of the condition is an index below `n`.
pub open spec fn cond_refs_ok(c: MatchCond, n: nat) -> bool {
    forall|i: int| 0 <= i < c.conds@.len() ==> (#[trigger] c.conds@[i] matches SingleCond::Ref(idx) ==> idx.idx < n)
}

/// Every shape reference of the expression, in composites and in the conditions of its
/// components, is an index below `n`.
pub open spec fn refs_ok(se: ShapeExpr, n: nat) -> bool
    decreases se,
{
    match se {
        ShapeExpr::ShapeOr { exprs } => forall|i: int| 0 <= i < exprs@.len() ==> refs_ok(#[trigger] exprs@[i], n),
        ShapeExpr::ShapeAnd { exprs } => forall|i: int| 0 <= i < exprs@.len() ==> refs_ok(#[trigger] exprs@[i], n),
        ShapeExpr::ShapeNot { expr } => refs_ok(*expr, n),
        ShapeExpr::NodeConstraint { cond, .. } => cond_refs_ok(cond, n),
        ShapeExpr::Shape { rbe_table, .. } => forall|c: int|
            0 <= c < rbe_table.components@.len() ==> cond_refs_ok(#[trigger] rbe_table.components@[c].1, n),
        ShapeExpr::Ref { idx } => idx.idx < n,
        ShapeExpr::Empty => true,
    }
}

/// No reference of any shape of the table dangles.
pub open spec fn all_refs_ok(shapes: Shapes) -> bool {
    forall|i: int| 0 <= i < shapes.len() ==> refs_ok(#[trigger] shapes[i].1, shapes.len() as nat)
}

/// How a label is shown: prefixed where a namespace allows, `_:` before a blank node.
pub open spec fn shown_label(pm: PrefixMap, label: ShapeLabel, s: Seq<char>) -> bool {
    match label {
        ShapeLabel::Iri(iri) => {
            &&& (exists|i: int| qualifier_at(pm.entries@, iri@, i)) ==> exists|i: int|
                qualifier_at(pm.entries@, iri@, i) && s == pm.entries@[i].0@ + seq![':'] + iri@.subrange(
                    pm.entries@[i].1@.len() as int,
                    iri@.len() as int,
                )
            &&& !(exists|i: int| qualifier_at(pm.entries@, iri@, i)) ==> s == seq!['<'] + iri@ + seq!['>']
        },
        ShapeLabel::BNode(b) => s == seq!['_', ':'] + b@,
        ShapeLabel::Start => s == seq!['S', 'T', 'A', 'R', 'T'],
    }
}

pub proof fn lemma_label_at_unique(keys: Seq<LabelKey>, k: LabelKey, i: int, j: int)
    requires
        label_at(keys, k, i),
        label_at(keys, k, j),
    ensures
        i == j,
{
    if i < j {
        assert(keys[j] != k);
    } else if j < i {
        assert(keys[i] != k);
    }
}

/// A key that occurs in `keys` has an index.
pub proof fn lemma_has_index(keys: Seq<LabelKey>, k: LabelKey, p: int)
    requires
        0 <= p < keys.len(),
        keys[p] == k,
    ensures
        index_of(keys, k) is Some,
    decreases keys.len() - p,
{
    if forall|j: int| p < j < keys.len() ==> #[trigger] keys[j] != k {
        assert(label_at(keys, k, p));
    } else {
        let j = choose|j: int| p < j < keys.len() && #[trigger] keys[j] == k;
        lemma_has_index(keys, k, j);
    }
}

proof fn lemma_binding_unique(entries: Seq<(String, String)>, p: Seq<char>, i: int, j: int)
    requires
        binding_at(entries, p, i),
        binding_at(entries, p, j),
    ensures
        i == j,
{
    if i < j {
        assert(entries[j].0@ != p);
    } else if j < i {
        assert(entries[i].0@ != p);
    }
}

impl CompiledSchema {
    pub fn new() -> (r: CompiledSchema)
        ensures
            r.shapes@.len() == 0,
            all_refs_ok(r.shapes@),
            r.prefixmap.entries@.len() == 0,
    {
        CompiledSchema { shapes: Vec::new(), prefixmap: PrefixMap::new() }
    }

    /// Sets the prefixes; none given means none at all.
    pub fn set_prefixmap(&mut self, prefixmap: Option<PrefixMap>)
        ensures
            final(self).shapes == old(self).shapes,
            prefixmap matches Some(pm) ==> final(self).prefixmap == pm,
            prefixmap is None ==> final(self).prefixmap.entries@.len() == 0,
    {
        self.prefixmap = match prefixmap {
            Some(pm) => pm,
            None => PrefixMap::new(),
        };
    }

    /// Registers `se` under `shape_label` at the next index. A label registered again
    /// names the new entry from then on.
    pub fn add_shape(&mut self, shape_label: ShapeLabel, se: ShapeExpr)
        ensures
            final(self).shapes@ == old(self).shapes@.push((shape_label, se)),
            final(self).prefixmap == old(self).prefixmap,
    {
        self.shapes.push((shape_label, se));
    }

    /// The index of `label`, if it is declared.
    pub fn find_shape_label_idx(&self, label: &ShapeLabel) -> (r: Option<ShapeLabelIdx>)
        ensures
            r matches Some(idx) ==> label_at(keys_of(self.shapes@), label_key(*label), idx.idx as int),
            r is None <==> index_of(keys_of(self.shapes@), label_key(*label)) is None,
            r matches Some(idx) ==> index_of(keys_of(self.shapes@), label_key(*label)) == Some(idx.idx as int),
    {
        let mut i = self.shapes.len();
        while i > 0
            invariant
                i <= self.shapes@.len(),
                forall|j: int| i <= j < self.shapes@.len() ==> label_key(#[trigger] self.shapes@[j].0) != label_key(*label),
            decreases i,
        {
            i = i - 1;
            if self.shapes[i].0.same_as(label) {
                proof {
                    let k = label_key(*label);
                    assert(label_at(keys_of(self.shapes@), k, i as int));
                    let c = choose|c: int| label_at(keys_of(self.shapes@), k, c);
                    lemma_label_at_unique(keys_of(self.shapes@), k, i as int, c);
                }
                return Some(ShapeLabelIdx { idx: i });
            }
        }
        None
    }

    /// The index of `shape_label`, or an error naming it.
    pub fn get_shape_label_idx(&self, shape_label: &ShapeLabel) -> (r: CResult<ShapeLabelIdx>)
        ensures
            r matches Ok(idx) ==> index_of(keys_of(self.shapes@), label_key(*shape_label)) == Some(idx.idx as int),
            r is Err <==> index_of(keys_of(self.shapes@), label_key(*shape_label)) is None,
            r matches Err(e) ==> e == (CompiledSchemaError::ShapeLabelNotFound { shape_label: *shape_label }),
    {
        match self.find_shape_label_idx(shape_label) {
            Some(idx) => Ok(idx),
            None => Err(CompiledSchemaError::ShapeLabelNotFound { shape_label: shape_label.copy() }),
        }
    }

    /// The index and expression of `label`, if it is declared.
    pub fn find_label(&self, label: &ShapeLabel) -> (r: Option<(ShapeLabelIdx, &ShapeExpr)>)
        ensures
            r is None <==> index_of(keys_of(self.shapes@), label_key(*label)) is None,
            r matches Some((idx, se)) ==> index_of(keys_of(self.shapes@), label_key(*label)) == Some(idx.idx as int)
                && *se == self.shapes@[idx.idx as int].1,
    {
        match self.find_shape_label_idx(label) {
            Some(idx) => Some((idx, &self.shapes[idx.idx].1)),
            None => None,
        }
    }

    /// The expression of `shape_label`, if it is declared.
    pub fn get_shape_expr(&self, shape_label: &ShapeLabel) -> (r: Option<&ShapeExpr>)
        ensures
            r is None <==> index_of(keys_of(self.shapes@), label_key(*shape_label)) is None,
            r matches Some(se) ==> *se == self.shapes@[index_of(keys_of(self.shapes@), label_key(*shape_label))->0].1,
    {
        match self.find_shape_label_idx(shape_label) {
            Some(idx) => Some(&self.shapes[idx.idx].1),
            None => None,
        }
    }

    /// The label and expression at `idx`, if there is such an entry.
    pub fn find_shape_idx(&self, idx: &ShapeLabelIdx) -> (r: Option<&(ShapeLabel, ShapeExpr)>)
        ensures
            r is None <==> idx.idx >= self.shapes@.len(),
            r matches Some(e) ==> *e == self.shapes@[idx.idx as int],
    {
        if idx.idx < self.shapes.len() {
            Some(&self.shapes[idx.idx])
        } else {
            None
        }
    }

    /// The declared labels, each once, in the order of their indices.
    pub fn existing_labels(&self) -> (r: Vec<&ShapeLabel>)
        ensures
            forall|k: int| 0 <= k < r@.len() ==> is_existing_label(self.shapes@, *#[trigger] r@[k]),
            forall|i: int|
                #![trigger self.shapes@[i]]
                0 <= i < self.shapes@.len() && label_at(keys_of(self.shapes@), label_key(self.shapes@[i].0), i)
                    ==> exists|k: int| 0 <= k < r@.len() && *r@[k] == self.shapes@[i].0,
            forall|k1: int, k2: int|
                0 <= k1 < k2 < r@.len() ==> label_key(*#[trigger] r@[k1]) != label_key(*#[trigger] r@[k2]),
    {
        let mut r: Vec<&ShapeLabel> = Vec::new();
        let ghost mut idxs: Seq<int> = Seq::empty();
        let mut i: usize = 0;
        while i < self.shapes.len()
            invariant
                0 <= i <= self.shapes@.len(),
                r@.len() == idxs.len(),
                forall|k: int|
                    0 <= k < idxs.len() ==> 0 <= #[trigger] idxs[k] < i && label_at(
                        keys_of(self.shapes@),
                        label_key(self.shapes@[idxs[k]].0),
                        idxs[k],
                    ) && *r@[k] == self.shapes@[idxs[k]].0,
                forall|j: int|
                    #![trigger self.shapes@[j]]
                    0 <= j < i && label_at(keys_of(self.shapes@), label_key(self.shapes@[j].0), j) ==> exists|k: int|
                        0 <= k < idxs.len() && idxs[k] == j,
                forall|k1: int, k2: int|
                    0 <= k1 < k2 < r@.len() ==> label_key(*#[trigger] r@[k1]) != label_key(*#[trigger] r@[k2]),
            decreases self.shapes.len() - i,
        {
            let ghost k = label_key(self.shapes@[i as int].0);
            let mut last = true;
            let mut j = i + 1;
            while j < self.shapes.len()
                invariant
                    i < j <= self.shapes@.len(),
                    k == label_key(self.shapes@[i as int].0),
                    last <==> forall|m: int| i < m < j ==> label_key(#[trigger] self.shapes@[m].0) != k,
                decreases self.shapes.len() - j,
            {
                if self.shapes[j].0.same_as(&self.shapes[i].0) {
                    last = false;
                }
                j = j + 1;
            }
            if last {
                let ghost old_r = r@;
                r.push(&self.shapes[i].0);
                proof {
                    let old_idxs = idxs;
                    assert forall|k1: int, k2: int|
                        0 <= k1 < k2 < r@.len() implies label_key(*#[trigger] r@[k1]) != label_key(*#[trigger] r@[k2]) by {
                        if k2 < old_r.len() {
                            assert(r@[k1] == old_r[k1] && r@[k2] == old_r[k2]);
                        } else {
                            let t = old_idxs[k1];
                            assert(r@[k1] == old_r[k1]);
                            assert(label_at(keys_of(self.shapes@), label_key(self.shapes@[t].0), t));
                            assert(label_at(keys_of(self.shapes@), k, i as int));
                            if label_key(self.shapes@[t].0) == k {
                                lemma_label_at_unique(keys_of(self.shapes@), k, t, i as int);
                            }
                        }
                    }
                    idxs = idxs.push(i as int);
                    assert(label_at(keys_of(self.shapes@), k, i as int));
                    assert forall|j2: int|
                        #![trigger self.shapes@[j2]]
                        0 <= j2 < i + 1 && label_at(keys_of(self.shapes@), label_key(self.shapes@[j2].0), j2)
                            implies exists|k2: int| 0 <= k2 < idxs.len() && idxs[k2] == j2 by {
                        if j2 < i {
                            let k3 = choose|k3: int| 0 <= k3 < old_idxs.len() && old_idxs[k3] == j2;
                            assert(idxs[k3] == old_idxs[k3]);
                        } else {
                            assert(idxs[old_idxs.len() as int] == j2);
                        }
                    }
                }
            } else {
                proof {
                    let m = choose|m: int| i < m < self.shapes@.len() && label_key(#[trigger] self.shapes@[m].0) == k;
                    assert(keys_of(self.shapes@)[m] == k);
                    assert(!label_at(keys_of(self.shapes@), k, i as int));
                }
            }
            i = i + 1;
        }
        proof {
            assert forall|k: int| 0 <= k < r@.len() implies is_existing_label(self.shapes@, *#[trigger] r@[k]) by {
                let i2 = idxs[k];
                assert(0 <= i2 < self.shapes@.len());
                assert(label_at(keys_of(self.shapes@), label_key(self.shapes@[i2].0), i2));
                assert(*r@[k] == self.shapes@[i2].0);
            }
            assert forall|i2: int|
                #![trigger self.shapes@[i2]]
                0 <= i2 < self.shapes@.len() && label_at(keys_of(self.shapes@), label_key(self.shapes@[i2].0), i2)
                    implies exists|k: int| 0 <= k < r@.len() && *r@[k] == self.shapes@[i2].0 by {
                let k = choose|k: int| 0 <= k < idxs.len() && idxs[k] == i2;
                assert(*r@[k] == self.shapes@[idxs[k]].0);
            }
        }
        r
    }

    /// All entries, label and expression, in the order of their indices.
    pub fn shapes(&self) -> (r: &Vec<(ShapeLabel, ShapeExpr)>)
        ensures
            r@ == self.shapes@,
    {
        &self.shapes
    }

    /// Puts `se` in place of the expression at `idx`; an index without entry changes nothing.
    pub fn replace_shape(&mut self, idx: &ShapeLabelIdx, se: ShapeExpr)
        ensures
            final(self).prefixmap == old(self).prefixmap,
            idx.idx < old(self).shapes@.len() ==> final(self).shapes@ == old(self).shapes@.update(
                idx.idx as int,
                (old(self).shapes@[idx.idx as int].0, se),
            ),
            idx.idx >= old(self).shapes@.len() ==> final(self).shapes@ == old(self).shapes@,
    {
        if idx.idx < self.shapes.len() {
            let label = self.shapes[idx.idx].0.copy();
            self.shapes.set(idx.idx, (label, se));
        }
    }

    /// The index of the shape that `se_ref` names: an IRI directly, a prefixed name once its
    /// prefix is resolved, a blank node, or start.
    pub fn find_ref(&self, se_ref: &ShapeExprLabel) -> (r: CResult<ShapeLabelIdx>)
        ensures
            ref_key(self.prefixmap, *se_ref) is None ==> r is Err && (r->Err_0 matches CompiledSchemaError::PrefixedNotFound {
                prefix,
                local,
                err,
            } && *se_ref == (ShapeExprLabel::IriRef { value: IriRef::Prefixed { prefix, local } })
                && (*err matches PrefixMapError::PrefixNotFound { prefix: p } && p@ == prefix@)),
            ref_key(self.prefixmap, *se_ref) matches Some(k) ==> match index_of(keys_of(self.shapes@), k) {
                Some(i) => r == Ok::<ShapeLabelIdx, CompiledSchemaError>(ShapeLabelIdx { idx: i as usize }),
                None => r is Err && (r->Err_0 matches CompiledSchemaError::LabelNotFound { shape_label }
                    && label_key(shape_label) == k),
            },
    {
        let shape_label = match se_ref {
            ShapeExprLabel::IriRef { value } => match value {
                IriRef::Iri(iri) => ShapeLabel::Iri(copy_string(iri)),
                IriRef::Prefixed { prefix, local } => {
                    match self.prefixmap.resolve_prefix_local(prefix.as_str(), local.as_str()) {
                        Ok(iri) => {
                            proof {
                                let i = choose|i: int|
                                    binding_at(self.prefixmap.entries@, prefix@, i) && iri@
                                        == self.prefixmap.entries@[i].1@ + local@;
                                let c = choose|c: int| binding_at(self.prefixmap.entries@, prefix@, c);
                                lemma_binding_unique(self.prefixmap.entries@, prefix@, i, c);
                            }
                            ShapeLabel::Iri(iri)
                        },
                        Err(err) => {
                            return Err(
                                CompiledSchemaError::PrefixedNotFound {
                                    prefix: copy_string(prefix),
                                    local: copy_string(local),
                                    err: Box::new(err),
                                },
                            );
                        },
                    }
                },
            },
            ShapeExprLabel::BNode { value } => ShapeLabel::BNode(copy_string(value)),
            ShapeExprLabel::Start => ShapeLabel::Start,
        };
        match self.find_shape_label_idx(&shape_label) {
            Some(idx) => Ok(idx),
            None => Err(CompiledSchemaError::LabelNotFound { shape_label }),
        }
    }

    /// How `label` is shown: prefixed where a namespace allows, `<iri>` otherwise, `_:id` for
    /// a blank node, `START` for start.
    pub fn show_label(&self, label: &ShapeLabel) -> (r: String)
        ensures
            shown_label(self.prefixmap, *label, r@),
    {
        match label {
            ShapeLabel::Iri(iri) => {
                let s = iri.as_str();
                let r = self.prefixmap.qualify(s);
                assert(s@ == iri@);
                r
            },
            ShapeLabel::BNode(b) => {
                let mut s = String::from_str("_:");
                proof {
                    reveal_strlit("_:");
                }
                s.append(b.as_str());
                assert(s@ =~= seq!['_', ':'] + b@);
                s
            },
            ShapeLabel::Start => {
                proof {
                    reveal_strlit("START");
                }
                let s = String::from_str("START");
                assert(s@ =~= seq!['S', 'T', 'A', 'R', 'T']);
                s
            },
        }
    }
}

} // verus!
