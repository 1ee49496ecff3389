use vstd::prelude::*;
use crate::cardinality::{Cardinality, Max, Min};
use crate::compiled_schema::{
    all_refs_ok, cond_refs_ok, index_of, keys_of, label_at, lemma_has_index, ref_key, refs_ok,
    CompiledSchema, ShapeExpr,
};
use crate::compiled_schema_error::{CResult, CompiledSchemaError};
use crate::match_cond::{conds_result, datatype_result, node_kind_result, MatchCond, SingleCond};
use crate::prefixmap::PrefixMap;
use crate::rbe::Rbe;
use crate::rbe_table::{
    bag_matches, lemma_required_constraint_rejects_absence, lemma_star_constraint_matches_any_count,
    Comps, Items, RbeTable,
};
use crate::rdf::{Node, NodeKind};
use crate::schema_json;
use crate::schema_json::{SchemaJson, ShapeDecl, ShapeExprLabel, TripleExpr, XsFacet};
use crate::shape_label::{label_key, LabelKey, ShapeLabel, ShapeLabelIdx};
use crate::text::copy_string;
use crate::value_set::{in_value_set, ValueSet, ValueSetValue};

verus! {

/// Compiles a parsed schema into a [`CompiledSchema`].
#[derive(Debug)]
pub struct SchemaJsonCompiler {}

/// The cardinality that optional bounds give: an absent bound is 1, a maximum of -1 is
/// unbounded.
pub open spec fn card_of(min: Option<i32>, max: Option<i32>) -> Cardinality {
    Cardinality {
        min: Min {
            value: match min {
                None => 1usize,
                Some(m) => m as usize,
            },
        },
        max: match max {
            None => Max::IntMax(1),
            Some(m) => if m == -1 {
                Max::Unbounded
            } else {
                Max::IntMax(m as usize)
            },
        },
    }
}

/// The bounds as numbers: an absent bound is 1.
pub open spec fn min_of(min: Option<i32>) -> i32 {
    match min {
        Some(m) => m,
        None => 1,
    }
}

pub open spec fn max_of(max: Option<i32>) -> i32 {
    match max {
        Some(m) => m,
        None => 1,
    }
}

/// Bounds that compile: no minimum below zero, no maximum below -1, and a bounded maximum
/// not below the minimum.
pub open spec fn bounds_ok(min: Option<i32>, max: Option<i32>) -> bool {
    &&& min_of(min) >= 0
    &&& max_of(max) >= -1
    &&& max_of(max) != -1 ==> min_of(min) <= max_of(max)
}

/// The pattern that a group with cardinality `card` is wrapped in, unwrapped: exactly
/// once is left bare, `(0, unbounded)` is a star, `(1, unbounded)` a plus, and anything
/// else a repeat.
pub open spec fn group_inner(rbe: Rbe, card: Cardinality) -> Option<Rbe> {
    if card.spec_is_1_1() {
        Some(rbe)
    } else if card.spec_is_star() {
        match rbe {
            Rbe::Star { value } => Some(*value),
            _ => None,
        }
    } else if card.spec_is_plus() {
        match rbe {
            Rbe::Plus { value } => Some(*value),
            _ => None,
        }
    } else {
        match rbe {
            Rbe::Repeat { value, card: c } => if c == card {
                Some(*value)
            } else {
                None
            },
            _ => None,
        }
    }
}

/// The reference resolves to a declared shape.
pub open spec fn ref_ok(pm: PrefixMap, keys: Seq<LabelKey>, l: ShapeExprLabel) -> bool {
    ref_key(pm, l) matches Some(k) && index_of(keys, k) is Some
}

/// The index that a resolvable reference names.
pub open spec fn ref_index(pm: PrefixMap, keys: Seq<LabelKey>, l: ShapeExprLabel) -> int {
    index_of(keys, ref_key(pm, l)->0)->0
}

/// What a node constraint gives on `node`: the first failing check among node kind,
/// datatype and value set, else success without obligations.
pub open spec fn nc_result(
    nk: Option<NodeKind>,
    dt: Option<String>,
    values: Option<Vec<ValueSetValue>>,
    node: Node,
) -> Result<Seq<(Node, ShapeLabelIdx)>, CompiledSchemaError> {
    if nk matches Some(k) && node_kind_result(node, k) is Err {
        Err(node_kind_result(node, nk->0)->Err_0)
    } else if dt matches Some(d) && datatype_result(node, d) is Err {
        Err(datatype_result(node, dt->0)->Err_0)
    } else if values matches Some(vs) && !in_value_set(vs@, node) {
        Err(CompiledSchemaError::ValueNotInSet { node })
    } else {
        Ok(Seq::empty())
    }
}

/// The condition behaves on every node as the node constraint does.
pub open spec fn nc_cond(
    nk: Option<NodeKind>,
    dt: Option<String>,
    values: Option<Vec<ValueSetValue>>,
    cond: MatchCond,
) -> bool {
    forall|node: Node| #[trigger] conds_result(cond.conds@, node) == nc_result(nk, dt, values, node)
}

/// The value expression of a triple constraint compiles: absent, a node constraint
/// without facets, or a resolvable reference.
pub open spec fn ve_ok(pm: PrefixMap, keys: Seq<LabelKey>, ve: Option<Box<schema_json::ShapeExpr>>) -> bool {
    match ve {
        None => true,
        Some(b) => match *b {
            schema_json::ShapeExpr::NodeConstraint { xs_facet, .. } => xs_facet is None,
            schema_json::ShapeExpr::Ref(l) => ref_ok(pm, keys, l),
            _ => false,
        },
    }
}

/// `cond` is the condition that the value expression compiles to.
pub open spec fn ve_cond(
    pm: PrefixMap,
    keys: Seq<LabelKey>,
    ve: Option<Box<schema_json::ShapeExpr>>,
    cond: MatchCond,
) -> bool {
    match ve {
        None => cond.conds@ == seq![SingleCond::Any],
        Some(b) => match *b {
            schema_json::ShapeExpr::NodeConstraint { node_kind, datatype, values, .. } => nc_cond(
                node_kind,
                datatype,
                values,
                cond,
            ),
            schema_json::ShapeExpr::Ref(l) => cond.conds@ == seq![
                SingleCond::Ref(ShapeLabelIdx { idx: ref_index(pm, keys, l) as usize }),
            ],
            _ => false,
        },
    }
}

/// The triple expression compiles.
pub open spec fn te_ok(pm: PrefixMap, keys: Seq<LabelKey>, te: TripleExpr) -> bool
    decreases te,
{
    match te {
        TripleExpr::EachOf { expressions, min, max } => bounds_ok(min, max) && forall|i: int|
            0 <= i < expressions@.len() ==> te_ok(pm, keys, #[trigger] expressions@[i]),
        TripleExpr::OneOf { expressions, min, max } => bounds_ok(min, max) && forall|i: int|
            0 <= i < expressions@.len() ==> te_ok(pm, keys, #[trigger] expressions@[i]),
        TripleExpr::TripleConstraint { value_expr, min, max, .. } => bounds_ok(min, max) && ve_ok(
            pm,
            keys,
            value_expr,
        ),
        TripleExpr::TripleExprRef(_) => false,
    }
}

/// `bs` cuts the range `lo..hi` into `n` consecutive pieces, from `bs[0]` to `bs[n]`.
pub open spec fn splits(bs: Seq<int>, lo: int, hi: int, n: int) -> bool {
    bs.len() == n + 1 && bs[0] == lo && bs[n] == hi
}

/// `rbe`, with the components `comps`, is what the triple expression compiles to: each
/// of all its members for `EachOf`, one of them for `OneOf`, a component with the
/// predicate and the condition of the value expression for a triple constraint. The
/// components of the expression are exactly those at `lo..hi`, one per triple constraint,
/// in the order of the constraints.
pub open spec fn lowered_te(
    pm: PrefixMap,
    keys: Seq<LabelKey>,
    te: TripleExpr,
    rbe: Rbe,
    comps: Comps,
    lo: int,
    hi: int,
) -> bool
    decreases te,
{
    match te {
        TripleExpr::EachOf { expressions, min, max } => match group_inner(rbe, card_of(min, max)) {
            Some(Rbe::And { values }) => values@.len() == expressions@.len() && exists|bs: Seq<int>|
                #[trigger] splits(bs, lo, hi, expressions@.len() as int) && forall|i: int|
                    0 <= i < expressions@.len() ==> lowered_te(
                        pm,
                        keys,
                        #[trigger] expressions@[i],
                        values@[i],
                        comps,
                        bs[i],
                        bs[i + 1],
                    ),
            _ => false,
        },
        TripleExpr::OneOf { expressions, min, max } => match group_inner(rbe, card_of(min, max)) {
            Some(Rbe::Or { values }) => values@.len() == expressions@.len() && exists|bs: Seq<int>|
                #[trigger] splits(bs, lo, hi, expressions@.len() as int) && forall|i: int|
                    0 <= i < expressions@.len() ==> lowered_te(
                        pm,
                        keys,
                        #[trigger] expressions@[i],
                        values@[i],
                        comps,
                        bs[i],
                        bs[i + 1],
                    ),
            _ => false,
        },
        TripleExpr::TripleConstraint { predicate, value_expr, min, max } => match rbe {
            Rbe::Symbol { value, card } => {
                &&& card == card_of(min, max)
                &&& value == lo
                &&& hi == lo + 1
                &&& lo < comps.len()
                &&& comps[lo].0@ == predicate@
                &&& ve_cond(pm, keys, value_expr, comps[lo].1)
            },
            _ => false,
        },
        TripleExpr::TripleExprRef(_) => false,
    }
}

/// The shape expression compiles: every reference resolves, bounds are valid, and no
/// unsupported construct (facets, external shapes, named triple expressions, nested
/// shapes as value expressions) occurs.
pub open spec fn se_ok(pm: PrefixMap, keys: Seq<LabelKey>, se: schema_json::ShapeExpr) -> bool
    decreases se,
{
    match se {
        schema_json::ShapeExpr::ShapeOr { shape_exprs } => forall|i: int|
            0 <= i < shape_exprs@.len() ==> se_ok(pm, keys, #[trigger] shape_exprs@[i]),
        schema_json::ShapeExpr::ShapeAnd { shape_exprs } => forall|i: int|
            0 <= i < shape_exprs@.len() ==> se_ok(pm, keys, #[trigger] shape_exprs@[i]),
        schema_json::ShapeExpr::ShapeNot { shape_expr } => se_ok(pm, keys, *shape_expr),
        schema_json::ShapeExpr::NodeConstraint { xs_facet, .. } => xs_facet is None,
        schema_json::ShapeExpr::Shape { expression, .. } => match expression {
            None => true,
            Some(te) => te_ok(pm, keys, te),
        },
        schema_json::ShapeExpr::ShapeExternal => false,
        schema_json::ShapeExpr::Ref(l) => ref_ok(pm, keys, l),
    }
}

/// `c` is what the shape expression compiles to.
pub open spec fn lowered(pm: PrefixMap, keys: Seq<LabelKey>, se: schema_json::ShapeExpr, c: ShapeExpr) -> bool
    decreases se,
{
    match se {
        schema_json::ShapeExpr::ShapeOr { shape_exprs: a } => c matches ShapeExpr::ShapeOr { exprs: b }
            && b@.len() == a@.len() && forall|i: int|
            0 <= i < a@.len() ==> lowered(pm, keys, #[trigger] a@[i], b@[i]),
        schema_json::ShapeExpr::ShapeAnd { shape_exprs: a } => c matches ShapeExpr::ShapeAnd { exprs: b }
            && b@.len() == a@.len() && forall|i: int|
            0 <= i < a@.len() ==> lowered(pm, keys, #[trigger] a@[i], b@[i]),
        schema_json::ShapeExpr::ShapeNot { shape_expr: a } => c matches ShapeExpr::ShapeNot { expr: b }
            && lowered(pm, keys, *a, *b),
        schema_json::ShapeExpr::NodeConstraint { node_kind, datatype, values, .. } => c matches ShapeExpr::NodeConstraint {
            node_kind: nk,
            datatype: dt,
            cond,
        } && nk == node_kind && dt == datatype && nc_cond(node_kind, datatype, values, cond),
        schema_json::ShapeExpr::Shape { closed, extra, expression } => c matches ShapeExpr::Shape {
            closed: cl,
            extra: ex,
            rbe_table,
        } && cl == (closed matches Some(b) && b) && ex@ == match extra {
            Some(v) => v@,
            None => Seq::<String>::empty(),
        } && match expression {
            None => rbe_table.components@.len() == 0 && rbe_table.rbe == Rbe::Empty,
            Some(te) => lowered_te(pm, keys, te, rbe_table.rbe, rbe_table.components@, 0, rbe_table.components@.len() as int),
        },
        schema_json::ShapeExpr::Ref(l) => c matches ShapeExpr::Ref { idx } && idx.idx == ref_index(pm, keys, l),
        schema_json::ShapeExpr::ShapeExternal => false,
    }
}

/// `e` is the error of a reference that does not resolve: its prefix is unbound, or its
/// label is not declared.
pub open spec fn ref_error(pm: PrefixMap, keys: Seq<LabelKey>, l: ShapeExprLabel, e: CompiledSchemaError) -> bool {
    match ref_key(pm, l) {
        None => e is PrefixedNotFound,
        Some(k) => index_of(keys, k) is None && (e matches CompiledSchemaError::ShapeLabelNotFound {
            shape_label,
        } && label_key(shape_label) == k),
    }
}

/// `e` is the error of invalid bounds; the minimum is checked first.
pub open spec fn bounds_error(min: Option<i32>, max: Option<i32>, e: CompiledSchemaError) -> bool {
    ||| min_of(min) < 0 && e == (CompiledSchemaError::MinLessZero { min: min_of(min) })
    ||| min_of(min) >= 0 && max_of(max) < -1 && e == (CompiledSchemaError::MaxIncorrect { max: max_of(max) })
    ||| min_of(min) >= 0 && max_of(max) >= 0 && max_of(max) < min_of(min) && e == (
    CompiledSchemaError::MaxIncorrect { max: max_of(max) })
}

/// `e` is the error of a value expression that does not compile.
pub open spec fn ve_error(
    pm: PrefixMap,
    keys: Seq<LabelKey>,
    ve: Option<Box<schema_json::ShapeExpr>>,
    e: CompiledSchemaError,
) -> bool {
    match ve {
        None => false,
        Some(b) => match *b {
            schema_json::ShapeExpr::NodeConstraint { xs_facet, .. } => xs_facet is Some && e is Unsupported,
            schema_json::ShapeExpr::Ref(l) => ref_error(pm, keys, l, e),
            _ => e is Unsupported,
        },
    }
}

/// `e` is the error that compiling the triple expression reports: that of the first
/// member that does not compile, else that of the group's bounds; for a triple
/// constraint, that of its bounds, else that of its value expression.
pub open spec fn te_error(pm: PrefixMap, keys: Seq<LabelKey>, te: TripleExpr, e: CompiledSchemaError) -> bool
    decreases te,
{
    match te {
        TripleExpr::EachOf { expressions, min, max } => {
            ||| exists|i: int|
                0 <= i < expressions@.len() && (forall|j: int| 0 <= j < i ==> te_ok(pm, keys, #[trigger] expressions@[j]))
                    && te_error(pm, keys, #[trigger] expressions@[i], e)
            ||| (forall|j: int| 0 <= j < expressions@.len() ==> te_ok(pm, keys, #[trigger] expressions@[j]))
                && bounds_error(min, max, e)
        },
        TripleExpr::OneOf { expressions, min, max } => {
            ||| exists|i: int|
                0 <= i < expressions@.len() && (forall|j: int| 0 <= j < i ==> te_ok(pm, keys, #[trigger] expressions@[j]))
                    && te_error(pm, keys, #[trigger] expressions@[i], e)
            ||| (forall|j: int| 0 <= j < expressions@.len() ==> te_ok(pm, keys, #[trigger] expressions@[j]))
                && bounds_error(min, max, e)
        },
        TripleExpr::TripleConstraint { value_expr, min, max, .. } => bounds_error(min, max, e) || (bounds_ok(
            min,
            max,
        ) && ve_error(pm, keys, value_expr, e)),
        TripleExpr::TripleExprRef(_) => e is Unsupported,
    }
}

/// `e` is the error that compiling the shape expression reports: that of its first member
/// that does not compile, for a composite.
pub open spec fn se_error(pm: PrefixMap, keys: Seq<LabelKey>, se: schema_json::ShapeExpr, e: CompiledSchemaError) -> bool
    decreases se,
{
    match se {
        schema_json::ShapeExpr::ShapeOr { shape_exprs } => exists|i: int|
            0 <= i < shape_exprs@.len() && (forall|j: int| 0 <= j < i ==> se_ok(pm, keys, #[trigger] shape_exprs@[j]))
                && se_error(pm, keys, #[trigger] shape_exprs@[i], e),
        schema_json::ShapeExpr::ShapeAnd { shape_exprs } => exists|i: int|
            0 <= i < shape_exprs@.len() && (forall|j: int| 0 <= j < i ==> se_ok(pm, keys, #[trigger] shape_exprs@[j]))
                && se_error(pm, keys, #[trigger] shape_exprs@[i], e),
        schema_json::ShapeExpr::ShapeNot { shape_expr } => se_error(pm, keys, *shape_expr, e),
        schema_json::ShapeExpr::NodeConstraint { xs_facet, .. } => xs_facet is Some && e is Unsupported,
        schema_json::ShapeExpr::Shape { expression, .. } => match expression {
            None => false,
            Some(te) => te_error(pm, keys, te, e),
        },
        schema_json::ShapeExpr::ShapeExternal => e is Unsupported,
        schema_json::ShapeExpr::Ref(l) => ref_error(pm, keys, l, e),
    }
}

/// `e` is the error that compiling the declaration reports: its label is not registered,
/// or else its expression does not compile.
pub open spec fn decl_error(pm: PrefixMap, keys: Seq<LabelKey>, d: ShapeDecl, e: CompiledSchemaError) -> bool {
    ||| index_of(keys, LabelKey::Iri(d.id@)) is None && (e matches CompiledSchemaError::ShapeLabelNotFound {
        shape_label,
    } && label_key(shape_label) == LabelKey::Iri(d.id@))
    ||| index_of(keys, LabelKey::Iri(d.id@)) is Some && se_error(pm, keys, d.shape_expr, e)
}

proof fn lemma_lowered_te_grow(
    pm: PrefixMap,
    keys: Seq<LabelKey>,
    te: TripleExpr,
    rbe: Rbe,
    comps: Comps,
    more: Comps,
    lo: int,
    hi: int,
)
    requires
        lowered_te(pm, keys, te, rbe, comps, lo, hi),
        more.len() >= comps.len(),
        more.take(comps.len() as int) == comps,
    ensures
        lowered_te(pm, keys, te, rbe, more, lo, hi),
    decreases te,
{
    match te {
        TripleExpr::EachOf { expressions, min, max } => {
            let values = group_inner(rbe, card_of(min, max))->0->And_values;
            let bs = choose|bs: Seq<int>|
                #[trigger] splits(bs, lo, hi, expressions@.len() as int) && forall|i: int|
                    0 <= i < expressions@.len() ==> lowered_te(
                        pm,
                        keys,
                        #[trigger] expressions@[i],
                        values@[i],
                        comps,
                        bs[i],
                        bs[i + 1],
                    );
            assert forall|i: int| 0 <= i < expressions@.len() implies lowered_te(
                pm,
                keys,
                #[trigger] expressions@[i],
                values@[i],
                more,
                bs[i],
                bs[i + 1],
            ) by {
                lemma_lowered_te_grow(pm, keys, expressions@[i], values@[i], comps, more, bs[i], bs[i + 1]);
            }
            assert(splits(bs, lo, hi, expressions@.len() as int));
        },
        TripleExpr::OneOf { expressions, min, max } => {
            let values = group_inner(rbe, card_of(min, max))->0->Or_values;
            let bs = choose|bs: Seq<int>|
                #[trigger] splits(bs, lo, hi, expressions@.len() as int) && forall|i: int|
                    0 <= i < expressions@.len() ==> lowered_te(
                        pm,
                        keys,
                        #[trigger] expressions@[i],
                        values@[i],
                        comps,
                        bs[i],
                        bs[i + 1],
                    );
            assert forall|i: int| 0 <= i < expressions@.len() implies lowered_te(
                pm,
                keys,
                #[trigger] expressions@[i],
                values@[i],
                more,
                bs[i],
                bs[i + 1],
            ) by {
                lemma_lowered_te_grow(pm, keys, expressions@[i], values@[i], comps, more, bs[i], bs[i + 1]);
            }
            assert(splits(bs, lo, hi, expressions@.len() as int));
        },
        TripleExpr::TripleConstraint { .. } => {
            assert(more[lo] == comps[lo]);
        },
        TripleExpr::TripleExprRef(_) => {},
    }
}

proof fn lemma_lowered_composite(pm: PrefixMap, keys: Seq<LabelKey>, a: Vec<schema_json::ShapeExpr>, b: Vec<ShapeExpr>)
    requires
        b@.len() == a@.len(),
        forall|j: int| 0 <= j < a@.len() ==> #[trigger] lowered(pm, keys, a@[j], b@[j]),
    ensures
        lowered(pm, keys, schema_json::ShapeExpr::ShapeOr { shape_exprs: a }, ShapeExpr::ShapeOr { exprs: b }),
        lowered(pm, keys, schema_json::ShapeExpr::ShapeAnd { shape_exprs: a }, ShapeExpr::ShapeAnd { exprs: b }),
{
    let x = schema_json::ShapeExpr::ShapeOr { shape_exprs: a };
    let y = ShapeExpr::ShapeOr { exprs: b };
    assert(x->ShapeOr_shape_exprs == a);
    assert(y->ShapeOr_exprs == b);
    assert forall|i: int| 0 <= i < a@.len() implies lowered(pm, keys, #[trigger] a@[i], b@[i]) by {
    }
    assert(lowered(pm, keys, x, y));
}

/// Wraps a group in what its cardinality asks for.
fn mk_card_group(rbe: Rbe, card: Cardinality) -> (r: Rbe)
    ensures
        group_inner(r, card) == Some(rbe),
{
    if card.is_1_1() {
        rbe
    } else if card.is_star() {
        Rbe::Star { value: Box::new(rbe) }
    } else if card.is_plus() {
        Rbe::Plus { value: Box::new(rbe) }
    } else {
        Rbe::Repeat { value: Box::new(rbe), card }
    }
}

/// The condition that a reference to the shape at `idx` compiles to.
fn mk_cond_ref(idx: ShapeLabelIdx) -> (r: MatchCond)
    ensures
        r.conds@ == seq![SingleCond::Ref(idx)],
{
    MatchCond::single(SingleCond::Ref(idx))
}

impl SchemaJsonCompiler {
    pub fn new() -> (r: SchemaJsonCompiler) {
        SchemaJsonCompiler {}
    }

    /// The minimum; absent means 1, below zero is an error.
    fn cnv_min(&self, min: &Option<i32>) -> (r: CResult<Min>)
        ensures
            (*min matches Some(m) && m < 0) ==> r == Err::<Min, _>(CompiledSchemaError::MinLessZero { min: min->0 }),
            !(*min matches Some(m) && m < 0) ==> r == Ok::<_, CompiledSchemaError>(card_of(*min, None).min),
    {
        match min {
            Some(m) => if *m < 0 {
                Err(CompiledSchemaError::MinLessZero { min: *m })
            } else {
                Ok(Min { value: *m as usize })
            },
            None => Ok(Min { value: 1 }),
        }
    }

    /// The maximum; absent means 1, -1 is unbounded, below -1 is an error.
    fn cnv_max(&self, max: &Option<i32>) -> (r: CResult<Max>)
        ensures
            (*max matches Some(m) && m < -1) ==> r == Err::<Max, _>(CompiledSchemaError::MaxIncorrect { max: max->0 }),
            !(*max matches Some(m) && m < -1) ==> r == Ok::<_, CompiledSchemaError>(card_of(None, *max).max),
    {
        match max {
            Some(m) => if *m == -1 {
                Ok(Max::Unbounded)
            } else if *m < -1 {
                Err(CompiledSchemaError::MaxIncorrect { max: *m })
            } else {
                Ok(Max::IntMax(*m as usize))
            },
            None => Ok(Max::IntMax(1)),
        }
    }

    /// The cardinality of the bounds. The minimum is checked first, then the maximum, then
    /// that a bounded maximum is not below the minimum.
    fn cnv_min_max(&self, min: &Option<i32>, max: &Option<i32>) -> (r: CResult<Cardinality>)
        ensures
            r is Ok <==> bounds_ok(*min, *max),
            r matches Ok(c) ==> c == card_of(*min, *max),
            r matches Err(e) ==> bounds_error(*min, *max, e),
    {
        let min_c = match self.cnv_min(min) {
            Ok(m) => m,
            Err(e) => return Err(e),
        };
        let max_c = match self.cnv_max(max) {
            Ok(m) => m,
            Err(e) => return Err(e),
        };
        match max_c {
            Max::IntMax(m) => if m < min_c.value {
                let mx: i32 = match max {
                    Some(x) => *x,
                    None => 1,
                };
                return Err(CompiledSchemaError::MaxIncorrect { max: mx });
            },
            Max::Unbounded => {},
        }
        Ok(Cardinality::from(min_c, max_c))
    }

    /// The condition of a node constraint: node kind, datatype and value set, in that
    /// order. Facets are not supported.
    fn cnv_node_constraint(
        &self,
        nk: &Option<NodeKind>,
        dt: &Option<String>,
        xs_facet: &Option<Vec<XsFacet>>,
        values: &Option<Vec<ValueSetValue>>,
    ) -> (r: CResult<MatchCond>)
        ensures
            r is Ok <==> xs_facet is None,
            r matches Ok(c) ==> nc_cond(*nk, *dt, *values, c) && forall|n: nat| cond_refs_ok(c, n),
            r matches Err(e) ==> e is Unsupported,
    {
        if xs_facet.is_some() {
            return Err(CompiledSchemaError::Unsupported { msg: String::from_str("xs_facet") });
        }
        let mut conds: Vec<SingleCond> = Vec::new();
        assert forall|node: Node| #[trigger] conds_result(conds@, node) == Ok::<
            Seq<(Node, ShapeLabelIdx)>,
            CompiledSchemaError,
        >(Seq::empty()) by {
        }
        if let Some(k) = nk {
            let ghost before = conds@;
            conds.push(SingleCond::NodeKind(*k));
            assert forall|node: Node| #[trigger] conds_result(conds@, node) == nc_result(*nk, None, None, node) by {
                assert(conds@.drop_last() == before);
                assert(conds_result(before, node) == Ok::<Seq<(Node, ShapeLabelIdx)>, CompiledSchemaError>(Seq::empty()));
                assert(Seq::<(Node, ShapeLabelIdx)>::empty() + Seq::empty() =~= Seq::empty());
            }
        }
        assert forall|node: Node| #[trigger] conds_result(conds@, node) == nc_result(*nk, None, None, node) by {
        }
        if let Some(d) = dt {
            let ghost before = conds@;
            conds.push(SingleCond::Datatype(copy_string(d)));
            assert forall|node: Node| #[trigger] conds_result(conds@, node) == nc_result(*nk, *dt, None, node) by {
                assert(conds@.drop_last() == before);
                assert(conds_result(before, node) == nc_result(*nk, None, None, node));
                assert(Seq::<(Node, ShapeLabelIdx)>::empty() + Seq::empty() =~= Seq::empty());
            }
        }
        assert forall|node: Node| #[trigger] conds_result(conds@, node) == nc_result(*nk, *dt, None, node) by {
        }
        if let Some(vs) = values {
            let ghost before = conds@;
            let set = ValueSet::from_values(vs);
            conds.push(SingleCond::ValueSet(set));
            assert forall|node: Node| #[trigger] conds_result(conds@, node) == nc_result(*nk, *dt, *values, node) by {
                assert(conds@.drop_last() == before);
                assert(conds_result(before, node) == nc_result(*nk, *dt, None, node));
                assert(Seq::<(Node, ShapeLabelIdx)>::empty() + Seq::empty() =~= Seq::empty());
            }
        }
        let c = MatchCond { conds };
        assert forall|node: Node| #[trigger] conds_result(c.conds@, node) == nc_result(*nk, *dt, *values, node) by {
        }
        Ok(c)
    }

    fn cnv_closed(closed: &Option<bool>) -> (r: bool)
        ensures
            r == (*closed matches Some(b) && b),
    {
        match closed {
            None => false,
            Some(closed) => *closed,
        }
    }

    fn cnv_extra(&self, extra: &Option<Vec<String>>) -> (r: Vec<String>)
        ensures
            r@ == match *extra {
                Some(v) => v@,
                None => Seq::<String>::empty(),
            },
    {
        let mut vs: Vec<String> = Vec::new();
        if let Some(extra) = extra {
            let mut i: usize = 0;
            while i < extra.len()
                invariant
                    0 <= i <= extra@.len(),
                    vs@ == extra@.take(i as int),
                decreases extra.len() - i,
            {
                vs.push(copy_string(&extra[i]));
                assert(extra@.take(i + 1) == extra@.take(i as int).push(extra@[i as int]));
                i = i + 1;
            }
            assert(extra@.take(i as int) == extra@);
        } else {
            assert(vs@ =~= Seq::<String>::empty());
        }
        vs
    }

    /// The index of the shape that a reference names; an undeclared label is reported as
    /// not found, an unbound prefix as such.
    fn ref2idx(&self, sref: &ShapeExprLabel, compiled_schema: &CompiledSchema) -> (r: CResult<ShapeLabelIdx>)
        ensures
            r is Ok <==> ref_ok(compiled_schema.prefixmap, keys_of(compiled_schema.shapes@), *sref),
            r matches Ok(idx) ==> idx.idx == ref_index(compiled_schema.prefixmap, keys_of(compiled_schema.shapes@), *sref)
                && idx.idx < compiled_schema.shapes@.len(),
            r matches Err(e) ==> ref_error(compiled_schema.prefixmap, keys_of(compiled_schema.shapes@), *sref, e),
    {
        let len = compiled_schema.shapes.len();
        match compiled_schema.find_ref(sref) {
            Ok(idx) => {
                proof {
                    let keys = keys_of(compiled_schema.shapes@);
                    let k = ref_key(compiled_schema.prefixmap, *sref)->0;
                    let i = index_of(keys, k)->0;
                    assert(crate::compiled_schema::label_at(keys, k, i));
                    assert(i < len);
                }
                Ok(idx)
            },
            Err(CompiledSchemaError::LabelNotFound { shape_label }) => Err(
                CompiledSchemaError::ShapeLabelNotFound { shape_label },
            ),
            Err(e) => Err(e),
        }
    }

    /// The condition of the value expression of a triple constraint.
    fn value_expr2match_cond(
        &self,
        ve: &Option<Box<schema_json::ShapeExpr>>,
        compiled_schema: &CompiledSchema,
    ) -> (r: CResult<MatchCond>)
        ensures
            r is Ok <==> ve_ok(compiled_schema.prefixmap, keys_of(compiled_schema.shapes@), *ve),
            r matches Ok(c) ==> ve_cond(compiled_schema.prefixmap, keys_of(compiled_schema.shapes@), *ve, c)
                && cond_refs_ok(c, compiled_schema.shapes@.len() as nat),
            r matches Err(e) ==> ve_error(compiled_schema.prefixmap, keys_of(compiled_schema.shapes@), *ve, e),
    {
        match ve {
            None => Ok(MatchCond::single(SingleCond::Any)),
            Some(se) => match &**se {
                schema_json::ShapeExpr::NodeConstraint { node_kind, datatype, xs_facet, values } => {
                    let r = self.cnv_node_constraint(node_kind, datatype, xs_facet, values);
                    match r {
                        Ok(c) => {
                            assert(cond_refs_ok(c, compiled_schema.shapes@.len() as nat));
                            Ok(c)
                        },
                        Err(e) => Err(e),
                    }
                },
                schema_json::ShapeExpr::Ref(sref) => {
                    match self.ref2idx(sref, compiled_schema) {
                        Ok(idx) => Ok(mk_cond_ref(idx)),
                        Err(e) => Err(e),
                    }
                },
                _ => Err(CompiledSchemaError::Unsupported { msg: String::from_str("value expression") }),
            },
        }
    }
}

impl SchemaJsonCompiler {
    /// Compiles a triple expression into a pattern, adding a component to `table` for each
    /// triple constraint.
    pub fn triple_expr2rbe(
        &self,
        triple_expr: &TripleExpr,
        compiled_schema: &CompiledSchema,
        table: &mut RbeTable,
    ) -> (r: CResult<Rbe>)
        ensures
            final(table).components@.len() >= old(table).components@.len(),
            final(table).components@.take(old(table).components@.len() as int) == old(table).components@,
            final(table).rbe == old(table).rbe,
            forall|c: int|
                old(table).components@.len() <= c < final(table).components@.len() ==> cond_refs_ok(
                    #[trigger] final(table).components@[c].1,
                    compiled_schema.shapes@.len() as nat,
                ),
            r is Ok <==> te_ok(compiled_schema.prefixmap, keys_of(compiled_schema.shapes@), *triple_expr),
            r matches Ok(rbe) ==> lowered_te(
                compiled_schema.prefixmap,
                keys_of(compiled_schema.shapes@),
                *triple_expr,
                rbe,
                final(table).components@,
                old(table).components@.len() as int,
                final(table).components@.len() as int,
            ),
            r matches Err(e) ==> te_error(
                compiled_schema.prefixmap,
                keys_of(compiled_schema.shapes@),
                *triple_expr,
                e,
            ),
        decreases triple_expr,
    {
        let ghost pm = compiled_schema.prefixmap;
        let ghost keys = keys_of(compiled_schema.shapes@);
        let ghost n = compiled_schema.shapes@.len() as nat;
        match triple_expr {
            TripleExpr::EachOf { expressions, min, max } | TripleExpr::OneOf { expressions, min, max } => {
                let mut cs: Vec<Rbe> = Vec::new();
                let ghost mut bs: Seq<int> = seq![old(table).components@.len() as int];
                let mut i: usize = 0;
                while i < expressions.len()
                    invariant
                        bs.len() == i + 1,
                        bs[0] == old(table).components@.len(),
                        bs[i as int] == table.components@.len(),
                        pm == compiled_schema.prefixmap,
                        keys == keys_of(compiled_schema.shapes@),
                        n == compiled_schema.shapes@.len() as nat,
                        (*triple_expr matches TripleExpr::EachOf { expressions: e, .. } && e == *expressions) || (
                        *triple_expr matches TripleExpr::OneOf { expressions: e, .. } && e == *expressions),
                        0 <= i <= expressions@.len(),
                        cs@.len() == i,
                        table.components@.len() >= old(table).components@.len(),
                        table.components@.take(old(table).components@.len() as int) == old(table).components@,
                        table.rbe == old(table).rbe,
                        forall|c: int|
                            old(table).components@.len() <= c < table.components@.len() ==> cond_refs_ok(
                                #[trigger] table.components@[c].1,
                                n,
                            ),
                        forall|j: int|
                            0 <= j < i ==> te_ok(pm, keys, #[trigger] expressions@[j]) && lowered_te(
                                pm,
                                keys,
                                expressions@[j],
                                cs@[j],
                                table.components@,
                                bs[j],
                                bs[j + 1],
                            ),
                    decreases expressions.len() - i,
                {
                    let ghost before = table.components@;
                    assert(forall|c: int|
                        old(table).components@.len() <= c < before.len() ==> cond_refs_ok(#[trigger] before[c].1, n));
                    let res = self.triple_expr2rbe(&expressions[i], compiled_schema, table);
                    proof {
                        assert(table.components@.take(old(table).components@.len() as int) =~= table.components@.take(
                            before.len() as int,
                        ).take(old(table).components@.len() as int));
                        assert forall|c2: int|
                            old(table).components@.len() <= c2 < table.components@.len() implies cond_refs_ok(
                                #[trigger] table.components@[c2].1,
                                n,
                            ) by {
                            if c2 < before.len() {
                                assert(table.components@.take(before.len() as int)[c2] == before[c2]);
                                assert(cond_refs_ok(before[c2].1, n));
                            }
                        }
                    }
                    match res {
                        Ok(c) => {
                            proof {
                                assert forall|j: int| 0 <= j < i implies lowered_te(
                                    pm,
                                    keys,
                                    #[trigger] expressions@[j],
                                    cs@[j],
                                    table.components@,
                                    bs[j],
                                    bs[j + 1],
                                ) by {
                                    lemma_lowered_te_grow(
                                        pm,
                                        keys,
                                        expressions@[j],
                                        cs@[j],
                                        before,
                                        table.components@,
                                        bs[j],
                                        bs[j + 1],
                                    );
                                }
                                bs = bs.push(table.components@.len() as int);
                            }
                            cs.push(c);
                        },
                        Err(e) => {
                            proof {
                                assert(!te_ok(pm, keys, expressions@[i as int]));
                                assert(!te_ok(pm, keys, *triple_expr));
                            }
                            return Err(e);
                        },
                    }
                    i = i + 1;
                }
                let card = match self.cnv_min_max(min, max) {
                    Ok(c) => c,
                    Err(e) => return Err(e),
                };
                let ghost cv = cs@;
                let group = match triple_expr {
                    TripleExpr::EachOf { .. } => Rbe::And { values: cs },
                    _ => Rbe::Or { values: cs },
                };
                let r = mk_card_group(group, card);
                proof {
                    let n_e = expressions@.len() as int;
                    assert(splits(bs, old(table).components@.len() as int, table.components@.len() as int, n_e));
                    assert(forall|j: int|
                        0 <= j < n_e ==> lowered_te(
                            pm,
                            keys,
                            #[trigger] expressions@[j],
                            cv[j],
                            table.components@,
                            bs[j],
                            bs[j + 1],
                        ));
                }
                Ok(r)
            },
            TripleExpr::TripleConstraint { predicate, value_expr, min, max } => {
                let card = match self.cnv_min_max(min, max) {
                    Ok(c) => c,
                    Err(e) => return Err(e),
                };
                let cond = match self.value_expr2match_cond(value_expr, compiled_schema) {
                    Ok(c) => c,
                    Err(e) => return Err(e),
                };
                let c = table.add_component(copy_string(predicate), cond);
                assert(table.components@.take(old(table).components@.len() as int) =~= old(table).components@);
                Ok(Rbe::symbol(c, card.min.value, card.max))
            },
            TripleExpr::TripleExprRef(_) => Err(CompiledSchemaError::Unsupported { msg: String::from_str("TripleExprRef") }),
        }
    }

    /// Compiles a shape expression: references become indices, composites are compiled
    /// member by member, shapes become a table of components with a pattern, node
    /// constraints a condition.
    pub fn compile_shape_expr(&self, se: &schema_json::ShapeExpr, compiled_schema: &CompiledSchema) -> (r:
        CResult<ShapeExpr>)
        ensures
            r is Ok <==> se_ok(compiled_schema.prefixmap, keys_of(compiled_schema.shapes@), *se),
            r matches Ok(c) ==> lowered(compiled_schema.prefixmap, keys_of(compiled_schema.shapes@), *se, c)
                && refs_ok(c, compiled_schema.shapes@.len() as nat),
            r matches Err(e) ==> se_error(compiled_schema.prefixmap, keys_of(compiled_schema.shapes@), *se, e),
        decreases se,
    {
        let ghost pm = compiled_schema.prefixmap;
        let ghost keys = keys_of(compiled_schema.shapes@);
        let ghost n = compiled_schema.shapes@.len() as nat;
        match se {
            schema_json::ShapeExpr::Ref(se_ref) => {
                match self.ref2idx(se_ref, compiled_schema) {
                    Ok(idx) => {
                        let r = ShapeExpr::Ref { idx };
                        assert(lowered(pm, keys, *se, r));
                        Ok(r)
                    },
                    Err(e) => Err(e),
                }
            },
            schema_json::ShapeExpr::ShapeOr { shape_exprs: ses } | schema_json::ShapeExpr::ShapeAnd {
                shape_exprs: ses,
            } => {
                let mut cnv: Vec<ShapeExpr> = Vec::new();
                let mut i: usize = 0;
                while i < ses.len()
                    invariant
                        pm == compiled_schema.prefixmap,
                        keys == keys_of(compiled_schema.shapes@),
                        n == compiled_schema.shapes@.len() as nat,
                        (*se matches schema_json::ShapeExpr::ShapeOr { shape_exprs: e } && e == *ses) || (
                        *se matches schema_json::ShapeExpr::ShapeAnd { shape_exprs: e } && e == *ses),
                        0 <= i <= ses@.len(),
                        cnv@.len() == i,
                        forall|j: int| 0 <= j < i ==> se_ok(pm, keys, #[trigger] ses@[j]),
                        forall|j: int| 0 <= j < i ==> #[trigger] lowered(pm, keys, ses@[j], cnv@[j]),
                        forall|j: int| 0 <= j < i ==> refs_ok(#[trigger] cnv@[j], n),
                    decreases ses.len() - i,
                {
                    match self.compile_shape_expr(&ses[i], compiled_schema) {
                        Ok(c) => cnv.push(c),
                        Err(e) => {
                            assert(!se_ok(pm, keys, ses@[i as int]));
                            assert(!se_ok(pm, keys, *se));
                            return Err(e);
                        },
                    }
                    i = i + 1;
                }
                let ghost cv = cnv@;
                let r = match se {
                    schema_json::ShapeExpr::ShapeOr { .. } => ShapeExpr::ShapeOr { exprs: cnv },
                    _ => ShapeExpr::ShapeAnd { exprs: cnv },
                };
                proof {
                    assert(forall|j: int| 0 <= j < cv.len() ==> refs_ok(#[trigger] cv[j], n));
                    assert(forall|j: int| 0 <= j < cv.len() ==> #[trigger] lowered(pm, keys, ses@[j], cv[j]));
                    if r is ShapeOr {
                        lemma_lowered_composite(pm, keys, *ses, r->ShapeOr_exprs);
                    } else {
                        lemma_lowered_composite(pm, keys, *ses, r->ShapeAnd_exprs);
                    }
                }
                Ok(r)
            },
            schema_json::ShapeExpr::ShapeNot { shape_expr } => {
                match self.compile_shape_expr(shape_expr, compiled_schema) {
                    Ok(c) => {
                        let r = ShapeExpr::ShapeNot { expr: Box::new(c) };
                        assert(lowered(pm, keys, *se, r));
                        Ok(r)
                    },
                    Err(e) => Err(e),
                }
            },
            schema_json::ShapeExpr::Shape { closed, extra, expression } => {
                let new_extra = self.cnv_extra(extra);
                let mut table = RbeTable::new();
                match expression {
                    None => {},
                    Some(te) => {
                        match self.triple_expr2rbe(te, compiled_schema, &mut table) {
                            Ok(rbe) => table.with_rbe(rbe),
                            Err(e) => return Err(e),
                        }
                    },
                }
                let r = ShapeExpr::Shape { closed: Self::cnv_closed(closed), extra: new_extra, rbe_table: table };
                assert(lowered(pm, keys, *se, r));
                Ok(r)
            },
            schema_json::ShapeExpr::NodeConstraint { node_kind, datatype, xs_facet, values } => {
                match self.cnv_node_constraint(node_kind, datatype, xs_facet, values) {
                    Ok(cond) => {
                        let dt = match datatype {
                            Some(d) => Some(copy_string(d)),
                            None => None,
                        };
                        let r = ShapeExpr::NodeConstraint { node_kind: *node_kind, datatype: dt, cond };
                        assert(lowered(pm, keys, *se, r));
                        Ok(r)
                    },
                    Err(e) => Err(e),
                }
            },
            schema_json::ShapeExpr::ShapeExternal => Err(
                CompiledSchemaError::Unsupported { msg: String::from_str("ShapeExternal") },
            ),
        }
    }
}

/// The declarations of a schema, in order.
pub open spec fn decls_of(schema: SchemaJson) -> Seq<ShapeDecl> {
    match schema.shapes {
        None => Seq::empty(),
        Some(v) => v@,
    }
}

/// The label keys that the declarations register, in order.
pub open spec fn decl_keys(decls: Seq<ShapeDecl>) -> Seq<LabelKey> {
    Seq::new(decls.len(), |i: int| LabelKey::Iri(decls[i].id@))
}

/// No declaration among the first `n` after the `i`-th has the same label.
pub open spec fn last_decl_before(decls: Seq<ShapeDecl>, i: int, n: int) -> bool {
    forall|m: int| i < m < n ==> (#[trigger] decls[m]).id@ != decls[i].id@
}

/// No declaration among the first `n` has its label at index `j`.
#[verifier::opaque]
pub open spec fn owned_by_none(keys: Seq<LabelKey>, decls: Seq<ShapeDecl>, n: int, j: int) -> bool {
    forall|i: int| 0 <= i < n ==> index_of(keys, LabelKey::Iri((#[trigger] decls[i]).id@)) != Some(j)
}

proof fn lemma_owned_by_none_prefix(keys: Seq<LabelKey>, decls: Seq<ShapeDecl>, i: int, m: int, j: int)
    requires
        0 <= i <= m,
        owned_by_none(keys, decls, m, j),
    ensures
        owned_by_none(keys, decls, i, j),
{
    reveal(owned_by_none);
    assert forall|k: int| 0 <= k < i implies index_of(keys, LabelKey::Iri((#[trigger] decls[k]).id@)) != Some(j) by {
        assert(index_of(keys, LabelKey::Iri(decls[k].id@)) != Some(j));
    }
}

/// The declaration compiles: its label is registered and its expression compiles.
pub open spec fn decl_ok(pm: PrefixMap, keys: Seq<LabelKey>, d: ShapeDecl) -> bool {
    index_of(keys, LabelKey::Iri(d.id@)) is Some && se_ok(pm, keys, d.shape_expr)
}

/// The entry of the declaration's label holds what its expression compiles to.
pub open spec fn decl_compiled(pm: PrefixMap, shapes: Seq<(ShapeLabel, ShapeExpr)>, d: ShapeDecl) -> bool {
    let keys = keys_of(shapes);
    lowered(pm, keys, d.shape_expr, shapes[index_of(keys, LabelKey::Iri(d.id@))->0].1)
}

/// Every label that a schema declares has an index once the declarations are registered:
/// a label that is found is the label of a shape expression.
pub proof fn lemma_declared_labels_found(before: Seq<LabelKey>, schema: SchemaJson, after: Seq<LabelKey>)
    requires
        after == before + decl_keys(decls_of(schema)),
    ensures
        forall|i: int|
            0 <= i < decls_of(schema).len() ==> index_of(after, LabelKey::Iri(#[trigger] decls_of(schema)[i].id@)) is Some,
{
    let decls = decls_of(schema);
    assert forall|i: int| 0 <= i < decls.len() implies index_of(after, LabelKey::Iri(#[trigger] decls[i].id@)) is Some by {
        assert(after[before.len() + i] == decl_keys(decls)[i]);
        lemma_has_index(after, LabelKey::Iri(decls[i].id@), before.len() + i);
    }
}

impl SchemaJsonCompiler {
    /// The label that a declaration's id names: the IRI itself.
    fn id_to_shape_label(&self, id: &str) -> (r: ShapeLabel)
        ensures
            label_key(r) == LabelKey::Iri(id@),
    {
        ShapeLabel::iri(id)
    }

    /// The index of the label that `id` names.
    fn get_shape_label_idx(&self, id: &str, compiled_schema: &CompiledSchema) -> (r: CResult<ShapeLabelIdx>)
        ensures
            r is Err <==> index_of(keys_of(compiled_schema.shapes@), LabelKey::Iri(id@)) is None,
            r matches Ok(idx) ==> index_of(keys_of(compiled_schema.shapes@), LabelKey::Iri(id@)) == Some(
                idx.idx as int,
            ),
            r matches Err(e) ==> (e matches CompiledSchemaError::ShapeLabelNotFound { shape_label } && label_key(
                shape_label,
            ) == LabelKey::Iri(id@)),
    {
        let label = self.id_to_shape_label(id);
        compiled_schema.get_shape_label_idx(&label)
    }

    fn compile_shape_decl(&self, sd: &ShapeDecl, compiled_schema: &CompiledSchema) -> (r: CResult<ShapeExpr>)
        ensures
            r is Ok <==> se_ok(compiled_schema.prefixmap, keys_of(compiled_schema.shapes@), sd.shape_expr),
            r matches Ok(c) ==> lowered(compiled_schema.prefixmap, keys_of(compiled_schema.shapes@), sd.shape_expr, c)
                && refs_ok(c, compiled_schema.shapes@.len() as nat),
            r matches Err(e) ==> se_error(compiled_schema.prefixmap, keys_of(compiled_schema.shapes@), sd.shape_expr, e),
    {
        self.compile_shape_expr(&sd.shape_expr, compiled_schema)
    }

    /// First pass: registers the label of every declaration, in order, with an empty
    /// placeholder, so that references to any of them resolve in the second pass.
    pub fn collect_shape_labels(&mut self, schema_json: &SchemaJson, compiled_schema: &mut CompiledSchema) -> (r:
        CResult<()>)
        ensures
            r is Ok,
            final(compiled_schema).prefixmap == old(compiled_schema).prefixmap,
            keys_of(final(compiled_schema).shapes@) == keys_of(old(compiled_schema).shapes@) + decl_keys(
                decls_of(*schema_json),
            ),
            final(compiled_schema).shapes@.take(old(compiled_schema).shapes@.len() as int)
                == old(compiled_schema).shapes@,
            forall|i: int|
                old(compiled_schema).shapes@.len() <= i < final(compiled_schema).shapes@.len()
                    ==> (#[trigger] final(compiled_schema).shapes@[i]).1 == ShapeExpr::Empty,
            all_refs_ok(old(compiled_schema).shapes@) ==> all_refs_ok(final(compiled_schema).shapes@),
    {
        let ghost old_shapes = compiled_schema.shapes@;
        let ghost decls = decls_of(*schema_json);
        match &schema_json.shapes {
            None => {
                assert(keys_of(compiled_schema.shapes@) =~= keys_of(old_shapes) + decl_keys(decls));
                assert(compiled_schema.shapes@.take(old_shapes.len() as int) =~= old_shapes);
                Ok(())
            },
            Some(sds) => {
                let mut i: usize = 0;
                while i < sds.len()
                    invariant
                        decls == sds@,
                        0 <= i <= sds@.len(),
                        compiled_schema.prefixmap == old(compiled_schema).prefixmap,
                        old_shapes == old(compiled_schema).shapes@,
                        compiled_schema.shapes@.len() == old_shapes.len() + i,
                        compiled_schema.shapes@.take(old_shapes.len() as int) == old_shapes,
                        forall|j: int|
                            0 <= j < i ==> label_key((#[trigger] compiled_schema.shapes@[old_shapes.len() + j]).0)
                                == LabelKey::Iri(sds@[j].id@) && compiled_schema.shapes@[old_shapes.len() + j].1
                                == ShapeExpr::Empty,
                    decreases sds.len() - i,
                {
                    let label = self.id_to_shape_label(sds[i].id.as_str());
                    let ghost before = compiled_schema.shapes@;
                    compiled_schema.add_shape(label, ShapeExpr::Empty);
                    proof {
                        assert(compiled_schema.shapes@.take(old_shapes.len() as int) =~= before.take(
                            old_shapes.len() as int,
                        ));
                        assert forall|j: int| 0 <= j < i + 1 implies label_key(
                            (#[trigger] compiled_schema.shapes@[old_shapes.len() + j]).0,
                        ) == LabelKey::Iri(sds@[j].id@) && compiled_schema.shapes@[old_shapes.len() + j].1
                            == ShapeExpr::Empty by {
                            if j < i {
                                assert(compiled_schema.shapes@[old_shapes.len() + j] == before[old_shapes.len() + j]);
                            }
                        }
                    }
                    i = i + 1;
                }
                proof {
                    let fin = compiled_schema.shapes@;
                    assert forall|k: int| 0 <= k < fin.len() implies #[trigger] keys_of(fin)[k] == (keys_of(old_shapes)
                        + decl_keys(decls))[k] by {
                        if k < old_shapes.len() {
                            assert(fin.take(old_shapes.len() as int)[k] == fin[k]);
                        } else {
                            assert(fin[old_shapes.len() + (k - old_shapes.len())] == fin[k]);
                        }
                    }
                    assert(keys_of(fin) =~= keys_of(old_shapes) + decl_keys(decls));
                    assert forall|k: int| old_shapes.len() <= k < fin.len() implies (#[trigger] fin[k]).1
                        == ShapeExpr::Empty by {
                        assert(fin[old_shapes.len() + (k - old_shapes.len())] == fin[k]);
                    }
                    if all_refs_ok(old_shapes) {
                        assert forall|k: int| 0 <= k < fin.len() implies refs_ok(#[trigger] fin[k].1, fin.len() as nat) by {
                            if k < old_shapes.len() {
                                assert(fin.take(old_shapes.len() as int)[k] == fin[k]);
                                lemma_refs_ok_grow(old_shapes[k].1, old_shapes.len() as nat, fin.len() as nat);
                            }
                        }
                    }
                }
                Ok(())
            },
        }
    }
}

impl SchemaJsonCompiler {
    /// Second pass: compiles the expression of every declaration, in order, and puts it at
    /// the index of its label. Stops at the first declaration that does not compile.
    pub fn collect_shape_exprs(&mut self, schema_json: &SchemaJson, compiled_schema: &mut CompiledSchema) -> (r:
        CResult<()>)
        ensures
            final(compiled_schema).prefixmap == old(compiled_schema).prefixmap,
            keys_of(final(compiled_schema).shapes@) == keys_of(old(compiled_schema).shapes@),
            r is Ok <==> forall|i: int|
                0 <= i < decls_of(*schema_json).len() ==> decl_ok(
                    old(compiled_schema).prefixmap,
                    keys_of(old(compiled_schema).shapes@),
                    #[trigger] decls_of(*schema_json)[i],
                ),
            r is Ok ==> forall|i: int|
                0 <= i < decls_of(*schema_json).len() && last_decl_before(
                    decls_of(*schema_json),
                    i,
                    decls_of(*schema_json).len() as int,
                ) ==> decl_compiled(
                    old(compiled_schema).prefixmap,
                    final(compiled_schema).shapes@,
                    #[trigger] decls_of(*schema_json)[i],
                ),
            all_refs_ok(old(compiled_schema).shapes@) ==> all_refs_ok(final(compiled_schema).shapes@),
            forall|j: int|
                0 <= j < old(compiled_schema).shapes@.len() && owned_by_none(
                    keys_of(old(compiled_schema).shapes@),
                    decls_of(*schema_json),
                    decls_of(*schema_json).len() as int,
                    j,
                ) ==> #[trigger] final(compiled_schema).shapes@[j] == old(compiled_schema).shapes@[j],
            r matches Err(e) ==> exists|i: int|
                0 <= i < decls_of(*schema_json).len() && (forall|j: int|
                    0 <= j < i ==> decl_ok(
                        old(compiled_schema).prefixmap,
                        keys_of(old(compiled_schema).shapes@),
                        #[trigger] decls_of(*schema_json)[j],
                    )) && decl_error(
                    old(compiled_schema).prefixmap,
                    keys_of(old(compiled_schema).shapes@),
                    #[trigger] decls_of(*schema_json)[i],
                    e,
                ),
    {
        let ghost pm = compiled_schema.prefixmap;
        let ghost keys = keys_of(compiled_schema.shapes@);
        let ghost n = compiled_schema.shapes@.len();
        let ghost refs_before = all_refs_ok(compiled_schema.shapes@);
        let ghost decls = decls_of(*schema_json);
        match &schema_json.shapes {
            None => Ok(()),
            Some(sds) => {
                let mut i: usize = 0;
                while i < sds.len()
                    invariant
                        decls == sds@,
                        decls == decls_of(*schema_json),
                        0 <= i <= sds@.len(),
                        compiled_schema.prefixmap == pm,
                        pm == old(compiled_schema).prefixmap,
                        keys == keys_of(old(compiled_schema).shapes@),
                        keys_of(compiled_schema.shapes@) == keys,
                        compiled_schema.shapes@.len() == n,
                        n == old(compiled_schema).shapes@.len(),
                        refs_before == all_refs_ok(old(compiled_schema).shapes@),
                        refs_before ==> all_refs_ok(compiled_schema.shapes@),
                        forall|j: int| 0 <= j < i ==> decl_ok(pm, keys, #[trigger] sds@[j]),
                        forall|j: int|
                            0 <= j < n && owned_by_none(keys, sds@, i as int, j) ==> #[trigger] compiled_schema.shapes@[j]
                                == old(compiled_schema).shapes@[j],
                        forall|j: int|
                            0 <= j < i && last_decl_before(sds@, j, i as int) ==> decl_compiled(
                                pm,
                                compiled_schema.shapes@,
                                #[trigger] sds@[j],
                            ),
                    decreases sds.len() - i,
                {
                    let idx = match self.get_shape_label_idx(sds[i].id.as_str(), compiled_schema) {
                        Ok(idx) => idx,
                        Err(e) => {
                            assert(!decl_ok(pm, keys, decls[i as int]));
                            assert(decl_error(pm, keys, decls[i as int], e));
                            proof {
                                assert forall|j: int|
                                    0 <= j < n && owned_by_none(keys, sds@, sds@.len() as int, j) implies #[trigger] compiled_schema.shapes@[j]
                                        == old(compiled_schema).shapes@[j] by {
                                    lemma_owned_by_none_prefix(keys, sds@, i as int, sds@.len() as int, j);
                                }
                            }
                            return Err(e);
                        },
                    };
                    let se = match self.compile_shape_decl(&sds[i], compiled_schema) {
                        Ok(se) => se,
                        Err(e) => {
                            assert(!decl_ok(pm, keys, decls[i as int]));
                            assert(decl_error(pm, keys, decls[i as int], e));
                            proof {
                                assert forall|j: int|
                                    0 <= j < n && owned_by_none(keys, sds@, sds@.len() as int, j) implies #[trigger] compiled_schema.shapes@[j]
                                        == old(compiled_schema).shapes@[j] by {
                                    lemma_owned_by_none_prefix(keys, sds@, i as int, sds@.len() as int, j);
                                }
                            }
                            return Err(e);
                        },
                    };
                    let ghost before = compiled_schema.shapes@;
                    let ghost t = idx.idx as int;
                    let ghost ki = LabelKey::Iri(sds@[i as int].id@);
                    proof {
                        assert(label_at(keys, ki, t));
                    }
                    let ghost se_v = se;
                    compiled_schema.replace_shape(&idx, se);
                    proof {
                        lemma_replace_step(
                            pm,
                            keys,
                            sds@,
                            i as int,
                            t,
                            old(compiled_schema).shapes@,
                            before,
                            compiled_schema.shapes@,
                            se_v,
                            refs_before,
                        );
                    }
                    i = i + 1;
                }
                Ok(())
            },
        }
    }

    /// Compiles every declaration of `schema_json` into `compiled_schema` in two passes:
    /// first every label is registered, so forward and mutual references resolve, then
    /// every expression is compiled and put in place of its placeholder.
    pub fn compile(&mut self, schema_json: &SchemaJson, compiled_schema: &mut CompiledSchema) -> (r: CResult<()>)
        ensures
            final(compiled_schema).prefixmap == old(compiled_schema).prefixmap,
            keys_of(final(compiled_schema).shapes@) == keys_of(old(compiled_schema).shapes@) + decl_keys(
                decls_of(*schema_json),
            ),
            r is Ok <==> forall|i: int|
                0 <= i < decls_of(*schema_json).len() ==> se_ok(
                    old(compiled_schema).prefixmap,
                    keys_of(final(compiled_schema).shapes@),
                    (#[trigger] decls_of(*schema_json)[i]).shape_expr,
                ),
            r is Ok ==> forall|i: int|
                0 <= i < decls_of(*schema_json).len() && last_decl_before(
                    decls_of(*schema_json),
                    i,
                    decls_of(*schema_json).len() as int,
                ) ==> decl_compiled(
                    old(compiled_schema).prefixmap,
                    final(compiled_schema).shapes@,
                    #[trigger] decls_of(*schema_json)[i],
                ),
            all_refs_ok(old(compiled_schema).shapes@) ==> all_refs_ok(final(compiled_schema).shapes@),
            forall|j: int|
                0 <= j < old(compiled_schema).shapes@.len() ==> #[trigger] final(compiled_schema).shapes@[j] == old(
                    compiled_schema,
                ).shapes@[j],
            r matches Err(e) ==> exists|i: int|
                0 <= i < decls_of(*schema_json).len() && (forall|j: int|
                    0 <= j < i ==> se_ok(
                        old(compiled_schema).prefixmap,
                        keys_of(final(compiled_schema).shapes@),
                        (#[trigger] decls_of(*schema_json)[j]).shape_expr,
                    )) && se_error(
                    old(compiled_schema).prefixmap,
                    keys_of(final(compiled_schema).shapes@),
                    (#[trigger] decls_of(*schema_json)[i]).shape_expr,
                    e,
                ),
    {
        let ghost k0 = keys_of(compiled_schema.shapes@);
        match self.collect_shape_labels(schema_json, compiled_schema) {
            Ok(()) => {},
            Err(e) => return Err(e),
        }
        let ghost keys = keys_of(compiled_schema.shapes@);
        let ghost mid = compiled_schema.shapes@;
        proof {
            lemma_declared_labels_found(k0, *schema_json, keys);
            let decls = decls_of(*schema_json);
            assert forall|j: int| 0 <= j < k0.len() implies owned_by_none(keys, decls, decls.len() as int, j) by {
                reveal(owned_by_none);
                assert forall|i: int| 0 <= i < decls.len() implies index_of(
                    keys,
                    LabelKey::Iri((#[trigger] decls[i]).id@),
                ) != Some(j) by {
                    let k = LabelKey::Iri(decls[i].id@);
                    assert(keys[k0.len() + i] == decl_keys(decls)[i]);
                    let t = index_of(keys, k)->0;
                    assert(label_at(keys, k, t));
                }
            }
        }
        let r = self.collect_shape_exprs(schema_json, compiled_schema);
        proof {
            let decls = decls_of(*schema_json);
            assert(k0.len() == old(compiled_schema).shapes@.len());
            assert(mid.len() == keys.len());
            assert(keys.len() == k0.len() + decl_keys(decls).len());
            assert forall|j: int| 0 <= j < k0.len() implies #[trigger] compiled_schema.shapes@[j] == old(
                compiled_schema,
            ).shapes@[j] by {
                assert(mid.take(k0.len() as int)[j] == mid[j]);
                assert(owned_by_none(keys, decls, decls.len() as int, j));
            }
            assert forall|i: int| 0 <= i < decls.len() implies decl_ok(
                compiled_schema.prefixmap,
                keys,
                #[trigger] decls[i],
            ) == se_ok(compiled_schema.prefixmap, keys, decls[i].shape_expr) by {
                assert(index_of(keys, LabelKey::Iri(decls[i].id@)) is Some);
            }
            if r is Err {
                let e = r->Err_0;
                let i = choose|i: int|
                    0 <= i < decls.len() && (forall|j: int| 0 <= j < i ==> decl_ok(compiled_schema.prefixmap, keys, #[trigger] decls[j]))
                        && decl_error(compiled_schema.prefixmap, keys, #[trigger] decls[i], e);
                assert(index_of(keys, LabelKey::Iri(decls[i].id@)) is Some);
                assert(se_error(compiled_schema.prefixmap, keys, decls[i].shape_expr, e));
                assert forall|j: int| 0 <= j < i implies se_ok(compiled_schema.prefixmap, keys, (#[trigger] decls[j]).shape_expr) by {
                    assert(decl_ok(compiled_schema.prefixmap, keys, decls[j]));
                }
            }
        }
        r
    }
}

impl CompiledSchema {
    /// Compiles `schema_json` into this schema; see [`SchemaJsonCompiler::compile`].
    pub fn from_schema_json(&mut self, schema_json: &SchemaJson) -> (r: CResult<()>)
        ensures
            final(self).prefixmap == old(self).prefixmap,
            keys_of(final(self).shapes@) == keys_of(old(self).shapes@) + decl_keys(decls_of(*schema_json)),
            r is Ok <==> forall|i: int|
                0 <= i < decls_of(*schema_json).len() ==> se_ok(
                    old(self).prefixmap,
                    keys_of(final(self).shapes@),
                    (#[trigger] decls_of(*schema_json)[i]).shape_expr,
                ),
            r is Ok ==> forall|i: int|
                0 <= i < decls_of(*schema_json).len() && last_decl_before(
                    decls_of(*schema_json),
                    i,
                    decls_of(*schema_json).len() as int,
                ) ==> decl_compiled(old(self).prefixmap, final(self).shapes@, #[trigger] decls_of(*schema_json)[i]),
            all_refs_ok(old(self).shapes@) ==> all_refs_ok(final(self).shapes@),
            forall|j: int| 0 <= j < old(self).shapes@.len() ==> #[trigger] final(self).shapes@[j] == old(self).shapes@[j],
            r matches Err(e) ==> exists|i: int|
                0 <= i < decls_of(*schema_json).len() && (forall|j: int|
                    0 <= j < i ==> se_ok(
                        old(self).prefixmap,
                        keys_of(final(self).shapes@),
                        (#[trigger] decls_of(*schema_json)[j]).shape_expr,
                    )) && se_error(
                    old(self).prefixmap,
                    keys_of(final(self).shapes@),
                    (#[trigger] decls_of(*schema_json)[i]).shape_expr,
                    e,
                ),
    {
        let mut compiler = SchemaJsonCompiler::new();
        compiler.compile(schema_json, self)
    }
}

/// One step of the second pass: putting the compiled expression of declaration `i` at
/// its index `t` keeps what holds of the declarations before it.
proof fn lemma_replace_step(
    pm: PrefixMap,
    keys: Seq<LabelKey>,
    sds: Seq<ShapeDecl>,
    i: int,
    t: int,
    first: Seq<(ShapeLabel, ShapeExpr)>,
    before: Seq<(ShapeLabel, ShapeExpr)>,
    after: Seq<(ShapeLabel, ShapeExpr)>,
    se: ShapeExpr,
    refs_before: bool,
)
    requires
        0 <= i < sds.len(),
        keys == keys_of(before),
        before.len() == first.len(),
        label_at(keys, LabelKey::Iri(sds[i].id@), t),
        index_of(keys, LabelKey::Iri(sds[i].id@)) == Some(t),
        after == before.update(t, (before[t].0, se)),
        lowered(pm, keys, sds[i].shape_expr, se),
        refs_ok(se, before.len() as nat),
        refs_before ==> all_refs_ok(before),
        forall|j: int|
            0 <= j < first.len() && owned_by_none(keys, sds, i, j) ==> #[trigger] before[j] == first[j],
        forall|j: int| 0 <= j < i && last_decl_before(sds, j, i) ==> decl_compiled(pm, before, #[trigger] sds[j]),
        forall|j: int| 0 <= j < i ==> decl_ok(pm, keys, #[trigger] sds[j]),
    ensures
        keys_of(after) == keys,
        after.len() == first.len(),
        refs_before ==> all_refs_ok(after),
        forall|j: int|
            0 <= j < first.len() && owned_by_none(keys, sds, i + 1, j) ==> #[trigger] after[j] == first[j],
        forall|j: int| 0 <= j < i + 1 && last_decl_before(sds, j, i + 1) ==> decl_compiled(pm, after, #[trigger] sds[j]),
{
    assert(keys_of(after) =~= keys_of(before));
    assert forall|j: int| 0 <= j < i + 1 && last_decl_before(sds, j, i + 1) implies decl_compiled(
        pm,
        after,
        #[trigger] sds[j],
    ) by {
        if j < i {
            assert(sds[i].id@ != sds[j].id@);
            let kj = LabelKey::Iri(sds[j].id@);
            let tj = index_of(keys, kj)->0;
            assert(label_at(keys, kj, tj));
            assert(tj != t);
            assert(after[tj] == before[tj]);
            assert(last_decl_before(sds, j, i));
        }
    }
    assert forall|j: int| 0 <= j < first.len() && owned_by_none(keys, sds, i + 1, j) implies #[trigger] after[j]
        == first[j] by {
        reveal(owned_by_none);
        assert(index_of(keys, LabelKey::Iri(sds[i].id@)) != Some(j));
        lemma_owned_by_none_prefix(keys, sds, i, i + 1, j);
        assert(after[j] == before[j]);
    }
    if refs_before {
        assert forall|k: int| 0 <= k < after.len() implies refs_ok(#[trigger] after[k].1, after.len() as nat) by {
            if k != t {
                assert(after[k] == before[k]);
            }
        }
    }
}

/// A triple constraint with cardinality `(0, unbounded)` and no value expression compiles
/// to a pattern that, with the components it was compiled into, matches a bag of any
/// number of items of its predicate, none included.
pub proof fn lemma_compiled_star_constraint_matches_any_count(
    pm: PrefixMap,
    keys: Seq<LabelKey>,
    te: TripleExpr,
    t: RbeTable,
    lo: int,
    hi: int,
    items: Items,
)
    requires
        te matches TripleExpr::TripleConstraint { value_expr: None, min: Some(0), max: Some(-1), .. },
        lowered_te(pm, keys, te, t.rbe, t.components@, lo, hi),
        forall|i: int| 0 <= i < items.len() ==> (#[trigger] items[i]).0@ == te->predicate@,
    ensures
        bag_matches(t, items),
{
    let c = t.rbe->Symbol_value;
    let cs = t.components@[c as int].1.conds@;
    assert(cs == seq![SingleCond::Any]);
    assert(cs.drop_last() =~= Seq::<SingleCond>::empty());
    assert forall|i: int| 0 <= i < items.len() implies conds_result(t.components@[c as int].1.conds@, (#[trigger] items[i]).1)
        is Ok by {
        assert(conds_result(cs.drop_last(), items[i].1) is Ok);
    }
    lemma_star_constraint_matches_any_count(t, c, items);
}

/// A triple constraint whose minimum is above zero compiles to a pattern that, with the
/// components it was compiled into, rejects every bag without an item of its predicate,
/// the empty bag included.
pub proof fn lemma_compiled_required_constraint_rejects_absence(
    pm: PrefixMap,
    keys: Seq<LabelKey>,
    te: TripleExpr,
    t: RbeTable,
    lo: int,
    hi: int,
    items: Items,
)
    requires
        te matches TripleExpr::TripleConstraint { min, .. } && (min is None || min->0 > 0),
        lowered_te(pm, keys, te, t.rbe, t.components@, lo, hi),
        forall|i: int| 0 <= i < items.len() ==> (#[trigger] items[i]).0@ != te->predicate@,
    ensures
        !bag_matches(t, items),
{
    lemma_required_constraint_rejects_absence(t, items);
}

/// A reference below `n` is also below any `m >= n`.
proof fn lemma_refs_ok_grow(se: ShapeExpr, n: nat, m: nat)
    requires
        refs_ok(se, n),
        n <= m,
    ensures
        refs_ok(se, m),
    decreases se,
{
    match se {
        ShapeExpr::ShapeOr { exprs } => {
            assert forall|i: int| 0 <= i < exprs@.len() implies refs_ok(#[trigger] exprs@[i], m) by {
                lemma_refs_ok_grow(exprs@[i], n, m);
            }
        },
        ShapeExpr::ShapeAnd { exprs } => {
            assert forall|i: int| 0 <= i < exprs@.len() implies refs_ok(#[trigger] exprs@[i], m) by {
                lemma_refs_ok_grow(exprs@[i], n, m);
            }
        },
        ShapeExpr::ShapeNot { expr } => {
            lemma_refs_ok_grow(*expr, n, m);
        },
        ShapeExpr::NodeConstraint { cond, .. } => {
            assert(forall|i: int| 0 <= i < cond.conds@.len() ==> (#[trigger] cond.conds@[i] matches SingleCond::Ref(idx) ==> idx.idx < m));
        },
        ShapeExpr::Shape { rbe_table, .. } => {
            assert forall|c: int| 0 <= c < rbe_table.components@.len() implies cond_refs_ok(
                #[trigger] rbe_table.components@[c].1,
                m,
            ) by {
                let cond = rbe_table.components@[c].1;
                assert(cond_refs_ok(cond, n));
                assert(forall|i: int| 0 <= i < cond.conds@.len() ==> (#[trigger] cond.conds@[i] matches SingleCond::Ref(idx) ==> idx.idx < m));
            }
        },
        _ => {},
    }
}

} // verus!
