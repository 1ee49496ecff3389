use vstd::prelude::*;
use crate::compiled_schema::ShapeExpr;
use crate::compiled_schema_error::CompiledSchemaError;
use crate::match_cond::{conds_result, Pending};
use crate::shape_label::ShapeLabelIdx;
use crate::rbe::accepts;
use crate::rbe_table::{assignment_pending, bag_matches, has_candidate, valid_from, RbeError, RbeTable};
use crate::rdf::Node;
use crate::text::{copy_string, str_eq};

verus! {

/// Why a node does not conform to a shape expression.
#[derive(PartialEq, Eq, Debug)]
pub enum ValidatorError {
    /// The node's neighbourhood does not match the shape's components.
    RbeError { error: RbeError },
    /// The shape is closed, but the node has predicates that the shape neither declares
    /// nor allows as extra.
    ClosedShapeWithRemainderPreds { remainder: Vec<String>, declared: Vec<String> },
    /// A node constraint failed.
    CompiledSchemaError { error: CompiledSchemaError },
    /// Some members of a conjunction failed; one error for each of them, in order.
    ShapeAndError { errors: ValidatorErrors },
    /// Every member of a disjunction failed; one error for each of them, in order.
    ShapeOrError { errors: ValidatorErrors },
    /// The negated expression holds.
    ShapeNotError,
}

/// A list of errors.
#[derive(PartialEq, Eq, Debug)]
pub struct ValidatorErrors {
    pub errs: Vec<ValidatorError>,
}

impl ValidatorErrors {
    pub fn new(errs: Vec<ValidatorError>) -> (r: ValidatorErrors)
        ensures
            r.errs == errs,
    {
        ValidatorErrors { errs }
    }
}

/// The items of the neighbourhood whose predicate some component claims, in order.
pub open spec fn claimed_items(comps: Seq<(String, crate::match_cond::MatchCond)>, neighs: Seq<(String, Node)>) -> Seq<
    (String, Node),
>
    decreases neighs.len(),
{
    if neighs.len() == 0 {
        Seq::empty()
    } else {
        let rest = claimed_items(comps, neighs.drop_last());
        if has_candidate(comps, neighs.last()) {
            rest.push(neighs.last())
        } else {
            rest
        }
    }
}

/// `p` is one of the predicates allowed as extra.
pub open spec fn in_extra(extra: Seq<String>, p: Seq<char>) -> bool {
    exists|i: int| 0 <= i < extra.len() && #[trigger] extra[i]@ == p
}

/// `p` is the predicate of an item that no component claims and that is not extra.
pub open spec fn is_remainder(
    comps: Seq<(String, crate::match_cond::MatchCond)>,
    extra: Seq<String>,
    neighs: Seq<(String, Node)>,
    p: Seq<char>,
) -> bool {
    exists|i: int|
        0 <= i < neighs.len() && !has_candidate(comps, #[trigger] neighs[i]) && !in_extra(extra, neighs[i].0@)
            && neighs[i].0@ == p
}

/// `remainder` lists each remainder predicate once.
pub open spec fn remainder_listed(
    comps: Seq<(String, crate::match_cond::MatchCond)>,
    extra: Seq<String>,
    neighs: Seq<(String, Node)>,
    remainder: Seq<String>,
) -> bool {
    &&& forall|p: Seq<char>|
        is_remainder(comps, extra, neighs, p) <==> exists|k: int| 0 <= k < remainder.len() && #[trigger] remainder[k]@ == p
    &&& forall|k1: int, k2: int| 0 <= k1 < k2 < remainder.len() ==> remainder[k1]@ != remainder[k2]@
}

/// The neighbourhood conforms to the shape: its claimed items match the table, and, if the
/// shape is closed, every other item has an extra predicate.
pub open spec fn shape_conforms(closed: bool, extra: Seq<String>, t: RbeTable, neighs: Seq<(String, Node)>) -> bool {
    &&& bag_matches(t, claimed_items(t.components@, neighs))
    &&& closed ==> forall|p: Seq<char>| !#[trigger] is_remainder(t.components@, extra, neighs, p)
}

/// The node, with its neighbourhood, satisfies the expression locally; references to other
/// shapes are left as obligations and hold here.
pub open spec fn conforms(se: ShapeExpr, node: Node, neighs: Seq<(String, Node)>) -> bool
    decreases se,
{
    match se {
        ShapeExpr::ShapeOr { exprs } => exists|i: int| 0 <= i < exprs@.len() && conforms(#[trigger] exprs@[i], node, neighs),
        ShapeExpr::ShapeAnd { exprs } => forall|i: int| 0 <= i < exprs@.len() ==> conforms(#[trigger] exprs@[i], node, neighs),
        ShapeExpr::ShapeNot { expr } => !conforms(*expr, node, neighs),
        ShapeExpr::NodeConstraint { cond, .. } => conds_result(cond.conds@, node) is Ok,
        ShapeExpr::Shape { closed, extra, rbe_table } => shape_conforms(closed, extra@, rbe_table, neighs),
        ShapeExpr::Ref { .. } => true,
        ShapeExpr::Empty => true,
    }
}

/// `p` is what a successful local check of the node against `se` leaves as obligations:
/// those of the first member that holds for a disjunction, those of every member in order
/// for a conjunction, those of one fitting way of giving the neighbourhood to the
/// components for a shape, and the reference itself for a reference.
pub open spec fn pending_ok(se: ShapeExpr, node: Node, neighs: Seq<(String, Node)>, p: Seq<(Node, ShapeLabelIdx)>) -> bool
    decreases se,
{
    match se {
        ShapeExpr::ShapeOr { exprs } => exists|i: int|
            0 <= i < exprs@.len() && (forall|j: int| 0 <= j < i ==> !conforms(#[trigger] exprs@[j], node, neighs))
                && pending_ok(#[trigger] exprs@[i], node, neighs, p),
        ShapeExpr::ShapeAnd { exprs } => exists|ps: Seq<Seq<(Node, ShapeLabelIdx)>>|
            ps.len() == exprs@.len() && p == #[trigger] ps.flatten() && forall|i: int|
                0 <= i < exprs@.len() ==> pending_ok(#[trigger] exprs@[i], node, neighs, ps[i]),
        ShapeExpr::ShapeNot { .. } => p.len() == 0,
        ShapeExpr::NodeConstraint { cond, .. } => conds_result(cond.conds@, node) == Ok::<_, crate::compiled_schema_error::CompiledSchemaError>(p),
        ShapeExpr::Shape { rbe_table, .. } => exists|a: Seq<usize>|
            valid_from(rbe_table.components@, claimed_items(rbe_table.components@, neighs), 0, a) && accepts(
                rbe_table.rbe@,
                a,
            ) && p == assignment_pending(rbe_table.components@, claimed_items(rbe_table.components@, neighs), a),
        ShapeExpr::Ref { idx } => p == seq![(node, idx)],
        ShapeExpr::Empty => p.len() == 0,
    }
}

/// `fs` lists, in increasing order, exactly the members among the first `n` of `es`
/// that the node does not satisfy.
pub open spec fn failing_upto(fs: Seq<int>, es: Seq<ShapeExpr>, node: Node, neighs: Seq<(String, Node)>, n: int) -> bool {
    &&& forall|k: int| 0 <= k < fs.len() ==> 0 <= #[trigger] fs[k] < n && !conforms(es[fs[k]], node, neighs)
    &&& forall|k1: int, k2: int| 0 <= k1 < k2 < fs.len() ==> #[trigger] fs[k1] < #[trigger] fs[k2]
    &&& forall|j: int| 0 <= j < n && !conforms(#[trigger] es[j], node, neighs) ==> exists|k: int| 0 <= k < fs.len() && fs[k] == j
}

/// `e` is an error that matching the neighbourhood against a shape reports.
pub open spec fn shape_error(closed: bool, extra: Seq<String>, t: RbeTable, neighs: Seq<(String, Node)>, e: ValidatorError) -> bool {
    match e {
        ValidatorError::RbeError { .. } => !bag_matches(t, claimed_items(t.components@, neighs)),
        ValidatorError::ClosedShapeWithRemainderPreds { remainder, declared } => {
            &&& closed
            &&& bag_matches(t, claimed_items(t.components@, neighs))
            &&& remainder_listed(t.components@, extra, neighs, remainder@)
            &&& declared@.len() == t.components@.len()
            &&& forall|c: int| 0 <= c < declared@.len() ==> #[trigger] declared@[c]@ == t.components@[c].0@
        },
        _ => false,
    }
}

/// `e` is the error that checking the node against `se` reports: for a disjunction, the
/// error of every member in order; for a conjunction, the error of every failing member
/// in order; the condition's failure for a node constraint; the matching failure for a
/// shape.
pub open spec fn error_ok(se: ShapeExpr, node: Node, neighs: Seq<(String, Node)>, e: ValidatorError) -> bool
    decreases se,
{
    match se {
        ShapeExpr::ShapeOr { exprs } => e matches ValidatorError::ShapeOrError { errors } && errors.errs@.len()
            == exprs@.len() && forall|i: int|
            0 <= i < exprs@.len() ==> error_ok(#[trigger] exprs@[i], node, neighs, errors.errs@[i]),
        ShapeExpr::ShapeAnd { exprs } => e matches ValidatorError::ShapeAndError { errors } && exists|fs: Seq<int>|
            #[trigger] failing_upto(fs, exprs@, node, neighs, exprs@.len() as int) && fs.len() == errors.errs@.len()
                && forall|k: int|
                0 <= k < fs.len() ==> 0 <= fs[k] < exprs@.len() && error_ok(
                    exprs@[#[trigger] fs[k]],
                    node,
                    neighs,
                    errors.errs@[k],
                ),
        ShapeExpr::ShapeNot { .. } => e is ShapeNotError,
        ShapeExpr::NodeConstraint { cond, .. } => conds_result(cond.conds@, node) is Err && e == (
        ValidatorError::CompiledSchemaError { error: conds_result(cond.conds@, node)->Err_0 }),
        ShapeExpr::Shape { closed, extra, rbe_table } => shape_error(closed, extra@, rbe_table, neighs, e),
        ShapeExpr::Ref { .. } => false,
        ShapeExpr::Empty => false,
    }
}


/// The predicate of every component, in order.
fn declared_preds(table: &RbeTable) -> (r: Vec<String>)
    ensures
        r@.len() == table.components@.len(),
        forall|c: int| 0 <= c < r@.len() ==> #[trigger] r@[c]@ == table.components@[c].0@,
{
    let mut declared: Vec<String> = Vec::new();
    let mut c: usize = 0;
    while c < table.components.len()
        invariant
            c <= table.components@.len(),
            declared@.len() == c,
            forall|d: int| 0 <= d < c ==> #[trigger] declared@[d]@ == table.components@[d].0@,
        decreases table.components.len() - c,
    {
        declared.push(copy_string(&table.components[c].0));
        c = c + 1;
    }
    declared
}

fn is_extra(extra: &Vec<String>, p: &String) -> (r: bool)
    ensures
        r == in_extra(extra@, p@),
{
    let mut i: usize = 0;
    while i < extra.len()
        invariant
            forall|j: int| 0 <= j < i ==> #[trigger] extra@[j]@ != p@,
        decreases extra.len() - i,
    {
        if str_eq(extra[i].as_str(), p.as_str()) {
            return true;
        }
        i = i + 1;
    }
    false
}

/// Matches the neighbourhood of a node against a shape: the items whose predicate the
/// table claims must match the table; then, for a closed shape, any other item must have a
/// predicate allowed as extra.
pub fn match_shape(closed: bool, extra: &Vec<String>, table: &RbeTable, neighs: &Vec<(String, Node)>) -> (r: Result<
    Pending,
    ValidatorError,
>)
    ensures
        r is Ok <==> shape_conforms(closed, extra@, *table, neighs@),
        r matches Ok(p) ==> exists|a: Seq<usize>|
            valid_from(table.components@, claimed_items(table.components@, neighs@), 0, a) && accepts(table.rbe@, a)
                && p.pairs@ == assignment_pending(table.components@, claimed_items(table.components@, neighs@), a),
        r matches Err(ValidatorError::RbeError { .. }) ==> !bag_matches(
            *table,
            claimed_items(table.components@, neighs@),
        ),
        r matches Err(ValidatorError::ClosedShapeWithRemainderPreds { remainder, declared }) ==> {
            &&& closed
            &&& bag_matches(*table, claimed_items(table.components@, neighs@))
            &&& remainder_listed(table.components@, extra@, neighs@, remainder@)
            &&& declared@.len() == table.components@.len()
            &&& forall|c: int| 0 <= c < declared@.len() ==> #[trigger] declared@[c]@ == table.components@[c].0@
        },
        r is Err ==> r->Err_0 is RbeError || r->Err_0 is ClosedShapeWithRemainderPreds,
        r matches Err(e) ==> shape_error(closed, extra@, *table, neighs@, e),
{
    let ghost comps = table.components@;
    let mut bag: Vec<(String, Node)> = Vec::new();
    let mut rest: Vec<String> = Vec::new();
    let mut i: usize = 0;
    while i < neighs.len()
        invariant
            comps == table.components@,
            0 <= i <= neighs@.len(),
            bag@ == claimed_items(comps, neighs@.take(i as int)),
            forall|p: Seq<char>|
                is_remainder(comps, extra@, neighs@.take(i as int), p) <==> exists|k: int|
                    0 <= k < rest@.len() && #[trigger] rest@[k]@ == p,
            forall|k1: int, k2: int| 0 <= k1 < k2 < rest@.len() ==> rest@[k1]@ != rest@[k2]@,
        decreases neighs.len() - i,
    {
        let ghost prev = neighs@.take(i as int);
        let ghost next = neighs@.take(i + 1);
        assert(next.drop_last() == prev);
        assert(next.last() == neighs@[i as int]);
        let pred = &neighs[i].0;
        let claimed = table.claims(pred);
        proof {
            if claimed {
                let c = choose|c: int| 0 <= c < comps.len() && #[trigger] comps[c].0@ == pred@;
                assert(has_candidate(comps, neighs@[i as int]));
            } else {
                assert(!has_candidate(comps, neighs@[i as int]));
            }
        }
        if claimed {
            bag.push((copy_string(pred), neighs[i].1.copy()));
            proof {
                assert forall|p: Seq<char>| is_remainder(comps, extra@, next, p) implies is_remainder(
                    comps,
                    extra@,
                    prev,
                    p,
                ) by {
                    let j = choose|j: int|
                        0 <= j < next.len() && !has_candidate(comps, #[trigger] next[j]) && !in_extra(
                            extra@,
                            next[j].0@,
                        ) && next[j].0@ == p;
                    assert(prev[j] == next[j]);
                }
                assert forall|p: Seq<char>| is_remainder(comps, extra@, prev, p) implies is_remainder(
                    comps,
                    extra@,
                    next,
                    p,
                ) by {
                    let j = choose|j: int|
                        0 <= j < prev.len() && !has_candidate(comps, #[trigger] prev[j]) && !in_extra(
                            extra@,
                            prev[j].0@,
                        ) && prev[j].0@ == p;
                    assert(prev[j] == next[j]);
                }
            }
        } else {
            let extra_pred = is_extra(extra, pred);
            let mut seen = false;
            let mut k: usize = 0;
            while k < rest.len()
                invariant
                    seen <==> exists|m: int| 0 <= m < k && #[trigger] rest@[m]@ == pred@,
                    k <= rest@.len(),
                decreases rest.len() - k,
            {
                if !seen && str_eq(rest[k].as_str(), pred.as_str()) {
                    seen = true;
                }
                k = k + 1;
            }
            let ghost old_rest = rest@;
            if !extra_pred && !seen {
                rest.push(copy_string(pred));
            }
            proof {
                assert forall|p: Seq<char>| is_remainder(comps, extra@, next, p) implies exists|m: int|
                    0 <= m < rest@.len() && #[trigger] rest@[m]@ == p by {
                    let j = choose|j: int|
                        0 <= j < next.len() && !has_candidate(comps, #[trigger] next[j]) && !in_extra(
                            extra@,
                            next[j].0@,
                        ) && next[j].0@ == p;
                    if j < i {
                        assert(prev[j] == next[j]);
                        assert(is_remainder(comps, extra@, prev, p));
                        let m = choose|m: int| 0 <= m < old_rest.len() && #[trigger] old_rest[m]@ == p;
                        assert(rest@[m] == old_rest[m]);
                    } else if seen {
                        let m = choose|m: int| 0 <= m < old_rest.len() && #[trigger] old_rest[m]@ == pred@;
                        assert(rest@[m] == old_rest[m]);
                    } else {
                        assert(rest@[old_rest.len() as int]@ == p);
                    }
                }
                assert forall|p: Seq<char>| (exists|m: int| 0 <= m < rest@.len() && #[trigger] rest@[m]@ == p) implies is_remainder(
                    comps,
                    extra@,
                    next,
                    p,
                ) by {
                    let m = choose|m: int| 0 <= m < rest@.len() && #[trigger] rest@[m]@ == p;
                    if m < old_rest.len() {
                        assert(rest@[m] == old_rest[m]);
                        assert(is_remainder(comps, extra@, prev, p));
                        let j = choose|j: int|
                            0 <= j < prev.len() && !has_candidate(comps, #[trigger] prev[j]) && !in_extra(
                                extra@,
                                prev[j].0@,
                            ) && prev[j].0@ == p;
                        assert(prev[j] == next[j]);
                    } else {
                        assert(next[i as int].0@ == p);
                    }
                }
            }
        }
        i = i + 1;
    }
    assert(neighs@.take(i as int) == neighs@);
    match table.matches(&bag) {
        Err(e) => Err(ValidatorError::RbeError { error: e }),
        Ok(p) => {
            if closed && rest.len() > 0 {
                assert(is_remainder(comps, extra@, neighs@, rest@[0]@));
                let declared = declared_preds(table);
                assert(bag_matches(*table, claimed_items(table.components@, neighs@)));
                assert(remainder_listed(table.components@, extra@, neighs@, rest@));
                Err(ValidatorError::ClosedShapeWithRemainderPreds { remainder: rest, declared })
            } else {
                proof {
                    if closed {
                        assert forall|p: Seq<char>| !#[trigger] is_remainder(comps, extra@, neighs@, p) by {
                            if is_remainder(comps, extra@, neighs@, p) {
                                let m = choose|m: int| 0 <= m < rest@.len() && #[trigger] rest@[m]@ == p;
                            }
                        }
                    }
                }
                Ok(p)
            }
        },
    }
}

/// Checks a node, with its neighbourhood, against a shape expression. References to other
/// shapes are not followed: they succeed with the obligation `(node, index)`. A conjunction
/// reports the error of every failing member, a disjunction succeeds with the first member
/// that does and reports no error of the others.
pub fn check_shape_expr(se: &ShapeExpr, node: &Node, neighs: &Vec<(String, Node)>) -> (r: Result<Pending, ValidatorError>)
    ensures
        r is Ok <==> conforms(*se, *node, neighs@),
        r matches Ok(p) ==> pending_ok(*se, *node, neighs@, p.pairs@),
        se is NodeConstraint ==> match conds_result(se->NodeConstraint_cond.conds@, *node) {
            Ok(ps) => r matches Ok(p) && p.pairs@ == ps,
            Err(e) => r == Err::<Pending, _>(ValidatorError::CompiledSchemaError { error: e }),
        },
        r matches Err(e) ==> error_ok(*se, *node, neighs@, e),
        se is ShapeNot && r is Err ==> r->Err_0 is ShapeNotError,
    decreases se,
{
    match se {
        ShapeExpr::Ref { idx } => Ok(Pending::from_pair(node.copy(), *idx)),
        ShapeExpr::ShapeAnd { exprs } => {
            let mut errs: Vec<ValidatorError> = Vec::new();
            let mut acc = Pending::new();
            let ghost mut ps: Seq<Seq<(Node, ShapeLabelIdx)>> = Seq::empty();
            let ghost mut fs: Seq<int> = Seq::empty();
            let mut i: usize = 0;
            while i < exprs.len()
                invariant
                    (*se matches ShapeExpr::ShapeAnd { exprs: e } && e == *exprs),
                    0 <= i <= exprs@.len(),
                    ps.len() == i,
                    acc.pairs@ == ps.flatten(),
                    forall|j: int| 0 <= j < i && conforms(exprs@[j], *node, neighs@) ==> pending_ok(#[trigger] exprs@[j], *node, neighs@, ps[j]),
                    failing_upto(fs, exprs@, *node, neighs@, i as int),
                    errs@.len() == fs.len(),
                    forall|k: int|
                        0 <= k < fs.len() ==> 0 <= fs[k] < exprs@.len() && error_ok(
                            exprs@[#[trigger] fs[k]],
                            *node,
                            neighs@,
                            errs@[k],
                        ),
                decreases exprs.len() - i,
            {
                match check_shape_expr(&exprs[i], node, neighs) {
                    Ok(p) => {
                        proof {
                            ps.lemma_flatten_push(p.pairs@);
                            ps = ps.push(p.pairs@);
                        }
                        acc.merge(p);
                    },
                    Err(e) => {
                        proof {
                            ps.lemma_flatten_push(Seq::empty());
                            assert(ps.flatten() + Seq::<(Node, ShapeLabelIdx)>::empty() =~= ps.flatten());
                            ps = ps.push(Seq::empty());
                            let old_fs = fs;
                            fs = fs.push(i as int);
                            assert forall|j: int| 0 <= j < i + 1 && !conforms(#[trigger] exprs@[j], *node, neighs@) implies exists|k: int|
                                0 <= k < fs.len() && fs[k] == j by {
                                if j < i {
                                    let k = choose|k: int| 0 <= k < old_fs.len() && old_fs[k] == j;
                                    assert(fs[k] == old_fs[k]);
                                } else {
                                    assert(fs[old_fs.len() as int] == j);
                                }
                            }
                            assert forall|k: int| 0 <= k < fs.len() implies 0 <= #[trigger] fs[k] < i + 1 && !conforms(
                                exprs@[fs[k]],
                                *node,
                                neighs@,
                            ) by {
                                if k < old_fs.len() {
                                    assert(fs[k] == old_fs[k]);
                                }
                            }
                            assert forall|k1: int, k2: int| 0 <= k1 < k2 < fs.len() implies #[trigger] fs[k1] < #[trigger] fs[k2] by {
                                if k2 < old_fs.len() {
                                    assert(fs[k1] == old_fs[k1] && fs[k2] == old_fs[k2]);
                                } else {
                                    assert(fs[k1] == old_fs[k1]);
                                }
                            }
                        }
                        errs.push(e);
                        proof {
                            assert forall|k: int| 0 <= k < fs.len() implies 0 <= fs[k] < exprs@.len() && error_ok(
                                exprs@[#[trigger] fs[k]],
                                *node,
                                neighs@,
                                errs@[k],
                            ) by {
                                if k < fs.len() - 1 {
                                    assert(fs[k] == fs.drop_last()[k]);
                                }
                            }
                        }
                    },
                }
                i = i + 1;
            }
            if errs.len() == 0 {
                assert forall|j: int| 0 <= j < exprs@.len() implies conforms(#[trigger] exprs@[j], *node, neighs@) by {
                    if !conforms(exprs@[j], *node, neighs@) {
                        let k = choose|k: int| 0 <= k < fs.len() && fs[k] == j;
                    }
                }
                assert(pending_ok(*se, *node, neighs@, acc.pairs@));
                Ok(acc)
            } else {
                let ghost ev = errs@;
                let r = ValidatorError::ShapeAndError { errors: ValidatorErrors::new(errs) };
                proof {
                    let k = 0int;
                    assert(!conforms(exprs@[fs[k]], *node, neighs@));
                    assert(failing_upto(fs, exprs@, *node, neighs@, exprs@.len() as int));
                    assert(r->ShapeAndError_errors.errs@ == ev);
                }
                Err(r)
            }
        },
        ShapeExpr::ShapeOr { exprs } => {
            let mut errs: Vec<ValidatorError> = Vec::new();
            let mut i: usize = 0;
            while i < exprs.len()
                invariant
                    (*se matches ShapeExpr::ShapeOr { exprs: e } && e == *exprs),
                    0 <= i <= exprs@.len(),
                    errs@.len() == i,
                    forall|j: int| 0 <= j < i ==> !conforms(#[trigger] exprs@[j], *node, neighs@),
                    forall|j: int| 0 <= j < i ==> error_ok(#[trigger] exprs@[j], *node, neighs@, errs@[j]),
                decreases exprs.len() - i,
            {
                match check_shape_expr(&exprs[i], node, neighs) {
                    Ok(p) => {
                        assert(conforms(exprs@[i as int], *node, neighs@));
                        return Ok(p);
                    },
                    Err(e) => {
                        errs.push(e);
                    },
                }
                i = i + 1;
            }
            let ghost ev = errs@;
            let r = ValidatorError::ShapeOrError { errors: ValidatorErrors::new(errs) };
            assert(r->ShapeOrError_errors.errs@ == ev);
            Err(r)
        },
        ShapeExpr::ShapeNot { expr } => {
            match check_shape_expr(expr, node, neighs) {
                Ok(_) => Err(ValidatorError::ShapeNotError),
                Err(_) => Ok(Pending::new()),
            }
        },
        ShapeExpr::NodeConstraint { cond, .. } => {
            match cond.matches(node) {
                Ok(p) => Ok(p),
                Err(e) => Err(ValidatorError::CompiledSchemaError { error: e }),
            }
        },
        ShapeExpr::Shape { closed, extra, rbe_table } => match_shape(*closed, extra, rbe_table, neighs),
        ShapeExpr::Empty => Ok(Pending::new()),
    }
}

} // verus!
