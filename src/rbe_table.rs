use vstd::prelude::*;
use crate::compiled_schema_error::CompiledSchemaError;
use crate::match_cond::{conds_result, MatchCond, Pending};
use crate::cardinality::{Cardinality, Max, Min};
use crate::rbe::{
    accepts, deriv, lemma_fail_rejects, lemma_required_symbol_rejects_empty, lemma_star_symbol_accepts_any_count, Rbe,
    RbeModel,
};
use crate::rdf::Node;
use crate::shape_label::ShapeLabelIdx;
use crate::text::str_eq;

verus! {

/// The components of a shape, each a predicate with the condition its values must meet,
/// and the pattern that the multiset of matched components must fit.
#[derive(PartialEq, Eq, Debug, Clone)]
pub struct RbeTable {
    pub components: Vec<(String, MatchCond)>,
    pub rbe: Rbe,
}

/// Why a bag of `(predicate, value)` items does not match a table.
#[derive(PartialEq, Eq, Debug, Clone)]
pub enum RbeError {
    /// The item at `index` has a predicate that no component claims.
    UnexpectedItem { index: usize },
    /// The value of the item at `index` fails the condition of every component of its
    /// predicate; `error` is what the first of them reported.
    ConditionFailed { index: usize, error: CompiledSchemaError },
    /// Every item fits some component, but no way of giving the items to components fits
    /// the pattern's cardinalities.
    CardinalityFailed,
}

pub type Comps = Seq<(String, MatchCond)>;

pub type Items = Seq<(String, Node)>;

/// The component `c` can take the item: same predicate, and its condition holds.
pub open spec fn valid_choice(comps: Comps, item: (String, Node), c: usize) -> bool {
    &&& 0 <= c < comps.len()
    &&& comps[c as int].0@ == item.0@
    &&& conds_result(comps[c as int].1.conds@, item.1) is Ok
}

/// `a` gives each item from position `i` on a component that can take it.
pub open spec fn valid_from(comps: Comps, items: Items, i: int, a: Seq<usize>) -> bool {
    &&& a.len() == items.len() - i
    &&& forall|k: int| 0 <= k < a.len() ==> valid_choice(comps, items[i + k], #[trigger] a[k])
}

/// No valid way of giving the items from position `i` on to components fits `r`.
pub open spec fn no_accept_from(comps: Comps, items: Items, i: int, r: RbeModel) -> bool {
    forall|a: Seq<usize>| valid_from(comps, items, i, a) ==> !#[trigger] accepts(r, a)
}

/// The bag matches the table: some valid way of giving the items to components fits the
/// pattern.
pub open spec fn bag_matches(t: RbeTable, items: Items) -> bool {
    exists|a: Seq<usize>| valid_from(t.components@, items, 0, a) && accepts(t.rbe@, a)
}

/// The obligations that the conditions leave when the items are given to components by
/// `a`, in the order of the items.
pub open spec fn assignment_pending(comps: Comps, items: Items, a: Seq<usize>) -> Seq<(Node, ShapeLabelIdx)>
    decreases a.len(),
{
    if a.len() == 0 {
        Seq::empty()
    } else {
        let k = a.len() - 1;
        assignment_pending(comps, items, a.drop_last()) + conds_result(
            comps[a[k] as int].1.conds@,
            items[k].1,
        )->Ok_0
    }
}

/// Some component claims the predicate of `item`.
pub open spec fn has_candidate(comps: Comps, item: (String, Node)) -> bool {
    exists|c: int| 0 <= c < comps.len() && #[trigger] comps[c].0@ == item.0@
}

/// Some component can take `item`.
pub open spec fn has_valid_candidate(comps: Comps, item: (String, Node)) -> bool {
    exists|c: usize| #[trigger] valid_choice(comps, item, c)
}

/// `c` is the first component that claims the predicate of `item`.
pub open spec fn first_candidate(comps: Comps, item: (String, Node), c: int) -> bool {
    &&& 0 <= c < comps.len()
    &&& comps[c].0@ == item.0@
    &&& forall|d: int| 0 <= d < c ==> #[trigger] comps[d].0@ != item.0@
}

/// Item `i` is the first one that no component claims.
pub open spec fn unexpected_at(comps: Comps, items: Items, i: int) -> bool {
    &&& 0 <= i < items.len()
    &&& !has_candidate(comps, items[i])
    &&& forall|j: int| 0 <= j < i ==> has_candidate(comps, #[trigger] items[j])
}

/// Every item is claimed, and item `i` is the first one that no component can take.
pub open spec fn cond_failed_at(comps: Comps, items: Items, i: int) -> bool {
    &&& forall|j: int| 0 <= j < items.len() ==> has_candidate(comps, #[trigger] items[j])
    &&& 0 <= i < items.len()
    &&& !has_valid_candidate(comps, items[i])
    &&& forall|j: int| 0 <= j < i ==> has_valid_candidate(comps, #[trigger] items[j])
}

proof fn lemma_accepts_step(r: RbeModel, a: Seq<usize>)
    requires
        a.len() > 0,
    ensures
        accepts(r, a) == accepts(deriv(r, a[0]), a.drop_first()),
{
}

proof fn lemma_pending_prefix(comps: Comps, items: Items, a: Seq<usize>, k: int)
    requires
        0 <= k < a.len(),
    ensures
        assignment_pending(comps, items, a.take(k + 1)) == assignment_pending(comps, items, a.take(k))
            + conds_result(comps[a[k] as int].1.conds@, items[k].1)->Ok_0,
{
    assert(a.take(k + 1).drop_last() == a.take(k));
}

/// A constraint with cardinality `(0, unbounded)` matches a bag of any number of items
/// of its predicate whose values meet its condition, none included.
pub proof fn lemma_star_constraint_matches_any_count(t: RbeTable, c: usize, items: Items)
    requires
        c < t.components@.len(),
        t.rbe == (Rbe::Symbol { value: c, card: Cardinality { min: Min { value: 0 }, max: Max::Unbounded } }),
        forall|i: int|
            0 <= i < items.len() ==> (#[trigger] items[i]).0@ == t.components@[c as int].0@ && conds_result(
                t.components@[c as int].1.conds@,
                items[i].1,
            ) is Ok,
    ensures
        bag_matches(t, items),
{
    let a = Seq::new(items.len(), |i: int| c);
    assert forall|k: int| 0 <= k < a.len() implies valid_choice(t.components@, items[0 + k], #[trigger] a[k]) by {
        assert(items[0 + k] == items[k]);
    }
    lemma_star_symbol_accepts_any_count(t.rbe, c, items.len());
    assert(valid_from(t.components@, items, 0, a) && accepts(t.rbe@, a));
}

/// A constraint whose minimum is above zero does not match a bag without an item of its
/// predicate, the empty bag included.
pub proof fn lemma_required_constraint_rejects_absence(t: RbeTable, items: Items)
    requires
        t.rbe is Symbol,
        t.rbe->Symbol_value < t.components@.len(),
        t.rbe->Symbol_card.min.value > 0,
        forall|i: int|
            0 <= i < items.len() ==> (#[trigger] items[i]).0@ != t.components@[t.rbe->Symbol_value as int].0@,
    ensures
        !bag_matches(t, items),
{
    lemma_required_symbol_rejects_empty(t.rbe);
    assert forall|a: Seq<usize>| valid_from(t.components@, items, 0, a) implies !accepts(t.rbe@, a) by {
        if a.len() == 0 {
            assert(a =~= Seq::<usize>::empty());
        } else {
            assert(valid_choice(t.components@, items[0int + 0int], a[0]));
            assert(a[0] != t.rbe->Symbol_value);
            assert(deriv(t.rbe@, a[0]) == RbeModel::Fail);
            lemma_fail_rejects(a.drop_first());
        }
    }
}

impl RbeTable {
    pub fn new() -> (r: RbeTable)
        ensures
            r.components@.len() == 0,
            r.rbe == Rbe::Empty,
    {
        RbeTable { components: Vec::new(), rbe: Rbe::Empty }
    }

    /// Sets the pattern.
    pub fn with_rbe(&mut self, rbe: Rbe)
        ensures
            final(self).components == old(self).components,
            final(self).rbe == rbe,
    {
        self.rbe = rbe;
    }

    /// Adds a component for `pred` with its condition, and returns its number.
    pub fn add_component(&mut self, pred: String, cond: MatchCond) -> (c: usize)
        ensures
            c == old(self).components@.len(),
            final(self).components@ == old(self).components@.push((pred, cond)),
            final(self).rbe == old(self).rbe,
    {
        let c = self.components.len();
        self.components.push((pred, cond));
        c
    }

    /// The first component that claims `pred`, if any.
    fn first_candidate_of(&self, item: &(String, Node)) -> (r: Option<usize>)
        ensures
            r matches Some(c) ==> first_candidate(self.components@, *item, c as int),
            r is None <==> !has_candidate(self.components@, *item),
    {
        let mut c: usize = 0;
        while c < self.components.len()
            invariant
                forall|d: int| 0 <= d < c ==> #[trigger] self.components@[d].0@ != item.0@,
            decreases self.components.len() - c,
        {
            if str_eq(self.components[c].0.as_str(), item.0.as_str()) {
                return Some(c);
            }
            c = c + 1;
        }
        None
    }

    /// Whether the component `c` can take `item`.
    fn can_take(&self, item: &(String, Node), c: usize) -> (r: bool)
        requires
            c < self.components@.len(),
        ensures
            r == valid_choice(self.components@, *item, c),
    {
        if !str_eq(self.components[c].0.as_str(), item.0.as_str()) {
            return false;
        }
        match self.components[c].1.matches(&item.1) {
            Ok(_) => true,
            Err(_) => false,
        }
    }

    /// Searches for a valid way of giving the items from position `i` on to components
    /// that fits `r`, trying every component that can take each item.
    fn search(&self, items: &Vec<(String, Node)>, i: usize, r: &Rbe) -> (res: Option<Vec<usize>>)
        requires
            i <= items@.len(),
        ensures
            res matches Some(a) ==> valid_from(self.components@, items@, i as int, a@) && accepts(
                r@,
                a@,
            ),
            res is None ==> no_accept_from(self.components@, items@, i as int, r@),
        decreases items@.len() - i,
    {
        if i == items.len() {
            if r.nullable() {
                let a: Vec<usize> = Vec::new();
                return Some(a);
            } else {
                assert forall|a: Seq<usize>| valid_from(self.components@, items@, i as int, a) implies !#[trigger] accepts(
                    r@,
                    a,
                ) by {
                    assert(a.len() == 0);
                }
                return None;
            }
        }
        let next = i + 1;
        let mut c: usize = 0;
        while c < self.components.len()
            invariant
                i < items@.len(),
                next == i + 1,
                forall|d: usize|
                    d < c && valid_choice(self.components@, items@[i as int], d) ==> #[trigger] no_accept_from(
                        self.components@,
                        items@,
                        i + 1,
                        deriv(r@, d),
                    ),
            decreases self.components.len() - c,
        {
            if self.can_take(&items[i], c) {
                let d = r.deriv(c);
                match self.search(items, next, &d) {
                    Some(rest) => {
                        let mut a: Vec<usize> = Vec::new();
                        a.push(c);
                        let mut rest = rest;
                        let ghost rest_v = rest@;
                        a.append(&mut rest);
                        proof {
                            assert(a@.drop_first() == rest_v);
                            assert forall|k: int| 0 <= k < a@.len() implies valid_choice(
                                self.components@,
                                items@[i + k],
                                #[trigger] a@[k],
                            ) by {
                                if k > 0 {
                                    assert(a@[k] == rest_v[k - 1]);
                                    assert(valid_choice(self.components@, items@[(i + 1) + (k - 1)], rest_v[k - 1]));
                                }
                            }
                            lemma_accepts_step(r@, a@);
                        }
                        return Some(a);
                    },
                    None => {},
                }
            }
            c = c + 1;
        }
        assert forall|a: Seq<usize>| valid_from(self.components@, items@, i as int, a) implies !#[trigger] accepts(
            r@,
            a,
        ) by {
            let d = a[0];
            assert(valid_choice(self.components@, items@[i + 0], a[0]));
            assert(no_accept_from(self.components@, items@, i + 1, deriv(r@, d)));
            let rest = a.drop_first();
            assert forall|k: int| 0 <= k < rest.len() implies valid_choice(
                self.components@,
                items@[(i + 1) + k],
                #[trigger] rest[k],
            ) by {
                assert(rest[k] == a[k + 1]);
                assert(valid_choice(self.components@, items@[i + (k + 1)], a[k + 1]));
            }
            assert(valid_from(self.components@, items@, i + 1, rest));
            lemma_accepts_step(r@, a);
        }
        None
    }

    /// Matches a bag of `(predicate, value)` items against the table. On success, returns the
    /// obligations that the conditions left for one valid way of giving the items to
    /// components that fits the pattern. Every component that can take an item is tried
    /// before the bag is rejected.
    pub fn matches(&self, items: &Vec<(String, Node)>) -> (r: Result<Pending, RbeError>)
        ensures
            r is Ok <==> bag_matches(*self, items@),
            r matches Ok(p) ==> exists|a: Seq<usize>|
                valid_from(self.components@, items@, 0, a) && accepts(self.rbe@, a) && p.pairs@
                    == assignment_pending(self.components@, items@, a),
            r matches Err(RbeError::UnexpectedItem { index }) ==> unexpected_at(
                self.components@,
                items@,
                index as int,
            ),
            r matches Err(RbeError::ConditionFailed { index, error }) ==> cond_failed_at(
                self.components@,
                items@,
                index as int,
            ) && exists|c: int|
                first_candidate(self.components@, items@[index as int], c) && conds_result(
                    self.components@[c].1.conds@,
                    items@[index as int].1,
                ) == Err::<Seq<(Node, ShapeLabelIdx)>, _>(error),
            r matches Err(RbeError::CardinalityFailed) ==> (forall|j: int|
                0 <= j < items@.len() ==> has_valid_candidate(self.components@, #[trigger] items@[j])),
    {
        let ghost comps = self.components@;
        let mut i: usize = 0;
        while i < items.len()
            invariant
                comps == self.components@,
                forall|j: int| 0 <= j < i ==> has_candidate(comps, #[trigger] items@[j]),
            decreases items.len() - i,
        {
            if self.first_candidate_of(&items[i]).is_none() {
                proof {
                    assert forall|a: Seq<usize>| valid_from(comps, items@, 0, a) implies !accepts(
                        self.rbe@,
                        a,
                    ) by {
                        assert(valid_choice(comps, items@[0 + i], a[i as int]));
                        assert(comps[a[i as int] as int].0@ == items@[i as int].0@);
                    }
                }
                return Err(RbeError::UnexpectedItem { index: i });
            }
            i = i + 1;
        }
        let mut i: usize = 0;
        while i < items.len()
            invariant
                comps == self.components@,
                forall|j: int| 0 <= j < items@.len() ==> has_candidate(comps, #[trigger] items@[j]),
                forall|j: int| 0 <= j < i ==> has_valid_candidate(comps, #[trigger] items@[j]),
            decreases items.len() - i,
        {
            let mut found = false;
            let mut c: usize = 0;
            while c < self.components.len()
                invariant
                    comps == self.components@,
                    i < items@.len(),
                    found ==> has_valid_candidate(comps, items@[i as int]),
                    !found ==> forall|d: usize| d < c ==> !#[trigger] valid_choice(comps, items@[i as int], d),
                decreases self.components.len() - c,
            {
                if !found && self.can_take(&items[i], c) {
                    found = true;
                }
                c = c + 1;
            }
            if !found {
                assert(!has_valid_candidate(comps, items@[i as int]));
                assert(has_candidate(comps, items@[i as int]));
                match self.first_candidate_of(&items[i]) {
                    Some(c0) => {
                        match self.components[c0].1.matches(&items[i].1) {
                            Ok(_) => {
                                assert(valid_choice(comps, items@[i as int], c0));
                                return unreached();
                            },
                            Err(e) => {
                                proof {
                                    assert forall|a: Seq<usize>| valid_from(comps, items@, 0, a) implies !accepts(
                                        self.rbe@,
                                        a,
                                    ) by {
                                        assert(valid_choice(comps, items@[0 + i], a[i as int]));
                                    }
                                }
                                return Err(RbeError::ConditionFailed { index: i, error: e });
                            },
                        }
                    },
                    None => {
                        return unreached();
                    },
                }
            }
            i = i + 1;
        }
        match self.search(items, 0, &self.rbe) {
            None => Err(RbeError::CardinalityFailed),
            Some(a) => {
                let mut acc = Pending::new();
                let mut k: usize = 0;
                assert(a@.take(0) =~= Seq::<usize>::empty());
                while k < a.len()
                    invariant
                        comps == self.components@,
                        valid_from(comps, items@, 0, a@),
                        a@.len() == items@.len(),
                        0 <= k <= a@.len(),
                        acc.pairs@ == assignment_pending(comps, items@, a@.take(k as int)),
                    decreases a.len() - k,
                {
                    assert(valid_choice(comps, items@[0 + k], a@[k as int]));
                    proof {
                        lemma_pending_prefix(comps, items@, a@, k as int);
                    }
                    match self.components[a[k]].1.matches(&items[k].1) {
                        Ok(p) => {
                            acc.merge(p);
                        },
                        Err(_) => {
                            return unreached();
                        },
                    }
                    k = k + 1;
                }
                assert(a@.take(k as int) == a@);
                Ok(acc)
            },
        }
    }

    /// Whether some component claims the predicate `pred`.
    pub fn claims(&self, pred: &String) -> (r: bool)
        ensures
            r == (exists|c: int| 0 <= c < self.components@.len() && #[trigger] self.components@[c].0@ == pred@),
    {
        let mut c: usize = 0;
        while c < self.components.len()
            invariant
                forall|d: int| 0 <= d < c ==> #[trigger] self.components@[d].0@ != pred@,
            decreases self.components.len() - c,
        {
            if str_eq(self.components[c].0.as_str(), pred.as_str()) {
                return true;
            }
            c = c + 1;
        }
        false
    }
}

} // verus!
