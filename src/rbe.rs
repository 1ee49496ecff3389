use vstd::prelude::*;
use crate::cardinality::{Cardinality, Max, Min};

verus! {

/// A regular bag expression over component numbers: a pattern that a multiset of
/// components either matches or not.
#[derive(PartialEq, Eq, Debug)]
pub enum Rbe {
    /// Matches no bag.
    Fail,
    /// Matches the empty bag only.
    Empty,
    /// Between `card.min` and `card.max` occurrences of the component `value`.
    Symbol { value: usize, card: Cardinality },
    /// A bag made of one bag of each member.
    And { values: Vec<Rbe> },
    /// A bag of one of the members.
    Or { values: Vec<Rbe> },
    /// Any number of bags of `value`, none included.
    Star { value: Box<Rbe> },
    /// At least one bag of `value`.
    Plus { value: Box<Rbe> },
    /// Between `card.min` and `card.max` bags of `value`.
    Repeat { value: Box<Rbe>, card: Cardinality },
}

/// The mathematical form of an [`Rbe`]; an absent upper bound means unbounded.
pub enum RbeModel {
    Fail,
    Empty,
    Symbol { c: usize, min: nat, max: Option<nat> },
    And(Seq<RbeModel>),
    Or(Seq<RbeModel>),
    Star(Box<RbeModel>),
    Plus(Box<RbeModel>),
    Repeat(Box<RbeModel>, nat, Option<nat>),
}

pub open spec fn rbe_model(r: Rbe) -> RbeModel
    decreases r,
{
    match r {
        Rbe::Fail => RbeModel::Fail,
        Rbe::Empty => RbeModel::Empty,
        Rbe::Symbol { value, card } => RbeModel::Symbol {
            c: value,
            min: card.min.value as nat,
            max: card.max.bound(),
        },
        Rbe::And { values } => RbeModel::And(
            Seq::new(
                values.len() as nat,
                |i: int|
                    if 0 <= i < values.len() {
                        rbe_model(values[i])
                    } else {
                        RbeModel::Fail
                    },
            ),
        ),
        Rbe::Or { values } => RbeModel::Or(
            Seq::new(
                values.len() as nat,
                |i: int|
                    if 0 <= i < values.len() {
                        rbe_model(values[i])
                    } else {
                        RbeModel::Fail
                    },
            ),
        ),
        Rbe::Star { value } => RbeModel::Star(Box::new(rbe_model(*value))),
        Rbe::Plus { value } => RbeModel::Plus(Box::new(rbe_model(*value))),
        Rbe::Repeat { value, card } => RbeModel::Repeat(
            Box::new(rbe_model(*value)),
            card.min.value as nat,
            card.max.bound(),
        ),
    }
}

impl View for Rbe {
    type V = RbeModel;

    open spec fn view(&self) -> RbeModel {
        rbe_model(*self)
    }
}

/// Whether the pattern matches the empty bag.
pub open spec fn nullable(r: RbeModel) -> bool
    decreases r,
{
    match r {
        RbeModel::Fail => false,
        RbeModel::Empty => true,
        RbeModel::Symbol { min, .. } => min == 0,
        RbeModel::And(es) => forall|i: int| 0 <= i < es.len() ==> nullable(#[trigger] es[i]),
        RbeModel::Or(es) => exists|i: int| 0 <= i < es.len() && nullable(#[trigger] es[i]),
        RbeModel::Star(_) => true,
        RbeModel::Plus(v) => nullable(*v),
        RbeModel::Repeat(v, min, max) => (min == 0 || nullable(*v)) && (max matches Some(m) ==> min <= m),
    }
}

pub open spec fn dec_min(n: nat) -> nat {
    if n == 0 {
        0
    } else {
        (n - 1) as nat
    }
}

pub open spec fn dec_max(m: Option<nat>) -> Option<nat> {
    match m {
        None => None,
        Some(n) => Some((n - 1) as nat),
    }
}

/// The derivative of `r` by the component `c`: the pattern that a bag `b` matches exactly
/// when `r` matches `b` with one more `c`.
pub open spec fn deriv(r: RbeModel, c: usize) -> RbeModel
    decreases r,
{
    match r {
        RbeModel::Fail => RbeModel::Fail,
        RbeModel::Empty => RbeModel::Fail,
        RbeModel::Symbol { c: d, min, max } => if d == c && max != Some(0nat) {
            RbeModel::Symbol { c: d, min: dec_min(min), max: dec_max(max) }
        } else {
            RbeModel::Fail
        },
        RbeModel::And(es) => RbeModel::Or(
            Seq::new(
                es.len(),
                |i: int|
                    if 0 <= i < es.len() {
                        RbeModel::And(es.update(i, deriv(es[i], c)))
                    } else {
                        RbeModel::Fail
                    },
            ),
        ),
        RbeModel::Or(es) => RbeModel::Or(
            Seq::new(
                es.len(),
                |i: int|
                    if 0 <= i < es.len() {
                        deriv(es[i], c)
                    } else {
                        RbeModel::Fail
                    },
            ),
        ),
        RbeModel::Star(v) => RbeModel::And(seq![deriv(*v, c), RbeModel::Star(v)]),
        RbeModel::Plus(v) => RbeModel::And(seq![deriv(*v, c), RbeModel::Star(v)]),
        RbeModel::Repeat(v, min, max) => if max == Some(0nat) {
            RbeModel::Fail
        } else {
            RbeModel::And(seq![deriv(*v, c), RbeModel::Repeat(v, dec_min(min), dec_max(max))])
        },
    }
}

/// Whether the pattern matches the bag of the components in `w`.
pub open spec fn accepts(r: RbeModel, w: Seq<usize>) -> bool
    decreases w.len(),
{
    if w.len() == 0 {
        nullable(r)
    } else {
        accepts(deriv(r, w[0]), w.drop_first())
    }
}

impl Rbe {
    pub fn symbol(value: usize, min: usize, max: Max) -> (r: Rbe)
        ensures
            r == (Rbe::Symbol { value, card: Cardinality { min: Min { value: min }, max } }),
    {
        Rbe::Symbol { value, card: Cardinality { min: Min { value: min }, max } }
    }

    pub fn and(values: Vec<Rbe>) -> (r: Rbe)
        ensures
            r == (Rbe::And { values }),
    {
        Rbe::And { values }
    }

    pub fn or(values: Vec<Rbe>) -> (r: Rbe)
        ensures
            r == (Rbe::Or { values }),
    {
        Rbe::Or { values }
    }

    /// A copy of the pattern.
    pub fn copy(&self) -> (r: Rbe)
        ensures
            r@ == self@,
        decreases self,
    {
        match self {
            Rbe::Fail => Rbe::Fail,
            Rbe::Empty => Rbe::Empty,
            Rbe::Symbol { value, card } => Rbe::Symbol { value: *value, card: *card },
            Rbe::And { values } => {
                let vs = copy_all(values);
                let r = Rbe::And { values: vs };
                assert(r@ == self@) by {
                    if let RbeModel::And(a) = r@ {
                        if let RbeModel::And(b) = self@ {
                            assert(a =~= b);
                        }
                    }
                }
                r
            },
            Rbe::Or { values } => {
                let vs = copy_all(values);
                let r = Rbe::Or { values: vs };
                assert(r@ == self@) by {
                    if let RbeModel::Or(a) = r@ {
                        if let RbeModel::Or(b) = self@ {
                            assert(a =~= b);
                        }
                    }
                }
                r
            },
            Rbe::Star { value } => Rbe::Star { value: Box::new((**value).copy()) },
            Rbe::Plus { value } => Rbe::Plus { value: Box::new((**value).copy()) },
            Rbe::Repeat { value, card } => Rbe::Repeat { value: Box::new((**value).copy()), card: *card },
        }
    }

    /// Whether the pattern matches the empty bag.
    pub fn nullable(&self) -> (r: bool)
        ensures
            r == nullable(self@),
        decreases self,
    {
        match self {
            Rbe::Fail => false,
            Rbe::Empty => true,
            Rbe::Symbol { card, .. } => card.min.value == 0,
            Rbe::And { values } => {
                let ghost es = self@->And_0;
                let mut i: usize = 0;
                while i < values.len()
                    invariant
                        *self == (Rbe::And { values: *values }),
                        es == self@->And_0,
                        es.len() == values@.len(),
                        forall|j: int| 0 <= j < i ==> nullable(#[trigger] es[j]),
                    decreases values.len() - i,
                {
                    assert(es[i as int] == values@[i as int]@);
                    if !values[i].nullable() {
                        return false;
                    }
                    i = i + 1;
                }
                true
            },
            Rbe::Or { values } => {
                let ghost es = self@->Or_0;
                let mut i: usize = 0;
                while i < values.len()
                    invariant
                        *self == (Rbe::Or { values: *values }),
                        es == self@->Or_0,
                        es.len() == values@.len(),
                        forall|j: int| 0 <= j < i ==> !nullable(#[trigger] es[j]),
                    decreases values.len() - i,
                {
                    assert(es[i as int] == values@[i as int]@);
                    if values[i].nullable() {
                        return true;
                    }
                    i = i + 1;
                }
                false
            },
            Rbe::Star { .. } => true,
            Rbe::Plus { value } => (**value).nullable(),
            Rbe::Repeat { value, card } => {
                let within = match card.max {
                    Max::IntMax(m) => card.min.value <= m,
                    Max::Unbounded => true,
                };
                within && (card.min.value == 0 || (**value).nullable())
            },
        }
    }
}

fn dec_card(card: Cardinality) -> (r: Cardinality)
    requires
        card.max != Max::IntMax(0),
    ensures
        r.min.value as nat == dec_min(card.min.value as nat),
        r.max.bound() == dec_max(card.max.bound()),
{
    let min = if card.min.value == 0 {
        0
    } else {
        card.min.value - 1
    };
    let max = match card.max {
        Max::Unbounded => Max::Unbounded,
        Max::IntMax(n) => Max::IntMax(n - 1),
    };
    Cardinality { min: Min { value: min }, max }
}

fn pair(a: Rbe, b: Rbe) -> (r: Vec<Rbe>)
    ensures
        r@.len() == 2,
        r@[0] == a,
        r@[1] == b,
{
    let mut r = Vec::new();
    r.push(a);
    r.push(b);
    r
}

impl Rbe {
    /// The derivative by the component `c`.
    pub fn deriv(&self, c: usize) -> (r: Rbe)
        ensures
            r@ == deriv(self@, c),
        decreases self,
    {
        match self {
            Rbe::Fail => Rbe::Fail,
            Rbe::Empty => Rbe::Fail,
            Rbe::Symbol { value, card } => {
                if *value == c && card.max != Max::IntMax(0) {
                    Rbe::Symbol { value: *value, card: dec_card(*card) }
                } else {
                    Rbe::Fail
                }
            },
            Rbe::And { values } => {
                let ghost es = self@->And_0;
                let mut out: Vec<Rbe> = Vec::new();
                let mut i: usize = 0;
                while i < values.len()
                    invariant
                        *self == (Rbe::And { values: *values }),
                        es == self@->And_0,
                        es.len() == values@.len(),
                        0 <= i <= values@.len(),
                        out@.len() == i,
                        forall|j: int|
                            0 <= j < i ==> (#[trigger] out@[j])@ == RbeModel::And(
                                es.update(j, deriv(es[j], c)),
                            ),
                    decreases values.len() - i,
                {
                    let mut vs = copy_all(values);
                    let d = values[i].deriv(c);
                    vs.set(i, d);
                    let a = Rbe::And { values: vs };
                    assert(a@ == RbeModel::And(es.update(i as int, deriv(es[i as int], c)))) by {
                        assert(a@->And_0 =~= es.update(i as int, deriv(es[i as int], c)));
                    }
                    out.push(a);
                    i = i + 1;
                }
                let r = Rbe::Or { values: out };
                assert(r@ == deriv(self@, c)) by {
                    assert(r@->Or_0 =~= deriv(self@, c)->Or_0);
                }
                r
            },
            Rbe::Or { values } => {
                let ghost es = self@->Or_0;
                let mut out: Vec<Rbe> = Vec::new();
                let mut i: usize = 0;
                while i < values.len()
                    invariant
                        *self == (Rbe::Or { values: *values }),
                        es == self@->Or_0,
                        es.len() == values@.len(),
                        0 <= i <= values@.len(),
                        out@.len() == i,
                        forall|j: int| 0 <= j < i ==> (#[trigger] out@[j])@ == deriv(es[j], c),
                    decreases values.len() - i,
                {
                    out.push(values[i].deriv(c));
                    i = i + 1;
                }
                let r = Rbe::Or { values: out };
                assert(r@ == deriv(self@, c)) by {
                    assert(r@->Or_0 =~= deriv(self@, c)->Or_0);
                }
                r
            },
            Rbe::Star { value } => {
                let d = (**value).deriv(c);
                let rest = Rbe::Star { value: Box::new((**value).copy()) };
                assert(rest@ == RbeModel::Star(Box::new(rbe_model(**value))));
                let r = Rbe::And { values: pair(d, rest) };
                assert(r@->And_0 =~= deriv(self@, c)->And_0);
                r
            },
            Rbe::Plus { value } => {
                let d = (**value).deriv(c);
                let rest = Rbe::Star { value: Box::new((**value).copy()) };
                assert(rest@ == RbeModel::Star(Box::new(rbe_model(**value))));
                let r = Rbe::And { values: pair(d, rest) };
                assert(r@->And_0 =~= deriv(self@, c)->And_0);
                r
            },
            Rbe::Repeat { value, card } => {
                if card.max == Max::IntMax(0) {
                    Rbe::Fail
                } else {
                    let d = (**value).deriv(c);
                    let rest = Rbe::Repeat { value: Box::new((**value).copy()), card: dec_card(*card) };
                    assert(rest@ == RbeModel::Repeat(
                        Box::new(rbe_model(**value)),
                        dec_min(card.min.value as nat),
                        dec_max(card.max.bound()),
                    ));
                    let r = Rbe::And { values: pair(d, rest) };
                    assert(r@->And_0 =~= deriv(self@, c)->And_0);
                    r
                }
            },
        }
    }
}

impl Clone for Rbe {
    fn clone(&self) -> (r: Rbe)
        ensures
            r@ == self@,
    {
        self.copy()
    }
}

/// A copy of each pattern of `values`.
fn copy_all(values: &Vec<Rbe>) -> (r: Vec<Rbe>)
    ensures
        r@.len() == values@.len(),
        forall|i: int| 0 <= i < r@.len() ==> (#[trigger] r@[i])@ == values@[i]@,
    decreases values, 0nat,
{
    let mut r: Vec<Rbe> = Vec::new();
    let mut i: usize = 0;
    while i < values.len()
        invariant
            0 <= i <= values@.len(),
            r@.len() == i,
            forall|j: int| 0 <= j < i ==> (#[trigger] r@[j])@ == values@[j]@,
        decreases values.len() - i,
    {
        r.push(values[i].copy());
        i = i + 1;
    }
    r
}

/// The failing pattern matches no bag.
pub proof fn lemma_fail_rejects(w: Seq<usize>)
    ensures
        !accepts(RbeModel::Fail, w),
    decreases w.len(),
{
    if w.len() > 0 {
        lemma_fail_rejects(w.drop_first());
    }
}

/// A disjunction matches a bag exactly when one of its members does.
pub proof fn lemma_or_accepts(es: Seq<RbeModel>, w: Seq<usize>)
    ensures
        accepts(RbeModel::Or(es), w) <==> exists|i: int| 0 <= i < es.len() && #[trigger] accepts(es[i], w),
    decreases w.len(),
{
    if w.len() == 0 {
        if accepts(RbeModel::Or(es), w) {
            let i = choose|i: int| 0 <= i < es.len() && nullable(#[trigger] es[i]);
            assert(accepts(es[i], w));
        }
        if exists|i: int| 0 <= i < es.len() && #[trigger] accepts(es[i], w) {
            let i = choose|i: int| 0 <= i < es.len() && #[trigger] accepts(es[i], w);
            assert(nullable(es[i]));
        }
    } else {
        let c = w[0];
        let rest = w.drop_first();
        let ds = deriv(RbeModel::Or(es), c)->Or_0;
        assert(deriv(RbeModel::Or(es), c) == RbeModel::Or(ds));
        lemma_or_accepts(ds, rest);
        assert forall|i: int| 0 <= i < es.len() implies #[trigger] accepts(es[i], w) == accepts(ds[i], rest) by {
            assert(ds[i] == deriv(es[i], c));
        }
        if accepts(RbeModel::Or(es), w) {
            let i = choose|i: int| 0 <= i < ds.len() && #[trigger] accepts(ds[i], rest);
            assert(accepts(es[i], w));
        }
        if exists|i: int| 0 <= i < es.len() && #[trigger] accepts(es[i], w) {
            let i = choose|i: int| 0 <= i < es.len() && #[trigger] accepts(es[i], w);
            assert(accepts(ds[i], rest));
        }
    }
}

/// A conjunction of two members matches the union of a bag that the first matches and a
/// bag that the second matches.
pub proof fn lemma_and_accepts_split(a: RbeModel, b: RbeModel, u: Seq<usize>, v: Seq<usize>)
    requires
        accepts(a, u),
        accepts(b, v),
    ensures
        accepts(RbeModel::And(seq![a, b]), u + v),
    decreases u.len() + v.len(),
{
    let pair = seq![a, b];
    let w = u + v;
    if w.len() == 0 {
        assert(u.len() == 0 && v.len() == 0);
        assert(nullable(RbeModel::And(pair)));
    } else {
        let c = w[0];
        let d = deriv(RbeModel::And(pair), c);
        let ds = d->Or_0;
        assert(d == RbeModel::Or(ds));
        if u.len() > 0 {
            assert(c == u[0]);
            assert(ds[0] == RbeModel::And(pair.update(0, deriv(a, c))));
            assert(pair.update(0, deriv(a, c)) =~= seq![deriv(a, c), b]);
            lemma_and_accepts_split(deriv(a, c), b, u.drop_first(), v);
            assert(w.drop_first() =~= u.drop_first() + v);
            lemma_or_accepts(ds, w.drop_first());
        } else {
            assert(w =~= v);
            assert(c == v[0]);
            assert(ds[1] == RbeModel::And(pair.update(1, deriv(b, c))));
            assert(pair.update(1, deriv(b, c)) =~= seq![a, deriv(b, c)]);
            lemma_and_accepts_split(a, deriv(b, c), u, v.drop_first());
            assert(u + v.drop_first() =~= w.drop_first());
            lemma_or_accepts(ds, w.drop_first());
        }
    }
}

/// A star matches the empty bag, and the union of a bag that its member matches with a bag
/// that the star matches.
pub proof fn lemma_star_accepts_split(r: RbeModel, u: Seq<usize>, rest: Seq<usize>)
    requires
        accepts(r, u),
        accepts(RbeModel::Star(Box::new(r)), rest),
    ensures
        accepts(RbeModel::Star(Box::new(r)), Seq::empty()),
        accepts(RbeModel::Star(Box::new(r)), u + rest),
{
    let star = RbeModel::Star(Box::new(r));
    if u.len() == 0 {
        assert(u + rest =~= rest);
    } else {
        let c = u[0];
        assert(deriv(star, c) == RbeModel::And(seq![deriv(r, c), star]));
        lemma_and_accepts_split(deriv(r, c), star, u.drop_first(), rest);
        assert((u + rest).drop_first() =~= u.drop_first() + rest);
        assert((u + rest)[0] == c);
    }
}

/// A repeat with a bound left matches the union of a nonempty bag that its member matches
/// with a bag that the repeat with one fewer matches.
pub proof fn lemma_repeat_accepts_split(r: RbeModel, min: nat, max: Option<nat>, u: Seq<usize>, rest: Seq<usize>)
    requires
        max != Some(0nat),
        u.len() > 0,
        accepts(r, u),
        accepts(RbeModel::Repeat(Box::new(r), dec_min(min), dec_max(max)), rest),
    ensures
        accepts(RbeModel::Repeat(Box::new(r), min, max), u + rest),
{
    let rep = RbeModel::Repeat(Box::new(r), min, max);
    let c = u[0];
    assert(deriv(rep, c) == RbeModel::And(seq![deriv(r, c), RbeModel::Repeat(Box::new(r), dec_min(min), dec_max(max))]));
    lemma_and_accepts_split(deriv(r, c), RbeModel::Repeat(Box::new(r), dec_min(min), dec_max(max)), u.drop_first(), rest);
    assert((u + rest).drop_first() =~= u.drop_first() + rest);
    assert((u + rest)[0] == c);
}

/// A symbol with cardinality `(0, unbounded)` accepts a bag with any number `n` of
/// occurrences of its component, none included.
pub proof fn lemma_star_symbol_accepts_any_count(r: Rbe, c: usize, n: nat)
    requires
        r == (Rbe::Symbol { value: c, card: Cardinality { min: Min { value: 0 }, max: Max::Unbounded } }),
    ensures
        accepts(r@, Seq::new(n, |i: int| c)),
    decreases n,
{
    let w = Seq::new(n, |i: int| c);
    if n > 0 {
        assert(w.drop_first() =~= Seq::new((n - 1) as nat, |i: int| c));
        assert(deriv(r@, c) == r@);
        lemma_star_symbol_accepts_any_count(r, c, (n - 1) as nat);
    }
}

/// A symbol whose minimum is above zero rejects the bag without occurrences of it.
pub proof fn lemma_required_symbol_rejects_empty(r: Rbe)
    requires
        r is Symbol,
        r->Symbol_card.min.value > 0,
    ensures
        !accepts(r@, Seq::empty()),
{
}

} // verus!
