use vstd::prelude::*;

verus! {

/// Lower bound of a cardinality.
#[derive(Clone, Copy, PartialEq, Eq, Structural, Debug)]
pub struct Min {
    pub value: usize,
}

/// Upper bound of a cardinality: a number, or no bound at all.
#[derive(Clone, Copy, PartialEq, Eq, Structural, Debug)]
pub enum Max {
    Unbounded,
    IntMax(usize),
}

/// How many times something may occur: `min` up to `max`.
#[derive(Clone, Copy, PartialEq, Eq, Structural, Debug)]
pub struct Cardinality {
    pub min: Min,
    pub max: Max,
}

impl Min {
    pub fn from(value: usize) -> (r: Min)
        ensures
            r.value == value,
    {
        Min { value }
    }
}

impl Max {
    pub fn from(value: usize) -> (r: Max)
        ensures
            r == Max::IntMax(value),
    {
        Max::IntMax(value)
    }

    /// The upper bound as a number, `None` when unbounded.
    pub open spec fn bound(self) -> Option<nat> {
        match self {
            Max::Unbounded => None,
            Max::IntMax(n) => Some(n as nat),
        }
    }
}

impl Cardinality {
    pub fn from(min: Min, max: Max) -> (r: Cardinality)
        ensures
            r.min == min,
            r.max == max,
    {
        Cardinality { min, max }
    }

    /// Exactly one occurrence.
    pub open spec fn spec_is_1_1(self) -> bool {
        self.min.value == 1 && self.max == Max::IntMax(1)
    }

    /// Any number of occurrences, none included.
    pub open spec fn spec_is_star(self) -> bool {
        self.min.value == 0 && self.max == Max::Unbounded
    }

    /// At least one occurrence, with no upper bound.
    pub open spec fn spec_is_plus(self) -> bool {
        self.min.value == 1 && self.max == Max::Unbounded
    }

    pub fn is_1_1(&self) -> (r: bool)
        ensures
            r == self.spec_is_1_1(),
    {
        self.min.value == 1 && match self.max {
            Max::IntMax(n) => n == 1,
            Max::Unbounded => false,
        }
    }

    pub fn is_star(&self) -> (r: bool)
        ensures
            r == self.spec_is_star(),
    {
        self.min.value == 0 && match self.max {
            Max::IntMax(_) => false,
            Max::Unbounded => true,
        }
    }

    pub fn is_plus(&self) -> (r: bool)
        ensures
            r == self.spec_is_plus(),
    {
        self.min.value == 1 && match self.max {
            Max::IntMax(_) => false,
            Max::Unbounded => true,
        }
    }
}

} // verus!
