use std::cmp::Ordering;
use vstd::prelude::*;

verus! {

/// A recommendation score, the fraction `numerator / denominator`. Scores are
/// compared as fractions (by cross-multiplication), so `2/2` equals `1/1`.
#[derive(Debug, Clone, Copy)]
pub struct Score {
    pub numerator: u64,
    pub denominator: u64,
}

/// `a` is a strictly higher fraction than `b` (for positive denominators).
pub open spec fn ranks_above(a: Score, b: Score) -> bool {
    a.numerator * b.denominator > b.numerator * a.denominator
}

/// `a` and `b` are the same fraction (for positive denominators).
pub open spec fn ranks_level(a: Score, b: Score) -> bool {
    a.numerator * b.denominator == b.numerator * a.denominator
}

fn cross_product(a: u64, b: u64) -> (r: u128)
    ensures
        r == a * b,
{
    assert(a * b <= u64::MAX * u64::MAX) by (nonlinear_arith)
        requires
            a <= u64::MAX,
            b <= u64::MAX,
    ;
    (a as u128) * (b as u128)
}

/// Whether `a` is a strictly higher score than `b`.
pub fn score_above(a: &Score, b: &Score) -> (r: bool)
    ensures
        r == ranks_above(*a, *b),
{
    cross_product(a.numerator, b.denominator) > cross_product(b.numerator, a.denominator)
}

impl PartialEq for Score {
    fn eq(&self, other: &Self) -> (r: bool) {
        cross_product(self.numerator, other.denominator) == cross_product(
            other.numerator,
            self.denominator,
        )
    }
}

impl vstd::std_specs::cmp::PartialEqSpecImpl for Score {
    open spec fn obeys_eq_spec() -> bool {
        true
    }

    open spec fn eq_spec(&self, other: &Self) -> bool {
        ranks_level(*self, *other)
    }
}

impl PartialOrd for Score {
    fn partial_cmp(&self, other: &Self) -> (r: Option<Ordering>) {
        let left = cross_product(self.numerator, other.denominator);
        let right = cross_product(other.numerator, self.denominator);
        if left < right {
            Some(Ordering::Less)
        } else if left > right {
            Some(Ordering::Greater)
        } else {
            Some(Ordering::Equal)
        }
    }
}

impl vstd::std_specs::cmp::PartialOrdSpecImpl for Score {
    open spec fn obeys_partial_cmp_spec() -> bool {
        true
    }

    open spec fn partial_cmp_spec(&self, other: &Self) -> Option<Ordering> {
        if ranks_above(*other, *self) {
            Some(Ordering::Less)
        } else if ranks_above(*self, *other) {
            Some(Ordering::Greater)
        } else {
            Some(Ordering::Equal)
        }
    }
}

} // verus!
