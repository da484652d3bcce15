//! Exact rational numbers: the mathematical model and the machine type.

use vstd::prelude::*;
use crate::algebra::lemma_product_bounds;
use crate::algebra::lemma_zero_product;

verus! {

/// A fraction of two mathematical integers: the model that contracts speak
/// of. It denotes a number where its denominator is positive. Fractions are
/// compared, as numbers, by their cross products.
pub struct Frac {
    pub num: int,
    pub den: int,
}

impl Frac {
    /// Whether the fraction denotes a number.
    pub open spec fn defined(self) -> bool {
        self.den > 0
    }

    /// Whether two fractions denote the same number.
    pub open spec fn same_as(self, other: Frac) -> bool {
        self.num * other.den == other.num * self.den
    }

    /// Whether the number `self` is strictly below the number `other`.
    pub open spec fn below(self, other: Frac) -> bool {
        self.num * other.den < other.num * self.den
    }

    /// The sum of two fractions.
    pub open spec fn plus(self, other: Frac) -> Frac {
        Frac { num: self.num * other.den + other.num * self.den, den: self.den * other.den }
    }

    /// The difference of two fractions.
    pub open spec fn minus(self, other: Frac) -> Frac {
        Frac { num: self.num * other.den - other.num * self.den, den: self.den * other.den }
    }

    /// The product of two fractions.
    pub open spec fn times(self, other: Frac) -> Frac {
        Frac { num: self.num * other.num, den: self.den * other.den }
    }

    /// The fraction taken `k` times.
    pub open spec fn times_int(self, k: int) -> Frac {
        Frac { num: self.num * k, den: self.den }
    }

    /// The fraction cut into `n` equal parts.
    pub open spec fn over_int(self, n: int) -> Frac {
        Frac { num: self.num, den: self.den * n }
    }
}

/// The rational number `num / den` in machine integers.
///
/// A value with `den == 0` stands for no number: it is undefined, and the
/// operations that need a number reject it. Two values may denote the same
/// number without being equal field by field (`1/2` and `2/4`): `==` compares
/// the fields, [`Ratio::eqv`] compares the numbers.
#[derive(Clone, Copy, Debug, PartialEq, Eq, Structural)]
pub struct Ratio {
    pub num: i64,
    pub den: u64,
}

impl View for Ratio {
    type V = Frac;

    open spec fn view(&self) -> Frac {
        Frac { num: self.num as int, den: self.den as int }
    }
}

impl Ratio {
    /// Whether the value denotes a number.
    pub open spec fn defined(self) -> bool {
        self.den != 0
    }

    /// The value `num / den`; an undefined one where `den` is zero.
    pub fn new(num: i64, den: u64) -> (r: Ratio)
        ensures
            r.num == num,
            r.den == den,
    {
        Ratio { num, den }
    }

    /// Whether `self` and `other` denote the same number.
    pub fn eqv(&self, other: &Ratio) -> (same: bool)
        ensures
            same == self@.same_as(other@),
    {
        proof {
            lemma_product_bounds(self.num as int, other.den as int);
            lemma_product_bounds(other.num as int, self.den as int);
        }
        (self.num as i128) * (other.den as i128) == (other.num as i128) * (self.den as i128)
    }

    /// Whether the number `self` is strictly below the number `other`.
    pub fn lt(&self, other: &Ratio) -> (below: bool)
        ensures
            below == self@.below(other@),
    {
        proof {
            lemma_product_bounds(self.num as int, other.den as int);
            lemma_product_bounds(other.num as int, self.den as int);
        }
        (self.num as i128) * (other.den as i128) < (other.num as i128) * (self.den as i128)
    }

    /// The product `self * other`, or `None` where its numerator or its
    /// denominator does not fit.
    pub fn checked_mul(self, other: Ratio) -> (product: Option<Ratio>)
        ensures
            product is Some <==> i64::MIN <= self.num * other.num <= i64::MAX && self.den
                * other.den <= u64::MAX,
            product matches Some(p) ==> p@ == self@.times(other@),
            product matches Some(p) ==> (p.defined() <==> self.defined() && other.defined()),
    {
        let num = match self.num.checked_mul(other.num) {
            Some(num) => num,
            None => {
                return None;
            },
        };
        let den = match self.den.checked_mul(other.den) {
            Some(den) => den,
            None => {
                return None;
            },
        };
        proof {
            lemma_zero_product(self.den as int, other.den as int);
        }
        Some(Ratio { num, den })
    }
}

} // verus!
