//! Exact rational values for exposure compensation.
//!
//! A compensation amount is the combination of at most two fraction
//! terms. The terms and their combination are kept exact: a value is a
//! sign together with a numerator and a positive denominator, and no
//! rounding ever happens.

use vstd::prelude::*;

use crate::digits::lemma_mul_le;

verus! {

/// An exact signed rational value.
///
/// The numerator and denominator are kept as parsed and combined; they
/// are not reduced to lowest terms.
#[derive(Debug, Clone, Copy, PartialEq, Eq, Structural)]
pub struct Rational {
    /// The value is negative.
    pub neg: bool,
    /// The magnitude of the numerator.
    pub num: u128,
    /// The denominator; always at least one.
    pub den: u128,
}

impl Rational {
    /// The denominator is positive, so the value is well defined.
    pub open spec fn well_formed(self) -> bool {
        self.den >= 1
    }

    /// The signed numerator.
    pub open spec fn num_int(self) -> int {
        if self.neg {
            -(self.num as int)
        } else {
            self.num as int
        }
    }

    /// The denominator as a mathematical integer.
    pub open spec fn den_int(self) -> int {
        self.den as int
    }
}

/// The signed value of a parsed fraction term, as a numerator over a
/// positive denominator.
pub open spec fn term_int(t: (bool, u64, u64)) -> (int, int) {
    (
        if t.0 {
            -(t.1 as int)
        } else {
            t.1 as int
        },
        t.2 as int,
    )
}

/// The accumulator rule of the compensation notation, applied to two
/// terms: starting from zero, the first term is added; then, if the
/// accumulator so far is non-negative the second term is added, and if
/// it is negative the second term is subtracted. The pair is the exact
/// unreduced numerator and denominator of the outcome.
pub open spec fn combined(a: (int, int), b: (int, int)) -> (int, int) {
    if a.0 >= 0 {
        (a.0 * b.1 + b.0 * a.1, a.1 * b.1)
    } else {
        (a.0 * b.1 - b.0 * a.1, a.1 * b.1)
    }
}

/// Builds the value of a single fraction term: the accumulator starts
/// at zero, which is non-negative, so the term is added as it stands.
pub fn single_term(t: (bool, u64, u64)) -> (r: Rational)
    requires
        t.2 >= 1,
    ensures
        r.well_formed(),
        r.num_int() == term_int(t).0,
        r.den_int() == term_int(t).1,
{
    Rational { neg: t.0, num: t.1 as u128, den: t.2 as u128 }
}

/// Folds the second term into the first under the accumulator rule.
/// `None` means the exact numerator of the outcome is too large for the
/// machine representation.
pub fn combine_terms(t1: (bool, u64, u64), t2: (bool, u64, u64)) -> (r: Option<Rational>)
    requires
        t1.2 >= 1,
        t2.2 >= 1,
    ensures
        ({
            let c = combined(term_int(t1), term_int(t2));
            match r {
                Some(v) => v.well_formed() && v.num_int() == c.0 && v.den_int() == c.1,
                None => c.0 > u128::MAX || c.0 < -(u128::MAX as int),
            }
        }),
{
    let (neg1, num1, den1) = t1;
    let (neg2, num2, den2) = t2;
    proof {
        lemma_mul_le(num1 as int, den2 as int, u64::MAX as int, u64::MAX as int);
        lemma_mul_le(num2 as int, den1 as int, u64::MAX as int, u64::MAX as int);
        lemma_mul_le(den1 as int, den2 as int, u64::MAX as int, u64::MAX as int);
        lemma_mul_le(1, 1, den1 as int, den2 as int);
    }
    let p1: u128 = num1 as u128 * den2 as u128;
    let p2: u128 = num2 as u128 * den1 as u128;
    let den: u128 = den1 as u128 * den2 as u128;
    let ghost a = term_int(t1);
    let ghost b = term_int(t2);
    let ghost c = combined(a, b);
    let acc_nonneg = !neg1 || num1 == 0;
    proof {
        assert(acc_nonneg == (a.0 >= 0));
        if a.0 >= 0 {
            assert(a.0 * b.1 == p1 || a.0 * b.1 == -(p1 as int)) by (nonlinear_arith)
                requires
                    a.0 == num1 || a.0 == -(num1 as int),
                    b.1 == den2,
                    p1 == num1 as int * den2 as int,
            ;
            assert(a.0 * b.1 == p1);
        } else {
            assert(a.0 * b.1 == -(p1 as int)) by (nonlinear_arith)
                requires
                    a.0 == -(num1 as int),
                    b.1 == den2,
                    p1 == num1 as int * den2 as int,
            ;
        }
        if b.0 >= 0 {
            assert(b.0 * a.1 == p2) by (nonlinear_arith)
                requires
                    b.0 == num2,
                    a.1 == den1,
                    p2 == num2 as int * den1 as int,
            ;
        } else {
            assert(b.0 * a.1 == -(p2 as int)) by (nonlinear_arith)
                requires
                    b.0 == -(num2 as int),
                    a.1 == den1,
                    p2 == num2 as int * den1 as int,
            ;
        }
        assert(c.1 == den) by (nonlinear_arith)
            requires
                c.1 == a.1 * b.1,
                a.1 == den1,
                b.1 == den2,
                den == den1 as u128 * den2 as u128,
        ;
    }
    let term2_nonneg = !neg2 || num2 == 0;
    if term2_nonneg {
        // A non-negative second term is added to a non-negative
        // accumulator and subtracted from a negative one: either way the
        // magnitudes add and the sign of the accumulator stays.
        if p1 > u128::MAX - p2 {
            return None;
        }
        let num: u128 = p1 + p2;
        Some(Rational { neg: !acc_nonneg && num > 0, num, den })
    } else if acc_nonneg {
        // Adding a negative term: the magnitudes cancel, the larger side
        // gives the sign.
        if p1 >= p2 {
            Some(Rational { neg: false, num: p1 - p2, den })
        } else {
            Some(Rational { neg: true, num: p2 - p1, den })
        }
    } else {
        // Subtracting a negative term from a negative accumulator: the
        // term's magnitude comes back off the accumulated one.
        if p2 >= p1 {
            Some(Rational { neg: false, num: p2 - p1, den })
        } else {
            Some(Rational { neg: true, num: p1 - p2, den })
        }
    }
}

} // verus!
