//! Fractions, for the measures of likeness.

use vstd::prelude::*;

verus! {

/// A fraction.
#[derive(Clone, Copy, Debug, PartialEq, Eq)]
pub struct Ratio {
    pub numerator: usize,
    pub denominator: usize,
}

/// Whether `numerator / denominator` is at least so many hundredths.
pub open spec fn reaches(numerator: int, denominator: int, hundredths: int) -> bool {
    numerator * 100 >= hundredths * denominator
}

impl Ratio {
    /// So many hundredths.
    pub fn hundredths(numerator: usize) -> (r: Ratio)
        ensures
            r.numerator == numerator,
            r.denominator == 100,
    {
        Ratio { numerator, denominator: 100 }
    }

    /// Whether the fraction is at least so many hundredths.
    pub fn at_least(&self, hundredths: u32) -> (r: bool)
        ensures
            r == reaches(self.numerator as int, self.denominator as int, hundredths as int),
    {
        let scaled: u128 = self.numerator as u128 * 100;
        assert(hundredths * self.denominator <= u32::MAX * usize::MAX) by (nonlinear_arith)
            requires
                hundredths <= u32::MAX,
                self.denominator <= usize::MAX,
        ;
        let bound: u128 = hundredths as u128 * self.denominator as u128;
        scaled >= bound
    }
}

} // verus!
