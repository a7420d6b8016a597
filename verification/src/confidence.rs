//! How sure a mapping is: scores that add up and compare as double-precision numbers do.
//!
//! A double has 53 significant bits, and a sum is rounded to the nearest double. Scores are counted
//! in units of the sixtieth power of one half, of which every double from one hundredth up to the
//! whole and a little beyond is a multiple.

use vstd::arithmetic::power::pow;
use vstd::arithmetic::power2::pow2;
use vstd::prelude::*;
use vstd::string::*;

use crate::text::{decimal_text, decimal_value, digit_char, digit_text, digits_of};

verus! {

/// The whole, in units.
pub const WHOLE: u64 = 0x1000_0000_0000_0000;

/// The first number of units that has more than 53 bits.
pub const WIDE: u64 = 0x20_0000_0000_0000;

/// The distance between neighbouring doubles at `n` units.
pub open spec fn quantum(n: nat) -> nat
    decreases n,
{
    if n < WIDE {
        1
    } else {
        2 * quantum(n / 2)
    }
}

/// `numerator / denominator` as an integer: the nearest one, and of two the even one.
pub open spec fn nearest(numerator: nat, denominator: nat) -> nat {
    let floor = numerator / denominator;
    let rest = numerator % denominator;
    if 2 * rest < denominator || (2 * rest == denominator && floor % 2 == 0) {
        floor
    } else {
        floor + 1
    }
}

/// `numerator / denominator` units as a double: the nearest one, and of two the even one.
pub open spec fn rounded(numerator: nat, denominator: nat) -> nat {
    let step = quantum(numerator / denominator);
    nearest(numerator, denominator * step) * step
}

/// The double that is nearest to so many hundredths.
pub open spec fn hundredths(n: nat) -> nat {
    rounded(n * WHOLE as nat, 100)
}

/// The sum of two doubles.
pub open spec fn sum(left: nat, right: nat) -> nat {
    rounded(left + right, 1)
}

/// A score with so many hundredths added, where there are any to add.
pub open spec fn added(score: nat, points: nat) -> nat {
    if points == 0 {
        score
    } else {
        sum(score, hundredths(points))
    }
}

/// A score that is at most the whole.
pub open spec fn capped(score: nat) -> nat {
    if score > WHOLE {
        WHOLE as nat
    } else {
        score
    }
}

/// A score.
#[derive(Clone, Copy, Debug, PartialEq, Eq, PartialOrd, Ord)]
pub struct Confidence {
    pub units: u64,
}

impl View for Confidence {
    type V = nat;

    open spec fn view(&self) -> nat {
        self.units as nat
    }
}

/// Doubles around the whole are at most 512 units apart.
proof fn lemma_quantum(n: nat)
    requires
        n < 4 * WHOLE,
    ensures
        1 <= quantum(n) <= 512,
{
    reveal_with_fuel(quantum, 10);
}

/// Rounding moves a number by no more than the distance of doubles.
pub proof fn lemma_rounded(numerator: nat, denominator: nat)
    requires
        denominator > 0,
        numerator / denominator < 4 * WHOLE,
    ensures
        numerator / denominator - 512 <= rounded(numerator, denominator) <= numerator / denominator
            + 512,
{
    let step = quantum(numerator / denominator);
    lemma_quantum(numerator / denominator);
    lemma_multiple_bounds(numerator, denominator, step);
}

proof fn lemma_multiple_bounds(numerator: nat, denominator: nat, step: nat)
    requires
        denominator > 0,
        step > 0,
    ensures
        denominator * step > 0,
        numerator / denominator - step <= nearest(numerator, denominator * step) * step
            <= numerator / denominator + step,
{
    let floor = numerator / (denominator * step);
    assert(denominator * step > 0) by (nonlinear_arith)
        requires
            denominator > 0,
            step > 0,
    ;
    vstd::arithmetic::div_mod::lemma_div_denominator(
        numerator as int,
        denominator as int,
        step as int,
    );
    vstd::arithmetic::div_mod::lemma_fundamental_div_mod(
        (numerator / denominator) as int,
        step as int,
    );
    assert(floor == (numerator / denominator) / step);
    assert(step * floor == floor * step) by (nonlinear_arith);
    assert((floor + 1) * step == floor * step + step) by (nonlinear_arith);
}

/// Adding hundredths to a score is rounded twice.
pub proof fn lemma_added(score: nat, points: nat)
    requires
        score <= 2 * WHOLE,
        points <= 100,
    ensures
        points * WHOLE / 100 - 512 <= hundredths(points) <= points * WHOLE / 100 + 512,
        score + points * WHOLE / 100 - 1024 <= added(score, points) <= score + points * WHOLE / 100
            + 1024,
{
    assert(points * WHOLE <= 100 * WHOLE) by (nonlinear_arith)
        requires
            points <= 100,
    ;
    lemma_rounded(points * WHOLE as nat, 100);
    lemma_rounded(score + hundredths(points), 1);
}

/// Rounds `numerator / denominator` units to a double.
fn round_to_double(numerator: u128, denominator: u128) -> (units: u64)
    requires
        0 < denominator <= 100,
        numerator / denominator < 4 * WHOLE,
    ensures
        units as nat == rounded(numerator as nat, denominator as nat),
{
    let ghost whole_part = (numerator / denominator) as nat;
    let mut left: u128 = numerator / denominator;
    let mut step: u128 = 1;
    proof {
        lemma_quantum(whole_part);
    }
    while left >= WIDE as u128
        invariant
            1 <= step,
            step * quantum(left as nat) == quantum(whole_part),
            quantum(whole_part) <= 512,
            left < 4 * WHOLE,
        decreases left,
    {
        proof {
            lemma_quantum((left / 2) as nat);
            assert(step * (2 * quantum((left / 2) as nat)) == (2 * step) * quantum(
                (left / 2) as nat,
            )) by (nonlinear_arith);
            assert(2 * step <= (2 * step) * quantum((left / 2) as nat)) by (nonlinear_arith)
                requires
                    quantum((left / 2) as nat) >= 1,
            ;
        }
        left = left / 2;
        step = 2 * step;
    }
    assert(quantum(left as nat) == 1);
    assert(step * 1 == step);
    assert(step == quantum(whole_part));
    proof {
        lemma_multiple_bounds(numerator as nat, denominator as nat, step as nat);
        assert(denominator * step <= 100 * 512) by (nonlinear_arith)
            requires
                denominator <= 100,
                step <= 512,
        ;
    }
    let divisor: u128 = denominator * step;
    let floor: u128 = numerator / divisor;
    let rest: u128 = numerator % divisor;
    proof {
        lemma_rounded(numerator as nat, denominator as nat);
        assert(floor <= floor * step) by (nonlinear_arith)
            requires
                step >= 1,
        ;
        assert((floor + 1) * step == floor * step + step) by (nonlinear_arith);
        vstd::arithmetic::div_mod::lemma_div_denominator(
            numerator as int,
            denominator as int,
            step as int,
        );
        vstd::arithmetic::div_mod::lemma_fundamental_div_mod(whole_part as int, step as int);
        assert(step * floor == floor * step) by (nonlinear_arith);
    }
    let count: u128 = if 2 * rest < divisor || (2 * rest == divisor && floor % 2 == 0) {
        floor
    } else {
        floor + 1
    };
    (count * step) as u64
}

impl Confidence {
    /// The score of so many hundredths.
    pub fn hundredths(n: u64) -> (r: Confidence)
        requires
            n <= 100,
        ensures
            r@ == hundredths(n as nat),
    {
        assert(n as u128 * WHOLE as u128 <= 100 * WHOLE) by (nonlinear_arith)
            requires
                n <= 100,
        ;
        Confidence { units: round_to_double(n as u128 * WHOLE as u128, 100) }
    }

    /// The sum of two scores.
    pub fn plus(self, other: Confidence) -> (r: Confidence)
        requires
            self@ + other@ < 4 * WHOLE,
        ensures
            r@ == sum(self@, other@),
    {
        Confidence { units: round_to_double(self.units as u128 + other.units as u128, 1) }
    }

    /// The score with so many hundredths added.
    pub(crate) fn with_points(self, points: u64) -> (r: Confidence)
        requires
            self@ <= 2 * WHOLE,
            0 < points <= 100,
        ensures
            r@ == added(self@, points as nat),
            r@ <= self@ + points * WHOLE / 100 + 1024,
    {
        proof {
            lemma_added(self@, points as nat);
        }
        self.plus(Confidence::hundredths(points))
    }

    /// The score, at most the whole.
    pub fn capped(self) -> (r: Confidence)
        ensures
            r@ == capped(self@),
    {
        if self.units > WHOLE {
            Confidence { units: WHOLE }
        } else {
            self
        }
    }
}

/// The decimals of so many units that are less than the whole, up to the last that is not zero and
/// at most so many.
pub open spec fn decimals(rest: nat, places: nat) -> Seq<char>
    decreases places,
{
    if rest == 0 || places == 0 {
        Seq::empty()
    } else {
        seq![digit_char((rest * 10 / WHOLE as nat) as int)] + decimals(
            rest * 10 % WHOLE as nat,
            (places - 1) as nat,
        )
    }
}

/// So many units as a decimal number, with all its decimals and at least one.
pub open spec fn decimal_digits(units: nat) -> Seq<char> {
    let rest = units % WHOLE as nat;
    digits_of(units / WHOLE as nat, 10) + "."@ + if rest == 0 {
        seq![digit_char(0)]
    } else {
        decimals(rest, 60)
    }
}

/// Sixty decimals write every number of units exactly.
pub proof fn law_decimals_are_exact(rest: nat)
    requires
        rest < WHOLE,
    ensures
        decimal_value(decimals(rest, 60)) * WHOLE == rest * pow(
            10,
            decimals(rest, 60).len(),
        ),
{
    vstd::arithmetic::power2::lemma2_to64();
    lemma_decimals(rest, 60);
}

proof fn lemma_decimals(rest: nat, places: nat)
    requires
        rest < WHOLE,
        places <= 60,
        rest % pow2((60 - places) as nat) == 0,
    ensures
        decimal_value(decimals(rest, places)) * WHOLE == rest * pow(
            10,
            decimals(rest, places).len(),
        ),
    decreases places,
{
    vstd::arithmetic::power::lemma_pow0(10);
    if rest == 0 {
    } else if places == 0 {
        vstd::arithmetic::power2::lemma2_to64_rest();
        assert(pow2(60) == WHOLE);
        vstd::arithmetic::div_mod::lemma_small_mod(rest, WHOLE as nat);
    } else {
        let digit = rest * 10 / WHOLE as nat;
        let next = rest * 10 % WHOLE as nat;
        let later = decimals(next, (places - 1) as nat);
        let scale = pow(10, later.len());
        lemma_rest_divides(rest, (60 - places) as nat);
        lemma_decimals(next, (places - 1) as nat);
        lemma_leading_digit(digit_char(digit as int), later);
        vstd::arithmetic::power::lemma_pow_adds(10, later.len(), 1);
        vstd::arithmetic::power::lemma_pow1(10);
        assert((digit_char(digit as int) as u32 - 0x30) == digit);
        assert((digit * scale + decimal_value(later)) * WHOLE == rest * (scale * 10))
            by (nonlinear_arith)
            requires
                decimal_value(later) * WHOLE == next * scale,
                rest * 10 == WHOLE * digit + next,
        ;
        assert(decimals(rest, places) == seq![digit_char(digit as int)] + later);
        assert(decimals(rest, places).len() == later.len() + 1);
        assert(pow(10, decimals(rest, places).len()) == scale * 10);
    }
}

/// Each decimal takes one more factor of two out of what is left.
proof fn lemma_rest_divides(rest: nat, k: nat)
    requires
        k < 60,
        rest % pow2(k) == 0,
    ensures
        (rest * 10 % WHOLE as nat) % pow2(k + 1) == 0,
{
    let half = pow2(k) as int;
    let unit = pow2(k + 1) as int;
    let others = pow2((59 - k) as nat) as int;
    vstd::arithmetic::power2::lemma_pow2_pos(k);
    vstd::arithmetic::power2::lemma_pow2_pos(k + 1);
    vstd::arithmetic::power2::lemma_pow2_adds(k, 1);
    vstd::arithmetic::power2::lemma_pow2_adds(k + 1, (59 - k) as nat);
    vstd::arithmetic::power2::lemma2_to64();
    vstd::arithmetic::power2::lemma2_to64_rest();
    assert(unit == 2 * half);
    assert(unit * others == WHOLE);
    let times = rest as int / half;
    vstd::arithmetic::div_mod::lemma_fundamental_div_mod(rest as int, half);
    assert(rest == half * times);
    let quotient = rest as int * 10 / WHOLE as int;
    vstd::arithmetic::div_mod::lemma_fundamental_div_mod(rest as int * 10, WHOLE as int);
    let left = rest as int * 10 - WHOLE * quotient;
    assert(left == (5 * times - others * quotient) * unit) by (nonlinear_arith)
        requires
            left == rest as int * 10 - WHOLE * quotient,
            rest == half * times,
            unit == 2 * half,
            unit * others == WHOLE,
    ;
    vstd::arithmetic::div_mod::lemma_mod_multiples_basic(5 * times - others * quotient, unit);
}

proof fn lemma_leading_digit(digit: char, later: Seq<char>)
    ensures
        decimal_value(seq![digit] + later) == (digit as u32 - 0x30) * pow(10, later.len())
            + decimal_value(later),
    decreases later.len(),
{
    vstd::arithmetic::power::lemma_pow0(10);
    let text = seq![digit] + later;
    if later.len() == 0 {
        assert(text.drop_last() =~= Seq::<char>::empty());
        assert(text.last() == digit);
        assert(decimal_value(text.drop_last()) == 0);
    } else {
        let shorter = later.drop_last();
        assert(text.drop_last() =~= seq![digit] + shorter);
        assert(text.last() == later.last());
        lemma_leading_digit(digit, shorter);
        vstd::arithmetic::power::lemma_pow_adds(10, shorter.len(), 1);
        vstd::arithmetic::power::lemma_pow1(10);
        let first = digit as u32 - 0x30;
        let scale = pow(10, shorter.len());
        assert((first * scale) * 10 == first * (scale * 10)) by (nonlinear_arith);
    }
}

impl Confidence {
    /// The score as a decimal number, with all its decimals.
    pub fn decimal(self) -> (text: String)
        ensures
            text@ == decimal_digits(self@),
    {
        let ghost head = digits_of((self.units / WHOLE) as nat, 10) + "."@;
        let mut text = decimal_text(self.units / WHOLE).concat(".");
        let mut rest: u64 = self.units % WHOLE;
        if rest == 0 {
            return text.concat(digit_text(0));
        }
        let ghost whole_rest = rest as nat;
        let mut places: u64 = 60;
        assert(text@ + decimals(rest as nat, places as nat) == head + decimals(whole_rest, 60));
        while rest != 0 && places != 0
            invariant
                rest < WHOLE,
                text@ + decimals(rest as nat, places as nat) == head + decimals(whole_rest, 60),
            decreases places,
        {
            let ghost before = text@;
            let ghost after = decimals(
                (rest as nat * 10) % WHOLE as nat,
                (places - 1) as nat,
            );
            text = text.concat(digit_text(rest * 10 / WHOLE));
            rest = rest * 10 % WHOLE;
            places = places - 1;
            assert(text@ + after =~= before + (seq![text@.last()] + after));
        }
        assert(text@ =~= head + decimals(whole_rest, 60));
        text
    }
}

} // verus!
