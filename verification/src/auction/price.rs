//! The price model: the price an auction offers at a height.
//!
//! The price falls from `max_output` to `min_output` in `step_count` equal
//! steps between `start_height` and `end_height`. All of it is integer
//! arithmetic, so that every node computes the same price.

use vstd::prelude::*;
use vstd::arithmetic::div_mod::{
    lemma_div_is_ordered, lemma_div_multiples_vanish, lemma_div_pos_is_pos,
    lemma_fundamental_div_mod, lemma_hoist_over_denominator, lemma_mod_bound,
};
use vstd::arithmetic::mul::{lemma_mul_inequality, lemma_mul_is_commutative, lemma_mul_nonnegative};
use crate::auction::description::DutchAuctionDescription;
use crate::num::Amount;

verus! {

/// A price as a ratio: at most `numerator` units of output per
/// `denominator` units of input.
#[derive(Clone, Copy, Debug, PartialEq, Eq, Structural)]
pub struct Price {
    pub numerator: Amount,
    pub denominator: Amount,
}

impl Price {
    /// Whether this price is at least `other`, as a ratio.
    pub open spec fn at_least(self, other: Price) -> bool {
        self.numerator.inner * other.denominator.inner >= other.numerator.inner
            * self.denominator.inner
    }
}

impl DutchAuctionDescription {
    /// The number of heights between two price steps.
    pub open spec fn step_length(self) -> int {
        (self.end_height - self.start_height) / (self.step_count as int)
    }

    /// The price step in force at `height`: the number of whole step lengths
    /// since `start_height`, held within `0 ..= step_count`.
    pub open spec fn step_index(self, height: u64) -> int {
        if height <= self.start_height {
            0
        } else if height >= self.end_height {
            self.step_count as int
        } else {
            (height - self.start_height) / self.step_length()
        }
    }

    /// The output offered for the whole input at step `i`: the linear
    /// interpolation between `max_output` and `min_output`, with the
    /// reduction truncated.
    pub open spec fn output_at_step(self, i: int) -> int {
        self.max_output.inner - (i * (self.max_output.inner - self.min_output.inner)) / (
        self.step_count as int)
    }

    /// The price in force at `height`.
    pub open spec fn spec_price_at(self, height: u64) -> Price {
        Price {
            numerator: Amount { inner: self.output_at_step(self.step_index(height)) as u128 },
            denominator: self.input.amount,
        }
    }

    /// A valid description has a step length of at least one, and its steps
    /// fill the range of heights exactly.
    pub proof fn lemma_step_length(self)
        requires
            self.valid(),
        ensures
            self.step_length() >= 1,
            self.step_length() * self.step_count == self.end_height - self.start_height,
    {
        let span = self.end_height - self.start_height;
        let n = self.step_count as int;
        lemma_fundamental_div_mod(span, n);
        assert(span == n * (span / n));
        lemma_mul_is_commutative(n, span / n);
        if span / n <= 0 {
            lemma_div_pos_is_pos(span, n);
            assert(n * (span / n) == 0) by (nonlinear_arith)
                requires
                    span / n == 0,
            ;
        }
    }

    /// The step index lies within `0 ..= step_count`.
    pub proof fn lemma_step_index_bounds(self, height: u64)
        requires
            self.valid(),
        ensures
            0 <= self.step_index(height) <= self.step_count,
    {
        self.lemma_step_length();
        if self.start_height < height < self.end_height {
            let len = self.step_length();
            let x = height - self.start_height;
            lemma_div_pos_is_pos(x, len);
            lemma_div_is_ordered(x, len * self.step_count, len);
            lemma_mul_is_commutative(len, self.step_count as int);
            lemma_div_multiples_vanish(self.step_count as int, len);
        }
    }

    /// The step index never falls as the height rises.
    pub proof fn lemma_step_index_monotonic(self, h1: u64, h2: u64)
        requires
            self.valid(),
            h1 <= h2,
        ensures
            self.step_index(h1) <= self.step_index(h2),
    {
        self.lemma_step_length();
        self.lemma_step_index_bounds(h1);
        self.lemma_step_index_bounds(h2);
        if self.start_height < h1 && h2 < self.end_height {
            lemma_div_is_ordered(
                h1 - self.start_height,
                h2 - self.start_height,
                self.step_length(),
            );
        }
    }

    /// The offered output lies between `min_output` and `max_output`, is
    /// `max_output` at step zero and `min_output` at the last step, and never
    /// rises from one step to a later one.
    pub proof fn lemma_output_at_step(self, i: int, j: int)
        requires
            self.valid(),
            0 <= i <= j <= self.step_count,
        ensures
            self.min_output.inner <= self.output_at_step(j) <= self.output_at_step(i)
                <= self.max_output.inner,
            self.output_at_step(0) == self.max_output.inner,
            self.output_at_step(self.step_count as int) == self.min_output.inner,
    {
        let d = self.max_output.inner - self.min_output.inner;
        let n = self.step_count as int;
        lemma_mul_inequality(i, j, d);
        lemma_mul_inequality(j, n, d);
        lemma_mul_nonnegative(i, d);
        lemma_div_is_ordered(i * d, j * d, n);
        lemma_div_is_ordered(j * d, n * d, n);
        lemma_div_is_ordered(0, i * d, n);
        lemma_mul_is_commutative(n, d);
        lemma_div_multiples_vanish(d, n);
        assert(0 * d == 0);
        assert(0int / n == 0);
    }

    /// The rounding of the price: the offered output at a step is the
    /// exact point on the line from `max_output` to `min_output`, rounded up
    /// to the next whole amount. It is never below the line, and less than
    /// one above it.
    pub proof fn lemma_output_rounding(self, i: int)
        requires
            self.valid(),
            0 <= i <= self.step_count,
        ensures
            self.output_at_step(i) * self.step_count >= self.max_output.inner * self.step_count
                - i * (self.max_output.inner - self.min_output.inner),
            (self.output_at_step(i) - 1) * self.step_count < self.max_output.inner
                * self.step_count - i * (self.max_output.inner - self.min_output.inner),
    {
        let d = self.max_output.inner - self.min_output.inner;
        let n = self.step_count as int;
        let x = i * d;
        lemma_fundamental_div_mod(x, n);
        lemma_mod_bound(x, n);
        let q = x / n;
        let out = self.output_at_step(i);
        assert(out == self.max_output.inner - q);
        assert(out * n == self.max_output.inner * n - q * n) by (nonlinear_arith)
            requires
                out == self.max_output.inner - q,
        ;
        assert((out - 1) * n == self.max_output.inner * n - q * n - n) by (nonlinear_arith)
            requires
                out == self.max_output.inner - q,
        ;
        lemma_mul_is_commutative(n, q);
    }
}

/// The reduction `(i * d) / n`, computed without forming `i * d`.
fn scaled_reduction(i: u64, d: u128, n: u64) -> (r: u128)
    requires
        n >= 1,
        i <= n,
    ensures
        r == (i * d) / (n as int),
        r <= d,
{
    let q: u128 = d / (n as u128);
    let rem: u128 = d % (n as u128);
    proof {
        let ii = i as int;
        let nn = n as int;
        let dd = d as int;
        lemma_fundamental_div_mod(dd, nn);
        lemma_mod_bound(dd, nn);
        assert(dd == nn * (q as int) + (rem as int));
        // i * q stays within d, and i * rem within the square of 2^64.
        lemma_mul_inequality(ii, nn, q as int);
        lemma_mul_nonnegative(ii, q as int);
        assert(ii * (q as int) <= dd);
        lemma_mul_inequality(ii, nn, rem as int);
        lemma_mul_nonnegative(ii, rem as int);
        assert(nn * (rem as int) <= 0xffff_ffff_ffff_ffff * 0xffff_ffff_ffff_ffff)
            by (nonlinear_arith)
            requires
                0 <= nn <= 0xffff_ffff_ffff_ffff,
                0 <= rem < nn,
        ;
        // i * d == (i * q) * n + i * rem
        assert(ii * dd == (ii * (q as int)) * nn + ii * (rem as int)) by (nonlinear_arith)
            requires
                dd == nn * (q as int) + (rem as int),
        ;
        lemma_hoist_over_denominator(ii * (rem as int), ii * (q as int), nn as nat);
        // the whole reduction is at most d
        lemma_mul_inequality(ii, nn, dd);
        lemma_mul_nonnegative(ii, dd);
        lemma_div_is_ordered(ii * dd, nn * dd, nn);
        lemma_mul_is_commutative(nn, dd);
        lemma_div_multiples_vanish(dd, nn);
    }
    let whole: u128 = (i as u128) * q;
    let part: u128 = ((i as u128) * rem) / (n as u128);
    whole + part
}

/// The price that the auction offers at `height`: the output offered for
/// the whole input at the step in force, over the input.
///
/// Before `start_height` the price is `max_output`; from `end_height` on it
/// is `min_output`.
pub fn price_at(description: &DutchAuctionDescription, height: u64) -> (price: Price)
    requires
        description.valid(),
    ensures
        price == description.spec_price_at(height),
        price.numerator.inner == description.output_at_step(description.step_index(height)),
        description.min_output.inner <= price.numerator.inner <= description.max_output.inner,
        height <= description.start_height ==> price.numerator == description.max_output,
        height >= description.end_height ==> price.numerator == description.min_output,
{
    proof {
        description.lemma_step_length();
        description.lemma_step_index_bounds(height);
        description.lemma_output_at_step(
            description.step_index(height),
            description.step_index(height),
        );
    }
    let index: u64 = if height <= description.start_height {
        0
    } else if height >= description.end_height {
        description.step_count
    } else {
        let length: u64 = (description.end_height - description.start_height)
            / description.step_count;
        (height - description.start_height) / length
    };
    let spread: u128 = description.max_output.inner - description.min_output.inner;
    let reduction: u128 = scaled_reduction(index, spread, description.step_count);
    Price {
        numerator: Amount { inner: description.max_output.inner - reduction },
        denominator: description.input.amount,
    }
}

/// The price never rises: at a later height the auction offers at most
/// what it offered at an earlier one.
pub proof fn lemma_price_monotonic(description: DutchAuctionDescription, h1: u64, h2: u64)
    requires
        description.valid(),
        h1 <= h2,
    ensures
        description.spec_price_at(h1).numerator.inner >= description.spec_price_at(
            h2,
        ).numerator.inner,
        description.spec_price_at(h1).denominator == description.spec_price_at(h2).denominator,
        description.spec_price_at(h1).at_least(description.spec_price_at(h2)),
{
    description.lemma_step_index_bounds(h1);
    description.lemma_step_index_bounds(h2);
    description.lemma_step_index_monotonic(h1, h2);
    description.lemma_output_at_step(description.step_index(h1), description.step_index(h2));
    let n1 = description.spec_price_at(h1).numerator.inner as int;
    let n2 = description.spec_price_at(h2).numerator.inner as int;
    let den = description.input.amount.inner as int;
    lemma_mul_inequality(n2, n1, den);
}

} // verus!
