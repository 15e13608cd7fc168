//! Decimal amounts.
//!
//! An [`Amount`] is a signed 96-bit mantissa and a scale: the number
//! `mantissa / 10^scale`. This is exactly what a `rust_decimal::Decimal`
//! holds, written as plain integers so that contracts can speak of it.
//! Its view is a [`Dec`], the same pair as mathematical integers.
//!
//! This module holds the model and what is proved of it. Sums, differences,
//! comparisons and rounding are computed by `rust_decimal`, through the
//! functions in [`crate::decimal`].
//!
//! Where a sum or a difference fits in 96 bits at the larger of the two
//! scales, the model gives it in full. Where it does not, `rust_decimal`
//! rounds it to fewer digits, if there are digits to round away; the model
//! then only names the result, as [`rounded_sum`] and
//! [`rounded_difference`]. Two whole numbers whose sum or difference does not
//! fit have none.

use crate::decimal::{rounded_difference, rounded_sum};
use vstd::prelude::*;

verus! {

/// The largest mantissa of a decimal: `2^96 - 1`.
pub const MAX_MANTISSA: i128 = 0xFFFF_FFFF_FFFF_FFFF_FFFF_FFFF;

/// The largest scale of a decimal.
pub const MAX_SCALE: u32 = 28;

/// The number of fractional digits that an account keeps.
pub const FRACTION_DIGITS: u32 = 4;

/// `10^n`.
pub open spec fn pow10(n: nat) -> int
    decreases n,
{
    if n == 0 {
        1
    } else {
        10 * pow10((n - 1) as nat)
    }
}

/// `|m| / p` rounded to the nearest integer, a half going away from zero, with
/// the sign of `m`. `p` is a positive even number.
pub open spec fn round_half_away(m: int, p: int) -> int {
    if m >= 0 {
        (m + p / 2) / p
    } else {
        -((-m + p / 2) / p)
    }
}

/// The mathematical model of an [`Amount`]: the number `mantissa / 10^scale`.
pub struct Dec {
    pub mantissa: int,
    pub scale: nat,
}

impl Dec {
    /// The mantissa fits in 96 bits and the scale is at most 28.
    pub open spec fn wf(self) -> bool {
        &&& -MAX_MANTISSA <= self.mantissa <= MAX_MANTISSA
        &&& self.scale <= MAX_SCALE
    }

    /// The number itself, in units of `10^-28`. Two decimals are the same
    /// number exactly when their values are equal.
    pub open spec fn value(self) -> int {
        self.mantissa * pow10((MAX_SCALE - self.scale) as nat)
    }

    /// The mantissa that this number has at `scale`, which is at least its own.
    pub open spec fn aligned(self, scale: nat) -> int {
        self.mantissa * pow10((scale - self.scale) as nat)
    }

    /// The same magnitude with the opposite sign.
    pub open spec fn negated(self) -> Dec {
        Dec { mantissa: -self.mantissa, scale: self.scale }
    }

    /// The number rounded to `scale` fractional digits, which are fewer than
    /// its own: a half goes away from zero.
    pub open spec fn rounded(self, scale: nat) -> Dec {
        Dec {
            mantissa: round_half_away(self.mantissa, pow10((self.scale - scale) as nat)),
            scale,
        }
    }

    /// `self <= other`, as numbers.
    pub open spec fn le(self, other: Dec) -> bool {
        self.value() <= other.value()
    }

    /// The number as an account applies it: with more than four fractional
    /// digits it is rounded to four.
    pub open spec fn limited(self) -> Dec {
        if self.scale > FRACTION_DIGITS {
            self.rounded(FRACTION_DIGITS as nat)
        } else {
            self
        }
    }
}

/// The larger of two scales.
pub open spec fn common_scale(a: Dec, b: Dec) -> nat {
    if a.scale >= b.scale {
        a.scale
    } else {
        b.scale
    }
}

/// The mantissa of `a + b` at the larger of the two scales.
pub open spec fn aligned_sum(a: Dec, b: Dec) -> int {
    a.aligned(common_scale(a, b)) + b.aligned(common_scale(a, b))
}

/// The mantissa of `a - b` at the larger of the two scales.
pub open spec fn aligned_difference(a: Dec, b: Dec) -> int {
    a.aligned(common_scale(a, b)) - b.aligned(common_scale(a, b))
}

/// `a + b` needs no rounding: one of the two is zero, or the sum at the larger
/// scale fits in 96 bits.
pub open spec fn sum_is_exact(a: Dec, b: Dec) -> bool {
    a.mantissa == 0 || b.mantissa == 0 || -MAX_MANTISSA <= aligned_sum(a, b) <= MAX_MANTISSA
}

/// `a - b` needs no rounding: one of the two is zero, or the difference at the
/// larger scale fits in 96 bits.
pub open spec fn difference_is_exact(a: Dec, b: Dec) -> bool {
    a.mantissa == 0 || b.mantissa == 0 || -MAX_MANTISSA <= aligned_difference(a, b)
        <= MAX_MANTISSA
}

/// `a + b` where it needs no rounding. Adding zero gives the other operand
/// with its own scale; otherwise the sum has the larger of the two scales.
pub open spec fn exact_sum(a: Dec, b: Dec) -> Dec {
    if a.mantissa == 0 {
        b
    } else if b.mantissa == 0 {
        a
    } else {
        Dec { mantissa: aligned_sum(a, b), scale: common_scale(a, b) }
    }
}

/// `a - b` where it needs no rounding, in the same way as [`exact_sum`].
pub open spec fn exact_difference(a: Dec, b: Dec) -> Dec {
    if a.mantissa == 0 {
        b.negated()
    } else if b.mantissa == 0 {
        a
    } else {
        Dec { mantissa: aligned_difference(a, b), scale: common_scale(a, b) }
    }
}

/// Both decimals are whole numbers: neither has a fractional digit, so there
/// is none to round away.
pub open spec fn both_whole(a: Dec, b: Dec) -> bool {
    a.scale == 0 && b.scale == 0
}

/// The sum of two decimals as `rust_decimal` computes it: the exact sum where
/// that fits in 96 bits, no sum where two whole numbers add up to more, and
/// a rounded sum or none elsewhere.
pub open spec fn checked_sum(a: Dec, b: Dec) -> Option<Dec> {
    if sum_is_exact(a, b) {
        Some(exact_sum(a, b))
    } else if both_whole(a, b) {
        None
    } else {
        rounded_sum(a, b)
    }
}

/// The difference of two decimals as `rust_decimal` computes it, in the same
/// way as [`checked_sum`].
pub open spec fn checked_difference(a: Dec, b: Dec) -> Option<Dec> {
    if difference_is_exact(a, b) {
        Some(exact_difference(a, b))
    } else if both_whole(a, b) {
        None
    } else {
        rounded_difference(a, b)
    }
}

/// Every power of ten is positive.
pub proof fn lemma_pow10_positive(n: nat)
    ensures
        pow10(n) > 0,
    decreases n,
{
    if n > 0 {
        lemma_pow10_positive((n - 1) as nat);
    }
}

/// `10^(a + b) == 10^a * 10^b`.
pub proof fn lemma_pow10_adds(a: nat, b: nat)
    ensures
        pow10(a + b) == pow10(a) * pow10(b),
    decreases a,
{
    if a > 0 {
        lemma_pow10_adds((a - 1) as nat, b);
        assert(10 * (pow10((a - 1) as nat) * pow10(b)) == (10 * pow10((a - 1) as nat)) * pow10(b))
            by (nonlinear_arith);
    }
}

/// Writing a decimal with more fractional digits does not change the number.
pub proof fn lemma_aligned_value(d: Dec, scale: nat)
    requires
        d.scale <= scale <= MAX_SCALE,
    ensures
        d.aligned(scale) * pow10((MAX_SCALE - scale) as nat) == d.value(),
{
    let up = pow10((scale - d.scale) as nat);
    let rest = pow10((MAX_SCALE - scale) as nat);
    lemma_pow10_adds((scale - d.scale) as nat, (MAX_SCALE - scale) as nat);
    assert((d.mantissa * up) * rest == d.mantissa * (up * rest)) by (nonlinear_arith);
}

/// Where a sum needs no rounding, it is the sum of the two numbers.
pub proof fn lemma_exact_sum_value(a: Dec, b: Dec)
    requires
        a.scale <= MAX_SCALE,
        b.scale <= MAX_SCALE,
    ensures
        exact_sum(a, b).value() == a.value() + b.value(),
{
    let scale = common_scale(a, b);
    let rest = pow10((MAX_SCALE - scale) as nat);
    lemma_aligned_value(a, scale);
    lemma_aligned_value(b, scale);
    assert((a.aligned(scale) + b.aligned(scale)) * rest == a.aligned(scale) * rest + b.aligned(
        scale,
    ) * rest) by (nonlinear_arith);
    assert(0 * pow10((MAX_SCALE - a.scale) as nat) == 0);
    assert(0 * pow10((MAX_SCALE - b.scale) as nat) == 0);
}

/// Where a difference needs no rounding, it is the difference of the two
/// numbers.
pub proof fn lemma_exact_difference_value(a: Dec, b: Dec)
    requires
        a.scale <= MAX_SCALE,
        b.scale <= MAX_SCALE,
    ensures
        exact_difference(a, b).value() == a.value() - b.value(),
{
    let scale = common_scale(a, b);
    let rest = pow10((MAX_SCALE - scale) as nat);
    let own = pow10((MAX_SCALE - b.scale) as nat);
    lemma_aligned_value(a, scale);
    lemma_aligned_value(b, scale);
    assert((a.aligned(scale) - b.aligned(scale)) * rest == a.aligned(scale) * rest - b.aligned(
        scale,
    ) * rest) by (nonlinear_arith);
    assert(0 * pow10((MAX_SCALE - a.scale) as nat) == 0);
    assert(0 * own == 0);
    assert((-b.mantissa) * own == -(b.mantissa * own)) by (nonlinear_arith);
}

/// Rounding `m / p` keeps the sign, does not grow the magnitude, and is off by
/// at most half of `p`.
pub proof fn lemma_round_half_away(m: int, p: int)
    requires
        p >= 2,
        p % 2 == 0,
    ensures
        m >= 0 ==> 0 <= round_half_away(m, p) <= m,
        m <= 0 ==> m <= round_half_away(m, p) <= 0,
        -p <= 2 * (round_half_away(m, p) * p - m) <= p,
{
    let half = p / 2;
    assert(p == 2 * half);
    if m >= 0 {
        let q = (m + half) / p;
        assert(q * p <= m + half < q * p + p && 0 <= q <= m) by (nonlinear_arith)
            requires
                q == (m + half) / p,
                p == 2 * half,
                half >= 1,
                m >= 0,
        ;
    } else {
        let q = (-m + half) / p;
        assert(q * p <= -m + half < q * p + p && 0 <= q <= -m) by (nonlinear_arith)
            requires
                q == (-m + half) / p,
                p == 2 * half,
                half >= 1,
                -m >= 0,
        ;
        assert((-q) * p == -(q * p)) by (nonlinear_arith);
    }
}

/// A decimal rounded to fewer fractional digits is well formed, and differs
/// from the number by at most half a unit of its last digit.
pub proof fn lemma_rounded(d: Dec, scale: nat)
    requires
        d.wf(),
        scale < d.scale,
    ensures
        d.rounded(scale).wf(),
        d.rounded(scale).scale == scale,
        d.mantissa >= 0 ==> d.rounded(scale).mantissa >= 0,
        -pow10((MAX_SCALE - scale) as nat) <= 2 * (d.rounded(scale).value() - d.value()) <= pow10(
            (MAX_SCALE - scale) as nat,
        ),
{
    let dropped = (d.scale - scale) as nat;
    let p = pow10(dropped);
    let rest = pow10((MAX_SCALE - d.scale) as nat);
    let r = round_half_away(d.mantissa, p);
    lemma_pow10_positive((dropped - 1) as nat);
    lemma_pow10_positive((MAX_SCALE - d.scale) as nat);
    assert(p == 10 * pow10((dropped - 1) as nat));
    assert(p % 2 == 0 && p >= 2) by (nonlinear_arith)
        requires
            p == 10 * pow10((dropped - 1) as nat),
            pow10((dropped - 1) as nat) > 0,
    ;
    lemma_round_half_away(d.mantissa, p);
    lemma_pow10_adds(dropped, (MAX_SCALE - d.scale) as nat);
    assert(pow10((MAX_SCALE - scale) as nat) == p * rest);
    assert(d.rounded(scale).value() == r * (p * rest));
    assert(r * (p * rest) - d.mantissa * rest == (r * p - d.mantissa) * rest) by (nonlinear_arith);
    assert(-(p * rest) <= 2 * ((r * p - d.mantissa) * rest) <= p * rest) by (nonlinear_arith)
        requires
            -p <= 2 * (r * p - d.mantissa) <= p,
            rest > 0,
    ;
}

/// The amount that an account applies is well formed and has at most four
/// fractional digits.
pub proof fn lemma_limited_wf(d: Dec)
    requires
        d.wf(),
    ensures
        d.limited().wf(),
        d.limited().scale <= FRACTION_DIGITS,
        d.mantissa >= 0 ==> d.limited().mantissa >= 0,
{
    if d.scale > FRACTION_DIGITS {
        lemma_rounded(d, FRACTION_DIGITS as nat);
    }
}

/// A decimal number: `mantissa / 10^scale`, with a mantissa of at most 96 bits
/// and a scale of at most 28.
///
/// Two amounts are equal when mantissa and scale are: `2` and `2.0` are the
/// same number and different amounts.
#[derive(Clone, Copy, Debug, PartialEq, Eq, Structural)]
pub struct Amount {
    pub(crate) mantissa: i128,
    pub(crate) scale: u32,
}

impl View for Amount {
    type V = Dec;

    closed spec fn view(&self) -> Dec {
        Dec { mantissa: self.mantissa as int, scale: self.scale as nat }
    }
}

/// The view of an amount that may be missing.
pub open spec fn view_of(r: Option<Amount>) -> Option<Dec> {
    match r {
        Some(x) => Some(x@),
        None => None,
    }
}

impl Amount {
    /// Holds of every amount: the mantissa fits in 96 bits and the scale is at
    /// most 28.
    #[verifier::type_invariant]
    pub open spec fn in_range(self) -> bool {
        self@.wf()
    }

    /// The amount whose view is `d`.
    pub closed spec fn from_view(d: Dec) -> Amount {
        Amount { mantissa: d.mantissa as i128, scale: d.scale as u32 }
    }

    /// An amount is determined by its view.
    pub broadcast proof fn lemma_from_view(self)
        ensures
            #[trigger] Amount::from_view(self@) == self,
    {
    }

    /// Every well-formed decimal is the view of an amount.
    pub broadcast proof fn lemma_view_from_view(d: Dec)
        requires
            d.wf(),
        ensures
            #[trigger] Amount::from_view(d)@ == d,
    {
    }

    /// Zero, with no fractional digits.
    pub fn zero() -> (r: Amount)
        ensures
            r@ == (Dec { mantissa: 0, scale: 0 }),
    {
        Amount { mantissa: 0, scale: 0 }
    }

    /// The amount `mantissa / 10^scale`, or `None` when the mantissa needs more
    /// than 96 bits or the scale is above 28.
    pub fn from_parts(mantissa: i128, scale: u32) -> (r: Option<Amount>)
        ensures
            match r {
                Some(a) => a@.mantissa == mantissa && a@.scale == scale && a@.wf(),
                None => !(Dec { mantissa: mantissa as int, scale: scale as nat }).wf(),
            },
    {
        if scale <= MAX_SCALE && -MAX_MANTISSA <= mantissa && mantissa <= MAX_MANTISSA {
            Some(Amount { mantissa, scale })
        } else {
            None
        }
    }

    /// The mantissa.
    pub fn mantissa(&self) -> (r: i128)
        ensures
            r == self@.mantissa,
    {
        self.mantissa
    }

    /// The number of fractional digits.
    pub fn scale(&self) -> (r: u32)
        ensures
            r == self@.scale,
    {
        self.scale
    }

    /// `self > 0`.
    pub fn is_positive(&self) -> (r: bool)
        ensures
            r == (self@.mantissa > 0),
    {
        self.mantissa > 0
    }

    /// The amount as an account applies it: with more than four fractional
    /// digits it is rounded to four, a half going away from zero.
    pub fn limited(self) -> (r: Amount)
        ensures
            r@ == self@.limited(),
    {
        if self.scale > FRACTION_DIGITS {
            self.rescaled(FRACTION_DIGITS)
        } else {
            self
        }
    }
}

} // verus!
