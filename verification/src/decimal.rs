//! The calls into `rust_decimal`.
//!
//! The four functions of this module are the only ones in the crate whose
//! contracts are taken on trust: Verus does not read their bodies. Each turns
//! its amounts into decimals with `Decimal::from_i128_with_scale`, which
//! accepts every amount, makes one call, and reads the result back with
//! `Decimal::mantissa` and `Decimal::scale`.

use crate::amount::{
    both_whole, common_scale, difference_is_exact, exact_difference, exact_sum, sum_is_exact,
    view_of, Amount, Dec,
};
use rust_decimal::Decimal;
use vstd::prelude::*;

verus! {

/// What `Decimal::checked_add` returns where the sum does not fit in 96 bits
/// at the larger scale and one of the two has fractional digits: the sum with
/// fewer fractional digits, or `None` when even its integer part does not fit.
pub uninterp spec fn rounded_sum(a: Dec, b: Dec) -> Option<Dec>;

/// What `Decimal::checked_sub` returns where the difference does not fit in 96
/// bits at the larger scale and one of the two has fractional digits.
pub uninterp spec fn rounded_difference(a: Dec, b: Dec) -> Option<Dec>;

impl Amount {
    /// `self + other`, computed by `Decimal::checked_add`; `None` on overflow.
    ///
    /// Trusted: where the sum needs no rounding the result is [`exact_sum`].
    /// Two whole numbers whose sum does not fit in 96 bits give `None`: with
    /// no fractional digit to drop, the addition reports the carry as
    /// overflow. Elsewhere the result is what [`rounded_sum`] names. A sum
    /// that is returned has at most the larger of the two scales.
    #[verifier::external_body]
    pub(crate) fn checked_add(self, other: Amount) -> (r: Option<Amount>)
        ensures
            sum_is_exact(self@, other@) ==> view_of(r) == Some(exact_sum(self@, other@)),
            !sum_is_exact(self@, other@) && both_whole(self@, other@) ==> r is None,
            !sum_is_exact(self@, other@) && !both_whole(self@, other@) ==> view_of(r)
                == rounded_sum(self@, other@),
            r matches Some(x) ==> x@.scale <= common_scale(self@, other@),
    {
        let a = Decimal::from_i128_with_scale(self.mantissa, self.scale);
        let b = Decimal::from_i128_with_scale(other.mantissa, other.scale);
        match a.checked_add(b) {
            Some(d) => Some(Amount { mantissa: d.mantissa(), scale: d.scale() }),
            None => None,
        }
    }

    /// `self - other`, computed by `Decimal::checked_sub`; `None` on overflow.
    ///
    /// Trusted: where the difference needs no rounding the result is
    /// [`exact_difference`]. Two whole numbers whose difference does not fit
    /// in 96 bits give `None`. Elsewhere the result is what
    /// [`rounded_difference`] names. A difference that is returned has at most
    /// the larger of the two scales.
    #[verifier::external_body]
    pub(crate) fn checked_sub(self, other: Amount) -> (r: Option<Amount>)
        ensures
            difference_is_exact(self@, other@) ==> view_of(r) == Some(
                exact_difference(self@, other@),
            ),
            !difference_is_exact(self@, other@) && both_whole(self@, other@) ==> r is None,
            !difference_is_exact(self@, other@) && !both_whole(self@, other@) ==> view_of(r)
                == rounded_difference(self@, other@),
            r matches Some(x) ==> x@.scale <= common_scale(self@, other@),
    {
        let a = Decimal::from_i128_with_scale(self.mantissa, self.scale);
        let b = Decimal::from_i128_with_scale(other.mantissa, other.scale);
        match a.checked_sub(b) {
            Some(d) => Some(Amount { mantissa: d.mantissa(), scale: d.scale() }),
            None => None,
        }
    }

    /// `self <= other`, decided by `<=` on `Decimal`.
    ///
    /// Trusted: the order of `Decimal` is the order of the two numbers,
    /// whatever their scales.
    #[verifier::external_body]
    pub(crate) fn le(self, other: Amount) -> (r: bool)
        ensures
            r == self@.le(other@),
    {
        let a = Decimal::from_i128_with_scale(self.mantissa, self.scale);
        let b = Decimal::from_i128_with_scale(other.mantissa, other.scale);
        a <= b
    }

    /// `self` rounded to `scale` fractional digits, by `Decimal::rescale`.
    ///
    /// Trusted: towards fewer digits, `rescale` rounds a half away from zero.
    #[verifier::external_body]
    pub(crate) fn rescaled(self, scale: u32) -> (r: Amount)
        requires
            scale < self@.scale,
        ensures
            r@ == self@.rounded(scale as nat),
    {
        let mut d = Decimal::from_i128_with_scale(self.mantissa, self.scale);
        d.rescale(scale);
        Amount { mantissa: d.mantissa(), scale: d.scale() }
    }
}

} // verus!
