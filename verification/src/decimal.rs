//! Fixed-point decimal numbers: an integer mantissa and the number of digits
//! that stand behind the decimal point.

use vstd::prelude::*;

verus! {

/// The number of fractional digits of every value that is submitted.
pub const PRECISION: u32 = 18;

/// The largest scale that a decimal number can have.
pub const MAX_SCALE: u32 = 28;

/// The largest mantissa that a decimal number can have: 96 bits.
pub const MAX_MANTISSA: i128 = 0xffff_ffff_ffff_ffff_ffff_ffff;

/// The decimal number `mantissa / 10^scale`.
#[derive(Clone, Copy, Debug, PartialEq, Eq, Structural)]
pub struct Decimal {
    mantissa: i128,
    scale: u32,
}

/// 10 to the power `n`.
pub open spec fn pow10(n: nat) -> nat
    decreases n,
{
    if n == 0 {
        1
    } else {
        10 * pow10((n - 1) as nat)
    }
}

/// The mantissa of the decimal number `mantissa / 10^scale` at `target`
/// fractional digits, where `target` is not below `scale` and the mantissa
/// still fits 96 bits then: the number is the same, and nothing is rounded.
pub open spec fn scaled_up(mantissa: int, scale: nat, target: nat) -> Option<int> {
    if scale <= target && -MAX_MANTISSA <= mantissa * pow10((target - scale) as nat)
        <= MAX_MANTISSA {
        Some(mantissa * pow10((target - scale) as nat))
    } else {
        None
    }
}

/// The mantissa that the decimal number `mantissa / 10^scale` has when it is
/// brought to `target` fractional digits, rounding half away from zero where
/// digits are lost and stopping short of `target` where the mantissa would
/// outgrow 96 bits.
pub uninterp spec fn rescaled_mantissa(mantissa: int, scale: nat, target: nat) -> int;

/// Makes a `rust_decimal::Decimal` of `mantissa` and `scale`, calls `rescale`
/// on it and returns its mantissa. The result depends on the three arguments
/// alone and never leaves 96 bits. Where the number is at the target scale
/// already, `rescale` leaves it as it is; where the target scale is higher,
/// it multiplies the mantissa by ten for every digit gained, as long as the
/// mantissa fits 96 bits, so that the result is the full product where that
/// fits.
#[verifier::external_body]
fn rescale_mantissa(mantissa: i128, scale: u32, target: u32) -> (r: i128)
    requires
        -MAX_MANTISSA <= mantissa <= MAX_MANTISSA,
        scale <= MAX_SCALE,
    ensures
        r == rescaled_mantissa(mantissa as int, scale as nat, target as nat),
        -MAX_MANTISSA <= r <= MAX_MANTISSA,
        scale == target ==> r == mantissa,
        scaled_up(mantissa as int, scale as nat, target as nat) is Some ==> r == scaled_up(
            mantissa as int,
            scale as nat,
            target as nat,
        )->0,
{
    let mut number = rust_decimal::Decimal::from_i128_with_scale(mantissa, scale);
    number.rescale(target);
    number.mantissa()
}

impl Decimal {
    /// The mantissa fits 96 bits and the scale is at most `MAX_SCALE`.
    #[verifier::type_invariant]
    pub closed spec fn in_range(self) -> bool {
        &&& -MAX_MANTISSA <= self.mantissa <= MAX_MANTISSA
        &&& self.scale <= MAX_SCALE
    }

    /// The mantissa.
    pub closed spec fn spec_mantissa(self) -> i128 {
        self.mantissa
    }

    /// The number of fractional digits.
    pub closed spec fn spec_scale(self) -> u32 {
        self.scale
    }

    /// The number `num / 10^scale`. There is none where the scale is above
    /// `MAX_SCALE` or the mantissa does not fit 96 bits.
    pub fn try_from_i128_with_scale(num: i128, scale: u32) -> (r: Option<Decimal>)
        ensures
            r is Some <==> scale <= MAX_SCALE && -MAX_MANTISSA <= num <= MAX_MANTISSA,
            r is Some ==> r->0.spec_mantissa() == num && r->0.spec_scale() == scale,
    {
        if scale > MAX_SCALE || num > MAX_MANTISSA || num < -MAX_MANTISSA {
            None
        } else {
            Some(Decimal { mantissa: num, scale })
        }
    }

    /// The mantissa.
    #[verifier::when_used_as_spec(spec_mantissa)]
    pub fn mantissa(self) -> (r: i128)
        ensures
            r == self.spec_mantissa(),
            -MAX_MANTISSA <= r <= MAX_MANTISSA,
    {
        proof {
            use_type_invariant(self);
        }
        self.mantissa
    }

    /// The number of fractional digits.
    #[verifier::when_used_as_spec(spec_scale)]
    pub fn scale(self) -> (r: u32)
        ensures
            r == self.spec_scale(),
            r <= MAX_SCALE,
    {
        proof {
            use_type_invariant(self);
        }
        self.scale
    }

    /// The mantissa of the number at `target` fractional digits.
    pub fn mantissa_at_scale(self, target: u32) -> (r: i128)
        ensures
            r == rescaled_mantissa(self.spec_mantissa() as int, self.spec_scale() as nat, target as nat),
            -MAX_MANTISSA <= r <= MAX_MANTISSA,
            self.spec_scale() == target ==> r == self.spec_mantissa(),
            scaled_up(self.spec_mantissa() as int, self.spec_scale() as nat, target as nat)
                is Some ==> r == scaled_up(
                self.spec_mantissa() as int,
                self.spec_scale() as nat,
                target as nat,
            )->0,
    {
        proof {
            use_type_invariant(self);
        }
        rescale_mantissa(self.mantissa, self.scale, target)
    }
}

} // verus!
