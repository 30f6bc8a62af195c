use vstd::prelude::*;

verus! {

/// Number of decimal places every amount carries.
pub const SCALE: u32 = 4;

/// Ten-thousandths in one whole unit of currency.
pub const UNITS_PER_WHOLE: i128 = 10000;

/// Largest magnitude, in ten-thousandths, that an amount or a balance may
/// reach: the largest 96-bit mantissa, so every value renders as a decimal
/// with four places.
pub const MAX_UNITS: i128 = 79228162514264337593543950335;

/// Exclusive bound on the magnitude of a decimal mantissa (2^96).
pub const MANTISSA_BOUND: i128 = 79228162514264337593543950336;

/// Whether `v` ten-thousandths lies in the representable range.
pub open spec fn in_range(v: int) -> bool {
    -MAX_UNITS <= v <= MAX_UNITS
}

pub open spec fn pow10(n: nat) -> int
    decreases n,
{
    if n == 0 {
        1
    } else {
        10 * pow10((n - 1) as nat)
    }
}

pub open spec fn abs(v: int) -> int {
    if v < 0 {
        -v
    } else {
        v
    }
}

/// The exact count of ten-thousandths of `mantissa / 10^scale`, when that
/// value is a whole number of ten-thousandths within range.
pub open spec fn units_of_parts(mantissa: int, scale: nat) -> Option<int> {
    let a = abs(mantissa) * UNITS_PER_WHOLE;
    if a % pow10(scale) == 0 && a / pow10(scale) <= MAX_UNITS {
        Some(if mantissa < 0 { -(a / pow10(scale)) } else { a / pow10(scale) })
    } else {
        None
    }
}

pub proof fn lemma_pow10_positive(n: nat)
    ensures
        pow10(n) > 0,
    decreases n,
{
    if n > 0 {
        lemma_pow10_positive((n - 1) as nat);
    }
}

pub proof fn lemma_pow10_monotone(i: nat, j: nat)
    requires
        i <= j,
    ensures
        pow10(i) <= pow10(j),
    decreases j,
{
    if i < j {
        lemma_pow10_monotone(i, (j - 1) as nat);
        lemma_pow10_positive((j - 1) as nat);
    }
}

/// An exact decimal amount of currency, held as a count of ten-thousandths.
#[derive(Clone, Copy, Debug, PartialEq, Eq, Structural)]
pub struct Amount {
    units: i128,
}

impl View for Amount {
    type V = int;

    /// The amount in ten-thousandths.
    closed spec fn view(&self) -> int {
        self.units as int
    }
}

impl Amount {
    /// An amount is well formed when it lies in the representable range.
    pub open spec fn wf(self) -> bool {
        in_range(self@)
    }

    pub fn zero() -> (r: Amount)
        ensures
            r@ == 0,
            r.wf(),
    {
        Amount { units: 0 }
    }

    /// The amount of `units` ten-thousandths, if it is in range.
    pub fn from_units(units: i128) -> (r: Option<Amount>)
        ensures
            r is Some <==> in_range(units as int),
            r matches Some(a) ==> a@ == units && a.wf(),
    {
        if -MAX_UNITS <= units && units <= MAX_UNITS {
            Some(Amount { units })
        } else {
            None
        }
    }

    /// The amount in ten-thousandths.
    pub fn units(&self) -> (r: i128)
        ensures
            r == self@,
    {
        self.units
    }

    /// The amount `mantissa / 10^scale`, as a decimal number is given by its
    /// parts; `None` when it is not a whole number of ten-thousandths or out
    /// of range.
    pub fn from_parts(mantissa: i128, scale: u32) -> (r: Option<Amount>)
        requires
            -MANTISSA_BOUND < mantissa < MANTISSA_BOUND,
        ensures
            r matches Some(a) ==> a.wf() && units_of_parts(mantissa as int, scale as nat) == Some(
                a@,
            ),
            r is None ==> units_of_parts(mantissa as int, scale as nat) is None,
    {
        let a: i128 = if mantissa < 0 {
            -mantissa
        } else {
            mantissa
        } * UNITS_PER_WHOLE;
        let mut p: i128 = 1;
        let mut i: u32 = 0;
        while i < scale && p <= a
            invariant
                i <= scale,
                p == pow10(i as nat),
                0 < p,
                0 <= a < 792281625142643375935439503360000,
            decreases scale - i,
        {
            p = p * 10;
            i = i + 1;
        }
        proof {
            lemma_pow10_positive(i as nat);
            lemma_pow10_monotone(i as nat, scale as nat);
        }
        if i < scale {
            // 10^i already exceeds a, so 10^scale does too.
            if a == 0 {
                Some(Amount { units: 0 })
            } else {
                assert((a as int) % pow10(scale as nat) == a as int) by {
                    vstd::arithmetic::div_mod::lemma_small_mod(a as nat, pow10(scale as nat) as nat);
                }
                None
            }
        } else if a % p != 0 {
            None
        } else {
            let q: i128 = a / p;
            if q > MAX_UNITS {
                None
            } else if mantissa < 0 {
                Some(Amount { units: -q })
            } else {
                Some(Amount { units: q })
            }
        }
    }

    /// `self + other`, or `None` when the sum is out of range.
    pub fn checked_add(self, other: Amount) -> (r: Option<Amount>)
        requires
            self.wf(),
            other.wf(),
        ensures
            r is Some <==> in_range(self@ + other@),
            r matches Some(s) ==> s@ == self@ + other@ && s.wf(),
    {
        let s: i128 = self.units + other.units;
        if -MAX_UNITS <= s && s <= MAX_UNITS {
            Some(Amount { units: s })
        } else {
            None
        }
    }

    /// `self - other`, or `None` when the difference is out of range.
    pub fn checked_sub(self, other: Amount) -> (r: Option<Amount>)
        requires
            self.wf(),
            other.wf(),
        ensures
            r is Some <==> in_range(self@ - other@),
            r matches Some(s) ==> s@ == self@ - other@ && s.wf(),
    {
        let s: i128 = self.units - other.units;
        if -MAX_UNITS <= s && s <= MAX_UNITS {
            Some(Amount { units: s })
        } else {
            None
        }
    }

    /// Whether `self >= other`.
    pub fn ge(&self, other: &Amount) -> (r: bool)
        ensures
            r == (self@ >= other@),
    {
        self.units >= other.units
    }
}

} // verus!
