//! IEEE 754 numbers by their bit patterns.

use vstd::arithmetic::power2::{lemma_pow2_adds, lemma_pow2_pos, lemma_pow2_unfold, pow2};
use vstd::prelude::*;

verus! {

/// The weight of the exponent field in a double.
pub const F64_FIELD: u64 = 0x10_0000_0000_0000;

/// The weight of the sign in a double.
pub const F64_SIGN: u64 = 0x8000_0000_0000_0000;

/// The weight of the exponent field in a single-precision number.
pub const F32_FIELD: u32 = 0x80_0000;

/// The weight of the sign in a single-precision number.
pub const F32_SIGN: u32 = 0x8000_0000;

/// A double-precision number, by its bit pattern.
#[derive(Copy, Clone, PartialEq, Eq, Debug)]
pub struct Float64 {
    pub bits: u64,
}

/// A single-precision number, by its bit pattern.
#[derive(Copy, Clone, PartialEq, Eq, Debug)]
pub struct Float32 {
    pub bits: u32,
}

impl Float64 {
    /// The exponent field.
    pub open spec fn field(self) -> int {
        (self.bits / F64_FIELD) as int % 2048
    }

    /// The fraction field.
    pub open spec fn fraction(self) -> int {
        (self.bits % F64_FIELD) as int
    }

    /// Whether the number is negative.
    pub open spec fn negative(self) -> bool {
        self.bits >= F64_SIGN
    }

    /// The significand: the number is this times two to the power of [`Float64::exponent`].
    pub open spec fn significand(self) -> int {
        if self.field() == 0 {
            self.fraction()
        } else {
            F64_FIELD + self.fraction()
        }
    }

    /// The exponent that goes with [`Float64::significand`].
    pub open spec fn exponent(self) -> int {
        if self.field() == 0 {
            -1074
        } else {
            self.field() - 1075
        }
    }
}

impl Float32 {
    /// The exponent field.
    pub open spec fn field(self) -> int {
        (self.bits / F32_FIELD) as int % 256
    }

    /// The fraction field.
    pub open spec fn fraction(self) -> int {
        (self.bits % F32_FIELD) as int
    }

    /// Whether the number is negative.
    pub open spec fn negative(self) -> bool {
        self.bits >= F32_SIGN
    }

    /// The significand: the number is this times two to the power of [`Float32::exponent`].
    pub open spec fn significand(self) -> int {
        if self.field() == 0 {
            self.fraction()
        } else {
            F32_FIELD + self.fraction()
        }
    }

    /// The exponent that goes with [`Float32::significand`].
    pub open spec fn exponent(self) -> int {
        if self.field() == 0 {
            -149
        } else {
            self.field() - 150
        }
    }
}

/// The place of the highest bit that is set in `x`.
pub open spec fn highest_bit(x: nat) -> nat
    decreases x,
{
    if x <= 1 {
        0
    } else {
        1 + highest_bit(x / 2)
    }
}

/// `x` shifted up until bit 52 is the highest one that is set.
pub open spec fn normalized(x: nat) -> nat {
    x * pow2((52 - highest_bit(x)) as nat)
}

/// The bits of the double that is equal to `x`.
pub open spec fn u32_as_f64(x: u32) -> u64 {
    if x == 0 {
        0
    } else {
        ((1022 + highest_bit(x as nat)) * F64_FIELD + normalized(x as nat)) as u64
    }
}

/// The bits of the double that is equal to a single-precision number. What is not a number stays
/// so, and becomes quiet.
pub open spec fn f32_as_f64(x: Float32) -> u64 {
    let sign: int = if x.negative() {
        F64_SIGN as int
    } else {
        0
    };
    if x.field() == 255 {
        if x.fraction() == 0 || x.fraction() >= 0x40_0000 {
            (sign + 2047 * F64_FIELD + x.fraction() * 0x2000_0000) as u64
        } else {
            (sign + 2047 * F64_FIELD + (x.fraction() + 0x40_0000) * 0x2000_0000) as u64
        }
    } else if x.field() != 0 {
        (sign + (x.field() + 896) * F64_FIELD + x.fraction() * 0x2000_0000) as u64
    } else if x.fraction() == 0 {
        sign as u64
    } else {
        (sign + (873 + highest_bit(x.fraction() as nat)) * F64_FIELD + normalized(
            x.fraction() as nat,
        )) as u64
    }
}

proof fn lemma_highest_bit(x: nat)
    requires
        x > 0,
    ensures
        pow2(highest_bit(x)) <= x < pow2(highest_bit(x) + 1),
    decreases x,
{
    lemma_pow2_unfold(highest_bit(x) + 1);
    if x <= 1 {
        assert(pow2(0) == 1) by {
            vstd::arithmetic::power2::lemma2_to64();
        }
    } else {
        lemma_highest_bit(x / 2);
        lemma_pow2_unfold(highest_bit(x));
    }
}

proof fn lemma_normalized(x: nat)
    requires
        0 < x < 0x1_0000_0000,
    ensures
        highest_bit(x) <= 31,
        F64_FIELD <= normalized(x) < 2 * F64_FIELD,
{
    let h = highest_bit(x);
    lemma_highest_bit(x);
    vstd::arithmetic::power2::lemma2_to64();
    vstd::arithmetic::power2::lemma2_to64_rest();
    if h > 31 {
        if h > 32 {
            vstd::arithmetic::power2::lemma_pow2_strictly_increases(32, h);
        }
        assert(false);
    }
    let k = (52 - h) as nat;
    lemma_pow2_adds(h, k);
    lemma_pow2_adds(h + 1, k);
    lemma_pow2_pos(k);
    assert(pow2(h) * pow2(k) <= x * pow2(k) < pow2(h + 1) * pow2(k)) by (nonlinear_arith)
        requires
            pow2(h) <= x < pow2(h + 1),
            pow2(k) > 0,
    ;
}

/// A 32-bit number and the double that it becomes are equal.
pub proof fn law_u32_as_f64_is_exact(x: u32)
    ensures
        ({
            let double = Float64 { bits: u32_as_f64(x) };
            &&& !double.negative()
            &&& double.field() < 2047
            &&& double.exponent() <= 0
            &&& double.significand() == x * pow2((-double.exponent()) as nat)
        }),
{
    if x != 0 {
        lemma_normalized(x as nat);
        let h = highest_bit(x as nat);
        let double = Float64 { bits: u32_as_f64(x) };
        assert(double.field() == 1023 + h);
        assert(double.exponent() == h - 52);
    } else {
        assert(0 * pow2(1074) == 0) by (nonlinear_arith);
    }
}

/// A single-precision number and the double that it becomes are equal: they have the same sign,
/// the same value where they are finite, and are infinite or no number together.
pub proof fn law_f32_as_f64_is_exact(x: Float32)
    ensures
        ({
            let double = Float64 { bits: f32_as_f64(x) };
            &&& double.negative() == x.negative()
            &&& double.field() == 2047 <==> x.field() == 255
            &&& x.field() == 255 ==> (double.fraction() == 0 <==> x.fraction() == 0)
            &&& x.field() < 255 && x.significand() != 0 ==> double.exponent() <= x.exponent()
                && double.significand() == x.significand() * pow2(
                (x.exponent() - double.exponent()) as nat,
            )
            &&& x.field() < 255 && x.significand() == 0 ==> double.significand() == 0
        }),
{
    vstd::arithmetic::power2::lemma2_to64();
    vstd::arithmetic::power2::lemma2_to64_rest();
    let double = Float64 { bits: f32_as_f64(x) };
    if x.field() == 0 && x.fraction() != 0 {
        let h = highest_bit(x.fraction() as nat);
        lemma_normalized(x.fraction() as nat);
        assert(h <= 22) by {
            lemma_highest_bit(x.fraction() as nat);
            if h > 22 {
                if h > 23 {
                    vstd::arithmetic::power2::lemma_pow2_strictly_increases(23, h);
                }
            }
        }
        assert(double.field() == 874 + h);
        assert(double.significand() == normalized(x.fraction() as nat));
        assert(x.exponent() - double.exponent() == 52 - h);
    } else if x.field() < 255 && x.field() != 0 {
        assert(double.field() == x.field() + 896);
        assert(double.fraction() == x.fraction() * 0x2000_0000);
        assert(x.exponent() - double.exponent() == 29);
        assert(double.significand() == x.significand() * 0x2000_0000);
    }
}

/// The fields of the double that a single-precision number becomes.
pub proof fn lemma_f32_fields(x: Float32)
    ensures
        ({
            let double = Float64 { bits: f32_as_f64(x) };
            &&& double.negative() == x.negative()
            &&& x.field() == 255 ==> double.field() == 2047 && (double.fraction() == 0
                <==> x.fraction() == 0)
            &&& 0 < x.field() < 255 ==> double.field() == x.field() + 896 && double.fraction()
                == x.fraction() * 0x2000_0000
            &&& x.field() == 0 && x.fraction() == 0 ==> double.field() == 0 && double.fraction()
                == 0
            &&& x.field() == 0 && x.fraction() != 0 ==> 874 <= double.field() <= 926 && F64_FIELD
                + double.fraction() == x.fraction() * pow2((926 - double.field()) as nat)
        }),
{
    law_f32_as_f64_is_exact(x);
    let double = Float64 { bits: f32_as_f64(x) };
    if x.field() == 0 && x.fraction() != 0 {
        let h = highest_bit(x.fraction() as nat);
        lemma_normalized(x.fraction() as nat);
        assert(double.field() == 874 + h);
        assert(x.exponent() - double.exponent() == 52 - h);
    } else if 0 < x.field() < 255 {
        assert(double.field() == x.field() + 896);
        assert(double.fraction() == x.fraction() * 0x2000_0000);
    }
}

/// `x` shifted up until bit 52 is the highest one that is set, and the place of its highest bit.
fn normalize(x: u32) -> (result: (u64, u64))
    requires
        x > 0,
    ensures
        result.0 == normalized(x as nat),
        result.1 == highest_bit(x as nat),
        result.1 <= 31,
        F64_FIELD <= result.0 < 2 * F64_FIELD,
{
    proof {
        lemma_normalized(x as nat);
    }
    let mut rest: u32 = x;
    let mut place: u64 = 0;
    while rest > 1
        invariant
            rest >= 1,
            highest_bit(x as nat) == place + highest_bit(rest as nat),
            highest_bit(x as nat) <= 31,
        decreases rest,
    {
        rest = rest / 2;
        place = place + 1;
    }
    let mut shifted: u64 = x as u64;
    let mut done: u64 = 0;
    assert(x * pow2(0) == x) by {
        vstd::arithmetic::power2::lemma2_to64();
    }
    while done < 52 - place
        invariant
            x > 0,
            place == highest_bit(x as nat),
            place <= 31,
            done <= 52 - place,
            shifted == x * pow2(done as nat),
            normalized(x as nat) < 2 * F64_FIELD,
        decreases 52 - done,
    {
        proof {
            let all = (52 - place) as nat;
            lemma_pow2_unfold((done + 1) as nat);
            if done + 1 < all {
                vstd::arithmetic::power2::lemma_pow2_strictly_increases((done + 1) as nat, all);
            }
            assert(x * pow2((done + 1) as nat) <= x * pow2(all)) by (nonlinear_arith)
                requires
                    pow2((done + 1) as nat) <= pow2(all),
            ;
            assert(x * pow2((done + 1) as nat) == 2 * (x * pow2(done as nat))) by (nonlinear_arith)
                requires
                    pow2((done + 1) as nat) == 2 * pow2(done as nat),
            ;
        }
        shifted = shifted * 2;
        done = done + 1;
    }
    (shifted, place)
}

impl Float64 {
    /// The double that is equal to `x`.
    pub fn from_u32(x: u32) -> (double: Float64)
        ensures
            double.bits == u32_as_f64(x),
    {
        if x == 0 {
            Float64 { bits: 0 }
        } else {
            let (shifted, place) = normalize(x);
            Float64 { bits: (1022 + place) * F64_FIELD + shifted }
        }
    }

    /// The double that is equal to a single-precision number.
    pub fn from_f32(x: Float32) -> (double: Float64)
        ensures
            double.bits == f32_as_f64(x),
    {
        let sign: u64 = if x.bits >= F32_SIGN {
            F64_SIGN
        } else {
            0
        };
        let field: u64 = (x.bits / F32_FIELD % 256) as u64;
        let fraction: u32 = x.bits % F32_FIELD;
        let shifted: u64 = fraction as u64 * 0x2000_0000;
        if field == 255 {
            if fraction == 0 || fraction >= 0x40_0000 {
                Float64 { bits: sign + 2047 * F64_FIELD + shifted }
            } else {
                let quiet: u64 = 0x40_0000 * 0x2000_0000;
                Float64 { bits: sign + 2047 * F64_FIELD + (shifted + quiet) }
            }
        } else if field != 0 {
            Float64 { bits: sign + (field + 896) * F64_FIELD + shifted }
        } else if fraction == 0 {
            Float64 { bits: sign }
        } else {
            let (normal, place) = normalize(fraction);
            proof {
                lemma_normalized(fraction as nat);
            }
            Float64 { bits: sign + (873 + place) * F64_FIELD + normal }
        }
    }
}

} // verus!
