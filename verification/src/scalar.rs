//! Double-precision numbers, held by their IEEE 754 bit pattern and compared by their exact value.

use vstd::arithmetic::power2::{
    lemma2_to64, lemma2_to64_rest, lemma_pow2_adds, lemma_pow2_pos, lemma_pow2_strictly_increases, lemma_pow2_unfold,
    pow2,
};
use vstd::prelude::*;

verus! {

/// A double-precision number, by its bit pattern.
#[derive(Debug, Clone, Copy, PartialEq, Eq, Structural)]
pub struct Scalar {
    pub bits: u64,
}

/// Two to the 1074th: values are counted in units of the least positive number, so that the
/// value of every finite number is an integer, and that of one is `unit()`.
pub open spec fn unit() -> int {
    pow2(1074) as int
}

/// The number nearest to one hundredth.
pub const HUNDREDTH_BITS: u64 = 0x3F84_7AE1_47AE_147B;

impl Scalar {
    pub open spec fn is_negative(self) -> bool {
        self.bits >= 0x8000_0000_0000_0000
    }

    /// The bits without the sign.
    pub open spec fn magnitude_bits(self) -> int {
        self.bits as int % 0x8000_0000_0000_0000
    }

    pub open spec fn exponent(self) -> int {
        self.magnitude_bits() / 0x10_0000_0000_0000
    }

    pub open spec fn fraction(self) -> int {
        self.magnitude_bits() % 0x10_0000_0000_0000
    }

    /// True iff the number is neither infinite nor a NaN.
    pub open spec fn finite(self) -> bool {
        self.exponent() < 2047
    }

    pub open spec fn nan(self) -> bool {
        self.exponent() == 2047 && self.fraction() != 0
    }

    /// The absolute value of a finite number, in units of the least positive number.
    pub open spec fn magnitude(self) -> int {
        if self.exponent() == 0 {
            self.fraction()
        } else {
            (0x10_0000_0000_0000 + self.fraction()) * pow2((self.exponent() - 1) as nat)
        }
    }

    /// The value of a finite number, in units of the least positive number.
    pub open spec fn value(self) -> int {
        if self.is_negative() {
            -self.magnitude()
        } else {
            self.magnitude()
        }
    }

    /// True iff the number is finite and lies in `low..=high`, both whole numbers.
    pub open spec fn within(self, low: int, high: int) -> bool {
        self.finite() && low * unit() <= self.value() <= high * unit()
    }

    /// True iff the number is finite, at least one hundredth and at most `high`.
    pub open spec fn positive_up_to(self, high: int) -> bool {
        self.finite() && Scalar { bits: HUNDREDTH_BITS }.value() <= self.value() <= high * unit()
    }

    /// Equality of numbers: a NaN equals nothing, and the two zeros are equal.
    pub open spec fn equals(self, other: Scalar) -> bool {
        &&& !self.nan()
        &&& !other.nan()
        &&& self.bits == other.bits || (self.magnitude_bits() == 0 && other.magnitude_bits() == 0)
    }

    /// The bits as a signed number that orders finite numbers by their value.
    spec fn key(self) -> int {
        if self.is_negative() {
            -self.magnitude_bits()
        } else {
            self.magnitude_bits()
        }
    }

    pub fn from_bits(bits: u64) -> (r: Self)
        ensures
            r.bits == bits,
    {
        Scalar { bits }
    }

    pub fn is_finite(self) -> (r: bool)
        ensures
            r == self.finite(),
    {
        (self.bits % 0x8000_0000_0000_0000) / 0x10_0000_0000_0000 < 2047
    }

    fn is_nan(self) -> (r: bool)
        ensures
            r == self.nan(),
    {
        let magnitude: u64 = self.bits % 0x8000_0000_0000_0000;
        magnitude / 0x10_0000_0000_0000 == 2047 && magnitude % 0x10_0000_0000_0000 != 0
    }

    fn order_key(self) -> (r: i64)
        ensures
            r == self.key(),
    {
        let magnitude: i64 = (self.bits % 0x8000_0000_0000_0000) as i64;
        if self.bits >= 0x8000_0000_0000_0000 {
            -magnitude
        } else {
            magnitude
        }
    }

    /// True iff the first number is at most the second.
    pub fn at_most(self, other: Scalar) -> (r: bool)
        requires
            self.finite(),
            other.finite(),
        ensures
            r == (self.value() <= other.value()),
    {
        proof {
            key_orders(self, other);
            key_orders(other, self);
        }
        self.order_key() <= other.order_key()
    }

    /// Equality of numbers.
    pub fn same(self, other: Scalar) -> (r: bool)
        ensures
            r == self.equals(other),
    {
        !self.is_nan() && !other.is_nan() && (self.bits == other.bits || (self.bits
            % 0x8000_0000_0000_0000 == 0 && other.bits % 0x8000_0000_0000_0000 == 0))
    }

    /// The number of that whole value.
    pub fn from_i32(n: i32) -> (r: Self)
        ensures
            r.finite(),
            r.value() == n * unit(),
    {
        if n == 0 {
            proof {
                assert(0 * unit() == 0) by (nonlinear_arith);
            }
            return Scalar { bits: 0 };
        }
        let m: u64 = if n < 0 {
            (-(n as i64)) as u64
        } else {
            n as u64
        };
        // Shift the leading bit up to the implicit position, bit 52.
        let mut shifted: u64 = m;
        let mut shift: u64 = 0;
        proof {
            lemma2_to64();
            lemma2_to64_rest();
            assert(m * 1 == m) by (nonlinear_arith);
        }
        while shifted < 0x10_0000_0000_0000
            invariant
                0 < m <= 0x8000_0000,
                shift <= 52,
                shifted == m * pow2(shift as nat),
                shifted < 0x20_0000_0000_0000,
                pow2(52) == 0x10_0000_0000_0000,
            decreases 0x20_0000_0000_0000 - shifted,
        {
            proof {
                if shift == 52 {
                    assert(m * pow2(52) >= 0x10_0000_0000_0000) by (nonlinear_arith)
                        requires
                            m >= 1,
                            pow2(52) == 0x10_0000_0000_0000,
                    ;
                }
                lemma_pow2_unfold((shift + 1) as nat);
                lemma_pow2_pos(shift as nat);
                assert(2 * (m * pow2(shift as nat)) == m * (2 * pow2(shift as nat)))
                    by (nonlinear_arith);
                assert(m * pow2(shift as nat) > 0) by (nonlinear_arith)
                    requires
                        m > 0,
                        pow2(shift as nat) > 0,
                ;
            }
            shifted = shifted * 2;
            shift = shift + 1;
        }
        let fraction: u64 = shifted - 0x10_0000_0000_0000;
        let exponent: u64 = 1075 - shift;
        let magnitude: u64 = exponent * 0x10_0000_0000_0000 + fraction;
        let bits: u64 = if n < 0 {
            magnitude + 0x8000_0000_0000_0000
        } else {
            magnitude
        };
        let result = Scalar { bits };
        proof {
            assert(result.magnitude_bits() == magnitude);
            assert(result.exponent() == exponent);
            assert(result.fraction() == fraction);
            lemma_pow2_adds(shift as nat, (exponent - 1) as nat);
            let low = pow2(shift as nat);
            let high = pow2((exponent - 1) as nat);
            assert((m * low) * high == m * (low * high)) by (nonlinear_arith);
            assert(result.magnitude() == m * unit());
            assert(-(m * unit()) == (-m) * unit()) by (nonlinear_arith);
        }
        result
    }

    /// True iff the number is finite and lies in `low..=high`.
    pub fn is_within(self, low: i32, high: i32) -> (r: bool)
        ensures
            r == self.within(low as int, high as int),
    {
        self.is_finite() && Scalar::from_i32(low).at_most(self) && self.at_most(
            Scalar::from_i32(high),
        )
    }

    /// True iff the number is finite, at least one hundredth and at most `high`.
    pub fn is_positive_up_to(self, high: i32) -> (r: bool)
        ensures
            r == self.positive_up_to(high as int),
    {
        let low = Scalar { bits: HUNDREDTH_BITS };
        self.is_finite() && low.at_most(self) && self.at_most(Scalar::from_i32(high))
    }
}

proof fn magnitude_grows(a: Scalar, b: Scalar)
    requires
        a.finite(),
        b.finite(),
        a.magnitude_bits() < b.magnitude_bits(),
    ensures
        a.magnitude() < b.magnitude(),
{
    let ea = a.exponent();
    let eb = b.exponent();
    let fa = a.fraction();
    let fb = b.fraction();
    let one: int = 0x10_0000_0000_0000;
    lemma2_to64();
    if ea == eb {
        assert(fa < fb);
        if ea > 0 {
            let p = pow2((ea - 1) as nat);
            lemma_pow2_pos((ea - 1) as nat);
            assert((one + fa) * p < (one + fb) * p) by (nonlinear_arith)
                requires
                    fa < fb,
                    p > 0,
            ;
        }
    } else {
        assert(ea < eb);
        let p = pow2((eb - 1) as nat);
        lemma_pow2_pos((eb - 1) as nat);
        assert((one + fb) * p >= one * p) by (nonlinear_arith)
            requires
                fb >= 0,
                p > 0,
        ;
        if ea == 0 {
            assert(one * p >= one) by (nonlinear_arith)
                requires
                    p >= 1,
                    one > 0,
            ;
        } else {
            let q = pow2((ea - 1) as nat);
            lemma_pow2_pos((ea - 1) as nat);
            lemma_pow2_unfold(ea as nat);
            if ea < eb - 1 {
                lemma_pow2_strictly_increases(ea as nat, (eb - 1) as nat);
            }
            assert((one + fa) * q < (2 * one) * q) by (nonlinear_arith)
                requires
                    fa < one,
                    q > 0,
            ;
            assert((2 * one) * q == one * (2 * q)) by (nonlinear_arith);
            assert(one * (2 * q) <= one * p) by (nonlinear_arith)
                requires
                    2 * q <= p,
                    one > 0,
            ;
        }
    }
}

proof fn magnitude_sign(a: Scalar)
    ensures
        a.magnitude() >= 0,
        a.magnitude_bits() == 0 ==> a.magnitude() == 0,
        a.magnitude_bits() > 0 ==> a.magnitude() > 0,
{
    if a.exponent() > 0 {
        let p = pow2((a.exponent() - 1) as nat);
        lemma_pow2_pos((a.exponent() - 1) as nat);
        assert((0x10_0000_0000_0000 + a.fraction()) * p > 0) by (nonlinear_arith)
            requires
                a.fraction() >= 0,
                p > 0,
        ;
    }
}

proof fn key_orders(a: Scalar, b: Scalar)
    requires
        a.finite(),
        b.finite(),
    ensures
        a.key() < b.key() ==> a.value() < b.value(),
        a.key() == b.key() ==> a.value() == b.value(),
{
    magnitude_sign(a);
    magnitude_sign(b);
    if a.magnitude_bits() < b.magnitude_bits() {
        magnitude_grows(a, b);
    } else if b.magnitude_bits() < a.magnitude_bits() {
        magnitude_grows(b, a);
    } else {
        assert(a.exponent() == b.exponent() && a.fraction() == b.fraction());
    }
}

// ---- laws ----

/// A whole number lies in a range exactly where it is neither below its low end nor above its high
/// one; a number between two that lie in a range lies in it too; no infinity and no NaN does.
pub proof fn ranges_hold_the_numbers_between_their_ends(
    a: Scalar,
    b: Scalar,
    n: int,
    low: int,
    high: int,
)
    requires
        a.finite(),
        a.value() == n * unit(),
    ensures
        a.within(low, high) <==> low <= n <= high,
        b.within(low, high) ==> b.finite(),
        b.finite() && low <= n && a.value() <= b.value() <= high * unit() ==> b.within(low, high),
        b.finite() && n <= high && low * unit() <= b.value() <= a.value() ==> b.within(low, high),
        b.finite() && n == low && b.value() < a.value() ==> !b.within(low, high),
        b.finite() && n == high && b.value() > a.value() ==> !b.within(low, high),
{
    lemma_pow2_pos(1074);
    let u = unit();
    assert(low <= n <==> low * u <= n * u) by (nonlinear_arith)
        requires
            u > 0,
    ;
    assert(n <= high <==> n * u <= high * u) by (nonlinear_arith)
        requires
            u > 0,
    ;
}

/// The least size is the double that is nearest to one hundredth: a hundred times it differs from one
/// by less than a hundred times half the step to the next double.
pub proof fn least_size_is_one_hundredth(a: Scalar, high: int)
    ensures
        ({
            let least = Scalar { bits: HUNDREDTH_BITS };
            let step = pow2(1015) as int;
            &&& least.finite()
            &&& -50 * step < 100 * least.value() - unit() < 50 * step
            &&& Scalar { bits: (HUNDREDTH_BITS + 1) as u64 }.value() == least.value() + step
            &&& a.positive_up_to(high) <==> a.finite() && least.value() <= a.value() && a.value()
                <= high * unit()
            &&& a.positive_up_to(high) ==> a.value() > 0
        }),
{
    let least = Scalar { bits: HUNDREDTH_BITS };
    let next = Scalar { bits: (HUNDREDTH_BITS + 1) as u64 };
    let step = pow2(1015) as int;
    lemma_pow2_pos(1015);
    lemma2_to64();
    lemma2_to64_rest();
    lemma_pow2_adds(59, 1015);
    assert(least.exponent() == 1016 && next.exponent() == 1016);
    let m: int = 0x14_7AE1_47AE_147B;
    assert(least.value() == m * step);
    assert(next.value() == (m + 1) * step);
    assert((m + 1) * step == m * step + step) by (nonlinear_arith);
    assert(unit() == 0x800_0000_0000_0000 * step);
    assert(100 * (m * step) - 0x800_0000_0000_0000 * step == (100 * m - 0x800_0000_0000_0000)
        * step) by (nonlinear_arith);
    let d: int = 100 * m - 0x800_0000_0000_0000;
    assert(-50 < d < 50);
    assert(-50 * step < d * step < 50 * step) by (nonlinear_arith)
        requires
            -50 < d < 50,
            step > 0,
    ;
    assert(m * step > 0) by (nonlinear_arith)
        requires
            m > 0,
            step > 0,
    ;
}

/// Two finite numbers are equal exactly where their values are; a NaN equals nothing, itself
/// included, and every other number equals itself.
pub proof fn equal_numbers_have_equal_values(a: Scalar, b: Scalar)
    ensures
        a.finite() && b.finite() ==> (a.equals(b) <==> a.value() == b.value()),
        a.finite() != b.finite() ==> !a.equals(b),
        a.nan() ==> !a.equals(b) && !b.equals(a),
        !a.nan() ==> a.equals(a),
        a.equals(b) ==> b.equals(a),
{
    magnitude_sign(a);
    magnitude_sign(b);
    if a.finite() && b.finite() {
        if a.magnitude_bits() < b.magnitude_bits() {
            magnitude_grows(a, b);
        } else if b.magnitude_bits() < a.magnitude_bits() {
            magnitude_grows(b, a);
        } else {
            assert(a.exponent() == b.exponent() && a.fraction() == b.fraction());
        }
    }
}

} // verus!
