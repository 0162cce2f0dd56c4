//! Binary64 numbers held by their IEEE 754 encoding.
//!
//! A `Scalar` is the 64-bit pattern of a double-precision floating-point
//! number. Everything here is decided on that pattern with integer
//! arithmetic alone: classification, sign change, comparison, and the exact
//! embedding of 32-bit integers. Rounded arithmetic is not part of this
//! crate; callers compute sums and products with the hardware and hand the
//! resulting patterns in.
use vstd::arithmetic::mul::{lemma_mul_inequality, lemma_mul_strict_inequality};
use vstd::arithmetic::power2::{
    lemma2_to64, lemma2_to64_rest, lemma_pow2_adds, lemma_pow2_pos, lemma_pow2_strictly_increases,
    lemma_pow2_unfold, pow2,
};
use vstd::prelude::*;

verus! {

/// The sign bit of the encoding.
pub const SIGN_BIT: u64 = 0x8000_0000_0000_0000;

/// The encoding of positive infinity: exponent field all ones, fraction zero.
pub const INFINITY_BITS: u64 = 0x7ff0_0000_0000_0000;

/// Weight of the implicit leading bit of a normal significand, 2^52.
pub const HIDDEN_BIT: u64 = 0x10_0000_0000_0000;

/// A binary64 number, identified by its bit pattern.
#[derive(Clone, Copy, Debug)]
pub struct Scalar {
    pub bits: u64,
}

impl Scalar {
    /// Whether the sign bit is set.
    pub open spec fn sign(self) -> bool {
        self.bits >= SIGN_BIT
    }

    /// The encoding with the sign bit cleared.
    pub open spec fn magnitude_bits(self) -> u64 {
        if self.bits >= SIGN_BIT {
            (self.bits - SIGN_BIT) as u64
        } else {
            self.bits
        }
    }

    /// The biased exponent field, 0 to 2047.
    pub open spec fn exponent(self) -> nat {
        (self.magnitude_bits() / HIDDEN_BIT) as nat
    }

    /// The 52-bit fraction field.
    pub open spec fn fraction(self) -> nat {
        (self.magnitude_bits() % HIDDEN_BIT) as nat
    }

    /// Not a number: exponent field all ones and a non-zero fraction.
    pub open spec fn is_nan_spec(self) -> bool {
        self.magnitude_bits() > INFINITY_BITS
    }

    /// Neither an infinity nor a NaN.
    pub open spec fn is_finite_spec(self) -> bool {
        self.magnitude_bits() < INFINITY_BITS
    }

    /// The absolute value, counted in units of 2^-1074 (the smallest positive
    /// subnormal). Every finite binary64 value is a whole number of such
    /// units. The infinity pattern is given the count 2^2098, which lies above
    /// every finite magnitude, so that one integer order covers the extended
    /// number line.
    pub open spec fn magnitude(self) -> nat {
        if self.exponent() == 0 {
            self.fraction()
        } else {
            ((HIDDEN_BIT + self.fraction()) * pow2((self.exponent() - 1) as nat)) as nat
        }
    }

    /// The signed value in units of 2^-1074. Both zeros have the value 0.
    pub open spec fn units(self) -> int {
        if self.sign() {
            -(self.magnitude() as int)
        } else {
            self.magnitude() as int
        }
    }

    /// IEEE 754 `<`: false when either side is a NaN, else the order of the
    /// values.
    pub open spec fn lt_spec(self, other: Scalar) -> bool {
        !self.is_nan_spec() && !other.is_nan_spec() && self.units() < other.units()
    }

    /// IEEE 754 `<=`.
    pub open spec fn le_spec(self, other: Scalar) -> bool {
        !self.is_nan_spec() && !other.is_nan_spec() && self.units() <= other.units()
    }

    /// IEEE 754 `==`: a NaN equals nothing, and the two zeros are equal.
    pub open spec fn same_value(self, other: Scalar) -> bool {
        !self.is_nan_spec() && !other.is_nan_spec() && self.units() == other.units()
    }

    /// `lo <= self <= hi` in the IEEE 754 order.
    pub open spec fn within_spec(self, lo: Scalar, hi: Scalar) -> bool {
        lo.le_spec(self) && self.le_spec(hi)
    }

    /// This is the finite number whose value is the integer `n`, and it is
    /// positive zero if `n` is zero.
    pub open spec fn is_integer(self, n: int) -> bool {
        &&& self.is_finite_spec()
        &&& self.units() == n * pow2(1074)
        &&& self.sign() == (n < 0)
    }

    /// The same encoding with the sign bit flipped.
    pub open spec fn neg_spec(self) -> Scalar {
        if self.bits >= SIGN_BIT {
            Scalar { bits: (self.bits - SIGN_BIT) as u64 }
        } else {
            Scalar { bits: (self.bits + SIGN_BIT) as u64 }
        }
    }

    /// The number with the given encoding.
    pub fn from_bits(bits: u64) -> (s: Scalar)
        ensures
            s.bits == bits,
    {
        Scalar { bits }
    }

    /// The encoding of this number.
    pub fn to_bits(&self) -> (bits: u64)
        ensures
            bits == self.bits,
    {
        self.bits
    }

    /// Positive zero.
    pub fn zero() -> (s: Scalar)
        ensures
            s.bits == 0,
            s.units() == 0,
            !s.is_nan_spec(),
    {
        Scalar { bits: 0 }
    }

    /// Positive infinity, the upper bound that excludes no hit.
    pub fn infinity() -> (s: Scalar)
        ensures
            s.bits == INFINITY_BITS,
            !s.is_nan_spec(),
            forall|x: Scalar| !x.is_nan_spec() ==> #[trigger] x.le_spec(s),
    {
        let s = Scalar { bits: INFINITY_BITS };
        assert forall|x: Scalar| !x.is_nan_spec() implies #[trigger] x.le_spec(s) by {
            lemma_magnitude_order(x, s);
        }
        s
    }

    /// The number equal to the integer `x`. Every 32-bit integer fits the
    /// 53-bit significand, so the conversion is exact.
    pub fn from_i32(x: i32) -> (s: Scalar)
        ensures
            s.is_integer(x as int),
    {
        if x == 0 {
            return Scalar { bits: 0 };
        }
        let wide: i64 = x as i64;
        let a: u64 = if wide < 0 { (-wide) as u64 } else { wide as u64 };
        // p = 2^k is the leading bit of a, and q = 2^(52 - k) moves it to bit 52
        let mut p: u64 = 1;
        let mut q: u64 = HIDDEN_BIT;
        let mut e: u64 = 1023;
        let ghost mut k: nat = 0;
        proof {
            lemma2_to64();
            lemma2_to64_rest();
        }
        while a - p >= p
            invariant
                1 <= p <= a <= 0x8000_0000,
                k <= 31,
                p == pow2(k),
                q == pow2((52 - k) as nat),
                e == 1023 + k,
            decreases a - p,
        {
            proof {
                lemma_pow2_unfold(k + 1);
                lemma_pow2_unfold((52 - k) as nat);
                if k == 31 {
                    lemma2_to64();
                }
            }
            p = 2 * p;
            q = q / 2;
            e = e + 1;
            proof {
                k = k + 1;
            }
        }
        proof {
            lemma_pow2_adds(k, (52 - k) as nat);
            assert(p * q == HIDDEN_BIT);
            assert((a - p) * q < p * q) by (nonlinear_arith)
                requires
                    a - p < p,
                    q > 0,
            ;
            assert((a - p) * q >= 0) by (nonlinear_arith)
                requires
                    a - p >= 0,
                    q > 0,
            ;
        }
        let f: u64 = (a - p) * q;
        let m: u64 = e * HIDDEN_BIT + f;
        let s = Scalar { bits: if x < 0 { m + SIGN_BIT } else { m } };
        proof {
            assert(s.exponent() == e && s.fraction() == f);
            let up = pow2((1022 + k) as nat);
            assert((HIDDEN_BIT + f) * up == a * (q * up)) by (nonlinear_arith)
                requires
                    p * q == HIDDEN_BIT,
                    f == (a - p) * q,
            ;
            lemma_pow2_adds((52 - k) as nat, (1022 + k) as nat);
            assert(x < 0 ==> -(a * pow2(1074)) == x * pow2(1074)) by (nonlinear_arith)
                requires
                    x < 0 ==> a == -x,
            ;
        }
        s
    }

    /// Whether this is a NaN.
    pub fn is_nan(&self) -> (r: bool)
        ensures
            r == self.is_nan_spec(),
    {
        self.abs_bits() > INFINITY_BITS
    }

    /// The encoding without its sign bit.
    fn abs_bits(&self) -> (m: u64)
        ensures
            m == self.magnitude_bits(),
    {
        if self.bits >= SIGN_BIT {
            self.bits - SIGN_BIT
        } else {
            self.bits
        }
    }

    /// The number of opposite sign. Only the sign bit changes, so a NaN stays
    /// a NaN and every other value is mirrored about zero.
    pub fn neg(&self) -> (r: Scalar)
        ensures
            r == self.neg_spec(),
            r.is_nan_spec() == self.is_nan_spec(),
            r.units() == -self.units(),
    {
        if self.bits >= SIGN_BIT {
            Scalar { bits: self.bits - SIGN_BIT }
        } else {
            Scalar { bits: self.bits + SIGN_BIT }
        }
    }

    /// IEEE 754 `<`.
    pub fn lt(&self, other: &Scalar) -> (r: bool)
        ensures
            r == self.lt_spec(*other),
    {
        let a: u64 = self.abs_bits();
        let b: u64 = other.abs_bits();
        proof {
            lemma_magnitude_order(*self, *other);
            lemma_magnitude_order(*other, *self);
        }
        if a > INFINITY_BITS || b > INFINITY_BITS {
            false
        } else if self.bits >= SIGN_BIT {
            if other.bits >= SIGN_BIT {
                b < a
            } else {
                a != 0 || b != 0
            }
        } else {
            other.bits < SIGN_BIT && a < b
        }
    }

    /// IEEE 754 `<=`.
    pub fn le(&self, other: &Scalar) -> (r: bool)
        ensures
            r == self.le_spec(*other),
    {
        let a: u64 = self.abs_bits();
        let b: u64 = other.abs_bits();
        proof {
            lemma_magnitude_order(*self, *other);
            lemma_magnitude_order(*other, *self);
        }
        if a > INFINITY_BITS || b > INFINITY_BITS {
            false
        } else if self.bits >= SIGN_BIT {
            other.bits < SIGN_BIT || b <= a
        } else if other.bits >= SIGN_BIT {
            a == 0 && b == 0
        } else {
            a <= b
        }
    }

    /// Whether `lo <= self <= hi`; false as soon as one of the three is a NaN.
    pub fn within(&self, lo: &Scalar, hi: &Scalar) -> (r: bool)
        ensures
            r == self.within_spec(*lo, *hi),
    {
        lo.le(self) && self.le(hi)
    }
}

impl PartialEq for Scalar {
    /// IEEE 754 equality of the two numbers, not of their encodings.
    fn eq(&self, other: &Scalar) -> (r: bool) {
        let a: u64 = self.abs_bits();
        let b: u64 = other.abs_bits();
        proof {
            lemma_magnitude_order(*self, *other);
            lemma_magnitude_order(*other, *self);
        }
        if a > INFINITY_BITS || b > INFINITY_BITS {
            false
        } else if a == 0 {
            b == 0
        } else {
            self.bits == other.bits
        }
    }
}

impl vstd::std_specs::cmp::PartialEqSpecImpl for Scalar {
    open spec fn obeys_eq_spec() -> bool {
        true
    }

    open spec fn eq_spec(&self, other: &Scalar) -> bool {
        self.same_value(*other)
    }
}

/// The magnitude grows strictly with the encoding: comparing two sign-free
/// bit patterns as integers compares the magnitudes they stand for.
pub proof fn lemma_magnitude_order(a: Scalar, b: Scalar)
    ensures
        a.magnitude_bits() < b.magnitude_bits() ==> a.magnitude() < b.magnitude(),
        a.magnitude_bits() == b.magnitude_bits() ==> a.magnitude() == b.magnitude(),
        a.magnitude_bits() == 0 <==> a.magnitude() == 0,
{
    let ea = a.exponent();
    let eb = b.exponent();
    let fa = a.fraction();
    let fb = b.fraction();
    if ea > 0 {
        lemma_pow2_pos((ea - 1) as nat);
        lemma_mul_inequality(1, pow2((ea - 1) as nat) as int, (HIDDEN_BIT + fa) as int);
    }
    if a.magnitude_bits() < b.magnitude_bits() {
        if ea == eb {
            if ea > 0 {
                lemma_mul_strict_inequality(
                    (HIDDEN_BIT + fa) as int,
                    (HIDDEN_BIT + fb) as int,
                    pow2((ea - 1) as nat) as int,
                );
            }
        } else {
            let top = pow2((eb - 1) as nat);
            lemma_pow2_pos((eb - 1) as nat);
            // b lies at or above the start of its binade
            lemma_mul_inequality(HIDDEN_BIT as int, (HIDDEN_BIT + fb) as int, top as int);
            if ea == 0 {
            } else {
                let low = pow2((ea - 1) as nat);
                // a lies below the end of its binade, which is where the next one starts
                lemma_mul_strict_inequality((HIDDEN_BIT + fa) as int, 2 * HIDDEN_BIT, low as int);
                lemma_pow2_unfold(ea);
                assert(2 * HIDDEN_BIT * low == HIDDEN_BIT * pow2(ea)) by (nonlinear_arith)
                    requires
                        pow2(ea) == 2 * low,
                ;
                if ea < eb - 1 {
                    lemma_pow2_strictly_increases(ea, (eb - 1) as nat);
                }
            }
        }
    }
}

} // verus!
