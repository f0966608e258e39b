//! Saturating decimal fixed-point scalars.
//!
//! A [`Fixed`] holds a signed count of millionths.  Sums and differences are
//! exact until they leave the 64-bit range, where they stick at the nearest
//! bound; products, quotients and square roots round toward zero.  The two
//! bounds stand in for the infinities: nothing is ever larger than
//! [`Fixed::infinity`].

use vstd::arithmetic::div_mod::lemma_div_is_ordered;
use vstd::prelude::*;

verus! {

/// Raw units per whole unit.
pub const SCALE: i64 = 1_000_000;

/// `SCALE`, as wide as the products that it divides.
const WIDE_SCALE: u128 = 1_000_000;

/// `SCALE`, as wide as the whole numbers that it multiplies.
const SIGNED_SCALE: i128 = 1_000_000;

/// The nearest 64-bit value to `x`.
pub open spec fn saturate(x: int) -> i64 {
    if x > i64::MAX {
        i64::MAX
    } else if x < i64::MIN {
        i64::MIN
    } else {
        x as i64
    }
}

/// Absolute value of an integer.
pub open spec fn magnitude(x: int) -> int {
    if x < 0 {
        -x
    } else {
        x
    }
}

/// Quotient of `n` by `d` rounded toward zero; meaningful for `d != 0`.
pub open spec fn quotient(n: int, d: int) -> int {
    let q = magnitude(n) / magnitude(d);
    if (n < 0) != (d < 0) {
        -q
    } else {
        q
    }
}

/// `r` is the integer part of the square root of `n`.
pub open spec fn is_floor_sqrt(n: int, r: int) -> bool {
    0 <= r && r * r <= n < (r + 1) * (r + 1)
}

/// Integer part of the square root of `n`; meaningful for `n >= 0`.
pub open spec fn floor_sqrt(n: int) -> int {
    choose|r: int| is_floor_sqrt(n, r)
}

/// Squaring is monotone on the non-negative integers.
pub proof fn lemma_square_monotone(a: int, b: int)
    by (nonlinear_arith)
    requires
        0 <= a <= b,
    ensures
        a * a <= b * b,
{
}

/// At most one integer is the floor square root of `n`.
pub proof fn lemma_floor_sqrt_unique(n: int, r: int, s: int)
    requires
        is_floor_sqrt(n, r),
        is_floor_sqrt(n, s),
    ensures
        r == s,
{
    if r < s {
        lemma_square_monotone(r + 1, s);
    } else if s < r {
        lemma_square_monotone(s + 1, r);
    }
}

/// Every non-negative integer has a floor square root.
pub proof fn lemma_floor_sqrt_exists(n: int)
    requires
        n >= 0,
    ensures
        is_floor_sqrt(n, floor_sqrt(n)),
    decreases n,
{
    if n == 0 {
        assert(is_floor_sqrt(0, 0));
    } else {
        lemma_floor_sqrt_exists(n - 1);
        let r = floor_sqrt(n - 1);
        if (r + 1) * (r + 1) <= n {
            assert((r + 2) * (r + 2) > (r + 1) * (r + 1)) by (nonlinear_arith)
                requires
                    r >= 0,
            ;
            assert(is_floor_sqrt(n, r + 1));
        } else {
            assert(is_floor_sqrt(n, r));
        }
    }
}

/// A witness determines the floor square root.
pub proof fn lemma_floor_sqrt_is(n: int, r: int)
    requires
        is_floor_sqrt(n, r),
    ensures
        floor_sqrt(n) == r,
{
    lemma_floor_sqrt_unique(n, r, floor_sqrt(n));
}

/// The floor square root is monotone.
pub proof fn lemma_floor_sqrt_monotone(m: int, n: int)
    requires
        0 <= m <= n,
    ensures
        floor_sqrt(m) <= floor_sqrt(n),
{
    lemma_floor_sqrt_exists(m);
    lemma_floor_sqrt_exists(n);
    if floor_sqrt(n) < floor_sqrt(m) {
        lemma_square_monotone(floor_sqrt(n) + 1, floor_sqrt(m));
    }
}

/// Integer part of the square root of `n`, by bisection.
pub fn isqrt(n: u128) -> (r: u128)
    ensures
        r == floor_sqrt(n as int),
        is_floor_sqrt(n as int, r as int),
        r < 0x1_0000_0000_0000_0000,
{
    let mut lo: u128 = 0;
    let mut hi: u128 = 0x1_0000_0000_0000_0000;
    assert(0x1_0000_0000_0000_0000int * 0x1_0000_0000_0000_0000int > u128::MAX);
    while hi - lo > 1
        invariant
            lo < hi <= 0x1_0000_0000_0000_0000,
            lo * lo <= n,
            n < hi * hi,
        decreases hi - lo,
    {
        let mid: u128 = lo + (hi - lo) / 2;
        assert(mid * mid <= 0xFFFF_FFFF_FFFF_FFFF * 0xFFFF_FFFF_FFFF_FFFF) by (nonlinear_arith)
            requires
                0 <= mid <= 0xFFFF_FFFF_FFFF_FFFF,
        ;
        if mid * mid <= n {
            lo = mid;
        } else {
            hi = mid;
        }
    }
    proof {
        lemma_floor_sqrt_is(n as int, lo as int);
    }
    lo
}

/// Absolute value of a 64-bit integer, widened so that it always fits.
pub fn magnitude_of(x: i64) -> (m: u128)
    ensures
        m == magnitude(x as int),
        m <= 0x8000_0000_0000_0000,
{
    if x < 0 {
        (-(x as i128)) as u128
    } else {
        x as u128
    }
}

/// A fixed-point number: `raw` millionths.
#[derive(Clone, Copy, Debug, PartialEq, Eq, Structural)]
pub struct Fixed {
    pub raw: i64,
}

impl View for Fixed {
    type V = int;

    open spec fn view(&self) -> int {
        self.raw as int
    }
}

impl Fixed {
    pub open spec fn spec_from_raw(raw: i64) -> Fixed {
        Fixed { raw }
    }

    /// The number of `raw` millionths.
    #[verifier::when_used_as_spec(spec_from_raw)]
    pub fn from_raw(raw: i64) -> (r: Fixed)
        ensures
            r == Fixed::spec_from_raw(raw),
    {
        Fixed { raw }
    }

    pub open spec fn spec_from_int(n: i64) -> Fixed {
        Fixed { raw: saturate(n * SCALE) }
    }

    /// The whole number `n`, saturated.
    #[verifier::when_used_as_spec(spec_from_int)]
    pub fn from_int(n: i64) -> (r: Fixed)
        ensures
            r == Fixed::spec_from_int(n),
    {
        Fixed::from_wide(n as i128 * SIGNED_SCALE)
    }

    pub open spec fn spec_zero() -> Fixed {
        Fixed { raw: 0 }
    }

    /// Zero.
    #[verifier::when_used_as_spec(spec_zero)]
    pub fn zero() -> (r: Fixed)
        ensures
            r == Fixed::spec_zero(),
    {
        Fixed { raw: 0 }
    }

    pub open spec fn spec_one() -> Fixed {
        Fixed { raw: SCALE }
    }

    /// One.
    #[verifier::when_used_as_spec(spec_one)]
    pub fn one() -> (r: Fixed)
        ensures
            r == Fixed::spec_one(),
    {
        Fixed { raw: SCALE }
    }

    pub open spec fn spec_infinity() -> Fixed {
        Fixed { raw: i64::MAX }
    }

    /// The largest value, which no result exceeds.
    #[verifier::when_used_as_spec(spec_infinity)]
    pub fn infinity() -> (r: Fixed)
        ensures
            r == Fixed::spec_infinity(),
    {
        Fixed { raw: i64::MAX }
    }

    /// The value nearest to `wide` raw units.
    fn from_wide(wide: i128) -> (r: Fixed)
        ensures
            r.raw == saturate(wide as int),
    {
        if wide > i64::MAX as i128 {
            Fixed { raw: i64::MAX }
        } else if wide < i64::MIN as i128 {
            Fixed { raw: i64::MIN }
        } else {
            Fixed { raw: wide as i64 }
        }
    }

    /// The value nearest to `m` raw units, negated when `negative`.
    fn from_sign_magnitude(negative: bool, m: u128) -> (r: Fixed)
        ensures
            r.raw == saturate(
                if negative {
                    -(m as int)
                } else {
                    m as int
                },
            ),
    {
        if m > 0x8000_0000_0000_0000 {
            if negative {
                Fixed { raw: i64::MIN }
            } else {
                Fixed { raw: i64::MAX }
            }
        } else if negative {
            Fixed::from_wide(-(m as i128))
        } else {
            Fixed::from_wide(m as i128)
        }
    }

    pub open spec fn spec_add(self, rhs: Fixed) -> Fixed {
        Fixed { raw: saturate(self.raw + rhs.raw) }
    }

    /// Saturating sum.
    #[verifier::when_used_as_spec(spec_add)]
    pub fn add(self, rhs: Fixed) -> (r: Fixed)
        ensures
            r == self.spec_add(rhs),
    {
        Fixed::from_wide(self.raw as i128 + rhs.raw as i128)
    }

    pub open spec fn spec_sub(self, rhs: Fixed) -> Fixed {
        Fixed { raw: saturate(self.raw - rhs.raw) }
    }

    /// Saturating difference.
    #[verifier::when_used_as_spec(spec_sub)]
    pub fn sub(self, rhs: Fixed) -> (r: Fixed)
        ensures
            r == self.spec_sub(rhs),
    {
        Fixed::from_wide(self.raw as i128 - rhs.raw as i128)
    }

    pub open spec fn spec_neg(self) -> Fixed {
        Fixed { raw: saturate(-self.raw) }
    }

    /// Saturating negation.
    #[verifier::when_used_as_spec(spec_neg)]
    pub fn neg(self) -> (r: Fixed)
        ensures
            r == self.spec_neg(),
    {
        Fixed::from_wide(-(self.raw as i128))
    }

    pub open spec fn spec_mul(self, rhs: Fixed) -> Fixed {
        Fixed { raw: saturate(quotient(self.raw * rhs.raw, SCALE as int)) }
    }

    /// Product, rounded toward zero and saturated.
    #[verifier::when_used_as_spec(spec_mul)]
    pub fn mul(self, rhs: Fixed) -> (r: Fixed)
        ensures
            r == self.spec_mul(rhs),
    {
        let a: u128 = magnitude_of(self.raw);
        let b: u128 = magnitude_of(rhs.raw);
        let negative: bool = (self.raw < 0) != (rhs.raw < 0);
        proof {
            lemma_product_magnitude(self.raw as int, rhs.raw as int);
            assert(a * b <= 0x8000_0000_0000_0000 * 0x8000_0000_0000_0000) by (nonlinear_arith)
                requires
                    0 <= a <= 0x8000_0000_0000_0000,
                    0 <= b <= 0x8000_0000_0000_0000,
            ;
        }
        Fixed::from_sign_magnitude(negative, (a * b) / WIDE_SCALE)
    }

    pub open spec fn spec_div(self, rhs: Fixed) -> Fixed {
        if rhs.raw == 0 {
            if self.raw > 0 {
                Fixed { raw: i64::MAX }
            } else if self.raw < 0 {
                Fixed { raw: i64::MIN }
            } else {
                Fixed { raw: 0 }
            }
        } else {
            Fixed { raw: saturate(quotient(self.raw * SCALE, rhs.raw as int)) }
        }
    }

    /// Quotient, rounded toward zero and saturated.  Dividing by zero gives
    /// the bound on the dividend's side, and zero for a zero dividend.
    #[verifier::when_used_as_spec(spec_div)]
    pub fn div(self, rhs: Fixed) -> (r: Fixed)
        ensures
            r == self.spec_div(rhs),
    {
        if rhs.raw == 0 {
            if self.raw > 0 {
                Fixed { raw: i64::MAX }
            } else if self.raw < 0 {
                Fixed { raw: i64::MIN }
            } else {
                Fixed { raw: 0 }
            }
        } else {
            let a: u128 = magnitude_of(self.raw);
            let b: u128 = magnitude_of(rhs.raw);
            let negative: bool = (self.raw < 0) != (rhs.raw < 0);
            Fixed::from_sign_magnitude(negative, (a * WIDE_SCALE) / b)
        }
    }

    pub open spec fn spec_sqrt(self) -> Fixed {
        if self.raw <= 0 {
            Fixed { raw: 0 }
        } else {
            Fixed { raw: floor_sqrt(self.raw * SCALE) as i64 }
        }
    }

    /// Square root, rounded down; zero for a negative argument.
    #[verifier::when_used_as_spec(spec_sqrt)]
    pub fn sqrt(self) -> (r: Fixed)
        ensures
            r == self.spec_sqrt(),
            self.raw > 0 ==> is_floor_sqrt(self.raw * SCALE, r.raw as int),
    {
        if self.raw <= 0 {
            Fixed { raw: 0 }
        } else {
            let n: u128 = (self.raw as u128) * WIDE_SCALE;
            let root: u128 = isqrt(n);
            proof {
                lemma_floor_sqrt_in_range(n as int);
            }
            Fixed { raw: root as i64 }
        }
    }

    pub open spec fn spec_min(self, rhs: Fixed) -> Fixed {
        if self.raw <= rhs.raw {
            self
        } else {
            rhs
        }
    }

    /// The smaller of two values.
    #[verifier::when_used_as_spec(spec_min)]
    pub fn min(self, rhs: Fixed) -> (r: Fixed)
        ensures
            r == self.spec_min(rhs),
    {
        if self.raw <= rhs.raw {
            self
        } else {
            rhs
        }
    }

    pub open spec fn spec_max(self, rhs: Fixed) -> Fixed {
        if self.raw >= rhs.raw {
            self
        } else {
            rhs
        }
    }

    /// The larger of two values.
    #[verifier::when_used_as_spec(spec_max)]
    pub fn max(self, rhs: Fixed) -> (r: Fixed)
        ensures
            r == self.spec_max(rhs),
    {
        if self.raw >= rhs.raw {
            self
        } else {
            rhs
        }
    }

    pub open spec fn spec_clamp(self, lo: Fixed, hi: Fixed) -> Fixed {
        self.max(lo).min(hi)
    }

    /// `self` moved into `[lo, hi]`; `hi` wins where the bounds cross.
    #[verifier::when_used_as_spec(spec_clamp)]
    pub fn clamp(self, lo: Fixed, hi: Fixed) -> (r: Fixed)
        ensures
            r == self.spec_clamp(lo, hi),
    {
        self.max(lo).min(hi)
    }
}

/// For a positive divisor the quotient is monotone in the dividend.
pub proof fn lemma_quotient_monotone(m: int, n: int, d: int)
    requires
        m <= n,
        d > 0,
    ensures
        quotient(m, d) <= quotient(n, d),
{
    if m >= 0 {
        lemma_div_is_ordered(m, n, d);
    } else if n >= 0 {
        lemma_div_is_ordered(0, -m, d);
        lemma_div_is_ordered(0, n, d);
    } else {
        lemma_div_is_ordered(-n, -m, d);
    }
}

/// A quotient of non-negative numbers is non-negative, and with a
/// positive divisor it has the sign of the dividend or is zero.
pub proof fn lemma_quotient_sign(n: int, d: int)
    requires
        d > 0,
    ensures
        n >= 0 ==> quotient(n, d) >= 0,
        n <= 0 ==> quotient(n, d) <= 0,
{
    lemma_div_is_ordered(0, magnitude(n), d);
}

/// A number times itself is never negative.
pub proof fn lemma_square_nonnegative(x: Fixed)
    ensures
        x.mul(x)@ >= 0,
{
    assert(x.raw * x.raw >= 0) by (nonlinear_arith);
    lemma_quotient_sign(x.raw * x.raw, SCALE as int);
}

/// A square root is never negative.
pub proof fn lemma_sqrt_nonnegative(x: Fixed)
    ensures
        x.sqrt()@ >= 0,
{
    if x.raw > 0 {
        lemma_floor_sqrt_exists(x.raw * SCALE);
        lemma_floor_sqrt_in_range(x.raw * SCALE);
    }
}

/// The floor square root of a number below `2^84` is below `2^42`.
pub proof fn lemma_floor_sqrt_in_range(n: int)
    requires
        0 <= n < 0x10_0000_0000_0000_0000_0000,
    ensures
        0 <= floor_sqrt(n) < 0x400_0000_0000,
{
    lemma_floor_sqrt_exists(n);
    if floor_sqrt(n) >= 0x400_0000_0000 {
        lemma_square_monotone(0x400_0000_0000, floor_sqrt(n));
    }
}

/// A product with zero is zero.
pub proof fn lemma_mul_zero(x: Fixed)
    ensures
        x.mul(Fixed::zero()) == Fixed::zero(),
        Fixed::zero().mul(x) == Fixed::zero(),
{
    assert(x.raw * 0 == 0 && 0 * x.raw == 0) by (nonlinear_arith);
}

/// A product that needs no rounding is exact.
pub proof fn lemma_mul_exact(a: Fixed, b: Fixed, product: Fixed)
    requires
        a.raw * b.raw == product.raw * SCALE,
    ensures
        a.mul(b) == product,
{
    let m = magnitude(product@);
    assert(magnitude(product.raw * SCALE) == m * 1_000_000);
    assert((m * 1_000_000) / 1_000_000 == m) by (nonlinear_arith);
}

/// A product with one is the other factor.
pub proof fn lemma_mul_one(x: Fixed)
    ensures
        x.mul(Fixed::one()) == x,
        Fixed::one().mul(x) == x,
{
    assert(SCALE * x.raw == x.raw * SCALE) by (nonlinear_arith);
    lemma_mul_exact(x, Fixed::one(), x);
    lemma_mul_exact(Fixed::one(), x, x);
}

/// A factor in `[0, 1]` brings a non-negative number nearer to zero, and
/// never below it.
pub proof fn lemma_mul_darkens(a: Fixed, c: Fixed)
    requires
        0 <= a@ <= SCALE,
        0 <= c@,
    ensures
        0 <= a.mul(c)@ <= c@,
        0 <= c.mul(a)@ <= c@,
{
    let x = a.raw as int;
    let y = c.raw as int;
    assert(0 <= (x * y) / 1_000_000 <= y && x * y >= 0 && x * y == y * x) by (nonlinear_arith)
        requires
            0 <= x <= 1_000_000,
            0 <= y,
    ;
}

/// Division by a positive number is monotone in the dividend.
pub proof fn lemma_div_monotone(x: Fixed, y: Fixed, d: Fixed)
    requires
        x@ <= y@,
        d@ > 0,
    ensures
        x.div(d)@ <= y.div(d)@,
{
    lemma_quotient_monotone(x.raw * SCALE, y.raw * SCALE, d.raw as int);
}

/// The magnitude of a product is the product of the magnitudes, and a
/// non-zero product is negative exactly when the signs differ.
pub proof fn lemma_product_magnitude(a: int, b: int)
    by (nonlinear_arith)
    ensures
        magnitude(a * b) == magnitude(a) * magnitude(b),
        a * b != 0 ==> ((a * b < 0) <==> ((a < 0) != (b < 0))),
{
}

} // verus!
