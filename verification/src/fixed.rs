// Fixed-point scalars.
//
// A `Fx` stores an integer mantissa; the value it denotes is `bits / SCALE`.
// Results of arithmetic are floored to the nearest representable value below
// (exact where the mathematical result is representable) and saturate at the
// ends of the mantissa range instead of wrapping.

use vstd::prelude::*;

verus! {

use vstd::arithmetic::div_mod::{
    lemma_fundamental_div_mod,
    lemma_fundamental_div_mod_converse,
};

/// Mantissa steps per unit: a `Fx` with mantissa `b` denotes `b / SCALE`.
pub const SCALE: i64 = 65536;

/// Largest mantissa magnitude; out-of-range results saturate to this.
pub const SAT_MAX: i64 = 0x7fff_ffff_ffff_ffff;

/// Smallest mantissa; kept symmetric to `SAT_MAX` so negation never wraps.
pub const SAT_MIN: i64 = -0x7fff_ffff_ffff_ffff;

/// Saturation of an unbounded mantissa into the representable range.
pub open spec fn sat(x: int) -> int {
    if x > SAT_MAX as int {
        SAT_MAX as int
    } else if x < SAT_MIN as int {
        SAT_MIN as int
    } else {
        x
    }
}

/// Mantissa of a sum.
pub open spec fn fadd_v(a: int, b: int) -> int {
    sat(a + b)
}

/// Mantissa of a difference.
pub open spec fn fsub_v(a: int, b: int) -> int {
    sat(a - b)
}

/// Mantissa of a negation.
pub open spec fn fneg_v(a: int) -> int {
    sat(-a)
}

/// Mantissa of a product: the exact product floored to the grid.
/// Ghost `/` is Euclidean, so for the positive divisor `SCALE` this is
/// exactly the floor of `a * b / SCALE`.
pub open spec fn fmul_v(a: int, b: int) -> int {
    sat((a * b) / (SCALE as int))
}

/// Mantissa of a quotient (divisor must denote a positive value).
pub open spec fn fdiv_v(a: int, b: int) -> int {
    sat((a * (SCALE as int)) / b)
}

/// `r` is the integer square root of `x`, rounded down.
pub open spec fn is_isqrt(x: int, r: int) -> bool {
    0 <= r && r * r <= x && x < (r + 1) * (r + 1)
}

/// The integer square root of `x`, rounded down (for `x >= 0`).
pub open spec fn isqrt_v(x: int) -> int {
    choose|r: int| is_isqrt(x, r)
}

/// Mantissa of a square root: `sqrt(a/S) = isqrt(a*S)/S`.
/// Negative inputs are mapped to zero (callers clamp or take `abs` first).
pub open spec fn fsqrt_v(a: int) -> int {
    if a <= 0 {
        0
    } else {
        isqrt_v(a * (SCALE as int))
    }
}

/// Mantissa clamped to the unit interval `[0, 1]`.
pub open spec fn clamp01_v(a: int) -> int {
    if a < 0 {
        0
    } else if a > SCALE as int {
        SCALE as int
    } else {
        a
    }
}

/// A fixed-point scalar denoting `bits / SCALE`.
#[derive(Clone, Copy, PartialEq, Eq, Structural, Debug)]
pub struct Fx {
    pub bits: i64,
}

impl View for Fx {
    type V = int;

    open spec fn view(&self) -> int {
        self.bits as int
    }
}

/// For every nonnegative `x` an integer square root exists, so the chosen
/// value `isqrt_v(x)` really satisfies `is_isqrt`.
pub proof fn lemma_isqrt_exists(x: int)
    requires
        x >= 0,
    ensures
        is_isqrt(x, isqrt_v(x)),
    decreases x,
{
    if x == 0 {
        assert(is_isqrt(0, 0));
    } else {
        lemma_isqrt_exists(x - 1);
        let r = isqrt_v(x - 1);
        if x < (r + 1) * (r + 1) {
            assert(is_isqrt(x, r));
        } else {
            assert(x == (r + 1) * (r + 1));
            assert((r + 2) * (r + 2) > x) by (nonlinear_arith)
                requires
                    x == (r + 1) * (r + 1),
                    r >= 0,
            ;
            assert(is_isqrt(x, r + 1));
        }
    }
}

/// The square root of a mantissa is never negative.
pub proof fn lemma_fsqrt_nonneg(a: int)
    ensures
        fsqrt_v(a) >= 0,
{
    if a > 0 {
        lemma_isqrt_exists(a * (SCALE as int));
    }
}

proof fn lemma_isqrt_unique(x: int, r1: int, r2: int)
    requires
        is_isqrt(x, r1),
        is_isqrt(x, r2),
    ensures
        r1 == r2,
{
    if r1 < r2 {
        assert((r1 + 1) * (r1 + 1) <= r2 * r2) by (nonlinear_arith)
            requires
                0 <= r1,
                r1 + 1 <= r2,
        ;
    }
    if r2 < r1 {
        assert((r2 + 1) * (r2 + 1) <= r1 * r1) by (nonlinear_arith)
            requires
                0 <= r2,
                r2 + 1 <= r1,
        ;
    }
}

/// A product of two unit-interval scalars stays in the unit interval.
pub proof fn lemma_fmul_unit_range(a: int, b: int)
    requires
        0 <= a <= SCALE as int,
        0 <= b <= SCALE as int,
    ensures
        0 <= fmul_v(a, b) <= SCALE as int,
{
    vstd::arithmetic::mul::lemma_mul_nonnegative(a, b);
    vstd::arithmetic::mul::lemma_mul_upper_bound(a, SCALE as int, b, SCALE as int);
    vstd::arithmetic::div_mod::lemma_div_pos_is_pos(a * b, SCALE as int);
    vstd::arithmetic::div_mod::lemma_div_is_ordered(
        a * b,
        (SCALE as int) * (SCALE as int),
        SCALE as int,
    );
    vstd::arithmetic::div_mod::lemma_div_multiples_vanish(SCALE as int, SCALE as int);
}

/// Saturate a wide intermediate mantissa back into `i64`.
fn sat_i128(x: i128) -> (r: i64)
    ensures
        r as int == sat(x as int),
{
    if x > SAT_MAX as i128 {
        SAT_MAX
    } else if x < SAT_MIN as i128 {
        SAT_MIN
    } else {
        x as i64
    }
}

/// Floor division of a wide mantissa by a positive divisor.
/// Ghost `/` is Euclidean, which for `d > 0` is the flooring quotient, so the
/// contract can state the result as plain `p / d`.
fn i128_floor_div(p: i128, d: i128) -> (q: i128)
    requires
        0 < d <= 0x8000_0000_0000_0000i128,
        -0x4000_0000_0000_0000_0000_0000_0000_0000i128 <= p
            <= 0x4000_0000_0000_0000_0000_0000_0000_0000i128,
    ensures
        q == p as int / d as int,
{
    if p >= 0 {
        let n: u128 = p as u128;
        let du: u128 = d as u128;
        let qu: u128 = n / du;
        proof {
            assert(qu as int == p as int / d as int);
            assert(qu <= n) by (nonlinear_arith)
                requires
                    qu as int == n as int / du as int,
                    du >= 1,
                    n >= 0,
            ;
        }
        qu as i128
    } else {
        let n: u128 = (-p) as u128;
        let du: u128 = d as u128;
        let qu: u128 = (n + (du - 1)) / du;
        proof {
            assert(qu <= n + (du - 1)) by (nonlinear_arith)
                requires
                    qu as int == (n + (du - 1)) as int / du as int,
                    du >= 1,
                    n >= 0,
            ;
            let ni = n as int;
            let di = d as int;
            let k = ni / di;
            let r = ni % di;
            lemma_fundamental_div_mod(ni, di);
            assert(ni == di * k + r);
            if r == 0 {
                // n + d - 1 = k*d + (d - 1), so the rounded-up quotient is k,
                // and -n = (-k)*d exactly, so (-n)/d = -k.
                assert(ni + di - 1 == k * di + (di - 1)) by (nonlinear_arith)
                    requires
                        ni == di * k + r,
                        r == 0,
                ;
                lemma_fundamental_div_mod_converse(ni + di - 1, di, k, di - 1);
                assert(qu as int == k);
                assert(-ni == (-k) * di + 0) by (nonlinear_arith)
                    requires
                        ni == di * k + r,
                        r == 0,
                ;
                lemma_fundamental_div_mod_converse(-ni, di, -k, 0);
            } else {
                // n + d - 1 = (k+1)*d + (r-1), so the rounded-up quotient is
                // k + 1, and -n = (-(k+1))*d + (d - r), so (-n)/d = -(k+1).
                assert(ni + di - 1 == (k + 1) * di + (r - 1)) by (nonlinear_arith)
                    requires
                        ni == di * k + r,
                ;
                lemma_fundamental_div_mod_converse(ni + di - 1, di, k + 1, r - 1);
                assert(qu as int == k + 1);
                assert(-ni == (-(k + 1)) * di + (di - r)) by (nonlinear_arith)
                    requires
                        ni == di * k + r,
                ;
                lemma_fundamental_div_mod_converse(-ni, di, -(k + 1), di - r);
            }
        }
        -(qu as i128)
    }
}

/// Integer square root, rounded down.
fn isqrt_u128(x: u128) -> (r: u128)
    requires
        x < 0x1_000000_000000_000000_000000_000000u128,
    ensures
        is_isqrt(x as int, r as int),
        r <= 0x1000_0000_0000_0000u128,
{
    let mut lo: u128 = 0;
    let mut hi: u128 = 0x1000_0000_0000_0000;
    proof {
        assert((hi + 1) * (hi + 1) > x) by (nonlinear_arith)
            requires
                hi == 0x1000_0000_0000_0000u128,
                x < 0x1_000000_000000_000000_000000_000000u128,
        ;
    }
    while lo < hi
        invariant
            0 <= lo <= hi <= 0x1000_0000_0000_0000u128,
            lo * lo <= x,
            x < (hi + 1) * (hi + 1),
        decreases hi - lo,
    {
        let mid: u128 = lo + (hi - lo + 1) / 2;
        proof {
            assert(lo < mid <= hi);
            assert(mid * mid <= 0x1000_0000_0000_0000u128 * 0x1000_0000_0000_0000u128)
                by (nonlinear_arith)
                requires
                    0 <= mid <= 0x1000_0000_0000_0000u128,
            ;
        }
        if mid * mid <= x {
            lo = mid;
        } else {
            hi = mid - 1;
        }
    }
    lo
}

impl Fx {
    /// The scalar with the given mantissa.
    pub fn from_bits(bits: i64) -> (r: Fx)
        ensures
            r@ == bits as int,
    {
        Fx { bits }
    }

    /// Zero.
    pub fn zero() -> (r: Fx)
        ensures
            r@ == 0,
    {
        Fx { bits: 0 }
    }

    /// One.
    pub fn one() -> (r: Fx)
        ensures
            r@ == SCALE as int,
    {
        Fx { bits: SCALE }
    }

    /// The integer `i` as a scalar.
    pub fn from_int(i: i64) -> (r: Fx)
        ensures
            r@ == sat(i * (SCALE as int)),
    {
        let wide: i128 = (i as i128) * 65536i128;
        Fx { bits: sat_i128(wide) }
    }

    /// The ratio `num / den` floored to the grid (`den` positive).
    pub fn from_ratio(num: i64, den: i64) -> (r: Fx)
        requires
            den > 0,
        ensures
            r@ == sat((num * (SCALE as int)) / den as int),
    {
        let wide: i128 = (num as i128) * 65536i128;
        let q: i128 = i128_floor_div(wide, den as i128);
        Fx { bits: sat_i128(q) }
    }

    /// Sum.
    pub fn add(self, o: Fx) -> (r: Fx)
        ensures
            r@ == fadd_v(self@, o@),
    {
        Fx { bits: sat_i128(self.bits as i128 + o.bits as i128) }
    }

    /// Difference.
    pub fn sub(self, o: Fx) -> (r: Fx)
        ensures
            r@ == fsub_v(self@, o@),
    {
        Fx { bits: sat_i128(self.bits as i128 - o.bits as i128) }
    }

    /// Negation.
    pub fn neg(self) -> (r: Fx)
        ensures
            r@ == fneg_v(self@),
    {
        Fx { bits: sat_i128(-(self.bits as i128)) }
    }

    /// Absolute value.
    pub fn abs(self) -> (r: Fx)
        ensures
            r@ == (if self@ >= 0 { self@ } else { fneg_v(self@) }),
    {
        if self.bits >= 0 {
            self
        } else {
            self.neg()
        }
    }

    /// Product, floored to the grid.
    pub fn mul(self, o: Fx) -> (r: Fx)
        ensures
            r@ == fmul_v(self@, o@),
    {
        proof {
            assert(-0x4000_0000_0000_0000_0000_0000_0000_0000i128 <= (self.bits as i128)
                * (o.bits as i128) <= 0x4000_0000_0000_0000_0000_0000_0000_0000i128)
                by (nonlinear_arith)
                requires
                    -0x8000_0000_0000_0000i128 <= self.bits as i128 <= 0x7fff_ffff_ffff_ffffi128,
                    -0x8000_0000_0000_0000i128 <= o.bits as i128 <= 0x7fff_ffff_ffff_ffffi128,
            ;
        }
        let wide: i128 = (self.bits as i128) * (o.bits as i128);
        let q: i128 = i128_floor_div(wide, 65536i128);
        Fx { bits: sat_i128(q) }
    }

    /// Quotient, floored to the grid; the divisor must be positive.
    pub fn div(self, o: Fx) -> (r: Fx)
        requires
            o@ > 0,
        ensures
            r@ == fdiv_v(self@, o@),
    {
        let wide: i128 = (self.bits as i128) * 65536i128;
        let q: i128 = i128_floor_div(wide, o.bits as i128);
        Fx { bits: sat_i128(q) }
    }

    /// Square root, floored to the grid; negative inputs give zero.
    pub fn sqrt(self) -> (r: Fx)
        ensures
            r@ == fsqrt_v(self@),
            r@ >= 0,
    {
        if self.bits <= 0 {
            Fx { bits: 0 }
        } else {
            let x: u128 = (self.bits as u128) * (SCALE as u128);
            let root: u128 = isqrt_u128(x);
            proof {
                let xi = x as int;
                assert(is_isqrt(xi, root as int));
                assert(is_isqrt(xi, isqrt_v(xi)));
                lemma_isqrt_unique(xi, root as int, isqrt_v(xi));
            }
            Fx { bits: root as i64 }
        }
    }

    /// Clamp into the unit interval `[0, 1]`.
    pub fn clamp01(self) -> (r: Fx)
        ensures
            r@ == clamp01_v(self@),
    {
        if self.bits < 0 {
            Fx { bits: 0 }
        } else if self.bits > SCALE {
            Fx { bits: SCALE }
        } else {
            self
        }
    }

    /// Strictly less than.
    pub fn lt(self, o: Fx) -> (r: bool)
        ensures
            r == (self@ < o@),
    {
        self.bits < o.bits
    }

    /// Less than or equal.
    pub fn le(self, o: Fx) -> (r: bool)
        ensures
            r == (self@ <= o@),
    {
        self.bits <= o.bits
    }

    /// Strictly greater than.
    pub fn gt(self, o: Fx) -> (r: bool)
        ensures
            r == (self@ > o@),
    {
        self.bits > o.bits
    }

    /// Whether the scalar is zero.
    pub fn is_zero(self) -> (r: bool)
        ensures
            r == (self@ == 0),
    {
        self.bits == 0
    }
}

} // verus!
