use vstd::prelude::*;

verus! {

/// Fixed-point scalars.
///
/// A `Fx` holds the real value `raw / SCALE`. Every operation is total:
/// results are truncated toward zero and saturate at `±MAX_RAW`, and a
/// division by zero saturates in the direction of the dividend (the
/// fixed-point analogue of an infinite quotient). Because the carrier is a
/// plain integer, scalars are totally ordered by construction: there is no
/// not-a-number value, so distance comparisons can never fail.
pub const SCALE: i64 = 65536;

pub const MAX_RAW: i64 = 0x4000_0000_0000;

/// Absolute value over mathematical integers.
pub open spec fn abs1(a: int) -> int {
    if a >= 0 {
        a
    } else {
        -a
    }
}

/// Saturate to the representable raw range.
pub open spec fn sat(x: int) -> int {
    if x > MAX_RAW {
        MAX_RAW as int
    } else if x < -(MAX_RAW as int) {
        -(MAX_RAW as int)
    } else {
        x
    }
}

/// Division truncating toward zero, as the machine division does.
pub open spec fn sdiv(a: int, b: int) -> int {
    if (a >= 0) == (b >= 0) {
        abs1(a) / abs1(b)
    } else {
        -(abs1(a) / abs1(b))
    }
}

/// Remainder with the sign of the dividend, as the machine remainder does.
pub open spec fn srem(a: int, b: int) -> int {
    a - sdiv(a, b) * b
}

#[derive(Clone, Copy, PartialEq, Eq, Structural, Debug)]
pub struct Fx {
    pub raw: i64,
}

/// Floor of the square root, defined by counting up.
pub open spec fn isqrt_spec(n: nat) -> nat
    decreases n,
{
    if n == 0 {
        0
    } else {
        let r = isqrt_spec((n - 1) as nat);
        if (r + 1) * (r + 1) <= n {
            r + 1
        } else {
            r
        }
    }
}

pub proof fn lemma_isqrt_bounds(n: nat)
    ensures
        isqrt_spec(n) * isqrt_spec(n) <= n,
        n < (isqrt_spec(n) + 1) * (isqrt_spec(n) + 1),
    decreases n,
{
    if n == 0 {
        assert(isqrt_spec(0) == 0);
        assert(0 * 0 <= 0);
        assert(0 < (0 + 1) * (0 + 1)) by (nonlinear_arith);
    } else {
        let m = (n - 1) as nat;
        lemma_isqrt_bounds(m);
        let r = isqrt_spec(m);
        if (r + 1) * (r + 1) <= n {
            assert(isqrt_spec(n) == r + 1);
            assert(n < (r + 1 + 1) * (r + 1 + 1)) by (nonlinear_arith)
                requires
                    m < (r + 1) * (r + 1),
                    n == m + 1,
            ;
        } else {
            assert(isqrt_spec(n) == r);
            assert(r * r <= m);
            assert(n < (r + 1) * (r + 1));
        }
    }
}

pub proof fn lemma_isqrt_unique(n: nat, r: nat)
    requires
        r * r <= n,
        n < (r + 1) * (r + 1),
    ensures
        r == isqrt_spec(n),
{
    lemma_isqrt_bounds(n);
    let s = isqrt_spec(n);
    assert(r == s) by (nonlinear_arith)
        requires
            r * r <= n,
            n < (r + 1) * (r + 1),
            s * s <= n,
            n < (s + 1) * (s + 1),
    ;
}

/// Floor square root over the full `u128` range, by binary search.
pub fn isqrt_u128(n: u128) -> (r: u128)
    ensures
        r == isqrt_spec(n as nat),
{
    if n == 0 {
        proof {
            assert(0 * 0 <= 0 < (0 + 1) * (0 + 1)) by (nonlinear_arith);
            lemma_isqrt_unique(0, 0);
        }
        return 0;
    }
    let mut lo: u128 = 0;
    let mut hi: u128 = 0x1_0000_0000_0000_0000;
    proof {
        assert(n < hi * hi) by (nonlinear_arith)
            requires
                hi == 0x1_0000_0000_0000_0000u128,
                n <= u128::MAX,
        ;
    }
    while lo + 1 < hi
        invariant
            0 <= lo < hi <= 0x1_0000_0000_0000_0000,
            lo * lo <= n,
            n < hi * hi,
        decreases hi - lo,
    {
        let mid: u128 = lo + (hi - lo) / 2;
        proof {
            assert(mid * mid <= u128::MAX) by (nonlinear_arith)
                requires
                    mid <= 0xFFFF_FFFF_FFFF_FFFFu128,
            ;
        }
        if mid * mid <= n {
            lo = mid;
        } else {
            hi = mid;
        }
    }
    proof {
        lemma_isqrt_unique(n as nat, lo as nat);
    }
    lo
}

pub open spec fn pow5(r: nat) -> nat {
    r * r * r * r * r
}

/// Floor of the fifth root, defined by counting up.
pub open spec fn iroot5_spec(n: nat) -> nat
    decreases n,
{
    if n == 0 {
        0
    } else {
        let r = iroot5_spec((n - 1) as nat);
        if pow5(r + 1) <= n {
            r + 1
        } else {
            r
        }
    }
}

pub proof fn lemma_iroot5_bounds(n: nat)
    ensures
        pow5(iroot5_spec(n)) <= n,
        n < pow5(iroot5_spec(n) + 1),
    decreases n,
{
    if n == 0 {
        assert(pow5(0) == 0) by (nonlinear_arith);
        assert(pow5(1) == 1) by (nonlinear_arith);
    } else {
        let m = (n - 1) as nat;
        lemma_iroot5_bounds(m);
        let r = iroot5_spec(m);
        if pow5(r + 1) <= n {
            assert(iroot5_spec(n) == r + 1);
            assert(n < pow5(r + 1 + 1)) by (nonlinear_arith)
                requires
                    m < pow5(r + 1),
                    n == m + 1,
                    pow5(r + 1) == (r + 1) * (r + 1) * (r + 1) * (r + 1) * (r + 1),
                    pow5(r + 2) == (r + 2) * (r + 2) * (r + 2) * (r + 2) * (r + 2),
            ;
        } else {
            assert(iroot5_spec(n) == r);
        }
    }
}

pub proof fn lemma_iroot5_unique(n: nat, r: nat)
    requires
        pow5(r) <= n,
        n < pow5(r + 1),
    ensures
        r == iroot5_spec(n),
{
    lemma_iroot5_bounds(n);
    let s = iroot5_spec(n);
    assert(r == s) by (nonlinear_arith)
        requires
            pow5(r) <= n,
            n < pow5(r + 1),
            pow5(s) <= n,
            n < pow5(s + 1),
            pow5(r) == r * r * r * r * r,
            pow5(s) == s * s * s * s * s,
            pow5(r + 1) == (r + 1) * (r + 1) * (r + 1) * (r + 1) * (r + 1),
            pow5(s + 1) == (s + 1) * (s + 1) * (s + 1) * (s + 1) * (s + 1),
    ;
}

/// Fifth powers are strictly monotone.
pub proof fn lemma_pow5_mono(a: nat, b: nat)
    requires
        a < b,
    ensures
        pow5(a) < pow5(b),
{
    assert(a * a * a * a * a < b * b * b * b * b) by (nonlinear_arith)
        requires
            a < b,
    ;
}

/// Fifth roots are monotone.
pub proof fn lemma_iroot5_mono(a: nat, b: nat)
    requires
        a <= b,
    ensures
        iroot5_spec(a) <= iroot5_spec(b),
{
    lemma_iroot5_bounds(a);
    lemma_iroot5_bounds(b);
    let ra = iroot5_spec(a);
    let rb = iroot5_spec(b);
    if ra > rb {
        if rb + 1 < ra {
            lemma_pow5_mono(rb + 1, ra);
        }
        assert(pow5(rb + 1) <= pow5(ra));
        assert(false);
    }
}

/// Floor fifth root, by binary search.
pub fn iroot5_u128(n: u128) -> (r: u128)
    requires
        n < 0x20_0000_0000_0000_0000_0000u128,
    ensures
        r == iroot5_spec(n as nat),
{
    let mut lo: u128 = 0;
    let mut hi: u128 = 0x2_0000;
    proof {
        assert(pow5(0) <= n as nat) by (nonlinear_arith);
        assert((n as nat) < pow5(0x2_0000)) by (nonlinear_arith)
            requires
                n < 0x20_0000_0000_0000_0000_0000u128,
                pow5(0x2_0000) == 0x2_0000nat * 0x2_0000 * 0x2_0000 * 0x2_0000 * 0x2_0000,
        ;
    }
    while lo + 1 < hi
        invariant
            0 <= lo < hi <= 0x2_0000,
            pow5(lo as nat) <= n as nat,
            (n as nat) < pow5(hi as nat),
        decreases hi - lo,
    {
        let mid: u128 = lo + (hi - lo) / 2;
        proof {
            assert(mid * mid <= u128::MAX && mid * mid * mid <= u128::MAX && mid * mid * mid
                * mid <= u128::MAX && mid * mid * mid * mid * mid <= u128::MAX)
                by (nonlinear_arith)
                requires
                    mid <= 0x2_0000u128,
            ;
        }
        if mid * mid * mid * mid * mid <= n {
            proof {
                assert(pow5(mid as nat) == (mid as nat) * (mid as nat) * (mid as nat) * (
                mid as nat) * (mid as nat));
            }
            lo = mid;
        } else {
            hi = mid;
        }
    }
    proof {
        lemma_iroot5_unique(n as nat, lo as nat);
    }
    lo
}

impl Fx {
    pub open spec fn zero_spec() -> Fx {
        Fx { raw: 0 }
    }

    pub open spec fn one_spec() -> Fx {
        Fx { raw: SCALE }
    }

    pub fn zero() -> (r: Fx)
        ensures
            r == Fx::zero_spec(),
    {
        Fx { raw: 0 }
    }

    pub fn one() -> (r: Fx)
        ensures
            r == Fx::one_spec(),
    {
        Fx { raw: SCALE }
    }

    pub open spec fn from_raw_spec(v: int) -> Fx {
        Fx { raw: sat(v) as i64 }
    }

    /// Make a scalar out of a raw (already scaled) count.
    pub fn from_raw(v: i64) -> (r: Fx)
        ensures
            r == Fx::from_raw_spec(v as int),
    {
        if v > MAX_RAW {
            Fx { raw: MAX_RAW }
        } else if v < -MAX_RAW {
            Fx { raw: -MAX_RAW }
        } else {
            Fx { raw: v }
        }
    }

    pub open spec fn from_int_spec(v: int) -> Fx {
        Fx { raw: sat(v * SCALE) as i64 }
    }

    /// Make a scalar out of a whole number of units.
    pub fn from_int(v: i64) -> (r: Fx)
        ensures
            r == Fx::from_int_spec(v as int),
    {
        proof {
            lemma_i64_product_fits(v as int, SCALE as int);
        }
        let wide: i128 = v as i128 * SCALE as i128;
        sat_to_fx(wide)
    }

    pub open spec fn add_spec(self, o: Fx) -> Fx {
        Fx { raw: sat(self.raw + o.raw) as i64 }
    }

    pub fn add(self, o: Fx) -> (r: Fx)
        ensures
            r == self.add_spec(o),
    {
        sat_to_fx(self.raw as i128 + o.raw as i128)
    }

    pub open spec fn sub_spec(self, o: Fx) -> Fx {
        Fx { raw: sat(self.raw - o.raw) as i64 }
    }

    pub fn sub(self, o: Fx) -> (r: Fx)
        ensures
            r == self.sub_spec(o),
    {
        sat_to_fx(self.raw as i128 - o.raw as i128)
    }

    pub open spec fn neg_spec(self) -> Fx {
        Fx { raw: sat(-self.raw) as i64 }
    }

    pub fn neg(self) -> (r: Fx)
        ensures
            r == self.neg_spec(),
    {
        sat_to_fx(-(self.raw as i128))
    }

    pub open spec fn mul_spec(self, o: Fx) -> Fx {
        Fx { raw: sat(sdiv(self.raw * o.raw, SCALE as int)) as i64 }
    }

    pub fn mul(self, o: Fx) -> (r: Fx)
        ensures
            r == self.mul_spec(o),
    {
        proof {
            lemma_i64_product_fits(self.raw as int, o.raw as int);
        }
        let p: i128 = self.raw as i128 * o.raw as i128;
        let q: i128 = sdiv_i128(p, SCALE as i128);
        sat_to_fx(q)
    }

    pub open spec fn div_spec(self, o: Fx) -> Fx {
        if o.raw == 0 {
            if self.raw == 0 {
                Fx { raw: 0 }
            } else if self.raw > 0 {
                Fx { raw: MAX_RAW }
            } else {
                Fx { raw: (-MAX_RAW) as i64 }
            }
        } else {
            Fx { raw: sat(sdiv(self.raw * SCALE, o.raw as int)) as i64 }
        }
    }

    pub fn div(self, o: Fx) -> (r: Fx)
        ensures
            r == self.div_spec(o),
    {
        if o.raw == 0 {
            if self.raw == 0 {
                Fx { raw: 0 }
            } else if self.raw > 0 {
                Fx { raw: MAX_RAW }
            } else {
                Fx { raw: -MAX_RAW }
            }
        } else {
            proof {
                lemma_i64_product_fits(self.raw as int, SCALE as int);
            }
            let num: i128 = self.raw as i128 * SCALE as i128;
            let q: i128 = sdiv_i128(num, o.raw as i128);
            sat_to_fx(q)
        }
    }

    pub open spec fn min_spec(self, o: Fx) -> Fx {
        if self.raw <= o.raw {
            self
        } else {
            o
        }
    }

    pub fn min(self, o: Fx) -> (r: Fx)
        ensures
            r == self.min_spec(o),
    {
        if self.raw <= o.raw {
            self
        } else {
            o
        }
    }

    pub open spec fn max_spec(self, o: Fx) -> Fx {
        if self.raw >= o.raw {
            self
        } else {
            o
        }
    }

    pub fn max(self, o: Fx) -> (r: Fx)
        ensures
            r == self.max_spec(o),
    {
        if self.raw >= o.raw {
            self
        } else {
            o
        }
    }

    pub open spec fn abs_spec(self) -> Fx {
        Fx { raw: sat(abs1(self.raw as int)) as i64 }
    }

    pub fn abs(self) -> (r: Fx)
        ensures
            r == self.abs_spec(),
    {
        if self.raw >= 0 {
            sat_to_fx(self.raw as i128)
        } else {
            sat_to_fx(-(self.raw as i128))
        }
    }

    /// Clamp into the unit interval `[0, 1]`.
    pub open spec fn clamp01_spec(self) -> Fx {
        if self.raw < 0 {
            Fx { raw: 0 }
        } else if self.raw > SCALE {
            Fx { raw: SCALE }
        } else {
            self
        }
    }

    pub fn clamp01(self) -> (r: Fx)
        ensures
            r == self.clamp01_spec(),
    {
        if self.raw < 0 {
            Fx { raw: 0 }
        } else if self.raw > SCALE {
            Fx { raw: SCALE }
        } else {
            self
        }
    }

    /// Floor square root in fixed point; nonpositive inputs give zero, as
    /// there is no imaginary answer to hand back.
    pub open spec fn sqrt_spec(self) -> Fx {
        if self.raw <= 0 {
            Fx { raw: 0 }
        } else {
            Fx { raw: isqrt_spec((self.raw * SCALE) as nat) as i64 }
        }
    }

    pub fn sqrt(self) -> (r: Fx)
        ensures
            r == self.sqrt_spec(),
    {
        if self.raw <= 0 {
            Fx { raw: 0 }
        } else {
            proof {
                assert(0 < self.raw * SCALE < 0x1_0000_0000_0000_0000_0000i128) by (nonlinear_arith)
                    requires
                        0 < self.raw <= 0x7FFF_FFFF_FFFF_FFFF,
                        SCALE == 65536,
                ;
            }
            let wide: u128 = (self.raw as i128 * SCALE as i128) as u128;
            let root: u128 = isqrt_u128(wide);
            proof {
                lemma_isqrt_bounds(wide as nat);
                assert(root < 0x100_0000_0000) by (nonlinear_arith)
                    requires
                        root * root <= wide,
                        wide < 0x1_0000_0000_0000_0000_0000u128,
                ;
            }
            Fx { raw: root as i64 }
        }
    }
}

/// A product of unit-interval scalars stays in the unit interval, below
/// either factor.
pub proof fn lemma_unit_mul(a: Fx, b: Fx)
    requires
        0 <= a.raw <= SCALE,
        0 <= b.raw <= SCALE,
    ensures
        0 <= a.mul_spec(b).raw,
        a.mul_spec(b).raw <= a.raw,
        a.mul_spec(b).raw <= b.raw,
{
    let p = a.raw * b.raw;
    assert(0 <= p && p <= a.raw * SCALE && p <= SCALE * b.raw) by (nonlinear_arith)
        requires
            p == a.raw * b.raw,
            0 <= a.raw <= SCALE,
            0 <= b.raw <= SCALE,
    ;
    assert(sdiv(p, SCALE as int) == p / (SCALE as int));
    vstd::arithmetic::div_mod::lemma_div_is_ordered(0, p, SCALE as int);
    vstd::arithmetic::div_mod::lemma_div_is_ordered(p, a.raw * SCALE, SCALE as int);
    vstd::arithmetic::div_mod::lemma_div_is_ordered(p, SCALE * b.raw, SCALE as int);
    vstd::arithmetic::div_mod::lemma_div_by_multiple(a.raw as int, SCALE as int);
    assert((SCALE * b.raw) / (SCALE as int) == b.raw) by (nonlinear_arith)
        requires
            0 <= b.raw,
            SCALE == 65536,
    ;
}

/// A product of nonnegative scalars is nonnegative.
pub proof fn lemma_mul_nonneg(a: Fx, b: Fx)
    requires
        0 <= a.raw,
        0 <= b.raw,
    ensures
        0 <= a.mul_spec(b).raw,
{
    let p = a.raw * b.raw;
    assert(0 <= p) by (nonlinear_arith)
        requires
            p == a.raw * b.raw,
            0 <= a.raw,
            0 <= b.raw,
    ;
    assert(sdiv(p, SCALE as int) == p / (SCALE as int));
    vstd::arithmetic::div_mod::lemma_div_is_ordered(0, p, SCALE as int);
}

/// A square of a unit-interval-bounded scalar stays in the unit interval.
pub proof fn lemma_square_unit(x: Fx)
    requires
        -SCALE <= x.raw <= SCALE,
    ensures
        0 <= x.mul_spec(x).raw <= SCALE,
{
    let p = x.raw * x.raw;
    assert(0 <= p <= SCALE * SCALE) by (nonlinear_arith)
        requires
            p == x.raw * x.raw,
            -SCALE <= x.raw <= SCALE,
    ;
    assert(sdiv(p, SCALE as int) == p / (SCALE as int));
    vstd::arithmetic::div_mod::lemma_div_is_ordered(0, p, SCALE as int);
    vstd::arithmetic::div_mod::lemma_div_is_ordered(p, SCALE * SCALE, SCALE as int);
    assert((SCALE * SCALE) / (SCALE as int) == SCALE) by (nonlinear_arith);
}

/// A quotient whose dividend is no larger in magnitude than its divisor
/// stays in the unit interval on either side of zero.
pub proof fn lemma_ratio_unit(a: Fx, b: Fx)
    requires
        abs1(a.raw as int) <= b.raw,
    ensures
        -SCALE <= a.div_spec(b).raw <= SCALE,
{
    if b.raw == 0 {
    } else {
        let n = a.raw * SCALE;
        assert(abs1(n) == abs1(a.raw as int) * SCALE && abs1(a.raw as int) * SCALE <= b.raw
            * SCALE) by (nonlinear_arith)
            requires
                n == a.raw * SCALE,
                abs1(a.raw as int) <= b.raw,
                abs1(a.raw as int) == if a.raw >= 0 {
                    a.raw as int
                } else {
                    -(a.raw as int)
                },
                SCALE == 65536,
        ;
        let q = abs1(n) / (b.raw as int);
        vstd::arithmetic::div_mod::lemma_div_is_ordered(abs1(n), b.raw * SCALE, b.raw as int);
        vstd::arithmetic::div_mod::lemma_div_is_ordered(0, abs1(n), b.raw as int);
        assert((b.raw * SCALE) / (b.raw as int) == SCALE) by (nonlinear_arith)
            requires
                b.raw > 0,
                SCALE == 65536,
        ;
        assert(sdiv(n, b.raw as int) == q || sdiv(n, b.raw as int) == -q);
    }
}

/// Halving a scalar of at most two keeps it within one.
pub proof fn lemma_half_unit(a: Fx)
    requires
        0 <= a.raw <= 2 * SCALE,
    ensures
        0 <= a.div_spec(Fx::from_int_spec(2)).raw <= SCALE,
{
    let n = a.raw * SCALE;
    assert(Fx::from_int_spec(2).raw == 2 * SCALE);
    assert(0 <= n <= (2 * SCALE) * SCALE) by (nonlinear_arith)
        requires
            0 <= a.raw <= 2 * SCALE,
            n == a.raw * SCALE,
    ;
    assert(sdiv(n, 2 * SCALE) == n / (2 * (SCALE as int)));
    vstd::arithmetic::div_mod::lemma_div_is_ordered(0, n, 2 * (SCALE as int));
    vstd::arithmetic::div_mod::lemma_div_is_ordered(n, (2 * SCALE) * SCALE, 2 * (SCALE as int));
    assert(((2 * SCALE) * SCALE) / (2 * (SCALE as int)) == SCALE) by (nonlinear_arith);
}

/// A square root is bounded well inside the representable range.
pub proof fn lemma_sqrt_range(a: Fx)
    ensures
        0 <= a.sqrt_spec().raw < 0x100_0000_0000,
{
    if a.raw > 0 {
        let n = (a.raw * SCALE) as nat;
        lemma_isqrt_bounds(n);
        let r = isqrt_spec(n);
        assert(r < 0x100_0000_0000) by (nonlinear_arith)
            requires
                r * r <= n,
                n < 0x1_0000_0000_0000_0000_0000nat,
        ;
    }
}

/// A square root is never negative.
pub proof fn lemma_sqrt_nonneg(a: Fx)
    ensures
        a.sqrt_spec().raw >= 0,
{
    if a.raw > 0 {
        let n = (a.raw * SCALE) as nat;
        lemma_isqrt_bounds(n);
        let r = isqrt_spec(n);
        assert(r < 0x100_0000_0000) by (nonlinear_arith)
            requires
                r * r <= n,
                n < 0x1_0000_0000_0000_0000_0000nat,
        ;
    }
}

/// Division on wide intermediates, truncating toward zero.
fn sdiv_i128(a: i128, b: i128) -> (q: i128)
    requires
        b != 0,
        a != i128::MIN,
        b != i128::MIN,
    ensures
        q == sdiv(a as int, b as int),
{
    let an: i128 = if a < 0 {
        -a
    } else {
        a
    };
    let ad: i128 = if b < 0 {
        -b
    } else {
        b
    };
    let q0: i128 = an / ad;
    if (a < 0) == (b < 0) {
        q0
    } else {
        -q0
    }
}

/// A product of two narrow values always fits in the wide type.
proof fn lemma_i64_product_fits(a: int, b: int)
    requires
        i64::MIN <= a <= i64::MAX,
        i64::MIN <= b <= i64::MAX,
    ensures
        i128::MIN < a * b < i128::MAX,
{
    assert(i128::MIN < a * b < i128::MAX) by (nonlinear_arith)
        requires
            -0x8000_0000_0000_0000 <= a <= 0x7FFF_FFFF_FFFF_FFFF,
            -0x8000_0000_0000_0000 <= b <= 0x7FFF_FFFF_FFFF_FFFF,
    ;
}

/// Saturate a wide intermediate back into a scalar.
fn sat_to_fx(x: i128) -> (r: Fx)
    ensures
        r == (Fx { raw: sat(x as int) as i64 }),
{
    if x > MAX_RAW as i128 {
        Fx { raw: MAX_RAW }
    } else if x < -(MAX_RAW as i128) {
        Fx { raw: -MAX_RAW }
    } else {
        Fx { raw: x as i64 }
    }
}

} // verus!
