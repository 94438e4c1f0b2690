use vstd::prelude::*;

verus! {

use crate::fx::Fx;
use crate::fx::SCALE;

/// Trigonometry in fixed point. The camera and the spherical texture
/// mapping need a tangent, an arc tangent and an arc cosine; they are
/// computed by short truncated series, and each function's contract states
/// the computed value exactly.
pub const PI_RAW: i64 = 205887;

pub open spec fn pi_spec() -> Fx {
    Fx { raw: PI_RAW }
}

pub fn pi() -> (r: Fx)
    ensures
        r == pi_spec(),
{
    Fx { raw: PI_RAW }
}

/// Truncated sine series, adequate on `[-pi, pi]`.
pub open spec fn sin_spec(x: Fx) -> Fx {
    let x2 = x.mul_spec(x);
    let x3 = x2.mul_spec(x);
    let x5 = x3.mul_spec(x2);
    let x7 = x5.mul_spec(x2);
    x.sub_spec(x3.div_spec(Fx::from_int_spec(6))).add_spec(
        x5.div_spec(Fx::from_int_spec(120)),
    ).sub_spec(x7.div_spec(Fx::from_int_spec(5040)))
}

pub fn sin(x: Fx) -> (r: Fx)
    ensures
        r == sin_spec(x),
{
    let x2 = x.mul(x);
    let x3 = x2.mul(x);
    let x5 = x3.mul(x2);
    let x7 = x5.mul(x2);
    x.sub(x3.div(Fx::from_int(6))).add(x5.div(Fx::from_int(120))).sub(
        x7.div(Fx::from_int(5040)),
    )
}

/// Truncated cosine series, adequate on `[-pi, pi]`.
pub open spec fn cos_spec(x: Fx) -> Fx {
    let x2 = x.mul_spec(x);
    let x4 = x2.mul_spec(x2);
    let x6 = x4.mul_spec(x2);
    Fx::one_spec().sub_spec(x2.div_spec(Fx::from_int_spec(2))).add_spec(
        x4.div_spec(Fx::from_int_spec(24)),
    ).sub_spec(x6.div_spec(Fx::from_int_spec(720)))
}

pub fn cos(x: Fx) -> (r: Fx)
    ensures
        r == cos_spec(x),
{
    let x2 = x.mul(x);
    let x4 = x2.mul(x2);
    let x6 = x4.mul(x2);
    Fx::one().sub(x2.div(Fx::from_int(2))).add(x4.div(Fx::from_int(24))).sub(
        x6.div(Fx::from_int(720)),
    )
}

/// Quotient of the two series.
pub open spec fn tan_spec(x: Fx) -> Fx {
    sin_spec(x).div_spec(cos_spec(x))
}

pub fn tan(x: Fx) -> (r: Fx)
    ensures
        r == tan_spec(x),
{
    sin(x).div(cos(x))
}

/// Polynomial arc tangent on `[0, 1]`.
pub open spec fn atan01_spec(z: Fx) -> Fx {
    let quarter_pi = Fx { raw: 51471 };
    let a = Fx { raw: 16036 };
    let b = Fx { raw: 4345 };
    quarter_pi.mul_spec(z).add_spec(
        z.mul_spec(Fx::one_spec().sub_spec(z)).mul_spec(a.sub_spec(b.mul_spec(z))),
    )
}

pub fn atan01(z: Fx) -> (r: Fx)
    ensures
        r == atan01_spec(z),
{
    let quarter_pi = Fx { raw: 51471 };
    let a = Fx { raw: 16036 };
    let b = Fx { raw: 4345 };
    quarter_pi.mul(z).add(z.mul(Fx::one().sub(z)).mul(a.sub(b.mul(z))))
}

/// Four-quadrant arc tangent.
pub open spec fn atan2_spec(y: Fx, x: Fx) -> Fx {
    let ax = x.abs_spec();
    let ay = y.abs_spec();
    let base = if ax.raw >= ay.raw {
        atan01_spec(ay.div_spec(ax))
    } else {
        Fx { raw: 102943 }.sub_spec(atan01_spec(ax.div_spec(ay)))
    };
    if x.raw >= 0 {
        if y.raw >= 0 {
            base
        } else {
            base.neg_spec()
        }
    } else {
        if y.raw >= 0 {
            pi_spec().sub_spec(base)
        } else {
            pi_spec().sub_spec(base).neg_spec()
        }
    }
}

pub fn atan2(y: Fx, x: Fx) -> (r: Fx)
    ensures
        r == atan2_spec(y, x),
{
    let ax = x.abs();
    let ay = y.abs();
    let base = if ax.raw >= ay.raw {
        atan01(ay.div(ax))
    } else {
        Fx { raw: 102943 }.sub(atan01(ax.div(ay)))
    };
    if x.raw >= 0 {
        if y.raw >= 0 {
            base
        } else {
            base.neg()
        }
    } else {
        if y.raw >= 0 {
            pi().sub(base)
        } else {
            pi().sub(base).neg()
        }
    }
}

/// On the unit interval, the polynomial arc tangent stays between zero
/// and a little above a quarter turn.
pub proof fn lemma_atan01_range(z: Fx)
    requires
        0 <= z.raw <= SCALE,
    ensures
        0 <= atan01_spec(z).raw <= 67507,
{
    let quarter_pi = Fx { raw: 51471 };
    let a = Fx { raw: 16036 };
    let b = Fx { raw: 4345 };
    crate::fx::lemma_unit_mul(quarter_pi, z);
    let w = z.mul_spec(Fx::one_spec().sub_spec(z));
    crate::fx::lemma_unit_mul(z, Fx::one_spec().sub_spec(z));
    crate::fx::lemma_unit_mul(b, z);
    let c = a.sub_spec(b.mul_spec(z));
    assert(0 <= c.raw <= SCALE);
    crate::fx::lemma_unit_mul(w, c);
}

/// The four-quadrant arc tangent stays within half a turn of zero, and
/// on the upper half plane it stays within the upper half turn.
pub proof fn lemma_atan2_range(y: Fx, x: Fx)
    ensures
        -PI_RAW <= atan2_spec(y, x).raw <= PI_RAW,
        y.raw >= 0 ==> 0 <= atan2_spec(y, x).raw <= PI_RAW,
{
    let ax = x.abs_spec();
    let ay = y.abs_spec();
    assert(ax.raw >= 0 && ay.raw >= 0);
    if ax.raw >= ay.raw {
        let z = ay.div_spec(ax);
        crate::fx::lemma_ratio_unit(ay, ax);
        assert(z.raw >= 0) by {
            if ax.raw != 0 {
                vstd::arithmetic::div_mod::lemma_div_is_ordered(
                    0,
                    ay.raw * SCALE,
                    ax.raw as int,
                );
                assert(ay.raw * SCALE >= 0) by (nonlinear_arith)
                    requires
                        ay.raw >= 0,
                        SCALE == 65536,
                ;
            }
        }
        lemma_atan01_range(z);
    } else {
        let z = ax.div_spec(ay);
        crate::fx::lemma_ratio_unit(ax, ay);
        assert(z.raw >= 0) by {
            vstd::arithmetic::div_mod::lemma_div_is_ordered(0, ax.raw * SCALE, ay.raw as int);
            assert(ax.raw * SCALE >= 0) by (nonlinear_arith)
                requires
                    ax.raw >= 0,
                    SCALE == 65536,
            ;
        }
        lemma_atan01_range(z);
    }
}

/// The arc cosine lands between zero and half a turn.
pub proof fn lemma_acos_range(t: Fx)
    ensures
        0 <= acos_spec(t).raw <= PI_RAW,
{
    let s = Fx::one_spec().sub_spec(t.mul_spec(t)).max_spec(Fx::zero_spec()).sqrt_spec();
    crate::fx::lemma_sqrt_nonneg(
        Fx::one_spec().sub_spec(t.mul_spec(t)).max_spec(Fx::zero_spec()),
    );
    lemma_atan2_range(s, t);
}

/// Arc cosine on `[-1, 1]`, from the arc tangent.
pub open spec fn acos_spec(t: Fx) -> Fx {
    let s = Fx::one_spec().sub_spec(t.mul_spec(t)).max_spec(Fx::zero_spec()).sqrt_spec();
    atan2_spec(s, t)
}

pub fn acos(t: Fx) -> (r: Fx)
    ensures
        r == acos_spec(t),
{
    let s = Fx::one().sub(t.mul(t)).max(Fx::zero()).sqrt();
    atan2(s, t)
}

} // verus!
