use vstd::prelude::*;

verus! {

use vstd::arithmetic::div_mod::lemma_div_is_ordered;
use crate::fx::Fx;
use crate::fx::SCALE;
use crate::fx::abs1;
use crate::fx::sat;
use crate::fx::sdiv;
use crate::fx::pow5;
use crate::fx::iroot5_spec;
use crate::fx::iroot5_u128;
use crate::fx::lemma_iroot5_bounds;
use crate::fx::lemma_iroot5_unique;
use crate::fx::lemma_iroot5_mono;
use crate::vector::Vec3;

/// Conversion between linear colors and 8-bit pixels.
///
/// The gamma law raises a channel to the power 2.2 to decode and to the
/// power 1/2.2 to encode. In fixed point, 2.2 is 11/5: decoding multiplies
/// the squared channel by its fifth root, and encoding is the exact
/// ceiling inverse of decoding, found by binary search: the least channel
/// whose decoding reaches the input, so a decoded encoding lands within
/// one grid step above the original channel, and zero and one encode to
/// themselves.
#[derive(Clone, Copy, PartialEq, Eq, Structural, Debug)]
pub struct Rgb8 {
    pub r: u8,
    pub g: u8,
    pub b: u8,
}

/// A decoded texel, alpha still present.
#[derive(Clone, Copy, PartialEq, Eq, Structural, Debug)]
pub struct Rgba8 {
    pub r: u8,
    pub g: u8,
    pub b: u8,
    pub a: u8,
}

/// Raw fifth root of a unit-interval raw value: for `y` in `[0, SCALE]`
/// this is `SCALE * (y / SCALE)^(1/5)`, rounded down.
pub open spec fn root5_raw(y: int) -> int {
    iroot5_spec((y * 0x1_0000_0000_0000_0000) as nat) as int
}

/// Decoding of one raw channel: `y^2 * y^(1/5)` in fixed point.
pub open spec fn dec_raw(y: int) -> int {
    sat(sdiv(sat(sdiv(y * y, SCALE as int)) * root5_raw(y), SCALE as int))
}

pub open spec fn gamma_decode_fx_spec(e: Fx) -> Fx {
    Fx { raw: dec_raw(e.clamp01_spec().raw as int) as i64 }
}

/// The largest raw channel in `[0, y]` whose decoding stays below `c`,
/// or `-1` when every decoding reaches `c`.
pub open spec fn last_below(c: int, y: nat) -> int
    decreases y,
{
    if dec_raw(y as int) < c {
        y as int
    } else if y == 0 {
        -1
    } else {
        last_below(c, (y - 1) as nat)
    }
}

/// Encoding is the ceiling inverse of decoding: the least raw channel
/// whose decoding reaches the input. Zero and one encode to themselves
/// exactly.
pub open spec fn gamma_encode_fx_spec(x: Fx) -> Fx {
    Fx { raw: (last_below(x.clamp01_spec().raw as int, SCALE as nat) + 1) as i64 }
}

/// The fifth root of a unit-interval value is itself in the unit interval.
proof fn lemma_root5_range(y: int)
    requires
        0 <= y <= SCALE,
    ensures
        0 <= root5_raw(y) <= SCALE,
{
    let n = (y * 0x1_0000_0000_0000_0000) as nat;
    lemma_iroot5_bounds(n);
    let r = iroot5_spec(n);
    assert(r <= SCALE) by (nonlinear_arith)
        requires
            pow5(r) <= n,
            n <= 0x1_0000_0000_0000_0000_0000nat,
            pow5(r) == r * r * r * r * r,
    ;
}

/// A zero channel decodes to zero.
pub proof fn lemma_dec_raw_zero()
    ensures
        dec_raw(0) == 0,
{
    assert((0 * 0x1_0000_0000_0000_0000) as nat == 0nat);
    assert(iroot5_spec(0) == 0);
    assert(root5_raw(0) == 0);
    assert(sdiv(0int * 0, SCALE as int) == 0) by {
        assert(0int * 0 == 0);
        assert(abs1(0) == 0);
        assert(0int / (SCALE as int) == 0);
    }
    assert(sat(0) == 0);
    assert(sat(0) * root5_raw(0) == 0);
    assert(sdiv(0, SCALE as int) == 0) by {
        assert(abs1(0) == 0);
        assert(0int / (SCALE as int) == 0);
    }
}

/// Decoding keeps the unit interval.
pub proof fn lemma_dec_raw_range(y: int)
    requires
        0 <= y <= SCALE,
    ensures
        0 <= dec_raw(y) <= SCALE,
{
    lemma_root5_range(y);
    let q = sdiv(y * y, SCALE as int);
    assert(0 <= y * y <= SCALE * SCALE) by (nonlinear_arith)
        requires
            0 <= y <= SCALE,
    ;
    assert(q == (y * y) / (SCALE as int));
    lemma_div_is_ordered(y * y, SCALE * SCALE, SCALE as int);
    assert((SCALE * SCALE) / (SCALE as int) == SCALE) by (nonlinear_arith);
    assert(0 <= q <= SCALE) by {
        lemma_div_is_ordered(0, y * y, SCALE as int);
    }
    let p = sat(q) * root5_raw(y);
    assert(sat(q) == q);
    assert(0 <= p <= SCALE * SCALE) by (nonlinear_arith)
        requires
            p == q * root5_raw(y),
            0 <= q <= SCALE,
            0 <= root5_raw(y) <= SCALE,
    ;
    assert(sdiv(p, SCALE as int) == p / (SCALE as int));
    lemma_div_is_ordered(0, p, SCALE as int);
    lemma_div_is_ordered(p, SCALE * SCALE, SCALE as int);
}

/// Whatever goes in, a decoded channel sits in the unit interval.
pub proof fn lemma_gamma_decode_fx_range(e: Fx)
    ensures
        0 <= gamma_decode_fx_spec(e).raw <= SCALE,
{
    lemma_dec_raw_range(e.clamp01_spec().raw as int);
}

/// Decoding a full channel gives back a full channel.
pub proof fn lemma_dec_raw_one()
    ensures
        dec_raw(SCALE as int) == SCALE,
{
    let n = (SCALE * 0x1_0000_0000_0000_0000) as nat;
    assert(pow5(SCALE as nat) <= n < pow5((SCALE + 1) as nat)) by (nonlinear_arith)
        requires
            pow5(SCALE as nat) == (SCALE as nat) * (SCALE as nat) * (SCALE as nat) * (
            SCALE as nat) * (SCALE as nat),
            pow5((SCALE + 1) as nat) == ((SCALE + 1) as nat) * ((SCALE + 1) as nat) * ((SCALE
                + 1) as nat) * ((SCALE + 1) as nat) * ((SCALE + 1) as nat),
            n == SCALE * 0x1_0000_0000_0000_0000,
            SCALE == 65536,
    ;
    lemma_iroot5_unique(n, SCALE as nat);
    assert(sdiv(SCALE * SCALE, SCALE as int) == SCALE) by (nonlinear_arith);
}

/// Decoding is monotone on raw channels.
pub proof fn lemma_dec_raw_mono(a: int, b: int)
    requires
        0 <= a <= b <= SCALE,
    ensures
        dec_raw(a) <= dec_raw(b),
{
    lemma_root5_range(a);
    lemma_root5_range(b);
    assert(a * 0x1_0000_0000_0000_0000 <= b * 0x1_0000_0000_0000_0000) by (nonlinear_arith)
        requires
            a <= b,
    ;
    lemma_iroot5_mono((a * 0x1_0000_0000_0000_0000) as nat, (b * 0x1_0000_0000_0000_0000) as nat);
    let qa = sdiv(a * a, SCALE as int);
    let qb = sdiv(b * b, SCALE as int);
    assert(0 <= a * a <= b * b) by (nonlinear_arith)
        requires
            0 <= a <= b,
    ;
    lemma_div_is_ordered(a * a, b * b, SCALE as int);
    lemma_div_is_ordered(0, a * a, SCALE as int);
    assert(0 <= qa <= qb);
    assert(sat(qa) == qa && sat(qb) == qb) by {
        assert(a * a <= SCALE * SCALE && b * b <= SCALE * SCALE) by (nonlinear_arith)
            requires
                0 <= a <= SCALE,
                0 <= b <= SCALE,
        ;
        lemma_div_is_ordered(a * a, SCALE * SCALE, SCALE as int);
        lemma_div_is_ordered(b * b, SCALE * SCALE, SCALE as int);
        assert((SCALE * SCALE) / (SCALE as int) == SCALE) by (nonlinear_arith);
    }
    assert(0 <= qa * root5_raw(a) <= qb * root5_raw(b)) by (nonlinear_arith)
        requires
            0 <= qa <= qb,
            0 <= root5_raw(a) <= root5_raw(b),
    ;
    lemma_div_is_ordered(qa * root5_raw(a), qb * root5_raw(b), SCALE as int);
    lemma_div_is_ordered(0, qa * root5_raw(a), SCALE as int);
}

/// What the downward search returns: one below the ceiling inverse of
/// decoding.
proof fn lemma_last_below_char(c: int, y: nat)
    ensures
        -1 <= last_below(c, y) <= y,
        last_below(c, y) >= 0 ==> dec_raw(last_below(c, y)) < c,
        last_below(c, y) == -1 ==> dec_raw(0) >= c,
        last_below(c, y) < y ==> dec_raw(last_below(c, y) + 1) >= c,
    decreases y,
{
    if dec_raw(y as int) < c {
    } else if y == 0 {
    } else {
        lemma_last_below_char(c, (y - 1) as nat);
    }
}

/// The ceiling inverse is unique, by monotonicity.
proof fn lemma_enc_unique(c: int, z: nat)
    requires
        0 <= c <= SCALE,
        z <= SCALE,
        dec_raw(z as int) >= c,
        z == 0 || dec_raw(z as int - 1) < c,
    ensures
        z == last_below(c, SCALE as nat) + 1,
{
    lemma_last_below_char(c, SCALE as nat);
    let w = last_below(c, SCALE as nat) + 1;
    assert(w <= SCALE) by {
        if last_below(c, SCALE as nat) == SCALE {
            lemma_dec_raw_one();
        }
    }
    if z < w {
        lemma_dec_raw_mono(z as int, w - 1);
        assert(false);
    }
    if w < z {
        lemma_dec_raw_mono(w as int, z as int - 1);
        assert(false);
    }
}

/// Decode one channel through the gamma law.
pub fn gamma_decode_fx(e: Fx) -> (r: Fx)
    ensures
        r == gamma_decode_fx_spec(e),
        0 <= r.raw <= SCALE,
{
    let c = e.clamp01();
    let wide: u128 = (c.raw as u128) * 0x1_0000_0000_0000_0000u128;
    let r5 = iroot5_u128(wide);
    proof {
        lemma_root5_range(c.raw as int);
    }
    let t = c.mul(c);
    let out = t.mul(Fx { raw: r5 as i64 });
    proof {
        lemma_dec_raw_range(c.raw as int);
    }
    out
}

/// Encode one channel: the least channel whose decoding reaches the
/// input.
pub fn gamma_encode_fx(x: Fx) -> (r: Fx)
    ensures
        r == gamma_encode_fx_spec(x),
        0 <= r.raw <= SCALE,
{
    let c = x.clamp01();
    let mut lo: i64 = 0;
    let mut hi: i64 = SCALE;
    proof {
        lemma_dec_raw_one();
    }
    while lo < hi
        invariant
            0 <= lo <= hi <= SCALE,
            0 <= c.raw <= SCALE,
            lo == 0 || dec_raw(lo as int - 1) < c.raw,
            dec_raw(hi as int) >= c.raw,
        decreases hi - lo,
    {
        let mid: i64 = lo + (hi - lo) / 2;
        let probe = gamma_decode_fx(Fx { raw: mid });
        proof {
            assert((Fx { raw: mid }).clamp01_spec().raw == mid);
        }
        if probe.raw >= c.raw {
            hi = mid;
        } else {
            lo = mid + 1;
        }
    }
    proof {
        lemma_enc_unique(c.raw as int, lo as nat);
    }
    Fx { raw: lo }
}

/// Apply the gamma encoding to each channel of a linear color.
pub open spec fn gamma_encode_spec(linear: Vec3) -> Vec3 {
    Vec3 {
        x: gamma_encode_fx_spec(linear.x),
        y: gamma_encode_fx_spec(linear.y),
        z: gamma_encode_fx_spec(linear.z),
    }
}

pub fn gamma_encode(linear: Vec3) -> (r: Vec3)
    ensures
        r == gamma_encode_spec(linear),
        0 <= r.x.raw <= SCALE,
        0 <= r.y.raw <= SCALE,
        0 <= r.z.raw <= SCALE,
{
    Vec3 {
        x: gamma_encode_fx(linear.x),
        y: gamma_encode_fx(linear.y),
        z: gamma_encode_fx(linear.z),
    }
}

/// Apply the gamma decoding to each channel of an encoded color.
pub open spec fn gamma_decode_spec(encoded: Vec3) -> Vec3 {
    Vec3 {
        x: gamma_decode_fx_spec(encoded.x),
        y: gamma_decode_fx_spec(encoded.y),
        z: gamma_decode_fx_spec(encoded.z),
    }
}

pub fn gamma_decode(encoded: Vec3) -> (r: Vec3)
    ensures
        r == gamma_decode_spec(encoded),
{
    Vec3 {
        x: gamma_decode_fx(encoded.x),
        y: gamma_decode_fx(encoded.y),
        z: gamma_decode_fx(encoded.z),
    }
}

/// One encoded channel packed to a byte.
pub open spec fn to_byte_spec(e: Fx) -> u8 {
    sdiv(e.raw * 255, SCALE as int) as u8
}

fn to_byte(e: Fx) -> (r: u8)
    requires
        0 <= e.raw <= SCALE,
    ensures
        r == to_byte_spec(e),
{
    let v: i64 = e.raw * 255 / SCALE;
    proof {
        lemma_div_is_ordered(e.raw * 255, SCALE * 255, SCALE as int);
        lemma_div_is_ordered(0, e.raw * 255, SCALE as int);
        assert(e.raw * 255 <= SCALE * 255) by (nonlinear_arith)
            requires
                0 <= e.raw <= SCALE,
        ;
        assert((SCALE * 255) / (SCALE as int) == 255) by (nonlinear_arith);
    }
    v as u8
}

/// Gamma-encode a linear color and pack it into an 8-bit pixel.
pub open spec fn vec3_to_rgb_spec(v: Vec3) -> Rgb8 {
    let e = gamma_encode_spec(v);
    Rgb8 { r: to_byte_spec(e.x), g: to_byte_spec(e.y), b: to_byte_spec(e.z) }
}

pub fn vec3_to_rgb(v: Vec3) -> (r: Rgb8)
    ensures
        r == vec3_to_rgb_spec(v),
{
    let e = gamma_encode(v);
    Rgb8 { r: to_byte(e.x), g: to_byte(e.y), b: to_byte(e.z) }
}

/// One byte spread to a unit-interval channel.
pub open spec fn from_byte_spec(b: u8) -> Fx {
    Fx { raw: sdiv(b * SCALE, 255) as i64 }
}

fn from_byte(b: u8) -> (r: Fx)
    ensures
        r == from_byte_spec(b),
        0 <= r.raw <= SCALE,
{
    let v: i64 = b as i64 * SCALE / 255;
    proof {
        lemma_div_is_ordered(b * SCALE, 255 * SCALE, 255);
        lemma_div_is_ordered(0, b * SCALE, 255);
        assert(b * SCALE <= 255 * SCALE) by (nonlinear_arith)
            requires
                b <= 255,
        ;
        assert((255 * SCALE) / 255 == SCALE) by (nonlinear_arith);
    }
    Fx { raw: v }
}

/// Unpack a texel into a linear color, dropping the alpha component.
pub open spec fn rgba_to_vec3_spec(p: Rgba8) -> Vec3 {
    gamma_decode_spec(
        Vec3 { x: from_byte_spec(p.r), y: from_byte_spec(p.g), z: from_byte_spec(p.b) },
    )
}

pub fn rgba_to_vec3(p: Rgba8) -> (r: Vec3)
    ensures
        r == rgba_to_vec3_spec(p),
{
    gamma_decode(Vec3 { x: from_byte(p.r), y: from_byte(p.g), z: from_byte(p.b) })
}

/// The gamma round trip: decoding an encoded channel lands at or above
/// the original, and the channel just below the encoding decodes short of
/// it, so the encoding is as close as the fixed-point grid allows. Zero
/// and a full channel come back exactly.
pub proof fn lemma_gamma_round_trip(x: Fx)
    requires
        0 <= x.raw <= SCALE,
    ensures
        gamma_decode_fx_spec(gamma_encode_fx_spec(x)).raw >= x.raw,
        gamma_encode_fx_spec(x).raw > 0 ==> dec_raw(gamma_encode_fx_spec(x).raw - 1)
            < x.raw,
        x.raw == 0 ==> gamma_encode_fx_spec(x) == (Fx { raw: 0 })
            && gamma_decode_fx_spec(gamma_encode_fx_spec(x)) == x,
        x.raw == SCALE ==> gamma_decode_fx_spec(gamma_encode_fx_spec(x)) == x,
{
    let c = x.clamp01_spec();
    assert(c == x);
    lemma_last_below_char(c.raw as int, SCALE as nat);
    lemma_dec_raw_one();
    let lb = last_below(c.raw as int, SCALE as nat);
    let e = lb + 1;
    assert(gamma_encode_fx_spec(x).raw == e);
    assert(e <= SCALE) by {
        if lb == SCALE {
            assert(dec_raw(SCALE as int) < c.raw);
        }
    }
    assert(dec_raw(e) >= c.raw) by {
        if lb == -1 {
            assert(dec_raw(0) >= c.raw);
        }
    }
    lemma_dec_raw_range(e);
    assert((Fx { raw: e as i64 }).clamp01_spec().raw == e);
    if x.raw == 0 {
        lemma_dec_raw_zero();
        if lb >= 0 {
            lemma_dec_raw_range(lb);
            assert(false);
        }
        assert(e == 0);
    }
}

} // verus!
