use vstd::prelude::*;

verus! {

use vstd::arithmetic::div_mod::lemma_div_by_multiple;
use vstd::arithmetic::div_mod::lemma_div_is_ordered;
use vstd::arithmetic::div_mod::lemma_fundamental_div_mod;
use vstd::arithmetic::div_mod::lemma_fundamental_div_mod_converse_div;
use vstd::arithmetic::div_mod::lemma_mod_bound;
use vstd::arithmetic::div_mod::lemma_mod_multiples_vanish;
use crate::fx::Fx;
use crate::fx::MAX_RAW;
use crate::fx::SCALE;
use crate::fx::sat;
use crate::fx::sdiv;
use crate::fx::srem;
use crate::vector::Vec2;
use crate::vector::Vec3;
use crate::color_convert::Rgba8;
use crate::color_convert::rgba_to_vec3;
use crate::color_convert::rgba_to_vec3_spec;

/// What gives a surface its color: either one fixed linear color, or an
/// already-decoded image sampled by texture coordinates.
#[derive(Clone, Debug)]
pub struct Color {
    pub color: Vec3,
}

/// An immutable decoded image: `width * height` texels in row-major order.
#[derive(Clone, Debug)]
pub struct Texture {
    pub width: u32,
    pub height: u32,
    pub pixels: Vec<Rgba8>,
}

#[derive(Clone, Debug)]
pub enum Coloration {
    Solid(Color),
    Image(Texture),
}

impl Texture {
    pub open spec fn wf(self) -> bool {
        &&& 1 <= self.width <= 16384
        &&& 1 <= self.height <= 16384
        &&& self.pixels.len() == self.width * self.height
    }
}

/// Fold a texture coordinate into `[0, bound)`: scale it by the bound,
/// truncate, and wrap by the remainder, folding negative results back up.
pub open spec fn wrap_spec(val: Fx, bound: u32) -> u32 {
    let coord = sdiv(val.mul_spec(Fx::from_int_spec(bound as int)).raw as int, SCALE as int);
    let m = srem(coord, bound as int);
    if m < 0 {
        (m + bound) as u32
    } else {
        m as u32
    }
}

/// The truncating remainder stays within one bound of zero.
proof fn lemma_srem_range(a: int, b: int)
    requires
        b > 0,
    ensures
        -b < srem(a, b) < b,
        a >= 0 ==> srem(a, b) == a % b,
        a < 0 ==> srem(a, b) == -((-a) % b),
{
    if a >= 0 {
        lemma_fundamental_div_mod(a, b);
        lemma_mod_bound(a, b);
        let q = a / b;
        let m = a % b;
        assert(a == b * q + m);
        assert(sdiv(a, b) == q);
        assert(srem(a, b) == a - q * b);
        assert(a - q * b == m) by (nonlinear_arith)
            requires
                a == b * q + m,
        ;
    } else {
        lemma_fundamental_div_mod(-a, b);
        let q = (-a) / b;
        let m = (-a) % b;
        assert(-a == b * q + m);
        assert(sdiv(a, b) == -q);
        assert(srem(a, b) == a - (-q) * b);
        assert(a - (-q) * b == -m) by (nonlinear_arith)
            requires
                -a == b * q + m,
        ;
        assert(0 <= m < b);
    }
}

pub fn wrap(val: Fx, bound: u32) -> (r: u32)
    requires
        1 <= bound <= 16384,
    ensures
        r == wrap_spec(val, bound),
        r < bound,
{
    let coord: i64 = val.mul(Fx::from_int(bound as i64)).raw / SCALE;
    let sb: i64 = bound as i64;
    let neg = coord < 0;
    let ac: i64 = if neg {
        -coord
    } else {
        coord
    };
    let m0: i64 = ac % sb;
    proof {
        lemma_srem_range(coord as int, sb as int);
        lemma_fundamental_div_mod(ac as int, sb as int);
    }
    let m: i64 = if neg {
        -m0
    } else {
        m0
    };
    if m < 0 {
        (m + sb) as u32
    } else {
        m as u32
    }
}

/// Wrapping is periodic: one whole texture width further along, a
/// nonnegative coordinate lands on the same texel. (At the seam below
/// zero the truncation direction flips, there the fold-up rule takes
/// over instead.)
pub proof fn lemma_wrap_periodic(val: Fx, bound: u32)
    requires
        1 <= bound <= 16384,
        0 <= val.raw,
        (val.raw + SCALE) * bound <= MAX_RAW,
    ensures
        wrap_spec(val.add_spec(Fx::one_spec()), bound) == wrap_spec(val, bound),
{
    let b = bound as int;
    let s = SCALE as int;
    assert(sat(b * s) == b * s) by (nonlinear_arith)
        requires
            1 <= b <= 16384,
            s == 65536,
    ;
    assert(val.raw * b >= 0 && val.raw + s <= (val.raw + s) * b) by (nonlinear_arith)
        requires
            0 <= val.raw,
            b >= 1,
            s == 65536,
    ;
    // Scaling by a whole bound is exact: the factor of SCALE cancels.
    assert(sdiv(val.raw * (b * s), s) == val.raw * b) by {
        assert(val.raw * (b * s) == (val.raw * b) * s) by (nonlinear_arith);
        lemma_div_by_multiple(val.raw * b, s);
    }
    assert(sdiv((val.raw + s) * (b * s), s) == (val.raw + s) * b) by {
        assert((val.raw + s) * (b * s) == ((val.raw + s) * b) * s) by (nonlinear_arith);
        lemma_div_by_multiple((val.raw + s) * b, s);
    }
    let m0 = val.raw * b;
    let m1 = (val.raw + s) * b;
    assert(m0 <= m1 <= MAX_RAW) by (nonlinear_arith)
        requires
            m0 == val.raw * b,
            m1 == (val.raw + s) * b,
            0 <= val.raw,
            b >= 1,
            s == 65536,
            m1 <= MAX_RAW,
    ;
    assert(m1 == m0 + b * s) by (nonlinear_arith)
        requires
            m0 == val.raw * b,
            m1 == (val.raw + s) * b,
    ;
    let q = m0 / s;
    let r = m0 % s;
    lemma_fundamental_div_mod(m0, s);
    lemma_mod_bound(m0, s);
    assert(m1 == (q + b) * s + r) by (nonlinear_arith)
        requires
            m0 == q * s + r,
            m1 == m0 + b * s,
    ;
    lemma_fundamental_div_mod_converse_div(m1, s, q + b, r);
    assert(sdiv(m0, s) == q);
    assert(sdiv(m1, s) == q + b);
    lemma_div_is_ordered(0, m0, s);
    lemma_srem_range(q, b);
    lemma_srem_range(q + b, b);
    lemma_mod_multiples_vanish(1, q, b);
    assert(b * 1 + q == q + b);
}

impl Color {
    pub open spec fn color_spec(self, texture_coords: Vec2) -> Vec3 {
        self.color
    }

    pub fn color(&self, texture_coords: &Vec2) -> (r: Vec3)
        ensures
            r == self.color_spec(*texture_coords),
    {
        self.color
    }
}

impl Texture {
    /// Sample the texel under a wrapped coordinate, decoded to a linear
    /// color.
    pub open spec fn color_spec(self, texture_coords: Vec2) -> Vec3 {
        let tex_x = wrap_spec(texture_coords.x, self.width);
        let tex_y = wrap_spec(texture_coords.y, self.height);
        rgba_to_vec3_spec(self.pixels[tex_y * self.width + tex_x])
    }

    pub fn color(&self, texture_coords: &Vec2) -> (r: Vec3)
        requires
            self.wf(),
        ensures
            r == self.color_spec(*texture_coords),
    {
        let tex_x = wrap(texture_coords.x, self.width);
        let tex_y = wrap(texture_coords.y, self.height);
        proof {
            assert(tex_y * self.width + tex_x < self.width * self.height <= 0x1000_0000)
                by (nonlinear_arith)
                requires
                    tex_x < self.width <= 16384,
                    tex_y < self.height <= 16384,
            ;
        }
        let idx: usize = (tex_y as usize) * (self.width as usize) + (tex_x as usize);
        rgba_to_vec3(self.pixels[idx])
    }
}

/// Sampling a texture one whole width further along a nonnegative
/// coordinate gives the same color.
pub proof fn lemma_texture_sample_periodic(t: Texture, c: Vec2, d: Vec2)
    requires
        t.wf(),
        d.y == c.y,
        d.x == c.x.add_spec(Fx::one_spec()),
        0 <= c.x.raw,
        (c.x.raw + SCALE) * t.width <= MAX_RAW,
    ensures
        t.color_spec(d) == t.color_spec(c),
{
    lemma_wrap_periodic(c.x, t.width);
}

impl Texture {
    /// Decide well-formedness at run time.
    pub fn check(&self) -> (r: bool)
        ensures
            r == self.wf(),
    {
        if !(1 <= self.width && self.width <= 16384 && 1 <= self.height && self.height
            <= 16384) {
            return false;
        }
        proof {
            assert(self.width * self.height <= 0x1000_0000) by (nonlinear_arith)
                requires
                    self.width <= 16384,
                    self.height <= 16384,
            ;
        }
        self.pixels.len() == (self.width as usize) * (self.height as usize)
    }
}

impl Coloration {
    /// A solid coloration holds a linear color, so its channels sit in
    /// the unit interval; an image coloration holds a well-formed
    /// texture.
    pub open spec fn wf(self) -> bool {
        match self {
            Coloration::Solid(c) => {
                &&& 0 <= c.color.x.raw <= SCALE
                &&& 0 <= c.color.y.raw <= SCALE
                &&& 0 <= c.color.z.raw <= SCALE
            },
            Coloration::Image(t) => t.wf(),
        }
    }

    /// The linear color of the surface at a texture coordinate.
    pub open spec fn color_spec(self, texture_coords: Vec2) -> Vec3 {
        match self {
            Coloration::Solid(c) => c.color_spec(texture_coords),
            Coloration::Image(t) => t.color_spec(texture_coords),
        }
    }

    pub fn color(&self, texture_coords: &Vec2) -> (r: Vec3)
        requires
            self.wf(),
        ensures
            r == self.color_spec(*texture_coords),
    {
        match self {
            Coloration::Solid(c) => c.color(texture_coords),
            Coloration::Image(t) => t.color(texture_coords),
        }
    }

    /// Decide well-formedness at run time.
    pub fn check(&self) -> (r: bool)
        ensures
            r == self.wf(),
    {
        match self {
            Coloration::Solid(c) => 0 <= c.color.x.raw && c.color.x.raw <= SCALE && 0
                <= c.color.y.raw && c.color.y.raw <= SCALE && 0 <= c.color.z.raw
                && c.color.z.raw <= SCALE,
            Coloration::Image(t) => t.check(),
        }
    }
}

} // verus!
