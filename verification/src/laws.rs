use vstd::prelude::*;

verus! {

use crate::fx::Fx;
use crate::fx::SCALE;
use crate::fx::sdiv;
use crate::fx::lemma_sqrt_nonneg;
use crate::intersection::Intersection;
use crate::material::Material;
use crate::material::SurfaceType;
use crate::objects::Object;
use crate::objects::Plane;
use crate::objects::Sphere;
use crate::ray::Ray;
use crate::render::calculate_color_spec;
use crate::render::fresnel_spec;
use crate::render::cast_ray_spec;
use crate::render::render_pixel_spec;
use crate::render::sample_sum_spec;
use crate::render::shade_diffuse_spec;
use crate::render::shade_upto_spec;
use crate::scene::Scene;
use crate::vector::in_unit;
use crate::vector::Vec3;

/// A ray that intersects no object gathers the zero color: `cast_ray` is
/// black on every miss.
pub proof fn lemma_cast_ray_miss_is_black(scene: Scene, ray: Ray, depth: u32)
    requires
        scene.trace_spec(ray) is None,
    ensures
        cast_ray_spec(scene, ray, depth) == Vec3::zero_spec(),
{
}

/// The recursion cap is checked before any geometry: at or past the cap,
/// `cast_ray` is black whatever the ray would have hit. With a cap of
/// zero, every ray is black.
pub proof fn lemma_cast_ray_depth_cap_is_black(scene: Scene, ray: Ray, depth: u32)
    requires
        depth >= scene.max_recursion_depth,
    ensures
        cast_ray_spec(scene, ray, depth) == Vec3::zero_spec(),
{
}

/// The two analytic roots of the sphere intersection satisfy `t0 <= t1`,
/// and the reported distance is the nearer nonnegative root: `t0` when it
/// lies in front of the origin, else `t1`; a miss means the ray passes
/// the sphere or both roots lie behind the origin.
pub proof fn lemma_sphere_nearer_root(s: Sphere, ray: Ray)
    ensures
        s.roots_spec(ray).0.raw <= s.roots_spec(ray).1.raw,
        s.intersect_spec(ray) is Some ==> {
            let t = s.intersect_spec(ray).unwrap();
            &&& t.raw >= 0
            &&& t == if s.roots_spec(ray).0.raw >= 0 {
                s.roots_spec(ray).0
            } else {
                s.roots_spec(ray).1
            }
        },
{
    let l = s.center.sub_spec(ray.origin);
    let adj = l.dot_spec(ray.direction);
    let d2 = l.dot_spec(l).sub_spec(adj.mul_spec(adj));
    let r2 = s.radius.mul_spec(s.radius);
    lemma_sqrt_nonneg(r2.sub_spec(d2));
}

/// The object `o` with its surface behavior replaced and everything else
/// kept.
pub open spec fn with_surface(o: Object, s: SurfaceType) -> Object {
    match o {
        Object::Sphere(sp) => Object::Sphere(
            Sphere {
                center: sp.center,
                radius: sp.radius,
                material: Material {
                    color: sp.material.color,
                    surface: s,
                    albedo: sp.material.albedo,
                },
            },
        ),
        Object::Plane(p) => Object::Plane(
            Plane {
                origin: p.origin,
                normal: p.normal,
                material: Material {
                    color: p.material.color,
                    surface: s,
                    albedo: p.material.albedo,
                },
            },
        ),
    }
}

/// Two scenes that agree everywhere except that object `k` is reflective
/// with zero reflectivity in the first and plainly diffuse in the second.
pub open spec fn reflective_zero_twin(s1: Scene, s2: Scene, k: int) -> bool {
    &&& 0 <= k < s1.objects.len()
    &&& s2.objects.len() == s1.objects.len()
    &&& s1.width == s2.width
    &&& s1.height == s2.height
    &&& s1.fov == s2.fov
    &&& s1.samples == s2.samples
    &&& s1.shadow_bias == s2.shadow_bias
    &&& s1.max_recursion_depth == s2.max_recursion_depth
    &&& s1.lights@ == s2.lights@
    &&& forall|j: int|
        0 <= j < s1.objects.len() && j != k ==> s1.objects[j] == s2.objects[j]
    &&& s1.objects[k].material_spec().surface == (SurfaceType::Reflective {
        reflectivity: Fx { raw: 0 },
    })
    &&& s2.objects[k] == with_surface(s1.objects[k], SurfaceType::Diffuse)
}

/// Intersection does not see the surface tag, so every object of the two
/// twins meets every ray identically.
proof fn lemma_twin_object_intersect(s1: Scene, s2: Scene, k: int, j: int, ray: Ray)
    requires
        reflective_zero_twin(s1, s2, k),
        0 <= j < s1.objects.len(),
    ensures
        s1.objects[j].intersect_spec(ray) == s2.objects[j].intersect_spec(ray),
{
    if j == k {
        match s1.objects[k] {
            Object::Sphere(sp) => {
                assert(s2.objects[k] == with_surface(s1.objects[k], SurfaceType::Diffuse));
            },
            Object::Plane(p2) => {
                assert(s2.objects[k] == with_surface(s1.objects[k], SurfaceType::Diffuse));
            },
        }
    }
}

/// Neither do normals, texture mapping, coloration or albedo, so the two
/// twins agree on everything but the changed surface tag itself.
proof fn lemma_twin_object_surface(s1: Scene, s2: Scene, k: int, j: int, p: Vec3)
    requires
        reflective_zero_twin(s1, s2, k),
        0 <= j < s1.objects.len(),
    ensures
        s1.objects[j].surface_normal_spec(p) == s2.objects[j].surface_normal_spec(p),
        s1.objects[j].texture_coords_spec(p) == s2.objects[j].texture_coords_spec(p),
        s1.objects[j].material_spec().color == s2.objects[j].material_spec().color,
        s1.objects[j].material_spec().albedo == s2.objects[j].material_spec().albedo,
        j == k ==> s2.objects[j].material_spec().surface == SurfaceType::Diffuse,
        j != k ==> s1.objects[j].material_spec().surface == s2.objects[
            j
        ].material_spec().surface,
{
    if j == k {
        match s1.objects[k] {
            Object::Sphere(sp) => {
                assert(s2.objects[k] == with_surface(s1.objects[k], SurfaceType::Diffuse));
            },
            Object::Plane(p2) => {
                assert(s2.objects[k] == with_surface(s1.objects[k], SurfaceType::Diffuse));
            },
        }
    }
}

/// The twins answer every scene query alike.
proof fn lemma_twin_trace(s1: Scene, s2: Scene, k: int, ray: Ray, n: int)
    requires
        reflective_zero_twin(s1, s2, k),
        0 <= n <= s1.objects.len(),
    ensures
        s1.trace_upto_spec(ray, n) == s2.trace_upto_spec(ray, n),
    decreases n,
{
    if n > 0 {
        lemma_twin_trace(s1, s2, k, ray, n - 1);
        lemma_twin_object_intersect(s1, s2, k, n - 1, ray);
    }
}

/// The twins shade diffusely alike, light by light.
proof fn lemma_twin_shade_upto(
    s1: Scene,
    s2: Scene,
    k: int,
    oi: int,
    hit_point: Vec3,
    surface_normal: Vec3,
    tex_color: Vec3,
    n: int,
)
    requires
        reflective_zero_twin(s1, s2, k),
        0 <= oi < s1.objects.len(),
        0 <= n <= s1.lights.len(),
    ensures
        shade_upto_spec(s1, oi, hit_point, surface_normal, tex_color, n) == shade_upto_spec(
            s2,
            oi,
            hit_point,
            surface_normal,
            tex_color,
            n,
        ),
    decreases n,
{
    if n > 0 {
        lemma_twin_shade_upto(s1, s2, k, oi, hit_point, surface_normal, tex_color, n - 1);
        let light = s1.lights[n - 1];
        let shadow_ray = Ray {
            origin: hit_point.add_spec(surface_normal.scale_spec(s1.shadow_bias)),
            direction: light.direction_from_spec(hit_point),
        };
        lemma_twin_trace(s1, s2, k, shadow_ray, s1.objects.len() as int);
        lemma_twin_object_surface(s1, s2, k, oi, hit_point);
    }
}

proof fn lemma_twin_shade_diffuse(
    s1: Scene,
    s2: Scene,
    k: int,
    oi: int,
    hit_point: Vec3,
    surface_normal: Vec3,
)
    requires
        reflective_zero_twin(s1, s2, k),
        0 <= oi < s1.objects.len(),
    ensures
        shade_diffuse_spec(s1, oi, hit_point, surface_normal) == shade_diffuse_spec(
            s2,
            oi,
            hit_point,
            surface_normal,
        ),
{
    lemma_twin_object_surface(s1, s2, k, oi, hit_point);
    let tex_coords = s1.objects[oi].texture_coords_spec(hit_point);
    let tex_color = s1.objects[oi].material_spec().color.color_spec(tex_coords);
    lemma_twin_shade_upto(
        s1,
        s2,
        k,
        oi,
        hit_point,
        surface_normal,
        tex_color,
        s1.lights.len() as int,
    );
}

/// A clamped color is unchanged by a unit scale.
proof fn lemma_scale_one(v: Vec3)
    requires
        0 <= v.x.raw <= SCALE,
        0 <= v.y.raw <= SCALE,
        0 <= v.z.raw <= SCALE,
    ensures
        v.scale_spec(Fx::one_spec()) == v,
{
    lemma_mul_one(v.x);
    lemma_mul_one(v.y);
    lemma_mul_one(v.z);
}

proof fn lemma_mul_one(x: Fx)
    requires
        0 <= x.raw <= SCALE,
    ensures
        x.mul_spec(Fx::one_spec()) == x,
{
    vstd::arithmetic::div_mod::lemma_div_by_multiple(x.raw as int, SCALE as int);
    assert(x.raw * SCALE >= 0) by (nonlinear_arith)
        requires
            x.raw >= 0,
            SCALE == 65536,
    ;
}

/// Any color scaled by zero is black.
proof fn lemma_scale_zero(v: Vec3)
    ensures
        v.scale_spec(Fx { raw: 0 }) == Vec3::zero_spec(),
{
    assert(v.x.raw * 0 == 0);
    assert(v.y.raw * 0 == 0);
    assert(v.z.raw * 0 == 0);
}

/// Adding black changes no clamped color.
proof fn lemma_add_zero(v: Vec3)
    requires
        0 <= v.x.raw <= SCALE,
        0 <= v.y.raw <= SCALE,
        0 <= v.z.raw <= SCALE,
    ensures
        v.add_spec(Vec3::zero_spec()) == v,
{
}

/// The twins cast every ray alike: zero reflectivity adds nothing to the
/// diffuse shade.
pub proof fn lemma_reflective_zero_is_diffuse(s1: Scene, s2: Scene, k: int, ray: Ray, depth: u32)
    requires
        reflective_zero_twin(s1, s2, k),
    ensures
        cast_ray_spec(s1, ray, depth) == cast_ray_spec(s2, ray, depth),
    decreases s1.max_recursion_depth - depth, 1int,
{
    if depth < s1.max_recursion_depth {
        lemma_twin_trace(s1, s2, k, ray, s1.objects.len() as int);
        match s1.trace_spec(ray) {
            None => {},
            Some(i) => {
                s1.lemma_trace_upto_props(ray, s1.objects.len() as int);
                lemma_twin_calculate(s1, s2, k, ray, i, depth);
            },
        }
    }
}

proof fn lemma_twin_calculate(
    s1: Scene,
    s2: Scene,
    k: int,
    ray: Ray,
    intersection: Intersection,
    depth: u32,
)
    requires
        reflective_zero_twin(s1, s2, k),
        intersection.object_index < s1.objects.len(),
        depth < s1.max_recursion_depth,
    ensures
        calculate_color_spec(s1, ray, intersection, depth) == calculate_color_spec(
            s2,
            ray,
            intersection,
            depth,
        ),
    decreases s1.max_recursion_depth - depth, 0int,
{
    let oi = intersection.object_index as int;
    let hit_point = ray.origin.add_spec(ray.direction.scale_spec(intersection.distance));
    lemma_twin_object_surface(s1, s2, k, oi, hit_point);
    let normal = s1.objects[oi].surface_normal_spec(hit_point);
    lemma_twin_shade_diffuse(s1, s2, k, oi, hit_point, normal);
    let reflection_ray = Ray::create_reflection_spec(
        normal,
        ray.direction,
        hit_point,
        s1.shadow_bias,
    );
    if oi == k {
        let shade = shade_diffuse_spec(s1, oi, hit_point, normal);
        lemma_scale_one(shade);
        lemma_scale_zero(cast_ray_spec(s1, reflection_ray, (depth + 1) as u32));
        lemma_add_zero(shade.scale_spec(Fx::one_spec()));
        assert(Fx::one_spec().sub_spec(Fx { raw: 0 }) == Fx::one_spec());
        assert(calculate_color_spec(s1, ray, intersection, depth) == shade);
        assert(calculate_color_spec(s2, ray, intersection, depth) == shade_diffuse_spec(
            s2,
            oi,
            hit_point,
            normal,
        ));
    } else {
        match s1.objects[oi].material_spec().surface {
            SurfaceType::Diffuse => {},
            SurfaceType::Reflective { reflectivity } => {
                lemma_reflective_zero_is_diffuse(
                    s1,
                    s2,
                    k,
                    reflection_ray,
                    (depth + 1) as u32,
                );
            },
            SurfaceType::Refractive { index, transparency } => {
                lemma_reflective_zero_is_diffuse(
                    s1,
                    s2,
                    k,
                    reflection_ray,
                    (depth + 1) as u32,
                );
                match Ray::create_transmission_spec(
                    normal,
                    ray.direction,
                    hit_point,
                    s1.shadow_bias,
                    index,
                ) {
                    Some(t) => {
                        lemma_reflective_zero_is_diffuse(s1, s2, k, t, (depth + 1) as u32);
                    },
                    None => {},
                }
            },
        }
    }
}

proof fn lemma_twin_sample_sum(s1: Scene, s2: Scene, k: int, x: u32, y: u32, n: int)
    requires
        reflective_zero_twin(s1, s2, k),
        n >= 0,
    ensures
        sample_sum_spec(s1, x, y, n) == sample_sum_spec(s2, x, y, n),
    decreases n,
{
    if n > 0 {
        lemma_twin_sample_sum(s1, s2, k, x, y, n - 1);
        let ray1 = Ray::new_prime_spec(x, y, (n - 1) as u32, s1);
        let ray2 = Ray::new_prime_spec(x, y, (n - 1) as u32, s2);
        assert(ray1 == ray2);
        lemma_reflective_zero_is_diffuse(s1, s2, k, ray1, 0);
    }
}

/// A reflective surface with zero reflectivity renders pixel-identically
/// to the same surface made diffuse.
pub proof fn lemma_reflective_zero_pixel_identical(
    s1: Scene,
    s2: Scene,
    k: int,
    x: u32,
    y: u32,
)
    requires
        reflective_zero_twin(s1, s2, k),
    ensures
        render_pixel_spec(s1, x, y) == render_pixel_spec(s2, x, y),
{
    lemma_twin_sample_sum(s1, s2, k, x, y, s1.samples as int);
}

/// A well-formed coloration hands back unit-interval colors: solid colors
/// by well-formedness, texels because gamma decoding lands in the unit
/// interval.
proof fn lemma_coloration_in_unit(c: crate::coloration::Coloration, tc: crate::vector::Vec2)
    requires
        c.wf(),
    ensures
        in_unit(c.color_spec(tc)),
{
    match c {
        crate::coloration::Coloration::Solid(_) => {},
        crate::coloration::Coloration::Image(t) => {
            let tex_x = crate::coloration::wrap_spec(tc.x, t.width);
            let tex_y = crate::coloration::wrap_spec(tc.y, t.height);
            let p = t.pixels[tex_y * t.width + tex_x];
            crate::color_convert::lemma_gamma_decode_fx_range(
                crate::color_convert::from_byte_spec(p.r),
            );
            crate::color_convert::lemma_gamma_decode_fx_range(
                crate::color_convert::from_byte_spec(p.g),
            );
            crate::color_convert::lemma_gamma_decode_fx_range(
                crate::color_convert::from_byte_spec(p.b),
            );
        },
    }
}

/// The Fresnel reflectance is a fraction: it always sits in the unit
/// interval.
proof fn lemma_fresnel_in_unit(incident: Vec3, normal: Vec3, index: Fx)
    requires
        index.raw > 0,
    ensures
        0 <= fresnel_spec(incident, normal, index).raw <= SCALE,
{
    let i_dot_n = incident.dot_spec(normal);
    let eta_i = if i_dot_n.raw > 0 {
        index
    } else {
        Fx::one_spec()
    };
    let eta_t = if i_dot_n.raw > 0 {
        Fx::one_spec()
    } else {
        index
    };
    let sin_t = eta_i.div_spec(eta_t).mul_spec(
        Fx::one_spec().sub_spec(i_dot_n.mul_spec(i_dot_n)).max_spec(
            Fx::zero_spec(),
        ).sqrt_spec(),
    );
    if sin_t.raw > SCALE {
    } else {
        let cos_t = Fx::one_spec().sub_spec(sin_t.mul_spec(sin_t)).max_spec(
            Fx::zero_spec(),
        ).sqrt_spec();
        crate::fx::lemma_sqrt_range(
            Fx::one_spec().sub_spec(sin_t.mul_spec(sin_t)).max_spec(Fx::zero_spec()),
        );
        let cos_i = cos_t.abs_spec();
        assert(cos_i == cos_t);
        let ra = eta_t.mul_spec(cos_i);
        let rb = eta_i.mul_spec(cos_t);
        crate::fx::lemma_mul_nonneg(eta_t, cos_i);
        crate::fx::lemma_mul_nonneg(eta_i, cos_t);
        let num_s = ra.sub_spec(rb);
        let den_s = ra.add_spec(rb);
        crate::fx::lemma_ratio_unit(num_s, den_s);
        let r_s = num_s.div_spec(den_s);
        let num_p = rb.sub_spec(ra);
        let den_p = rb.add_spec(ra);
        crate::fx::lemma_ratio_unit(num_p, den_p);
        let r_p = num_p.div_spec(den_p);
        assert(eta_i.mul_spec(cos_i) == rb && eta_t.mul_spec(cos_t) == ra);
        crate::fx::lemma_square_unit(r_s);
        crate::fx::lemma_square_unit(r_p);
        crate::fx::lemma_half_unit(r_s.mul_spec(r_s).add_spec(r_p.mul_spec(r_p)));
    }
}

/// A convex combination of unit colors, weights summing to at most one,
/// is a unit color.
proof fn lemma_blend_in_unit(a: Vec3, b: Vec3, t: Fx, u: Fx)
    requires
        in_unit(a),
        in_unit(b),
        0 <= t.raw,
        0 <= u.raw,
        t.raw + u.raw <= SCALE,
    ensures
        in_unit(a.scale_spec(t).add_spec(b.scale_spec(u))),
{
    crate::fx::lemma_unit_mul(a.x, t);
    crate::fx::lemma_unit_mul(a.y, t);
    crate::fx::lemma_unit_mul(a.z, t);
    crate::fx::lemma_unit_mul(b.x, u);
    crate::fx::lemma_unit_mul(b.y, u);
    crate::fx::lemma_unit_mul(b.z, u);
}

/// A unit color filtered by a unit color stays a unit color.
proof fn lemma_filter_in_unit(a: Vec3, b: Vec3)
    requires
        in_unit(a),
        in_unit(b),
    ensures
        in_unit(a.component_mul_spec(b)),
{
    crate::fx::lemma_unit_mul(a.x, b.x);
    crate::fx::lemma_unit_mul(a.y, b.y);
    crate::fx::lemma_unit_mul(a.z, b.z);
}

/// The sample sum of a pixel is bounded by the sample count, channel by
/// channel.
proof fn lemma_sample_sum_bounded(scene: Scene, x: u32, y: u32, n: int)
    requires
        scene.wf(),
        0 <= n <= 0x1_0000,
    ensures
        0 <= sample_sum_spec(scene, x, y, n).x.raw <= n * SCALE,
        0 <= sample_sum_spec(scene, x, y, n).y.raw <= n * SCALE,
        0 <= sample_sum_spec(scene, x, y, n).z.raw <= n * SCALE,
    decreases n,
{
    if n > 0 {
        lemma_sample_sum_bounded(scene, x, y, n - 1);
        lemma_cast_ray_in_unit(scene, Ray::new_prime_spec(x, y, (n - 1) as u32, scene), 0);
        assert((n - 1) * SCALE + SCALE == n * SCALE) by (nonlinear_arith);
        assert(n * SCALE <= 0x1_0000 * SCALE) by (nonlinear_arith)
            requires
                n <= 0x1_0000,
                SCALE == 65536,
        ;
    }
}

/// The averaged color a pixel packs is itself a unit color.
pub proof fn lemma_pixel_average_in_unit(scene: Scene, x: u32, y: u32)
    requires
        scene.wf(),
    ensures
        in_unit(
            sample_sum_spec(scene, x, y, scene.samples as int).div_by_spec(
                Fx::from_int_spec(scene.samples as int),
            ),
        ),
{
    let n = scene.samples as int;
    lemma_sample_sum_bounded(scene, x, y, n);
    let sum = sample_sum_spec(scene, x, y, n);
    let d = Fx::from_int_spec(n);
    assert(0 <= n * SCALE <= crate::fx::MAX_RAW) by (nonlinear_arith)
        requires
            1 <= n <= 0x1_0000,
            SCALE == 65536,
    ;
    assert(crate::fx::sat(n * SCALE) == n * SCALE);
    assert(d.raw == n * SCALE);
    lemma_avg_channel_unit(sum.x, n);
    lemma_avg_channel_unit(sum.y, n);
    lemma_avg_channel_unit(sum.z, n);
}

/// One channel of a bounded sum, divided by the count, is a unit channel.
proof fn lemma_avg_channel_unit(c: Fx, n: int)
    requires
        1 <= n <= 0x1_0000,
        0 <= c.raw <= n * SCALE,
    ensures
        0 <= c.div_spec(Fx::from_int_spec(n)).raw <= SCALE,
{
    let d = Fx::from_int_spec(n);
    assert(0 <= n * SCALE <= crate::fx::MAX_RAW) by (nonlinear_arith)
        requires
            1 <= n <= 0x1_0000,
            SCALE == 65536,
    ;
    assert(crate::fx::sat(n * SCALE) == n * SCALE);
    assert(d.raw == n * SCALE);
    let num = c.raw * SCALE;
    assert(0 <= num <= (n * SCALE) * SCALE) by (nonlinear_arith)
        requires
            num == c.raw * SCALE,
            0 <= c.raw <= n * SCALE,
            SCALE == 65536,
    ;
    assert(sdiv(num, d.raw as int) == num / (d.raw as int));
    vstd::arithmetic::div_mod::lemma_div_is_ordered(0, num, d.raw as int);
    vstd::arithmetic::div_mod::lemma_div_is_ordered(num, (n * SCALE) * SCALE, d.raw as int);
    assert(((n * SCALE) * SCALE) / ((n * SCALE) as int) == SCALE) by (nonlinear_arith)
        requires
            1 <= n,
            SCALE == 65536,
    ;
}

/// Every color the ray caster returns lies in the unit cube: the diffuse
/// term is clamped, and each recursive blend is a convex combination
/// filtered by unit colors, so shading can never leave the range that
/// pixel packing expects.
pub proof fn lemma_cast_ray_in_unit(scene: Scene, ray: Ray, depth: u32)
    requires
        scene.wf(),
    ensures
        in_unit(cast_ray_spec(scene, ray, depth)),
    decreases scene.max_recursion_depth - depth, 1int,
{
    if depth < scene.max_recursion_depth {
        match scene.trace_spec(ray) {
            None => {},
            Some(i) => {
                scene.lemma_trace_upto_props(ray, scene.objects.len() as int);
                lemma_calculate_color_in_unit(scene, ray, i, depth);
            },
        }
    }
}

proof fn lemma_calculate_color_in_unit(
    scene: Scene,
    ray: Ray,
    intersection: Intersection,
    depth: u32,
)
    requires
        scene.wf(),
        intersection.object_index < scene.objects.len(),
        depth < scene.max_recursion_depth,
    ensures
        in_unit(calculate_color_spec(scene, ray, intersection, depth)),
    decreases scene.max_recursion_depth - depth, 0int,
{
    let oi = intersection.object_index as int;
    let hit_point = ray.origin.add_spec(ray.direction.scale_spec(intersection.distance));
    let normal = scene.objects[oi].surface_normal_spec(hit_point);
    let shade = shade_diffuse_spec(scene, oi, hit_point, normal);
    assert(in_unit(shade));
    let reflection_ray = Ray::create_reflection_spec(
        normal,
        ray.direction,
        hit_point,
        scene.shadow_bias,
    );
    match scene.objects[oi].material_spec().surface {
        SurfaceType::Diffuse => {},
        SurfaceType::Reflective { reflectivity } => {
            lemma_cast_ray_in_unit(scene, reflection_ray, (depth + 1) as u32);
            lemma_blend_in_unit(
                shade,
                cast_ray_spec(scene, reflection_ray, (depth + 1) as u32),
                Fx::one_spec().sub_spec(reflectivity),
                reflectivity,
            );
        },
        SurfaceType::Refractive { index, transparency } => {
            let kr = fresnel_spec(ray.direction, normal, index);
            lemma_fresnel_in_unit(ray.direction, normal, index);
            let tex_coords = scene.objects[oi].texture_coords_spec(hit_point);
            let surface_color = scene.objects[oi].material_spec().color.color_spec(tex_coords);
            lemma_coloration_in_unit(scene.objects[oi].material_spec().color, tex_coords);
            let refraction_color = if kr.raw < SCALE {
                match Ray::create_transmission_spec(
                    normal,
                    ray.direction,
                    hit_point,
                    scene.shadow_bias,
                    index,
                ) {
                    Some(t) => cast_ray_spec(scene, t, (depth + 1) as u32),
                    None => Vec3::zero_spec(),
                }
            } else {
                Vec3::zero_spec()
            };
            if kr.raw < SCALE {
                match Ray::create_transmission_spec(
                    normal,
                    ray.direction,
                    hit_point,
                    scene.shadow_bias,
                    index,
                ) {
                    Some(t) => {
                        lemma_cast_ray_in_unit(scene, t, (depth + 1) as u32);
                    },
                    None => {},
                }
            }
            assert(in_unit(refraction_color));
            lemma_cast_ray_in_unit(scene, reflection_ray, (depth + 1) as u32);
            let reflection_color = cast_ray_spec(scene, reflection_ray, (depth + 1) as u32);
            lemma_blend_in_unit(
                reflection_color,
                refraction_color,
                kr,
                Fx::one_spec().sub_spec(kr),
            );
            crate::fx::lemma_unit_mul(surface_color.x, transparency);
            crate::fx::lemma_unit_mul(surface_color.y, transparency);
            crate::fx::lemma_unit_mul(surface_color.z, transparency);
            lemma_filter_in_unit(
                reflection_color.scale_spec(kr).add_spec(
                    refraction_color.scale_spec(Fx::one_spec().sub_spec(kr)),
                ),
                surface_color.scale_spec(transparency),
            );
        },
    }
}

} // verus!
