use vstd::prelude::*;

verus! {

use crate::color_convert::Rgb8;
use crate::color_convert::vec3_to_rgb;
use crate::color_convert::vec3_to_rgb_spec;
use crate::fx::Fx;
use crate::fx::SCALE;
use crate::intersection::Intersection;
use crate::lights::beyond_light;
use crate::lights::Light;
use crate::material::SurfaceType;
use crate::ray::Ray;
use crate::scene::Scene;
use crate::trig::pi;
use crate::trig::pi_spec;
use crate::vector::Vec3;

/// The angle- and index-dependent fraction of light a dielectric boundary
/// reflects. A transmitted angle whose sine passes one means total
/// internal reflection, so everything reflects; otherwise the two
/// polarized reflectances are averaged.
pub open spec fn fresnel_spec(incident: Vec3, normal: Vec3, index: Fx) -> Fx {
    let i_dot_n = incident.dot_spec(normal);
    let eta_i = if i_dot_n.raw > 0 {
        index
    } else {
        Fx::one_spec()
    };
    let eta_t = if i_dot_n.raw > 0 {
        Fx::one_spec()
    } else {
        index
    };
    let sin_t = eta_i.div_spec(eta_t).mul_spec(
        Fx::one_spec().sub_spec(i_dot_n.mul_spec(i_dot_n)).max_spec(
            Fx::zero_spec(),
        ).sqrt_spec(),
    );
    if sin_t.raw > SCALE {
        Fx::one_spec()
    } else {
        let cos_t = Fx::one_spec().sub_spec(sin_t.mul_spec(sin_t)).max_spec(
            Fx::zero_spec(),
        ).sqrt_spec();
        let cos_i = cos_t.abs_spec();
        let r_s = eta_t.mul_spec(cos_i).sub_spec(eta_i.mul_spec(cos_t)).div_spec(
            eta_t.mul_spec(cos_i).add_spec(eta_i.mul_spec(cos_t)),
        );
        let r_p = eta_i.mul_spec(cos_i).sub_spec(eta_t.mul_spec(cos_t)).div_spec(
            eta_i.mul_spec(cos_i).add_spec(eta_t.mul_spec(cos_t)),
        );
        r_s.mul_spec(r_s).add_spec(r_p.mul_spec(r_p)).div_spec(Fx::from_int_spec(2))
    }
}

pub fn fresnel(incident: Vec3, normal: Vec3, index: Fx) -> (r: Fx)
    ensures
        r == fresnel_spec(incident, normal, index),
{
    let i_dot_n = incident.dot(normal);
    let eta_i = if i_dot_n.raw > 0 {
        index
    } else {
        Fx::one()
    };
    let eta_t = if i_dot_n.raw > 0 {
        Fx::one()
    } else {
        index
    };
    let sin_t = eta_i.div(eta_t).mul(
        Fx::one().sub(i_dot_n.mul(i_dot_n)).max(Fx::zero()).sqrt(),
    );
    if sin_t.raw > SCALE {
        Fx::one()
    } else {
        let cos_t = Fx::one().sub(sin_t.mul(sin_t)).max(Fx::zero()).sqrt();
        let cos_i = cos_t.abs();
        let r_s = eta_t.mul(cos_i).sub(eta_i.mul(cos_t)).div(
            eta_t.mul(cos_i).add(eta_i.mul(cos_t)),
        );
        let r_p = eta_i.mul(cos_i).sub(eta_t.mul(cos_t)).div(
            eta_i.mul(cos_i).add(eta_t.mul(cos_t)),
        );
        r_s.mul(r_s).add(r_p.mul(r_p)).div(Fx::from_int(2))
    }
}

/// What one light adds at a hit point: nothing if a blocker nearer than
/// the light shadows the point; otherwise the Lambertian term times the
/// light's intensity there, through the albedo and the surface color.
pub open spec fn light_contrib_spec(
    scene: Scene,
    object_index: int,
    hit_point: Vec3,
    surface_normal: Vec3,
    tex_color: Vec3,
    light: Light,
) -> Vec3 {
    let dir_to_light = light.direction_from_spec(hit_point);
    let shadow_ray = Ray {
        origin: hit_point.add_spec(surface_normal.scale_spec(scene.shadow_bias)),
        direction: dir_to_light,
    };
    let shadow = scene.trace_spec(shadow_ray);
    let in_light = match shadow {
        None => true,
        Some(s) => beyond_light(s.distance, light.distance_spec(hit_point)),
    };
    let light_intensity = if in_light {
        light.intensity_spec(hit_point)
    } else {
        Fx::zero_spec()
    };
    let material = scene.objects[object_index].material_spec();
    let light_power = surface_normal.dot_spec(dir_to_light).max_spec(Fx::zero_spec()).mul_spec(
        light_intensity,
    );
    let light_reflected = material.albedo.div_spec(pi_spec());
    let light_color = light.color_spec().scale_spec(light_power).scale_spec(light_reflected);
    tex_color.component_mul_spec(light_color)
}

/// The sum of the first `n` lights' contributions.
pub open spec fn shade_upto_spec(
    scene: Scene,
    object_index: int,
    hit_point: Vec3,
    surface_normal: Vec3,
    tex_color: Vec3,
    n: int,
) -> Vec3
    decreases n,
{
    if n <= 0 {
        Vec3::zero_spec()
    } else {
        shade_upto_spec(scene, object_index, hit_point, surface_normal, tex_color, n - 1).add_spec(
            light_contrib_spec(
                scene,
                object_index,
                hit_point,
                surface_normal,
                tex_color,
                scene.lights[n - 1],
            ),
        )
    }
}

/// Diffuse shading: every light's contribution accumulated, then clamped
/// into the unit cube.
pub open spec fn shade_diffuse_spec(
    scene: Scene,
    object_index: int,
    hit_point: Vec3,
    surface_normal: Vec3,
) -> Vec3 {
    let tex_coords = scene.objects[object_index].texture_coords_spec(hit_point);
    let tex_color = scene.objects[object_index].material_spec().color.color_spec(tex_coords);
    shade_upto_spec(
        scene,
        object_index,
        hit_point,
        surface_normal,
        tex_color,
        scene.lights.len() as int,
    ).clamp01_spec()
}

pub fn shade_diffuse(
    scene: &Scene,
    object_index: usize,
    hit_point: Vec3,
    surface_normal: Vec3,
) -> (r: Vec3)
    requires
        scene.wf(),
        object_index < scene.objects.len(),
    ensures
        r == shade_diffuse_spec(*scene, object_index as int, hit_point, surface_normal),
{
    let tex_coords = scene.objects[object_index].texture_coords(&hit_point);
    let tex_color = scene.objects[object_index].material().color.color(&tex_coords);
    let mut color = Vec3::zero();
    let mut i: usize = 0;
    while i < scene.lights.len()
        invariant
            scene.wf(),
            object_index < scene.objects.len(),
            i <= scene.lights.len(),
            tex_color == scene.objects[object_index as int].material_spec().color.color_spec(
                scene.objects[object_index as int].texture_coords_spec(hit_point),
            ),
            color == shade_upto_spec(
                *scene,
                object_index as int,
                hit_point,
                surface_normal,
                tex_color,
                i as int,
            ),
        decreases scene.lights.len() - i,
    {
        let light = &scene.lights[i];
        let dir_to_light = light.direction_from(&hit_point);
        let shadow_ray = Ray {
            origin: hit_point.add(surface_normal.scale(scene.shadow_bias)),
            direction: dir_to_light,
        };
        let shadow = scene.trace(&shadow_ray);
        let in_light = match &shadow {
            None => true,
            Some(s) => {
                let ld = light.distance(&hit_point);
                match ld {
                    crate::lights::LightDistance::Finite(f) => s.distance.raw > f.raw,
                    crate::lights::LightDistance::Unbounded => false,
                }
            },
        };
        let light_intensity = if in_light {
            light.intensity(&hit_point)
        } else {
            Fx::zero()
        };
        let material = scene.objects[object_index].material();
        let light_power = surface_normal.dot(dir_to_light).max(Fx::zero()).mul(light_intensity);
        let light_reflected = material.albedo.div(pi());
        let light_color = light.color().scale(light_power).scale(light_reflected);
        color = color.add(tex_color.component_mul(light_color));
        i = i + 1;
    }
    color.clamp01()
}

/// The color a hit produces, by the surface behavior of the hit object:
/// diffuse shading alone; a blend of diffuse shading and a recursive
/// reflection; or a Fresnel-weighted blend of recursive reflection and
/// transmission filtered by the surface color.
pub open spec fn calculate_color_spec(
    scene: Scene,
    ray: Ray,
    intersection: Intersection,
    depth: u32,
) -> Vec3
    decreases scene.max_recursion_depth - depth, 0int,
{
    if depth >= scene.max_recursion_depth {
        Vec3::zero_spec()
    } else {
        let oi = intersection.object_index as int;
        let hit_point = ray.origin.add_spec(ray.direction.scale_spec(intersection.distance));
        let normal = scene.objects[oi].surface_normal_spec(hit_point);
        match scene.objects[oi].material_spec().surface {
            SurfaceType::Diffuse => shade_diffuse_spec(scene, oi, hit_point, normal),
            SurfaceType::Reflective { reflectivity } => {
                let color = shade_diffuse_spec(scene, oi, hit_point, normal);
                let reflection_ray = Ray::create_reflection_spec(
                    normal,
                    ray.direction,
                    hit_point,
                    scene.shadow_bias,
                );
                color.scale_spec(Fx::one_spec().sub_spec(reflectivity)).add_spec(
                    cast_ray_spec(scene, reflection_ray, (depth + 1) as u32).scale_spec(
                        reflectivity,
                    ),
                )
            },
            SurfaceType::Refractive { index, transparency } => {
                let kr = fresnel_spec(ray.direction, normal, index);
                let tex_coords = scene.objects[oi].texture_coords_spec(hit_point);
                let surface_color = scene.objects[oi].material_spec().color.color_spec(
                    tex_coords,
                );
                let refraction_color = if kr.raw < SCALE {
                    match Ray::create_transmission_spec(
                        normal,
                        ray.direction,
                        hit_point,
                        scene.shadow_bias,
                        index,
                    ) {
                        Some(t) => cast_ray_spec(scene, t, (depth + 1) as u32),
                        None => Vec3::zero_spec(),
                    }
                } else {
                    Vec3::zero_spec()
                };
                let reflection_ray = Ray::create_reflection_spec(
                    normal,
                    ray.direction,
                    hit_point,
                    scene.shadow_bias,
                );
                let reflection_color = cast_ray_spec(scene, reflection_ray, (depth + 1) as u32);
                let color = reflection_color.scale_spec(kr).add_spec(
                    refraction_color.scale_spec(Fx::one_spec().sub_spec(kr)),
                );
                color.component_mul_spec(surface_color.scale_spec(transparency))
            },
        }
    }
}

/// The color a ray gathers: black once the recursion cap is reached, and
/// black when the ray escapes the scene without a hit.
pub open spec fn cast_ray_spec(scene: Scene, ray: Ray, depth: u32) -> Vec3
    decreases scene.max_recursion_depth - depth, 1int,
{
    if depth >= scene.max_recursion_depth {
        Vec3::zero_spec()
    } else {
        match scene.trace_spec(ray) {
            None => Vec3::zero_spec(),
            Some(i) => calculate_color_spec(scene, ray, i, depth),
        }
    }
}

#[verifier::rlimit(100)]
pub fn calculate_color(scene: &Scene, ray: &Ray, intersection: &Intersection, depth: u32) -> (r:
    Vec3)
    requires
        scene.wf(),
        intersection.object_index < scene.objects.len(),
        depth < scene.max_recursion_depth,
    ensures
        r == calculate_color_spec(*scene, *ray, *intersection, depth),
    decreases scene.max_recursion_depth - depth, 0int,
{
    let oi = intersection.object_index;
    let hit_point = ray.origin.add(ray.direction.scale(intersection.distance));
    let normal = scene.objects[oi].surface_normal(&hit_point);
    let surface = scene.objects[oi].material().surface;
    match surface {
        SurfaceType::Diffuse => shade_diffuse(scene, oi, hit_point, normal),
        SurfaceType::Reflective { reflectivity } => {
            let color = shade_diffuse(scene, oi, hit_point, normal);
            let reflection_ray = Ray::create_reflection(
                normal,
                ray.direction,
                hit_point,
                scene.shadow_bias,
            );
            color.scale(Fx::one().sub(reflectivity)).add(
                cast_ray(scene, &reflection_ray, depth + 1).scale(reflectivity),
            )
        },
        SurfaceType::Refractive { index, transparency } => {
            let kr = fresnel(ray.direction, normal, index);
            let tex_coords = scene.objects[oi].texture_coords(&hit_point);
            let surface_color = scene.objects[oi].material().color.color(&tex_coords);
            let mut refraction_color = Vec3::zero();
            if kr.raw < SCALE {
                match Ray::create_transmission(
                    normal,
                    ray.direction,
                    hit_point,
                    scene.shadow_bias,
                    index,
                ) {
                    Some(t) => {
                        refraction_color = cast_ray(scene, &t, depth + 1);
                    },
                    None => {},
                }
            }
            let reflection_ray = Ray::create_reflection(
                normal,
                ray.direction,
                hit_point,
                scene.shadow_bias,
            );
            let reflection_color = cast_ray(scene, &reflection_ray, depth + 1);
            let color = reflection_color.scale(kr).add(
                refraction_color.scale(Fx::one().sub(kr)),
            );
            color.component_mul(surface_color.scale(transparency))
        },
    }
}

/// Check the recursion cap before any geometry is consulted, then query
/// the scene and shade the closest hit.
pub fn cast_ray(scene: &Scene, ray: &Ray, depth: u32) -> (r: Vec3)
    requires
        scene.wf(),
        depth <= scene.max_recursion_depth,
    ensures
        r == cast_ray_spec(*scene, *ray, depth),
        crate::vector::in_unit(r),
    decreases scene.max_recursion_depth - depth, 1int,
{
    proof {
        crate::laws::lemma_cast_ray_in_unit(*scene, *ray, depth);
    }
    if depth >= scene.max_recursion_depth {
        return Vec3::zero();
    }
    let intersection = scene.trace(ray);
    match intersection {
        None => Vec3::zero(),
        Some(i) => calculate_color(scene, ray, &i, depth),
    }
}

/// The sum of the first `n` stratified samples of a pixel.
pub open spec fn sample_sum_spec(scene: Scene, x: u32, y: u32, n: int) -> Vec3
    decreases n,
{
    if n <= 0 {
        Vec3::zero_spec()
    } else {
        sample_sum_spec(scene, x, y, n - 1).add_spec(
            cast_ray_spec(scene, Ray::new_prime_spec(x, y, (n - 1) as u32, scene), 0),
        )
    }
}

/// What one output pixel shows: the averaged sample sum, gamma-encoded
/// and packed. A pure function of the pixel coordinates and the immutable
/// scene, which is why the render order can never matter.
pub open spec fn render_pixel_spec(scene: Scene, x: u32, y: u32) -> Rgb8 {
    vec3_to_rgb_spec(
        sample_sum_spec(scene, x, y, scene.samples as int).div_by_spec(
            Fx::from_int_spec(scene.samples as int),
        ),
    )
}

/// Gather and average every stratified sample of one pixel.
pub fn render_pixel(scene: &Scene, x: u32, y: u32) -> (r: Rgb8)
    requires
        scene.wf(),
    ensures
        r == render_pixel_spec(*scene, x, y),
{
    let mut color = Vec3::zero();
    let mut s: u32 = 0;
    while s < scene.samples
        invariant
            scene.wf(),
            s <= scene.samples,
            color == sample_sum_spec(*scene, x, y, s as int),
        decreases scene.samples - s,
    {
        let ray = Ray::new_prime(x, y, s, scene);
        color = color.add(cast_ray(scene, &ray, 0));
        s = s + 1;
    }
    vec3_to_rgb(color.div_by(Fx::from_int(scene.samples as i64)))
}

/// A cell of an earlier row sits below the current row's start.
proof fn lemma_row_major_below(yy: int, xx: int, y: int, w: int)
    requires
        0 <= xx < w,
        0 <= yy < y,
    ensures
        yy * w + xx < y * w,
{
    assert(yy * w + xx < y * w) by (nonlinear_arith)
        requires
            0 <= xx < w,
            0 <= yy < y,
    ;
}

/// Render the whole raster, row-major. Every pixel is its own unit of
/// work and depends on nothing but its coordinates and the scene, so the
/// buffer is identical however the pixels are scheduled.
#[verifier::rlimit(100)]
pub fn render(scene: &Scene) -> (img: Vec<Rgb8>)
    requires
        scene.wf(),
    ensures
        img.len() == scene.width * scene.height,
        forall|x: u32, y: u32|
            x < scene.width && y < scene.height ==> img[y * scene.width + x]
                == #[trigger] render_pixel_spec(*scene, x, y),
{
    let width = scene.width;
    let height = scene.height;
    let mut img: Vec<Rgb8> = Vec::new();
    let mut y: u32 = 0;
    while y < height
        invariant
            scene.wf(),
            width == scene.width,
            height == scene.height,
            y <= height,
            img.len() == y * width,
            forall|xx: u32, yy: u32|
                xx < width && yy < y ==> img[yy * width + xx] == #[trigger] render_pixel_spec(
                    *scene,
                    xx,
                    yy,
                ),
        decreases height - y,
    {
        let mut x: u32 = 0;
        while x < width
            invariant
                scene.wf(),
                width == scene.width,
                height == scene.height,
                y < height,
                x <= width,
                img.len() == y * width + x,
                forall|xx: u32, yy: u32|
                    xx < width && yy < y ==> img[yy * width + xx]
                        == #[trigger] render_pixel_spec(*scene, xx, yy),
                forall|xx: u32|
                    xx < x ==> img[y * width + xx] == #[trigger] render_pixel_spec(
                        *scene,
                        xx,
                        y,
                    ),
            decreases width - x,
        {
            let p = render_pixel(scene, x, y);
            img.push(p);
            proof {
                assert forall|xx: u32, yy: u32| xx < width && yy < y implies img[yy * width
                    + xx] == #[trigger] render_pixel_spec(*scene, xx, yy) by {
                    lemma_row_major_below(yy as int, xx as int, y as int, width as int);
                }
            }
            x = x + 1;
        }
        proof {
            assert(y * width + width == (y + 1) * width) by (nonlinear_arith);
            assert forall|xx: u32, yy: u32| xx < width && yy < y + 1 implies img[yy * width
                + xx] == #[trigger] render_pixel_spec(*scene, xx, yy) by {
                if yy < y {
                    lemma_row_major_below(yy as int, xx as int, y as int, width as int);
                }
            }
        }
        y = y + 1;
    }
    proof {
        assert(img.len() == height * width);
        assert(height * width == scene.width * scene.height) by (nonlinear_arith)
            requires
                width == scene.width,
                height == scene.height,
        ;
    }
    img
}

} // verus!
