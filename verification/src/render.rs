//! The radiance integrator and the per-pixel sampling loop, plus the
//! procedural demonstration scene.

use vstd::prelude::*;

use crate::camera::Camera;
use crate::hittable::{HitRecord, Hittable};
use crate::hittable_list::{list_hit_model, HittableList};
use crate::material::Material;
use crate::num::{
    lemma_q_lt_trans, lemma_q_red_zero, q_add, q_fits, q_int, q_le, q_lt, q_mul, q_one, q_sqrt,
    q_wf, q_zero, r_add, r_mul, r_sub, Q, Rat,
};
use crate::pixel::{pix_add, pix_black, pix_scale, Pixel, PixelV};
use crate::point::{c_len_sq, c_sub, c_unit, unit_fits, Point, SAMPLE_RES, V3};
use crate::ppm::PPM;
use crate::ray::{Ray, RayV};
use crate::rng::seed_rng;
use crate::sphere::Sphere;

verus! {

/// Lower parameter cutoff of every scene test: avoids spurious
/// self-intersection at the surface of the previous bounce.
pub open spec fn integrator_t_min() -> Q {
    Q { n: 1, d: 1000 }
}

/// Far cutoff standing in for an unbounded parameter range.
pub open spec fn integrator_t_far() -> Q {
    Q { n: 0x7FFF_FFFF_FFFF_FFFF, d: 1 }
}

/// The background gradient, as computed: white blended toward sky blue by
/// the height of the unit direction, `(1 - t) white + t blue` with
/// `t = (y + 1) / 2`.
pub open spec fn background_model(ray: RayV) -> Option<PixelV> {
    if !unit_fits(ray.direction) {
        None
    } else {
        let u = c_unit(ray.direction);
        if !q_fits(r_add(u.y, q_one())) {
            None
        } else {
            let y1 = r_add(u.y, q_one());
            if !q_fits(r_mul(y1, Q { n: 1, d: 2 })) {
                None
            } else {
                let t = r_mul(y1, Q { n: 1, d: 2 });
                if !q_fits(r_sub(q_one(), t)) {
                    None
                } else {
                    let omt = r_sub(q_one(), t);
                    let white = PixelV { r: q_one(), g: q_one(), b: q_one() };
                    let blue = PixelV { r: Q { n: 2, d: 5 }, g: Q { n: 1, d: 2 }, b: q_one() };
                    if !(q_fits(r_mul(white.r, omt)) && q_fits(r_mul(white.g, omt)) && q_fits(
                        r_mul(white.b, omt),
                    )) {
                        None
                    } else {
                        let wp = pix_scale(white, omt);
                        if !(q_fits(r_mul(blue.r, t)) && q_fits(r_mul(blue.g, t)) && q_fits(
                            r_mul(blue.b, t),
                        )) {
                            None
                        } else {
                            let bp = pix_scale(blue, t);
                            if !(q_fits(r_add(wp.r, bp.r)) && q_fits(r_add(wp.g, bp.g)) && q_fits(
                                r_add(wp.b, bp.b),
                            )) {
                                None
                            } else {
                                Some(pix_add(wp, bp))
                            }
                        }
                    }
                }
            }
        }
    }
}

/// What a ray that misses every object contributes: the background
/// gradient, or black where the gradient leaves the representable range.
pub open spec fn miss_color_model(ray: RayV) -> PixelV {
    match background_model(ray) {
        Some(c) => c,
        None => pix_black(),
    }
}

/// The background gradient of a ray that misses the whole scene.
fn background(ray: &Ray) -> (out: Option<Pixel>)
    requires
        ray.wf(),
    ensures
        out matches Some(c) ==> c@ == background_model(ray@)->Some_0 && c.wf(),
        out is Some <==> background_model(ray@) is Some,
{
    let u = match ray.direction.unit_vector() {
        Some(v) => v,
        None => {
            return None;
        },
    };
    let y1 = match u.y.add(&Rat::one()) {
        Some(v) => v,
        None => {
            return None;
        },
    };
    let t = match y1.mul(&Rat::new(1, 2)) {
        Some(v) => v,
        None => {
            return None;
        },
    };
    let omt = match Rat::one().sub(&t) {
        Some(v) => v,
        None => {
            return None;
        },
    };
    let white = Pixel::new(Rat::one(), Rat::one(), Rat::one());
    let blue = Pixel::new(Rat::new(2, 5), Rat::new(1, 2), Rat::one());
    let wp = match white.scale(&omt) {
        Some(v) => v,
        None => {
            return None;
        },
    };
    let bp = match blue.scale(&t) {
        Some(v) => v,
        None => {
            return None;
        },
    };
    wp.add(&bp)
}

/// Estimated radiance along a ray. A zero bounce budget yields black; a hit
/// is scattered and the recursive radiance attenuated; scatter failure is
/// absorption (black); a miss yields the background gradient. A value
/// leaving the representable range truncates the path to black.
pub fn ray_color(
    ray: &Ray,
    world: &HittableList,
    depth: usize,
    rng: &mut rand::rngs::StdRng,
) -> (out: Pixel)
    requires
        ray.wf(),
        world.wf(),
    ensures
        out.wf(),
        depth == 0 ==> out@ == pix_black(),
        depth > 0 && world.objects@.len() == 0 ==> out@ == miss_color_model(ray@),
        depth > 0 && (list_hit_model(
            world.objects@,
            ray@,
            integrator_t_min(),
            integrator_t_far(),
        ) is None) ==> out@ == miss_color_model(ray@),
        depth == 1 && (list_hit_model(
            world.objects@,
            ray@,
            integrator_t_min(),
            integrator_t_far(),
        ) is Some) ==> out@ == pix_black(),
    decreases depth,
{
    if depth == 0 {
        return Pixel::black();
    }
    let mut rec = HitRecord::default();
    let t_min = Rat::new(1, 1000);
    let t_far = Rat::new(i64::MAX, 1);
    if world.hit(ray, &t_min, &t_far, &mut rec) {
        let mut attenuation = Pixel::black();
        let mut scattered = Ray::new(Point::zero(), Point::zero());
        if rec.material.scatter(rng, ray, &rec, &mut attenuation, &mut scattered) {
            let inner = ray_color(&scattered, world, depth - 1, rng);
            match inner.mul(&attenuation) {
                Some(c) => {
                    proof {
                        if depth == 1 {
                            lemma_q_red_zero(attenuation@.r.d);
                            lemma_q_red_zero(attenuation@.g.d);
                            lemma_q_red_zero(attenuation@.b.d);
                        }
                    }
                    return c;
                },
                None => {
                    return Pixel::black();
                },
            }
        }
        return Pixel::black();
    }
    match background(ray) {
        Some(c) => c,
        None => Pixel::black(),
    }
}

/// One viewport coordinate: the pixel index jittered by a uniform draw,
/// normalized by the extent.
fn sample_coord(rng: &mut rand::rngs::StdRng, index: usize, extent: usize) -> (out: Rat)
    requires
        2 <= extent <= 65535,
        index < extent,
    ensures
        out.wf(),
        q_le(q_zero(), out@),
{
    let k = crate::rng::rand_in_range(rng, 0, SAMPLE_RES);
    let num: i64 = (index as i64) * SAMPLE_RES + k;
    let den: i64 = ((extent - 1) as i64) * SAMPLE_RES;
    Rat::new(num, den)
}

/// The averaged radiance of one pixel: `samples_per_pixel` jittered camera
/// rays, integrated and box-filtered (summed then divided by the exact
/// sample count). Draws whose arithmetic leaves the representable range
/// contribute black.
pub fn render_pixel(
    world: &HittableList,
    camera: &Camera,
    width: usize,
    height: usize,
    column: usize,
    row: usize,
    samples_per_pixel: usize,
    max_depth: usize,
    rng: &mut rand::rngs::StdRng,
) -> (out: Pixel)
    requires
        world.wf(),
        camera.wf(),
        2 <= width <= 65535,
        2 <= height <= 65535,
        column < width,
        row < height,
        1 <= samples_per_pixel <= 65535,
    ensures
        out.wf(),
{
    let mut acc = Pixel::black();
    let mut s: usize = 0;
    while s < samples_per_pixel
        invariant
            world.wf(),
            camera.wf(),
            2 <= width <= 65535,
            2 <= height <= 65535,
            column < width,
            row < height,
            acc.wf(),
        decreases samples_per_pixel - s,
    {
        let u = sample_coord(rng, column, width);
        let v = sample_coord(rng, row, height);
        match camera.get_ray(rng, &u, &v) {
            Some(ray) => {
                let sample = ray_color(&ray, world, max_depth, rng);
                match acc.add(&sample) {
                    Some(next) => {
                        acc = next;
                    },
                    None => {},
                }
            },
            None => {},
        }
        s = s + 1;
    }
    let count = Rat::from_int(samples_per_pixel as i64);
    match acc.div(&count) {
        Some(avg) => avg,
        None => Pixel::black(),
    }
}

/// One row of the image, rendered left to right with its own seeded
/// generator: rows are independent units of work.
pub fn render_row(
    world: &HittableList,
    camera: &Camera,
    width: usize,
    height: usize,
    row: usize,
    samples_per_pixel: usize,
    max_depth: usize,
    seed: u64,
) -> (out: Vec<Pixel>)
    requires
        world.wf(),
        camera.wf(),
        2 <= width <= 65535,
        2 <= height <= 65535,
        row < height,
        1 <= samples_per_pixel <= 65535,
    ensures
        out@.len() == width,
        forall|i: int| 0 <= i < out@.len() ==> (#[trigger] out@[i]).wf(),
{
    let mut rng = seed_rng(seed);
    let mut out: Vec<Pixel> = Vec::new();
    let mut c: usize = 0;
    while c < width
        invariant
            world.wf(),
            camera.wf(),
            2 <= width <= 65535,
            2 <= height <= 65535,
            row < height,
            1 <= samples_per_pixel <= 65535,
            c <= width,
            out@.len() == c,
            forall|i: int| 0 <= i < out@.len() ==> (#[trigger] out@[i]).wf(),
        decreases width - c,
    {
        let p = render_pixel(
            world,
            camera,
            width,
            height,
            c,
            row,
            samples_per_pixel,
            max_depth,
            &mut rng,
        );
        out.push(p);
        c = c + 1;
    }
    out
}

/// The per-row generator seed: one independent stream per row, derived
/// deterministically from the base seed.
pub fn row_seed(base_seed: u64, row: usize) -> (out: u64)
    ensures
        out == base_seed ^ (row as u64),
{
    base_seed ^ (row as u64)
}

/// The whole image, row by row. Each row uses the generator seeded by
/// `row_seed(base_seed, row)`, so the result does not depend on the order
/// or interleaving in which rows are computed; a parallel driver renders
/// the same rows with the same seeds into disjoint slices and assembles
/// the identical buffer.
pub fn render(
    world: &HittableList,
    camera: &Camera,
    width: usize,
    height: usize,
    samples_per_pixel: usize,
    max_depth: usize,
    base_seed: u64,
) -> (out: PPM)
    requires
        world.wf(),
        camera.wf(),
        2 <= width <= 65535,
        2 <= height <= 65535,
        1 <= samples_per_pixel <= 65535,
    ensures
        out.width == width,
        out.height == height,
        out.pixels@.len() == width * height,
        out.wf(),
{
    let mut pixels: Vec<Pixel> = Vec::new();
    let mut row: usize = 0;
    proof {
        crate::num::lemma_mul_bound(width as int, height as int, 65535, 65535);
    }
    while row < height
        invariant
            world.wf(),
            camera.wf(),
            2 <= width <= 65535,
            2 <= height <= 65535,
            1 <= samples_per_pixel <= 65535,
            row <= height,
            pixels@.len() == width * row,
            forall|i: int| 0 <= i < pixels@.len() ==> (#[trigger] pixels@[i]).wf(),
        decreases height - row,
    {
        let mut rp = render_row(
            world,
            camera,
            width,
            height,
            row,
            samples_per_pixel,
            max_depth,
            row_seed(base_seed, row),
        );
        proof {
            assert(width * (row + 1) == width * row + width) by (nonlinear_arith);
            assert(width * (row as int) <= width * height && width * (row + 1) <= width * height)
                by (nonlinear_arith)
                requires
                    0 <= width,
                    0 <= row,
                    row < height,
            ;
        }
        pixels.append(&mut rp);
        row = row + 1;
    }
    PPM { width, height, pixels }
}

/// The anchor the grid keeps clear of: the large metal sphere's column at
/// grid height.
pub open spec fn grid_anchor() -> V3 {
    V3 { x: q_int(4), y: Q { n: 1, d: 5 }, z: q_int(0) }
}

/// What holds of every small sphere the demonstration scene's grid adds:
/// radius one fifth, center at grid height inside the grid square and
/// farther than nine tenths from the metal anchor, and a material of one
/// of the three drawn shapes with its parameters inside the drawn ranges.
pub open spec fn grid_member_ok(s: Sphere) -> bool {
    &&& s.radius@ == (Q { n: 1, d: 5 })
    &&& s.center@.y == (Q { n: 1, d: 5 })
    &&& q_le(q_int(-11), s.center@.x) && q_lt(s.center@.x, q_int(11))
    &&& q_le(q_int(-11), s.center@.z) && q_lt(s.center@.z, q_int(11))
    &&& q_lt(Q { n: 9, d: 10 }, q_sqrt(c_len_sq(c_sub(s.center@, grid_anchor()))))
    &&& match s.material {
        Material::Lambertian { albedo } => {
            &&& q_le(q_zero(), albedo@.r) && q_lt(albedo@.r, q_one())
            &&& q_le(q_zero(), albedo@.g) && q_lt(albedo@.g, q_one())
            &&& q_le(q_zero(), albedo@.b) && q_lt(albedo@.b, q_one())
        },
        Material::Metal { albedo, fuzz } => {
            &&& q_le(Q { n: 1, d: 2 }, albedo@.r) && q_lt(albedo@.r, q_one())
            &&& q_le(Q { n: 1, d: 2 }, albedo@.g) && q_lt(albedo@.g, q_one())
            &&& q_le(Q { n: 1, d: 2 }, albedo@.b) && q_lt(albedo@.b, q_one())
            &&& q_le(q_zero(), fuzz@) && q_lt(fuzz@, Q { n: 1, d: 2 })
        },
        Material::Dielectric { ref_idx } => {
            q_le(Q { n: 13, d: 10 }, ref_idx@) && q_lt(ref_idx@, Q { n: 9, d: 5 })
        },
    }
}

/// A grid coordinate `a + (9/10) j` with `j` drawn from `[0, 1)` and `a`
/// an integer cell index stays inside the grid square `[-11, 11)`.
proof fn lemma_grid_coord_bounds(a: int, c: Q, t: Q, j: Q)
    requires
        q_wf(j),
        -11 <= a <= 10,
        q_le(q_zero(), j),
        q_lt(j, q_one()),
        t == crate::num::r_mul(Q { n: 9, d: 10 }, j),
        c == crate::num::r_add(q_int(a), t),
    ensures
        q_le(q_int(-11), c),
        q_lt(c, q_int(11)),
{
    crate::num::lemma_mul_pos(10, j.d);
    crate::num::lemma_q_red(q_mul(Q { n: 9, d: 10 }, j));
    assert(0 <= t.n && t.n < t.d) by (nonlinear_arith)
        requires
            t.d > 0,
            j.d > 0,
            0 <= j.n,
            j.n < j.d,
            t.n * (10 * j.d) == (9 * j.n) * t.d,
    ;
    crate::num::lemma_mul_pos(1, t.d);
    crate::num::lemma_q_red(q_add(q_int(a), t));
    assert(-11 * c.d <= c.n && c.n < 11 * c.d) by (nonlinear_arith)
        requires
            c.n * (1 * t.d) == (a * t.d + t.n * 1) * c.d,
            c.d > 0,
            t.d > 0,
            0 <= t.n,
            t.n < t.d,
            -11 <= a <= 10,
    ;
}

/// A product of two values from `[0, 1)` stays in `[0, 1)`.
proof fn lemma_unit_interval_mul(x: Q, y: Q, p: Q)
    requires
        q_wf(x),
        q_wf(y),
        q_le(q_zero(), x),
        q_lt(x, q_one()),
        q_le(q_zero(), y),
        q_lt(y, q_one()),
        p == crate::num::r_mul(x, y),
    ensures
        q_wf(p),
        q_le(q_zero(), p),
        q_lt(p, q_one()),
{
    crate::num::lemma_mul_pos(x.d, y.d);
    crate::num::lemma_q_red(q_mul(x, y));
    assert(0 <= p.n && p.n < p.d) by (nonlinear_arith)
        requires
            x.d > 0,
            y.d > 0,
            p.d > 0,
            0 <= x.n,
            x.n < x.d,
            0 <= y.n,
            y.n < y.d,
            p.n * (x.d * y.d) == (x.n * y.n) * p.d,
    ;
}

/// The demonstration scene: a ground sphere, a grid of small spheres with
/// randomly chosen materials, and three large feature spheres. Grid
/// spheres whose placement arithmetic leaves the representable range are
/// skipped, so the grid contributes at most one sphere per cell.
pub fn random_scene(rng: &mut rand::rngs::StdRng) -> (out: HittableList)
    ensures
        out.wf(),
        4 <= out.objects@.len() <= 488,
        out.objects@[0].center@ == (V3 { x: q_int(0), y: Q { n: -1000, d: 1 }, z: q_int(0) }),
        out.objects@[0].radius@ == (Q { n: 1000, d: 1 }),
        out.objects@[0].material matches Material::Lambertian { albedo } && albedo@ == (PixelV {
            r: Q { n: 1, d: 2 },
            g: Q { n: 1, d: 2 },
            b: Q { n: 1, d: 2 },
        }),
        out.objects@[out.objects@.len() - 3].center@ == (V3 {
            x: q_int(0),
            y: q_one(),
            z: q_int(0),
        }),
        out.objects@[out.objects@.len() - 3].radius@ == q_one(),
        out.objects@[out.objects@.len() - 3].material matches Material::Dielectric { ref_idx }
            && ref_idx@ == (Q { n: 3, d: 2 }),
        out.objects@[out.objects@.len() - 2].center@ == (V3 {
            x: q_int(-4),
            y: q_one(),
            z: q_int(0),
        }),
        out.objects@[out.objects@.len() - 2].radius@ == q_one(),
        out.objects@[out.objects@.len() - 2].material matches Material::Lambertian { albedo }
            && albedo@ == (PixelV { r: Q { n: 9, d: 10 }, g: Q { n: 1, d: 5 }, b: Q { n: 1, d: 10 } }),
        out.objects@[out.objects@.len() - 1].center@ == (V3 {
            x: q_int(4),
            y: q_one(),
            z: q_int(0),
        }),
        out.objects@[out.objects@.len() - 1].radius@ == q_one(),
        out.objects@[out.objects@.len() - 1].material matches Material::Metal { albedo, fuzz }
            && albedo@ == (PixelV { r: Q { n: 7, d: 10 }, g: Q { n: 3, d: 5 }, b: Q { n: 1, d: 2 } })
            && fuzz@ == q_zero(),
        forall|i: int|
            1 <= i < out.objects@.len() - 3 ==> grid_member_ok(#[trigger] out.objects@[i]),
{
    let mut world = HittableList::default();
    let ground = Sphere::new(
        Point::new(Rat::zero(), Rat::new(-1000, 1), Rat::zero()),
        Rat::new(1000, 1),
        Material::Lambertian {
            albedo: Pixel::new(Rat::new(1, 2), Rat::new(1, 2), Rat::new(1, 2)),
        },
    );
    world.add(ground);
    let mut a: i64 = -11;
    while a < 11
        invariant
            world.wf(),
            world.objects@.len() >= 1,
            world.objects@[0] == ground,
            -11 <= a <= 11,
            world.objects@.len() <= 1 + (a + 11) * 22,
            forall|i: int|
                1 <= i < world.objects@.len() ==> grid_member_ok(#[trigger] world.objects@[i]),
        decreases 11 - a,
    {
        let mut b: i64 = -11;
        while b < 11
            invariant
                world.wf(),
                world.objects@.len() >= 1,
                world.objects@[0] == ground,
                -11 <= a < 11,
                -11 <= b <= 11,
                world.objects@.len() <= 1 + (a + 11) * 22 + (b + 11),
                forall|i: int|
                    1 <= i < world.objects@.len() ==> grid_member_ok(
                        #[trigger] world.objects@[i],
                    ),
            decreases 11 - b,
        {
            add_grid_sphere(rng, &mut world, a, b);
            b = b + 1;
        }
        a = a + 1;
    }
    assert(world.objects@.len() <= 485);
    let big1 = Sphere::new(
        Point::new(Rat::zero(), Rat::one(), Rat::zero()),
        Rat::one(),
        Material::Dielectric { ref_idx: Rat::new(3, 2) },
    );
    world.add(big1);
    let big2 = Sphere::new(
        Point::new(Rat::new(-4, 1), Rat::one(), Rat::zero()),
        Rat::one(),
        Material::Lambertian {
            albedo: Pixel::new(Rat::new(9, 10), Rat::new(1, 5), Rat::new(1, 10)),
        },
    );
    world.add(big2);
    let big3 = Sphere::new(
        Point::new(Rat::new(4, 1), Rat::one(), Rat::zero()),
        Rat::one(),
        Material::Metal {
            albedo: Pixel::new(Rat::new(7, 10), Rat::new(3, 5), Rat::new(1, 2)),
            fuzz: Rat::zero(),
        },
    );
    world.add(big3);
    world
}

/// One grid cell of the demonstration scene: a jittered center, a material
/// chosen by a uniform draw (diffuse below 0.8, metal below 0.95, else
/// glass), skipped near the large metal sphere or when out of range. At
/// most one sphere is appended, it satisfies `grid_member_ok`, and the
/// members already present are untouched.
fn add_grid_sphere(rng: &mut rand::rngs::StdRng, world: &mut HittableList, a: i64, b: i64)
    requires
        -11 <= a < 11,
        -11 <= b < 11,
        old(world).wf(),
    ensures
        final(world).wf(),
        old(world).objects@.len() <= final(world).objects@.len() <= old(world).objects@.len() + 1,
        forall|i: int|
            0 <= i < old(world).objects@.len() ==> final(world).objects@[i] == old(
                world,
            ).objects@[i],
        forall|i: int|
            old(world).objects@.len() <= i < final(world).objects@.len() ==> grid_member_ok(
                #[trigger] final(world).objects@[i],
            ),
    {
        let choose_mat = crate::point::rand01(rng);
        let jx = crate::point::rand01(rng);
        let jz = crate::point::rand01(rng);
        let nine_tenths = Rat::new(9, 10);
        let tx = match nine_tenths.mul(&jx) {
            Some(v) => v,
            None => {
                return ;
            },
        };
        let cx = match Rat::from_int(a).add(&tx) {
            Some(v) => v,
            None => {
                return ;
            },
        };
        let tz = match nine_tenths.mul(&jz) {
            Some(v) => v,
            None => {
                return ;
            },
        };
        let cz = match Rat::from_int(b).add(&tz) {
            Some(v) => v,
            None => {
                return ;
            },
        };
        proof {
            lemma_grid_coord_bounds(a as int, cx@, tx@, jx@);
            lemma_grid_coord_bounds(b as int, cz@, tz@, jz@);
        }
        let center = Point::new(cx, Rat::new(1, 5), cz);
        let anchor = Point::new(Rat::new(4, 1), Rat::new(1, 5), Rat::zero());
        let away = match center.sub(&anchor) {
            Some(v) => v,
            None => {
                return ;
            },
        };
        let dist = match away.length() {
            Some(v) => v,
            None => {
                return ;
            },
        };
        if !nine_tenths.lt(&dist) {
            return ;
        }
        let radius = Rat::new(1, 5);
        if choose_mat.lt(&Rat::new(4, 5)) {
            let a1 = Pixel::random(rng);
            let a2 = Pixel::random(rng);
            let albedo = match a1.mul(&a2) {
                Some(v) => v,
                None => {
                    return ;
                },
            };
            proof {
                lemma_unit_interval_mul(a1@.r, a2@.r, albedo@.r);
                lemma_unit_interval_mul(a1@.g, a2@.g, albedo@.g);
                lemma_unit_interval_mul(a1@.b, a2@.b, albedo@.b);
            }
            world.add(Sphere::new(center, radius, Material::Lambertian { albedo }));
        } else if choose_mat.lt(&Rat::new(19, 20)) {
            let albedo = match Pixel::random_range(rng, &Rat::new(1, 2), &Rat::one()) {
                Some(v) => v,
                None => {
                    return ;
                },
            };
            let fuzz = match crate::point::rand_coord(rng, &Rat::zero(), &Rat::new(1, 2)) {
                Some(v) => v,
                None => {
                    return ;
                },
            };
            proof {
                lemma_q_lt_trans(fuzz@, Q { n: 1, d: 2 }, q_one());
            }
            world.add(Sphere::new(center, radius, Material::Metal { albedo, fuzz }));
        } else {
            let ref_idx = match crate::point::rand_coord(rng, &Rat::new(13, 10), &Rat::new(9, 5)) {
                Some(v) => v,
                None => {
                    return ;
                },
            };
            proof {
                lemma_q_lt_trans(q_zero(), Q { n: 13, d: 10 }, ref_idx@);
            }
            world.add(Sphere::new(center, radius, Material::Dielectric { ref_idx }));
        }
    }

} // verus!
