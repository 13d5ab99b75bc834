use raytracer::camera::Camera;
use raytracer::hittable::{HitRecord, Hittable};
use raytracer::hittable_list::HittableList;
use raytracer::material::Material;
use raytracer::num::Rat;
use raytracer::pixel::Pixel;
use raytracer::point::Point;
use raytracer::ppm::PPM;
use raytracer::ray::Ray;
use raytracer::render::{random_scene, ray_color, render, render_row, row_seed};
use raytracer::rng::seed_rng;
use raytracer::sphere::Sphere;

fn rat(n: i64, d: i64) -> Rat {
    Rat::new(n, d)
}

fn point(x: i64, y: i64, z: i64) -> Point {
    Point::new(Rat::from_int(x), Rat::from_int(y), Rat::from_int(z))
}

fn gray(n: i64, d: i64) -> Pixel {
    Pixel::new(rat(n, d), rat(n, d), rat(n, d))
}

#[test]
fn rat_arithmetic_is_exact_and_reduced() {
    let half = rat(1, 2);
    let third = rat(1, 3);
    let sum = half.add(&third).unwrap();
    assert_eq!(sum.num, 5);
    assert_eq!(sum.den, 6);
    let prod = rat(3, 4).mul(&rat(2, 3)).unwrap();
    assert_eq!(prod.num, 1);
    assert_eq!(prod.den, 2);
    let quot = half.div(&rat(-1, 4)).unwrap();
    assert_eq!(quot.num, -2);
    assert_eq!(quot.den, 1);
    let diff = third.sub(&half).unwrap();
    assert_eq!(diff.num, -1);
    assert_eq!(diff.den, 6);
}

#[test]
fn rat_division_by_zero_is_none() {
    assert!(rat(1, 2).div(&Rat::zero()).is_none());
}

#[test]
fn rat_out_of_range_is_none() {
    let big = Rat::new(i64::MAX, 1);
    assert!(big.add(&big).is_none());
    assert!(big.mul(&big).is_none());
}

#[test]
fn sqrt_floor_is_exact_on_squares_and_floors_otherwise() {
    let nine = Rat::from_int(9);
    let s = nine.sqrt_floor();
    assert!(s.eq_val(&Rat::from_int(3)));
    let quarter = rat(1, 4);
    assert!(quarter.sqrt_floor().eq_val(&rat(1, 2)));
    let two = Rat::from_int(2);
    assert!(two.sqrt_floor().eq_val(&Rat::from_int(1)));
}

#[test]
fn reflect_flips_the_normal_component() {
    let v = point(1, -1, 0);
    let n = point(0, 1, 0);
    let r = v.reflect(&n).unwrap();
    assert!(r.x().eq_val(&Rat::from_int(1)));
    assert!(r.y().eq_val(&Rat::from_int(1)));
    assert!(r.z().eq_val(&Rat::zero()));
    let dr = r.dot(&n).unwrap();
    let dv = v.dot(&n).unwrap();
    assert!(dr.eq_val(&dv.neg()));
}

#[test]
fn refract_at_ratio_one_passes_straight_through() {
    let v = point(0, 0, -1);
    let n = point(0, 0, 1);
    let r = v.refract(&n, &Rat::one()).unwrap();
    assert!(r.x().eq_val(&Rat::zero()));
    assert!(r.y().eq_val(&Rat::zero()));
    assert!(r.z().eq_val(&Rat::from_int(-1)));
}

#[test]
fn refract_preserves_unit_length_on_exact_inputs() {
    // |v| == 1, n unit, ratio 39/25: the bent direction is (3/5, 0, -4/5).
    let v = Point::new(rat(5, 13), Rat::zero(), rat(-12, 13));
    let n = point(0, 0, 1);
    let r = v.refract(&n, &rat(39, 25)).unwrap();
    assert!(r.x().eq_val(&rat(3, 5)));
    assert!(r.y().eq_val(&Rat::zero()));
    assert!(r.z().eq_val(&rat(-4, 5)));
    let ls = r.length_squared().unwrap();
    assert!(ls.eq_val(&Rat::one()));
}

#[test]
fn unit_vector_is_exact_on_pythagorean_input() {
    let v = point(3, 4, 0);
    let u = v.unit_vector().unwrap();
    assert!(u.x().eq_val(&rat(3, 5)));
    assert!(u.y().eq_val(&rat(4, 5)));
    let ls = u.length_squared().unwrap();
    assert!(ls.eq_val(&Rat::one()));
}

#[test]
fn unit_vector_of_zero_is_none() {
    assert!(Point::zero().unit_vector().is_none());
}

#[test]
fn sphere_hit_from_center_distance_gives_exact_roots() {
    let mat = Material::Lambertian { albedo: gray(1, 2) };
    let sphere = Sphere::new(point(0, 0, -5), Rat::one(), mat);
    let ray = Ray::new(point(0, 0, 0), point(0, 0, -1));
    let mut rec = HitRecord::default();
    // Distance 5, radius 1: roots at exactly 4 and 6.
    assert!(sphere.hit(&ray, &rat(1, 1000), &rat(100, 1), &mut rec));
    assert_eq!(rec.t.num, 4);
    assert_eq!(rec.t.den, 1);
    // Excluding the near root exposes the far one.
    let mut rec2 = HitRecord::default();
    assert!(sphere.hit(&ray, &rat(9, 2), &rat(100, 1), &mut rec2));
    assert_eq!(rec2.t.num, 6);
    assert_eq!(rec2.t.den, 1);
    // The normal at the near hit points back along the ray.
    assert!(rec.front_face);
    assert!(rec.normal.z().eq_val(&Rat::one()));
}

#[test]
fn scene_hit_returns_the_nearer_of_two_overlapping_spheres() {
    let mat = Material::Lambertian { albedo: gray(1, 2) };
    let near = Sphere::new(point(0, 0, -3), rat(3, 2), mat);
    let far = Sphere::new(point(0, 0, -4), Rat::from_int(2), mat);
    let ray = Ray::new(point(0, 0, 0), point(0, 0, -1));
    for order in 0..2 {
        let mut world = HittableList::default();
        if order == 0 {
            world.add(near);
            world.add(far);
        } else {
            world.add(far);
            world.add(near);
        }
        let mut rec = HitRecord::default();
        assert!(world.hit(&ray, &rat(1, 1000), &rat(100, 1), &mut rec));
        assert!(rec.t.eq_val(&rat(3, 2)));
    }
}

#[test]
fn ray_color_at_depth_zero_is_black() {
    let mut rng = seed_rng(1);
    let mut world = HittableList::default();
    world.add(Sphere::new(point(0, 0, -2), Rat::one(), Material::Lambertian {
        albedo: gray(1, 2),
    }));
    let ray = Ray::new(point(0, 0, 0), point(0, 0, -1));
    let c = ray_color(&ray, &world, 0, &mut rng);
    assert_eq!(c.r.num, 0);
    assert_eq!(c.g.num, 0);
    assert_eq!(c.b.num, 0);
}

#[test]
fn ray_color_on_miss_is_the_background_gradient() {
    let mut rng = seed_rng(2);
    let world = HittableList::default();
    // Straight up: t == 1, pure sky blue.
    let up = Ray::new(point(0, 0, 0), point(0, 1, 0));
    let c = ray_color(&up, &world, 5, &mut rng);
    assert!(c.r.eq_val(&rat(2, 5)));
    assert!(c.g.eq_val(&rat(1, 2)));
    assert!(c.b.eq_val(&Rat::one()));
    // Straight down: t == 0, pure white.
    let down = Ray::new(point(0, 0, 0), point(0, -1, 0));
    let w = ray_color(&down, &world, 5, &mut rng);
    assert!(w.r.eq_val(&Rat::one()));
    assert!(w.g.eq_val(&Rat::one()));
    assert!(w.b.eq_val(&Rat::one()));
}

#[test]
fn single_bounce_scenario_returns_black_when_budget_runs_out() {
    // One ground sphere and one foreground sphere; the center ray strikes
    // the foreground sphere at normal incidence. With one bounce left, the
    // scattered ray's budget is exhausted and the result is black; with
    // none, black immediately.
    let mut rng = seed_rng(3);
    let mut world = HittableList::default();
    world.add(Sphere::new(
        Point::new(Rat::zero(), rat(-201, 2), Rat::from_int(-1)),
        Rat::from_int(100),
        Material::Lambertian { albedo: Pixel::new(rat(4, 5), rat(4, 5), Rat::zero()) },
    ));
    world.add(Sphere::new(
        point(0, 0, -1),
        rat(1, 2),
        Material::Lambertian { albedo: Pixel::new(rat(7, 10), rat(3, 10), rat(3, 10)) },
    ));
    let center_ray = Ray::new(point(0, 0, 0), point(0, 0, -1));
    let c1 = ray_color(&center_ray, &world, 1, &mut rng);
    assert_eq!((c1.r.num, c1.g.num, c1.b.num), (0, 0, 0));
    let c0 = ray_color(&center_ray, &world, 0, &mut rng);
    assert_eq!((c0.r.num, c0.g.num, c0.b.num), (0, 0, 0));
}

#[test]
fn dielectric_with_index_one_does_not_bend_the_ray() {
    let mut rng = seed_rng(4);
    let mat = Material::Dielectric { ref_idx: Rat::one() };
    let rec = HitRecord {
        point: point(0, 0, -1),
        normal: point(0, 0, 1),
        t: Rat::one(),
        front_face: true,
        material: mat,
    };
    let ray = Ray::new(point(0, 0, 0), point(0, 0, -1));
    let mut attenuation = Pixel::black();
    let mut scattered = Ray::new(Point::zero(), Point::zero());
    assert!(mat.scatter(&mut rng, &ray, &rec, &mut attenuation, &mut scattered));
    assert!(attenuation.r.eq_val(&Rat::one()));
    assert!(attenuation.g.eq_val(&Rat::one()));
    assert!(attenuation.b.eq_val(&Rat::one()));
    assert!(scattered.direction.x().eq_val(&Rat::zero()));
    assert!(scattered.direction.y().eq_val(&Rat::zero()));
    assert!(scattered.direction.z().eq_val(&Rat::from_int(-1)));
}

#[test]
fn dielectric_total_internal_reflection_reflects() {
    let mut rng = seed_rng(5);
    let mat = Material::Dielectric { ref_idx: rat(3, 2) };
    // Leaving the glass at a grazing angle: ratio 3/2, sin 4/5, product
    // above one.
    let rec = HitRecord {
        point: point(0, 0, 0),
        normal: point(0, 0, -1),
        t: Rat::one(),
        front_face: false,
        material: mat,
    };
    let ray = Ray::new(point(0, 0, 0), Point::new(rat(4, 5), Rat::zero(), rat(3, 5)));
    let mut attenuation = Pixel::black();
    let mut scattered = Ray::new(Point::zero(), Point::zero());
    assert!(mat.scatter(&mut rng, &ray, &rec, &mut attenuation, &mut scattered));
    assert!(scattered.direction.x().eq_val(&rat(4, 5)));
    assert!(scattered.direction.y().eq_val(&Rat::zero()));
    assert!(scattered.direction.z().eq_val(&rat(-3, 5)));
}

#[test]
fn metal_absorbs_grazing_reflections() {
    let mut rng = seed_rng(6);
    let mat = Material::Metal { albedo: gray(9, 10), fuzz: Rat::zero() };
    let rec = HitRecord {
        point: point(0, 0, 0),
        normal: point(0, 0, 1),
        t: Rat::one(),
        front_face: true,
        material: mat,
    };
    let ray = Ray::new(point(-1, 0, 0), point(1, 0, 0));
    let mut attenuation = gray(1, 3);
    let mut scattered = Ray::new(Point::zero(), Point::zero());
    assert!(!mat.scatter(&mut rng, &ray, &rec, &mut attenuation, &mut scattered));
    // Absorption leaves the outputs untouched.
    assert_eq!(attenuation, gray(1, 3));
}

#[test]
fn metal_reflects_across_the_normal() {
    let mut rng = seed_rng(7);
    let mat = Material::Metal { albedo: gray(9, 10), fuzz: Rat::zero() };
    let rec = HitRecord {
        point: point(0, 0, 0),
        normal: point(0, 0, 1),
        t: Rat::one(),
        front_face: true,
        material: mat,
    };
    // Unit incoming direction (3/5, 0, -4/5).
    let ray = Ray::new(point(0, 0, 1), Point::new(rat(3, 5), Rat::zero(), rat(-4, 5)));
    let mut attenuation = Pixel::black();
    let mut scattered = Ray::new(Point::zero(), Point::zero());
    assert!(mat.scatter(&mut rng, &ray, &rec, &mut attenuation, &mut scattered));
    assert!(scattered.direction.x().eq_val(&rat(3, 5)));
    assert!(scattered.direction.z().eq_val(&rat(4, 5)));
    assert_eq!(attenuation, gray(9, 10));
}

#[test]
fn set_face_normal_orients_against_the_ray() {
    let ray = Ray::new(point(0, 0, 0), point(0, 0, -1));
    let mut rec = HitRecord::default();
    assert!(rec.set_face_normal(&ray, point(0, 0, 1)));
    assert!(rec.front_face);
    assert!(rec.normal.z().eq_val(&Rat::one()));
    assert!(rec.set_face_normal(&ray, point(0, 0, -1)));
    assert!(!rec.front_face);
    assert!(rec.normal.z().eq_val(&Rat::one()));
}

#[test]
fn pinhole_camera_rays_ignore_the_lens_draw() {
    let cam = Camera::new(
        point(0, 0, 0),
        point(0, 0, -1),
        point(0, 1, 0),
        Rat::one(),
        Rat::one(),
        Rat::zero(),
        Rat::one(),
    )
    .unwrap();
    let mut rng_a = seed_rng(100);
    let mut rng_b = seed_rng(200);
    let r1 = cam.get_ray(&mut rng_a, &rat(1, 2), &rat(1, 2)).unwrap();
    let r2 = cam.get_ray(&mut rng_b, &rat(1, 2), &rat(1, 2)).unwrap();
    assert_eq!(r1, r2);
    // The centered ray of this symmetric camera points straight ahead.
    assert!(r1.direction.x().eq_val(&Rat::zero()));
    assert!(r1.direction.y().eq_val(&Rat::zero()));
    assert!(r1.direction.z().eq_val(&Rat::from_int(-1)));
}

#[test]
fn camera_frame_is_the_expected_one() {
    let cam = Camera::new(
        point(0, 0, 0),
        point(0, 0, -1),
        point(0, 1, 0),
        Rat::one(),
        Rat::one(),
        Rat::zero(),
        Rat::one(),
    )
    .unwrap();
    assert!(cam.w.z().eq_val(&Rat::one()));
    assert!(cam.u.x().eq_val(&Rat::one()));
    assert!(cam.v.y().eq_val(&Rat::one()));
    assert!(cam.horizontal.x().eq_val(&Rat::from_int(2)));
    assert!(cam.vertical.y().eq_val(&Rat::from_int(2)));
    assert!(cam.lens_radius.eq_val(&Rat::zero()));
}

#[test]
fn sampling_stays_in_range() {
    let mut rng = seed_rng(8);
    for _ in 0..16 {
        let p = Point::random_in_unit_sphere(&mut rng).unwrap();
        let ls = p.length_squared().unwrap();
        assert!(ls.lt(&Rat::one()));
        let c = Pixel::random(&mut rng);
        assert!(!c.r.lt(&Rat::zero()) && c.r.lt(&Rat::one()));
        let banded = Pixel::random_range(&mut rng, &rat(1, 2), &Rat::one()).unwrap();
        assert!(!banded.g.lt(&rat(1, 2)) && banded.g.lt(&Rat::one()));
        let u = Point::random_unit_vector(&mut rng).unwrap();
        let uls = u.length_squared().unwrap();
        // Normalization by a floor square root lands at or just above one.
        assert!(!uls.lt(&Rat::one()));
        let d = Point::random_in_unit_disk(&mut rng).unwrap();
        assert_eq!(d.z.num, 0);
        assert!(d.length_squared().unwrap().lt(&Rat::one()));
    }
}

#[test]
fn renders_are_reproducible_and_row_independent() {
    let mut world = HittableList::default();
    world.add(Sphere::new(point(0, 0, -1), rat(1, 2), Material::Lambertian {
        albedo: gray(1, 2),
    }));
    let cam = Camera::new(
        point(0, 0, 0),
        point(0, 0, -1),
        point(0, 1, 0),
        Rat::one(),
        Rat::one(),
        Rat::zero(),
        Rat::one(),
    )
    .unwrap();
    let image_a = render(&world, &cam, 6, 4, 2, 3, 42);
    let image_b = render(&world, &cam, 6, 4, 2, 3, 42);
    assert_eq!(image_a, image_b);
    // Rows rendered independently, in reverse order, assemble the same
    // buffer.
    let mut rows: Vec<Vec<Pixel>> = Vec::new();
    for row in (0..4).rev() {
        rows.push(render_row(&world, &cam, 6, 4, row, 2, 3, row_seed(42, row)));
    }
    rows.reverse();
    let assembled: Vec<Pixel> = rows.into_iter().flatten().collect();
    assert_eq!(assembled, image_a.pixels);
}

#[test]
fn quantization_gamma_corrects_and_clamps() {
    let ppm = PPM {
        width: 3,
        height: 1,
        pixels: vec![Pixel::black(), gray(1, 1), gray(1, 4)],
    };
    let bytes = ppm.data();
    assert_eq!(bytes.len(), 9);
    assert_eq!(&bytes[0..3], &[0, 0, 0]);
    assert_eq!(&bytes[3..6], &[255, 255, 255]);
    // sqrt(1/4) == 1/2, and 256 / 2 == 128.
    assert_eq!(&bytes[6..9], &[128, 128, 128]);
    // Values above one clamp to full brightness.
    let hot = PPM { width: 1, height: 1, pixels: vec![gray(9, 2)] };
    assert_eq!(hot.data(), vec![255, 255, 255]);
}

#[test]
fn ppm_new_is_black() {
    let ppm = PPM::new(4, 3);
    assert_eq!(ppm.pixels.len(), 12);
    assert!(ppm.pixels.iter().all(|p| p.r.num == 0 && p.g.num == 0 && p.b.num == 0));
}

#[test]
fn random_scene_has_ground_and_feature_spheres() {
    let mut rng = seed_rng(9);
    let world = random_scene(&mut rng);
    assert!(world.objects.len() >= 4);
    assert!(world.objects[0].radius.eq_val(&Rat::from_int(1000)));
    assert!(world.objects[0].center.y().eq_val(&Rat::from_int(-1000)));
    assert!(matches!(world.objects[0].material, Material::Lambertian { .. }));
    for s in &world.objects {
        assert!(s.radius.num > 0);
    }
    let n = world.objects.len();
    assert!(matches!(world.objects[n - 3].material, Material::Dielectric { .. }));
    assert!(matches!(world.objects[n - 2].material, Material::Lambertian { .. }));
    assert!(matches!(world.objects[n - 1].material, Material::Metal { .. }));
}

#[test]
fn cross_product_is_exact() {
    let x = point(1, 0, 0);
    let y = point(0, 1, 0);
    let c = x.cross(&y).unwrap();
    assert!(c.x().eq_val(&Rat::zero()));
    assert!(c.y().eq_val(&Rat::zero()));
    assert!(c.z().eq_val(&Rat::one()));
}

#[test]
fn scatter_lambertian_direction_is_normal_plus_sample() {
    let albedo = Pixel::new(rat(7, 10), rat(3, 10), rat(1, 10));
    let rec = HitRecord {
        point: point(0, 0, -1),
        normal: point(0, 0, 1),
        t: Rat::one(),
        front_face: true,
        material: Material::Lambertian { albedo },
    };
    let w = point(0, 1, 0);
    let (att, scattered) = Material::scatter_lambertian(&albedo, &rec, &w).unwrap();
    assert_eq!(att, albedo);
    assert_eq!(scattered.origin, rec.point);
    assert!(scattered.direction.x().eq_val(&Rat::zero()));
    assert!(scattered.direction.y().eq_val(&Rat::one()));
    assert!(scattered.direction.z().eq_val(&Rat::one()));
}

#[test]
fn scatter_metal_rejects_exactly_on_grazing() {
    let albedo = gray(9, 10);
    let fuzz = rat(1, 2);
    let rec = HitRecord {
        point: point(0, 0, 0),
        normal: point(0, 0, 1),
        t: Rat::one(),
        front_face: true,
        material: Material::Metal { albedo, fuzz },
    };
    // Grazing incidence: the reflection stays in the surface plane, so
    // even a zero fuzz sample leaves the dot at zero and the ray is
    // absorbed.
    let grazing = Ray::new(point(-1, 0, 0), point(1, 0, 0));
    assert!(Material::scatter_metal(&albedo, &fuzz, &grazing, &rec, &Point::zero()).is_none());
    // Ordinary incidence with sample (1/2, 0, 0): the fuzzed reflection is
    // the mirror direction plus fuzz times the sample.
    let ray = Ray::new(point(0, 0, 1), Point::new(rat(3, 5), Rat::zero(), rat(-4, 5)));
    let b = Point::new(rat(1, 2), Rat::zero(), Rat::zero());
    let (att, scattered) = Material::scatter_metal(&albedo, &fuzz, &ray, &rec, &b).unwrap();
    assert_eq!(att, albedo);
    assert!(scattered.direction.x().eq_val(&rat(17, 20)));
    assert!(scattered.direction.y().eq_val(&Rat::zero()));
    assert!(scattered.direction.z().eq_val(&rat(4, 5)));
}

#[test]
fn scatter_dielectric_draw_selects_the_branch() {
    // Normal incidence on glass entering from outside: the Schlick
    // reflectance is exactly 1/25.
    let ref_idx = rat(3, 2);
    let rec = HitRecord {
        point: point(0, 0, -1),
        normal: point(0, 0, 1),
        t: Rat::one(),
        front_face: true,
        material: Material::Dielectric { ref_idx },
    };
    let ray = Ray::new(point(0, 0, 0), point(0, 0, -1));
    // A draw below 1/25 reflects.
    let (att, refl) = Material::scatter_dielectric(&ref_idx, &ray, &rec, &rat(1, 26)).unwrap();
    assert!(att.r.eq_val(&Rat::one()));
    assert!(refl.direction.z().eq_val(&Rat::one()));
    // A draw at or above 1/25 refracts; at normal incidence the direction
    // passes straight through.
    let (_, refr) = Material::scatter_dielectric(&ref_idx, &ray, &rec, &rat(1, 2)).unwrap();
    assert!(refr.direction.x().eq_val(&Rat::zero()));
    assert!(refr.direction.y().eq_val(&Rat::zero()));
    assert!(refr.direction.z().eq_val(&Rat::from_int(-1)));
}

#[test]
fn dielectric_tir_reflects_for_every_draw() {
    // Leaving the glass at a grazing angle: ratio 3/2, sin 4/5, product
    // above one, so both extreme draws take the reflection.
    let ref_idx = rat(3, 2);
    let rec = HitRecord {
        point: point(0, 0, 0),
        normal: point(0, 0, -1),
        t: Rat::one(),
        front_face: false,
        material: Material::Dielectric { ref_idx },
    };
    let ray = Ray::new(point(0, 0, 0), Point::new(rat(4, 5), Rat::zero(), rat(3, 5)));
    for draw in [Rat::zero(), rat(255, 256)] {
        let (_, scattered) = Material::scatter_dielectric(&ref_idx, &ray, &rec, &draw).unwrap();
        assert!(scattered.direction.x().eq_val(&rat(4, 5)));
        assert!(scattered.direction.z().eq_val(&rat(-3, 5)));
    }
}

#[test]
fn camera_with_a_degenerate_frame_is_none() {
    // Coincident look points: no view direction.
    assert!(Camera::new(
        point(1, 2, 3),
        point(1, 2, 3),
        point(0, 1, 0),
        Rat::one(),
        Rat::one(),
        Rat::zero(),
        Rat::one(),
    )
    .is_none());
    // An up vector parallel to the view direction: no horizontal frame.
    assert!(Camera::new(
        point(0, 0, 0),
        point(0, 1, 0),
        point(0, 1, 0),
        Rat::one(),
        Rat::one(),
        Rat::zero(),
        Rat::one(),
    )
    .is_none());
}

#[test]
fn ray_color_missing_a_nonempty_scene_is_the_gradient() {
    let mut rng = seed_rng(11);
    let mut world = HittableList::default();
    world.add(Sphere::new(point(5, 0, -3), Rat::one(), Material::Lambertian {
        albedo: gray(1, 2),
    }));
    // Straight up misses the off-axis sphere: pure sky blue.
    let up = Ray::new(point(0, 0, 0), point(0, 1, 0));
    let c = ray_color(&up, &world, 5, &mut rng);
    assert!(c.r.eq_val(&rat(2, 5)));
    assert!(c.g.eq_val(&rat(1, 2)));
    assert!(c.b.eq_val(&Rat::one()));
}

#[test]
fn random_scene_members_have_the_stated_shapes() {
    let mut rng = seed_rng(10);
    let world = random_scene(&mut rng);
    let n = world.objects.len();
    assert!((4..=488).contains(&n));
    // The ground sphere.
    let ground = &world.objects[0];
    assert!(ground.center.x().eq_val(&Rat::zero()));
    assert!(ground.center.y().eq_val(&Rat::from_int(-1000)));
    assert!(ground.radius.eq_val(&Rat::from_int(1000)));
    match ground.material {
        Material::Lambertian { albedo } => {
            assert!(albedo.r.eq_val(&rat(1, 2)));
            assert!(albedo.g.eq_val(&rat(1, 2)));
            assert!(albedo.b.eq_val(&rat(1, 2)));
        },
        _ => panic!("ground must be diffuse"),
    }
    // The three feature spheres.
    assert!(world.objects[n - 3].center.x().eq_val(&Rat::zero()));
    match world.objects[n - 3].material {
        Material::Dielectric { ref_idx } => assert!(ref_idx.eq_val(&rat(3, 2))),
        _ => panic!("first feature sphere must be glass"),
    }
    assert!(world.objects[n - 2].center.x().eq_val(&Rat::from_int(-4)));
    match world.objects[n - 2].material {
        Material::Lambertian { albedo } => {
            assert!(albedo.r.eq_val(&rat(9, 10)));
            assert!(albedo.g.eq_val(&rat(1, 5)));
            assert!(albedo.b.eq_val(&rat(1, 10)));
        },
        _ => panic!("second feature sphere must be diffuse"),
    }
    assert!(world.objects[n - 1].center.x().eq_val(&Rat::from_int(4)));
    match world.objects[n - 1].material {
        Material::Metal { albedo, fuzz } => {
            assert!(albedo.r.eq_val(&rat(7, 10)));
            assert!(fuzz.eq_val(&Rat::zero()));
        },
        _ => panic!("third feature sphere must be metal"),
    }
    // Every grid member: fixed radius and height, inside the grid square,
    // clear of the metal anchor, parameters inside the drawn ranges.
    let anchor = Point::new(Rat::from_int(4), rat(1, 5), Rat::zero());
    let nine_tenths = rat(9, 10);
    for s in &world.objects[1..n - 3] {
        assert!(s.radius.eq_val(&rat(1, 5)));
        assert!(s.center.y().eq_val(&rat(1, 5)));
        assert!(!s.center.x().lt(&Rat::from_int(-11)));
        assert!(s.center.x().lt(&Rat::from_int(11)));
        assert!(!s.center.z().lt(&Rat::from_int(-11)));
        assert!(s.center.z().lt(&Rat::from_int(11)));
        let dist = s.center.sub(&anchor).unwrap().length().unwrap();
        assert!(nine_tenths.lt(&dist));
        match s.material {
            Material::Lambertian { albedo } => {
                assert!(!albedo.r.lt(&Rat::zero()) && albedo.r.lt(&Rat::one()));
            },
            Material::Metal { albedo, fuzz } => {
                assert!(!albedo.g.lt(&rat(1, 2)) && albedo.g.lt(&Rat::one()));
                assert!(!fuzz.lt(&Rat::zero()) && fuzz.lt(&rat(1, 2)));
            },
            Material::Dielectric { ref_idx } => {
                assert!(!ref_idx.lt(&rat(13, 10)) && ref_idx.lt(&rat(9, 5)));
            },
        }
    }
}

#[test]
fn schlick_reflectance_matches_the_formula() {
    // cos == 1: no reflection regardless of index.
    let r = Material::reflectance(&Rat::one(), &rat(3, 2)).unwrap();
    assert!(r.eq_val(&rat(1, 25)));
    // cos == 0: r0 + (1 - r0) == 1.
    let r0 = Material::reflectance(&Rat::zero(), &rat(3, 2)).unwrap();
    assert!(r0.eq_val(&Rat::one()));
}

#[test]
fn ray_at_walks_the_direction() {
    let ray = Ray::new(point(1, 2, 3), point(0, 0, -2));
    let p = ray.at(&rat(3, 2)).unwrap();
    assert!(p.x().eq_val(&Rat::one()));
    assert!(p.y().eq_val(&Rat::from_int(2)));
    assert!(p.z().eq_val(&Rat::zero()));
}
