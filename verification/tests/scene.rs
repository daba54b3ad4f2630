use raytracer::colour::Colour;
use raytracer::intersection::hit;
use raytracer::intersection::hit_index;
use raytracer::intersection::is_shadowed;
use raytracer::intersection::orient_normal;
use raytracer::intersection::sort_intersections;
use raytracer::intersection::Intersection;
use raytracer::light::Light;
use raytracer::materials::has_highlight;
use raytracer::materials::is_lit;
use raytracer::materials::Material;
use raytracer::matrix::Matrix;
use raytracer::refraction::refractive_indices;
use raytracer::scalar::Scalar;
use raytracer::shape::reset_sphere_counter;
use raytracer::shape::Plane;
use raytracer::shape::Shape;
use raytracer::shape::Sphere;
use raytracer::shape::SphereCounter;
use raytracer::shape_registry::ShapeRegistry;
use raytracer::tuple::Tuple;
use raytracer::world::reflected_colour;
use raytracer::world::World;
use raytracer::world::MAX_BOUNCES;

fn s(x: f64) -> Scalar {
    Scalar::from_bits(x.to_bits())
}

fn f(x: Scalar) -> f64 {
    f64::from_bits(x.to_bits())
}

fn point(x: f64, y: f64, z: f64) -> Tuple {
    Tuple::point(s(x), s(y), s(z))
}

fn vector(x: f64, y: f64, z: f64) -> Tuple {
    Tuple::vector(s(x), s(y), s(z))
}

fn colour(r: f64, g: f64, b: f64) -> Colour {
    Colour::new(s(r), s(g), s(b))
}

fn entries(m: &Matrix) -> Vec<Vec<f64>> {
    (0..m.rows()).map(|r| (0..m.cols()).map(|c| f(m.at(r, c))).collect()).collect()
}

fn at(t: f64, object_id: u32) -> Intersection {
    Intersection { t: s(t), object_id }
}

fn ts(xs: &[Intersection]) -> Vec<(f64, u32)> {
    xs.iter().map(|x| (f(x.t), x.object_id)).collect()
}

fn glass(refractive_index: f64) -> Shape {
    let mut sphere = Sphere::glass();
    sphere.data.material.refractive_index = s(refractive_index);
    Shape::Sphere(sphere)
}

#[test]
fn default_material() {
    let m = Material::new();

    assert_eq!(m.colour, colour(1.0, 1.0, 1.0));
    assert_eq!(f(m.ambient), 0.1);
    assert_eq!(f(m.diffuse), 0.9);
    assert_eq!(f(m.specular), 0.9);
    assert_eq!(f(m.shininess), 200.0);
    assert!(m.pattern.is_none());
}

#[test]
fn reflectivity_for_default_material() {
    let m = Material::new();
    assert_eq!(f(m.reflective), 0.0);
}

#[test]
fn transparency_for_default_material() {
    let m = Material::new();
    assert_eq!(f(m.transparency), 0.0);
}

#[test]
fn refractive_index_for_default_material() {
    let m = Material::new();
    assert_eq!(f(m.refractive_index), 1.0);
}

#[test]
fn material_getters_and_setters() {
    let mut m = Material::new();
    m.set_colour(colour(0.2, 0.3, 0.4));
    m.set_ambient(s(0.5));
    m.set_diffuse(s(0.6));
    m.set_specular(s(0.7));
    m.set_shininess(s(10.0));
    assert_eq!(*m.colour(), colour(0.2, 0.3, 0.4));
    assert_eq!(f(m.ambient()), 0.5);
    assert_eq!(f(m.diffuse()), 0.6);
    assert_eq!(f(m.specular()), 0.7);
    assert_eq!(f(m.shininess()), 10.0);
    assert_eq!(f(m.reflective), 0.0);
    assert!(m.pattern().is_none());
}

#[test]
fn point_light_has_position_and_intensity() {
    let intensity = colour(1.0, 1.0, 1.0);
    let position = point(0.0, 0.0, 0.0);
    let light = Light::point_light(position, intensity);

    assert_eq!(light.position, position);
    assert_eq!(light.intensity, intensity);
}

#[test]
fn shape_sphere_has_default_material() {
    let s = Sphere::new();
    let m = s.data.material;
    let default = Material::new();

    assert_eq!(m.colour, default.colour);
    assert_eq!(m.ambient, default.ambient);
    assert_eq!(m.diffuse, default.diffuse);
    assert_eq!(m.specular, default.specular);
    assert_eq!(m.shininess, default.shininess);
}

#[test]
fn shape_sphere_may_be_assigned_material() {
    let mut sphere = Shape::Sphere(Sphere::new());
    let mut m = Material::new();
    m.ambient = s(1.0);
    sphere.set_material(m);

    assert_eq!(f(sphere.material().ambient), 1.0);
}

#[test]
fn sphere_sphere_has_default_material() {
    let s = Sphere::new();
    let m = s.data.material;
    let default = Material::new();

    assert_eq!(m.colour, default.colour);
    assert_eq!(m.ambient, default.ambient);
    assert_eq!(m.diffuse, default.diffuse);
    assert_eq!(m.specular, default.specular);
    assert_eq!(m.shininess, default.shininess);
}

#[test]
fn sphere_sphere_may_be_assigned_material() {
    let mut sphere = Shape::Sphere(Sphere::new());
    let mut m = Material::new();
    m.ambient = s(1.0);
    sphere.set_material(m);

    assert_eq!(f(sphere.material().ambient), 1.0);
}

#[test]
fn glassy_sphere_has_expected_properties() {
    let sphere = Shape::Sphere(Sphere::glass());
    assert_eq!(f(sphere.material().transparency), 1.0);
    assert_eq!(f(sphere.material().refractive_index), 1.5);
    assert_eq!(f(sphere.material().reflective), 0.0);
    assert_eq!(f(sphere.material().ambient), 0.1);
}

#[test]
fn a_new_shape_has_the_identity_transform() {
    let sphere = Shape::Sphere(Sphere::new());
    assert_eq!(sphere.id(), 0);
    assert_eq!(entries(sphere.transform()), entries(&Matrix::identity()));
    assert_eq!(entries(sphere.inverse_transform()), entries(&Matrix::identity()));
    let plane = Shape::Plane(Plane::new());
    assert_eq!(entries(plane.transform()), entries(&Matrix::identity()));
    assert_eq!(f(plane.material().diffuse), 0.9);
}

#[test]
fn setting_the_transform_keeps_the_rest() {
    let mut plane = Shape::Plane(Plane::new());
    plane.set_id(7);
    plane.set_transform(
        Matrix::translation(s(0.0), s(1.0), s(0.0)),
        Matrix::translation(s(0.0), s(-1.0), s(0.0)),
    );
    assert_eq!(plane.id(), 7);
    assert_eq!(f(plane.transform().at(1, 3)), 1.0);
    assert_eq!(f(plane.inverse_transform().at(1, 3)), -1.0);
    assert_eq!(f(plane.data().material.shininess), 200.0);
    assert!(matches!(plane, Shape::Plane(_)));
}

#[test]
fn normal_of_plane_is_constant_everywhere() {
    let p = Plane::new();
    let n1 = p.local_normal_at(&point(0.0, 0.0, 0.0));
    let n2 = p.local_normal_at(&point(10.0, 0.0, -10.0));
    let n3 = p.local_normal_at(&point(-5.0, 0.0, 150.0));

    assert_eq!(n1, vector(0.0, 1.0, 0.0));
    assert_eq!(n2, vector(0.0, 1.0, 0.0));
    assert_eq!(n3, vector(0.0, 1.0, 0.0));
}

#[test]
fn local_normal_of_a_sphere_on_the_x_axis() {
    let sphere = Sphere::new();
    let n = sphere.local_normal_at(&point(1.0, 0.0, 0.0));

    assert_eq!(n, vector(1.0, 0.0, 0.0));
}

#[test]
fn local_normal_of_a_sphere_on_the_y_axis() {
    let sphere = Sphere::new();
    let n = sphere.local_normal_at(&point(0.0, 1.0, 0.0));

    assert_eq!(n, vector(0.0, 1.0, 0.0));
}

#[test]
fn local_normal_of_a_sphere_on_the_z_axis() {
    let sphere = Sphere::new();
    let n = sphere.local_normal_at(&point(0.0, 0.0, 1.0));

    assert_eq!(n, vector(0.0, 0.0, 1.0));
}

#[test]
fn local_normal_of_a_sphere_off_the_axes() {
    let sphere = Shape::Sphere(Sphere::new());
    let sqrt_3_div_3 = (3.0_f64).sqrt() / 3.0;
    let n = sphere.local_normal_at(&point(sqrt_3_div_3, sqrt_3_div_3, sqrt_3_div_3));

    assert_eq!(n, vector(sqrt_3_div_3, sqrt_3_div_3, sqrt_3_div_3));
    assert!(n.is_vector());
    let local = point(-0.0, 2.5, -7.0);
    let difference = vector(f(local.x) - 0.0, f(local.y) - 0.0, f(local.z) - 0.0);
    let n = sphere.local_normal_at(&local);
    assert_eq!(
        (n.x.to_bits(), n.y.to_bits(), n.z.to_bits(), n.w.to_bits()),
        (
            difference.x.to_bits(),
            difference.y.to_bits(),
            difference.z.to_bits(),
            (f(local.w) - 1.0).to_bits()
        )
    );
    let plane = Shape::Plane(Plane::new());
    assert_eq!(plane.local_normal_at(&local), vector(0.0, 1.0, 0.0));
}

#[test]
fn a_ray_along_the_plane_is_parallel_to_it() {
    let direction = vector(0.0, 0.0, 1.0);
    assert!(Plane::is_parallel(direction.y));
}

#[test]
fn a_ray_in_the_plane_is_parallel_to_it() {
    let direction = vector(0.0, 0.0, 1.0);
    assert!(Plane::is_parallel(direction.y));
    assert!(Plane::is_parallel(s(-0.0)));
}

#[test]
fn a_ray_is_parallel_to_a_plane_below_the_tolerance() {
    let tolerance = f64::EPSILON * 50000.0;
    assert_eq!(raytracer::shape::PARALLEL_BITS, tolerance.to_bits());
    assert!(!Plane::is_parallel(s(tolerance)));
    assert!(!Plane::is_parallel(s(-tolerance)));
    assert!(Plane::is_parallel(s(tolerance * 0.999)));
    assert!(Plane::is_parallel(s(-tolerance * 0.999)));
    assert!(!Plane::is_parallel(s(-1.0)));
    assert!(!Plane::is_parallel(s(1.0)));
    assert!(!Plane::is_parallel(s(f64::NAN)));
}

#[test]
fn a_ray_misses_a_sphere_on_a_negative_discriminant() {
    assert!(Sphere::misses(s(-12.0)));
    assert!(!Sphere::misses(s(0.0)));
    assert!(!Sphere::misses(s(-0.0)));
    assert!(!Sphere::misses(s(16.0)));
    assert!(!Sphere::misses(s(f64::NAN)));
}

#[test]
fn the_sphere_counter_counts_and_starts_again() {
    let mut counter = SphereCounter::new();
    assert_eq!(counter.next_id(), 0);
    assert_eq!(counter.next_id(), 1);
    assert_eq!(counter.next_id(), 2);
    reset_sphere_counter(&mut counter);
    assert_eq!(counter.next_id(), 0);
    assert_eq!(counter.next_id(), 1);
    let first = Sphere::numbered(&mut counter);
    let second = Sphere::numbered(&mut counter);
    assert_eq!((first.data.id, second.data.id), (2, 3));
    assert_eq!(f(second.data.material.ambient), 0.1);
    reset_sphere_counter(&mut counter);
    assert_eq!(Sphere::numbered(&mut counter).data.id, 0);
}

#[test]
fn registry_can_store_and_retrieve_sphere() {
    let mut registry = ShapeRegistry::new();
    let sphere = Shape::Sphere(Sphere::new());
    let id = sphere.id();

    registry.register(sphere);
    let retrieved = registry.get(id);

    assert!(retrieved.is_some());
    assert_eq!(retrieved.unwrap().id(), id);
}

#[test]
fn registry_returns_none_for_nonexistent_id() {
    let registry = ShapeRegistry::new();
    let result = registry.get(999);

    assert!(result.is_none());
}

#[test]
fn the_registry_numbers_shapes_in_the_order_they_come() {
    let mut registry = ShapeRegistry::new();
    assert!(registry.is_empty());
    assert!(registry.has_room());
    let mut late = Sphere::new();
    late.data.id = 40;
    assert_eq!(registry.register(glass(1.5)), 0);
    assert_eq!(registry.register(Shape::Plane(Plane::new())), 1);
    assert_eq!(registry.register(Shape::Sphere(late)), 2);
    assert_eq!(registry.len(), 3);
    assert!(!registry.is_empty());
    assert_eq!(registry.get(2).unwrap().id(), 2);
    assert!(registry.get(40).is_none());
    assert!(registry.get(3).is_none());
    assert!(matches!(registry.get(1), Some(Shape::Plane(_))));
    assert!(matches!(registry.get_by_index(0), Some(Shape::Sphere(_))));
    assert!(registry.get_by_index(3).is_none());
    let ids: Vec<u32> = registry.iter().iter().map(|shape| shape.id()).collect();
    assert_eq!(ids, vec![0, 1, 2]);
    let all: Vec<u32> = registry.get_all_spheres().iter().map(|shape| shape.id()).collect();
    assert_eq!(all, vec![0, 1, 2]);
    assert_eq!(f(registry.get(0).unwrap().material().refractive_index), 1.5);
}

#[test]
fn the_registry_finds_the_first_shape_that_fits() {
    let mut registry = ShapeRegistry::new();
    registry.register(glass(1.5));
    registry.register(glass(2.0));
    registry.register(glass(2.0));
    let found = registry.find_sphere(|shape: &Shape| f(shape.material().refractive_index) == 2.0);
    assert_eq!(found.unwrap().id(), 1);
    let none = registry.find_sphere(|shape: &Shape| f(shape.material().refractive_index) == 3.0);
    assert!(none.is_none());
}

#[test]
fn intersection_encapsulates_t_and_object() {
    let sphere = Shape::Sphere(Sphere::new());
    let i = Intersection::new(s(3.5), &sphere);

    assert_eq!(f(i.t), 3.5);
    assert_eq!(i.object_id, sphere.data().id);
}

#[test]
fn aggregating_intersections() {
    let sphere = Shape::Sphere(Sphere::new());
    let i1 = Intersection::new(s(1.0), &sphere);
    let i2 = Intersection::new(s(2.0), &sphere);
    let xs = vec![i1, i2];

    assert_eq!(xs.len(), 2);
    assert_eq!(f(xs[0].t), 1.0);
    assert_eq!(f(xs[1].t), 2.0);
}

#[test]
fn hit_when_all_intersections_have_positive_t() {
    let sphere = Shape::Sphere(Sphere::new());
    let i1 = Intersection::new(s(1.0), &sphere);
    let i2 = Intersection::new(s(2.0), &sphere);
    let xs = vec![i2.clone(), i1.clone()];
    let i = hit(&xs);

    assert_eq!(i, Some(&i1));
}

#[test]
fn hit_when_some_intersections_have_negative_t() {
    let sphere = Shape::Sphere(Sphere::new());
    let i1 = Intersection::new(s(-1.0), &sphere);
    let i2 = Intersection::new(s(1.0), &sphere);
    let xs = vec![i2.clone(), i1.clone()];
    let i = hit(&xs);

    assert_eq!(i, Some(&i2));
}

#[test]
fn hit_when_all_intersections_have_negative_t() {
    let sphere = Shape::Sphere(Sphere::new());
    let i1 = Intersection::new(s(-2.0), &sphere);
    let i2 = Intersection::new(s(-1.0), &sphere);
    let xs = vec![i2.clone(), i1.clone()];
    let i = hit(&xs);

    assert_eq!(i, None);
}

#[test]
fn hit_is_always_lowest_nonnegative_intersection() {
    let sphere = Shape::Sphere(Sphere::new());
    let i1 = Intersection::new(s(5.0), &sphere);
    let i2 = Intersection::new(s(7.0), &sphere);
    let i3 = Intersection::new(s(-3.0), &sphere);
    let i4 = Intersection::new(s(2.0), &sphere);
    let xs = vec![i1.clone(), i2.clone(), i3.clone(), i4.clone()];
    let i = hit(&xs);

    assert_eq!(i, Some(&i4));
    assert_eq!(hit_index(&xs), Some(3));
}

#[test]
fn the_hit_is_the_first_of_equal_intersections() {
    let xs = vec![at(4.0, 2), at(1.0, 5), at(-0.0, 1), at(1.0, 6), at(0.0, 3), at(f64::NAN, 9)];
    assert_eq!(hit_index(&xs), Some(2));
    assert_eq!(hit(&xs).unwrap().object_id, 1);
    let ys = vec![at(f64::NAN, 0), at(1.0, 5), at(1.0, 6)];
    assert_eq!(hit_index(&ys), Some(1));
    assert_eq!(hit_index(&[]), None);
    assert_eq!(hit_index(&[at(f64::NAN, 0), at(-1.0, 1), at(f64::NEG_INFINITY, 2)]), None);
    assert_eq!(hit_index(&[at(f64::INFINITY, 0)]), Some(0));
}

#[test]
fn a_normal_that_faces_the_eye_is_kept() {
    let normal = vector(0.0, 0.0, -1.0);
    let eyev = vector(0.0, 0.0, -1.0);
    let dot = f(normal.x) * f(eyev.x) + f(normal.y) * f(eyev.y) + f(normal.z) * f(eyev.z);
    let (normalv, inside) = orient_normal(normal, s(dot));

    assert_eq!(inside, false);
    assert_eq!(normalv, vector(0.0, 0.0, -1.0));
}

#[test]
fn a_normal_that_faces_away_from_the_eye_is_turned() {
    let normal = vector(0.0, 0.0, 1.0);
    let eyev = vector(0.0, 0.0, -1.0);
    let dot = f(normal.x) * f(eyev.x) + f(normal.y) * f(eyev.y) + f(normal.z) * f(eyev.z);
    let (normalv, inside) = orient_normal(normal, s(dot));

    assert_eq!(inside, true);
    // normal would have been (0, 0, 1), but is inverted!
    assert_eq!(normalv, vector(0.0, 0.0, -1.0));
}

#[test]
fn a_normal_at_a_right_angle_to_the_eye_is_kept() {
    let normal = vector(0.0, 1.0, 0.0);
    assert_eq!(orient_normal(normal, s(0.0)), (normal, false));
    assert_eq!(orient_normal(normal, s(-0.0)), (normal, false));
    let (kept, inside) = orient_normal(normal, s(f64::NAN));
    assert_eq!((kept, inside), (normal, false));
    assert_eq!(orient_normal(normal, s(-1e-300)), (vector(-0.0, -1.0, -0.0), true));
}

#[test]
fn sorting_puts_intersections_in_ascending_order() {
    let xs = vec![at(5.0, 0), at(7.0, 0), at(-3.0, 1), at(2.0, 1)];
    let sorted = sort_intersections(xs);
    assert_eq!(ts(&sorted), vec![(-3.0, 1), (2.0, 1), (5.0, 0), (7.0, 0)]);
    assert_eq!(ts(&sort_intersections(vec![])), vec![]);
    assert_eq!(ts(&sort_intersections(vec![at(1.0, 3)])), vec![(1.0, 3)]);
}

#[test]
fn sorting_keeps_the_order_of_equal_intersections() {
    let xs = vec![at(4.0, 0), at(1.0, 1), at(4.0, 2), at(1.0, 3), at(0.0, 4), at(-0.0, 5), at(4.0, 6)];
    let sorted = sort_intersections(xs);
    let ids: Vec<u32> = sorted.iter().map(|x| x.object_id).collect();
    assert_eq!(ids, vec![4, 5, 1, 3, 0, 2, 6]);
    let ys = vec![at(f64::INFINITY, 0), at(f64::NEG_INFINITY, 1), at(1e300, 2), at(-1e-320, 3)];
    let ids: Vec<u32> = sort_intersections(ys).iter().map(|x| x.object_id).collect();
    assert_eq!(ids, vec![1, 3, 2, 0]);
}

#[test]
fn sorting_agrees_with_the_standard_stable_sort() {
    let mut seed: u64 = 0x9E37_79B9_7F4A_7C15;
    for round in 0..50 {
        let mut xs = Vec::new();
        for k in 0..(round % 17) {
            seed = seed.wrapping_mul(6364136223846793005).wrapping_add(1442695040888963407);
            let t = ((seed >> 33) % 7) as f64 - 3.0;
            xs.push(at(t, k as u32));
        }
        let mut expected = xs.clone();
        expected.sort_by(|a, b| f(a.t).partial_cmp(&f(b.t)).unwrap());
        assert_eq!(ts(&sort_intersections(xs)), ts(&expected));
    }
}

#[test]
fn nothing_on_the_way_to_the_light_casts_no_shadow() {
    assert_eq!(is_shadowed(&[], s(14.0)), false);
}

#[test]
fn a_surface_before_the_light_casts_a_shadow() {
    let xs = vec![at(16.32, 0), at(18.32, 0), at(16.82, 1), at(17.82, 1)];
    assert_eq!(is_shadowed(&xs, s(34.64)), true);
}

#[test]
fn a_surface_behind_the_light_casts_no_shadow() {
    let xs = vec![at(16.32, 0), at(18.32, 0)];
    assert_eq!(is_shadowed(&xs, s(14.0)), false);
}

#[test]
fn a_surface_behind_the_point_casts_no_shadow() {
    let xs = vec![at(-5.5, 0), at(-3.5, 0)];
    assert_eq!(is_shadowed(&xs, s(14.0)), false);
}

#[test]
fn a_surface_at_the_light_casts_no_shadow() {
    assert_eq!(is_shadowed(&[at(14.0, 0)], s(14.0)), false);
    assert_eq!(is_shadowed(&[at(13.999, 0)], s(14.0)), true);
    assert_eq!(is_shadowed(&[at(-1.0, 0), at(20.0, 0), at(3.0, 1)], s(14.0)), true);
    assert_eq!(is_shadowed(&[at(3.0, 1)], s(f64::NAN)), false);
    assert_eq!(is_shadowed(&[at(0.0, 1)], s(1e-300)), true);
}

#[test]
fn finding_n1_and_n2_at_various_intersections() {
    let mut registry = ShapeRegistry::new();

    // A ← glass_sphere() with transform: scaling(2,2,2), refractive_index: 1.5
    let mut a = glass(1.5);
    a.set_transform(Matrix::scaling(s(2.0), s(2.0), s(2.0)), Matrix::scaling(s(0.5), s(0.5), s(0.5)));
    let a_id = registry.register(a);

    // B ← glass_sphere() with transform: translation(0,0,-0.25), refractive_index: 2.0
    let mut b = glass(2.0);
    b.set_transform(
        Matrix::translation(s(0.0), s(0.0), s(-0.25)),
        Matrix::translation(s(0.0), s(0.0), s(0.25)),
    );
    let b_id = registry.register(b);

    // C ← glass_sphere() with transform: translation(0,0,0.25), refractive_index: 2.5
    let mut c = glass(2.5);
    c.set_transform(
        Matrix::translation(s(0.0), s(0.0), s(0.25)),
        Matrix::translation(s(0.0), s(0.0), s(-0.25)),
    );
    let c_id = registry.register(c);

    // Get registered objects (with correct ids)
    let a = registry.get(a_id).unwrap();
    let b = registry.get(b_id).unwrap();
    let c = registry.get(c_id).unwrap();

    // xs ← intersections(2:A, 2.75:B, 3.25:C, 4.75:B, 5.25:C, 6:A)
    let xs = vec![
        Intersection::new(s(2.0), a),
        Intersection::new(s(2.75), b),
        Intersection::new(s(3.25), c),
        Intersection::new(s(4.75), b),
        Intersection::new(s(5.25), c),
        Intersection::new(s(6.0), a),
    ];

    // Table of (index, expected_n1, expected_n2)
    let test_cases = vec![
        (0, 1.0, 1.5),
        (1, 1.5, 2.0),
        (2, 2.0, 2.5),
        (3, 2.5, 2.5),
        (4, 2.5, 1.5),
        (5, 1.5, 1.0),
    ];

    for (index, expected_n1, expected_n2) in test_cases {
        let (n1, n2) = refractive_indices(&xs, index, &registry).unwrap();
        assert_eq!(f(n1), expected_n1, "Failed at index {}: n1", index);
        assert_eq!(f(n2), expected_n2, "Failed at index {}: n2", index);
    }
}

#[test]
fn overlapping_solids_are_replayed_as_if_nested() {
    let mut registry = ShapeRegistry::new();
    let a = registry.register(glass(1.5));
    let b = registry.register(glass(2.0));
    // The ray enters A, enters B, leaves A and leaves B.
    let xs = vec![at(1.0, a), at(2.0, b), at(3.0, a), at(4.0, b)];
    let found: Vec<(f64, f64)> = (0..4)
        .map(|k| refractive_indices(&xs, k, &registry).unwrap())
        .map(|(n1, n2)| (f(n1), f(n2)))
        .collect();
    assert_eq!(found, vec![(1.0, 1.5), (1.5, 2.0), (2.0, 2.0), (2.0, 1.0)]);
}

#[test]
fn an_intersection_with_an_unknown_shape_gives_no_indices() {
    let mut registry = ShapeRegistry::new();
    let a = registry.register(glass(1.5));
    let xs = vec![at(1.0, a), at(2.0, 17), at(3.0, a)];
    assert_eq!(refractive_indices(&xs, 0, &registry).map(|(n1, n2)| (f(n1), f(n2))), Some((1.0, 1.5)));
    assert!(refractive_indices(&xs, 1, &registry).is_none());
    assert!(refractive_indices(&xs, 2, &registry).is_none());
    let empty = ShapeRegistry::new();
    assert!(refractive_indices(&xs, 0, &empty).is_none());
}

#[test]
fn created_world_has_no_objects_or_light() {
    let world = World::new();

    assert_eq!(world.registry.len(), 0);
    assert!(world.light.is_none());
}

#[test]
fn adding_an_object_registers_it() {
    let mut world = World::new();
    world.light = Some(Light::point_light(point(-10.0, 10.0, -10.0), colour(1.0, 1.0, 1.0)));
    assert_eq!(world.add_object(Shape::Sphere(Sphere::new())), 0);
    assert_eq!(world.add_object(Shape::Plane(Plane::new())), 1);
    assert_eq!(world.registry.len(), 2);
    assert!(matches!(world.registry.get(1), Some(Shape::Plane(_))));
    assert_eq!(world.light.unwrap().position, point(-10.0, 10.0, -10.0));
}

#[test]
fn a_ray_that_meets_nothing_is_black() {
    let mut world = World::new();
    world.add_object(Shape::Sphere(Sphere::new()));
    let c = world.colour_at(&[], |_: &Intersection, _: &Shape| colour(1.0, 1.0, 1.0));

    assert_eq!(c, colour(0.0, 0.0, 0.0));
}

#[test]
fn the_hit_is_shaded_with_its_shape() {
    let mut world = World::new();
    let outer = world.add_object(Shape::Sphere(Sphere::new()));
    let inner = world.add_object(glass(2.0));
    let xs = vec![at(-1.25, outer), at(-0.75, inner), at(0.25, inner), at(0.75, outer)];
    let c = world.colour_at(&xs, |h: &Intersection, shape: &Shape| {
        assert_eq!(f(h.t), 0.25);
        assert_eq!(shape.id(), inner);
        colour(f(shape.material().refractive_index), 0.0, 0.0)
    });

    assert_eq!(c, colour(2.0, 0.0, 0.0));
}

#[test]
fn a_hit_on_an_unknown_shape_is_black() {
    let mut world = World::new();
    world.add_object(Shape::Sphere(Sphere::new()));
    let xs = vec![at(3.0, 0), at(1.0, 5)];
    let c = world.colour_at(&xs, |_: &Intersection, _: &Shape| colour(1.0, 1.0, 1.0));
    assert_eq!(c, Colour::black());
    let all_behind = vec![at(-3.0, 0), at(-1.0, 0)];
    let c = world.colour_at(&all_behind, |_: &Intersection, _: &Shape| colour(1.0, 1.0, 1.0));
    assert_eq!(c, Colour::black());
}

#[test]
fn reflected_colour_for_nonreflective_material() {
    let mut mat = Material::new();
    mat.ambient = s(1.0);
    let color = reflected_colour(&mat, MAX_BOUNCES, |_: i32| colour(1.0, 1.0, 1.0));

    assert_eq!(color, colour(0.0, 0.0, 0.0));
    let mut negative_zero = Material::new();
    negative_zero.reflective = s(-0.0);
    let color = reflected_colour(&negative_zero, MAX_BOUNCES, |_: i32| colour(1.0, 1.0, 1.0));
    assert_eq!(color.r.to_bits(), 0);
}

#[test]
fn a_reflective_material_sends_the_ray_on_with_one_bounce_less() {
    let mut mat = Material::new();
    mat.reflective = s(0.5);
    let color = reflected_colour(&mat, MAX_BOUNCES, |bounces: i32| {
        assert_eq!(bounces, MAX_BOUNCES - 1);
        colour(0.19032, 0.2379, 0.14274)
    });

    assert_eq!(color, colour(0.19032, 0.2379, 0.14274));
}

#[test]
fn reflected_color_at_maximum_recursive_depth() {
    let mut material = Material::new();
    material.reflective = s(0.5);
    let color = reflected_colour(&material, 0, |_: i32| colour(1.0, 1.0, 1.0));

    assert_eq!(color, Colour::black());
    let color = reflected_colour(&material, -3, |_: i32| colour(1.0, 1.0, 1.0));
    assert_eq!(color, Colour::black());
    let color = reflected_colour(&material, i32::MIN, |_: i32| colour(1.0, 1.0, 1.0));
    assert_eq!(color, Colour::black());
}

fn bounce_between_mirrors(mirror: &Material, bounces_remaining: i32, depth: &std::cell::Cell<u32>) -> Colour {
    depth.set(depth.get() + 1);
    let reflected = reflected_colour(mirror, bounces_remaining, |left: i32| {
        bounce_between_mirrors(mirror, left, depth)
    });
    colour(f(reflected.r) + 0.1, f(reflected.g) + 0.1, f(reflected.b) + 0.1)
}

#[test]
fn mirrors_that_face_each_other_stop_at_the_bounce_budget() {
    let mut mirror = Material::new();
    mirror.reflective = s(1.0);
    let depth = std::cell::Cell::new(0);

    // This should terminate successfully without infinite recursion
    let c = bounce_between_mirrors(&mirror, MAX_BOUNCES, &depth);

    assert_eq!(depth.get(), 6);
    assert!(f(c.r).is_finite());
    assert!((f(c.r) - 0.6).abs() < 1e-12);
    assert_eq!(MAX_BOUNCES, 5);
}

#[test]
fn light_reaches_a_surface_that_faces_it_out_of_shadow() {
    assert!(is_lit(s(1.0), false));
    assert!(is_lit(s(0.0), false));
    assert!(is_lit(s(-0.0), false));
    assert!(!is_lit(s(-1.0), false));
    assert!(!is_lit(s(1.0), true));
    assert!(!is_lit(s(-1.0), true));
    assert!(is_lit(s(f64::NAN), false));
}

#[test]
fn a_highlight_needs_the_reflection_to_meet_the_eye() {
    assert!(has_highlight(s(0.5)));
    assert!(!has_highlight(s(0.0)));
    assert!(!has_highlight(s(-0.0)));
    assert!(!has_highlight(s(-0.5)));
    assert!(has_highlight(s(f64::NAN)));
}
