use raytracer::scalar::Scalar;
use raytracer::vec3::{Color, Point, Vec3};

fn s(x: f64) -> Scalar {
    Scalar::from_bits(x.to_bits())
}

fn v(x: f64, y: f64, z: f64) -> Vec3 {
    Vec3::new(s(x), s(y), s(z))
}

fn bits(v: &Vec3) -> [u64; 3] {
    [v.0[0].to_bits(), v.0[1].to_bits(), v.0[2].to_bits()]
}

#[test]
fn new_keeps_the_components_in_order() {
    let a = v(1.0, -2.0, 3.5);
    assert_eq!(a.x().to_bits(), 1.0f64.to_bits());
    assert_eq!(a.y().to_bits(), (-2.0f64).to_bits());
    assert_eq!(a.z().to_bits(), 3.5f64.to_bits());
    let (x, y, z) = a.x_y_z();
    assert_eq!([x.to_bits(), y.to_bits(), z.to_bits()], bits(&a));
}

#[test]
fn colour_channels_are_the_components() {
    let c: Color = Color::new(s(0.25), s(0.5), s(0.75));
    assert_eq!(c.r().to_bits(), 0.25f64.to_bits());
    assert_eq!(c.g().to_bits(), 0.5f64.to_bits());
    assert_eq!(c.b().to_bits(), 0.75f64.to_bits());
}

#[test]
fn default_is_the_zero_vector() {
    let p: Point = Point::default();
    assert_eq!(bits(&p), [0, 0, 0]);
}

#[test]
fn x_y_z_trunc_cuts_each_component() {
    assert_eq!(v(255.9, 0.2, 128.0).x_y_z_trunc(), (255, 0, 128));
    assert_eq!(v(-1.0, 70000.0, f64::NAN).x_y_z_trunc(), (0, 65535, 0));
}

#[test]
fn neg_turns_every_component() {
    let a = -v(1.0, -2.0, 0.0);
    assert_eq!(bits(&a), [(-1.0f64).to_bits(), 2.0f64.to_bits(), (-0.0f64).to_bits()]);
}

#[test]
fn unit_sphere_keeps_a_sample_inside_the_ball() {
    let p = v(0.5, 0.5, 0.5);
    let kept = Vec3::random_in_unit_sphere(p, s(0.75));
    assert_eq!(bits(&kept.unwrap()), bits(&p));
}

#[test]
fn unit_sphere_rejects_a_sample_on_or_outside_the_ball() {
    assert!(Vec3::random_in_unit_sphere(v(1.0, 0.0, 0.0), s(1.0)).is_none());
    assert!(Vec3::random_in_unit_sphere(v(0.9, 0.9, 0.9), s(2.43)).is_none());
    assert!(Vec3::random_in_unit_sphere(v(0.0, 0.0, 0.0), s(0.0)).is_some());
}

#[test]
fn hemisphere_keeps_a_sample_on_the_normal_side() {
    let p = v(0.1, 0.2, 0.3);
    assert_eq!(bits(&Vec3::random_in_hemisphere(p, s(0.2))), bits(&p));
}

#[test]
fn hemisphere_turns_a_sample_on_the_far_side() {
    let p = v(0.1, -0.2, 0.3);
    let q = v(-0.1, 0.2, -0.3);
    assert_eq!(bits(&Vec3::random_in_hemisphere(p, s(-0.2))), bits(&q));
    assert_eq!(bits(&Vec3::random_in_hemisphere(p, s(0.0))), bits(&q));
}
