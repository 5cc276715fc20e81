use staws::body::{Body, KinimaticsBundle};
use staws::gravity::{gravity_between, gravity_forces};
use staws::units::{SOFTENING, TICKS_PER_UNIT};
use staws::vector::{Force, Vector};

fn planet(mass: i64, x: i64, y: i64) -> Body {
    let bundle = KinimaticsBundle::build().insert_mass(mass).insert_translation(Vector::new(
        x * TICKS_PER_UNIT,
        y * TICKS_PER_UNIT,
        0,
    ));
    Body::new(bundle, None).unwrap()
}

fn speck(mass: i64, x: i64, y: i64, z: i64) -> Body {
    let bundle = KinimaticsBundle::build()
        .insert_mass(mass)
        .insert_translation(Vector::new(x, y, z));
    Body::new(bundle, None).unwrap()
}

#[test]
fn two_equal_planets_pull_each_other_along_y() {
    let first = planet(8_000_000_000_000_000, 0, -100);
    let second = planet(8_000_000_000_000_000, 0, 100);
    let on_first = gravity_between(&first, &second);
    let on_second = gravity_between(&second, &first);
    assert_eq!(on_first, Force::new(0, 10_678_880_000_000_000_000_000, 0));
    assert_eq!(on_second, Force::new(0, -10_678_880_000_000_000_000_000, 0));
    let in_units = on_first.y as f64 / TICKS_PER_UNIT as f64;
    assert!((in_units - 1.0679e17).abs() < 1.0e13);
    assert!(on_first.y > 0);
}

#[test]
fn the_force_on_one_body_is_the_reverse_of_the_force_on_the_other() {
    let a = planet(8_000_000_000_000_000, 0, -100);
    let c = planet(3_000_000_000_000, 250, 75);
    let on_a = gravity_between(&a, &c);
    let on_c = gravity_between(&c, &a);
    assert_eq!(on_a, Force::new(1_409_151_041_503_694_266, 986_405_729_052_585_986, 0));
    assert_eq!(on_c, Force::new(-on_a.x, -on_a.y, -on_a.z));
}

#[test]
fn unequal_masses_on_a_slant_pull_each_other_equally() {
    let light = planet(1_000_000_000_000_000, 0, 0);
    let heavy = planet(2_000_000_000_000_000, -300, 400);
    let on_light = gravity_between(&light, &heavy);
    let on_heavy = gravity_between(&heavy, &light);
    assert_eq!(
        on_light,
        Force::new(-32_036_640_000_000_000_000, 42_715_520_000_000_000_000, 0)
    );
    assert_eq!(
        on_heavy,
        Force::new(32_036_640_000_000_000_000, -42_715_520_000_000_000_000, 0)
    );
}

#[test]
fn twice_the_distance_gives_a_quarter_of_the_force() {
    let sun = planet(50_000_000_000, 0, 0);
    let near = planet(7_000_000_000, 150, 0);
    let middle = planet(7_000_000_000, 300, 0);
    let far = planet(7_000_000_000, 600, 0);
    let at_near = gravity_between(&sun, &near);
    let at_middle = gravity_between(&sun, &middle);
    let at_far = gravity_between(&sun, &far);
    assert_eq!(at_middle, Force::new(25_955_611_111, 0, 0));
    assert_eq!(at_far, Force::new(6_488_902_777, 0, 0));
    assert_eq!(at_far.x, at_middle.x / 4);
    assert_eq!(at_near, Force::new(103_822_444_444, 0, 0));
    assert_eq!(at_near.x, 4 * at_middle.x);
}

#[test]
fn bodies_at_the_same_place_exert_no_force() {
    let p = speck(1_000_000_000_000, 5, 5, 0);
    let q = speck(1_000_000_000_000, 5, 5, 0);
    assert_eq!(gravity_between(&p, &q), Force::new(0, 0, 0));
    assert_eq!(gravity_between(&q, &p), Force::new(0, 0, 0));
    let forces = gravity_forces(&vec![p, q]);
    assert_eq!(forces, vec![Force::new(0, 0, 0), Force::new(0, 0, 0)]);
}

#[test]
fn closer_than_the_softening_distance_the_pull_no_longer_grows() {
    let p = speck(1_000_000_000_000, 5, 5, 0);
    let r = speck(1_000_000_000_000, 5 + 30_000, 5 + 40_000, 0);
    assert!(50_000 < SOFTENING);
    assert_eq!(
        gravity_between(&p, &r),
        Force::new(2_002_290_000_000_000_000, 2_669_720_000_000_000_000, 0)
    );
}

#[test]
fn the_third_axis_pulls_like_the_others() {
    let low = speck(50_000_000_000, 0, 0, 0);
    let high = speck(7_000_000_000, 0, 0, 30_000_000);
    assert_eq!(gravity_between(&low, &high), Force::new(0, 0, 25_955_611_111));
    assert_eq!(gravity_between(&high, &low), Force::new(0, 0, -25_955_611_111));
}

#[test]
fn the_pull_of_all_is_the_sum_of_the_pulls_of_each() {
    let a = planet(8_000_000_000_000_000, 0, -100);
    let b = planet(8_000_000_000_000_000, 0, 100);
    let c = planet(3_000_000_000_000, 250, 75);
    let forces = gravity_forces(&vec![a, b, c]);
    assert_eq!(
        forces,
        vec![
            Force::new(1_409_151_041_503_694_266, 10_679_866_405_729_052_585_986, 0),
            Force::new(2_524_962_242_880_256_582, -10_679_132_496_224_288_025_658, 0),
            Force::new(-3_934_113_284_383_950_848, -733_909_504_764_560_328, 0),
        ]
    );
    let ab = gravity_between(&a, &b);
    let ac = gravity_between(&a, &c);
    assert_eq!(forces[0], Force::new(ab.x + ac.x, ab.y + ac.y, ab.z + ac.z));
}

#[test]
fn the_forces_within_a_set_of_three_cancel() {
    let a = planet(8_000_000_000_000_000, 0, -100);
    let b = planet(8_000_000_000_000_000, 0, 100);
    let c = planet(3_000_000_000_000, 250, 75);
    let forces = gravity_forces(&vec![a, b, c]);
    assert_eq!(forces.iter().map(|f| f.x).sum::<i128>(), 0);
    assert_eq!(forces.iter().map(|f| f.y).sum::<i128>(), 0);
    assert_eq!(forces.iter().map(|f| f.z).sum::<i128>(), 0);
}

#[test]
fn a_body_alone_feels_no_gravity() {
    let a = planet(8_000_000_000_000_000, 3, 4);
    assert_eq!(gravity_forces(&vec![a]), vec![Force::new(0, 0, 0)]);
    assert_eq!(gravity_forces(&Vec::new()), Vec::<Force>::new());
}
