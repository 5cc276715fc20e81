use staws::body::{Body, KinimaticsBundle, Transform};
use staws::physics::thrust_of;
use staws::ships::{Engine, Throttle};
use staws::units::{HEADING_ONE, THROTTLE_ONE};
use staws::vector::{Force, Vector};

fn engine(max_thrust: u64, throttle: Throttle) -> Engine {
    Engine { fuel: 0, max_thrust, throttle }
}

fn ship(heading: Vector, engine: Option<Engine>) -> Body {
    let bundle = KinimaticsBundle::build().insert_mass(100).insert_transform(Transform {
        translation: Vector::zero(),
        heading,
    });
    Body::new(bundle, engine).unwrap()
}

#[test]
fn a_fixed_throttle_is_all_or_nothing() {
    assert_eq!(engine(100_000_000, Throttle::Fixed(true)).thrust_magnitude(), 100_000_000);
    assert_eq!(engine(100_000_000, Throttle::Fixed(false)).thrust_magnitude(), 0);
    assert_eq!(engine(u64::MAX, Throttle::Fixed(true)).thrust_magnitude(), u64::MAX as i128);
}

#[test]
fn a_variable_throttle_gives_its_share_of_full_thrust() {
    assert_eq!(engine(100_000_000, Throttle::Variable(0)).thrust_magnitude(), 0);
    assert_eq!(engine(100_000_000, Throttle::Variable(500_000)).thrust_magnitude(), 50_000_000);
    assert_eq!(
        engine(100_000_000, Throttle::Variable(THROTTLE_ONE)).thrust_magnitude(),
        100_000_000
    );
    assert_eq!(engine(100_000_000, Throttle::Variable(250_000)).thrust_magnitude(), 25_000_000);
    assert_eq!(engine(1001, Throttle::Variable(500_000)).thrust_magnitude(), 500);
}

#[test]
fn a_variable_throttle_is_not_confined() {
    assert_eq!(engine(1001, Throttle::Variable(2_500_000)).thrust_magnitude(), 2502);
    assert_eq!(engine(999, Throttle::Variable(-1_500_000)).thrust_magnitude(), -1498);
    assert_eq!(
        engine(u64::MAX, Throttle::Variable(i32::MIN)).thrust_magnitude(),
        -((u64::MAX as i128) * 2_147_483_648 / 1_000_000)
    );
}

#[test]
fn the_default_throttle_is_variable_and_closed() {
    assert_eq!(Throttle::default(), Throttle::Variable(0));
    assert_eq!(
        Engine::default(),
        Engine { fuel: 0, max_thrust: 0, throttle: Throttle::Variable(0) }
    );
    assert_eq!(Engine::default().thrust_magnitude(), 0);
}

#[test]
fn fuel_does_not_change_the_thrust() {
    let empty = Engine { fuel: 0, max_thrust: 777, throttle: Throttle::Fixed(true) };
    let full = Engine { fuel: u64::MAX, max_thrust: 777, throttle: Throttle::Fixed(true) };
    assert_eq!(empty.thrust_magnitude(), full.thrust_magnitude());
}

#[test]
fn thrust_points_along_the_heading() {
    let forward = Vector::new(0, HEADING_ONE, 0);
    let burning = engine(100_000_000, Throttle::Fixed(true));
    assert_eq!(thrust_of(&ship(forward, Some(burning))), Force::new(0, 100_000_000, 0));
    let slanted = Vector::new(600_000, -800_000, 0);
    let half = engine(100_000_000, Throttle::Variable(500_000));
    assert_eq!(thrust_of(&ship(slanted, Some(half))), Force::new(30_000_000, -40_000_000, 0));
    let reversed = engine(999, Throttle::Variable(-1_500_000));
    assert_eq!(thrust_of(&ship(slanted, Some(reversed))), Force::new(-898, 1198, 0));
    let sideways = Vector::new(-HEADING_ONE, 0, 0);
    assert_eq!(thrust_of(&ship(sideways, Some(burning))), Force::new(-100_000_000, 0, 0));
}

#[test]
fn a_body_without_an_engine_has_no_thrust() {
    let drifting = ship(Vector::new(0, HEADING_ONE, 0), None);
    assert_eq!(thrust_of(&drifting), Force::new(0, 0, 0));
}

#[test]
fn a_body_with_an_engine_has_the_thrust_of_its_engine() {
    let slanted = Vector::new(600_000, -800_000, 0);
    let half = engine(100_000_000, Throttle::Variable(500_000));
    let body = ship(slanted, Some(half));
    assert_eq!(thrust_of(&body), Force::new(30_000_000, -40_000_000, 0));
    let idle = ship(slanted, Some(engine(100_000_000, Throttle::Fixed(false))));
    assert_eq!(thrust_of(&idle), Force::new(0, 0, 0));
}
