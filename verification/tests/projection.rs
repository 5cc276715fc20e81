use staws::body::{Body, KinimaticsBundle};
use staws::markers::{PoolChange, ProjectionDot};
use staws::physics::kinimatics_system;
use staws::projection::{course_projection_system, project_course};
use staws::ships::{Engine, Throttle};
use staws::units::{TimeStep, TICKS_PER_UNIT};
use staws::vector::Vector;

fn planet(mass: i64, x: i64, y: i64, vx: i64, vy: i64) -> Body {
    let bundle = KinimaticsBundle::build()
        .insert_mass(mass)
        .insert_translation(Vector::new(x * TICKS_PER_UNIT, y * TICKS_PER_UNIT, 0))
        .insert_velocity(Vector::new(vx * TICKS_PER_UNIT, vy * TICKS_PER_UNIT, 0));
    Body::new(bundle, None).unwrap()
}

fn three() -> Vec<Body> {
    vec![
        planet(8_000_000_000_000_000, 0, -100, 40, 0),
        planet(8_000_000_000_000_000, 0, 100, -40, 0),
        planet(3_000_000_000_000, 250, 75, 0, 0),
    ]
}

#[test]
fn a_course_comes_step_by_step_and_body_by_body() {
    let points = project_course(&three(), 1, 2);
    assert_eq!(
        points,
        vec![
            Vector::new(2_000_044, -9_666_255, 0),
            Vector::new(-1_999_921, 9_666_278, 0),
            Vector::new(24_672_158, 7_438_841, 0),
            Vector::new(3_930_744, -8_997_082, 0),
            Vector::new(-3_930_379, 8_997_159, 0),
            Vector::new(24_026_514, 7_293_520, 0),
        ]
    );
}

#[test]
fn a_course_is_what_the_steps_would_give() {
    let start = three();
    let points = project_course(&start, 2, 5);
    let mut state = start.clone();
    let fifth = TimeStep::new(1, 5).unwrap();
    for step in 0..10 {
        kinimatics_system(&mut state, fifth);
        for (i, body) in state.iter().enumerate() {
            assert_eq!(points[step * 3 + i], body.transform().translation);
        }
    }
}

#[test]
fn a_course_has_a_point_for_every_step_and_body() {
    let bodies = three();
    assert_eq!(project_course(&bodies, 5, 10).len(), 5 * 10 * 3);
    assert_eq!(project_course(&bodies, 1, 5).len(), 5 * 3);
    assert_eq!(project_course(&bodies[..1].to_vec(), 3, 7).len(), 21);
    assert_eq!(project_course(&bodies, 0, 10).len(), 0);
    assert_eq!(project_course(&bodies, 10, 0).len(), 0);
    assert_eq!(project_course(&Vec::new(), 5, 10).len(), 0);
    assert_eq!(project_course(&Vec::new(), u32::MAX, u32::MAX).len(), 0);
}

#[test]
fn projecting_twice_gives_the_same_course() {
    let bodies = three();
    let first = project_course(&bodies, 5, 10);
    let second = project_course(&bodies, 5, 10);
    assert_eq!(first, second);
}

#[test]
fn projecting_leaves_the_bodies_alone() {
    let bodies = three();
    let before = bodies.clone();
    let _ = project_course(&bodies, 5, 10);
    assert_eq!(bodies, before);
    let mut dots = Vec::new();
    let _ = course_projection_system(&bodies, &mut dots, 5, 10);
    assert_eq!(bodies, before);
}

#[test]
fn the_throttle_is_held_through_the_projection() {
    let engine = Engine { fuel: 0, max_thrust: 100_000_000, throttle: Throttle::Fixed(true) };
    let bundle = KinimaticsBundle::build().insert_mass(100).insert_translation(Vector::new(
        500 * TICKS_PER_UNIT,
        500 * TICKS_PER_UNIT,
        0,
    ));
    let ship = Body::new(bundle, Some(engine)).unwrap();
    let points = project_course(&vec![ship], 2, 1);
    assert_eq!(
        points,
        vec![Vector::new(50_000_000, 51_000_000, 0), Vector::new(50_000_000, 53_000_000, 0)]
    );
}

#[test]
fn the_pool_grows_to_hold_the_course() {
    let bodies = three();
    let mut dots: Vec<ProjectionDot> = Vec::new();
    let change = course_projection_system(&bodies, &mut dots, 5, 10);
    assert_eq!(change, PoolChange::Created(150));
    assert_eq!(dots.len(), 150);
    let points = project_course(&bodies, 5, 10);
    for (dot, point) in dots.iter().zip(points.iter()) {
        assert_eq!(dot.position, *point);
    }
}

#[test]
fn the_pool_shrinks_when_the_course_is_shorter() {
    let bodies = three();
    let mut dots: Vec<ProjectionDot> = Vec::new();
    course_projection_system(&bodies, &mut dots, 5, 10);
    let change = course_projection_system(&bodies, &mut dots, 1, 5);
    assert_eq!(change, PoolChange::Destroyed(135));
    assert_eq!(dots.len(), 15);
    let points = project_course(&bodies, 1, 5);
    for (dot, point) in dots.iter().zip(points.iter()) {
        assert_eq!(dot.position, *point);
    }
}

#[test]
fn a_pool_of_the_right_size_is_only_moved() {
    let mut bodies = three();
    let mut dots: Vec<ProjectionDot> = Vec::new();
    course_projection_system(&bodies, &mut dots, 1, 5);
    let before = dots.clone();
    kinimatics_system(&mut bodies, TimeStep::new(1, 60).unwrap());
    let change = course_projection_system(&bodies, &mut dots, 1, 5);
    assert_eq!(change, PoolChange::Unchanged);
    assert_eq!(dots.len(), 15);
    assert_ne!(dots, before);
}
