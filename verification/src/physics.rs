//! Motion: the step that carries every body from one moment to the next.

use vstd::prelude::*;
use crate::body::{all_valid, models, Body, BodyModel};
use crate::gravity::{gravity_forces, gravity_from_first, net_gravity};
use crate::ships::{lemma_thrust_force_bound, thrust_force, thrust_limit, thrust_magnitude};
use crate::units::{
    clamp, clamp_to_limit, div_toward_zero, lemma_div_toward_zero_bound, quotient_toward_zero,
    Span, TimeStep, LIMIT, MAX_BODIES, MAX_MASS,
};
use crate::vector::{Force, Triple, Vector};

verus! {

/// `value` after `rate` has acted on it for the span `dt`, held within
/// `LIMIT`.
pub open spec fn advance(value: int, rate: int, dt: Span) -> int {
    clamp(value + div_toward_zero(rate * dt.num, dt.den), LIMIT as int)
}

/// The acceleration that `force` gives to `mass`, held within `LIMIT`.
pub open spec fn acceleration_from(force: Triple, mass: int) -> Triple {
    Triple {
        x: clamp(div_toward_zero(force.x, mass), LIMIT as int),
        y: clamp(div_toward_zero(force.y, mass), LIMIT as int),
        z: clamp(div_toward_zero(force.z, mass), LIMIT as int),
    }
}

/// One step of motion for one body. The total force is gravity plus the
/// thrust of the body's engine, if it has one; the acceleration is the
/// total force over the mass; the velocity advances by the new
/// acceleration, and then the position by the new velocity.
pub open spec fn integrate(body: BodyModel, gravity: Triple, dt: Span) -> BodyModel {
    let total = gravity.plus(thrust_force(body.heading, body.engine));
    let acceleration = acceleration_from(total, body.mass);
    let velocity = Triple {
        x: advance(body.velocity.x, acceleration.x, dt),
        y: advance(body.velocity.y, acceleration.y, dt),
        z: advance(body.velocity.z, acceleration.z, dt),
    };
    let position = Triple {
        x: advance(body.position.x, velocity.x, dt),
        y: advance(body.position.y, velocity.y, dt),
        z: advance(body.position.z, velocity.z, dt),
    };
    BodyModel { position, velocity, acceleration, ..body }
}

/// The set after one step of the span `dt`: every body integrated under
/// the gravity of the set as it was before the step.
pub open spec fn step(bodies: Seq<BodyModel>, dt: Span) -> Seq<BodyModel> {
    Seq::new(bodies.len(), |i: int| integrate(bodies[i], net_gravity(bodies, i), dt))
}

/// The thrust force on `body`: that of its engine along its heading, or
/// none if it has no engine.
pub fn thrust_of(body: &Body) -> (thrust: Force)
    requires
        body.wf(),
    ensures
        thrust@ == thrust_force(body@.heading, body@.engine),
        thrust@.within(thrust_limit()),
{
    proof {
        lemma_thrust_force_bound(body@.heading, body@.engine);
    }
    let heading = body.transform().heading;
    match body.engine() {
        Some(engine) => engine.thrust_along(&heading),
        None => Force::zero(),
    }
}

/// The body after one step of the span `dt` under the force `gravity`.
pub fn integrate_body(body: &Body, gravity: &Force, dt: &TimeStep) -> (next: Body)
    requires
        body.wf(),
        dt.wf(),
    ensures
        next@ == integrate(body@, gravity@, dt@),
        next.wf(),
{
    let transform = body.transform();
    let kinimatics = body.kinimatics();
    let thrust = thrust_of(body);
    let mass = kinimatics.mass;
    let acceleration = Vector {
        x: acceleration_component(gravity.x, thrust.x, mass),
        y: acceleration_component(gravity.y, thrust.y, mass),
        z: acceleration_component(gravity.z, thrust.z, mass),
    };
    let before = kinimatics.velocity;
    let velocity = Vector {
        x: advance_component(before.x, acceleration.x, dt),
        y: advance_component(before.y, acceleration.y, dt),
        z: advance_component(before.z, acceleration.z, dt),
    };
    let place = transform.translation;
    let position = Vector {
        x: advance_component(place.x, velocity.x, dt),
        y: advance_component(place.y, velocity.y, dt),
        z: advance_component(place.z, velocity.z, dt),
    };
    body.moved(position, velocity, acceleration)
}

/// Advances every body by one step of the span `dt`. The gravity on every
/// body is found from the positions before the step; only then is any body
/// moved.
pub fn kinimatics_system(bodies: &mut Vec<Body>, dt: TimeStep)
    requires
        old(bodies).len() <= MAX_BODIES,
        all_valid(models(old(bodies)@)),
        dt.wf(),
    ensures
        models(final(bodies)@) == step(models(old(bodies)@), dt@),
        final(bodies).len() == old(bodies).len(),
        all_valid(models(final(bodies)@)),
{
    let forces = gravity_forces(bodies);
    let n = bodies.len();
    let ghost before = models(bodies@);
    let mut i: usize = 0;
    while i < n
        invariant
            i <= n,
            n == bodies.len(),
            n == forces.len(),
            n == before.len(),
            dt.wf(),
            all_valid(before),
            forall|a: int|
                0 <= a < n ==> (#[trigger] forces[a])@ == net_gravity(before, a),
            forall|a: int| 0 <= a < i ==> (#[trigger] bodies[a])@ == step(before, dt@)[a],
            forall|a: int| i <= a < n ==> (#[trigger] bodies[a])@ == before[a],
        decreases n - i,
    {
        proof {
            assert(before[i as int].valid());
        }
        let next = integrate_body(&bodies[i], &forces[i], &dt);
        bodies.set(i, next);
        i += 1;
    }
    proof {
        lemma_step_valid(before, dt@);
        assert(models(bodies@) =~= step(before, dt@));
    }
}

/// A body alone, at rest and without thrust, stays where it is: after a
/// step of any span its position is unchanged and its acceleration and
/// velocity are zero.
pub proof fn lemma_isolated_body_rests(body: BodyModel, dt: Span)
    requires
        body.valid(),
        dt.den > 0,
        body.velocity == Triple::zero(),
        body.engine matches Some(e) ==> thrust_magnitude(e) == 0,
    ensures
        step(seq![body], dt).len() == 1,
        step(seq![body], dt)[0].position == body.position,
        step(seq![body], dt)[0].velocity == Triple::zero(),
        step(seq![body], dt)[0].acceleration == Triple::zero(),
{
    let alone = seq![body];
    assert(gravity_from_first(alone, 0, 1) == gravity_from_first(alone, 0, 0));
    assert(net_gravity(alone, 0) == Triple::zero());
    let thrust = thrust_force(body.heading, body.engine);
    assert(thrust == Triple::zero()) by {
        assert(0 * body.heading.x == 0 && 0 * body.heading.y == 0 && 0 * body.heading.z == 0);
    }
    assert(0int / body.mass == 0 && 0int / dt.den == 0) by (nonlinear_arith)
        requires
            body.mass > 0,
            dt.den > 0,
    ;
    assert(0 * dt.num == 0);
    assert(alone[0] == body);
}

/// A step keeps a valid body valid.
pub proof fn lemma_integrate_valid(body: BodyModel, gravity: Triple, dt: Span)
    requires
        body.valid(),
    ensures
        integrate(body, gravity, dt).valid(),
{
}

/// A step keeps a valid set valid, and neither adds nor removes a body.
pub proof fn lemma_step_valid(bodies: Seq<BodyModel>, dt: Span)
    requires
        all_valid(bodies),
    ensures
        all_valid(step(bodies, dt)),
        step(bodies, dt).len() == bodies.len(),
{
    assert forall|i: int| 0 <= i < bodies.len() implies (#[trigger] step(
        bodies,
        dt,
    )[i]).valid() by {
        lemma_integrate_valid(bodies[i], net_gravity(bodies, i), dt);
    }
}

/// One coordinate of the acceleration: `(gravity + thrust) / mass`, held
/// within `LIMIT`.
fn acceleration_component(gravity: i128, thrust: i128, mass: i64) -> (a: i64)
    requires
        0 < mass <= MAX_MASS,
        -thrust_limit() <= thrust <= thrust_limit(),
    ensures
        a == clamp(div_toward_zero(gravity + thrust, mass as int), LIMIT as int),
{
    let edge: i128 = 0x2000_0000_0000_0000_0000_0000_0000_0000;
    let m: i128 = mass as i128;
    if gravity > edge {
        proof {
            let total = gravity + thrust;
            assert(total / (m as int) > LIMIT) by (nonlinear_arith)
                requires
                    total >= 0x1000_0000_0000_0000_0000_0000_0000_0000,
                    0 < m <= 40_000_000_000_000_000,
                    LIMIT == 1_000_000_000_000_000_000,
            ;
        }
        LIMIT
    } else if gravity < -edge {
        proof {
            let total = -(gravity + thrust);
            assert(total / (m as int) > LIMIT) by (nonlinear_arith)
                requires
                    total >= 0x1000_0000_0000_0000_0000_0000_0000_0000,
                    0 < m <= 40_000_000_000_000_000,
                    LIMIT == 1_000_000_000_000_000_000,
            ;
        }
        -LIMIT
    } else {
        clamp_to_limit(quotient_toward_zero(gravity + thrust, m))
    }
}

/// One coordinate after `rate` has acted on it for the span `dt`.
fn advance_component(value: i64, rate: i64, dt: &TimeStep) -> (next: i64)
    requires
        dt.wf(),
    ensures
        next == advance(value as int, rate as int, dt@),
        -LIMIT <= next <= LIMIT,
{
    let r: i128 = rate as i128;
    let num: i128 = dt.numerator() as i128;
    let den: i128 = dt.denominator() as i128;
    assert(-0x8000_0000_0000_0000_0000_0000 <= r * num <= 0x8000_0000_0000_0000_0000_0000)
        by (nonlinear_arith)
        requires
            -0x8000_0000_0000_0000 <= r <= 0x8000_0000_0000_0000,
            0 <= num <= 0x1_0000_0000,
    ;
    let change: i128 = quotient_toward_zero(r * num, den);
    proof {
        lemma_div_toward_zero_bound(
            r * num,
            den as int,
            0x8000_0000_0000_0000_0000_0000,
        );
    }
    clamp_to_limit(value as i128 + change)
}

} // verus!
