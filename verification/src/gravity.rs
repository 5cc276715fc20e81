//! Gravity: the pull of one body on another, and the pull of all on each.

use vstd::prelude::*;
use vstd::arithmetic::div_mod::{
    lemma_div_by_multiple, lemma_div_denominator, lemma_div_is_ordered_by_denominator,
    lemma_div_pos_is_pos, lemma_fundamental_div_mod,
};
use crate::body::{all_valid, models, Body, BodyModel};
use crate::units::{
    div_toward_zero, integer_sqrt, is_sqrt_floor, larger, lemma_div_toward_zero_odd,
    lemma_sqrt_floor_exists, lemma_sqrt_floor_is, quotient_toward_zero, sqrt_floor,
    GRAVITATIONAL_CONSTANT, LIMIT, MAX_BODIES, MAX_MASS, SOFTENING, SOFTENING_SQUARED,
};
use crate::vector::{Force, Triple};

verus! {

/// The size of the attraction between two masses whose distance squared
/// is `distance_squared`: `G * m1 * m2 / d^2`, with the distance taken to
/// be at least `SOFTENING`.
pub open spec fn force_magnitude(m1: int, m2: int, distance_squared: int) -> int {
    GRAVITATIONAL_CONSTANT * m1 * m2 / larger(distance_squared, SOFTENING_SQUARED as int)
}

/// The gravitational force that `from` exerts on `on`: `force_magnitude`
/// along the line from `on` toward `from`. Within `SOFTENING` of each
/// other the bodies pull as if `SOFTENING` apart, so two bodies at the same
/// place exert no force on each other.
pub open spec fn pair_force(on: BodyModel, from: BodyModel) -> Triple {
    let delta = from.position.minus(on.position);
    let magnitude = force_magnitude(on.mass, from.mass, delta.norm_squared());
    let distance = larger(sqrt_floor(delta.norm_squared()), SOFTENING as int);
    Triple {
        x: div_toward_zero(magnitude * delta.x, distance),
        y: div_toward_zero(magnitude * delta.y, distance),
        z: div_toward_zero(magnitude * delta.z, distance),
    }
}

/// The sum of the forces that the first `count` bodies of the set, other
/// than body `i` itself, exert on body `i`.
pub open spec fn gravity_from_first(bodies: Seq<BodyModel>, i: int, count: int) -> Triple
    decreases count,
{
    if count <= 0 {
        Triple::zero()
    } else if count - 1 == i {
        gravity_from_first(bodies, i, count - 1)
    } else {
        gravity_from_first(bodies, i, count - 1).plus(pair_force(bodies[i], bodies[count - 1]))
    }
}

/// The gravitational force on body `i`: the sum of the attraction from
/// every other body of the set.
pub open spec fn net_gravity(bodies: Seq<BodyModel>, i: int) -> Triple {
    gravity_from_first(bodies, i, bodies.len() as int)
}

/// The sum, over the first `count` bodies of the set, of the pull that
/// the first `among` bodies exert on each.
pub open spec fn summed_gravity(bodies: Seq<BodyModel>, count: int, among: int) -> Triple
    decreases count,
{
    if count <= 0 {
        Triple::zero()
    } else {
        summed_gravity(bodies, count - 1, among).plus(
            gravity_from_first(bodies, count - 1, among),
        )
    }
}

/// The sum of the net gravity on every body of the set.
pub open spec fn total_gravity(bodies: Seq<BodyModel>) -> Triple {
    summed_gravity(bodies, bodies.len() as int, bodies.len() as int)
}

/// `1`, `0` or `-1` as `x` is positive, zero or negative.
pub open spec fn signum(x: int) -> int {
    if x > 0 {
        1
    } else if x < 0 {
        -1
    } else {
        0
    }
}

/// No pair of bodies attracts with a force larger than this.
pub open spec fn pair_limit() -> int {
    10_678_880_000_000_000_000_000_000_000int
}

/// `G * MAX_MASS * MAX_MASS`.
pub open spec fn product_limit() -> int {
    106_788_800_000_000_000_000_000_000_000_000_000_000int
}

/// Largest distance squared between two positions within `LIMIT`.
pub open spec fn span_limit() -> int {
    12_000_000_000_000_000_000_000_000_000_000_000_000int
}

/// The gravitational force that `from` exerts on `on`.
pub fn gravity_between(on: &Body, from: &Body) -> (force: Force)
    requires
        on.wf(),
        from.wf(),
    ensures
        force@ == pair_force(on@, from@),
        force@.within(pair_limit()),
{
    let p = on.transform().translation;
    let q = from.transform().translation;
    let dx: i128 = q.x as i128 - p.x as i128;
    let dy: i128 = q.y as i128 - p.y as i128;
    let dz: i128 = q.z as i128 - p.z as i128;
    let ghost delta = from@.position.minus(on@.position);
    proof {
        assert(delta == (Triple { x: dx as int, y: dy as int, z: dz as int }));
        lemma_span(delta);
        lemma_pair_force_bound(on@, from@);
    }
    let d2: i128 = dx * dx + dy * dy + dz * dz;
    let big: i128 = if d2 > SOFTENING_SQUARED {
        d2
    } else {
        SOFTENING_SQUARED
    };
    let m1: i128 = on.kinimatics().mass as i128;
    let m2: i128 = from.kinimatics().mass as i128;
    proof {
        lemma_force_magnitude_bound(m1 as int, m2 as int, d2 as int);
        assert(0 <= GRAVITATIONAL_CONSTANT * m1 <= 66_743 * 40_000_000_000_000_000)
            by (nonlinear_arith)
            requires
                GRAVITATIONAL_CONSTANT == 66_743,
                0 < m1 <= 40_000_000_000_000_000,
        ;
    }
    let product: i128 = GRAVITATIONAL_CONSTANT * m1 * m2;
    let magnitude: i128 = product / big;
    let root: i128 = integer_sqrt(d2 as u128) as i128;
    let distance: i128 = if root > SOFTENING {
        root
    } else {
        SOFTENING
    };
    proof {
        lemma_component_within_root(delta, root as int);
        lemma_component_bound(
            magnitude as int,
            product as int,
            dx as int,
            big as int,
            distance as int,
        );
        lemma_component_bound(
            magnitude as int,
            product as int,
            dy as int,
            big as int,
            distance as int,
        );
        lemma_component_bound(
            magnitude as int,
            product as int,
            dz as int,
            big as int,
            distance as int,
        );
    }
    Force {
        x: quotient_toward_zero(magnitude * dx, distance),
        y: quotient_toward_zero(magnitude * dy, distance),
        z: quotient_toward_zero(magnitude * dz, distance),
    }
}

/// The gravitational force on every body of the set. Each pair of bodies
/// is evaluated once, and its force is applied to one body and, reversed,
/// to the other.
pub fn gravity_forces(bodies: &Vec<Body>) -> (forces: Vec<Force>)
    requires
        bodies.len() <= MAX_BODIES,
        all_valid(models(bodies@)),
    ensures
        forces.len() == bodies.len(),
        forall|i: int|
            0 <= i < forces.len() ==> (#[trigger] forces[i])@ == net_gravity(models(bodies@), i),
{
    let n = bodies.len();
    let ghost ms = models(bodies@);
    let mut forces: Vec<Force> = Vec::new();
    let mut k: usize = 0;
    while k < n
        invariant
            k <= n,
            forces.len() == k,
            forall|a: int| 0 <= a < k ==> (#[trigger] forces[a])@ == Triple::zero(),
        decreases n - k,
    {
        forces.push(Force::zero());
        k += 1;
    }
    let mut i: usize = 0;
    while i < n
        invariant
            i <= n,
            n == bodies.len(),
            n <= MAX_BODIES,
            forces.len() == n,
            ms == models(bodies@),
            all_valid(ms),
            forall|a: int|
                0 <= a < i ==> (#[trigger] forces[a])@ == gravity_from_first(ms, a, n as int),
            forall|a: int|
                i <= a < n ==> (#[trigger] forces[a])@ == gravity_from_first(ms, a, i as int),
        decreases n - i,
    {
        let mut j: usize = i + 1;
        while j < n
            invariant
                i < j <= n,
                n == bodies.len(),
                n <= MAX_BODIES,
                forces.len() == n,
                ms == models(bodies@),
                all_valid(ms),
                forall|a: int|
                    0 <= a < i ==> (#[trigger] forces[a])@ == gravity_from_first(ms, a, n as int),
                forces[i as int]@ == gravity_from_first(ms, i as int, j as int),
                forall|a: int|
                    i < a < j ==> (#[trigger] forces[a])@ == gravity_from_first(
                        ms,
                        a,
                        i as int + 1,
                    ),
                forall|a: int|
                    j <= a < n ==> (#[trigger] forces[a])@ == gravity_from_first(ms, a, i as int),
            decreases n - j,
        {
            let pull = gravity_between(&bodies[i], &bodies[j]);
            let here = forces[i];
            let there = forces[j];
            proof {
                assert(ms[i as int] == bodies[i as int]@);
                assert(ms[j as int] == bodies[j as int]@);
                lemma_gravity_bound(ms, i as int, j as int);
                lemma_gravity_bound(ms, j as int, i as int);
                lemma_newtons_third_law(ms[j as int], ms[i as int]);
            }
            forces.set(
                i,
                Force { x: here.x + pull.x, y: here.y + pull.y, z: here.z + pull.z },
            );
            forces.set(
                j,
                Force { x: there.x - pull.x, y: there.y - pull.y, z: there.z - pull.z },
            );
            j += 1;
        }
        i += 1;
    }
    forces
}

/// Newton's third law: the force that `b` exerts on `a` and the force that
/// `a` exerts on `b` are equal in size and opposite in direction.
pub proof fn lemma_newtons_third_law(a: BodyModel, b: BodyModel)
    ensures
        pair_force(a, b) == pair_force(b, a).negated(),
{
    let delta = b.position.minus(a.position);
    let back = a.position.minus(b.position);
    assert(back == delta.negated());
    assert(back.norm_squared() == delta.norm_squared()) by (nonlinear_arith)
        requires
            back.x == -delta.x,
            back.y == -delta.y,
            back.z == -delta.z,
            back.norm_squared() == back.x * back.x + back.y * back.y + back.z * back.z,
            delta.norm_squared() == delta.x * delta.x + delta.y * delta.y + delta.z * delta.z,
    ;
    let d2 = delta.norm_squared();
    assert(GRAVITATIONAL_CONSTANT * a.mass * b.mass == GRAVITATIONAL_CONSTANT * b.mass * a.mass)
        by (nonlinear_arith);
    let magnitude = force_magnitude(a.mass, b.mass, d2);
    assert(magnitude == force_magnitude(b.mass, a.mass, d2));
    let distance = larger(sqrt_floor(d2), SOFTENING as int);
    lemma_opposite_component(magnitude, delta.x, back.x, distance);
    lemma_opposite_component(magnitude, delta.y, back.y, distance);
    lemma_opposite_component(magnitude, delta.z, back.z, distance);
}

/// Newton's third law over a whole set: the forces the bodies of a set
/// exert on one another cancel, so the net gravity on all of them sums to
/// nothing.
pub proof fn lemma_internal_forces_cancel(bodies: Seq<BodyModel>)
    ensures
        total_gravity(bodies) == Triple::zero(),
{
    lemma_prefix_cancels(bodies, bodies.len() as int);
}

/// The inverse-square law: beyond `SOFTENING`, twice the distance gives a
/// quarter of the attraction, rounded down; so half the distance gives four
/// times the attraction, to within the same rounding.
pub proof fn lemma_inverse_square(m1: int, m2: int, distance_squared: int)
    requires
        0 <= m1,
        0 <= m2,
        distance_squared >= SOFTENING_SQUARED,
    ensures
        force_magnitude(m1, m2, 4 * distance_squared) == force_magnitude(
            m1,
            m2,
            distance_squared,
        ) / 4,
        4 * force_magnitude(m1, m2, 4 * distance_squared) <= force_magnitude(
            m1,
            m2,
            distance_squared,
        ) < 4 * force_magnitude(m1, m2, 4 * distance_squared) + 4,
{
    let n = GRAVITATIONAL_CONSTANT * m1 * m2;
    assert(0 <= n) by (nonlinear_arith)
        requires
            n == 66_743 * m1 * m2,
            0 <= m1,
            0 <= m2,
    ;
    lemma_div_denominator(n, distance_squared, 4);
    assert(distance_squared * 4 == 4 * distance_squared);
}

/// Gravity attracts: along every axis the force on a body points toward
/// the body that exerts it, or vanishes.
pub proof fn lemma_gravity_attracts(on: BodyModel, from: BodyModel)
    requires
        on.mass >= 0,
        from.mass >= 0,
    ensures
        ({
            let delta = from.position.minus(on.position);
            let pull = pair_force(on, from);
            &&& delta.x >= 0 ==> pull.x >= 0
            &&& delta.x <= 0 ==> pull.x <= 0
            &&& delta.y >= 0 ==> pull.y >= 0
            &&& delta.y <= 0 ==> pull.y <= 0
            &&& delta.z >= 0 ==> pull.z >= 0
            &&& delta.z <= 0 ==> pull.z <= 0
        }),
{
    let delta = from.position.minus(on.position);
    let d2 = delta.norm_squared();
    let magnitude = force_magnitude(on.mass, from.mass, d2);
    let distance = larger(sqrt_floor(d2), SOFTENING as int);
    lemma_magnitude_not_negative(on.mass, from.mass, d2);
    lemma_component_sign(magnitude, delta.x, distance);
    lemma_component_sign(magnitude, delta.y, distance);
    lemma_component_sign(magnitude, delta.z, distance);
}

/// Between two bodies that lie along one axis, at least `SOFTENING`
/// apart, the force is exactly `force_magnitude` along that axis, toward
/// the body that exerts it.
pub proof fn lemma_pull_along_axis(on: BodyModel, from: BodyModel)
    requires
        on.mass >= 0,
        from.mass >= 0,
        ({
            let delta = from.position.minus(on.position);
            &&& delta.norm_squared() >= SOFTENING_SQUARED
            &&& (delta.x == 0 && delta.y == 0) || (delta.y == 0 && delta.z == 0) || (delta.x == 0
                && delta.z == 0)
        }),
    ensures
        ({
            let delta = from.position.minus(on.position);
            let magnitude = force_magnitude(on.mass, from.mass, delta.norm_squared());
            pair_force(on, from) == (Triple {
                x: signum(delta.x) * magnitude,
                y: signum(delta.y) * magnitude,
                z: signum(delta.z) * magnitude,
            })
        }),
{
    let delta = from.position.minus(on.position);
    let d2 = delta.norm_squared();
    let magnitude = force_magnitude(on.mass, from.mass, d2);
    lemma_magnitude_not_negative(on.mass, from.mass, d2);
    let along = delta.x + delta.y + delta.z;
    let length = if along >= 0 {
        along
    } else {
        -along
    };
    assert(d2 == length * length && 0 * 0 == 0) by (nonlinear_arith)
        requires
            d2 == delta.x * delta.x + delta.y * delta.y + delta.z * delta.z,
            (delta.x == 0 && delta.y == 0) || (delta.y == 0 && delta.z == 0) || (delta.x == 0
                && delta.z == 0),
            along == delta.x + delta.y + delta.z,
            length == along || length == -along,
    ;
    assert(is_sqrt_floor(d2, length)) by (nonlinear_arith)
        requires
            d2 == length * length,
            length >= 0,
    ;
    lemma_sqrt_floor_is(d2, length);
    assert(length >= SOFTENING) by (nonlinear_arith)
        requires
            length * length >= 10_000_000_000,
            length >= 0,
            SOFTENING == 100_000,
    ;
    lemma_exact_component(magnitude, delta.x, length);
    lemma_exact_component(magnitude, delta.y, length);
    lemma_exact_component(magnitude, delta.z, length);
}

/// The size of the attraction is never negative and never above
/// `pair_limit()`, and times the distance squared it does not exceed
/// `G * m1 * m2`.
pub proof fn lemma_force_magnitude_bound(m1: int, m2: int, distance_squared: int)
    requires
        0 < m1 <= MAX_MASS,
        0 < m2 <= MAX_MASS,
    ensures
        0 <= GRAVITATIONAL_CONSTANT * m1 * m2 <= product_limit(),
        0 <= force_magnitude(m1, m2, distance_squared) <= pair_limit(),
        force_magnitude(m1, m2, distance_squared) * larger(
            distance_squared,
            SOFTENING_SQUARED as int,
        ) <= GRAVITATIONAL_CONSTANT * m1 * m2,
{
    let n = GRAVITATIONAL_CONSTANT * m1 * m2;
    let d = larger(distance_squared, SOFTENING_SQUARED as int);
    assert(0 <= n <= product_limit()) by (nonlinear_arith)
        requires
            n == 66_743 * m1 * m2,
            0 < m1 <= 40_000_000_000_000_000,
            0 < m2 <= 40_000_000_000_000_000,
            product_limit() == 66_743 * 40_000_000_000_000_000 * 40_000_000_000_000_000,
    ;
    lemma_div_pos_is_pos(n, d);
    lemma_div_is_ordered_by_denominator(n, SOFTENING_SQUARED as int, d);
    assert(n / (SOFTENING_SQUARED as int) <= pair_limit());
    lemma_fundamental_div_mod(n, d);
    assert((n / d) * d == d * (n / d)) by (nonlinear_arith);
}

/// No component of the force between two valid bodies exceeds
/// `pair_limit()`.
pub proof fn lemma_pair_force_bound(on: BodyModel, from: BodyModel)
    requires
        on.valid(),
        from.valid(),
    ensures
        pair_force(on, from).within(pair_limit()),
        pair_force(on, from).within(
            force_magnitude(on.mass, from.mass, from.position.minus(on.position).norm_squared()),
        ),
{
    let delta = from.position.minus(on.position);
    let d2 = delta.norm_squared();
    lemma_span(delta);
    lemma_sqrt_floor_exists(d2);
    let root = sqrt_floor(d2);
    lemma_component_within_root(delta, root);
    let magnitude = force_magnitude(on.mass, from.mass, d2);
    lemma_force_magnitude_bound(on.mass, from.mass, d2);
    let big = larger(d2, SOFTENING_SQUARED as int);
    let distance = larger(root, SOFTENING as int);
    let product = GRAVITATIONAL_CONSTANT * on.mass * from.mass;
    lemma_component_bound(magnitude, product, delta.x, big, distance);
    lemma_component_bound(magnitude, product, delta.y, big, distance);
    lemma_component_bound(magnitude, product, delta.z, big, distance);
}

/// The pull of `count` bodies is at most `count` times the largest pull
/// of one.
pub proof fn lemma_gravity_bound(bodies: Seq<BodyModel>, i: int, count: int)
    requires
        all_valid(bodies),
        0 <= i < bodies.len(),
        0 <= count <= bodies.len(),
    ensures
        gravity_from_first(bodies, i, count).within(count * pair_limit()),
    decreases count,
{
    if count > 0 {
        lemma_gravity_bound(bodies, i, count - 1);
        if count - 1 != i {
            lemma_pair_force_bound(bodies[i], bodies[count - 1]);
        }
    }
}

/// A square is not negative, not smaller than its root, and not larger
/// than the square of a bound on the root.
proof fn lemma_square_bound(x: int, bound: int)
    requires
        -bound <= x <= bound,
    ensures
        0 <= x * x <= bound * bound,
        x <= x * x,
        -x <= x * x,
{
    assert(0 <= x * x <= bound * bound && x <= x * x && -x <= x * x) by (nonlinear_arith)
        requires
            -bound <= x <= bound,
    ;
}

/// The distance squared between two positions within `LIMIT` fits under
/// `span_limit()`, and no coordinate of the separation exceeds it.
proof fn lemma_span(delta: Triple)
    requires
        delta.within(2 * LIMIT),
    ensures
        0 <= delta.norm_squared() <= span_limit(),
        0 <= delta.x * delta.x <= span_limit() / 3,
        0 <= delta.y * delta.y <= span_limit() / 3,
        0 <= delta.z * delta.z <= span_limit() / 3,
        delta.x <= delta.norm_squared(),
        -delta.x <= delta.norm_squared(),
        delta.y <= delta.norm_squared(),
        -delta.y <= delta.norm_squared(),
        delta.z <= delta.norm_squared(),
        -delta.z <= delta.norm_squared(),
{
    let b = 2 * LIMIT;
    lemma_square_bound(delta.x, b);
    lemma_square_bound(delta.y, b);
    lemma_square_bound(delta.z, b);
    assert(b * b == 4_000_000_000_000_000_000_000_000_000_000_000_000int) by (nonlinear_arith)
        requires
            b == 2_000_000_000_000_000_000int,
    ;
}

/// A component of a vector is no longer than the vector.
proof fn lemma_component_within_root(v: Triple, root: int)
    requires
        is_sqrt_floor(v.norm_squared(), root),
    ensures
        -root <= v.x <= root,
        -root <= v.y <= root,
        -root <= v.z <= root,
{
    let n = v.norm_squared();
    let (x, y, z) = (v.x, v.y, v.z);
    assert(-root <= x <= root && -root <= y <= root && -root <= z <= root) by (nonlinear_arith)
        requires
            0 <= root,
            n == x * x + y * y + z * z,
            n < (root + 1) * (root + 1),
    ;
}

/// One component of the pull: the product the quotient is taken of stays
/// within `product_limit()`, and the quotient within the magnitude.
proof fn lemma_component_bound(magnitude: int, product: int, delta: int, big: int, distance: int)
    requires
        0 <= magnitude,
        magnitude * big <= product,
        -big <= delta <= big,
        -distance <= delta <= distance,
        0 < distance,
    ensures
        -product <= magnitude * delta <= product,
        -magnitude <= div_toward_zero(magnitude * delta, distance) <= magnitude,
{
    assert(-(magnitude * big) <= magnitude * delta <= magnitude * big) by (nonlinear_arith)
        requires
            0 <= magnitude,
            -big <= delta <= big,
    ;
    assert(-(magnitude * distance) <= magnitude * delta <= magnitude * distance)
        by (nonlinear_arith)
        requires
            0 <= magnitude,
            -distance <= delta <= distance,
    ;
    let p = magnitude * delta;
    if p >= 0 {
        assert(0 <= p / distance <= magnitude) by (nonlinear_arith)
            requires
                0 <= p <= magnitude * distance,
                0 < distance,
        ;
    } else {
        let q = -p;
        assert(0 <= q / distance <= magnitude) by (nonlinear_arith)
            requires
                0 <= q <= magnitude * distance,
                0 < distance,
        ;
    }
}

/// Reversing the separation reverses a component of the pull.
proof fn lemma_opposite_component(magnitude: int, delta: int, back: int, distance: int)
    requires
        back == -delta,
        distance > 0,
    ensures
        div_toward_zero(magnitude * delta, distance) == -div_toward_zero(
            magnitude * back,
            distance,
        ),
{
    assert(magnitude * back == -(magnitude * delta)) by (nonlinear_arith)
        requires
            back == -delta,
    ;
    lemma_div_toward_zero_odd(magnitude * back, distance);
}

/// Masses that are not negative do not repel.
proof fn lemma_magnitude_not_negative(m1: int, m2: int, distance_squared: int)
    requires
        0 <= m1,
        0 <= m2,
    ensures
        0 <= force_magnitude(m1, m2, distance_squared),
{
    let n = GRAVITATIONAL_CONSTANT * m1 * m2;
    assert(0 <= n) by (nonlinear_arith)
        requires
            n == 66_743 * m1 * m2,
            0 <= m1,
            0 <= m2,
    ;
    lemma_div_pos_is_pos(n, larger(distance_squared, SOFTENING_SQUARED as int));
}

/// A component of the pull has the sign of the same component of the
/// separation.
proof fn lemma_component_sign(magnitude: int, delta: int, distance: int)
    requires
        0 <= magnitude,
        0 < distance,
    ensures
        delta >= 0 ==> div_toward_zero(magnitude * delta, distance) >= 0,
        delta <= 0 ==> div_toward_zero(magnitude * delta, distance) <= 0,
{
    let p = magnitude * delta;
    assert((delta >= 0 ==> p >= 0) && (delta <= 0 ==> p <= 0)) by (nonlinear_arith)
        requires
            p == magnitude * delta,
            0 <= magnitude,
    ;
    if p >= 0 {
        lemma_div_pos_is_pos(p, distance);
    } else {
        lemma_div_pos_is_pos(-p, distance);
    }
}

/// Along the axis of the separation the whole magnitude pulls; across it,
/// nothing does.
proof fn lemma_exact_component(magnitude: int, delta: int, distance: int)
    requires
        0 <= magnitude,
        0 < distance,
        delta == distance || delta == -distance || delta == 0,
    ensures
        div_toward_zero(magnitude * delta, distance) == signum(delta) * magnitude,
{
    lemma_div_by_multiple(magnitude, distance);
    if delta == 0 {
        assert(magnitude * 0 == 0);
        assert(0int / distance == 0) by (nonlinear_arith)
            requires
                distance > 0,
        ;
    } else if delta == distance {
    } else {
        assert(magnitude * delta == -(magnitude * distance)) by (nonlinear_arith)
            requires
                delta == -distance,
        ;
        if magnitude * distance == 0 {
            assert(0int / distance == 0) by (nonlinear_arith)
                requires
                    distance > 0,
            ;
        }
    }
}

/// The sum of the pulls that body `target` exerts on the first `count`
/// bodies.
spec fn pulls_of(bodies: Seq<BodyModel>, count: int, target: int) -> Triple
    decreases count,
{
    if count <= 0 {
        Triple::zero()
    } else {
        pulls_of(bodies, count - 1, target).plus(pair_force(bodies[count - 1], bodies[target]))
    }
}

/// Counting one more body among those that pull adds that body's pull on
/// each of the others.
proof fn lemma_one_more_among(bodies: Seq<BodyModel>, count: int, among: int)
    requires
        0 <= count <= among,
    ensures
        summed_gravity(bodies, count, among + 1) == summed_gravity(bodies, count, among).plus(
            pulls_of(bodies, count, among),
        ),
    decreases count,
{
    if count > 0 {
        lemma_one_more_among(bodies, count - 1, among);
    }
}

/// What the earlier bodies exert on a body is the reverse of what it
/// exerts on them.
proof fn lemma_reaction(bodies: Seq<BodyModel>, target: int, count: int)
    requires
        0 <= count <= target,
    ensures
        gravity_from_first(bodies, target, count) == pulls_of(bodies, count, target).negated(),
    decreases count,
{
    if count > 0 {
        lemma_reaction(bodies, target, count - 1);
        lemma_newtons_third_law(bodies[target], bodies[count - 1]);
    }
}

/// Among the first `count` bodies alone, the pulls cancel.
proof fn lemma_prefix_cancels(bodies: Seq<BodyModel>, count: int)
    requires
        0 <= count,
    ensures
        summed_gravity(bodies, count, count) == Triple::zero(),
    decreases count,
{
    if count > 0 {
        let n = count - 1;
        lemma_prefix_cancels(bodies, n);
        lemma_one_more_among(bodies, n, n);
        lemma_reaction(bodies, n, n);
        assert(gravity_from_first(bodies, n, n + 1) == gravity_from_first(bodies, n, n));
    }
}

} // verus!
