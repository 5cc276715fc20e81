//! Looking ahead: the course every body will follow, and the pool of
//! markers that shows it.

use vstd::prelude::*;
use vstd::arithmetic::div_mod::lemma_fundamental_div_mod_converse;
use crate::body::{all_valid, models, Body, BodyModel};
use crate::markers::{pool_change, reconcile_markers, PoolChange, ProjectionDot};
use crate::physics::{kinimatics_system, step};
use crate::units::{Span, TimeStep, MAX_BODIES};
use crate::vector::{Triple, Vector};

verus! {

/// The set after `count` steps of the span `dt`.
pub open spec fn state_after(bodies: Seq<BodyModel>, dt: Span, count: nat) -> Seq<BodyModel>
    decreases count,
{
    if count == 0 {
        bodies
    } else {
        step(state_after(bodies, dt, (count - 1) as nat), dt)
    }
}

/// The span of one step of a projection that takes `resolution` steps to
/// the second.
pub open spec fn step_span(resolution: int) -> Span {
    Span { num: 1, den: resolution }
}

/// The point with the given index in a course projected at `resolution`
/// steps to the second. Points come step by step, and within a step body
/// by body: with `n` bodies, point `k` is where body `k % n` is after
/// `k / n + 1` steps.
pub open spec fn projected_point(bodies: Seq<BodyModel>, resolution: int, index: int) -> Triple {
    let n = bodies.len() as int;
    state_after(bodies, step_span(resolution), (index / n + 1) as nat)[index % n].position
}

/// `points` is the course of `bodies` over `horizon` seconds at
/// `resolution` steps to the second.
pub open spec fn is_projection(
    bodies: Seq<BodyModel>,
    horizon: int,
    resolution: int,
    points: Seq<Vector>,
) -> bool {
    &&& points.len() == horizon * resolution * bodies.len()
    &&& forall|k: int|
        0 <= k < points.len() ==> (#[trigger] points[k])@ == projected_point(bodies, resolution, k)
}

/// The course of `bodies` over the next `horizon` seconds, at `resolution`
/// steps to the second. The bodies themselves are left as they are: the
/// steps are taken on a copy, with every engine held at its current
/// setting.
pub fn project_course(bodies: &Vec<Body>, horizon: u32, resolution: u32) -> (points: Vec<Vector>)
    requires
        bodies.len() <= MAX_BODIES,
        all_valid(models(bodies@)),
        horizon * resolution * bodies.len() <= usize::MAX,
    ensures
        is_projection(models(bodies@), horizon as int, resolution as int, points@),
        points.len() == horizon * resolution * bodies.len(),
{
    let mut points: Vec<Vector> = Vec::new();
    let n = bodies.len();
    let ghost start = models(bodies@);
    if n == 0 {
        assert(horizon * resolution * 0 == 0);
        return points;
    }
    let dt = match TimeStep::new(1, resolution) {
        Some(dt) => dt,
        None => {
            assert(horizon * resolution == 0) by (nonlinear_arith)
                requires
                    resolution == 0,
            ;
            return points;
        },
    };
    let mut state: Vec<Body> = Vec::new();
    let mut c: usize = 0;
    while c < n
        invariant
            c <= n,
            n == bodies.len(),
            state.len() == c,
            forall|a: int| 0 <= a < c ==> (#[trigger] state[a]) == bodies[a],
        decreases n - c,
    {
        state.push(bodies[c]);
        c += 1;
    }
    assert(models(state@) =~= start);
    assert(horizon * resolution <= 0xffff_ffff * 0xffff_ffff) by (nonlinear_arith)
        requires
            horizon <= 0xffff_ffff,
            resolution <= 0xffff_ffff,
    ;
    let steps: u64 = horizon as u64 * resolution as u64;
    let mut k: u64 = 0;
    while k < steps
        invariant
            k <= steps,
            steps == horizon * resolution,
            0 < n <= MAX_BODIES,
            n == state.len(),
            n == start.len(),
            all_valid(start),
            dt.wf(),
            dt@ == step_span(resolution as int),
            models(state@) == state_after(start, dt@, k as nat),
            all_valid(models(state@)),
            points.len() == k * n,
            forall|a: int|
                0 <= a < points.len() ==> (#[trigger] points[a])@ == projected_point(
                    start,
                    resolution as int,
                    a,
                ),
        decreases steps - k,
    {
        kinimatics_system(&mut state, dt);
        let ghost now = models(state@);
        let mut i: usize = 0;
        while i < n
            invariant
                i <= n,
                0 < n,
                n == state.len(),
                n == start.len(),
                now == models(state@),
                now == state_after(start, step_span(resolution as int), (k + 1) as nat),
                points.len() == k * n + i,
                forall|a: int|
                    0 <= a < points.len() ==> (#[trigger] points[a])@ == projected_point(
                        start,
                        resolution as int,
                        a,
                    ),
            decreases n - i,
        {
            let place = state[i].transform().translation;
            proof {
                let index = k * n + i;
                lemma_fundamental_div_mod_converse(index, n as int, k as int, i as int);
                assert(now[i as int] == state[i as int]@);
            }
            points.push(place);
            i += 1;
        }
        proof {
            assert(k * n + n == (k + 1) * n) by (nonlinear_arith);
        }
        k += 1;
    }
    proof {
        assert(horizon * resolution * bodies.len() == steps * n);
    }
    points
}

/// Projects the course of `bodies` and fits the pool of markers to it:
/// afterwards the pool holds one marker for every point of the course, in
/// the order of the points. Returns what was done to the pool's size.
pub fn course_projection_system(
    bodies: &Vec<Body>,
    dots: &mut Vec<ProjectionDot>,
    horizon: u32,
    resolution: u32,
) -> (change: PoolChange)
    requires
        bodies.len() <= MAX_BODIES,
        all_valid(models(bodies@)),
        horizon * resolution * bodies.len() <= usize::MAX,
    ensures
        final(dots).len() == horizon * resolution * bodies.len(),
        forall|k: int|
            0 <= k < final(dots).len() ==> (#[trigger] final(dots)[k]).position@
                == projected_point(models(bodies@), resolution as int, k),
        change == pool_change(
            old(dots).len(),
            (horizon * resolution * bodies.len()) as usize,
        ),
{
    let points = project_course(bodies, horizon, resolution);
    reconcile_markers(dots, &points)
}

/// A projection is determined by the set it starts from: two courses
/// projected from the same set, over the same horizon and at the same
/// resolution, are equal point for point.
pub proof fn lemma_projection_deterministic(
    bodies: Seq<BodyModel>,
    horizon: int,
    resolution: int,
    first: Seq<Vector>,
    second: Seq<Vector>,
)
    requires
        is_projection(bodies, horizon, resolution, first),
        is_projection(bodies, horizon, resolution, second),
    ensures
        first == second,
{
    assert forall|k: int| 0 <= k < first.len() implies first[k] == second[k] by {
        assert(first[k]@ == second[k]@);
    }
    assert(first =~= second);
}

/// A projection changes only how the bodies move: after any number of
/// steps the set has as many bodies as before, and every body has the
/// mass, the heading and the engine, at the same setting, that it started
/// with.
pub proof fn lemma_projection_holds_engines(bodies: Seq<BodyModel>, dt: Span, count: nat)
    ensures
        state_after(bodies, dt, count).len() == bodies.len(),
        forall|i: int|
            0 <= i < bodies.len() ==> {
                let then = #[trigger] state_after(bodies, dt, count)[i];
                &&& then.engine == bodies[i].engine
                &&& then.mass == bodies[i].mass
                &&& then.heading == bodies[i].heading
            },
    decreases count,
{
    if count > 0 {
        lemma_projection_holds_engines(bodies, dt, (count - 1) as nat);
    }
}

} // verus!
