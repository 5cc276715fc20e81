//! Engines and their throttles: how a propulsion setting becomes a thrust
//! force.

use vstd::prelude::*;
use crate::units::{
    div_toward_zero, lemma_div_toward_zero_bound, quotient_toward_zero, HEADING_ONE,
    THROTTLE_ONE,
};
use crate::vector::{Force, Triple, Vector};

verus! {

/// How an engine is driven.
#[derive(Clone, Copy, Debug, PartialEq, Eq, Structural)]
pub enum Throttle {
    /// Either all on (`true`) or all off (`false`).
    Fixed(bool),
    /// A share of full thrust, in millionths. The meaningful range is
    /// `0..=THROTTLE_ONE`; amounts outside it are not confined and scale
    /// the thrust along the same line.
    Variable(i32),
}

impl Default for Throttle {
    fn default() -> (t: Throttle)
        ensures
            t == Throttle::Variable(0),
    {
        Throttle::Variable(0)
    }
}

/// An engine attached to a body.
#[derive(Clone, Copy, Debug, PartialEq, Eq, Structural)]
pub struct Engine {
    /// Fuel on board. Thrust does not draw on it.
    pub fuel: u64,
    /// Thrust at full throttle, in force units.
    pub max_thrust: u64,
    /// The current setting.
    pub throttle: Throttle,
}

impl Default for Engine {
    fn default() -> (e: Engine)
        ensures
            e == (Engine { fuel: 0, max_thrust: 0, throttle: Throttle::Variable(0) }),
    {
        Engine { fuel: 0, max_thrust: 0, throttle: Throttle::Variable(0) }
    }
}

/// The signed size of the thrust an engine delivers at its current
/// setting.
pub open spec fn thrust_magnitude(engine: Engine) -> int {
    match engine.throttle {
        Throttle::Fixed(true) => engine.max_thrust as int,
        Throttle::Fixed(false) => 0,
        Throttle::Variable(amount) => div_toward_zero(
            amount as int * engine.max_thrust as int,
            THROTTLE_ONE as int,
        ),
    }
}

/// The thrust force on a body that points along `heading` and carries
/// `engine`. A body without an engine feels none.
pub open spec fn thrust_force(heading: Triple, engine: Option<Engine>) -> Triple {
    match engine {
        None => Triple::zero(),
        Some(e) => Triple {
            x: div_toward_zero(thrust_magnitude(e) * heading.x, HEADING_ONE as int),
            y: div_toward_zero(thrust_magnitude(e) * heading.y, HEADING_ONE as int),
            z: div_toward_zero(thrust_magnitude(e) * heading.z, HEADING_ONE as int),
        },
    }
}

/// Largest magnitude of thrust any engine can deliver.
pub open spec fn thrust_limit() -> int {
    0x8000_0000_0000_0000_0000_0000int
}

impl Engine {
    /// The signed size of the thrust at the current setting.
    pub fn thrust_magnitude(&self) -> (m: i128)
        ensures
            m == thrust_magnitude(*self),
            -thrust_limit() <= m <= thrust_limit(),
    {
        proof {
            lemma_thrust_magnitude_bound(*self);
        }
        match self.throttle {
            Throttle::Fixed(on) => {
                if on {
                    self.max_thrust as i128
                } else {
                    0
                }
            },
            Throttle::Variable(amount) => {
                let a: i128 = amount as i128;
                let m: i128 = self.max_thrust as i128;
                assert(-thrust_limit() <= a * m <= thrust_limit()) by (nonlinear_arith)
                    requires
                        -0x8000_0000 <= a <= 0x8000_0000,
                        0 <= m <= 0x1_0000_0000_0000_0000,
                ;
                quotient_toward_zero(a * m, THROTTLE_ONE as i128)
            },
        }
    }

    /// The thrust force this engine exerts on a body that points along
    /// `heading`.
    pub(crate) fn thrust_along(&self, heading: &Vector) -> (f: Force)
        requires
            heading@.within(HEADING_ONE as int),
        ensures
            f@ == thrust_force(heading@, Some(*self)),
            f@.within(thrust_limit()),
    {
        let m: i128 = self.thrust_magnitude();
        proof {
            lemma_scaled_component_bound(m as int, heading.x as int);
            lemma_scaled_component_bound(m as int, heading.y as int);
            lemma_scaled_component_bound(m as int, heading.z as int);
        }
        Force {
            x: quotient_toward_zero(m * (heading.x as i128), HEADING_ONE as i128),
            y: quotient_toward_zero(m * (heading.y as i128), HEADING_ONE as i128),
            z: quotient_toward_zero(m * (heading.z as i128), HEADING_ONE as i128),
        }
    }
}

/// What each throttle setting delivers: a fixed throttle that is on gives
/// the engine's full thrust and one that is off gives none; a variable
/// throttle at zero gives none, and at half of `THROTTLE_ONE` gives half
/// the full thrust, rounded down.
pub proof fn lemma_throttle_semantics(fuel: u64, max_thrust: u64)
    ensures
        thrust_magnitude(Engine { fuel, max_thrust, throttle: Throttle::Fixed(true) })
            == max_thrust,
        thrust_magnitude(Engine { fuel, max_thrust, throttle: Throttle::Fixed(false) }) == 0,
        thrust_magnitude(Engine { fuel, max_thrust, throttle: Throttle::Variable(0) }) == 0,
        thrust_magnitude(Engine { fuel, max_thrust, throttle: Throttle::Variable(500_000) })
            == max_thrust / 2,
        max_thrust % 2 == 0 ==> 2 * thrust_magnitude(
            Engine { fuel, max_thrust, throttle: Throttle::Variable(500_000) },
        ) == max_thrust,
{
    let m = max_thrust as int;
    assert(0int * m == 0);
    assert(500_000int * m == 500_000 * m);
}

/// No engine delivers more than `thrust_limit()`, whichever way.
pub proof fn lemma_thrust_magnitude_bound(engine: Engine)
    ensures
        -thrust_limit() <= thrust_magnitude(engine) <= thrust_limit(),
{
    let m = engine.max_thrust as int;
    match engine.throttle {
        Throttle::Fixed(_) => {},
        Throttle::Variable(amount) => {
            let a = amount as int;
            assert(-thrust_limit() <= a * m <= thrust_limit()) by (nonlinear_arith)
                requires
                    -0x8000_0000 <= a <= 0x8000_0000,
                    0 <= m <= 0x1_0000_0000_0000_0000,
            ;
            lemma_div_toward_zero_bound(a * m, THROTTLE_ONE as int, thrust_limit());
        },
    }
}

/// Along a heading no longer than `HEADING_ONE` on any axis, no component
/// of the thrust exceeds `thrust_limit()`.
pub proof fn lemma_thrust_force_bound(heading: Triple, engine: Option<Engine>)
    requires
        heading.within(HEADING_ONE as int),
    ensures
        thrust_force(heading, engine).within(thrust_limit()),
{
    match engine {
        None => {},
        Some(e) => {
            lemma_thrust_magnitude_bound(e);
            lemma_scaled_component_bound(thrust_magnitude(e), heading.x);
            lemma_scaled_component_bound(thrust_magnitude(e), heading.y);
            lemma_scaled_component_bound(thrust_magnitude(e), heading.z);
        },
    }
}

/// One coordinate of the thrust: the product the quotient is taken of,
/// and the quotient, stay within bounds.
proof fn lemma_scaled_component_bound(magnitude: int, h: int)
    requires
        -thrust_limit() <= magnitude <= thrust_limit(),
        -HEADING_ONE <= h <= HEADING_ONE,
    ensures
        -thrust_limit() * HEADING_ONE <= magnitude * h <= thrust_limit() * HEADING_ONE,
        -thrust_limit() <= div_toward_zero(magnitude * h, HEADING_ONE as int) <= thrust_limit(),
{
    let t = thrust_limit();
    let one = HEADING_ONE as int;
    assert(-t * one <= magnitude * h <= t * one) by (nonlinear_arith)
        requires
            -t <= magnitude <= t,
            -one <= h <= one,
            t >= 0,
            one >= 0,
    ;
    let p = magnitude * h;
    if p >= 0 {
        assert(p / one <= t) by (nonlinear_arith)
            requires
                0 <= p <= t * one,
                one > 0,
        ;
        assert(p / one >= 0) by (nonlinear_arith)
            requires
                0 <= p,
                one > 0,
        ;
    } else {
        let q = -p;
        assert(q / one <= t) by (nonlinear_arith)
            requires
                0 <= q <= t * one,
                one > 0,
        ;
        assert(q / one >= 0) by (nonlinear_arith)
            requires
                0 <= q,
                one > 0,
        ;
    }
}

} // verus!
