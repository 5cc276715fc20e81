//! Bodies: the plain records a caller fills in, and the checked value the
//! simulation works on.

use vstd::prelude::*;
use crate::ships::Engine;
use crate::units::{HEADING_ONE, LIMIT, MAX_MASS};
use crate::vector::{Triple, Vector};

verus! {

/// How a body moves: its velocity, the acceleration last computed for it,
/// and its mass. The acceleration is a record of the last step, not a
/// state: every step computes it anew.
#[derive(Clone, Copy, Debug, PartialEq, Eq, Structural)]
pub struct Kinimatics {
    pub velocity: Vector,
    pub acceleration: Vector,
    pub mass: i64,
}

impl Default for Kinimatics {
    fn default() -> (k: Kinimatics)
        ensures
            k == (Kinimatics {
                velocity: Vector { x: 0, y: 0, z: 0 },
                acceleration: Vector { x: 0, y: 0, z: 0 },
                mass: 0,
            }),
    {
        Kinimatics { velocity: Vector::zero(), acceleration: Vector::zero(), mass: 0 }
    }
}

/// Where a body is and which way it points. The heading is the body's
/// forward direction, a vector of length `HEADING_ONE`.
#[derive(Clone, Copy, Debug, PartialEq, Eq, Structural)]
pub struct Transform {
    pub translation: Vector,
    pub heading: Vector,
}

impl Default for Transform {
    fn default() -> (t: Transform)
        ensures
            t == (Transform {
                translation: Vector { x: 0, y: 0, z: 0 },
                heading: Vector { x: 0, y: HEADING_ONE, z: 0 },
            }),
    {
        Transform { translation: Vector::zero(), heading: Vector::new(0, HEADING_ONE, 0) }
    }
}

/// Everything that describes a body but its engine. A bundle is a plain
/// record: nothing is checked until it is handed to `Body::new`.
#[derive(Clone, Copy, Debug, PartialEq, Eq, Structural)]
pub struct KinimaticsBundle {
    pub transform: Transform,
    pub kinimatics: Kinimatics,
}

impl Default for KinimaticsBundle {
    fn default() -> (b: KinimaticsBundle)
        ensures
            b == KinimaticsBundle::blank(),
    {
        KinimaticsBundle { transform: Transform::default(), kinimatics: Kinimatics::default() }
    }
}

impl KinimaticsBundle {
    /// The bundle every build starts from: at the origin, pointing along
    /// the second axis, at rest and without mass.
    pub open spec fn blank() -> KinimaticsBundle {
        KinimaticsBundle {
            transform: Transform {
                translation: Vector { x: 0, y: 0, z: 0 },
                heading: Vector { x: 0, y: HEADING_ONE, z: 0 },
            },
            kinimatics: Kinimatics {
                velocity: Vector { x: 0, y: 0, z: 0 },
                acceleration: Vector { x: 0, y: 0, z: 0 },
                mass: 0,
            },
        }
    }

    /// Starts a bundle.
    pub fn build() -> (b: KinimaticsBundle)
        ensures
            b == KinimaticsBundle::blank(),
    {
        KinimaticsBundle { transform: Transform::default(), kinimatics: Kinimatics::default() }
    }

    /// The bundle with its position and heading replaced.
    pub fn insert_transform(self, t: Transform) -> (b: KinimaticsBundle)
        ensures
            b == (KinimaticsBundle { transform: t, ..self }),
    {
        KinimaticsBundle { transform: t, kinimatics: self.kinimatics }
    }

    /// The bundle with its velocity, acceleration and mass replaced.
    pub fn insert_kinimatics(self, k: Kinimatics) -> (b: KinimaticsBundle)
        ensures
            b == (KinimaticsBundle { kinimatics: k, ..self }),
    {
        KinimaticsBundle { transform: self.transform, kinimatics: k }
    }

    /// The bundle with its position replaced.
    pub fn insert_translation(self, t: Vector) -> (b: KinimaticsBundle)
        ensures
            b == (KinimaticsBundle {
                transform: Transform { translation: t, ..self.transform },
                ..self
            }),
    {
        KinimaticsBundle {
            transform: Transform { translation: t, heading: self.transform.heading },
            kinimatics: self.kinimatics,
        }
    }

    /// The bundle with its velocity replaced.
    pub fn insert_velocity(self, v: Vector) -> (b: KinimaticsBundle)
        ensures
            b == (KinimaticsBundle {
                kinimatics: Kinimatics { velocity: v, ..self.kinimatics },
                ..self
            }),
    {
        KinimaticsBundle {
            transform: self.transform,
            kinimatics: Kinimatics {
                velocity: v,
                acceleration: self.kinimatics.acceleration,
                mass: self.kinimatics.mass,
            },
        }
    }

    /// The bundle with its acceleration replaced.
    pub fn insert_acceleration(self, a: Vector) -> (b: KinimaticsBundle)
        ensures
            b == (KinimaticsBundle {
                kinimatics: Kinimatics { acceleration: a, ..self.kinimatics },
                ..self
            }),
    {
        KinimaticsBundle {
            transform: self.transform,
            kinimatics: Kinimatics {
                velocity: self.kinimatics.velocity,
                acceleration: a,
                mass: self.kinimatics.mass,
            },
        }
    }

    /// The bundle with its mass replaced.
    pub fn insert_mass(self, m: i64) -> (b: KinimaticsBundle)
        ensures
            b == (KinimaticsBundle {
                kinimatics: Kinimatics { mass: m, ..self.kinimatics },
                ..self
            }),
    {
        KinimaticsBundle {
            transform: self.transform,
            kinimatics: Kinimatics {
                velocity: self.kinimatics.velocity,
                acceleration: self.kinimatics.acceleration,
                mass: m,
            },
        }
    }
}

/// Why a bundle cannot become a body.
#[derive(Clone, Copy, Debug, PartialEq, Eq, Structural)]
pub enum BodyError {
    /// The mass is zero or negative.
    InvalidMass,
    /// The mass exceeds `MAX_MASS`.
    MassTooLarge,
    /// A coordinate of the position lies outside `[-LIMIT, LIMIT]`.
    TranslationOutOfRange,
    /// A coordinate of the velocity lies outside `[-LIMIT, LIMIT]`.
    VelocityOutOfRange,
    /// A coordinate of the acceleration lies outside `[-LIMIT, LIMIT]`.
    AccelerationOutOfRange,
    /// A coordinate of the heading lies outside
    /// `[-HEADING_ONE, HEADING_ONE]`.
    HeadingOutOfRange,
}

/// A body as the laws of motion see it.
pub struct BodyModel {
    pub mass: int,
    pub position: Triple,
    pub velocity: Triple,
    pub acceleration: Triple,
    pub heading: Triple,
    pub engine: Option<Engine>,
}

impl BodyModel {
    /// The mass is positive and every quantity is within its limit.
    pub open spec fn valid(self) -> bool {
        &&& 0 < self.mass <= MAX_MASS
        &&& self.position.within(LIMIT as int)
        &&& self.velocity.within(LIMIT as int)
        &&& self.acceleration.within(LIMIT as int)
        &&& self.heading.within(HEADING_ONE as int)
    }
}

/// The model of the body that `bundle` and `engine` describe.
pub open spec fn model_of(bundle: KinimaticsBundle, engine: Option<Engine>) -> BodyModel {
    BodyModel {
        mass: bundle.kinimatics.mass as int,
        position: bundle.transform.translation@,
        velocity: bundle.kinimatics.velocity@,
        acceleration: bundle.kinimatics.acceleration@,
        heading: bundle.transform.heading@,
        engine,
    }
}

/// The first reason, in the order of `BodyError`'s variants, for which the
/// described body is refused; `None` when it is accepted.
pub open spec fn rejection(bundle: KinimaticsBundle) -> Option<BodyError> {
    if bundle.kinimatics.mass <= 0 {
        Some(BodyError::InvalidMass)
    } else if bundle.kinimatics.mass > MAX_MASS {
        Some(BodyError::MassTooLarge)
    } else if !bundle.transform.translation@.within(LIMIT as int) {
        Some(BodyError::TranslationOutOfRange)
    } else if !bundle.kinimatics.velocity@.within(LIMIT as int) {
        Some(BodyError::VelocityOutOfRange)
    } else if !bundle.kinimatics.acceleration@.within(LIMIT as int) {
        Some(BodyError::AccelerationOutOfRange)
    } else if !bundle.transform.heading@.within(HEADING_ONE as int) {
        Some(BodyError::HeadingOutOfRange)
    } else {
        None
    }
}

/// A point mass that has passed every check: it has a position, a heading,
/// a velocity, a mass, and possibly an engine.
#[derive(Clone, Copy, Debug, PartialEq, Eq, Structural)]
pub struct Body {
    bundle: KinimaticsBundle,
    engine: Option<Engine>,
}

impl View for Body {
    type V = BodyModel;

    closed spec fn view(&self) -> BodyModel {
        model_of(self.bundle, self.engine)
    }
}

impl Body {
    /// The body is one that `new` accepts.
    pub open spec fn wf(&self) -> bool {
        self@.valid()
    }

    /// The body that `bundle` and `engine` describe, or the first reason
    /// for which it is refused.
    pub fn new(bundle: KinimaticsBundle, engine: Option<Engine>) -> (made: Result<Body, BodyError>)
        ensures
            match made {
                Ok(body) => {
                    &&& rejection(bundle) is None
                    &&& model_of(bundle, engine).valid()
                    &&& body.wf()
                    &&& body@ == model_of(bundle, engine)
                },
                Err(error) => rejection(bundle) == Some(error) && !model_of(bundle, engine).valid(),
            },
    {
        let heading = bundle.transform.heading;
        if bundle.kinimatics.mass <= 0 {
            Err(BodyError::InvalidMass)
        } else if bundle.kinimatics.mass > MAX_MASS {
            Err(BodyError::MassTooLarge)
        } else if !bundle.transform.translation.in_range() {
            Err(BodyError::TranslationOutOfRange)
        } else if !bundle.kinimatics.velocity.in_range() {
            Err(BodyError::VelocityOutOfRange)
        } else if !bundle.kinimatics.acceleration.in_range() {
            Err(BodyError::AccelerationOutOfRange)
        } else if !(-HEADING_ONE <= heading.x && heading.x <= HEADING_ONE && -HEADING_ONE
            <= heading.y && heading.y <= HEADING_ONE && -HEADING_ONE <= heading.z && heading.z
            <= HEADING_ONE) {
            Err(BodyError::HeadingOutOfRange)
        } else {
            Ok(Body { bundle, engine })
        }
    }

    /// The body's position and heading.
    pub fn transform(&self) -> (t: Transform)
        ensures
            t.translation@ == self@.position,
            t.heading@ == self@.heading,
    {
        self.bundle.transform
    }

    /// The body's velocity, last acceleration and mass.
    pub fn kinimatics(&self) -> (k: Kinimatics)
        ensures
            k.velocity@ == self@.velocity,
            k.acceleration@ == self@.acceleration,
            k.mass == self@.mass,
    {
        self.bundle.kinimatics
    }

    /// The body's engine, if it has one.
    pub fn engine(&self) -> (e: Option<Engine>)
        ensures
            e == self@.engine,
    {
        self.engine
    }

    /// The same body with `engine` in place of the engine it had, or with
    /// none. This is how a change of throttle reaches a body.
    pub fn with_engine(&self, engine: Option<Engine>) -> (body: Body)
        ensures
            body@ == (BodyModel { engine, ..self@ }),
            body.wf() == self.wf(),
    {
        Body { bundle: self.bundle, engine }
    }

    /// The same body turned to point along `heading`, or
    /// `HeadingOutOfRange` if a coordinate of `heading` lies outside
    /// `[-HEADING_ONE, HEADING_ONE]`.
    pub fn with_heading(&self, heading: Vector) -> (turned: Result<Body, BodyError>)
        ensures
            match turned {
                Ok(body) => {
                    &&& heading@.within(HEADING_ONE as int)
                    &&& body@ == (BodyModel { heading: heading@, ..self@ })
                    &&& self.wf() ==> body.wf()
                },
                Err(error) => {
                    &&& !heading@.within(HEADING_ONE as int)
                    &&& error == BodyError::HeadingOutOfRange
                },
            },
    {
        if -HEADING_ONE <= heading.x && heading.x <= HEADING_ONE && -HEADING_ONE <= heading.y
            && heading.y <= HEADING_ONE && -HEADING_ONE <= heading.z && heading.z <= HEADING_ONE {
            Ok(
                Body {
                    bundle: KinimaticsBundle {
                        transform: Transform {
                            translation: self.bundle.transform.translation,
                            heading,
                        },
                        kinimatics: self.bundle.kinimatics,
                    },
                    engine: self.engine,
                },
            )
        } else {
            Err(BodyError::HeadingOutOfRange)
        }
    }

    /// The same body, moved: with the given position, velocity and
    /// acceleration, and everything else as it was.
    pub(crate) fn moved(&self, position: Vector, velocity: Vector, acceleration: Vector) -> (body:
        Body)
        requires
            self.wf(),
            position@.within(LIMIT as int),
            velocity@.within(LIMIT as int),
            acceleration@.within(LIMIT as int),
        ensures
            body.wf(),
            body@ == (BodyModel {
                position: position@,
                velocity: velocity@,
                acceleration: acceleration@,
                ..self@
            }),
    {
        Body {
            bundle: KinimaticsBundle {
                transform: Transform {
                    translation: position,
                    heading: self.bundle.transform.heading,
                },
                kinimatics: Kinimatics {
                    velocity,
                    acceleration,
                    mass: self.bundle.kinimatics.mass,
                },
            },
            engine: self.engine,
        }
    }
}

/// The models of `bodies`, in order.
pub open spec fn models(bodies: Seq<Body>) -> Seq<BodyModel> {
    bodies.map_values(|b: Body| b@)
}

/// Every body of the set is valid.
pub open spec fn all_valid(bodies: Seq<BodyModel>) -> bool {
    forall|i: int| 0 <= i < bodies.len() ==> (#[trigger] bodies[i]).valid()
}

} // verus!
